use vstd::prelude::*;
use vstd::arithmetic::power2::*;
use vstd::arithmetic::div_mod::*;
use vstd::bits::*;

verus! {

/// The number of bits of a mask that covers `n` bytes, saturating at 64 bits.
pub open spec fn mask_bits(n: int) -> nat {
    if n >= 8 {
        64
    } else if n <= 0 {
        0
    } else {
        (8 * n) as nat
    }
}

/// The value of a mask covering the low `n` bytes of a 64-bit word.
pub open spec fn byte_mask(n: int) -> nat {
    low_bits_mask(mask_bits(n))
}

/// `value` sign-extended from bit `s`: the low `s` bits are kept and every
/// higher bit takes the value of bit `s`.  Positions at or beyond the word
/// size leave the value unchanged.
pub open spec fn sign_extend_spec(value: int, s: nat) -> int {
    if s >= 64 {
        value
    } else if (value / pow2(s) as int) % 2 == 1 {
        value % (pow2(s) as int) - pow2(s)
    } else {
        value % (pow2(s) as int)
    }
}

/// `value` with every bit above bit `s` cleared (bits `0..=s` are kept).
pub open spec fn zero_extend_spec(value: int, s: nat) -> int {
    if s >= 63 {
        value
    } else {
        value % (pow2(s + 1) as int)
    }
}

/// Byte `k` (counting from the least significant) of the two's complement
/// expansion of `value`; beyond the word the sign is repeated.
pub open spec fn byte_of(value: int, k: nat) -> int {
    (value / (pow2(8 * k) as int)) % 256
}

/// The first `n` bytes of `value` (least significant first) laid out in the
/// opposite order: byte `k` of `value` lands at byte position `n - 1 - k`.
pub open spec fn reversed_bytes(value: int, n: nat) -> int
    decreases n,
{
    if n == 0 {
        0
    } else {
        reversed_bytes(value, (n - 1) as nat) * 256 + byte_of(value, (n - 1) as nat)
    }
}

/// The signed 64-bit integer whose two's complement bit pattern is `x` modulo 2^64.
pub open spec fn as_i64_pattern(x: int) -> int {
    let m = x % 0x1_0000_0000_0000_0000;
    if m >= 0x8000_0000_0000_0000 {
        m - 0x1_0000_0000_0000_0000
    } else {
        m
    }
}

/// The shift amount that a `usize` becomes when cast to a `u32`.
pub open spec fn shift_of(size: usize) -> nat {
    (size as u32) as nat
}

proof fn lemma_pow2_values_bytes()
    ensures
        pow2(0) == 1,
        pow2(8) == 0x100,
        pow2(16) == 0x1_0000,
        pow2(24) == 0x100_0000,
        pow2(32) == 0x1_0000_0000,
        pow2(40) == 0x100_0000_0000,
        pow2(48) == 0x1_0000_0000_0000,
        pow2(56) == 0x100_0000_0000_0000,
        pow2(63) == 0x8000_0000_0000_0000,
        pow2(64) == 0x1_0000_0000_0000_0000,
{
    lemma2_to64();
    lemma2_to64_rest();
}

/// Returns the mask that covers the low `index` bytes of a 64-bit word; an
/// index of eight or more gives the full mask.
pub fn calculate_mask(index: usize) -> (r: u64)
    ensures
        r == byte_mask(index as int),
{
    proof {
        lemma_pow2_values_bytes();
    }
    if index == 0 {
        0
    } else if index == 1 {
        0xff
    } else if index == 2 {
        0xffff
    } else if index == 3 {
        0xff_ffff
    } else if index == 4 {
        0xffff_ffff
    } else if index == 5 {
        0xff_ffff_ffff
    } else if index == 6 {
        0xffff_ffff_ffff
    } else if index == 7 {
        0xff_ffff_ffff_ffff
    } else {
        0xffff_ffff_ffff_ffff
    }
}

/// For `t < 64`, clearing every bit of `value` from bit `t` up gives
/// `value mod 2^t`.
proof fn lemma_i64_low_bits(value: i64, t: u32)
    requires
        t < 64,
    ensures
        (value & !((!0i64) << t)) as int == (value as int) % (pow2(t as nat) as int),
        0 <= (value & !((!0i64) << t)),
{
    let u = value as u64;
    let lm: u64 = ((1u64 << (t as u64)) - 1) as u64;
    lemma_u64_pow2_no_overflow(t as nat);
    lemma_u64_shl_is_mul(1, t as u64);
    assert(1u64 << (t as u64) == pow2(t as nat));
    assert(lm == low_bits_mask(t as nat));
    lemma_u64_low_bits_mask_is_mod(u, t as nat);
    assert((u & lm) == u % (pow2(t as nat) as u64));
    assert(((value & !((!0i64) << t)) as u64) == (u & (((1u64 << (t as u64)) - 1) as u64)))
        by (bit_vector)
        requires
            t < 64,
            u == value as u64,
    ;
    assert(value & !((!0i64) << t) >= 0) by (bit_vector)
        requires
            t < 64,
    ;
    // relate the unsigned pattern to the signed value
    lemma_pow2_values_bytes();
    if value >= 0 {
        assert(u as int == value as int);
    } else {
        assert(u as int == value as int + 0x1_0000_0000_0000_0000) by (bit_vector)
            requires
                u == value as u64,
                value < 0,
        ;
        lemma_pow2_adds(t as nat, (64 - t) as nat);
        lemma_pow2_pos(t as nat);
        lemma_pow2_pos((64 - t) as nat);
        assert(0x1_0000_0000_0000_0000 == pow2(t as nat) * pow2((64 - t) as nat));
        lemma_mod_multiples_vanish(
            pow2((64 - t) as nat) as int,
            value as int,
            pow2(t as nat) as int,
        );
        assert((pow2((64 - t) as nat) as int) * (pow2(t as nat) as int) == 0x1_0000_0000_0000_0000)
            by (nonlinear_arith)
            requires
                0x1_0000_0000_0000_0000 == pow2(t as nat) * pow2((64 - t) as nat),
        ;
    }
}

/// Sign-extends `value` from bit `size` (the bit that holds the sign).
pub fn sign_extend(value: i64, size: usize) -> (r: i64)
    ensures
        r as int == sign_extend_spec(value as int, shift_of(size)),
{
    #[verifier::truncate]
    let s = size as u32;
    if s >= 64 {
        return value;
    }
    let mask: i64 = (!0i64) << s;
    proof {
        lemma_i64_low_bits(value, s);
        lemma_pow2_pos(s as nat);
        lemma_u64_pow2_no_overflow(s as nat);
        let u = value as u64;
        lemma_u64_shr_is_div(u, s as u64);
        lemma_pow2_values_bytes();
        // the tested bit is bit `s` of the unsigned pattern
        assert((((value >> s) & 1) != 0) == (((u >> (s as u64)) % 2) == 1)) by (bit_vector)
            requires
                s < 64,
                u == value as u64,
        ;
        // parity of the quotient does not depend on the 2^64 correction
        if value < 0 {
            assert(u as int == value as int + 0x1_0000_0000_0000_0000) by (bit_vector)
                requires
                    u == value as u64,
                    value < 0,
            ;
            lemma_pow2_adds(s as nat, (64 - s) as nat);
            lemma_pow2_unfold((64 - s) as nat);
            let k = pow2((64 - s) as nat) as int;
            let d = pow2(s as nat) as int;
            assert(k * d == 0x1_0000_0000_0000_0000) by (nonlinear_arith)
                requires
                    0x1_0000_0000_0000_0000 == pow2(s as nat) * pow2((64 - s) as nat),
                    k == pow2((64 - s) as nat),
                    d == pow2(s as nat),
            ;
            let q = (value as int) / d;
            let r = (value as int) % d;
            lemma_fundamental_div_mod(value as int, d);
            assert(k * d + value as int == d * (k + q) + r) by (nonlinear_arith)
                requires
                    value as int == d * q + r,
            ;
            lemma_div_multiples_vanish_fancy(k + q, r, d);
            assert((k * d + value as int) / d == k + (value as int) / d);
            assert(k % 2 == 0);
            lemma_mod_adds(k, (value as int) / d, 2);
            assert((k + (value as int) / d) % 2 == ((value as int) / d) % 2);
        }
    }
    if (value >> s) & 1 != 0 {
        proof {
            let low = value & !mask;
            assert(value | mask == low + mask && mask as int == -(pow2(s as nat) as int)) by {
                assert(value | ((!0i64) << s) == (value & !((!0i64) << s)) + ((!0i64) << s))
                    by (bit_vector)
                    requires
                        s < 64,
                ;
                lemma_u64_shl_is_mul(1, s as u64);
                assert(((!0i64) << s) as int == -((1u64 << (s as u64)) as int)) by (bit_vector)
                    requires
                        s < 64,
                ;
            }
        }
        value | mask
    } else {
        value & !mask
    }
}

/// Keeps bits `0..=size` of `value` and clears every higher bit.
pub fn zero_extend(value: i64, size: usize) -> (r: i64)
    ensures
        r as int == zero_extend_spec(value as int, shift_of(size)),
{
    let s = size as u32;
    if s >= 63 {
        return value;
    }
    let t = s + 1;
    let mask: i64 = (!0i64) << t;
    proof {
        lemma_i64_low_bits(value, t);
    }
    value & !mask
}

/// The two's complement pattern of a signed 64-bit value, read as an
/// unsigned number, is the value modulo 2^64; reading it back gives the value.
proof fn lemma_i64_pattern(x: i64)
    ensures
        (x as u64) as int == (x as int) % 0x1_0000_0000_0000_0000,
        as_i64_pattern((x as u64) as int) == x as int,
        as_i64_pattern(x as int) == x as int,
{
    if x >= 0 {
        assert((x as u64) as int == x as int);
    } else {
        assert((x as u64) as int == x as int + 0x1_0000_0000_0000_0000) by (bit_vector)
            requires
                x < 0,
        ;
        lemma_mod_add_multiples_vanish(x as int, 0x1_0000_0000_0000_0000);
    }
    lemma_small_mod((x as u64) as nat, 0x1_0000_0000_0000_0000);
}

/// Floor division by `c` and then by `d` is floor division by `c * d`.
proof fn lemma_floor_div_div(x: int, c: int, d: int)
    requires
        0 < c,
        0 < d,
    ensures
        (x / c) / d == x / (c * d),
{
    let q1 = x / c;
    let r1 = x % c;
    let q2 = q1 / d;
    let r2 = q1 % d;
    lemma_fundamental_div_mod(x, c);
    lemma_fundamental_div_mod(q1, d);
    assert(x == (c * d) * q2 + (c * r2 + r1) && 0 <= c * r2 + r1 < c * d) by (nonlinear_arith)
        requires
            x == c * q1 + r1,
            q1 == d * q2 + r2,
            0 <= r1 < c,
            0 <= r2 < d,
            0 < c,
            0 < d,
    ;
    lemma_fundamental_div_mod_converse_div(x, c * d, q2, c * r2 + r1);
}

/// Congruent integers have the same signed 64-bit pattern.
proof fn lemma_pattern_congruent(a: int, b: int)
    requires
        a % 0x1_0000_0000_0000_0000 == b % 0x1_0000_0000_0000_0000,
    ensures
        as_i64_pattern(a) == as_i64_pattern(b),
{
}

/// Reverses the order of the low `size` bytes of `value`; bytes beyond the
/// word repeat the sign, and only the last eight bytes produced are kept.
pub fn byte_swap(value: i64, size: usize) -> (r: i64)
    ensures
        r as int == as_i64_pattern(reversed_bytes(value as int, size as nat)),
        size <= 8 ==> forall|i: nat|
            i < 8 ==> #[trigger] byte_of(r as int, i) == if i < size {
                byte_of(value as int, (size - 1 - i) as nat)
            } else {
                0
            },
        size <= 8 ==> as_i64_pattern(reversed_bytes(r as int, size as nat)) == if size == 8 {
            value as int
        } else {
            (value as int) % (pow2(8 * size as nat) as int)
        },
{
    proof {
        if size <= 8 {
            lemma_byte_swap_bytes(value, size as nat);
            lemma_byte_swap_twice(value, size as nat);
        }
    }
    let mut res = 0i64;
    let mut val = value;
    let mut size = size;
    let ghost n = size as nat;
    let ghost mut i: nat = 0;
    proof {
        lemma2_to64();
        lemma_i64_pattern(0);
        assert(pow2(8 * i) == 1);
        assert((value as int) / 1 == value as int);
    }
    while size > 0
        invariant
            i + size == n,
            res as int == as_i64_pattern(reversed_bytes(value as int, i)),
            val as int == (value as int) / (pow2(8 * i) as int),
        decreases size,
    {
        let ghost old_res = res;
        let ghost old_val = val;
        let b: i64 = val & 0xff;
        res = (res << 8u32) | b;
        val = val >> 8u32;
        size = size - 1;
        proof {
            let m: int = 0x1_0000_0000_0000_0000;
            lemma_pow2_pos(8 * i);
            lemma2_to64();
            // the low byte of the remaining value is byte `i` of the input
            assert(b == old_val & !((!0i64) << 8u32)) by (bit_vector)
                requires
                    b == old_val & 0xff,
            ;
            lemma_i64_low_bits(old_val, 8u32);
            assert(b as int == (old_val as int) % 256);
            lemma_floor_div_div(value as int, pow2(8 * i) as int, 256);
            lemma_pow2_adds(8 * i, 8);
            assert(pow2(8 * i) * 256 == pow2(8 * (i + 1)));
            assert(b as int == byte_of(value as int, i));
            // shifting right by one byte divides by 256
            assert(val as int == (old_val as int) / 256) by {
                let u = old_val;
                assert(u >> 8u32 == (if u >= 0 { u / 256 } else { -(((-(u as int)) + 255) / 256) }) as i64) by (bit_vector);
            }
            // the new accumulator
            let ro = old_res as u64;
            assert((res as u64) as int == (((ro as int) * 256) % m) + b as int) by {
                assert(((old_res << 8u32) | b) as u64 == (((old_res as u64) << 8u64) | (b as u64)))
                    by (bit_vector);
                assert(0 <= b < 256);
                assert((((ro << 8u64) | (b as u64)) as int) == ((ro as int * 256) % 0x1_0000_0000_0000_0000) + b as int)
                    by (bit_vector)
                    requires
                        0 <= b < 256,
                ;
            }
            lemma_i64_pattern(res);
            lemma_i64_pattern(old_res);
            let rev = reversed_bytes(value as int, i);
            assert(reversed_bytes(value as int, i + 1) == rev * 256 + b as int);
            // congruences modulo 2^64
            lemma_mod_twice((ro as int) * 256, m);
            lemma_add_mod_noop((ro as int) * 256, b as int, m);
            lemma_add_mod_noop(((ro as int) * 256) % m, b as int, m);
            lemma_mul_mod_noop_left(ro as int, 256, m);
            lemma_mul_mod_noop_left(old_res as int, 256, m);
            lemma_mod_twice(old_res as int, m);
            lemma_mul_mod_noop_left(rev, 256, m);
            assert(as_i64_pattern(rev) % m == rev % m) by {
                lemma_mod_twice(rev, m);
                lemma_mod_add_multiples_vanish(rev % m, m);
                lemma_mod_sub_multiples_vanish(rev % m, m);
            }
            lemma_add_mod_noop(old_res as int * 256, b as int, m);
            lemma_add_mod_noop(rev * 256, b as int, m);
            lemma_pattern_congruent((res as u64) as int, rev * 256 + b as int);
            i = i + 1;
        }
    }
    res
}

/// Adding a multiple of 2^(8n) leaves every byte below byte `n` as it was.
proof fn lemma_byte_of_shift(a: int, t: int, n: nat, j: nat)
    requires
        j < n,
    ensures
        byte_of(a + t * (pow2(8 * n) as int), j) == byte_of(a, j),
{
    let pj = pow2(8 * j) as int;
    let k = (n - j - 1) as nat;
    let pk = pow2(8 * k) as int;
    lemma_pow2_pos(8 * j);
    lemma_pow2_adds(8 * k, 8);
    lemma_pow2_adds(8 * j, 8 * k + 8);
    lemma2_to64();
    assert(8 * j + (8 * k + 8) == 8 * n);
    let q = 256 * (t * pk);
    assert(t * (pow2(8 * n) as int) == q * pj) by (nonlinear_arith)
        requires
            pow2(8 * n) as int == pj * (pk * 256),
            q == 256 * (t * pk),
    ;
    lemma_hoist_over_denominator(a, q, pj as nat);
    lemma_mod_multiples_vanish(t * pk, a / pj, 256);
}

/// Byte zero of `a` is `a` modulo 256.
proof fn lemma_byte_of_zero(a: int)
    ensures
        byte_of(a, 0) == a % 256,
{
    lemma2_to64();
    lemma_fundamental_div_mod_converse_div(a, 1, a, 0);
}

/// The value of bytes `1..` of `a` is byte `0..` of `a / 256`.
proof fn lemma_byte_of_div(a: int, j: nat)
    ensures
        byte_of(a / 256, j) == byte_of(a, j + 1),
{
    lemma2_to64();
    lemma_pow2_pos(8 * j);
    lemma_pow2_adds(8, 8 * j);
    assert(8 + 8 * j == 8 * (j + 1));
    lemma_floor_div_div(a, 256, pow2(8 * j) as int);
}

/// Reversing `n` bytes gives a value of `n` bytes whose byte `j` is byte
/// `n - 1 - j` of the original.
pub proof fn lemma_reversed_bytes(x: int, n: nat)
    ensures
        0 <= reversed_bytes(x, n) < pow2(8 * n),
        forall|j: nat| j < n ==> #[trigger] byte_of(reversed_bytes(x, n), j) == byte_of(x, (n - 1 - j) as nat),
    decreases n,
{
    lemma2_to64();
    if n > 0 {
        let m = (n - 1) as nat;
        lemma_reversed_bytes(x, m);
        let r = reversed_bytes(x, m);
        let c = byte_of(x, m);
        let v = r * 256 + c;
        assert(v == reversed_bytes(x, n));
        lemma_pow2_pos(8 * m);
        lemma_pow2_adds(8 * m, 8);
        assert(8 * m + 8 == 8 * n);
        assert(0 <= v < pow2(8 * n)) by (nonlinear_arith)
            requires
                v == r * 256 + c,
                0 <= r < pow2(8 * m),
                0 <= c < 256,
                pow2(8 * n) == pow2(8 * m) * 256,
        ;
        lemma_div_multiples_vanish_fancy(r, c, 256);
        assert(v / 256 == r);
        assert forall|j: nat| j < n implies #[trigger] byte_of(v, j) == byte_of(x, (n - 1 - j) as nat) by {
            if j == 0 {
                lemma_mod_multiples_vanish(r, c, 256);
                lemma_byte_of_zero(v);
            } else {
                lemma_byte_of_div(v, (j - 1) as nat);
                assert(byte_of(r, (j - 1) as nat) == byte_of(x, (m - 1 - (j - 1)) as nat));
            }
        }
    }
}

/// Reversing `n` bytes reads only the low `n` bytes.
proof fn lemma_reversed_bytes_low(a: int, b: int, n: nat)
    requires
        forall|j: nat| j < n ==> #[trigger] byte_of(a, j) == byte_of(b, j),
    ensures
        reversed_bytes(a, n) == reversed_bytes(b, n),
    decreases n,
{
    if n > 0 {
        lemma_reversed_bytes_low(a, b, (n - 1) as nat);
        assert(byte_of(a, (n - 1) as nat) == byte_of(b, (n - 1) as nat));
    }
}

/// Two values of `n` bytes with the same bytes are equal.
proof fn lemma_bytes_determine(a: int, b: int, n: nat)
    requires
        0 <= a < pow2(8 * n),
        0 <= b < pow2(8 * n),
        forall|j: nat| j < n ==> #[trigger] byte_of(a, j) == byte_of(b, j),
    ensures
        a == b,
    decreases n,
{
    lemma2_to64();
    if n > 0 {
        let m = (n - 1) as nat;
        lemma_pow2_pos(8 * m);
        lemma_pow2_adds(8 * m, 8);
        assert(8 * m + 8 == 8 * n);
        lemma_fundamental_div_mod(a, 256);
        lemma_fundamental_div_mod(b, 256);
        assert(0 <= a / 256 < pow2(8 * m)) by (nonlinear_arith)
            requires
                0 <= a < pow2(8 * n),
                pow2(8 * n) == pow2(8 * m) * 256,
                a == 256 * (a / 256) + a % 256,
                0 <= a % 256 < 256,
        ;
        assert(0 <= b / 256 < pow2(8 * m)) by (nonlinear_arith)
            requires
                0 <= b < pow2(8 * n),
                pow2(8 * n) == pow2(8 * m) * 256,
                b == 256 * (b / 256) + b % 256,
                0 <= b % 256 < 256,
        ;
        assert forall|j: nat| j < m implies #[trigger] byte_of(a / 256, j) == byte_of(b / 256, j) by {
            lemma_byte_of_div(a, j);
            lemma_byte_of_div(b, j);
            assert(byte_of(a, j + 1) == byte_of(b, j + 1));
        }
        lemma_bytes_determine(a / 256, b / 256, m);
        assert(byte_of(a, 0) == byte_of(b, 0));
        lemma_byte_of_zero(a);
        lemma_byte_of_zero(b);
    }
}

/// A value of `n` bytes has zero for every byte from `n` on.
proof fn lemma_high_bytes_zero(a: int, n: nat, j: nat)
    requires
        0 <= a < pow2(8 * n),
        n <= j,
    ensures
        byte_of(a, j) == 0,
{
    lemma_pow2_pos(8 * j);
    lemma_pow2_pos(8 * n);
    lemma_pow2_adds(8 * n, (8 * j - 8 * n) as nat);
    lemma_pow2_pos((8 * j - 8 * n) as nat);
    assert(pow2(8 * n) <= pow2(8 * j)) by (nonlinear_arith)
        requires
            pow2(8 * j) == pow2(8 * n) * pow2((8 * j - 8 * n) as nat),
            pow2((8 * j - 8 * n) as nat) >= 1,
            pow2(8 * n) > 0,
    ;
    lemma_basic_div(a, pow2(8 * j) as int);
}

/// The bytes of a swap of `n` bytes (at most eight) as a 64-bit value: byte
/// `i` is byte `n - 1 - i` of `value` for `i` below `n`, and zero above.
pub proof fn lemma_byte_swap_bytes(value: i64, n: nat)
    requires
        n <= 8,
    ensures
        forall|i: nat|
            i < 8 ==> #[trigger] byte_of(as_i64_pattern(reversed_bytes(value as int, n)), i) == if i < n {
                byte_of(value as int, (n - 1 - i) as nat)
            } else {
                0
            },
{
    let big: int = 0x1_0000_0000_0000_0000;
    lemma2_to64();
    lemma_pow2_pos(8 * n);
    lemma_pow2_adds(8 * n, (64 - 8 * n) as nat);
    lemma_pow2_pos((64 - 8 * n) as nat);
    assert(pow2(8 * n) <= pow2(64)) by (nonlinear_arith)
        requires
            pow2(64) == pow2(8 * n) * pow2((64 - 8 * n) as nat),
            pow2(8 * n) > 0,
            pow2((64 - 8 * n) as nat) >= 1,
    ;
    lemma_reversed_bytes(value as int, n);
    let r = reversed_bytes(value as int, n);
    assert(pow2(8 * 8) == pow2(64));
    lemma_small_mod(r as nat, big as nat);
    assert(r % big == r);
    let w = as_i64_pattern(r);
    let t: int = if r >= 0x8000_0000_0000_0000 { -1 } else { 0 };
    assert(w == r + t * (pow2(8 * 8) as int));
    assert forall|i: nat| i < 8 implies #[trigger] byte_of(w, i) == if i < n {
        byte_of(value as int, (n - 1 - i) as nat)
    } else {
        0
    } by {
        lemma_byte_of_shift(r, t, 8, i);
        if i >= n {
            lemma_high_bytes_zero(r, n, i);
        }
    }
}

/// Swapping the low `n` bytes twice (at most eight) gives back the value
/// for eight bytes, and its low `n` bytes otherwise: the second swap of
/// `byte_swap` undoes the first.
pub proof fn lemma_byte_swap_twice(value: i64, n: nat)
    requires
        n <= 8,
    ensures
        as_i64_pattern(reversed_bytes(as_i64_pattern(reversed_bytes(value as int, n)), n)) == if n == 8 {
            value as int
        } else {
            (value as int) % (pow2(8 * n) as int)
        },
{
    let v = value as int;
    let big: int = 0x1_0000_0000_0000_0000;
    lemma2_to64();
    lemma_pow2_pos(8 * n);
    lemma_pow2_adds(8 * n, (64 - 8 * n) as nat);
    assert(pow2(8 * n) <= pow2(64)) by (nonlinear_arith)
        requires
            pow2(64) == pow2(8 * n) * pow2((64 - 8 * n) as nat),
            pow2(8 * n) > 0,
            pow2((64 - 8 * n) as nat) >= 1,
    {
        lemma_pow2_pos((64 - 8 * n) as nat);
    }
    lemma_reversed_bytes(v, n);
    let r = reversed_bytes(v, n);
    assert(pow2(8 * 8) == pow2(64));
    assert(pow2(64) as int == big);
    lemma_small_mod(r as nat, big as nat);
    assert(r % big == r);
    let w = as_i64_pattern(r);
    let t: int = if r >= 0x8000_0000_0000_0000 { -1 } else { 0 };
    assert(w == r + t * (pow2(8 * 8) as int));
    assert forall|j: nat| j < n implies #[trigger] byte_of(w, j) == byte_of(r, j) by {
        lemma_byte_of_shift(r, t, 8, j);
    }
    lemma_reversed_bytes_low(w, r, n);
    lemma_reversed_bytes(r, n);
    let s = reversed_bytes(r, n);
    let p = pow2(8 * n) as int;
    let m = v % p;
    lemma_fundamental_div_mod(v, p);
    assert(v == m + (v / p) * p) by (nonlinear_arith)
        requires
            v == p * (v / p) + v % p,
            m == v % p,
    ;
    assert forall|j: nat| j < n implies #[trigger] byte_of(s, j) == byte_of(m, j) by {
        lemma_byte_of_shift(m, v / p, n, j);
        assert(byte_of(s, j) == byte_of(r, (n - 1 - j) as nat));
        assert(byte_of(r, (n - 1 - j) as nat) == byte_of(v, (n - 1 - (n - 1 - j)) as nat));
    }
    lemma_bytes_determine(s, m, n);
    assert(reversed_bytes(w, n) == m);
    if n == 8 {
        assert(p == big);
        lemma_i64_pattern(value);
        lemma_mod_twice(v, big);
        lemma_pattern_congruent(m, v);
        assert(as_i64_pattern(m) == v);
    } else {
        lemma_small_mod(m as nat, big as nat);
        assert(m % big == m);
        assert(pow2(8 * n) <= pow2(56)) by {
            lemma_pow2_adds(8 * n, (56 - 8 * n) as nat);
            lemma_pow2_pos((56 - 8 * n) as nat);
            assert(pow2(56) == pow2(8 * n) * pow2((56 - 8 * n) as nat));
            assert(pow2(8 * n) * 1 <= pow2(8 * n) * pow2((56 - 8 * n) as nat)) by (nonlinear_arith)
                requires
                    pow2((56 - 8 * n) as nat) >= 1,
                    pow2(8 * n) > 0,
            ;
        }
        lemma_mod_bound(v, p);
        lemma2_to64_rest();
        assert(0 <= m < 0x8000_0000_0000_0000);
        assert(as_i64_pattern(m) == m);
    }
}

/// Zero-extending a value that has already been zero-extended from the same
/// bit changes nothing.
pub proof fn lemma_zero_extend_idempotent(value: int, s: nat)
    ensures
        zero_extend_spec(zero_extend_spec(value, s), s) == zero_extend_spec(value, s),
{
    if s < 63 {
        let m = pow2(s + 1) as int;
        vstd::arithmetic::power2::lemma_pow2_pos(s + 1);
        vstd::arithmetic::div_mod::lemma_mod_bound(value, m);
        vstd::arithmetic::div_mod::lemma_small_mod((value % m) as nat, m as nat);
    }
}

/// Sign-extending a value that has already been sign-extended from the same
/// bit changes nothing.
pub proof fn lemma_sign_extend_idempotent(value: int, s: nat)
    ensures
        sign_extend_spec(sign_extend_spec(value, s), s) == sign_extend_spec(value, s),
{
    if s < 64 {
        let m = pow2(s) as int;
        vstd::arithmetic::power2::lemma_pow2_pos(s);
        let r = value % m;
        vstd::arithmetic::div_mod::lemma_mod_bound(value, m);
        let e = sign_extend_spec(value, s);
        if (value / m) % 2 == 1 {
            assert(e == r - m);
            assert(-m <= e < 0);
            vstd::arithmetic::div_mod::lemma_fundamental_div_mod_converse(e, m, -1, r);
            assert(e / m == -1);
            assert(e % m == r);
            assert((-1int) % 2 == 1);
        } else {
            assert(e == r);
            assert(e / m == 0) by {
                vstd::arithmetic::div_mod::lemma_basic_div(r, m);
            }
            vstd::arithmetic::div_mod::lemma_small_mod(r as nat, m as nat);
        }
    }
}

} // verus!
