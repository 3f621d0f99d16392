use vstd::prelude::*;

use crate::bits::{
    as_i64_pattern, byte_swap, reversed_bytes, shift_of, sign_extend, sign_extend_spec, zero_extend,
    zero_extend_spec,
};
use crate::lifter::input::{
    context_bytes_spec, instruction_bytes_spec, zeros_path, ConstructorNode, ParserInput,
    BREADCRUMBS, MAX_CTOR_STATES,
};
use crate::lifter::pcode::INVALID_HANDLE;

verus! {

/// Where the operand that an operand expression reads lies: relative to its
/// constructor, or at an operand of it.
#[derive(Debug, Copy, Clone, PartialEq, Eq, Structural)]
pub enum OperandOffset {
    Relative(u8),
    Operand(u8),
}

/// An expression over the bits of an instruction and its context, as the
/// patterns of a processor description write them.  Constructors are named
/// by their numbers.
#[derive(Debug)]
pub enum PatternExpression {
    TokenField {
        big_endian: bool,
        sign_bit: bool,
        bit_start: usize,
        bit_end: usize,
        byte_start: usize,
        byte_end: usize,
        shift: u32,
    },
    ContextField {
        sign_bit: bool,
        bit_start: usize,
        bit_end: usize,
        byte_start: usize,
        byte_end: usize,
        shift: u32,
    },
    Constant { value: i64 },
    Operand { constructor: u32, offset: OperandOffset, value: Box<PatternExpression> },
    StartInstruction,
    EndInstruction,
    Next2Instruction,
    Plus(Box<PatternExpression>, Box<PatternExpression>),
    Sub(Box<PatternExpression>, Box<PatternExpression>),
    Mult(Box<PatternExpression>, Box<PatternExpression>),
    LeftShift(Box<PatternExpression>, Box<PatternExpression>),
    RightShift(Box<PatternExpression>, Box<PatternExpression>),
    And(Box<PatternExpression>, Box<PatternExpression>),
    Or(Box<PatternExpression>, Box<PatternExpression>),
    Xor(Box<PatternExpression>, Box<PatternExpression>),
    Div(Box<PatternExpression>, Box<PatternExpression>),
    Minus(Box<PatternExpression>),
    Not(Box<PatternExpression>),
}

/// The addresses around the instruction being parsed: its own, the next
/// instruction's, and the one after (where it is known).
#[derive(Debug, Copy, Clone, PartialEq, Eq, Structural)]
pub struct PatternEnv {
    pub address: u64,
    pub next_address: u64,
    pub next2_address: Option<u64>,
}

/// The part of the parser's state that evaluation changes: the constructor
/// places, the current place, the depth and the path.
pub type ParseState = (Seq<ConstructorNode<u32>>, u8, i8, Seq<u8>);

/// The parser's state of `input`.
pub open spec fn state_of(input: &ParserInput<u32>) -> ParseState {
    (input.spec_nodes(), input.spec_point(), input.spec_depth(), input.spec_breadcrumb())
}

/// The outcome of evaluating an expression: `None` where evaluation is
/// undefined (it would read outside the parse state), `Some(None)` where it
/// fails, `Some(Some(v))` for the value `v`.
pub type Outcome = Option<Option<i64>>;

/// `lhs` shifted left by `rhs` taken as a byte, or 0 where that is 64 or
/// more.
pub open spec fn shl_spec(lhs: i64, rhs: i64) -> i64 {
    let k = (rhs as u8) as u32;
    if k >= 64 {
        0
    } else {
        lhs << k
    }
}

/// `lhs` shifted right (arithmetically) by `rhs` taken as a byte, or its
/// sign where that is 64 or more.
pub open spec fn shr_spec(lhs: i64, rhs: i64) -> i64 {
    let k = (rhs as u8) as u32;
    if k >= 64 {
        if lhs < 0 {
            -1i64
        } else {
            0i64
        }
    } else {
        lhs >> k
    }
}

/// `res` shifted right (arithmetically) by `shift`, or its sign where that
/// is 64 or more.
pub open spec fn shr_by(res: i64, shift: u32) -> i64 {
    if shift >= 64 {
        if res < 0 {
            -1i64
        } else {
            0i64
        }
    } else {
        res >> shift
    }
}

/// The bits of `res` from `size` on shifted in after `acc`: the value
/// of reading `width` more bytes `tmp` onto `acc`.
pub open spec fn append_bytes(acc: i64, tmp: u32, width: int) -> i64 {
    (((acc as u64) << ((8 * width) as u64)) | (tmp as u64)) as i64
}

/// Reading `n` instruction bytes at `start`: undefined where the position
/// of the last byte overflows a `usize`, failing (`Some(None)`) where the
/// position is past the buffer.
pub open spec fn token_read(buffer: Seq<u8>, offset: int, start: int, n: int) -> Option<Option<u32>> {
    if offset + start + n > usize::MAX {
        None
    } else {
        Some(instruction_bytes_spec(buffer, start, n, offset))
    }
}

/// Reads the token bytes from `start` to `byte_end` onto `acc`, four at a
/// time and then the rest: `Some(None)` where a read starts past the
/// buffer, `None` where a position overflows (such a read is undefined).
pub open spec fn token_acc(buffer: Seq<u8>, offset: int, start: int, byte_end: int, acc: i64) -> Option<Option<i64>>
    decreases byte_end - start + 1,
{
    let tsize = byte_end - start + 1;
    if tsize >= 4 {
        match token_read(buffer, offset, start, 4) {
            None => None,
            Some(None) => Some(None),
            Some(Some(tmp)) => if start + 4 > isize::MAX {
                None
            } else {
                token_acc(buffer, offset, start + 4, byte_end, append_bytes(acc, tmp, 4))
            },
        }
    } else if tsize > 0 {
        match token_read(buffer, offset, start, tsize) {
            None => None,
            Some(None) => Some(None),
            Some(Some(tmp)) => Some(Some(append_bytes(acc, tmp, tsize))),
        }
    } else {
        Some(Some(acc))
    }
}

/// The bytes `res` of a token field in big-endian order: reversed where
/// the token is little endian.
pub open spec fn token_order(res: i64, size: int, big_endian: bool) -> i64 {
    if !big_endian {
        as_i64_pattern(reversed_bytes(res as int, size as nat)) as i64
    } else {
        res
    }
}

/// The field `res` shifted right by `shift` and then sign or zero extended
/// from bit `bits`.
pub open spec fn field_value(res: i64, shift: u32, sign_bit: bool, bits: usize) -> i64 {
    let r = shr_by(res, shift);
    if sign_bit {
        sign_extend_spec(r as int, shift_of(bits)) as i64
    } else {
        zero_extend_spec(r as int, shift_of(bits)) as i64
    }
}

/// The value of a field of `bits + 1` bits (fewer than 64), read as `v`
/// once shifted into place, agrees with `v` in those bits; a signed field
/// lies between `-2^bits` and `2^bits` (so its top bit gives its sign: it
/// is negative exactly when that bit is set), an unsigned one between 0 and
/// `2^(bits + 1)`.
pub proof fn lemma_field_value_extends(res: i64, shift: u32, sign_bit: bool, bits: usize)
    requires
        bits < 63,
    ensures
        (field_value(res, shift, sign_bit, bits) as int) % (2 * vstd::arithmetic::power2::pow2(bits as nat) as int)
            == (shr_by(res, shift) as int) % (2 * vstd::arithmetic::power2::pow2(bits as nat) as int),
        sign_bit ==> -(vstd::arithmetic::power2::pow2(bits as nat) as int) <= field_value(res, shift, sign_bit, bits)
            < vstd::arithmetic::power2::pow2(bits as nat),
        sign_bit ==> (field_value(res, shift, sign_bit, bits) < 0 <==> ((shr_by(res, shift) as int)
            / (vstd::arithmetic::power2::pow2(bits as nat) as int)) % 2 == 1),
        !sign_bit ==> 0 <= field_value(res, shift, sign_bit, bits) < 2 * vstd::arithmetic::power2::pow2(bits as nat),
{
    let v = shr_by(res, shift) as int;
    let s = bits as nat;
    let h = vstd::arithmetic::power2::pow2(s) as int;
    let m = 2 * h;
    assert(shift_of(bits) == s) by {
        assert((bits as u32) as nat == bits as nat);
    }
    vstd::arithmetic::power2::lemma_pow2_pos(s);
    vstd::arithmetic::power2::lemma_pow2_adds(s, 1);
    vstd::arithmetic::power2::lemma2_to64();
    vstd::arithmetic::power2::lemma2_to64_rest();
    vstd::arithmetic::power2::lemma_pow2_strictly_increases(s, 63);
    assert(vstd::arithmetic::power2::pow2(s + 1) == m);
    assert(h <= 0x4000_0000_0000_0000);
    let q = v / h;
    let lo = v % h;
    vstd::arithmetic::div_mod::lemma_fundamental_div_mod(v, h);
    vstd::arithmetic::div_mod::lemma_fundamental_div_mod(q, 2);
    let q2 = q / 2;
    let b = q % 2;
    assert(v == m * q2 + (b * h + lo)) by (nonlinear_arith)
        requires
            v == h * q + lo,
            q == 2 * q2 + b,
            m == 2 * h,
    ;
    assert(0 <= b * h + lo < m) by (nonlinear_arith)
        requires
            0 <= b < 2,
            0 <= lo < h,
            m == 2 * h,
    ;
    vstd::arithmetic::div_mod::lemma_mod_multiples_vanish(q2, b * h + lo, m);
    vstd::arithmetic::div_mod::lemma_small_mod((b * h + lo) as nat, m as nat);
    assert(v % m == b * h + lo);
    if sign_bit {
        if b == 1 {
            let r = lo - h;
            assert(sign_extend_spec(v, s) == r);
            assert(-h <= r < 0);
            vstd::arithmetic::div_mod::lemma_mod_multiples_vanish(-1, lo + h, m);
            vstd::arithmetic::div_mod::lemma_small_mod((lo + h) as nat, m as nat);
            assert((m * -1 + (lo + h)) % m == (lo + h) % m);
            assert(r == m * -1 + (lo + h));
            assert(field_value(res, shift, sign_bit, bits) as int == r);
        } else {
            assert(sign_extend_spec(v, s) == lo);
            vstd::arithmetic::div_mod::lemma_small_mod(lo as nat, m as nat);
            assert(field_value(res, shift, sign_bit, bits) as int == lo);
        }
    } else {
        assert(zero_extend_spec(v, s) == v % m);
        assert(field_value(res, shift, sign_bit, bits) as int == v % m);
    }
}

/// The value of a field whose bytes read `res`: undefined where the bit
/// positions are out of order (their difference is below zero).
pub open spec fn field_outcome(res: i64, shift: u32, sign_bit: bool, bit_start: usize, bit_end: usize) -> Outcome {
    if bit_end < bit_start {
        None
    } else {
        Some(Some(field_value(res, shift, sign_bit, (bit_end - bit_start) as usize)))
    }
}

/// The outcome of reading a token field.  The byte count
/// `byte_end - byte_start + 1` is a `usize` (undefined below zero or past
/// the top); the positions are then taken as `isize`.  A count past
/// `isize::MAX` reads nothing; with `byte_end` past `isize::MAX` only the
/// first read is made, and a count left after it goes below `isize::MIN`;
/// otherwise the bytes are read from `byte_start` to `byte_end`.
pub open spec fn token_field_outcome(
    buffer: Seq<u8>,
    offset: int,
    big_endian: bool,
    sign_bit: bool,
    bit_start: usize,
    bit_end: usize,
    byte_start: usize,
    byte_end: usize,
    shift: u32,
) -> Outcome {
    if byte_end < byte_start || byte_end - byte_start + 1 > usize::MAX {
        None
    } else {
        let size = byte_end - byte_start + 1;
        if size > isize::MAX {
            field_outcome(0, shift, sign_bit, bit_start, bit_end)
        } else if byte_end > isize::MAX {
            let n = if size >= 4 { 4 } else { size };
            match token_read(buffer, offset, byte_start as int, n) {
                None => None,
                Some(None) => Some(None),
                Some(Some(tmp)) => if size >= 4 {
                    None
                } else {
                    field_outcome(token_order(append_bytes(0, tmp, size), size, big_endian), shift, sign_bit, bit_start, bit_end)
                },
            }
        } else {
            match token_acc(buffer, offset, byte_start as int, byte_end as int, 0) {
                None => None,
                Some(None) => Some(None),
                Some(Some(res)) => field_outcome(token_order(res, size, big_endian), shift, sign_bit, bit_start, bit_end),
            }
        }
    }
}

/// Reads the context bytes from `start` to `e` onto `acc`, four at a time
/// and then the rest, the positions being `isize` values read at their
/// `usize` patterns: `None` where a read is past the context or a position
/// overflows (such a read is undefined).
pub open spec fn context_acc(ctx: Seq<u32>, start: int, e: int, acc: i64) -> Option<i64>
    decreases e - start + 1,
{
    let size = e - start + 1;
    let u = (start as usize) as int;
    if size >= 4 {
        if u / 4 >= ctx.len() || start + 4 > isize::MAX {
            None
        } else {
            context_acc(ctx, start + 4, e, append_bytes(acc, context_bytes_spec(ctx, u, 4), 4))
        }
    } else if size > 0 {
        if u / 4 >= ctx.len() {
            None
        } else {
            Some(append_bytes(acc, context_bytes_spec(ctx, u, size), size))
        }
    } else {
        Some(acc)
    }
}

/// The outcome of reading a context field.  Its positions are taken as
/// `isize` values; their difference (plus one) is undefined past the ends
/// of `isize`, and a difference below one reads nothing.
pub open spec fn context_field_outcome(
    ctx: Seq<u32>,
    sign_bit: bool,
    bit_start: usize,
    bit_end: usize,
    byte_start: usize,
    byte_end: usize,
    shift: u32,
) -> Outcome {
    let s = (byte_start as isize) as int;
    let e = (byte_end as isize) as int;
    if e - s < isize::MIN || e - s + 1 > isize::MAX {
        None
    } else {
        match context_acc(ctx, s, e, 0) {
            None => None,
            Some(res) => field_outcome(res, shift, sign_bit, bit_start, bit_end),
        }
    }
}

/// Where the constructor numbered `ctor` sits on the path up from place
/// `pt`, looking at most `cur_depth` levels up: `None` where a place is
/// outside the tree (such a walk is undefined), `Some(None)` where it is not
/// found.
pub open spec fn find_ctor(nodes: Seq<ConstructorNode<u32>>, pt: int, cur_depth: int, ctor: u32) -> Option<Option<int>>
    decreases cur_depth + 128,
{
    if pt < 0 || pt >= nodes.len() {
        None
    } else if nodes[pt].constructor == Some(ctor) {
        Some(Some(pt))
    } else if cur_depth <= 0 {
        Some(None)
    } else {
        find_ctor(nodes, nodes[pt].parent as int, cur_depth - 1, ctor)
    }
}

/// The place of an operand's constructor while the value is evaluated.
pub open spec fn operand_node(ctor: u32, offset: u8, length: u8) -> ConstructorNode<u32> {
    ConstructorNode { constructor: Some(ctor), parent: INVALID_HANDLE, operands: INVALID_HANDLE, offset, length }
}

/// A place left empty.
pub open spec fn cleared_node() -> ConstructorNode<u32> {
    ConstructorNode { constructor: None, parent: INVALID_HANDLE, operands: INVALID_HANDLE, offset: 0, length: 0 }
}

/// The path of all zeros.
pub open spec fn zero_path() -> Seq<u8> {
    Seq::new(BREADCRUMBS as nat, |i: int| 0u8)
}

/// What does not change while an expression is evaluated: the instruction
/// bytes, the context, the instruction's offset in the buffer, the next
/// free place, and the surrounding addresses.
pub type ReadOnly = (Seq<u8>, Seq<u32>, u8, u8, PatternEnv);

/// The outcome of evaluating the value of an operand expression with its
/// constructor placed at the next free place (offset `ofs`, length `len`),
/// and the state after: on success the place is cleared and the path
/// restored.
pub open spec fn eval_placed(
    value: PatternExpression,
    ctor: u32,
    ofs: u8,
    len: u8,
    st: ParseState,
    ro: ReadOnly,
) -> (Outcome, ParseState)
    decreases value, 1int,
{
    let alloc = ro.3;
    if alloc as int >= st.0.len() {
        (None, st)
    } else {
        let st1 = (st.0.update(alloc as int, operand_node(ctor, ofs, len)), alloc, 0i8, zero_path());
        let (o, s2) = eval(value, st1, ro);
        match o {
            Some(Some(v)) => if s2.1 as int >= s2.0.len() {
                (None, s2)
            } else {
                (Some(Some(v)), (s2.0.update(s2.1 as int, cleared_node()), st.1, st.2, st.3))
            },
            _ => (o, s2),
        }
    }
}

/// The outcome of evaluating `e` in the state `st`, and the state after:
/// as resolving a pattern expression goes, failing where a read is past
/// the instruction, or where the address after next is unknown.  A
/// division never gives its quotient: a nonzero divisor gives no value
/// (`Some(None)`), and a zero divisor, on which resolving panics, gives
/// `None`.
pub open spec fn eval(e: PatternExpression, st: ParseState, ro: ReadOnly) -> (Outcome, ParseState)
    decreases e, 0int,
{
    match e {
        PatternExpression::Constant { value } => (Some(Some(value)), st),
        PatternExpression::StartInstruction => (Some(Some(ro.4.address as i64)), st),
        PatternExpression::EndInstruction => (Some(Some(ro.4.next_address as i64)), st),
        PatternExpression::Next2Instruction => (
            Some(
                match ro.4.next2_address {
                    Some(v) => Some(v as i64),
                    None => None,
                },
            ),
            st,
        ),
        PatternExpression::Plus(l, r) => {
            let (ol, s1) = eval(*l, st, ro);
            match ol {
                Some(Some(a)) => {
                    let (or, s2) = eval(*r, s1, ro);
                    match or {
                        Some(Some(b)) => (Some(Some(vstd::wrapping::i64_specs::wrapping_add(a, b))), s2),
                        _ => (or, s2),
                    }
                },
                _ => (ol, s1),
            }
        },
        PatternExpression::Sub(l, r) => {
            let (ol, s1) = eval(*l, st, ro);
            match ol {
                Some(Some(a)) => {
                    let (or, s2) = eval(*r, s1, ro);
                    match or {
                        Some(Some(b)) => (Some(Some(vstd::wrapping::i64_specs::wrapping_sub(a, b))), s2),
                        _ => (or, s2),
                    }
                },
                _ => (ol, s1),
            }
        },
        PatternExpression::Mult(l, r) => {
            let (ol, s1) = eval(*l, st, ro);
            match ol {
                Some(Some(a)) => {
                    let (or, s2) = eval(*r, s1, ro);
                    match or {
                        Some(Some(b)) => (Some(Some(vstd::wrapping::i64_specs::wrapping_mul(a, b))), s2),
                        _ => (or, s2),
                    }
                },
                _ => (ol, s1),
            }
        },
        PatternExpression::LeftShift(l, r) => {
            let (ol, s1) = eval(*l, st, ro);
            match ol {
                Some(Some(a)) => {
                    let (or, s2) = eval(*r, s1, ro);
                    match or {
                        Some(Some(b)) => (Some(Some(shl_spec(a, b))), s2),
                        _ => (or, s2),
                    }
                },
                _ => (ol, s1),
            }
        },
        PatternExpression::RightShift(l, r) => {
            let (ol, s1) = eval(*l, st, ro);
            match ol {
                Some(Some(a)) => {
                    let (or, s2) = eval(*r, s1, ro);
                    match or {
                        Some(Some(b)) => (Some(Some(shr_spec(a, b))), s2),
                        _ => (or, s2),
                    }
                },
                _ => (ol, s1),
            }
        },
        PatternExpression::And(l, r) => {
            let (ol, s1) = eval(*l, st, ro);
            match ol {
                Some(Some(a)) => {
                    let (or, s2) = eval(*r, s1, ro);
                    match or {
                        Some(Some(b)) => (Some(Some(a & b)), s2),
                        _ => (or, s2),
                    }
                },
                _ => (ol, s1),
            }
        },
        PatternExpression::Or(l, r) => {
            let (ol, s1) = eval(*l, st, ro);
            match ol {
                Some(Some(a)) => {
                    let (or, s2) = eval(*r, s1, ro);
                    match or {
                        Some(Some(b)) => (Some(Some(a | b)), s2),
                        _ => (or, s2),
                    }
                },
                _ => (ol, s1),
            }
        },
        PatternExpression::Xor(l, r) => {
            let (ol, s1) = eval(*l, st, ro);
            match ol {
                Some(Some(a)) => {
                    let (or, s2) = eval(*r, s1, ro);
                    match or {
                        Some(Some(b)) => (Some(Some(a ^ b)), s2),
                        _ => (or, s2),
                    }
                },
                _ => (ol, s1),
            }
        },
        PatternExpression::Div(l, r) => {
            let (ol, s1) = eval(*l, st, ro);
            match ol {
                Some(Some(a)) => {
                    let (or, s2) = eval(*r, s1, ro);
                    match or {
                        Some(Some(b)) => (if b == 0 { None } else { Some(None) }, s2),
                        _ => (or, s2),
                    }
                },
                _ => (ol, s1),
            }
        },
        PatternExpression::Minus(x) => {
            let (o, s1) = eval(*x, st, ro);
            match o {
                Some(Some(a)) => (if a == i64::MIN { None } else { Some(Some((-a) as i64)) }, s1),
                _ => (o, s1),
            }
        },
        PatternExpression::Not(x) => {
            let (o, s1) = eval(*x, st, ro);
            match o {
                Some(Some(a)) => (Some(Some(!a)), s1),
                _ => (o, s1),
            }
        },
        PatternExpression::TokenField {
            big_endian,
            sign_bit,
            bit_start,
            bit_end,
            byte_start,
            byte_end,
            shift,
        } => (token_field_outcome(ro.0, ro.2 as int, big_endian, sign_bit, bit_start, bit_end, byte_start, byte_end, shift), st),
        PatternExpression::ContextField { sign_bit, bit_start, bit_end, byte_start, byte_end, shift } => (
            context_field_outcome(ro.1, sign_bit, bit_start, bit_end, byte_start, byte_end, shift),
            st,
        ),
        PatternExpression::Operand { constructor, offset, value } => {
            let nodes = st.0;
            match find_ctor(nodes, st.1 as int, st.2 as int, constructor) {
                None => (None, st),
                Some(None) => eval_placed(*value, constructor, 0, 0, st, ro),
                Some(Some(pt)) => {
                    let pnode = nodes[pt];
                    match offset {
                        OperandOffset::Relative(o) => if pnode.offset + o > u8::MAX {
                            (None, st)
                        } else {
                            eval_placed(*value, constructor, (pnode.offset + o) as u8, pnode.length, st, ro)
                        },
                        OperandOffset::Operand(i) => if pnode.operands + i >= nodes.len() {
                            (None, st)
                        } else {
                            eval_placed(*value, constructor, nodes[pnode.operands + i].offset, pnode.length, st, ro)
                        },
                    }
                },
            }
        },
    }
}

/// The unchanging part of evaluating in `input` with `env`.
pub open spec fn read_only(input: &ParserInput<u32>, env: PatternEnv) -> ReadOnly {
    (input.spec_buffer(), input.spec_context(), input.spec_offset(), input.spec_alloc(), env)
}

/// Shifts `res` right by `shift` and extends it from bit
/// `bit_end - bit_start` (see `field_outcome`).
fn field_from(res: i64, shift: u32, sign_bit: bool, bit_start: usize, bit_end: usize) -> (r: i64)
    requires
        bit_start <= bit_end,
    ensures
        Some(Some(r)) == field_outcome(res, shift, sign_bit, bit_start, bit_end),
{
    let res = if shift >= 64 {
        if res < 0 {
            -1
        } else {
            0
        }
    } else {
        res >> shift
    };
    let bits = bit_end - bit_start;
    if sign_bit {
        sign_extend(res, bits)
    } else {
        zero_extend(res, bits)
    }
}

/// Reads a token field of the instruction (see `token_field_outcome`).
fn token_field(
    input: &ParserInput<u32>,
    big_endian: bool,
    sign_bit: bool,
    bit_start: usize,
    bit_end: usize,
    byte_start: usize,
    byte_end: usize,
    shift: u32,
) -> (r: Option<i64>)
    requires
        input.wf(),
        token_field_outcome(
            input.spec_buffer(),
            input.spec_offset() as int,
            big_endian,
            sign_bit,
            bit_start,
            bit_end,
            byte_start,
            byte_end,
            shift,
        ) is Some,
    ensures
        r == token_field_outcome(
            input.spec_buffer(),
            input.spec_offset() as int,
            big_endian,
            sign_bit,
            bit_start,
            bit_end,
            byte_start,
            byte_end,
            shift,
        )->0,
{
    let ghost buffer = input.spec_buffer();
    let ghost offset = input.spec_offset() as int;
    let size = byte_end - byte_start + 1;
    let imax = isize::MAX as usize;
    if size > imax {
        return Some(field_from(0, shift, sign_bit, bit_start, bit_end));
    }
    let mut res: i64 = 0;
    if byte_end > imax {
        let n = if size >= 4 {
            4
        } else {
            size
        };
        let tmp = match input.instruction_bytes(byte_start, n) {
            Some(t) => t,
            None => {
                return None;
            },
        };
        res = (((res as u64) << ((8 * n) as u64)) | (tmp as u64)) as i64;
    } else {
        let mut start: usize = byte_start;
        while start <= byte_end && byte_end - start >= 3
            invariant
                input.wf(),
                byte_start <= start <= byte_end + 1,
                byte_end <= isize::MAX,
                size == byte_end - byte_start + 1,
                size <= isize::MAX,
                buffer == input.spec_buffer(),
                offset == input.spec_offset() as int,
                token_acc(buffer, offset, byte_start as int, byte_end as int, 0) == token_acc(
                    buffer,
                    offset,
                    start as int,
                    byte_end as int,
                    res,
                ),
                token_acc(buffer, offset, start as int, byte_end as int, res) is Some,
            decreases byte_end + 1 - start,
        {
            let tmp = match input.instruction_bytes(start, 4) {
                Some(t) => t,
                None => {
                    assert(token_acc(buffer, offset, start as int, byte_end as int, res) == Some(None::<i64>));
                    return None;
                },
            };
            res = (((res as u64) << 32u64) | (tmp as u64)) as i64;
            start = start + 4;
        }
        if start <= byte_end {
            let tsize = byte_end - start + 1;
            let tmp = match input.instruction_bytes(start, tsize) {
                Some(t) => t,
                None => {
                    return None;
                },
            };
            res = (((res as u64) << ((8 * tsize) as u64)) | (tmp as u64)) as i64;
        }
    }
    if !big_endian {
        res = byte_swap(res, size);
    }
    Some(field_from(res, shift, sign_bit, bit_start, bit_end))
}

/// Reads a context field (see `context_field_outcome`).
fn context_field(
    input: &ParserInput<u32>,
    sign_bit: bool,
    bit_start: usize,
    bit_end: usize,
    byte_start: usize,
    byte_end: usize,
    shift: u32,
) -> (r: i64)
    requires
        context_field_outcome(input.spec_context(), sign_bit, bit_start, bit_end, byte_start, byte_end, shift) is Some,
    ensures
        Some(Some(r)) == context_field_outcome(
            input.spec_context(),
            sign_bit,
            bit_start,
            bit_end,
            byte_start,
            byte_end,
            shift,
        ),
{
    let ghost ctx = input.spec_context();
    let s = byte_start as isize;
    let e = byte_end as isize;
    let mut res: i64 = 0;
    let mut start: isize = s;
    let mut size: isize = e - s + 1;
    while size >= 4
        invariant
            ctx == input.spec_context(),
            size == e - start + 1,
            s <= start,
            context_acc(ctx, s as int, e as int, 0) == context_acc(ctx, start as int, e as int, res),
            context_acc(ctx, start as int, e as int, res) is Some,
        decreases size,
    {
        let u = start as usize;
        let tmp = input.context_bytes(u, 4);
        res = (((res as u64) << 32u64) | (tmp as u64)) as i64;
        start = start + 4;
        size = e - start + 1;
    }
    if size > 0 {
        let u = start as usize;
        let n = size as usize;
        let tmp = input.context_bytes(u, n);
        res = (((res as u64) << ((8 * n) as u64)) | (tmp as u64)) as i64;
    }
    field_from(res, shift, sign_bit, bit_start, bit_end)
}

/// What lifts the instruction after the one being parsed, where the
/// address after the next is not known in advance: implemented by a
/// generated lifter for its language.
pub trait ConstructorResolver {
    /// Parses the instruction that follows the one of `input` and gives the
    /// address after it; `None` where it cannot be parsed.
    fn next2_address(input: &ParserInput<u32>) -> Option<u64>;
}

/// Whether `e` refers to the address after the next instruction.
pub open spec fn mentions_next2(e: PatternExpression) -> bool
    decreases e,
{
    match e {
        PatternExpression::Next2Instruction => true,
        PatternExpression::Operand { value, .. } => mentions_next2(*value),
        PatternExpression::Plus(l, r)
        | PatternExpression::Sub(l, r)
        | PatternExpression::Mult(l, r)
        | PatternExpression::LeftShift(l, r)
        | PatternExpression::RightShift(l, r)
        | PatternExpression::And(l, r)
        | PatternExpression::Or(l, r)
        | PatternExpression::Xor(l, r)
        | PatternExpression::Div(l, r) => mentions_next2(*l) || mentions_next2(*r),
        PatternExpression::Minus(x) | PatternExpression::Not(x) => mentions_next2(*x),
        _ => false,
    }
}

/// `env` with the address after the next instruction taken as `n2`.
pub open spec fn with_next2(env: PatternEnv, n2: Option<u64>) -> PatternEnv {
    PatternEnv { next2_address: n2, ..env }
}

impl PatternExpression {
    /// Whether the expression refers to the address after the next
    /// instruction (see `mentions_next2`).
    pub fn mentions_next2(&self) -> (r: bool)
        ensures
            r == mentions_next2(*self),
        decreases self,
    {
        match self {
            PatternExpression::Next2Instruction => true,
            PatternExpression::Operand { value, .. } => value.mentions_next2(),
            PatternExpression::Plus(l, r)
            | PatternExpression::Sub(l, r)
            | PatternExpression::Mult(l, r)
            | PatternExpression::LeftShift(l, r)
            | PatternExpression::RightShift(l, r)
            | PatternExpression::And(l, r)
            | PatternExpression::Or(l, r)
            | PatternExpression::Xor(l, r)
            | PatternExpression::Div(l, r) => l.mentions_next2() || r.mentions_next2(),
            PatternExpression::Minus(x) | PatternExpression::Not(x) => x.mentions_next2(),
            _ => false,
        }
    }

    /// Evaluates the expression over `input` as a lifter does: where the
    /// address after the next instruction is not known in `env` and the
    /// expression refers to it, the instruction after this one is lifted by
    /// `R` (once) to find it, and a failure there makes the reference fail.
    /// Whatever `R` gives, the result is that of `resolve` with that address.
    pub fn resolve_with<R: ConstructorResolver>(&self, input: &mut ParserInput<u32>, env: &PatternEnv) -> (r:
        Option<i64>)
        requires
            old(input).wf(),
            forall|n2: Option<u64>|
                (env.next2_address is Some ==> n2 == env.next2_address) ==> (#[trigger] eval(
                    *self,
                    state_of(old(input)),
                    read_only(old(input), with_next2(*env, n2)),
                )).0 is Some,
        ensures
            exists|n2: Option<u64>|
                {
                    &&& (env.next2_address is Some || !mentions_next2(*self)) ==> n2 == env.next2_address
                    &&& r == eval(*self, state_of(old(input)), read_only(old(input), with_next2(*env, n2))).0->0
                    &&& state_of(final(input)) == eval(
                        *self,
                        state_of(old(input)),
                        read_only(old(input), with_next2(*env, n2)),
                    ).1
                },
            final(input).wf(),
            final(input).same_input(old(input)),
            final(input).spec_alloc() == old(input).spec_alloc(),
    {
        let n2 = if env.next2_address.is_none() && self.mentions_next2() {
            R::next2_address(input)
        } else {
            env.next2_address
        };
        let env2 = PatternEnv { address: env.address, next_address: env.next_address, next2_address: n2 };
        proof {
            assert(env2 == with_next2(*env, n2));
            assert(eval(*self, state_of(old(input)), read_only(old(input), with_next2(*env, n2))).0 is Some);
        }
        self.resolve(input, &env2)
    }

    /// Evaluates the expression over `input` (see `eval`): `None` where a
    /// read is past the instruction or the address after next is unknown.
    pub fn resolve(&self, input: &mut ParserInput<u32>, env: &PatternEnv) -> (r: Option<i64>)
        requires
            old(input).wf(),
            eval(*self, state_of(old(input)), read_only(old(input), *env)).0 is Some,
        ensures
            r == eval(*self, state_of(old(input)), read_only(old(input), *env)).0->0,
            state_of(final(input)) == eval(*self, state_of(old(input)), read_only(old(input), *env)).1,
            final(input).wf(),
            final(input).same_input(old(input)),
            final(input).spec_alloc() == old(input).spec_alloc(),
        decreases self, 0int,
    {
        match self {
            PatternExpression::Constant { value } => Some(*value),
            PatternExpression::StartInstruction => Some(env.address as i64),
            PatternExpression::EndInstruction => Some(env.next_address as i64),
            PatternExpression::Next2Instruction => match env.next2_address {
                Some(v) => Some(v as i64),
                None => None,
            },
            PatternExpression::Plus(l, r) => {
                let a = l.resolve(input, env)?;
                let b = r.resolve(input, env)?;
                Some(a.wrapping_add(b))
            },
            PatternExpression::Sub(l, r) => {
                let a = l.resolve(input, env)?;
                let b = r.resolve(input, env)?;
                Some(a.wrapping_sub(b))
            },
            PatternExpression::Mult(l, r) => {
                let a = l.resolve(input, env)?;
                let b = r.resolve(input, env)?;
                Some(a.wrapping_mul(b))
            },
            PatternExpression::LeftShift(l, r) => {
                let a = l.resolve(input, env)?;
                let b = r.resolve(input, env)?;
                let k = (#[verifier::truncate] (b as u8)) as u32;
                Some(
                    if k >= 64 {
                        0
                    } else {
                        a << k
                    },
                )
            },
            PatternExpression::RightShift(l, r) => {
                let a = l.resolve(input, env)?;
                let b = r.resolve(input, env)?;
                let k = (#[verifier::truncate] (b as u8)) as u32;
                Some(
                    if k >= 64 {
                        if a < 0 {
                            -1
                        } else {
                            0
                        }
                    } else {
                        a >> k
                    },
                )
            },
            PatternExpression::And(l, r) => {
                let a = l.resolve(input, env)?;
                let b = r.resolve(input, env)?;
                Some(a & b)
            },
            PatternExpression::Or(l, r) => {
                let a = l.resolve(input, env)?;
                let b = r.resolve(input, env)?;
                Some(a | b)
            },
            PatternExpression::Xor(l, r) => {
                let a = l.resolve(input, env)?;
                let b = r.resolve(input, env)?;
                Some(a ^ b)
            },
            PatternExpression::Div(l, r) => {
                let _a = l.resolve(input, env)?;
                let _b = r.resolve(input, env)?;
                None
            },
            PatternExpression::Minus(x) => {
                let a = x.resolve(input, env)?;
                Some(-a)
            },
            PatternExpression::Not(x) => {
                let a = x.resolve(input, env)?;
                Some(!a)
            },
            PatternExpression::TokenField {
                big_endian,
                sign_bit,
                bit_start,
                bit_end,
                byte_start,
                byte_end,
                shift,
            } => token_field(input, *big_endian, *sign_bit, *bit_start, *bit_end, *byte_start, *byte_end, *shift),
            PatternExpression::ContextField { sign_bit, bit_start, bit_end, byte_start, byte_end, shift } => {
                Some(context_field(input, *sign_bit, *bit_start, *bit_end, *byte_start, *byte_end, *shift))
            },
            PatternExpression::Operand { constructor, offset, value } => {
                let ghost nodes = input.spec_nodes();
                let ctor = *constructor;
                let mut cur_depth: i8 = input.depth();
                let mut pt: usize = input.point() as usize;
                let found: Option<usize>;
                loop
                    invariant
                        input.wf(),
                        nodes == input.spec_nodes(),
                        find_ctor(nodes, input.spec_point() as int, input.spec_depth() as int, ctor)
                            == find_ctor(nodes, pt as int, cur_depth as int, ctor),
                        find_ctor(nodes, pt as int, cur_depth as int, ctor) is Some,
                    ensures
                        find_ctor(nodes, input.spec_point() as int, input.spec_depth() as int, ctor) == Some(
                            match found {
                                Some(f) => Some(f as int),
                                None => None::<int>,
                            },
                        ),
                        found is Some ==> found->0 < MAX_CTOR_STATES,
                    decreases cur_depth + 128,
                {
                    let node = input.node(pt);
                    let hit = match node.constructor {
                        Some(c) => c == ctor,
                        None => false,
                    };
                    if hit {
                        found = Some(pt);
                        break;
                    }
                    if cur_depth <= 0 {
                        found = None;
                        break;
                    }
                    cur_depth = cur_depth - 1;
                    pt = node.parent as usize;
                }
                match found {
                    None => resolve_placed(value, input, env, ctor, 0, 0),
                    Some(p) => {
                        let pnode = input.node(p);
                        let ofs = match offset {
                            OperandOffset::Relative(o) => pnode.offset + *o,
                            OperandOffset::Operand(i) => input.node(pnode.operands as usize + *i as usize).offset,
                        };
                        resolve_placed(value, input, env, ctor, ofs, pnode.length)
                    },
                }
            },
        }
    }
}

/// Evaluates `value` with the constructor `ctor` placed at the next free
/// place (see `eval_placed`).
fn resolve_placed(
    value: &PatternExpression,
    input: &mut ParserInput<u32>,
    env: &PatternEnv,
    ctor: u32,
    ofs: u8,
    len: u8,
) -> (r: Option<i64>)
    requires
        old(input).wf(),
        eval_placed(*value, ctor, ofs, len, state_of(old(input)), read_only(old(input), *env)).0 is Some,
    ensures
        r == eval_placed(*value, ctor, ofs, len, state_of(old(input)), read_only(old(input), *env)).0->0,
        state_of(final(input)) == eval_placed(*value, ctor, ofs, len, state_of(old(input)), read_only(old(input), *env)).1,
        final(input).wf(),
        final(input).same_input(old(input)),
        final(input).spec_alloc() == old(input).spec_alloc(),
    decreases value, 1int,
{
    let alloc = input.next_free();
    let old_point = input.point();
    let old_depth = input.depth();
    input.set_node(
        alloc as usize,
        ConstructorNode { constructor: Some(ctor), parent: INVALID_HANDLE, operands: INVALID_HANDLE, offset: ofs, length: len },
    );
    let old_path = input.swap_path(alloc, 0, zeros_path());
    proof {
        assert(input.spec_breadcrumb() =~= zero_path());
    }
    let v = value.resolve(input, env)?;
    let p = input.point() as usize;
    input.set_node(
        p,
        ConstructorNode { constructor: None, parent: INVALID_HANDLE, operands: INVALID_HANDLE, offset: 0, length: 0 },
    );
    let _ = input.swap_path(old_point, old_depth, old_path);
    Some(v)
}

/// Whether `e` reads an operand of some constructor.
pub open spec fn has_operand(e: PatternExpression) -> bool
    decreases e,
{
    match e {
        PatternExpression::Operand { .. } => true,
        PatternExpression::Plus(l, r) => has_operand(*l) || has_operand(*r),
        PatternExpression::Sub(l, r) => has_operand(*l) || has_operand(*r),
        PatternExpression::Mult(l, r) => has_operand(*l) || has_operand(*r),
        PatternExpression::LeftShift(l, r) => has_operand(*l) || has_operand(*r),
        PatternExpression::RightShift(l, r) => has_operand(*l) || has_operand(*r),
        PatternExpression::And(l, r) => has_operand(*l) || has_operand(*r),
        PatternExpression::Or(l, r) => has_operand(*l) || has_operand(*r),
        PatternExpression::Xor(l, r) => has_operand(*l) || has_operand(*r),
        PatternExpression::Div(l, r) => has_operand(*l) || has_operand(*r),
        PatternExpression::Minus(x) => has_operand(*x),
        PatternExpression::Not(x) => has_operand(*x),
        _ => false,
    }
}

/// An expression that reads no operand leaves the parser's state as it
/// was, whatever its outcome.
pub proof fn lemma_eval_pure(e: PatternExpression, st: ParseState, ro: ReadOnly)
    requires
        !has_operand(e),
    ensures
        eval(e, st, ro).1 == st,
    decreases e,
{
    match e {
        PatternExpression::Plus(l, r) => {
            lemma_eval_pure(*l, st, ro);
            lemma_eval_pure(*r, st, ro);
        },
        PatternExpression::Sub(l, r) => {
            lemma_eval_pure(*l, st, ro);
            lemma_eval_pure(*r, st, ro);
        },
        PatternExpression::Mult(l, r) => {
            lemma_eval_pure(*l, st, ro);
            lemma_eval_pure(*r, st, ro);
        },
        PatternExpression::LeftShift(l, r) => {
            lemma_eval_pure(*l, st, ro);
            lemma_eval_pure(*r, st, ro);
        },
        PatternExpression::RightShift(l, r) => {
            lemma_eval_pure(*l, st, ro);
            lemma_eval_pure(*r, st, ro);
        },
        PatternExpression::And(l, r) => {
            lemma_eval_pure(*l, st, ro);
            lemma_eval_pure(*r, st, ro);
        },
        PatternExpression::Or(l, r) => {
            lemma_eval_pure(*l, st, ro);
            lemma_eval_pure(*r, st, ro);
        },
        PatternExpression::Xor(l, r) => {
            lemma_eval_pure(*l, st, ro);
            lemma_eval_pure(*r, st, ro);
        },
        PatternExpression::Div(l, r) => {
            lemma_eval_pure(*l, st, ro);
            lemma_eval_pure(*r, st, ro);
        },
        PatternExpression::Minus(x) => {
            lemma_eval_pure(*x, st, ro);
        },
        PatternExpression::Not(x) => {
            lemma_eval_pure(*x, st, ro);
        },
        _ => {},
    }
}

/// An expression that evaluates to a value leaves the parser at the place,
/// depth and path where it started.
pub proof fn lemma_eval_restores(e: PatternExpression, st: ParseState, ro: ReadOnly)
    ensures
        eval(e, st, ro).0 matches Some(Some(_)) ==> {
            let s = eval(e, st, ro).1;
            s.1 == st.1 && s.2 == st.2 && s.3 == st.3
        },
    decreases e,
{
    match e {
        PatternExpression::Plus(l, r) => {
            lemma_eval_restores(*l, st, ro);
            let s1 = eval(*l, st, ro).1;
            lemma_eval_restores(*r, s1, ro);
        },
        PatternExpression::Sub(l, r) => {
            lemma_eval_restores(*l, st, ro);
            let s1 = eval(*l, st, ro).1;
            lemma_eval_restores(*r, s1, ro);
        },
        PatternExpression::Mult(l, r) => {
            lemma_eval_restores(*l, st, ro);
            let s1 = eval(*l, st, ro).1;
            lemma_eval_restores(*r, s1, ro);
        },
        PatternExpression::LeftShift(l, r) => {
            lemma_eval_restores(*l, st, ro);
            let s1 = eval(*l, st, ro).1;
            lemma_eval_restores(*r, s1, ro);
        },
        PatternExpression::RightShift(l, r) => {
            lemma_eval_restores(*l, st, ro);
            let s1 = eval(*l, st, ro).1;
            lemma_eval_restores(*r, s1, ro);
        },
        PatternExpression::And(l, r) => {
            lemma_eval_restores(*l, st, ro);
            let s1 = eval(*l, st, ro).1;
            lemma_eval_restores(*r, s1, ro);
        },
        PatternExpression::Or(l, r) => {
            lemma_eval_restores(*l, st, ro);
            let s1 = eval(*l, st, ro).1;
            lemma_eval_restores(*r, s1, ro);
        },
        PatternExpression::Xor(l, r) => {
            lemma_eval_restores(*l, st, ro);
            let s1 = eval(*l, st, ro).1;
            lemma_eval_restores(*r, s1, ro);
        },
        PatternExpression::Div(l, r) => {
            lemma_eval_restores(*l, st, ro);
            let s1 = eval(*l, st, ro).1;
            lemma_eval_restores(*r, s1, ro);
        },
        PatternExpression::Minus(x) => {
            lemma_eval_restores(*x, st, ro);
        },
        PatternExpression::Not(x) => {
            lemma_eval_restores(*x, st, ro);
        },
        PatternExpression::Operand { constructor, offset, value } => {
            let nodes = st.0;
            match find_ctor(nodes, st.1 as int, st.2 as int, constructor) {
                None => {},
                Some(None) => {
                    lemma_placed_restores(*value, constructor, 0, 0, st, ro);
                },
                Some(Some(pt)) => {
                    let pnode = nodes[pt];
                    match offset {
                        OperandOffset::Relative(o) => {
                            lemma_placed_restores(*value, constructor, (pnode.offset + o) as u8, pnode.length, st, ro);
                        },
                        OperandOffset::Operand(i) => {
                            if pnode.operands + i < nodes.len() {
                                lemma_placed_restores(*value, constructor, nodes[pnode.operands + i].offset, pnode.length, st, ro);
                            }
                        },
                    }
                },
            }
        },
        _ => {},
    }
}

proof fn lemma_placed_restores(value: PatternExpression, ctor: u32, ofs: u8, len: u8, st: ParseState, ro: ReadOnly)
    ensures
        eval_placed(value, ctor, ofs, len, st, ro).0 matches Some(Some(_)) ==> {
            let s = eval_placed(value, ctor, ofs, len, st, ro).1;
            s.1 == st.1 && s.2 == st.2 && s.3 == st.3
        },
{
}

} // verus!
