use vstd::prelude::*;

use crate::endian::Endian;
use crate::sleigh::deserialise::{colon_index, int_from_str_radix, lemma_colon_index, FromStrRadix};
use crate::text::{chars_of, str_eq, string_of};

verus! {

/// Why a lifter could not be chosen.
#[derive(Debug, Clone, Copy, PartialEq, Eq, Structural)]
pub enum LifterBuilderError {
    /// The language is not written `processor:endian:bits[:variant]`.
    ParseFormat,
    /// The bits are not 8, 16, 32 or 64.
    ParseBits,
    /// The endian is not `BE` or `LE`.
    ParseEndian,
    /// No lifter is built for the language.
    Unsupported,
}

/// The lifters that can be built.
#[derive(Debug, Clone, Copy, PartialEq, Eq, Structural)]
pub enum LifterTarget {
    X86Bits32,
    X86Bits64,
    X86Bits64Compat32,
    ArmBigV8,
    ArmBigV8T,
    ArmLittleV8,
    ArmLittleV8T,
    Aarch64BigV8A,
    Aarch64LittleV8A,
}

/// Chooses a lifter by processor, byte order, bits and variant.
pub struct LifterBuilder {
    processor: String,
    bits: Option<u32>,
    is_big: bool,
    variant: Option<String>,
}

/// The variant `v` as characters.
pub open spec fn variant_view(v: Option<String>) -> Option<Seq<char>> {
    match v {
        Some(s) => Some(s@),
        None => None,
    }
}

impl View for LifterBuilder {
    /// The processor, bits, whether big endian, and variant.
    type V = (Seq<char>, Option<u32>, bool, Option<Seq<char>>);

    closed spec fn view(&self) -> Self::V {
        (self.processor@, self.bits, self.is_big, variant_view(self.variant))
    }
}

/// Whether `v` is absent or is `name`.
pub open spec fn variant_is(v: Option<Seq<char>>, name: Seq<char>) -> bool {
    v is None || v == Some(name)
}

/// The lifter for a processor, byte order, bits and variant, if one is
/// built.
pub open spec fn target_of(b: (Seq<char>, Option<u32>, bool, Option<Seq<char>>)) -> Option<LifterTarget> {
    let (processor, bits, is_big, variant) = b;
    if processor == "x86"@ && !is_big && bits == Some(32u32) && variant_is(variant, "default"@) {
        Some(LifterTarget::X86Bits32)
    } else if processor == "x86"@ && !is_big && bits == Some(64u32) && variant_is(variant, "default"@) {
        Some(LifterTarget::X86Bits64)
    } else if processor == "x86"@ && !is_big && bits == Some(64u32) && variant == Some("compat32"@) {
        Some(LifterTarget::X86Bits64Compat32)
    } else if processor == "ARM"@ && (bits is None || bits == Some(32u32)) {
        if variant_is(variant, "v8"@) {
            Some(
                if is_big {
                    LifterTarget::ArmBigV8
                } else {
                    LifterTarget::ArmLittleV8
                },
            )
        } else if variant == Some("v8T"@) {
            Some(
                if is_big {
                    LifterTarget::ArmBigV8T
                } else {
                    LifterTarget::ArmLittleV8T
                },
            )
        } else {
            None
        }
    } else if processor == "AARCH64"@ && (bits is None || bits == Some(64u32)) && variant_is(
        variant,
        "v8A"@,
    ) {
        Some(
            if is_big {
                LifterTarget::Aarch64BigV8A
            } else {
                LifterTarget::Aarch64LittleV8A
            },
        )
    } else {
        None
    }
}

/// Whether `c` is white space (Unicode `White_Space`, as `char::is_whitespace`).
pub open spec fn is_white(c: char) -> bool {
    let v = c as u32;
    (9 <= v <= 13) || v == 32 || v == 0x85 || v == 0xa0 || v == 0x1680 || (0x2000 <= v <= 0x200a) || v
        == 0x2028 || v == 0x2029 || v == 0x202f || v == 0x205f || v == 0x3000
}

/// The exec form of `is_white`.
fn white(c: char) -> (r: bool)
    ensures
        r == is_white(c),
{
    let v = c as u32;
    (9 <= v && v <= 13) || v == 32 || v == 0x85 || v == 0xa0 || v == 0x1680 || (0x2000 <= v && v
        <= 0x200a) || v == 0x2028 || v == 0x2029 || v == 0x202f || v == 0x205f || v == 0x3000
}

/// The number of white space characters that `s` starts with.
pub open spec fn lead_white(s: Seq<char>) -> nat
    decreases s.len(),
{
    if s.len() > 0 && is_white(s[0]) {
        1 + lead_white(s.drop_first())
    } else {
        0
    }
}

/// The number of white space characters that `s` ends with.
pub open spec fn trail_white(s: Seq<char>) -> nat
    decreases s.len(),
{
    if s.len() > 0 && is_white(s.last()) {
        1 + trail_white(s.drop_last())
    } else {
        0
    }
}

/// `s` without white space at either end.
pub open spec fn trim_spec(s: Seq<char>) -> Seq<char> {
    let t = s.subrange(lead_white(s) as int, s.len() as int);
    t.subrange(0, t.len() - trail_white(t))
}

proof fn lemma_lead_white(s: Seq<char>, k: int)
    requires
        0 <= k <= s.len(),
        forall|q: int| 0 <= q < k ==> is_white(s[q]),
        k == s.len() || !is_white(s[k]),
    ensures
        lead_white(s) == k,
    decreases k,
{
    if k > 0 {
        let d = s.drop_first();
        assert forall|q: int| 0 <= q < k - 1 implies is_white(d[q]) by {
            assert(d[q] == s[q + 1]);
        }
        if k < s.len() {
            assert(d[k - 1] == s[k]);
        }
        lemma_lead_white(d, k - 1);
    }
}

proof fn lemma_trail_white(s: Seq<char>, k: int)
    requires
        0 <= k <= s.len(),
        forall|q: int| s.len() - k <= q < s.len() ==> is_white(s[q]),
        k == s.len() || !is_white(s[s.len() - k - 1]),
    ensures
        trail_white(s) == k,
    decreases k,
{
    if k > 0 {
        let d = s.drop_last();
        assert forall|q: int| d.len() - (k - 1) <= q < d.len() implies is_white(d[q]) by {
            assert(d[q] == s[q]);
        }
        if k < s.len() {
            assert(d[d.len() - (k - 1) - 1] == s[s.len() - k - 1]);
        }
        lemma_trail_white(d, k - 1);
    }
}

/// The characters of `cs[start..end]` without white space at either end.
fn trim_range(cs: &Vec<char>, start: usize, end: usize) -> (r: Vec<char>)
    requires
        start <= end <= cs@.len(),
    ensures
        r@ == trim_spec(cs@.subrange(start as int, end as int)),
{
    let ghost s = cs@.subrange(start as int, end as int);
    let mut a = start;
    while a < end && white(cs[a])
        invariant
            start <= a <= end <= cs@.len(),
            forall|q: int| start <= q < a ==> is_white(cs@[q]),
        decreases end - a,
    {
        a = a + 1;
    }
    proof {
        lemma_lead_white(s, a - start);
    }
    let ghost t = s.subrange(a - start, s.len() as int);
    assert(t =~= cs@.subrange(a as int, end as int));
    let mut b = end;
    while b > a && white(cs[b - 1])
        invariant
            a <= b <= end <= cs@.len(),
            forall|q: int| b <= q < end ==> is_white(cs@[q]),
        decreases b - a,
    {
        b = b - 1;
    }
    proof {
        assert forall|q: int| t.len() - (end - b) <= q < t.len() implies is_white(t[q]) by {
            assert(t[q] == cs@[a + q]);
        }
        if end - b < t.len() {
            assert(t[t.len() - (end - b) - 1] == cs@[b - 1]);
        }
        lemma_trail_white(t, end - b);
    }
    let mut r: Vec<char> = Vec::new();
    let mut k = a;
    while k < b
        invariant
            a <= k <= b <= cs@.len(),
            r@ == cs@.subrange(a as int, k as int),
        decreases b - k,
    {
        r.push(cs[k]);
        proof {
            assert(cs@.subrange(a as int, k + 1) =~= cs@.subrange(a as int, k as int).push(cs@[k as int]));
        }
        k = k + 1;
    }
    assert(r@ =~= t.subrange(0, t.len() - trail_white(t)));
    r
}

/// The text of `s` after its `k`-th colon, if it has that many.
pub open spec fn rest_after(s: Seq<char>, k: nat) -> Option<Seq<char>>
    decreases k,
{
    if k == 0 {
        Some(s)
    } else {
        match rest_after(s, (k - 1) as nat) {
            None => None,
            Some(r) => {
                let i = colon_index(r);
                if i < 0 {
                    None
                } else {
                    Some(r.subrange(i + 1, r.len() as int))
                }
            },
        }
    }
}

/// The `k`-th field of `s` split at colons, if it has that many.
pub open spec fn nth_field(s: Seq<char>, k: nat) -> Option<Seq<char>> {
    match rest_after(s, k) {
        None => None,
        Some(r) => {
            let i = colon_index(r);
            Some(
                if i < 0 {
                    r
                } else {
                    r.subrange(0, i)
                },
            )
        },
    }
}

/// The number of fields of `s` split at colons, counting at most four.
pub open spec fn field_count(s: Seq<char>) -> nat {
    if nth_field(s, 1) is None {
        1
    } else if nth_field(s, 2) is None {
        2
    } else if nth_field(s, 3) is None {
        3
    } else {
        4
    }
}

/// The first (at most four) fields of `s` split at colons, each trimmed.
pub open spec fn fields_of(s: Seq<char>) -> Seq<Seq<char>> {
    Seq::new(field_count(s), |k: int| trim_spec(nth_field(s, k as nat)->0))
}

/// What reading the trimmed fields `f` of a language gives: the processor
/// not empty, the endian `BE`, `be`, `LE` or `le`, the bits 8, 16, 32 or
/// 64, and an empty or missing variant taken as none.
pub open spec fn language_from_fields(f: Seq<Seq<char>>) -> Result<
    (Seq<char>, Option<u32>, bool, Option<Seq<char>>),
    LifterBuilderError,
> {
    if f.len() == 0 || f[0].len() == 0 || f.len() < 2 {
        Err(LifterBuilderError::ParseFormat)
    } else if !(f[1] == "le"@ || f[1] == "LE"@ || f[1] == "be"@ || f[1] == "BE"@) {
        Err(LifterBuilderError::ParseEndian)
    } else if f.len() < 3 {
        Err(LifterBuilderError::ParseFormat)
    } else {
        match int_from_str_radix(f[2], 10, false, 0, u32::MAX as int) {
            Ok(bits) => if bits == 8 || bits == 16 || bits == 32 || bits == 64 {
                let variant = if f.len() < 4 || f[3].len() == 0 {
                    None
                } else {
                    Some(f[3])
                };
                Ok((f[0], Some(bits as u32), f[1] == "be"@ || f[1] == "BE"@, variant))
            } else {
                Err(LifterBuilderError::ParseBits)
            },
            Err(_) => Err(LifterBuilderError::ParseBits),
        }
    }
}

/// What reading a language `processor:endian:bits[:variant]` gives (see
/// `language_from_fields`).
pub open spec fn language_of(s: Seq<char>) -> Result<(Seq<char>, Option<u32>, bool, Option<Seq<char>>), LifterBuilderError> {
    language_from_fields(fields_of(s))
}

/// Whether `a` holds no colon.
pub open spec fn colon_free(a: Seq<char>) -> bool {
    forall|q: int| 0 <= q < a.len() ==> a[q] != ':'
}

/// Whether `a` neither starts nor ends with white space.
pub open spec fn bare(a: Seq<char>) -> bool {
    a.len() == 0 || (!is_white(a[0]) && !is_white(a.last()))
}

/// `a` and `b` joined by a colon.
pub open spec fn colon_join(a: Seq<char>, b: Seq<char>) -> Seq<char> {
    a + seq![':'] + b
}

proof fn lemma_colon_join(a: Seq<char>, b: Seq<char>)
    requires
        colon_free(a),
    ensures
        colon_index(colon_join(a, b)) == a.len(),
        colon_join(a, b).subrange(0, a.len() as int) == a,
        colon_join(a, b).subrange(a.len() + 1int, colon_join(a, b).len() as int) == b,
{
    let s = colon_join(a, b);
    assert forall|q: int| 0 <= q < a.len() implies s[q] != ':' by {
        assert(s[q] == a[q]);
    }
    assert(s[a.len() as int] == ':');
    lemma_colon_index(s, a.len() as int);
    assert(s.subrange(0, a.len() as int) =~= a);
    assert(s.subrange(a.len() + 1int, s.len() as int) =~= b);
}

proof fn lemma_bare_trim(a: Seq<char>)
    requires
        bare(a),
    ensures
        trim_spec(a) == a,
{
    if a.len() > 0 {
        assert(lead_white(a) == 0);
        assert(a.subrange(0, a.len() as int) =~= a);
        assert(trail_white(a) == 0);
        assert(a.subrange(0, a.len() as int) =~= a);
    } else {
        assert(a.subrange(0, 0) =~= a);
    }
}

/// A processor, a byte order, a number of bits and a variant, joined by
/// colons, read back as a language: the processor, the bits, whether the
/// order is big endian and the variant, each as written. This is the view
/// of `LifterBuilder::new(processor)` with the bits and variant set and the
/// byte order chosen.
pub proof fn lemma_joined_language(
    processor: Seq<char>,
    endian: Seq<char>,
    digits: Seq<char>,
    variant: Seq<char>,
    big: bool,
    bits: u32,
)
    requires
        colon_free(processor),
        colon_free(endian),
        colon_free(digits),
        colon_free(variant),
        bare(processor),
        bare(digits),
        bare(variant),
        processor.len() > 0,
        variant.len() > 0,
        if big {
            endian == "BE"@ || endian == "be"@
        } else {
            endian == "LE"@ || endian == "le"@
        },
        bits == 8 || bits == 16 || bits == 32 || bits == 64,
        int_from_str_radix(digits, 10, false, 0, u32::MAX as int) == Ok::<
            int,
            crate::sleigh::deserialise::IntErrorKind,
        >(bits as int),
    ensures
        language_of(colon_join(processor, colon_join(endian, colon_join(digits, variant)))) == Ok::<
            (Seq<char>, Option<u32>, bool, Option<Seq<char>>),
            LifterBuilderError,
        >((processor, Some(bits), big, Some(variant))),
{
    reveal_strlit("BE");
    reveal_strlit("be");
    reveal_strlit("LE");
    reveal_strlit("le");
    let s3 = variant;
    let s2 = colon_join(digits, s3);
    let s1 = colon_join(endian, s2);
    let s = colon_join(processor, s1);
    lemma_colon_join(processor, s1);
    lemma_colon_join(endian, s2);
    lemma_colon_join(digits, s3);
    lemma_colon_index(s3, s3.len() as int);
    assert(rest_after(s, 0) == Some(s));
    assert(rest_after(s, 1) == Some(s1));
    assert(rest_after(s, 2) == Some(s2));
    assert(rest_after(s, 3) == Some(s3));
    assert(rest_after(s, 4) is None);
    assert(nth_field(s, 0) == Some(processor));
    assert(nth_field(s, 1) == Some(endian));
    assert(nth_field(s, 2) == Some(digits));
    assert(nth_field(s, 3) == Some(variant));
    assert(field_count(s) == 4);
    lemma_bare_trim(processor);
    lemma_bare_trim(endian);
    lemma_bare_trim(digits);
    lemma_bare_trim(variant);
    let f = fields_of(s);
    assert(f[0] == processor);
    assert(f[1] == endian);
    assert(f[2] == digits);
    assert(f[3] == variant);
}

/// The position of the first colon of `cs` from `start` on, or the end.
fn next_colon(cs: &Vec<char>, start: usize) -> (r: usize)
    requires
        start <= cs@.len(),
    ensures
        start <= r <= cs@.len(),
        colon_index(cs@.subrange(start as int, cs@.len() as int)) == if r == cs@.len() {
            -1
        } else {
            r - start
        },
{
    let n = cs.len();
    let mut i = start;
    while i < n && cs[i] != ':'
        invariant
            start <= i <= n == cs@.len(),
            forall|q: int| start <= q < i ==> cs@[q] != ':',
        decreases n - i,
    {
        i = i + 1;
    }
    proof {
        let t = cs@.subrange(start as int, n as int);
        assert forall|q: int| 0 <= q < i - start implies t[q] != ':' by {
            assert(t[q] == cs@[start + q]);
        }
        if i < n {
            assert(t[i - start] == cs@[i as int]);
        }
        lemma_colon_index(t, i - start);
    }
    i
}

/// Whether the characters `v` spell one of the byte orders, and which.
fn endian_field(v: &Vec<char>) -> (r: Option<bool>)
    ensures
        r == if v@ == "be"@ || v@ == "BE"@ {
            Some(true)
        } else if v@ == "le"@ || v@ == "LE"@ {
            Some(false)
        } else {
            None::<bool>
        },
{
    let s = string_of(v);
    if str_eq(s.as_str(), "be") || str_eq(s.as_str(), "BE") {
        Some(true)
    } else if str_eq(s.as_str(), "le") || str_eq(s.as_str(), "LE") {
        Some(false)
    } else {
        None
    }
}

/// The first (at most four) fields of `s` split at colons, each trimmed.
fn trimmed_fields(s: &str) -> (r: Vec<Vec<char>>)
    ensures
        r@.len() == fields_of(s@).len(),
        forall|k: int| 0 <= k < r@.len() ==> (#[trigger] r@[k])@ == fields_of(s@)[k],
{
    let cs = chars_of(s);
    let n = cs.len();
    let ghost t = s@;
    assert(cs@.subrange(0, n as int) =~= t);
    let mut out: Vec<Vec<char>> = Vec::new();
    let mut start: usize = 0;
    let mut k: usize = 0;
    loop
        invariant_except_break
            out@.len() == k,
            forall|j: int| 0 <= j < k ==> (#[trigger] out@[j])@ == trim_spec(nth_field(t, j as nat)->0),
        invariant
            k < 4,
            start <= n == cs@.len(),
            cs@ == t,
            rest_after(t, k as nat) == Some(cs@.subrange(start as int, n as int)),
            forall|j: int| 0 <= j < k ==> #[trigger] nth_field(t, j as nat) is Some,
        ensures
            out@.len() == field_count(t),
            forall|j: int| 0 <= j < out@.len() ==> (#[trigger] out@[j])@ == trim_spec(nth_field(t, j as nat)->0),
        decreases 4 - k,
    {
        let e = next_colon(&cs, start);
        assert(nth_field(t, k as nat) == Some(cs@.subrange(start as int, e as int))) by {
            assert(cs@.subrange(start as int, n as int).subrange(0, e - start) =~= cs@.subrange(start as int, e as int));
        }
        let field = trim_range(&cs, start, e);
        out.push(field);
        if e == n || k == 3 {
            proof {
                if e == n {
                    assert(rest_after(t, (k + 1) as nat) is None);
                    assert(nth_field(t, (k + 1) as nat) is None);
                }
                if k == 0 {
                    assert(field_count(t) == 1);
                } else if k == 1 {
                    assert(field_count(t) == 2);
                } else if k == 2 {
                    assert(field_count(t) == 3);
                } else {
                    assert(field_count(t) == 4);
                }
            }
            break;
        }
        proof {
            assert(cs@.subrange(start as int, n as int).subrange(e - start + 1, n - start) =~= cs@.subrange(e + 1, n as int));
            assert(rest_after(t, (k + 1) as nat) == Some(cs@.subrange(e + 1, n as int)));
        }
        start = e + 1;
        k = k + 1;
    }
    out
}

impl LifterBuilder {
    /// A builder for `processor`, little endian, with no bits or variant.
    pub fn new(processor: &str) -> (r: Self)
        ensures
            r@ == (processor@, None::<u32>, false, None::<Seq<char>>),
    {
        LifterBuilder { processor: processor.to_owned(), bits: None, is_big: false, variant: None }
    }

    /// Sets the bits.
    pub fn set_bits(&mut self, bits: u32)
        ensures
            final(self)@ == (old(self)@.0, Some(bits), old(self)@.2, old(self)@.3),
    {
        self.bits = Some(bits);
    }

    /// The builder with the bits set.
    pub fn bits(self, bits: u32) -> (r: Self)
        ensures
            r@ == (self@.0, Some(bits), self@.2, self@.3),
    {
        let mut b = self;
        b.set_bits(bits);
        b
    }

    /// The builder for big endian.
    pub fn big_endian(self) -> (r: Self)
        ensures
            r@ == (self@.0, self@.1, true, self@.3),
    {
        let mut b = self;
        b.is_big = true;
        b
    }

    /// The builder for little endian.
    pub fn little_endian(self) -> (r: Self)
        ensures
            r@ == (self@.0, self@.1, false, self@.3),
    {
        let mut b = self;
        b.is_big = false;
        b
    }

    /// Sets the byte order.
    pub fn set_endian(&mut self, endian: Endian)
        ensures
            final(self)@ == (old(self)@.0, old(self)@.1, endian == Endian::Big, old(self)@.3),
    {
        self.is_big = endian.is_big();
    }

    /// The builder with the byte order set.
    pub fn endian(self, endian: Endian) -> (r: Self)
        ensures
            r@ == (self@.0, self@.1, endian == Endian::Big, self@.3),
    {
        let mut b = self;
        b.set_endian(endian);
        b
    }

    /// Sets the variant.
    pub fn set_variant(&mut self, variant: &str)
        ensures
            final(self)@ == (old(self)@.0, old(self)@.1, old(self)@.2, Some(variant@)),
    {
        self.variant = Some(variant.to_owned());
    }

    /// The builder with the variant set.
    pub fn variant(self, variant: &str) -> (r: Self)
        ensures
            r@ == (self@.0, self@.1, self@.2, Some(variant@)),
    {
        let mut b = self;
        b.set_variant(variant);
        b
    }

    /// Reads a language `processor:endian:bits[:variant]` (see
    /// `language_of`).
    pub fn parse_language(s: &str) -> (r: Result<Self, LifterBuilderError>)
        ensures
            match language_of(s@) {
                Ok(v) => r is Ok && r->Ok_0@ == v,
                Err(e) => r == Err::<LifterBuilder, LifterBuilderError>(e),
            },
    {
        let f = trimmed_fields(s);
        let ghost g = fields_of(s@);
        assert(f@.len() == g.len());
        if f.len() < 2 || f[0].len() == 0 {
            return Err(LifterBuilderError::ParseFormat);
        }
        let is_big = match endian_field(&f[1]) {
            Some(b) => b,
            None => {
                return Err(LifterBuilderError::ParseEndian);
            },
        };
        if f.len() < 3 {
            return Err(LifterBuilderError::ParseFormat);
        }
        proof {
            assert(f@[2]@.subrange(0, f@[2]@.len() as int) =~= g[2]);
        }
        let bits: u32 = match u32::from_chars_radix(f[2].as_slice(), 0, f[2].len(), 10) {
            Ok(b) => b,
            Err(_) => {
                return Err(LifterBuilderError::ParseBits);
            },
        };
        if !(bits == 8 || bits == 16 || bits == 32 || bits == 64) {
            return Err(LifterBuilderError::ParseBits);
        }
        let variant = if f.len() < 4 || f[3].len() == 0 {
            None
        } else {
            Some(string_of(&f[3]))
        };
        let r = LifterBuilder { processor: string_of(&f[0]), bits: Some(bits), is_big, variant };
        assert(int_from_str_radix(g[2], 10, false, 0, u32::MAX as int) == Ok::<
            int,
            crate::sleigh::deserialise::IntErrorKind,
        >(bits as int));
        Ok(r)
    }

    /// Reads a language and chooses its lifter.
    pub fn build_str(language: &str) -> (r: Result<LifterTarget, LifterBuilderError>)
        ensures
            match language_of(language@) {
                Err(e) => r == Err::<LifterTarget, LifterBuilderError>(e),
                Ok(v) => match target_of(v) {
                    Some(t) => r == Ok::<LifterTarget, LifterBuilderError>(t),
                    None => r == Err::<LifterTarget, LifterBuilderError>(LifterBuilderError::Unsupported),
                },
            },
    {
        match Self::parse_language(language) {
            Ok(b) => b.build(),
            Err(e) => Err(e),
        }
    }

    /// Chooses the lifter for the builder's processor, byte order, bits and
    /// variant (see `target_of`).
    pub fn build(&self) -> (r: Result<LifterTarget, LifterBuilderError>)
        ensures
            match target_of(self@) {
                Some(t) => r == Ok::<LifterTarget, LifterBuilderError>(t),
                None => r == Err::<LifterTarget, LifterBuilderError>(LifterBuilderError::Unsupported),
            },
    {
        let p = self.processor.as_str();
        let no_variant = self.variant.is_none();
        let variant: &str = match &self.variant {
            Some(v) => v.as_str(),
            None => "",
        };
        let bits32 = match self.bits {
            Some(b) => b == 32,
            None => false,
        };
        let bits64 = match self.bits {
            Some(b) => b == 64,
            None => false,
        };
        let no_bits = self.bits.is_none();
        if str_eq(p, "x86") && !self.is_big && bits32 && (no_variant || str_eq(variant, "default")) {
            Ok(LifterTarget::X86Bits32)
        } else if str_eq(p, "x86") && !self.is_big && bits64 && (no_variant || str_eq(variant, "default")) {
            Ok(LifterTarget::X86Bits64)
        } else if str_eq(p, "x86") && !self.is_big && bits64 && !no_variant && str_eq(variant, "compat32") {
            Ok(LifterTarget::X86Bits64Compat32)
        } else if str_eq(p, "ARM") && (no_bits || bits32) {
            if no_variant || str_eq(variant, "v8") {
                Ok(
                    if self.is_big {
                        LifterTarget::ArmBigV8
                    } else {
                        LifterTarget::ArmLittleV8
                    },
                )
            } else if str_eq(variant, "v8T") {
                Ok(
                    if self.is_big {
                        LifterTarget::ArmBigV8T
                    } else {
                        LifterTarget::ArmLittleV8T
                    },
                )
            } else {
                Err(LifterBuilderError::Unsupported)
            }
        } else if str_eq(p, "AARCH64") && (no_bits || bits64) && (no_variant || str_eq(variant, "v8A")) {
            Ok(
                if self.is_big {
                    LifterTarget::Aarch64BigV8A
                } else {
                    LifterTarget::Aarch64LittleV8A
                },
            )
        } else {
            Err(LifterBuilderError::Unsupported)
        }
    }
}

impl std::str::FromStr for LifterBuilder {
    type Err = LifterBuilderError;

    fn from_str(s: &str) -> (r: Result<Self, Self::Err>)
        ensures
            match language_of(s@) {
                Ok(v) => r is Ok && r->Ok_0@ == v,
                Err(e) => r == Err::<LifterBuilder, LifterBuilderError>(e),
            },
    {
        Self::parse_language(s)
    }
}

} // verus!
