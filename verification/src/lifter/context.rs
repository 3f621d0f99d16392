use vstd::prelude::*;
use vstd::bits::*;
use vstd::arithmetic::power2::*;

use crate::lifter::varnode::VarnodeData;
use crate::partmap::{BoundKind, PartKey, PartMap, PartValue, floor_index, lemma_floor_index, lemma_floor_index_unique, split_position, split_result, lemma_split_lookup, lemma_split_lookup_view};

verus! {

/// The bits of a context variable: a field of one 32-bit word of the
/// context, `mask` wide once shifted down by `shift`.
#[derive(Debug, Clone, Copy, PartialEq, Eq, Structural, Hash)]
pub struct ContextBitRange {
    word: usize,
    start_bit: usize,
    end_bit: usize,
    shift: u32,
    mask: u32,
}

/// The field of `word` selected by `shift` and `mask`.
pub open spec fn field_of(word: u32, shift: u32, mask: u32) -> u32 {
    (word >> shift) & mask
}

/// `word` with the field selected by `shift` and `mask` replaced by the low
/// bits of `value`.
pub open spec fn with_field(word: u32, shift: u32, mask: u32, value: u32) -> u32 {
    (word & !(mask << shift)) | ((value & mask) << shift)
}

impl ContextBitRange {
    pub closed spec fn spec_word(&self) -> usize {
        self.word
    }

    pub closed spec fn spec_start_bit(&self) -> usize {
        self.start_bit
    }

    pub closed spec fn spec_end_bit(&self) -> usize {
        self.end_bit
    }

    pub closed spec fn spec_shift(&self) -> u32 {
        self.shift
    }

    pub closed spec fn spec_mask(&self) -> u32 {
        self.mask
    }

    /// The bit positions lie within the word, the field ends `shift` bits
    /// below the top, and the mask covers the field's width.
    #[verifier::type_invariant]
    closed spec fn inv(&self) -> bool {
        &&& self.start_bit <= self.end_bit < 32
        &&& self.shift == 31 - self.end_bit
        &&& self.mask == low_bits_mask((self.end_bit - self.start_bit + 1) as nat)
    }

    /// The bit range is one that [`Self::new`] builds.
    pub closed spec fn wf(&self) -> bool {
        self.inv()
    }

    /// The facts of a well-formed range.
    pub proof fn lemma_valid(&self)
        requires
            self.wf(),
        ensures
            self.spec_start_bit() <= self.spec_end_bit() < 32,
            self.spec_shift() == 31 - self.spec_end_bit(),
            self.spec_mask() == low_bits_mask(
                (self.spec_end_bit() - self.spec_start_bit() + 1) as nat,
            ),
            self.spec_mask() as int == pow2((self.spec_end_bit() - self.spec_start_bit() + 1) as nat)
                - 1,
    {
        lemma_pow2_pos((self.spec_end_bit() - self.spec_start_bit() + 1) as nat);
    }

    /// The bit range that [`Self::new`] builds.
    pub closed spec fn spec_new(start_bit: usize, end_bit: usize) -> Self {
        let word = start_bit / 32;
        let end = (end_bit - word * 32) as usize;
        ContextBitRange {
            word,
            start_bit: (start_bit - word * 32) as usize,
            end_bit: end,
            shift: (31 - end) as u32,
            mask: low_bits_mask((end_bit - start_bit + 1) as nat) as u32,
        }
    }

    /// The bits `start_bit..=end_bit` of the context, counted from the most
    /// significant bit of word 0; both must lie in the same 32-bit word.
    pub fn new(start_bit: usize, end_bit: usize) -> (r: Self)
        requires
            (start_bit / 32) * 32 <= start_bit <= end_bit < (start_bit / 32) * 32 + 32,
        ensures
            r.spec_word() == start_bit / 32,
            r.spec_start_bit() == start_bit - (start_bit / 32) * 32,
            r.spec_end_bit() == end_bit - (start_bit / 32) * 32,
            r.spec_shift() == 31 - r.spec_end_bit(),
            r.spec_mask() == low_bits_mask((end_bit - start_bit + 1) as nat),
            r.wf(),
            r == Self::spec_new(start_bit, end_bit),
    {
        let bits: usize = 32;
        let word = start_bit / bits;
        let start_bit = start_bit - word * bits;
        let end_bit = end_bit - word * bits;
        let shift = (bits - end_bit - 1) as u32;
        let k = start_bit as u32 + shift;
        let mask = (!0u32) >> k;
        proof {
            let w = (end_bit - start_bit + 1) as nat;
            assert(k == 32 - w);
            lemma_u32_shr_is_div(!0u32, k);
            lemma_pow2_adds(w, k as nat);
            lemma2_to64();
            lemma_u32_pow2_no_overflow(k as nat);
            lemma_pow2_pos(k as nat);
            lemma_pow2_pos(w);
            assert((!0u32) == 0xffff_ffffu32) by (bit_vector);
            assert(pow2(32) == pow2(w) * pow2(k as nat));
            let a = pow2(w) as int;
            let b = pow2(k as nat) as int;
            assert(((a * b - 1) / b) == a - 1) by (nonlinear_arith)
                requires
                    b > 0,
                    a > 0,
            {
                vstd::arithmetic::div_mod::lemma_fundamental_div_mod_converse_div(
                    a * b - 1,
                    b,
                    a - 1,
                    b - 1,
                );
            }
        }
        ContextBitRange { word, start_bit, end_bit, shift, mask }
    }

    /// The first bit of the field within its word.
    pub fn start_bit(&self) -> (r: usize)
        ensures
            r == self.spec_start_bit(),
    {
        self.start_bit
    }

    /// The last bit of the field within its word.
    pub fn end_bit(&self) -> (r: usize)
        ensures
            r == self.spec_end_bit(),
    {
        self.end_bit
    }

    /// The index of the context word that holds the field.
    pub fn word(&self) -> (r: usize)
        ensures
            r == self.spec_word(),
    {
        self.word
    }

    /// How far the field lies above the least significant bit.
    pub fn shift(&self) -> (r: u32)
        ensures
            r == self.spec_shift(),
    {
        self.shift
    }

    /// The mask of the field once shifted down.
    pub fn mask(&self) -> (r: u32)
        ensures
            r == self.spec_mask(),
    {
        self.mask
    }

    /// The field's value in `values`.
    pub open spec fn spec_get(&self, values: Seq<u32>) -> u32 {
        field_of(values[self.spec_word() as int], self.spec_shift(), self.spec_mask())
    }

    /// `values` with the field set to the low bits of `value`.
    pub open spec fn spec_set(&self, values: Seq<u32>, value: u32) -> Seq<u32> {
        values.update(
            self.spec_word() as int,
            with_field(values[self.spec_word() as int], self.spec_shift(), self.spec_mask(), value),
        )
    }

    /// The mask of the field in place.
    pub open spec fn spec_placed_mask(&self) -> u32 {
        self.spec_mask() << self.spec_shift()
    }

    fn get(&self, values: &Vec<u32>) -> (r: u32)
        requires
            self.spec_word() < values@.len(),
        ensures
            r == self.spec_get(values@),
    {
        proof {
            use_type_invariant(*self);
        }
        (values[self.word] >> self.shift) & self.mask
    }

    fn set(&self, values: &mut Vec<u32>, value: u32)
        requires
            self.spec_word() < old(values)@.len(),
        ensures
            final(values)@ == self.spec_set(old(values)@, value),
    {
        proof {
            use_type_invariant(*self);
        }
        let mut nvalue = values[self.word];
        nvalue = nvalue & !(self.mask << self.shift);
        nvalue = nvalue | ((value & self.mask) << self.shift);
        values.set(self.word, nvalue);
    }

    fn set_full(&self, values: &mut Vec<u32>, masks: &mut Vec<u32>, value: u32)
        requires
            self.spec_word() < old(values)@.len(),
            self.spec_word() < old(masks)@.len(),
        ensures
            final(values)@ == self.spec_set(old(values)@, value),
            final(masks)@ == old(masks)@.update(
                self.spec_word() as int,
                old(masks)@[self.spec_word() as int] | self.spec_placed_mask(),
            ),
    {
        proof {
            use_type_invariant(*self);
        }
        let nmask = self.mask << self.shift;
        self.set(values, value);
        let m = masks[self.word];
        masks.set(self.word, m | nmask);
    }
}

/// The mask of a well-formed field is all ones shifted right by `k`, the
/// number of bits outside the field, which is at least its shift.
proof fn lemma_mask_shape(bits: ContextBitRange)
    requires
        bits.wf(),
    ensures
        bits.spec_shift() <= (31 - bits.spec_end_bit() + bits.spec_start_bit()) < 32,
        bits.spec_mask() == (!0u32) >> ((31 - bits.spec_end_bit() + bits.spec_start_bit()) as u32),
{
    bits.lemma_valid();
    let s = bits.spec_shift();
    let m = bits.spec_mask();
    let k = (31 - bits.spec_end_bit() + bits.spec_start_bit()) as u32;
    assert(m == (!0u32) >> k) by {
        let w = (bits.spec_end_bit() - bits.spec_start_bit() + 1) as nat;
        lemma_u32_shr_is_div(!0u32, k);
        lemma_pow2_adds(w, k as nat);
        lemma2_to64();
        lemma_pow2_pos(w);
        lemma_pow2_pos(k as nat);
        assert((!0u32) == 0xffff_ffffu32) by (bit_vector);
        let a = pow2(w) as int;
        let b = pow2(k as nat) as int;
        assert(((a * b - 1) / b) == a - 1) by (nonlinear_arith)
            requires
                b > 0,
                a > 0,
        {
            vstd::arithmetic::div_mod::lemma_fundamental_div_mod_converse_div(
                a * b - 1,
                b,
                a - 1,
                b - 1,
            );
        }
    }
}

/// Writing one field leaves every field whose bits lie elsewhere in the
/// word as it was.
proof fn lemma_disjoint_fields(w: ContextBitRange, b: ContextBitRange, x: u32, v: u32)
    requires
        w.wf(),
        b.wf(),
        w.spec_placed_mask() & b.spec_placed_mask() == 0,
    ensures
        field_of(with_field(x, b.spec_shift(), b.spec_mask(), v), w.spec_shift(), w.spec_mask()) == field_of(
            x,
            w.spec_shift(),
            w.spec_mask(),
        ),
{
    lemma_mask_shape(w);
    lemma_mask_shape(b);
    let bs = b.spec_shift();
    let bm = b.spec_mask();
    let bk = (31 - b.spec_end_bit() + b.spec_start_bit()) as u32;
    let ws = w.spec_shift();
    let wm = w.spec_mask();
    let wk = (31 - w.spec_end_bit() + w.spec_start_bit()) as u32;
    assert(((((x & !(bm << bs)) | ((v & bm) << bs)) >> ws) & wm) == ((x >> ws) & wm)) by (bit_vector)
        requires
            bs <= bk < 32,
            bm == (!0u32) >> bk,
            ws <= wk < 32,
            wm == (!0u32) >> wk,
            (wm << ws) & (bm << bs) == 0,
    ;
}

/// Writing a field and reading it back gives the low bits of the value
/// written, and every bit outside the field keeps its value.
pub proof fn lemma_field_set_get(bits: ContextBitRange, word: u32, value: u32)
    requires
        bits.wf(),
    ensures
        field_of(with_field(word, bits.spec_shift(), bits.spec_mask(), value), bits.spec_shift(), bits.spec_mask())
            == value & bits.spec_mask(),
        with_field(word, bits.spec_shift(), bits.spec_mask(), value) & !bits.spec_placed_mask()
            == word & !bits.spec_placed_mask(),
{
    bits.lemma_valid();
    let s = bits.spec_shift();
    let m = bits.spec_mask();
    let k = (31 - bits.spec_end_bit() + bits.spec_start_bit()) as u32;
    assert(m == (!0u32) >> k) by {
        let w = (bits.spec_end_bit() - bits.spec_start_bit() + 1) as nat;
        lemma_u32_shr_is_div(!0u32, k);
        lemma_pow2_adds(w, k as nat);
        lemma2_to64();
        lemma_pow2_pos(w);
        lemma_pow2_pos(k as nat);
        assert((!0u32) == 0xffff_ffffu32) by (bit_vector);
        let a = pow2(w) as int;
        let b = pow2(k as nat) as int;
        assert(((a * b - 1) / b) == a - 1) by (nonlinear_arith)
            requires
                b > 0,
                a > 0,
        {
            vstd::arithmetic::div_mod::lemma_fundamental_div_mod_converse_div(
                a * b - 1,
                b,
                a - 1,
                b - 1,
            );
        }
    }
    assert(((((word & !(m << s)) | ((value & m) << s)) >> s) & m) == value & m) by (bit_vector)
        requires
            s <= k < 32,
            m == (!0u32) >> k,
    ;
    assert((((word & !(m << s)) | ((value & m) << s)) & !(m << s)) == word & !(m << s))
        by (bit_vector)
        requires
            s <= k < 32,
            m == (!0u32) >> k,
    ;
}


/// An optional address as an integer.
pub open spec fn opt_int(o: Option<u64>) -> Option<int> {
    match o {
        Some(e) => Some(e as int),
        None => None,
    }
}

/// A change to one word of the context.
#[derive(Clone, Copy)]
pub enum ContextUpdate {
    /// Sets a variable's field to the low bits of a value.
    Field(ContextBitRange, u32),
    /// Replaces the bits `mask` of word `num` by `value`: the word becomes
    /// `(word & !mask) | value`.
    Word(usize, u32, u32),
}

impl ContextUpdate {
    /// The index of the word that changes.
    pub open spec fn spec_word(&self) -> int {
        match self {
            ContextUpdate::Field(b, _) => b.spec_word() as int,
            ContextUpdate::Word(num, _, _) => *num as int,
        }
    }

    /// The context words after the change.
    pub open spec fn apply_spec(&self, values: Seq<u32>) -> Seq<u32> {
        match self {
            ContextUpdate::Field(b, v) => b.spec_set(values, *v),
            ContextUpdate::Word(num, mask, value) => values.update(
                *num as int,
                (values[*num as int] & !*mask) | *value,
            ),
        }
    }

    fn apply(&self, values: &mut Vec<u32>)
        requires
            0 <= self.spec_word() < old(values)@.len(),
        ensures
            final(values)@ == self.apply_spec(old(values)@),
    {
        match self {
            ContextUpdate::Field(b, v) => b.set(values, *v),
            ContextUpdate::Word(num, mask, value) => {
                let w = values[*num];
                values.set(*num, (w & !*mask) | *value);
            },
        }
    }
}

/// Whether the explicit-change marks of `fa` hold any bit of `mask` in word `num`.
pub open spec fn is_marked(fa: (Seq<u32>, Seq<u32>), num: int, mask: u32) -> bool {
    fa.1[num] & mask != 0
}

/// Whether no split point after `addr` and at or before `p` carries a mark
/// for `mask` in word `num`.
pub open spec fn unmarked_between(
    db: PartMap<u64, FreeArray>,
    addr: int,
    p: int,
    num: int,
    mask: u32,
) -> bool {
    forall|j: int|
        0 <= j < db.spec_keys().len() && addr < #[trigger] db.spec_keys()[j].key_int() <= p
            ==> !is_marked(db.spec_values()[j]@, num, mask)
}

/// Whether no split point lies after `addr` and at or before `p`.
pub open spec fn no_split_between(db: PartMap<u64, FreeArray>, addr: int, p: int) -> bool {
    forall|j: int|
        0 <= j < db.spec_keys().len() ==> !(addr < #[trigger] db.spec_keys()[j].key_int() <= p)
}

/// Every array of the map (the default and each split point's) holds
/// `size` words of values and of marks.
pub open spec fn arrays_sized(db: PartMap<u64, FreeArray>, size: int) -> bool {
    &&& db.spec_default()@.0.len() == size
    &&& db.spec_default()@.1.len() == size
    &&& forall|i: int|
        0 <= i < db.spec_values().len() ==> (#[trigger] db.spec_values()[i])@.0.len() == size
            && db.spec_values()[i]@.1.len() == size
}

/// The marks of `fa` with the bits of `mask` set in word `num`.
pub open spec fn marks_with(marks: Seq<u32>, num: int, mask: u32) -> Seq<u32> {
    marks.update(num, marks[num] | mask)
}

/// What a change at `addr` does to the point `p`: points before `addr` are
/// untouched; a point from `addr` on takes the change unless a split point
/// after `addr`, at or before it, was already marked for the same bits; the
/// marks are set for the points up to the first split point after `addr`.
pub open spec fn change_point_effect(
    before: PartMap<u64, FreeArray>,
    after: PartMap<u64, FreeArray>,
    addr: int,
    num: int,
    mask: u32,
    upd: ContextUpdate,
    p: int,
) -> bool {
    if p < addr {
        after.spec_get_or_default(p) == before.spec_get_or_default(p)
    } else if unmarked_between(before, addr, p, num, mask) {
        &&& after.spec_get_or_default(p)@.0 == upd.apply_spec(before.spec_get_or_default(p)@.0)
        &&& after.spec_get_or_default(p)@.1 == if no_split_between(before, addr, p) {
            marks_with(before.spec_get_or_default(p)@.1, num, mask)
        } else {
            before.spec_get_or_default(p)@.1
        }
    } else {
        after.spec_get_or_default(p)@ == before.spec_get_or_default(p)@
    }
}

/// What setting the region from `addr1` up to `addr2` (or without end) does
/// to the point `p`: inside, the change is applied and the marks are set;
/// outside, nothing changes.
pub open spec fn region_effect(
    before: PartMap<u64, FreeArray>,
    after: PartMap<u64, FreeArray>,
    addr1: int,
    addr2: Option<int>,
    num: int,
    mask: u32,
    upd: ContextUpdate,
    p: int,
) -> bool {
    if p < addr1 {
        after.spec_get_or_default(p) == before.spec_get_or_default(p)
    } else if addr2 is None || p < addr2->0 {
        &&& after.spec_get_or_default(p)@.0 == upd.apply_spec(before.spec_get_or_default(p)@.0)
        &&& after.spec_get_or_default(p)@.1 == marks_with(before.spec_get_or_default(p)@.1, num, mask)
    } else {
        after.spec_get_or_default(p)@ == before.spec_get_or_default(p)@
    }
}


/// The effect of a change at `addr` follows from the index range that the
/// change updated in the split map.
proof fn lemma_change_point_effect(
    before: PartMap<u64, FreeArray>,
    m1: PartMap<u64, FreeArray>,
    after: PartMap<u64, FreeArray>,
    addr: int,
    num: int,
    mask: u32,
    upd: ContextUpdate,
    pos: int,
    stop: int,
    p: int,
)
    requires
        before.wf(),
        m1.wf(),
        after.wf(),
        split_result(before, m1, addr, m1.spec_values()[pos]),
        m1.spec_values()[pos]@ == before.spec_get_or_default(addr)@,
        pos == split_position(before.spec_keys(), addr),
        pos < stop <= m1.spec_keys().len(),
        stop < m1.spec_keys().len() ==> is_marked(m1.spec_values()[stop]@, num, mask),
        forall|j: int| pos < j < stop ==> !is_marked(#[trigger] m1.spec_values()[j]@, num, mask),
        after.spec_keys() == m1.spec_keys(),
        after.spec_default() == m1.spec_default(),
        after.spec_values().len() == m1.spec_values().len(),
        forall|j: int|
            pos <= j < stop ==> (#[trigger] after.spec_values()[j])@.0 == upd.apply_spec(
                m1.spec_values()[j]@.0,
            ) && after.spec_values()[j]@.1 == (if j == pos {
                marks_with(m1.spec_values()[j]@.1, num, mask)
            } else {
                m1.spec_values()[j]@.1
            }),
        forall|j: int|
            0 <= j < m1.spec_values().len() && (j < pos || j >= stop) ==> #[trigger] after.spec_values()[j]
                == m1.spec_values()[j],
    ensures
        change_point_effect(before, after, addr, num, mask, upd, p),
{
    let bk = before.spec_keys();
    let mk = m1.spec_keys();
    let f = floor_index(bk, addr);
    lemma_floor_index(bk, addr);
    lemma_floor_index(mk, p);
    let existed = f >= 0 && bk[f].key_int() == addr;
    let shift: int = if existed {
        0
    } else {
        1
    };
    let q = floor_index(mk, p);
    lemma_split_lookup(before, m1, addr, m1.spec_values()[pos], p);
    lemma_split_lookup_view(before, m1, addr, m1.spec_values()[pos], p);
    if p < addr {
        assert(q < pos) by {
            if q >= pos {
                if q > pos {
                    assert(mk[pos].key_int() < mk[q].key_int());
                }
            }
        }
    } else {
        assert(q >= pos) by {
            if q < pos {
                assert(mk[pos].key_int() <= p);
            }
        }
        // split points of `before` after `addr` are those of `m1` after `pos`
        assert forall|j: int| 0 <= j < bk.len() && addr < #[trigger] bk[j].key_int() implies j
            + shift > pos && mk[j + shift] == bk[j] && m1.spec_values()[j + shift]
            == before.spec_values()[j] by {
            if j <= f {
                assert(bk[j].key_int() <= addr);
            }
            assert(j + shift > pos);
            let _ = m1.spec_keys()[j + shift];
        }
        if q < stop {
            assert(unmarked_between(before, addr, p, num, mask)) by {
                assert forall|j: int|
                    0 <= j < bk.len() && addr < #[trigger] bk[j].key_int() <= p implies !is_marked(
                    before.spec_values()[j]@,
                    num,
                    mask,
                ) by {
                    assert(mk[j + shift] == bk[j]);
                    assert(j + shift <= q) by {
                        if j + shift > q {
                            assert(mk[j + shift].key_int() > p);
                        }
                    }
                }
            }
            if q == pos {
                assert(no_split_between(before, addr, p)) by {
                    assert forall|j: int| 0 <= j < bk.len() implies !(addr < #[trigger] bk[j].key_int()
                        <= p) by {
                        if addr < bk[j].key_int() <= p {
                            assert(mk[j + shift] == bk[j]);
                            assert(mk[j + shift].key_int() > p);
                        }
                    }
                }
            } else {
                assert(!no_split_between(before, addr, p)) by {
                    assert(mk[q] == bk[q - shift]);
                    assert(addr < bk[q - shift].key_int() <= p) by {
                        assert(mk[pos].key_int() < mk[q].key_int());
                    }
                }
            }
        } else {
            assert(!unmarked_between(before, addr, p, num, mask)) by {
                assert(mk[stop] == bk[stop - shift]);
                assert(addr < bk[stop - shift].key_int() <= p) by {
                    assert(mk[pos].key_int() < mk[stop].key_int());
                    if stop < q {
                        assert(mk[stop].key_int() < mk[q].key_int());
                    }
                }
            }
        }
    }
}

/// Applies `upd` to the split point at `addr` (made one if needed) and to
/// the following split points up to the first one already marked for
/// `mask` in word `num`; the first one is marked.
fn change_point(db: &mut PartMap<u64, FreeArray>, addr: u64, num: usize, mask: u32, upd: ContextUpdate, size: usize)
    requires
        old(db).wf(),
        arrays_sized(*old(db), size as int),
        num < size,
        0 <= upd.spec_word() < size,
    ensures
        final(db).wf(),
        arrays_sized(*final(db), size as int),
        final(db).spec_default() == old(db).spec_default(),
        forall|p: int|
            #[trigger] change_point_effect(*old(db), *final(db), addr as int, num as int, mask, upd, p),
{
    let ghost m0 = *db;
    let pos = db.split_index(&addr);
    let ghost m1 = *db;
    proof {
        lemma_split_sized(m0, m1, addr as int, m1.spec_values()[pos as int], size as int);
    }
    let n = db.len();
    let mut i = pos;
    let mut done = false;
    while i < n && !done
        invariant
            db.wf(),
            m1.wf(),
            pos < m1.spec_keys().len(),
            n == m1.spec_keys().len(),
            arrays_sized(m1, size as int),
            num < size,
            0 <= upd.spec_word() < size,
            pos <= i <= n,
            db.spec_keys() == m1.spec_keys(),
            db.spec_default() == m1.spec_default(),
            db.spec_values().len() == m1.spec_values().len(),
            arrays_sized(*db, size as int),
            forall|j: int|
                pos <= j < i ==> (#[trigger] db.spec_values()[j])@.0 == upd.apply_spec(
                    m1.spec_values()[j]@.0,
                ) && db.spec_values()[j]@.1 == (if j == pos {
                    marks_with(m1.spec_values()[j]@.1, num as int, mask)
                } else {
                    m1.spec_values()[j]@.1
                }),
            forall|j: int|
                0 <= j < m1.spec_values().len() && (j < pos || j >= i) ==> #[trigger] db.spec_values()[j]
                    == m1.spec_values()[j],
            forall|j: int| pos < j < i ==> !is_marked(#[trigger] m1.spec_values()[j]@, num as int, mask),
            done ==> pos < i < n && is_marked(m1.spec_values()[i as int]@, num as int, mask),
        decreases n - i + (if done { 0int } else { 1int }),
    {
        let ghost before_step = *db;
        let fa = db.value_at_mut(i);
        if i == pos {
            let m = fa.masks[num];
            fa.masks.set(num, m | mask);
            upd.apply(&mut fa.values);
            i = i + 1;
        } else if fa.masks[num] & mask != 0 {
            done = true;
        } else {
            upd.apply(&mut fa.values);
            i = i + 1;
        }
    }
    proof {
        let m2 = *db;
        assert forall|p: int| #[trigger] change_point_effect(m0, m2, addr as int, num as int, mask, upd, p) by {
            lemma_change_point_effect(m0, m1, m2, addr as int, num as int, mask, upd, pos as int, i as int, p);
        }
    }
}


/// A split keeps every array of the map at its size.
proof fn lemma_split_sized(
    before: PartMap<u64, FreeArray>,
    after: PartMap<u64, FreeArray>,
    at: int,
    v: FreeArray,
    size: int,
)
    requires
        before.wf(),
        arrays_sized(before, size),
        split_result(before, after, at, v),
        v@ == before.spec_get_or_default(at)@,
    ensures
        arrays_sized(after, size),
{
    lemma_floor_index(before.spec_keys(), at);
    let f = floor_index(before.spec_keys(), at);
    let pos = split_position(before.spec_keys(), at);
    let shift: int = if f >= 0 && before.spec_keys()[f].key_int() == at {
        0
    } else {
        1
    };
    assert forall|j: int| 0 <= j < after.spec_values().len() implies (#[trigger] after.spec_values()[j])@.0.len()
        == size && after.spec_values()[j]@.1.len() == size by {
        let _ = after.spec_keys()[j];
        if j > pos {
            assert(after.spec_values()[j] == before.spec_values()[j - shift]);
        } else if j < pos {
            assert(after.spec_values()[j] == before.spec_values()[j]);
        }
    }
}

/// The effect of setting a region follows from the index range that was
/// updated once both ends were made split points.
proof fn lemma_region_effect(
    before: PartMap<u64, FreeArray>,
    m2: PartMap<u64, FreeArray>,
    after: PartMap<u64, FreeArray>,
    addr1: int,
    addr2: Option<int>,
    num: int,
    mask: u32,
    upd: ContextUpdate,
    lo: int,
    hi: int,
    p: int,
)
    requires
        m2.wf(),
        m2.spec_get_or_default(p)@ == before.spec_get_or_default(p)@,
        p < addr1 ==> m2.spec_get_or_default(p) == before.spec_get_or_default(p),
        0 <= lo <= hi <= m2.spec_keys().len(),
        lo < m2.spec_keys().len() ==> m2.spec_keys()[lo].key_int() == addr1,
        addr2 is Some && addr1 < addr2->0 ==> lo < m2.spec_keys().len(),
        addr2 is None ==> hi == m2.spec_keys().len(),
        addr2 is Some ==> (hi < m2.spec_keys().len() && m2.spec_keys()[hi].key_int() == addr2->0)
            || (hi == lo && addr1 == addr2->0 && lo < m2.spec_keys().len()),
        addr2 is None ==> lo < m2.spec_keys().len(),
        after.spec_keys() == m2.spec_keys(),
        after.spec_default() == m2.spec_default(),
        after.spec_values().len() == m2.spec_values().len(),
        forall|j: int|
            lo <= j < hi ==> (#[trigger] after.spec_values()[j])@.0 == upd.apply_spec(
                m2.spec_values()[j]@.0,
            ) && after.spec_values()[j]@.1 == marks_with(m2.spec_values()[j]@.1, num, mask),
        forall|j: int|
            0 <= j < m2.spec_values().len() && (j < lo || j >= hi) ==> #[trigger] after.spec_values()[j]
                == m2.spec_values()[j],
    ensures
        region_effect(before, after, addr1, addr2, num, mask, upd, p),
{
    let mk = m2.spec_keys();
    lemma_floor_index(mk, p);
    let q = floor_index(mk, p);
    if p < addr1 {
        if q >= lo && lo < mk.len() {
            if q > lo {
                assert(mk[lo].key_int() < mk[q].key_int());
            }
        }
    } else if addr2 is None || p < addr2->0 {
        assert(lo < mk.len());
        assert(q >= lo) by {
            if q < lo {
                assert(mk[lo].key_int() <= p);
            }
        }
        assert(q < hi) by {
            if q >= hi {
                if q > hi {
                    assert(mk[hi].key_int() < mk[q].key_int());
                }
            }
        }
    } else {
        if hi < mk.len() && mk[hi].key_int() == addr2->0 {
            assert(q >= hi) by {
                if q < hi {
                    assert(mk[hi].key_int() <= p);
                }
            }
        } else {
            assert(q >= lo) by {
                if q < lo {
                    assert(mk[lo].key_int() <= p);
                }
            }
        }
    }
}

/// Applies `upd` to, and marks, every split point from `addr1` up to
/// `addr2` (or to the end), after making both ends split points.
fn region_set(
    db: &mut PartMap<u64, FreeArray>,
    addr1: u64,
    addr2: Option<u64>,
    num: usize,
    mask: u32,
    upd: ContextUpdate,
    size: usize,
)
    requires
        old(db).wf(),
        arrays_sized(*old(db), size as int),
        num < size,
        0 <= upd.spec_word() < size,
        addr2 matches Some(e) ==> addr1 <= e,
    ensures
        final(db).wf(),
        arrays_sized(*final(db), size as int),
        final(db).spec_default() == old(db).spec_default(),
        forall|p: int|
            #[trigger] region_effect(
                *old(db),
                *final(db),
                addr1 as int,
                opt_int(addr2),
                num as int,
                mask,
                upd,
                p,
            ),
{
    let ghost m0 = *db;
    let a = db.split_index(&addr1);
    let ghost m1 = *db;
    proof {
        lemma_split_sized(m0, m1, addr1 as int, m1.spec_values()[a as int], size as int);
    }
    let (lo, hi) = match addr2 {
        Some(e) => {
            let b = db.split_index(&e);
            let ghost m2 = *db;
            proof {
                lemma_split_sized(m1, m2, e as int, m2.spec_values()[b as int], size as int);
            }
            db.range_mut(&addr1, Some(&e))
        },
        None => db.begin_mut(&addr1),
    };
    let ghost m2 = *db;
    let ghost e2: Option<int> = opt_int(addr2);
    proof {
        // lookups of the split map agree with those before the split
        assert forall|p: int|
            #![trigger m2.spec_get_or_default(p)]
            m2.spec_get_or_default(p)@ == m0.spec_get_or_default(p)@ && (p < addr1 ==> m2.spec_get_or_default(p)
                == m0.spec_get_or_default(p)) by {
            lemma_split_lookup(m0, m1, addr1 as int, m1.spec_values()[a as int], p);
            lemma_split_lookup_view(m0, m1, addr1 as int, m1.spec_values()[a as int], p);
            if let Some(e) = addr2 {
                let b = split_position(m1.spec_keys(), e as int);
                lemma_split_lookup(m1, m2, e as int, m2.spec_values()[b], p);
                lemma_split_lookup_view(m1, m2, e as int, m2.spec_values()[b], p);
            }
        }
        // the span starts at `addr1` and ends at `addr2`
        lemma_floor_index(m2.spec_keys(), addr1 as int);
        assert(exists|j: int| 0 <= j < m2.spec_keys().len() && #[trigger] m2.spec_keys()[j].key_int() == addr1) by {
            if let Some(e) = addr2 {
                let b = split_position(m1.spec_keys(), e as int);
                if a < b {
                    assert(m2.spec_keys()[a as int] == m1.spec_keys()[a as int]);
                } else {
                    lemma_floor_index(m1.spec_keys(), e as int);
                    if a > b {
                        assert(m2.spec_keys()[a + 1] == m1.spec_keys()[a as int]);
                    }
                }
            }
        }
        if let Some(e) = addr2 {
            assert(exists|j: int| 0 <= j < m2.spec_keys().len() && #[trigger] m2.spec_keys()[j].key_int() == e);
        }
    }
    let mut i = lo;
    while i < hi
        invariant
            m2.wf(),
            db.wf(),
            lo <= i <= hi <= m2.spec_keys().len(),
            arrays_sized(m2, size as int),
            arrays_sized(*db, size as int),
            num < size,
            0 <= upd.spec_word() < size,
            db.spec_keys() == m2.spec_keys(),
            db.spec_default() == m2.spec_default(),
            db.spec_values().len() == m2.spec_values().len(),
            forall|j: int|
                lo <= j < i ==> (#[trigger] db.spec_values()[j])@.0 == upd.apply_spec(
                    m2.spec_values()[j]@.0,
                ) && db.spec_values()[j]@.1 == marks_with(m2.spec_values()[j]@.1, num as int, mask),
            forall|j: int|
                0 <= j < m2.spec_values().len() && (j < lo || j >= i) ==> #[trigger] db.spec_values()[j]
                    == m2.spec_values()[j],
        decreases hi - i,
    {
        let fa = db.value_at_mut(i);
        let m = fa.masks[num];
        fa.masks.set(num, m | mask);
        upd.apply(&mut fa.values);
        i = i + 1;
    }
    proof {
        let m3 = *db;
        let ks = m2.spec_keys();
        lemma_floor_index(ks, addr1 as int);
        let ja = choose|j: int| 0 <= j < ks.len() && #[trigger] ks[j].key_int() == addr1;
        assert(lo == ja) by {
            lemma_floor_index(ks, addr1 - 1);
            if lo < ja {
                assert(ks[lo as int].key_int() < ks[ja].key_int());
            }
        }
        if let Some(e) = addr2 {
            lemma_floor_index(ks, e - 1);
            let je = choose|j: int| 0 <= j < ks.len() && #[trigger] ks[j].key_int() == e;
            if addr1 < e {
                assert(hi == je) by {
                    if hi < je {
                        assert(ks[hi as int].key_int() < ks[je].key_int());
                    }
                }
            }
        }
        assert forall|p: int| #[trigger] region_effect(m0, m3, addr1 as int, e2, num as int, mask, upd, p) by {
            lemma_region_effect(m0, m2, m3, addr1 as int, e2, num as int, mask, upd, lo as int, hi as int, p);
        }
    }
}


/// Every variable is a well-formed bit range within `size` context words.
pub open spec fn variables_fit(vars: Seq<(String, ContextBitRange)>, size: usize) -> bool {
    forall|i: int|
        0 <= i < vars.len() ==> (#[trigger] vars[i]).1.wf() && vars[i].1.spec_word() < size
}

proof fn lemma_variables_fit_update(
    vars: Seq<(String, ContextBitRange)>,
    i: int,
    entry: (String, ContextBitRange),
    size: usize,
)
    requires
        variables_fit(vars, size),
        0 <= i < vars.len(),
    ensures
        entry.1.wf() && entry.1.spec_word() < size ==> variables_fit(vars.update(i, entry), size),
{
}

/// The index of the last variable named `name`, or -1.
pub open spec fn var_index(vars: Seq<(String, ContextBitRange)>, name: Seq<char>) -> int
    decreases vars.len(),
{
    if vars.len() == 0 {
        -1
    } else if vars.last().0@ == name {
        vars.len() - 1
    } else {
        var_index(vars.drop_last(), name)
    }
}

proof fn lemma_var_index_last(vars: Seq<(String, ContextBitRange)>, name: Seq<char>, j: int)
    requires
        0 <= j < vars.len(),
        vars[j].0@ == name,
    ensures
        var_index(vars, name) >= j,
    decreases vars.len(),
{
    if vars.len() - 1 != j && vars.last().0@ != name {
        let d = vars.drop_last();
        assert(d[j] == vars[j]);
        lemma_var_index_last(d, name, j);
    }
}

proof fn lemma_var_index_at(vars: Seq<(String, ContextBitRange)>, name: Seq<char>, i: int)
    requires
        0 <= i < vars.len(),
        vars[i].0@ == name,
        forall|j: int| i < j < vars.len() ==> (#[trigger] vars[j]).0@ != name,
    ensures
        var_index(vars, name) == i,
    decreases vars.len(),
{
    if vars.len() - 1 != i {
        let d = vars.drop_last();
        assert forall|j: int| i < j < d.len() implies (#[trigger] d[j]).0@ != name by {
            assert(d[j] == vars[j]);
        }
        lemma_var_index_at(d, name, i);
    }
}

proof fn lemma_var_index(vars: Seq<(String, ContextBitRange)>, name: Seq<char>)
    ensures
        -1 <= var_index(vars, name) < vars.len(),
        var_index(vars, name) >= 0 ==> vars[var_index(vars, name)].0@ == name,
        var_index(vars, name) < 0 ==> forall|j: int| 0 <= j < vars.len() ==> (#[trigger] vars[j]).0@ != name,
    decreases vars.len(),
{
    if vars.len() > 0 && vars.last().0@ != name {
        lemma_var_index(vars.drop_last(), name);
        let d = vars.drop_last();
        assert forall|j: int| 0 <= j < d.len() implies d[j] == vars[j] by {}
    }
}

/// The context of a processor over its address space: named variables, the
/// context words in force at each address, and tracked values.
#[derive(Debug)]
pub struct ContextDatabase {
    size: usize,
    variables: Vec<(String, ContextBitRange)>,
    database: PartMap<u64, FreeArray>,
    trackbase: PartMap<u64, TrackedSet>,
    address_limit: u64,
}

impl ContextDatabase {
    pub closed spec fn spec_size(&self) -> usize {
        self.size
    }

    pub closed spec fn spec_address_limit(&self) -> u64 {
        self.address_limit
    }

    pub closed spec fn spec_variables(&self) -> Seq<(String, ContextBitRange)> {
        self.variables@
    }

    pub closed spec fn spec_database(&self) -> PartMap<u64, FreeArray> {
        self.database
    }

    pub closed spec fn spec_trackbase(&self) -> PartMap<u64, TrackedSet> {
        self.trackbase
    }

    /// The bits of the variable named `name`, if it is registered.
    pub open spec fn spec_variable(&self, name: Seq<char>) -> Option<ContextBitRange> {
        let i = var_index(self.spec_variables(), name);
        if i < 0 {
            None
        } else {
            Some(self.spec_variables()[i].1)
        }
    }

    /// The context words in force at `p`.
    pub open spec fn spec_context(&self, p: int) -> Seq<u32> {
        self.spec_database().spec_get_or_default(p)@.0
    }

    /// The explicit-change marks in force at `p`.
    pub open spec fn spec_marks(&self, p: int) -> Seq<u32> {
        self.spec_database().spec_get_or_default(p)@.1
    }

    /// The maps are ordered, every array holds `size` words, and every
    /// variable lies within them.
    pub open spec fn wf(&self) -> bool {
        &&& self.spec_database().wf()
        &&& self.spec_trackbase().wf()
        &&& arrays_sized(self.spec_database(), self.spec_size() as int)
        &&& variables_fit(self.spec_variables(), self.spec_size())
    }

    /// An empty database for addresses up to `address_limit`.
    pub fn new(address_limit: u64) -> (r: Self)
        ensures
            r.wf(),
            r.spec_size() == 0,
            r.spec_address_limit() == address_limit,
            r.spec_variables().len() == 0,
            r.spec_database().spec_keys().len() == 0,
            r.spec_trackbase().spec_keys().len() == 0,
            r.spec_trackbase().spec_default()@.len() == 0,
    {
        ContextDatabase {
            size: 0,
            variables: Vec::new(),
            database: PartMap::new(FreeArray::new()),
            trackbase: PartMap::new(TrackedSet::new()),
            address_limit,
        }
    }

    /// The number of context words.
    pub fn size(&self) -> (r: usize)
        ensures
            r == self.spec_size(),
    {
        self.size
    }

    /// Starts an empty set of tracked values for the addresses from `addr1`
    /// up to `addr2`, and returns it for filling.
    pub fn new_tracked_set(&mut self, addr1: u64, addr2: u64) -> (r: &mut TrackedSet)
        requires
            old(self).wf(),
            addr1 < addr2,
        ensures
            final(self).wf(),
            (*r)@.len() == 0,
            final(self).spec_size() == old(self).spec_size(),
            final(self).spec_variables() == old(self).spec_variables(),
            final(self).spec_database() == old(self).spec_database(),
            final(self).spec_address_limit() == old(self).spec_address_limit(),
            final(self).spec_trackbase().spec_default() == old(self).spec_trackbase().spec_default(),
            forall|p: int|
                p < addr1 ==> #[trigger] final(self).spec_trackbase().spec_get_or_default(p) == old(
                    self,
                ).spec_trackbase().spec_get_or_default(p),
            forall|p: int|
                p >= addr2 ==> (#[trigger] final(self).spec_trackbase().spec_get_or_default(p))@
                    == old(self).spec_trackbase().spec_get_or_default(p)@,
            forall|p: int|
                addr1 <= p < addr2 ==> #[trigger] final(self).spec_trackbase().spec_get(p) == Some(
                    *final(r),
                ),
    {
        let range = self.trackbase.clear_range(&addr1, &addr2);
        range.clear();
        range
    }

    /// The tracked values in force at `address`.
    pub fn tracked_set(&self, address: u64) -> (r: &TrackedSet)
        requires
            self.wf(),
        ensures
            *r == self.spec_trackbase().spec_get_or_default(address as int),
    {
        self.trackbase.get_or_default(&address)
    }

    /// The tracked values in force where no set was started.
    pub fn tracked_default(&self) -> (r: &TrackedSet)
        ensures
            *r == self.spec_trackbase().spec_default(),
    {
        self.trackbase.default_value()
    }

    /// Mutable access to the tracked values in force where no set was started.
    pub fn tracked_default_mut(&mut self) -> (r: &mut TrackedSet)
        requires
            old(self).wf(),
        ensures
            *r == old(self).spec_trackbase().spec_default(),
            final(self).wf(),
            final(self).spec_trackbase().spec_default() == *final(r),
            final(self).spec_trackbase().spec_keys() == old(self).spec_trackbase().spec_keys(),
            final(self).spec_trackbase().spec_values() == old(self).spec_trackbase().spec_values(),
            final(self).spec_size() == old(self).spec_size(),
            final(self).spec_variables() == old(self).spec_variables(),
            final(self).spec_database() == old(self).spec_database(),
            final(self).spec_address_limit() == old(self).spec_address_limit(),
    {
        self.trackbase.default_value_mut()
    }

    fn variable_index(&self, name: &str) -> (r: Option<usize>)
        ensures
            match r {
                Some(i) => i as int == var_index(self.spec_variables(), name@) && i < self.spec_variables().len(),
                None => var_index(self.spec_variables(), name@) < 0,
            },
    {
        proof {
            lemma_var_index(self.variables@, name@);
            assert(self.variables@.subrange(0, self.variables@.len() as int) =~= self.variables@);
        }
        let mut i = self.variables.len();
        while i > 0
            invariant
                i <= self.variables@.len(),
                var_index(self.variables@, name@) == var_index(self.variables@.subrange(0, i as int), name@),
            decreases i,
        {
            let ghost sub = self.variables@.subrange(0, i as int);
            if crate::text::str_eq(self.variables[i - 1].0.as_str(), name) {
                assert(sub.last() == self.variables@[i - 1]);
                return Some(i - 1);
            }
            i = i - 1;
            proof {
                assert(sub.drop_last() =~= self.variables@.subrange(0, i as int));
            }
        }
        None
    }

    /// The bits of the variable named `name`.
    pub fn variable(&self, name: &str) -> (r: Option<&ContextBitRange>)
        ensures
            match r {
                Some(b) => self.spec_variable(name@) == Some(*b),
                None => self.spec_variable(name@) is None,
            },
    {
        match self.variable_index(name) {
            Some(i) => Some(&self.variables[i].1),
            None => None,
        }
    }

    /// Mutable access to the bits of the variable named `name`; the database
    /// stays well formed while the bits stay within the context words.
    pub fn variable_mut(&mut self, name: &str) -> (r: Option<&mut ContextBitRange>)
        requires
            old(self).wf(),
        ensures
            match r {
                Some(b) => {
                    &&& old(self).spec_variable(name@) == Some(*b)
                    &&& final(self).spec_variables() == old(self).spec_variables().update(
                        var_index(old(self).spec_variables(), name@),
                        (old(self).spec_variables()[var_index(old(self).spec_variables(), name@)].0, *final(b)),
                    )
                    &&& final(b).wf() && final(b).spec_word() < old(self).spec_size() ==> final(self).wf()
                },
                None => {
                    &&& old(self).spec_variable(name@) is None
                    &&& *final(self) == *old(self)
                },
            },
            final(self).spec_size() == old(self).spec_size(),
            final(self).spec_database() == old(self).spec_database(),
            final(self).spec_trackbase() == old(self).spec_trackbase(),
            final(self).spec_address_limit() == old(self).spec_address_limit(),
    {
        match self.variable_index(name) {
            Some(i) => {
                proof {
                    lemma_var_index(self.variables@, name@);
                }
                let entry = &mut self.variables[i];
                let b = &mut entry.1;
                proof {
                    lemma_variables_fit_update(old(self).variables@, i as int, (old(self).variables@[i as int].0, *final(b)), old(self).size);
                }
                Some(b)
            },
            None => None,
        }
    }

    /// The value of the variable named `name` at `address`.
    pub fn get_variable(&self, name: &str, address: u64) -> (r: Option<u32>)
        requires
            self.wf(),
        ensures
            r == match self.spec_variable(name@) {
                Some(b) => Some(b.spec_get(self.spec_context(address as int))),
                None => None,
            },
    {
        match self.variable_index(name) {
            Some(i) => {
                let context = &self.variables[i].1;
                proof {
                    self.lemma_context_sized(address as int);
                }
                Some(context.get(&self.database.get_or_default(&address).values))
            },
            None => None,
        }
    }

    proof fn lemma_context_sized(&self, p: int)
        requires
            self.wf(),
        ensures
            self.spec_context(p).len() == self.spec_size(),
            self.spec_marks(p).len() == self.spec_size(),
    {
        lemma_floor_index(self.database.spec_keys(), p);
    }

    /// The value of the field `bits` at `address`.
    pub fn get_variable_by_bits(&self, bits: &ContextBitRange, address: u64) -> (r: u32)
        requires
            self.wf(),
            bits.spec_word() < self.spec_size(),
        ensures
            r == bits.spec_get(self.spec_context(address as int)),
    {
        proof {
            self.lemma_context_sized(address as int);
        }
        bits.get(&self.database.get_or_default(&address).values)
    }

    /// Sets the variable named `name` from `address` on, up to the next
    /// address where it was already set (see [`change_point_effect`]).
    /// Nothing changes when there is no such variable.
    pub fn set_variable(&mut self, name: &str, address: u64, value: u32) -> (r: Option<()>)
        requires
            old(self).wf(),
        ensures
            final(self).wf(),
            final(self).spec_size() == old(self).spec_size(),
            final(self).spec_variables() == old(self).spec_variables(),
            final(self).spec_trackbase() == old(self).spec_trackbase(),
            final(self).spec_address_limit() == old(self).spec_address_limit(),
            match old(self).spec_variable(name@) {
                Some(b) => r is Some && forall|p: int|
                    #[trigger] change_point_effect(
                        old(self).spec_database(),
                        final(self).spec_database(),
                        address as int,
                        b.spec_word() as int,
                        b.spec_placed_mask(),
                        ContextUpdate::Field(b, value),
                        p,
                    ),
                None => r is None && final(self).spec_database() == old(self).spec_database(),
            },
    {
        let i = match self.variable_index(name) {
            Some(i) => i,
            None => return None,
        };
        let context = self.variables[i].1;
        proof {
            use_type_invariant(context);
        }
        let num = context.word();
        let mask = context.mask() << context.shift();
        change_point(&mut self.database, address, num, mask, ContextUpdate::Field(context, value), self.size);
        Some(())
    }

    /// Sets the field `bits` from `address` on, up to the next address where
    /// it was already set (see [`change_point_effect`]).
    pub fn set_variable_by_bits(&mut self, bits: &ContextBitRange, address: u64, value: u32)
        requires
            old(self).wf(),
            bits.spec_word() < old(self).spec_size(),
        ensures
            final(self).wf(),
            final(self).spec_size() == old(self).spec_size(),
            final(self).spec_variables() == old(self).spec_variables(),
            final(self).spec_trackbase() == old(self).spec_trackbase(),
            final(self).spec_address_limit() == old(self).spec_address_limit(),
            forall|p: int|
                #[trigger] change_point_effect(
                    old(self).spec_database(),
                    final(self).spec_database(),
                    address as int,
                    bits.spec_word() as int,
                    bits.spec_placed_mask(),
                    ContextUpdate::Field(*bits, value),
                    p,
                ),
    {
        proof {
            use_type_invariant(bits);
        }
        let num = bits.word();
        let mask = bits.mask() << bits.shift();
        change_point(&mut self.database, address, num, mask, ContextUpdate::Field(*bits, value), self.size);
    }

    /// Sets the default value of the variable named `name`, marking its bits
    /// as set.  Nothing changes when there is no such variable.
    pub fn set_variable_default(&mut self, name: &str, value: u32) -> (r: Option<()>)
        requires
            old(self).wf(),
        ensures
            final(self).wf(),
            final(self).spec_size() == old(self).spec_size(),
            final(self).spec_variables() == old(self).spec_variables(),
            final(self).spec_trackbase() == old(self).spec_trackbase(),
            final(self).spec_address_limit() == old(self).spec_address_limit(),
            final(self).spec_database().spec_keys() == old(self).spec_database().spec_keys(),
            final(self).spec_database().spec_values() == old(self).spec_database().spec_values(),
            match old(self).spec_variable(name@) {
                Some(b) => r is Some && final(self).spec_database().spec_default()@ == (
                    b.spec_set(old(self).spec_database().spec_default()@.0, value),
                    old(self).spec_database().spec_default()@.1.update(
                        b.spec_word() as int,
                        old(self).spec_database().spec_default()@.1[b.spec_word() as int]
                            | b.spec_placed_mask(),
                    ),
                ),
                None => r is None && final(self).spec_database() == old(self).spec_database(),
            },
            old(self).spec_variable(name@) is Some && old(self).spec_database().spec_keys().len() == 0
                ==> forall|a: int|
                #[trigger] final(self).spec_variable(name@)->0.spec_get(final(self).spec_context(a)) == value
                    & old(self).spec_variable(name@)->0.spec_mask(),
    {
        let i = match self.variable_index(name) {
            Some(i) => i,
            None => return None,
        };
        let context = self.variables[i].1;
        let default = self.database.default_value_mut();
        context.set_full(&mut default.values, &mut default.masks, value);
        proof {
            if old(self).spec_database().spec_keys().len() == 0 {
                let b = old(self).spec_variable(name@)->0;
                let vars = old(self).spec_variables();
                lemma_var_index(vars, name@);
                assert(vars[var_index(vars, name@)].1.wf());
                lemma_field_set_get(b, old(self).spec_database().spec_default()@.0[b.spec_word() as int], value);
                assert forall|a: int|
                    #[trigger] self.spec_variable(name@)->0.spec_get(self.spec_context(a)) == value & b.spec_mask() by {
                    lemma_floor_index(self.spec_database().spec_keys(), a);
                }
            }
        }
        Some(())
    }

    /// Sets the default value of the field `bits`, marking its bits as set.
    pub fn set_variable_default_by_bits(&mut self, bits: &ContextBitRange, value: u32)
        requires
            old(self).wf(),
            bits.spec_word() < old(self).spec_size(),
        ensures
            final(self).wf(),
            final(self).spec_size() == old(self).spec_size(),
            final(self).spec_variables() == old(self).spec_variables(),
            final(self).spec_trackbase() == old(self).spec_trackbase(),
            final(self).spec_address_limit() == old(self).spec_address_limit(),
            final(self).spec_database().spec_keys() == old(self).spec_database().spec_keys(),
            final(self).spec_database().spec_values() == old(self).spec_database().spec_values(),
            final(self).spec_database().spec_default()@ == (
                bits.spec_set(old(self).spec_database().spec_default()@.0, value),
                old(self).spec_database().spec_default()@.1.update(
                    bits.spec_word() as int,
                    old(self).spec_database().spec_default()@.1[bits.spec_word() as int]
                        | bits.spec_placed_mask(),
                ),
            ),
    {
        let default = self.database.default_value_mut();
        bits.set_full(&mut default.values, &mut default.masks, value);
    }

    /// Registers the variable `name` as the bits `start_bit..=end_bit` of the
    /// context, growing the context to hold them.  Refused (`None`, nothing
    /// changed) once an address has been given its own context; otherwise
    /// the bits must lie in one word, in order (as `ContextBitRange::new`
    /// wants).
    pub fn register_variable(&mut self, name: &str, start_bit: usize, end_bit: usize) -> (r: Option<
        (),
    >)
        requires
            old(self).wf(),
            old(self).spec_database().spec_keys().len() == 0 ==> (start_bit / 32) * 32 <= start_bit <= end_bit
                < (start_bit / 32) * 32 + 32,
        ensures
            final(self).wf(),
            final(self).spec_trackbase() == old(self).spec_trackbase(),
            final(self).spec_address_limit() == old(self).spec_address_limit(),
            r is None <==> old(self).spec_database().spec_keys().len() != 0,
            r is None ==> *final(self) == *old(self),
            r is Some ==> {
                &&& final(self).spec_size() == if start_bit / 32 + 1 > old(self).spec_size() {
                    start_bit / 32 + 1
                } else {
                    old(self).spec_size() as int
                }
                &&& final(self).spec_variable(name@) == Some(ContextBitRange::spec_new(start_bit, end_bit))
                &&& forall|other: Seq<char>|
                    other != name@ ==> #[trigger] final(self).spec_variable(other) == old(
                        self,
                    ).spec_variable(other)
                &&& final(self).spec_database().spec_keys().len() == 0
            },
    {
        if !self.database.is_empty() {
            return None;
        }
        let bit_range = ContextBitRange::new(start_bit, end_bit);
        let word_size: usize = 4;
        let size = start_bit / (8 * word_size) + 1;
        if end_bit / (8 * word_size) + 1 != size {
            return None;
        }
        if size > self.size {
            self.size = size;
            self.database.default_value_mut().reset(size);
        }
        let ghost old_vars = self.variables@;
        match self.variable_index(name) {
            Some(i) => {
                self.variables.set(i, (name.to_owned(), bit_range));
            },
            None => {
                self.variables.push((name.to_owned(), bit_range));
            },
        }
        proof {
            let vars = self.variables@;
            lemma_var_index(old_vars, name@);
            let oi = var_index(old_vars, name@);
            if oi >= 0 {
                assert forall|j: int| oi < j < old_vars.len() implies (#[trigger] old_vars[j]).0@ != name@ by {
                    if old_vars[j].0@ == name@ {
                        let d = old_vars.subrange(0, j + 1);
                        assert(d.last() == old_vars[j]);
                        lemma_var_index_last(old_vars, name@, j);
                    }
                }
                assert forall|j: int| oi < j < vars.len() implies (#[trigger] vars[j]).0@ != name@ by {
                    assert(vars[j] == old_vars[j]);
                }
                lemma_var_index_at(vars, name@, oi);
            } else {
                assert forall|j: int| vars.len() - 1 < j < vars.len() implies (#[trigger] vars[j]).0@ != name@ by {}
                lemma_var_index_at(vars, name@, vars.len() - 1);
            }
            lemma_var_index(vars, name@);
            assert forall|other: Seq<char>|
                other != name@ implies #[trigger] var_index(vars, other) == var_index(old_vars, other) && (var_index(vars, other) >= 0 ==> vars[var_index(vars, other)] == old_vars[var_index(vars, other)]) by {
                lemma_var_index_other(old_vars, vars, name@, other);
                lemma_var_index(vars, other);
                lemma_var_index(old_vars, other);
            }
        }
        Some(())
    }

    /// The context words in force at `address`.
    pub fn get_context(&self, address: u64) -> (r: &[u32])
        requires
            self.wf(),
        ensures
            r@ == self.spec_context(address as int),
    {
        self.database.get_or_default(&address).values.as_slice()
    }

    /// The context words in force at `address` with the first and last
    /// address over which they stay in force.
    pub fn get_context_bounds(&self, address: u64) -> (r: (&[u32], u64, u64))
        requires
            self.wf(),
        ensures
            r.0@ == self.spec_context(address as int),
            ({
                let ks = self.spec_database().spec_keys();
                let f = floor_index(ks, address as int);
                &&& r.1 == if f >= 0 {
                    ks[f] as int
                } else {
                    0
                }
                &&& r.2 == if f + 1 < ks.len() {
                    ks[f + 1] - 1
                } else {
                    self.spec_address_limit() as int
                }
            }),
    {
        proof {
            lemma_floor_index(self.database.spec_keys(), address as int);
            let f = floor_index(self.database.spec_keys(), address as int);
            if f + 1 < self.database.spec_keys().len() {
                assert(self.database.spec_keys()[f + 1].key_int() > address as int);
                assert(self.database.spec_keys()[f + 1] > address);
            }
        }
        match self.database.bounds(&address) {
            BoundKind::Unbounded(fa) => (fa.values.as_slice(), 0, self.address_limit),
            BoundKind::Lower(l, fa) => (fa.values.as_slice(), *l, self.address_limit),
            BoundKind::Upper(u, fa) => {
                assert(*u > address);
                (fa.values.as_slice(), 0, *u - 1)
            },
            BoundKind::Both(l, u, fa) => {
                assert(*u > address);
                (fa.values.as_slice(), *l, *u - 1)
            },
        }
    }

    /// Replaces the bits `mask` of word `num` by `value` from `address` on,
    /// up to the next address where those bits were already set (see
    /// [`change_point_effect`]).
    pub fn set_context_change_point(&mut self, address: u64, num: usize, mask: u32, value: u32)
        requires
            old(self).wf(),
            num < old(self).spec_size(),
        ensures
            final(self).wf(),
            final(self).spec_size() == old(self).spec_size(),
            final(self).spec_variables() == old(self).spec_variables(),
            final(self).spec_trackbase() == old(self).spec_trackbase(),
            final(self).spec_address_limit() == old(self).spec_address_limit(),
            forall|p: int|
                #[trigger] change_point_effect(
                    old(self).spec_database(),
                    final(self).spec_database(),
                    address as int,
                    num as int,
                    mask,
                    ContextUpdate::Word(num, mask, value),
                    p,
                ),
    {
        change_point(&mut self.database, address, num, mask, ContextUpdate::Word(num, mask, value), self.size);
    }

    /// Replaces the bits `mask` of word `num` by `value` from `addr1` up to
    /// `addr2` (or without end), marking them as set (see [`region_effect`]).
    pub fn set_context_region(
        &mut self,
        addr1: u64,
        addr2: Option<u64>,
        num: usize,
        mask: u32,
        value: u32,
    )
        requires
            old(self).wf(),
            num < old(self).spec_size(),
            addr2 matches Some(e) ==> addr1 <= e,
        ensures
            final(self).wf(),
            final(self).spec_size() == old(self).spec_size(),
            final(self).spec_variables() == old(self).spec_variables(),
            final(self).spec_trackbase() == old(self).spec_trackbase(),
            final(self).spec_address_limit() == old(self).spec_address_limit(),
            forall|p: int|
                #[trigger] region_effect(
                    old(self).spec_database(),
                    final(self).spec_database(),
                    addr1 as int,
                    opt_int(addr2),
                    num as int,
                    mask,
                    ContextUpdate::Word(num, mask, value),
                    p,
                ),
    {
        region_set(&mut self.database, addr1, addr2, num, mask, ContextUpdate::Word(num, mask, value), self.size);
    }

    /// Sets the variable named `name` from `addr1` up to `addr2` (or without
    /// end); the marks set are those of the unshifted mask.  Nothing changes
    /// when there is no such variable.
    pub fn set_variable_region(&mut self, name: &str, addr1: u64, addr2: Option<u64>, value: u32) -> (r:
        Option<()>)
        requires
            old(self).wf(),
            addr2 matches Some(e) ==> addr1 <= e,
        ensures
            final(self).wf(),
            final(self).spec_size() == old(self).spec_size(),
            final(self).spec_variables() == old(self).spec_variables(),
            final(self).spec_trackbase() == old(self).spec_trackbase(),
            final(self).spec_address_limit() == old(self).spec_address_limit(),
            match old(self).spec_variable(name@) {
                Some(b) => r is Some && forall|p: int|
                    #[trigger] region_effect(
                        old(self).spec_database(),
                        final(self).spec_database(),
                        addr1 as int,
                        opt_int(addr2),
                        b.spec_word() as int,
                        b.spec_mask(),
                        ContextUpdate::Field(b, value),
                        p,
                    ),
                None => r is None && final(self).spec_database() == old(self).spec_database(),
            },
    {
        let i = match self.variable_index(name) {
            Some(i) => i,
            None => return None,
        };
        let context = self.variables[i].1;
        region_set(
            &mut self.database,
            addr1,
            addr2,
            context.word(),
            context.mask(),
            ContextUpdate::Field(context, value),
            self.size,
        );
        Some(())
    }

    /// Sets the field `bits` from `addr1` up to `addr2` (or without end); the
    /// marks set are those of the unshifted mask.
    pub fn set_variable_region_by_bits(
        &mut self,
        bits: &ContextBitRange,
        addr1: u64,
        addr2: Option<u64>,
        value: u32,
    )
        requires
            old(self).wf(),
            bits.spec_word() < old(self).spec_size(),
            addr2 matches Some(e) ==> addr1 <= e,
        ensures
            final(self).wf(),
            final(self).spec_size() == old(self).spec_size(),
            final(self).spec_variables() == old(self).spec_variables(),
            final(self).spec_trackbase() == old(self).spec_trackbase(),
            final(self).spec_address_limit() == old(self).spec_address_limit(),
            forall|p: int|
                #[trigger] region_effect(
                    old(self).spec_database(),
                    final(self).spec_database(),
                    addr1 as int,
                    opt_int(addr2),
                    bits.spec_word() as int,
                    bits.spec_mask(),
                    ContextUpdate::Field(*bits, value),
                    p,
                ),
    {
        region_set(
            &mut self.database,
            addr1,
            addr2,
            bits.word(),
            bits.mask(),
            ContextUpdate::Field(*bits, value),
            self.size,
        );
    }
}

proof fn lemma_var_index_other(
    old_vars: Seq<(String, ContextBitRange)>,
    vars: Seq<(String, ContextBitRange)>,
    name: Seq<char>,
    other: Seq<char>,
)
    requires
        other != name,
        ({
            let i = var_index(old_vars, name);
            ||| (i >= 0 && vars.len() == old_vars.len() && vars[i].0@ == name && forall|j: int|
                0 <= j < vars.len() && j != i ==> vars[j] == old_vars[j])
            ||| (i < 0 && vars.len() == old_vars.len() + 1 && vars.last().0@ == name && forall|j: int|
                0 <= j < old_vars.len() ==> vars[j] == old_vars[j])
        }),
    ensures
        var_index(vars, other) == var_index(old_vars, other),
    decreases vars.len(),
{
    lemma_var_index(old_vars, name);
    lemma_var_index(old_vars, other);
    lemma_var_index(vars, other);
    let i = var_index(old_vars, name);
    if vars.len() == old_vars.len() + 1 {
        assert(vars.drop_last() =~= old_vars);
    } else if vars.len() > 0 {
        if vars.last().0@ != other {
            if i == vars.len() - 1 {
                assert(vars.drop_last() =~= old_vars.drop_last());
            } else {
                lemma_var_index_other(old_vars.drop_last(), vars.drop_last(), name, other);
            }
        }
    }
}

/// A value of some context location from an address on.
#[derive(Debug, Clone)]
pub struct TrackedContext {
    location: VarnodeData,
    value: u32,
}

impl TrackedContext {
    pub closed spec fn spec_location(&self) -> VarnodeData {
        self.location
    }

    pub closed spec fn spec_value(&self) -> u32 {
        self.value
    }

    /// A tracked value of `location`.
    pub fn new(location: VarnodeData, value: u32) -> (r: Self)
        ensures
            r.spec_location() == location,
            r.spec_value() == value,
    {
        TrackedContext { location, value }
    }

    /// The tracked location.
    pub fn location(&self) -> (r: &VarnodeData)
        ensures
            *r == self.spec_location(),
    {
        &self.location
    }

    /// The tracked value.
    pub fn value(&self) -> (r: u32)
        ensures
            r == self.spec_value(),
    {
        self.value
    }
}

impl View for TrackedContext {
    type V = (VarnodeData, u32);

    open spec fn view(&self) -> (VarnodeData, u32) {
        (self.spec_location(), self.spec_value())
    }
}

/// The tracked values in force over a range of addresses.
#[derive(Debug)]
pub struct TrackedSet(Vec<TrackedContext>);

impl View for TrackedSet {
    type V = Seq<(VarnodeData, u32)>;

    closed spec fn view(&self) -> Seq<(VarnodeData, u32)> {
        self.0@.map_values(|t: TrackedContext| t@)
    }
}

impl TrackedSet {
    /// An empty set.
    pub fn new() -> (r: Self)
        ensures
            r@.len() == 0,
    {
        TrackedSet(Vec::new())
    }

    /// The number of tracked values.
    pub fn len(&self) -> (r: usize)
        ensures
            r == self@.len(),
    {
        self.0.len()
    }

    /// Whether no value is tracked.
    pub fn is_empty(&self) -> (r: bool)
        ensures
            r == (self@.len() == 0),
    {
        self.0.len() == 0
    }

    /// The tracked value at `index`.
    pub fn get(&self, index: usize) -> (r: Option<&TrackedContext>)
        ensures
            match r {
                Some(t) => index < self@.len() && t@ == self@[index as int],
                None => index >= self@.len(),
            },
    {
        if index < self.0.len() {
            Some(&self.0[index])
        } else {
            None
        }
    }

    /// Adds a tracked value at the end.
    pub fn push(&mut self, item: TrackedContext)
        ensures
            final(self)@ == old(self)@.push(item@),
    {
        self.0.push(item);
        proof {
            assert(self@ =~= old(self)@.push(item@));
        }
    }

    /// Removes every tracked value.
    pub fn clear(&mut self)
        ensures
            final(self)@.len() == 0,
    {
        self.0.clear();
    }
}

impl PartValue for TrackedSet {
    fn duplicate(&self) -> (r: Self) {
        let mut out: Vec<TrackedContext> = Vec::new();
        let mut i: usize = 0;
        while i < self.0.len()
            invariant
                0 <= i <= self.0@.len(),
                out@.len() == i,
                forall|j: int| 0 <= j < i ==> (#[trigger] out@[j])@ == self.0@[j]@,
            decreases self.0@.len() - i,
        {
            let t = &self.0[i];
            out.push(TrackedContext { location: t.location, value: t.value });
            i = i + 1;
        }
        let r = TrackedSet(out);
        assert(r@ =~= self@);
        r
    }
}

/// The context words in force over a range of addresses, and which bits of
/// them were set explicitly there.
#[derive(Debug)]
pub struct FreeArray {
    values: Vec<u32>,
    masks: Vec<u32>,
}

impl View for FreeArray {
    type V = (Seq<u32>, Seq<u32>);

    closed spec fn view(&self) -> (Seq<u32>, Seq<u32>) {
        (self.values@, self.masks@)
    }
}

impl FreeArray {
    /// Empty arrays.
    pub fn new() -> (r: Self)
        ensures
            r@.0.len() == 0,
            r@.1.len() == 0,
    {
        FreeArray { values: Vec::new(), masks: Vec::new() }
    }

    /// Resizes both arrays to `size` words, new words being zero.
    pub fn reset(&mut self, size: usize)
        ensures
            final(self)@.0.len() == size,
            final(self)@.1.len() == size,
            forall|i: int|
                0 <= i < size ==> #[trigger] final(self)@.0[i] == (if i < old(self)@.0.len() {
                    old(self)@.0[i]
                } else {
                    0
                }),
            forall|i: int|
                0 <= i < size ==> #[trigger] final(self)@.1[i] == (if i < old(self)@.1.len() {
                    old(self)@.1[i]
                } else {
                    0
                }),
    {
        resize_words(&mut self.values, size);
        resize_words(&mut self.masks, size);
    }
}

/// Truncates `v` to `size` words or pads it with zeros.
fn resize_words(v: &mut Vec<u32>, size: usize)
    ensures
        final(v)@.len() == size,
        forall|i: int|
            0 <= i < size ==> #[trigger] final(v)@[i] == (if i < old(v)@.len() {
                old(v)@[i]
            } else {
                0
            }),
{
    if v.len() > size {
        v.truncate(size);
    } else {
        while v.len() < size
            invariant
                old(v)@.len() <= v@.len() <= size,
                forall|i: int|
                    0 <= i < v@.len() ==> #[trigger] v@[i] == (if i < old(v)@.len() {
                        old(v)@[i]
                    } else {
                        0
                    }),
            decreases size - v@.len(),
        {
            v.push(0);
        }
    }
}

impl PartValue for FreeArray {
    fn duplicate(&self) -> (r: Self) {
        FreeArray { values: copy_words(&self.values), masks: copy_words(&self.masks) }
    }
}

fn copy_words(v: &Vec<u32>) -> (r: Vec<u32>)
    ensures
        r@ == v@,
{
    let mut out: Vec<u32> = Vec::new();
    let mut i: usize = 0;
    while i < v.len()
        invariant
            0 <= i <= v@.len(),
            out@ == v@.subrange(0, i as int),
        decreases v@.len() - i,
    {
        out.push(v[i]);
        i = i + 1;
        proof {
            assert(out@ =~= v@.subrange(0, i as int));
        }
    }
    assert(v@.subrange(0, v@.len() as int) =~= v@);
    out
}

/// Whether two fields share no bit: they lie in different words, or their
/// bits in the word do not meet.
pub open spec fn fields_disjoint(a: ContextBitRange, b: ContextBitRange) -> bool {
    a.spec_word() != b.spec_word() || a.spec_placed_mask() & b.spec_placed_mask() == 0
}

/// What setting a variable (by `set_variable`, whose effect on every point
/// the requirements restate) does: reading it back at the address gives the
/// value written, cut to the variable's bits; the context at every point
/// before the address is as it was; and every variable whose bits do not
/// meet the variable's reads, at every point, what it read before.
pub proof fn lemma_set_variable_get(
    before: ContextDatabase,
    after: ContextDatabase,
    name: Seq<char>,
    address: u64,
    value: u32,
)
    requires
        before.wf(),
        after.wf(),
        before.spec_variable(name) is Some,
        after.spec_variables() == before.spec_variables(),
        forall|p: int|
            #[trigger] change_point_effect(
                before.spec_database(),
                after.spec_database(),
                address as int,
                before.spec_variable(name)->0.spec_word() as int,
                before.spec_variable(name)->0.spec_placed_mask(),
                ContextUpdate::Field(before.spec_variable(name)->0, value),
                p,
            ),
    ensures
        after.spec_variable(name)->0.spec_get(after.spec_context(address as int)) == value
            & before.spec_variable(name)->0.spec_mask(),
        forall|p: int| p < address ==> #[trigger] after.spec_context(p) == before.spec_context(p),
        forall|other: Seq<char>, p: int|
            #![trigger before.spec_variable(other), after.spec_context(p)]
            before.spec_variable(other) is Some && fields_disjoint(
                before.spec_variable(other)->0,
                before.spec_variable(name)->0,
            ) ==> after.spec_variable(other)->0.spec_get(after.spec_context(p)) == before.spec_variable(
                other,
            )->0.spec_get(before.spec_context(p)),
{
    assert forall|p: int| p < address implies #[trigger] after.spec_context(p) == before.spec_context(p) by {
        assert(change_point_effect(
            before.spec_database(),
            after.spec_database(),
            address as int,
            before.spec_variable(name)->0.spec_word() as int,
            before.spec_variable(name)->0.spec_placed_mask(),
            ContextUpdate::Field(before.spec_variable(name)->0, value),
            p,
        ));
    }
    assert forall|other: Seq<char>, p: int|
        #![trigger before.spec_variable(other), after.spec_context(p)]
        before.spec_variable(other) is Some && fields_disjoint(
            before.spec_variable(other)->0,
            before.spec_variable(name)->0,
        ) implies after.spec_variable(other)->0.spec_get(after.spec_context(p)) == before.spec_variable(
            other,
        )->0.spec_get(before.spec_context(p)) by {
        let b = before.spec_variable(name)->0;
        let w = before.spec_variable(other)->0;
        assert(change_point_effect(
            before.spec_database(),
            after.spec_database(),
            address as int,
            b.spec_word() as int,
            b.spec_placed_mask(),
            ContextUpdate::Field(b, value),
            p,
        ));
        let vars = before.spec_variables();
        lemma_var_index(vars, name);
        lemma_var_index(vars, other);
        let i = var_index(vars, name);
        let j = var_index(vars, other);
        assert(vars[i].1.wf() && vars[i].1.spec_word() < before.spec_size());
        assert(vars[j].1.wf() && vars[j].1.spec_word() < before.spec_size());
        lemma_floor_index(before.spec_database().spec_keys(), p);
        let ctx = before.spec_context(p);
        assert(ctx.len() == before.spec_size());
        if w.spec_word() == b.spec_word() {
            lemma_disjoint_fields(w, b, ctx[b.spec_word() as int], value);
        }
    }
    let b = before.spec_variable(name)->0;
    let a = address as int;
    assert(change_point_effect(
        before.spec_database(),
        after.spec_database(),
        a,
        b.spec_word() as int,
        b.spec_placed_mask(),
        ContextUpdate::Field(b, value),
        a,
    ));
    let vars = before.spec_variables();
    lemma_var_index(vars, name);
    let i = var_index(vars, name);
    assert(vars[i].1.wf() && vars[i].1.spec_word() < before.spec_size());
    lemma_floor_index(before.spec_database().spec_keys(), a);
    let ctx = before.spec_context(a);
    assert(ctx.len() == before.spec_size());
    lemma_field_set_get(b, ctx[b.spec_word() as int], value);
}

} // verus!
