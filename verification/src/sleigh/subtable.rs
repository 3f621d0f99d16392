use vstd::prelude::*;

use crate::sleigh::construct::{construct_tpl_of, ConstructTpl, HandleTpl, VarnodeTpl};
use crate::sleigh::deserialise::{
    bool_attr, line_number_of, num_attr, num_attr_or, same_error, same_result, DeserialiseError,
    XmlElement,
};
use crate::sleigh::opcode::Opcode;
use crate::sleigh::pattern::{pattern_of, PatternExpression};
use crate::sleigh::spaces::AddressSpaces;
use crate::text::{chars_of, str_eq, string_of};

verus! {

// ---------------------------------------------------------------------------
// Context changes made by a constructor.

/// A change to the context that a constructor makes when it matches.
#[derive(Debug, PartialEq, Eq)]
pub enum Context {
    /// Writes the value of an expression into a context word.
    Operator { num: usize, shift: u32, mask: u32, pattern_value: PatternExpression },
    /// Commits a context variable to the addresses that follow.
    Commit { symbol_id: usize, num: usize, mask: u32, flow: bool },
}

/// What reading the context change element `input` gives.
pub open spec fn context_of(input: &XmlElement) -> Result<Context, DeserialiseError> {
    let t = input.tag@;
    if t == "context_op"@ {
        match num_attr::<usize>(input, "i") {
            Err(e) => Err(e),
            Ok(num) => match num_attr::<u32>(input, "shift") {
                Err(e) => Err(e),
                Ok(shift) => match num_attr::<u32>(input, "mask") {
                    Err(e) => Err(e),
                    Ok(mask) => if input.children@.len() == 0 {
                        Err(DeserialiseError::Invariant("missing pattern for context_op"))
                    } else {
                        match pattern_of(&input.children@[0]) {
                            Err(e) => Err(e),
                            Ok(p) => Ok(
                                Context::Operator {
                                    num: num as usize,
                                    shift: shift as u32,
                                    mask: mask as u32,
                                    pattern_value: p,
                                },
                            ),
                        }
                    },
                },
            },
        }
    } else if t == "commit"@ {
        match num_attr::<usize>(input, "id") {
            Err(e) => Err(e),
            Ok(symbol_id) => match num_attr_or::<usize>(input, "num", "number") {
                Err(e) => Err(e),
                Ok(num) => match num_attr::<u32>(input, "mask") {
                    Err(e) => Err(e),
                    Ok(mask) => match bool_attr(input, "flow") {
                        Err(e) => Err(e),
                        Ok(flow) => Ok(
                            Context::Commit {
                                symbol_id: symbol_id as usize,
                                num: num as usize,
                                mask: mask as u32,
                                flow,
                            },
                        ),
                    },
                },
            },
        }
    } else {
        Err(DeserialiseError::TagUnexpected(input.tag))
    }
}

impl Context {
    /// Reads a context change from its element.
    pub fn from_xml(input: &XmlElement) -> (r: Result<Self, DeserialiseError>)
        ensures
            same_result(r, context_of(input)),
    {
        let tag = input.tag_name();
        if str_eq(tag, "context_op") {
            let num: usize = match input.attribute_int("i") {
                Ok(v) => v,
                Err(e) => return Err(e),
            };
            let shift: u32 = match input.attribute_int("shift") {
                Ok(v) => v,
                Err(e) => return Err(e),
            };
            let mask: u32 = match input.attribute_int("mask") {
                Ok(v) => v,
                Err(e) => return Err(e),
            };
            if input.children.len() == 0 {
                return Err(DeserialiseError::Invariant("missing pattern for context_op"));
            }
            match PatternExpression::from_xml(&input.children[0]) {
                Ok(pattern_value) => Ok(Context::Operator { num, shift, mask, pattern_value }),
                Err(e) => Err(e),
            }
        } else if str_eq(tag, "commit") {
            let symbol_id: usize = match input.attribute_int("id") {
                Ok(v) => v,
                Err(e) => return Err(e),
            };
            let num: usize = match input.attribute_int_or("num", "number") {
                Ok(v) => v,
                Err(e) => return Err(e),
            };
            let mask: u32 = match input.attribute_int("mask") {
                Ok(v) => v,
                Err(e) => return Err(e),
            };
            let flow = match input.attribute_bool("flow") {
                Ok(v) => v,
                Err(e) => return Err(e),
            };
            Ok(Context::Commit { symbol_id, num, mask, flow })
        } else {
            Err(DeserialiseError::TagUnexpected(tag.to_owned()))
        }
    }
}

// ---------------------------------------------------------------------------
// Pattern blocks: masked byte strings that an instruction or a context must
// match, as a sequence of big-endian words.

/// Byte `k` of `w`, counting from the most significant (0) to the least
/// significant (3).
pub open spec fn word_byte(w: u32, k: int) -> u32 {
    if k == 0 {
        w >> 24u32
    } else if k == 1 {
        (w >> 16u32) & 0xffu32
    } else if k == 2 {
        (w >> 8u32) & 0xffu32
    } else {
        w & 0xffu32
    }
}

/// The bytes of the words `ws`, each word most significant byte first.
pub open spec fn bytes_of(ws: Seq<u32>) -> Seq<u32> {
    Seq::new(4 * ws.len(), |q: int| word_byte(ws[q / 4], q % 4))
}

/// Byte `q` of `b`, or zero past either end.
pub open spec fn byte_at(b: Seq<u32>, q: int) -> u32 {
    if 0 <= q < b.len() {
        b[q]
    } else {
        0
    }
}

/// The word made of four bytes, the most significant first.
pub open spec fn pack(b0: u32, b1: u32, b2: u32, b3: u32) -> u32 {
    (b0 << 24u32) | (b1 << 16u32) | (b2 << 8u32) | b3
}

/// The `w` words made of the bytes of `b` from position `z` on, with zero
/// bytes past its end.
pub open spec fn words_from(b: Seq<u32>, z: int, w: int) -> Seq<u32> {
    Seq::new(
        w as nat,
        |i: int|
            pack(
                byte_at(b, z + 4 * i),
                byte_at(b, z + 4 * i + 1),
                byte_at(b, z + 4 * i + 2),
                byte_at(b, z + 4 * i + 3),
            ),
    )
}

/// The position of the first non-zero entry of `b` at or after `i`, or its
/// length where there is none.
pub open spec fn first_nonzero_from(b: Seq<u32>, i: int) -> int
    decreases b.len() - i,
{
    if i >= b.len() {
        b.len() as int
    } else if b[i] != 0 {
        i
    } else {
        first_nonzero_from(b, i + 1)
    }
}

/// The position of the last non-zero entry of `b` below `n`, or -1 where
/// there is none.
pub open spec fn last_nonzero_below(b: Seq<u32>, n: int) -> int
    decreases n,
{
    if n <= 0 {
        -1
    } else if b[n - 1] != 0 {
        n - 1
    } else {
        last_nonzero_below(b, n - 1)
    }
}

/// What a pattern block holds: the byte offset at which it starts, its
/// size in bytes (`None` where it never matches, `Some(0)` where it always
/// does), and its mask and value words.
pub struct BlockView {
    pub offset: usize,
    pub non_zero_size: Option<usize>,
    pub masks: Seq<u32>,
    pub values: Seq<u32>,
}

/// The block that normalising the given parts gives: the leading zero bytes
/// of the mask move into the offset, and the words up to the last non-zero
/// mask byte are kept; `None` where normalising cannot be done (every mask
/// word is zero, the first non-zero word starts with a non-zero byte while
/// the last word is zero, or the offset overflows).
#[verifier::opaque]
pub open spec fn normalised(
    offset: usize,
    non_zero_size: Option<usize>,
    masks: Seq<u32>,
    values: Seq<u32>,
) -> Option<BlockView> {
    if non_zero_size is None || non_zero_size == Some(0usize) {
        Some(BlockView { offset: 0, non_zero_size, masks: Seq::empty(), values: Seq::empty() })
    } else if masks.len() == 0 {
        Some(BlockView { offset: 0, non_zero_size: Some(0), masks: Seq::empty(), values: Seq::empty() })
    } else {
        let b = bytes_of(masks);
        let z = first_nonzero_from(b, 0);
        if z >= b.len() || (z % 4 == 0 && masks.last() == 0) || offset + z > usize::MAX {
            None
        } else {
            let l = last_nonzero_below(b, b.len() as int);
            Some(
                BlockView {
                    offset: (offset + z) as usize,
                    non_zero_size: Some((l - z + 1) as usize),
                    masks: words_from(b, z, (l - z) / 4 + 1),
                    values: words_from(bytes_of(values), z, (l - z) / 4 + 1),
                },
            )
        }
    }
}

/// A masked byte string that part of an instruction or its context must
/// match.
#[derive(Debug, PartialEq, Eq)]
pub struct PatternBlock {
    offset: usize,
    non_zero_size: Option<usize>,
    masks: Vec<u32>,
    values: Vec<u32>,
}

impl View for PatternBlock {
    type V = BlockView;

    closed spec fn view(&self) -> BlockView {
        BlockView {
            offset: self.offset,
            non_zero_size: self.non_zero_size,
            masks: self.masks@,
            values: self.values@,
        }
    }
}

// Facts about the bytes of words.

/// Facts about the shifts and masks that take a word apart into bytes.
proof fn lemma_word_shifts(w: u32)
    by (bit_vector)
    ensures
        w == ((w >> 24u32) << 24u32) | (((w >> 16u32) & 0xffu32) << 16u32) | (((w >> 8u32) & 0xffu32)
            << 8u32) | (w & 0xffu32),
        w == 0 <==> ((w >> 24u32) == 0 && ((w >> 16u32) & 0xffu32) == 0 && ((w >> 8u32) & 0xffu32)
            == 0 && (w & 0xffu32) == 0),
        w != 0 && w >> 8u32 == 0 ==> w >> 24u32 == 0 && (w >> 16u32) & 0xffu32 == 0 && (w >> 8u32)
            & 0xffu32 == 0 && w & 0xffu32 != 0,
        w >> 8u32 != 0 && w >> 16u32 == 0 ==> w >> 24u32 == 0 && (w >> 16u32) & 0xffu32 == 0 && (w
            >> 8u32) & 0xffu32 != 0,
        w >> 16u32 != 0 && w >> 24u32 == 0 ==> (w >> 16u32) & 0xffu32 != 0,
        (w >> 8u32) >> 8u32 == w >> 16u32,
        (w >> 16u32) >> 8u32 == w >> 24u32,
        (w >> 24u32) >> 8u32 == 0,
        (w >> 24u32) & 0xffu32 == w >> 24u32,
        w != 0 && w & 0xffu32 == 0 && (w >> 8u32) & 0xffu32 == 0 && (w >> 16u32) & 0xffu32 == 0 ==> (w
            >> 24u32) & 0xffu32 != 0,
        w >> 24u32 < 256,
        (w >> 16u32) & 0xffu32 < 256,
        (w >> 8u32) & 0xffu32 < 256,
        w & 0xffu32 < 256,
{
}

proof fn lemma_word_bytes(w: u32)
    ensures
        w == pack(word_byte(w, 0), word_byte(w, 1), word_byte(w, 2), word_byte(w, 3)),
        w == 0 <==> (word_byte(w, 0) == 0 && word_byte(w, 1) == 0 && word_byte(w, 2) == 0
            && word_byte(w, 3) == 0),
{
    lemma_word_shifts(w);
}

/// Byte `j` of the two words `a` then `b`.
spec fn pair_byte(a: u32, b: u32, j: int) -> u32 {
    if j < 4 {
        word_byte(a, j)
    } else {
        word_byte(b, j - 4)
    }
}

/// The word that starts `s` bytes into `a` and runs on into `b`.
spec fn join(a: u32, b: u32, s: int) -> u32 {
    (a << ((8 * s) as u32)) | (b >> ((32 - 8 * s) as u32))
}

/// The bytes of the word that starts one, two or three bytes into `a` and
/// runs on into `b`, and of `a` shifted left by as many bytes.
proof fn lemma_join_words(a: u32, b: u32)
    by (bit_vector)
    ensures
        ((a << 8u32) | (b >> 24u32)) >> 24u32 == (a >> 16u32) & 0xffu32,
        (((a << 8u32) | (b >> 24u32)) >> 16u32) & 0xffu32 == (a >> 8u32) & 0xffu32,
        (((a << 8u32) | (b >> 24u32)) >> 8u32) & 0xffu32 == a & 0xffu32,
        ((a << 8u32) | (b >> 24u32)) & 0xffu32 == b >> 24u32,
        (a << 8u32) >> 24u32 == (a >> 16u32) & 0xffu32,
        ((a << 8u32) >> 16u32) & 0xffu32 == (a >> 8u32) & 0xffu32,
        ((a << 8u32) >> 8u32) & 0xffu32 == a & 0xffu32,
        (a << 8u32) & 0xffu32 == 0,
        ((a << 16u32) | (b >> 16u32)) >> 24u32 == (a >> 8u32) & 0xffu32,
        (((a << 16u32) | (b >> 16u32)) >> 16u32) & 0xffu32 == a & 0xffu32,
        (((a << 16u32) | (b >> 16u32)) >> 8u32) & 0xffu32 == b >> 24u32,
        ((a << 16u32) | (b >> 16u32)) & 0xffu32 == (b >> 16u32) & 0xffu32,
        (a << 16u32) >> 24u32 == (a >> 8u32) & 0xffu32,
        ((a << 16u32) >> 16u32) & 0xffu32 == a & 0xffu32,
        ((a << 16u32) >> 8u32) & 0xffu32 == 0,
        (a << 16u32) & 0xffu32 == 0,
        ((a << 24u32) | (b >> 8u32)) >> 24u32 == a & 0xffu32,
        (((a << 24u32) | (b >> 8u32)) >> 16u32) & 0xffu32 == b >> 24u32,
        (((a << 24u32) | (b >> 8u32)) >> 8u32) & 0xffu32 == (b >> 16u32) & 0xffu32,
        ((a << 24u32) | (b >> 8u32)) & 0xffu32 == (b >> 8u32) & 0xffu32,
        (a << 24u32) >> 24u32 == a & 0xffu32,
        ((a << 24u32) >> 16u32) & 0xffu32 == 0,
        ((a << 24u32) >> 8u32) & 0xffu32 == 0,
        (a << 24u32) & 0xffu32 == 0,
{
}

proof fn lemma_join_bytes(a: u32, b: u32, s: int)
    requires
        1 <= s <= 3,
    ensures
        forall|k: int| 0 <= k < 4 ==> #[trigger] word_byte(join(a, b, s), k) == pair_byte(a, b, k + s),
        forall|k: int| 0 <= k < 4 ==> #[trigger] word_byte(a << ((8 * s) as u32), k) == if k + s < 4 {
            word_byte(a, k + s)
        } else {
            0
        },
{
    lemma_join_words(a, b);
}

/// The number of leading zero bytes of a non-zero word, from the count of
/// its significant bytes.
proof fn lemma_leading_bytes(w: u32)
    requires
        w != 0,
    ensures
        w >> 8u32 == 0 ==> word_byte(w, 0) == 0 && word_byte(w, 1) == 0 && word_byte(w, 2) == 0
            && word_byte(w, 3) != 0,
        w >> 8u32 != 0 && w >> 16u32 == 0 ==> word_byte(w, 0) == 0 && word_byte(w, 1) == 0
            && word_byte(w, 2) != 0,
        w >> 16u32 != 0 && w >> 24u32 == 0 ==> word_byte(w, 0) == 0 && word_byte(w, 1) != 0,
        w >> 24u32 != 0 ==> word_byte(w, 0) != 0,
        (w >> 8u32) >> 8u32 == w >> 16u32,
        (w >> 16u32) >> 8u32 == w >> 24u32,
        (w >> 24u32) >> 8u32 == 0,
{
    lemma_word_shifts(w);
}

/// The number of trailing zero bytes of a non-zero word, from the byte that
/// stops the count.
proof fn lemma_trailing_bytes(w: u32)
    requires
        w != 0,
    ensures
        w & 0xffu32 == word_byte(w, 3),
        (w >> 8u32) & 0xffu32 == word_byte(w, 2),
        (w >> 16u32) & 0xffu32 == word_byte(w, 1),
        (w >> 24u32) & 0xffu32 == word_byte(w, 0),
        (w >> 8u32) >> 8u32 == w >> 16u32,
        (w >> 16u32) >> 8u32 == w >> 24u32,
        w & 0xffu32 == 0 && (w >> 8u32) & 0xffu32 == 0 && (w >> 16u32) & 0xffu32 == 0 ==> (w
            >> 24u32) & 0xffu32 != 0,
{
    lemma_word_shifts(w);
}

proof fn lemma_first_nonzero(b: Seq<u32>, i: int, k: int)
    requires
        0 <= i <= k < b.len(),
        b[k] != 0,
        forall|j: int| i <= j < k ==> b[j] == 0,
    ensures
        first_nonzero_from(b, i) == k,
    decreases k - i,
{
    if i < k {
        lemma_first_nonzero(b, i + 1, k);
    }
}

proof fn lemma_last_nonzero(b: Seq<u32>, n: int, p: int)
    requires
        0 <= p < n <= b.len(),
        b[p] != 0,
        forall|j: int| p < j < n ==> b[j] == 0,
    ensures
        last_nonzero_below(b, n) == p,
    decreases n - p,
{
    if n - 1 > p {
        lemma_last_nonzero(b, n - 1, p);
    }
}

/// Byte `q` of the words is byte `q % 4` of word `q / 4`.
proof fn lemma_bytes_index(ws: Seq<u32>, i: int, k: int)
    requires
        0 <= i < ws.len(),
        0 <= k < 4,
    ensures
        bytes_of(ws)[4 * i + k] == word_byte(ws[i], k),
        byte_at(bytes_of(ws), 4 * i + k) == word_byte(ws[i], k),
{
    assert((4 * i + k) / 4 == i && (4 * i + k) % 4 == k) by (nonlinear_arith)
        requires
            0 <= k < 4,
    ;
}

proof fn lemma_div4(q: int)
    requires
        0 <= q,
    ensures
        q == 4 * (q / 4) + q % 4,
        0 <= q % 4 < 4,
        0 <= q / 4,
        q / 4 <= q,
{
    vstd::arithmetic::div_mod::lemma_fundamental_div_mod(q, 4);
    vstd::arithmetic::div_mod::lemma_mod_bound(q, 4);
}

proof fn lemma_first_zero_run(b: Seq<u32>, i: int)
    requires
        0 <= i,
        forall|j: int| i <= j < b.len() ==> b[j] == 0,
    ensures
        first_nonzero_from(b, i) == b.len(),
    decreases b.len() - i,
{
    if i < b.len() {
        lemma_first_zero_run(b, i + 1);
    }
}

/// After shifting the words from `index` on left by `s` bytes (the bytes
/// of each next word moving in), the bytes of those words are the bytes of
/// the words before the shift, from `4 * index + s` on.
proof fn lemma_shifted_bytes(m0: Seq<u32>, m1: Seq<u32>, index: int, s: int)
    requires
        0 <= index < m0.len(),
        m1.len() == m0.len(),
        1 <= s <= 3,
        forall|j: int| index <= j < m0.len() - 1 ==> m1[j] == join(m0[j], m0[j + 1], s),
        m1[m0.len() - 1] == m0[m0.len() - 1] << ((8 * s) as u32),
    ensures
        forall|q: int| 0 <= q < 4 * (m0.len() - index) ==> #[trigger] word_byte(m1[index + q / 4], q % 4)
            == byte_at(bytes_of(m0), 4 * index + s + q),
{
    let n = m0.len() as int;
    assert forall|q: int| 0 <= q < 4 * (n - index) implies #[trigger] word_byte(m1[index + q / 4], q % 4)
        == byte_at(bytes_of(m0), 4 * index + s + q) by {
        lemma_div4(q);
        let j = index + q / 4;
        let k = q % 4;
        assert(4 * j + k + s == 4 * index + s + q);
        if j < n - 1 {
            lemma_join_bytes(m0[j], m0[j + 1], s);
            if k + s < 4 {
                lemma_bytes_index(m0, j, k + s);
            } else {
                lemma_bytes_index(m0, j + 1, k + s - 4);
            }
        } else {
            lemma_join_bytes(m0[j], m0[j], s);
            if k + s < 4 {
                lemma_bytes_index(m0, j, k + s);
            }
        }
    }
}

/// The words kept by normalising are those up to the one that holds the
/// last non-zero mask byte, and they are made of the bytes from `z` on.
proof fn lemma_kept_words(
    b: Seq<u32>,
    bv: Seq<u32>,
    ms: Seq<u32>,
    vs: Seq<u32>,
    index: int,
    end: int,
    z: int,
    t: int,
)
    requires
        0 <= index < end <= ms.len(),
        ms.len() == vs.len(),
        b.len() == 4 * ms.len(),
        bv.len() == b.len(),
        4 * index <= z,
        forall|q: int| 0 <= q < 4 * (ms.len() - index) ==> #[trigger] word_byte(ms[index + q / 4], q % 4)
            == byte_at(b, z + q),
        forall|q: int| 0 <= q < 4 * (ms.len() - index) ==> #[trigger] word_byte(vs[index + q / 4], q % 4)
            == byte_at(bv, z + q),
        forall|j: int| end <= j < ms.len() ==> ms[j] == 0,
        0 <= t <= 3,
        word_byte(ms[end - 1], 3 - t) != 0,
        forall|k: int| 3 - t < k <= 3 ==> #[trigger] word_byte(ms[end - 1], k) == 0,
    ensures
        last_nonzero_below(b, b.len() as int) == z + 4 * (end - 1 - index) + 3 - t,
        (last_nonzero_below(b, b.len() as int) - z) / 4 + 1 == end - index,
        words_from(b, z, end - index) == ms.subrange(index, end),
        words_from(bv, z, end - index) == vs.subrange(index, end),
{
    let n = ms.len() as int;
    let p = z + 4 * (end - 1 - index) + 3 - t;
    let k = 3 - t;
    assert(byte_at(b, p) == word_byte(ms[end - 1], k)) by {
        let q = 4 * (end - 1 - index) + k;
        lemma_div4(q);
        assert(q / 4 == end - 1 - index && q % 4 == k);
        assert(word_byte(ms[index + q / 4], q % 4) == byte_at(b, z + q));
    }
    assert forall|j: int| p < j < b.len() implies b[j] == 0 by {
        let q = j - z;
        lemma_div4(q);
        assert(byte_at(b, z + q) == word_byte(ms[index + q / 4], q % 4));
        if q < 4 * (end - index) {
            assert(index + q / 4 == end - 1);
        } else {
            lemma_word_bytes(ms[index + q / 4]);
        }
    }
    lemma_last_nonzero(b, b.len() as int, p);
    let w = end - index;
    vstd::arithmetic::div_mod::lemma_fundamental_div_mod_converse_div(p - z, 4, w - 1, k);
    assert forall|i2: int|
        #![trigger words_from(b, z, w)[i2]]
        #![trigger words_from(bv, z, w)[i2]]
        0 <= i2 < w implies words_from(b, z, w)[i2] == ms[index + i2] && words_from(bv, z, w)[i2]
            == vs[index + i2] by {
        let x = ms[index + i2];
        let y = vs[index + i2];
        assert forall|k2: int| 0 <= k2 < 4 implies byte_at(b, z + 4 * i2 + k2) == word_byte(x, k2)
            && byte_at(bv, z + 4 * i2 + k2) == word_byte(y, k2) by {
            let q = 4 * i2 + k2;
            lemma_div4(q);
            assert(q / 4 == i2 && q % 4 == k2);
            assert(word_byte(ms[index + q / 4], q % 4) == byte_at(b, z + q));
            assert(word_byte(vs[index + q / 4], q % 4) == byte_at(bv, z + q));
        }
        lemma_word_bytes(x);
        lemma_word_bytes(y);
    }
    assert(words_from(b, z, w) =~= ms.subrange(index, end));
    assert(words_from(bv, z, w) =~= vs.subrange(index, end));
}

/// Normalises the parts of a block: see `normalised`.
fn normalise(offset: usize, non_zero_size: Option<usize>, masks: Vec<u32>, values: Vec<u32>) -> (r:
    PatternBlock)
    requires
        masks@.len() == values@.len(),
        masks@.len() <= usize::MAX / 4,
        normalised(offset, non_zero_size, masks@, values@) is Some,
    ensures
        r@ == normalised(offset, non_zero_size, masks@, values@)->0,
{
    proof {
        reveal(normalised);
    }
    match non_zero_size {
        None => {
            return PatternBlock { offset: 0, non_zero_size, masks: Vec::new(), values: Vec::new() };
        },
        Some(0) => {
            return PatternBlock { offset: 0, non_zero_size, masks: Vec::new(), values: Vec::new() };
        },
        _ => {},
    }
    let ghost m0 = masks@;
    let ghost v0 = values@;
    let ghost b = bytes_of(m0);
    let ghost bv = bytes_of(v0);
    let mut masks = masks;
    let mut values = values;
    let n = masks.len();
    let mut index: usize = 0;
    while index < n && masks[index] == 0
        invariant
            index <= n,
            n == masks@.len(),
            masks@ == m0,
            forall|j: int| 0 <= j < index ==> m0[j] == 0,
        decreases n - index,
    {
        index = index + 1;
    }
    if index == n {
        proof {
            if n > 0 {
                assert forall|q: int| 0 <= q < b.len() implies b[q] == 0 by {
                    lemma_bytes_index(m0, q / 4, q % 4);
                    lemma_word_bytes(m0[q / 4]);
                }
                assert(first_nonzero_from(b, 0) >= b.len()) by {
                    lemma_first_zero_run(b, 0);
                }
            }
        }
        return PatternBlock { offset: 0, non_zero_size: Some(0), masks: Vec::new(), values: Vec::new() };
    }
    let w0 = masks[index];
    let mut used: usize = 0;
    let mut tmp: u32 = w0;
    proof {
        lemma_leading_bytes(w0);
    }
    while tmp != 0
        invariant
            w0 != 0,
            (w0 >> 8u32) >> 8u32 == w0 >> 16u32,
            (w0 >> 16u32) >> 8u32 == w0 >> 24u32,
            (w0 >> 24u32) >> 8u32 == 0,
            (used == 0 && tmp == w0) || (used == 1 && tmp == w0 >> 8u32) || (used == 2 && tmp == w0
                >> 16u32) || (used == 3 && tmp == w0 >> 24u32) || (used == 4 && tmp == 0),
            used >= 2 ==> w0 >> 8u32 != 0,
            used >= 3 ==> w0 >> 16u32 != 0,
            used >= 4 ==> w0 >> 24u32 != 0,
        decreases 4 - used,
    {
        used = used + 1;
        tmp = tmp >> 8u32;
    }
    let suboff: usize = 4 - used;
    let ghost s = suboff as int;
    let ghost z = 4 * index + s;
    // The bytes before `z` are zero and the byte at `z` is not.
    proof {
        lemma_leading_bytes(w0);
        assert(word_byte(w0, s) != 0);
        assert forall|j: int| 0 <= j < z implies b[j] == 0 by {
            if j < 4 * index {
                lemma_bytes_index(m0, j / 4, j % 4);
                lemma_word_bytes(m0[j / 4]);
            } else {
                lemma_bytes_index(m0, index as int, j - 4 * index);
            }
        }
        lemma_bytes_index(m0, index as int, s);
        lemma_first_nonzero(b, 0, z);
    }
    let mut offset = offset + index * 4;
    let mut end: usize = n;
    if suboff != 0 {
        offset = offset + suboff;
        let sh: u32 = (suboff * 8) as u32;
        let rsh: u32 = ((4 - suboff) * 8) as u32;
        let mut i: usize = index;
        while i + 1 < n
            invariant
                index <= i < n,
                n == m0.len() == v0.len(),
                masks@.len() == n,
                values@.len() == n,
                sh == (8 * s) as u32,
                rsh == (32 - 8 * s) as u32,
                1 <= s <= 3,
                forall|j: int| index <= j < i ==> masks@[j] == join(m0[j], m0[j + 1], s) && values@[j]
                    == join(v0[j], v0[j + 1], s),
                forall|j: int| i <= j < n ==> masks@[j] == m0[j] && values@[j] == v0[j],
            decreases n - i,
        {
            let nm = (masks[i] << sh) | (masks[i + 1] >> rsh);
            masks.set(i, nm);
            let nv = (values[i] << sh) | (values[i + 1] >> rsh);
            values.set(i, nv);
            i = i + 1;
        }
        let lm = masks[n - 1] << sh;
        masks.set(n - 1, lm);
        let lv = values[n - 1] << sh;
        values.set(n - 1, lv);
        let mut r = n;
        proof {
            lemma_shifted_bytes(m0, masks@, index as int, s);
            lemma_shifted_bytes(v0, values@, index as int, s);
            assert(word_byte(masks@[index + 0int / 4], 0int % 4) == byte_at(b, 4 * index + s + 0));
            assert(word_byte(masks@[index as int], 0) == b[z]);
            lemma_word_bytes(masks@[index as int]);
        }
        while r > index + 1 && masks[r - 1] == 0
            invariant
                index + 1 <= r <= n,
                masks@.len() == n,
                forall|j: int| r <= j < n ==> masks@[j] == 0,
            decreases r,
        {
            r = r - 1;
        }
        end = r;
    } else {
        proof {
            assert forall|q: int| 0 <= q < 4 * (n - index) implies #[trigger] word_byte(
                masks@[index + q / 4],
                q % 4,
            ) == byte_at(b, z + q) && word_byte(values@[index + q / 4], q % 4) == byte_at(bv, z + q) by {
                lemma_bytes_index(m0, index + q / 4, q % 4);
                lemma_bytes_index(v0, index + q / 4, q % 4);
                assert(4 * (index + q / 4) + q % 4 == z + q);
            }
        }
    }
    // `masks[index..end]` holds the mask bytes from `z` on: its last word is
    // not zero, and neither are the words after it.
    proof {
        assert(forall|q: int| 0 <= q < 4 * (n - index) ==> #[trigger] word_byte(masks@[index + q / 4], q % 4)
            == byte_at(b, z + q));
        assert(forall|q: int| 0 <= q < 4 * (n - index) ==> #[trigger] word_byte(values@[index + q / 4], q % 4)
            == byte_at(bv, z + q));
    }
    let mut nm: Vec<u32> = Vec::new();
    let mut nv: Vec<u32> = Vec::new();
    let mut j: usize = index;
    while j < end
        invariant
            index <= j <= end <= n,
            masks@.len() == n,
            values@.len() == n,
            nm@ == masks@.subrange(index as int, j as int),
            nv@ == values@.subrange(index as int, j as int),
        decreases end - j,
    {
        nm.push(masks[j]);
        nv.push(values[j]);
        j = j + 1;
    }
    let last = masks[end - 1];
    proof {
        if suboff == 0 {
            assert(z % 4 == 0) by {
                lemma_div4(z);
            }
        }
        lemma_trailing_bytes(last);
    }
    let mut nzs: usize = (end - index) * 4;
    let mut t: usize = 0;
    let mut tmp: u32 = last;
    while tmp & 0xffu32 == 0
        invariant
            last != 0,
            last & 0xffu32 == word_byte(last, 3),
            (last >> 8u32) & 0xffu32 == word_byte(last, 2),
            (last >> 16u32) & 0xffu32 == word_byte(last, 1),
            (last >> 24u32) & 0xffu32 == word_byte(last, 0),
            (last >> 8u32) >> 8u32 == last >> 16u32,
            (last >> 16u32) >> 8u32 == last >> 24u32,
            last & 0xffu32 == 0 && (last >> 8u32) & 0xffu32 == 0 && (last >> 16u32) & 0xffu32 == 0
                ==> (last >> 24u32) & 0xffu32 != 0,
            (t == 0 && tmp == last) || (t == 1 && tmp == last >> 8u32) || (t == 2 && tmp == last
                >> 16u32) || (t == 3 && tmp == last >> 24u32),
            nzs == (end - index) * 4 - t,
            index < end,
            forall|k: int| 3 - t < k <= 3 ==> word_byte(last, k) == 0,
        decreases 3 - t,
    {
        nzs = nzs - 1;
        tmp = tmp >> 8u32;
        t = t + 1;
    }
    proof {
        lemma_kept_words(b, bv, masks@, values@, index as int, end as int, z, t as int);
        assert(nm@ =~= masks@.subrange(index as int, end as int));
        assert(nv@ =~= values@.subrange(index as int, end as int));
    }
    PatternBlock { offset, non_zero_size: Some(nzs), masks: nm, values: nv }
}


/// The mask and value words that the first `n` child elements of a pattern
/// block give, in order.
pub open spec fn mask_words(cs: Seq<XmlElement>, n: int) -> Result<(Seq<u32>, Seq<u32>), DeserialiseError>
    decreases n,
{
    if n <= 0 {
        Ok((Seq::empty(), Seq::empty()))
    } else {
        match mask_words(cs, n - 1) {
            Err(e) => Err(e),
            Ok((m, v)) => match num_attr::<u32>(&cs[n - 1], "mask") {
                Err(e) => Err(e),
                Ok(x) => match num_attr::<u32>(&cs[n - 1], "val") {
                    Err(e) => Err(e),
                    Ok(y) => Ok((m.push(x as u32), v.push(y as u32))),
                },
            },
        }
    }
}

/// What reading the pattern block element `input` gives: `None` where it
/// cannot be normalised (see `normalised`) or has more words than memory
/// could hold.
pub open spec fn block_of(input: &XmlElement) -> Option<Result<BlockView, DeserialiseError>> {
    if input.children@.len() > usize::MAX / 4 {
        None
    } else {
        match mask_words(input.children@, input.children@.len() as int) {
            Err(e) => Some(Err(e)),
            Ok((m, v)) => match num_attr_or::<usize>(input, "offset", "off") {
                Err(e) => Some(Err(e)),
                Ok(offset) => match num_attr::<usize>(input, "nonzero") {
                    Err(e) => Some(Err(e)),
                    Ok(nz) => match normalised(offset as usize, Some(nz as usize), m, v) {
                        None => None,
                        Some(b) => Some(Ok(b)),
                    },
                },
            },
        }
    }
}

proof fn lemma_first_nonzero_props(b: Seq<u32>, i: int)
    requires
        0 <= i <= b.len(),
    ensures
        i <= first_nonzero_from(b, i) <= b.len(),
        first_nonzero_from(b, i) < b.len() ==> b[first_nonzero_from(b, i)] != 0,
        forall|j: int| i <= j < first_nonzero_from(b, i) ==> b[j] == 0,
    decreases b.len() - i,
{
    if i < b.len() && b[i] == 0 {
        lemma_first_nonzero_props(b, i + 1);
    }
}

proof fn lemma_last_nonzero_props(b: Seq<u32>, n: int)
    requires
        0 <= n <= b.len(),
    ensures
        -1 <= last_nonzero_below(b, n) < n,
        last_nonzero_below(b, n) >= 0 ==> b[last_nonzero_below(b, n)] != 0,
        forall|j: int| last_nonzero_below(b, n) < j < n ==> b[j] == 0,
    decreases n,
{
    if n > 0 && b[n - 1] == 0 {
        lemma_last_nonzero_props(b, n - 1);
    }
}

proof fn lemma_byte_small(w: u32)
    ensures
        word_byte(w, 0) < 256,
        word_byte(w, 1) < 256,
        word_byte(w, 2) < 256,
        word_byte(w, 3) < 256,
{
    lemma_word_shifts(w);
}

proof fn lemma_pack_bytes(b0: u32, b1: u32, b2: u32, b3: u32)
    requires
        b0 < 256,
        b1 < 256,
        b2 < 256,
        b3 < 256,
    ensures
        word_byte(pack(b0, b1, b2, b3), 0) == b0,
        word_byte(pack(b0, b1, b2, b3), 1) == b1,
        word_byte(pack(b0, b1, b2, b3), 2) == b2,
        word_byte(pack(b0, b1, b2, b3), 3) == b3,
{
    let w = pack(b0, b1, b2, b3);
    assert(w == (b0 << 24u32) | (b1 << 16u32) | (b2 << 8u32) | b3);
    assert(b0 < 256 && b1 < 256 && b2 < 256 && b3 < 256 && w == (b0 << 24u32) | (b1 << 16u32) | (b2
        << 8u32) | b3 ==> w >> 24u32 == b0 && (w >> 16u32) & 0xffu32 == b1 && (w >> 8u32) & 0xffu32
        == b2 && w & 0xffu32 == b3) by (bit_vector);
}

/// The bytes of the words made from the bytes of `b` from `z` on are those
/// bytes.
proof fn lemma_words_from_bytes(b: Seq<u32>, z: int, w: int)
    requires
        0 <= w,
        forall|j: int| 0 <= j < b.len() ==> #[trigger] b[j] < 256,
    ensures
        forall|q: int| 0 <= q < 4 * w ==> #[trigger] bytes_of(words_from(b, z, w))[q] == byte_at(b, z + q),
{
    assert forall|q: int| 0 <= q < 4 * w implies #[trigger] bytes_of(words_from(b, z, w))[q] == byte_at(
        b,
        z + q,
    ) by {
        lemma_div4(q);
        let i = q / 4;
        let k = q % 4;
        lemma_pack_bytes(
            byte_at(b, z + 4 * i),
            byte_at(b, z + 4 * i + 1),
            byte_at(b, z + 4 * i + 2),
            byte_at(b, z + 4 * i + 3),
        );
    }
}

/// Every byte of a word is below 256.
proof fn lemma_bytes_small(ws: Seq<u32>)
    ensures
        forall|j: int| 0 <= j < bytes_of(ws).len() ==> #[trigger] bytes_of(ws)[j] < 256,
{
    assert forall|j: int| 0 <= j < bytes_of(ws).len() implies #[trigger] bytes_of(ws)[j] < 256 by {
        lemma_div4(j);
        lemma_byte_small(ws[j / 4]);
    }
}

/// Making words of the bytes of words gives the words back.
proof fn lemma_words_of_bytes(ws: Seq<u32>)
    ensures
        words_from(bytes_of(ws), 0, ws.len() as int) == ws,
{
    assert forall|i: int| 0 <= i < ws.len() implies #[trigger] words_from(bytes_of(ws), 0, ws.len() as int)[i]
        == ws[i] by {
        lemma_bytes_index(ws, i, 0);
        lemma_bytes_index(ws, i, 1);
        lemma_bytes_index(ws, i, 2);
        lemma_bytes_index(ws, i, 3);
        lemma_word_bytes(ws[i]);
    }
    assert(words_from(bytes_of(ws), 0, ws.len() as int) =~= ws);
}

/// The words kept by normalising are themselves normalised: their first
/// byte and their last word are not zero, and their last non-zero byte is
/// the old one.
proof fn lemma_kept_words_normal(b: Seq<u32>, z: int, l: int, ms: Seq<u32>)
    requires
        0 <= z <= l < b.len(),
        b[z] != 0,
        b[l] != 0,
        forall|j: int| l < j < b.len() ==> b[j] == 0,
        forall|j: int| 0 <= j < b.len() ==> #[trigger] b[j] < 256,
        ms == words_from(b, z, (l - z) / 4 + 1),
    ensures
        first_nonzero_from(bytes_of(ms), 0) == 0,
        last_nonzero_below(bytes_of(ms), bytes_of(ms).len() as int) == l - z,
        ms.last() != 0,
{
    let w = (l - z) / 4 + 1;
    lemma_div4(l - z);
    lemma_words_from_bytes(b, z, w);
    let b2 = bytes_of(ms);
    assert(b2[0] == byte_at(b, z));
    lemma_first_nonzero(b2, 0, 0);
    assert(b2[l - z] == byte_at(b, l));
    assert forall|j: int| l - z < j < b2.len() implies b2[j] == 0 by {
        assert(b2[j] == byte_at(b, z + j));
    }
    lemma_last_nonzero(b2, b2.len() as int, l - z);
    lemma_bytes_index(ms, w - 1, (l - z) % 4);
    lemma_word_bytes(ms[w - 1]);
}

/// Normalising a block that is already normalised changes nothing.
pub proof fn lemma_normalised_stable(
    offset: usize,
    non_zero_size: Option<usize>,
    masks: Seq<u32>,
    values: Seq<u32>,
)
    requires
        masks.len() == values.len(),
        masks.len() <= usize::MAX / 4,
        normalised(offset, non_zero_size, masks, values) is Some,
    ensures
        ({
            let n = normalised(offset, non_zero_size, masks, values)->0;
            normalised(n.offset, n.non_zero_size, n.masks, n.values) == Some(n)
        }),
{
    if non_zero_size is None || non_zero_size == Some(0usize) || masks.len() == 0 {
        reveal(normalised);
        return;
    }
    let b = bytes_of(masks);
    let z = first_nonzero_from(b, 0);
    let l = last_nonzero_below(b, b.len() as int);
    let w = (l - z) / 4 + 1;
    let ms = words_from(b, z, w);
    let vs = words_from(bytes_of(values), z, w);
    let n = BlockView {
        offset: (offset + z) as usize,
        non_zero_size: Some((l - z + 1) as usize),
        masks: ms,
        values: vs,
    };
    assert(normalised(offset, non_zero_size, masks, values) == Some(n) && z < b.len() && offset + z
        <= usize::MAX) by {
        reveal(normalised);
    }
    assert(z <= l) by {
        lemma_first_nonzero_props(b, 0);
        lemma_last_nonzero_props(b, b.len() as int);
        if l < z {
            assert(b[z] == 0);
        }
    }
    assert(first_nonzero_from(bytes_of(ms), 0) == 0 && last_nonzero_below(
        bytes_of(ms),
        bytes_of(ms).len() as int,
    ) == l - z && ms.last() != 0) by {
        lemma_first_nonzero_props(b, 0);
        lemma_last_nonzero_props(b, b.len() as int);
        lemma_bytes_small(masks);
        lemma_kept_words_normal(b, z, l, ms);
    }
    assert(ms.len() == w && vs.len() == w);
    lemma_last_nonzero_props(b, b.len() as int);
    assert(b.len() == 4 * masks.len());
    lemma_first_nonzero_props(b, 0);
    lemma_div4(usize::MAX as int);
    lemma_div4(l - z);
    lemma_normalised_of_normal(n.offset, (l - z + 1) as usize, ms, vs, l - z);
}

/// A block whose first mask byte and last mask word are not zero, and whose
/// size reaches its last non-zero mask byte, normalises to itself.
proof fn lemma_normalised_of_normal(offset: usize, nzs: usize, ms: Seq<u32>, vs: Seq<u32>, lz: int)
    requires
        nzs > 0,
        ms.len() > 0,
        ms.len() == vs.len(),
        first_nonzero_from(bytes_of(ms), 0) == 0,
        last_nonzero_below(bytes_of(ms), bytes_of(ms).len() as int) == lz,
        nzs == lz + 1,
        lz / 4 + 1 == ms.len(),
        ms.last() != 0,
    ensures
        normalised(offset, Some(nzs), ms, vs) == Some(
            BlockView { offset, non_zero_size: Some(nzs), masks: ms, values: vs },
        ),
{
    let w = lz / 4 + 1;
    let n = BlockView {
        offset,
        non_zero_size: Some(nzs),
        masks: words_from(bytes_of(ms), 0, w),
        values: words_from(bytes_of(vs), 0, w),
    };
    assert(normalised(offset, Some(nzs), ms, vs) == Some(n)) by {
        reveal(normalised);
    }
    lemma_words_of_bytes(ms);
    lemma_words_of_bytes(vs);
}

impl PatternBlock {
    /// A block that always matches, or never does.
    pub fn new(always: bool) -> (r: Self)
        ensures
            r@ == (BlockView {
                offset: 0,
                non_zero_size: if always {
                    Some(0usize)
                } else {
                    None
                },
                masks: Seq::empty(),
                values: Seq::empty(),
            }),
    {
        PatternBlock {
            offset: 0,
            non_zero_size: if always {
                Some(0)
            } else {
                None
            },
            masks: Vec::new(),
            values: Vec::new(),
        }
    }

    /// Whether the block matches everything.
    pub fn always_true(&self) -> (r: bool)
        ensures
            r == (self@.non_zero_size == Some(0usize)),
    {
        self.non_zero_size == Some(0)
    }

    /// Whether the block matches nothing.
    pub fn always_false(&self) -> (r: bool)
        ensures
            r == (self@.non_zero_size is None),
    {
        self.non_zero_size.is_none()
    }

    /// The byte offset at which the block starts.
    pub fn offset(&self) -> (r: usize)
        ensures
            r == self@.offset,
    {
        self.offset
    }

    /// The size of the block in bytes.
    pub fn non_zero_size(&self) -> (r: Option<usize>)
        ensures
            r == self@.non_zero_size,
    {
        self.non_zero_size
    }

    /// The mask words of the block.
    pub fn masks(&self) -> (r: &[u32])
        ensures
            r@ == self@.masks,
    {
        self.masks.as_slice()
    }

    /// The value words of the block.
    pub fn values(&self) -> (r: &[u32])
        ensures
            r@ == self@.values,
    {
        self.values.as_slice()
    }

    /// Reads a block from its element: one child element per word, with
    /// its mask and value; the block is then normalised.
    pub fn from_xml(input: &XmlElement) -> (r: Result<Self, DeserialiseError>)
        requires
            block_of(input) is Some,
        ensures
            match block_of(input)->0 {
                Ok(b) => r is Ok && r->Ok_0@ == b,
                Err(e) => r is Err && r->Err_0 == e,
            },
    {
        let cs = &input.children;
        let mut masks: Vec<u32> = Vec::new();
        let mut values: Vec<u32> = Vec::new();
        let mut i: usize = 0;
        while i < cs.len()
            invariant
                i <= cs@.len(),
                cs@ == input.children@,
                cs@.len() <= usize::MAX / 4,
                mask_words(cs@, i as int) == Ok::<(Seq<u32>, Seq<u32>), DeserialiseError>((masks@, values@)),
            decreases cs@.len() - i,
        {
            let m: u32 = match cs[i].attribute_int("mask") {
                Ok(v) => v,
                Err(e) => {
                    proof {
                        lemma_mask_words_err(cs@, i as int + 1, cs@.len() as int);
                    }
                    return Err(e);
                },
            };
            let v: u32 = match cs[i].attribute_int("val") {
                Ok(v) => v,
                Err(e) => {
                    proof {
                        lemma_mask_words_err(cs@, i as int + 1, cs@.len() as int);
                    }
                    return Err(e);
                },
            };
            masks.push(m);
            values.push(v);
            i = i + 1;
        }
        let offset: usize = match input.attribute_int_or("offset", "off") {
            Ok(v) => v,
            Err(e) => return Err(e),
        };
        let non_zero_size: usize = match input.attribute_int("nonzero") {
            Ok(v) => v,
            Err(e) => return Err(e),
        };
        proof {
            lemma_mask_words_len(cs@, cs@.len() as int);
        }
        Ok(normalise(offset, Some(non_zero_size), masks, values))
    }
}

proof fn lemma_mask_words_err(cs: Seq<XmlElement>, i: int, n: int)
    requires
        1 <= i <= n,
        mask_words(cs, i) is Err,
    ensures
        mask_words(cs, n) == mask_words(cs, i),
    decreases n - i,
{
    if i < n {
        lemma_mask_words_err(cs, i, n - 1);
    }
}

proof fn lemma_mask_words_len(cs: Seq<XmlElement>, n: int)
    requires
        0 <= n,
        mask_words(cs, n) is Ok,
    ensures
        mask_words(cs, n)->Ok_0.0.len() == n,
        mask_words(cs, n)->Ok_0.1.len() == n,
    decreases n,
{
    if n > 0 {
        lemma_mask_words_len(cs, n - 1);
    }
}

/// What reading the one pattern block inside `input` gives.
pub open spec fn inner_block_of(input: &XmlElement) -> Option<Result<BlockView, DeserialiseError>> {
    if input.children@.len() == 0 {
        Some(Err(DeserialiseError::Invariant("missing pattern block")))
    } else {
        block_of(&input.children@[0])
    }
}

/// Reads the one pattern block inside `input`.
fn read_inner_block(input: &XmlElement) -> (r: Result<PatternBlock, DeserialiseError>)
    requires
        inner_block_of(input) is Some,
    ensures
        match inner_block_of(input)->0 {
            Ok(b) => r is Ok && r->Ok_0@ == b,
            Err(e) => r is Err && r->Err_0 == e,
        },
{
    if input.children.len() == 0 {
        return Err(DeserialiseError::Invariant("missing pattern block"));
    }
    PatternBlock::from_xml(&input.children[0])
}

/// A pattern over the bytes of an instruction.
#[derive(Debug, PartialEq, Eq)]
pub struct InstructionPattern {
    mask_value: PatternBlock,
}

impl View for InstructionPattern {
    type V = BlockView;

    closed spec fn view(&self) -> BlockView {
        self.mask_value@
    }
}

impl InstructionPattern {
    /// The block that the instruction bytes must match.
    pub fn mask_value(&self) -> (r: &PatternBlock)
        ensures
            r@ == self@,
    {
        &self.mask_value
    }

    /// Reads an instruction pattern from its element.
    pub fn from_xml(input: &XmlElement) -> (r: Result<Self, DeserialiseError>)
        requires
            inner_block_of(input) is Some,
        ensures
            match inner_block_of(input)->0 {
                Ok(b) => r is Ok && r->Ok_0@ == b,
                Err(e) => r is Err && r->Err_0 == e,
            },
    {
        match read_inner_block(input) {
            Ok(mask_value) => Ok(InstructionPattern { mask_value }),
            Err(e) => Err(e),
        }
    }
}

/// A pattern over the words of the context.
#[derive(Debug, PartialEq, Eq)]
pub struct ContextPattern {
    mask_value: PatternBlock,
}

impl View for ContextPattern {
    type V = BlockView;

    closed spec fn view(&self) -> BlockView {
        self.mask_value@
    }
}

impl ContextPattern {
    /// The block that the context words must match.
    pub fn mask_value(&self) -> (r: &PatternBlock)
        ensures
            r@ == self@,
    {
        &self.mask_value
    }

    /// Reads a context pattern from its element.
    pub fn from_xml(input: &XmlElement) -> (r: Result<Self, DeserialiseError>)
        requires
            inner_block_of(input) is Some,
        ensures
            match inner_block_of(input)->0 {
                Ok(b) => r is Ok && r->Ok_0@ == b,
                Err(e) => r is Err && r->Err_0 == e,
            },
    {
        match read_inner_block(input) {
            Ok(mask_value) => Ok(ContextPattern { mask_value }),
            Err(e) => Err(e),
        }
    }
}

/// What a disjoint pattern holds: the blocks of its parts.
pub enum DisjointView {
    Instruction(BlockView),
    Context(BlockView),
    Combine(BlockView, BlockView),
}

/// One of the alternatives of a decision: a pattern over the instruction,
/// over the context, or over both.
#[derive(Debug, PartialEq, Eq)]
pub enum DisjointPattern {
    Instruction(InstructionPattern),
    Context(ContextPattern),
    Combine { context: ContextPattern, instruction: InstructionPattern },
}

impl View for DisjointPattern {
    type V = DisjointView;

    closed spec fn view(&self) -> DisjointView {
        match *self {
            DisjointPattern::Instruction(p) => DisjointView::Instruction(p@),
            DisjointPattern::Context(p) => DisjointView::Context(p@),
            DisjointPattern::Combine { context, instruction } => DisjointView::Combine(context@, instruction@),
        }
    }
}

/// What reading the disjoint pattern element `input` gives: an instruction
/// pattern, a context pattern, or else a context pattern and an
/// instruction pattern as its first two child elements.
pub open spec fn disjoint_of(input: &XmlElement) -> Option<Result<DisjointView, DeserialiseError>> {
    let t = input.tag@;
    if t == "instruct_pat"@ {
        match inner_block_of(input) {
            None => None,
            Some(Err(e)) => Some(Err(e)),
            Some(Ok(b)) => Some(Ok(DisjointView::Instruction(b))),
        }
    } else if t == "context_pat"@ {
        match inner_block_of(input) {
            None => None,
            Some(Err(e)) => Some(Err(e)),
            Some(Ok(b)) => Some(Ok(DisjointView::Context(b))),
        }
    } else if input.children@.len() == 0 {
        Some(Err(DeserialiseError::Invariant("missing context pattern")))
    } else {
        match inner_block_of(&input.children@[0]) {
            None => None,
            Some(Err(e)) => Some(Err(e)),
            Some(Ok(c)) => if input.children@.len() < 2 {
                Some(Err(DeserialiseError::Invariant("missing instruction pattern")))
            } else {
                match inner_block_of(&input.children@[1]) {
                    None => None,
                    Some(Err(e)) => Some(Err(e)),
                    Some(Ok(i)) => Some(Ok(DisjointView::Combine(c, i))),
                }
            },
        }
    }
}

impl DisjointPattern {
    /// Reads a disjoint pattern from its element.
    pub fn from_xml(input: &XmlElement) -> (r: Result<Self, DeserialiseError>)
        requires
            disjoint_of(input) is Some,
        ensures
            match disjoint_of(input)->0 {
                Ok(d) => r is Ok && r->Ok_0@ == d,
                Err(e) => r is Err && r->Err_0 == e,
            },
    {
        let tag = input.tag_name();
        if str_eq(tag, "instruct_pat") {
            match InstructionPattern::from_xml(input) {
                Ok(p) => Ok(DisjointPattern::Instruction(p)),
                Err(e) => Err(e),
            }
        } else if str_eq(tag, "context_pat") {
            match ContextPattern::from_xml(input) {
                Ok(p) => Ok(DisjointPattern::Context(p)),
                Err(e) => Err(e),
            }
        } else {
            if input.children.len() == 0 {
                return Err(DeserialiseError::Invariant("missing context pattern"));
            }
            let context = match ContextPattern::from_xml(&input.children[0]) {
                Ok(p) => p,
                Err(e) => return Err(e),
            };
            if input.children.len() < 2 {
                return Err(DeserialiseError::Invariant("missing instruction pattern"));
            }
            let instruction = match InstructionPattern::from_xml(&input.children[1]) {
                Ok(p) => p,
                Err(e) => return Err(e),
            };
            Ok(DisjointPattern::Combine { context, instruction })
        }
    }
}

/// An alternative of a decision: the constructor it selects and the
/// pattern that selects it.
#[derive(Debug, PartialEq, Eq)]
pub struct DecisionPair {
    id: usize,
    pattern: DisjointPattern,
}

impl View for DecisionPair {
    type V = (usize, DisjointView);

    closed spec fn view(&self) -> (usize, DisjointView) {
        (self.id, self.pattern@)
    }
}

impl DecisionPair {
    /// The constructor that the alternative selects.
    pub fn id(&self) -> (r: usize)
        ensures
            r == self@.0,
    {
        self.id
    }

    /// The pattern that selects the constructor.
    pub fn pattern(&self) -> (r: &DisjointPattern)
        ensures
            r@ == self@.1,
    {
        &self.pattern
    }
}


/// What a decision node holds: the bits it looks at, its alternatives and
/// its sub-decisions.
pub struct DecisionView {
    pub number: usize,
    pub context_decision: bool,
    pub start_bit: usize,
    pub size: usize,
    pub patterns: Seq<(usize, DisjointView)>,
    pub children: Seq<DecisionView>,
}

/// A node of the decision tree that selects a constructor of a table.
#[derive(Debug, PartialEq, Eq)]
pub struct DecisionNode {
    number: usize,
    context_decision: bool,
    start_bit: usize,
    size: usize,
    patterns: Vec<DecisionPair>,
    children: Vec<DecisionNode>,
}

/// The views of a sequence of alternatives.
pub open spec fn pairs_view(v: Seq<DecisionPair>) -> Seq<(usize, DisjointView)> {
    Seq::new(v.len(), |j: int| v[j]@)
}

/// The views of a sequence of decision nodes.
pub open spec fn nodes_view(v: Seq<DecisionNode>) -> Seq<DecisionView> {
    Seq::new(v.len(), |j: int| v[j]@)
}

/// The view of a decision node.
pub closed spec fn decision_view(d: &DecisionNode) -> DecisionView
    decreases d,
{
    DecisionView {
        number: d.number,
        context_decision: d.context_decision,
        start_bit: d.start_bit,
        size: d.size,
        patterns: pairs_view(d.patterns@),
        children: Seq::new(
            d.children@.len(),
            |j: int|
                if 0 <= j < d.children@.len() {
                    decision_view(&d.children@[j])
                } else {
                    DecisionView {
                        number: 0,
                        context_decision: false,
                        start_bit: 0,
                        size: 0,
                        patterns: Seq::empty(),
                        children: Seq::empty(),
                    }
                },
        ),
    }
}

impl View for DecisionNode {
    type V = DecisionView;

    closed spec fn view(&self) -> DecisionView {
        decision_view(self)
    }
}

/// What reading the first `n` child elements of the decision element
/// `input` gives: its alternatives (from the `pair` elements) and its
/// sub-decisions (from the `decision` elements), in order; other elements
/// are skipped.  `None` where a pattern inside cannot be read here (see
/// `block_of`).
pub open spec fn decision_parts(input: &XmlElement, n: int) -> Option<
    Result<(Seq<(usize, DisjointView)>, Seq<DecisionView>), DeserialiseError>,
>
    decreases input, 0int, n,
{
    if n <= 0 || n > input.children@.len() {
        Some(Ok((Seq::empty(), Seq::empty())))
    } else {
        match decision_parts(input, n - 1) {
            None => None,
            Some(Err(e)) => Some(Err(e)),
            Some(Ok((ps, ks))) => {
                let c = &input.children@[n - 1];
                if c.tag@ == "pair"@ {
                    match num_attr::<usize>(c, "id") {
                        Err(e) => Some(Err(e)),
                        Ok(id) => if c.children@.len() == 0 {
                            Some(Err(DeserialiseError::Invariant("no pattern for disjoint pattern")))
                        } else {
                            match disjoint_of(&c.children@[0]) {
                                None => None,
                                Some(Err(e)) => Some(Err(e)),
                                Some(Ok(d)) => Some(Ok((ps.push((id as usize, d)), ks))),
                            }
                        },
                    }
                } else if c.tag@ == "decision"@ {
                    match decision_of(c) {
                        None => None,
                        Some(Err(e)) => Some(Err(e)),
                        Some(Ok(k)) => Some(Ok((ps, ks.push(k)))),
                    }
                } else {
                    Some(Ok((ps, ks)))
                }
            },
        }
    }
}

/// What reading the decision element `input` gives.
pub open spec fn decision_of(input: &XmlElement) -> Option<Result<DecisionView, DeserialiseError>>
    decreases input, 1int, 0int,
{
    match decision_parts(input, input.children@.len() as int) {
        None => None,
        Some(Err(e)) => Some(Err(e)),
        Some(Ok((ps, ks))) => match num_attr::<usize>(input, "number") {
            Err(e) => Some(Err(e)),
            Ok(number) => match bool_attr(input, "context") {
                Err(e) => Some(Err(e)),
                Ok(context_decision) => match num_attr_or::<usize>(input, "start", "startbit") {
                    Err(e) => Some(Err(e)),
                    Ok(start_bit) => match num_attr::<usize>(input, "size") {
                        Err(e) => Some(Err(e)),
                        Ok(size) => Some(
                            Ok(
                                DecisionView {
                                    number: number as usize,
                                    context_decision,
                                    start_bit: start_bit as usize,
                                    size: size as usize,
                                    patterns: ps,
                                    children: ks,
                                },
                            ),
                        ),
                    },
                },
            },
        },
    }
}

/// Once reading the first `i` children stops, reading more stops the same
/// way; where reading all of them succeeds, so does reading any first few.
proof fn lemma_decision_parts_prefix(input: &XmlElement, i: int, n: int)
    requires
        0 <= i <= n <= input.children@.len(),
    ensures
        decision_parts(input, i) is None ==> decision_parts(input, n) is None,
        decision_parts(input, i) matches Some(Err(e)) ==> decision_parts(input, n) == decision_parts(input, i),
    decreases n - i,
{
    if i < n {
        lemma_decision_parts_prefix(input, i, n - 1);
    }
}

impl DecisionNode {
    /// The number of the node.
    pub fn number(&self) -> (r: usize)
        ensures
            r == self@.number,
    {
        self.number
    }

    /// Whether the node looks at the context rather than the instruction.
    pub fn context_decision(&self) -> (r: bool)
        ensures
            r == self@.context_decision,
    {
        self.context_decision
    }

    /// The first bit that the node looks at.
    pub fn start_bit(&self) -> (r: usize)
        ensures
            r == self@.start_bit,
    {
        self.start_bit
    }

    /// The number of bits that the node looks at.
    pub fn size(&self) -> (r: usize)
        ensures
            r == self@.size,
    {
        self.size
    }

    /// The alternatives of the node.
    pub fn patterns(&self) -> (r: &[DecisionPair])
        ensures
            pairs_view(r@) == self@.patterns,
    {
        self.patterns.as_slice()
    }

    /// The sub-decisions of the node.
    pub fn children(&self) -> (r: &[DecisionNode])
        ensures
            nodes_view(r@) == self@.children,
    {
        proof {
            assert(nodes_view(self.children@) =~= self@.children);
        }
        self.children.as_slice()
    }

    /// Reads a decision node, and the tree under it, from its element.
    pub fn from_xml(input: &XmlElement) -> (r: Result<Self, DeserialiseError>)
        requires
            decision_of(input) is Some,
        ensures
            match decision_of(input)->0 {
                Ok(d) => r is Ok && r->Ok_0@ == d,
                Err(e) => r is Err && r->Err_0 == e,
            },
        decreases input,
    {
        let cs = &input.children;
        let mut patterns: Vec<DecisionPair> = Vec::new();
        let mut children: Vec<DecisionNode> = Vec::new();
        let mut i: usize = 0;
        proof {
            lemma_decision_parts_prefix(input, 0, cs@.len() as int);
            assert(pairs_view(patterns@) =~= Seq::empty());
            assert(nodes_view(children@) =~= Seq::empty());
        }
        while i < cs.len()
            invariant
                i <= cs@.len(),
                cs@ == input.children@,
                decision_parts(input, cs@.len() as int) is Some,
                decision_parts(input, i as int) == Some(
                    Ok::<(Seq<(usize, DisjointView)>, Seq<DecisionView>), DeserialiseError>(
                        (pairs_view(patterns@), nodes_view(children@)),
                    ),
                ),
            decreases cs@.len() - i,
        {
            let c = &cs[i];
            proof {
                lemma_decision_parts_prefix(input, i as int + 1, cs@.len() as int);
            }
            if str_eq(c.tag_name(), "pair") {
                let id: usize = match c.attribute_int("id") {
                    Ok(v) => v,
                    Err(e) => return Err(e),
                };
                if c.children.len() == 0 {
                    return Err(DeserialiseError::Invariant("no pattern for disjoint pattern"));
                }
                let pattern = match DisjointPattern::from_xml(&c.children[0]) {
                    Ok(p) => p,
                    Err(e) => return Err(e),
                };
                let pair = DecisionPair { id, pattern };
                let ghost old_patterns = patterns@;
                patterns.push(pair);
                proof {
                    assert(pairs_view(patterns@) =~= pairs_view(old_patterns).push(pair@));
                }
            } else if str_eq(c.tag_name(), "decision") {
                let k = match DecisionNode::from_xml(c) {
                    Ok(k) => k,
                    Err(e) => return Err(e),
                };
                let ghost old_children = children@;
                children.push(k);
                proof {
                    assert(nodes_view(children@) =~= nodes_view(old_children).push(k@));
                }
            }
            i = i + 1;
        }
        let number: usize = match input.attribute_int("number") {
            Ok(v) => v,
            Err(e) => return Err(e),
        };
        let context_decision = match input.attribute_bool("context") {
            Ok(v) => v,
            Err(e) => return Err(e),
        };
        let start_bit: usize = match input.attribute_int_or("start", "startbit") {
            Ok(v) => v,
            Err(e) => return Err(e),
        };
        let size: usize = match input.attribute_int("size") {
            Ok(v) => v,
            Err(e) => return Err(e),
        };
        let node = DecisionNode { number, context_decision, start_bit, size, patterns, children };
        proof {
            assert(node@.children =~= nodes_view(node.children@));
        }
        Ok(node)
    }
}


// ---------------------------------------------------------------------------
// Constructors.

/// What a constructor template holds (see `ConstructTpl`'s view).
pub type TemplateView = (
    usize,
    usize,
    Option<usize>,
    Option<HandleTpl>,
    Seq<(Opcode, Option<VarnodeTpl>, Seq<VarnodeTpl>)>,
);

/// What the child elements of a constructor give: its operands, its print
/// pieces, its context changes, its main template and its named templates.
pub type ConstructorParts = (
    Seq<usize>,
    Seq<Seq<char>>,
    Seq<Context>,
    Option<TemplateView>,
    Seq<Option<TemplateView>>,
);

/// What a constructor holds.
pub struct ConstructorView {
    pub id: (usize, usize),
    pub parent_id: usize,
    pub first_whitespace: Option<usize>,
    pub min_length: usize,
    pub source_file_index: usize,
    pub line_number: usize,
    pub operands: Seq<usize>,
    pub print_pieces: Seq<Seq<char>>,
    pub context: Seq<Context>,
    pub template: Option<TemplateView>,
    pub named_template: Seq<Option<TemplateView>>,
    pub flow_through_index: Option<usize>,
}

/// A constructor of a table: how one form of an operand or instruction is
/// printed, what it changes in the context, and the p-code it stands for.
#[derive(Debug)]
pub struct Constructor {
    id: (usize, usize),
    parent_id: usize,
    first_whitespace: Option<usize>,
    min_length: usize,
    source_file_index: usize,
    line_number: usize,
    operands: Vec<usize>,
    print_pieces: Vec<String>,
    context: Vec<Context>,
    template: Option<ConstructTpl>,
    named_template: Vec<Option<ConstructTpl>>,
    flow_through_index: Option<usize>,
}

/// The view of an optional template.
pub open spec fn template_view(t: Option<ConstructTpl>) -> Option<TemplateView> {
    match t {
        Some(x) => Some(x@),
        None => None,
    }
}

/// The views of a sequence of optional templates.
pub open spec fn templates_view(v: Seq<Option<ConstructTpl>>) -> Seq<Option<TemplateView>> {
    Seq::new(v.len(), |j: int| template_view(v[j]))
}

/// The characters of each of the strings.
pub open spec fn strings_view(v: Seq<String>) -> Seq<Seq<char>> {
    Seq::new(v.len(), |j: int| v[j]@)
}

impl View for Constructor {
    type V = ConstructorView;

    closed spec fn view(&self) -> ConstructorView {
        ConstructorView {
            id: self.id,
            parent_id: self.parent_id,
            first_whitespace: self.first_whitespace,
            min_length: self.min_length,
            source_file_index: self.source_file_index,
            line_number: self.line_number,
            operands: self.operands@,
            print_pieces: strings_view(self.print_pieces@),
            context: self.context@,
            template: template_view(self.template),
            named_template: templates_view(self.named_template@),
            flow_through_index: self.flow_through_index,
        }
    }
}

/// The print piece that an `opprint` element with operand `index` gives:
/// a new line and the operand's letter.
pub open spec fn operand_piece(index: int) -> Seq<char> {
    seq!['\n', ((index + 65) as u8) as char]
}

/// The parts after a main or named template `v` is added to `acc`: `None`
/// where its section number is the largest `usize`.
pub open spec fn with_template(acc: ConstructorParts, v: TemplateView) -> Option<
    Result<ConstructorParts, DeserialiseError>,
> {
    let (ops, pieces, ctx, tpl, named) = acc;
    match v.2 {
        Some(sid) => if sid == usize::MAX {
            None
        } else {
            let named1 = if named.len() <= sid {
                named + Seq::new((sid + 1 - named.len()) as nat, |j: int| None::<TemplateView>)
            } else {
                named
            };
            if named1[sid as int] is Some {
                Some(Err(DeserialiseError::Invariant("duplicate named section")))
            } else {
                Some(Ok((ops, pieces, ctx, tpl, named1.update(sid as int, Some(v)))))
            }
        },
        None => if tpl is Some {
            Some(Err(DeserialiseError::Invariant("duplicate main section")))
        } else {
            Some(Ok((ops, pieces, ctx, Some(v), named)))
        },
    }
}

/// The parts after the child element `c` of a constructor is read into
/// `acc`: `None` where it cannot be read here (an operand letter past the
/// byte range, or a template that `construct_tpl_of` cannot read).
pub open spec fn constructor_step(acc: ConstructorParts, c: &XmlElement, spaces: &AddressSpaces) -> Option<
    Result<ConstructorParts, DeserialiseError>,
> {
    let (ops, pieces, ctx, tpl, named) = acc;
    let t = c.tag@;
    if t == "oper"@ {
        match num_attr::<usize>(c, "id") {
            Err(e) => Some(Err(e)),
            Ok(v) => Some(Ok((ops.push(v as usize), pieces, ctx, tpl, named))),
        }
    } else if t == "print"@ {
        match c.spec_attr("piece"@) {
            None => Some(Err(DeserialiseError::AttributeExpected("piece"))),
            Some(v) => Some(Ok((ops, pieces.push(v), ctx, tpl, named))),
        }
    } else if t == "opprint"@ {
        match num_attr::<u8>(c, "id") {
            Err(e) => Some(Err(e)),
            Ok(v) => if v + 65 > 255 {
                None
            } else {
                Some(Ok((ops, pieces.push(operand_piece(v)), ctx, tpl, named)))
            },
        }
    } else if t == "context_op"@ || t == "commit"@ {
        match context_of(c) {
            Err(e) => Some(Err(e)),
            Ok(x) => Some(Ok((ops, pieces, ctx.push(x), tpl, named))),
        }
    } else {
        match construct_tpl_of(c, spaces) {
            None => None,
            Some(Err(e)) => Some(Err(e)),
            Some(Ok(v)) => with_template(acc, v),
        }
    }
}

/// What reading the first `n` child elements of a constructor gives.
pub open spec fn constructor_parts(cs: Seq<XmlElement>, spaces: &AddressSpaces, n: int) -> Option<
    Result<ConstructorParts, DeserialiseError>,
>
    decreases n,
{
    if n <= 0 || n > cs.len() {
        Some(Ok((Seq::empty(), Seq::empty(), Seq::empty(), None, Seq::empty())))
    } else {
        match constructor_parts(cs, spaces, n - 1) {
            None => None,
            Some(Err(e)) => Some(Err(e)),
            Some(Ok(acc)) => constructor_step(acc, &cs[n - 1], spaces),
        }
    }
}

/// The operand that the constructor's printing is exactly, where it is one
/// operand alone: `None` where that cannot be told here (an empty first
/// piece, or a piece that starts a new line without a letter from `A` on).
pub open spec fn flow_through_of(pieces: Seq<Seq<char>>) -> Option<Option<usize>> {
    if pieces.len() == 1 {
        let p = pieces[0];
        if p.len() == 0 {
            None
        } else if p[0] == '\n' {
            if p.len() < 2 || (p[1] as u8) < 65 {
                None
            } else {
                Some(Some(((p[1] as u8) - 65) as usize))
            }
        } else {
            Some(None)
        }
    } else {
        Some(None)
    }
}

/// The source file index and line of a constructor: `source` and `line`
/// where both read as numbers, and otherwise `line` as a position
/// `index:line`.
pub open spec fn source_line_of(input: &XmlElement) -> Result<(usize, usize), DeserialiseError> {
    match (num_attr::<usize>(input, "source"), num_attr::<usize>(input, "line")) {
        (Ok(s), Ok(l)) => Ok((s as usize, l as usize)),
        _ => match input.spec_attr("line"@) {
            None => Err(DeserialiseError::AttributeExpected("line")),
            Some(v) => match line_number_of(v, false, 0, usize::MAX as int) {
                Ok((a, b)) => Ok((a as usize, b as usize)),
                Err(k) => Err(DeserialiseError::ParseInteger(k)),
            },
        },
    }
}

/// What reading the constructor element `input` gives, with the identity
/// `id`: `None` where it cannot be read here (see `constructor_step` and
/// `flow_through_of`).
pub open spec fn constructor_of(input: &XmlElement, id: (usize, usize), spaces: &AddressSpaces) -> Option<
    Result<ConstructorView, DeserialiseError>,
> {
    match constructor_parts(input.children@, spaces, input.children@.len() as int) {
        None => None,
        Some(Err(e)) => Some(Err(e)),
        Some(Ok((ops, pieces, ctx, tpl, named))) => match flow_through_of(pieces) {
            None => None,
            Some(flow_through_index) => match source_line_of(input) {
                Err(e) => Some(Err(e)),
                Ok((source_file_index, line_number)) => match num_attr::<usize>(input, "parent") {
                    Err(e) => Some(Err(e)),
                    Ok(parent_id) => match num_attr::<i64>(input, "first") {
                        Err(e) => Some(Err(e)),
                        Ok(first) => match num_attr::<usize>(input, "length") {
                            Err(e) => Some(Err(e)),
                            Ok(min_length) => Some(
                                Ok(
                                    ConstructorView {
                                        id,
                                        parent_id: parent_id as usize,
                                        first_whitespace: if first < 0 {
                                            None
                                        } else {
                                            Some(first as usize)
                                        },
                                        min_length: min_length as usize,
                                        source_file_index,
                                        line_number,
                                        operands: ops,
                                        print_pieces: pieces,
                                        context: ctx,
                                        template: tpl,
                                        named_template: named,
                                        flow_through_index,
                                    },
                                ),
                            ),
                        },
                    },
                },
            },
        },
    }
}

proof fn lemma_constructor_parts_prefix(cs: Seq<XmlElement>, spaces: &AddressSpaces, i: int, n: int)
    requires
        0 <= i <= n <= cs.len(),
    ensures
        constructor_parts(cs, spaces, i) is None ==> constructor_parts(cs, spaces, n) is None,
        constructor_parts(cs, spaces, i) matches Some(Err(e)) ==> constructor_parts(cs, spaces, n)
            == constructor_parts(cs, spaces, i),
    decreases n - i,
{
    if i < n {
        lemma_constructor_parts_prefix(cs, spaces, i, n - 1);
    }
}

/// The parts read so far, as vectors.
struct PartsBuilder {
    operands: Vec<usize>,
    print_pieces: Vec<String>,
    context: Vec<Context>,
    template: Option<ConstructTpl>,
    named_template: Vec<Option<ConstructTpl>>,
}

impl PartsBuilder {
    spec fn parts(&self) -> ConstructorParts {
        (
            self.operands@,
            strings_view(self.print_pieces@),
            self.context@,
            template_view(self.template),
            templates_view(self.named_template@),
        )
    }

    /// Adds a main or named template.
    fn add_template(&mut self, cur: ConstructTpl) -> (r: Result<(), DeserialiseError>)
        requires
            with_template(old(self).parts(), cur@) is Some,
        ensures
            match with_template(old(self).parts(), cur@)->0 {
                Ok(p) => r is Ok && final(self).parts() == p,
                Err(e) => r == Err::<(), DeserialiseError>(e),
            },
    {
        match cur.section_id() {
            Some(section_id) => {
                let ghost named0 = templates_view(self.named_template@);
                while self.named_template.len() <= section_id
                    invariant
                        section_id < usize::MAX,
                        section_id == cur@.2->0,
                        named0 == templates_view(old(self).named_template@),
                        self.operands@ == old(self).operands@,
                        self.print_pieces@ == old(self).print_pieces@,
                        self.context@ == old(self).context@,
                        self.template == old(self).template,
                        named0.len() <= self.named_template@.len(),
                        self.named_template@.len() > named0.len() ==> self.named_template@.len() <= section_id + 1,
                        forall|j: int| 0 <= j < named0.len() ==> template_view(self.named_template@[j]) == named0[j],
                        forall|j: int| named0.len() <= j < self.named_template@.len() ==> self.named_template@[j] is None,
                    decreases section_id + 1 - self.named_template@.len(),
                {
                    self.named_template.push(None);
                }
                let ghost named1 = if named0.len() <= section_id {
                    named0 + Seq::new((section_id + 1 - named0.len()) as nat, |j: int| None::<TemplateView>)
                } else {
                    named0
                };
                assert(templates_view(self.named_template@) =~= named1);
                if self.named_template[section_id].is_some() {
                    return Err(DeserialiseError::Invariant("duplicate named section"));
                }
                let ghost cv = cur@;
                self.named_template.set(section_id, Some(cur));
                assert(templates_view(self.named_template@) =~= named1.update(section_id as int, Some(cv)));
                Ok(())
            },
            None => {
                if self.template.is_some() {
                    return Err(DeserialiseError::Invariant("duplicate main section"));
                }
                self.template = Some(cur);
                Ok(())
            },
        }
    }
}

/// Reads the child elements of a constructor.
fn read_constructor_parts(input: &XmlElement, spaces: &AddressSpaces) -> (r: Result<PartsBuilder, DeserialiseError>)
    requires
        constructor_parts(input.children@, spaces, input.children@.len() as int) is Some,
    ensures
        match constructor_parts(input.children@, spaces, input.children@.len() as int)->0 {
            Ok(p) => r is Ok && r->Ok_0.parts() == p,
            Err(e) => r is Err && same_error(r->Err_0, e),
        },
{
    let cs = &input.children;
    let mut acc = PartsBuilder {
        operands: Vec::new(),
        print_pieces: Vec::new(),
        context: Vec::new(),
        template: None,
        named_template: Vec::new(),
    };
    proof {
        assert(strings_view(acc.print_pieces@) =~= Seq::empty());
        assert(templates_view(acc.named_template@) =~= Seq::empty());
    }
    let mut i: usize = 0;
    while i < cs.len()
        invariant
            i <= cs@.len(),
            cs@ == input.children@,
            constructor_parts(cs@, spaces, cs@.len() as int) is Some,
            constructor_parts(cs@, spaces, i as int) == Some(
                Ok::<ConstructorParts, DeserialiseError>(acc.parts()),
            ),
        decreases cs@.len() - i,
    {
        let c = &cs[i];
        proof {
            lemma_constructor_parts_prefix(cs@, spaces, i as int + 1, cs@.len() as int);
        }
        let tag = c.tag_name();
        if str_eq(tag, "oper") {
            let v: usize = match c.attribute_int("id") {
                Ok(v) => v,
                Err(e) => return Err(e),
            };
            acc.operands.push(v);
        } else if str_eq(tag, "print") {
            let piece = match c.attribute_string("piece") {
                Ok(p) => p,
                Err(e) => return Err(e),
            };
            let ghost old_pieces = acc.print_pieces@;
            acc.print_pieces.push(piece);
            proof {
                assert(strings_view(acc.print_pieces@) =~= strings_view(old_pieces).push(piece@));
            }
        } else if str_eq(tag, "opprint") {
            let index: u8 = match c.attribute_int("id") {
                Ok(v) => v,
                Err(e) => return Err(e),
            };
            let letter = (index + 65u8) as char;
            let mut cs2: Vec<char> = Vec::new();
            cs2.push('\n');
            cs2.push(letter);
            let piece = string_of(&cs2);
            proof {
                assert(cs2@ =~= operand_piece(index as int));
            }
            let ghost old_pieces = acc.print_pieces@;
            acc.print_pieces.push(piece);
            proof {
                assert(strings_view(acc.print_pieces@) =~= strings_view(old_pieces).push(piece@));
            }
        } else if str_eq(tag, "context_op") || str_eq(tag, "commit") {
            let x = match Context::from_xml(c) {
                Ok(x) => x,
                Err(e) => return Err(e),
            };
            acc.context.push(x);
        } else {
            let cur = match ConstructTpl::from_xml(c, spaces) {
                Ok(t) => t,
                Err(e) => return Err(e),
            };
            match acc.add_template(cur) {
                Ok(()) => {},
                Err(e) => return Err(e),
            }
        }
        i = i + 1;
    }
    Ok(acc)
}

/// The operand that the print pieces are exactly, where they are one.
fn flow_through(pieces: &Vec<String>) -> (r: Option<usize>)
    requires
        flow_through_of(strings_view(pieces@)) is Some,
    ensures
        r == flow_through_of(strings_view(pieces@))->0,
{
    if pieces.len() == 1 {
        let p = chars_of(pieces[0].as_str());
        assert(p@ == strings_view(pieces@)[0]);
        if p[0] == '\n' {
            let c = p[1] as u8;
            Some((c - 65u8) as usize)
        } else {
            None
        }
    } else {
        None
    }
}

/// Reads the source file index and line of a constructor.
fn read_source_line(input: &XmlElement) -> (r: Result<(usize, usize), DeserialiseError>)
    ensures
        r == source_line_of(input),
{
    let source: Result<usize, DeserialiseError> = input.attribute_int("source");
    if let Ok(s) = source {
        let line: Result<usize, DeserialiseError> = input.attribute_int("line");
        if let Ok(l) = line {
            return Ok((s, l));
        }
    }
    input.attribute_line_number("line")
}

impl PartialEq for Constructor {
    /// Constructors are the same where their identities are.
    fn eq(&self, other: &Self) -> (r: bool) {
        self.id.0 == other.id.0 && self.id.1 == other.id.1
    }
}

impl vstd::std_specs::cmp::PartialEqSpecImpl for Constructor {
    open spec fn obeys_eq_spec() -> bool {
        true
    }

    open spec fn eq_spec(&self, other: &Self) -> bool {
        self@.id == other@.id
    }
}

impl Eq for Constructor {

}

impl Constructor {
    /// The table and index of the constructor.
    pub fn id(&self) -> (r: (usize, usize))
        ensures
            r == self@.id,
    {
        self.id
    }

    /// The context changes of the constructor.
    pub fn context(&self) -> (r: &[Context])
        ensures
            r@ == self@.context,
    {
        self.context.as_slice()
    }

    /// The smallest number of bytes that the constructor matches.
    pub fn minimum_length(&self) -> (r: usize)
        ensures
            r == self@.min_length,
    {
        self.min_length
    }

    /// How the constructor is printed, piece by piece.
    pub fn print_pieces(&self) -> (r: &[String])
        ensures
            strings_view(r@) == self@.print_pieces,
    {
        self.print_pieces.as_slice()
    }

    /// The first piece after which printing has white space, if any.
    pub fn first_whitespace(&self) -> (r: Option<usize>)
        ensures
            r == self@.first_whitespace,
    {
        self.first_whitespace
    }

    /// The operand that the constructor prints as exactly, if any.
    pub fn flow_through_index(&self) -> (r: Option<usize>)
        ensures
            r == self@.flow_through_index,
    {
        self.flow_through_index
    }

    /// The symbol of operand `index`.
    pub fn operand(&self, index: usize) -> (r: usize)
        requires
            index < self@.operands.len(),
        ensures
            r == self@.operands[index as int],
    {
        self.operands[index]
    }

    /// The number of operands.
    pub fn operand_count(&self) -> (r: usize)
        ensures
            r == self@.operands.len(),
    {
        self.operands.len()
    }

    /// The main template of the constructor, if any.
    pub fn template(&self) -> (r: Option<&ConstructTpl>)
        ensures
            match r {
                Some(t) => self@.template == Some(t@),
                None => self@.template is None,
            },
    {
        match &self.template {
            Some(t) => Some(t),
            None => None,
        }
    }

    /// The main template of a constructor that has one.
    pub fn unchecked_template(&self) -> (r: &ConstructTpl)
        requires
            self@.template is Some,
        ensures
            self@.template == Some(r@),
    {
        self.template.as_ref().unwrap()
    }

    /// The named template of section `index`, if any.
    pub fn named_template(&self, index: usize) -> (r: Option<&ConstructTpl>)
        ensures
            match r {
                Some(t) => index < self@.named_template.len() && self@.named_template[index as int]
                    == Some(t@),
                None => index >= self@.named_template.len() || self@.named_template[index as int] is None,
            },
    {
        if index < self.named_template.len() {
            match &self.named_template[index] {
                Some(t) => Some(t),
                None => None,
            }
        } else {
            None
        }
    }

    /// The named template of a section that has one.
    pub fn unchecked_named_template(&self, index: usize) -> (r: &ConstructTpl)
        requires
            index < self@.named_template.len(),
            self@.named_template[index as int] is Some,
        ensures
            self@.named_template[index as int] == Some(r@),
    {
        self.named_template[index].as_ref().unwrap()
    }

    /// Reads a constructor, with the identity `id`, from its element; a
    /// template names spaces of `spaces`.
    pub fn from_xml(input: &XmlElement, id: (usize, usize), spaces: &AddressSpaces) -> (r: Result<
        Self,
        DeserialiseError,
    >)
        requires
            constructor_of(input, id, spaces) is Some,
        ensures
            match constructor_of(input, id, spaces)->0 {
                Ok(v) => r is Ok && r->Ok_0@ == v,
                Err(e) => r is Err && same_error(r->Err_0, e),
            },
    {
        let parts = match read_constructor_parts(input, spaces) {
            Ok(p) => p,
            Err(e) => return Err(e),
        };
        let flow_through_index = flow_through(&parts.print_pieces);
        let (source_file_index, line_number) = match read_source_line(input) {
            Ok(v) => v,
            Err(e) => return Err(e),
        };
        let parent_id: usize = match input.attribute_int("parent") {
            Ok(v) => v,
            Err(e) => return Err(e),
        };
        let first: i64 = match input.attribute_int("first") {
            Ok(v) => v,
            Err(e) => return Err(e),
        };
        let first_whitespace = if first < 0 {
            None
        } else {
            Some(first as usize)
        };
        let min_length: usize = match input.attribute_int("length") {
            Ok(v) => v,
            Err(e) => return Err(e),
        };
        Ok(Constructor {
            id,
            parent_id,
            first_whitespace,
            min_length,
            source_file_index,
            line_number,
            operands: parts.operands,
            print_pieces: parts.print_pieces,
            context: parts.context,
            template: parts.template,
            named_template: parts.named_template,
            flow_through_index,
        })
    }
}

} // verus!
