use vstd::prelude::*;

use crate::disassembly::symbol::Symbol;
use crate::sleigh::pattern::PatternExpression;
use crate::sleigh::space::ID_UNIQUE_SPACE;
use crate::sleigh::spaces::AddressSpaces;

verus! {

/// How a generated lifter fits an offset into a space: the constant space
/// masks it to the size of the value, the unique space sets the bits of the
/// instruction's unique offset, and any other space wraps it at its highest
/// offset.
#[derive(Debug, Clone, Copy, PartialEq, Eq, Structural)]
pub enum SpaceOffsetCode {
    Masked,
    Unique,
    Wrapped(u64),
}

/// What a generated lifter module states of its processor's spaces and
/// context: the size, bits and highest offset of an address of the default
/// space, the word size, highest offset and offset fitting of each space by
/// number, and the context variables it registers, by name and bit range.
#[derive(Debug, PartialEq, Eq)]
pub struct LifterLayoutCode {
    pub address_size: usize,
    pub address_bits: u32,
    pub address_upper_bound: u64,
    pub space_word_sizes: Vec<usize>,
    pub space_upper_bounds: Vec<u64>,
    pub space_offsets: Vec<SpaceOffsetCode>,
    pub context_variables: Vec<(String, usize, usize)>,
}

/// How offsets are fitted into space `i` of `spaces` (see
/// `SpaceOffsetCode`).
pub open spec fn space_offset_code(spaces: AddressSpaces, i: int) -> SpaceOffsetCode {
    if (i as u8) == 0 {
        SpaceOffsetCode::Masked
    } else if ID_UNIQUE_SPACE & spaces.spec_space(i).spec_id().spec_bits() != 0 {
        SpaceOffsetCode::Unique
    } else {
        SpaceOffsetCode::Wrapped(spaces.spec_space(i).def().spec_highest())
    }
}

/// The context variables registered for the symbols `ids` of the global
/// scope, in order: each context symbol whose pattern is a context field,
/// with its name and bit range.
pub open spec fn context_variables(ids: Seq<usize>, symbols: Seq<Symbol>) -> Seq<(Seq<char>, usize, usize)>
    decreases ids.len(),
{
    if ids.len() == 0 {
        Seq::empty()
    } else {
        let rest = context_variables(ids.drop_last(), symbols);
        match symbols[ids.last() as int] {
            Symbol::Context { name, pattern_value, .. } => match pattern_value {
                PatternExpression::ContextField { bit_start, bit_end, .. } => rest.push((name@, bit_start, bit_end)),
                _ => rest,
            },
            _ => rest,
        }
    }
}

/// The size in bytes of an address of the default space.
pub open spec fn layout_address_size(spaces: AddressSpaces) -> usize {
    spaces.spec_space(spaces.spec_default_index()).def().spec_address_size()
}

/// Collects the context variables of the global scope `ids` (see
/// `context_variables`).
pub fn collect_context_variables(ids: &Vec<usize>, symbols: &Vec<Symbol>) -> (r: Vec<(String, usize, usize)>)
    requires
        forall|i: int| 0 <= i < ids@.len() ==> #[trigger] ids@[i] < symbols@.len(),
    ensures
        r@.len() == context_variables(ids@, symbols@).len(),
        forall|i: int|
            0 <= i < r@.len() ==> ({
                let (n, s, e) = #[trigger] r@[i];
                (n@, s, e) == context_variables(ids@, symbols@)[i]
            }),
{
    let mut r: Vec<(String, usize, usize)> = Vec::new();
    let mut k: usize = 0;
    while k < ids.len()
        invariant
            k <= ids@.len(),
            forall|i: int| 0 <= i < ids@.len() ==> #[trigger] ids@[i] < symbols@.len(),
            r@.len() == context_variables(ids@.subrange(0, k as int), symbols@).len(),
            forall|i: int|
                0 <= i < r@.len() ==> ({
                    let (n, s, e) = #[trigger] r@[i];
                    (n@, s, e) == context_variables(ids@.subrange(0, k as int), symbols@)[i]
                }),
        decreases ids@.len() - k,
    {
        let ghost before = r@;
        assert(ids@.subrange(0, k + 1).drop_last() =~= ids@.subrange(0, k as int));
        assert(ids@[k as int] < symbols@.len());
        if let Symbol::Context { name, pattern_value, .. } = &symbols[ids[k]] {
            if let PatternExpression::ContextField { bit_start, bit_end, .. } = pattern_value {
                r.push((name.as_str().to_owned(), *bit_start, *bit_end));
            }
        }
        k = k + 1;
    }
    assert(ids@.subrange(0, k as int) =~= ids@);
    r
}

/// Generates what a lifter module states of the spaces `spaces` and the
/// context variables of the global scope `ids` (see `LifterLayoutCode`).
pub fn generate_lifter_layout(spaces: &AddressSpaces, ids: &Vec<usize>, symbols: &Vec<Symbol>) -> (r: LifterLayoutCode)
    requires
        forall|i: int| 0 <= i < ids@.len() ==> #[trigger] ids@[i] < symbols@.len(),
        (layout_address_size(*spaces) as u32) * 8 <= u32::MAX,
    ensures
        r.address_size == layout_address_size(*spaces),
        r.address_bits == (layout_address_size(*spaces) as u32) * 8,
        r.address_upper_bound == spaces.spec_space(spaces.spec_default_index()).def().spec_highest(),
        r.space_word_sizes@.len() == spaces.spec_len(),
        r.space_upper_bounds@.len() == spaces.spec_len(),
        r.space_offsets@.len() == spaces.spec_len(),
        forall|i: int|
            0 <= i < spaces.spec_len() ==> {
                &&& #[trigger] r.space_word_sizes@[i] == spaces.spec_space(i).def().spec_word_size()
                &&& r.space_upper_bounds@[i] == spaces.spec_space(i).def().spec_highest()
                &&& r.space_offsets@[i] == space_offset_code(*spaces, i)
            },
        r.context_variables@.len() == context_variables(ids@, symbols@).len(),
        forall|i: int|
            0 <= i < r.context_variables@.len() ==> ({
                let (n, s, e) = #[trigger] r.context_variables@[i];
                (n@, s, e) == context_variables(ids@, symbols@)[i]
            }),
{
    let d = spaces.default_space_ref();
    let address_size = d.address_size();
    let address_bits = (address_size as u32) * 8;
    let address_upper_bound = d.highest_offset();
    let all = spaces.spaces();
    let mut space_word_sizes: Vec<usize> = Vec::new();
    let mut space_upper_bounds: Vec<u64> = Vec::new();
    let mut space_offsets: Vec<SpaceOffsetCode> = Vec::new();
    let mut i: usize = 0;
    while i < all.len()
        invariant
            i <= all@.len() == spaces.spec_len(),
            forall|j: int| 0 <= j < all@.len() ==> *(#[trigger] all@[j]) == spaces.spec_space(j),
            space_word_sizes@.len() == i,
            space_upper_bounds@.len() == i,
            space_offsets@.len() == i,
            forall|j: int| 0 <= j < i ==> #[trigger] space_word_sizes@[j] == spaces.spec_space(j).def().spec_word_size(),
            forall|j: int| 0 <= j < i ==> #[trigger] space_upper_bounds@[j] == spaces.spec_space(j).def().spec_highest(),
            forall|j: int| 0 <= j < i ==> #[trigger] space_offsets@[j] == space_offset_code(*spaces, j),
        decreases all@.len() - i,
    {
        let s = &all[i];
        assert(**s == spaces.spec_space(i as int));
        space_word_sizes.push(s.word_size());
        let highest = s.highest_offset();
        space_upper_bounds.push(highest);
        let code = if (i as u8) == 0 {
            SpaceOffsetCode::Masked
        } else if s.id().is_unique() {
            SpaceOffsetCode::Unique
        } else {
            SpaceOffsetCode::Wrapped(highest)
        };
        space_offsets.push(code);
        assert(space_offsets@[i as int] == space_offset_code(*spaces, i as int));
        assert(space_word_sizes@[i as int] == spaces.spec_space(i as int).def().spec_word_size());
        assert(space_upper_bounds@[i as int] == spaces.spec_space(i as int).def().spec_highest());
        i = i + 1;
    }
    let context_variables = collect_context_variables(ids, symbols);
    LifterLayoutCode {
        address_size,
        address_bits,
        address_upper_bound,
        space_word_sizes,
        space_upper_bounds,
        space_offsets,
        context_variables,
    }
}

} // verus!
