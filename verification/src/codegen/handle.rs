use vstd::prelude::*;

use crate::codegen::lowering::{lower_pattern, lowered};
use crate::codegen::pattern::{gen_code, generate_pattern_resolver, CodeView, PatternCode};
use crate::disassembly::symbol::Symbol;
use crate::sleigh::pattern::PatternExpression;
use crate::sleigh::spaces::AddressSpaces;

verus! {

/// The handle that a generated lifter builds for a symbol.
#[derive(Debug, PartialEq, Eq)]
pub enum HandleCode {
    Fixed { space: u8, size: u8, offset: OffsetCode },
    Operand(u8),
    Choice { index: PatternCode, cases: Vec<Option<HandleCode>> },
    Empty,
}

/// Where the offset of a generated handle comes from.
#[derive(Debug, PartialEq, Eq)]
pub enum OffsetCode {
    Zero,
    Value(PatternCode),
    Constant(u64),
    Address,
    NextAddress,
    Table { index: PatternCode, cases: Vec<Option<HandleCode>> },
}

pub enum HandleView {
    Fixed { space: u8, size: u8, offset: OffsetView },
    Operand(u8),
    Choice { index: CodeView, cases: Seq<Option<HandleView>> },
    Empty,
}

pub enum OffsetView {
    Zero,
    Value(CodeView),
    Constant(u64),
    Address,
    NextAddress,
    Table { index: CodeView, cases: Seq<Option<HandleView>> },
}

pub open spec fn handle_view(h: HandleCode) -> HandleView
    decreases h,
{
    match h {
        HandleCode::Fixed { space, size, offset } => HandleView::Fixed { space, size, offset: offset_view(offset) },
        HandleCode::Operand(i) => HandleView::Operand(i),
        HandleCode::Choice { index, cases } => {
            proof {
                assert(decreases_to!(h => cases));
                assert(decreases_to!(cases => cases@));
            }
            HandleView::Choice { index: index@, cases: cases_view(cases@) }
        },
        HandleCode::Empty => HandleView::Empty,
    }
}

pub open spec fn offset_view(o: OffsetCode) -> OffsetView
    decreases o,
{
    match o {
        OffsetCode::Zero => OffsetView::Zero,
        OffsetCode::Value(c) => OffsetView::Value(c@),
        OffsetCode::Constant(v) => OffsetView::Constant(v),
        OffsetCode::Address => OffsetView::Address,
        OffsetCode::NextAddress => OffsetView::NextAddress,
        OffsetCode::Table { index, cases } => {
            proof {
                assert(decreases_to!(o => cases));
                assert(decreases_to!(cases => cases@));
            }
            OffsetView::Table { index: index@, cases: cases_view(cases@) }
        },
    }
}

/// The cases `cs` as values.
pub open spec fn cases_view(cs: Seq<Option<HandleCode>>) -> Seq<Option<HandleView>>
    decreases cs,
{
    Seq::new(cs.len(), |i: int| if 0 <= i < cs.len() { case_view(cs[i]) } else { None })
}

pub open spec fn case_view(c: Option<HandleCode>) -> Option<HandleView>
    decreases c,
{
    match c {
        Some(h) => Some(handle_view(h)),
        None => None,
    }
}

impl View for HandleCode {
    type V = HandleView;

    open spec fn view(&self) -> HandleView {
        handle_view(*self)
    }
}

impl View for OffsetCode {
    type V = OffsetView;

    open spec fn view(&self) -> OffsetView {
        offset_view(*self)
    }
}

/// The code generated for a pattern of a processor description: its
/// lowering through `symbols` (see `lowered`), then the expression for that.
pub open spec fn pattern_code(p: PatternExpression, symbols: Seq<Symbol>, depth: nat) -> Option<CodeView> {
    match lowered(p, symbols, depth) {
        None => None,
        Some(l) => gen_code(l),
    }
}

/// The number of the default space, as its identifier gives it.
pub open spec fn default_space_number(spaces: AddressSpaces) -> u8 {
    (spaces.spec_space(spaces.spec_default_index()).spec_id().spec_bits() & 0xffff) as u8
}

/// The size in bytes of an address of the default space.
pub open spec fn default_address_size(spaces: AddressSpaces) -> u8 {
    spaces.spec_space(spaces.spec_default_index()).def().spec_address_size() as u8
}

/// The case generated for an entry of a varnode list: none for a missing
/// entry, else the handle of the symbol it names.  `None` where the entry
/// names no symbol or its handle cannot be generated.
pub open spec fn varnode_case(e: Option<usize>, symbols: Seq<Symbol>, spaces: AddressSpaces, depth: nat) -> Option<
    Option<HandleView>,
>
    decreases depth, 2nat,
{
    match e {
        None => Some(None),
        Some(id) => if id < symbols.len() {
            match handle_code(symbols[id as int], symbols, spaces, depth) {
                Some(h) => Some(Some(h)),
                None => None,
            }
        } else {
            None
        },
    }
}

/// The case generated for an entry of a value map: none for the entry
/// `0xbadbeef`, else the handle of the symbol that the entry, as a symbol
/// number, names.
pub open spec fn value_case(v: i64, symbols: Seq<Symbol>, spaces: AddressSpaces, depth: nat) -> Option<
    Option<HandleView>,
>
    decreases depth, 2nat,
{
    if v == 0xbadbeef {
        Some(None)
    } else if (v as usize) < symbols.len() {
        match handle_code(symbols[(v as usize) as int], symbols, spaces, depth) {
            Some(h) => Some(Some(h)),
            None => None,
        }
    } else {
        None
    }
}

/// The cases generated for the entries of a varnode list (see
/// `varnode_case`).
pub open spec fn varnode_cases(table: Seq<Option<usize>>, symbols: Seq<Symbol>, spaces: AddressSpaces, depth: nat) -> Seq<
    Option<Option<HandleView>>,
>
    decreases depth, 3nat,
{
    Seq::new(table.len(), |i: int| varnode_case(table[i], symbols, spaces, depth))
}

/// The cases generated for the entries of a value map (see `value_case`).
pub open spec fn value_cases(table: Seq<i64>, symbols: Seq<Symbol>, spaces: AddressSpaces, depth: nat) -> Seq<
    Option<Option<HandleView>>,
>
    decreases depth, 3nat,
{
    Seq::new(table.len(), |i: int| value_case(table[i], symbols, spaces, depth))
}

/// The handle that a generated lifter builds for symbol `s`: an epsilon is
/// the empty handle of space 0; a name or value has the value of its
/// pattern as offset; a varnode is fixed by its space, size and offset; an
/// operand is the handle of that operand; the start and end of an
/// instruction are addresses in the default space; a varnode list chooses
/// among the handles of its entries by its pattern, and a value map takes
/// the offset so chosen.  Other symbols generate nothing.  Each list
/// looks its entries up one level deeper, to at most `depth` levels; `None`
/// where generation fails (a lookup or a pattern fails, or the depth runs
/// out).
pub open spec fn handle_code(s: Symbol, symbols: Seq<Symbol>, spaces: AddressSpaces, depth: nat) -> Option<HandleView>
    decreases depth, 1nat,
{
    match s {
        Symbol::Epsilon { .. } => Some(HandleView::Fixed { space: 0, size: 0, offset: OffsetView::Zero }),
        Symbol::Name { pattern_value, .. } => match pattern_code(pattern_value, symbols, depth) {
            None => None,
            Some(c) => Some(HandleView::Fixed { space: 0, size: 0, offset: OffsetView::Value(c) }),
        },
        Symbol::Value { pattern_value, .. } => match pattern_code(pattern_value, symbols, depth) {
            None => None,
            Some(c) => Some(HandleView::Fixed { space: 0, size: 0, offset: OffsetView::Value(c) }),
        },
        Symbol::Varnode { space, offset, size, .. } => Some(
            HandleView::Fixed {
                space: (*space).def().spec_index() as u8,
                size: size as u8,
                offset: OffsetView::Constant(offset),
            },
        ),
        Symbol::Operand { handle_index, .. } => Some(HandleView::Operand(handle_index as u8)),
        Symbol::Start { .. } => Some(
            HandleView::Fixed {
                space: default_space_number(spaces),
                size: default_address_size(spaces),
                offset: OffsetView::Address,
            },
        ),
        Symbol::End { .. } => Some(
            HandleView::Fixed {
                space: default_space_number(spaces),
                size: default_address_size(spaces),
                offset: OffsetView::NextAddress,
            },
        ),
        Symbol::VarnodeList { pattern_value, varnode_table, .. } => if depth == 0 {
            None
        } else {
            let n = varnode_table@.len();
            let cs = varnode_cases(varnode_table@, symbols, spaces, (depth - 1) as nat);
            match pattern_code(pattern_value, symbols, depth) {
                None => None,
                Some(c) => if forall|i: int| 0 <= i < n ==> #[trigger] cs[i] is Some {
                    Some(HandleView::Choice { index: c, cases: Seq::new(n, |i: int| cs[i]->0) })
                } else {
                    None
                },
            }
        },
        Symbol::ValueMap { pattern_value, value_table, .. } => if depth == 0 {
            None
        } else {
            let n = value_table@.len();
            let cs = value_cases(value_table@, symbols, spaces, (depth - 1) as nat);
            match pattern_code(pattern_value, symbols, depth) {
                None => None,
                Some(c) => if forall|i: int| 0 <= i < n ==> #[trigger] cs[i] is Some {
                    Some(
                        HandleView::Fixed {
                            space: 0,
                            size: 0,
                            offset: OffsetView::Table { index: c, cases: Seq::new(n, |i: int| cs[i]->0) },
                        },
                    )
                } else {
                    None
                },
            }
        },
        _ => Some(HandleView::Empty),
    }
}

/// Generates the code for a pattern of a processor description (see
/// `pattern_code`).
pub fn generate_symbol_pattern(p: &PatternExpression, symbols: &Vec<Symbol>, depth: usize) -> (r: PatternCode)
    requires
        pattern_code(*p, symbols@, depth as nat) is Some,
    ensures
        r@ == pattern_code(*p, symbols@, depth as nat)->0,
{
    match lower_pattern(p, symbols, depth) {
        Some(l) => generate_pattern_resolver(&l),
        None => {
            proof {
                assert(false);
            }
            PatternCode::Constant(0)
        },
    }
}

/// Generates the handle that a lifter builds for `symbol` (see
/// `handle_code`).
pub fn generate_handle_resolver(symbol: &Symbol, symbols: &Vec<Symbol>, spaces: &AddressSpaces, depth: usize) -> (r: HandleCode)
    requires
        handle_code(*symbol, symbols@, *spaces, depth as nat) is Some,
    ensures
        r@ == handle_code(*symbol, symbols@, *spaces, depth as nat)->0,
    decreases depth,
{
    match symbol {
        Symbol::Epsilon { .. } => {
            let r = HandleCode::Fixed { space: 0, size: 0, offset: OffsetCode::Zero };
            assert(r@ == HandleView::Fixed { space: 0, size: 0, offset: OffsetView::Zero });
            r
        },
        Symbol::Name { pattern_value, .. } => HandleCode::Fixed {
            space: 0,
            size: 0,
            offset: OffsetCode::Value(generate_symbol_pattern(pattern_value, symbols, depth)),
        },
        Symbol::Value { pattern_value, .. } => HandleCode::Fixed {
            space: 0,
            size: 0,
            offset: OffsetCode::Value(generate_symbol_pattern(pattern_value, symbols, depth)),
        },
        Symbol::Varnode { space, offset, size, .. } => HandleCode::Fixed {
            space: space.index() as u8,
            size: *size as u8,
            offset: OffsetCode::Constant(*offset),
        },
        Symbol::Operand { handle_index, .. } => HandleCode::Operand(*handle_index as u8),
        Symbol::Start { .. } => {
            let d = spaces.default_space_ref();
            HandleCode::Fixed { space: d.id().index() as u8, size: d.address_size() as u8, offset: OffsetCode::Address }
        },
        Symbol::End { .. } => {
            let d = spaces.default_space_ref();
            HandleCode::Fixed {
                space: d.id().index() as u8,
                size: d.address_size() as u8,
                offset: OffsetCode::NextAddress,
            }
        },
        Symbol::VarnodeList { pattern_value, varnode_table, .. } => {
            let ghost cs = varnode_cases(varnode_table@, symbols@, *spaces, (depth - 1) as nat);
            let index = generate_symbol_pattern(pattern_value, symbols, depth);
            let n = varnode_table.len();
            let mut cases: Vec<Option<HandleCode>> = Vec::new();
            let mut i: usize = 0;
            while i < n
                invariant
                    i <= n == varnode_table@.len(),
                    depth > 0,
                    cases@.len() == i,
                    forall|j: int| 0 <= j < n ==> (#[trigger] cs[j]) is Some,
                    forall|j: int|
                        0 <= j < n ==> cs[j] == varnode_case(varnode_table@[j], symbols@, *spaces, (depth - 1) as nat),
                    forall|j: int| 0 <= j < i ==> case_view(#[trigger] cases@[j]) == cs[j]->0,
                decreases n - i,
            {
                assert(cs[i as int] is Some);
                match varnode_table[i] {
                    None => cases.push(None),
                    Some(id) => {
                        let h = generate_handle_resolver(&symbols[id], symbols, spaces, depth - 1);
                        cases.push(Some(h));
                    },
                }
                i = i + 1;
            }
            let r = HandleCode::Choice { index, cases };
            proof {
                assert(cases_view(cases@) =~= Seq::new(n as nat, |i: int| cs[i]->0));
                assert(r@ == handle_code(*symbol, symbols@, *spaces, depth as nat)->0);
            }
            r
        },
        Symbol::ValueMap { pattern_value, value_table, .. } => {
            let ghost cs = value_cases(value_table@, symbols@, *spaces, (depth - 1) as nat);
            let index = generate_symbol_pattern(pattern_value, symbols, depth);
            let n = value_table.len();
            let mut cases: Vec<Option<HandleCode>> = Vec::new();
            let mut i: usize = 0;
            while i < n
                invariant
                    i <= n == value_table@.len(),
                    depth > 0,
                    cases@.len() == i,
                    forall|j: int| 0 <= j < n ==> (#[trigger] cs[j]) is Some,
                    forall|j: int| 0 <= j < n ==> cs[j] == value_case(value_table@[j], symbols@, *spaces, (depth - 1) as nat),
                    forall|j: int| 0 <= j < i ==> case_view(#[trigger] cases@[j]) == cs[j]->0,
                decreases n - i,
            {
                assert(cs[i as int] is Some);
                let v = value_table[i];
                if v == 0xbadbeef {
                    cases.push(None);
                } else {
                    let h = generate_handle_resolver(&symbols[v as usize], symbols, spaces, depth - 1);
                    cases.push(Some(h));
                }
                i = i + 1;
            }
            let offset = OffsetCode::Table { index, cases };
            proof {
                assert(cases_view(cases@) =~= Seq::new(n as nat, |i: int| cs[i]->0));
            }
            let r = HandleCode::Fixed { space: 0, size: 0, offset };
            assert(r@ == handle_code(*symbol, symbols@, *spaces, depth as nat)->0);
            r
        },
        _ => HandleCode::Empty,
    }
}

} // verus!
