use vstd::prelude::*;

use crate::codegen::handle::{generate_handle_resolver, generate_symbol_pattern, handle_code, pattern_code, HandleCode, HandleView};
use crate::codegen::pattern::{CodeView, PatternCode};
use crate::disassembly::symbol::{strings_view, Symbol};
use crate::sleigh::pattern::PatternExpression;
use crate::sleigh::spaces::AddressSpaces;
use crate::sleigh::subtable::Constructor;
use crate::sleigh::subtable::ConstructorView;
use crate::text::str_eq;

verus! {

/// How a generated lifter checks an operand while it parses it.
#[derive(Debug, PartialEq, Eq)]
pub enum ResolverCode {
    /// The operand is a constructor of table `table` in scope `scope`.
    Constructor { table: usize, scope: usize },
    /// The value of `index` must be below `limit` and none of `unset`.
    Filter { index: PatternCode, limit: usize, unset: Vec<usize> },
    /// Any value is accepted.
    Any,
}

/// How a generated lifter sets the handle of an operand.
#[derive(Debug, PartialEq, Eq)]
pub enum OperandHandleCode {
    /// The constructor of the operand sets it.
    Unset,
    /// The handle is built as given.
    Handle(HandleCode),
    /// A handle of space 0 is given the value of the expression as offset.
    Offset(PatternCode),
}

/// What a generated lifter holds for an operand of a constructor.
#[derive(Debug, PartialEq, Eq)]
pub struct OperandCode {
    pub resolver: ResolverCode,
    pub handle: OperandHandleCode,
    pub offset_base: Option<usize>,
    pub offset_rela: usize,
    pub minimum_length: usize,
}

pub enum ResolverView {
    Constructor { table: usize, scope: usize },
    Filter { index: CodeView, limit: usize, unset: Seq<usize> },
    Any,
}

pub enum OperandHandleView {
    Unset,
    Handle(HandleView),
    Offset(CodeView),
}

pub struct OperandView {
    pub resolver: ResolverView,
    pub handle: OperandHandleView,
    pub offset_base: Option<usize>,
    pub offset_rela: usize,
    pub minimum_length: usize,
}

impl View for ResolverCode {
    type V = ResolverView;

    open spec fn view(&self) -> ResolverView {
        match self {
            ResolverCode::Constructor { table, scope } => ResolverView::Constructor { table: *table, scope: *scope },
            ResolverCode::Filter { index, limit, unset } => ResolverView::Filter {
                index: index@,
                limit: *limit,
                unset: unset@,
            },
            ResolverCode::Any => ResolverView::Any,
        }
    }
}

impl View for OperandHandleCode {
    type V = OperandHandleView;

    open spec fn view(&self) -> OperandHandleView {
        match self {
            OperandHandleCode::Unset => OperandHandleView::Unset,
            OperandHandleCode::Handle(h) => OperandHandleView::Handle(h@),
            OperandHandleCode::Offset(c) => OperandHandleView::Offset(c@),
        }
    }
}

impl View for OperandCode {
    type V = OperandView;

    open spec fn view(&self) -> OperandView {
        OperandView {
            resolver: self.resolver@,
            handle: self.handle@,
            offset_base: self.offset_base,
            offset_rela: self.offset_rela,
            minimum_length: self.minimum_length,
        }
    }
}

/// The positions of the entries `0xbadbeef` of a value table, in order.
pub open spec fn unset_values(t: Seq<i64>) -> Seq<usize>
    decreases t.len(),
{
    if t.len() == 0 {
        Seq::empty()
    } else {
        unset_values(t.drop_last()) + if t.last() == 0xbadbeef {
            seq![(t.len() - 1) as usize]
        } else {
            Seq::empty()
        }
    }
}

/// The positions of the missing entries of a varnode table, in order.
pub open spec fn unset_varnodes(t: Seq<Option<usize>>) -> Seq<usize>
    decreases t.len(),
{
    if t.len() == 0 {
        Seq::empty()
    } else {
        unset_varnodes(t.drop_last()) + if t.last() is None {
            seq![(t.len() - 1) as usize]
        } else {
            Seq::empty()
        }
    }
}

/// The positions of the entries that are a lone tab in a name table, in
/// order.
pub open spec fn unset_names(t: Seq<Seq<char>>) -> Seq<usize>
    decreases t.len(),
{
    if t.len() == 0 {
        Seq::empty()
    } else {
        unset_names(t.drop_last()) + if t.last() == "\t"@ {
            seq![(t.len() - 1) as usize]
        } else {
            Seq::empty()
        }
    }
}

/// The check of an operand read through a table of `limit` entries: none
/// where the table is filled, else the value of `p` must be below `limit`
/// and none of `unset`.
pub open spec fn filter_code(filled: bool, p: PatternExpression, limit: nat, unset: Seq<usize>, symbols: Seq<Symbol>, depth: nat) -> Option<
    ResolverView,
> {
    if filled {
        Some(ResolverView::Any)
    } else {
        match pattern_code(p, symbols, depth) {
            None => None,
            Some(c) => Some(ResolverView::Filter { index: c, limit: limit as usize, unset }),
        }
    }
}

/// How an operand defined by symbol `t` is checked: a table's constructor
/// resolves it; a value map, varnode list or name table whose entries are
/// not all set filters its value; anything else is accepted.
pub open spec fn defining_resolver(t: Symbol, symbols: Seq<Symbol>, depth: nat) -> Option<ResolverView> {
    match t {
        Symbol::ValueMap { table_is_filled, pattern_value, value_table, .. } => filter_code(
            table_is_filled,
            pattern_value,
            value_table@.len(),
            unset_values(value_table@),
            symbols,
            depth,
        ),
        Symbol::VarnodeList { table_is_filled, pattern_value, varnode_table, .. } => filter_code(
            table_is_filled,
            pattern_value,
            varnode_table@.len(),
            unset_varnodes(varnode_table@),
            symbols,
            depth,
        ),
        Symbol::Name { table_is_filled, pattern_value, name_table, .. } => filter_code(
            table_is_filled,
            pattern_value,
            name_table@.len(),
            unset_names(strings_view(name_table@)),
            symbols,
            depth,
        ),
        _ => Some(ResolverView::Any),
    }
}

/// What a generated lifter holds for the operand symbol `opid`: where it
/// has a defining symbol, a sub-table resolves it by a constructor and sets
/// its handle, and any other symbol is checked (see `defining_resolver`)
/// and gives the handle that it generates (see `handle_code`); else its
/// defining expression gives the offset of its handle.  Its offset base,
/// relative offset and least length are kept.  `None` where the symbol is
/// not an operand, a lookup or generation fails, or it has neither a
/// defining symbol nor expression.
pub open spec fn operand_code(opid: usize, symbols: Seq<Symbol>, spaces: AddressSpaces, depth: nat) -> Option<OperandView> {
    if opid >= symbols.len() {
        None
    } else {
        match symbols[opid as int] {
            Symbol::Operand { offset, base, min_length, subsym_id, def_expr, .. } => {
                let parts = match subsym_id {
                    Some(s) => if s >= symbols.len() {
                        None
                    } else {
                        match symbols[s as int] {
                            Symbol::Subtable { id, scope, .. } => Some(
                                (ResolverView::Constructor { table: id, scope }, OperandHandleView::Unset),
                            ),
                            _ => match (
                                defining_resolver(symbols[s as int], symbols, depth),
                                handle_code(symbols[s as int], symbols, spaces, depth),
                            ) {
                                (Some(r), Some(h)) => Some((r, OperandHandleView::Handle(h))),
                                _ => None,
                            },
                        }
                    },
                    None => match def_expr {
                        None => None,
                        Some(e) => match pattern_code(e, symbols, depth) {
                            None => None,
                            Some(c) => Some((ResolverView::Any, OperandHandleView::Offset(c))),
                        },
                    },
                };
                match parts {
                    None => None,
                    Some((r, h)) => Some(
                        OperandView {
                            resolver: r,
                            handle: h,
                            offset_base: base,
                            offset_rela: offset,
                            minimum_length: min_length,
                        },
                    ),
                }
            },
            _ => None,
        }
    }
}

/// What a generated lifter holds for each operand `ops` (see
/// `operand_code`).
pub open spec fn operand_codes(ops: Seq<usize>, symbols: Seq<Symbol>, spaces: AddressSpaces, depth: nat) -> Seq<Option<OperandView>> {
    Seq::new(ops.len(), |i: int| operand_code(ops[i], symbols, spaces, depth))
}

/// What a generated lifter holds for the operands of constructor `c`, in
/// order; `None` where that fails for one of them.
pub open spec fn constructor_operands_code(c: ConstructorView, symbols: Seq<Symbol>, spaces: AddressSpaces, depth: nat) -> Option<
    Seq<OperandView>,
> {
    let cs = operand_codes(c.operands, symbols, spaces, depth);
    if forall|i: int| 0 <= i < cs.len() ==> #[trigger] cs[i] is Some {
        Some(Seq::new(cs.len(), |i: int| cs[i]->0))
    } else {
        None
    }
}

pub(crate) fn unset_value_positions(t: &Vec<i64>) -> (r: Vec<usize>)
    ensures
        r@ == unset_values(t@),
{
    let mut r: Vec<usize> = Vec::new();
    let mut i: usize = 0;
    while i < t.len()
        invariant
            i <= t@.len(),
            r@ == unset_values(t@.subrange(0, i as int)),
        decreases t@.len() - i,
    {
        assert(t@.subrange(0, i + 1).drop_last() =~= t@.subrange(0, i as int));
        if t[i] == 0xbadbeef {
            r.push(i);
        }
        i = i + 1;
    }
    assert(t@.subrange(0, i as int) =~= t@);
    r
}

pub(crate) fn unset_varnode_positions(t: &Vec<Option<usize>>) -> (r: Vec<usize>)
    ensures
        r@ == unset_varnodes(t@),
{
    let mut r: Vec<usize> = Vec::new();
    let mut i: usize = 0;
    while i < t.len()
        invariant
            i <= t@.len(),
            r@ == unset_varnodes(t@.subrange(0, i as int)),
        decreases t@.len() - i,
    {
        assert(t@.subrange(0, i + 1).drop_last() =~= t@.subrange(0, i as int));
        if t[i].is_none() {
            r.push(i);
        }
        i = i + 1;
    }
    assert(t@.subrange(0, i as int) =~= t@);
    r
}

pub(crate) fn unset_name_positions(t: &Vec<String>) -> (r: Vec<usize>)
    ensures
        r@ == unset_names(strings_view(t@)),
{
    let mut r: Vec<usize> = Vec::new();
    let mut i: usize = 0;
    while i < t.len()
        invariant
            i <= t@.len(),
            r@ == unset_names(strings_view(t@).subrange(0, i as int)),
        decreases t@.len() - i,
    {
        assert(strings_view(t@).subrange(0, i + 1).drop_last() =~= strings_view(t@).subrange(0, i as int));
        if str_eq(t[i].as_str(), "\t") {
            r.push(i);
        }
        i = i + 1;
    }
    assert(strings_view(t@).subrange(0, i as int) =~= strings_view(t@));
    r
}

fn generate_filter(filled: bool, p: &PatternExpression, limit: usize, unset: Vec<usize>, symbols: &Vec<Symbol>, depth: usize) -> (r: ResolverCode)
    requires
        filter_code(filled, *p, limit as nat, unset@, symbols@, depth as nat) is Some,
    ensures
        r@ == filter_code(filled, *p, limit as nat, unset@, symbols@, depth as nat)->0,
{
    if filled {
        ResolverCode::Any
    } else {
        ResolverCode::Filter { index: generate_symbol_pattern(p, symbols, depth), limit, unset }
    }
}

fn generate_defining_resolver(t: &Symbol, symbols: &Vec<Symbol>, depth: usize) -> (r: ResolverCode)
    requires
        defining_resolver(*t, symbols@, depth as nat) is Some,
    ensures
        r@ == defining_resolver(*t, symbols@, depth as nat)->0,
{
    match t {
        Symbol::ValueMap { table_is_filled, pattern_value, value_table, .. } => {
            let unset = unset_value_positions(value_table);
            generate_filter(*table_is_filled, pattern_value, value_table.len(), unset, symbols, depth)
        },
        Symbol::VarnodeList { table_is_filled, pattern_value, varnode_table, .. } => {
            let unset = unset_varnode_positions(varnode_table);
            generate_filter(*table_is_filled, pattern_value, varnode_table.len(), unset, symbols, depth)
        },
        Symbol::Name { table_is_filled, pattern_value, name_table, .. } => {
            let unset = unset_name_positions(name_table);
            generate_filter(*table_is_filled, pattern_value, name_table.len(), unset, symbols, depth)
        },
        _ => ResolverCode::Any,
    }
}

/// Generates what a lifter holds for the operand symbol `opid` (see
/// `operand_code`).
pub fn generate_operand_resolver(opid: usize, symbols: &Vec<Symbol>, spaces: &AddressSpaces, depth: usize) -> (r: OperandCode)
    requires
        operand_code(opid, symbols@, *spaces, depth as nat) is Some,
    ensures
        r@ == operand_code(opid, symbols@, *spaces, depth as nat)->0,
{
    match &symbols[opid] {
        Symbol::Operand { offset, base, min_length, subsym_id, def_expr, .. } => {
            let (resolver, handle) = match subsym_id {
                Some(s) => match &symbols[*s] {
                    Symbol::Subtable { id, scope, .. } => (
                        ResolverCode::Constructor { table: *id, scope: *scope },
                        OperandHandleCode::Unset,
                    ),
                    t => {
                        let resolver = generate_defining_resolver(t, symbols, depth);
                        let h = generate_handle_resolver(t, symbols, spaces, depth);
                        (resolver, OperandHandleCode::Handle(h))
                    },
                },
                None => match def_expr {
                    Some(e) => (ResolverCode::Any, OperandHandleCode::Offset(generate_symbol_pattern(e, symbols, depth))),
                    None => {
                        proof {
                            assert(false);
                        }
                        (ResolverCode::Any, OperandHandleCode::Unset)
                    },
                },
            };
            OperandCode { resolver, handle, offset_base: *base, offset_rela: *offset, minimum_length: *min_length }
        },
        _ => {
            proof {
                assert(false);
            }
            OperandCode {
                resolver: ResolverCode::Any,
                handle: OperandHandleCode::Unset,
                offset_base: None,
                offset_rela: 0,
                minimum_length: 0,
            }
        },
    }
}

/// Generates what a lifter holds for each operand of `ctor`, in order (see
/// `constructor_operands_code`).
pub fn generate_constructor_operand_resolvers(ctor: &Constructor, symbols: &Vec<Symbol>, spaces: &AddressSpaces, depth: usize) -> (r: Vec<OperandCode>)
    requires
        constructor_operands_code(ctor@, symbols@, *spaces, depth as nat) is Some,
    ensures
        r@.len() == constructor_operands_code(ctor@, symbols@, *spaces, depth as nat)->0.len(),
        forall|i: int|
            0 <= i < r@.len() ==> (#[trigger] r@[i])@ == constructor_operands_code(ctor@, symbols@, *spaces, depth as nat)->0[i],
{
    let ghost cs = operand_codes(ctor@.operands, symbols@, *spaces, depth as nat);
    let n = ctor.operand_count();
    let mut r: Vec<OperandCode> = Vec::new();
    let mut i: usize = 0;
    while i < n
        invariant
            i <= n == ctor@.operands.len() == cs.len(),
            cs == operand_codes(ctor@.operands, symbols@, *spaces, depth as nat),
            forall|j: int| 0 <= j < cs.len() ==> #[trigger] cs[j] is Some,
            r@.len() == i,
            forall|j: int| 0 <= j < i ==> (#[trigger] r@[j])@ == cs[j]->0,
        decreases n - i,
    {
        assert(cs[i as int] is Some);
        let opid = ctor.operand(i);
        let o = generate_operand_resolver(opid, symbols, spaces, depth);
        r.push(o);
        i = i + 1;
    }
    r
}

} // verus!
