use vstd::prelude::*;

use crate::codegen::lowering::{lower_pattern, lowered};
use crate::codegen::operand::{unset_names, unset_values, unset_varnodes};
use crate::disassembly::symbol::{strings_view, Symbol};
use crate::lifter::pattern::PatternExpression as LP;
use crate::sleigh::spaces::AddressSpaces;
use crate::text::str_eq;

verus! {

/// The name of symbol `s`.
pub open spec fn symbol_name(s: Symbol) -> Seq<char> {
    match s {
        Symbol::UserOp { name, .. } => name@,
        Symbol::Epsilon { name, .. } => name@,
        Symbol::Value { name, .. } => name@,
        Symbol::ValueMap { name, .. } => name@,
        Symbol::Name { name, .. } => name@,
        Symbol::Varnode { name, .. } => name@,
        Symbol::Context { name, .. } => name@,
        Symbol::VarnodeList { name, .. } => name@,
        Symbol::Operand { name, .. } => name@,
        Symbol::Start { name, .. } => name@,
        Symbol::End { name, .. } => name@,
        Symbol::Subtable { name, .. } => name@,
        Symbol::FlowDest { name, .. } => name@,
    }
}

impl Symbol {
    /// The name of the symbol.
    pub fn name(&self) -> (r: &str)
        ensures
            r@ == symbol_name(*self),
    {
        match self {
            Symbol::UserOp { name, .. } => name.as_str(),
            Symbol::Epsilon { name, .. } => name.as_str(),
            Symbol::Value { name, .. } => name.as_str(),
            Symbol::ValueMap { name, .. } => name.as_str(),
            Symbol::Name { name, .. } => name.as_str(),
            Symbol::Varnode { name, .. } => name.as_str(),
            Symbol::Context { name, .. } => name.as_str(),
            Symbol::VarnodeList { name, .. } => name.as_str(),
            Symbol::Operand { name, .. } => name.as_str(),
            Symbol::Start { name, .. } => name.as_str(),
            Symbol::End { name, .. } => name.as_str(),
            Symbol::Subtable { name, .. } => name.as_str(),
            Symbol::FlowDest { name, .. } => name.as_str(),
        }
    }
}

/// The check that a generated lifter makes of a value read through a table
/// whose entries are not all set: the value of `pattern` must be below
/// `limit` and none of `unset`.
#[derive(Debug)]
pub struct FilterCode {
    pub pattern: LP,
    pub unset: Vec<usize>,
    pub limit: usize,
}

/// The declaration of a symbol in a generated lifter.
#[derive(Debug)]
pub enum SymbolCode {
    Epsilon,
    Value { pattern: LP },
    ValueMapFilled { pattern: LP, values: Vec<i64> },
    ValueMap { pattern: LP, filter: FilterCode, values: Vec<Option<i64>> },
    Name { pattern: LP, filter: Option<FilterCode>, names: Vec<Option<String>> },
    Varnode { name: String, space: u8, offset: u64, size: u16 },
    VarnodeListFilled { pattern: LP, varnodes: Vec<usize>, names: Vec<String> },
    VarnodeList { pattern: LP, filter: FilterCode, varnodes: Vec<Option<usize>>, names: Vec<Option<String>> },
    Operand { handle_index: usize },
    Start { space: u8, size: u16 },
    End { space: u8, size: u16 },
    /// No declaration.
    Nothing,
}

pub struct FilterView {
    pub pattern: LP,
    pub unset: Seq<usize>,
    pub limit: usize,
}

pub enum SymbolCodeView {
    Epsilon,
    Value { pattern: LP },
    ValueMapFilled { pattern: LP, values: Seq<i64> },
    ValueMap { pattern: LP, filter: FilterView, values: Seq<Option<i64>> },
    Name { pattern: LP, filter: Option<FilterView>, names: Seq<Option<Seq<char>>> },
    Varnode { name: Seq<char>, space: u8, offset: u64, size: u16 },
    VarnodeListFilled { pattern: LP, varnodes: Seq<usize>, names: Seq<Seq<char>> },
    VarnodeList { pattern: LP, filter: FilterView, varnodes: Seq<Option<usize>>, names: Seq<Option<Seq<char>>> },
    Operand { handle_index: usize },
    Start { space: u8, size: u16 },
    End { space: u8, size: u16 },
    Nothing,
}

impl View for FilterCode {
    type V = FilterView;

    open spec fn view(&self) -> FilterView {
        FilterView { pattern: self.pattern, unset: self.unset@, limit: self.limit }
    }
}

/// The optional name `o` as a value.
pub open spec fn optional_string_view(o: Option<String>) -> Option<Seq<char>> {
    match o {
        Some(s) => Some(s@),
        None => None,
    }
}

/// The optional names `v` as values.
pub open spec fn optional_strings_view(v: Seq<Option<String>>) -> Seq<Option<Seq<char>>> {
    Seq::new(v.len(), |i: int| optional_string_view(v[i]))
}

impl View for SymbolCode {
    type V = SymbolCodeView;

    open spec fn view(&self) -> SymbolCodeView {
        match self {
            SymbolCode::Epsilon => SymbolCodeView::Epsilon,
            SymbolCode::Value { pattern } => SymbolCodeView::Value { pattern: *pattern },
            SymbolCode::ValueMapFilled { pattern, values } => SymbolCodeView::ValueMapFilled {
                pattern: *pattern,
                values: values@,
            },
            SymbolCode::ValueMap { pattern, filter, values } => SymbolCodeView::ValueMap {
                pattern: *pattern,
                filter: filter@,
                values: values@,
            },
            SymbolCode::Name { pattern, filter, names } => SymbolCodeView::Name {
                pattern: *pattern,
                filter: match filter {
                    Some(f) => Some(f@),
                    None => None,
                },
                names: optional_strings_view(names@),
            },
            SymbolCode::Varnode { name, space, offset, size } => SymbolCodeView::Varnode {
                name: name@,
                space: *space,
                offset: *offset,
                size: *size,
            },
            SymbolCode::VarnodeListFilled { pattern, varnodes, names } => SymbolCodeView::VarnodeListFilled {
                pattern: *pattern,
                varnodes: varnodes@,
                names: strings_view(names@),
            },
            SymbolCode::VarnodeList { pattern, filter, varnodes, names } => SymbolCodeView::VarnodeList {
                pattern: *pattern,
                filter: filter@,
                varnodes: varnodes@,
                names: optional_strings_view(names@),
            },
            SymbolCode::Operand { handle_index } => SymbolCodeView::Operand { handle_index: *handle_index },
            SymbolCode::Start { space, size } => SymbolCodeView::Start { space: *space, size: *size },
            SymbolCode::End { space, size } => SymbolCodeView::End { space: *space, size: *size },
            SymbolCode::Nothing => SymbolCodeView::Nothing,
        }
    }
}

/// The entries of a value table, with `0xbadbeef` read as none.
pub open spec fn optional_values(t: Seq<i64>) -> Seq<Option<i64>> {
    Seq::new(t.len(), |i: int| if t[i] == 0xbadbeef { None } else { Some(t[i]) })
}

/// The entries of a name table, with a lone tab read as none.
pub open spec fn optional_names(t: Seq<Seq<char>>) -> Seq<Option<Seq<char>>> {
    Seq::new(t.len(), |i: int| if t[i] == "\t"@ { None } else { Some(t[i]) })
}

/// Whether every entry of a varnode table that is set names a symbol.
pub open spec fn varnodes_known(t: Seq<Option<usize>>, symbols: Seq<Symbol>) -> bool {
    forall|i: int| 0 <= i < t.len() && (#[trigger] t[i]) is Some ==> t[i]->0 < symbols.len()
}

/// The names of the symbols that a varnode table names, none for an entry
/// that is not set.
pub open spec fn varnode_names(t: Seq<Option<usize>>, symbols: Seq<Symbol>) -> Seq<Option<Seq<char>>> {
    Seq::new(
        t.len(),
        |i: int|
            match t[i] {
                Some(id) => Some(symbol_name(symbols[id as int])),
                None => None,
            },
    )
}

/// The space number of the default space.
pub open spec fn default_space_index(spaces: AddressSpaces) -> u8 {
    spaces.spec_space(spaces.spec_default_index()).def().spec_index() as u8
}

/// The address size of the default space, as a `u16`.
pub open spec fn default_size(spaces: AddressSpaces) -> u16 {
    spaces.spec_space(spaces.spec_default_index()).def().spec_address_size() as u16
}

/// The declaration of symbol `s` in a generated lifter: its pattern
/// lowered through `symbols` (see `lowered`), its table with unset entries
/// read as none, a filter where the table is not filled, the names of the
/// symbols that a varnode list names, and for a varnode its name, space,
/// offset and size.  `None` where the pattern cannot be lowered, or a
/// varnode list names a symbol that does not exist, or one said to be
/// filled has an entry that is not set.
pub open spec fn symbol_code(s: Symbol, symbols: Seq<Symbol>, spaces: AddressSpaces, depth: nat) -> Option<SymbolCodeView> {
    match s {
        Symbol::Epsilon { .. } => Some(SymbolCodeView::Epsilon),
        Symbol::Value { pattern_value, .. } => match lowered(pattern_value, symbols, depth) {
            None => None,
            Some(p) => Some(SymbolCodeView::Value { pattern: p }),
        },
        Symbol::ValueMap { pattern_value, value_table, table_is_filled, .. } => match lowered(pattern_value, symbols, depth) {
            None => None,
            Some(p) => if table_is_filled {
                Some(SymbolCodeView::ValueMapFilled { pattern: p, values: value_table@ })
            } else {
                Some(
                    SymbolCodeView::ValueMap {
                        pattern: p,
                        filter: FilterView {
                            pattern: p,
                            unset: unset_values(value_table@),
                            limit: value_table@.len() as usize,
                        },
                        values: optional_values(value_table@),
                    },
                )
            },
        },
        Symbol::Name { pattern_value, name_table, table_is_filled, .. } => match lowered(pattern_value, symbols, depth) {
            None => None,
            Some(p) => Some(
                SymbolCodeView::Name {
                    pattern: p,
                    filter: if table_is_filled {
                        None
                    } else {
                        Some(
                            FilterView {
                                pattern: p,
                                unset: unset_names(strings_view(name_table@)),
                                limit: name_table@.len() as usize,
                            },
                        )
                    },
                    names: optional_names(strings_view(name_table@)),
                },
            ),
        },
        Symbol::Varnode { name, space, offset, size, .. } => Some(
            SymbolCodeView::Varnode { name: name@, space: (*space).def().spec_index() as u8, offset, size: size as u16 },
        ),
        Symbol::VarnodeList { pattern_value, varnode_table, table_is_filled, .. } => match lowered(pattern_value, symbols, depth) {
            None => None,
            Some(p) => {
                let t = varnode_table@;
                if !varnodes_known(t, symbols) {
                    None
                } else if table_is_filled {
                    if forall|i: int| 0 <= i < t.len() ==> (#[trigger] t[i]) is Some {
                        Some(
                            SymbolCodeView::VarnodeListFilled {
                                pattern: p,
                                varnodes: Seq::new(t.len(), |i: int| t[i]->0),
                                names: Seq::new(t.len(), |i: int| symbol_name(symbols[t[i]->0 as int])),
                            },
                        )
                    } else {
                        None
                    }
                } else {
                    Some(
                        SymbolCodeView::VarnodeList {
                            pattern: p,
                            filter: FilterView { pattern: p, unset: unset_varnodes(t), limit: t.len() as usize },
                            varnodes: t,
                            names: varnode_names(t, symbols),
                        },
                    )
                }
            },
        },
        Symbol::Operand { handle_index, .. } => Some(SymbolCodeView::Operand { handle_index }),
        Symbol::Start { .. } => Some(SymbolCodeView::Start { space: default_space_index(spaces), size: default_size(spaces) }),
        Symbol::End { .. } => Some(SymbolCodeView::End { space: default_space_index(spaces), size: default_size(spaces) }),
        _ => Some(SymbolCodeView::Nothing),
    }
}

fn lowered_of(p: &crate::sleigh::pattern::PatternExpression, symbols: &Vec<Symbol>, depth: usize) -> (r: LP)
    requires
        lowered(*p, symbols@, depth as nat) is Some,
    ensures
        r == lowered(*p, symbols@, depth as nat)->0,
{
    match lower_pattern(p, symbols, depth) {
        Some(l) => l,
        None => {
            proof {
                assert(false);
            }
            LP::Constant { value: 0 }
        },
    }
}

fn value_entries(t: &Vec<i64>) -> (r: Vec<Option<i64>>)
    ensures
        r@ == optional_values(t@),
{
    let mut r: Vec<Option<i64>> = Vec::new();
    let mut i: usize = 0;
    while i < t.len()
        invariant
            i <= t@.len(),
            r@.len() == i,
            forall|j: int| 0 <= j < i ==> #[trigger] r@[j] == optional_values(t@)[j],
        decreases t@.len() - i,
    {
        if t[i] == 0xbadbeef {
            r.push(None);
        } else {
            r.push(Some(t[i]));
        }
        i = i + 1;
    }
    assert(r@ =~= optional_values(t@));
    r
}

fn name_entries(t: &Vec<String>) -> (r: Vec<Option<String>>)
    ensures
        optional_strings_view(r@) == optional_names(strings_view(t@)),
{
    let mut r: Vec<Option<String>> = Vec::new();
    let mut i: usize = 0;
    while i < t.len()
        invariant
            i <= t@.len(),
            r@.len() == i,
            forall|j: int| 0 <= j < i ==> optional_string_view(#[trigger] r@[j]) == optional_names(strings_view(t@))[j],
        decreases t@.len() - i,
    {
        if str_eq(t[i].as_str(), "\t") {
            r.push(None);
        } else {
            r.push(Some(t[i].as_str().to_owned()));
        }
        assert(optional_string_view(r@[i as int]) == optional_names(strings_view(t@))[i as int]);
        i = i + 1;
    }
    assert(optional_strings_view(r@) =~= optional_names(strings_view(t@)));
    r
}

fn varnode_name_entries(t: &Vec<Option<usize>>, symbols: &Vec<Symbol>) -> (r: Vec<Option<String>>)
    requires
        varnodes_known(t@, symbols@),
    ensures
        optional_strings_view(r@) == varnode_names(t@, symbols@),
{
    let mut r: Vec<Option<String>> = Vec::new();
    let mut i: usize = 0;
    while i < t.len()
        invariant
            i <= t@.len(),
            varnodes_known(t@, symbols@),
            r@.len() == i,
            forall|j: int| 0 <= j < i ==> optional_string_view(#[trigger] r@[j]) == varnode_names(t@, symbols@)[j],
        decreases t@.len() - i,
    {
        match t[i] {
            None => r.push(None),
            Some(id) => {
                assert(t@[i as int] is Some);
                r.push(Some(symbols[id].name().to_owned()));
            },
        }
        assert(optional_string_view(r@[i as int]) == varnode_names(t@, symbols@)[i as int]);
        i = i + 1;
    }
    assert(optional_strings_view(r@) =~= varnode_names(t@, symbols@));
    r
}

fn filled_varnodes(t: &Vec<Option<usize>>, symbols: &Vec<Symbol>) -> (r: (Vec<usize>, Vec<String>))
    requires
        varnodes_known(t@, symbols@),
        forall|i: int| 0 <= i < t@.len() ==> (#[trigger] t@[i]) is Some,
    ensures
        r.0@ == Seq::new(t@.len(), |i: int| t@[i]->0),
        strings_view(r.1@) == Seq::new(t@.len(), |i: int| symbol_name(symbols@[t@[i]->0 as int])),
{
    let mut ids: Vec<usize> = Vec::new();
    let mut names: Vec<String> = Vec::new();
    let mut i: usize = 0;
    while i < t.len()
        invariant
            i <= t@.len(),
            varnodes_known(t@, symbols@),
            forall|j: int| 0 <= j < t@.len() ==> (#[trigger] t@[j]) is Some,
            ids@.len() == i,
            names@.len() == i,
            forall|j: int| 0 <= j < i ==> #[trigger] ids@[j] == t@[j]->0,
            forall|j: int| 0 <= j < i ==> (#[trigger] names@[j])@ == symbol_name(symbols@[t@[j]->0 as int]),
        decreases t@.len() - i,
    {
        assert(t@[i as int] is Some);
        match t[i] {
            Some(id) => {
                ids.push(id);
                names.push(symbols[id].name().to_owned());
            },
            None => {},
        }
        i = i + 1;
    }
    assert(ids@ =~= Seq::new(t@.len(), |i: int| t@[i]->0));
    assert(strings_view(names@) =~= Seq::new(t@.len(), |i: int| symbol_name(symbols@[t@[i]->0 as int])));
    (ids, names)
}

/// Generates the declaration of `symbol` in a lifter (see `symbol_code`).
pub fn generate_symbol(symbol: &Symbol, symbols: &Vec<Symbol>, spaces: &AddressSpaces, depth: usize) -> (r: SymbolCode)
    requires
        symbol_code(*symbol, symbols@, *spaces, depth as nat) is Some,
    ensures
        r@ == symbol_code(*symbol, symbols@, *spaces, depth as nat)->0,
{
    match symbol {
        Symbol::Epsilon { .. } => SymbolCode::Epsilon,
        Symbol::Value { pattern_value, .. } => SymbolCode::Value { pattern: lowered_of(pattern_value, symbols, depth) },
        Symbol::ValueMap { pattern_value, value_table, table_is_filled, .. } => {
            let pattern = lowered_of(pattern_value, symbols, depth);
            if *table_is_filled {
                let mut values: Vec<i64> = Vec::new();
                let mut i: usize = 0;
                while i < value_table.len()
                    invariant
                        i <= value_table@.len(),
                        values@ == value_table@.subrange(0, i as int),
                    decreases value_table@.len() - i,
                {
                    values.push(value_table[i]);
                    i = i + 1;
                    assert(values@ =~= value_table@.subrange(0, i as int));
                }
                assert(value_table@.subrange(0, i as int) =~= value_table@);
                SymbolCode::ValueMapFilled { pattern, values }
            } else {
                let filter = FilterCode {
                    pattern: lowered_of(pattern_value, symbols, depth),
                    unset: crate::codegen::operand::unset_value_positions(value_table),
                    limit: value_table.len(),
                };
                SymbolCode::ValueMap { pattern, filter, values: value_entries(value_table) }
            }
        },
        Symbol::Name { pattern_value, name_table, table_is_filled, .. } => {
            let pattern = lowered_of(pattern_value, symbols, depth);
            let filter = if *table_is_filled {
                None
            } else {
                Some(
                    FilterCode {
                        pattern: lowered_of(pattern_value, symbols, depth),
                        unset: crate::codegen::operand::unset_name_positions(name_table),
                        limit: name_table.len(),
                    },
                )
            };
            SymbolCode::Name { pattern, filter, names: name_entries(name_table) }
        },
        Symbol::Varnode { name, space, offset, size, .. } => SymbolCode::Varnode {
            name: name.as_str().to_owned(),
            space: space.index() as u8,
            offset: *offset,
            size: *size as u16,
        },
        Symbol::VarnodeList { pattern_value, varnode_table, table_is_filled, .. } => {
            let pattern = lowered_of(pattern_value, symbols, depth);
            if *table_is_filled {
                let (varnodes, names) = filled_varnodes(varnode_table, symbols);
                SymbolCode::VarnodeListFilled { pattern, varnodes, names }
            } else {
                let filter = FilterCode {
                    pattern: lowered_of(pattern_value, symbols, depth),
                    unset: crate::codegen::operand::unset_varnode_positions(varnode_table),
                    limit: varnode_table.len(),
                };
                let mut varnodes: Vec<Option<usize>> = Vec::new();
                let mut i: usize = 0;
                while i < varnode_table.len()
                    invariant
                        i <= varnode_table@.len(),
                        varnodes@ == varnode_table@.subrange(0, i as int),
                    decreases varnode_table@.len() - i,
                {
                    varnodes.push(varnode_table[i]);
                    i = i + 1;
                    assert(varnodes@ =~= varnode_table@.subrange(0, i as int));
                }
                assert(varnode_table@.subrange(0, i as int) =~= varnode_table@);
                SymbolCode::VarnodeList { pattern, filter, varnodes, names: varnode_name_entries(varnode_table, symbols) }
            }
        },
        Symbol::Operand { handle_index, .. } => SymbolCode::Operand { handle_index: *handle_index },
        Symbol::Start { .. } => {
            let d = spaces.default_space_ref();
            SymbolCode::Start { space: d.index() as u8, size: d.address_size() as u16 }
        },
        Symbol::End { .. } => {
            let d = spaces.default_space_ref();
            SymbolCode::End { space: d.index() as u8, size: d.address_size() as u16 }
        },
        _ => SymbolCode::Nothing,
    }
}

} // verus!
