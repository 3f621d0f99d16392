use vstd::prelude::*;

use std::sync::Arc;

use crate::disassembly::{SymbolBuilder, SymbolKind};
use crate::sleigh::deserialise::{
    bool_attr, num_attr, same_error, same_result, DeserialiseError, XmlElement,
};
use crate::sleigh::pattern::{bits_ordered, max_value_of, min_value_of, pattern_of, PatternExpression};
use crate::sleigh::space::AddressSpace;
use crate::sleigh::spaces::{first_named_from, AddressSpaces};
use crate::sleigh::subtable::{
    constructor_of, decision_of, Constructor, ConstructorView, DecisionNode, DecisionView,
};
use crate::text::str_eq;

verus! {

/// A symbol of a processor description, read from its element.
#[derive(Debug)]
pub enum Symbol {
    UserOp { id: usize, scope: usize, name: String, index: usize },
    Epsilon { id: usize, scope: usize, name: String },
    Value { id: usize, scope: usize, name: String, pattern_value: PatternExpression },
    ValueMap {
        id: usize,
        scope: usize,
        name: String,
        pattern_value: PatternExpression,
        value_table: Vec<i64>,
        table_is_filled: bool,
    },
    Name {
        id: usize,
        scope: usize,
        name: String,
        pattern_value: PatternExpression,
        name_table: Vec<String>,
        table_is_filled: bool,
    },
    Varnode { id: usize, scope: usize, name: String, space: Arc<AddressSpace>, offset: u64, size: usize },
    Context {
        id: usize,
        scope: usize,
        name: String,
        pattern_value: PatternExpression,
        varnode_id: usize,
        high: usize,
        low: usize,
        flow: bool,
    },
    VarnodeList {
        id: usize,
        scope: usize,
        name: String,
        pattern_value: PatternExpression,
        varnode_table: Vec<Option<usize>>,
        table_is_filled: bool,
    },
    Operand {
        id: usize,
        scope: usize,
        name: String,
        handle_index: usize,
        offset: usize,
        base: Option<usize>,
        min_length: usize,
        subsym_id: Option<usize>,
        is_code: bool,
        local_expr: PatternExpression,
        def_expr: Option<PatternExpression>,
    },
    Start { id: usize, scope: usize, name: String, pattern_value: PatternExpression },
    End { id: usize, scope: usize, name: String, pattern_value: PatternExpression },
    Subtable {
        id: usize,
        scope: usize,
        name: String,
        constructors: Vec<Constructor>,
        decision_tree: DecisionNode,
    },
    FlowDest { id: usize, scope: usize, name: String },
}

/// What a symbol holds, as values.
pub enum SymbolView {
    UserOp { id: usize, scope: usize, name: Seq<char>, index: usize },
    Epsilon { id: usize, scope: usize, name: Seq<char> },
    Value { id: usize, scope: usize, name: Seq<char>, pattern_value: PatternExpression },
    ValueMap {
        id: usize,
        scope: usize,
        name: Seq<char>,
        pattern_value: PatternExpression,
        value_table: Seq<i64>,
        table_is_filled: bool,
    },
    Name {
        id: usize,
        scope: usize,
        name: Seq<char>,
        pattern_value: PatternExpression,
        name_table: Seq<Seq<char>>,
        table_is_filled: bool,
    },
    Varnode { id: usize, scope: usize, name: Seq<char>, space: AddressSpace, offset: u64, size: usize },
    Context {
        id: usize,
        scope: usize,
        name: Seq<char>,
        pattern_value: PatternExpression,
        varnode_id: usize,
        high: usize,
        low: usize,
        flow: bool,
    },
    VarnodeList {
        id: usize,
        scope: usize,
        name: Seq<char>,
        pattern_value: PatternExpression,
        varnode_table: Seq<Option<usize>>,
        table_is_filled: bool,
    },
    Operand {
        id: usize,
        scope: usize,
        name: Seq<char>,
        handle_index: usize,
        offset: usize,
        base: Option<usize>,
        min_length: usize,
        subsym_id: Option<usize>,
        is_code: bool,
        local_expr: PatternExpression,
        def_expr: Option<PatternExpression>,
    },
    Start { id: usize, scope: usize, name: Seq<char>, pattern_value: PatternExpression },
    End { id: usize, scope: usize, name: Seq<char>, pattern_value: PatternExpression },
    Subtable {
        id: usize,
        scope: usize,
        name: Seq<char>,
        constructors: Seq<ConstructorView>,
        decision_tree: DecisionView,
    },
    FlowDest { id: usize, scope: usize, name: Seq<char> },
}

/// The names `v` as values.
pub open spec fn strings_view(v: Seq<String>) -> Seq<Seq<char>> {
    Seq::new(v.len(), |i: int| v[i]@)
}

/// The constructors `v` as values.
pub open spec fn constructors_view(v: Seq<Constructor>) -> Seq<ConstructorView> {
    Seq::new(v.len(), |i: int| v[i]@)
}

impl View for Symbol {
    type V = SymbolView;

    open spec fn view(&self) -> SymbolView {
        match self {
            Symbol::UserOp { id, scope, name, index } => SymbolView::UserOp {
                id: *id,
                scope: *scope,
                name: name@,
                index: *index,
            },
            Symbol::Epsilon { id, scope, name } => SymbolView::Epsilon { id: *id, scope: *scope, name: name@ },
            Symbol::Value { id, scope, name, pattern_value } => SymbolView::Value {
                id: *id,
                scope: *scope,
                name: name@,
                pattern_value: *pattern_value,
            },
            Symbol::ValueMap { id, scope, name, pattern_value, value_table, table_is_filled } =>
                SymbolView::ValueMap {
                id: *id,
                scope: *scope,
                name: name@,
                pattern_value: *pattern_value,
                value_table: value_table@,
                table_is_filled: *table_is_filled,
            },
            Symbol::Name { id, scope, name, pattern_value, name_table, table_is_filled } => SymbolView::Name {
                id: *id,
                scope: *scope,
                name: name@,
                pattern_value: *pattern_value,
                name_table: strings_view(name_table@),
                table_is_filled: *table_is_filled,
            },
            Symbol::Varnode { id, scope, name, space, offset, size } => SymbolView::Varnode {
                id: *id,
                scope: *scope,
                name: name@,
                space: **space,
                offset: *offset,
                size: *size,
            },
            Symbol::Context { id, scope, name, pattern_value, varnode_id, high, low, flow } =>
                SymbolView::Context {
                id: *id,
                scope: *scope,
                name: name@,
                pattern_value: *pattern_value,
                varnode_id: *varnode_id,
                high: *high,
                low: *low,
                flow: *flow,
            },
            Symbol::VarnodeList { id, scope, name, pattern_value, varnode_table, table_is_filled } =>
                SymbolView::VarnodeList {
                id: *id,
                scope: *scope,
                name: name@,
                pattern_value: *pattern_value,
                varnode_table: varnode_table@,
                table_is_filled: *table_is_filled,
            },
            Symbol::Operand {
                id,
                scope,
                name,
                handle_index,
                offset,
                base,
                min_length,
                subsym_id,
                is_code,
                local_expr,
                def_expr,
            } => SymbolView::Operand {
                id: *id,
                scope: *scope,
                name: name@,
                handle_index: *handle_index,
                offset: *offset,
                base: *base,
                min_length: *min_length,
                subsym_id: *subsym_id,
                is_code: *is_code,
                local_expr: *local_expr,
                def_expr: *def_expr,
            },
            Symbol::Start { id, scope, name, pattern_value } => SymbolView::Start {
                id: *id,
                scope: *scope,
                name: name@,
                pattern_value: *pattern_value,
            },
            Symbol::End { id, scope, name, pattern_value } => SymbolView::End {
                id: *id,
                scope: *scope,
                name: name@,
                pattern_value: *pattern_value,
            },
            Symbol::Subtable { id, scope, name, constructors, decision_tree } => SymbolView::Subtable {
                id: *id,
                scope: *scope,
                name: name@,
                constructors: constructors_view(constructors@),
                decision_tree: decision_tree@,
            },
            Symbol::FlowDest { id, scope, name } => SymbolView::FlowDest { id: *id, scope: *scope, name: name@ },
        }
    }
}

/// The tag of the element of a symbol of kind `k`.
pub open spec fn kind_tag(k: SymbolKind) -> Seq<char> {
    match k {
        SymbolKind::UserOp => "userop"@,
        SymbolKind::Epsilon => "epsilon"@,
        SymbolKind::Value => "value_sym"@,
        SymbolKind::ValueMap => "valuemap_sym"@,
        SymbolKind::Name => "name_sym"@,
        SymbolKind::Varnode => "varnode_sym"@,
        SymbolKind::Context => "context_sym"@,
        SymbolKind::VarnodeList => "varlist_sym"@,
        SymbolKind::Operand => "operand_sym"@,
        SymbolKind::Start => "start_sym"@,
        SymbolKind::End => "end_sym"@,
        SymbolKind::Subtable => "subtable_sym"@,
        SymbolKind::FlowDest => "flowdest_sym"@,
        SymbolKind::FlowRef => "flowref_sym"@,
    }
}

/// The first child element of `input` read as a pattern expression;
/// `Invariant(missing)` where it has none.
pub open spec fn first_pattern(input: &XmlElement, missing: &'static str) -> Result<PatternExpression, DeserialiseError> {
    if input.children@.len() == 0 {
        Err(DeserialiseError::Invariant(missing))
    } else {
        pattern_of(&input.children@[0])
    }
}

/// The `val` attributes (as `i64`) of the children of `cs` from the second
/// up to the `n`-th; the first error stops.
pub open spec fn value_table(cs: Seq<XmlElement>, n: int) -> Result<Seq<i64>, DeserialiseError>
    decreases n,
{
    if n <= 1 {
        Ok(Seq::empty())
    } else {
        match value_table(cs, n - 1) {
            Err(e) => Err(e),
            Ok(t) => match num_attr::<i64>(&cs[n - 1], "val") {
                Err(e) => Err(e),
                Ok(v) => Ok(t.push(v as i64)),
            },
        }
    }
}

/// The name an entry of a name table gives: its `name` attribute, with a
/// tab where it is missing or is `_`.
pub open spec fn name_entry(c: &XmlElement) -> Seq<char> {
    let s = match c.spec_attr("name"@) {
        Some(v) => v,
        None => "\t"@,
    };
    if s == "_"@ {
        "\t"@
    } else {
        s
    }
}

/// The names of the children of `cs` after the first.
pub open spec fn name_table(cs: Seq<XmlElement>) -> Seq<Seq<char>> {
    if cs.len() == 0 {
        Seq::empty()
    } else {
        Seq::new((cs.len() - 1) as nat, |i: int| name_entry(&cs[i + 1]))
    }
}

/// The entries of a varnode list from the children of `cs`, from the second
/// up to the `n`-th: the `id` of a `var` element, nothing for another
/// element; the first error stops.
pub open spec fn varnode_table(cs: Seq<XmlElement>, n: int) -> Result<Seq<Option<usize>>, DeserialiseError>
    decreases n,
{
    if n <= 1 {
        Ok(Seq::empty())
    } else {
        match varnode_table(cs, n - 1) {
            Err(e) => Err(e),
            Ok(t) => if cs[n - 1].tag@ == "var"@ {
                match num_attr::<usize>(&cs[n - 1], "id") {
                    Err(e) => Err(e),
                    Ok(v) => Ok(t.push(Some(v as usize))),
                }
            } else {
                Ok(t.push(None))
            },
        }
    }
}

/// Whether a table of `len` entries indexed by `p` is filled: the least
/// value of `p` is at least zero, its greatest value is below `len`, and
/// `complete` holds; `Invariant` where `p` has no bounds.
pub open spec fn table_filled(p: PatternExpression, len: int, complete: bool) -> Result<bool, DeserialiseError> {
    match min_value_of(&p) {
        None => Err(DeserialiseError::Invariant("invalid pattern")),
        Some(min) => match max_value_of(&p) {
            None => Err(DeserialiseError::Invariant("invalid pattern")),
            Some(max) => Ok(min >= 0 && max < (len as i64) && complete),
        },
    }
}

/// The constructors and the decision tree read from the first `n` children
/// `cs` of a subtable numbered `id`: a `constructor` element is read as the
/// next constructor of the table, the first `decision` element as the tree
/// (a second one is an error); other elements are skipped.  `None` where a
/// constructor or a tree cannot be read here (see `constructor_of` and
/// `decision_of`).
pub open spec fn subtable_parts(id: usize, cs: Seq<XmlElement>, spaces: &AddressSpaces, n: int) -> Option<
    Result<(Seq<ConstructorView>, Option<DecisionView>), DeserialiseError>,
>
    decreases n,
{
    if n <= 0 {
        Some(Ok((Seq::empty(), None)))
    } else {
        match subtable_parts(id, cs, spaces, n - 1) {
            None => None,
            Some(Err(e)) => Some(Err(e)),
            Some(Ok((cons, dec))) => {
                let c = &cs[n - 1];
                if c.tag@ == "constructor"@ {
                    if cons.len() > usize::MAX {
                        None
                    } else {
                        match constructor_of(c, (id, cons.len() as usize), spaces) {
                            None => None,
                            Some(Err(e)) => Some(Err(e)),
                            Some(Ok(v)) => Some(Ok((cons.push(v), dec))),
                        }
                    }
                } else if c.tag@ == "decision"@ {
                    if dec is Some {
                        Some(Err(DeserialiseError::Invariant("redefintion of root decision tree node")))
                    } else {
                        match decision_of(c) {
                            None => None,
                            Some(Err(e)) => Some(Err(e)),
                            Some(Ok(d)) => Some(Ok((cons, Some(d)))),
                        }
                    }
                } else {
                    Some(Ok((cons, dec)))
                }
            },
        }
    }
}

/// The body of a symbol of the header `b`, read from `input` as its kind
/// goes (see `symbol_of`); `None` where reading is undefined: a table whose
/// pattern has its bits out of order, or a constructor or decision tree
/// that cannot be read here.
pub open spec fn symbol_body(b: (SymbolKind, usize, usize, Seq<char>), spaces: &AddressSpaces, input: &XmlElement) -> Option<
    Result<SymbolView, DeserialiseError>,
> {
    let id = b.1;
    let scope = b.2;
    let name = b.3;
    let cs = input.children@;
    match b.0 {
        SymbolKind::UserOp => Some(
            match num_attr::<usize>(input, "index") {
                Err(e) => Err(e),
                Ok(index) => Ok(SymbolView::UserOp { id, scope, name, index: index as usize }),
            },
        ),
        SymbolKind::Epsilon => Some(Ok(SymbolView::Epsilon { id, scope, name })),
        SymbolKind::Value => Some(
            match first_pattern(input, "missing pattern expression for value") {
                Err(e) => Err(e),
                Ok(pattern_value) => Ok(SymbolView::Value { id, scope, name, pattern_value }),
            },
        ),
        SymbolKind::ValueMap => match first_pattern(input, "missing pattern expression for name") {
            Err(e) => Some(Err(e)),
            Ok(p) => match value_table(cs, cs.len() as int) {
                Err(e) => Some(Err(e)),
                Ok(t) => if min_value_of(&p) is Some && !bits_ordered(&p) {
                    None
                } else {
                    match table_filled(p, t.len() as int, forall|i: int| 0 <= i < t.len() ==> t[i] != 0xbadbeef) {
                        Err(e) => Some(Err(e)),
                        Ok(f) => Some(
                            Ok(
                                SymbolView::ValueMap {
                                    id,
                                    scope,
                                    name,
                                    pattern_value: p,
                                    value_table: t,
                                    table_is_filled: f,
                                },
                            ),
                        ),
                    }
                },
            },
        },
        SymbolKind::Name => match first_pattern(input, "missing pattern expression for value") {
            Err(e) => Some(Err(e)),
            Ok(p) => {
                let t = name_table(cs);
                if min_value_of(&p) is Some && !bits_ordered(&p) {
                    None
                } else {
                    match table_filled(p, t.len() as int, forall|i: int| 0 <= i < t.len() ==> t[i] != "\t"@) {
                        Err(e) => Some(Err(e)),
                        Ok(f) => Some(
                            Ok(
                                SymbolView::Name {
                                    id,
                                    scope,
                                    name,
                                    pattern_value: p,
                                    name_table: t,
                                    table_is_filled: f,
                                },
                            ),
                        ),
                    }
                }
            },
        },
        SymbolKind::Varnode => Some(
            match input.spec_attr("space"@) {
                None => Err(DeserialiseError::AttributeExpected("space")),
                Some(sn) => {
                    let k = first_named_from(spaces, sn, 0);
                    if k == -1 {
                        Err(DeserialiseError::Invariant("varnode space not defined"))
                    } else {
                        match num_attr::<u64>(input, "offset") {
                            Err(e) => Err(e),
                            Ok(offset) => match num_attr::<usize>(input, "size") {
                                Err(e) => Err(e),
                                Ok(size) => Ok(
                                    SymbolView::Varnode {
                                        id,
                                        scope,
                                        name,
                                        space: spaces.spec_space(k),
                                        offset: offset as u64,
                                        size: size as usize,
                                    },
                                ),
                            },
                        }
                    }
                },
            },
        ),
        SymbolKind::Context => Some(
            match first_pattern(input, "missing pattern expression for context") {
                Err(e) => Err(e),
                Ok(p) => match num_attr::<usize>(input, "varnode") {
                    Err(e) => Err(e),
                    Ok(varnode_id) => match num_attr::<usize>(input, "high") {
                        Err(e) => Err(e),
                        Ok(high) => match num_attr::<usize>(input, "low") {
                            Err(e) => Err(e),
                            Ok(low) => match bool_attr(input, "flow") {
                                Err(e) => Err(e),
                                Ok(flow) => Ok(
                                    SymbolView::Context {
                                        id,
                                        scope,
                                        name,
                                        pattern_value: p,
                                        varnode_id: varnode_id as usize,
                                        high: high as usize,
                                        low: low as usize,
                                        flow,
                                    },
                                ),
                            },
                        },
                    },
                },
            },
        ),
        SymbolKind::VarnodeList => match first_pattern(input, "missing pattern expression for varnodelist") {
            Err(e) => Some(Err(e)),
            Ok(p) => match varnode_table(cs, cs.len() as int) {
                Err(e) => Some(Err(e)),
                Ok(t) => if min_value_of(&p) is Some && !bits_ordered(&p) {
                    None
                } else {
                    match table_filled(p, t.len() as int, forall|i: int| 0 <= i < t.len() ==> t[i] is Some) {
                        Err(e) => Some(Err(e)),
                        Ok(f) => Some(
                            Ok(
                                SymbolView::VarnodeList {
                                    id,
                                    scope,
                                    name,
                                    pattern_value: p,
                                    varnode_table: t,
                                    table_is_filled: f,
                                },
                            ),
                        ),
                    }
                },
            },
        },
        SymbolKind::Operand => Some(operand_of(b, input)),
        SymbolKind::Start => Some(
            Ok(SymbolView::Start { id, scope, name, pattern_value: PatternExpression::StartInstruction }),
        ),
        SymbolKind::End => Some(
            Ok(SymbolView::End { id, scope, name, pattern_value: PatternExpression::EndInstruction }),
        ),
        SymbolKind::FlowDest => Some(Ok(SymbolView::FlowDest { id, scope, name })),
        SymbolKind::FlowRef => Some(Ok(SymbolView::FlowDest { id, scope, name })),
        SymbolKind::Subtable => match subtable_parts(id, cs, spaces, cs.len() as int) {
            None => None,
            Some(Err(e)) => Some(Err(e)),
            Some(Ok((constructors, dec))) => match dec {
                None => Some(Err(DeserialiseError::Invariant("missing decision tree for subtable"))),
                Some(decision_tree) => Some(
                    Ok(SymbolView::Subtable { id, scope, name, constructors, decision_tree }),
                ),
            },
        },
    }
}

/// The operand symbol of the header `b` read from `input`: its `index`,
/// `off`, `base` (a negative base is none), `minlen`, optional `subsym` and
/// optional `code` attributes in that order, then its local expression
/// (the first child) and its optional defining expression (the second).
pub open spec fn operand_of(b: (SymbolKind, usize, usize, Seq<char>), input: &XmlElement) -> Result<SymbolView, DeserialiseError> {
    let cs = input.children@;
    match num_attr::<usize>(input, "index") {
        Err(e) => Err(e),
        Ok(handle_index) => match num_attr::<usize>(input, "off") {
            Err(e) => Err(e),
            Ok(offset) => match num_attr::<i64>(input, "base") {
                Err(e) => Err(e),
                Ok(base) => match num_attr::<usize>(input, "minlen") {
                    Err(e) => Err(e),
                    Ok(min_length) => match (if input.spec_attr("subsym"@) is None {
                        Ok(None::<usize>)
                    } else {
                        match num_attr::<usize>(input, "subsym") {
                            Err(e) => Err(e),
                            Ok(v) => Ok(Some(v as usize)),
                        }
                    }) {
                        Err(e) => Err(e),
                        Ok(subsym_id) => match (if input.spec_attr("code"@) is None {
                            Ok(false)
                        } else {
                            bool_attr(input, "code")
                        }) {
                            Err(e) => Err(e),
                            Ok(is_code) => match first_pattern(input, "missing local expression for operand") {
                                Err(e) => Err(e),
                                Ok(local_expr) => match (if cs.len() < 2 {
                                    Ok(None::<PatternExpression>)
                                } else {
                                    match pattern_of(&cs[1]) {
                                        Err(e) => Err(e),
                                        Ok(d) => Ok(Some(d)),
                                    }
                                }) {
                                    Err(e) => Err(e),
                                    Ok(def_expr) => Ok(
                                        SymbolView::Operand {
                                            id: b.1,
                                            scope: b.2,
                                            name: b.3,
                                            handle_index: handle_index as usize,
                                            offset: offset as usize,
                                            base: if base < 0 {
                                                None
                                            } else {
                                                Some(base as usize)
                                            },
                                            min_length: min_length as usize,
                                            subsym_id,
                                            is_code,
                                            local_expr,
                                            def_expr,
                                        },
                                    ),
                                },
                            },
                        },
                    },
                },
            },
        },
    }
}

/// What reading the element `input` as a symbol with the header `b` (the
/// view of a `SymbolBuilder`) gives:
/// `TagUnexpected` (with the tag) where the tag is not the kind's, else the
/// body as `symbol_body` reads it.
pub open spec fn symbol_of(b: (SymbolKind, usize, usize, Seq<char>), spaces: &AddressSpaces, input: &XmlElement) -> Option<
    Result<SymbolView, DeserialiseError>,
> {
    if input.tag@ != kind_tag(b.0) {
        Some(Err(DeserialiseError::TagUnexpected(input.tag)))
    } else {
        symbol_body(b, spaces, input)
    }
}

/// Once reading a value table fails, reading more fails the same way.
proof fn lemma_value_table_stops(cs: Seq<XmlElement>, k: int, n: int)
    requires
        k <= n,
        value_table(cs, k) is Err,
    ensures
        value_table(cs, n) == value_table(cs, k),
    decreases n - k,
{
    if n > k {
        lemma_value_table_stops(cs, k, n - 1);
    }
}

/// Once reading a varnode table fails, reading more fails the same way.
proof fn lemma_varnode_table_stops(cs: Seq<XmlElement>, k: int, n: int)
    requires
        k <= n,
        varnode_table(cs, k) is Err,
    ensures
        varnode_table(cs, n) == varnode_table(cs, k),
    decreases n - k,
{
    if n > k {
        lemma_varnode_table_stops(cs, k, n - 1);
    }
}

/// Reading the parts of a subtable is undefined from the first child on
/// which it is, and fails from the first child on which it fails.
proof fn lemma_subtable_parts_stops(id: usize, cs: Seq<XmlElement>, spaces: &AddressSpaces, k: int, n: int)
    requires
        0 <= k <= n,
        subtable_parts(id, cs, spaces, k) is None || subtable_parts(id, cs, spaces, k)->0 is Err,
    ensures
        subtable_parts(id, cs, spaces, n) == subtable_parts(id, cs, spaces, k),
    decreases n - k,
{
    if n > k {
        lemma_subtable_parts_stops(id, cs, spaces, k, n - 1);
    }
}

/// The tag of the element of a symbol of kind `k`.
fn kind_tag_str(k: SymbolKind) -> (r: &'static str)
    ensures
        r@ == kind_tag(k),
{
    match k {
        SymbolKind::UserOp => "userop",
        SymbolKind::Epsilon => "epsilon",
        SymbolKind::Value => "value_sym",
        SymbolKind::ValueMap => "valuemap_sym",
        SymbolKind::Name => "name_sym",
        SymbolKind::Varnode => "varnode_sym",
        SymbolKind::Context => "context_sym",
        SymbolKind::VarnodeList => "varlist_sym",
        SymbolKind::Operand => "operand_sym",
        SymbolKind::Start => "start_sym",
        SymbolKind::End => "end_sym",
        SymbolKind::Subtable => "subtable_sym",
        SymbolKind::FlowDest => "flowdest_sym",
        SymbolKind::FlowRef => "flowref_sym",
    }
}

/// Reads the first child of `input` as a pattern expression (see
/// `first_pattern`).
fn read_first_pattern(input: &XmlElement, missing: &'static str) -> (r: Result<PatternExpression, DeserialiseError>)
    ensures
        same_result(r, first_pattern(input, missing)),
{
    if input.children.len() == 0 {
        Err(DeserialiseError::Invariant(missing))
    } else {
        PatternExpression::from_xml(&input.children[0])
    }
}

/// Reads the value table of a value map (see `value_table`).
fn read_value_table(input: &XmlElement) -> (r: Result<Vec<i64>, DeserialiseError>)
    ensures
        match value_table(input.children@, input.children@.len() as int) {
            Ok(t) => r is Ok && r->Ok_0@ == t,
            Err(e) => r == Err::<Vec<i64>, DeserialiseError>(e),
        },
{
    let cs = &input.children;
    let n = cs.len();
    let mut t: Vec<i64> = Vec::new();
    if n == 0 {
        return Ok(t);
    }
    let mut i: usize = 1;
    while i < n
        invariant
            1 <= i <= n,
            n == cs@.len(),
            cs == &input.children,
            value_table(cs@, i as int) == Ok::<Seq<i64>, DeserialiseError>(t@),
        decreases n - i,
    {
        match cs[i].attribute_int::<i64>("val") {
            Ok(v) => {
                t.push(v);
            },
            Err(e) => {
                proof {
                    lemma_value_table_stops(cs@, i + 1, n as int);
                }
                return Err(e);
            },
        }
        i = i + 1;
    }
    Ok(t)
}

/// Reads the name table of a name symbol (see `name_table`).
fn read_name_table(input: &XmlElement) -> (r: Vec<String>)
    ensures
        strings_view(r@) == name_table(input.children@),
{
    let cs = &input.children;
    let n = cs.len();
    let mut t: Vec<String> = Vec::new();
    if n == 0 {
        proof {
            assert(strings_view(t@) =~= name_table(cs@));
        }
        return t;
    }
    let mut i: usize = 1;
    while i < n
        invariant
            1 <= i <= n,
            n == cs@.len(),
            cs == &input.children,
            t@.len() == i - 1,
            forall|j: int| 0 <= j < i - 1 ==> #[trigger] t@[j]@ == name_entry(&cs@[j + 1]),
        decreases n - i,
    {
        let mut s = cs[i].attribute_string_opt("name", "\t");
        if str_eq(s.as_str(), "_") {
            s = "\t".to_owned();
        }
        t.push(s);
        i = i + 1;
    }
    proof {
        assert(strings_view(t@) =~= name_table(cs@));
    }
    t
}

/// Reads the table of a varnode list (see `varnode_table`).
fn read_varnode_table(input: &XmlElement) -> (r: Result<Vec<Option<usize>>, DeserialiseError>)
    ensures
        match varnode_table(input.children@, input.children@.len() as int) {
            Ok(t) => r is Ok && r->Ok_0@ == t,
            Err(e) => r == Err::<Vec<Option<usize>>, DeserialiseError>(e),
        },
{
    let cs = &input.children;
    let n = cs.len();
    let mut t: Vec<Option<usize>> = Vec::new();
    if n == 0 {
        return Ok(t);
    }
    let mut i: usize = 1;
    while i < n
        invariant
            1 <= i <= n,
            n == cs@.len(),
            cs == &input.children,
            varnode_table(cs@, i as int) == Ok::<Seq<Option<usize>>, DeserialiseError>(t@),
        decreases n - i,
    {
        if str_eq(cs[i].tag_name(), "var") {
            match cs[i].attribute_int::<usize>("id") {
                Ok(v) => {
                    t.push(Some(v));
                },
                Err(e) => {
                    proof {
                        lemma_varnode_table_stops(cs@, i + 1, n as int);
                    }
                    return Err(e);
                },
            }
        } else {
            t.push(None);
        }
        i = i + 1;
    }
    Ok(t)
}

/// Whether a table of `len` entries indexed by `p` is filled (see
/// `table_filled`).
fn table_flag(p: &PatternExpression, len: usize, complete: bool) -> (r: Result<bool, DeserialiseError>)
    requires
        min_value_of(p) is Some ==> bits_ordered(p),
    ensures
        r == table_filled(*p, len as int, complete),
{
    let min = match p.min_value() {
        Some(v) => v,
        None => {
            return Err(DeserialiseError::Invariant("invalid pattern"));
        },
    };
    let max = match p.max_value() {
        Some(v) => v,
        None => {
            return Err(DeserialiseError::Invariant("invalid pattern"));
        },
    };
    Ok(min >= 0 && max < (len as i64) && complete)
}

/// Reads the constructors and the decision tree of a subtable numbered
/// `id` (see `subtable_parts`).
#[verifier::spinoff_prover]
#[verifier::rlimit(60)]
fn read_subtable(id: usize, spaces: &AddressSpaces, input: &XmlElement) -> (r: Result<
    (Vec<Constructor>, DecisionNode),
    DeserialiseError,
>)
    requires
        subtable_parts(id, input.children@, spaces, input.children@.len() as int) is Some,
    ensures
        match subtable_parts(id, input.children@, spaces, input.children@.len() as int)->0 {
            Err(e) => r is Err && same_error(r->Err_0, e),
            Ok((cons, dec)) => match dec {
                None => r == Err::<(Vec<Constructor>, DecisionNode), DeserialiseError>(
                    DeserialiseError::Invariant("missing decision tree for subtable"),
                ),
                Some(d) => r is Ok && constructors_view(r->Ok_0.0@) == cons && r->Ok_0.1@ == d,
            },
        },
{
    let cs = &input.children;
    let n = cs.len();
    let mut constructors: Vec<Constructor> = Vec::new();
    let mut decision: Option<DecisionNode> = None;
    let mut i: usize = 0;
    proof {
        assert(constructors_view(constructors@) =~= Seq::<ConstructorView>::empty());
    }
    while i < n
        invariant
            i <= n,
            n == cs@.len(),
            cs == &input.children,
            subtable_parts(id, cs@, spaces, n as int) is Some,
            subtable_parts(id, cs@, spaces, i as int) == Some(
                Ok::<(Seq<ConstructorView>, Option<DecisionView>), DeserialiseError>(
                    (
                        constructors_view(constructors@),
                        match decision {
                            Some(d) => Some(d@),
                            None => None,
                        },
                    ),
                ),
            ),
        decreases n - i,
    {
        let c = &cs[i];
        proof {
            if subtable_parts(id, cs@, spaces, i + 1) is None {
                lemma_subtable_parts_stops(id, cs@, spaces, i + 1, n as int);
            }
        }
        if str_eq(c.tag_name(), "constructor") {
            let k = constructors.len();
            match Constructor::from_xml(c, (id, k), spaces) {
                Ok(v) => {
                    let ghost before = constructors@;
                    constructors.push(v);
                    proof {
                        assert(constructors_view(constructors@) =~= constructors_view(before).push(v@));
                    }
                },
                Err(e) => {
                    proof {
                        lemma_subtable_parts_stops(id, cs@, spaces, i + 1, n as int);
                    }
                    return Err(e);
                },
            }
        } else if str_eq(c.tag_name(), "decision") {
            if decision.is_some() {
                proof {
                    lemma_subtable_parts_stops(id, cs@, spaces, i + 1, n as int);
                }
                return Err(DeserialiseError::Invariant("redefintion of root decision tree node"));
            }
            match DecisionNode::from_xml(c) {
                Ok(d) => {
                    decision = Some(d);
                },
                Err(e) => {
                    proof {
                        lemma_subtable_parts_stops(id, cs@, spaces, i + 1, n as int);
                    }
                    return Err(e);
                },
            }
        }
        i = i + 1;
    }
    match decision {
        Some(d) => Ok((constructors, d)),
        None => Err(DeserialiseError::Invariant("missing decision tree for subtable")),
    }
}

/// Whether no entry of `t` is the placeholder `0xbadbeef`.
fn values_complete(t: &Vec<i64>) -> (r: bool)
    ensures
        r == forall|i: int| 0 <= i < t@.len() ==> t@[i] != 0xbadbeef,
{
    let mut i: usize = 0;
    while i < t.len()
        invariant
            i <= t@.len(),
            forall|j: int| 0 <= j < i ==> t@[j] != 0xbadbeef,
        decreases t@.len() - i,
    {
        if t[i] == 0xbadbeef {
            return false;
        }
        i = i + 1;
    }
    true
}

/// Whether no entry of `t` is the placeholder tab.
fn names_complete(t: &Vec<String>) -> (r: bool)
    ensures
        r == forall|i: int| 0 <= i < t@.len() ==> t@[i]@ != "\t"@,
{
    let mut i: usize = 0;
    while i < t.len()
        invariant
            i <= t@.len(),
            forall|j: int| 0 <= j < i ==> t@[j]@ != "\t"@,
        decreases t@.len() - i,
    {
        if str_eq(t[i].as_str(), "\t") {
            return false;
        }
        i = i + 1;
    }
    true
}

/// Whether every entry of `t` names a varnode.
fn varnodes_complete(t: &Vec<Option<usize>>) -> (r: bool)
    ensures
        r == forall|i: int| 0 <= i < t@.len() ==> t@[i] is Some,
{
    let mut i: usize = 0;
    while i < t.len()
        invariant
            i <= t@.len(),
            forall|j: int| 0 <= j < i ==> t@[j] is Some,
        decreases t@.len() - i,
    {
        if t[i].is_none() {
            return false;
        }
        i = i + 1;
    }
    true
}

/// Reads an operand symbol (see `operand_of`).
fn read_operand(id: usize, scope: usize, name: String, input: &XmlElement) -> (r: Result<Symbol, DeserialiseError>)
    ensures
        match operand_of((SymbolKind::Operand, id, scope, name@), input) {
            Ok(v) => r is Ok && r->Ok_0@ == v,
            Err(e) => r is Err && same_error(r->Err_0, e),
        },
{
    let handle_index: usize = match input.attribute_int("index") {
        Ok(v) => v,
        Err(e) => {
            return Err(e);
        },
    };
    let offset: usize = match input.attribute_int("off") {
        Ok(v) => v,
        Err(e) => {
            return Err(e);
        },
    };
    let base: Option<usize> = match input.attribute_int::<i64>("base") {
        Ok(v) => if v < 0 {
            None
        } else {
            Some(v as usize)
        },
        Err(e) => {
            return Err(e);
        },
    };
    let min_length: usize = match input.attribute_int("minlen") {
        Ok(v) => v,
        Err(e) => {
            return Err(e);
        },
    };
    let subsym_id: Option<usize> = if input.attribute("subsym").is_none() {
        None
    } else {
        match input.attribute_int("subsym") {
            Ok(v) => Some(v),
            Err(e) => {
                return Err(e);
            },
        }
    };
    let is_code = if input.attribute("code").is_none() {
        false
    } else {
        match input.attribute_bool("code") {
            Ok(v) => v,
            Err(e) => {
                return Err(e);
            },
        }
    };
    let local_expr = match read_first_pattern(input, "missing local expression for operand") {
        Ok(v) => v,
        Err(e) => {
            return Err(e);
        },
    };
    let def_expr = if input.children.len() < 2 {
        None
    } else {
        match PatternExpression::from_xml(&input.children[1]) {
            Ok(v) => Some(v),
            Err(e) => {
                return Err(e);
            },
        }
    };
    Ok(
        Symbol::Operand {
            id,
            scope,
            name,
            handle_index,
            offset,
            base,
            min_length,
            subsym_id,
            is_code,
            local_expr,
            def_expr,
        },
    )
}

/// Reads a varnode symbol, its space looked up by name in `spaces`.
fn read_varnode(id: usize, scope: usize, name: String, spaces: &AddressSpaces, input: &XmlElement) -> (r:
    Result<Symbol, DeserialiseError>)
    ensures
        match symbol_body((SymbolKind::Varnode, id, scope, name@), spaces, input)->0 {
            Ok(v) => r is Ok && r->Ok_0@ == v,
            Err(e) => r is Err && same_error(r->Err_0, e),
        },
{
    let space_name = match input.attribute("space") {
        Some(v) => v,
        None => {
            return Err(DeserialiseError::AttributeExpected("space"));
        },
    };
    let space = match spaces.space_by_name(space_name) {
        Some(s) => s,
        None => {
            return Err(DeserialiseError::Invariant("varnode space not defined"));
        },
    };
    let offset: u64 = match input.attribute_int("offset") {
        Ok(v) => v,
        Err(e) => {
            return Err(e);
        },
    };
    let size: usize = match input.attribute_int("size") {
        Ok(v) => v,
        Err(e) => {
            return Err(e);
        },
    };
    Ok(Symbol::Varnode { id, scope, name, space, offset, size })
}

/// Reads a context symbol.
fn read_context(id: usize, scope: usize, name: String, spaces: &AddressSpaces, input: &XmlElement) -> (r:
    Result<Symbol, DeserialiseError>)
    ensures
        match symbol_body((SymbolKind::Context, id, scope, name@), spaces, input)->0 {
            Ok(v) => r is Ok && r->Ok_0@ == v,
            Err(e) => r is Err && same_error(r->Err_0, e),
        },
{
    let pattern_value = match read_first_pattern(input, "missing pattern expression for context") {
        Ok(v) => v,
        Err(e) => {
            return Err(e);
        },
    };
    let varnode_id: usize = match input.attribute_int("varnode") {
        Ok(v) => v,
        Err(e) => {
            return Err(e);
        },
    };
    let high: usize = match input.attribute_int("high") {
        Ok(v) => v,
        Err(e) => {
            return Err(e);
        },
    };
    let low: usize = match input.attribute_int("low") {
        Ok(v) => v,
        Err(e) => {
            return Err(e);
        },
    };
    let flow = match input.attribute_bool("flow") {
        Ok(v) => v,
        Err(e) => {
            return Err(e);
        },
    };
    Ok(Symbol::Context { id, scope, name, pattern_value, varnode_id, high, low, flow })
}

/// Reads the body of a value map symbol.
#[verifier::spinoff_prover]
fn read_value_map(id: usize, scope: usize, name: String, spaces: &AddressSpaces, input: &XmlElement) -> (r: Result<
    Symbol,
    DeserialiseError,
>)
    requires
        symbol_body((SymbolKind::ValueMap, id, scope, name@), spaces, input) is Some,
    ensures
        match symbol_body((SymbolKind::ValueMap, id, scope, name@), spaces, input)->0 {
            Ok(v) => r is Ok && r->Ok_0@ == v,
            Err(e) => r is Err && same_error(r->Err_0, e),
        },
{
    let p = match read_first_pattern(input, "missing pattern expression for name") {
        Ok(v) => v,
        Err(e) => {
            return Err(e);
        },
    };
    let value_table = match read_value_table(input) {
        Ok(v) => v,
        Err(e) => {
            return Err(e);
        },
    };
    let complete = values_complete(&value_table);
    let table_is_filled = match table_flag(&p, value_table.len(), complete) {
        Ok(v) => v,
        Err(e) => {
            return Err(e);
        },
    };
    Ok(Symbol::ValueMap { id, scope, name, pattern_value: p, value_table, table_is_filled })
}

/// Reads the body of a name symbol.
#[verifier::spinoff_prover]
fn read_name_symbol(id: usize, scope: usize, name: String, spaces: &AddressSpaces, input: &XmlElement) -> (r: Result<
    Symbol,
    DeserialiseError,
>)
    requires
        symbol_body((SymbolKind::Name, id, scope, name@), spaces, input) is Some,
    ensures
        match symbol_body((SymbolKind::Name, id, scope, name@), spaces, input)->0 {
            Ok(v) => r is Ok && r->Ok_0@ == v,
            Err(e) => r is Err && same_error(r->Err_0, e),
        },
{
    let p = match read_first_pattern(input, "missing pattern expression for value") {
        Ok(v) => v,
        Err(e) => {
            return Err(e);
        },
    };
    let name_table = read_name_table(input);
    let complete = names_complete(&name_table);
    proof {
        let sv = strings_view(name_table@);
        if complete {
            assert forall|i: int| 0 <= i < sv.len() implies sv[i] != "\t"@ by {
                assert(sv[i] == name_table@[i]@);
            }
        } else {
            let k = choose|i: int| 0 <= i < name_table@.len() && name_table@[i]@ == "\t"@;
            assert(sv[k] == name_table@[k]@);
        }
    }
    let table_is_filled = match table_flag(&p, name_table.len(), complete) {
        Ok(v) => v,
        Err(e) => {
            return Err(e);
        },
    };
    Ok(Symbol::Name { id, scope, name, pattern_value: p, name_table, table_is_filled })
}

/// Reads the body of a varnode list symbol.
#[verifier::spinoff_prover]
fn read_varnode_list(id: usize, scope: usize, name: String, spaces: &AddressSpaces, input: &XmlElement) -> (r: Result<
    Symbol,
    DeserialiseError,
>)
    requires
        symbol_body((SymbolKind::VarnodeList, id, scope, name@), spaces, input) is Some,
    ensures
        match symbol_body((SymbolKind::VarnodeList, id, scope, name@), spaces, input)->0 {
            Ok(v) => r is Ok && r->Ok_0@ == v,
            Err(e) => r is Err && same_error(r->Err_0, e),
        },
{
    let p = match read_first_pattern(input, "missing pattern expression for varnodelist") {
        Ok(v) => v,
        Err(e) => {
            return Err(e);
        },
    };
    let varnode_table = match read_varnode_table(input) {
        Ok(v) => v,
        Err(e) => {
            return Err(e);
        },
    };
    let complete = varnodes_complete(&varnode_table);
    let table_is_filled = match table_flag(&p, varnode_table.len(), complete) {
        Ok(v) => v,
        Err(e) => {
            return Err(e);
        },
    };
    Ok(Symbol::VarnodeList { id, scope, name, pattern_value: p, varnode_table, table_is_filled })
}

impl SymbolBuilder {
    /// Reads the symbol with this header from its element `input` (see
    /// `symbol_of`), looking spaces up in `spaces`.
    pub fn build_from_xml(self, spaces: &AddressSpaces, input: &XmlElement) -> (r: Result<Symbol, DeserialiseError>)
        requires
            symbol_of(self@, spaces, input) is Some,
        ensures
            match symbol_of(self@, spaces, input)->0 {
                Ok(v) => r is Ok && r->Ok_0@ == v,
                Err(e) => r is Err && same_error(r->Err_0, e),
            },
    {
        let tag = input.tag_name();
        if !str_eq(tag, kind_tag_str(self.kind)) {
            return Err(DeserialiseError::TagUnexpected(tag.to_owned()));
        }
        let SymbolBuilder { kind, id, scope, name } = self;
        match kind {
            SymbolKind::UserOp => match input.attribute_int("index") {
                Ok(index) => Ok(Symbol::UserOp { id, scope, name, index }),
                Err(e) => Err(e),
            },
            SymbolKind::Epsilon => Ok(Symbol::Epsilon { id, scope, name }),
            SymbolKind::Value => match read_first_pattern(input, "missing pattern expression for value") {
                Ok(pattern_value) => Ok(Symbol::Value { id, scope, name, pattern_value }),
                Err(e) => Err(e),
            },
            SymbolKind::ValueMap => read_value_map(id, scope, name, spaces, input),
            SymbolKind::Name => read_name_symbol(id, scope, name, spaces, input),
            SymbolKind::VarnodeList => read_varnode_list(id, scope, name, spaces, input),
            SymbolKind::Varnode => read_varnode(id, scope, name, spaces, input),
            SymbolKind::Context => read_context(id, scope, name, spaces, input),
            SymbolKind::Operand => read_operand(id, scope, name, input),
            SymbolKind::Start => Ok(Symbol::Start { id, scope, name, pattern_value: PatternExpression::StartInstruction }),
            SymbolKind::End => Ok(Symbol::End { id, scope, name, pattern_value: PatternExpression::EndInstruction }),
            SymbolKind::FlowDest | SymbolKind::FlowRef => Ok(Symbol::FlowDest { id, scope, name }),
            SymbolKind::Subtable => match read_subtable(id, spaces, input) {
                Ok((constructors, decision_tree)) => Ok(
                    Symbol::Subtable { id, scope, name, constructors, decision_tree },
                ),
                Err(e) => Err(e),
            },
        }
    }
}

} // verus!
