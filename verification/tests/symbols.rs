use fugue::disassembly::symbol::Symbol;
use fugue::disassembly::{SymbolBuilder, SymbolKind};
use fugue::sleigh::deserialise::{DeserialiseError, IntErrorKind, XmlElement};
use fugue::sleigh::pattern::PatternExpression;
use fugue::sleigh::spaces::AddressSpaces;

fn el(tag: &str, attrs: &[(&str, &str)], children: Vec<XmlElement>) -> XmlElement {
    XmlElement {
        tag: tag.to_owned(),
        attributes: attrs.iter().map(|(k, v)| (k.to_string(), v.to_string())).collect(),
        children,
    }
}

fn machine() -> AddressSpaces {
    let space = |tag: &str, name: &str, index: &str| {
        el(
            tag,
            &[("name", name), ("index", index), ("size", "4"), ("bigendian", "false"), ("delay", "1"), ("physical", "true")],
            vec![],
        )
    };
    AddressSpaces::from_xml(&el(
        "spaces",
        &[("defaultspace", "ram")],
        vec![space("space", "ram", "1"), space("space", "register", "2"), space("space_unique", "unique", "3")],
    ))
    .unwrap()
}

fn builder(kind: SymbolKind) -> SymbolBuilder {
    SymbolBuilder::new(kind, 7, 1, "sym".to_owned())
}

fn field(start: &str, end: &str) -> XmlElement {
    el(
        "tokenfield",
        &[
            ("bigendian", "true"),
            ("signbit", "false"),
            ("startbit", start),
            ("endbit", end),
            ("startbyte", "0"),
            ("endbyte", "0"),
            ("shift", "0"),
        ],
        vec![],
    )
}

fn intb(v: &str) -> XmlElement {
    el("intb", &[("val", v)], vec![])
}

#[test]
fn each_kind_wants_its_tag() {
    let spaces = machine();
    let kinds = [
        SymbolKind::UserOp,
        SymbolKind::Epsilon,
        SymbolKind::Value,
        SymbolKind::ValueMap,
        SymbolKind::Name,
        SymbolKind::Varnode,
        SymbolKind::Context,
        SymbolKind::VarnodeList,
        SymbolKind::Operand,
        SymbolKind::Start,
        SymbolKind::End,
        SymbolKind::Subtable,
        SymbolKind::FlowDest,
        SymbolKind::FlowRef,
    ];
    for kind in kinds {
        match builder(kind).build_from_xml(&spaces, &el("wrong_sym", &[], vec![])) {
            Err(DeserialiseError::TagUnexpected(tag)) => assert_eq!(tag, "wrong_sym"),
            other => panic!("{:?} read {:?}", kind, other),
        }
    }
}

#[test]
fn simple_symbols_keep_their_header() {
    let spaces = machine();
    match builder(SymbolKind::UserOp).build_from_xml(&spaces, &el("userop", &[("index", "3")], vec![])) {
        Ok(Symbol::UserOp { id, scope, name, index }) => {
            assert_eq!((id, scope, name.as_str(), index), (7, 1, "sym", 3))
        }
        other => panic!("{:?}", other),
    }
    assert_eq!(
        builder(SymbolKind::UserOp).build_from_xml(&spaces, &el("userop", &[], vec![])).unwrap_err(),
        DeserialiseError::AttributeExpected("index")
    );
    assert!(matches!(
        builder(SymbolKind::Epsilon).build_from_xml(&spaces, &el("epsilon", &[], vec![])),
        Ok(Symbol::Epsilon { id: 7, scope: 1, .. })
    ));
    assert!(matches!(
        builder(SymbolKind::Start).build_from_xml(&spaces, &el("start_sym", &[], vec![])),
        Ok(Symbol::Start { pattern_value: PatternExpression::StartInstruction, .. })
    ));
    assert!(matches!(
        builder(SymbolKind::End).build_from_xml(&spaces, &el("end_sym", &[], vec![])),
        Ok(Symbol::End { pattern_value: PatternExpression::EndInstruction, .. })
    ));
    assert!(matches!(
        builder(SymbolKind::FlowRef).build_from_xml(&spaces, &el("flowref_sym", &[], vec![])),
        Ok(Symbol::FlowDest { .. })
    ));
    match builder(SymbolKind::Value).build_from_xml(&spaces, &el("value_sym", &[], vec![intb("5")])) {
        Ok(Symbol::Value { pattern_value, .. }) => assert_eq!(pattern_value, PatternExpression::Constant { value: 5 }),
        other => panic!("{:?}", other),
    }
    assert_eq!(
        builder(SymbolKind::Value).build_from_xml(&spaces, &el("value_sym", &[], vec![])).unwrap_err(),
        DeserialiseError::Invariant("missing pattern expression for value")
    );
}

#[test]
fn value_maps_know_whether_their_table_is_filled() {
    let spaces = machine();
    let map = |pattern: XmlElement, vals: &[&str]| {
        let mut children = vec![pattern];
        children.extend(vals.iter().map(|v| el("valuetab", &[("val", v)], vec![])));
        builder(SymbolKind::ValueMap).build_from_xml(&spaces, &el("valuemap_sym", &[], children))
    };
    match map(field("0", "1"), &["1", "2", "3", "-4"]) {
        Ok(Symbol::ValueMap { value_table, table_is_filled, .. }) => {
            assert_eq!(value_table, vec![1, 2, 3, -4]);
            assert!(table_is_filled);
        }
        other => panic!("{:?}", other),
    }
    match map(field("0", "1"), &["1", "2", "3"]) {
        Ok(Symbol::ValueMap { table_is_filled, .. }) => assert!(!table_is_filled),
        other => panic!("{:?}", other),
    }
    match map(field("0", "0"), &["1", "0xbadbeef"]) {
        Ok(Symbol::ValueMap { table_is_filled, .. }) => assert!(!table_is_filled),
        other => panic!("{:?}", other),
    }
    match map(intb("-1"), &["1"]) {
        Ok(Symbol::ValueMap { table_is_filled, .. }) => assert!(!table_is_filled),
        other => panic!("{:?}", other),
    }
    assert_eq!(
        map(el("plus_exp", &[], vec![intb("1"), intb("2")]), &["1"]).unwrap_err(),
        DeserialiseError::Invariant("invalid pattern")
    );
    assert_eq!(map(field("0", "0"), &["x"]).unwrap_err(), DeserialiseError::ParseInteger(IntErrorKind::InvalidDigit));
    assert_eq!(
        builder(SymbolKind::ValueMap).build_from_xml(&spaces, &el("valuemap_sym", &[], vec![])).unwrap_err(),
        DeserialiseError::Invariant("missing pattern expression for name")
    );
}

#[test]
fn name_tables_mark_missing_names_with_a_tab() {
    let spaces = machine();
    let names = el(
        "name_sym",
        &[],
        vec![
            field("0", "1"),
            el("nametab", &[("name", "r0")], vec![]),
            el("nametab", &[("name", "_")], vec![]),
            el("nametab", &[], vec![]),
            el("nametab", &[("name", "r3")], vec![]),
        ],
    );
    match builder(SymbolKind::Name).build_from_xml(&spaces, &names) {
        Ok(Symbol::Name { name_table, table_is_filled, .. }) => {
            assert_eq!(name_table, vec!["r0", "\t", "\t", "r3"]);
            assert!(!table_is_filled);
        }
        other => panic!("{:?}", other),
    }
    let full = el(
        "name_sym",
        &[],
        vec![field("0", "0"), el("nametab", &[("name", "a")], vec![]), el("nametab", &[("name", "b")], vec![])],
    );
    assert!(matches!(
        builder(SymbolKind::Name).build_from_xml(&spaces, &full),
        Ok(Symbol::Name { table_is_filled: true, .. })
    ));
}

#[test]
fn varnode_lists_and_varnodes() {
    let spaces = machine();
    let list = el(
        "varlist_sym",
        &[],
        vec![field("0", "0"), el("var", &[("id", "4")], vec![]), el("null", &[], vec![])],
    );
    match builder(SymbolKind::VarnodeList).build_from_xml(&spaces, &list) {
        Ok(Symbol::VarnodeList { varnode_table, table_is_filled, .. }) => {
            assert_eq!(varnode_table, vec![Some(4), None]);
            assert!(!table_is_filled);
        }
        other => panic!("{:?}", other),
    }
    let vn = el("varnode_sym", &[("space", "register"), ("offset", "0x10"), ("size", "4")], vec![]);
    match builder(SymbolKind::Varnode).build_from_xml(&spaces, &vn) {
        Ok(Symbol::Varnode { space, offset, size, .. }) => {
            assert_eq!(space.name(), "register");
            assert_eq!((offset, size), (16, 4));
        }
        other => panic!("{:?}", other),
    }
    let unknown = el("varnode_sym", &[("space", "io"), ("offset", "0"), ("size", "4")], vec![]);
    assert_eq!(
        builder(SymbolKind::Varnode).build_from_xml(&spaces, &unknown).unwrap_err(),
        DeserialiseError::Invariant("varnode space not defined")
    );
    assert_eq!(
        builder(SymbolKind::Varnode).build_from_xml(&spaces, &el("varnode_sym", &[], vec![])).unwrap_err(),
        DeserialiseError::AttributeExpected("space")
    );
}

#[test]
fn context_and_operand_symbols() {
    let spaces = machine();
    let ctx = el(
        "context_sym",
        &[("varnode", "2"), ("high", "7"), ("low", "4"), ("flow", "true")],
        vec![field("4", "7")],
    );
    match builder(SymbolKind::Context).build_from_xml(&spaces, &ctx) {
        Ok(Symbol::Context { varnode_id, high, low, flow, .. }) => assert_eq!((varnode_id, high, low, flow), (2, 7, 4, true)),
        other => panic!("{:?}", other),
    }
    let op = el(
        "operand_sym",
        &[("index", "1"), ("off", "2"), ("base", "-1"), ("minlen", "0"), ("subsym", "9"), ("code", "true")],
        vec![intb("3"), intb("4")],
    );
    match builder(SymbolKind::Operand).build_from_xml(&spaces, &op) {
        Ok(Symbol::Operand { handle_index, offset, base, min_length, subsym_id, is_code, local_expr, def_expr, .. }) => {
            assert_eq!((handle_index, offset, base, min_length, subsym_id, is_code), (1, 2, None, 0, Some(9), true));
            assert_eq!(local_expr, PatternExpression::Constant { value: 3 });
            assert_eq!(def_expr, Some(PatternExpression::Constant { value: 4 }));
        }
        other => panic!("{:?}", other),
    }
    let plain = el("operand_sym", &[("index", "0"), ("off", "0"), ("base", "5"), ("minlen", "1")], vec![intb("0")]);
    match builder(SymbolKind::Operand).build_from_xml(&spaces, &plain) {
        Ok(Symbol::Operand { base, subsym_id, is_code, def_expr, .. }) => {
            assert_eq!((base, subsym_id, is_code, def_expr), (Some(5), None, false, None))
        }
        other => panic!("{:?}", other),
    }
    let no_expr = el("operand_sym", &[("index", "0"), ("off", "0"), ("base", "5"), ("minlen", "1")], vec![]);
    assert_eq!(
        builder(SymbolKind::Operand).build_from_xml(&spaces, &no_expr).unwrap_err(),
        DeserialiseError::Invariant("missing local expression for operand")
    );
}

#[test]
fn subtables_need_one_decision_tree() {
    let spaces = machine();
    let decision = || el("decision", &[("number", "0"), ("context", "false"), ("start", "0"), ("size", "0")], vec![]);
    match builder(SymbolKind::Subtable).build_from_xml(&spaces, &el("subtable_sym", &[], vec![decision()])) {
        Ok(Symbol::Subtable { constructors, decision_tree, .. }) => {
            assert!(constructors.is_empty());
            assert_eq!(decision_tree.number(), 0);
        }
        other => panic!("{:?}", other),
    }
    assert_eq!(
        builder(SymbolKind::Subtable).build_from_xml(&spaces, &el("subtable_sym", &[], vec![])).unwrap_err(),
        DeserialiseError::Invariant("missing decision tree for subtable")
    );
    assert_eq!(
        builder(SymbolKind::Subtable)
            .build_from_xml(&spaces, &el("subtable_sym", &[], vec![decision(), decision()]))
            .unwrap_err(),
        DeserialiseError::Invariant("redefintion of root decision tree node")
    );
}
