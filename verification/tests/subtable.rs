use fugue::disassembly::{FixedHandle, ParserState, SymbolBuilder, SymbolKind};
use fugue::lifter::constructor::PrintPiece;
use fugue::sleigh::deserialise::{DeserialiseError, XmlElement};
use fugue::sleigh::pattern::PatternExpression;
use fugue::sleigh::space::AddressSpace;
use fugue::sleigh::spaces::AddressSpaces;
use fugue::sleigh::subtable::{
    Constructor, Context, DecisionNode, DisjointPattern, PatternBlock,
};

fn el(tag: &str, attrs: &[(&str, &str)], children: Vec<XmlElement>) -> XmlElement {
    XmlElement {
        tag: tag.to_owned(),
        attributes: attrs.iter().map(|(k, v)| (k.to_string(), v.to_string())).collect(),
        children,
    }
}

fn machine() -> AddressSpaces {
    let space = |tag: &str, name: &str, index: &str| {
        el(
            tag,
            &[("name", name), ("index", index), ("size", "4"), ("bigendian", "false"), ("delay", "1"), ("physical", "true")],
            vec![],
        )
    };
    AddressSpaces::from_xml(&el(
        "spaces",
        &[("defaultspace", "ram")],
        vec![
            space("space", "ram", "1"),
            space("space", "register", "2"),
            space("space_unique", "unique", "3"),
        ],
    ))
    .unwrap()
}

fn word(mask: &str, val: &str) -> XmlElement {
    el("mask_word", &[("mask", mask), ("val", val)], vec![])
}

#[test]
fn pattern_expressions_from_elements() {
    let field = el(
        "tokenfield",
        &[
            ("bigendian", "true"),
            ("signbit", "false"),
            ("startbit", "2"),
            ("endbit", "5"),
            ("startbyte", "0"),
            ("endbyte", "1"),
            ("shift", "3"),
        ],
        vec![],
    );
    let f = PatternExpression::from_xml(&field).unwrap();
    assert_eq!(
        f,
        PatternExpression::TokenField {
            big_endian: true,
            sign_bit: false,
            bit_start: 2,
            bit_end: 5,
            byte_start: 0,
            byte_end: 1,
            shift: 3,
        }
    );
    assert_eq!(f.min_value(), Some(0));
    assert_eq!(f.max_value(), Some(15));

    let sum = el("plus_exp", &[], vec![el("intb", &[("val", "-4")], vec![]), el("start_exp", &[], vec![])]);
    let s = PatternExpression::from_xml(&sum).unwrap();
    assert_eq!(
        s,
        PatternExpression::Plus(
            Box::new(PatternExpression::Constant { value: -4 }),
            Box::new(PatternExpression::StartInstruction)
        )
    );
    assert_eq!(s.min_value(), None);
    assert_eq!(s.max_value(), None);
    assert_eq!(PatternExpression::Constant { value: -4 }.max_value(), Some(-4));
    assert_eq!(PatternExpression::Next2Instruction.min_value(), Some(0));

    let op = el("operand_exp", &[("index", "1"), ("table", "2"), ("ct", "3")], vec![]);
    assert_eq!(
        PatternExpression::from_xml(&el("not_exp", &[], vec![op])).unwrap(),
        PatternExpression::Not(Box::new(PatternExpression::Operand { index: 1, table_id: 2, constructor_id: 3 }))
    );
}

#[test]
fn pattern_expression_errors() {
    let lonely = el("xor_exp", &[], vec![el("end_exp", &[], vec![])]);
    assert_eq!(
        PatternExpression::from_xml(&lonely).unwrap_err(),
        DeserialiseError::Invariant("missing rhs of binary expression")
    );
    assert_eq!(
        PatternExpression::from_xml(&el("div_exp", &[], vec![])).unwrap_err(),
        DeserialiseError::Invariant("missing lhs of binary expression")
    );
    assert_eq!(
        PatternExpression::from_xml(&el("minus_exp", &[], vec![])).unwrap_err(),
        DeserialiseError::Invariant("missing operand of unary expression")
    );
    let nested = el("minus_exp", &[], vec![el("mystery", &[], vec![])]);
    assert_eq!(
        PatternExpression::from_xml(&nested).unwrap_err(),
        DeserialiseError::TagUnexpected("mystery".to_owned())
    );
    assert_eq!(
        PatternExpression::from_xml(&el("contextfield", &[("signbit", "false")], vec![])).unwrap_err(),
        DeserialiseError::AttributeExpected("startbit")
    );
}

#[test]
fn context_changes_from_elements() {
    let op = el("context_op", &[("i", "1"), ("shift", "4"), ("mask", "0xf0")], vec![el("intb", &[("val", "3")], vec![])]);
    assert_eq!(
        Context::from_xml(&op).unwrap(),
        Context::Operator { num: 1, shift: 4, mask: 0xf0, pattern_value: PatternExpression::Constant { value: 3 } }
    );
    let commit = el("commit", &[("id", "9"), ("number", "2"), ("mask", "255"), ("flow", "true")], vec![]);
    assert_eq!(
        Context::from_xml(&commit).unwrap(),
        Context::Commit { symbol_id: 9, num: 2, mask: 255, flow: true }
    );
    assert_eq!(
        Context::from_xml(&el("context_op", &[("i", "1"), ("shift", "4"), ("mask", "1")], vec![])).unwrap_err(),
        DeserialiseError::Invariant("missing pattern for context_op")
    );
    assert_eq!(
        Context::from_xml(&el("other", &[], vec![])).unwrap_err(),
        DeserialiseError::TagUnexpected("other".to_owned())
    );
}

#[test]
fn pattern_blocks_are_normalised() {
    // Two leading zero bytes move into the offset; the words shift left by
    // them and the trailing zero word goes.
    let block = el(
        "pat_block",
        &[("off", "0"), ("nonzero", "4")],
        vec![word("0x0000ff00", "0x00001100"), word("0x12000000", "0x34000000")],
    );
    let b = PatternBlock::from_xml(&block).unwrap();
    assert_eq!(b.offset(), 2);
    assert_eq!(b.non_zero_size(), Some(3));
    assert_eq!(b.masks(), &[0xff00_1200u32][..]);
    assert_eq!(b.values(), &[0x1100_3400u32][..]);
    assert!(!b.always_true() && !b.always_false());

    // A leading zero word moves into the offset; a word that starts with a
    // non-zero byte is kept as it is.
    let block = el(
        "pat_block",
        &[("offset", "8"), ("nonzero", "8")],
        vec![word("0", "0"), word("0xff0000ff", "0x12000034")],
    );
    let b = PatternBlock::from_xml(&block).unwrap();
    assert_eq!(b.offset(), 12);
    assert_eq!(b.non_zero_size(), Some(4));
    assert_eq!(b.masks(), &[0xff00_00ffu32][..]);
    assert_eq!(b.values(), &[0x1200_0034u32][..]);

    let always = PatternBlock::from_xml(&el("pat_block", &[("off", "5"), ("nonzero", "0")], vec![word("1", "1")])).unwrap();
    assert!(always.always_true());
    assert_eq!(always.offset(), 0);
    assert!(always.masks().is_empty());
    let empty = PatternBlock::from_xml(&el("pat_block", &[("off", "5"), ("nonzero", "3")], vec![])).unwrap();
    assert!(empty.always_true());
    assert_eq!(empty, PatternBlock::new(true));
    assert!(PatternBlock::new(false).always_false());

    assert_eq!(
        PatternBlock::from_xml(&el("pat_block", &[("off", "0"), ("nonzero", "1")], vec![el("mask_word", &[("val", "1")], vec![])]))
            .unwrap_err(),
        DeserialiseError::AttributeExpected("mask")
    );
}

#[test]
fn decision_trees_from_elements() {
    let inst = el(
        "instruct_pat",
        &[],
        vec![el("pat_block", &[("offset", "0"), ("nonzero", "1")], vec![word("0xf0000000", "0x10000000")])],
    );
    let tree = el(
        "decision",
        &[("number", "0"), ("context", "false"), ("start", "4"), ("size", "2")],
        vec![
            el("pair", &[("id", "7")], vec![inst]),
            el("decision", &[("number", "1"), ("context", "true"), ("startbit", "0"), ("size", "0")], vec![]),
            el("junk", &[], vec![]),
        ],
    );
    let d = DecisionNode::from_xml(&tree).unwrap();
    assert_eq!((d.number(), d.context_decision(), d.start_bit(), d.size()), (0, false, 4, 2));
    assert_eq!(d.patterns().len(), 1);
    assert_eq!(d.patterns()[0].id(), 7);
    match d.patterns()[0].pattern() {
        DisjointPattern::Instruction(p) => {
            let b = p.mask_value();
            assert_eq!((b.offset(), b.non_zero_size()), (0, Some(1)));
            assert_eq!(b.masks(), &[0xf000_0000u32][..]);
        }
        other => panic!("unexpected pattern {:?}", other),
    }
    assert_eq!(d.children().len(), 1);
    assert!(d.children()[0].context_decision());
    assert_eq!(d.children()[0].number(), 1);

    let bad = el("decision", &[("number", "0")], vec![el("pair", &[("id", "1")], vec![])]);
    assert_eq!(
        DecisionNode::from_xml(&bad).unwrap_err(),
        DeserialiseError::Invariant("no pattern for disjoint pattern")
    );
}

#[test]
fn combined_patterns_read_context_then_instruction() {
    let ctx = el(
        "context_pat",
        &[],
        vec![el("pat_block", &[("off", "4"), ("nonzero", "2")], vec![word("0x00ff0000", "0x00120000")])],
    );
    let inst = el("instruct_pat", &[], vec![el("pat_block", &[("offset", "0"), ("nonzero", "0")], vec![])]);
    let p = DisjointPattern::from_xml(&el("combine_pat", &[], vec![ctx, inst])).unwrap();
    match p {
        DisjointPattern::Combine { context, instruction } => {
            let c = context.mask_value();
            assert_eq!((c.offset(), c.non_zero_size()), (5, Some(1)));
            assert_eq!(c.masks(), &[0xff00_0000u32][..]);
            assert_eq!(c.values(), &[0x1200_0000u32][..]);
            assert!(instruction.mask_value().always_true());
        }
        other => panic!("unexpected pattern {:?}", other),
    }
    assert_eq!(
        DisjointPattern::from_xml(&el("combine_pat", &[], vec![])).unwrap_err(),
        DeserialiseError::Invariant("missing context pattern")
    );
    assert_eq!(
        DisjointPattern::from_xml(&el("instruct_pat", &[], vec![])).unwrap_err(),
        DeserialiseError::Invariant("missing pattern block")
    );
}

#[test]
fn constructors_from_elements() {
    let spaces = machine();
    let tpl = |attrs: &[(&str, &str)]| el("construct_tpl", attrs, vec![el("null", &[], vec![])]);
    let ctor = el(
        "constructor",
        &[("parent", "3"), ("first", "-1"), ("length", "2"), ("source", "1"), ("line", "42")],
        vec![
            el("oper", &[("id", "5")], vec![]),
            el("opprint", &[("id", "0")], vec![]),
            tpl(&[]),
            tpl(&[("section", "1")]),
            el("context_op", &[("i", "0"), ("shift", "4"), ("mask", "0xf0")], vec![el("intb", &[("val", "3")], vec![])]),
            el("commit", &[("id", "9"), ("number", "1"), ("mask", "0xff"), ("flow", "true")], vec![]),
        ],
    );
    let c = Constructor::from_xml(&ctor, (2, 7), &spaces).unwrap();
    assert_eq!(c.id(), (2, 7));
    assert_eq!(c.minimum_length(), 2);
    assert_eq!(c.first_whitespace(), None);
    assert_eq!(c.operand_count(), 1);
    assert_eq!(c.operand(0), 5);
    assert_eq!(c.print_pieces(), &["\nA".to_owned()][..]);
    assert_eq!(c.flow_through_index(), Some(0));
    assert!(c.template().is_some());
    assert_eq!(c.unchecked_template().section_id(), None);
    assert!(c.named_template(0).is_none());
    assert_eq!(c.named_template(1).unwrap().section_id(), Some(1));
    assert_eq!(c.unchecked_named_template(1).section_id(), Some(1));
    assert!(c.named_template(2).is_none());
    assert_eq!(c.context().len(), 2);
    assert_eq!(c.context()[1], Context::Commit { symbol_id: 9, num: 1, mask: 0xff, flow: true });

    let plain = el(
        "constructor",
        &[("parent", "0"), ("first", "3"), ("length", "1"), ("line", "2:17")],
        vec![el("print", &[("piece", "mov")], vec![]), el("print", &[("piece", " ")], vec![])],
    );
    let p = Constructor::from_xml(&plain, (0, 0), &spaces).unwrap();
    assert_eq!(p.first_whitespace(), Some(3));
    assert_eq!(p.flow_through_index(), None);
    assert!(p.template().is_none());
    assert_eq!(p.print_pieces().len(), 2);
    assert!(p == Constructor::from_xml(&plain, (0, 0), &spaces).unwrap());

    let twice = el("constructor", &[("parent", "0"), ("first", "0"), ("length", "1"), ("line", "1")], vec![tpl(&[]), tpl(&[])]);
    assert_eq!(
        Constructor::from_xml(&twice, (0, 1), &spaces).unwrap_err(),
        DeserialiseError::Invariant("duplicate main section")
    );
    let twice_named = el(
        "constructor",
        &[("parent", "0"), ("first", "0"), ("length", "1"), ("line", "1")],
        vec![tpl(&[("section", "0")]), tpl(&[("section", "0")])],
    );
    assert_eq!(
        Constructor::from_xml(&twice_named, (0, 1), &spaces).unwrap_err(),
        DeserialiseError::Invariant("duplicate named section")
    );
    let no_line = el("constructor", &[("parent", "0"), ("first", "0"), ("length", "1")], vec![]);
    assert_eq!(
        Constructor::from_xml(&no_line, (0, 1), &spaces).unwrap_err(),
        DeserialiseError::AttributeExpected("line")
    );
}

#[test]
fn symbol_headers_and_handles() {
    let space = AddressSpace::constant("const", 0);
    let h = FixedHandle::new(&space);
    assert_eq!(h.size, 0);
    assert!(h.offset_space.is_none() && h.temporary_space.is_none());
    assert_eq!((h.offset_offset, h.offset_size, h.temporary_offset), (0, 0, 0));
    assert!(h.space.is_constant());
    assert_eq!(SymbolBuilder::default(), SymbolBuilder::default());
    assert_ne!(SymbolKind::Value, SymbolKind::ValueMap);
    assert_ne!(ParserState::Uninitialised, ParserState::PCode);
    assert_eq!(PrintPiece::Operand(1), PrintPiece::Operand(1));
    assert_ne!(PrintPiece::Token(","), PrintPiece::Operand(0));
}
