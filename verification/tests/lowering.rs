use fugue::codegen::lowering::{lower_pattern, operand_lookup};
use fugue::codegen::pattern::{generate_pattern_resolver, PatternCode};
use fugue::disassembly::symbol::Symbol;
use fugue::lifter::pattern::{OperandOffset, PatternExpression as Lowered};
use fugue::sleigh::deserialise::XmlElement;
use fugue::sleigh::pattern::PatternExpression;
use fugue::sleigh::spaces::AddressSpaces;
use fugue::sleigh::subtable::{Constructor, DecisionNode};

fn el(tag: &str, attrs: &[(&str, &str)], children: Vec<XmlElement>) -> XmlElement {
    XmlElement {
        tag: tag.to_owned(),
        attributes: attrs.iter().map(|(k, v)| (k.to_string(), v.to_string())).collect(),
        children,
    }
}

fn machine() -> AddressSpaces {
    let space = |tag: &str, name: &str, index: &str| {
        el(
            tag,
            &[("name", name), ("index", index), ("size", "4"), ("bigendian", "false"), ("delay", "1"), ("physical", "true")],
            vec![],
        )
    };
    AddressSpaces::from_xml(&el(
        "spaces",
        &[("defaultspace", "ram")],
        vec![space("space", "ram", "1"), space("space", "register", "2"), space("space_unique", "unique", "3")],
    ))
    .unwrap()
}

fn operand(id: usize, base: Option<usize>, subsym_id: Option<usize>, def_expr: Option<PatternExpression>) -> Symbol {
    Symbol::Operand {
        id,
        scope: 0,
        name: "op".to_owned(),
        handle_index: 0,
        offset: 3,
        base,
        min_length: 0,
        subsym_id,
        is_code: false,
        local_expr: PatternExpression::Constant { value: 9 },
        def_expr,
    }
}

/// A table (symbol 0) whose only constructor, numbered (2, 7), has the
/// operands given by symbol id, followed by `rest`.
fn symbols(operands: &[usize], rest: Vec<Symbol>) -> Vec<Symbol> {
    let spaces = machine();
    let opers = operands.iter().map(|i| el("oper", &[("id", &i.to_string())], vec![])).collect();
    let ctor = el("constructor", &[("parent", "0"), ("first", "0"), ("length", "1"), ("line", "1")], opers);
    let decision = el("decision", &[("number", "0"), ("context", "false"), ("start", "0"), ("size", "0")], vec![]);
    let table = Symbol::Subtable {
        id: 0,
        scope: 0,
        name: "instruction".to_owned(),
        constructors: vec![Constructor::from_xml(&ctor, (2, 7), &spaces).unwrap()],
        decision_tree: DecisionNode::from_xml(&decision).unwrap(),
    };
    let mut all = vec![table];
    all.extend(rest);
    all
}

fn operand_ref(index: usize) -> PatternExpression {
    PatternExpression::Operand { index, table_id: 0, constructor_id: 0 }
}

fn shown<T: std::fmt::Debug>(v: T) -> String {
    format!("{:?}", v)
}

#[test]
fn operands_lower_to_their_constructor_offset_and_value() {
    let syms = symbols(
        &[1, 2],
        vec![
            operand(1, None, Some(3), None),
            operand(2, Some(0), None, Some(PatternExpression::Constant { value: 4 })),
            Symbol::Value { id: 3, scope: 0, name: "v".to_owned(), pattern_value: PatternExpression::Constant { value: 5 } },
        ],
    );
    let number = (2u32 << 16) | 7;
    assert_eq!(
        shown(lower_pattern(&operand_ref(0), &syms, 4)),
        shown(Some(Lowered::Operand {
            constructor: number,
            offset: OperandOffset::Relative(3),
            value: Box::new(Lowered::Constant { value: 5 }),
        }))
    );
    assert_eq!(
        shown(lower_pattern(&operand_ref(1), &syms, 4)),
        shown(Some(Lowered::Operand {
            constructor: number,
            offset: OperandOffset::Operand(1),
            value: Box::new(Lowered::Constant { value: 4 }),
        }))
    );
    let (n, at, value) = operand_lookup(&syms, 1, 0, 0).unwrap();
    assert_eq!((n, at), (number, OperandOffset::Operand(1)));
    assert_eq!(shown(value), shown(Some(&PatternExpression::Constant { value: 4 })));
}

#[test]
fn operands_without_expression_read_zero() {
    let syms = symbols(&[1], vec![operand(1, None, None, None)]);
    assert_eq!(shown(lower_pattern(&operand_ref(0), &syms, 1)), shown(Some(Lowered::Constant { value: 0 })));
}

#[test]
fn failed_lookups_and_exhausted_depth_lower_to_nothing() {
    let syms = symbols(&[1], vec![operand(1, None, None, Some(PatternExpression::Constant { value: 4 }))]);
    assert!(lower_pattern(&operand_ref(0), &syms, 0).is_none());
    assert!(lower_pattern(&operand_ref(1), &syms, 3).is_none());
    assert!(lower_pattern(&PatternExpression::Operand { index: 0, table_id: 1, constructor_id: 0 }, &syms, 3).is_none());
    assert!(lower_pattern(&PatternExpression::Operand { index: 0, table_id: 0, constructor_id: 1 }, &syms, 3).is_none());
    assert!(lower_pattern(&PatternExpression::Operand { index: 0, table_id: 7, constructor_id: 0 }, &syms, 3).is_none());
    let epsilon = symbols(&[1], vec![operand(1, None, Some(2), None), Symbol::Epsilon { id: 2, scope: 0, name: "e".to_owned() }]);
    assert!(lower_pattern(&operand_ref(0), &epsilon, 3).is_none());
    assert!(operand_lookup(&epsilon, 0, 0, 0).is_none());
}

#[test]
fn nested_operands_need_depth_for_each() {
    let syms = symbols(&[1, 2], vec![operand(1, None, None, Some(operand_ref(1))), operand(2, None, Some(3), None), operand(3, None, None, None)]);
    assert!(lower_pattern(&operand_ref(0), &syms, 1).is_none());
    let number = (2u32 << 16) | 7;
    assert_eq!(
        shown(lower_pattern(&operand_ref(0), &syms, 2)),
        shown(Some(Lowered::Operand {
            constructor: number,
            offset: OperandOffset::Relative(3),
            value: Box::new(Lowered::Operand {
                constructor: number,
                offset: OperandOffset::Relative(3),
                value: Box::new(Lowered::Constant { value: 9 }),
            }),
        }))
    );
}

#[test]
fn lowered_expressions_keep_their_shape_and_generate() {
    let syms = symbols(&[1], vec![operand(1, None, None, Some(PatternExpression::Constant { value: 6 }))]);
    let e = PatternExpression::Plus(
        Box::new(operand_ref(0)),
        Box::new(PatternExpression::Not(Box::new(PatternExpression::StartInstruction))),
    );
    let lowered = lower_pattern(&e, &syms, 2).unwrap();
    let code = generate_pattern_resolver(&lowered);
    assert_eq!(
        code,
        PatternCode::Plus(
            Box::new(PatternCode::Operand {
                constructor: (2u32 << 16) | 7,
                offset: OperandOffset::Relative(3),
                value: Box::new(PatternCode::Constant(6)),
            }),
            Box::new(PatternCode::Negate(Box::new(PatternCode::Address))),
        )
    );
}
