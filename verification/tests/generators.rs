use fugue::codegen::context::{generate_constructor_context_actions, CommitHandleCode, ContextCommitCode, ContextSetCode};
use fugue::codegen::handle::{generate_handle_resolver, generate_symbol_pattern, HandleCode, OffsetCode};
use fugue::codegen::layout::{collect_context_variables, generate_lifter_layout, SpaceOffsetCode};
use fugue::codegen::operand::{
    generate_constructor_operand_resolvers, generate_operand_resolver, OperandHandleCode, ResolverCode,
};
use fugue::codegen::pattern::PatternCode;
use fugue::codegen::symbol::{generate_symbol, SymbolCode};
use fugue::disassembly::symbol::Symbol;
use fugue::lifter::pattern::PatternExpression as Lowered;
use fugue::sleigh::deserialise::XmlElement;
use fugue::sleigh::pattern::PatternExpression;
use fugue::sleigh::spaces::AddressSpaces;
use fugue::sleigh::subtable::{Constructor, DecisionNode};

fn el(tag: &str, attrs: &[(&str, &str)], children: Vec<XmlElement>) -> XmlElement {
    XmlElement {
        tag: tag.to_owned(),
        attributes: attrs.iter().map(|(k, v)| (k.to_string(), v.to_string())).collect(),
        children,
    }
}

fn machine() -> AddressSpaces {
    let space = |tag: &str, name: &str, index: &str| {
        el(
            tag,
            &[("name", name), ("index", index), ("size", "4"), ("bigendian", "false"), ("delay", "1"), ("physical", "true")],
            vec![],
        )
    };
    AddressSpaces::from_xml(&el(
        "spaces",
        &[("defaultspace", "ram")],
        vec![space("space", "ram", "1"), space("space", "register", "2"), space("space_unique", "unique", "3")],
    ))
    .unwrap()
}

fn constant(value: i64) -> PatternExpression {
    PatternExpression::Constant { value }
}

fn operand(id: usize, handle_index: usize, subsym_id: Option<usize>, def_expr: Option<PatternExpression>) -> Symbol {
    Symbol::Operand {
        id,
        scope: 0,
        name: format!("op{}", id),
        handle_index,
        offset: 1,
        base: None,
        min_length: 2,
        subsym_id,
        is_code: false,
        local_expr: constant(0),
        def_expr,
    }
}

fn constructor(spaces: &AddressSpaces, children: Vec<XmlElement>) -> Constructor {
    let ctor = el("constructor", &[("parent", "0"), ("first", "0"), ("length", "1"), ("line", "1")], children);
    Constructor::from_xml(&ctor, (0, 0), spaces).unwrap()
}

fn subtable(spaces: &AddressSpaces, id: usize) -> Symbol {
    let decision = el("decision", &[("number", "0"), ("context", "false"), ("start", "0"), ("size", "0")], vec![]);
    Symbol::Subtable {
        id,
        scope: 4,
        name: "table".to_owned(),
        constructors: vec![constructor(spaces, vec![])],
        decision_tree: DecisionNode::from_xml(&decision).unwrap(),
    }
}

/// Symbols: 0 epsilon, 1 a varnode in `ram`, 2 a varnode list over 1, 3 a
/// value map over 0, 4 a sub-table, 5 start, 6 end, 7 an operand.
fn table(spaces: &AddressSpaces) -> Vec<Symbol> {
    let ram = spaces.spaces()[1].clone();
    vec![
        Symbol::Epsilon { id: 0, scope: 0, name: "eps".to_owned() },
        Symbol::Varnode { id: 1, scope: 0, name: "r0".to_owned(), space: ram, offset: 0x10, size: 4 },
        Symbol::VarnodeList {
            id: 2,
            scope: 0,
            name: "regs".to_owned(),
            pattern_value: constant(1),
            varnode_table: vec![Some(1), None],
            table_is_filled: false,
        },
        Symbol::ValueMap {
            id: 3,
            scope: 0,
            name: "vals".to_owned(),
            pattern_value: constant(0),
            value_table: vec![0, 0xbadbeef],
            table_is_filled: false,
        },
        subtable(spaces, 4),
        Symbol::Start { id: 5, scope: 0, name: "inst_start".to_owned(), pattern_value: constant(0) },
        Symbol::End { id: 6, scope: 0, name: "inst_next".to_owned(), pattern_value: constant(0) },
        operand(7, 2, None, Some(constant(9))),
    ]
}

fn ram_varnode() -> HandleCode {
    HandleCode::Fixed { space: 1, size: 4, offset: OffsetCode::Constant(0x10) }
}

#[test]
fn handles_of_plain_symbols() {
    let spaces = machine();
    let syms = table(&spaces);
    assert_eq!(generate_handle_resolver(&syms[0], &syms, &spaces, 1), HandleCode::Fixed { space: 0, size: 0, offset: OffsetCode::Zero });
    assert_eq!(generate_handle_resolver(&syms[1], &syms, &spaces, 1), ram_varnode());
    assert_eq!(generate_handle_resolver(&syms[4], &syms, &spaces, 1), HandleCode::Empty);
    assert_eq!(
        generate_handle_resolver(&syms[5], &syms, &spaces, 1),
        HandleCode::Fixed { space: 1, size: 4, offset: OffsetCode::Address }
    );
    assert_eq!(
        generate_handle_resolver(&syms[6], &syms, &spaces, 1),
        HandleCode::Fixed { space: 1, size: 4, offset: OffsetCode::NextAddress }
    );
    assert_eq!(generate_handle_resolver(&syms[7], &syms, &spaces, 1), HandleCode::Operand(2));
    let value = Symbol::Value { id: 8, scope: 0, name: "v".to_owned(), pattern_value: constant(5) };
    assert_eq!(
        generate_handle_resolver(&value, &syms, &spaces, 1),
        HandleCode::Fixed { space: 0, size: 0, offset: OffsetCode::Value(PatternCode::Constant(5)) }
    );
}

#[test]
fn handles_of_tables_choose_among_their_entries() {
    let spaces = machine();
    let syms = table(&spaces);
    assert_eq!(
        generate_handle_resolver(&syms[2], &syms, &spaces, 1),
        HandleCode::Choice { index: PatternCode::Constant(1), cases: vec![Some(ram_varnode()), None] }
    );
    assert_eq!(
        generate_handle_resolver(&syms[3], &syms, &spaces, 1),
        HandleCode::Fixed {
            space: 0,
            size: 0,
            offset: OffsetCode::Table {
                index: PatternCode::Constant(0),
                cases: vec![Some(HandleCode::Fixed { space: 0, size: 0, offset: OffsetCode::Zero }), None],
            },
        }
    );
}

#[test]
fn symbol_patterns_generate_through_their_lowering() {
    let spaces = machine();
    let syms = table(&spaces);
    let e = PatternExpression::Plus(Box::new(constant(2)), Box::new(PatternExpression::EndInstruction));
    assert_eq!(
        generate_symbol_pattern(&e, &syms, 1),
        PatternCode::Plus(Box::new(PatternCode::Constant(2)), Box::new(PatternCode::NextAddress))
    );
}

#[test]
fn operands_of_a_constructor_in_order() {
    let spaces = machine();
    let mut syms = table(&spaces);
    syms.push(operand(8, 0, Some(4), None));
    syms.push(operand(9, 1, Some(3), None));
    let ctor = constructor(
        &spaces,
        vec![el("oper", &[("id", "8")], vec![]), el("oper", &[("id", "7")], vec![]), el("oper", &[("id", "9")], vec![])],
    );
    let ops = generate_constructor_operand_resolvers(&ctor, &syms, &spaces, 1);
    assert_eq!(ops.len(), 3);
    assert_eq!(ops[0].resolver, ResolverCode::Constructor { table: 4, scope: 4 });
    assert_eq!(ops[0].handle, OperandHandleCode::Unset);
    assert_eq!((ops[0].offset_base, ops[0].offset_rela, ops[0].minimum_length), (None, 1, 2));
    assert_eq!(ops[1].resolver, ResolverCode::Any);
    assert_eq!(ops[1].handle, OperandHandleCode::Offset(PatternCode::Constant(9)));
    assert_eq!(ops[2].resolver, ResolverCode::Filter { index: PatternCode::Constant(0), limit: 2, unset: vec![1] });
    assert_eq!(ops[2].handle, OperandHandleCode::Handle(generate_handle_resolver(&syms[3], &syms, &spaces, 1)));
    assert_eq!(generate_operand_resolver(7, &syms, &spaces, 1), ops.into_iter().nth(1).unwrap());
}

#[test]
fn context_changes_split_into_settings_and_commits() {
    let spaces = machine();
    let syms = table(&spaces);
    let ctor = constructor(
        &spaces,
        vec![
            el("context_op", &[("i", "0"), ("shift", "4"), ("mask", "0xf0")], vec![el("intb", &[("val", "3")], vec![])]),
            el("commit", &[("id", "7"), ("number", "1"), ("mask", "0xff"), ("flow", "true")], vec![]),
            el("commit", &[("id", "1"), ("number", "2"), ("mask", "0x0f"), ("flow", "false")], vec![]),
        ],
    );
    let actions = generate_constructor_context_actions(&ctor, &syms, &spaces, 1);
    assert_eq!(actions.pre, vec![ContextSetCode { num: 0, shift: 4, mask: 0xf0, value: PatternCode::Constant(3) }]);
    let d = spaces.default_space_ref();
    let (word_size, highest) = (d.word_size() as u64, d.highest_offset());
    assert_eq!((word_size, highest), (1, 0xffff_ffff));
    assert_eq!(
        actions.post,
        vec![
            ContextCommitCode { index: 0, num: 1, mask: 0xff, handle: CommitHandleCode::Operand(2), word_size, flow: true, highest },
            ContextCommitCode {
                index: 1,
                num: 2,
                mask: 0x0f,
                handle: CommitHandleCode::Handle(ram_varnode()),
                word_size,
                flow: false,
                highest,
            },
        ]
    );
}

#[test]
fn layout_of_spaces_and_context_variables() {
    let spaces = machine();
    let mut syms = table(&spaces);
    syms.push(Symbol::Context {
        id: 8,
        scope: 0,
        name: "mode".to_owned(),
        pattern_value: PatternExpression::ContextField {
            sign_bit: false,
            bit_start: 3,
            bit_end: 5,
            byte_start: 0,
            byte_end: 0,
            shift: 2,
        },
        varnode_id: 0,
        high: 5,
        low: 3,
        flow: true,
    });
    let ids = vec![0, 8, 1];
    let layout = generate_lifter_layout(&spaces, &ids, &syms);
    assert_eq!((layout.address_size, layout.address_bits, layout.address_upper_bound), (4, 32, 0xffff_ffff));
    assert_eq!(layout.space_word_sizes, vec![1, 1, 1, 1]);
    assert_eq!(layout.space_upper_bounds.len(), 4);
    assert_eq!(
        layout.space_offsets,
        vec![
            SpaceOffsetCode::Masked,
            SpaceOffsetCode::Wrapped(0xffff_ffff),
            SpaceOffsetCode::Wrapped(0xffff_ffff),
            SpaceOffsetCode::Unique,
        ]
    );
    assert_eq!(layout.context_variables, vec![("mode".to_owned(), 3, 5)]);
    assert_eq!(collect_context_variables(&vec![1, 0], &syms), vec![]);
}

#[test]
fn symbol_declarations() {
    let spaces = machine();
    let syms = table(&spaces);
    match generate_symbol(&syms[3], &syms, &spaces, 1) {
        SymbolCode::ValueMap { pattern, filter, values } => {
            assert_eq!(format!("{:?}", pattern), format!("{:?}", Lowered::Constant { value: 0 }));
            assert_eq!((filter.unset, filter.limit), (vec![1], 2));
            assert_eq!(values, vec![Some(0), None]);
        }
        other => panic!("{:?}", other),
    }
    match generate_symbol(&syms[2], &syms, &spaces, 1) {
        SymbolCode::VarnodeList { filter, varnodes, names, .. } => {
            assert_eq!((filter.unset, filter.limit), (vec![1], 2));
            assert_eq!(varnodes, vec![Some(1), None]);
            assert_eq!(names, vec![Some("r0".to_owned()), None]);
        }
        other => panic!("{:?}", other),
    }
    match generate_symbol(&syms[1], &syms, &spaces, 1) {
        SymbolCode::Varnode { name, space, offset, size } => assert_eq!((name.as_str(), space, offset, size), ("r0", 1, 0x10, 4)),
        other => panic!("{:?}", other),
    }
    match generate_symbol(&syms[5], &syms, &spaces, 1) {
        SymbolCode::Start { space, size } => assert_eq!((space, size), (1, 4)),
        other => panic!("{:?}", other),
    }
    assert!(matches!(generate_symbol(&syms[4], &syms, &spaces, 1), SymbolCode::Nothing));
    assert!(matches!(generate_symbol(&syms[7], &syms, &spaces, 1), SymbolCode::Operand { handle_index: 2 }));
    let names = Symbol::Name {
        id: 9,
        scope: 0,
        name: "cond".to_owned(),
        pattern_value: constant(0),
        name_table: vec!["eq".to_owned(), "\t".to_owned()],
        table_is_filled: true,
    };
    match generate_symbol(&names, &syms, &spaces, 1) {
        SymbolCode::Name { filter, names, .. } => {
            assert!(filter.is_none());
            assert_eq!(names, vec![Some("eq".to_owned()), None]);
        }
        other => panic!("{:?}", other),
    }
    assert_eq!(syms[6].name(), "inst_next");
}
