use arrayvec::ArrayVec;
use fugue::codegen::NotUnrepresentable;
use fugue::sleigh::opcode::Opcode;
use fugue::lifter::context::{ContextBitRange, ContextDatabase, TrackedContext};
use fugue::lifter::error::LifterGeneratorError;
use fugue::lifter::input::ParserInput;
use fugue::lifter::pattern::{ConstructorResolver, OperandOffset, PatternEnv, PatternExpression};
use fugue::lifter::pcode::{Inputs, Op, PCodeBuilderContext, PCodeOp, RelativeRecord, Varnode, INVALID_LABEL};
use fugue::lifter::template::{ConstTpl, HandleKind};
use fugue::lifter::varnode::VarnodeData;

#[test]
fn context_fields_read_back() {
    let bits = ContextBitRange::new(33, 35);
    assert_eq!(bits.word(), 1);
    assert_eq!(bits.start_bit(), 1);
    assert_eq!(bits.end_bit(), 3);
    assert_eq!(bits.shift(), 28);
    assert_eq!(bits.mask(), 0b111);

    let mut db = ContextDatabase::new(u64::MAX);
    assert_eq!(db.register_variable("mode", 0, 1), Some(()));
    assert_eq!(db.register_variable("flag", 34, 34), Some(()));
    assert_eq!(db.size(), 2);
    assert_eq!(db.set_variable_default("mode", 2), Some(()));
    assert_eq!(db.get_variable("mode", 0x1000), Some(2));
    assert_eq!(db.set_variable("mode", 0x2000, 3), Some(()));
    assert_eq!(db.get_variable("mode", 0x1fff), Some(2));
    assert_eq!(db.get_variable("mode", 0x2000), Some(3));
    assert_eq!(db.get_variable("mode", 0x9000), Some(3));
    assert_eq!(db.get_variable("missing", 0), None);
    assert_eq!(db.set_variable("missing", 0, 1), None);
    assert_eq!(db.set_variable_region("flag", 0x3000, Some(0x4000), 1), Some(()));
    assert_eq!(db.get_variable("flag", 0x2fff), Some(0));
    assert_eq!(db.get_variable("flag", 0x3000), Some(1));
    assert_eq!(db.get_variable("flag", 0x3fff), Some(1));
    assert_eq!(db.get_variable("flag", 0x4000), Some(0));
    assert_eq!(db.get_variable("mode", 0x3800), Some(3));
    assert_eq!(db.register_variable("late", 0, 0), None);
    let (words, lo, hi) = db.get_context_bounds(0x3800);
    assert_eq!(words.len(), 2);
    assert_eq!((lo, hi), (0x3000, 0x3fff));
    assert_eq!(db.get_context(0x1000)[0], 2 << 30);
}

#[test]
fn context_by_bits_and_tracked_sets() {
    let mut db = ContextDatabase::new(0xffff);
    assert_eq!(db.register_variable("a", 4, 7), Some(()));
    let bits = *db.variable("a").unwrap();
    db.set_variable_default_by_bits(&bits, 0xf);
    assert_eq!(db.get_variable_by_bits(&bits, 5), 0xf);
    db.set_variable_by_bits(&bits, 0x100, 0x3);
    assert_eq!(db.get_variable_by_bits(&bits, 0x100), 0x3);
    assert_eq!(db.get_variable_by_bits(&bits, 0xff), 0xf);
    db.set_variable_region_by_bits(&bits, 0x200, None, 0x5);
    assert_eq!(db.get_variable_by_bits(&bits, 0x300), 0x5);
    db.set_context_change_point(0x400, 0, 0xffff_ffff, 0);
    assert_eq!(db.get_variable_by_bits(&bits, 0x400), 0);
    db.set_context_region(0x500, Some(0x600), 0, 0x0f00_0000, 0x0a00_0000);
    assert_eq!(db.get_variable_by_bits(&bits, 0x500), 0xa);
    assert!(db.variable_mut("a").is_some());

    let set = db.new_tracked_set(0x10, 0x20);
    set.push(TrackedContext::new(VarnodeData::new(1, 8, 4), 7));
    assert_eq!(db.tracked_set(0x18).len(), 1);
    assert_eq!(db.tracked_set(0x18).get(0).unwrap().value(), 7);
    assert_eq!(db.tracked_set(0x18).get(0).unwrap().location().offset(), 8);
    assert!(db.tracked_set(0x20).is_empty());
    assert!(db.tracked_default().is_empty());
    db.tracked_default_mut().push(TrackedContext::new(VarnodeData::new(2, 0, 1), 1));
    assert!(db.tracked_set(0x30).is_empty());
    assert_eq!(db.tracked_set(0x8).len(), 1);
}

#[test]
fn varnode_data_accessors() {
    let v = VarnodeData::new(3, 0x40, 0x1_0000_0004);
    assert_eq!((v.space(), v.offset(), v.size(), v.bits()), (3, 0x40, 4, 32));
}

#[test]
fn pushed_inputs_spill_into_arg_operations() {
    let a = Varnode::new(1, 0, 4);
    let b = Varnode::new(1, 4, 4);
    let c = Varnode::constant(9, 2);
    let mut ctx = PCodeBuilderContext::new(0xff);
    ctx.push_input(a);
    ctx.push_input(b);
    ctx.push_input(c);
    ctx.issue(Op::Call, Varnode::invalid());
    ctx.push_input(c);
    ctx.issue(Op::Copy, a);
    let ops = ctx.emit();
    assert_eq!(
        ops,
        vec![
            PCodeOp { op: Op::Call, inputs: Inputs::two(a, b), output: Varnode::invalid() },
            PCodeOp { op: Op::Arg(2), inputs: Inputs::one(c), output: Varnode::invalid() },
            PCodeOp { op: Op::Copy, inputs: Inputs::one(c), output: a },
        ]
    );
    assert!(ctx.emit().is_empty());
}

#[test]
fn four_inputs_fill_a_pair() {
    let v = |o| Varnode::new(2, o, 1);
    let mut ctx = PCodeBuilderContext::new(0);
    for o in 0..4 {
        ctx.push_input(v(o));
    }
    ctx.issue(Op::UserOp(3), Varnode::invalid());
    let ops = ctx.emit();
    assert_eq!(ops.len(), 2);
    assert_eq!(ops[1], PCodeOp { op: Op::Arg(1), inputs: Inputs::two(v(2), v(3)), output: Varnode::invalid() });
}

#[test]
fn label_references_become_relative() {
    let mut ctx = PCodeBuilderContext::new(0);
    for _ in 0..2 {
        ctx.issue_with(Op::Copy, Varnode::invalid(), Inputs::default());
    }
    ctx.issue_with(Op::CBranch, Varnode::invalid(), Inputs::two(Varnode::constant(0, 1), Varnode::constant(1, 1)));
    ctx.labels[0] = 5;
    ctx.labels[1] = 0;
    ctx.push_label_ref(RelativeRecord { operation: 2, index: 0 });
    ctx.push_label_ref(RelativeRecord { operation: 2, index: 1 });
    let ops = ctx.emit();
    assert_eq!(ops[2].inputs, Inputs::two(Varnode::constant(3, 1), Varnode::constant(0xfe, 1)));

    let mut ctx = PCodeBuilderContext::new(0);
    ctx.issue_with(Op::Branch, Varnode::invalid(), Inputs::one(Varnode::constant(7, 8)));
    assert_eq!(ctx.labels[7], INVALID_LABEL);
    ctx.push_label_ref(RelativeRecord { operation: 0, index: 0 });
    let ops = ctx.emit();
    assert_eq!(ops[0].inputs, Inputs::one(Varnode::constant(7, 8)));
}

#[test]
fn varnode_and_inputs_helpers() {
    assert!(Varnode::invalid().is_invalid());
    assert!(Varnode::constant(1, 1).is_constant());
    assert_eq!(Varnode::default(), Varnode::invalid());
    let mut i = Inputs::one(Varnode::constant(1, 1));
    assert!(i.is_full());
    i.set_input(1, Varnode::constant(2, 1));
    assert!(!i.is_full());
    assert_eq!(i, Inputs::two(Varnode::constant(1, 1), Varnode::constant(2, 1)));
    let _unused: ArrayVec<u8, 1> = ArrayVec::new();
}

#[test]
fn instruction_bytes_and_bits() {
    let input = ParserInput::<u32>::new(0x1000, &[0x12, 0x34, 0x56, 0x78, 0x9a]);
    assert_eq!(input.address(), 0x1000);
    assert_eq!(input.next_address(), None);
    assert_eq!(input.instruction_bytes(0, 2), Some(0x1234));
    assert_eq!(input.instruction_bytes(1, 4), Some(0x3456_789a));
    assert_eq!(input.instruction_bytes(0, 5), Some(0x3456_789a));
    assert_eq!(input.instruction_bytes(16, 1), Some(0));
    assert_eq!(input.instruction_bytes(17, 1), None);
    assert_eq!(input.instruction_bytes_with(1, 1, 2), Some(0x78));
    assert_eq!(input.instruction_bits(4, 8), Some(0x23));
    assert_eq!(input.instruction_bits(0, 4), Some(0x1));
    assert_eq!(input.instruction_bits_with(0, 8, 1), Some(0x34));
    assert_eq!(input.instruction_bits(200, 8), None);
    assert_eq!(input.len(), 0);
}

#[test]
fn context_bytes_and_bits() {
    let mut db = ContextDatabase::new(u64::MAX);
    db.register_variable("t", 0, 0);
    db.register_variable("w", 32, 39);
    db.set_variable_default("t", 1);
    db.set_variable_default("w", 0xab);
    let mut input = ParserInput::<u32>::new(0, &[]);
    input.set_context(&db);
    assert_eq!(input.context_bits(0, 1), 1);
    assert_eq!(input.context_bits(32, 8), 0xab);
    assert_eq!(input.context_bytes(4, 1), 0xab);
    assert_eq!(input.context_bits(28, 8), 0x0a);
    input.set_context_word(0, 0, 0x8000_0000);
    assert_eq!(input.context_bits(0, 1), 0);
}

#[test]
fn constructor_tree_navigation() {
    let mut input = ParserInput::<u32>::new(0, &[0; 4]);
    assert!(!input.resolved());
    input.set_constructor(7);
    assert_eq!(input.constructor(), 7);
    input.set_offset(0);
    let first = input.allocate_operands(2);
    assert_eq!(first, 1);
    input.push_operand(1);
    assert_eq!(input.operand(), 0);
    input.set_offset(3);
    input.set_current_length(2);
    assert_eq!(input.offset(), 3);
    input.pop_operand();
    assert_eq!(input.operand(), 2);
    assert_eq!(input.offset_for_operand(1), 5);
    input.calculate_length(1, 2);
    assert_eq!(input.len(), 5);
    input.set_delay_slot(1);
    input.base_state();
    assert_eq!(input.constructor(), 7);
}

fn c(v: i64) -> Box<PatternExpression> {
    Box::new(PatternExpression::Constant { value: v })
}

#[test]
fn pattern_expressions_evaluate() {
    let env = PatternEnv { address: 0x1000, next_address: 0x1004, next2_address: None };
    let mut input = ParserInput::<u32>::new(0x1000, &[0x12, 0x34, 0x56, 0x78]);
    let e = PatternExpression::Plus(c(i64::MAX), c(1));
    assert_eq!(e.resolve(&mut input, &env), Some(i64::MIN));
    let e = PatternExpression::Sub(Box::new(PatternExpression::EndInstruction), Box::new(PatternExpression::StartInstruction));
    assert_eq!(e.resolve(&mut input, &env), Some(4));
    assert_eq!(PatternExpression::LeftShift(c(1), c(65)).resolve(&mut input, &env), Some(0));
    assert_eq!(PatternExpression::LeftShift(c(1), c(257)).resolve(&mut input, &env), Some(2));
    assert_eq!(PatternExpression::RightShift(c(-8), c(70)).resolve(&mut input, &env), Some(-1));
    assert_eq!(PatternExpression::Mult(c(3), c(-4)).resolve(&mut input, &env), Some(-12));
    assert_eq!(PatternExpression::Not(c(0)).resolve(&mut input, &env), Some(-1));
    assert_eq!(PatternExpression::Minus(c(5)).resolve(&mut input, &env), Some(-5));
    assert_eq!(PatternExpression::Xor(c(6), c(3)).resolve(&mut input, &env), Some(5));
    assert_eq!(PatternExpression::And(c(6), c(3)).resolve(&mut input, &env), Some(2));
    assert_eq!(PatternExpression::Or(c(6), c(3)).resolve(&mut input, &env), Some(7));
    assert_eq!(PatternExpression::Div(c(6), c(3)).resolve(&mut input, &env), None);
    assert_eq!(PatternExpression::Next2Instruction.resolve(&mut input, &env), None);
    let env2 = PatternEnv { next2_address: Some(0x1008), ..env };
    assert_eq!(PatternExpression::Next2Instruction.resolve(&mut input, &env2), Some(0x1008));
}

#[test]
fn token_fields_read_instruction_bits() {
    let env = PatternEnv { address: 0, next_address: 4, next2_address: None };
    let mut input = ParserInput::<u32>::new(0, &[0x12, 0x34, 0x56, 0x78]);
    let field = |big_endian, sign_bit, bit_start, bit_end, shift| PatternExpression::TokenField {
        big_endian,
        sign_bit,
        bit_start,
        bit_end,
        byte_start: 0,
        byte_end: 1,
        shift,
    };
    assert_eq!(field(true, false, 0, 15, 0).resolve(&mut input, &env), Some(0x1234));
    assert_eq!(field(false, false, 0, 15, 0).resolve(&mut input, &env), Some(0x3412));
    assert_eq!(field(true, false, 0, 3, 4).resolve(&mut input, &env), Some(0x3));
    assert_eq!(field(true, true, 0, 7, 0).resolve(&mut input, &env), Some(0x34));
    let wide = PatternExpression::TokenField {
        big_endian: true,
        sign_bit: true,
        bit_start: 0,
        bit_end: 7,
        byte_start: 0,
        byte_end: 4,
        shift: 0,
    };
    assert_eq!(wide.resolve(&mut input, &env), Some(0));
    let past = PatternExpression::TokenField {
        big_endian: true,
        sign_bit: false,
        bit_start: 0,
        bit_end: 7,
        byte_start: 17,
        byte_end: 17,
        shift: 0,
    };
    assert_eq!(past.resolve(&mut input, &env), None);
}

#[test]
fn token_fields_at_far_positions_fail_or_read_nothing() {
    let env = PatternEnv { address: 0, next_address: 4, next2_address: None };
    let mut input = ParserInput::<u32>::new(0, &[0x12, 0x34, 0x56, 0x78]);
    let far = PatternExpression::TokenField {
        big_endian: true,
        sign_bit: false,
        bit_start: 0,
        bit_end: 7,
        byte_start: 0x1000_0000,
        byte_end: 0x1000_0003,
        shift: 0,
    };
    assert_eq!(far.resolve(&mut input, &env), None);
    let reversed_bits_past_the_buffer = PatternExpression::TokenField {
        big_endian: true,
        sign_bit: false,
        bit_start: 7,
        bit_end: 0,
        byte_start: 20,
        byte_end: 21,
        shift: 0,
    };
    assert_eq!(reversed_bits_past_the_buffer.resolve(&mut input, &env), None);
    let huge_count = PatternExpression::TokenField {
        big_endian: true,
        sign_bit: false,
        bit_start: 0,
        bit_end: 7,
        byte_start: 1,
        byte_end: usize::MAX,
        shift: 0,
    };
    assert_eq!(huge_count.resolve(&mut input, &env), Some(0));
    let empty_context = PatternExpression::ContextField {
        sign_bit: false,
        bit_start: 0,
        bit_end: 7,
        byte_start: 5,
        byte_end: 1,
        shift: 0,
    };
    assert_eq!(empty_context.resolve(&mut input, &env), Some(0));
}

#[test]
fn operand_expressions_use_the_operand_extent() {
    let env = PatternEnv { address: 0, next_address: 4, next2_address: None };
    let mut input = ParserInput::<u32>::new(0, &[0xff, 0x01, 0x80, 0x00]);
    input.set_constructor(1);
    let first = input.allocate_operands(1);
    input.push_operand(0);
    input.set_constructor(2);
    input.set_offset(2);
    input.set_current_length(1);
    input.pop_operand();
    assert_eq!(first, 1);
    let e = PatternExpression::Operand { constructor: 1, offset: OperandOffset::Operand(0), value: c(42) };
    assert_eq!(e.resolve(&mut input, &env), Some(42));
    let e = PatternExpression::Operand { constructor: 9, offset: OperandOffset::Relative(1), value: c(7) };
    assert_eq!(e.resolve(&mut input, &env), Some(7));
    assert_eq!(input.constructor(), 1);
}

#[test]
fn template_constants() {
    let h = ConstTpl::Handle(4, HandleKind::Offset);
    assert_eq!(h.handle_index(), Some(4));
    assert!(!h.is_real());
    assert_eq!(ConstTpl::Real(3).real_value(), 3);
    assert_eq!(ConstTpl::SpaceId(2).real_value(), 0);
    assert_eq!(ConstTpl::Start.handle_index(), None);
}

#[test]
fn generator_errors_keep_their_message() {
    let e = LifterGeneratorError::translator_with("no such language");
    assert_eq!(e, LifterGeneratorError::Translator("no such language".to_owned()));
    let e = LifterGeneratorError::translator(std::fmt::Error);
    assert!(matches!(e, LifterGeneratorError::Translator(_)));
    let e = fugue::codegen::LifterGeneratorError::language_with(42);
    assert_eq!(e, fugue::codegen::LifterGeneratorError::Language("42".to_owned()));
    let e = fugue::codegen::LifterGeneratorError::language(std::fmt::Error);
    assert!(matches!(e, fugue::codegen::LifterGeneratorError::Language(_)));
}

#[test]
fn opcodes_map_to_lifter_operations() {
    assert_eq!(Op::try_from(Opcode::IntSLess), Ok(Op::IntSignedLess));
    assert_eq!(Op::try_from(Opcode::FloatOfInt), Ok(Op::IntToFloat));
    assert_eq!(Op::try_from(Opcode::PopCount), Ok(Op::CountOnes));
    assert_eq!(Op::try_from(Opcode::Copy), Ok(Op::Copy));
    assert_eq!(Op::try_from(Opcode::Load), Err(NotUnrepresentable(Opcode::Load)));
}

struct NextAt8;

impl ConstructorResolver for NextAt8 {
    fn next2_address(input: &ParserInput<u32>) -> Option<u64> {
        Some(input.address() + 8)
    }
}

struct Unparsable;

impl ConstructorResolver for Unparsable {
    fn next2_address(_input: &ParserInput<u32>) -> Option<u64> {
        None
    }
}

#[test]
fn next2_is_found_by_lifting_the_next_instruction() {
    let mut input = ParserInput::<u32>::new(0x1000, &[0x12, 0x34, 0x56, 0x78]);
    let unknown = PatternEnv { address: 0x1000, next_address: 0x1004, next2_address: None };
    let known = PatternEnv { next2_address: Some(0x2000), ..unknown };
    let e = PatternExpression::Plus(Box::new(PatternExpression::Next2Instruction), c(1));
    assert_eq!(e.resolve_with::<NextAt8>(&mut input, &unknown), Some(0x1009));
    assert_eq!(e.resolve_with::<NextAt8>(&mut input, &known), Some(0x2001));
    assert_eq!(e.resolve_with::<Unparsable>(&mut input, &unknown), None);
    assert_eq!(e.resolve(&mut input, &unknown), None);
    assert_eq!(c(5).resolve_with::<Unparsable>(&mut input, &unknown), Some(5));
}
