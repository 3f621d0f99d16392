use fugue::codegen::pattern::{generate_pattern_resolver, PatternCode};
use fugue::lifter::pattern::{OperandOffset, PatternExpression};

fn token(big_endian: bool, byte_start: usize, byte_end: usize) -> PatternExpression {
    PatternExpression::TokenField {
        big_endian,
        sign_bit: false,
        bit_start: 2,
        bit_end: 9,
        byte_start,
        byte_end,
        shift: 3,
    }
}

#[test]
fn token_reads_are_unrolled() {
    assert_eq!(
        generate_pattern_resolver(&token(false, 1, 6)),
        PatternCode::Token { parts: vec![(1, 4), (5, 2)], swap: Some(6), shift: 3, sign: false, range: 7 }
    );
    assert_eq!(
        generate_pattern_resolver(&token(true, 0, 7)),
        PatternCode::Token { parts: vec![(0, 4), (4, 4)], swap: None, shift: 3, sign: false, range: 7 }
    );
    assert_eq!(
        generate_pattern_resolver(&token(true, 2, 2)),
        PatternCode::Token { parts: vec![(2, 1)], swap: None, shift: 3, sign: false, range: 7 }
    );
}

#[test]
fn context_reads_are_unrolled() {
    let ctx = PatternExpression::ContextField {
        sign_bit: true,
        bit_start: 0,
        bit_end: 3,
        byte_start: 4,
        byte_end: 8,
        shift: 1,
    };
    assert_eq!(
        generate_pattern_resolver(&ctx),
        PatternCode::Context { parts: vec![(4, 4), (8, 1)], shift: 1, sign: true, range: 3 }
    );
    let empty = PatternExpression::ContextField {
        sign_bit: false,
        bit_start: 0,
        bit_end: 0,
        byte_start: 5,
        byte_end: 1,
        shift: 0,
    };
    assert_eq!(
        generate_pattern_resolver(&empty),
        PatternCode::Context { parts: vec![], shift: 0, sign: false, range: 0 }
    );
}

#[test]
fn expressions_keep_their_shape() {
    let c = |v| Box::new(PatternExpression::Constant { value: v });
    let e = PatternExpression::Plus(
        Box::new(PatternExpression::Not(c(1))),
        Box::new(PatternExpression::Minus(Box::new(PatternExpression::StartInstruction))),
    );
    assert_eq!(
        generate_pattern_resolver(&e),
        PatternCode::Plus(
            Box::new(PatternCode::Negate(Box::new(PatternCode::Constant(1)))),
            Box::new(PatternCode::Complement(Box::new(PatternCode::Address)))
        )
    );
    let op = PatternExpression::Operand {
        constructor: 7,
        offset: OperandOffset::Relative(2),
        value: Box::new(PatternExpression::Next2Instruction),
    };
    assert_eq!(
        generate_pattern_resolver(&op),
        PatternCode::Operand {
            constructor: 7,
            offset: OperandOffset::Relative(2),
            value: Box::new(PatternCode::Next2Address)
        }
    );
}
