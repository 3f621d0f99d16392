use vstd::prelude::*;
use vstd::string::to_string_from_display_ensures;

use crate::lifter::pcode::Op;

pub mod handle;
pub mod context;
pub mod layout;
pub mod lowering;
pub mod operand;
pub mod pattern;
pub mod symbol;
use crate::sleigh::opcode::Opcode;

verus! {

/// Why a lifter could not be generated from a language: the language
/// failed, for the reason given.
#[derive(Debug, Clone, PartialEq, Eq)]
pub enum LifterGeneratorError {
    Language(String),
}

impl LifterGeneratorError {
    /// The error for a failure `e` of the language.
    pub fn language<E: std::fmt::Debug + std::fmt::Display>(e: E) -> (r: Self)
        ensures
            r is Language && to_string_from_display_ensures::<E>(&e, r->Language_0),
    {
        LifterGeneratorError::Language(e.to_string())
    }

    /// The error for a failure of the language described by `m`.
    pub fn language_with<M: std::fmt::Debug + std::fmt::Display>(m: M) -> (r: Self)
        ensures
            r is Language && to_string_from_display_ensures::<M>(&m, r->Language_0),
    {
        LifterGeneratorError::Language(m.to_string())
    }
}

/// A p-code operation that has no counterpart among the lifter's
/// operations.
#[derive(Debug, Clone, Copy, PartialEq, Eq)]
pub struct NotUnrepresentable(pub Opcode);

/// The lifter's operation for the p-code operation `op`, where it has one.
pub open spec fn op_of_opcode(op: Opcode) -> Option<Op> {
    match op {
        Opcode::Copy => Some(Op::Copy),
        Opcode::Branch => Some(Op::Branch),
        Opcode::CBranch => Some(Op::CBranch),
        Opcode::IBranch => Some(Op::IBranch),
        Opcode::Call => Some(Op::Call),
        Opcode::ICall => Some(Op::ICall),
        Opcode::Return => Some(Op::Return),
        Opcode::IntEq => Some(Op::IntEq),
        Opcode::IntNotEq => Some(Op::IntNotEq),
        Opcode::IntSLess => Some(Op::IntSignedLess),
        Opcode::IntSLessEq => Some(Op::IntSignedLessEq),
        Opcode::IntLess => Some(Op::IntLess),
        Opcode::IntLessEq => Some(Op::IntLessEq),
        Opcode::IntZExt => Some(Op::ZeroExt),
        Opcode::IntSExt => Some(Op::SignExt),
        Opcode::IntNeg => Some(Op::IntNeg),
        Opcode::IntNot => Some(Op::IntNot),
        Opcode::IntAdd => Some(Op::IntAdd),
        Opcode::IntSub => Some(Op::IntSub),
        Opcode::IntMul => Some(Op::IntMul),
        Opcode::IntDiv => Some(Op::IntDiv),
        Opcode::IntSDiv => Some(Op::IntSignedDiv),
        Opcode::IntRem => Some(Op::IntRem),
        Opcode::IntSRem => Some(Op::IntSignedRem),
        Opcode::IntCarry => Some(Op::IntCarry),
        Opcode::IntSCarry => Some(Op::IntSignedCarry),
        Opcode::IntSBorrow => Some(Op::IntSignedBorrow),
        Opcode::IntAnd => Some(Op::IntAnd),
        Opcode::IntOr => Some(Op::IntOr),
        Opcode::IntXor => Some(Op::IntXor),
        Opcode::IntLShift => Some(Op::IntLeftShift),
        Opcode::IntRShift => Some(Op::IntRightShift),
        Opcode::IntSRShift => Some(Op::IntSignedRightShift),
        Opcode::BoolNot => Some(Op::BoolNot),
        Opcode::BoolAnd => Some(Op::BoolAnd),
        Opcode::BoolOr => Some(Op::BoolOr),
        Opcode::BoolXor => Some(Op::BoolXor),
        Opcode::FloatEq => Some(Op::FloatEq),
        Opcode::FloatNotEq => Some(Op::FloatNotEq),
        Opcode::FloatLess => Some(Op::FloatLess),
        Opcode::FloatLessEq => Some(Op::FloatLessEq),
        Opcode::FloatIsNaN => Some(Op::FloatIsNaN),
        Opcode::FloatAdd => Some(Op::FloatAdd),
        Opcode::FloatSub => Some(Op::FloatSub),
        Opcode::FloatMul => Some(Op::FloatMul),
        Opcode::FloatDiv => Some(Op::FloatDiv),
        Opcode::FloatNeg => Some(Op::FloatNeg),
        Opcode::FloatAbs => Some(Op::FloatAbs),
        Opcode::FloatSqrt => Some(Op::FloatSqrt),
        Opcode::FloatOfInt => Some(Op::IntToFloat),
        Opcode::FloatOfFloat => Some(Op::FloatToFloat),
        Opcode::FloatTruncate => Some(Op::FloatTruncate),
        Opcode::FloatCeiling => Some(Op::FloatCeiling),
        Opcode::FloatFloor => Some(Op::FloatFloor),
        Opcode::FloatRound => Some(Op::FloatRound),
        Opcode::Subpiece => Some(Op::Subpiece),
        Opcode::PopCount => Some(Op::CountOnes),
        Opcode::LZCount => Some(Op::CountZeros),
        _ => None,
    }
}

impl vstd::std_specs::convert::TryFromSpecImpl<Opcode> for Op {
    open spec fn obeys_try_from_spec() -> bool {
        true
    }

    open spec fn try_from_spec(v: Opcode) -> Result<Op, NotUnrepresentable> {
        match op_of_opcode(v) {
            Some(o) => Ok(o),
            None => Err(NotUnrepresentable(v)),
        }
    }
}

impl TryFrom<Opcode> for Op {
    type Error = NotUnrepresentable;

    /// The lifter's operation for `value`; `NotUnrepresentable` with
    /// `value` where it has none.
    fn try_from(value: Opcode) -> (r: Result<Op, NotUnrepresentable>)
        ensures
            match op_of_opcode(value) {
                Some(o) => r == Ok::<Op, NotUnrepresentable>(o),
                None => r == Err::<Op, NotUnrepresentable>(NotUnrepresentable(value)),
            },
    {
        Ok(match value {
            Opcode::Copy => Op::Copy,
            Opcode::Branch => Op::Branch,
            Opcode::CBranch => Op::CBranch,
            Opcode::IBranch => Op::IBranch,
            Opcode::Call => Op::Call,
            Opcode::ICall => Op::ICall,
            Opcode::Return => Op::Return,
            Opcode::IntEq => Op::IntEq,
            Opcode::IntNotEq => Op::IntNotEq,
            Opcode::IntSLess => Op::IntSignedLess,
            Opcode::IntSLessEq => Op::IntSignedLessEq,
            Opcode::IntLess => Op::IntLess,
            Opcode::IntLessEq => Op::IntLessEq,
            Opcode::IntZExt => Op::ZeroExt,
            Opcode::IntSExt => Op::SignExt,
            Opcode::IntNeg => Op::IntNeg,
            Opcode::IntNot => Op::IntNot,
            Opcode::IntAdd => Op::IntAdd,
            Opcode::IntSub => Op::IntSub,
            Opcode::IntMul => Op::IntMul,
            Opcode::IntDiv => Op::IntDiv,
            Opcode::IntSDiv => Op::IntSignedDiv,
            Opcode::IntRem => Op::IntRem,
            Opcode::IntSRem => Op::IntSignedRem,
            Opcode::IntCarry => Op::IntCarry,
            Opcode::IntSCarry => Op::IntSignedCarry,
            Opcode::IntSBorrow => Op::IntSignedBorrow,
            Opcode::IntAnd => Op::IntAnd,
            Opcode::IntOr => Op::IntOr,
            Opcode::IntXor => Op::IntXor,
            Opcode::IntLShift => Op::IntLeftShift,
            Opcode::IntRShift => Op::IntRightShift,
            Opcode::IntSRShift => Op::IntSignedRightShift,
            Opcode::BoolNot => Op::BoolNot,
            Opcode::BoolAnd => Op::BoolAnd,
            Opcode::BoolOr => Op::BoolOr,
            Opcode::BoolXor => Op::BoolXor,
            Opcode::FloatEq => Op::FloatEq,
            Opcode::FloatNotEq => Op::FloatNotEq,
            Opcode::FloatLess => Op::FloatLess,
            Opcode::FloatLessEq => Op::FloatLessEq,
            Opcode::FloatIsNaN => Op::FloatIsNaN,
            Opcode::FloatAdd => Op::FloatAdd,
            Opcode::FloatSub => Op::FloatSub,
            Opcode::FloatMul => Op::FloatMul,
            Opcode::FloatDiv => Op::FloatDiv,
            Opcode::FloatNeg => Op::FloatNeg,
            Opcode::FloatAbs => Op::FloatAbs,
            Opcode::FloatSqrt => Op::FloatSqrt,
            Opcode::FloatOfInt => Op::IntToFloat,
            Opcode::FloatOfFloat => Op::FloatToFloat,
            Opcode::FloatTruncate => Op::FloatTruncate,
            Opcode::FloatCeiling => Op::FloatCeiling,
            Opcode::FloatFloor => Op::FloatFloor,
            Opcode::FloatRound => Op::FloatRound,
            Opcode::Subpiece => Op::Subpiece,
            Opcode::PopCount => Op::CountOnes,
            Opcode::LZCount => Op::CountZeros,
            op => {
                return Err(NotUnrepresentable(op));
            },
        })
    }
}

} // verus!
