use vstd::prelude::*;

use crate::text::str_eq;

verus! {

/// The operations of p-code, the language into which machine instructions
/// are lifted.
#[derive(Debug, Clone, Copy, PartialEq, Eq, Structural, Hash)]
pub enum Opcode {
    Copy,
    Load,
    Store,
    Branch,
    CBranch,
    IBranch,
    Call,
    ICall,
    CallOther,
    Return,
    IntEq,
    IntNotEq,
    IntSLess,
    IntSLessEq,
    IntLess,
    IntLessEq,
    IntZExt,
    IntSExt,
    IntAdd,
    IntSub,
    IntCarry,
    IntSCarry,
    IntSBorrow,
    IntNeg,
    IntNot,
    IntXor,
    IntAnd,
    IntOr,
    IntLShift,
    IntRShift,
    IntSRShift,
    IntMul,
    IntDiv,
    IntSDiv,
    IntRem,
    IntSRem,
    BoolNot,
    BoolXor,
    BoolAnd,
    BoolOr,
    FloatEq,
    FloatNotEq,
    FloatLess,
    FloatLessEq,
    FloatIsNaN,
    FloatAdd,
    FloatDiv,
    FloatMul,
    FloatSub,
    FloatNeg,
    FloatAbs,
    FloatSqrt,
    FloatOfInt,
    FloatOfFloat,
    FloatTruncate,
    FloatCeiling,
    FloatFloor,
    FloatRound,
    Build,
    DelaySlot,
    Piece,
    Subpiece,
    Cast,
    Label,
    CrossBuild,
    SegmentOp,
    CPoolRef,
    New,
    Insert,
    Extract,
    PopCount,
    LZCount,
}

/// The operation that the description names `name`.
pub open spec fn opcode_named(name: Seq<char>) -> Option<Opcode> {
    if name == "COPY"@ {
        Some(Opcode::Copy)
    } else if name == "LOAD"@ {
        Some(Opcode::Load)
    } else if name == "STORE"@ {
        Some(Opcode::Store)
    } else if name == "BRANCH"@ {
        Some(Opcode::Branch)
    } else if name == "CBRANCH"@ {
        Some(Opcode::CBranch)
    } else if name == "BRANCHIND"@ {
        Some(Opcode::IBranch)
    } else if name == "CALL"@ {
        Some(Opcode::Call)
    } else if name == "CALLIND"@ {
        Some(Opcode::ICall)
    } else if name == "CALLOTHER"@ {
        Some(Opcode::CallOther)
    } else if name == "RETURN"@ {
        Some(Opcode::Return)
    } else if name == "INT_EQUAL"@ {
        Some(Opcode::IntEq)
    } else if name == "INT_NOTEQUAL"@ {
        Some(Opcode::IntNotEq)
    } else if name == "INT_SLESS"@ {
        Some(Opcode::IntSLess)
    } else if name == "INT_SLESSEQUAL"@ {
        Some(Opcode::IntSLessEq)
    } else if name == "INT_LESS"@ {
        Some(Opcode::IntLess)
    } else if name == "INT_LESSEQUAL"@ {
        Some(Opcode::IntLessEq)
    } else if name == "INT_ZEXT"@ {
        Some(Opcode::IntZExt)
    } else if name == "INT_SEXT"@ {
        Some(Opcode::IntSExt)
    } else if name == "INT_ADD"@ {
        Some(Opcode::IntAdd)
    } else if name == "INT_SUB"@ {
        Some(Opcode::IntSub)
    } else if name == "INT_CARRY"@ {
        Some(Opcode::IntCarry)
    } else if name == "INT_SCARRY"@ {
        Some(Opcode::IntSCarry)
    } else if name == "INT_SBORROW"@ {
        Some(Opcode::IntSBorrow)
    } else if name == "INT_2COMP"@ {
        Some(Opcode::IntNeg)
    } else if name == "INT_NEGATE"@ {
        Some(Opcode::IntNot)
    } else if name == "INT_XOR"@ {
        Some(Opcode::IntXor)
    } else if name == "INT_AND"@ {
        Some(Opcode::IntAnd)
    } else if name == "INT_OR"@ {
        Some(Opcode::IntOr)
    } else if name == "INT_LEFT"@ {
        Some(Opcode::IntLShift)
    } else if name == "INT_RIGHT"@ {
        Some(Opcode::IntRShift)
    } else if name == "INT_SRIGHT"@ {
        Some(Opcode::IntSRShift)
    } else if name == "INT_MULT"@ {
        Some(Opcode::IntMul)
    } else if name == "INT_DIV"@ {
        Some(Opcode::IntDiv)
    } else if name == "INT_SDIV"@ {
        Some(Opcode::IntSDiv)
    } else if name == "INT_REM"@ {
        Some(Opcode::IntRem)
    } else if name == "INT_SREM"@ {
        Some(Opcode::IntSRem)
    } else if name == "BOOL_NEGATE"@ {
        Some(Opcode::BoolNot)
    } else if name == "BOOL_XOR"@ {
        Some(Opcode::BoolXor)
    } else if name == "BOOL_AND"@ {
        Some(Opcode::BoolAnd)
    } else if name == "BOOL_OR"@ {
        Some(Opcode::BoolOr)
    } else if name == "FLOAT_EQUAL"@ {
        Some(Opcode::FloatEq)
    } else if name == "FLOAT_NOTEQUAL"@ {
        Some(Opcode::FloatNotEq)
    } else if name == "FLOAT_LESS"@ {
        Some(Opcode::FloatLess)
    } else if name == "FLOAT_LESSEQUAL"@ {
        Some(Opcode::FloatLessEq)
    } else if name == "FLOAT_NAN"@ {
        Some(Opcode::FloatIsNaN)
    } else if name == "FLOAT_ADD"@ {
        Some(Opcode::FloatAdd)
    } else if name == "FLOAT_DIV"@ {
        Some(Opcode::FloatDiv)
    } else if name == "FLOAT_MULT"@ {
        Some(Opcode::FloatMul)
    } else if name == "FLOAT_SUB"@ {
        Some(Opcode::FloatSub)
    } else if name == "FLOAT_NEG"@ {
        Some(Opcode::FloatNeg)
    } else if name == "FLOAT_ABS"@ {
        Some(Opcode::FloatAbs)
    } else if name == "FLOAT_SQRT"@ {
        Some(Opcode::FloatSqrt)
    } else if name == "INT2FLOAT"@ {
        Some(Opcode::FloatOfInt)
    } else if name == "FLOAT2FLOAT"@ {
        Some(Opcode::FloatOfFloat)
    } else if name == "TRUNC"@ {
        Some(Opcode::FloatTruncate)
    } else if name == "CEIL"@ {
        Some(Opcode::FloatCeiling)
    } else if name == "FLOOR"@ {
        Some(Opcode::FloatFloor)
    } else if name == "ROUND"@ {
        Some(Opcode::FloatRound)
    } else if name == "BUILD"@ {
        Some(Opcode::Build)
    } else if name == "DELAY_SLOT"@ {
        Some(Opcode::DelaySlot)
    } else if name == "PIECE"@ {
        Some(Opcode::Piece)
    } else if name == "SUBPIECE"@ {
        Some(Opcode::Subpiece)
    } else if name == "CAST"@ {
        Some(Opcode::Cast)
    } else if name == "LABEL"@ {
        Some(Opcode::Label)
    } else if name == "CROSSBUILD"@ {
        Some(Opcode::CrossBuild)
    } else if name == "SEGMENTOP"@ {
        Some(Opcode::SegmentOp)
    } else if name == "CPOOLREF"@ {
        Some(Opcode::CPoolRef)
    } else if name == "NEW"@ {
        Some(Opcode::New)
    } else if name == "INSERT"@ {
        Some(Opcode::Insert)
    } else if name == "EXTRACT"@ {
        Some(Opcode::Extract)
    } else if name == "POPCOUNT"@ {
        Some(Opcode::PopCount)
    } else if name == "LZCOUNT"@ {
        Some(Opcode::LZCount)
    } else {
        None
    }
}

impl Opcode {
    /// The operation that the description names `name`, as the `.sla` format
    /// writes it (such as `INT_ADD`).
    pub fn from_name(name: &str) -> (r: Option<Opcode>)
        ensures
            r == opcode_named(name@),
    {
        if str_eq(name, "COPY") {
            Some(Opcode::Copy)
        } else if str_eq(name, "LOAD") {
            Some(Opcode::Load)
        } else if str_eq(name, "STORE") {
            Some(Opcode::Store)
        } else if str_eq(name, "BRANCH") {
            Some(Opcode::Branch)
        } else if str_eq(name, "CBRANCH") {
            Some(Opcode::CBranch)
        } else if str_eq(name, "BRANCHIND") {
            Some(Opcode::IBranch)
        } else if str_eq(name, "CALL") {
            Some(Opcode::Call)
        } else if str_eq(name, "CALLIND") {
            Some(Opcode::ICall)
        } else if str_eq(name, "CALLOTHER") {
            Some(Opcode::CallOther)
        } else if str_eq(name, "RETURN") {
            Some(Opcode::Return)
        } else if str_eq(name, "INT_EQUAL") {
            Some(Opcode::IntEq)
        } else if str_eq(name, "INT_NOTEQUAL") {
            Some(Opcode::IntNotEq)
        } else if str_eq(name, "INT_SLESS") {
            Some(Opcode::IntSLess)
        } else if str_eq(name, "INT_SLESSEQUAL") {
            Some(Opcode::IntSLessEq)
        } else if str_eq(name, "INT_LESS") {
            Some(Opcode::IntLess)
        } else if str_eq(name, "INT_LESSEQUAL") {
            Some(Opcode::IntLessEq)
        } else if str_eq(name, "INT_ZEXT") {
            Some(Opcode::IntZExt)
        } else if str_eq(name, "INT_SEXT") {
            Some(Opcode::IntSExt)
        } else if str_eq(name, "INT_ADD") {
            Some(Opcode::IntAdd)
        } else if str_eq(name, "INT_SUB") {
            Some(Opcode::IntSub)
        } else if str_eq(name, "INT_CARRY") {
            Some(Opcode::IntCarry)
        } else if str_eq(name, "INT_SCARRY") {
            Some(Opcode::IntSCarry)
        } else if str_eq(name, "INT_SBORROW") {
            Some(Opcode::IntSBorrow)
        } else if str_eq(name, "INT_2COMP") {
            Some(Opcode::IntNeg)
        } else if str_eq(name, "INT_NEGATE") {
            Some(Opcode::IntNot)
        } else if str_eq(name, "INT_XOR") {
            Some(Opcode::IntXor)
        } else if str_eq(name, "INT_AND") {
            Some(Opcode::IntAnd)
        } else if str_eq(name, "INT_OR") {
            Some(Opcode::IntOr)
        } else if str_eq(name, "INT_LEFT") {
            Some(Opcode::IntLShift)
        } else if str_eq(name, "INT_RIGHT") {
            Some(Opcode::IntRShift)
        } else if str_eq(name, "INT_SRIGHT") {
            Some(Opcode::IntSRShift)
        } else if str_eq(name, "INT_MULT") {
            Some(Opcode::IntMul)
        } else if str_eq(name, "INT_DIV") {
            Some(Opcode::IntDiv)
        } else if str_eq(name, "INT_SDIV") {
            Some(Opcode::IntSDiv)
        } else if str_eq(name, "INT_REM") {
            Some(Opcode::IntRem)
        } else if str_eq(name, "INT_SREM") {
            Some(Opcode::IntSRem)
        } else if str_eq(name, "BOOL_NEGATE") {
            Some(Opcode::BoolNot)
        } else if str_eq(name, "BOOL_XOR") {
            Some(Opcode::BoolXor)
        } else if str_eq(name, "BOOL_AND") {
            Some(Opcode::BoolAnd)
        } else if str_eq(name, "BOOL_OR") {
            Some(Opcode::BoolOr)
        } else if str_eq(name, "FLOAT_EQUAL") {
            Some(Opcode::FloatEq)
        } else if str_eq(name, "FLOAT_NOTEQUAL") {
            Some(Opcode::FloatNotEq)
        } else if str_eq(name, "FLOAT_LESS") {
            Some(Opcode::FloatLess)
        } else if str_eq(name, "FLOAT_LESSEQUAL") {
            Some(Opcode::FloatLessEq)
        } else if str_eq(name, "FLOAT_NAN") {
            Some(Opcode::FloatIsNaN)
        } else if str_eq(name, "FLOAT_ADD") {
            Some(Opcode::FloatAdd)
        } else if str_eq(name, "FLOAT_DIV") {
            Some(Opcode::FloatDiv)
        } else if str_eq(name, "FLOAT_MULT") {
            Some(Opcode::FloatMul)
        } else if str_eq(name, "FLOAT_SUB") {
            Some(Opcode::FloatSub)
        } else if str_eq(name, "FLOAT_NEG") {
            Some(Opcode::FloatNeg)
        } else if str_eq(name, "FLOAT_ABS") {
            Some(Opcode::FloatAbs)
        } else if str_eq(name, "FLOAT_SQRT") {
            Some(Opcode::FloatSqrt)
        } else if str_eq(name, "INT2FLOAT") {
            Some(Opcode::FloatOfInt)
        } else if str_eq(name, "FLOAT2FLOAT") {
            Some(Opcode::FloatOfFloat)
        } else if str_eq(name, "TRUNC") {
            Some(Opcode::FloatTruncate)
        } else if str_eq(name, "CEIL") {
            Some(Opcode::FloatCeiling)
        } else if str_eq(name, "FLOOR") {
            Some(Opcode::FloatFloor)
        } else if str_eq(name, "ROUND") {
            Some(Opcode::FloatRound)
        } else if str_eq(name, "BUILD") {
            Some(Opcode::Build)
        } else if str_eq(name, "DELAY_SLOT") {
            Some(Opcode::DelaySlot)
        } else if str_eq(name, "PIECE") {
            Some(Opcode::Piece)
        } else if str_eq(name, "SUBPIECE") {
            Some(Opcode::Subpiece)
        } else if str_eq(name, "CAST") {
            Some(Opcode::Cast)
        } else if str_eq(name, "LABEL") {
            Some(Opcode::Label)
        } else if str_eq(name, "CROSSBUILD") {
            Some(Opcode::CrossBuild)
        } else if str_eq(name, "SEGMENTOP") {
            Some(Opcode::SegmentOp)
        } else if str_eq(name, "CPOOLREF") {
            Some(Opcode::CPoolRef)
        } else if str_eq(name, "NEW") {
            Some(Opcode::New)
        } else if str_eq(name, "INSERT") {
            Some(Opcode::Insert)
        } else if str_eq(name, "EXTRACT") {
            Some(Opcode::Extract)
        } else if str_eq(name, "POPCOUNT") {
            Some(Opcode::PopCount)
        } else if str_eq(name, "LZCOUNT") {
            Some(Opcode::LZCount)
        } else {
            None
        }
    }
}

} // verus!
