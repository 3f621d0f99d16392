use vstd::prelude::*;

verus! {

/// The operations of a p-code template, as the generated lifters write them.
#[derive(Debug, Clone, Copy, PartialEq, Eq, Structural)]
pub enum Op {
    Copy,
    Load,
    Store,
    Branch,
    CBranch,
    IBranch,
    Call,
    ICall,
    CallOther,
    Return,
    IntEq,
    IntNotEq,
    IntSLess,
    IntSLessEq,
    IntLess,
    IntLessEq,
    IntZExt,
    IntSExt,
    IntNeg,
    IntNot,
    IntAdd,
    IntSub,
    IntMul,
    IntDiv,
    IntSDiv,
    IntRem,
    IntSRem,
    IntCarry,
    IntSCarry,
    IntSBorrow,
    IntAnd,
    IntOr,
    IntXor,
    IntLShift,
    IntRShift,
    IntSRShift,
    BoolNot,
    BoolAnd,
    BoolOr,
    BoolXor,
    FloatEq,
    FloatNotEq,
    FloatLess,
    FloatLessEq,
    FloatIsNaN,
    FloatAdd,
    FloatSub,
    FloatMul,
    FloatDiv,
    FloatNeg,
    FloatAbs,
    FloatSqrt,
    FloatOfInt,
    FloatOfFloat,
    FloatTruncate,
    FloatCeiling,
    FloatFloor,
    FloatRound,
    Build,
    DelaySlot,
    Piece,
    Subpiece,
    Cast,
    Label,
    CrossBuild,
    SegmentOp,
    CPoolRef,
    New,
    Insert,
    Extract,
    PopCount,
    LZCount,
}

/// Which part of an operand's handle a constant stands for.
#[derive(Debug, Clone, Copy, PartialEq, Eq, Structural)]
pub enum HandleKind {
    Space,
    Offset,
    Size,
    OffsetPlus(u64),
}

/// A constant of a p-code template, fixed once an instruction is parsed; a
/// space is given by its number.
#[derive(Debug, Clone, Copy, PartialEq, Eq, Structural)]
pub enum ConstTpl {
    Real(u64),
    Handle(usize, HandleKind),
    Start,
    Next,
    Next2,
    CurrentSpace,
    CurrentSpaceSize,
    SpaceId(u8),
    Relative(u64),
}

impl ConstTpl {
    /// The plain value of the constant, or 0.
    pub fn real_value(&self) -> (r: u64)
        ensures
            r == match *self {
                ConstTpl::Real(v) => v,
                _ => 0,
            },
    {
        match self {
            ConstTpl::Real(value) => *value,
            _ => 0,
        }
    }

    /// Whether the constant is a plain value.
    pub fn is_real(&self) -> (r: bool)
        ensures
            r == (*self is Real),
    {
        matches!(self, ConstTpl::Real(_))
    }

    /// The operand index of a handle constant.
    pub fn handle_index(&self) -> (r: Option<usize>)
        ensures
            r == match *self {
                ConstTpl::Handle(i, _) => Some(i),
                _ => None,
            },
    {
        if let ConstTpl::Handle(index, _) = self {
            Some(*index)
        } else {
            None
        }
    }
}

/// How a varnode of a template is built.
#[derive(Debug, Clone, Copy, PartialEq, Eq, Structural)]
pub struct VarnodeTpl {
    pub space: ConstTpl,
    pub offset: ConstTpl,
    pub size: ConstTpl,
}

/// How an operand's handle is built.
#[derive(Debug, Clone, Copy, PartialEq, Eq, Structural)]
pub struct HandleTpl {
    pub space: ConstTpl,
    pub size: ConstTpl,
    pub ptr_space: ConstTpl,
    pub ptr_offset: ConstTpl,
    pub ptr_size: ConstTpl,
    pub tmp_space: ConstTpl,
    pub tmp_offset: ConstTpl,
}

/// An operation of a template with its inputs and output.
#[derive(Debug, Clone, Copy)]
pub struct OpTpl {
    pub op: Op,
    pub inputs: &'static [VarnodeTpl],
    pub output: Option<VarnodeTpl>,
}

/// The p-code template of a constructor.
#[derive(Debug, Clone, Copy)]
pub struct ConstructTpl {
    pub delay_slot: usize,
    pub labels: u8,
    pub result: Option<HandleTpl>,
    pub operations: &'static [OpTpl],
}

} // verus!
