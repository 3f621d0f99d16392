use vstd::prelude::*;

verus! {

/// A piece of how a constructor prints: one of its operands, or fixed text.
#[derive(Debug, Clone, Copy, PartialEq, Eq)]
pub enum PrintPiece {
    Operand(usize),
    Token(&'static str),
}

} // verus!
