use vstd::prelude::*;

verus! {

/// The order in which the bytes of a multi-byte value are stored.
#[derive(Debug, Clone, Copy, PartialEq, Eq, Structural, Hash)]
pub enum Endian {
    Big,
    Little,
}

impl Endian {
    /// Whether the most significant byte comes first.
    pub fn is_big(&self) -> (r: bool)
        ensures
            r == (*self == Endian::Big),
    {
        *self == Endian::Big
    }

    /// Whether the least significant byte comes first.
    pub fn is_little(&self) -> (r: bool)
        ensures
            r == (*self == Endian::Little),
    {
        *self == Endian::Little
    }
}

} // verus!
