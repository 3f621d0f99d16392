use vstd::prelude::*;

verus! {

/// A location of a lifted program: an offset of some size in a numbered
/// address space.
#[derive(Debug, Copy, Clone, PartialEq, Eq, Structural, Hash)]
pub struct VarnodeData {
    pub(crate) space: u32,
    pub(crate) offset: u64,
    pub(crate) size: u32,
}

impl VarnodeData {
    pub closed spec fn spec_space(&self) -> u32 {
        self.space
    }

    pub closed spec fn spec_offset(&self) -> u64 {
        self.offset
    }

    pub closed spec fn spec_size(&self) -> u32 {
        self.size
    }

    /// A location; the size is truncated to 32 bits.
    pub fn new(space: u32, offset: u64, size: usize) -> (r: Self)
        ensures
            r.spec_space() == space,
            r.spec_offset() == offset,
            r.spec_size() == size as u32,
    {
        VarnodeData { space, offset, size: size as u32 }
    }

    /// The address space of the location.
    pub fn space(&self) -> (r: u32)
        ensures
            r == self.spec_space(),
    {
        self.space
    }

    /// The offset of the location.
    pub fn offset(&self) -> (r: u64)
        ensures
            r == self.spec_offset(),
    {
        self.offset
    }

    /// The size of the location in bytes.
    pub fn size(&self) -> (r: usize)
        ensures
            r == self.spec_size(),
    {
        self.size as usize
    }

    /// The size of the location in bits.
    pub fn bits(&self) -> (r: u32)
        requires
            self.spec_size() * 8 <= u32::MAX,
        ensures
            r == self.spec_size() * 8,
    {
        self.size * 8
    }
}

} // verus!
