use vstd::prelude::*;

use crate::sleigh::space::{AddressSpace, AddressSpaceId, ID_CONSTANT_SPACE, id_bits};

verus! {

/// A location of a processor description: an offset of some size in an
/// address space.
#[derive(Debug, Copy, Clone, PartialEq, Eq, Structural, Hash)]
pub struct VarnodeData {
    pub(crate) space: AddressSpaceId,
    pub(crate) offset: u64,
    pub(crate) size: u32,
}

impl VarnodeData {
    pub closed spec fn spec_space(&self) -> AddressSpaceId {
        self.space
    }

    pub closed spec fn spec_offset(&self) -> u64 {
        self.offset
    }

    pub closed spec fn spec_size(&self) -> u32 {
        self.size
    }

    /// A location in `space`; the size is truncated to 32 bits.
    pub fn new(space: &AddressSpace, offset: u64, size: usize) -> (r: Self)
        ensures
            r.spec_space() == space.spec_id(),
            r.spec_offset() == offset,
            r.spec_size() == size as u32,
    {
        VarnodeData { space: space.id(), offset, size: size as u32 }
    }

    /// The identifier of the address space of the location.
    pub fn space(&self) -> (r: AddressSpaceId)
        ensures
            r == self.spec_space(),
    {
        self.space
    }

    /// The offset of the location.
    pub fn offset(&self) -> (r: u64)
        ensures
            r == self.spec_offset(),
    {
        self.offset
    }

    /// The size of the location in bytes.
    pub fn size(&self) -> (r: usize)
        ensures
            r == self.spec_size(),
    {
        self.size as usize
    }

    /// The size of the location in bits.
    pub fn bits(&self) -> (r: u32)
        requires
            self.spec_size() * 8 <= u32::MAX,
        ensures
            r == self.spec_size() * 8,
    {
        self.size * 8
    }
}

impl Default for VarnodeData {
    /// The empty location at offset zero of the first constant space.
    fn default() -> (r: Self)
        ensures
            r.spec_space().spec_bits() == id_bits(0, ID_CONSTANT_SPACE),
            r.spec_offset() == 0,
            r.spec_size() == 0,
    {
        VarnodeData { space: AddressSpaceId::constant_id(0), offset: 0, size: 0 }
    }
}

} // verus!
