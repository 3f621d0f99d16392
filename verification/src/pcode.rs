use vstd::prelude::*;

use crate::sleigh::deserialise::{DeserialiseError, XmlElement};
use crate::sleigh::opcode::Opcode;
use crate::sleigh::space::{space_fields, space_read_as, AddressSpace, AddressSpaceId};
use crate::sleigh::spaces::{
    child_error, child_ok, first_bad_upto, last_named, lemma_first_bad_stays,
    lemma_last_named_bound, spaces_fit,
};
use crate::text::str_eq;

verus! {

/// An address: an offset in an address space.
#[derive(Debug, Clone, Copy, PartialEq, Eq, Structural, Hash)]
pub struct Address {
    pub space: AddressSpaceId,
    pub offset: u64,
}

impl Address {
    /// The address `offset` in `space`.
    pub fn new(space: &AddressSpace, offset: u64) -> (r: Self)
        ensures
            r == (Address { space: space.spec_id(), offset }),
    {
        Address { space: space.id(), offset }
    }
}

/// A location of lifted p-code: an offset of some size in an address space.
#[derive(Debug, Clone, Copy)]
pub struct VarnodeData<'a> {
    space: &'a AddressSpace,
    pub(crate) offset: u64,
    pub(crate) size: usize,
}

impl<'a> VarnodeData<'a> {
    pub closed spec fn spec_space(&self) -> AddressSpace {
        *self.space
    }

    pub closed spec fn spec_offset(&self) -> u64 {
        self.offset
    }

    pub closed spec fn spec_size(&self) -> usize {
        self.size
    }

    /// The location `offset` of `size` bytes in `space`.
    pub fn new(space: &'a AddressSpace, offset: u64, size: usize) -> (r: Self)
        ensures
            r.spec_space() == *space,
            r.spec_offset() == offset,
            r.spec_size() == size,
    {
        VarnodeData { space, offset, size }
    }

    /// The address of the location.
    pub fn address(&self) -> (r: Address)
        ensures
            r == (Address { space: self.spec_space().spec_id(), offset: self.spec_offset() }),
    {
        Address::new(self.space, self.offset)
    }

    /// The address space of the location.
    pub fn space(&self) -> (r: &'a AddressSpace)
        ensures
            *r == self.spec_space(),
    {
        self.space
    }

    /// The offset of the location.
    pub fn offset(&self) -> (r: u64)
        ensures
            r == self.spec_offset(),
    {
        self.offset
    }

    /// The size of the location in bytes.
    pub fn size(&self) -> (r: usize)
        ensures
            r == self.spec_size(),
    {
        self.size
    }
}

/// The address spaces of a processor, with the positions of the constant,
/// default and unique spaces among them.
#[derive(Debug)]
pub struct SpaceManager {
    spaces: Vec<AddressSpace>,
    constant_space: usize,
    default_space: usize,
    unique_space: usize,
}

impl SpaceManager {
    /// The default space is among the spaces.
    #[verifier::type_invariant]
    closed spec fn inv(&self) -> bool {
        self.default_space < self.spaces@.len()
    }

    pub closed spec fn spec_spaces(&self) -> Seq<AddressSpace> {
        self.spaces@
    }

    pub closed spec fn spec_constant_index(&self) -> int {
        self.constant_space as int
    }

    pub closed spec fn spec_default_index(&self) -> int {
        self.default_space as int
    }

    pub closed spec fn spec_unique_index(&self) -> int {
        self.unique_space as int
    }

    /// The address `offset` in the first space named `space`.
    pub fn address_from(&self, space: &str, offset: u64) -> (r: Option<Address>)
        ensures
            match r {
                Some(a) => exists|i: int|
                    0 <= i < self.spec_spaces().len() && self.spec_spaces()[i].def().spec_name() == space@
                        && a == (Address { space: self.spec_spaces()[i].spec_id(), offset }),
                None => forall|i: int|
                    0 <= i < self.spec_spaces().len() ==> (#[trigger] self.spec_spaces()[i]).def().spec_name()
                        != space@,
            },
    {
        let s = self.space_by_name(space)?;
        Some(Address::new(s, offset))
    }

    /// The address size of the default space.
    pub fn address_size(&self) -> (r: usize)
        ensures
            r == self.spec_spaces()[self.spec_default_index()].def().spec_address_size(),
    {
        proof {
            use_type_invariant(self);
        }
        self.spaces[self.default_space].address_size()
    }

    /// The spaces, in order.
    pub fn spaces(&self) -> (r: &[AddressSpace])
        ensures
            r@ == self.spec_spaces(),
    {
        self.spaces.as_slice()
    }

    /// The first space named `name`.
    pub fn space_by_name(&self, name: &str) -> (r: Option<&AddressSpace>)
        ensures
            match r {
                Some(s) => exists|i: int|
                    0 <= i < self.spec_spaces().len() && *s == self.spec_spaces()[i] && s.def().spec_name()
                        == name@ && forall|j: int|
                        0 <= j < i ==> (#[trigger] self.spec_spaces()[j]).def().spec_name() != name@,
                None => forall|i: int|
                    0 <= i < self.spec_spaces().len() ==> (#[trigger] self.spec_spaces()[i]).def().spec_name()
                        != name@,
            },
    {
        let n = self.spaces.len();
        let mut i: usize = 0;
        while i < n
            invariant
                i <= n == self.spec_spaces().len(),
                forall|j: int| 0 <= j < i ==> (#[trigger] self.spec_spaces()[j]).def().spec_name() != name@,
            decreases n - i,
        {
            if str_eq(self.spaces[i].name(), name) {
                return Some(&self.spaces[i]);
            }
            i = i + 1;
        }
        None
    }

    /// The constant space, if its position holds one.
    pub fn constant_space(&self) -> (r: Option<&AddressSpace>)
        ensures
            match r {
                Some(s) => self.spec_constant_index() < self.spec_spaces().len() && *s
                    == self.spec_spaces()[self.spec_constant_index()],
                None => self.spec_constant_index() >= self.spec_spaces().len(),
            },
    {
        if self.constant_space < self.spaces.len() {
            Some(&self.spaces[self.constant_space])
        } else {
            None
        }
    }

    /// The default space, if its position holds one.
    pub fn default_space(&self) -> (r: Option<&AddressSpace>)
        ensures
            match r {
                Some(s) => self.spec_default_index() < self.spec_spaces().len() && *s
                    == self.spec_spaces()[self.spec_default_index()],
                None => self.spec_default_index() >= self.spec_spaces().len(),
            },
    {
        if self.default_space < self.spaces.len() {
            Some(&self.spaces[self.default_space])
        } else {
            None
        }
    }

    /// The unique space, if its position holds one.
    pub fn unique_space(&self) -> (r: Option<&AddressSpace>)
        ensures
            match r {
                Some(s) => self.spec_unique_index() < self.spec_spaces().len() && *s
                    == self.spec_spaces()[self.spec_unique_index()],
                None => self.spec_unique_index() >= self.spec_spaces().len(),
            },
    {
        if self.unique_space < self.spaces.len() {
            Some(&self.spaces[self.unique_space])
        } else {
            None
        }
    }

    /// Reads the spaces from a `spaces` element: the constant space first,
    /// then one space for each child, whose index must be its position; the
    /// space named `unique` must be among them, and the last space named by
    /// `defaultspace` (if any) is the default one.
    pub fn from_xml(input: &XmlElement) -> (r: Result<Self, DeserialiseError>)
        requires
            spaces_fit(input),
        ensures
            input.tag@ != "spaces"@ ==> r is Err && r->Err_0 is TagUnexpected && r->Err_0->TagUnexpected_0@
                == input.tag@,
            input.tag@ == "spaces"@ && input.spec_attr("defaultspace"@) is None ==> r is Err && r->Err_0
                == DeserialiseError::AttributeExpected("defaultspace"),
            input.tag@ == "spaces"@ && input.spec_attr("defaultspace"@) is Some ==> {
                let cs = input.children@;
                let dn = input.spec_attr("defaultspace"@)->0;
                let bad = first_bad_upto(cs, cs.len() as int);
                if bad >= 0 {
                    r is Err && child_error(r->Err_0, &cs[bad])
                } else if last_named(cs, cs.len() as int, "unique"@) == 0 {
                    r is Err && r->Err_0 == DeserialiseError::Invariant("unique space not defined")
                } else {
                    &&& r is Ok
                    &&& r->Ok_0.spec_spaces().len() == cs.len() + 1
                    &&& r->Ok_0.spec_spaces()[0] is Constant
                    &&& r->Ok_0.spec_spaces()[0].def().spec_name() == "const"@
                    &&& forall|i: int|
                        1 <= i <= cs.len() ==> space_read_as(
                            #[trigger] r->Ok_0.spec_spaces()[i],
                            &cs[i - 1],
                            space_fields(&cs[i - 1])->Ok_0,
                        )
                    &&& r->Ok_0.spec_constant_index() == 0
                    &&& r->Ok_0.spec_default_index() == last_named(cs, cs.len() as int, dn)
                    &&& r->Ok_0.spec_unique_index() == last_named(cs, cs.len() as int, "unique"@)
                }
            },
    {
        let tag = input.tag_name();
        if !str_eq(tag, "spaces") {
            return Err(DeserialiseError::TagUnexpected(tag.to_owned()));
        }
        let default_name = match input.attribute("defaultspace") {
            Some(v) => v,
            None => {
                return Err(DeserialiseError::AttributeExpected("defaultspace"));
            },
        };
        let ghost cs = input.children@;
        let ghost dn = default_name@;
        let mut spaces: Vec<AddressSpace> = Vec::new();
        spaces.push(AddressSpace::constant("const", 0));
        let mut default_space: usize = 0;
        let mut unique_space: usize = 0;
        let n = input.children.len();
        let mut j: usize = 0;
        while j < n
            invariant
                j <= n,
                n == cs.len(),
                cs == input.children@,
                dn == default_name@,
                input.tag@ == "spaces"@,
                input.spec_attr("defaultspace"@) == Some(dn),
                spaces_fit(input),
                first_bad_upto(cs, j as int) == -1,
                spaces@.len() == j + 1,
                spaces@[0] is Constant,
                spaces@[0].def().spec_name() == "const"@,
                forall|i: int|
                    1 <= i <= j ==> space_read_as(#[trigger] spaces@[i], &cs[i - 1], space_fields(&cs[i - 1])->Ok_0),
                default_space == last_named(cs, j as int, dn),
                unique_space == last_named(cs, j as int, "unique"@),
            decreases n - j,
        {
            let child = &input.children[j];
            let index = j + 1;
            let space = match AddressSpace::from_xml(child) {
                Ok(s) => s,
                Err(e) => {
                    proof {
                        assert(!child_ok(&cs[j as int], index as int));
                        assert(first_bad_upto(cs, index as int) == j);
                        lemma_first_bad_stays(cs, index as int, n as int);
                    }
                    return Err(e);
                },
            };
            if space.index() != index {
                proof {
                    assert(!child_ok(&cs[j as int], index as int));
                    assert(first_bad_upto(cs, index as int) == j);
                    lemma_first_bad_stays(cs, index as int, n as int);
                }
                return Err(DeserialiseError::Invariant("space index mismatch"));
            }
            if str_eq(space.name(), default_name) {
                default_space = index;
            }
            if str_eq(space.name(), "unique") {
                unique_space = index;
            }
            spaces.push(space);
            proof {
                assert(child_ok(&cs[j as int], index as int));
            }
            j = index;
        }
        proof {
            lemma_last_named_bound(cs, n as int, dn);
            lemma_last_named_bound(cs, n as int, "unique"@);
        }
        if unique_space == 0 {
            return Err(DeserialiseError::Invariant("unique space not defined"));
        }
        Ok(SpaceManager { spaces, constant_space: 0, default_space, unique_space })
    }
}

/// A p-code operation with its output, if any, and its inputs.
#[derive(Debug, Clone)]
pub struct PCodeData<'a> {
    pub opcode: Opcode,
    pub output: Option<VarnodeData<'a>>,
    pub inputs: Vec<VarnodeData<'a>>,
}

/// The p-code of one instruction: its address, its operations, the number
/// of delay slots it has, and its length in bytes.
#[derive(Debug, Clone)]
pub struct PCode<'a> {
    pub address: Address,
    pub operations: Vec<PCodeData<'a>>,
    pub delay_slots: usize,
    pub length: usize,
}

impl<'a> PCode<'a> {
    /// The p-code of an instruction of `length` bytes at `address` that does
    /// nothing.
    pub fn nop(address: Address, length: usize) -> (r: Self)
        ensures
            r.address == address,
            r.operations@.len() == 0,
            r.delay_slots == 0,
            r.length == length,
    {
        PCode { address, operations: Vec::new(), delay_slots: 0, length }
    }

    /// The address of the instruction.
    pub fn address(&self) -> (r: &Address)
        ensures
            *r == self.address,
    {
        &self.address
    }

    /// The operations, in order.
    pub fn operations(&self) -> (r: &[PCodeData<'a>])
        ensures
            r@ == self.operations@,
    {
        self.operations.as_slice()
    }

    /// The number of delay slots.
    pub fn delay_slots(&self) -> (r: usize)
        ensures
            r == self.delay_slots,
    {
        self.delay_slots
    }

    /// The length of the instruction in bytes.
    pub fn length(&self) -> (r: usize)
        ensures
            r == self.length,
    {
        self.length
    }
}

/// A use of a label: input `index` of instruction-relative operation
/// `instruction`.
#[derive(Debug)]
pub struct RelativeRecord {
    instruction: usize,
    index: usize,
}

impl RelativeRecord {
    pub closed spec fn spec_instruction(&self) -> usize {
        self.instruction
    }

    pub closed spec fn spec_index(&self) -> usize {
        self.index
    }

    /// The use of a label by input `index` of operation `instruction`.
    pub fn new(instruction: usize, index: usize) -> (r: Self)
        ensures
            r.spec_instruction() == instruction,
            r.spec_index() == index,
    {
        RelativeRecord { instruction, index }
    }
}

} // verus!
