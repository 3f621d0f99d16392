use vstd::prelude::*;
use vstd::string::*;

use crate::bits::{as_i64_pattern, byte_mask, calculate_mask};
use crate::text::str_eq;
use crate::sleigh::deserialise::{bool_attr, usize_attr, usize_attr_opt, DeserialiseError, XmlElement};

verus! {

/// What an address space is used for.
#[derive(Debug, Clone, Copy, PartialEq, Eq, Structural, Hash)]
pub enum AddressSpaceKind {
    Constant,
    Default,
    Processor,
    Internal,
    Register,
}

/// Flag bit: the space is big endian.
pub const PROPERTY_BIG_ENDIAN: u32 = 1;
/// Flag bit: the space takes part in heritage.
pub const PROPERTY_HERITAGED: u32 = 2;
/// Flag bit: dead code elimination runs on the space.
pub const PROPERTY_DOES_DEADCODE: u32 = 4;
/// Flag bit: the space is specific to one program.
pub const PROPERTY_PROGRAM_SPECIFIC: u32 = 8;
/// Flag bit: values in the space are reverse justified.
pub const PROPERTY_REVERSE_JUSTIFICATION: u32 = 16;
/// Flag bit: the space is an overlay.
pub const PROPERTY_OVERLAY: u32 = 32;
/// Flag bit: the space is the base of an overlay.
pub const PROPERTY_OVERLAY_BASE: u32 = 64;
/// Flag bit: the space has been truncated.
pub const PROPERTY_TRUNCATED: u32 = 128;
/// Flag bit: the space has physical backing.
pub const PROPERTY_HAS_PHYSICAL: u32 = 256;
/// Every defined flag bit.
pub const PROPERTY_ALL: u32 = 0x1ff;

/// A set of address space property flags.
#[derive(Debug, Clone, Copy, PartialEq, Eq, Structural, Hash)]
pub struct AddressSpaceProperty(pub(crate) u32);

impl AddressSpaceProperty {
    /// The raw bits of the set.
    pub closed spec fn spec_bits(&self) -> u32 {
        self.0
    }

    /// Whether every bit of `flag` is in the set.
    pub open spec fn has(&self, flag: u32) -> bool {
        self.spec_bits() & flag == flag
    }

    /// The empty set.
    pub fn empty() -> (r: Self)
        ensures
            r.spec_bits() == 0,
    {
        AddressSpaceProperty(0)
    }

    /// The set holding the defined flags among `bits`; undefined bits are dropped.
    pub fn from_bits_truncate(bits: u32) -> (r: Self)
        ensures
            r.spec_bits() == bits & PROPERTY_ALL,
    {
        AddressSpaceProperty(bits & PROPERTY_ALL)
    }

    /// The raw bits of the set.
    pub fn bits(&self) -> (r: u32)
        ensures
            r == self.spec_bits(),
    {
        self.0
    }

    /// Whether no flag is set.
    pub fn is_empty(&self) -> (r: bool)
        ensures
            r == (self.spec_bits() == 0),
    {
        self.0 == 0
    }

    /// Whether every flag of `other` is in the set.
    pub fn contains(&self, other: Self) -> (r: bool)
        ensures
            r == (self.spec_bits() & other.spec_bits() == other.spec_bits()),
    {
        self.0 & other.0 == other.0
    }

    /// The flags that are in either set.
    pub fn union(self, other: Self) -> (r: Self)
        ensures
            r.spec_bits() == self.spec_bits() | other.spec_bits(),
    {
        AddressSpaceProperty(self.0 | other.0)
    }

    /// The flags that are in both sets.
    pub fn intersection(self, other: Self) -> (r: Self)
        ensures
            r.spec_bits() == self.spec_bits() & other.spec_bits(),
    {
        AddressSpaceProperty(self.0 & other.0)
    }

    /// The flags of `self` that are not in `other`.
    pub fn difference(self, other: Self) -> (r: Self)
        ensures
            r.spec_bits() == self.spec_bits() & !other.spec_bits(),
    {
        AddressSpaceProperty(self.0 & !other.0)
    }

    /// Whether any flag is set.
    pub fn is_set(&self) -> (r: bool)
        ensures
            r == (self.spec_bits() != 0),
    {
        !self.is_empty()
    }

    /// Whether the space is big endian.
    pub fn is_big_endian(&self) -> (r: bool)
        ensures
            r == self.has(PROPERTY_BIG_ENDIAN),
    {
        self.0 & PROPERTY_BIG_ENDIAN == PROPERTY_BIG_ENDIAN
    }

    /// Whether the space takes part in heritage.
    pub fn is_heritaged(&self) -> (r: bool)
        ensures
            r == self.has(PROPERTY_HERITAGED),
    {
        self.0 & PROPERTY_HERITAGED == PROPERTY_HERITAGED
    }

    /// Whether dead code elimination runs on the space.
    pub fn does_deadcode(&self) -> (r: bool)
        ensures
            r == self.has(PROPERTY_DOES_DEADCODE),
    {
        self.0 & PROPERTY_DOES_DEADCODE == PROPERTY_DOES_DEADCODE
    }

    /// Whether the space is specific to one program.
    pub fn is_program_specific(&self) -> (r: bool)
        ensures
            r == self.has(PROPERTY_PROGRAM_SPECIFIC),
    {
        self.0 & PROPERTY_PROGRAM_SPECIFIC == PROPERTY_PROGRAM_SPECIFIC
    }

    /// Whether values in the space are reverse justified.
    pub fn is_reverse_justified(&self) -> (r: bool)
        ensures
            r == self.has(PROPERTY_REVERSE_JUSTIFICATION),
    {
        self.0 & PROPERTY_REVERSE_JUSTIFICATION == PROPERTY_REVERSE_JUSTIFICATION
    }

    /// Whether the space is an overlay.
    pub fn is_overlay(&self) -> (r: bool)
        ensures
            r == self.has(PROPERTY_OVERLAY),
    {
        self.0 & PROPERTY_OVERLAY == PROPERTY_OVERLAY
    }

    /// Whether the space is the base of an overlay.
    pub fn is_overlay_base(&self) -> (r: bool)
        ensures
            r == self.has(PROPERTY_OVERLAY_BASE),
    {
        self.0 & PROPERTY_OVERLAY_BASE == PROPERTY_OVERLAY_BASE
    }

    /// Whether the space has been truncated.
    pub fn is_truncated(&self) -> (r: bool)
        ensures
            r == self.has(PROPERTY_TRUNCATED),
    {
        self.0 & PROPERTY_TRUNCATED == PROPERTY_TRUNCATED
    }

    /// Whether the space has physical backing.
    pub fn has_physical(&self) -> (r: bool)
        ensures
            r == self.has(PROPERTY_HAS_PHYSICAL),
    {
        self.0 & PROPERTY_HAS_PHYSICAL == PROPERTY_HAS_PHYSICAL
    }
}

/// The highest offset of a space whose addresses take `address_size` bytes
/// and whose words take `word_size` bytes.
pub open spec fn highest_offset_of(address_size: usize, word_size: usize) -> int {
    byte_mask(address_size as int) * word_size + (word_size - 1)
}

/// Whether the highest offset of such a space is representable.
pub open spec fn highest_fits(address_size: usize, word_size: usize) -> bool {
    word_size >= 1 && highest_offset_of(address_size, word_size) <= u64::MAX
}

/// Computes the highest offset of a space, checking that it is representable.
fn compute_highest(address_size: usize, word_size: usize) -> (r: u64)
    requires
        highest_fits(address_size, word_size),
    ensures
        r == highest_offset_of(address_size, word_size),
{
    let mask = calculate_mask(address_size);
    let ws = word_size as u64;
    proof {
        assert(mask * ws <= u64::MAX) by (nonlinear_arith)
            requires
                mask * ws + (ws - 1) <= u64::MAX,
                ws >= 1,
        ;
    }
    mask * ws + (ws - 1)
}


/// The remainder of `a` divided by `b` rounded towards zero: it takes the
/// sign of `a` and is smaller than `b` in magnitude.
pub open spec fn trunc_rem(a: int, b: int) -> int {
    let m = if b < 0 { -b } else { b };
    if a >= 0 {
        a % m
    } else {
        -((-a) % m)
    }
}

/// The adjusted remainder computed when `offset` lies beyond `highest`: both
/// are read as signed 64-bit values, the remainder of the offset by
/// `highest + 1` is taken, and a negative remainder is moved up by the
/// divisor.
pub open spec fn wrap_remainder(highest: u64, offset: u64) -> int {
    let m = as_i64_pattern(highest + 1);
    let r = trunc_rem(as_i64_pattern(offset as int), m);
    if r < 0 {
        r + m
    } else {
        r
    }
}

/// The offset wrapped into a space whose highest offset is `highest`.
pub open spec fn wrap_offset_spec(highest: u64, offset: u64) -> int {
    if offset <= highest {
        offset as int
    } else {
        wrap_remainder(highest, offset) % 0x1_0000_0000_0000_0000
    }
}

/// Whether wrapping stays within signed 64-bit arithmetic (the adjustment of
/// a negative remainder does not overflow).
pub open spec fn wrap_offset_defined(highest: u64, offset: u64) -> bool {
    offset <= highest || wrap_remainder(highest, offset) >= -0x8000_0000_0000_0000
}

proof fn lemma_wrap_small_divisor(highest: u64, offset: u64)
    requires
        offset > highest,
        highest < 0x7fff_ffff_ffff_ffff,
    ensures
        offset < 0x8000_0000_0000_0000 ==> wrap_remainder(highest, offset) == (offset as int)
            % (highest + 1),
        offset >= 0x8000_0000_0000_0000 ==> wrap_remainder(highest, offset) == (if (
        0x1_0000_0000_0000_0000 - offset) % (highest + 1) == 0 {
            0
        } else {
            (highest + 1) - (0x1_0000_0000_0000_0000 - offset) % (highest + 1)
        }),
        0 <= wrap_remainder(highest, offset) <= highest,
{
    let m = highest + 1;
    assert(as_i64_pattern(m) == m) by {
        vstd::arithmetic::div_mod::lemma_small_mod(m as nat, 0x1_0000_0000_0000_0000);
    }
    vstd::arithmetic::div_mod::lemma_small_mod(offset as nat, 0x1_0000_0000_0000_0000);
    if offset >= 0x8000_0000_0000_0000 {
        let a = 0x1_0000_0000_0000_0000 - offset;
        assert(as_i64_pattern(offset as int) == -a);
        vstd::arithmetic::div_mod::lemma_mod_bound(a, m as int);
    } else {
        vstd::arithmetic::div_mod::lemma_mod_bound(offset as int, m as int);
    }
}

proof fn lemma_wrap_large_divisor(highest: u64, offset: u64)
    requires
        offset > highest,
        highest >= 0x7fff_ffff_ffff_ffff,
    ensures
        offset == highest + 1 ==> wrap_remainder(highest, offset) == 0,
        offset > highest + 1 ==> wrap_remainder(highest, offset) == (offset as int) + (highest
            + 1) - 0x2_0000_0000_0000_0000,
{
    let m = highest + 1;
    vstd::arithmetic::div_mod::lemma_small_mod(m as nat, 0x1_0000_0000_0000_0000);
    vstd::arithmetic::div_mod::lemma_small_mod(offset as nat, 0x1_0000_0000_0000_0000);
    let mi = as_i64_pattern(m as int);
    let oi = as_i64_pattern(offset as int);
    assert(mi == m - 0x1_0000_0000_0000_0000);
    assert(oi == offset - 0x1_0000_0000_0000_0000);
    if offset == m {
        vstd::arithmetic::div_mod::lemma_mod_self_0(-mi);
    } else {
        vstd::arithmetic::div_mod::lemma_small_mod((-oi) as nat, (-mi) as nat);
    }
}

/// The definition shared by every kind of address space.
#[derive(Debug, Clone)]
pub struct AddressSpaceDef {
    pub(crate) index: usize,
    pub(crate) kind: AddressSpaceKind,
    pub(crate) properties: AddressSpaceProperty,
    pub(crate) highest: u64,
    pub(crate) name: String,
    pub(crate) address_size: usize,
    pub(crate) word_size: usize,
    pub(crate) delay: usize,
    pub(crate) deadcode_delay: usize,
}

impl AddressSpaceDef {
    pub closed spec fn spec_index(&self) -> usize {
        self.index
    }

    pub closed spec fn spec_kind(&self) -> AddressSpaceKind {
        self.kind
    }

    pub closed spec fn spec_properties(&self) -> AddressSpaceProperty {
        self.properties
    }

    pub closed spec fn spec_highest(&self) -> u64 {
        self.highest
    }

    pub closed spec fn spec_name(&self) -> Seq<char> {
        self.name@
    }

    pub closed spec fn spec_address_size(&self) -> usize {
        self.address_size
    }

    pub closed spec fn spec_word_size(&self) -> usize {
        self.word_size
    }

    pub closed spec fn spec_delay(&self) -> usize {
        self.delay
    }

    pub closed spec fn spec_deadcode_delay(&self) -> usize {
        self.deadcode_delay
    }

    /// Builds a definition; only the physical flag of `properties` is kept,
    /// the space is always heritaged and subject to dead code elimination,
    /// and a space named `register` is a register space whatever `kind` says.
    pub fn new(
        kind: AddressSpaceKind,
        name: &str,
        address_size: usize,
        word_size: usize,
        index: usize,
        properties: Option<AddressSpaceProperty>,
        delay: usize,
    ) -> (r: Self)
        requires
            highest_fits(address_size, word_size),
        ensures
            r.spec_kind() == (if name@ == "register"@ {
                AddressSpaceKind::Register
            } else {
                kind
            }),
            r.spec_properties().spec_bits() == (match properties {
                Some(p) => p.spec_bits() & PROPERTY_HAS_PHYSICAL,
                None => 0,
            }) | PROPERTY_HERITAGED | PROPERTY_DOES_DEADCODE,
            r.spec_highest() == highest_offset_of(address_size, word_size),
            r.spec_name() == name@,
            r.spec_address_size() == address_size,
            r.spec_word_size() == word_size,
            r.spec_index() == index,
            r.spec_delay() == delay,
            r.spec_deadcode_delay() == delay,
    {
        let properties = match properties {
            Some(p) => AddressSpaceProperty(p.0 & PROPERTY_HAS_PHYSICAL),
            None => AddressSpaceProperty::empty(),
        };
        let highest = compute_highest(address_size, word_size);
        let is_register = crate::text::str_eq(name, "register");
        AddressSpaceDef {
            kind: if is_register {
                AddressSpaceKind::Register
            } else {
                kind
            },
            properties: AddressSpaceProperty(
                properties.0 | PROPERTY_HERITAGED | PROPERTY_DOES_DEADCODE,
            ),
            highest,
            name: name.to_owned(),
            address_size,
            word_size,
            index,
            delay,
            deadcode_delay: delay,
        }
    }
}

/// An address space: the constant space, the unique (temporary) space, or
/// any other space.
#[derive(Debug, Clone)]
pub enum AddressSpace {
    Constant(AddressSpaceDef),
    Unique(AddressSpaceDef),
    Space(AddressSpaceDef),
}

/// The identifier of an address space: its index in the low 16 bits and
/// flags for its role in the high bits.
#[derive(Debug, Clone, Copy, PartialEq, Eq, Structural, Hash)]
pub struct AddressSpaceId(pub(crate) u32);

/// Identifier flag: the constant space.
pub const ID_CONSTANT_SPACE: u32 = 0x8000_0000;
/// Identifier flag: the default space.
pub const ID_DEFAULT_SPACE: u32 = 0x4000_0000;
/// Identifier flag: the register space.
pub const ID_REGISTER_SPACE: u32 = 0x2000_0000;
/// Identifier flag: the unique space.
pub const ID_UNIQUE_SPACE: u32 = 0x1000_0000;
/// Identifier hint: a stack location.
pub const ID_STACK_HINT: u32 = 0x0100_0000;
/// Identifier hint: a heap location.
pub const ID_HEAP_HINT: u32 = 0x0200_0000;
/// Identifier hint: either a stack or a heap location.
pub const ID_STACK_OR_HEAP: u32 = 0x0300_0000;
/// Identifier hint: an unmapped location.
pub const ID_UNMAPPED_HINT: u32 = 0x0400_0000;

/// The identifier bits for a space with the given index and role flags.
pub open spec fn id_bits(index: usize, flags: u32) -> u32 {
    ((index & 0xffff) as u32) | flags
}

impl AddressSpaceId {
    pub closed spec fn spec_bits(&self) -> u32 {
        self.0
    }

    pub open spec fn spec_is_default(&self) -> bool {
        ID_DEFAULT_SPACE & self.spec_bits() != 0
    }

    /// The index of the space.
    pub fn index(&self) -> (r: usize)
        ensures
            r == (self.spec_bits() & 0xffff),
    {
        (self.0 & 0xffff) as usize
    }

    /// The identifier with the given raw bits.
    pub fn from_bits(bits: u32) -> (r: Self)
        ensures
            r.spec_bits() == bits,
    {
        AddressSpaceId(bits)
    }

    /// The raw bits of the identifier.
    pub fn bits(&self) -> (r: u32)
        ensures
            r == self.spec_bits(),
    {
        self.0
    }

    /// Marks the identifier as a heap location (see [`Self::heap`]).
    pub fn mark_heap(&mut self)
        ensures
            *final(self) == old(self).heap_spec(),
    {
        *self = (*self).heap();
    }

    /// The identifier of a heap location in a default space: the stack and
    /// heap hints are replaced by the heap hint.  Other identifiers are
    /// returned unchanged.
    pub open spec fn heap_spec(self) -> Self {
        if self.spec_is_default() {
            AddressSpaceId::from_bits_spec((self.spec_bits() & !ID_STACK_OR_HEAP) | ID_HEAP_HINT)
        } else {
            self
        }
    }

    /// The identifier of a stack location in a default space: the stack and
    /// heap hints are replaced by the stack hint.  Other identifiers are
    /// returned unchanged.
    pub open spec fn stack_spec(self) -> Self {
        if self.spec_is_default() {
            AddressSpaceId::from_bits_spec((self.spec_bits() & !ID_STACK_OR_HEAP) | ID_STACK_HINT)
        } else {
            self
        }
    }

    pub closed spec fn from_bits_spec(bits: u32) -> Self {
        AddressSpaceId(bits)
    }

    pub proof fn lemma_from_bits_spec(bits: u32)
        ensures
            #[trigger] Self::from_bits_spec(bits).spec_bits() == bits,
    {
    }

    /// See [`Self::heap_spec`].
    pub fn heap(self) -> (r: Self)
        ensures
            r == self.heap_spec(),
    {
        if self.is_default() {
            AddressSpaceId(self.0 & !ID_STACK_OR_HEAP | ID_HEAP_HINT)
        } else {
            self
        }
    }

    /// Marks the identifier; as it stands this applies the heap hint, the
    /// same as [`Self::mark_heap`].
    pub fn mark_stack(&mut self)
        ensures
            *final(self) == old(self).heap_spec(),
    {
        *self = (*self).heap();
    }

    /// See [`Self::stack_spec`].
    pub fn stack(self) -> (r: Self)
        ensures
            r == self.stack_spec(),
    {
        if self.is_default() {
            AddressSpaceId(self.0 & !ID_STACK_OR_HEAP | ID_STACK_HINT)
        } else {
            self
        }
    }

    /// The identifier of the constant space with the given index.
    pub fn constant_id(index: usize) -> (r: Self)
        ensures
            r.spec_bits() == id_bits(index, ID_CONSTANT_SPACE),
    {
        AddressSpaceId(((index & 0xffff) as u32) | ID_CONSTANT_SPACE)
    }

    /// The identifier of the default space with the given index.
    pub fn default_id(index: usize) -> (r: Self)
        ensures
            r.spec_bits() == id_bits(index, ID_DEFAULT_SPACE),
    {
        AddressSpaceId(((index & 0xffff) as u32) | ID_DEFAULT_SPACE)
    }

    /// The identifier of the register space with the given index.
    pub fn register_id(index: usize) -> (r: Self)
        ensures
            r.spec_bits() == id_bits(index, ID_REGISTER_SPACE),
    {
        AddressSpaceId(((index & 0xffff) as u32) | ID_REGISTER_SPACE)
    }

    /// The identifier of the unique space with the given index.
    pub fn unique_id(index: usize) -> (r: Self)
        ensures
            r.spec_bits() == id_bits(index, ID_UNIQUE_SPACE),
    {
        AddressSpaceId(((index & 0xffff) as u32) | ID_UNIQUE_SPACE)
    }

    /// The identifier of some other space with the given index.
    pub fn other_id(index: usize) -> (r: Self)
        ensures
            r.spec_bits() == id_bits(index, 0),
    {
        let bits = (index & 0xffff) as u32;
        assert(bits | 0 == bits) by (bit_vector);
        AddressSpaceId(bits)
    }

    /// The identifier of an unmapped location with the given index.
    pub fn unmapped_id(index: usize) -> (r: Self)
        ensures
            r.spec_bits() == id_bits(index, ID_UNMAPPED_HINT),
    {
        AddressSpaceId(((index & 0xffff) as u32) | ID_UNMAPPED_HINT)
    }

    /// Whether the identifier names the constant space.
    pub fn is_constant(&self) -> (r: bool)
        ensures
            r == (ID_CONSTANT_SPACE & self.spec_bits() != 0),
    {
        (ID_CONSTANT_SPACE & self.0) != 0
    }

    /// Whether the identifier names a default space.
    pub fn is_default(&self) -> (r: bool)
        ensures
            r == self.spec_is_default(),
    {
        (ID_DEFAULT_SPACE & self.0) != 0
    }

    /// Whether the identifier names a default space with neither hint.
    pub fn is_global(&self) -> (r: bool)
        ensures
            r == (self.spec_bits() & (ID_DEFAULT_SPACE | ID_STACK_OR_HEAP) == ID_DEFAULT_SPACE),
    {
        let mask = ID_DEFAULT_SPACE | ID_STACK_OR_HEAP;
        self.0 & mask == ID_DEFAULT_SPACE
    }

    /// Whether the identifier names a stack location in a default space.
    pub fn is_stack(&self) -> (r: bool)
        ensures
            r == (self.spec_bits() & (ID_DEFAULT_SPACE | ID_STACK_HINT) == (ID_DEFAULT_SPACE
                | ID_STACK_HINT)),
    {
        let mask = ID_DEFAULT_SPACE | ID_STACK_HINT;
        self.0 & mask == mask
    }

    /// Whether the identifier names a heap location in a default space.
    pub fn is_heap(&self) -> (r: bool)
        ensures
            r == (self.spec_bits() & (ID_DEFAULT_SPACE | ID_HEAP_HINT) == (ID_DEFAULT_SPACE
                | ID_HEAP_HINT)),
    {
        let mask = ID_DEFAULT_SPACE | ID_HEAP_HINT;
        self.0 & mask == mask
    }

    /// Whether the identifier names the register space.
    pub fn is_register(&self) -> (r: bool)
        ensures
            r == (ID_REGISTER_SPACE & self.spec_bits() != 0),
    {
        (ID_REGISTER_SPACE & self.0) != 0
    }

    /// Whether the identifier names the unique space.
    pub fn is_unique(&self) -> (r: bool)
        ensures
            r == (ID_UNIQUE_SPACE & self.spec_bits() != 0),
    {
        (ID_UNIQUE_SPACE & self.0) != 0
    }

    /// Whether the identifier names an unmapped location.
    pub fn is_unmapped(&self) -> (r: bool)
        ensures
            r == (ID_UNMAPPED_HINT & self.spec_bits() != 0),
    {
        (ID_UNMAPPED_HINT & self.0) != 0
    }
}

impl AddressSpace {
    /// The definition behind the space.
    pub open spec fn def(&self) -> AddressSpaceDef {
        match self {
            AddressSpace::Constant(d) => *d,
            AddressSpace::Unique(d) => *d,
            AddressSpace::Space(d) => *d,
        }
    }

    fn def_ref(&self) -> (r: &AddressSpaceDef)
        ensures
            *r == self.def(),
    {
        match self {
            AddressSpace::Constant(d) => d,
            AddressSpace::Unique(d) => d,
            AddressSpace::Space(d) => d,
        }
    }

    /// Whether this is the constant space.
    pub fn is_constant(&self) -> (r: bool)
        ensures
            r == self is Constant,
    {
        if let AddressSpace::Constant(..) = self {
            true
        } else {
            false
        }
    }

    /// Whether this is the unique (temporary) space.
    pub fn is_unique(&self) -> (r: bool)
        ensures
            r == self is Unique,
    {
        if let AddressSpace::Unique(..) = self {
            true
        } else {
            false
        }
    }

    /// Whether this is a register space.
    pub fn is_register(&self) -> (r: bool)
        ensures
            r == (self.def().spec_kind() == AddressSpaceKind::Register),
    {
        matches!(self.kind(), AddressSpaceKind::Register)
    }

    /// Whether this is a default space.
    pub fn is_default(&self) -> (r: bool)
        ensures
            r == (self.def().spec_kind() == AddressSpaceKind::Default),
    {
        matches!(self.kind(), AddressSpaceKind::Default)
    }

    /// The constant space: eight-byte addresses of one-byte words, no delay,
    /// and of the flags only the big endian one, set on a big endian machine.
    pub fn constant(name: &str, index: usize) -> (r: Self)
        ensures
            r is Constant,
            r.def().spec_kind() == (if name@ == "register"@ {
                AddressSpaceKind::Register
            } else {
                AddressSpaceKind::Constant
            }),
            r.def().spec_properties().spec_bits() & !PROPERTY_BIG_ENDIAN == 0,
            r.def().spec_highest() == u64::MAX,
            r.def().spec_name() == name@,
            r.def().spec_address_size() == 8,
            r.def().spec_word_size() == 1,
            r.def().spec_index() == index,
            r.def().spec_delay() == 0,
            r.def().spec_deadcode_delay() == 0,
    {
        proof {
            vstd::arithmetic::power2::lemma2_to64();
        }
        let mut def = AddressSpaceDef::new(
            AddressSpaceKind::Constant,
            name,
            8,
            1,
            index,
            None,
            0,
        );
        let old_bits = def.properties.0;
        let mut bits = old_bits & !(PROPERTY_HERITAGED | PROPERTY_DOES_DEADCODE
            | PROPERTY_BIG_ENDIAN);
        if native_order_probe() == 1 {
            bits = bits | PROPERTY_BIG_ENDIAN;
        }
        assert(old_bits & !(PROPERTY_HERITAGED | PROPERTY_DOES_DEADCODE | PROPERTY_BIG_ENDIAN)
            == 0) by (bit_vector)
            requires
                old_bits == 0u32 | PROPERTY_HERITAGED | PROPERTY_DOES_DEADCODE,
        ;
        assert(bits & !PROPERTY_BIG_ENDIAN == 0) by (bit_vector)
            requires
                bits == 0 || bits == 0u32 | PROPERTY_BIG_ENDIAN,
        ;
        def.properties = AddressSpaceProperty(bits);
        AddressSpace::Constant(def)
    }

    /// The unique space: pointer-sized addresses of one-byte words, no
    /// delay, and always with physical backing.
    pub fn unique(name: &str, index: usize, properties: Option<AddressSpaceProperty>) -> (r: Self)
        ensures
            r is Unique,
            r.def().spec_kind() == (if name@ == "register"@ {
                AddressSpaceKind::Register
            } else {
                AddressSpaceKind::Internal
            }),
            r.def().spec_properties().spec_bits() == PROPERTY_HAS_PHYSICAL | PROPERTY_HERITAGED
                | PROPERTY_DOES_DEADCODE,
            r.def().spec_highest() == highest_offset_of(r.def().spec_address_size(), 1),
            r.def().spec_name() == name@,
            r.def().spec_address_size() == usize::BITS / 8,
            r.def().spec_word_size() == 1,
            r.def().spec_index() == index,
            r.def().spec_delay() == 0,
            r.def().spec_deadcode_delay() == 0,
    {
        let q = match properties {
            Some(p) => p.0,
            None => 0,
        };
        let props = AddressSpaceProperty(q | PROPERTY_HAS_PHYSICAL);
        let size = (usize::BITS / 8) as usize;
        proof {
            vstd::arithmetic::power2::lemma2_to64();
            vstd::arithmetic::power2::lemma2_to64_rest();
            let pb = props.0;
            assert(pb & PROPERTY_HAS_PHYSICAL == PROPERTY_HAS_PHYSICAL) by (bit_vector)
                requires
                    pb == q | PROPERTY_HAS_PHYSICAL,
            ;
        }
        AddressSpace::Unique(
            AddressSpaceDef::new(
                AddressSpaceKind::Internal,
                name,
                size,
                1,
                index,
                Some(props),
                0,
            ),
        )
    }

    /// What the space is used for.
    pub fn kind(&self) -> (r: AddressSpaceKind)
        ensures
            r == self.def().spec_kind(),
    {
        self.def_ref().kind
    }

    /// The property flags of the space.
    pub fn properties(&self) -> (r: AddressSpaceProperty)
        ensures
            r == self.def().spec_properties(),
    {
        self.def_ref().properties
    }

    /// The heritage delay of the space.
    pub fn delay(&self) -> (r: usize)
        ensures
            r == self.def().spec_delay(),
    {
        self.def_ref().delay
    }

    /// The dead code delay of the space.
    pub fn deadcode_delay(&self) -> (r: usize)
        ensures
            r == self.def().spec_deadcode_delay(),
    {
        self.def_ref().deadcode_delay
    }

    /// The name of the space.
    pub fn name(&self) -> (r: &str)
        ensures
            r@ == self.def().spec_name(),
    {
        self.def_ref().name.as_str()
    }

    /// The identifier of the space (see [`Self::id`]).
    pub open spec fn spec_id(&self) -> AddressSpaceId {
        AddressSpaceId::from_bits_spec(
            id_bits(
                self.def().spec_index(),
                match self {
                    AddressSpace::Constant(_) => ID_CONSTANT_SPACE,
                    AddressSpace::Unique(_) => ID_UNIQUE_SPACE,
                    AddressSpace::Space(s) => if s.spec_kind() == AddressSpaceKind::Register {
                        ID_REGISTER_SPACE
                    } else if s.spec_kind() == AddressSpaceKind::Default {
                        ID_DEFAULT_SPACE
                    } else {
                        0
                    },
                },
            ),
        )
    }

    /// The identifier of the space: the constant and unique spaces, register
    /// and default spaces are flagged as such.
    pub fn id(&self) -> (r: AddressSpaceId)
        ensures
            r == self.spec_id(),
            r.spec_bits() == id_bits(
                self.def().spec_index(),
                match self {
                    AddressSpace::Constant(_) => ID_CONSTANT_SPACE,
                    AddressSpace::Unique(_) => ID_UNIQUE_SPACE,
                    AddressSpace::Space(s) => if s.spec_kind() == AddressSpaceKind::Register {
                        ID_REGISTER_SPACE
                    } else if s.spec_kind() == AddressSpaceKind::Default {
                        ID_DEFAULT_SPACE
                    } else {
                        0
                    },
                },
            ),
    {
        match self {
            AddressSpace::Constant(s) => AddressSpaceId::constant_id(s.index),
            AddressSpace::Unique(s) => AddressSpaceId::unique_id(s.index),
            AddressSpace::Space(s) => {
                if s.kind == AddressSpaceKind::Register {
                    AddressSpaceId::register_id(s.index)
                } else if s.kind == AddressSpaceKind::Default {
                    AddressSpaceId::default_id(s.index)
                } else {
                    AddressSpaceId::other_id(s.index)
                }
            },
        }
    }

    /// The index of the space.
    pub fn index(&self) -> (r: usize)
        ensures
            r == self.def().spec_index(),
    {
        self.def_ref().index
    }

    /// The size of a word of the space in bytes.
    pub fn word_size(&self) -> (r: usize)
        ensures
            r == self.def().spec_word_size(),
    {
        self.def_ref().word_size
    }

    /// The size of an address of the space in bytes.
    pub fn address_size(&self) -> (r: usize)
        ensures
            r == self.def().spec_address_size(),
    {
        self.def_ref().address_size
    }

    /// The highest offset of the space.
    pub fn highest_offset(&self) -> (r: u64)
        ensures
            r == self.def().spec_highest(),
    {
        self.def_ref().highest
    }

    /// Wraps an offset into the space: offsets up to the highest are kept,
    /// larger ones are reduced modulo the size of the space (see
    /// [`wrap_offset_spec`]).
    pub fn wrap_offset(&self, offset: u64) -> (r: u64)
        requires
            wrap_offset_defined(self.def().spec_highest(), offset),
        ensures
            r == wrap_offset_spec(self.def().spec_highest(), offset),
    {
        let highest = self.def_ref().highest;
        if offset <= highest {
            return offset;
        }
        let m = highest + 1;
        if highest < 0x7fff_ffff_ffff_ffff {
            proof {
                lemma_wrap_small_divisor(highest, offset);
            }
            if offset < 0x8000_0000_0000_0000 {
                offset % m
            } else {
                let a = (0u64.wrapping_sub(offset)) % m;
                proof {
                    assert(0u64.wrapping_sub(offset) == 0x1_0000_0000_0000_0000 - offset);
                }
                if a == 0 {
                    0
                } else {
                    m - a
                }
            }
        } else {
            proof {
                lemma_wrap_large_divisor(highest, offset);
            }
            if offset == m {
                0
            } else {
                offset.wrapping_add(m)
            }
        }
    }

    /// Marks the space as truncated to addresses of `size` bytes and
    /// recomputes its highest offset.
    pub fn truncate_space(&mut self, size: usize)
        requires
            highest_fits(size, old(self).def().spec_word_size()),
        ensures
            final(self).def().spec_properties().spec_bits() == old(self).def().spec_properties().spec_bits()
                | PROPERTY_TRUNCATED,
            final(self).def().spec_address_size() == size,
            final(self).def().spec_highest() == highest_offset_of(size, old(self).def().spec_word_size()),
            final(self).def().spec_kind() == old(self).def().spec_kind(),
            final(self).def().spec_name() == old(self).def().spec_name(),
            final(self).def().spec_index() == old(self).def().spec_index(),
            final(self).def().spec_word_size() == old(self).def().spec_word_size(),
            final(self).def().spec_delay() == old(self).def().spec_delay(),
            final(self).def().spec_deadcode_delay() == old(self).def().spec_deadcode_delay(),
            (*old(self) is Constant) == (*final(self) is Constant),
            (*old(self) is Unique) == (*final(self) is Unique),
    {
        let d = match self {
            AddressSpace::Constant(d) => d,
            AddressSpace::Unique(d) => d,
            AddressSpace::Space(d) => d,
        };
        d.properties = AddressSpaceProperty(d.properties.0 | PROPERTY_TRUNCATED);
        d.address_size = size;
        d.highest = compute_highest(size, d.word_size);
    }
}

/// The attributes that describe a space: its name, index, address size,
/// delay, word size, dead code delay, and whether it is big endian and has
/// physical backing; or the first of them that cannot be read.
#[verifier::opaque]
pub open spec fn space_fields(input: &XmlElement) -> Result<
    (Seq<char>, usize, usize, usize, usize, usize, bool, bool),
    DeserialiseError,
> {
    match input.spec_attr("name"@) {
        None => Err(DeserialiseError::AttributeExpected("name")),
        Some(name) => match usize_attr(input, "index") {
            Err(e) => Err(e),
            Ok(index) => match usize_attr(input, "size") {
                Err(e) => Err(e),
                Ok(size) => match usize_attr(input, "delay") {
                    Err(e) => Err(e),
                    Ok(delay) => match usize_attr_opt(input, "wordsize", 1) {
                        Err(e) => Err(e),
                        Ok(word_size) => match usize_attr_opt(input, "deadcodedelay", delay) {
                            Err(e) => Err(e),
                            Ok(deadcode) => match bool_attr(input, "bigendian") {
                                Err(e) => Err(e),
                                Ok(big) => match bool_attr(input, "physical") {
                                    Err(e) => Err(e),
                                    Ok(physical) => Ok(
                                        (name, index, size, delay, word_size, deadcode, big, physical),
                                    ),
                                },
                            },
                        },
                    },
                },
            },
        },
    }
}

/// Whether `tag` is the tag of a space element.
pub open spec fn space_tag_ok(tag: Seq<char>) -> bool {
    tag == "space_unique"@ || tag == "space"@ || tag == "space_other"@
}

/// Whether the space that `input` describes, once read, has a highest
/// offset that a `u64` holds.
pub open spec fn space_highest_fits(input: &XmlElement) -> bool {
    match space_fields(input) {
        Ok(f) => highest_fits(f.2, f.4),
        Err(_) => true,
    }
}

/// Whether `space` is the space that `input` describes, read as `f`, but
/// for its kind.
pub open spec fn space_read_as(
    space: AddressSpace,
    input: &XmlElement,
    f: (Seq<char>, usize, usize, usize, usize, usize, bool, bool),
) -> bool {
    let d = space.def();
    &&& (space is Unique) == (input.tag@ == "space_unique"@)
    &&& space !is Constant
    &&& d.spec_properties().spec_bits() == (PROPERTY_HERITAGED | PROPERTY_DOES_DEADCODE) | (if f.6 {
        PROPERTY_BIG_ENDIAN
    } else {
        0
    }) | (if f.7 {
        PROPERTY_HAS_PHYSICAL
    } else {
        0
    })
    &&& d.spec_name() == f.0
    &&& d.spec_index() == f.1
    &&& d.spec_address_size() == f.2
    &&& d.spec_delay() == f.3
    &&& d.spec_word_size() == f.4
    &&& d.spec_deadcode_delay() == f.5
    &&& d.spec_highest() == highest_offset_of(f.2, f.4)
}

impl AddressSpace {
    /// Reads a space from its element: `space_unique` for the unique space,
    /// `space` or `space_other` for the others.
    pub fn from_xml(input: &XmlElement) -> (r: Result<Self, DeserialiseError>)
        requires
            space_highest_fits(input),
        ensures
            match space_fields(input) {
                Err(e) => r == Err::<AddressSpace, DeserialiseError>(e),
                Ok(f) => if space_tag_ok(input.tag@) {
                    &&& r is Ok
                    &&& space_read_as(r->Ok_0, input, f)
                    &&& r->Ok_0.def().spec_kind() == if input.tag@ == "space_unique"@ {
                        AddressSpaceKind::Internal
                    } else {
                        AddressSpaceKind::Processor
                    }
                } else {
                    r is Err && r->Err_0 is TagUnexpected && r->Err_0->TagUnexpected_0@ == input.tag@
                },
            },
    {
        proof {
            reveal(space_fields);
        }
        let name = match input.attribute_string("name") {
            Ok(v) => v,
            Err(e) => {
                return Err(e);
            },
        };
        let index: usize = match input.attribute_int("index") {
            Ok(v) => v,
            Err(e) => {
                return Err(e);
            },
        };
        let address_size: usize = match input.attribute_int("size") {
            Ok(v) => v,
            Err(e) => {
                return Err(e);
            },
        };
        let delay: usize = match input.attribute_int("delay") {
            Ok(v) => v,
            Err(e) => {
                return Err(e);
            },
        };
        let word_size: usize = match input.attribute_int_opt("wordsize", 1) {
            Ok(v) => v,
            Err(e) => {
                return Err(e);
            },
        };
        let deadcode_delay: usize = match input.attribute_int_opt("deadcodedelay", delay) {
            Ok(v) => v,
            Err(e) => {
                return Err(e);
            },
        };
        let big = match input.attribute_bool("bigendian") {
            Ok(v) => v,
            Err(e) => {
                return Err(e);
            },
        };
        let physical = match input.attribute_bool("physical") {
            Ok(v) => v,
            Err(e) => {
                return Err(e);
            },
        };
        let bits = (PROPERTY_HERITAGED | PROPERTY_DOES_DEADCODE) | (if big {
            PROPERTY_BIG_ENDIAN
        } else {
            0
        }) | (if physical {
            PROPERTY_HAS_PHYSICAL
        } else {
            0
        });
        let highest = compute_highest(address_size, word_size);
        let def = AddressSpaceDef {
            index,
            kind: AddressSpaceKind::Processor,
            properties: AddressSpaceProperty(bits),
            highest,
            name,
            address_size,
            word_size,
            delay,
            deadcode_delay,
        };
        let tag = input.tag_name();
        if str_eq(tag, "space_unique") {
            Ok(AddressSpace::Unique(AddressSpaceDef { kind: AddressSpaceKind::Internal, ..def }))
        } else if str_eq(tag, "space") || str_eq(tag, "space_other") {
            Ok(AddressSpace::Space(def))
        } else {
            Err(DeserialiseError::TagUnexpected(tag.to_owned()))
        }
    }

    /// Sets the kind of the space.
    pub(crate) fn set_kind(&mut self, kind: AddressSpaceKind)
        ensures
            final(self).def().spec_kind() == kind,
            final(self).def().spec_properties() == old(self).def().spec_properties(),
            final(self).def().spec_highest() == old(self).def().spec_highest(),
            final(self).def().spec_name() == old(self).def().spec_name(),
            final(self).def().spec_index() == old(self).def().spec_index(),
            final(self).def().spec_address_size() == old(self).def().spec_address_size(),
            final(self).def().spec_word_size() == old(self).def().spec_word_size(),
            final(self).def().spec_delay() == old(self).def().spec_delay(),
            final(self).def().spec_deadcode_delay() == old(self).def().spec_deadcode_delay(),
            (*old(self) is Constant) == (*final(self) is Constant),
            (*old(self) is Unique) == (*final(self) is Unique),
    {
        let d = match self {
            AddressSpace::Constant(d) => d,
            AddressSpace::Unique(d) => d,
            AddressSpace::Space(d) => d,
        };
        d.kind = kind;
    }
}

/// The identifier built from an index and any of the role flags reports the
/// index back (modulo 2^16).
pub proof fn lemma_id_index(index: usize, flags: u32)
    requires
        flags & 0xffff == 0,
    ensures
        id_bits(index, flags) & 0xffff == (index & 0xffff) as u32,
{
    assert((((index & 0xffff) as u32) | flags) & 0xffff == (index & 0xffff) as u32) by (bit_vector)
        requires
            flags & 0xffff == 0,
    ;
}

/// Each kind of identifier carries its own role flag and none of the
/// others: the constant, default, register and unique identifiers and the
/// unmapped one report their role, and one of another space reports none
/// of the roles or hints.
pub proof fn lemma_id_flags(index: usize)
    ensures
        ID_CONSTANT_SPACE & id_bits(index, ID_CONSTANT_SPACE) != 0,
        ID_DEFAULT_SPACE & id_bits(index, ID_DEFAULT_SPACE) != 0,
        ID_REGISTER_SPACE & id_bits(index, ID_REGISTER_SPACE) != 0,
        ID_UNIQUE_SPACE & id_bits(index, ID_UNIQUE_SPACE) != 0,
        ID_UNMAPPED_HINT & id_bits(index, ID_UNMAPPED_HINT) != 0,
        ID_CONSTANT_SPACE & id_bits(index, 0) == 0,
        ID_DEFAULT_SPACE & id_bits(index, 0) == 0,
        ID_REGISTER_SPACE & id_bits(index, 0) == 0,
        ID_UNIQUE_SPACE & id_bits(index, 0) == 0,
        ID_UNMAPPED_HINT & id_bits(index, 0) == 0,
        ID_STACK_OR_HEAP & id_bits(index, 0) == 0,
{
    let b = (index & 0xffff) as u32;
    assert(b <= 0xffff) by (bit_vector)
        requires
            b == (index & 0xffff) as u32,
    ;
    assert(0x8000_0000u32 & (b | 0x8000_0000u32) != 0 && 0x4000_0000u32 & (b | 0x4000_0000u32) != 0
        && 0x2000_0000u32 & (b | 0x2000_0000u32) != 0 && 0x1000_0000u32 & (b | 0x1000_0000u32) != 0
        && 0x0400_0000u32 & (b | 0x0400_0000u32) != 0 && 0x8000_0000u32 & (b | 0) == 0 && 0x4000_0000u32 & (b
        | 0) == 0 && 0x2000_0000u32 & (b | 0) == 0 && 0x1000_0000u32 & (b | 0) == 0 && 0x0400_0000u32 & (b | 0)
        == 0 && 0x0300_0000u32 & (b | 0) == 0) by (bit_vector)
        requires
            b <= 0xffff,
    ;
}

/// In a space whose size is a power of two (at most 2^62 bytes), wrapping
/// an offset is taking it modulo the size of the space.
pub proof fn lemma_wrap_offset_power_of_two(highest: u64, offset: u64, k: nat)
    requires
        k <= 62,
        highest + 1 == vstd::arithmetic::power2::pow2(k),
    ensures
        wrap_offset_defined(highest, offset),
        wrap_offset_spec(highest, offset) == (offset as int) % (highest + 1),
{
    let m = highest + 1;
    let big: int = 0x1_0000_0000_0000_0000;
    vstd::arithmetic::power2::lemma2_to64();
    vstd::arithmetic::power2::lemma2_to64_rest();
    vstd::arithmetic::power2::lemma_pow2_adds(k, (64 - k) as nat);
    vstd::arithmetic::power2::lemma_pow2_pos((64 - k) as nat);
    vstd::arithmetic::power2::lemma_pow2_strictly_increases(k, 63);
    assert(vstd::arithmetic::power2::pow2(63) == 0x8000_0000_0000_0000);
    assert(highest < 0x7fff_ffff_ffff_ffff);
    let q = vstd::arithmetic::power2::pow2((64 - k) as nat) as int;
    assert(m * q == big);
    if offset <= highest {
        vstd::arithmetic::div_mod::lemma_small_mod(offset as nat, m as nat);
    } else {
        lemma_wrap_small_divisor(highest, offset);
        let w = wrap_remainder(highest, offset);
        vstd::arithmetic::div_mod::lemma_small_mod(w as nat, big as nat);
        if offset < 0x8000_0000_0000_0000 {
        } else {
            let a = big - offset;
            let r = a % (m as int);
            let d = a / (m as int);
            vstd::arithmetic::div_mod::lemma_fundamental_div_mod(a, m as int);
            assert(offset == m * (q - d) - r) by (nonlinear_arith)
                requires
                    a == big - offset,
                    a == m * d + r,
                    m * q == big,
            ;
            if r == 0 {
                vstd::arithmetic::div_mod::lemma_mod_multiples_basic(q - d, m as int);
                assert(m * (q - d) == (q - d) * m) by (nonlinear_arith);
            } else {
                assert(offset == m * (q - d - 1) + (m - r)) by (nonlinear_arith)
                    requires
                        offset == m * (q - d) - r,
                ;
                vstd::arithmetic::div_mod::lemma_mod_multiples_vanish(q - d - 1, m - r, m as int);
                vstd::arithmetic::div_mod::lemma_small_mod((m - r) as nat, m as nat);
            }
        }
    }
}

/// Marking an identifier as a heap location twice is the same as once, and
/// so is marking it as a stack location.
pub proof fn lemma_hint_idempotent(id: AddressSpaceId)
    ensures
        id.heap_spec().heap_spec() == id.heap_spec(),
        id.stack_spec().stack_spec() == id.stack_spec(),
{
    let b = id.spec_bits();
    AddressSpaceId::lemma_from_bits_spec((b & !ID_STACK_OR_HEAP) | ID_HEAP_HINT);
    AddressSpaceId::lemma_from_bits_spec((b & !ID_STACK_OR_HEAP) | ID_STACK_HINT);
    let h = (b & !ID_STACK_OR_HEAP) | ID_HEAP_HINT;
    let t = (b & !ID_STACK_OR_HEAP) | ID_STACK_HINT;
    assert((h & !ID_STACK_OR_HEAP) | ID_HEAP_HINT == h) by (bit_vector)
        requires
            h == (b & !0x0300_0000u32) | 0x0200_0000u32,
    ;
    assert((t & !ID_STACK_OR_HEAP) | ID_STACK_HINT == t) by (bit_vector)
        requires
            t == (b & !0x0300_0000u32) | 0x0100_0000u32,
    ;
    assert(h & ID_DEFAULT_SPACE == b & ID_DEFAULT_SPACE) by (bit_vector)
        requires
            h == (b & !0x0300_0000u32) | 0x0200_0000u32,
    ;
    assert(t & ID_DEFAULT_SPACE == b & ID_DEFAULT_SPACE) by (bit_vector)
        requires
            t == (b & !0x0300_0000u32) | 0x0100_0000u32,
    ;
}

/// `u16::from_ne_bytes([0, 1])`: the bytes read in the machine's own order,
/// which is 1 on a big endian machine and 256 on a little endian one.
#[verifier::external_body]
fn native_order_probe() -> (r: u16)
    ensures
        r == 1 || r == 256,
{
    u16::from_ne_bytes([0, 1])
}

} // verus!
