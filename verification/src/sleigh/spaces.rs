use vstd::prelude::*;

use std::sync::Arc;

use crate::sleigh::deserialise::{DeserialiseError, XmlElement};
use crate::sleigh::space::{
    id_bits, space_fields, space_highest_fits, space_read_as, space_tag_ok, AddressSpace,
    AddressSpaceId, AddressSpaceKind, ID_CONSTANT_SPACE, ID_DEFAULT_SPACE, ID_REGISTER_SPACE,
    ID_UNIQUE_SPACE,
};
use crate::text::str_eq;

verus! {

/// Whether the child `child` of a `spaces` element, at position `index`
/// (counted from one, after the constant space), describes a space with that
/// index.
pub open spec fn child_ok(child: &XmlElement, index: int) -> bool {
    match space_fields(child) {
        Ok(f) => space_tag_ok(child.tag@) && f.1 == index,
        Err(_) => false,
    }
}

/// Whether `e` is the error of a child that is not `child_ok`.
pub open spec fn child_error(e: DeserialiseError, child: &XmlElement) -> bool {
    match space_fields(child) {
        Err(x) => e == x,
        Ok(_) => if !space_tag_ok(child.tag@) {
            e is TagUnexpected && e->TagUnexpected_0@ == child.tag@
        } else {
            e == DeserialiseError::Invariant("space index mismatch")
        },
    }
}

/// The position of the first of the first `k` children that is not
/// `child_ok`, or -1.
pub open spec fn first_bad_upto(cs: Seq<XmlElement>, k: int) -> int
    decreases k,
{
    if k <= 0 {
        -1
    } else {
        let b = first_bad_upto(cs, k - 1);
        if b >= 0 {
            b
        } else if !child_ok(&cs[k - 1], k) {
            k - 1
        } else {
            -1
        }
    }
}

/// The name of the space that `child` describes.
pub open spec fn child_name(child: &XmlElement) -> Seq<char> {
    match space_fields(child) {
        Ok(f) => f.0,
        Err(_) => Seq::empty(),
    }
}

/// The last position (counted from one) among the first `k` children whose
/// space is named `name`, or 0.
pub open spec fn last_named(cs: Seq<XmlElement>, k: int, name: Seq<char>) -> int
    decreases k,
{
    if k <= 0 {
        0
    } else if child_name(&cs[k - 1]) == name {
        k
    } else {
        last_named(cs, k - 1, name)
    }
}

/// The kind that the space of `child` takes in the set, where the default
/// space is named `default_name`.
pub open spec fn child_kind(child: &XmlElement, default_name: Seq<char>) -> AddressSpaceKind {
    let name = child_name(child);
    if name == "register"@ {
        AddressSpaceKind::Register
    } else if name == default_name {
        AddressSpaceKind::Default
    } else if child.tag@ == "space_unique"@ {
        AddressSpaceKind::Internal
    } else {
        AddressSpaceKind::Processor
    }
}

/// Whether reading the `spaces` element `input` never meets a space whose
/// highest offset a `u64` cannot hold.
pub open spec fn spaces_fit(input: &XmlElement) -> bool {
    forall|i: int|
        0 <= i < input.children@.len() && first_bad_upto(input.children@, i) == -1
            ==> space_highest_fits(#[trigger] &input.children@[i])
}

pub proof fn lemma_last_named_bound(cs: Seq<XmlElement>, k: int, name: Seq<char>)
    requires
        0 <= k,
    ensures
        0 <= last_named(cs, k, name) <= k,
    decreases k,
{
    if k > 0 {
        lemma_last_named_bound(cs, k - 1, name);
    }
}

pub proof fn lemma_first_bad_stays(cs: Seq<XmlElement>, m: int, n: int)
    requires
        0 <= m <= n,
        first_bad_upto(cs, m) >= 0,
    ensures
        first_bad_upto(cs, n) == first_bad_upto(cs, m),
    decreases n - m,
{
    if n > m {
        lemma_first_bad_stays(cs, m, n - 1);
    }
}

/// The address spaces of a processor, with the positions of the constant,
/// default, register and unique spaces among them.
#[derive(Debug)]
pub struct AddressSpaces {
    spaces: Vec<Arc<AddressSpace>>,
    constant_space: usize,
    default_space: usize,
    register_space: usize,
    unique_space: usize,
}

impl AddressSpaces {
    /// Each space sits at the position of its own index, and the four
    /// special positions are among them.
    #[verifier::type_invariant]
    closed spec fn inv(&self) -> bool {
        &&& self.constant_space < self.spaces@.len()
        &&& self.default_space < self.spaces@.len()
        &&& self.register_space < self.spaces@.len()
        &&& self.unique_space < self.spaces@.len()
        &&& forall|i: int|
            0 <= i < self.spaces@.len() ==> (#[trigger] self.spaces@[i]).def().spec_index() == i
    }

    /// The number of spaces.
    pub closed spec fn spec_len(&self) -> nat {
        self.spaces@.len()
    }

    /// The space at position `i`.
    pub closed spec fn spec_space(&self, i: int) -> AddressSpace {
        *self.spaces@[i]
    }

    pub closed spec fn spec_constant_index(&self) -> int {
        self.constant_space as int
    }

    pub closed spec fn spec_default_index(&self) -> int {
        self.default_space as int
    }

    pub closed spec fn spec_register_index(&self) -> int {
        self.register_space as int
    }

    pub closed spec fn spec_unique_index(&self) -> int {
        self.unique_space as int
    }

    /// The spaces, in order.
    pub fn spaces(&self) -> (r: &[Arc<AddressSpace>])
        ensures
            r@.len() == self.spec_len(),
            forall|i: int| 0 <= i < r@.len() ==> *(#[trigger] r@[i]) == self.spec_space(i),
    {
        self.spaces.as_slice()
    }

    /// The address size of the default space.
    pub fn address_size(&self) -> (r: usize)
        ensures
            r == self.spec_space(self.spec_default_index()).def().spec_address_size(),
    {
        proof {
            use_type_invariant(self);
        }
        self.spaces[self.default_space].address_size()
    }

    /// The first space named `name`.
    pub fn space_by_name(&self, name: &str) -> (r: Option<Arc<AddressSpace>>)
        ensures
            match r {
                Some(s) => 0 <= first_named_from(self, name@, 0) < self.spec_len() && *s == self.spec_space(
                    first_named_from(self, name@, 0),
                ) && s.def().spec_name() == name@,
                None => first_named_from(self, name@, 0) == -1,
            },
    {
        let n = self.spaces.len();
        let mut i: usize = 0;
        while i < n
            invariant
                i <= n,
                n == self.spec_len(),
                first_named_from(self, name@, 0) == first_named_from(self, name@, i as int),
            decreases n - i,
        {
            if str_eq(self.spaces[i].name(), name) {
                let s = self.spaces[i].clone();
                return Some(s);
            }
            i = i + 1;
        }
        None
    }

    /// The space with the index of `id`.
    pub fn space_by_id(&self, id: AddressSpaceId) -> (r: &AddressSpace)
        requires
            (id.spec_bits() & 0xffff) < self.spec_len(),
        ensures
            *r == self.spec_space((id.spec_bits() & 0xffff) as int),
    {
        &self.spaces[id.index()]
    }

    /// The constant space.
    pub fn constant_space(&self) -> (r: Arc<AddressSpace>)
        ensures
            *r == self.spec_space(self.spec_constant_index()),
    {
        proof {
            use_type_invariant(self);
        }
        self.spaces[self.constant_space].clone()
    }

    /// The constant space, borrowed.
    pub fn constant_space_ref(&self) -> (r: &AddressSpace)
        ensures
            *r == self.spec_space(self.spec_constant_index()),
    {
        proof {
            use_type_invariant(self);
        }
        &self.spaces[self.constant_space]
    }

    /// The identifier of the constant space.
    pub fn constant_space_id(&self) -> (r: AddressSpaceId)
        ensures
            r.spec_bits() == id_bits(self.spec_constant_index() as usize, ID_CONSTANT_SPACE),
    {
        AddressSpaceId::constant_id(self.constant_space)
    }

    /// The default space.
    pub fn default_space(&self) -> (r: Arc<AddressSpace>)
        ensures
            *r == self.spec_space(self.spec_default_index()),
    {
        proof {
            use_type_invariant(self);
        }
        self.spaces[self.default_space].clone()
    }

    /// The default space, borrowed.
    pub fn default_space_ref(&self) -> (r: &AddressSpace)
        ensures
            *r == self.spec_space(self.spec_default_index()),
    {
        proof {
            use_type_invariant(self);
        }
        &self.spaces[self.default_space]
    }

    /// The identifier of the default space.
    pub fn default_space_id(&self) -> (r: AddressSpaceId)
        ensures
            r.spec_bits() == id_bits(self.spec_default_index() as usize, ID_DEFAULT_SPACE),
    {
        AddressSpaceId::default_id(self.default_space)
    }

    /// The register space.
    pub fn register_space(&self) -> (r: Arc<AddressSpace>)
        ensures
            *r == self.spec_space(self.spec_register_index()),
    {
        proof {
            use_type_invariant(self);
        }
        self.spaces[self.register_space].clone()
    }

    /// The register space, borrowed.
    pub fn register_space_ref(&self) -> (r: &AddressSpace)
        ensures
            *r == self.spec_space(self.spec_register_index()),
    {
        proof {
            use_type_invariant(self);
        }
        &self.spaces[self.register_space]
    }

    /// The identifier of the register space.
    pub fn register_space_id(&self) -> (r: AddressSpaceId)
        ensures
            r.spec_bits() == id_bits(self.spec_register_index() as usize, ID_REGISTER_SPACE),
    {
        AddressSpaceId::register_id(self.register_space)
    }

    /// The unique space.
    pub fn unique_space(&self) -> (r: Arc<AddressSpace>)
        ensures
            *r == self.spec_space(self.spec_unique_index()),
    {
        proof {
            use_type_invariant(self);
        }
        self.spaces[self.unique_space].clone()
    }

    /// The unique space, borrowed.
    pub fn unique_space_ref(&self) -> (r: &AddressSpace)
        ensures
            *r == self.spec_space(self.spec_unique_index()),
    {
        proof {
            use_type_invariant(self);
        }
        &self.spaces[self.unique_space]
    }

    /// The identifier of the unique space.
    pub fn unique_space_id(&self) -> (r: AddressSpaceId)
        ensures
            r.spec_bits() == id_bits(self.spec_unique_index() as usize, ID_UNIQUE_SPACE),
    {
        AddressSpaceId::unique_id(self.unique_space)
    }
}

impl Clone for AddressSpaces {
    fn clone(&self) -> (r: Self)
        ensures
            r.spec_len() == self.spec_len(),
            forall|i: int| 0 <= i < self.spec_len() ==> r.spec_space(i) == self.spec_space(i),
            r.spec_constant_index() == self.spec_constant_index(),
            r.spec_default_index() == self.spec_default_index(),
            r.spec_register_index() == self.spec_register_index(),
            r.spec_unique_index() == self.spec_unique_index(),
    {
        proof {
            use_type_invariant(self);
        }
        let n = self.spaces.len();
        let mut spaces: Vec<Arc<AddressSpace>> = Vec::new();
        let mut i: usize = 0;
        while i < n
            invariant
                i <= n,
                n == self.spaces@.len(),
                spaces@.len() == i,
                forall|j: int| 0 <= j < i ==> *spaces@[j] == *self.spaces@[j],
            decreases n - i,
        {
            spaces.push(self.spaces[i].clone());
            i = i + 1;
        }
        AddressSpaces {
            spaces,
            constant_space: self.constant_space,
            default_space: self.default_space,
            register_space: self.register_space,
            unique_space: self.unique_space,
        }
    }
}

/// The position of the first space of `spaces` from position `i` on that is
/// named `name`, or -1.
pub open spec fn first_named_from(spaces: &AddressSpaces, name: Seq<char>, i: int) -> int
    decreases spaces.spec_len() - i,
{
    if i < 0 || i >= spaces.spec_len() {
        -1
    } else if spaces.spec_space(i).def().spec_name() == name {
        i
    } else {
        first_named_from(spaces, name, i + 1)
    }
}

/// Whether `spaces` is the set read from the children `cs` of a `spaces`
/// element whose default space is named `dn`.
pub open spec fn spaces_read_from(spaces: AddressSpaces, cs: Seq<XmlElement>, dn: Seq<char>) -> bool {
    &&& spaces.spec_len() == cs.len() + 1
    &&& spaces.spec_space(0) is Constant
    &&& spaces.spec_space(0).def().spec_name() == "const"@
    &&& spaces.spec_space(0).def().spec_index() == 0
    &&& forall|i: int|
        1 <= i <= cs.len() ==> {
            &&& space_read_as(#[trigger] spaces.spec_space(i), &cs[i - 1], space_fields(&cs[i - 1])->Ok_0)
            &&& spaces.spec_space(i).def().spec_kind() == child_kind(&cs[i - 1], dn)
        }
    &&& spaces.spec_constant_index() == 0
    &&& spaces.spec_default_index() == last_named(cs, cs.len() as int, dn)
    &&& spaces.spec_register_index() == last_named(cs, cs.len() as int, "register"@)
    &&& spaces.spec_unique_index() == last_named(cs, cs.len() as int, "unique"@)
}

impl AddressSpaces {
    /// Reads the address spaces from a `spaces` element: the constant space
    /// first, then one space for each child, whose index must be its
    /// position; the space named by `defaultspace` and the spaces named
    /// `register` and `unique` must all be among them.
    pub fn from_xml(input: &XmlElement) -> (r: Result<Self, DeserialiseError>)
        requires
            spaces_fit(input),
        ensures
            input.tag@ != "spaces"@ ==> r is Err && r->Err_0 is TagUnexpected && r->Err_0->TagUnexpected_0@
                == input.tag@,
            input.tag@ == "spaces"@ && input.spec_attr("defaultspace"@) is None ==> r == Err::<
                AddressSpaces,
                DeserialiseError,
            >(DeserialiseError::AttributeExpected("defaultspace")),
            input.tag@ == "spaces"@ && input.spec_attr("defaultspace"@) is Some ==> {
                let cs = input.children@;
                let dn = input.spec_attr("defaultspace"@)->0;
                let bad = first_bad_upto(cs, cs.len() as int);
                if bad >= 0 {
                    r is Err && child_error(r->Err_0, &cs[bad])
                } else if last_named(cs, cs.len() as int, dn) == 0 {
                    r == Err::<AddressSpaces, DeserialiseError>(
                        DeserialiseError::Invariant("non-constant default space not defined"),
                    )
                } else if last_named(cs, cs.len() as int, "register"@) == 0 {
                    r == Err::<AddressSpaces, DeserialiseError>(
                        DeserialiseError::Invariant("register space not defined"),
                    )
                } else if last_named(cs, cs.len() as int, "unique"@) == 0 {
                    r == Err::<AddressSpaces, DeserialiseError>(
                        DeserialiseError::Invariant("unique space not defined"),
                    )
                } else {
                    r is Ok && spaces_read_from(r->Ok_0, cs, dn)
                }
            },
            r is Ok ==> spaces_layout(r->Ok_0),
            r is Ok && r->Ok_0.spec_len() <= 0x1_0000 ==> ids_round_trip(r->Ok_0),
    {
        let tag = input.tag_name();
        if !str_eq(tag, "spaces") {
            return Err(DeserialiseError::TagUnexpected(tag.to_owned()));
        }
        let default_name = match input.attribute("defaultspace") {
            Some(v) => v,
            None => {
                return Err(DeserialiseError::AttributeExpected("defaultspace"));
            },
        };
        let ghost cs = input.children@;
        let ghost dn = default_name@;
        let mut spaces: Vec<Arc<AddressSpace>> = Vec::new();
        spaces.push(Arc::new(AddressSpace::constant("const", 0)));
        let mut default_space: usize = 0;
        let mut register_space: usize = 0;
        let mut unique_space: usize = 0;
        let n = input.children.len();
        let mut j: usize = 0;
        while j < n
            invariant
                j <= n,
                n == cs.len(),
                cs == input.children@,
                dn == default_name@,
                input.tag@ == "spaces"@,
                input.spec_attr("defaultspace"@) == Some(dn),
                spaces_fit(input),
                first_bad_upto(cs, j as int) == -1,
                spaces@.len() == j + 1,
                (*spaces@[0]) is Constant,
                (*spaces@[0]).def().spec_name() == "const"@,
                (*spaces@[0]).def().spec_index() == 0,
                forall|i: int|
                    1 <= i <= j ==> {
                        &&& space_read_as(*(#[trigger] spaces@[i]), &cs[i - 1], space_fields(&cs[i - 1])->Ok_0)
                        &&& (*spaces@[i]).def().spec_kind() == child_kind(&cs[i - 1], dn)
                        &&& (*spaces@[i]).def().spec_index() == i
                    },
                default_space == last_named(cs, j as int, dn),
                register_space == last_named(cs, j as int, "register"@),
                unique_space == last_named(cs, j as int, "unique"@),
            decreases n - j,
        {
            let child = &input.children[j];
            let index = j + 1;
            let mut space = match AddressSpace::from_xml(child) {
                Ok(s) => s,
                Err(e) => {
                    proof {
                        assert(!child_ok(&cs[j as int], index as int));
                        assert(first_bad_upto(cs, index as int) == j);
                        lemma_first_bad_stays(cs, index as int, n as int);
                    }
                    return Err(e);
                },
            };
            if space.index() != index {
                proof {
                    assert(!child_ok(&cs[j as int], index as int));
                    assert(first_bad_upto(cs, index as int) == j);
                    lemma_first_bad_stays(cs, index as int, n as int);
                }
                return Err(DeserialiseError::Invariant("space index mismatch"));
            }
            let ghost f = space_fields(&cs[j as int])->Ok_0;
            assert(child_name(&cs[j as int]) == f.0);
            if str_eq(space.name(), default_name) {
                default_space = index;
                space.set_kind(AddressSpaceKind::Default);
            }
            if str_eq(space.name(), "register") {
                register_space = index;
                space.set_kind(AddressSpaceKind::Register);
            }
            if str_eq(space.name(), "unique") {
                unique_space = index;
            }
            spaces.push(Arc::new(space));
            proof {
                assert(child_ok(&cs[j as int], index as int));
            }
            j = index;
        }
        proof {
            lemma_last_named_bound(cs, n as int, dn);
            lemma_last_named_bound(cs, n as int, "register"@);
            lemma_last_named_bound(cs, n as int, "unique"@);
        }
        if default_space == 0 {
            return Err(DeserialiseError::Invariant("non-constant default space not defined"));
        }
        if register_space == 0 {
            return Err(DeserialiseError::Invariant("register space not defined"));
        }
        if unique_space == 0 {
            return Err(DeserialiseError::Invariant("unique space not defined"));
        }
        let result = AddressSpaces { spaces, constant_space: 0, default_space, register_space, unique_space };
        proof {
            lemma_spaces_layout(result, cs, dn);
            if result.spec_len() <= 0x1_0000 {
                lemma_space_id_round_trip(result);
            }
        }
        Ok(result)
    }
}

/// What holds of every set of spaces read from a `spaces` element: the
/// constant space, named `const`, comes first; every space sits at the
/// position of its index; the default, register and unique spaces come
/// after it, the register space of register kind and named `register`, the
/// unique space named `unique`, and the default space of default kind
/// unless it is named `register`.
pub open spec fn spaces_layout(s: AddressSpaces) -> bool {
    &&& s.spec_space(0) is Constant
    &&& s.spec_space(0).def().spec_name() == "const"@
    &&& s.spec_constant_index() == 0
    &&& forall|i: int| 0 <= i < s.spec_len() ==> (#[trigger] s.spec_space(i)).def().spec_index() == i
    &&& 1 <= s.spec_default_index() < s.spec_len()
    &&& 1 <= s.spec_register_index() < s.spec_len()
    &&& 1 <= s.spec_unique_index() < s.spec_len()
    &&& s.spec_space(s.spec_register_index()).def().spec_kind() == AddressSpaceKind::Register
    &&& s.spec_space(s.spec_register_index()).def().spec_name() == "register"@
    &&& s.spec_space(s.spec_unique_index()).def().spec_name() == "unique"@
    &&& s.spec_space(s.spec_default_index()).def().spec_name() != "register"@ ==> s.spec_space(
        s.spec_default_index(),
    ).def().spec_kind() == AddressSpaceKind::Default
}

/// The identifiers of the constant, default, register and unique spaces of
/// `s` keep their positions in their low 16 bits, so that looking a space up
/// by one of them (`space_by_id`) gives that space.
pub open spec fn ids_round_trip(s: AddressSpaces) -> bool {
    &&& id_bits(s.spec_constant_index() as usize, ID_CONSTANT_SPACE) & 0xffff == s.spec_constant_index()
    &&& id_bits(s.spec_default_index() as usize, ID_DEFAULT_SPACE) & 0xffff == s.spec_default_index()
    &&& id_bits(s.spec_register_index() as usize, ID_REGISTER_SPACE) & 0xffff == s.spec_register_index()
    &&& id_bits(s.spec_unique_index() as usize, ID_UNIQUE_SPACE) & 0xffff == s.spec_unique_index()
}

/// Where none of the first `k` children is bad, each describes the space
/// with its own position (counted from one) as index.
pub proof fn lemma_all_children_ok(cs: Seq<XmlElement>, k: int)
    requires
        0 <= k,
        first_bad_upto(cs, k) == -1,
    ensures
        forall|i: int| 0 <= i < k ==> child_ok(#[trigger] &cs[i], i + 1),
    decreases k,
{
    if k > 0 {
        lemma_all_children_ok(cs, k - 1);
    }
}

/// The last child named `name` among the first `k`, where there is one,
/// is named `name`.
pub proof fn lemma_last_named_is(cs: Seq<XmlElement>, k: int, name: Seq<char>)
    requires
        last_named(cs, k, name) > 0,
    ensures
        child_name(&cs[last_named(cs, k, name) - 1]) == name,
    decreases k,
{
    if k > 0 && child_name(&cs[k - 1]) != name {
        lemma_last_named_is(cs, k - 1, name);
    }
}

/// The layout of a set of spaces read from a `spaces` element: the constant
/// space, named `const`, comes first; every space sits at the position of
/// its index; the default, register and unique spaces come after it, the
/// register space of register kind and named `register`, the unique space
/// named `unique`, and the default space of default kind unless the
/// default space is the register space.
pub proof fn lemma_spaces_layout(spaces: AddressSpaces, cs: Seq<XmlElement>, dn: Seq<char>)
    requires
        first_bad_upto(cs, cs.len() as int) == -1,
        last_named(cs, cs.len() as int, dn) > 0,
        last_named(cs, cs.len() as int, "register"@) > 0,
        last_named(cs, cs.len() as int, "unique"@) > 0,
        spaces_read_from(spaces, cs, dn),
    ensures
        spaces.spec_space(0) is Constant,
        spaces.spec_space(0).def().spec_name() == "const"@,
        forall|i: int| 0 <= i < spaces.spec_len() ==> (#[trigger] spaces.spec_space(i)).def().spec_index() == i,
        1 <= spaces.spec_default_index() < spaces.spec_len(),
        1 <= spaces.spec_register_index() < spaces.spec_len(),
        1 <= spaces.spec_unique_index() < spaces.spec_len(),
        spaces.spec_space(spaces.spec_register_index()).def().spec_kind() == AddressSpaceKind::Register,
        spaces.spec_space(spaces.spec_register_index()).def().spec_name() == "register"@,
        spaces.spec_space(spaces.spec_unique_index()).def().spec_name() == "unique"@,
        spaces.spec_space(spaces.spec_default_index()).def().spec_name() == dn,
        dn != "register"@ ==> spaces.spec_space(spaces.spec_default_index()).def().spec_kind()
            == AddressSpaceKind::Default,
{
    let n = cs.len() as int;
    lemma_all_children_ok(cs, n);
    lemma_last_named_bound(cs, n, dn);
    lemma_last_named_bound(cs, n, "register"@);
    lemma_last_named_bound(cs, n, "unique"@);
    lemma_last_named_is(cs, n, dn);
    lemma_last_named_is(cs, n, "register"@);
    lemma_last_named_is(cs, n, "unique"@);
    assert forall|i: int| 0 <= i < spaces.spec_len() implies (#[trigger] spaces.spec_space(i)).def().spec_index()
        == i by {
        if i >= 1 {
            assert(child_ok(&cs[i - 1], i));
            assert(space_read_as(spaces.spec_space(i), &cs[i - 1], space_fields(&cs[i - 1])->Ok_0));
        }
    }
    let d = spaces.spec_default_index();
    let g = spaces.spec_register_index();
    let u = spaces.spec_unique_index();
    assert(child_ok(&cs[d - 1], d));
    assert(child_ok(&cs[g - 1], g));
    assert(child_ok(&cs[u - 1], u));
    assert(space_read_as(spaces.spec_space(d), &cs[d - 1], space_fields(&cs[d - 1])->Ok_0));
    assert(space_read_as(spaces.spec_space(g), &cs[g - 1], space_fields(&cs[g - 1])->Ok_0));
    assert(space_read_as(spaces.spec_space(u), &cs[u - 1], space_fields(&cs[u - 1])->Ok_0));
}

/// Looking a space up by the identifier of the constant, default, register
/// or unique space gives that space, where the set holds at most 65536
/// spaces (an identifier keeps the low 16 bits of a position).
pub proof fn lemma_space_id_round_trip(spaces: AddressSpaces)
    requires
        spaces.spec_len() <= 0x1_0000,
        spaces.spec_constant_index() < spaces.spec_len(),
        spaces.spec_default_index() < spaces.spec_len(),
        spaces.spec_register_index() < spaces.spec_len(),
        spaces.spec_unique_index() < spaces.spec_len(),
    ensures
        id_bits(spaces.spec_constant_index() as usize, ID_CONSTANT_SPACE) & 0xffff
            == spaces.spec_constant_index(),
        id_bits(spaces.spec_default_index() as usize, ID_DEFAULT_SPACE) & 0xffff == spaces.spec_default_index(),
        id_bits(spaces.spec_register_index() as usize, ID_REGISTER_SPACE) & 0xffff
            == spaces.spec_register_index(),
        id_bits(spaces.spec_unique_index() as usize, ID_UNIQUE_SPACE) & 0xffff == spaces.spec_unique_index(),
{
    lemma_id_bits_low(spaces.spec_constant_index() as usize);
    lemma_id_bits_low(spaces.spec_default_index() as usize);
    lemma_id_bits_low(spaces.spec_register_index() as usize);
    lemma_id_bits_low(spaces.spec_unique_index() as usize);
}

/// The low 16 bits of an identifier made with any of the four role flags
/// are the position it was made from, where that is below 65536.
proof fn lemma_id_bits_low(i: usize)
    requires
        i < 0x1_0000,
    ensures
        id_bits(i, ID_CONSTANT_SPACE) & 0xffff == i,
        id_bits(i, ID_DEFAULT_SPACE) & 0xffff == i,
        id_bits(i, ID_REGISTER_SPACE) & 0xffff == i,
        id_bits(i, ID_UNIQUE_SPACE) & 0xffff == i,
{
    assert(((i & 0xffff) as u32) == i) by (bit_vector)
        requires
            i < 0x1_0000,
    ;
    let x = (i & 0xffff) as u32;
    assert(x < 0x1_0000 ==> (x | 0x8000_0000u32) & 0xffff == x && (x | 0x4000_0000u32) & 0xffff == x && (x
        | 0x2000_0000u32) & 0xffff == x && (x | 0x1000_0000u32) & 0xffff == x) by (bit_vector);
}

} // verus!
