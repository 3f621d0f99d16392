use vstd::prelude::*;

use crate::sleigh::deserialise::{num_attr, num_attr_opt, DeserialiseError, XmlElement};
use crate::sleigh::opcode::{opcode_named, Opcode};
use crate::sleigh::space::AddressSpaceId;
use crate::sleigh::spaces::{first_named_from, AddressSpaces};
use crate::text::{chars_of, str_eq};

verus! {

/// Which part of an operand's handle a constant stands for.
#[derive(Debug, Clone, Copy, PartialEq, Eq, Structural)]
pub enum HandleKind {
    Space,
    Offset,
    Size,
    OffsetPlus(u64),
}

/// A constant of a p-code template, fixed once an instruction is parsed.
#[derive(Debug, Clone, Copy, PartialEq, Eq, Structural)]
pub enum ConstTpl {
    Real(u64),
    Handle(usize, HandleKind),
    Start,
    Next,
    Next2,
    CurrentSpace,
    CurrentSpaceSize,
    SpaceId(AddressSpaceId),
    Relative(u64),
    FlowRef,
    FlowRefSize,
    FlowDest,
    FlowDestSize,
}

/// The characters of `s` after `prefix`, where `s` starts with it.
pub open spec fn strip_prefix_spec(s: Seq<char>, prefix: Seq<char>) -> Option<Seq<char>> {
    if prefix.len() <= s.len() && s.subrange(0, prefix.len() as int) == prefix {
        Some(s.subrange(prefix.len() as int, s.len() as int))
    } else {
        None
    }
}

/// The exec form of `strip_prefix_spec`.
fn strip_prefix(s: &str, prefix: &str) -> (r: Option<Vec<char>>)
    ensures
        match strip_prefix_spec(s@, prefix@) {
            Some(v) => r is Some && r->0@ == v,
            None => r is None,
        },
{
    let cs = chars_of(s);
    let ps = chars_of(prefix);
    if ps.len() > cs.len() {
        return None;
    }
    let mut i: usize = 0;
    while i < ps.len()
        invariant
            i <= ps@.len() <= cs@.len(),
            cs@ == s@,
            ps@ == prefix@,
            forall|j: int| 0 <= j < i ==> cs@[j] == ps@[j],
        decreases ps@.len() - i,
    {
        if cs[i] != ps[i] {
            proof {
                assert(s@.subrange(0, prefix@.len() as int)[i as int] != prefix@[i as int]);
            }
            return None;
        }
        i = i + 1;
    }
    assert(s@.subrange(0, prefix@.len() as int) =~= prefix@);
    let mut rest: Vec<char> = Vec::new();
    let mut k = ps.len();
    while k < cs.len()
        invariant
            ps@.len() <= k <= cs@.len(),
            cs@ == s@,
            ps@ == prefix@,
            rest@ == cs@.subrange(ps@.len() as int, k as int),
        decreases cs@.len() - k,
    {
        rest.push(cs[k]);
        proof {
            assert(cs@.subrange(ps@.len() as int, k + 1) =~= cs@.subrange(ps@.len() as int, k as int).push(cs@[k as int]));
        }
        k = k + 1;
    }
    Some(rest)
}

/// Whether the characters `a` spell `b`.
fn chars_eq(a: &Vec<char>, b: &str) -> (r: bool)
    ensures
        r == (a@ == b@),
{
    let bs = chars_of(b);
    if a.len() != bs.len() {
        return false;
    }
    let mut i: usize = 0;
    while i < a.len()
        invariant
            i <= a@.len() == bs@.len(),
            bs@ == b@,
            forall|j: int| 0 <= j < i ==> a@[j] == bs@[j],
        decreases a@.len() - i,
    {
        if a[i] != bs[i] {
            return false;
        }
        i = i + 1;
    }
    assert(a@ =~= bs@);
    true
}

/// The type of a constant element: its `type` attribute, or else its tag
/// after `const_`.
pub open spec fn const_type(input: &XmlElement) -> Option<Seq<char>> {
    match input.spec_attr("type"@) {
        Some(t) => Some(t),
        None => strip_prefix_spec(input.tag@, "const_"@),
    }
}

/// A number read as a `u64`.
pub open spec fn as_u64(r: Result<int, DeserialiseError>) -> Result<u64, DeserialiseError> {
    match r {
        Ok(v) => Ok(v as u64),
        Err(e) => Err(e),
    }
}

/// The constant of a type that takes no attributes.
pub open spec fn const_simple(t: Seq<char>) -> Option<ConstTpl> {
    if t == "start"@ {
        Some(ConstTpl::Start)
    } else if t == "next"@ {
        Some(ConstTpl::Next)
    } else if t == "next2"@ {
        Some(ConstTpl::Next2)
    } else if t == "curspace"@ {
        Some(ConstTpl::CurrentSpace)
    } else if t == "curspace_size"@ {
        Some(ConstTpl::CurrentSpaceSize)
    } else if t == "flowref"@ {
        Some(ConstTpl::FlowRef)
    } else if t == "flowref_size"@ {
        Some(ConstTpl::FlowRefSize)
    } else if t == "flowdest"@ {
        Some(ConstTpl::FlowDest)
    } else if t == "flowdest_size"@ {
        Some(ConstTpl::FlowDestSize)
    } else {
        None
    }
}

/// The part of a handle that the attribute value `s` names.
pub open spec fn handle_kind_named(s: Seq<char>) -> Option<int> {
    if s == "space"@ || s == "0"@ {
        Some(0)
    } else if s == "offset"@ || s == "1"@ {
        Some(1)
    } else if s == "size"@ || s == "2"@ {
        Some(2)
    } else if s == "offset_plus"@ || s == "3"@ {
        Some(3)
    } else {
        None
    }
}

/// What reading a `handle` constant element gives.
pub open spec fn handle_const_of(input: &XmlElement) -> Result<ConstTpl, DeserialiseError> {
    match num_attr::<usize>(input, "val") {
        Err(e) => Err(e),
        Ok(i) => match input.spec_attr("s"@) {
            None => Err(DeserialiseError::AttributeExpected("s")),
            Some(s) => match handle_kind_named(s) {
                None => Err(DeserialiseError::Invariant("invalid handle kind")),
                Some(k) => if k == 0 {
                    Ok(ConstTpl::Handle(i as usize, HandleKind::Space))
                } else if k == 1 {
                    Ok(ConstTpl::Handle(i as usize, HandleKind::Offset))
                } else if k == 2 {
                    Ok(ConstTpl::Handle(i as usize, HandleKind::Size))
                } else {
                    match as_u64(num_attr::<u64>(input, "plus")) {
                        Ok(p) => Ok(ConstTpl::Handle(i as usize, HandleKind::OffsetPlus(p))),
                        Err(e) => Err(e),
                    }
                },
            },
        },
    }
}

/// What reading a `spaceid` constant element gives: `None` where it names a
/// space that `spaces` lacks.
pub open spec fn space_const_of(input: &XmlElement, spaces: &AddressSpaces) -> Option<
    Result<ConstTpl, DeserialiseError>,
> {
    let name = match input.spec_attr("name"@) {
        Some(n) => Some(n),
        None => input.spec_attr("space"@),
    };
    match name {
        None => Some(Err(DeserialiseError::AttributeExpected("name"))),
        Some(n) => {
            let i = first_named_from(spaces, n, 0);
            if i < 0 {
                None
            } else {
                Some(Ok(ConstTpl::SpaceId(spaces.spec_space(i).spec_id())))
            }
        },
    }
}

/// What reading the constant element `input` gives: `None` where it names
/// a space that `spaces` lacks.
pub open spec fn const_tpl_of(input: &XmlElement, spaces: &AddressSpaces) -> Option<
    Result<ConstTpl, DeserialiseError>,
> {
    match const_type(input) {
        None => Some(Err(DeserialiseError::AttributeExpected("type"))),
        Some(t) => if t == "real"@ {
            Some(
                match as_u64(num_attr::<u64>(input, "val")) {
                    Ok(v) => Ok(ConstTpl::Real(v)),
                    Err(e) => Err(e),
                },
            )
        } else if t == "handle"@ {
            Some(handle_const_of(input))
        } else if t == "spaceid"@ {
            space_const_of(input, spaces)
        } else if t == "relative"@ {
            Some(
                match as_u64(num_attr::<u64>(input, "val")) {
                    Ok(v) => Ok(ConstTpl::Relative(v)),
                    Err(e) => Err(e),
                },
            )
        } else {
            match const_simple(t) {
                Some(c) => Some(Ok(c)),
                None => Some(Err(DeserialiseError::Invariant("invalid ConstTpl type"))),
            }
        },
    }
}

/// The exec form of `const_simple`.
fn simple_const(ty: &Vec<char>) -> (r: Option<ConstTpl>)
    ensures
        r == const_simple(ty@),
{
    if chars_eq(ty, "start") {
        Some(ConstTpl::Start)
    } else if chars_eq(ty, "next") {
        Some(ConstTpl::Next)
    } else if chars_eq(ty, "next2") {
        Some(ConstTpl::Next2)
    } else if chars_eq(ty, "curspace") {
        Some(ConstTpl::CurrentSpace)
    } else if chars_eq(ty, "curspace_size") {
        Some(ConstTpl::CurrentSpaceSize)
    } else if chars_eq(ty, "flowref") {
        Some(ConstTpl::FlowRef)
    } else if chars_eq(ty, "flowref_size") {
        Some(ConstTpl::FlowRefSize)
    } else if chars_eq(ty, "flowdest") {
        Some(ConstTpl::FlowDest)
    } else if chars_eq(ty, "flowdest_size") {
        Some(ConstTpl::FlowDestSize)
    } else {
        None
    }
}

/// Reads a `handle` constant element.
fn handle_const(input: &XmlElement) -> (r: Result<ConstTpl, DeserialiseError>)
    ensures
        r == handle_const_of(input),
{
    let index: usize = match input.attribute_int("val") {
        Ok(v) => v,
        Err(e) => {
            return Err(e);
        },
    };
    let s = match input.attribute("s") {
        Some(s) => s,
        None => {
            return Err(DeserialiseError::AttributeExpected("s"));
        },
    };
    if str_eq(s, "space") || str_eq(s, "0") {
        Ok(ConstTpl::Handle(index, HandleKind::Space))
    } else if str_eq(s, "offset") || str_eq(s, "1") {
        Ok(ConstTpl::Handle(index, HandleKind::Offset))
    } else if str_eq(s, "size") || str_eq(s, "2") {
        Ok(ConstTpl::Handle(index, HandleKind::Size))
    } else if str_eq(s, "offset_plus") || str_eq(s, "3") {
        match input.attribute_int::<u64>("plus") {
            Ok(p) => Ok(ConstTpl::Handle(index, HandleKind::OffsetPlus(p))),
            Err(e) => Err(e),
        }
    } else {
        Err(DeserialiseError::Invariant("invalid handle kind"))
    }
}

/// Reads a `spaceid` constant element.
fn space_const(input: &XmlElement, spaces: &AddressSpaces) -> (r: Result<ConstTpl, DeserialiseError>)
    requires
        space_const_of(input, spaces) is Some,
    ensures
        r == space_const_of(input, spaces)->0,
{
    let name = match input.attribute_string_or("name", "space") {
        Ok(n) => n,
        Err(e) => {
            return Err(e);
        },
    };
    let space = match spaces.space_by_name(name.as_str()) {
        Some(space) => space,
        None => {
            return Err(DeserialiseError::AttributeExpected("name"));
        },
    };
    Ok(ConstTpl::SpaceId(space.id()))
}

impl ConstTpl {
    /// Whether the constant refers to an operand's handle.
    pub fn is_handle(&self) -> (r: bool)
        ensures
            r == (*self is Handle),
    {
        matches!(self, ConstTpl::Handle(_, _))
    }

    /// Whether the constant is a plain value.
    pub fn is_real(&self) -> (r: bool)
        ensures
            r == (*self is Real),
    {
        matches!(self, ConstTpl::Real(_))
    }

    /// The plain value of the constant, or 0.
    pub fn real_value(&self) -> (r: u64)
        ensures
            r == match *self {
                ConstTpl::Real(v) => v,
                _ => 0,
            },
    {
        match self {
            ConstTpl::Real(value) => *value,
            _ => 0,
        }
    }

    /// The operand index of a handle constant.
    pub fn handle_index(&self) -> (r: Option<usize>)
        ensures
            r == match *self {
                ConstTpl::Handle(i, _) => Some(i),
                _ => None,
            },
    {
        match self {
            ConstTpl::Handle(index, _) => Some(*index),
            _ => None,
        }
    }

    /// Whether the constant is relative to the template's labels.
    pub fn is_relative(&self) -> (r: bool)
        ensures
            r == (*self is Relative),
    {
        matches!(self, ConstTpl::Relative(_))
    }

    /// Reads a constant from its element; a `spaceid` constant names a space
    /// of `spaces`.
    pub fn from_xml(input: &XmlElement, spaces: &AddressSpaces) -> (r: Result<Self, DeserialiseError>)
        requires
            const_tpl_of(input, spaces) is Some,
        ensures
            r == const_tpl_of(input, spaces)->0,
    {
        let ty: Vec<char> = match input.attribute("type") {
            Some(t) => chars_of(t),
            None => match strip_prefix(input.tag_name(), "const_") {
                Some(v) => v,
                None => {
                    return Err(DeserialiseError::AttributeExpected("type"));
                },
            },
        };
        if chars_eq(&ty, "real") {
            match input.attribute_int::<u64>("val") {
                Ok(v) => Ok(ConstTpl::Real(v)),
                Err(e) => Err(e),
            }
        } else if chars_eq(&ty, "handle") {
            handle_const(input)
        } else if chars_eq(&ty, "spaceid") {
            space_const(input, spaces)
        } else if chars_eq(&ty, "relative") {
            match input.attribute_int::<u64>("val") {
                Ok(v) => Ok(ConstTpl::Relative(v)),
                Err(e) => Err(e),
            }
        } else {
            match simple_const(&ty) {
                Some(c) => Ok(c),
                None => Err(DeserialiseError::Invariant("invalid ConstTpl type")),
            }
        }
    }
}

/// The message for a missing child `i` of a handle template (`handle`) or a
/// varnode template.
pub open spec fn missing_msg(handle: bool, i: int) -> &'static str {
    if handle {
        if i == 0 {
            "space missing for HandleTpl"
        } else if i == 1 {
            "size missing for HandleTpl"
        } else if i == 2 {
            "ptr_space missing for HandleTpl"
        } else if i == 3 {
            "ptr_offset missing for HandleTpl"
        } else if i == 4 {
            "ptr_size missing for HandleTpl"
        } else if i == 5 {
            "tmp_space missing for HandleTpl"
        } else {
            "tmp_offset missing for HandleTpl"
        }
    } else {
        if i == 0 {
            "space missing for VarnodeTpl"
        } else if i == 1 {
            "offset missing for VarnodeTpl"
        } else {
            "size missing for VarnodeTpl"
        }
    }
}

/// The exec form of `missing_msg`.
fn missing(handle: bool, i: usize) -> (r: &'static str)
    ensures
        r == missing_msg(handle, i as int),
{
    if handle {
        if i == 0 {
            "space missing for HandleTpl"
        } else if i == 1 {
            "size missing for HandleTpl"
        } else if i == 2 {
            "ptr_space missing for HandleTpl"
        } else if i == 3 {
            "ptr_offset missing for HandleTpl"
        } else if i == 4 {
            "ptr_size missing for HandleTpl"
        } else if i == 5 {
            "tmp_space missing for HandleTpl"
        } else {
            "tmp_offset missing for HandleTpl"
        }
    } else {
        if i == 0 {
            "space missing for VarnodeTpl"
        } else if i == 1 {
            "offset missing for VarnodeTpl"
        } else {
            "size missing for VarnodeTpl"
        }
    }
}

/// The number of constants of a handle template (`handle`) or a varnode
/// template.
pub open spec fn const_count(handle: bool) -> int {
    if handle {
        7
    } else {
        3
    }
}

/// Prepends `prefix` to what reading goes on to give.
pub open spec fn prepend<T>(prefix: Seq<T>, rest: Option<Result<Seq<T>, DeserialiseError>>) -> Option<
    Result<Seq<T>, DeserialiseError>,
> {
    match rest {
        None => None,
        Some(Err(e)) => Some(Err(e)),
        Some(Ok(r)) => Some(Ok(prefix + r)),
    }
}

/// Reads the children of `cs` from position `i` on, up to the number of
/// constants of the template, as constants; a missing child gives its
/// message.
pub open spec fn consts_from(cs: Seq<XmlElement>, spaces: &AddressSpaces, handle: bool, i: int) -> Option<
    Result<Seq<ConstTpl>, DeserialiseError>,
>
    decreases const_count(handle) - i,
{
    if i < 0 || i >= const_count(handle) {
        Some(Ok(Seq::empty()))
    } else if i >= cs.len() {
        Some(Err(DeserialiseError::Invariant(missing_msg(handle, i))))
    } else {
        match const_tpl_of(&cs[i], spaces) {
            None => None,
            Some(Err(e)) => Some(Err(e)),
            Some(Ok(c)) => prepend(seq![c], consts_from(cs, spaces, handle, i + 1)),
        }
    }
}

proof fn lemma_consts_len(cs: Seq<XmlElement>, spaces: &AddressSpaces, handle: bool, i: int)
    requires
        0 <= i <= const_count(handle),
    ensures
        match consts_from(cs, spaces, handle, i) {
            Some(Ok(v)) => v.len() == const_count(handle) - i,
            _ => true,
        },
    decreases const_count(handle) - i,
{
    if i < const_count(handle) {
        lemma_consts_len(cs, spaces, handle, i + 1);
    }
}

/// Reads the constants of a handle template (`handle`) or a varnode
/// template from the children `cs`.
fn read_consts(cs: &Vec<XmlElement>, spaces: &AddressSpaces, handle: bool) -> (r: Result<
    Vec<ConstTpl>,
    DeserialiseError,
>)
    requires
        consts_from(cs@, spaces, handle, 0) is Some,
    ensures
        match consts_from(cs@, spaces, handle, 0)->0 {
            Ok(v) => r is Ok && r->Ok_0@ == v,
            Err(e) => r == Err::<Vec<ConstTpl>, DeserialiseError>(e),
        },
{
    let count: usize = if handle {
        7
    } else {
        3
    };
    let mut out: Vec<ConstTpl> = Vec::new();
    let mut i: usize = 0;
    while i < count
        invariant
            i <= count == const_count(handle),
            consts_from(cs@, spaces, handle, 0) == prepend(out@, consts_from(cs@, spaces, handle, i as int)),
            consts_from(cs@, spaces, handle, 0) is Some,
        decreases count - i,
    {
        if i >= cs.len() {
            return Err(DeserialiseError::Invariant(missing(handle, i)));
        }
        let c = match ConstTpl::from_xml(&cs[i], spaces) {
            Ok(c) => c,
            Err(e) => {
                return Err(e);
            },
        };
        proof {
            let rest = consts_from(cs@, spaces, handle, i + 1);
            assert(prepend(out@, prepend(seq![c], rest)) == prepend(out@.push(c), rest)) by {
                match rest {
                    Some(Ok(rv)) => {
                        assert(out@ + (seq![c] + rv) =~= out@.push(c) + rv);
                    },
                    _ => {},
                }
            }
        }
        out.push(c);
        i = i + 1;
    }
    proof {
        assert(out@ + Seq::<ConstTpl>::empty() =~= out@);
    }
    Ok(out)
}

/// How an operand's handle is built: its space and size, where a pointer to
/// it lives, and where a temporary copy of it lives.
#[derive(Debug, Clone, Copy, PartialEq, Eq, Structural)]
pub struct HandleTpl {
    space: ConstTpl,
    size: ConstTpl,
    ptr_space: ConstTpl,
    ptr_offset: ConstTpl,
    ptr_size: ConstTpl,
    tmp_space: ConstTpl,
    tmp_offset: ConstTpl,
}

/// The handle template holding the seven constants `v`, in order.
pub closed spec fn handle_tpl_from(v: Seq<ConstTpl>) -> HandleTpl {
    HandleTpl {
        space: v[0],
        size: v[1],
        ptr_space: v[2],
        ptr_offset: v[3],
        ptr_size: v[4],
        tmp_space: v[5],
        tmp_offset: v[6],
    }
}

/// What reading the handle template element `input` gives.
pub open spec fn handle_tpl_of(input: &XmlElement, spaces: &AddressSpaces) -> Option<
    Result<HandleTpl, DeserialiseError>,
> {
    match consts_from(input.children@, spaces, true, 0) {
        None => None,
        Some(Err(e)) => Some(Err(e)),
        Some(Ok(v)) => Some(Ok(handle_tpl_from(v))),
    }
}

impl View for HandleTpl {
    type V = Seq<ConstTpl>;

    closed spec fn view(&self) -> Seq<ConstTpl> {
        seq![
            self.space,
            self.size,
            self.ptr_space,
            self.ptr_offset,
            self.ptr_size,
            self.tmp_space,
            self.tmp_offset,
        ]
    }
}

impl HandleTpl {
    /// The space of the handle.
    pub fn space(&self) -> (r: &ConstTpl)
        ensures
            *r == self@[0],
    {
        &self.space
    }

    /// The size of the handle.
    pub fn size(&self) -> (r: &ConstTpl)
        ensures
            *r == self@[1],
    {
        &self.size
    }

    /// The space of the pointer to the handle.
    pub fn ptr_space(&self) -> (r: &ConstTpl)
        ensures
            *r == self@[2],
    {
        &self.ptr_space
    }

    /// The offset of the pointer to the handle.
    pub fn ptr_offset(&self) -> (r: &ConstTpl)
        ensures
            *r == self@[3],
    {
        &self.ptr_offset
    }

    /// The size of the pointer to the handle.
    pub fn ptr_size(&self) -> (r: &ConstTpl)
        ensures
            *r == self@[4],
    {
        &self.ptr_size
    }

    /// The space of the temporary copy of the handle.
    pub fn tmp_space(&self) -> (r: &ConstTpl)
        ensures
            *r == self@[5],
    {
        &self.tmp_space
    }

    /// The offset of the temporary copy of the handle.
    pub fn tmp_offset(&self) -> (r: &ConstTpl)
        ensures
            *r == self@[6],
    {
        &self.tmp_offset
    }

    /// Reads a handle template from the first seven element children of
    /// `input`.
    pub fn from_xml(input: &XmlElement, spaces: &AddressSpaces) -> (r: Result<Self, DeserialiseError>)
        requires
            handle_tpl_of(input, spaces) is Some,
        ensures
            r == handle_tpl_of(input, spaces)->0,
    {
        proof {
            lemma_consts_len(input.children@, spaces, true, 0);
        }
        let v = match read_consts(&input.children, spaces, true) {
            Ok(v) => v,
            Err(e) => {
                return Err(e);
            },
        };
        Ok(HandleTpl {
            space: v[0],
            size: v[1],
            ptr_space: v[2],
            ptr_offset: v[3],
            ptr_size: v[4],
            tmp_space: v[5],
            tmp_offset: v[6],
        })
    }
}

/// How a varnode of a p-code template is built: its space, offset and size.
#[derive(Debug, Clone, Copy, PartialEq, Eq, Structural)]
pub struct VarnodeTpl {
    space: ConstTpl,
    offset: ConstTpl,
    size: ConstTpl,
}

/// The varnode template holding the three constants `v`, in order.
pub closed spec fn varnode_tpl_from(v: Seq<ConstTpl>) -> VarnodeTpl {
    VarnodeTpl { space: v[0], offset: v[1], size: v[2] }
}

/// What reading the varnode template element `input` gives.
pub open spec fn varnode_tpl_of(input: &XmlElement, spaces: &AddressSpaces) -> Option<
    Result<VarnodeTpl, DeserialiseError>,
> {
    match consts_from(input.children@, spaces, false, 0) {
        None => None,
        Some(Err(e)) => Some(Err(e)),
        Some(Ok(v)) => Some(Ok(varnode_tpl_from(v))),
    }
}

impl View for VarnodeTpl {
    type V = Seq<ConstTpl>;

    closed spec fn view(&self) -> Seq<ConstTpl> {
        seq![self.space, self.offset, self.size]
    }
}

impl VarnodeTpl {
    /// Whether the offset of the varnode is relative to the template's labels.
    pub fn is_relative(&self) -> (r: bool)
        ensures
            r == (self@[1] is Relative),
    {
        self.offset.is_relative()
    }

    /// The space of the varnode.
    pub fn space(&self) -> (r: &ConstTpl)
        ensures
            *r == self@[0],
    {
        &self.space
    }

    /// The offset of the varnode.
    pub fn offset(&self) -> (r: &ConstTpl)
        ensures
            *r == self@[1],
    {
        &self.offset
    }

    /// The size of the varnode.
    pub fn size(&self) -> (r: &ConstTpl)
        ensures
            *r == self@[2],
    {
        &self.size
    }

    /// Reads a varnode template from the first three element children of
    /// `input`.
    pub fn from_xml(input: &XmlElement, spaces: &AddressSpaces) -> (r: Result<Self, DeserialiseError>)
        requires
            varnode_tpl_of(input, spaces) is Some,
        ensures
            r == varnode_tpl_of(input, spaces)->0,
    {
        proof {
            lemma_consts_len(input.children@, spaces, false, 0);
        }
        let v = match read_consts(&input.children, spaces, false) {
            Ok(v) => v,
            Err(e) => {
                return Err(e);
            },
        };
        Ok(VarnodeTpl { space: v[0], offset: v[1], size: v[2] })
    }
}

/// Reads the children of `cs` from position `i` on as varnode templates.
pub open spec fn varnodes_from(cs: Seq<XmlElement>, spaces: &AddressSpaces, i: int) -> Option<
    Result<Seq<VarnodeTpl>, DeserialiseError>,
>
    decreases cs.len() - i,
{
    if i < 0 || i >= cs.len() {
        Some(Ok(Seq::empty()))
    } else {
        match varnode_tpl_of(&cs[i], spaces) {
            None => None,
            Some(Err(e)) => Some(Err(e)),
            Some(Ok(v)) => prepend(seq![v], varnodes_from(cs, spaces, i + 1)),
        }
    }
}

/// Reads the varnode templates of the children of `cs` from position
/// `start` on.
fn read_varnodes(cs: &Vec<XmlElement>, spaces: &AddressSpaces, start: usize) -> (r: Result<
    Vec<VarnodeTpl>,
    DeserialiseError,
>)
    requires
        start <= cs@.len(),
        varnodes_from(cs@, spaces, start as int) is Some,
    ensures
        match varnodes_from(cs@, spaces, start as int)->0 {
            Ok(v) => r is Ok && r->Ok_0@ == v,
            Err(e) => r == Err::<Vec<VarnodeTpl>, DeserialiseError>(e),
        },
{
    let mut out: Vec<VarnodeTpl> = Vec::new();
    let mut i: usize = start;
    proof {
        assert(Seq::<VarnodeTpl>::empty() + Seq::<VarnodeTpl>::empty() =~= Seq::<VarnodeTpl>::empty());
        match varnodes_from(cs@, spaces, start as int) {
            Some(Ok(rv)) => {
                assert(out@ + rv =~= rv);
            },
            _ => {},
        }
    }
    while i < cs.len()
        invariant
            start <= i <= cs@.len(),
            varnodes_from(cs@, spaces, start as int) == prepend(out@, varnodes_from(cs@, spaces, i as int)),
            varnodes_from(cs@, spaces, start as int) is Some,
        decreases cs@.len() - i,
    {
        let v = match VarnodeTpl::from_xml(&cs[i], spaces) {
            Ok(v) => v,
            Err(e) => {
                return Err(e);
            },
        };
        proof {
            let rest = varnodes_from(cs@, spaces, i + 1);
            assert(prepend(out@, prepend(seq![v], rest)) == prepend(out@.push(v), rest)) by {
                match rest {
                    Some(Ok(rv)) => {
                        assert(out@ + (seq![v] + rv) =~= out@.push(v) + rv);
                    },
                    _ => {},
                }
            }
        }
        out.push(v);
        i = i + 1;
    }
    proof {
        assert(out@ + Seq::<VarnodeTpl>::empty() =~= out@);
    }
    Ok(out)
}

/// A p-code operation of a template: its operation, where its result goes
/// (if anywhere), and its inputs.
#[derive(Debug, Clone, PartialEq, Eq)]
pub struct OpTpl {
    opcode: Opcode,
    inputs: Vec<VarnodeTpl>,
    output: Option<VarnodeTpl>,
}

/// What reading the operation template element `input` gives: its
/// operation, output and inputs.
pub open spec fn op_tpl_of(input: &XmlElement, spaces: &AddressSpaces) -> Option<
    Result<(Opcode, Option<VarnodeTpl>, Seq<VarnodeTpl>), DeserialiseError>,
> {
    match input.spec_attr("code"@) {
        None => Some(Err(DeserialiseError::AttributeExpected("code"))),
        Some(c) => match opcode_named(c) {
            None => Some(Err(DeserialiseError::Invariant("invalid opcode"))),
            Some(op) => {
                let cs = input.children@;
                if cs.len() == 0 {
                    Some(Err(DeserialiseError::Invariant("output missing for OpTpl")))
                } else {
                    let out = if cs[0].tag@ == "null"@ {
                        Some(Ok(None))
                    } else {
                        match varnode_tpl_of(&cs[0], spaces) {
                            None => None,
                            Some(Err(e)) => Some(Err(e)),
                            Some(Ok(v)) => Some(Ok(Some(v))),
                        }
                    };
                    match out {
                        None => None,
                        Some(Err(e)) => Some(Err(e)),
                        Some(Ok(o)) => match varnodes_from(cs, spaces, 1) {
                            None => None,
                            Some(Err(e)) => Some(Err(e)),
                            Some(Ok(ins)) => Some(Ok((op, o, ins))),
                        },
                    }
                }
            },
        },
    }
}

impl View for OpTpl {
    type V = (Opcode, Option<VarnodeTpl>, Seq<VarnodeTpl>);

    closed spec fn view(&self) -> (Opcode, Option<VarnodeTpl>, Seq<VarnodeTpl>) {
        (self.opcode, self.output, self.inputs@)
    }
}

impl OpTpl {
    /// The operation.
    pub fn opcode(&self) -> (r: Opcode)
        ensures
            r == self@.0,
    {
        self.opcode
    }

    /// The input at `index`.
    pub fn input(&self, index: usize) -> (r: &VarnodeTpl)
        requires
            index < self@.2.len(),
        ensures
            *r == self@.2[index as int],
    {
        &self.inputs[index]
    }

    /// The inputs, in order.
    pub fn inputs(&self) -> (r: &[VarnodeTpl])
        ensures
            r@ == self@.2,
    {
        self.inputs.as_slice()
    }

    /// Where the result goes, if anywhere.
    pub fn output(&self) -> (r: Option<&VarnodeTpl>)
        ensures
            match r {
                Some(v) => self@.1 == Some(*v),
                None => self@.1 is None,
            },
    {
        match &self.output {
            Some(v) => Some(v),
            None => None,
        }
    }

    /// The number of inputs.
    pub fn input_count(&self) -> (r: usize)
        ensures
            r == self@.2.len(),
    {
        self.inputs.len()
    }

    /// Reads an operation template: its `code` names the operation, its
    /// first element child is the output (`null` for none) and the others
    /// are the inputs.
    pub fn from_xml(input: &XmlElement, spaces: &AddressSpaces) -> (r: Result<Self, DeserialiseError>)
        requires
            op_tpl_of(input, spaces) is Some,
        ensures
            match op_tpl_of(input, spaces)->0 {
                Ok(v) => r is Ok && r->Ok_0@ == v,
                Err(e) => r == Err::<OpTpl, DeserialiseError>(e),
            },
    {
        let code = match input.attribute("code") {
            Some(c) => c,
            None => {
                return Err(DeserialiseError::AttributeExpected("code"));
            },
        };
        let opcode = match Opcode::from_name(code) {
            Some(op) => op,
            None => {
                return Err(DeserialiseError::Invariant("invalid opcode"));
            },
        };
        let cs = &input.children;
        if cs.len() == 0 {
            return Err(DeserialiseError::Invariant("output missing for OpTpl"));
        }
        let output = if str_eq(cs[0].tag_name(), "null") {
            None
        } else {
            match VarnodeTpl::from_xml(&cs[0], spaces) {
                Ok(v) => Some(v),
                Err(e) => {
                    return Err(e);
                },
            }
        };
        let inputs = match read_varnodes(cs, spaces, 1) {
            Ok(v) => v,
            Err(e) => {
                return Err(e);
            },
        };
        Ok(OpTpl { opcode, inputs, output })
    }
}

/// Reads the children of `cs` from position `i` on as operation templates.
pub open spec fn ops_from(cs: Seq<XmlElement>, spaces: &AddressSpaces, i: int) -> Option<
    Result<Seq<(Opcode, Option<VarnodeTpl>, Seq<VarnodeTpl>)>, DeserialiseError>,
>
    decreases cs.len() - i,
{
    if i < 0 || i >= cs.len() {
        Some(Ok(Seq::empty()))
    } else {
        match op_tpl_of(&cs[i], spaces) {
            None => None,
            Some(Err(e)) => Some(Err(e)),
            Some(Ok(v)) => prepend(seq![v], ops_from(cs, spaces, i + 1)),
        }
    }
}

/// The views of `ops`.
pub open spec fn op_views(ops: Seq<OpTpl>) -> Seq<(Opcode, Option<VarnodeTpl>, Seq<VarnodeTpl>)> {
    ops.map_values(|o: OpTpl| o@)
}

/// Reads the operation templates of the children of `cs` from position
/// `start` on.
fn read_ops(cs: &Vec<XmlElement>, spaces: &AddressSpaces, start: usize) -> (r: Result<
    Vec<OpTpl>,
    DeserialiseError,
>)
    requires
        start <= cs@.len(),
        ops_from(cs@, spaces, start as int) is Some,
    ensures
        match ops_from(cs@, spaces, start as int)->0 {
            Ok(v) => r is Ok && op_views(r->Ok_0@) == v,
            Err(e) => r is Err && r->Err_0 == e,
        },
{
    let mut out: Vec<OpTpl> = Vec::new();
    let mut i: usize = start;
    proof {
        match ops_from(cs@, spaces, start as int) {
            Some(Ok(rv)) => {
                assert(op_views(out@) + rv =~= rv);
            },
            _ => {},
        }
    }
    while i < cs.len()
        invariant
            start <= i <= cs@.len(),
            ops_from(cs@, spaces, start as int) == prepend(op_views(out@), ops_from(cs@, spaces, i as int)),
            ops_from(cs@, spaces, start as int) is Some,
        decreases cs@.len() - i,
    {
        let op = match OpTpl::from_xml(&cs[i], spaces) {
            Ok(op) => op,
            Err(e) => {
                return Err(e);
            },
        };
        let ghost before = out@;
        proof {
            let rest = ops_from(cs@, spaces, i + 1);
            assert(op_views(before.push(op)) =~= op_views(before).push(op@));
            assert(prepend(op_views(before), prepend(seq![op@], rest)) == prepend(
                op_views(before.push(op)),
                rest,
            )) by {
                match rest {
                    Some(Ok(rv)) => {
                        assert(op_views(before) + (seq![op@] + rv) =~= op_views(before).push(op@) + rv);
                    },
                    _ => {},
                }
            }
        }
        out.push(op);
        i = i + 1;
    }
    proof {
        assert(op_views(out@) + Seq::empty() =~= op_views(out@));
    }
    Ok(out)
}

/// The p-code template of a constructor: how many delay slot bytes it
/// needs, how many labels it uses, the section it belongs to, its result
/// and its operations.
#[derive(Debug, Clone, PartialEq, Eq)]
pub struct ConstructTpl {
    delay_slot: usize,
    labels: usize,
    section_id: Option<usize>,
    result: Option<HandleTpl>,
    operations: Vec<OpTpl>,
}

/// What reading the constructor template element `input` gives: its delay
/// slot, labels, section, result and operations.
pub open spec fn construct_tpl_of(input: &XmlElement, spaces: &AddressSpaces) -> Option<
    Result<
        (usize, usize, Option<usize>, Option<HandleTpl>, Seq<(Opcode, Option<VarnodeTpl>, Seq<VarnodeTpl>)>),
        DeserialiseError,
    >,
> {
    match num_attr_opt::<usize>(input, "delay", 0) {
        Err(e) => Some(Err(e)),
        Ok(delay) => match num_attr_opt::<usize>(input, "labels", 0) {
            Err(e) => Some(Err(e)),
            Ok(labels) => match num_attr_opt::<i64>(input, "section", -1) {
                Err(e) => Some(Err(e)),
                Ok(section) => {
                    let section_id = if section < 0 {
                        None
                    } else {
                        Some(section as usize)
                    };
                    let cs = input.children@;
                    if cs.len() == 0 {
                        Some(Err(DeserialiseError::Invariant("result missing for ConstructTpl")))
                    } else {
                        let result = if cs[0].tag@ == "null"@ {
                            Some(Ok(None))
                        } else {
                            match handle_tpl_of(&cs[0], spaces) {
                                None => None,
                                Some(Err(e)) => Some(Err(e)),
                                Some(Ok(h)) => Some(Ok(Some(h))),
                            }
                        };
                        match result {
                            None => None,
                            Some(Err(e)) => Some(Err(e)),
                            Some(Ok(res)) => match ops_from(cs, spaces, 1) {
                                None => None,
                                Some(Err(e)) => Some(Err(e)),
                                Some(Ok(ops)) => Some(
                                    Ok((delay as usize, labels as usize, section_id, res, ops)),
                                ),
                            },
                        }
                    }
                },
            },
        },
    }
}

impl View for ConstructTpl {
    type V = (usize, usize, Option<usize>, Option<HandleTpl>, Seq<(Opcode, Option<VarnodeTpl>, Seq<VarnodeTpl>)>);

    closed spec fn view(&self) -> Self::V {
        (self.delay_slot, self.labels, self.section_id, self.result, op_views(self.operations@))
    }
}

impl ConstructTpl {
    /// The section the template belongs to, if any.
    pub fn section_id(&self) -> (r: Option<usize>)
        ensures
            r == self@.2,
    {
        self.section_id
    }

    /// The number of delay slot bytes.
    pub fn delay_slot(&self) -> (r: usize)
        ensures
            r == self@.0,
    {
        self.delay_slot
    }

    /// The number of labels.
    pub fn labels(&self) -> (r: usize)
        ensures
            r == self@.1,
    {
        self.labels
    }

    /// The operations, in order.
    pub fn operations(&self) -> (r: &[OpTpl])
        ensures
            op_views(r@) == self@.4,
    {
        self.operations.as_slice()
    }

    /// The result, if any.
    pub fn result(&self) -> (r: Option<&HandleTpl>)
        ensures
            match r {
                Some(h) => self@.3 == Some(*h),
                None => self@.3 is None,
            },
    {
        match &self.result {
            Some(h) => Some(h),
            None => None,
        }
    }

    /// Reads a constructor template: `delay` and `labels` default to 0 and a
    /// negative or missing `section` means none; its first element child is
    /// the result (`null` for none) and the others are the operations.
    pub fn from_xml(input: &XmlElement, spaces: &AddressSpaces) -> (r: Result<Self, DeserialiseError>)
        requires
            construct_tpl_of(input, spaces) is Some,
        ensures
            match construct_tpl_of(input, spaces)->0 {
                Ok(v) => r is Ok && r->Ok_0@ == v,
                Err(e) => r is Err && r->Err_0 == e,
            },
    {
        let delay_slot: usize = match input.attribute_int_opt("delay", 0) {
            Ok(v) => v,
            Err(e) => {
                return Err(e);
            },
        };
        let labels: usize = match input.attribute_int_opt("labels", 0) {
            Ok(v) => v,
            Err(e) => {
                return Err(e);
            },
        };
        let section: i64 = match input.attribute_int_opt("section", -1) {
            Ok(v) => v,
            Err(e) => {
                return Err(e);
            },
        };
        let section_id = if section < 0 {
            None
        } else {
            Some(section as usize)
        };
        let cs = &input.children;
        if cs.len() == 0 {
            return Err(DeserialiseError::Invariant("result missing for ConstructTpl"));
        }
        let result = if str_eq(cs[0].tag_name(), "null") {
            None
        } else {
            match HandleTpl::from_xml(&cs[0], spaces) {
                Ok(h) => Some(h),
                Err(e) => {
                    return Err(e);
                },
            }
        };
        let operations = match read_ops(cs, spaces, 1) {
            Ok(v) => v,
            Err(e) => {
                return Err(e);
            },
        };
        Ok(ConstructTpl { delay_slot, labels, section_id, result, operations })
    }
}

} // verus!
