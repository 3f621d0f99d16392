use vstd::prelude::*;

use crate::endian::Endian;
use crate::text::{chars_of, str_eq};

verus! {

/// Why a number could not be read from text.
#[derive(Debug, Clone, Copy, PartialEq, Eq, Structural)]
pub enum IntErrorKind {
    /// The text is empty.
    Empty,
    /// The text holds a character that is not a digit of the radix (a lone
    /// sign counts as one).
    InvalidDigit,
    /// The value is above the largest value of the type.
    PosOverflow,
    /// The value is below the smallest value of the type.
    NegOverflow,
}

/// Why a processor description could not be read.
#[derive(Debug, Clone, PartialEq, Eq)]
pub enum DeserialiseError {
    /// A required attribute is missing.
    AttributeExpected(&'static str),
    /// An element of an unknown kind.
    ElementUnexpected(u32),
    /// The description breaks a rule of its format.
    Invariant(&'static str),
    /// An attribute that should be `true` or `false` is neither.
    ParseBool,
    /// An attribute that should be a number is not one.
    ParseInteger(IntErrorKind),
    /// An attribute that should name a byte order does not.
    ParseEndian,
    /// An element with an unexpected tag.
    TagUnexpected(String),
    /// The text is not a well-formed XML document.
    Xml(roxmltree::Error),
}

/// The error of parsing an XML document.
#[verifier::external_type_specification]
#[verifier::external_body]
pub struct ExXmlError(roxmltree::Error);

/// Copying an XML parse error (`Clone` as `roxmltree` derives it); nothing
/// is claimed of the copy.
pub assume_specification[ <roxmltree::Error as Clone>::clone ](e: &roxmltree::Error) -> roxmltree::Error;

/// A node of a parsed XML document.
#[verifier::external_type_specification]
#[verifier::external_body]
pub struct ExXmlNode<'a, 'input: 'a>(roxmltree::Node<'a, 'input>);

/// An element of an XML document: its tag name, its attributes in document
/// order, and its child elements in document order (text and comments are
/// not kept).
#[derive(Debug)]
pub struct XmlElement {
    pub tag: String,
    pub attributes: Vec<(String, String)>,
    pub children: Vec<XmlElement>,
}

/// An XML element as values: its tag, its attributes in document order
/// and its child elements in document order.
pub struct XmlNode {
    pub tag: Seq<char>,
    pub attributes: Seq<(Seq<char>, Seq<char>)>,
    pub children: Seq<XmlNode>,
}

/// The attributes `attrs` as values.
pub open spec fn attrs_view(attrs: Seq<(String, String)>) -> Seq<(Seq<char>, Seq<char>)> {
    Seq::new(attrs.len(), |i: int| (attrs[i].0@, attrs[i].1@))
}

/// The element `e` as values.
pub closed spec fn xml_view(e: &XmlElement) -> XmlNode
    decreases e,
{
    XmlNode {
        tag: e.tag@,
        attributes: attrs_view(e.attributes@),
        children: Seq::new(
            e.children@.len(),
            |j: int|
                if 0 <= j < e.children@.len() {
                    xml_view(&e.children@[j])
                } else {
                    XmlNode { tag: Seq::empty(), attributes: Seq::empty(), children: Seq::empty() }
                },
        ),
    }
}

impl View for XmlElement {
    type V = XmlNode;

    closed spec fn view(&self) -> XmlNode {
        xml_view(self)
    }
}

/// The view of an element holds its tag, its attributes and the views of
/// its children.
pub proof fn lemma_xml_view(e: &XmlElement)
    ensures
        e@.tag == e.tag@,
        e@.attributes == attrs_view(e.attributes@),
        e@.children.len() == e.children@.len(),
        forall|j: int| 0 <= j < e.children@.len() ==> #[trigger] e@.children[j] == e.children@[j]@,
{
    reveal_with_fuel(xml_view, 2);
}

/// The value of the first attribute named `name` among `attrs`.
pub open spec fn node_attr_lookup(attrs: Seq<(Seq<char>, Seq<char>)>, name: Seq<char>) -> Option<Seq<char>>
    decreases attrs.len(),
{
    if attrs.len() == 0 {
        None
    } else if attrs[0].0 == name {
        Some(attrs[0].1)
    } else {
        node_attr_lookup(attrs.drop_first(), name)
    }
}

/// The value of the attribute `name` of `n`.
pub open spec fn node_attr(n: XmlNode, name: Seq<char>) -> Option<Seq<char>> {
    node_attr_lookup(n.attributes, name)
}

/// Looking an attribute up among the attributes or among their values
/// gives the same.
pub proof fn lemma_attr_lookup_view(attrs: Seq<(String, String)>, name: Seq<char>)
    ensures
        attr_lookup(attrs, name) == node_attr_lookup(attrs_view(attrs), name),
    decreases attrs.len(),
{
    if attrs.len() > 0 {
        assert(attrs_view(attrs.drop_first()) =~= attrs_view(attrs).drop_first());
        lemma_attr_lookup_view(attrs.drop_first(), name);
    }
}

/// A node of a parsed XML document, as it comes out of the parser: whether
/// it is an element, the local name of its tag (empty for other nodes), its
/// attributes in document order, and all its child nodes in document order.
#[derive(Debug)]
pub struct XmlTree {
    pub element: bool,
    pub tag: String,
    pub attributes: Vec<(String, String)>,
    pub children: Vec<XmlTree>,
}

/// A node of a parsed XML document as values.
pub struct XmlTreeNode {
    pub element: bool,
    pub tag: Seq<char>,
    pub attributes: Seq<(Seq<char>, Seq<char>)>,
    pub children: Seq<XmlTreeNode>,
}

/// The node `t` as values.
pub open spec fn tree_view(t: XmlTree) -> XmlTreeNode
    decreases t,
{
    proof {
        assert forall|j: int| 0 <= j < t.children@.len() implies decreases_to!(t => t.children@[j]) by {
            assert(decreases_to!(t => t.children));
            assert(decreases_to!(t.children => t.children@));
            assert(decreases_to!(t.children@ => t.children@[j]));
        }
    }
    XmlTreeNode {
        element: t.element,
        tag: t.tag@,
        attributes: attrs_view(t.attributes@),
        children: Seq::new(
            t.children@.len(),
            |j: int|
                if 0 <= j < t.children@.len() {
                    tree_view(t.children@[j])
                } else {
                    XmlTreeNode { element: false, tag: Seq::empty(), attributes: Seq::empty(), children: Seq::empty() }
                },
        ),
    }
}

impl View for XmlTree {
    type V = XmlTreeNode;

    open spec fn view(&self) -> XmlTreeNode {
        tree_view(*self)
    }
}

/// The tree of nodes of the XML document `text`, where the text is a
/// well-formed document.
pub uninterp spec fn xml_tree(text: Seq<char>) -> Option<XmlTreeNode>;

/// The element `t` with only its element children, each so reduced.
pub open spec fn element_node(t: XmlTreeNode) -> XmlNode
    decreases t, 1nat,
{
    XmlNode { tag: t.tag, attributes: t.attributes, children: element_children(t.children) }
}

/// The elements among the nodes `cs`, in order, each with only its element
/// children.
pub open spec fn element_children(cs: Seq<XmlTreeNode>) -> Seq<XmlNode>
    decreases cs, 0nat,
{
    if cs.len() == 0 {
        Seq::empty()
    } else {
        proof {
            assert(decreases_to!(cs => cs[cs.len() - 1]));
            assert(decreases_to!(cs => cs.subrange(0, cs.len() - 1)));
        }
        let rest = element_children(cs.subrange(0, cs.len() - 1));
        if cs[cs.len() - 1].element {
            rest.push(element_node(cs[cs.len() - 1]))
        } else {
            rest
        }
    }
}

/// The root element of the XML document `text`, with text, comments and
/// other nodes that are not elements left out, where the text is a
/// well-formed document.
pub open spec fn xml_document(text: Seq<char>) -> Option<XmlNode> {
    match xml_tree(text) {
        Some(t) => Some(element_node(t)),
        None => None,
    }
}

/// Converts the node `node` of a parsed document, and the nodes under it,
/// one for one: whether it is an element, the local name of its tag, its
/// attributes in document order and its child nodes in document order.
#[verifier::external_body]
fn tree_of<'a, 'input>(node: roxmltree::Node<'a, 'input>) -> XmlTree {
    XmlTree {
        element: node.is_element(),
        tag: node.tag_name().name().to_owned(),
        attributes: node.attributes().map(|a| (a.name().to_owned(), a.value().to_owned())).collect(),
        children: node.children().map(tree_of).collect(),
    }
}

/// The element `t` with only its element children, each so reduced (see
/// `element_node`).
pub fn element_of_tree(t: &XmlTree) -> (r: XmlElement)
    ensures
        r@ == element_node(t@),
    decreases t,
{
    let mut children: Vec<XmlElement> = Vec::new();
    let ghost cs = t@.children;
    proof {
        assert(cs.len() == t.children@.len());
        assert forall|j: int| 0 <= j < t.children@.len() implies #[trigger] cs[j] == t.children@[j]@ by {}
    }
    let n = t.children.len();
    let mut i: usize = 0;
    while i < n
        invariant
            i <= n == t.children@.len() == cs.len(),
            cs == t@.children,
            forall|j: int| 0 <= j < t.children@.len() ==> #[trigger] cs[j] == t.children@[j]@,
            children@.len() == element_children(cs.subrange(0, i as int)).len(),
            forall|j: int|
                0 <= j < children@.len() ==> (#[trigger] children@[j])@ == element_children(cs.subrange(0, i as int))[j],
        decreases n - i,
    {
        assert(cs.subrange(0, i + 1).subrange(0, i as int) =~= cs.subrange(0, i as int));
        assert(cs.subrange(0, i + 1)[i as int] == cs[i as int]);
        let c = &t.children[i];
        assert(decreases_to!(t => t.children));
        assert(decreases_to!(t.children => t.children@));
        assert(decreases_to!(t.children@ => t.children@[i as int]));
        if c.element {
            let e = element_of_tree(c);
            children.push(e);
        }
        i = i + 1;
    }
    assert(cs.subrange(0, n as int) =~= cs);
    let r = XmlElement { tag: t.tag.clone(), attributes: copy_attributes(&t.attributes), children };
    proof {
        lemma_xml_view(&r);
        assert(r@.children =~= element_children(cs));
        assert(r@.attributes =~= t@.attributes);
    }
    r
}

/// A copy of the attributes `a`.
fn copy_attributes(a: &Vec<(String, String)>) -> (r: Vec<(String, String)>)
    ensures
        attrs_view(r@) == attrs_view(a@),
{
    let mut r: Vec<(String, String)> = Vec::new();
    let mut i: usize = 0;
    while i < a.len()
        invariant
            i <= a@.len(),
            r@.len() == i,
            forall|j: int| 0 <= j < i ==> (#[trigger] r@[j]).0@ == a@[j].0@ && r@[j].1@ == a@[j].1@,
        decreases a@.len() - i,
    {
        let (k, v) = &a[i];
        r.push((k.as_str().to_owned(), v.as_str().to_owned()));
        i = i + 1;
    }
    assert(attrs_view(r@) =~= attrs_view(a@));
    r
}

/// Parses `text` with `roxmltree::Document::parse` and converts its root
/// element, with every node under it.  The contract names the tree that
/// comes out `xml_tree`, a function of the text alone, and claims an error
/// exactly where that name gives no tree; which error comes out is not
/// stated.
#[verifier::external_body]
fn parse_xml(text: &str) -> (r: Result<XmlTree, roxmltree::Error>)
    ensures
        match xml_tree(text@) {
            Some(n) => r is Ok && r->Ok_0@ == n,
            None => r is Err,
        },
{
    let document = roxmltree::Document::parse(text)?;
    Ok(tree_of(document.root_element()))
}

/// The root element of the XML document `text`; `Xml` where the text is
/// not a well-formed document.
pub fn parse_document(text: &str) -> (r: Result<XmlElement, DeserialiseError>)
    ensures
        match xml_document(text@) {
            Some(n) => r is Ok && r->Ok_0@ == n,
            None => r is Err && r->Err_0 is Xml,
        },
{
    match parse_xml(text) {
        Ok(t) => Ok(element_of_tree(&t)),
        Err(e) => Err(DeserialiseError::Xml(e)),
    }
}

/// The value of the first attribute named `name`.
pub open spec fn attr_lookup(attrs: Seq<(String, String)>, name: Seq<char>) -> Option<Seq<char>>
    decreases attrs.len(),
{
    if attrs.len() == 0 {
        None
    } else if attrs[0].0@ == name {
        Some(attrs[0].1@)
    } else {
        attr_lookup(attrs.drop_first(), name)
    }
}

/// The value of the digit `c` in base `radix` (at most 36), if it is one.
pub open spec fn digit_value(c: char, radix: int) -> Option<int> {
    let v = c as int;
    let d = if 48 <= v <= 57 {
        v - 48
    } else if 97 <= v <= 122 {
        v - 87
    } else if 65 <= v <= 90 {
        v - 55
    } else {
        radix
    };
    if d < radix {
        Some(d)
    } else {
        None
    }
}

/// Reads the digits `ds` from left to right onto `acc`, adding each digit
/// when `positive` and subtracting it otherwise; the first character that
/// is no digit, or the first step that leaves `min..=max`, decides the error.
pub open spec fn fold_digits(
    ds: Seq<char>,
    radix: int,
    positive: bool,
    min: int,
    max: int,
    acc: int,
) -> Result<int, IntErrorKind>
    decreases ds.len(),
{
    if ds.len() == 0 {
        Ok(acc)
    } else {
        match digit_value(ds[0], radix) {
            None => Err(IntErrorKind::InvalidDigit),
            Some(d) => {
                let n = if positive {
                    acc * radix + d
                } else {
                    acc * radix - d
                };
                if positive && n > max {
                    Err(IntErrorKind::PosOverflow)
                } else if !positive && n < min {
                    Err(IntErrorKind::NegOverflow)
                } else {
                    fold_digits(ds.drop_first(), radix, positive, min, max, n)
                }
            },
        }
    }
}

/// The number that `s` writes in base `radix`, within `min..=max`: an
/// optional `+` (or `-` where `signed`) and then at least one digit.
pub open spec fn int_from_str_radix(
    s: Seq<char>,
    radix: int,
    signed: bool,
    min: int,
    max: int,
) -> Result<int, IntErrorKind> {
    if s.len() == 0 {
        Err(IntErrorKind::Empty)
    } else if (s[0] == '+' || s[0] == '-') && s.len() == 1 {
        Err(IntErrorKind::InvalidDigit)
    } else if s[0] == '+' {
        fold_digits(s.drop_first(), radix, true, min, max, 0)
    } else if s[0] == '-' && signed {
        fold_digits(s.drop_first(), radix, false, min, max, 0)
    } else {
        fold_digits(s, radix, true, min, max, 0)
    }
}

/// A number as the description writes it: hexadecimal after `0x` or `0X`
/// (when something follows), decimal otherwise.
pub open spec fn int_literal(s: Seq<char>, signed: bool, min: int, max: int) -> Result<int, IntErrorKind> {
    if s.len() > 2 && s[0] == '0' && (s[1] == 'x' || s[1] == 'X') {
        int_from_str_radix(s.subrange(2, s.len() as int), 16, signed, min, max)
    } else {
        int_from_str_radix(s, 10, signed, min, max)
    }
}

/// The exec form of `digit_value`.
fn digit_of(c: char, radix: u32) -> (r: Option<u32>)
    requires
        2 <= radix <= 36,
    ensures
        match digit_value(c, radix as int) {
            Some(d) => r == Some(d as u32),
            None => r is None,
        },
{
    let v = c as u32;
    let d: u32 = if 48 <= v && v <= 57 {
        v - 48
    } else if 97 <= v && v <= 122 {
        v - 87
    } else if 65 <= v && v <= 90 {
        v - 55
    } else {
        radix
    };
    if d < radix {
        Some(d)
    } else {
        None
    }
}

/// Reads the number written by `s[start..]` in base `radix`, within
/// `min..=max`.
fn parse_int_chars(
    s: &[char],
    start: usize,
    end: usize,
    radix: u32,
    signed: bool,
    min: i128,
    max: i128,
) -> (r: Result<i128, IntErrorKind>)
    requires
        start <= end <= s@.len(),
        2 <= radix <= 36,
        -0x1_0000_0000_0000_0000 <= min <= 0 <= max <= 0x1_0000_0000_0000_0000,
    ensures
        ({
            let expected = int_from_str_radix(
                s@.subrange(start as int, end as int),
                radix as int,
                signed,
                min as int,
                max as int,
            );
            match r {
                Ok(v) => expected == Ok::<int, IntErrorKind>(v as int),
                Err(k) => expected == Err::<int, IntErrorKind>(k),
            }
        }),
        r is Ok ==> min <= r->Ok_0 <= max,
{
    let n = end;
    let ghost whole = s@.subrange(start as int, n as int);
    if start >= n {
        return Err(IntErrorKind::Empty);
    }
    let c0 = s[start];
    if (c0 == '+' || c0 == '-') && start + 1 == n {
        return Err(IntErrorKind::InvalidDigit);
    }
    let mut positive = true;
    let mut i = start;
    if c0 == '+' {
        i = start + 1;
    } else if c0 == '-' && signed {
        positive = false;
        i = start + 1;
    }
    proof {
        assert(whole[0] == c0);
        if i == start + 1 {
            assert(whole.drop_first() =~= s@.subrange(i as int, n as int));
        } else {
            assert(whole =~= s@.subrange(i as int, n as int));
        }
    }
    let ghost digits = s@.subrange(i as int, n as int);
    let mut acc: i128 = 0;
    while i < n
        invariant
            start <= i <= n,
            n == end,
            n <= s@.len(),
            2 <= radix <= 36,
            -0x1_0000_0000_0000_0000 <= min <= 0 <= max <= 0x1_0000_0000_0000_0000,
            min <= acc <= max,
            positive ==> acc >= 0,
            !positive ==> acc <= 0,
            fold_digits(s@.subrange(i as int, n as int), radix as int, positive, min as int, max as int, acc as int)
                == fold_digits(digits, radix as int, positive, min as int, max as int, 0),
            whole == s@.subrange(start as int, n as int),
            int_from_str_radix(whole, radix as int, signed, min as int, max as int)
                == fold_digits(digits, radix as int, positive, min as int, max as int, 0),
        decreases n - i,
    {
        let ghost rest = s@.subrange(i as int, n as int);
        proof {
            assert(rest[0] == s@[i as int]);
            assert(rest.drop_first() =~= s@.subrange(i + 1, n as int));
        }
        match digit_of(s[i], radix) {
            None => {
                return Err(IntErrorKind::InvalidDigit);
            },
            Some(d) => {
                let r128 = radix as i128;
                assert(-0x100_0000_0000_0000_0000 <= acc * r128 <= 0x100_0000_0000_0000_0000) by (nonlinear_arith)
                    requires
                        -0x1_0000_0000_0000_0000 <= acc <= 0x1_0000_0000_0000_0000,
                        2 <= r128 <= 36,
                ;
                let m = acc * r128;
                let next = if positive {
                    m + d as i128
                } else {
                    m - d as i128
                };
                if positive && next > max {
                    return Err(IntErrorKind::PosOverflow);
                }
                if !positive && next < min {
                    return Err(IntErrorKind::NegOverflow);
                }
                assert(positive ==> next >= 0) by (nonlinear_arith)
                    requires
                        positive ==> acc >= 0,
                        m == acc * r128,
                        r128 >= 2,
                        positive ==> next == m + d,
                        d >= 0,
                ;
                assert(!positive ==> next <= 0) by (nonlinear_arith)
                    requires
                        !positive ==> acc <= 0,
                        m == acc * r128,
                        r128 >= 2,
                        !positive ==> next == m - d,
                        d >= 0,
                ;
                acc = next;
            },
        }
        i = i + 1;
    }
    proof {
        assert(s@.subrange(i as int, n as int).len() == 0);
    }
    Ok(acc)
}

/// Whether `r` is what reading a number gives when the text says `expected`.
pub open spec fn parsed_as<T: FromStrRadix>(
    r: Result<T, DeserialiseError>,
    expected: Result<int, IntErrorKind>,
) -> bool {
    match expected {
        Ok(v) => r is Ok && r->Ok_0.spec_value() == v,
        Err(k) => r is Err && r->Err_0 == DeserialiseError::ParseInteger(k),
    }
}

/// An integer type that a number in the description can be read into.
pub trait FromStrRadix: Sized {
    /// Whether the type holds negative values.
    spec fn spec_signed() -> bool;

    /// The smallest value of the type.
    spec fn spec_min() -> int;

    /// The largest value of the type.
    spec fn spec_max() -> int;

    /// The value as an integer.
    spec fn spec_value(self) -> int;

    /// Reads the number written by `s[start..end]` in base `radix`.
    fn from_chars_radix(s: &[char], start: usize, end: usize, radix: u32) -> (r: Result<
        Self,
        DeserialiseError,
    >)
        requires
            start <= end <= s@.len(),
            2 <= radix <= 36,
        ensures
            match int_from_str_radix(
                s@.subrange(start as int, end as int),
                radix as int,
                Self::spec_signed(),
                Self::spec_min(),
                Self::spec_max(),
            ) {
                Ok(v) => r is Ok && r->Ok_0.spec_value() == v,
                Err(k) => r is Err && r->Err_0 == DeserialiseError::ParseInteger(k),
            },
    ;

    /// The value zero.
    fn zero() -> (r: Self)
        ensures
            r.spec_value() == 0,
    ;

    /// Reads the number written by `s` in base `radix`.
    fn from_str_base(s: &str, radix: u32) -> (r: Result<Self, DeserialiseError>)
        requires
            2 <= radix <= 36,
        ensures
            match int_from_str_radix(s@, radix as int, Self::spec_signed(), Self::spec_min(), Self::spec_max()) {
                Ok(v) => r is Ok && r->Ok_0.spec_value() == v,
                Err(k) => r is Err && r->Err_0 == DeserialiseError::ParseInteger(k),
            },
    {
        let cs = chars_of(s);
        assert(cs@.subrange(0, cs@.len() as int) =~= s@);
        Self::from_chars_radix(cs.as_slice(), 0, cs.len(), radix)
    }
}

impl FromStrRadix for i8 {
    open spec fn spec_signed() -> bool {
        true
    }

    open spec fn spec_min() -> int {
        i8::MIN as int
    }

    open spec fn spec_max() -> int {
        i8::MAX as int
    }

    open spec fn spec_value(self) -> int {
        self as int
    }

    fn from_chars_radix(s: &[char], start: usize, end: usize, radix: u32) -> (r: Result<
        Self,
        DeserialiseError,
    >) {
        match parse_int_chars(s, start, end, radix, true, i8::MIN as i128, i8::MAX as i128) {
            Ok(v) => Ok(v as i8),
            Err(k) => Err(DeserialiseError::ParseInteger(k)),
        }
    }

    fn zero() -> (r: Self) {
        0
    }
}

impl FromStrRadix for i16 {
    open spec fn spec_signed() -> bool {
        true
    }

    open spec fn spec_min() -> int {
        i16::MIN as int
    }

    open spec fn spec_max() -> int {
        i16::MAX as int
    }

    open spec fn spec_value(self) -> int {
        self as int
    }

    fn from_chars_radix(s: &[char], start: usize, end: usize, radix: u32) -> (r: Result<
        Self,
        DeserialiseError,
    >) {
        match parse_int_chars(s, start, end, radix, true, i16::MIN as i128, i16::MAX as i128) {
            Ok(v) => Ok(v as i16),
            Err(k) => Err(DeserialiseError::ParseInteger(k)),
        }
    }

    fn zero() -> (r: Self) {
        0
    }
}

impl FromStrRadix for i32 {
    open spec fn spec_signed() -> bool {
        true
    }

    open spec fn spec_min() -> int {
        i32::MIN as int
    }

    open spec fn spec_max() -> int {
        i32::MAX as int
    }

    open spec fn spec_value(self) -> int {
        self as int
    }

    fn from_chars_radix(s: &[char], start: usize, end: usize, radix: u32) -> (r: Result<
        Self,
        DeserialiseError,
    >) {
        match parse_int_chars(s, start, end, radix, true, i32::MIN as i128, i32::MAX as i128) {
            Ok(v) => Ok(v as i32),
            Err(k) => Err(DeserialiseError::ParseInteger(k)),
        }
    }

    fn zero() -> (r: Self) {
        0
    }
}

impl FromStrRadix for i64 {
    open spec fn spec_signed() -> bool {
        true
    }

    open spec fn spec_min() -> int {
        i64::MIN as int
    }

    open spec fn spec_max() -> int {
        i64::MAX as int
    }

    open spec fn spec_value(self) -> int {
        self as int
    }

    fn from_chars_radix(s: &[char], start: usize, end: usize, radix: u32) -> (r: Result<
        Self,
        DeserialiseError,
    >) {
        match parse_int_chars(s, start, end, radix, true, i64::MIN as i128, i64::MAX as i128) {
            Ok(v) => Ok(v as i64),
            Err(k) => Err(DeserialiseError::ParseInteger(k)),
        }
    }

    fn zero() -> (r: Self) {
        0
    }
}

impl FromStrRadix for isize {
    open spec fn spec_signed() -> bool {
        true
    }

    open spec fn spec_min() -> int {
        isize::MIN as int
    }

    open spec fn spec_max() -> int {
        isize::MAX as int
    }

    open spec fn spec_value(self) -> int {
        self as int
    }

    fn from_chars_radix(s: &[char], start: usize, end: usize, radix: u32) -> (r: Result<
        Self,
        DeserialiseError,
    >) {
        match parse_int_chars(s, start, end, radix, true, isize::MIN as i128, isize::MAX as i128) {
            Ok(v) => Ok(v as isize),
            Err(k) => Err(DeserialiseError::ParseInteger(k)),
        }
    }

    fn zero() -> (r: Self) {
        0
    }
}

impl FromStrRadix for u8 {
    open spec fn spec_signed() -> bool {
        false
    }

    open spec fn spec_min() -> int {
        0
    }

    open spec fn spec_max() -> int {
        u8::MAX as int
    }

    open spec fn spec_value(self) -> int {
        self as int
    }

    fn from_chars_radix(s: &[char], start: usize, end: usize, radix: u32) -> (r: Result<
        Self,
        DeserialiseError,
    >) {
        match parse_int_chars(s, start, end, radix, false, 0, u8::MAX as i128) {
            Ok(v) => Ok(v as u8),
            Err(k) => Err(DeserialiseError::ParseInteger(k)),
        }
    }

    fn zero() -> (r: Self) {
        0
    }
}

impl FromStrRadix for u16 {
    open spec fn spec_signed() -> bool {
        false
    }

    open spec fn spec_min() -> int {
        0
    }

    open spec fn spec_max() -> int {
        u16::MAX as int
    }

    open spec fn spec_value(self) -> int {
        self as int
    }

    fn from_chars_radix(s: &[char], start: usize, end: usize, radix: u32) -> (r: Result<
        Self,
        DeserialiseError,
    >) {
        match parse_int_chars(s, start, end, radix, false, 0, u16::MAX as i128) {
            Ok(v) => Ok(v as u16),
            Err(k) => Err(DeserialiseError::ParseInteger(k)),
        }
    }

    fn zero() -> (r: Self) {
        0
    }
}

impl FromStrRadix for u32 {
    open spec fn spec_signed() -> bool {
        false
    }

    open spec fn spec_min() -> int {
        0
    }

    open spec fn spec_max() -> int {
        u32::MAX as int
    }

    open spec fn spec_value(self) -> int {
        self as int
    }

    fn from_chars_radix(s: &[char], start: usize, end: usize, radix: u32) -> (r: Result<
        Self,
        DeserialiseError,
    >) {
        match parse_int_chars(s, start, end, radix, false, 0, u32::MAX as i128) {
            Ok(v) => Ok(v as u32),
            Err(k) => Err(DeserialiseError::ParseInteger(k)),
        }
    }

    fn zero() -> (r: Self) {
        0
    }
}

impl FromStrRadix for u64 {
    open spec fn spec_signed() -> bool {
        false
    }

    open spec fn spec_min() -> int {
        0
    }

    open spec fn spec_max() -> int {
        u64::MAX as int
    }

    open spec fn spec_value(self) -> int {
        self as int
    }

    fn from_chars_radix(s: &[char], start: usize, end: usize, radix: u32) -> (r: Result<
        Self,
        DeserialiseError,
    >) {
        match parse_int_chars(s, start, end, radix, false, 0, u64::MAX as i128) {
            Ok(v) => Ok(v as u64),
            Err(k) => Err(DeserialiseError::ParseInteger(k)),
        }
    }

    fn zero() -> (r: Self) {
        0
    }
}

impl FromStrRadix for usize {
    open spec fn spec_signed() -> bool {
        false
    }

    open spec fn spec_min() -> int {
        0
    }

    open spec fn spec_max() -> int {
        usize::MAX as int
    }

    open spec fn spec_value(self) -> int {
        self as int
    }

    fn from_chars_radix(s: &[char], start: usize, end: usize, radix: u32) -> (r: Result<
        Self,
        DeserialiseError,
    >) {
        match parse_int_chars(s, start, end, radix, false, 0, usize::MAX as i128) {
            Ok(v) => Ok(v as usize),
            Err(k) => Err(DeserialiseError::ParseInteger(k)),
        }
    }

    fn zero() -> (r: Self) {
        0
    }
}

/// Reads the number that `cs[start..end]` writes (see `int_literal`).
fn literal_chars<T: FromStrRadix>(cs: &[char], start: usize, end: usize) -> (r: Result<
    T,
    DeserialiseError,
>)
    requires
        start <= end <= cs@.len(),
    ensures
        parsed_as(r, int_literal(cs@.subrange(start as int, end as int), T::spec_signed(), T::spec_min(), T::spec_max())),
{
    let ghost t = cs@.subrange(start as int, end as int);
    if end - start > 2 && cs[start] == '0' && (cs[start + 1] == 'x' || cs[start + 1] == 'X') {
        proof {
            assert(t.subrange(2, t.len() as int) =~= cs@.subrange(start + 2, end as int));
        }
        T::from_chars_radix(cs, start + 2, end, 16)
    } else {
        T::from_chars_radix(cs, start, end, 10)
    }
}

/// Reads a number as the description writes it (see `int_literal`).
pub fn parse_int_radix<T: FromStrRadix>(s: &str) -> (r: Result<T, DeserialiseError>)
    ensures
        parsed_as(r, int_literal(s@, T::spec_signed(), T::spec_min(), T::spec_max())),
{
    let cs = chars_of(s);
    proof {
        assert(cs@.subrange(0, cs@.len() as int) =~= s@);
    }
    literal_chars(cs.as_slice(), 0, cs.len())
}

/// The index of the first `:` in `v`, or -1.
pub open spec fn colon_index(v: Seq<char>) -> int
    decreases v.len(),
{
    if v.len() == 0 {
        -1
    } else if v[0] == ':' {
        0
    } else {
        let k = colon_index(v.drop_first());
        if k < 0 {
            -1
        } else {
            k + 1
        }
    }
}

pub proof fn lemma_colon_index(v: Seq<char>, p: int)
    requires
        0 <= p <= v.len(),
        forall|q: int| 0 <= q < p ==> v[q] != ':',
        p == v.len() || v[p] == ':',
    ensures
        colon_index(v) == if p == v.len() {
            -1
        } else {
            p
        },
    decreases p,
{
    if p > 0 {
        let d = v.drop_first();
        assert forall|q: int| 0 <= q < p - 1 implies d[q] != ':' by {
            assert(d[q] == v[q + 1]);
        }
        if p < v.len() {
            assert(d[p - 1] == v[p]);
        }
        lemma_colon_index(d, p - 1);
    }
}

/// The position `index:line` that `v` writes, or `(0, line)` where it holds
/// no `:`.
pub open spec fn line_number_of(v: Seq<char>, signed: bool, min: int, max: int) -> Result<
    (int, int),
    IntErrorKind,
> {
    let p = colon_index(v);
    if p >= 0 {
        match int_literal(v.subrange(0, p), signed, min, max) {
            Err(k) => Err(k),
            Ok(a) => match int_literal(v.subrange(p + 1, v.len() as int), signed, min, max) {
                Err(k) => Err(k),
                Ok(b) => Ok((a, b)),
            },
        }
    } else {
        match int_literal(v, signed, min, max) {
            Err(k) => Err(k),
            Ok(b) => Ok((0, b)),
        }
    }
}

/// The value of `parse::<bool>` on `s`, if it succeeds.
pub open spec fn bool_literal(s: Seq<char>) -> Option<bool> {
    if s == "true"@ {
        Some(true)
    } else if s == "false"@ {
        Some(false)
    } else {
        None
    }
}

/// The byte order that `s` names, if it names one.
pub open spec fn endian_literal(s: Seq<char>) -> Option<Endian> {
    if s == "big"@ || s == "BIG"@ || s == "be"@ || s == "BE"@ {
        Some(Endian::Big)
    } else if s == "little"@ || s == "LITTLE"@ || s == "le"@ || s == "LE"@ {
        Some(Endian::Little)
    } else {
        None
    }
}

/// What reading the attribute `name` of `input` as a `usize` gives.
pub open spec fn usize_attr(input: &XmlElement, name: &'static str) -> Result<usize, DeserialiseError> {
    match input.spec_attr(name@) {
        None => Err(DeserialiseError::AttributeExpected(name)),
        Some(v) => match int_literal(v, false, 0, usize::MAX as int) {
            Ok(x) => Ok(x as usize),
            Err(k) => Err(DeserialiseError::ParseInteger(k)),
        },
    }
}

/// What reading the attribute `name` of `input` as a `usize`, with
/// `default` where it is missing, gives.
pub open spec fn usize_attr_opt(input: &XmlElement, name: &'static str, default: usize) -> Result<
    usize,
    DeserialiseError,
> {
    match input.spec_attr(name@) {
        None => Ok(default),
        Some(v) => match int_literal(v, false, 0, usize::MAX as int) {
            Ok(x) => Ok(x as usize),
            Err(k) => Err(DeserialiseError::ParseInteger(k)),
        },
    }
}

/// What reading the attribute `name` of `input` as `true` or `false` gives.
pub open spec fn bool_attr(input: &XmlElement, name: &'static str) -> Result<bool, DeserialiseError> {
    match input.spec_attr(name@) {
        None => Err(DeserialiseError::AttributeExpected(name)),
        Some(v) => match bool_literal(v) {
            Some(b) => Ok(b),
            None => Err(DeserialiseError::ParseBool),
        },
    }
}

/// What reading the attribute `name` of `input` as a number of type `T`
/// gives, as an integer.
pub open spec fn num_attr<T: FromStrRadix>(input: &XmlElement, name: &'static str) -> Result<
    int,
    DeserialiseError,
> {
    match input.spec_attr(name@) {
        None => Err(DeserialiseError::AttributeExpected(name)),
        Some(v) => match int_literal(v, T::spec_signed(), T::spec_min(), T::spec_max()) {
            Ok(x) => Ok(x),
            Err(k) => Err(DeserialiseError::ParseInteger(k)),
        },
    }
}

/// As `num_attr`, reading `name2` where `name1` is missing.
pub open spec fn num_attr_or<T: FromStrRadix>(
    input: &XmlElement,
    name1: &'static str,
    name2: &'static str,
) -> Result<int, DeserialiseError> {
    match input.spec_attr(name1@) {
        Some(_) => num_attr::<T>(input, name1),
        None => match input.spec_attr(name2@) {
            Some(_) => num_attr::<T>(input, name2),
            None => Err(DeserialiseError::AttributeExpected(name1)),
        },
    }
}

/// Whether two errors are the same, an unexpected tag being told by its text.
pub open spec fn same_error(a: DeserialiseError, b: DeserialiseError) -> bool {
    match (a, b) {
        (DeserialiseError::TagUnexpected(x), DeserialiseError::TagUnexpected(y)) => x@ == y@,
        _ => a == b,
    }
}

/// Whether two outcomes of reading are the same: equal values, or the same
/// error.
pub open spec fn same_result<T>(a: Result<T, DeserialiseError>, b: Result<T, DeserialiseError>) -> bool {
    match (a, b) {
        (Ok(x), Ok(y)) => x == y,
        (Err(x), Err(y)) => same_error(x, y),
        _ => false,
    }
}

/// As `num_attr`, with `default` where the attribute is missing.
pub open spec fn num_attr_opt<T: FromStrRadix>(
    input: &XmlElement,
    name: &'static str,
    default: int,
) -> Result<int, DeserialiseError> {
    match input.spec_attr(name@) {
        None => Ok(default),
        Some(v) => match int_literal(v, T::spec_signed(), T::spec_min(), T::spec_max()) {
            Ok(x) => Ok(x),
            Err(k) => Err(DeserialiseError::ParseInteger(k)),
        },
    }
}

impl XmlElement {
    /// The value of the attribute `name`, looked up in `self`.
    pub open spec fn spec_attr(&self, name: Seq<char>) -> Option<Seq<char>> {
        attr_lookup(self.attributes@, name)
    }

    /// The tag of the element.
    pub fn tag_name(&self) -> (r: &str)
        ensures
            r@ == self.tag@,
    {
        self.tag.as_str()
    }

    /// The value of the first attribute named `name`.
    pub fn attribute(&self, name: &str) -> (r: Option<&str>)
        ensures
            match r {
                Some(v) => self.spec_attr(name@) == Some(v@),
                None => self.spec_attr(name@) is None,
            },
    {
        let attrs = &self.attributes;
        let n = attrs.len();
        let mut i: usize = 0;
        proof {
            assert(attrs@.subrange(0, n as int) =~= attrs@);
        }
        while i < n
            invariant
                i <= n,
                n == attrs@.len(),
                attrs@ == self.attributes@,
                attr_lookup(attrs@, name@) == attr_lookup(attrs@.subrange(i as int, n as int), name@),
            decreases n - i,
        {
            let ghost rest = attrs@.subrange(i as int, n as int);
            proof {
                assert(rest[0] == attrs@[i as int]);
                assert(rest.drop_first() =~= attrs@.subrange(i + 1, n as int));
            }
            if str_eq(attrs[i].0.as_str(), name) {
                let v = attrs[i].1.as_str();
                assert(attr_lookup(rest, name@) == Some(v@));
                return Some(v);
            }
            i = i + 1;
        }
        None
    }

    /// The attribute `name` as a string.
    pub fn attribute_string(&self, name: &'static str) -> (r: Result<String, DeserialiseError>)
        ensures
            match self.spec_attr(name@) {
                Some(v) => r is Ok && r->Ok_0@ == v,
                None => r == Err::<String, DeserialiseError>(DeserialiseError::AttributeExpected(name)),
            },
    {
        match self.attribute(name) {
            Some(v) => Ok(v.to_owned()),
            None => Err(DeserialiseError::AttributeExpected(name)),
        }
    }

    /// The attribute `name1`, or where it is missing `name2`, as a string.
    pub fn attribute_string_or(&self, name1: &'static str, name2: &'static str) -> (r: Result<
        String,
        DeserialiseError,
    >)
        ensures
            match (self.spec_attr(name1@), self.spec_attr(name2@)) {
                (Some(v), _) => r is Ok && r->Ok_0@ == v,
                (None, Some(v)) => r is Ok && r->Ok_0@ == v,
                (None, None) => r == Err::<String, DeserialiseError>(
                    DeserialiseError::AttributeExpected(name1),
                ),
            },
    {
        match self.attribute(name1) {
            Some(v) => Ok(v.to_owned()),
            None => match self.attribute(name2) {
                Some(v) => Ok(v.to_owned()),
                None => Err(DeserialiseError::AttributeExpected(name1)),
            },
        }
    }

    /// The attribute `name` as a string, or `default` where it is missing.
    pub fn attribute_string_opt(&self, name: &'static str, default: &str) -> (r: String)
        ensures
            r@ == match self.spec_attr(name@) {
                Some(v) => v,
                None => default@,
            },
    {
        match self.attribute(name) {
            Some(v) => v.to_owned(),
            None => default.to_owned(),
        }
    }

    /// The attribute `name` as the processor's name.
    pub fn attribute_processor(&self, name: &'static str) -> (r: Result<String, DeserialiseError>)
        ensures
            match self.spec_attr(name@) {
                Some(v) => r is Ok && r->Ok_0@ == v,
                None => r == Err::<String, DeserialiseError>(DeserialiseError::AttributeExpected(name)),
            },
    {
        self.attribute_string(name)
    }

    /// The attribute `name` as the processor variant's name.
    pub fn attribute_variant(&self, name: &'static str) -> (r: Result<String, DeserialiseError>)
        ensures
            match self.spec_attr(name@) {
                Some(v) => r is Ok && r->Ok_0@ == v,
                None => r == Err::<String, DeserialiseError>(DeserialiseError::AttributeExpected(name)),
            },
    {
        self.attribute_string(name)
    }

    /// The attribute `name` as a number.
    pub fn attribute_int<T: FromStrRadix>(&self, name: &'static str) -> (r: Result<T, DeserialiseError>)
        ensures
            match self.spec_attr(name@) {
                Some(v) => parsed_as(r, int_literal(v, T::spec_signed(), T::spec_min(), T::spec_max())),
                None => r is Err && r->Err_0 == DeserialiseError::AttributeExpected(name),
            },
    {
        match self.attribute(name) {
            Some(v) => parse_int_radix(v),
            None => Err(DeserialiseError::AttributeExpected(name)),
        }
    }

    /// The attribute `name1`, or where it is missing `name2`, as a number.
    pub fn attribute_int_or<T: FromStrRadix>(&self, name1: &'static str, name2: &'static str) -> (r:
        Result<T, DeserialiseError>)
        ensures
            match (self.spec_attr(name1@), self.spec_attr(name2@)) {
                (Some(v), _) => parsed_as(r, int_literal(v, T::spec_signed(), T::spec_min(), T::spec_max())),
                (None, Some(v)) => parsed_as(
                    r,
                    int_literal(v, T::spec_signed(), T::spec_min(), T::spec_max()),
                ),
                (None, None) => r is Err && r->Err_0 == DeserialiseError::AttributeExpected(name1),
            },
    {
        match self.attribute(name1) {
            Some(v) => parse_int_radix(v),
            None => match self.attribute(name2) {
                Some(v) => parse_int_radix(v),
                None => Err(DeserialiseError::AttributeExpected(name1)),
            },
        }
    }

    /// The attribute `name` as a number, or `default` where it is missing.
    pub fn attribute_int_opt<T: FromStrRadix>(&self, name: &'static str, default: T) -> (r: Result<
        T,
        DeserialiseError,
    >)
        ensures
            match self.spec_attr(name@) {
                Some(v) => parsed_as(r, int_literal(v, T::spec_signed(), T::spec_min(), T::spec_max())),
                None => r == Ok::<T, DeserialiseError>(default),
            },
    {
        match self.attribute(name) {
            Some(v) => parse_int_radix(v),
            None => Ok(default),
        }
    }

    /// The attribute `name` as a position `index:line`, or `line` alone for
    /// index zero.
    pub fn attribute_line_number<T: FromStrRadix>(&self, name: &'static str) -> (r: Result<
        (T, T),
        DeserialiseError,
    >)
        ensures
            match self.spec_attr(name@) {
                None => r is Err && r->Err_0 == DeserialiseError::AttributeExpected(name),
                Some(v) => match line_number_of(v, T::spec_signed(), T::spec_min(), T::spec_max()) {
                    Ok((a, b)) => r is Ok && r->Ok_0.0.spec_value() == a && r->Ok_0.1.spec_value() == b,
                    Err(k) => r is Err && r->Err_0 == DeserialiseError::ParseInteger(k),
                },
            },
    {
        let s = match self.attribute(name) {
            Some(s) => s,
            None => {
                return Err(DeserialiseError::AttributeExpected(name));
            },
        };
        let cs = chars_of(s);
        let n = cs.len();
        let mut pos: usize = 0;
        while pos < n
            invariant
                pos <= n,
                n == cs@.len(),
                forall|q: int| 0 <= q < pos ==> cs@[q] != ':',
            ensures
                pos <= n,
                forall|q: int| 0 <= q < pos ==> cs@[q] != ':',
                pos == n || cs@[pos as int] == ':',
            decreases n - pos,
        {
            if cs[pos] == ':' {
                break;
            }
            pos = pos + 1;
        }
        proof {
            lemma_colon_index(cs@, pos as int);
            assert(cs@.subrange(0, n as int) =~= cs@);
        }
        if pos < n {
            let index = match literal_chars::<T>(cs.as_slice(), 0, pos) {
                Ok(v) => v,
                Err(e) => {
                    return Err(e);
                },
            };
            match literal_chars::<T>(cs.as_slice(), pos + 1, n) {
                Ok(l) => Ok((index, l)),
                Err(e) => Err(e),
            }
        } else {
            match literal_chars::<T>(cs.as_slice(), 0, n) {
                Ok(l) => Ok((T::zero(), l)),
                Err(e) => Err(e),
            }
        }
    }

    /// The attribute `name` as `true` or `false`.
    pub fn attribute_bool(&self, name: &'static str) -> (r: Result<bool, DeserialiseError>)
        ensures
            match self.spec_attr(name@) {
                None => r == Err::<bool, DeserialiseError>(DeserialiseError::AttributeExpected(name)),
                Some(v) => match bool_literal(v) {
                    Some(b) => r == Ok::<bool, DeserialiseError>(b),
                    None => r == Err::<bool, DeserialiseError>(DeserialiseError::ParseBool),
                },
            },
    {
        match self.attribute(name) {
            Some(v) => {
                if str_eq(v, "true") {
                    Ok(true)
                } else if str_eq(v, "false") {
                    Ok(false)
                } else {
                    Err(DeserialiseError::ParseBool)
                }
            },
            None => Err(DeserialiseError::AttributeExpected(name)),
        }
    }

    /// The attribute `name` as a byte order.
    pub fn attribute_endian(&self, name: &'static str) -> (r: Result<Endian, DeserialiseError>)
        ensures
            match self.spec_attr(name@) {
                None => r == Err::<Endian, DeserialiseError>(DeserialiseError::AttributeExpected(name)),
                Some(v) => match endian_literal(v) {
                    Some(e) => r == Ok::<Endian, DeserialiseError>(e),
                    None => r == Err::<Endian, DeserialiseError>(DeserialiseError::ParseEndian),
                },
            },
    {
        match self.attribute(name) {
            Some(v) => {
                if str_eq(v, "big") || str_eq(v, "BIG") || str_eq(v, "be") || str_eq(v, "BE") {
                    Ok(Endian::Big)
                } else if str_eq(v, "little") || str_eq(v, "LITTLE") || str_eq(v, "le") || str_eq(
                    v,
                    "LE",
                ) {
                    Ok(Endian::Little)
                } else {
                    Err(DeserialiseError::ParseEndian)
                }
            },
            None => Err(DeserialiseError::AttributeExpected(name)),
        }
    }
}

} // verus!
