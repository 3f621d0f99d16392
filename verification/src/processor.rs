use vstd::prelude::*;

use crate::sleigh::deserialise::{
    int_literal, lemma_attr_lookup_view, lemma_xml_view, node_attr, parse_document, xml_document,
    DeserialiseError, XmlElement, XmlNode,
};
use crate::text::str_eq;

verus! {

/// What a processor specification states: the register that holds the
/// program counter, and the context variables and tracked registers that
/// are set, each with its value.
pub struct SpecificationView {
    pub program_counter: Seq<char>,
    pub context_set: Map<Seq<char>, u32>,
    pub tracked_set: Map<Seq<char>, u32>,
}

/// No name occurs twice among `s`.
pub open spec fn unique_names(s: Seq<(String, u32)>) -> bool {
    forall|i: int, j: int| 0 <= i < j < s.len() ==> #[trigger] s[i].0@ != #[trigger] s[j].0@
}

/// The names and values `s` as a map.
pub open spec fn names_map(s: Seq<(String, u32)>) -> Map<Seq<char>, u32> {
    Map::new(
        |k: Seq<char>| exists|i: int| 0 <= i < s.len() && s[i].0@ == k,
        |k: Seq<char>| s[choose|i: int| 0 <= i < s.len() && s[i].0@ == k].1,
    )
}

/// The processor specification of a language: its program counter, and
/// the values that context variables and tracked registers take.
#[derive(Debug)]
pub struct Specification {
    program_counter: String,
    context_set: Vec<(String, u32)>,
    tracked_set: Vec<(String, u32)>,
}

impl Specification {
    /// No variable or register is named twice.
    #[verifier::type_invariant]
    spec fn wf(self) -> bool {
        unique_names(self.context_set@) && unique_names(self.tracked_set@)
    }
}

impl View for Specification {
    type V = SpecificationView;

    closed spec fn view(&self) -> SpecificationView {
        SpecificationView {
            program_counter: self.program_counter@,
            context_set: names_map(self.context_set@),
            tracked_set: names_map(self.tracked_set@),
        }
    }
}

/// Setting `name` in the set `m` from the attributes of `c`: its `name`
/// and its `val` (a `u32`), read in that order.
pub open spec fn set_entry(m: Map<Seq<char>, u32>, c: XmlNode) -> Result<Map<Seq<char>, u32>, DeserialiseError> {
    match node_attr(c, "name"@) {
        None => Err(DeserialiseError::AttributeExpected("name")),
        Some(name) => match node_attr(c, "val"@) {
            None => Err(DeserialiseError::AttributeExpected("val")),
            Some(v) => match int_literal(v, false, 0, u32::MAX as int) {
                Err(k) => Err(DeserialiseError::ParseInteger(k)),
                Ok(x) => Ok(m.insert(name, x as u32)),
            },
        },
    }
}

/// Setting the first `n` elements `items` into `m`, in order; the first
/// error stops.
pub open spec fn set_entries(m: Map<Seq<char>, u32>, items: Seq<XmlNode>, n: int) -> Result<
    Map<Seq<char>, u32>,
    DeserialiseError,
>
    decreases n,
{
    if n <= 0 {
        Ok(m)
    } else {
        match set_entries(m, items, n - 1) {
            Err(e) => Err(e),
            Ok(m1) => set_entry(m1, items[n - 1]),
        }
    }
}

/// The context and tracked sets after the first `n` children `items` of a
/// `context_data` element: a `context_set` element sets its children in
/// the context set, a `tracked_set` element in the tracked set; other
/// elements are skipped.
pub open spec fn context_data(
    sets: (Map<Seq<char>, u32>, Map<Seq<char>, u32>),
    items: Seq<XmlNode>,
    n: int,
) -> Result<(Map<Seq<char>, u32>, Map<Seq<char>, u32>), DeserialiseError>
    decreases n,
{
    if n <= 0 {
        Ok(sets)
    } else {
        match context_data(sets, items, n - 1) {
            Err(e) => Err(e),
            Ok((c, t)) => {
                let k = items[n - 1];
                if k.tag == "context_set"@ {
                    match set_entries(c, k.children, k.children.len() as int) {
                        Err(e) => Err(e),
                        Ok(c1) => Ok((c1, t)),
                    }
                } else if k.tag == "tracked_set"@ {
                    match set_entries(t, k.children, k.children.len() as int) {
                        Err(e) => Err(e),
                        Ok(t1) => Ok((c, t1)),
                    }
                } else {
                    Ok((c, t))
                }
            },
        }
    }
}

/// What reading the first `n` children `items` of a `processor_spec`
/// element gives: the program counter of the last `programcounter`
/// element (its `register`), and the sets of the `context_data` elements;
/// other elements are skipped.
pub open spec fn processor_parts(items: Seq<XmlNode>, n: int) -> Result<
    (Option<Seq<char>>, Map<Seq<char>, u32>, Map<Seq<char>, u32>),
    DeserialiseError,
>
    decreases n,
{
    if n <= 0 {
        Ok((None, Map::empty(), Map::empty()))
    } else {
        match processor_parts(items, n - 1) {
            Err(e) => Err(e),
            Ok((pc, c, t)) => {
                let k = items[n - 1];
                if k.tag == "programcounter"@ {
                    match node_attr(k, "register"@) {
                        None => Err(DeserialiseError::AttributeExpected("register")),
                        Some(reg) => Ok((Some(reg), c, t)),
                    }
                } else if k.tag == "context_data"@ {
                    match context_data((c, t), k.children, k.children.len() as int) {
                        Err(e) => Err(e),
                        Ok((c1, t1)) => Ok((pc, c1, t1)),
                    }
                } else {
                    Ok((pc, c, t))
                }
            },
        }
    }
}

/// Whether `r` is what reading the element `n` as a processor
/// specification gives: `TagUnexpected` (with the tag) unless the tag is
/// `processor_spec`; the first error met in its children; `Invariant`
/// where no program counter is given; else the specification read.
pub open spec fn specification_read(n: XmlNode, r: Result<Specification, DeserialiseError>) -> bool {
    if n.tag != "processor_spec"@ {
        r is Err && r->Err_0 is TagUnexpected && r->Err_0->TagUnexpected_0@ == n.tag
    } else {
        match processor_parts(n.children, n.children.len() as int) {
            Err(e) => r == Err::<Specification, DeserialiseError>(e),
            Ok((None, _, _)) => r == Err::<Specification, DeserialiseError>(
                DeserialiseError::Invariant("processor specification must define a program counter"),
            ),
            Ok((Some(pc), c, t)) => r is Ok && r->Ok_0@ == SpecificationView {
                program_counter: pc,
                context_set: c,
                tracked_set: t,
            },
        }
    }
}

/// Giving the entry at `i` the value `v`, names unchanged, sets its name to
/// `v` in the map.
proof fn lemma_names_map_update(s0: Seq<(String, u32)>, s1: Seq<(String, u32)>, i: int, v: u32)
    requires
        unique_names(s0),
        0 <= i < s0.len(),
        s1.len() == s0.len(),
        forall|j: int| 0 <= j < s0.len() ==> #[trigger] s1[j].0@ == s0[j].0@,
        s1[i].1 == v,
        forall|j: int| 0 <= j < s0.len() && j != i ==> #[trigger] s1[j].1 == s0[j].1,
    ensures
        unique_names(s1),
        names_map(s1) == names_map(s0).insert(s0[i].0@, v),
{
    let name = s0[i].0@;
    assert forall|a: int, b: int| 0 <= a < b < s1.len() implies #[trigger] s1[a].0@ != #[trigger] s1[b].0@ by {
        assert(s1[a].0@ == s0[a].0@ && s1[b].0@ == s0[b].0@);
    }
    assert forall|k: Seq<char>| #[trigger] names_map(s1).contains_key(k) == names_map(s0).insert(
        name,
        v,
    ).contains_key(k) by {
        if k == name {
            assert(s1[i].0@ == k);
        } else if names_map(s0).contains_key(k) {
            let q = choose|q: int| 0 <= q < s0.len() && s0[q].0@ == k;
            assert(s1[q].0@ == k);
        } else if names_map(s1).contains_key(k) {
            let q = choose|q: int| 0 <= q < s1.len() && s1[q].0@ == k;
            assert(s0[q].0@ == k);
        }
    }
    assert forall|k: Seq<char>| #[trigger] names_map(s1).contains_key(k) implies names_map(s1)[k]
        == names_map(s0).insert(name, v)[k] by {
        let q1 = choose|q: int| 0 <= q < s1.len() && s1[q].0@ == k;
        assert(s0[q1].0@ == k);
        if k == name {
            assert(s1[i].0@ == k);
            assert(q1 == i);
        } else {
            assert(0 <= q1 < s0.len() && s0[q1].0@ == k);
            let q0 = choose|q: int| 0 <= q < s0.len() && s0[q].0@ == k;
            assert(s0[q0].0@ == k);
            assert(q0 == q1);
            assert(q1 != i);
        }
    }
    assert(names_map(s1) =~= names_map(s0).insert(name, v));
}

/// Appending an entry whose name is new sets that name in the map.
proof fn lemma_names_map_push(s0: Seq<(String, u32)>, e: (String, u32))
    requires
        unique_names(s0),
        forall|j: int| 0 <= j < s0.len() ==> s0[j].0@ != e.0@,
    ensures
        unique_names(s0.push(e)),
        names_map(s0.push(e)) == names_map(s0).insert(e.0@, e.1),
{
    let s1 = s0.push(e);
    let n = e.0@;
    assert(s1[s0.len() as int].0@ == n);
    assert forall|a: int, b: int| 0 <= a < b < s1.len() implies #[trigger] s1[a].0@ != #[trigger] s1[b].0@ by {
        if b < s0.len() {
            assert(s1[a] == s0[a] && s1[b] == s0[b]);
        } else {
            assert(s1[a] == s0[a]);
        }
    }
    assert forall|k: Seq<char>| #[trigger] names_map(s1).contains_key(k) == names_map(s0).insert(
        n,
        e.1,
    ).contains_key(k) by {
        if k != n && names_map(s1).contains_key(k) {
            let q = choose|q: int| 0 <= q < s1.len() && s1[q].0@ == k;
            assert(q < s0.len());
            assert(s0[q] == s1[q]);
        }
        if names_map(s0).contains_key(k) {
            let q = choose|q: int| 0 <= q < s0.len() && s0[q].0@ == k;
            assert(s1[q] == s0[q]);
        }
    }
    assert forall|k: Seq<char>| #[trigger] names_map(s1).contains_key(k) implies names_map(s1)[k]
        == names_map(s0).insert(n, e.1)[k] by {
        let q1 = choose|q: int| 0 <= q < s1.len() && s1[q].0@ == k;
        if k == n {
            assert(q1 == s0.len());
        } else {
            assert(q1 < s0.len());
            assert(s0[q1] == s1[q1]);
            let q0 = choose|q: int| 0 <= q < s0.len() && s0[q].0@ == k;
            assert(s1[q0] == s0[q0]);
            assert(q0 == q1);
        }
    }
    assert(names_map(s1) =~= names_map(s0).insert(n, e.1));
}

/// The names of no entries make the empty map.
proof fn lemma_names_map_empty()
    ensures
        names_map(Seq::<(String, u32)>::empty()) == Map::<Seq<char>, u32>::empty(),
        unique_names(Seq::<(String, u32)>::empty()),
{
    assert(names_map(Seq::<(String, u32)>::empty()) =~= Map::<Seq<char>, u32>::empty());
}

/// Once setting entries fails, setting more fails the same way.
proof fn lemma_set_entries_stops(m: Map<Seq<char>, u32>, items: Seq<XmlNode>, k: int, n: int)
    requires
        0 <= k <= n,
        set_entries(m, items, k) is Err,
    ensures
        set_entries(m, items, n) == set_entries(m, items, k),
    decreases n - k,
{
    if n > k {
        lemma_set_entries_stops(m, items, k, n - 1);
    }
}

/// Once reading context data fails, reading more fails the same way.
proof fn lemma_context_data_stops(
    sets: (Map<Seq<char>, u32>, Map<Seq<char>, u32>),
    items: Seq<XmlNode>,
    k: int,
    n: int,
)
    requires
        0 <= k <= n,
        context_data(sets, items, k) is Err,
    ensures
        context_data(sets, items, n) == context_data(sets, items, k),
    decreases n - k,
{
    if n > k {
        lemma_context_data_stops(sets, items, k, n - 1);
    }
}

/// Once reading the parts of a specification fails, reading more fails
/// the same way.
proof fn lemma_processor_parts_stops(items: Seq<XmlNode>, k: int, n: int)
    requires
        0 <= k <= n,
        processor_parts(items, k) is Err,
    ensures
        processor_parts(items, n) == processor_parts(items, k),
    decreases n - k,
{
    if n > k {
        lemma_processor_parts_stops(items, k, n - 1);
    }
}

/// Putting `name` into `s` keeps the names unique and maps `name` to `val`.
fn set_insert(s: &mut Vec<(String, u32)>, name: String, val: u32)
    requires
        unique_names(old(s)@),
    ensures
        unique_names(final(s)@),
        names_map(final(s)@) == names_map(old(s)@).insert(name@, val),
{
    let ghost s0 = s@;
    let mut i: usize = 0;
    while i < s.len() && !str_eq(s[i].0.as_str(), name.as_str())
        invariant
            i <= s@.len(),
            s@ == s0,
            unique_names(s0),
            forall|j: int| 0 <= j < i ==> s0[j].0@ != name@,
        decreases s@.len() - i,
    {
        i = i + 1;
    }
    if i < s.len() {
        let ghost key = name@;
        s.set(i, (name, val));
        proof {
            lemma_names_map_update(s0, s@, i as int, val);
            assert(s0[i as int].0@ == key);
        }
    } else {
        let ghost e = (name, val);
        s.push((name, val));
        proof {
            lemma_names_map_push(s0, e);
            assert(s@ == s0.push(e));
        }
    }
}

/// The name an optional string holds, as values.
pub open spec fn opt_view(o: Option<String>) -> Option<Seq<char>> {
    match o {
        Some(s) => Some(s@),
        None => None,
    }
}

/// Sets each child element of `set` into `s` (see `set_entries`).
fn read_set(s: &mut Vec<(String, u32)>, set: &XmlElement) -> (r: Result<(), DeserialiseError>)
    requires
        unique_names(old(s)@),
    ensures
        unique_names(final(s)@),
        match set_entries(names_map(old(s)@), set@.children, set@.children.len() as int) {
            Err(e) => r == Err::<(), DeserialiseError>(e),
            Ok(m) => r is Ok && names_map(final(s)@) == m,
        },
{
    let n = set.children.len();
    let mut i: usize = 0;
    proof {
        lemma_xml_view(set);
    }
    while i < n
        invariant
            i <= n,
            n == set@.children.len(),
            n == set.children@.len(),
            unique_names(s@),
            set_entries(names_map(old(s)@), set@.children, i as int) == Ok::<
                Map<Seq<char>, u32>,
                DeserialiseError,
            >(names_map(s@)),
        decreases n - i,
    {
        let ct = &set.children[i];
        proof {
            lemma_xml_view(set);
            lemma_xml_view(ct);
            assert(set@.children[i as int] == ct@);
            lemma_attr_lookup_view(ct.attributes@, "name"@);
            lemma_attr_lookup_view(ct.attributes@, "val"@);
        }
        let name = match ct.attribute_string("name") {
            Ok(v) => v,
            Err(e) => {
                proof {
                    lemma_set_entries_stops(names_map(old(s)@), set@.children, i + 1, n as int);
                }
                return Err(e);
            },
        };
        let val = match ct.attribute_int::<u32>("val") {
            Ok(v) => v,
            Err(e) => {
                proof {
                    lemma_set_entries_stops(names_map(old(s)@), set@.children, i + 1, n as int);
                }
                return Err(e);
            },
        };
        set_insert(s, name, val);
        i = i + 1;
    }
    Ok(())
}

/// Reads the `context_set` and `tracked_set` children of `data` into `c`
/// and `t` (see `context_data`).
fn read_context_data(c: &mut Vec<(String, u32)>, t: &mut Vec<(String, u32)>, data: &XmlElement) -> (r:
    Result<(), DeserialiseError>)
    requires
        unique_names(old(c)@),
        unique_names(old(t)@),
    ensures
        unique_names(final(c)@),
        unique_names(final(t)@),
        match context_data((names_map(old(c)@), names_map(old(t)@)), data@.children, data@.children.len() as int) {
            Err(e) => r == Err::<(), DeserialiseError>(e),
            Ok((cm, tm)) => r is Ok && names_map(final(c)@) == cm && names_map(final(t)@) == tm,
        },
{
    let n = data.children.len();
    let mut i: usize = 0;
    proof {
        lemma_xml_view(data);
    }
    while i < n
        invariant
            i <= n,
            n == data@.children.len(),
            n == data.children@.len(),
            unique_names(c@),
            unique_names(t@),
            context_data((names_map(old(c)@), names_map(old(t)@)), data@.children, i as int) == Ok::<
                (Map<Seq<char>, u32>, Map<Seq<char>, u32>),
                DeserialiseError,
            >((names_map(c@), names_map(t@))),
        decreases n - i,
    {
        let k = &data.children[i];
        proof {
            lemma_xml_view(data);
            lemma_xml_view(k);
            assert(data@.children[i as int] == k@);
        }
        if str_eq(k.tag_name(), "context_set") {
            match read_set(c, k) {
                Ok(()) => {},
                Err(e) => {
                    proof {
                        lemma_context_data_stops((names_map(old(c)@), names_map(old(t)@)), data@.children, i + 1, n as int);
                    }
                    return Err(e);
                },
            }
        } else if str_eq(k.tag_name(), "tracked_set") {
            match read_set(t, k) {
                Ok(()) => {},
                Err(e) => {
                    proof {
                        lemma_context_data_stops((names_map(old(c)@), names_map(old(t)@)), data@.children, i + 1, n as int);
                    }
                    return Err(e);
                },
            }
        }
        i = i + 1;
    }
    Ok(())
}

impl Specification {
    /// Reads a processor specification from its `processor_spec` element
    /// (see `specification_read`).  A later setting of a name replaces an
    /// earlier one.
    pub fn from_xml(input: &XmlElement) -> (r: Result<Self, DeserialiseError>)
        ensures
            specification_read(input@, r),
    {
        let tag = input.tag_name();
        proof {
            lemma_xml_view(input);
        }
        if !str_eq(tag, "processor_spec") {
            return Err(DeserialiseError::TagUnexpected(tag.to_owned()));
        }
        let mut program_counter: Option<String> = None;
        let mut context_set: Vec<(String, u32)> = Vec::new();
        let mut tracked_set: Vec<(String, u32)> = Vec::new();
        proof {
            lemma_names_map_empty();
        }
        let n = input.children.len();
        let mut i: usize = 0;
        while i < n
            invariant
                i <= n,
                n == input@.children.len(),
                n == input.children@.len(),
                input@.tag == "processor_spec"@,
                unique_names(context_set@),
                unique_names(tracked_set@),
                processor_parts(input@.children, i as int) == Ok::<
                    (Option<Seq<char>>, Map<Seq<char>, u32>, Map<Seq<char>, u32>),
                    DeserialiseError,
                >((opt_view(program_counter), names_map(context_set@), names_map(tracked_set@))),
            decreases n - i,
        {
            let k = &input.children[i];
            proof {
                lemma_xml_view(input);
                lemma_xml_view(k);
                assert(input@.children[i as int] == k@);
                lemma_attr_lookup_view(k.attributes@, "register"@);
            }
            if str_eq(k.tag_name(), "programcounter") {
                match k.attribute_string("register") {
                    Ok(v) => {
                        program_counter = Some(v);
                    },
                    Err(e) => {
                        proof {
                            lemma_processor_parts_stops(input@.children, i + 1, n as int);
                        }
                        return Err(e);
                    },
                }
            } else if str_eq(k.tag_name(), "context_data") {
                match read_context_data(&mut context_set, &mut tracked_set, k) {
                    Ok(()) => {},
                    Err(e) => {
                        proof {
                            lemma_processor_parts_stops(input@.children, i + 1, n as int);
                        }
                        return Err(e);
                    },
                }
            }
            i = i + 1;
        }
        match program_counter {
            Some(program_counter) => Ok(Specification { program_counter, context_set, tracked_set }),
            None => Err(DeserialiseError::Invariant("processor specification must define a program counter")),
        }
    }

    /// Reads a processor specification from the text of its XML document:
    /// `Xml` where the text is not a well-formed document, else as
    /// `from_xml` reads its root element.
    pub fn from_str(input: &str) -> (r: Result<Self, DeserialiseError>)
        ensures
            match xml_document(input@) {
                None => r is Err && r->Err_0 is Xml,
                Some(n) => specification_read(n, r),
            },
    {
        let root = match parse_document(input) {
            Ok(e) => e,
            Err(e) => {
                return Err(e);
            },
        };
        Self::from_xml(&root)
    }

    /// The register that holds the program counter.
    pub fn program_counter(&self) -> (r: &str)
        ensures
            r@ == self@.program_counter,
    {
        self.program_counter.as_str()
    }

    /// The context variables that are set and their values, each once, in
    /// no particular order.
    pub fn context_set(&self) -> (r: &[(String, u32)])
        ensures
            unique_names(r@),
            names_map(r@) == self@.context_set,
    {
        proof {
            use_type_invariant(self);
        }
        self.context_set.as_slice()
    }

    /// The tracked registers that are set and their values, each once, in
    /// no particular order.
    pub fn tracked_set(&self) -> (r: &[(String, u32)])
        ensures
            unique_names(r@),
            names_map(r@) == self@.tracked_set,
    {
        proof {
            use_type_invariant(self);
        }
        self.tracked_set.as_slice()
    }
}

} // verus!
