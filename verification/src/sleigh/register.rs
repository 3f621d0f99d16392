use std::sync::Arc;

use iset::IntervalMap;
use vstd::prelude::*;

use crate::sleigh::space::AddressSpace;
use crate::text::str_eq;

verus! {

/// The intervals of a table of register names, each with its name: an
/// `iset::IntervalMap`, out of Verus's sight.
#[verifier::external_body]
pub struct NameIntervals {
    map: IntervalMap<u64, String>,
}

/// The intervals `start..end` that the map holds, with the name of each.
pub uninterp spec fn interval_contents(m: NameIntervals) -> Map<(u64, u64), Seq<char>>;

/// Whether the interval `a` comes before `b`: by start, then by end.
pub open spec fn interval_lt(a: (u64, u64), b: (u64, u64)) -> bool {
    a.0 < b.0 || (a.0 == b.0 && a.1 < b.1)
}

/// Whether the location `a` comes before `b`: by offset, then by size.
pub open spec fn key_lt(a: (u64, usize), b: (u64, usize)) -> bool {
    a.0 < b.0 || (a.0 == b.0 && a.1 < b.1)
}

/// No intervals.
pub open spec fn no_intervals() -> Map<(u64, u64), Seq<char>> {
    Map::empty()
}

/// `IntervalMap::new`: an empty map.
#[verifier::external_body]
fn intervals_new() -> (r: NameIntervals)
    ensures
        interval_contents(r) == no_intervals(),
{
    NameIntervals { map: IntervalMap::new() }
}

/// `IntervalMap::insert`: maps the interval `start..end` to `name`, in place
/// of any name it had; it panics on an empty interval.
#[verifier::external_body]
fn intervals_insert(m: &mut NameIntervals, start: u64, end: u64, name: String)
    requires
        start < end,
    ensures
        interval_contents(*final(m)) == interval_contents(*old(m)).insert((start, end), name@),
{
    m.map.insert(start..end, name);
}

/// `IntervalMap::iter` over the query `start..end`: the intervals of the map
/// that overlap the query, each with its name, sorted by interval; it
/// panics on an empty query.
#[verifier::external_body]
fn intervals_overlapping<'a>(m: &'a NameIntervals, start: u64, end: u64) -> (r: Vec<
    (u64, u64, &'a String),
>)
    requires
        start < end,
    ensures
        forall|i: int|
            0 <= i < r@.len() ==> {
                &&& interval_contents(*m).contains_key((r@[i].0, r@[i].1))
                &&& interval_contents(*m)[(r@[i].0, r@[i].1)] == r@[i].2@
                &&& r@[i].0 < end
                &&& r@[i].1 > start
            },
        forall|k: (u64, u64)|
            #![trigger interval_contents(*m).contains_key(k)]
            interval_contents(*m).contains_key(k) && k.0 < end && k.1 > start ==> exists|i: int|
                0 <= i < r@.len() && r@[i].0 == k.0 && r@[i].1 == k.1,
        forall|i: int, j: int|
            0 <= i < j < r@.len() ==> interval_lt((r@[i].0, r@[i].1), (r@[j].0, r@[j].1)),
{
    m.map.iter(start..end).map(|(r, v)| (r.start, r.end, v)).collect()
}

/// What a table of register names holds: names by exact location, locations
/// by name, and names by the interval of offsets they cover.
pub struct RegisterNamesView {
    pub exact: Map<(u64, usize), Seq<char>>,
    pub reversed: Map<Seq<char>, (u64, usize)>,
    pub overlaps: Map<(u64, u64), Seq<char>>,
}

/// The names that the entries `(offset, size, name)` give each location.
pub open spec fn exact_map(s: Seq<(u64, usize, String)>) -> Map<(u64, usize), Seq<char>> {
    Map::new(
        |k: (u64, usize)| exists|i: int| 0 <= i < s.len() && s[i].0 == k.0 && s[i].1 == k.1,
        |k: (u64, usize)|
            s[choose|i: int| 0 <= i < s.len() && s[i].0 == k.0 && s[i].1 == k.1].2@,
    )
}

/// The locations that the entries `(name, offset, size)` give each name.
pub open spec fn name_map(s: Seq<(String, u64, usize)>) -> Map<Seq<char>, (u64, usize)> {
    Map::new(
        |n: Seq<char>| exists|i: int| 0 <= i < s.len() && s[i].0@ == n,
        |n: Seq<char>| {
            let i = choose|i: int| 0 <= i < s.len() && s[i].0@ == n;
            (s[i].1, s[i].2)
        },
    )
}

/// Whether the interval `k` holds the offsets `qs..qe`.
pub open spec fn covers(k: (u64, u64), qs: int, qe: int) -> bool {
    k.0 <= qs && k.1 >= qe
}

/// Whether `k` is the first interval of `m`, in interval order, that holds
/// the offsets `qs..qe`.
pub open spec fn first_cover(m: Map<(u64, u64), Seq<char>>, qs: int, qe: int, k: (u64, u64)) -> bool {
    &&& m.contains_key(k)
    &&& covers(k, qs, qe)
    &&& forall|k2: (u64, u64)| m.contains_key(k2) && covers(k2, qs, qe) ==> !interval_lt(k2, k)
}

/// The name of the location `size` bytes at `offset`: its own name where it
/// has one, and otherwise the name of the first interval, in interval
/// order, that holds it.
pub open spec fn name_at(v: RegisterNamesView, offset: u64, size: usize) -> Option<Seq<char>> {
    if v.exact.contains_key((offset, size)) {
        Some(v.exact[(offset, size)])
    } else if exists|k: (u64, u64)| #[trigger] first_cover(v.overlaps, offset as int, offset + size, k) {
        Some(v.overlaps[choose|k: (u64, u64)| #[trigger] first_cover(v.overlaps, offset as int, offset + size, k)])
    } else {
        None
    }
}

/// The table after the location `size` bytes at `offset` is named `name`.
pub open spec fn named(v: RegisterNamesView, offset: u64, size: usize, name: Seq<char>) -> RegisterNamesView {
    RegisterNamesView {
        exact: v.exact.insert((offset, size), name),
        reversed: v.reversed.insert(name, (offset, size)),
        overlaps: v.overlaps.insert((offset, (offset + size) as u64), name),
    }
}

/// Naming a location and then asking for the name of that location, or for
/// the location of that name, gives back what was named.
pub proof fn lemma_named_read_back(v: RegisterNamesView, offset: u64, size: usize, name: Seq<char>)
    ensures
        named(v, offset, size, name).exact.contains_key((offset, size)),
        name_at(named(v, offset, size, name), offset, size) == Some(name),
        named(v, offset, size, name).reversed.contains_key(name),
        named(v, offset, size, name).reversed[name] == (offset, size),
{
}

/// A table of the names of the registers of a processor: each register is
/// a location in the register space.
pub struct RegisterNames {
    exact: Vec<(u64, usize, String)>,
    reversed: Vec<(String, u64, usize)>,
    overlaps: NameIntervals,
    space: Arc<AddressSpace>,
}

impl View for RegisterNames {
    type V = RegisterNamesView;

    closed spec fn view(&self) -> RegisterNamesView {
        RegisterNamesView {
            exact: exact_map(self.exact@),
            reversed: name_map(self.reversed@),
            overlaps: interval_contents(self.overlaps),
        }
    }
}

/// Entries sorted by location, each location once.
pub open spec fn sorted_entries(s: Seq<(u64, usize, String)>) -> bool {
    forall|i: int, j: int| 0 <= i < j < s.len() ==> key_lt((s[i].0, s[i].1), (s[j].0, s[j].1))
}

/// Entries with each name once.
pub open spec fn unique_names(s: Seq<(String, u64, usize)>) -> bool {
    forall|i: int, j: int| 0 <= i < j < s.len() ==> s[i].0@ != s[j].0@
}

/// The location of an entry.
pub open spec fn entry_key(e: (u64, usize, String)) -> (u64, usize) {
    (e.0, e.1)
}

proof fn lemma_exact_at(s: Seq<(u64, usize, String)>, i: int)
    requires
        sorted_entries(s),
        0 <= i < s.len(),
    ensures
        exact_map(s).contains_key(entry_key(s[i])),
        exact_map(s)[entry_key(s[i])] == s[i].2@,
{
    let k = entry_key(s[i]);
    assert(exact_map(s).contains_key(k));
    let j = choose|j: int| 0 <= j < s.len() && s[j].0 == k.0 && s[j].1 == k.1;
    if j != i {
        if j < i {
            assert(key_lt((s[j].0, s[j].1), (s[i].0, s[i].1)));
        } else {
            assert(key_lt((s[i].0, s[i].1), (s[j].0, s[j].1)));
        }
    }
}

proof fn lemma_name_at(s: Seq<(String, u64, usize)>, i: int)
    requires
        unique_names(s),
        0 <= i < s.len(),
    ensures
        name_map(s).contains_key(s[i].0@),
        name_map(s)[s[i].0@] == (s[i].1, s[i].2),
{
    let n = s[i].0@;
    assert(name_map(s).contains_key(n));
    let j = choose|j: int| 0 <= j < s.len() && s[j].0@ == n;
    if j != i {
        if j < i {
            assert(s[j].0@ != s[i].0@);
        } else {
            assert(s[i].0@ != s[j].0@);
        }
    }
}

/// Putting the entry `e` at its place `i` in sorted entries keeps them
/// sorted, and names its location.
proof fn lemma_exact_insert(s: Seq<(u64, usize, String)>, i: int, e: (u64, usize, String))
    requires
        sorted_entries(s),
        0 <= i <= s.len(),
        forall|j: int| 0 <= j < i ==> key_lt(entry_key(s[j]), entry_key(e)),
        i < s.len() ==> key_lt(entry_key(e), entry_key(s[i])),
    ensures
        sorted_entries(s.insert(i, e)),
        exact_map(s.insert(i, e)) == exact_map(s).insert(entry_key(e), e.2@),
{
    let s2 = s.insert(i, e);
    assert forall|a: int, b: int| 0 <= a < b < s2.len() implies key_lt(
        (s2[a].0, s2[a].1),
        (s2[b].0, s2[b].1),
    ) by {
        if b < i {
        } else if b == i {
        } else if a < i {
            assert(key_lt(entry_key(s[a]), entry_key(e)));
            if i < s.len() {
                assert(key_lt(entry_key(e), entry_key(s[i])));
                if b - 1 > i {
                    assert(key_lt(entry_key(s[i]), entry_key(s[b - 1])));
                }
            }
        } else if a == i {
            assert(key_lt(entry_key(e), entry_key(s[i])));
            if b - 1 > i {
                assert(key_lt(entry_key(s[i]), entry_key(s[b - 1])));
            }
        } else {
            assert(key_lt(entry_key(s[a - 1]), entry_key(s[b - 1])));
        }
    }
    let want = exact_map(s).insert(entry_key(e), e.2@);
    assert forall|k: (u64, usize)| #[trigger] exact_map(s2).contains_key(k) == want.contains_key(k) by {
        if k == entry_key(e) {
            assert(s2[i].0 == k.0 && s2[i].1 == k.1);
        } else {
            if exact_map(s).contains_key(k) {
                let j = choose|j: int| 0 <= j < s.len() && s[j].0 == k.0 && s[j].1 == k.1;
                let j2 = if j < i {
                    j
                } else {
                    j + 1
                };
                assert(s2[j2] == s[j]);
            }
            if exact_map(s2).contains_key(k) {
                let j2 = choose|j: int| 0 <= j < s2.len() && s2[j].0 == k.0 && s2[j].1 == k.1;
                let j = if j2 < i {
                    j2
                } else {
                    j2 - 1
                };
                assert(s[j] == s2[j2]);
            }
        }
    }
    assert forall|k: (u64, usize)| #[trigger] exact_map(s2).contains_key(k) implies exact_map(s2)[k]
        == want[k] by {
        let j2 = choose|j: int| 0 <= j < s2.len() && s2[j].0 == k.0 && s2[j].1 == k.1;
        lemma_exact_at(s2, j2);
        if k == entry_key(e) {
            lemma_exact_at(s2, i);
        } else {
            let j = if j2 < i {
                j2
            } else {
                j2 - 1
            };
            assert(s[j] == s2[j2]);
            lemma_exact_at(s, j);
        }
    }
    assert(exact_map(s2) =~= want);
}

/// Renaming the entry `i` keeps the entries sorted, and renames its
/// location.
proof fn lemma_exact_rename(s: Seq<(u64, usize, String)>, i: int, e: (u64, usize, String))
    requires
        sorted_entries(s),
        0 <= i < s.len(),
        entry_key(s[i]) == entry_key(e),
    ensures
        sorted_entries(s.update(i, e)),
        exact_map(s.update(i, e)) == exact_map(s).insert(entry_key(e), e.2@),
{
    let s2 = s.update(i, e);
    assert forall|a: int, b: int| 0 <= a < b < s2.len() implies key_lt(
        (s2[a].0, s2[a].1),
        (s2[b].0, s2[b].1),
    ) by {
        assert(key_lt(entry_key(s[a]), entry_key(s[b])));
    }
    let want = exact_map(s).insert(entry_key(e), e.2@);
    assert forall|k: (u64, usize)| #[trigger] exact_map(s2).contains_key(k) == want.contains_key(k) by {
        if k != entry_key(e) {
            if exact_map(s).contains_key(k) {
                let j = choose|j: int| 0 <= j < s.len() && s[j].0 == k.0 && s[j].1 == k.1;
                assert(s2[j] == s[j]);
            }
            if exact_map(s2).contains_key(k) {
                let j = choose|j: int| 0 <= j < s2.len() && s2[j].0 == k.0 && s2[j].1 == k.1;
                assert(s[j] == s2[j]);
            }
        } else {
            assert(s2[i].0 == k.0 && s2[i].1 == k.1);
        }
    }
    assert forall|k: (u64, usize)| #[trigger] exact_map(s2).contains_key(k) implies exact_map(s2)[k]
        == want[k] by {
        let j = choose|j: int| 0 <= j < s2.len() && s2[j].0 == k.0 && s2[j].1 == k.1;
        lemma_exact_at(s2, j);
        if k != entry_key(e) {
            assert(s[j] == s2[j]);
            lemma_exact_at(s, j);
        } else {
            lemma_exact_at(s2, i);
        }
    }
    assert(exact_map(s2) =~= want);
}

/// Giving the entry `j` of a name a new location keeps names unique.
proof fn lemma_names_update(s: Seq<(String, u64, usize)>, j: int, e: (String, u64, usize))
    requires
        unique_names(s),
        0 <= j < s.len(),
        s[j].0@ == e.0@,
    ensures
        unique_names(s.update(j, e)),
        name_map(s.update(j, e)) == name_map(s).insert(e.0@, (e.1, e.2)),
{
    let s2 = s.update(j, e);
    assert forall|a: int, b: int| 0 <= a < b < s2.len() implies s2[a].0@ != s2[b].0@ by {
        assert(s[a].0@ != s[b].0@);
    }
    let want = name_map(s).insert(e.0@, (e.1, e.2));
    assert forall|n: Seq<char>| #[trigger] name_map(s2).contains_key(n) == want.contains_key(n) by {
        if n != e.0@ {
            if name_map(s).contains_key(n) {
                let i = choose|i: int| 0 <= i < s.len() && s[i].0@ == n;
                assert(s2[i] == s[i]);
            }
            if name_map(s2).contains_key(n) {
                let i = choose|i: int| 0 <= i < s2.len() && s2[i].0@ == n;
                assert(s[i] == s2[i]);
            }
        } else {
            assert(s2[j].0@ == n);
        }
    }
    assert forall|n: Seq<char>| #[trigger] name_map(s2).contains_key(n) implies name_map(s2)[n] == want[n] by {
        let i = choose|i: int| 0 <= i < s2.len() && s2[i].0@ == n;
        lemma_name_at(s2, i);
        if n != e.0@ {
            assert(s[i] == s2[i]);
            lemma_name_at(s, i);
        }
    }
    assert(name_map(s2) =~= want);
}

/// Adding a new name keeps names unique.
proof fn lemma_names_push(s: Seq<(String, u64, usize)>, e: (String, u64, usize))
    requires
        unique_names(s),
        forall|j: int| 0 <= j < s.len() ==> s[j].0@ != e.0@,
    ensures
        unique_names(s.push(e)),
        name_map(s.push(e)) == name_map(s).insert(e.0@, (e.1, e.2)),
{
    let s2 = s.push(e);
    let want = name_map(s).insert(e.0@, (e.1, e.2));
    assert forall|n: Seq<char>| #[trigger] name_map(s2).contains_key(n) == want.contains_key(n) by {
        if n != e.0@ {
            if name_map(s).contains_key(n) {
                let i = choose|i: int| 0 <= i < s.len() && s[i].0@ == n;
                assert(s2[i] == s[i]);
            }
        } else {
            assert(s2[s.len() as int].0@ == n);
        }
    }
    assert forall|n: Seq<char>| #[trigger] name_map(s2).contains_key(n) implies name_map(s2)[n] == want[n] by {
        let i = choose|i: int| 0 <= i < s2.len() && s2[i].0@ == n;
        lemma_name_at(s2, i);
        if n != e.0@ {
            assert(s[i] == s2[i]);
            lemma_name_at(s, i);
        }
    }
    assert(name_map(s2) =~= want);
}

/// At most one interval is the first to hold a range.
proof fn lemma_first_cover_unique(m: Map<(u64, u64), Seq<char>>, qs: int, qe: int, k1: (u64, u64), k2: (
    u64,
    u64,
))
    requires
        first_cover(m, qs, qe, k1),
        first_cover(m, qs, qe, k2),
    ensures
        k1 == k2,
{
    assert(!interval_lt(k2, k1) && !interval_lt(k1, k2));
}

fn key_lt_exec(a0: u64, a1: usize, b0: u64, b1: usize) -> (r: bool)
    ensures
        r == key_lt((a0, a1), (b0, b1)),
{
    a0 < b0 || (a0 == b0 && a1 < b1)
}

impl RegisterNames {
    #[verifier::type_invariant]
    spec fn well_formed(self) -> bool {
        &&& sorted_entries(self.exact@)
        &&& unique_names(self.reversed@)
    }

    /// The register space the names are in.
    pub closed spec fn spec_space(&self) -> AddressSpace {
        *self.space
    }

    /// An empty table of the registers of `space`.
    pub fn new(space: Arc<AddressSpace>) -> (r: Self)
        ensures
            r@.exact == Map::<(u64, usize), Seq<char>>::empty(),
            r@.reversed == Map::<Seq<char>, (u64, usize)>::empty(),
            r@.overlaps == Map::<(u64, u64), Seq<char>>::empty(),
            r.spec_space() == *space,
    {
        let r = RegisterNames { exact: Vec::new(), reversed: Vec::new(), overlaps: intervals_new(), space };
        assert(r@.exact =~= Map::<(u64, usize), Seq<char>>::empty());
        assert(r@.reversed =~= Map::<Seq<char>, (u64, usize)>::empty());
        r
    }

    /// Names the location `size` bytes at `offset` `name`, in place of any
    /// name it had; the name now stands for that location.
    pub fn insert(&mut self, offset: u64, size: usize, name: String)
        requires
            size > 0,
            offset + size <= u64::MAX,
        ensures
            final(self)@ == named(old(self)@, offset, size, name@),
            final(self).spec_space() == old(self).spec_space(),
    {
        proof {
            use_type_invariant(&*self);
        }
        // The names by location, kept sorted.
        let mut exact: Vec<(u64, usize, String)> = Vec::new();
        std::mem::swap(&mut self.exact, &mut exact);
        let ghost old_exact = exact@;
        let mut i: usize = 0;
        while i < exact.len() && key_lt_exec(exact[i].0, exact[i].1, offset, size)
            invariant
                i <= exact@.len(),
                exact@ == old_exact,
                sorted_entries(old_exact),
                forall|j: int| 0 <= j < i ==> key_lt(entry_key(old_exact[j]), (offset, size)),
            decreases exact@.len() - i,
        {
            i = i + 1;
        }
        let e = (offset, size, name.clone());
        if i < exact.len() && exact[i].0 == offset && exact[i].1 == size {
            exact.set(i, e);
            proof {
                lemma_exact_rename(old_exact, i as int, e);
            }
        } else {
            exact.insert(i, e);
            proof {
                lemma_exact_insert(old_exact, i as int, e);
            }
        }
        self.exact = exact;
        // The locations by name.
        let mut reversed: Vec<(String, u64, usize)> = Vec::new();
        std::mem::swap(&mut self.reversed, &mut reversed);
        let ghost old_reversed = reversed@;
        let mut j: usize = 0;
        while j < reversed.len() && !str_eq(reversed[j].0.as_str(), name.as_str())
            invariant
                j <= reversed@.len(),
                reversed@ == old_reversed,
                forall|m: int| 0 <= m < j ==> old_reversed[m].0@ != name@,
            decreases reversed@.len() - j,
        {
            j = j + 1;
        }
        let f = (name.clone(), offset, size);
        if j < reversed.len() {
            reversed.set(j, f);
            proof {
                lemma_names_update(old_reversed, j as int, f);
            }
        } else {
            reversed.push(f);
            proof {
                lemma_names_push(old_reversed, f);
            }
        }
        self.reversed = reversed;
        // The names by interval.
        let mut overlaps = intervals_new();
        std::mem::swap(&mut self.overlaps, &mut overlaps);
        intervals_insert(&mut overlaps, offset, offset + size as u64, name);
        self.overlaps = overlaps;
    }

    /// The name of the location `size` bytes at `offset`: its own name, or
    /// else the name of the first interval, in interval order, that holds
    /// it.
    pub fn get(&self, offset: u64, size: usize) -> (r: Option<&String>)
        requires
            self@.exact.contains_key((offset, size)) || (size > 0 && offset + size <= u64::MAX),
        ensures
            match r {
                Some(n) => name_at(self@, offset, size) == Some(n@),
                None => name_at(self@, offset, size) is None,
            },
    {
        proof {
            use_type_invariant(self);
        }
        let mut i: usize = 0;
        while i < self.exact.len()
            invariant
                i <= self.exact@.len(),
                sorted_entries(self.exact@),
                forall|j: int| 0 <= j < i ==> entry_key(self.exact@[j]) != (offset, size),
            decreases self.exact@.len() - i,
        {
            if self.exact[i].0 == offset && self.exact[i].1 == size {
                proof {
                    lemma_exact_at(self.exact@, i as int);
                }
                return Some(&self.exact[i].2);
            }
            i = i + 1;
        }
        proof {
            assert(!self@.exact.contains_key((offset, size)));
        }
        let end = offset + size as u64;
        let items = intervals_overlapping(&self.overlaps, offset, end);
        let ghost m = interval_contents(self.overlaps);
        let mut j: usize = 0;
        while j < items.len()
            invariant
                j <= items@.len(),
                m == interval_contents(self.overlaps),
                end == offset + size,
                offset < end,
                !self@.exact.contains_key((offset, size)),
                forall|i: int|
                    0 <= i < items@.len() ==> {
                        &&& m.contains_key((items@[i].0, items@[i].1))
                        &&& m[(items@[i].0, items@[i].1)] == items@[i].2@
                        &&& items@[i].0 < end
                        &&& items@[i].1 > offset
                    },
                forall|k: (u64, u64)|
                    #![trigger m.contains_key(k)]
                    m.contains_key(k) && k.0 < end && k.1 > offset ==> exists|i: int|
                        0 <= i < items@.len() && items@[i].0 == k.0 && items@[i].1 == k.1,
                forall|a: int, b: int|
                    0 <= a < b < items@.len() ==> interval_lt((items@[a].0, items@[a].1), (items@[b].0, items@[b].1)),
                forall|q: int| 0 <= q < j ==> !covers((items@[q].0, items@[q].1), offset as int, end as int),
            decreases items@.len() - j,
        {
            if items[j].0 <= offset && items[j].1 >= end {
                let ghost k = (items@[j as int].0, items@[j as int].1);
                proof {
                    assert forall|k2: (u64, u64)| m.contains_key(k2) && covers(k2, offset as int, end as int)
                        implies !interval_lt(k2, k) by {
                        let q = choose|q: int| 0 <= q < items@.len() && items@[q].0 == k2.0 && items@[q].1 == k2.1;
                        if q > j {
                            assert(interval_lt(k, (items@[q].0, items@[q].1)));
                        }
                    }
                    assert(first_cover(m, offset as int, end as int, k));
                    let c = choose|c: (u64, u64)| #[trigger] first_cover(m, offset as int, offset + size, c);
                    lemma_first_cover_unique(m, offset as int, end as int, c, k);
                    assert(self@.overlaps == m);
                }
                return Some(items[j].2);
            }
            j = j + 1;
        }
        proof {
            if exists|k: (u64, u64)| #[trigger] first_cover(m, offset as int, offset + size, k) {
                let k = choose|k: (u64, u64)| #[trigger] first_cover(m, offset as int, offset + size, k);
                let q = choose|q: int| 0 <= q < items@.len() && items@[q].0 == k.0 && items@[q].1 == k.1;
                assert(!covers((items@[q].0, items@[q].1), offset as int, end as int));
            }
        }
        None
    }

    /// The name `name` and its location, where it names one.
    pub fn get_by_name(&self, name: &str) -> (r: Option<(&String, u64, usize)>)
        ensures
            match r {
                Some((n, o, s)) => n@ == name@ && self@.reversed.contains_key(name@) && self@.reversed[name@]
                    == (o, s),
                None => !self@.reversed.contains_key(name@),
            },
    {
        proof {
            use_type_invariant(self);
        }
        let mut j: usize = 0;
        while j < self.reversed.len()
            invariant
                j <= self.reversed@.len(),
                unique_names(self.reversed@),
                forall|m: int| 0 <= m < j ==> self.reversed@[m].0@ != name@,
            decreases self.reversed@.len() - j,
        {
            if str_eq(self.reversed[j].0.as_str(), name) {
                proof {
                    lemma_name_at(self.reversed@, j as int);
                }
                return Some((&self.reversed[j].0, self.reversed[j].1, self.reversed[j].2));
            }
            j = j + 1;
        }
        None
    }

    /// The register space the names are in.
    pub fn register_space(&self) -> (r: &Arc<AddressSpace>)
        ensures
            **r == self.spec_space(),
    {
        &self.space
    }

    /// The names by location, sorted by location.
    pub fn range_mapping(&self) -> (r: &[(u64, usize, String)])
        ensures
            sorted_entries(r@),
            exact_map(r@) == self@.exact,
    {
        proof {
            use_type_invariant(self);
        }
        self.exact.as_slice()
    }

    /// The locations by name.
    pub fn name_mapping(&self) -> (r: &[(String, u64, usize)])
        ensures
            unique_names(r@),
            name_map(r@) == self@.reversed,
    {
        proof {
            use_type_invariant(self);
        }
        self.reversed.as_slice()
    }

    /// The names by location, in order of location.
    pub fn iter(&self) -> (r: &[(u64, usize, String)])
        ensures
            sorted_entries(r@),
            exact_map(r@) == self@.exact,
    {
        self.range_mapping()
    }
}

} // verus!
