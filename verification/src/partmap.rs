use vstd::prelude::*;

verus! {

/// Keys of a [`PartMap`]: values with a total order given by an integer.
pub trait PartKey: Copy + Sized {
    /// The position of the key in the order.
    spec fn key_int(&self) -> int;

    /// Whether `self` comes strictly before `other`.
    fn key_lt(&self, other: &Self) -> (r: bool)
        ensures
            r == (self.key_int() < other.key_int()),
    ;

    /// Distinct keys have distinct positions.
    proof fn lemma_key_injective(a: Self, b: Self)
        ensures
            a.key_int() == b.key_int() ==> a == b,
    ;
}

impl PartKey for u64 {
    open spec fn key_int(&self) -> int {
        *self as int
    }

    fn key_lt(&self, other: &Self) -> (r: bool) {
        *self < *other
    }

    proof fn lemma_key_injective(a: Self, b: Self) {
    }
}

impl PartKey for u32 {
    open spec fn key_int(&self) -> int {
        *self as int
    }

    fn key_lt(&self, other: &Self) -> (r: bool) {
        *self < *other
    }

    proof fn lemma_key_injective(a: Self, b: Self) {
    }
}

impl PartKey for usize {
    open spec fn key_int(&self) -> int {
        *self as int
    }

    fn key_lt(&self, other: &Self) -> (r: bool) {
        *self < *other
    }

    proof fn lemma_key_injective(a: Self, b: Self) {
    }
}

impl PartKey for i64 {
    open spec fn key_int(&self) -> int {
        *self as int
    }

    fn key_lt(&self, other: &Self) -> (r: bool) {
        *self < *other
    }

    proof fn lemma_key_injective(a: Self, b: Self) {
    }
}

impl PartKey for i32 {
    open spec fn key_int(&self) -> int {
        *self as int
    }

    fn key_lt(&self, other: &Self) -> (r: bool) {
        *self < *other
    }

    proof fn lemma_key_injective(a: Self, b: Self) {
    }
}

impl PartKey for isize {
    open spec fn key_int(&self) -> int {
        *self as int
    }

    fn key_lt(&self, other: &Self) -> (r: bool) {
        *self < *other
    }

    proof fn lemma_key_injective(a: Self, b: Self) {
    }
}

/// Values of a [`PartMap`]: duplicating a value keeps its view.
pub trait PartValue: View + Sized {
    /// A copy of the value.
    fn duplicate(&self) -> (r: Self)
        ensures
            r@ == self@,
    ;
}

impl PartValue for usize {
    fn duplicate(&self) -> (r: Self) {
        *self
    }
}

impl PartValue for u64 {
    fn duplicate(&self) -> (r: Self) {
        *self
    }
}

impl PartValue for u32 {
    fn duplicate(&self) -> (r: Self) {
        *self
    }
}

impl PartValue for i64 {
    fn duplicate(&self) -> (r: Self) {
        *self
    }
}

/// The keys are strictly increasing.
pub open spec fn sorted_keys<K: PartKey>(keys: Seq<K>) -> bool {
    forall|i: int, j: int| 0 <= i < j < keys.len() ==> #[trigger] keys[i].key_int() < #[trigger] keys[j].key_int()
}

/// The index of the last key at or before `p`, or -1 when every key comes
/// after `p`.
pub open spec fn floor_index<K: PartKey>(keys: Seq<K>, p: int) -> int
    decreases keys.len(),
{
    if keys.len() == 0 {
        -1
    } else if keys.last().key_int() <= p {
        keys.len() - 1
    } else {
        floor_index(keys.drop_last(), p)
    }
}

/// In sorted keys, the floor index is the unique index whose key is at or
/// before `p` and whose successor (if any) comes after `p`.
pub proof fn lemma_floor_index<K: PartKey>(keys: Seq<K>, p: int)
    requires
        sorted_keys(keys),
    ensures
        -1 <= floor_index(keys, p) < keys.len(),
        forall|j: int| 0 <= j <= floor_index(keys, p) ==> #[trigger] keys[j].key_int() <= p,
        forall|j: int| floor_index(keys, p) < j < keys.len() ==> #[trigger] keys[j].key_int() > p,
    decreases keys.len(),
{
    if keys.len() > 0 {
        if keys.last().key_int() <= p {
            assert forall|j: int| 0 <= j <= keys.len() - 1 implies #[trigger] keys[j].key_int() <= p by {
                if j < keys.len() - 1 {
                    assert(keys[j].key_int() < keys[keys.len() - 1].key_int());
                }
            }
        } else {
            let d = keys.drop_last();
            assert(sorted_keys(d)) by {
                assert forall|i: int, j: int| 0 <= i < j < d.len() implies #[trigger] d[i].key_int() < #[trigger] d[j].key_int() by {
                    assert(d[i] == keys[i] && d[j] == keys[j]);
                }
            }
            lemma_floor_index(d, p);
            let f = floor_index(d, p);
            assert forall|j: int| f < j < keys.len() implies #[trigger] keys[j].key_int() > p by {
                if j < keys.len() - 1 {
                    assert(d[j] == keys[j]);
                }
            }
            assert forall|j: int| 0 <= j <= f implies #[trigger] keys[j].key_int() <= p by {
                assert(d[j] == keys[j]);
            }
        }
    }
}

/// The floor index is determined by the characterisation of
/// [`lemma_floor_index`].
pub proof fn lemma_floor_index_unique<K: PartKey>(keys: Seq<K>, p: int, i: int)
    requires
        sorted_keys(keys),
        -1 <= i < keys.len(),
        i >= 0 ==> keys[i].key_int() <= p,
        i + 1 < keys.len() ==> keys[i + 1].key_int() > p,
    ensures
        floor_index(keys, p) == i,
{
    lemma_floor_index(keys, p);
    let f = floor_index(keys, p);
    if f < i {
        assert(keys[i].key_int() > p);
    } else if f > i {
        assert(keys[i + 1].key_int() <= p) by {
            if i + 1 < f {
                assert(keys[i + 1].key_int() < keys[f].key_int());
            }
        }
    }
}


/// The index of the first key at or after `p`.
pub open spec fn first_at_or_after<K: PartKey>(keys: Seq<K>, p: int) -> int {
    floor_index(keys, p - 1) + 1
}

/// The position of an optional end key.
pub open spec fn end_key<K: PartKey>(end: Option<&K>) -> Option<int> {
    match end {
        Some(e) => Some(e.key_int()),
        None => None,
    }
}

/// The index span of the keys `k` with `start <= k` and, when `end` is
/// given, `k < end`.
pub open spec fn span_spec<K: PartKey>(keys: Seq<K>, start: int, end: Option<int>) -> (usize, usize) {
    let lo = first_at_or_after(keys, start);
    let hi = match end {
        Some(e) => first_at_or_after(keys, e),
        None => keys.len() as int,
    };
    (lo as usize, if hi < lo { lo as usize } else { hi as usize })
}

/// The split points around a point and the value in force there.
#[derive(Debug)]
pub enum BoundKind<'a, K, V> {
    Unbounded(&'a V),
    Lower(&'a K, &'a V),
    Upper(&'a K, &'a V),
    Both(&'a K, &'a K, &'a V),
}

impl<'a, K, V> BoundKind<'a, K, V> {
    /// The key at or below the point, if any.
    pub fn lower(&self) -> (r: Option<&'a K>)
        ensures
            r == (match *self {
                BoundKind::Unbounded(_) | BoundKind::Upper(_, _) => None,
                BoundKind::Lower(k, _) | BoundKind::Both(k, _, _) => Some(k),
            }),
    {
        match self {
            BoundKind::Unbounded(_) | BoundKind::Upper(_, _) => None,
            BoundKind::Lower(k, _) | BoundKind::Both(k, _, _) => Some(k),
        }
    }

    /// The key above the point, if any.
    pub fn upper(&self) -> (r: Option<&'a K>)
        ensures
            r == (match *self {
                BoundKind::Unbounded(_) | BoundKind::Lower(_, _) => None,
                BoundKind::Upper(k, _) | BoundKind::Both(_, k, _) => Some(k),
            }),
    {
        match self {
            BoundKind::Unbounded(_) | BoundKind::Lower(_, _) => None,
            BoundKind::Upper(k, _) | BoundKind::Both(_, k, _) => Some(k),
        }
    }

    /// The value in force at the point.
    pub fn value(&self) -> (r: &'a V)
        ensures
            r == (match *self {
                BoundKind::Unbounded(v) => v,
                BoundKind::Lower(_, v) => v,
                BoundKind::Upper(_, v) => v,
                BoundKind::Both(_, _, v) => v,
            }),
    {
        match self {
            BoundKind::Unbounded(v) => v,
            BoundKind::Lower(_, v) => v,
            BoundKind::Upper(_, v) => v,
            BoundKind::Both(_, _, v) => v,
        }
    }
}

/// A map from points of a line to values, given as a set of split points:
/// a point takes the value of the last split point at or before it, or the
/// default value when it lies before every split point.
#[derive(Debug)]
pub struct PartMap<K, V> {
    keys: Vec<K>,
    values: Vec<V>,
    default: V,
}

impl<K: PartKey, V: PartValue> PartMap<K, V> {
    /// The split points, in increasing order.
    pub closed spec fn spec_keys(&self) -> Seq<K> {
        self.keys@
    }

    /// The value of each split point.
    pub closed spec fn spec_values(&self) -> Seq<V> {
        self.values@
    }

    /// The value of points before every split point.
    pub closed spec fn spec_default(&self) -> V {
        self.default
    }

    /// The split points are increasing and each has a value.
    pub open spec fn wf(&self) -> bool {
        &&& self.spec_keys().len() == self.spec_values().len()
        &&& sorted_keys(self.spec_keys())
    }

    /// The value of the last split point at or before `p`, if any.
    pub open spec fn spec_get(&self, p: int) -> Option<V> {
        let i = floor_index(self.spec_keys(), p);
        if i < 0 {
            None
        } else {
            Some(self.spec_values()[i])
        }
    }

    /// The value in force at `p`.
    pub open spec fn spec_get_or_default(&self, p: int) -> V {
        match self.spec_get(p) {
            Some(v) => v,
            None => self.spec_default(),
        }
    }

    /// An empty map whose every point has the value `default`.
    pub fn new(default: V) -> (r: Self)
        ensures
            r.wf(),
            r.spec_keys().len() == 0,
            r.spec_default() == default,
    {
        PartMap { keys: Vec::new(), values: Vec::new(), default }
    }

    /// The value of points before every split point.
    pub fn default_value(&self) -> (r: &V)
        ensures
            *r == self.spec_default(),
    {
        &self.default
    }

    /// Mutable access to the value of points before every split point.
    pub fn default_value_mut(&mut self) -> (r: &mut V)
        ensures
            *r == old(self).spec_default(),
            final(self).spec_default() == *final(r),
            final(self).spec_keys() == old(self).spec_keys(),
            final(self).spec_values() == old(self).spec_values(),
    {
        &mut self.default
    }

    /// The number of split points.
    pub(crate) fn len(&self) -> (r: usize)
        ensures
            r == self.spec_keys().len(),
    {
        self.keys.len()
    }

    /// Whether the map has no split point.
    pub fn is_empty(&self) -> (r: bool)
        ensures
            r == (self.spec_keys().len() == 0),
    {
        self.keys.len() == 0
    }

    /// Finds the index of the last split point at or before `point`, plus one
    /// (zero when every split point comes after it).
    fn upper_index(&self, point: &K) -> (r: usize)
        requires
            self.wf(),
        ensures
            r == floor_index(self.spec_keys(), point.key_int()) + 1,
            r <= self.spec_keys().len(),
    {
        proof {
            lemma_floor_index(self.keys@, point.key_int());
        }
        let mut lo: usize = 0;
        let mut hi: usize = self.keys.len();
        while lo < hi
            invariant
                0 <= lo <= hi <= self.keys@.len(),
                self.wf(),
                forall|j: int| 0 <= j < lo ==> #[trigger] self.keys@[j].key_int() <= point.key_int(),
                forall|j: int| hi <= j < self.keys@.len() ==> #[trigger] self.keys@[j].key_int()
                    > point.key_int(),
            decreases hi - lo,
        {
            let mid = lo + (hi - lo) / 2;
            if point.key_lt(&self.keys[mid]) {
                proof {
                    assert forall|j: int| mid <= j < self.keys@.len() implies #[trigger] self.keys@[j].key_int()
                        > point.key_int() by {
                        if j > mid {
                            assert(self.keys@[mid as int].key_int() < self.keys@[j].key_int());
                        }
                    }
                }
                hi = mid;
            } else {
                proof {
                    assert forall|j: int| 0 <= j <= mid implies #[trigger] self.keys@[j].key_int()
                        <= point.key_int() by {
                        if j < mid {
                            assert(self.keys@[j].key_int() < self.keys@[mid as int].key_int());
                        }
                    }
                }
                lo = mid + 1;
            }
        }
        proof {
            lemma_floor_index_unique(self.keys@, point.key_int(), lo - 1);
        }
        lo
    }

    /// The split points around `point`: the last one at or before it with
    /// its value, and the first one after it.
    pub fn bounds<'a>(&'a self, point: &K) -> (r: BoundKind<'a, K, V>)
        requires
            self.wf(),
        ensures
            ({
                let f = floor_index(self.spec_keys(), point.key_int());
                let has_upper = f + 1 < self.spec_keys().len();
                match r {
                    BoundKind::Unbounded(v) => f < 0 && !has_upper && *v == self.spec_default(),
                    BoundKind::Lower(l, v) => f >= 0 && !has_upper && *l == self.spec_keys()[f]
                        && *v == self.spec_values()[f],
                    BoundKind::Upper(u, v) => f < 0 && has_upper && *u == self.spec_keys()[f + 1]
                        && *v == self.spec_default(),
                    BoundKind::Both(l, u, v) => f >= 0 && has_upper && *l == self.spec_keys()[f]
                        && *u == self.spec_keys()[f + 1] && *v == self.spec_values()[f],
                }
            }),
    {
        let n = self.upper_index(point);
        let has_upper = n < self.keys.len();
        if n == 0 {
            if has_upper {
                BoundKind::Upper(&self.keys[n], &self.default)
            } else {
                BoundKind::Unbounded(&self.default)
            }
        } else {
            if has_upper {
                BoundKind::Both(&self.keys[n - 1], &self.keys[n], &self.values[n - 1])
            } else {
                BoundKind::Lower(&self.keys[n - 1], &self.values[n - 1])
            }
        }
    }

    /// Removes every split point; the default value is kept.
    pub fn clear(&mut self)
        ensures
            final(self).wf(),
            final(self).spec_keys().len() == 0,
            final(self).spec_default() == old(self).spec_default(),
    {
        self.keys = Vec::new();
        self.values = Vec::new();
    }

    /// The value of the last split point at or before `point`, if any.
    pub fn get(&self, point: &K) -> (r: Option<&V>)
        requires
            self.wf(),
        ensures
            match r {
                Some(v) => self.spec_get(point.key_int()) == Some(*v),
                None => self.spec_get(point.key_int()) is None,
            },
    {
        let n = self.upper_index(point);
        if n == 0 {
            None
        } else {
            Some(&self.values[n - 1])
        }
    }

    /// The value in force at `point`.
    pub fn get_or_default(&self, point: &K) -> (r: &V)
        requires
            self.wf(),
        ensures
            *r == self.spec_get_or_default(point.key_int()),
    {
        match self.get(point) {
            Some(v) => v,
            None => &self.default,
        }
    }

    /// Every split point with its value, in increasing order.
    pub fn iter(&self) -> (r: Vec<(&K, &V)>)
        requires
            self.wf(),
        ensures
            r@.len() == self.spec_keys().len(),
            forall|i: int|
                0 <= i < r@.len() ==> *(#[trigger] r@[i]).0 == self.spec_keys()[i] && *r@[i].1
                    == self.spec_values()[i],
    {
        self.collect_entries(0, self.keys.len())
    }

    fn collect_entries(&self, lo: usize, hi: usize) -> (r: Vec<(&K, &V)>)
        requires
            self.wf(),
            lo <= hi <= self.spec_keys().len(),
        ensures
            r@.len() == hi - lo,
            forall|i: int|
                0 <= i < r@.len() ==> *(#[trigger] r@[i]).0 == self.spec_keys()[lo + i] && *r@[i].1
                    == self.spec_values()[lo + i],
    {
        let mut out: Vec<(&K, &V)> = Vec::new();
        let mut i = lo;
        while i < hi
            invariant
                lo <= i <= hi <= self.keys@.len(),
                self.wf(),
                out@.len() == i - lo,
                forall|j: int|
                    0 <= j < out@.len() ==> *(#[trigger] out@[j]).0 == self.keys@[lo + j] && *out@[j].1
                        == self.values@[lo + j],
            decreases hi - i,
        {
            out.push((&self.keys[i], &self.values[i]));
            i = i + 1;
        }
        out
    }

    /// The index span of the split points `k` with `start <= k` and, when
    /// `end` is given, `k < end`.
    fn span(&self, start: &K, end: Option<&K>) -> (r: (usize, usize))
        requires
            self.wf(),
        ensures
            r == span_spec(self.spec_keys(), start.key_int(), end_key(end)),
            r.0 <= r.1 <= self.spec_keys().len(),
            forall|i: int|
                0 <= i < self.spec_keys().len() ==> ((r.0 <= i < r.1) <==> (start.key_int()
                    <= #[trigger] self.spec_keys()[i].key_int() && match end {
                    Some(e) => self.spec_keys()[i].key_int() < e.key_int(),
                    None => true,
                })),
    {
        let lo = self.lower_index(start);
        let hi = match end {
            Some(e) => self.lower_index(e),
            None => self.keys.len(),
        };
        let hi = if hi < lo {
            lo
        } else {
            hi
        };
        proof {
            lemma_floor_index(self.keys@, start.key_int() - 1);
            assert forall|i: int| 0 <= i < self.keys@.len() implies ((lo <= i < hi) <==> (
            start.key_int() <= #[trigger] self.keys@[i].key_int() && match end {
                Some(e) => self.keys@[i].key_int() < e.key_int(),
                None => true,
            })) by {
                match end {
                    Some(e) => {
                        if i < lo {
                        } else if hi <= i {
                        }
                    },
                    None => {},
                }
            }
        }
        (lo, hi)
    }

    /// The index of the first split point at or after `point`.
    fn lower_index(&self, point: &K) -> (r: usize)
        requires
            self.wf(),
        ensures
            r == first_at_or_after(self.spec_keys(), point.key_int()),
            r <= self.spec_keys().len(),
            forall|j: int| 0 <= j < r ==> #[trigger] self.spec_keys()[j].key_int() < point.key_int(),
            forall|j: int|
                r <= j < self.spec_keys().len() ==> #[trigger] self.spec_keys()[j].key_int()
                    >= point.key_int(),
    {
        let mut lo: usize = 0;
        let mut hi: usize = self.keys.len();
        while lo < hi
            invariant
                0 <= lo <= hi <= self.keys@.len(),
                self.wf(),
                forall|j: int| 0 <= j < lo ==> #[trigger] self.keys@[j].key_int() < point.key_int(),
                forall|j: int| hi <= j < self.keys@.len() ==> #[trigger] self.keys@[j].key_int()
                    >= point.key_int(),
            decreases hi - lo,
        {
            let mid = lo + (hi - lo) / 2;
            if self.keys[mid].key_lt(point) {
                proof {
                    assert forall|j: int| 0 <= j <= mid implies #[trigger] self.keys@[j].key_int()
                        < point.key_int() by {
                        if j < mid {
                            assert(self.keys@[j].key_int() < self.keys@[mid as int].key_int());
                        }
                    }
                }
                lo = mid + 1;
            } else {
                proof {
                    assert forall|j: int| mid <= j < self.keys@.len() implies #[trigger] self.keys@[j].key_int()
                        >= point.key_int() by {
                        if j > mid {
                            assert(self.keys@[mid as int].key_int() < self.keys@[j].key_int());
                        }
                    }
                }
                hi = mid;
            }
        }
        proof {
            lemma_floor_index_unique(self.keys@, point.key_int() - 1, lo - 1);
        }
        lo
    }

    /// The split points `k` with `start <= k` and, when `end` is given,
    /// `k < end`, with their values, in increasing order.
    pub fn range<'a>(&'a self, start: &K, end: Option<&K>) -> (r: Vec<(&'a K, &'a V)>)
        requires
            self.wf(),
        ensures
            ({
                let (lo, hi) = span_spec(self.spec_keys(), start.key_int(), end_key(end));
                &&& r@.len() == hi - lo
                &&& forall|i: int|
                    0 <= i < r@.len() ==> *(#[trigger] r@[i]).0 == self.spec_keys()[lo + i]
                        && *r@[i].1 == self.spec_values()[lo + i]
            }),
    {
        let (lo, hi) = self.span(start, end);
        self.collect_entries(lo, hi)
    }

    /// The split points at or after `point`, with their values.
    pub fn begin<'a>(&'a self, point: &K) -> (r: Vec<(&'a K, &'a V)>)
        requires
            self.wf(),
        ensures
            ({
                let lo = first_at_or_after(self.spec_keys(), point.key_int());
                &&& r@.len() == self.spec_keys().len() - lo
                &&& forall|i: int|
                    0 <= i < r@.len() ==> *(#[trigger] r@[i]).0 == self.spec_keys()[lo + i]
                        && *r@[i].1 == self.spec_values()[lo + i]
            }),
    {
        let lo = self.lower_index(point);
        self.collect_entries(lo, self.keys.len())
    }

    /// The index span of the split points `k` with `start <= k` and, when
    /// `end` is given, `k < end`; their values are reached by index with
    /// [`Self::value_at_mut`].
    pub fn range_mut(&mut self, start: &K, end: Option<&K>) -> (r: (usize, usize))
        requires
            old(self).wf(),
        ensures
            *final(self) == *old(self),
            r == span_spec(old(self).spec_keys(), start.key_int(), end_key(end)),
            r.0 <= r.1 <= old(self).spec_keys().len(),
            forall|i: int|
                0 <= i < old(self).spec_keys().len() ==> ((r.0 <= i < r.1) <==> (start.key_int()
                    <= #[trigger] old(self).spec_keys()[i].key_int() && match end {
                    Some(e) => old(self).spec_keys()[i].key_int() < e.key_int(),
                    None => true,
                })),
    {
        self.span(start, end)
    }

    /// The index span of the split points at or after `point`.
    pub fn begin_mut(&mut self, point: &K) -> (r: (usize, usize))
        requires
            old(self).wf(),
        ensures
            *final(self) == *old(self),
            r.0 == first_at_or_after(old(self).spec_keys(), point.key_int()),
            r.0 <= r.1 == old(self).spec_keys().len(),
            forall|i: int|
                0 <= i < old(self).spec_keys().len() ==> ((r.0 <= i) <==> (point.key_int()
                    <= #[trigger] old(self).spec_keys()[i].key_int())),
    {
        let lo = self.lower_index(point);
        (lo, self.keys.len())
    }

    /// Mutable access to the value of the split point at `index`.
    pub fn value_at_mut(&mut self, index: usize) -> (r: &mut V)
        requires
            old(self).wf(),
            index < old(self).spec_keys().len(),
        ensures
            *r == old(self).spec_values()[index as int],
            final(self).spec_keys() == old(self).spec_keys(),
            final(self).spec_values() == old(self).spec_values().update(index as int, *final(r)),
            final(self).spec_default() == old(self).spec_default(),
    {
        &mut self.values[index]
    }


    /// Makes `start` and `end` split points and drops every split point
    /// between them, so that the whole range from `start` up to `end` takes
    /// one value, and returns mutable access to that value (initially a copy
    /// of the value in force at `start`).  Points outside the range keep
    /// their values.
    pub fn clear_range<'a>(&'a mut self, start: &K, end: &K) -> (r: &'a mut V)
        requires
            old(self).wf(),
            start.key_int() < end.key_int(),
        ensures
            final(self).wf(),
            final(self).spec_default() == old(self).spec_default(),
            (*r)@ == old(self).spec_get_or_default(start.key_int())@,
            forall|p: int|
                p < start.key_int() ==> #[trigger] final(self).spec_get_or_default(p) == old(
                    self,
                ).spec_get_or_default(p),
            forall|p: int|
                p >= end.key_int() ==> (#[trigger] final(self).spec_get_or_default(p))@ == old(
                    self,
                ).spec_get_or_default(p)@,
            forall|p: int|
                start.key_int() <= p < end.key_int() ==> #[trigger] final(self).spec_get(p) == Some(
                    *final(r),
                ),
            final(self).spec_keys().contains(*start),
            final(self).spec_keys().contains(*end),
            forall|i: int|
                0 <= i < final(self).spec_keys().len() ==> !(start.key_int()
                    < #[trigger] final(self).spec_keys()[i].key_int() < end.key_int()),
    {
        let ghost m0 = *self;
        let a = self.split_index(start);
        let ghost m1 = *self;
        let b = self.split_index(end);
        let ghost m2 = *self;
        proof {
            lemma_floor_index(m1.keys@, end.key_int());
            assert(m1.keys@[a as int].key_int() == start.key_int());
            assert(a < b);
            assert(m2.keys@[a as int] == m1.keys@[a as int]);
            assert(m2.values@[a as int] == m1.values@[a as int]);
        }
        let mut ktail = self.keys.split_off(b);
        self.keys.truncate(a + 1);
        self.keys.append(&mut ktail);
        let mut vtail = self.values.split_off(b);
        self.values.truncate(a + 1);
        self.values.append(&mut vtail);
        let ghost m3 = *self;
        proof {
            assert(m3.keys@ =~= m2.keys@.subrange(0, a + 1) + m2.keys@.subrange(
                b as int,
                m2.keys@.len() as int,
            ));
            assert(m3.values@ =~= m2.values@.subrange(0, a + 1) + m2.values@.subrange(
                b as int,
                m2.values@.len() as int,
            ));
            assert forall|p: int| #![trigger m3.spec_get_or_default(p)]
                p < start.key_int() implies m3.spec_get_or_default(p) == m0.spec_get_or_default(p) by {
                lemma_split_lookup(m0, m1, start.key_int(), m1.values@[a as int], p);
                lemma_split_lookup(m1, m2, end.key_int(), m2.values@[b as int], p);
                lemma_remove_between(m2, m3, a as int, b as int, p);
            }
            assert forall|p: int| #![trigger m3.spec_get_or_default(p)]
                p >= end.key_int() implies m3.spec_get_or_default(p)@ == m0.spec_get_or_default(
                p,
            )@ by {
                lemma_split_lookup_view(m0, m1, start.key_int(), m1.values@[a as int], p);
                lemma_split_lookup_view(m1, m2, end.key_int(), m2.values@[b as int], p);
                lemma_remove_between(m2, m3, a as int, b as int, p);
            }
            assert forall|p: int| #![trigger m3.spec_get(p)]
                start.key_int() <= p < end.key_int() implies m3.spec_get(p) == Some(
                m3.values@[a as int],
            ) by {
                lemma_remove_between(m2, m3, a as int, b as int, p);
                lemma_floor_index(m3.keys@, p);
                lemma_floor_index_unique(m3.keys@, p, a as int);
            }
            lemma_remove_between(m2, m3, a as int, b as int, start.key_int());
            assert(m3.keys@[a as int] == *start);
            assert(m3.keys@[a + 1] == *end);
            assert forall|i: int| 0 <= i < m3.keys@.len() implies !(start.key_int()
                < #[trigger] m3.keys@[i].key_int() < end.key_int()) by {
                if i < a {
                    assert(m3.keys@[i] == m2.keys@[i]);
                    assert(m2.keys@[i].key_int() < m2.keys@[a as int].key_int());
                } else if i > a + 1 {
                    assert(m3.keys@[i] == m2.keys@[b + i - a - 1]);
                    assert(m2.keys@[b as int].key_int() < m2.keys@[b + i - a - 1].key_int());
                }
            }
        }
        let r = self.value_at_mut(a);
        proof {
            let m4 = after_borrow(*self);
            assert forall|p: int| #![trigger m4.spec_get_or_default(p)]
                p < start.key_int() || p >= end.key_int() implies m4.spec_get_or_default(p)
                == m3.spec_get_or_default(p) by {
                lemma_floor_index(m3.keys@, p);
                if floor_index(m3.keys@, p) == a {
                    assert(m3.keys@[a + 1].key_int() == end.key_int());
                }
            }
            assert forall|p: int| #![trigger m4.spec_get(p)]
                start.key_int() <= p < end.key_int() implies m4.spec_get(p) == Some(*final(r)) by {
                lemma_floor_index(m3.keys@, p);
                lemma_floor_index_unique(m3.keys@, p, a as int);
            }
            assert(m4.keys@ == m3.keys@);
            assert(m4.keys@[a as int] == *start);
            assert(m4.keys@[a + 1] == *end);
        }
        r
    }

    /// Makes `at` a split point, giving it a copy of the value in force there
    /// (see [`Self::split_mut`]), and returns its value.
    pub fn split<'a>(&'a mut self, at: &K) -> (r: &'a V)
        requires
            old(self).wf(),
        ensures
            final(self).wf(),
            split_result(*old(self), *final(self), at.key_int(), *r),
            forall|p: int| (#[trigger] final(self).spec_get_or_default(p))@ == old(self).spec_get_or_default(p)@,
    {
        let i = self.split_index(at);
        proof {
            assert forall|p: int| (#[trigger] self.spec_get_or_default(p))@ == old(self).spec_get_or_default(p)@ by {
                lemma_split_lookup_view(*old(self), *self, at.key_int(), self.spec_values()[i as int], p);
            }
        }
        &self.values[i]
    }

    /// Makes `at` a split point, giving it a copy of the value in force there,
    /// and returns mutable access to its value.  When `at` already is a split
    /// point the map is left as it is.
    pub fn split_mut<'a>(&'a mut self, at: &K) -> (r: &'a mut V)
        requires
            old(self).wf(),
        ensures
            final(self).wf(),
            split_result(*old(self), *final(self), at.key_int(), *final(r)),
            (*r)@ == old(self).spec_get_or_default(at.key_int())@,
            (*final(r))@ == (*r)@ ==> forall|p: int|
                (#[trigger] final(self).spec_get_or_default(p))@ == old(self).spec_get_or_default(p)@,
    {
        let i = self.split_index(at);
        let ghost mid = *self;
        let r = self.value_at_mut(i);
        proof {
            lemma_split_result_update(*old(self), mid, after_borrow(*self), at.key_int(), *final(r));
            assert forall|p: int| (*final(r))@ == (*r)@ implies
                (#[trigger] after_borrow(*self).spec_get_or_default(p))@ == old(self).spec_get_or_default(p)@ by {
                lemma_split_lookup_view(*old(self), after_borrow(*self), at.key_int(), *final(r), p);
            }
        }
        r
    }

    /// Makes `at` a split point and returns its index.
    pub(crate) fn split_index(&mut self, at: &K) -> (r: usize)
        requires
            old(self).wf(),
        ensures
            final(self).wf(),
            r < final(self).spec_keys().len(),
            final(self).spec_keys()[r as int] == *at,
            split_result(*old(self), *final(self), at.key_int(), final(self).spec_values()[r as int]),
            final(self).spec_values()[r as int]@ == old(self).spec_get_or_default(at.key_int())@,
            r == split_position(old(self).spec_keys(), at.key_int()),
    {
        let n = self.upper_index(at);
        proof {
            lemma_floor_index(self.keys@, at.key_int());
        }
        if n > 0 && !self.keys[n - 1].key_lt(at) {
            proof {
                K::lemma_key_injective(self.keys@[n - 1], *at);
            }
            return n - 1;
        }
        let value = if n == 0 {
            self.default.duplicate()
        } else {
            self.values[n - 1].duplicate()
        };
        let ghost old_keys = self.keys@;
        let ghost old_values = self.values@;
        self.keys.insert(n, *at);
        self.values.insert(n, value);
        proof {
            let nk = self.keys@;
            assert(nk == old_keys.insert(n as int, *at));
            assert forall|i: int, j: int| 0 <= i < j < nk.len() implies #[trigger] nk[i].key_int()
                < #[trigger] nk[j].key_int() by {
                if j < n {
                    assert(nk[i] == old_keys[i] && nk[j] == old_keys[j]);
                } else if i > n {
                    assert(nk[i] == old_keys[i - 1] && nk[j] == old_keys[j - 1]);
                } else if i == n {
                    assert(nk[j] == old_keys[j - 1]);
                } else if j == n {
                    assert(nk[i] == old_keys[i]);
                } else {
                    assert(nk[i] == old_keys[i] && nk[j] == old_keys[j - 1]);
                }
            }
        }
        n
    }
}

/// How a split at `at` relates the map before and after: either `at` was
/// already a split point and only its value may differ, or `at` was inserted
/// in order with the value `v`, every other split point keeping its value.
pub open spec fn split_result<K: PartKey, V: PartValue>(
    before: PartMap<K, V>,
    after: PartMap<K, V>,
    at: int,
    v: V,
) -> bool {
    let f = floor_index(before.spec_keys(), at);
    let existed = f >= 0 && before.spec_keys()[f].key_int() == at;
    let pos = split_position(before.spec_keys(), at);
    let shift: int = if existed {
        0
    } else {
        1
    };
    &&& after.spec_default() == before.spec_default()
    &&& after.spec_keys().len() == before.spec_keys().len() + shift
    &&& after.spec_values().len() == after.spec_keys().len()
    &&& 0 <= pos < after.spec_keys().len()
    &&& after.spec_keys()[pos].key_int() == at
    &&& after.spec_values()[pos] == v
    &&& forall|i: int|
        0 <= i < pos ==> #[trigger] after.spec_keys()[i] == before.spec_keys()[i]
            && after.spec_values()[i] == before.spec_values()[i]
    &&& forall|i: int|
        pos < i < after.spec_keys().len() ==> #[trigger] after.spec_keys()[i]
            == before.spec_keys()[i - shift] && after.spec_values()[i] == before.spec_values()[i
            - shift]
}


/// Splitting at `at` and storing `v` there changes what exactly the points
/// from `at` up to (not including) the next split point see: they see `v`;
/// every other point sees what it saw before.
pub proof fn lemma_split_lookup<K: PartKey, V: PartValue>(
    before: PartMap<K, V>,
    after: PartMap<K, V>,
    at: int,
    v: V,
    p: int,
)
    requires
        before.wf(),
        after.wf(),
        split_result(before, after, at, v),
    ensures
        after.spec_get_or_default(p) == (if at <= p && (split_position(before.spec_keys(), at) + 1
            >= after.spec_keys().len() || p < after.spec_keys()[split_position(
            before.spec_keys(),
            at,
        ) + 1].key_int()) {
            v
        } else {
            before.spec_get_or_default(p)
        }),
{
    let bk = before.spec_keys();
    let ak = after.spec_keys();
    let pos = split_position(bk, at);
    let f = floor_index(bk, at);
    lemma_floor_index(bk, at);
    lemma_floor_index(bk, p);
    lemma_floor_index(ak, p);
    let existed = f >= 0 && bk[f].key_int() == at;
    let shift: int = if existed {
        0
    } else {
        1
    };
    let fb = floor_index(bk, p);
    let in_region = at <= p && (pos + 1 >= ak.len() || p < ak[pos + 1].key_int());
    if p < at {
        // every key at or before p lies before the split point
        if fb >= pos {
            if existed {
                assert(bk[pos].key_int() == at);
            } else {
                assert(bk[fb].key_int() > at);
            }
        }
        assert(fb < pos);
        lemma_floor_index_unique(ak, p, fb);
    } else if in_region {
        lemma_floor_index_unique(ak, p, pos);
    } else {
        // p lies at or beyond the split point after `at`
        assert(ak[pos + 1] == bk[pos + 1 - shift]);
        assert(fb >= pos + 1 - shift);
        if fb + shift + 1 < ak.len() {
            assert(ak[fb + shift + 1] == bk[fb + 1]);
        }
        assert(ak[fb + shift] == bk[fb]);
        lemma_floor_index_unique(ak, p, fb + shift);
    }
}


/// When the value stored at the split point is a copy of the value in force
/// there, a split changes no point's value.
pub proof fn lemma_split_lookup_view<K: PartKey, V: PartValue>(
    before: PartMap<K, V>,
    after: PartMap<K, V>,
    at: int,
    v: V,
    p: int,
)
    requires
        before.wf(),
        after.wf(),
        split_result(before, after, at, v),
        v@ == before.spec_get_or_default(at)@,
    ensures
        after.spec_get_or_default(p)@ == before.spec_get_or_default(p)@,
{
    lemma_split_lookup(before, after, at, v, p);
    let bk = before.spec_keys();
    let ak = after.spec_keys();
    let pos = split_position(bk, at);
    if at <= p && (pos + 1 >= ak.len() || p < ak[pos + 1].key_int()) {
        lemma_floor_index(bk, at);
        lemma_floor_index(bk, p);
        let f = floor_index(bk, at);
        let existed = f >= 0 && bk[f].key_int() == at;
        let shift: int = if existed {
            0
        } else {
            1
        };
        if f + 1 < bk.len() {
            assert(ak[pos + 1] == bk[pos + 1 - shift]);
            assert(pos + 1 - shift == f + 1);
        }
        lemma_floor_index_unique(bk, p, f);
    }
}

/// Dropping the split points strictly between indices `a` and `b` makes
/// every point from key `a` up to key `b` see the value of key `a`; the
/// other points see what they saw before.
pub proof fn lemma_remove_between<K: PartKey, V: PartValue>(
    before: PartMap<K, V>,
    after: PartMap<K, V>,
    a: int,
    b: int,
    p: int,
)
    requires
        before.wf(),
        0 <= a < b < before.spec_keys().len(),
        after.spec_keys() == before.spec_keys().subrange(0, a + 1) + before.spec_keys().subrange(
            b,
            before.spec_keys().len() as int,
        ),
        after.spec_values() == before.spec_values().subrange(0, a + 1) + before.spec_values().subrange(
            b,
            before.spec_values().len() as int,
        ),
        after.spec_default() == before.spec_default(),
    ensures
        after.wf(),
        after.spec_get_or_default(p) == (if before.spec_keys()[a].key_int() <= p
            < before.spec_keys()[b].key_int() {
            before.spec_values()[a]
        } else {
            before.spec_get_or_default(p)
        }),
{
    let bk = before.spec_keys();
    let ak = after.spec_keys();
    let d = b - a - 1;
    assert forall|i: int| 0 <= i < ak.len() implies #[trigger] ak[i] == (if i <= a {
        bk[i]
    } else {
        bk[i + d]
    }) by {}
    assert(sorted_keys(ak)) by {
        assert forall|i: int, j: int| 0 <= i < j < ak.len() implies #[trigger] ak[i].key_int()
            < #[trigger] ak[j].key_int() by {
            let ii = if i <= a {
                i
            } else {
                i + d
            };
            let jj = if j <= a {
                j
            } else {
                j + d
            };
            assert(ak[i] == bk[ii] && ak[j] == bk[jj]);
            assert(ii < jj);
        }
    }
    lemma_floor_index(bk, p);
    let fb = floor_index(bk, p);
    if p < bk[a].key_int() {
        assert(fb < a);
        lemma_floor_index_unique(ak, p, fb);
    } else if p < bk[b].key_int() {
        assert(a <= fb < b);
        assert(ak[a] == bk[a]);
        if a + 1 < ak.len() {
            assert(ak[a + 1] == bk[b]);
        }
        lemma_floor_index_unique(ak, p, a);
    } else {
        assert(fb >= b);
        assert(ak[fb - d] == bk[fb]);
        if fb - d + 1 < ak.len() {
            assert(ak[fb - d + 1] == bk[fb + 1]);
        }
        lemma_floor_index_unique(ak, p, fb - d);
    }
}

proof fn lemma_split_result_update<K: PartKey, V: PartValue>(
    before: PartMap<K, V>,
    mid: PartMap<K, V>,
    after: PartMap<K, V>,
    at: int,
    v: V,
)
    requires
        split_result(before, mid, at, mid.spec_values()[split_position(before.spec_keys(), at)]),
        after.spec_keys() == mid.spec_keys(),
        after.spec_default() == mid.spec_default(),
        after.spec_values() == mid.spec_values().update(split_position(before.spec_keys(), at), v),
    ensures
        split_result(before, after, at, v),
{
    let pos = split_position(before.spec_keys(), at);
    assert forall|i: int| 0 <= i < after.spec_keys().len() && i != pos implies #[trigger] after.spec_values()[i]
        == mid.spec_values()[i] by {}
    assert forall|i: int| 0 <= i < pos implies #[trigger] after.spec_keys()[i] == before.spec_keys()[i]
        && after.spec_values()[i] == before.spec_values()[i] by {
        assert(mid.spec_keys()[i] == before.spec_keys()[i]);
    }
    let shift: int = if after.spec_keys().len() == before.spec_keys().len() { 0 } else { 1 };
    assert forall|i: int| pos < i < after.spec_keys().len() implies #[trigger] after.spec_keys()[i]
        == before.spec_keys()[i - shift] && after.spec_values()[i] == before.spec_values()[i
        - shift] by {
        assert(mid.spec_keys()[i] == before.spec_keys()[i - shift]);
    }
}

/// Where a split at `at` puts its split point: on the existing key equal to
/// `at`, or just after the last key before it.
pub open spec fn split_position<K: PartKey>(keys: Seq<K>, at: int) -> int {
    let f = floor_index(keys, at);
    if f >= 0 && keys[f].key_int() == at {
        f
    } else {
        f + 1
    }
}

} // verus!
