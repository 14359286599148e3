//! Hits of a ray on the objects of a scene: how they are ordered, which of them
//! is the visible one, and which media meet at it.
use vstd::prelude::*;
use vstd::std_specs::cmp::PartialEqSpecImpl;
use crate::geometry::{Point, Vector};
use crate::object::Object;
use crate::ray::Ray;
use crate::scalar::{Scalar, ONE_BITS};

verus! {

/// A ray meets `object` at parameter `t`.
#[derive(Clone, Copy, Debug)]
pub struct Intersection<'a> {
    pub t: Scalar,
    pub object: &'a Object,
}

impl<'a> PartialEq for Intersection<'a> {
    /// Two intersections are equal when their parameters are, whatever was hit.
    fn eq(&self, other: &Self) -> (r: bool) {
        self.t.same(other.t)
    }
}

impl<'a> PartialEqSpecImpl for Intersection<'a> {
    open spec fn obeys_eq_spec() -> bool {
        true
    }

    open spec fn eq_spec(&self, other: &Self) -> bool {
        self.t.same_spec(other.t)
    }
}

impl<'a> Intersection<'a> {
    /// The key by which intersections are ordered.
    pub open spec fn key(self) -> int {
        self.t.sort_key()
    }

    /// Whether the hit lies on the ray itself: `t >= 0`, which no NaN meets.
    pub open spec fn ahead(self) -> bool {
        !self.t.nan() && self.t.rank() >= 0
    }
}

/// Whether the keys of `s` never decrease.
pub open spec fn in_order(s: Seq<Intersection>) -> bool {
    forall|i: int, j: int| 0 <= i <= j < s.len() ==> s[i].key() <= s[j].key()
}

/// The index just behind the last element of `s` whose key is at most `key`;
/// 0 when there is none.
pub open spec fn upper_bound(s: Seq<Intersection>, key: int) -> int
    decreases s.len(),
{
    if s.len() == 0 {
        0
    } else if s.last().key() <= key {
        s.len() as int
    } else {
        upper_bound(s.drop_last(), key)
    }
}

/// `s` with `x` put behind the last element that does not sort after it.
pub open spec fn insert_sorted<'a>(s: Seq<Intersection<'a>>, x: Intersection<'a>) -> Seq<
    Intersection<'a>,
> {
    s.insert(upper_bound(s, x.key()), x)
}

/// The elements of `s` by ascending key, elements of equal key in the order in
/// which they stand in `s`.
pub open spec fn stable_sort<'a>(s: Seq<Intersection<'a>>) -> Seq<Intersection<'a>>
    decreases s.len(),
{
    if s.len() == 0 {
        s
    } else {
        insert_sorted(stable_sort(s.drop_last()), s.last())
    }
}

/// Where `upper_bound` lands: everything from there on sorts after `key`, and
/// what stands just before does not.
pub proof fn lemma_upper_bound(s: Seq<Intersection>, key: int)
    ensures
        0 <= upper_bound(s, key) <= s.len(),
        upper_bound(s, key) > 0 ==> s[upper_bound(s, key) - 1].key() <= key,
        forall|j: int| upper_bound(s, key) <= j < s.len() ==> s[j].key() > key,
    decreases s.len(),
{
    if s.len() > 0 && s.last().key() > key {
        let front = s.drop_last();
        lemma_upper_bound(front, key);
        assert forall|j: int| upper_bound(s, key) <= j < s.len() implies s[j].key() > key by {
            if j < front.len() {
                assert(s[j] == front[j]);
            }
        }
        if upper_bound(s, key) > 0 {
            assert(s[upper_bound(s, key) - 1] == front[upper_bound(front, key) - 1]);
        }
    }
}

/// Inserting into an ordered sequence leaves it ordered.
pub proof fn lemma_insert_sorted_in_order<'a>(s: Seq<Intersection<'a>>, x: Intersection<'a>)
    requires
        in_order(s),
    ensures
        in_order(insert_sorted(s, x)),
        insert_sorted(s, x).len() == s.len() + 1,
{
    let k = upper_bound(s, x.key());
    lemma_upper_bound(s, x.key());
    let r = insert_sorted(s, x);
    assert forall|i: int, j: int| 0 <= i <= j < r.len() implies r[i].key() <= r[j].key() by {
        if i < k {
            assert(r[i] == s[i]);
            assert(s[i].key() <= s[k - 1].key());
        } else if i > k {
            assert(r[i] == s[i - 1]);
        }
        if j < k {
            assert(r[j] == s[j]);
        } else if j > k {
            assert(r[j] == s[j - 1]);
        }
    }
}

/// Sorting gives an ordered sequence of the same length.
pub proof fn lemma_stable_sort_in_order(s: Seq<Intersection>)
    ensures
        in_order(stable_sort(s)),
        stable_sort(s).len() == s.len(),
    decreases s.len(),
{
    if s.len() > 0 {
        lemma_stable_sort_in_order(s.drop_last());
        lemma_insert_sorted_in_order(stable_sort(s.drop_last()), s.last());
    }
}

/// Sorting only rearranges: every intersection occurs as often after as before.
pub proof fn lemma_stable_sort_permutes(s: Seq<Intersection>)
    ensures
        stable_sort(s).to_multiset() == s.to_multiset(),
    decreases s.len(),
{
    if s.len() > 0 {
        let front = s.drop_last();
        lemma_stable_sort_permutes(front);
        let sorted_front = stable_sort(front);
        lemma_upper_bound(sorted_front, s.last().key());
        vstd::seq_lib::to_multiset_insert(
            sorted_front,
            upper_bound(sorted_front, s.last().key()),
            s.last(),
        );
        vstd::seq_lib::to_multiset_build(front, s.last());
        assert(front.push(s.last()) =~= s);
    }
}

/// An ordered sequence is its own sorting: nothing moves, ties included.
pub proof fn lemma_stable_sort_fixes_ordered(s: Seq<Intersection>)
    requires
        in_order(s),
    ensures
        stable_sort(s) == s,
    decreases s.len(),
{
    if s.len() > 0 {
        let front = s.drop_last();
        assert(in_order(front)) by {
            assert forall|i: int, j: int| 0 <= i <= j < front.len() implies front[i].key()
                <= front[j].key() by {
                assert(front[i] == s[i] && front[j] == s[j]);
            }
        }
        lemma_stable_sort_fixes_ordered(front);
        lemma_upper_bound(front, s.last().key());
        if front.len() > 0 {
            assert(front.last() == s[s.len() - 2]);
            assert(front.last().key() <= s.last().key());
        }
        assert(upper_bound(front, s.last().key()) == front.len());
        assert(front.insert(front.len() as int, s.last()) =~= s);
    }
}

/// The hits of `s` whose key is `k`, in the order in which they stand in `s`.
pub open spec fn with_key<'a>(s: Seq<Intersection<'a>>, k: int) -> Seq<Intersection<'a>>
    decreases s.len(),
{
    if s.len() == 0 {
        s
    } else if s.last().key() == k {
        with_key(s.drop_last(), k).push(s.last())
    } else {
        with_key(s.drop_last(), k)
    }
}

proof fn lemma_with_key_of_concat(a: Seq<Intersection>, b: Seq<Intersection>, k: int)
    ensures
        with_key(a + b, k) == with_key(a, k) + with_key(b, k),
    decreases b.len(),
{
    if b.len() == 0 {
        assert(a + b =~= a);
        assert(with_key(a, k) + with_key(b, k) =~= with_key(a, k));
    } else {
        lemma_with_key_of_concat(a, b.drop_last(), k);
        assert((a + b).drop_last() =~= a + b.drop_last());
        assert((a + b).last() == b.last());
        if b.last().key() == k {
            assert((with_key(a, k) + with_key(b.drop_last(), k)).push(b.last()) =~= with_key(a, k)
                + with_key(b.drop_last(), k).push(b.last()));
        }
    }
}

proof fn lemma_with_key_of_others(s: Seq<Intersection>, k: int)
    requires
        forall|i: int| 0 <= i < s.len() ==> s[i].key() != k,
    ensures
        with_key(s, k).len() == 0,
    decreases s.len(),
{
    if s.len() > 0 {
        let front = s.drop_last();
        assert forall|i: int| 0 <= i < front.len() implies front[i].key() != k by {
            assert(front[i] == s[i]);
        }
        lemma_with_key_of_others(front, k);
    }
}

/// Sorting is stable: the hits of any one key leave the sorting in the order in
/// which they entered it.
pub proof fn lemma_stable_sort_keeps_ties(s: Seq<Intersection>, k: int)
    ensures
        with_key(stable_sort(s), k) == with_key(s, k),
    decreases s.len(),
{
    if s.len() > 0 {
        let front = s.drop_last();
        let x = s.last();
        let sorted = stable_sort(front);
        lemma_stable_sort_keeps_ties(front, k);
        lemma_stable_sort_in_order(front);
        let at = upper_bound(sorted, x.key());
        lemma_upper_bound(sorted, x.key());
        let head = sorted.subrange(0, at);
        let tail = sorted.subrange(at, sorted.len() as int);
        let one = seq![x];
        assert(sorted =~= head + tail);
        assert(sorted.insert(at, x) =~= (head + one) + tail);
        lemma_with_key_of_concat(head, tail, k);
        lemma_with_key_of_concat(head + one, tail, k);
        lemma_with_key_of_concat(head, one, k);
        assert(one.drop_last().len() == 0);
        assert(with_key(one.drop_last(), k).len() == 0);
        if x.key() == k {
            assert forall|i: int| 0 <= i < tail.len() implies tail[i].key() != k by {
                assert(tail[i] == sorted[at + i]);
            }
            lemma_with_key_of_others(tail, k);
            assert(with_key(one, k) =~= one);
            assert(with_key(head, k) + one + with_key(tail, k) =~= (with_key(head, k) + with_key(
                tail,
                k,
            )).push(x));
        } else {
            assert(with_key(one, k).len() == 0);
            assert(with_key(head, k) + with_key(one, k) + with_key(tail, k) =~= with_key(head, k)
                + with_key(tail, k));
        }
    }
}

/// The index of the first hit of `s` that lies ahead on the ray, or the length
/// of `s` when there is none.
pub open spec fn first_ahead(s: Seq<Intersection>) -> int
    decreases s.len(),
{
    if s.len() == 0 {
        0
    } else if s[0].ahead() {
        0
    } else {
        1 + first_ahead(s.drop_first())
    }
}

/// What `first_ahead` finds: the hit there lies ahead, and none before it does.
pub proof fn lemma_first_ahead(s: Seq<Intersection>)
    ensures
        0 <= first_ahead(s) <= s.len(),
        first_ahead(s) < s.len() ==> s[first_ahead(s)].ahead(),
        forall|j: int| 0 <= j < first_ahead(s) ==> !s[j].ahead(),
    decreases s.len(),
{
    if s.len() > 0 && !s[0].ahead() {
        let rest = s.drop_first();
        lemma_first_ahead(rest);
        assert forall|j: int| 0 <= j < first_ahead(s) implies !s[j].ahead() by {
            if j > 0 {
                assert(s[j] == rest[j - 1]);
            }
        }
        if first_ahead(s) < s.len() {
            assert(s[first_ahead(s)] == rest[first_ahead(rest)]);
        }
    }
}

/// In an ordered list the first hit ahead is the nearest one ahead.
pub proof fn lemma_first_ahead_is_nearest(s: Seq<Intersection>, j: int)
    requires
        in_order(s),
        0 <= j < s.len(),
        s[j].ahead(),
    ensures
        first_ahead(s) <= j,
        s[first_ahead(s)].ahead(),
        s[first_ahead(s)].t.rank() <= s[j].t.rank(),
{
    lemma_first_ahead(s);
}

/// One half of the law below: what is ahead in one list is matched in a list
/// with the same hits.
proof fn lemma_nearest_carries_over(x: Seq<Intersection>, y: Seq<Intersection>)
    requires
        in_order(x),
        in_order(y),
        x.to_multiset() == y.to_multiset(),
        first_ahead(x) < x.len(),
    ensures
        first_ahead(y) < y.len(),
        y[first_ahead(y)].t.rank() <= x[first_ahead(x)].t.rank(),
{
    lemma_first_ahead(x);
    let e = x[first_ahead(x)];
    assert(x.contains(e));
    vstd::seq_lib::to_multiset_contains(x, e);
    vstd::seq_lib::to_multiset_contains(y, e);
    let j = choose|j: int| 0 <= j < y.len() && y[j] == e;
    lemma_first_ahead_is_nearest(y, j);
}

/// The visible hit does not depend on the order in which the hits were added:
/// two lists that hold the same hits, however arranged, either both show
/// nothing once they are sorted, or show hits at the same distance.
pub proof fn lemma_hit_ignores_insertion_order(a: Seq<Intersection>, b: Seq<Intersection>)
    requires
        a.to_multiset() == b.to_multiset(),
    ensures
        ({
            let x = stable_sort(a);
            let y = stable_sort(b);
            &&& first_ahead(x) == x.len() <==> first_ahead(y) == y.len()
            &&& first_ahead(x) < x.len() ==> x[first_ahead(x)].t.rank() == y[first_ahead(
                y,
            )].t.rank()
        }),
{
    let x = stable_sort(a);
    let y = stable_sort(b);
    lemma_stable_sort_in_order(a);
    lemma_stable_sort_in_order(b);
    lemma_stable_sort_permutes(a);
    lemma_stable_sort_permutes(b);
    lemma_first_ahead(x);
    lemma_first_ahead(y);
    if first_ahead(x) < x.len() {
        lemma_nearest_carries_over(x, y);
        lemma_nearest_carries_over(y, x);
    }
    if first_ahead(y) < y.len() {
        lemma_nearest_carries_over(y, x);
    }
}

/// Whether no two hits of `s` have the same key.
pub open spec fn distinct_keys(s: Seq<Intersection>) -> bool {
    forall|i: int, j: int| 0 <= i < s.len() && 0 <= j < s.len() && i != j ==> s[i].key() != s[j].key()
}

/// A rearrangement of hits with distinct keys has distinct keys.
proof fn lemma_distinct_keys_carry_over(a: Seq<Intersection>, x: Seq<Intersection>)
    requires
        a.to_multiset() == x.to_multiset(),
        distinct_keys(a),
    ensures
        distinct_keys(x),
{
    assert(a.no_duplicates());
    a.lemma_multiset_has_no_duplicates();
    x.lemma_multiset_has_no_duplicates_conv();
    assert forall|i: int, j: int| 0 <= i < x.len() && 0 <= j < x.len() && i != j implies x[i].key()
        != x[j].key() by {
        assert(x[i] != x[j]);
        assert(x.contains(x[i]));
        assert(x.contains(x[j]));
        vstd::seq_lib::to_multiset_contains(x, x[i]);
        vstd::seq_lib::to_multiset_contains(x, x[j]);
        vstd::seq_lib::to_multiset_contains(a, x[i]);
        vstd::seq_lib::to_multiset_contains(a, x[j]);
        let p = choose|p: int| 0 <= p < a.len() && a[p] == x[i];
        let q = choose|q: int| 0 <= q < a.len() && a[q] == x[j];
        assert(p != q);
    }
}

/// Hits with distinct keys can be put in order in one way only.
proof fn lemma_one_order(x: Seq<Intersection>, y: Seq<Intersection>)
    requires
        in_order(x),
        in_order(y),
        x.to_multiset() == y.to_multiset(),
        distinct_keys(x),
    ensures
        x == y,
    decreases x.len(),
{
    vstd::seq_lib::to_multiset_len(x);
    vstd::seq_lib::to_multiset_len(y);
    if x.len() == 0 {
        assert(x =~= y);
    } else {
        assert(x.contains(x[0]));
        assert(y.contains(y[0]));
        vstd::seq_lib::to_multiset_contains(x, x[0]);
        vstd::seq_lib::to_multiset_contains(y, x[0]);
        vstd::seq_lib::to_multiset_contains(y, y[0]);
        vstd::seq_lib::to_multiset_contains(x, y[0]);
        let j = choose|j: int| 0 <= j < y.len() && y[j] == x[0];
        let i = choose|i: int| 0 <= i < x.len() && x[i] == y[0];
        assert(x[0].key() <= x[i].key());
        assert(y[0].key() <= y[j].key());
        assert(i == 0);
        let xr = x.remove(0);
        let yr = y.remove(0);
        vstd::seq_lib::to_multiset_remove(x, 0);
        vstd::seq_lib::to_multiset_remove(y, 0);
        assert forall|a: int, b: int| 0 <= a <= b < xr.len() implies xr[a].key() <= xr[b].key() by {
            assert(xr[a] == x[a + 1] && xr[b] == x[b + 1]);
        }
        assert forall|a: int, b: int| 0 <= a <= b < yr.len() implies yr[a].key() <= yr[b].key() by {
            assert(yr[a] == y[a + 1] && yr[b] == y[b + 1]);
        }
        assert forall|a: int, b: int|
            0 <= a < xr.len() && 0 <= b < xr.len() && a != b implies xr[a].key() != xr[b].key() by {
            assert(xr[a] == x[a + 1] && xr[b] == x[b + 1]);
        }
        lemma_one_order(xr, yr);
        assert(x =~= seq![x[0]] + xr);
        assert(y =~= seq![y[0]] + yr);
    }
}

/// Where no two hits are at the same distance, the order of insertion leaves
/// no trace at all: two lists that hold the same hits, however arranged, are
/// the same list once they are sorted. The visible hit is then the same in
/// both, with its index, its distance and its object.
pub proof fn lemma_distinct_hits_sort_one_way(a: Seq<Intersection>, b: Seq<Intersection>)
    requires
        a.to_multiset() == b.to_multiset(),
        distinct_keys(a),
    ensures
        stable_sort(a) == stable_sort(b),
        first_ahead(stable_sort(a)) == first_ahead(stable_sort(b)),
{
    lemma_stable_sort_in_order(a);
    lemma_stable_sort_in_order(b);
    lemma_stable_sort_permutes(a);
    lemma_stable_sort_permutes(b);
    lemma_distinct_keys_carry_over(a, stable_sort(a));
    lemma_one_order(stable_sort(a), stable_sort(b));
}

/// The hits of one ray. The renderer keeps them ordered by `t`; the list is
/// open, so functions that depend on the order say so.
pub struct Intersections<'a>(pub Vec<Intersection<'a>>);

/// Sorts `v` by key, keeping hits of equal key in their order.
fn sort_hits<'a>(v: &mut Vec<Intersection<'a>>)
    ensures
        final(v)@ == stable_sort(old(v)@),
{
    let ghost orig = v@;
    let n: usize = v.len();
    let mut i: usize = 0;
    assert(orig.subrange(0, 0) =~= Seq::empty());
    while i < n
        invariant
            i <= n,
            n == orig.len(),
            v@.len() == n,
            v@.subrange(0, i as int) == stable_sort(orig.subrange(0, i as int)),
            v@.subrange(i as int, n as int) == orig.subrange(i as int, n as int),
        decreases n - i,
    {
        let x: Intersection<'a> = v[i];
        let ghost done = v@.subrange(0, i as int);
        let ghost rest = v@.subrange(i as int + 1, n as int);
        let ghost whole = v@;
        assert(x == orig[i as int]) by {
            assert(v@.subrange(i as int, n as int)[0] == orig.subrange(i as int, n as int)[0]);
        }
        let mut j: usize = i;
        let mut scanning: bool = true;
        assert(done.subrange(0, i as int) =~= done);
        while scanning && j > 0
            invariant
                j <= i,
                i < n,
                v@ == whole,
                v@.len() == n,
                done == v@.subrange(0, i as int),
                upper_bound(done, x.key()) == upper_bound(done.subrange(0, j as int), x.key()),
                !scanning ==> j > 0 && done[j - 1].key() <= x.key(),
            decreases j + if scanning { 1nat } else { 0nat },
        {
            assert(done[j - 1] == v@[j - 1]);
            if x.t.sorts_before(v[j - 1].t) {
                assert(done.subrange(0, j as int).drop_last() =~= done.subrange(0, j - 1));
                j -= 1;
            } else {
                scanning = false;
            }
        }
        proof {
            if j > 0 {
                assert(done.subrange(0, j as int).last() == done[j - 1]);
            }
            assert(upper_bound(done, x.key()) == j);
        }
        if j < i {
            v.remove(i);
            v.insert(j, x);
        }
        proof {
            let next = orig.subrange(0, i + 1);
            assert(next.drop_last() =~= orig.subrange(0, i as int));
            assert(next.last() == x);
            assert(stable_sort(next) == done.insert(j as int, x));
            assert(v@.subrange(0, i + 1) =~= done.insert(j as int, x));
            assert(v@.subrange(i + 1, n as int) =~= rest);
            assert(rest =~= orig.subrange(i + 1, n as int)) by {
                assert forall|k: int| 0 <= k < rest.len() implies rest[k] == orig[i + 1 + k] by {
                    assert(whole.subrange(i as int, n as int)[k + 1] == orig.subrange(
                        i as int,
                        n as int,
                    )[k + 1]);
                }
            }
        }
        i += 1;
    }
    assert(v@.subrange(0, n as int) =~= v@);
    assert(orig.subrange(0, n as int) =~= orig);
}

impl<'a> Intersections<'a> {
    /// Adds one hit and puts the whole list in order.
    pub fn push(&mut self, element: Intersection<'a>)
        ensures
            final(self).0@ == stable_sort(old(self).0@.push(element)),
            in_order(old(self).0@) ==> final(self).0@ == insert_sorted(old(self).0@, element),
    {
        proof {
            let joined = self.0@.push(element);
            assert(joined.drop_last() =~= self.0@);
            if in_order(self.0@) {
                lemma_stable_sort_fixes_ordered(self.0@);
            }
        }
        self.0.push(element);
        sort_hits(&mut self.0);
    }

    /// Moves every hit of `elements` into this list, and puts the whole list in
    /// order. `elements` is left empty.
    pub fn append(&mut self, elements: &mut Intersections<'a>)
        ensures
            final(self).0@ == stable_sort(old(self).0@ + old(elements).0@),
            final(elements).0@ == Seq::<Intersection<'a>>::empty(),
    {
        self.0.append(&mut elements.0);
        sort_hits(&mut self.0);
    }

    /// The first hit of the list that lies ahead on the ray, with its index. In
    /// an ordered list that is the nearest such hit.
    pub fn hit(&self) -> (r: Option<(usize, &Intersection<'a>)>)
        ensures
            r is None <==> first_ahead(self.0@) == self.0@.len(),
            r is None <==> forall|j: int| 0 <= j < self.0@.len() ==> !self.0@[j].ahead(),
            r matches Some((index, found)) ==> {
                &&& index == first_ahead(self.0@)
                &&& index < self.0@.len()
                &&& *found == self.0@[index as int]
                &&& found.ahead()
                &&& forall|j: int| 0 <= j < index ==> !self.0@[j].ahead()
                &&& in_order(self.0@) ==> forall|j: int|
                    0 <= j < self.0@.len() && self.0@[j].ahead() ==> found.t.rank()
                        <= self.0@[j].t.rank()
            },
    {
        proof {
            lemma_first_ahead(self.0@);
        }
        let n: usize = self.0.len();
        let mut i: usize = 0;
        while i < n
            invariant
                i <= n,
                n == self.0@.len(),
                forall|j: int| 0 <= j < i ==> !self.0@[j].ahead(),
                0 <= first_ahead(self.0@) <= n,
                first_ahead(self.0@) < n ==> self.0@[first_ahead(self.0@)].ahead(),
                forall|j: int| 0 <= j < first_ahead(self.0@) ==> !self.0@[j].ahead(),
            decreases n - i,
        {
            if Scalar::zero().le(self.0[i].t) {
                return Some((i, &self.0[i]));
            }
            i += 1;
        }
        None
    }
}

/// The index of the first entry of `stack` that belongs to the object `id`, or
/// the length of `stack` when the object is not on it.
pub open spec fn position_of(stack: Seq<(u128, Scalar)>, id: u128) -> int
    decreases stack.len(),
{
    if stack.len() == 0 {
        0
    } else if stack[0].0 == id {
        0
    } else {
        1 + position_of(stack.drop_first(), id)
    }
}

/// The containment stack after the ray has passed the hit `x`: an object that
/// was on the stack has been left and is taken off, any other has been entered
/// and is put on top with its refractive index.
pub open spec fn toggled(stack: Seq<(u128, Scalar)>, x: Intersection) -> Seq<(u128, Scalar)> {
    let at = position_of(stack, x.object.uuid);
    if at < stack.len() {
        stack.remove(at)
    } else {
        stack.push((x.object.uuid, x.object.material.refractive_index))
    }
}

/// The containment stack after the first `n` hits of `xs`.
pub open spec fn containers_after(xs: Seq<Intersection>, n: int) -> Seq<(u128, Scalar)>
    decreases n,
{
    if n <= 0 {
        Seq::empty()
    } else {
        toggled(containers_after(xs, n - 1), xs[n - 1])
    }
}

/// The refractive index of the innermost medium on the stack; 1 in empty space.
pub open spec fn innermost_index(stack: Seq<(u128, Scalar)>) -> Scalar {
    if stack.len() == 0 {
        Scalar { bits: ONE_BITS }
    } else {
        stack.last().1
    }
}

/// The refractive indices on the two sides of hit number `hit_index` of `xs`:
/// first that of the medium the ray leaves, then that of the medium it enters.
/// Both are 1 when the list has no such hit.
pub open spec fn refractive_indices_spec(xs: Seq<Intersection>, hit_index: int) -> (Scalar, Scalar) {
    if 0 <= hit_index < xs.len() {
        (
            innermost_index(containers_after(xs, hit_index)),
            innermost_index(containers_after(xs, hit_index + 1)),
        )
    } else {
        (Scalar { bits: ONE_BITS }, Scalar { bits: ONE_BITS })
    }
}

/// Whether no object stands on the stack twice.
pub open spec fn each_once(stack: Seq<(u128, Scalar)>) -> bool {
    forall|i: int, j: int| 0 <= i < j < stack.len() ==> stack[i].0 != stack[j].0
}

/// The containment stack never holds an object twice, and never more objects
/// than hits were passed.
pub proof fn lemma_containers_hold_each_object_once(xs: Seq<Intersection>, n: int)
    ensures
        each_once(containers_after(xs, n)),
        containers_after(xs, n).len() <= if n < 0 {
            0
        } else {
            n
        },
    decreases n,
{
    if n > 0 {
        lemma_containers_hold_each_object_once(xs, n - 1);
        let before = containers_after(xs, n - 1);
        let id = xs[n - 1].object.uuid;
        let at = position_of(before, id);
        lemma_position_of(before, id);
        let after = toggled(before, xs[n - 1]);
        if at < before.len() {
            assert forall|i: int, j: int| 0 <= i < j < after.len() implies after[i].0
                != after[j].0 by {
                let a = if i < at {
                    i
                } else {
                    i + 1
                };
                let b = if j < at {
                    j
                } else {
                    j + 1
                };
                assert(after[i] == before[a] && after[j] == before[b]);
            }
        }
    }
}

proof fn lemma_position_of(stack: Seq<(u128, Scalar)>, id: u128)
    ensures
        0 <= position_of(stack, id) <= stack.len(),
        position_of(stack, id) < stack.len() ==> stack[position_of(stack, id)].0 == id,
        forall|j: int| 0 <= j < position_of(stack, id) ==> stack[j].0 != id,
    decreases stack.len(),
{
    if stack.len() > 0 && stack[0].0 != id {
        let rest = stack.drop_first();
        lemma_position_of(rest, id);
        assert forall|j: int| 0 <= j < position_of(stack, id) implies stack[j].0 != id by {
            if j > 0 {
                assert(stack[j] == rest[j - 1]);
            }
        }
        if position_of(stack, id) < stack.len() {
            assert(stack[position_of(stack, id)] == rest[position_of(rest, id)]);
        }
    }
}

/// An index with the right object and none before it is the position.
proof fn lemma_position_found(stack: Seq<(u128, Scalar)>, id: u128, k: int)
    requires
        0 <= k <= stack.len(),
        k < stack.len() ==> stack[k].0 == id,
        forall|j: int| 0 <= j < k ==> stack[j].0 != id,
    ensures
        position_of(stack, id) == k,
{
    lemma_position_of(stack, id);
}

fn innermost(stack: &Vec<(u128, Scalar)>) -> (n: Scalar)
    ensures
        n == innermost_index(stack@),
{
    if stack.len() == 0 {
        Scalar::one()
    } else {
        stack[stack.len() - 1].1
    }
}

fn toggle(stack: &mut Vec<(u128, Scalar)>, x: &Intersection)
    ensures
        final(stack)@ == toggled(old(stack)@, *x),
{
    let id: u128 = x.object.uuid;
    let n: usize = stack.len();
    let mut k: usize = 0;
    let mut found: bool = false;
    while !found && k < n
        invariant
            k <= n,
            n == stack@.len(),
            stack@ == old(stack)@,
            forall|j: int| 0 <= j < k ==> stack@[j].0 != id,
            found ==> k < n && stack@[k as int].0 == id,
        decreases n - k + if found { 0nat } else { 1nat },
    {
        if stack[k].0 == id {
            found = true;
        } else {
            k += 1;
        }
    }
    proof {
        lemma_position_found(stack@, id, k as int);
    }
    if found {
        stack.remove(k);
    } else {
        stack.push((id, x.object.material.refractive_index));
    }
}

impl<'a> Intersections<'a> {
    /// The refractive indices `(n1, n2)` of the media that meet at hit number
    /// `hit_index`, found by walking the list from its start and keeping track
    /// of the objects the ray is inside of.
    pub fn refractive_indices(&self, hit_index: usize) -> (n: (Scalar, Scalar))
        ensures
            n == refractive_indices_spec(self.0@, hit_index as int),
    {
        if hit_index >= self.0.len() {
            return (Scalar::one(), Scalar::one());
        }
        let mut containers: Vec<(u128, Scalar)> = Vec::new();
        let mut idx: usize = 0;
        while idx < hit_index
            invariant
                idx <= hit_index,
                hit_index < self.0@.len(),
                containers@ == containers_after(self.0@, idx as int),
            decreases hit_index - idx,
        {
            toggle(&mut containers, &self.0[idx]);
            idx += 1;
        }
        let n1 = innermost(&containers);
        toggle(&mut containers, &self.0[hit_index]);
        let n2 = innermost(&containers);
        (n1, n2)
    }
}

/// The points and the mirrored direction that belong to one orientation `n` of
/// the surface normal at a hit.
#[derive(Clone, Copy, Debug, PartialEq)]
pub struct Offsets {
    /// The hit point moved a little along the normal: `point + n * epsilon`.
    /// Shadow rays and mirrored rays start here, just off the surface.
    pub over_point: Point,
    /// The hit point moved a little against the normal: `point - n * epsilon`.
    /// Refracted rays start here, just under the surface.
    pub under_point: Point,
    /// The direction `d` of the ray mirrored at the surface:
    /// `d - n * 2 * (d . n)`.
    pub reflectv: Vector,
}

/// What the caller has worked out at a hit, before it is known from which side
/// the ray meets the surface.
#[derive(Clone, Copy, Debug, PartialEq)]
pub struct Surface {
    /// Where the ray meets the object: `origin + direction * t`.
    pub point: Point,
    /// The outward normal of the object there, of length 1.
    pub normal: Vector,
    /// The dot product of `normal` and the direction towards the eye.
    pub facing: Scalar,
    /// The offsets taken with `normal`.
    pub front: Offsets,
    /// The offsets taken with the negated normal.
    pub back: Offsets,
}

/// Everything shading needs to know about one hit.
#[derive(Clone, Copy, Debug)]
pub struct Computations<'a> {
    pub t: Scalar,
    pub object: &'a Object,
    pub point: Point,
    pub eyev: Vector,
    pub normalv: Vector,
    pub reflectv: Vector,
    pub inside: bool,
    pub over_point: Point,
    pub under_point: Point,
    pub n1: Scalar,
    pub n2: Scalar,
}

impl<'a> Intersection<'a> {
    /// Puts together the shading data of this hit, which is hit number
    /// `hit_index` of `xs`. The eye vector is the negated ray direction. The hit
    /// is on the inside of the object when the normal points away from the eye;
    /// the normal is then turned round and the offsets of the back are taken.
    /// The refractive indices come from the containment stack of `xs`.
    pub fn prepare_computations(
        &self,
        r: Ray,
        hit_index: usize,
        xs: &Intersections,
        surface: &Surface,
    ) -> (c: Computations<'a>)
        ensures
            c.t == self.t,
            c.object == self.object,
            c.point == surface.point,
            c.eyev == r.direction.neg_spec(),
            c.inside == surface.facing.lt_spec(Scalar { bits: 0 }),
            c.normalv == if c.inside {
                surface.normal.neg_spec()
            } else {
                surface.normal
            },
            (Offsets {
                over_point: c.over_point,
                under_point: c.under_point,
                reflectv: c.reflectv,
            }) == if c.inside {
                surface.back
            } else {
                surface.front
            },
            (c.n1, c.n2) == refractive_indices_spec(xs.0@, hit_index as int),
    {
        let (n1, n2) = xs.refractive_indices(hit_index);
        let inside: bool = surface.facing.lt(Scalar::zero());
        let normalv = if inside {
            surface.normal.neg()
        } else {
            surface.normal
        };
        let offsets = if inside {
            surface.back
        } else {
            surface.front
        };
        Computations {
            t: self.t,
            object: self.object,
            point: surface.point,
            eyev: r.direction.neg(),
            normalv,
            reflectv: offsets.reflectv,
            inside,
            over_point: offsets.over_point,
            under_point: offsets.under_point,
            n1,
            n2,
        }
    }
}

} // verus!
