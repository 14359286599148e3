//! The order of intersections along a ray, as the comparison operators see it.
use vstd::prelude::*;
use core::cmp::Ordering;
use vstd::std_specs::cmp::PartialOrdSpecImpl;
use crate::intersection::Intersection;

verus! {

impl<'a> PartialOrd for Intersection<'a> {
    /// Compares by `t`, whatever was hit. An intersection without a number
    /// for `t` counts as greater than any other.
    fn partial_cmp(&self, other: &Self) -> (r: Option<Ordering>) {
        if self.t.is_nan() {
            Some(Ordering::Greater)
        } else if other.t.is_nan() {
            Some(Ordering::Less)
        } else if self.t.gt(other.t) {
            Some(Ordering::Greater)
        } else if self.t.lt(other.t) {
            Some(Ordering::Less)
        } else {
            Some(Ordering::Equal)
        }
    }
}

impl<'a> PartialOrdSpecImpl for Intersection<'a> {
    open spec fn obeys_partial_cmp_spec() -> bool {
        true
    }

    open spec fn partial_cmp_spec(&self, other: &Self) -> Option<Ordering> {
        if self.t.nan() {
            Some(Ordering::Greater)
        } else if other.t.nan() {
            Some(Ordering::Less)
        } else if self.t.rank() > other.t.rank() {
            Some(Ordering::Greater)
        } else if self.t.rank() < other.t.rank() {
            Some(Ordering::Less)
        } else {
            Some(Ordering::Equal)
        }
    }
}

/// `<` between intersections is the order by which lists of them are sorted.
pub proof fn lemma_less_is_sorts_before(a: Intersection, b: Intersection)
    ensures
        vstd::std_specs::cmp::PartialOrdSpec::partial_cmp_spec(&a, &b) == Some(Ordering::Less)
            <==> a.key() < b.key(),
{
}

} // verus!
