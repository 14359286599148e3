//! Directions and locations in space. Their algebra (sums, products, lengths) is
//! numeric work that callers carry out; what is exact on the bits lives here.
use vstd::prelude::*;
use vstd::std_specs::cmp::PartialEqSpecImpl;
use crate::scalar::Scalar;

verus! {

/// A direction: three components, homogeneous weight zero. Two vectors are
/// `==` when their components are equal as numbers.
#[derive(Clone, Copy, Debug)]
pub struct Vector(pub Scalar, pub Scalar, pub Scalar);

/// A location: three coordinates, homogeneous weight one. Two points are `==`
/// when their coordinates are equal as numbers.
#[derive(Clone, Copy, Debug)]
pub struct Point(pub Scalar, pub Scalar, pub Scalar);

impl PartialEq for Vector {
    fn eq(&self, other: &Self) -> (r: bool) {
        self.0.same(other.0) && self.1.same(other.1) && self.2.same(other.2)
    }
}

impl PartialEqSpecImpl for Vector {
    open spec fn obeys_eq_spec() -> bool {
        true
    }

    open spec fn eq_spec(&self, other: &Self) -> bool {
        self.0.same_spec(other.0) && self.1.same_spec(other.1) && self.2.same_spec(other.2)
    }
}

impl PartialEq for Point {
    fn eq(&self, other: &Self) -> (r: bool) {
        self.0.same(other.0) && self.1.same(other.1) && self.2.same(other.2)
    }
}

impl PartialEqSpecImpl for Point {
    open spec fn obeys_eq_spec() -> bool {
        true
    }

    open spec fn eq_spec(&self, other: &Self) -> bool {
        self.0.same_spec(other.0) && self.1.same_spec(other.1) && self.2.same_spec(other.2)
    }
}

impl Vector {
    /// The vector with every component negated.
    pub open spec fn neg_spec(self) -> Vector {
        Vector(self.0.neg_spec(), self.1.neg_spec(), self.2.neg_spec())
    }

    /// The opposite direction. Negation only flips sign bits, so it is exact.
    pub fn neg(self) -> (r: Vector)
        ensures
            r == self.neg_spec(),
    {
        Vector(self.0.neg(), self.1.neg(), self.2.neg())
    }
}

} // verus!
