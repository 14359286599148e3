//! Rays.
use vstd::prelude::*;
use crate::geometry::{Point, Vector};

verus! {

/// A half-line: the points `origin + t * direction`.
#[derive(Clone, Copy, Debug, PartialEq)]
pub struct Ray {
    pub origin: Point,
    pub direction: Vector,
}

impl Ray {
    /// The ray from `origin` along `direction`.
    pub fn new(origin: Point, direction: Vector) -> (r: Ray)
        ensures
            r.origin == origin,
            r.direction == direction,
    {
        Ray { origin, direction }
    }
}

} // verus!
