//! Light sources.
use vstd::prelude::*;
use crate::canvas::Color;
use crate::geometry::Point;

verus! {

/// A light without size, shining from `position` with `intensity`.
#[derive(Clone, Copy, Debug, PartialEq)]
pub struct PointLight {
    pub position: Point,
    pub intensity: Color,
}

} // verus!
