//! Procedural colourings of a surface.
use vstd::prelude::*;
use crate::canvas::Color;
use crate::geometry::Point;
use crate::scalar::Scalar;
use crate::transform::Transform;

verus! {

/// The rule by which a pattern picks between its two colours.
#[derive(Clone, Copy, Debug, PartialEq)]
pub enum PatternType {
    Stripe(Color, Color),
    Gradient(Color, Color),
    Ring(Color, Color),
    Checkers(Color, Color),
}

/// A colouring rule together with the map from object space into the space
/// in which the rule is laid out.
#[derive(Clone, Copy, Debug, PartialEq)]
pub struct Pattern {
    pub pattern: PatternType,
    pub transform: Transform,
}

/// What the caller has worked out about a point in the space of a pattern.
#[derive(Clone, Copy, Debug, PartialEq)]
pub struct Measures {
    /// The distance of the point from the Y axis, `sqrt(x^2 + z^2)`.
    pub radius: Scalar,
    /// The sum of the floors of the three coordinates.
    pub level_sum: Scalar,
    /// For a gradient from `a` to `b`: the colour `a + (b - a) * (x - floor(x))`.
    pub blend: Color,
}

impl Pattern {
    /// The colour of the pattern at the point `p` of its own space. Stripes
    /// change colour at every integer X, rings at every integer distance from
    /// the Y axis, checkers whenever one coordinate passes an integer; the
    /// first colour is taken where the count is even. A gradient takes the
    /// blended colour as it is.
    pub open spec fn pattern_at_spec(self, p: Point, measures: Measures) -> Color {
        match self.pattern {
            PatternType::Stripe(a, b) => if p.0.floor_even_spec() {
                a
            } else {
                b
            },
            PatternType::Gradient(a, b) => measures.blend,
            PatternType::Ring(a, b) => if measures.radius.floor_even_spec() {
                a
            } else {
                b
            },
            PatternType::Checkers(a, b) => if measures.level_sum.floor_even_spec() {
                a
            } else {
                b
            },
        }
    }

    /// The colour of the pattern at `p`, a point of its own space.
    pub fn pattern_at(self, p: Point, measures: &Measures) -> (c: Color)
        ensures
            c == self.pattern_at_spec(p, *measures),
    {
        match self.pattern {
            PatternType::Stripe(a, b) => if p.0.floor_is_even() {
                a
            } else {
                b
            },
            PatternType::Gradient(_, _) => measures.blend,
            PatternType::Ring(a, b) => if measures.radius.floor_is_even() {
                a
            } else {
                b
            },
            PatternType::Checkers(a, b) => if measures.level_sum.floor_is_even() {
                a
            } else {
                b
            },
        }
    }

    /// Lays the pattern out by `t`, and gives back a copy of it.
    pub fn set_transform(&mut self, t: Transform) -> (r: Pattern)
        ensures
            final(self).transform == t,
            final(self).pattern == old(self).pattern,
            r == *final(self),
    {
        self.transform = t;
        *self
    }

    /// Stripes across X that take `a` and `b` in turn.
    pub fn stripe_pattern(a: Color, b: Color) -> (p: Pattern)
        ensures
            p.pattern == PatternType::Stripe(a, b),
            p.transform.m.is_identity(),
            p.transform.minv.is_identity(),
    {
        Pattern { pattern: PatternType::Stripe(a, b), transform: Transform::default() }
    }

    /// A fade from `a` to `b` over each unit of X.
    pub fn gradient_pattern(a: Color, b: Color) -> (p: Pattern)
        ensures
            p.pattern == PatternType::Gradient(a, b),
            p.transform.m.is_identity(),
            p.transform.minv.is_identity(),
    {
        Pattern { pattern: PatternType::Gradient(a, b), transform: Transform::default() }
    }

    /// Rings about the Y axis that take `a` and `b` in turn.
    pub fn ring_pattern(a: Color, b: Color) -> (p: Pattern)
        ensures
            p.pattern == PatternType::Ring(a, b),
            p.transform.m.is_identity(),
            p.transform.minv.is_identity(),
    {
        Pattern { pattern: PatternType::Ring(a, b), transform: Transform::default() }
    }

    /// Cubes of side 1 that take `a` and `b` in turn.
    pub fn checkers_pattern(a: Color, b: Color) -> (p: Pattern)
        ensures
            p.pattern == PatternType::Checkers(a, b),
            p.transform.m.is_identity(),
            p.transform.minv.is_identity(),
    {
        Pattern { pattern: PatternType::Checkers(a, b), transform: Transform::default() }
    }
}

/// A stripe pattern looks at X alone: two points with the same X have the same
/// colour, whatever their Y and Z and whatever else was measured.
pub proof fn lemma_stripe_constant_along_y_and_z(
    pattern: Pattern,
    p: Point,
    q: Point,
    at_p: Measures,
    at_q: Measures,
)
    requires
        pattern.pattern is Stripe,
        p.0 == q.0,
    ensures
        pattern.pattern_at_spec(p, at_p) == pattern.pattern_at_spec(q, at_q),
{
}

/// A stripe pattern changes colour exactly at the integers: two points whose
/// X have the same floor have the same colour, and where the floors are one
/// apart, one point has the first colour and the other the second.
pub proof fn lemma_stripe_alternates_along_x(
    pattern: Pattern,
    p: Point,
    q: Point,
    at_p: Measures,
    at_q: Measures,
)
    requires
        pattern.pattern is Stripe,
    ensures
        p.0.floor_to_int_spec() == q.0.floor_to_int_spec() ==> pattern.pattern_at_spec(p, at_p)
            == pattern.pattern_at_spec(q, at_q),
        p.0.floor_to_int_spec() + 1 == q.0.floor_to_int_spec() ==> (pattern.pattern_at_spec(p, at_p)
            == pattern.pattern->Stripe_0 && pattern.pattern_at_spec(q, at_q)
            == pattern.pattern->Stripe_1) || (pattern.pattern_at_spec(p, at_p)
            == pattern.pattern->Stripe_1 && pattern.pattern_at_spec(q, at_q)
            == pattern.pattern->Stripe_0),
{
}

} // verus!
