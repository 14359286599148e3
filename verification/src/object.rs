//! Scene primitives.
use vstd::prelude::*;
use crate::canvas::Color;
use crate::geometry::Vector;
use crate::intersection::{
    in_order, insert_sorted, lemma_stable_sort_fixes_ordered, lemma_stable_sort_in_order,
    lemma_stable_sort_permutes, stable_sort, upper_bound, Intersection, Intersections,
};
use crate::material::Material;
use crate::pattern::Pattern;
use crate::scalar::{Scalar, EPSILON_BITS, ONE_BITS, THREE_HALVES_BITS};
use crate::transform::Transform;

verus! {

/// The bits of a 128-bit identity that hold the UUID version and variant.
pub const UUID_KIND_MASK: u128 = 0x0000_0000_0000_F000_C000_0000_0000_0000;

/// Version 4, variant 1: the kind of a random UUID.
pub const UUID_RANDOM_KIND: u128 = 0x0000_0000_0000_4000_8000_0000_0000_0000;

/// The primitives the renderer knows, each in its own space: the unit sphere
/// about the origin, and the plane through the origin with normal +Y.
#[derive(Clone, Copy, Debug, PartialEq, Eq, Structural)]
pub enum Shape {
    Sphere,
    Plane,
}

/// One primitive of a scene. `uuid` tells instances apart: two objects with the
/// same shape, placement and material are still two objects, and a copy of an
/// object is the same object.
#[derive(Clone, Copy, Debug, PartialEq)]
pub struct Object {
    pub shape: Shape,
    pub transform: Transform,
    pub material: Material,
    pub uuid: u128,
}

/// Draws a fresh identity with `uuid::Uuid::new_v4` and unpacks it with
/// `Uuid::as_u128`. The value is random; all that is claimed of it is what the
/// crate fixes for every random UUID, the version and variant bits. The call
/// aborts when the operating system has no randomness to give.
#[verifier::external_body]
fn fresh_uuid() -> (id: u128)
    ensures
        id & UUID_KIND_MASK == UUID_RANDOM_KIND,
{
    uuid::Uuid::new_v4().as_u128()
}

impl Object {
    /// Whether this is an untouched primitive of the given shape: unmoved, with
    /// the baseline material.
    pub open spec fn is_plain(self, shape: Shape) -> bool {
        &&& self.shape == shape
        &&& self.transform.m.is_identity()
        &&& self.transform.minv.is_identity()
        &&& self.material == Material::baseline()
    }

    /// A new unit sphere. Its identity is drawn at random; the call aborts when
    /// the operating system has no randomness to give.
    pub fn sphere() -> (o: Object)
        ensures
            o.is_plain(Shape::Sphere),
            o.uuid & UUID_KIND_MASK == UUID_RANDOM_KIND,
    {
        Object {
            shape: Shape::Sphere,
            transform: Transform::default(),
            material: Material::default(),
            uuid: fresh_uuid(),
        }
    }

    /// A new plane. Its identity is drawn at random; the call aborts when the
    /// operating system has no randomness to give.
    pub fn plane() -> (o: Object)
        ensures
            o.is_plain(Shape::Plane),
            o.uuid & UUID_KIND_MASK == UUID_RANDOM_KIND,
    {
        Object {
            shape: Shape::Plane,
            transform: Transform::default(),
            material: Material::default(),
            uuid: fresh_uuid(),
        }
    }

    /// A new unit sphere of glass: fully transparent, refractive index 1.5. Its
    /// identity is drawn at random; the call aborts when the operating system
    /// has no randomness to give.
    pub fn glass_sphere() -> (o: Object)
        ensures
            o.shape == Shape::Sphere,
            o.transform.m.is_identity(),
            o.transform.minv.is_identity(),
            o.material == (Material {
                transparency: Scalar { bits: ONE_BITS },
                refractive_index: Scalar { bits: THREE_HALVES_BITS },
                ..Material::baseline()
            }),
            o.uuid & UUID_KIND_MASK == UUID_RANDOM_KIND,
    {
        let mut material = Material::default();
        material.transparency = Scalar::one();
        material.refractive_index = Scalar { bits: THREE_HALVES_BITS };
        Object {
            shape: Shape::Sphere,
            transform: Transform::default(),
            material,
            uuid: fresh_uuid(),
        }
    }

    /// Places the object, and gives back a copy of it: the same object, as
    /// its identity stays.
    pub fn set_transform(&mut self, t: Transform) -> (r: Object)
        ensures
            *final(self) == (Object { transform: t, ..*old(self) }),
            r == *final(self),
    {
        self.transform = t;
        *self
    }

    /// Replaces the material, and gives back a copy of the object.
    pub fn set_material(&mut self, m: Material) -> (r: Object)
        ensures
            *final(self) == (Object { material: m, ..*old(self) }),
            r == *final(self),
    {
        self.material = m;
        *self
    }

    /// Sets the flat colour of the material, and gives back a copy of the
    /// object.
    pub fn set_color(&mut self, c: Color) -> (r: Object)
        ensures
            *final(self) == (Object {
                material: Material { color: c, ..old(self).material },
                ..*old(self)
            }),
            r == *final(self),
    {
        self.material.color = c;
        *self
    }

    /// Sets the ambient share of the material, and gives back a copy of the
    /// object.
    pub fn set_ambient(&mut self, a: Scalar) -> (r: Object)
        ensures
            *final(self) == (Object {
                material: Material { ambient: a, ..old(self).material },
                ..*old(self)
            }),
            r == *final(self),
    {
        self.material.ambient = a;
        *self
    }

    /// Sets the diffuse share of the material, and gives back a copy of the
    /// object.
    pub fn set_diffuse(&mut self, d: Scalar) -> (r: Object)
        ensures
            *final(self) == (Object {
                material: Material { diffuse: d, ..old(self).material },
                ..*old(self)
            }),
            r == *final(self),
    {
        self.material.diffuse = d;
        *self
    }

    /// Sets the specular share of the material, and gives back a copy of the
    /// object.
    pub fn set_specular(&mut self, s: Scalar) -> (r: Object)
        ensures
            *final(self) == (Object {
                material: Material { specular: s, ..old(self).material },
                ..*old(self)
            }),
            r == *final(self),
    {
        self.material.specular = s;
        *self
    }

    /// Sets the shininess of the material, and gives back a copy of the
    /// object.
    pub fn set_shininess(&mut self, s: Scalar) -> (r: Object)
        ensures
            *final(self) == (Object {
                material: Material { shininess: s, ..old(self).material },
                ..*old(self)
            }),
            r == *final(self),
    {
        self.material.shininess = s;
        *self
    }

    /// Sets the share of light that the material mirrors, and gives back a
    /// copy of the object.
    pub fn set_reflective(&mut self, k: Scalar) -> (r: Object)
        ensures
            *final(self) == (Object {
                material: Material { reflective: k, ..old(self).material },
                ..*old(self)
            }),
            r == *final(self),
    {
        self.material.reflective = k;
        *self
    }

    /// Sets the share of light that the material lets through, and gives back
    /// a copy of the object.
    pub fn set_transparency(&mut self, t: Scalar) -> (r: Object)
        ensures
            *final(self) == (Object {
                material: Material { transparency: t, ..old(self).material },
                ..*old(self)
            }),
            r == *final(self),
    {
        self.material.transparency = t;
        *self
    }

    /// Sets the refractive index of the material, and gives back a copy of
    /// the object.
    pub fn set_refractive_index(&mut self, ri: Scalar) -> (r: Object)
        ensures
            *final(self) == (Object {
                material: Material { refractive_index: ri, ..old(self).material },
                ..*old(self)
            }),
            r == *final(self),
    {
        self.material.refractive_index = ri;
        *self
    }

    /// Lays a pattern over the material, and gives back a copy of the object.
    pub fn set_pattern(&mut self, p: Pattern) -> (r: Object)
        ensures
            *final(self) == (Object {
                material: Material { pattern: Some(p), ..old(self).material },
                ..*old(self)
            }),
            r == *final(self),
    {
        self.material.pattern = Some(p);
        *self
    }
}

/// What the caller has worked out about one ray in the space of one object:
/// the ray `o + t * d`, where `o` and `d` are the origin and the direction of
/// the ray in world space, mapped by the inverse transform of the object.
#[derive(Clone, Copy, Debug, PartialEq)]
pub struct Solved {
    /// For a sphere: the discriminant `b^2 - 4ac` of the quadratic in `t`,
    /// with `a = d . d`, `b = 2 * (d . o)` and `c = o . o - 1`.
    pub discriminant: Scalar,
    /// For a sphere: the root `(-b - sqrt(discriminant)) / 2a`.
    pub near: Scalar,
    /// For a sphere: the root `(-b + sqrt(discriminant)) / 2a`.
    pub far: Scalar,
    /// For a plane: the Y component of the ray's direction.
    pub slope: Scalar,
    /// For a plane: the parameter `-origin.y / direction.y` at which the ray
    /// crosses it.
    pub crossing: Scalar,
}

impl Object {
    /// The hits of a ray on this object. A sphere is missed when the
    /// discriminant is negative, and is otherwise hit twice, the hits in order.
    /// A plane is hit once, unless the ray runs along it: its slope is then
    /// smaller than the tolerance.
    pub open spec fn hits(&self, solved: Solved) -> Seq<Intersection> {
        match self.shape {
            Shape::Sphere => if solved.discriminant.lt_spec(Scalar { bits: 0 }) {
                Seq::empty()
            } else {
                stable_sort(
                    seq![
                        Intersection { t: solved.near, object: self },
                        Intersection { t: solved.far, object: self },
                    ],
                )
            },
            Shape::Plane => if (Scalar { bits: EPSILON_BITS }).le_spec(solved.slope.abs_spec()) {
                seq![Intersection { t: solved.crossing, object: self }]
            } else {
                Seq::empty()
            },
        }
    }

    /// The normal of the shape at a point of its surface, in the space of the
    /// object: on the sphere it points from the centre to the point, on the
    /// plane it is +Y everywhere.
    pub open spec fn local_normal_spec(&self, from_centre: Vector) -> Vector {
        match self.shape {
            Shape::Sphere => from_centre,
            Shape::Plane => Vector(Scalar { bits: 0 }, Scalar { bits: ONE_BITS }, Scalar { bits: 0 }),
        }
    }

    /// The normal of the shape in the space of the object. `from_centre` is the
    /// point, taken in that space, minus the origin.
    pub fn local_normal(&self, from_centre: Vector) -> (n: Vector)
        ensures
            n == self.local_normal_spec(from_centre),
    {
        match self.shape {
            Shape::Sphere => from_centre,
            Shape::Plane => Vector(Scalar::zero(), Scalar::one(), Scalar::zero()),
        }
    }

    /// Decides from the solved numbers where the ray hits this object.
    pub fn intersect<'a>(&'a self, solved: &Solved) -> (xs: Intersections<'a>)
        ensures
            xs.0@ == self.hits(*solved),
    {
        let mut xs: Intersections<'a> = Intersections(Vec::new());
        match self.shape {
            Shape::Sphere => {
                if !solved.discriminant.lt(Scalar::zero()) {
                    let near = Intersection { t: solved.near, object: self };
                    let far = Intersection { t: solved.far, object: self };
                    xs.push(near);
                    proof {
                        let one = Seq::<Intersection>::empty().push(near);
                        assert(one.len() == 1);
                        lemma_stable_sort_fixes_ordered(one);
                        assert(one.push(far) =~= seq![near, far]);
                    }
                    xs.push(far);
                }
            },
            Shape::Plane => {
                if Scalar::epsilon().le(solved.slope.abs()) {
                    let only = Intersection { t: solved.crossing, object: self };
                    xs.push(only);
                    proof {
                        let one = Seq::<Intersection>::empty().push(only);
                        assert(one.len() == 1);
                        lemma_stable_sort_fixes_ordered(one);
                        assert(one =~= seq![only]);
                    }
                }
            },
        }
        xs
    }
}

/// A sphere is hit twice or not at all. It is missed exactly when the
/// discriminant is negative. Otherwise its hits are the two roots, the smaller
/// first; a ray that touches the sphere, so that the roots are the same, hits
/// it twice at that root.
pub proof fn lemma_sphere_is_hit_twice_or_not_at_all(o: &Object, solved: Solved)
    requires
        o.shape == Shape::Sphere,
    ensures
        ({
            let xs = o.hits(solved);
            let near = Intersection { t: solved.near, object: o };
            let far = Intersection { t: solved.far, object: o };
            &&& xs.len() == 0 <==> solved.discriminant.lt_spec(Scalar { bits: 0 })
            &&& xs.len() == 0 || xs.len() == 2
            &&& xs.len() == 2 ==> {
                &&& in_order(xs)
                &&& xs.to_multiset() == seq![near, far].to_multiset()
                &&& near.key() <= far.key() ==> xs == seq![near, far]
                &&& near.key() > far.key() ==> xs == seq![far, near]
            }
        }),
{
    let near = Intersection { t: solved.near, object: o };
    let far = Intersection { t: solved.far, object: o };
    let pair = seq![near, far];
    lemma_stable_sort_in_order(pair);
    lemma_stable_sort_permutes(pair);
    let one = seq![near];
    assert(pair.drop_last() =~= one);
    assert(pair.last() == far);
    lemma_stable_sort_fixes_ordered(one);
    assert(stable_sort(pair) == insert_sorted(one, far));
    assert(one.last() == near);
    if near.key() <= far.key() {
        assert(upper_bound(one, far.key()) == 1);
        assert(one.insert(1, far) =~= pair);
    } else {
        assert(one.drop_last().len() == 0);
        assert(upper_bound(one.drop_last(), far.key()) == 0);
        assert(upper_bound(one, far.key()) == 0);
        assert(one.insert(0, far) =~= seq![far, near]);
    }
}

/// Where the two roots handed in for a sphere are opposite numbers, as those of
/// a ray from the centre are, the sphere is hit behind the origin of the ray
/// and ahead of it at the same distance, the hit behind first.
pub proof fn lemma_opposite_roots_give_opposite_hits(o: &Object, solved: Solved)
    requires
        o.shape == Shape::Sphere,
        !solved.discriminant.lt_spec(Scalar { bits: 0 }),
        !solved.near.nan(),
        solved.near.rank() <= 0,
        solved.far == solved.near.neg_spec(),
    ensures
        o.hits(solved) == seq![
            Intersection { t: solved.near, object: o },
            Intersection { t: solved.far, object: o },
        ],
        !o.hits(solved)[1].t.nan(),
        o.hits(solved)[0].t.rank() == -o.hits(solved)[1].t.rank(),
        o.hits(solved)[0].t.rank() <= 0 <= o.hits(solved)[1].t.rank(),
{
    lemma_sphere_is_hit_twice_or_not_at_all(o, solved);
}

/// Where the two roots handed in for a sphere are the same, as those of a ray
/// that touches it are, the sphere is still hit twice, both times at that
/// root.
pub proof fn lemma_equal_roots_give_two_hits(o: &Object, solved: Solved)
    requires
        o.shape == Shape::Sphere,
        !solved.discriminant.lt_spec(Scalar { bits: 0 }),
        solved.near == solved.far,
    ensures
        o.hits(solved).len() == 2,
        o.hits(solved)[0] == (Intersection { t: solved.near, object: o }),
        o.hits(solved)[1] == (Intersection { t: solved.near, object: o }),
{
    lemma_sphere_is_hit_twice_or_not_at_all(o, solved);
}

} // verus!
