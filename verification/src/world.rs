//! The scene, and the decisions that shading takes on it.
use vstd::prelude::*;
use crate::canvas::Color;
use crate::geometry::{Point, Vector};
use crate::intersection::{
    first_ahead, in_order, lemma_stable_sort_in_order, stable_sort, Computations, Intersection,
    Intersections,
};
use crate::light::PointLight;
use crate::material::{Lit, Material, Phong};
use crate::object::{Object, Shape, Solved};
use crate::ray::Ray;
use crate::scalar::{
    Scalar, FOUR_FIFTHS_BITS, HALF_BITS, MINUS_TEN_BITS, ONE_BITS, ONE_FIFTH_BITS,
    SEVEN_TENTHS_BITS, TEN_BITS, THREE_FIFTHS_BITS, TWO_BITS,
};
use crate::transform::{is_scaling_matrix, Transform};

verus! {

/// The objects and lights of a scene.
pub struct World {
    pub objects: Vec<Object>,
    pub lights: Vec<PointLight>,
}

/// A secondary ray to follow, and how many further bounces it may take.
#[derive(Clone, Copy, Debug, PartialEq)]
pub struct Bounce {
    pub ray: Ray,
    pub remaining: usize,
}

/// What a ray meets in a scene: all its hits in order, and the index of the
/// one that shows, if any does.
pub struct Traced<'a> {
    pub xs: Intersections<'a>,
    pub hit: Option<usize>,
}

/// What the caller has worked out about one light as seen from a point: the
/// numbers of the ray from the point towards the light, the distance of the
/// light, and the parts of its light that the surface would send to the eye.
pub struct LightProbe {
    pub solved: Vec<Solved>,
    pub distance: Scalar,
    pub phong: Phong,
}

/// What shading a hit comes to, before anything is added up.
pub struct Shaded {
    /// For each light of the scene, the parts of its light that count.
    pub parts: Vec<Lit>,
    /// The mirrored ray to follow, if the surface mirrors: once for the hit.
    pub reflected: Option<Bounce>,
    /// The refracted ray to follow, if light passes the surface: once for the
    /// hit.
    pub refracted: Option<Bounce>,
}

/// The mirrored ray of a hit: none when the surface does not reflect or no
/// bounce is left, and otherwise the ray from just off the surface along the
/// mirrored direction, with one bounce less.
pub open spec fn reflected_bounce(comps: Computations, remaining: usize) -> Option<Bounce> {
    if comps.object.material.reflective.zero_spec() || remaining == 0 {
        None
    } else {
        Some(
            Bounce {
                ray: Ray { origin: comps.over_point, direction: comps.reflectv },
                remaining: (remaining - 1) as usize,
            },
        )
    }
}

/// The refracted ray of a hit: none when the surface is opaque, no bounce is
/// left, or the squared sine `sin2_t` of the angle of refraction is above 1, so
/// that all light is turned back inside; and otherwise the ray from just under
/// the surface along `direction`, with one bounce less.
pub open spec fn refracted_bounce(
    comps: Computations,
    remaining: usize,
    sin2_t: Scalar,
    direction: Vector,
) -> Option<Bounce> {
    if comps.object.material.transparency.zero_spec() || remaining == 0 || (Scalar {
        bits: ONE_BITS,
    }).lt_spec(sin2_t) {
        None
    } else {
        Some(
            Bounce {
                ray: Ray { origin: comps.under_point, direction },
                remaining: (remaining - 1) as usize,
            },
        )
    }
}

/// Whether the nearest hit ahead on the ray described by `solved` is nearer
/// than `distance`.
pub open spec fn shadowed(objects: Seq<Object>, solved: Seq<Solved>, distance: Scalar) -> bool {
    let xs = stable_sort(all_hits(objects, solved, objects.len() as int));
    first_ahead(xs) < xs.len() && xs[first_ahead(xs)].t.lt_spec(distance)
}

/// The hits of one ray on the first `n` objects, object after object, where
/// `solved[k]` holds the numbers for object `k`. An object without numbers
/// contributes nothing.
pub open spec fn all_hits<'a>(objects: Seq<Object>, solved: Seq<Solved>, n: int) -> Seq<
    Intersection<'a>,
>
    decreases n,
{
    if n <= 0 {
        Seq::empty()
    } else if n - 1 < solved.len() {
        all_hits(objects, solved, n - 1) + objects[n - 1].hits(solved[n - 1])
    } else {
        all_hits(objects, solved, n - 1)
    }
}

impl Default for World {
    /// The standard scene: a white light at (-10, 10, -10), a
    /// unit sphere of colour (0.8, 1.0, 0.6) with diffuse 0.7 and specular 0.2,
    /// and inside it a plain sphere of half the size. The identities of the two
    /// spheres are drawn at random; the call aborts when the operating system
    /// has no randomness to give.
    fn default() -> (w: World)
        ensures
            w.lights@ == seq![
                PointLight {
                    position: Point(
                        Scalar { bits: MINUS_TEN_BITS },
                        Scalar { bits: TEN_BITS },
                        Scalar { bits: MINUS_TEN_BITS },
                    ),
                    intensity: Color::of_bits(ONE_BITS, ONE_BITS, ONE_BITS),
                },
            ],
            w.objects@.len() == 2,
            w.objects@[0].shape == Shape::Sphere,
            w.objects@[0].transform.m.is_identity(),
            w.objects@[0].transform.minv.is_identity(),
            w.objects@[0].material == (Material {
                color: Color::of_bits(FOUR_FIFTHS_BITS, ONE_BITS, THREE_FIFTHS_BITS),
                diffuse: Scalar { bits: SEVEN_TENTHS_BITS },
                specular: Scalar { bits: ONE_FIFTH_BITS },
                ..Material::baseline()
            }),
            w.objects@[1].shape == Shape::Sphere,
            is_scaling_matrix(
                w.objects@[1].transform.m,
                Scalar { bits: HALF_BITS },
                Scalar { bits: HALF_BITS },
                Scalar { bits: HALF_BITS },
            ),
            is_scaling_matrix(
                w.objects@[1].transform.minv,
                Scalar { bits: TWO_BITS },
                Scalar { bits: TWO_BITS },
                Scalar { bits: TWO_BITS },
            ),
            w.objects@[1].material == Material::baseline(),
    {
        let light = PointLight {
            position: Point(
                Scalar { bits: MINUS_TEN_BITS },
                Scalar { bits: TEN_BITS },
                Scalar { bits: MINUS_TEN_BITS },
            ),
            intensity: Color::white(),
        };
        let mut outer = Object::sphere();
        outer.material.color = Color(
            Scalar { bits: FOUR_FIFTHS_BITS },
            Scalar::one(),
            Scalar { bits: THREE_FIFTHS_BITS },
        );
        outer.material.diffuse = Scalar { bits: SEVEN_TENTHS_BITS };
        outer.material.specular = Scalar { bits: ONE_FIFTH_BITS };
        let h: Scalar = Scalar { bits: HALF_BITS };
        let d: Scalar = Scalar { bits: TWO_BITS };
        let mut inner = Object::sphere();
        inner.transform = Transform::scaling(h, h, h, d, d, d);
        let mut lights: Vec<PointLight> = Vec::new();
        lights.push(light);
        let mut objects: Vec<Object> = Vec::new();
        objects.push(outer);
        objects.push(inner);
        World { objects, lights }
    }
}

impl World {
    /// A scene with nothing in it.
    pub fn empty() -> (w: World)
        ensures
            w.objects@.len() == 0,
            w.lights@.len() == 0,
    {
        World { objects: Vec::new(), lights: Vec::new() }
    }

    /// Adds an object to the scene.
    pub fn add_object(&mut self, o: Object)
        ensures
            final(self).objects@ == old(self).objects@.push(o),
            final(self).lights@ == old(self).lights@,
    {
        self.objects.push(o);
    }

    /// Adds a light to the scene.
    pub fn add_light(&mut self, l: PointLight)
        ensures
            final(self).lights@ == old(self).lights@.push(l),
            final(self).objects@ == old(self).objects@,
    {
        self.lights.push(l);
    }

    /// All hits of one ray on the scene, nearest first: the hits on each object
    /// are put one after the other, and the whole is sorted once.
    pub fn intersect<'a>(&'a self, solved: &Vec<Solved>) -> (xs: Intersections<'a>)
        ensures
            xs.0@ == stable_sort(all_hits(self.objects@, solved@, self.objects@.len() as int)),
            in_order(xs.0@),
    {
        let mut gathered: Vec<Intersection<'a>> = Vec::new();
        let n: usize = self.objects.len();
        let mut i: usize = 0;
        while i < n
            invariant
                i <= n,
                n == self.objects@.len(),
                gathered@ == all_hits(self.objects@, solved@, i as int),
            decreases n - i,
        {
            if i < solved.len() {
                let mut part = self.objects[i].intersect(&solved[i]);
                gathered.append(&mut part.0);
            }
            i += 1;
        }
        let mut xs: Intersections<'a> = Intersections(Vec::new());
        let mut all = Intersections(gathered);
        proof {
            assert(Seq::<Intersection>::empty() + all.0@ =~= all.0@);
            lemma_stable_sort_in_order(all.0@);
        }
        xs.append(&mut all);
        xs
    }

    /// What a ray shows: its hits on the scene in order, and among them the
    /// nearest that lies ahead. Where there is none, the ray shows nothing and
    /// its colour is black.
    pub fn color_at<'a>(&'a self, solved: &Vec<Solved>) -> (seen: Traced<'a>)
        ensures
            seen.xs.0@ == stable_sort(all_hits(self.objects@, solved@, self.objects@.len() as int)),
            seen.hit is None <==> first_ahead(seen.xs.0@) == seen.xs.0@.len(),
            seen.hit matches Some(index) ==> {
                &&& index == first_ahead(seen.xs.0@)
                &&& index < seen.xs.0@.len()
                &&& seen.xs.0@[index as int].ahead()
                &&& forall|j: int|
                    0 <= j < seen.xs.0@.len() && seen.xs.0@[j].ahead() ==> seen.xs.0@[index as int].t.rank()
                        <= seen.xs.0@[j].t.rank()
            },
    {
        let xs = self.intersect(solved);
        let hit = match xs.hit() {
            Some((index, _)) => Some(index),
            None => None,
        };
        Traced { xs, hit }
    }

    /// Whether something stands between a point and a light: `solved` holds
    /// the numbers of the ray from the point towards the light, `distance` how
    /// far away the light is. The point is in shadow when the nearest hit ahead
    /// is nearer than the light.
    pub fn is_shadowed(&self, solved: &Vec<Solved>, distance: Scalar) -> (dark: bool)
        ensures
            dark == shadowed(self.objects@, solved@, distance),
    {
        let xs = self.intersect(solved);
        match xs.hit() {
            Some((_, hit)) => hit.t.lt(distance),
            None => false,
        }
    }

    /// The three kinds of light that make up the colour of a hit. First the
    /// light of the lamps: for every light in turn, the point is tested for
    /// shadow, and the parts of the light that count are chosen; `probes[i]`
    /// belongs to light `i`, and lights without a probe are left out. Then the
    /// mirrored and the refracted light, as `reflected_color` and
    /// `refracted_color` decide them. These two belong to the hit, not to a
    /// light: each is there once, with no light in the scene as with many.
    /// The colour of the hit is the sum of all parts of all lights and of the
    /// colours of the two rays, each by its share.
    pub fn shade_hit(
        &self,
        comps: &Computations,
        remaining: usize,
        probes: &Vec<LightProbe>,
        sin2_t: Scalar,
        direction: Vector,
    ) -> (s: Shaded)
        ensures
            s.parts@.len() == if probes@.len() < self.lights@.len() {
                probes@.len()
            } else {
                self.lights@.len()
            },
            forall|i: int|
                0 <= i < s.parts@.len() ==> s.parts@[i] == Material::lighting_spec(
                    probes@[i].phong,
                    shadowed(self.objects@, probes@[i].solved@, probes@[i].distance),
                ),
            s.reflected == reflected_bounce(*comps, remaining),
            s.refracted == refracted_bounce(*comps, remaining, sin2_t, direction),
    {
        let mut parts: Vec<Lit> = Vec::new();
        let n: usize = if probes.len() < self.lights.len() {
            probes.len()
        } else {
            self.lights.len()
        };
        let mut i: usize = 0;
        while i < n
            invariant
                i <= n,
                n <= probes@.len(),
                parts@.len() == i,
                forall|k: int|
                    0 <= k < i ==> parts@[k] == Material::lighting_spec(
                        probes@[k].phong,
                        shadowed(self.objects@, probes@[k].solved@, probes@[k].distance),
                    ),
            decreases n - i,
        {
            let probe = &probes[i];
            let in_shadow = self.is_shadowed(&probe.solved, probe.distance);
            parts.push(Material::lighting(&probe.phong, in_shadow));
            i += 1;
        }
        let reflected = self.reflected_color(comps, remaining);
        let refracted = self.refracted_color(comps, remaining, sin2_t, direction);
        Shaded { parts, reflected, refracted }
    }

    /// The ray whose colour a mirror-like surface adds, or none when the surface
    /// does not reflect or no bounce is left: the contribution is then black,
    /// whatever the scene. The colour of the ray counts by the share
    /// `reflective`.
    pub fn reflected_color(&self, comps: &Computations, remaining: usize) -> (next: Option<Bounce>)
        ensures
            next == reflected_bounce(*comps, remaining),
            next is None <==> comps.object.material.reflective.zero_spec() || remaining == 0,
    {
        if comps.object.material.reflective.is_zero() || remaining == 0 {
            None
        } else {
            Some(
                Bounce {
                    ray: Ray { origin: comps.over_point, direction: comps.reflectv },
                    remaining: remaining - 1,
                },
            )
        }
    }

    /// The ray whose colour a transparent surface adds, or none when the
    /// contribution is black: the surface is opaque, no bounce is left, or the
    /// light is reflected back inside entirely. By Snell's law, with the ratio
    /// `r = n1 / n2` and the cosine `c = eyev . normalv`, `sin2_t` is the
    /// squared sine `r^2 * (1 - c^2)` of the angle of refraction, and
    /// `direction` is `normalv * (r * c - sqrt(1 - sin2_t)) - eyev * r`.
    pub fn refracted_color(
        &self,
        comps: &Computations,
        remaining: usize,
        sin2_t: Scalar,
        direction: Vector,
    ) -> (next: Option<Bounce>)
        ensures
            next == refracted_bounce(*comps, remaining, sin2_t, direction),
            next is None <==> comps.object.material.transparency.zero_spec() || remaining == 0 || (
            Scalar { bits: ONE_BITS }).lt_spec(sin2_t),
    {
        if comps.object.material.transparency.is_zero() || remaining == 0 {
            None
        } else if sin2_t.gt(Scalar::one()) {
            None
        } else {
            Some(
                Bounce {
                    ray: Ray { origin: comps.under_point, direction },
                    remaining: remaining - 1,
                },
            )
        }
    }
}

} // verus!
