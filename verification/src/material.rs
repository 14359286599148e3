//! Surface properties.
use vstd::prelude::*;
use crate::canvas::Color;
use crate::geometry::Point;
use crate::pattern::{Measures, Pattern};
use crate::scalar::{Scalar, NINE_TENTHS_BITS, ONE_BITS, ONE_TENTH_BITS, TWO_HUNDRED_BITS};

verus! {

/// How a surface answers to light.
#[derive(Clone, Copy, Debug, PartialEq)]
pub struct Material {
    pub color: Color,
    pub ambient: Scalar,
    pub diffuse: Scalar,
    pub specular: Scalar,
    pub shininess: Scalar,
    pub reflective: Scalar,
    pub transparency: Scalar,
    pub refractive_index: Scalar,
    pub pattern: Option<Pattern>,
}

/// The three parts of the light that a surface sends to the eye, as the caller
/// has worked them out, and the two cosines that decide which of them count.
#[derive(Clone, Copy, Debug, PartialEq)]
pub struct Phong {
    /// The surface colour under the light, times the ambient share.
    pub ambient: Color,
    /// The surface colour under the light, times the diffuse share and the
    /// cosine between light and normal.
    pub diffuse: Color,
    /// The light, times the specular share and the cosine between the mirrored
    /// light and the eye, raised to the shininess.
    pub specular: Color,
    /// The cosine of the angle between the direction to the light and the
    /// normal.
    pub light_dot_normal: Scalar,
    /// The cosine of the angle between the mirrored light and the direction to
    /// the eye.
    pub reflect_dot_eye: Scalar,
}

/// The parts of the light that do reach the eye. Their sum is the colour of the
/// surface.
#[derive(Clone, Copy, Debug, PartialEq)]
pub struct Lit {
    pub ambient: Color,
    pub diffuse: Color,
    pub specular: Color,
}

impl Material {
    /// The colour of the surface before light falls on it.
    pub open spec fn surface_color_spec(self, p: Point, measures: Measures) -> Color {
        match self.pattern {
            Some(pattern) => pattern.pattern_at_spec(p, measures),
            None => self.color,
        }
    }

    /// The colour of the surface at `p`, a point in the space of the pattern:
    /// that of the pattern if there is one, the flat colour otherwise.
    pub fn surface_color(&self, p: Point, measures: &Measures) -> (c: Color)
        ensures
            c == self.surface_color_spec(p, *measures),
    {
        match self.pattern {
            Some(pattern) => pattern.pattern_at(p, measures),
            None => self.color,
        }
    }

    /// Which parts of the light count. The ambient part always does. In shadow,
    /// or with the light behind the surface, nothing else does. Otherwise the
    /// diffuse part counts, and the specular part too unless the mirrored light
    /// points away from the eye.
    pub open spec fn lighting_spec(phong: Phong, in_shadow: bool) -> Lit {
        let black = Color::of_bits(0, 0, 0);
        if phong.light_dot_normal.lt_spec(Scalar { bits: 0 }) || in_shadow {
            Lit { ambient: phong.ambient, diffuse: black, specular: black }
        } else if phong.reflect_dot_eye.le_spec(Scalar { bits: 0 }) {
            Lit { ambient: phong.ambient, diffuse: phong.diffuse, specular: black }
        } else {
            Lit { ambient: phong.ambient, diffuse: phong.diffuse, specular: phong.specular }
        }
    }

    /// Chooses the parts of the light that count.
    pub fn lighting(phong: &Phong, in_shadow: bool) -> (lit: Lit)
        ensures
            lit == Material::lighting_spec(*phong, in_shadow),
    {
        let zero = Scalar::zero();
        if phong.light_dot_normal.lt(zero) || in_shadow {
            Lit { ambient: phong.ambient, diffuse: Color::black(), specular: Color::black() }
        } else if phong.reflect_dot_eye.le(zero) {
            Lit { ambient: phong.ambient, diffuse: phong.diffuse, specular: Color::black() }
        } else {
            Lit { ambient: phong.ambient, diffuse: phong.diffuse, specular: phong.specular }
        }
    }

    /// The material every object starts with: white, ambient 0.1, diffuse and
    /// specular 0.9, shininess 200, neither reflective nor transparent,
    /// refractive index 1, no pattern.
    pub open spec fn baseline() -> Material {
        Material {
            color: Color::of_bits(ONE_BITS, ONE_BITS, ONE_BITS),
            ambient: Scalar { bits: ONE_TENTH_BITS },
            diffuse: Scalar { bits: NINE_TENTHS_BITS },
            specular: Scalar { bits: NINE_TENTHS_BITS },
            shininess: Scalar { bits: TWO_HUNDRED_BITS },
            reflective: Scalar { bits: 0 },
            transparency: Scalar { bits: 0 },
            refractive_index: Scalar { bits: ONE_BITS },
            pattern: None,
        }
    }

    /// Sets the flat colour, and gives back a copy of the changed material.
    pub fn set_color(&mut self, c: Color) -> (r: Material)
        ensures
            *final(self) == (Material { color: c, ..*old(self) }),
            r == *final(self),
    {
        self.color = c;
        *self
    }

    /// Sets the ambient share, and gives back a copy of the changed material.
    pub fn set_ambient(&mut self, a: Scalar) -> (r: Material)
        ensures
            *final(self) == (Material { ambient: a, ..*old(self) }),
            r == *final(self),
    {
        self.ambient = a;
        *self
    }

    /// Sets the diffuse share, and gives back a copy of the changed material.
    pub fn set_diffuse(&mut self, d: Scalar) -> (r: Material)
        ensures
            *final(self) == (Material { diffuse: d, ..*old(self) }),
            r == *final(self),
    {
        self.diffuse = d;
        *self
    }

    /// Sets the specular share, and gives back a copy of the changed material.
    pub fn set_specular(&mut self, s: Scalar) -> (r: Material)
        ensures
            *final(self) == (Material { specular: s, ..*old(self) }),
            r == *final(self),
    {
        self.specular = s;
        *self
    }

    /// Sets the shininess, and gives back a copy of the changed material.
    pub fn set_shininess(&mut self, s: Scalar) -> (r: Material)
        ensures
            *final(self) == (Material { shininess: s, ..*old(self) }),
            r == *final(self),
    {
        self.shininess = s;
        *self
    }

    /// Sets the share of mirrored light, and gives back a copy of the changed
    /// material.
    pub fn set_reflective(&mut self, r: Scalar) -> (m: Material)
        ensures
            *final(self) == (Material { reflective: r, ..*old(self) }),
            m == *final(self),
    {
        self.reflective = r;
        *self
    }

    /// Sets the share of light let through, and gives back a copy of the
    /// changed material.
    pub fn set_transparency(&mut self, t: Scalar) -> (r: Material)
        ensures
            *final(self) == (Material { transparency: t, ..*old(self) }),
            r == *final(self),
    {
        self.transparency = t;
        *self
    }

    /// Sets the refractive index, and gives back a copy of the changed
    /// material.
    pub fn set_refractive_index(&mut self, ri: Scalar) -> (r: Material)
        ensures
            *final(self) == (Material { refractive_index: ri, ..*old(self) }),
            r == *final(self),
    {
        self.refractive_index = ri;
        *self
    }

    /// Lays a pattern over the flat colour, and gives back a copy of the
    /// changed material.
    pub fn set_pattern(&mut self, p: Pattern) -> (r: Material)
        ensures
            *final(self) == (Material { pattern: Some(p), ..*old(self) }),
            r == *final(self),
    {
        self.pattern = Some(p);
        *self
    }
}

impl Default for Material {
    fn default() -> (m: Material)
        ensures
            m == Material::baseline(),
    {
        Material {
            color: Color::white(),
            ambient: Scalar { bits: ONE_TENTH_BITS },
            diffuse: Scalar { bits: NINE_TENTHS_BITS },
            specular: Scalar { bits: NINE_TENTHS_BITS },
            shininess: Scalar { bits: TWO_HUNDRED_BITS },
            reflective: Scalar::zero(),
            transparency: Scalar::zero(),
            refractive_index: Scalar::one(),
            pattern: None,
        }
    }
}

} // verus!
