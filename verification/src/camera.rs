//! The camera: the size of the picture and the window through which the scene
//! is seen.
use vstd::prelude::*;
use crate::scalar::{Scalar, ONE_BITS};
use crate::transform::Transform;

verus! {

/// A window one unit in front of the eye: half its width, half its height, and
/// the width of one pixel on it.
#[derive(Clone, Copy, Debug, PartialEq)]
pub struct Frame {
    pub half_width: Scalar,
    pub half_height: Scalar,
    pub pixel_size: Scalar,
}

/// What the caller has worked out from the size of the picture and the angle
/// of view.
#[derive(Clone, Copy, Debug, PartialEq)]
pub struct Lens {
    /// The width of the picture divided by its height.
    pub aspect: Scalar,
    /// The window of a picture that is at least as wide as high: the angle of
    /// view spans its width.
    pub wide: Frame,
    /// The window of a picture that is higher than wide: the angle of view
    /// spans its height.
    pub tall: Frame,
}

/// A camera: the picture it takes, its window, and the map from world space
/// to its own.
#[derive(Clone, Copy, Debug)]
pub struct Camera {
    pub hsize: usize,
    pub vsize: usize,
    pub field_of_view: Scalar,
    pub transform: Transform,
    pub pixel_size: Scalar,
    pub half_width: Scalar,
    pub half_height: Scalar,
}

impl Camera {
    /// A camera for a picture of `hsize` by `vsize` pixels. The window is the
    /// wide one when the aspect is 1 or more, the tall one otherwise. Without a
    /// transform the camera sits at the origin and looks along -Z.
    pub fn new(
        hsize: usize,
        vsize: usize,
        field_of_view: Scalar,
        t: Option<Transform>,
        lens: &Lens,
    ) -> (c: Camera)
        ensures
            c.hsize == hsize,
            c.vsize == vsize,
            c.field_of_view == field_of_view,
            (Frame {
                half_width: c.half_width,
                half_height: c.half_height,
                pixel_size: c.pixel_size,
            }) == if (Scalar { bits: ONE_BITS }).le_spec(lens.aspect) {
                lens.wide
            } else {
                lens.tall
            },
            match t {
                Some(given) => c.transform == given,
                None => c.transform.m.is_identity() && c.transform.minv.is_identity(),
            },
    {
        let frame = if lens.aspect.ge(Scalar::one()) {
            lens.wide
        } else {
            lens.tall
        };
        let transform = match t {
            Some(given) => given,
            None => Transform::default(),
        };
        Camera {
            hsize,
            vsize,
            field_of_view,
            transform,
            pixel_size: frame.pixel_size,
            half_width: frame.half_width,
            half_height: frame.half_height,
        }
    }
}

} // verus!
