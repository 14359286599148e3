//! Affine maps, each stored together with its inverse.
use vstd::prelude::*;
use crate::geometry::{Point, Vector};
use crate::matrix::Matrix;
use crate::scalar::{Scalar, ONE_BITS};

verus! {

/// An affine map `m` and the map `minv` that undoes it. The two are only ever
/// built and replaced as a pair.
#[derive(Clone, Copy, Debug, PartialEq)]
pub struct Transform {
    pub m: Matrix,
    pub minv: Matrix,
}

/// One elementary map, named by its parameters. A list of them stands for
/// their product, the first factor first: the last map of the list is the
/// first to act on a point.
#[derive(Clone, Copy, Debug, PartialEq)]
pub enum Placement {
    /// A shift by `(x, y, z)`.
    Translation(Scalar, Scalar, Scalar),
    /// A stretch by the factors `(x, y, z)` along the axes.
    Scaling(Scalar, Scalar, Scalar),
    /// A turn about the X axis, by an angle in radians.
    RotationX(Scalar),
    /// A turn about the Y axis.
    RotationY(Scalar),
    /// A turn about the Z axis.
    RotationZ(Scalar),
    /// A shear, each coordinate in proportion to the two others: `xy`, `xz`,
    /// `yx`, `yz`, `zx`, `zy`.
    Shearing(Scalar, Scalar, Scalar, Scalar, Scalar, Scalar),
    /// The map that moves the eye at `from`, looking at `to` with `up` above,
    /// to the origin, looking along -Z.
    View(Point, Point, Vector),
}

/// Whether `m` is the identity with `(x, y, z)` in its last column.
pub open spec fn is_translation_matrix(m: Matrix, x: Scalar, y: Scalar, z: Scalar) -> bool {
    forall|i: int, j: int|
        0 <= i < 4 && 0 <= j < 4 ==> (#[trigger] m.at(i, j)) == if i == j {
            Scalar { bits: ONE_BITS }
        } else if j == 3 && i == 0 {
            x
        } else if j == 3 && i == 1 {
            y
        } else if j == 3 && i == 2 {
            z
        } else {
            Scalar { bits: 0 }
        }
}

/// Whether `m` has `(x, y, z, 1)` on its diagonal and zeros elsewhere.
pub open spec fn is_scaling_matrix(m: Matrix, x: Scalar, y: Scalar, z: Scalar) -> bool {
    forall|i: int, j: int|
        0 <= i < 4 && 0 <= j < 4 ==> (#[trigger] m.at(i, j)) == if i != j {
            Scalar { bits: 0 }
        } else if i == 0 {
            x
        } else if i == 1 {
            y
        } else if i == 2 {
            z
        } else {
            Scalar { bits: ONE_BITS }
        }
}

/// Whether `m` turns space about the X axis by the angle of cosine `cos` and
/// sine `sin`.
pub open spec fn is_rotation_x_matrix(m: Matrix, cos: Scalar, sin: Scalar) -> bool {
    forall|i: int, j: int|
        0 <= i < 4 && 0 <= j < 4 ==> (#[trigger] m.at(i, j)) == if (i == 1 && j == 1) || (i == 2
            && j == 2) {
            cos
        } else if i == 1 && j == 2 {
            sin.neg_spec()
        } else if i == 2 && j == 1 {
            sin
        } else if i == j {
            Scalar { bits: ONE_BITS }
        } else {
            Scalar { bits: 0 }
        }
}

/// Whether `m` turns space about the Y axis by the angle of cosine `cos` and
/// sine `sin`.
pub open spec fn is_rotation_y_matrix(m: Matrix, cos: Scalar, sin: Scalar) -> bool {
    forall|i: int, j: int|
        0 <= i < 4 && 0 <= j < 4 ==> (#[trigger] m.at(i, j)) == if (i == 0 && j == 0) || (i == 2
            && j == 2) {
            cos
        } else if i == 0 && j == 2 {
            sin
        } else if i == 2 && j == 0 {
            sin.neg_spec()
        } else if i == j {
            Scalar { bits: ONE_BITS }
        } else {
            Scalar { bits: 0 }
        }
}

/// Whether `m` turns space about the Z axis by the angle of cosine `cos` and
/// sine `sin`.
pub open spec fn is_rotation_z_matrix(m: Matrix, cos: Scalar, sin: Scalar) -> bool {
    forall|i: int, j: int|
        0 <= i < 4 && 0 <= j < 4 ==> (#[trigger] m.at(i, j)) == if (i == 0 && j == 0) || (i == 1
            && j == 1) {
            cos
        } else if i == 0 && j == 1 {
            sin.neg_spec()
        } else if i == 1 && j == 0 {
            sin
        } else if i == j {
            Scalar { bits: ONE_BITS }
        } else {
            Scalar { bits: 0 }
        }
}

/// Whether `m` shears space: each coordinate grows in proportion to the two
/// others, X by `xy` and `xz`, Y by `yx` and `yz`, Z by `zx` and `zy`.
pub open spec fn is_shearing_matrix(
    m: Matrix,
    xy: Scalar,
    xz: Scalar,
    yx: Scalar,
    yz: Scalar,
    zx: Scalar,
    zy: Scalar,
) -> bool {
    forall|i: int, j: int|
        0 <= i < 4 && 0 <= j < 4 ==> (#[trigger] m.at(i, j)) == if i == j {
            Scalar { bits: ONE_BITS }
        } else if i == 0 && j == 1 {
            xy
        } else if i == 0 && j == 2 {
            xz
        } else if i == 1 && j == 0 {
            yx
        } else if i == 1 && j == 2 {
            yz
        } else if i == 2 && j == 0 {
            zx
        } else if i == 2 && j == 1 {
            zy
        } else {
            Scalar { bits: 0 }
        }
}

/// Whether the rows of `m` are `left`, `up` and the opposite of `forward`, each
/// with weight zero, over the row of the identity.
pub open spec fn is_orientation_matrix(m: Matrix, left: Vector, up: Vector, forward: Vector) -> bool {
    forall|i: int, j: int|
        0 <= i < 4 && 0 <= j < 4 ==> (#[trigger] m.at(i, j)) == if i == 3 && j == 3 {
            Scalar { bits: ONE_BITS }
        } else if i == 3 || j == 3 {
            Scalar { bits: 0 }
        } else {
            let row = if i == 0 {
                left
            } else if i == 1 {
                up
            } else {
                forward.neg_spec()
            };
            if j == 0 {
                row.0
            } else if j == 1 {
                row.1
            } else {
                row.2
            }
        }
}

impl Default for Transform {
    /// The map that moves nothing.
    fn default() -> (t: Transform)
        ensures
            t.m.is_identity(),
            t.minv.is_identity(),
    {
        Transform { m: Matrix::id(), minv: Matrix::id() }
    }
}

impl Transform {
    /// The map that moves every point by `(x, y, z)`; its inverse moves by the
    /// negated offsets, which are exact.
    pub fn translation(x: Scalar, y: Scalar, z: Scalar) -> (t: Transform)
        ensures
            is_translation_matrix(t.m, x, y, z),
            is_translation_matrix(t.minv, x.neg_spec(), y.neg_spec(), z.neg_spec()),
    {
        let o: Scalar = Scalar::zero();
        let l: Scalar = Scalar::one();
        Transform {
            m: Matrix([[l, o, o, x], [o, l, o, y], [o, o, l, z], [o, o, o, l]]),
            minv: Matrix(
                [[l, o, o, x.neg()], [o, l, o, y.neg()], [o, o, l, z.neg()], [o, o, o, l]],
            ),
        }
    }

    /// The map that stretches space by `(x, y, z)` along the axes. The caller
    /// hands in the reciprocals `(rx, ry, rz)` of the factors, by which the
    /// inverse shrinks.
    pub fn scaling(x: Scalar, y: Scalar, z: Scalar, rx: Scalar, ry: Scalar, rz: Scalar) -> (t:
        Transform)
        ensures
            is_scaling_matrix(t.m, x, y, z),
            is_scaling_matrix(t.minv, rx, ry, rz),
    {
        let o: Scalar = Scalar::zero();
        let l: Scalar = Scalar::one();
        Transform {
            m: Matrix([[x, o, o, o], [o, y, o, o], [o, o, z, o], [o, o, o, l]]),
            minv: Matrix([[rx, o, o, o], [o, ry, o, o], [o, o, rz, o], [o, o, o, l]]),
        }
    }

    /// The turn about the X axis by the angle whose cosine and sine the caller
    /// hands in. The inverse turns by the opposite angle: its sine is negated.
    pub fn rotation_x(cos: Scalar, sin: Scalar) -> (t: Transform)
        ensures
            is_rotation_x_matrix(t.m, cos, sin),
            is_rotation_x_matrix(t.minv, cos, sin.neg_spec()),
    {
        let o: Scalar = Scalar::zero();
        let l: Scalar = Scalar::one();
        let n: Scalar = sin.neg();
        Transform {
            m: Matrix([[l, o, o, o], [o, cos, n, o], [o, sin, cos, o], [o, o, o, l]]),
            minv: Matrix([[l, o, o, o], [o, cos, sin, o], [o, n, cos, o], [o, o, o, l]]),
        }
    }

    /// The turn about the Y axis by the angle whose cosine and sine the caller
    /// hands in.
    pub fn rotation_y(cos: Scalar, sin: Scalar) -> (t: Transform)
        ensures
            is_rotation_y_matrix(t.m, cos, sin),
            is_rotation_y_matrix(t.minv, cos, sin.neg_spec()),
    {
        let o: Scalar = Scalar::zero();
        let l: Scalar = Scalar::one();
        let n: Scalar = sin.neg();
        Transform {
            m: Matrix([[cos, o, sin, o], [o, l, o, o], [n, o, cos, o], [o, o, o, l]]),
            minv: Matrix([[cos, o, n, o], [o, l, o, o], [sin, o, cos, o], [o, o, o, l]]),
        }
    }

    /// The turn about the Z axis by the angle whose cosine and sine the caller
    /// hands in.
    pub fn rotation_z(cos: Scalar, sin: Scalar) -> (t: Transform)
        ensures
            is_rotation_z_matrix(t.m, cos, sin),
            is_rotation_z_matrix(t.minv, cos, sin.neg_spec()),
    {
        let o: Scalar = Scalar::zero();
        let l: Scalar = Scalar::one();
        let n: Scalar = sin.neg();
        Transform {
            m: Matrix([[cos, n, o, o], [sin, cos, o, o], [o, o, l, o], [o, o, o, l]]),
            minv: Matrix([[cos, sin, o, o], [n, cos, o, o], [o, o, l, o], [o, o, o, l]]),
        }
    }

    /// The shear with the given proportions. There is no short form of its
    /// inverse: the caller inverts `shearing_matrix` and hands the result in.
    pub fn shearing(
        xy: Scalar,
        xz: Scalar,
        yx: Scalar,
        yz: Scalar,
        zx: Scalar,
        zy: Scalar,
        minv: Matrix,
    ) -> (t: Transform)
        ensures
            is_shearing_matrix(t.m, xy, xz, yx, yz, zx, zy),
            t.minv == minv,
    {
        Transform { m: Transform::shearing_matrix(xy, xz, yx, yz, zx, zy), minv }
    }

    /// The matrix of the shear with the given proportions.
    pub fn shearing_matrix(
        xy: Scalar,
        xz: Scalar,
        yx: Scalar,
        yz: Scalar,
        zx: Scalar,
        zy: Scalar,
    ) -> (m: Matrix)
        ensures
            is_shearing_matrix(m, xy, xz, yx, yz, zx, zy),
    {
        let o: Scalar = Scalar::zero();
        let l: Scalar = Scalar::one();
        Matrix([[l, xy, xz, o], [yx, l, yz, o], [zx, zy, l, o], [o, o, o, l]])
    }

    /// The matrix that turns the world so that `left`, `up` and `forward`
    /// become the axes of the eye: X, Y and -Z.
    pub fn orientation_matrix(left: Vector, up: Vector, forward: Vector) -> (m: Matrix)
        ensures
            is_orientation_matrix(m, left, up, forward),
    {
        let o: Scalar = Scalar::zero();
        let l: Scalar = Scalar::one();
        let back = forward.neg();
        Matrix(
            [
                [left.0, left.1, left.2, o],
                [up.0, up.1, up.2, o],
                [back.0, back.1, back.2, o],
                [o, o, o, l],
            ],
        )
    }

    /// The two factors of the map that moves the eye at `from` to the origin
    /// and lets it look along -Z: first the turn given by `left`, `up` and
    /// `forward`, with its inverse as the caller has worked it out from
    /// `orientation_matrix`; then the shift by the opposite of `from`, which
    /// acts first.
    pub fn view_transform(from: Point, left: Vector, up: Vector, forward: Vector, minv: Matrix) -> (f:
        (Transform, Transform))
        ensures
            is_orientation_matrix(f.0.m, left, up, forward),
            f.0.minv == minv,
            is_translation_matrix(f.1.m, from.0.neg_spec(), from.1.neg_spec(), from.2.neg_spec()),
            is_translation_matrix(f.1.minv, from.0, from.1, from.2),
    {
        (
            Transform { m: Transform::orientation_matrix(left, up, forward), minv },
            Transform::translation(from.0.neg(), from.1.neg(), from.2.neg()),
        )
    }

    /// The matrix products that make up `self * rhs`, each as its left and its
    /// right factor: the forward matrices in the order of the maps, the inverse
    /// matrices in the opposite order.
    pub open spec fn factors_spec(self, rhs: Transform) -> ((Matrix, Matrix), (Matrix, Matrix)) {
        ((self.m, rhs.m), (rhs.minv, self.minv))
    }

    /// The inverse map: the two matrices change places.
    pub open spec fn inverse_spec(self) -> Transform {
        Transform { m: self.minv, minv: self.m }
    }

    /// The two matrix products that the caller has to take for `self * rhs`:
    /// first the forward one, then the inverse one.
    pub fn factors(self, rhs: Transform) -> (f: ((Matrix, Matrix), (Matrix, Matrix)))
        ensures
            f == self.factors_spec(rhs),
    {
        ((self.m, rhs.m), (rhs.minv, self.minv))
    }

    /// The inverse map, at no cost.
    pub fn inverse(self) -> (t: Transform)
        ensures
            t == self.inverse_spec(),
    {
        Transform { m: self.minv, minv: self.m }
    }
}

/// The inverse of a product is the product of the inverses in the opposite
/// order: multiplying `b` inverted by `a` inverted takes the same matrix
/// products as multiplying `a` by `b`, the forward and the inverse one having
/// changed places. And inverting twice gives the transform back.
pub proof fn lemma_inverse_of_product(a: Transform, b: Transform)
    ensures
        b.inverse_spec().factors_spec(a.inverse_spec()) == (
            a.factors_spec(b).1,
            a.factors_spec(b).0,
        ),
        a.inverse_spec().inverse_spec() == a,
{
}

} // verus!
