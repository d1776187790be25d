//! The mathematics of plane transforms: 3x3 matrices over the reals.
use vstd::prelude::*;

verus! {

/// A point or direction in homogeneous coordinates.
pub struct Vec3 {
    pub x: real,
    pub y: real,
    pub z: real,
}

/// The mathematical 3x3 matrix, given by its three columns.
pub struct Mat3 {
    pub c0: Vec3,
    pub c1: Vec3,
    pub c2: Vec3,
}

impl Mat3 {
    /// The matrix that changes nothing.
    pub open spec fn identity() -> Mat3 {
        Mat3::scale_wh(1real, 1real)
    }

    /// The matrix that multiplies widths by `w` and heights by `h`.
    pub open spec fn scale_wh(w: real, h: real) -> Mat3 {
        Mat3 {
            c0: Vec3 { x: w, y: 0real, z: 0real },
            c1: Vec3 { x: 0real, y: h, z: 0real },
            c2: Vec3 { x: 0real, y: 0real, z: 1real },
        }
    }

    /// The matrix that moves every point by `(x, y)`.
    pub open spec fn translate(x: real, y: real) -> Mat3 {
        Mat3 {
            c0: Vec3 { x: 1real, y: 0real, z: 0real },
            c1: Vec3 { x: 0real, y: 1real, z: 0real },
            c2: Vec3 { x: x, y: y, z: 1real },
        }
    }

    /// The image of `v` under the matrix, before any perspective divide.
    pub open spec fn apply(self, v: Vec3) -> Vec3 {
        Vec3 {
            x: self.c0.x * v.x + self.c1.x * v.y + self.c2.x * v.z,
            y: self.c0.y * v.x + self.c1.y * v.y + self.c2.y * v.z,
            z: self.c0.z * v.x + self.c1.z * v.y + self.c2.z * v.z,
        }
    }

    /// The composition that applies `other` first and `self` second.
    pub open spec fn mul(self, other: Mat3) -> Mat3 {
        Mat3 { c0: self.apply(other.c0), c1: self.apply(other.c1), c2: self.apply(other.c2) }
    }
}

proof fn lemma_distribute(a: real, x: real, y: real, z: real)
    ensures
        a * (x + y + z) == a * x + a * y + a * z,
        (x + y + z) * a == x * a + y * a + z * a,
{
    assert(a * (x + y + z) == a * x + a * y + a * z) by (nonlinear_arith);
    assert((x + y + z) * a == x * a + y * a + z * a) by (nonlinear_arith);
}

proof fn lemma_associate(a: real, b: real, c: real)
    ensures
        (a * b) * c == a * (b * c),
{
    assert((a * b) * c == a * (b * c)) by (nonlinear_arith);
}

/// One row of the law below: `a0, a1, a2` are the entries of the row.
proof fn lemma_row(a0: real, a1: real, a2: real, b: Mat3, v: Vec3)
    ensures
        (a0 * b.c0.x + a1 * b.c0.y + a2 * b.c0.z) * v.x + (a0 * b.c1.x + a1 * b.c1.y + a2
            * b.c1.z) * v.y + (a0 * b.c2.x + a1 * b.c2.y + a2 * b.c2.z) * v.z == a0 * (b.c0.x
            * v.x + b.c1.x * v.y + b.c2.x * v.z) + a1 * (b.c0.y * v.x + b.c1.y * v.y + b.c2.y
            * v.z) + a2 * (b.c0.z * v.x + b.c1.z * v.y + b.c2.z * v.z),
{
    lemma_distribute(v.x, a0 * b.c0.x, a1 * b.c0.y, a2 * b.c0.z);
    lemma_distribute(v.y, a0 * b.c1.x, a1 * b.c1.y, a2 * b.c1.z);
    lemma_distribute(v.z, a0 * b.c2.x, a1 * b.c2.y, a2 * b.c2.z);
    lemma_associate(a0, b.c0.x, v.x);
    lemma_associate(a1, b.c0.y, v.x);
    lemma_associate(a2, b.c0.z, v.x);
    lemma_associate(a0, b.c1.x, v.y);
    lemma_associate(a1, b.c1.y, v.y);
    lemma_associate(a2, b.c1.z, v.y);
    lemma_associate(a0, b.c2.x, v.z);
    lemma_associate(a1, b.c2.y, v.z);
    lemma_associate(a2, b.c2.z, v.z);
    lemma_distribute(a0, b.c0.x * v.x, b.c1.x * v.y, b.c2.x * v.z);
    lemma_distribute(a1, b.c0.y * v.x, b.c1.y * v.y, b.c2.y * v.z);
    lemma_distribute(a2, b.c0.z * v.x, b.c1.z * v.y, b.c2.z * v.z);
}

/// Composition applies the right operand first: the image of a vector under
/// `a.mul(b)` is the image under `a` of its image under `b`.
pub proof fn lemma_mul_applies_right_first(a: Mat3, b: Mat3, v: Vec3)
    ensures
        a.mul(b).apply(v) == a.apply(b.apply(v)),
{
    lemma_row(a.c0.x, a.c1.x, a.c2.x, b, v);
    lemma_row(a.c0.y, a.c1.y, a.c2.y, b, v);
    lemma_row(a.c0.z, a.c1.z, a.c2.z, b, v);
}

/// Composition is associative.
pub proof fn lemma_mul_associative(a: Mat3, b: Mat3, c: Mat3)
    ensures
        a.mul(b).mul(c) == a.mul(b.mul(c)),
{
    lemma_mul_applies_right_first(a, b, c.c0);
    lemma_mul_applies_right_first(a, b, c.c1);
    lemma_mul_applies_right_first(a, b, c.c2);
}

/// The identity is neutral on both sides of a composition.
pub proof fn lemma_mul_identity(a: Mat3)
    ensures
        Mat3::identity().mul(a) == a,
        a.mul(Mat3::identity()) == a,
{
}

} // verus!
