//! Transforms of the plane, as 3x3 matrices over exact rationals.
use crate::rational::Rational;
use crate::transform::{Mat3, Vec3};
use vstd::prelude::*;

verus! {

/// The view of three rationals as a vector.
pub open spec fn vec3_view(v: [Rational; 3]) -> Vec3 {
    Vec3 { x: v[0]@, y: v[1]@, z: v[2]@ }
}

/// A 3x3 matrix. The data is stored in column-major.
#[derive(Debug)]
pub struct Matrix(pub [[Rational; 3]; 3]);

impl View for Matrix {
    type V = Mat3;

    open spec fn view(&self) -> Mat3 {
        Mat3 { c0: vec3_view(self.0[0]), c1: vec3_view(self.0[1]), c2: vec3_view(self.0[2]) }
    }
}

impl Clone for Matrix {
    fn clone(&self) -> (r: Matrix)
        ensures
            r@ == self@,
    {
        Matrix(
            [
                [self.0[0][0].clone(), self.0[0][1].clone(), self.0[0][2].clone()],
                [self.0[1][0].clone(), self.0[1][1].clone(), self.0[1][2].clone()],
                [self.0[2][0].clone(), self.0[2][1].clone(), self.0[2][2].clone()],
            ],
        )
    }
}

impl PartialEq for Matrix {
    fn eq(&self, other: &Matrix) -> (r: bool) {
        self.0[0][0].same(&other.0[0][0]) && self.0[0][1].same(&other.0[0][1])
            && self.0[0][2].same(&other.0[0][2]) && self.0[1][0].same(&other.0[1][0])
            && self.0[1][1].same(&other.0[1][1]) && self.0[1][2].same(&other.0[1][2])
            && self.0[2][0].same(&other.0[2][0]) && self.0[2][1].same(&other.0[2][1])
            && self.0[2][2].same(&other.0[2][2])
    }
}

impl vstd::std_specs::cmp::PartialEqSpecImpl for Matrix {
    open spec fn obeys_eq_spec() -> bool {
        true
    }

    open spec fn eq_spec(&self, other: &Matrix) -> bool {
        self@ == other@
    }
}

/// `a0 * b0 + a1 * b1 + a2 * b2`.
fn dot3(a0: &Rational, b0: &Rational, a1: &Rational, b1: &Rational, a2: &Rational, b2: &Rational) -> (r:
    Rational)
    ensures
        r@ == a0@ * b0@ + a1@ * b1@ + a2@ * b2@,
{
    a0.mul(b0).add(&a1.mul(b1)).add(&a2.mul(b2))
}

impl Matrix {
    /// Builds an identity matrix, in other words a matrix that has no effect.
    pub fn identity() -> (m: Matrix)
        ensures
            m@ == Mat3::identity(),
    {
        Matrix::scale_wh(Rational::one(), Rational::one())
    }

    /// Builds a matrix that will rescale both width and height of a given factor.
    pub fn scale(factor: Rational) -> (m: Matrix)
        ensures
            m@ == Mat3::scale_wh(factor@, factor@),
    {
        let w = factor.clone();
        Matrix::scale_wh(w, factor)
    }

    /// Builds a matrix that will multiply the width and height by a certain factor.
    pub fn scale_wh(w: Rational, h: Rational) -> (m: Matrix)
        ensures
            m@ == Mat3::scale_wh(w@, h@),
    {
        Matrix(
            [
                [w, Rational::zero(), Rational::zero()],
                [Rational::zero(), h, Rational::zero()],
                [Rational::zero(), Rational::zero(), Rational::one()],
            ],
        )
    }

    /// Builds a matrix that will translate the object.
    pub fn translate(x: Rational, y: Rational) -> (m: Matrix)
        ensures
            m@ == Mat3::translate(x@, y@),
    {
        Matrix(
            [
                [Rational::one(), Rational::zero(), Rational::zero()],
                [Rational::zero(), Rational::one(), Rational::zero()],
                [x, y, Rational::one()],
            ],
        )
    }

    /// The composition that applies `other` first and `self` second.
    pub fn mul(&self, other: &Matrix) -> (m: Matrix)
        ensures
            m@ == self@.mul(other@),
    {
        let c0 = self.apply(&other.0[0]);
        let c1 = self.apply(&other.0[1]);
        let c2 = self.apply(&other.0[2]);
        Matrix([c0, c1, c2])
    }

    /// The image of a homogeneous point. The caller divides by the third
    /// coordinate where a perspective divide is wanted.
    pub fn apply(&self, v: &[Rational; 3]) -> (r: [Rational; 3])
        ensures
            vec3_view(r) == self@.apply(vec3_view(*v)),
    {
        let me = &self.0;
        let x = dot3(&me[0][0], &v[0], &me[1][0], &v[1], &me[2][0], &v[2]);
        let y = dot3(&me[0][1], &v[0], &me[1][1], &v[1], &me[2][1], &v[2]);
        let z = dot3(&me[0][2], &v[0], &me[1][2], &v[1], &me[2][2], &v[2]);
        [x, y, z]
    }

    /// The matrix with the given columns.
    pub fn from_columns(val: [[Rational; 3]; 3]) -> (m: Matrix)
        ensures
            m.0 == val,
    {
        Matrix(val)
    }

    /// The columns of the matrix.
    pub fn into_columns(self) -> (val: [[Rational; 3]; 3])
        ensures
            val == self.0,
    {
        self.0
    }

    /// The 4x4 matrix that acts on the plane as this one does and leaves no
    /// depth: its third row and third column are zero.
    pub fn into_4x4(self) -> (val: [[Rational; 4]; 4])
        ensures
            forall|c: int, r: int|
                0 <= c < 4 && 0 <= r < 4 ==> (#[trigger] val[c][r])@ == embedded_entry(self@, c, r),
    {
        let m = &self.0;
        [
            [m[0][0].clone(), m[0][1].clone(), Rational::zero(), m[0][2].clone()],
            [m[1][0].clone(), m[1][1].clone(), Rational::zero(), m[1][2].clone()],
            [Rational::zero(), Rational::zero(), Rational::zero(), Rational::zero()],
            [m[2][0].clone(), m[2][1].clone(), Rational::zero(), m[2][2].clone()],
        ]
    }
}

/// The entry in column `c` and row `r` of the 4x4 embedding of a 3x3 matrix:
/// the third coordinate of the plane's matrix moves to the fourth place, and
/// whatever touches the depth axis is zero.
pub open spec fn embedded_entry(m: Mat3, c: int, r: int) -> real {
    if c == 2 || r == 2 {
        0real
    } else {
        let column = if c == 0 {
            m.c0
        } else if c == 1 {
            m.c1
        } else {
            m.c2
        };
        if r == 0 {
            column.x
        } else if r == 1 {
            column.y
        } else {
            column.z
        }
    }
}

} // verus!
