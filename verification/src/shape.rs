//! Drawable primitives, their outline and the hit test against it.
use crate::matrix::Matrix;
use crate::rational::Rational;
use crate::transform::{Mat3, Vec3};
use vstd::prelude::*;

verus! {

/// A point of the plane.
pub struct Point {
    pub x: real,
    pub y: real,
}

/// An axis-aligned box, by the coordinate of each of its edges.
pub struct Bounds {
    pub top: real,
    pub right: real,
    pub bottom: real,
    pub left: real,
}

/// The point of the plane that a homogeneous vector stands for: its first two
/// coordinates divided by the third. A vector whose third coordinate is zero
/// stands for no finite point and is left undivided.
pub open spec fn project(v: Vec3) -> Point {
    if v.z == 0real {
        Point { x: v.x, y: v.y }
    } else {
        Point { x: v.x / v.z, y: v.y / v.z }
    }
}

/// Where the transform `m` takes the point `(x, y)`.
pub open spec fn corner(m: Mat3, x: real, y: real) -> Point {
    project(m.apply(Vec3 { x: x, y: y, z: 1real }))
}

/// Whether `p` lies on the outer side of the edge that runs from `from` to
/// `to`: the dot product of `p - from` and `to - from` is negative.
pub open spec fn beyond_edge(p: Point, from: Point, to: Point) -> bool {
    (p.x - from.x) * (to.x - from.x) + (p.y - from.y) * (to.y - from.y) < 0real
}

/// Whether the image of the unit square under `m` covers `p`: the point is
/// on the inner side of each of the four edges, taken in the order top,
/// right, bottom, left.
pub open spec fn covers(m: Mat3, p: Point) -> bool {
    let top_left = corner(m, -1real, 1real);
    let top_right = corner(m, 1real, 1real);
    let bot_left = corner(m, -1real, -1real);
    let bot_right = corner(m, 1real, -1real);
    &&& !beyond_edge(p, top_left, top_right)
    &&& !beyond_edge(p, top_right, bot_right)
    &&& !beyond_edge(p, bot_right, bot_left)
    &&& !beyond_edge(p, bot_left, top_left)
}

/// The larger of two reals.
pub open spec fn real_max(a: real, b: real) -> real {
    if a < b {
        b
    } else {
        a
    }
}

/// The smaller of two reals.
pub open spec fn real_min(a: real, b: real) -> real {
    if b < a {
        b
    } else {
        a
    }
}

/// The smallest axis-aligned box that holds the image of the unit square
/// under `m`.
pub open spec fn bounds(m: Mat3) -> Bounds {
    let top_left = corner(m, -1real, 1real);
    let top_right = corner(m, 1real, 1real);
    let bot_left = corner(m, -1real, -1real);
    let bot_right = corner(m, 1real, -1real);
    Bounds {
        top: real_max(real_max(top_left.y, top_right.y), real_max(bot_left.y, bot_right.y)),
        right: real_max(real_max(top_left.x, top_right.x), real_max(bot_left.x, bot_right.x)),
        bottom: real_min(real_min(top_left.y, top_right.y), real_min(bot_left.y, bot_right.y)),
        left: real_min(real_min(top_left.x, top_right.x), real_min(bot_left.x, bot_right.x)),
    }
}

/// The view of two rationals as a point.
pub open spec fn point_view(p: [Rational; 2]) -> Point {
    Point { x: p[0]@, y: p[1]@ }
}

/// The mathematical content of a shape.
pub enum ShapeModel {
    Text { matrix: Mat3, text: Seq<char> },
    Image { matrix: Mat3, name: Seq<char> },
}

impl ShapeModel {
    /// The transform of the shape.
    pub open spec fn matrix(self) -> Mat3 {
        match self {
            ShapeModel::Text { matrix, .. } => matrix,
            ShapeModel::Image { matrix, .. } => matrix,
        }
    }

    /// The shape as seen from outside a frame that `outer` places.
    pub open spec fn apply_matrix(self, outer: Mat3) -> ShapeModel {
        match self {
            ShapeModel::Text { matrix, text } => ShapeModel::Text {
                matrix: outer.mul(matrix),
                text: text,
            },
            ShapeModel::Image { matrix, name } => ShapeModel::Image {
                matrix: outer.mul(matrix),
                name: name,
            },
        }
    }
}

/// A shape that can be drawn by any of the UI's components.
///
/// The meaning of the matrix depends on the context in which the shape is manipulated. When
/// returned by `build_layout`, the matrix is relative to the widget. When returned by `draw`,
/// the matrix is absolute (ie. relative to the viewport).
#[derive(Debug)]
pub enum Shape {
    Text { matrix: Matrix, text: String },
    Image { matrix: Matrix, name: String },
}

impl View for Shape {
    type V = ShapeModel;

    open spec fn view(&self) -> ShapeModel {
        match self {
            Shape::Text { matrix, text } => ShapeModel::Text { matrix: matrix@, text: text@ },
            Shape::Image { matrix, name } => ShapeModel::Image { matrix: matrix@, name: name@ },
        }
    }
}

impl Clone for Shape {
    fn clone(&self) -> (r: Shape)
        ensures
            r@ == self@,
    {
        match self {
            Shape::Text { matrix, text } => Shape::Text {
                matrix: matrix.clone(),
                text: text.clone(),
            },
            Shape::Image { matrix, name } => Shape::Image {
                matrix: matrix.clone(),
                name: name.clone(),
            },
        }
    }
}

impl PartialEq for Shape {
    fn eq(&self, other: &Shape) -> (r: bool) {
        match self {
            Shape::Text { matrix, text } => match other {
                Shape::Text { matrix: other_matrix, text: other_text } => *matrix
                    == *other_matrix && *text == *other_text,
                Shape::Image { .. } => false,
            },
            Shape::Image { matrix, name } => match other {
                Shape::Image { matrix: other_matrix, name: other_name } => *matrix
                    == *other_matrix && *name == *other_name,
                Shape::Text { .. } => false,
            },
        }
    }
}

impl vstd::std_specs::cmp::PartialEqSpecImpl for Shape {
    open spec fn obeys_eq_spec() -> bool {
        true
    }

    open spec fn eq_spec(&self, other: &Shape) -> bool {
        self@ == other@
    }
}

/// The point where `matrix` takes the corner `(x, y)` of the unit square.
fn corner_of(matrix: &Matrix, x: i64, y: i64) -> (c: [Rational; 2])
    ensures
        point_view(c) == corner(matrix@, x as real, y as real),
{
    let v = matrix.apply(&[Rational::from_int(x), Rational::from_int(y), Rational::one()]);
    if v[2].is_zero() {
        [v[0].clone(), v[1].clone()]
    } else {
        [v[0].div(&v[2]), v[1].div(&v[2])]
    }
}

fn is_beyond_edge(p: &[Rational; 2], from: &[Rational; 2], to: &[Rational; 2]) -> (r: bool)
    ensures
        r == beyond_edge(point_view(*p), point_view(*from), point_view(*to)),
{
    let along = p[0].sub(&from[0]).mul(&to[0].sub(&from[0]));
    let across = p[1].sub(&from[1]).mul(&to[1].sub(&from[1]));
    along.add(&across).lt(&Rational::zero())
}

impl Shape {
    /// The transform of the shape.
    pub fn matrix(&self) -> (m: &Matrix)
        ensures
            m@ == self@.matrix(),
    {
        match self {
            Shape::Text { matrix, .. } => matrix,
            Shape::Image { matrix, .. } => matrix,
        }
    }

    /// The shape as seen from outside a frame that `outer` places: its
    /// transform is composed with `outer`, which is applied second.
    pub fn apply_matrix(self, outer: &Matrix) -> (s: Shape)
        ensures
            s@ == self@.apply_matrix(outer@),
    {
        match self {
            Shape::Text { matrix, text } => Shape::Text { matrix: outer.mul(&matrix), text: text },
            Shape::Image { matrix, name } => Shape::Image {
                matrix: outer.mul(&matrix),
                name: name,
            },
        }
    }

    /// Returns true if the point's coordinates hit the shape.
    pub fn hit_test(&self, point: &[Rational; 2]) -> (hit: bool)
        ensures
            hit == covers(self@.matrix(), point_view(*point)),
    {
        let matrix = self.matrix();
        let top_left = corner_of(matrix, -1, 1);
        let top_right = corner_of(matrix, 1, 1);
        let bot_left = corner_of(matrix, -1, -1);
        let bot_right = corner_of(matrix, 1, -1);
        if is_beyond_edge(point, &top_left, &top_right) {
            return false;
        }
        if is_beyond_edge(point, &top_right, &bot_right) {
            return false;
        }
        if is_beyond_edge(point, &bot_right, &bot_left) {
            return false;
        }
        if is_beyond_edge(point, &bot_left, &top_left) {
            return false;
        }
        true
    }

    /// The smallest axis-aligned box that holds the shape, in the order top,
    /// right, bottom, left.
    pub fn get_bounding_box(&self) -> (b: (Rational, Rational, Rational, Rational))
        ensures
            b.0@ == bounds(self@.matrix()).top,
            b.1@ == bounds(self@.matrix()).right,
            b.2@ == bounds(self@.matrix()).bottom,
            b.3@ == bounds(self@.matrix()).left,
    {
        let matrix = self.matrix();
        let top_left = corner_of(matrix, -1, 1);
        let top_right = corner_of(matrix, 1, 1);
        let bot_left = corner_of(matrix, -1, -1);
        let bot_right = corner_of(matrix, 1, -1);
        let top = top_left[1].max(&top_right[1]).max(&bot_left[1].max(&bot_right[1]));
        let right = top_left[0].max(&top_right[0]).max(&bot_left[0].max(&bot_right[0]));
        let bottom = top_left[1].min(&top_right[1]).min(&bot_left[1].min(&bot_right[1]));
        let left = top_left[0].min(&top_right[0]).min(&bot_left[0].min(&bot_right[0]));
        (top, right, bottom, left)
    }
}

} // verus!
