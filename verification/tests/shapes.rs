use eui::{Matrix, Rational, Shape};

fn r(num: i64, den: i64) -> Rational {
    Rational::new(num, den)
}

fn image(matrix: Matrix) -> Shape {
    Shape::Image { name: String::from("i"), matrix: matrix }
}

#[test]
fn apply_matrix_composes_on_the_left() {
    let local = Matrix::scale_wh(r(1, 2), r(1, 3));
    let outer = Matrix::translate(r(1, 4), r(1, 5));
    assert_eq!(image(local.clone()).apply_matrix(&outer), image(outer.mul(&local)));
    assert_ne!(image(local.clone()).apply_matrix(&outer), image(local.mul(&outer)));
    let text = Shape::Text { text: String::from("t"), matrix: local.clone() };
    assert_eq!(
        text.apply_matrix(&outer),
        Shape::Text { text: String::from("t"), matrix: outer.mul(&local) }
    );
}

#[test]
fn shapes_differ_by_kind_name_and_matrix() {
    let m = Matrix::identity();
    assert_eq!(image(m.clone()), image(m.clone()));
    assert_ne!(image(m.clone()), image(Matrix::scale(r(1, 2))));
    assert_ne!(image(m.clone()), Shape::Image { name: String::from("j"), matrix: m.clone() });
    assert_ne!(image(m.clone()), Shape::Text { text: String::from("i"), matrix: m.clone() });
    assert_eq!(image(m.clone()).clone(), image(m.clone()));
    assert_eq!(*image(Matrix::scale(r(1, 2))).matrix(), Matrix::scale(r(2, 4)));
}

#[test]
fn unit_square_is_hit_on_its_border_too() {
    let shape = image(Matrix::identity());
    assert!(shape.hit_test(&[r(0, 1), r(0, 1)]));
    assert!(shape.hit_test(&[r(1, 1), r(1, 1)]));
    assert!(shape.hit_test(&[r(-1, 1), r(1, 2)]));
    assert!(shape.hit_test(&[r(1, 2), r(-1, 1)]));
    assert!(!shape.hit_test(&[r(11, 10), r(0, 1)]));
    assert!(!shape.hit_test(&[r(0, 1), r(-11, 10)]));
    assert!(!shape.hit_test(&[r(-1000001, 1000000), r(0, 1)]));
    assert!(!shape.hit_test(&[r(0, 1), r(1000001, 1000000)]));
}

#[test]
fn moved_and_scaled_shape() {
    // from 1/4 to 3/4 across, from -1 to 0 upwards
    let shape = image(
        Matrix::translate(r(1, 2), r(-1, 2)).mul(&Matrix::scale_wh(r(1, 4), r(1, 2))),
    );
    assert!(shape.hit_test(&[r(1, 2), r(-1, 2)]));
    assert!(shape.hit_test(&[r(1, 4), r(0, 1)]));
    assert!(shape.hit_test(&[r(3, 4), r(-1, 1)]));
    assert!(!shape.hit_test(&[r(0, 1), r(0, 1)]));
    assert!(!shape.hit_test(&[r(1, 5), r(-1, 2)]));
    assert!(!shape.hit_test(&[r(1, 2), r(1, 100)]));
    assert_eq!(shape.get_bounding_box(), (r(0, 1), r(3, 4), r(-1, 1), r(1, 4)));
}

#[test]
fn sheared_shape() {
    // the square, with its top pushed to the right by one
    let shear = Matrix([
        [r(1, 1), r(0, 1), r(0, 1)],
        [r(1, 1), r(1, 1), r(0, 1)],
        [r(0, 1), r(0, 1), r(1, 1)],
    ]);
    let shape = image(shear);
    assert_eq!(shape.get_bounding_box(), (r(1, 1), r(2, 1), r(-1, 1), r(-2, 1)));
    // the test measures along each edge from its first corner: the top edge
    // asks for a point to the right of 0, the bottom edge for one to the left
    assert!(shape.hit_test(&[r(0, 1), r(0, 1)]));
    assert!(shape.hit_test(&[r(0, 1), r(2, 1)]));
    assert!(!shape.hit_test(&[r(3, 2), r(1, 1)]));
    assert!(!shape.hit_test(&[r(1, 2), r(0, 1)]));
    assert!(!shape.hit_test(&[r(0, 1), r(4, 1)]));
}

#[test]
fn perspective_is_divided_out() {
    // every point has the third coordinate 2
    let far = Matrix([
        [r(1, 1), r(0, 1), r(0, 1)],
        [r(0, 1), r(1, 1), r(0, 1)],
        [r(0, 1), r(0, 1), r(2, 1)],
    ]);
    let shape = image(far);
    assert_eq!(shape.get_bounding_box(), (r(1, 2), r(1, 2), r(-1, 2), r(-1, 2)));
    assert!(shape.hit_test(&[r(1, 2), r(1, 2)]));
    assert!(!shape.hit_test(&[r(3, 4), r(0, 1)]));
}

#[test]
fn corner_at_infinity_is_left_undivided() {
    let flat = Matrix([
        [r(1, 1), r(0, 1), r(0, 1)],
        [r(0, 1), r(1, 1), r(0, 1)],
        [r(0, 1), r(0, 1), r(0, 1)],
    ]);
    let shape = image(flat);
    assert_eq!(shape.get_bounding_box(), (r(1, 1), r(1, 1), r(-1, 1), r(-1, 1)));
    assert!(shape.hit_test(&[r(0, 1), r(0, 1)]));
    assert!(!shape.hit_test(&[r(2, 1), r(0, 1)]));
}
