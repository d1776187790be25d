use eui::matrix::Matrix;
use eui::natural::Natural;
use eui::rational::Rational;

fn r(num: i64, den: i64) -> Rational {
    Rational::new(num, den)
}

#[test]
fn natural_from_u64_splits_into_limbs() {
    assert_eq!(Natural::from_u64(0).to_limbs(), Vec::<u32>::new());
    assert_eq!(Natural::from_u64(7).to_limbs(), vec![7]);
    assert_eq!(Natural::from_u64(1 << 32).to_limbs(), vec![0, 1]);
    assert_eq!(Natural::from_u64(u64::MAX).to_limbs(), vec![0xffff_ffff, 0xffff_ffff]);
}

#[test]
fn natural_addition_carries() {
    let a = Natural::from_u64(u64::MAX);
    let one = Natural::from_u64(1);
    assert_eq!(a.add(&one).to_limbs(), vec![0, 0, 1]);
    assert_eq!(one.add(&a).to_limbs(), vec![0, 0, 1]);
    assert!(a.add(&Natural::zero()).same(&a));
}

#[test]
fn natural_subtraction_borrows() {
    let big = Natural::from_u64(u64::MAX).add(&Natural::from_u64(1));
    assert_eq!(big.sub(&Natural::from_u64(1)).to_limbs(), vec![0xffff_ffff, 0xffff_ffff]);
    assert!(big.sub(&big).is_zero());
    assert_eq!(Natural::from_u64(1 << 32).sub(&Natural::from_u64(1)).to_limbs(), vec![0xffff_ffff]);
}

#[test]
fn natural_multiplication_is_exact_beyond_machine_words() {
    let a = Natural::from_u64(u64::MAX);
    assert_eq!(a.mul(&a).to_limbs(), vec![1, 0, 0xffff_fffe, 0xffff_ffff]);
    let x = Natural::from_u64(123456789012345678);
    let y = Natural::from_u64(987654321098765432);
    let product = x.mul(&y).add(&Natural::from_u64(5));
    assert_eq!(product.to_limbs(), vec![1133831317, 2594809615, 740433858, 1539006]);
    assert!(x.mul(&Natural::zero()).is_zero());
    assert!(x.mul(&y).same(&y.mul(&x)));
}

#[test]
fn natural_order() {
    let small = Natural::from_u64(5);
    let big = Natural::from_u64(1 << 40);
    assert!(small.lt(&big));
    assert!(!big.lt(&small));
    assert!(!small.lt(&small));
    assert!(small.le(&small));
    assert!(small.le(&big));
    assert!(!big.le(&small));
    assert!(small.same(&Natural::from_u64(5)));
    assert!(!small.same(&big));
    assert!(Natural::zero().is_zero());
    assert!(!small.is_zero());
}

#[test]
fn rational_sum_of_fractions() {
    assert_eq!(r(1, 2).add(&r(1, 3)), r(5, 6));
    assert_eq!(r(1, 2).add(&r(-1, 2)), Rational::zero());
    assert_eq!(r(-1, 3).add(&r(-1, 6)), r(-1, 2));
    assert_eq!(r(1, 3).add(&r(-1, 2)), r(-1, 6));
}

#[test]
fn rational_difference_product_quotient() {
    assert_eq!(r(1, 2).sub(&r(1, 3)), r(1, 6));
    assert_eq!(r(1, 3).sub(&r(1, 2)), r(-1, 6));
    assert_eq!(r(2, 3).mul(&r(-3, 4)), r(-1, 2));
    assert_eq!(r(-2, 3).mul(&r(-3, 4)), r(1, 2));
    assert_eq!(r(1, 2).div(&r(1, 4)), Rational::from_int(2));
    assert_eq!(r(1, 2).div(&r(-1, 4)), Rational::from_int(-2));
    assert_eq!(r(3, 7).recip(), r(7, 3));
    assert_eq!(r(-3, 7).recip(), r(-7, 3));
    assert_eq!(r(1, 2).neg(), r(-1, 2));
    assert_eq!(r(1, 2).div_or_zero(&Rational::zero()), Rational::zero());
    assert_eq!(r(1, 2).div_or_zero(&r(1, 4)), Rational::from_int(2));
}

#[test]
fn rational_equal_values_with_different_fractions() {
    assert_eq!(r(2, 4), r(1, 2));
    assert_eq!(r(1, -2), r(-1, 2));
    assert_eq!(r(-1, -2), r(1, 2));
    assert_eq!(r(0, 5), r(0, -7));
    assert_ne!(r(1, 2), r(1, 3));
    assert_eq!(Rational::from_int(i64::MIN), Rational::from_int(i64::MIN + 1).sub(&Rational::one()));
    assert_eq!(Rational::from_u64(u64::MAX), Rational::from_u64(u64::MAX - 1).add(&Rational::one()));
}

#[test]
fn rational_order() {
    assert!(r(1, 3).lt(&r(1, 2)));
    assert!(!r(1, 2).lt(&r(1, 3)));
    assert!(r(-1, 2).lt(&r(-1, 3)));
    assert!(r(-1, 2).lt(&r(1, 3)));
    assert!(!r(1, 3).lt(&r(-1, 2)));
    assert!(!r(0, 1).lt(&r(0, -1)));
    assert!(r(-1, 5).lt(&Rational::zero()));
    assert!(!Rational::zero().lt(&r(-1, 5)));
    assert!(r(1, 2).le(&r(2, 4)));
    assert!(r(1, 2).same(&r(2, 4)));
    assert_eq!(r(1, 2).min(&r(1, 3)), r(1, 3));
    assert_eq!(r(1, 2).max(&r(1, 3)), r(1, 2));
    assert!(Rational::zero().is_zero());
    assert!(r(0, 9).is_zero());
    assert!(!r(1, 9).is_zero());
}

#[test]
fn rational_does_not_round() {
    // a third, added three times, is one
    let third = r(1, 3);
    assert_eq!(third.add(&third).add(&third), Rational::one());
    // a long chain of operations comes back to where it started
    let mut x = r(7, 11);
    for k in 1..40 {
        x = x.mul(&r(k, k + 1)).add(&r(1, k));
    }
    for k in (1..40).rev() {
        x = x.sub(&r(1, k)).div(&r(k, k + 1));
    }
    assert_eq!(x, r(7, 11));
}

#[test]
fn rational_parts_give_the_value() {
    let (negative, num, den) = r(-3, 4).parts();
    assert!(negative);
    assert!(!den.is_zero());
    // num / den is 3 / 4
    assert!(num.mul(&Natural::from_u64(4)).same(&den.mul(&Natural::from_u64(3))));
}

#[test]
fn matrix_constructors() {
    let zero = Rational::zero;
    let one = Rational::one;
    assert_eq!(
        Matrix::identity(),
        Matrix([[one(), zero(), zero()], [zero(), one(), zero()], [zero(), zero(), one()]])
    );
    assert_eq!(
        Matrix::scale(r(1, 2)),
        Matrix([[r(1, 2), zero(), zero()], [zero(), r(1, 2), zero()], [zero(), zero(), one()]])
    );
    assert_eq!(
        Matrix::scale_wh(r(1, 2), r(3, 1)),
        Matrix([[r(1, 2), zero(), zero()], [zero(), r(3, 1), zero()], [zero(), zero(), one()]])
    );
    assert_eq!(
        Matrix::translate(r(1, 2), r(-1, 3)),
        Matrix([[one(), zero(), zero()], [zero(), one(), zero()], [r(1, 2), r(-1, 3), one()]])
    );
}

#[test]
fn matrix_product_applies_right_operand_first() {
    let zero = Rational::zero;
    let one = Rational::one;
    let t = Matrix::translate(r(1, 2), r(0, 1));
    let s = Matrix::scale_wh(r(1, 2), r(1, 1));
    // scale first, then move
    assert_eq!(
        t.mul(&s),
        Matrix([[r(1, 2), zero(), zero()], [zero(), one(), zero()], [r(1, 2), zero(), one()]])
    );
    // move first, then scale
    assert_eq!(
        s.mul(&t),
        Matrix([[r(1, 2), zero(), zero()], [zero(), one(), zero()], [r(1, 4), zero(), one()]])
    );
    assert_ne!(t.mul(&s), s.mul(&t));
    assert_eq!(t.mul(&Matrix::identity()), t);
    assert_eq!(Matrix::identity().mul(&t), t);
}

#[test]
fn matrix_product_of_general_matrices() {
    let a = Matrix([
        [r(1, 1), r(2, 1), r(3, 1)],
        [r(4, 1), r(5, 1), r(6, 1)],
        [r(7, 1), r(8, 1), r(9, 1)],
    ]);
    let b = Matrix([
        [r(1, 2), r(0, 1), r(-1, 1)],
        [r(2, 1), r(1, 3), r(0, 1)],
        [r(0, 1), r(1, 1), r(1, 1)],
    ]);
    // column c of the product is a applied to column c of b
    let expected = Matrix([
        [r(-13, 2), r(-7, 1), r(-15, 2)],
        [r(10, 3), r(17, 3), r(8, 1)],
        [r(11, 1), r(13, 1), r(15, 1)],
    ]);
    assert_eq!(a.mul(&b), expected);
}

#[test]
fn matrix_product_is_associative() {
    let a = Matrix::translate(r(1, 3), r(-2, 5)).mul(&Matrix::scale_wh(r(2, 7), r(5, 3)));
    let b = Matrix([
        [r(1, 2), r(1, 5), r(0, 1)],
        [r(-3, 4), r(2, 1), r(1, 9)],
        [r(4, 1), r(-1, 6), r(1, 1)],
    ]);
    let c = Matrix::scale(r(3, 11)).mul(&Matrix::translate(r(5, 1), r(1, 8)));
    assert_eq!(a.mul(&b).mul(&c), a.mul(&b.mul(&c)));
}

#[test]
fn matrix_applied_to_a_point() {
    let m = Matrix::translate(r(1, 2), r(-1, 1)).mul(&Matrix::scale_wh(r(1, 2), r(3, 1)));
    let image = m.apply(&[r(1, 1), r(1, 1), r(1, 1)]);
    assert_eq!(image, [r(1, 1), r(2, 1), r(1, 1)]);
    let direction = m.apply(&[r(1, 1), r(1, 1), r(0, 1)]);
    assert_eq!(direction, [r(1, 2), r(3, 1), r(0, 1)]);
}

#[test]
fn matrix_columns_and_embedding() {
    let columns = || {
        [
            [r(1, 1), r(2, 1), r(3, 1)],
            [r(4, 1), r(5, 1), r(6, 1)],
            [r(7, 1), r(8, 1), r(9, 1)],
        ]
    };
    let m = Matrix::from_columns(columns());
    assert_eq!(m, Matrix(columns()));
    assert_eq!(m.clone().into_columns(), columns());
    let zero = Rational::zero;
    assert_eq!(
        m.into_4x4(),
        [
            [r(1, 1), r(2, 1), zero(), r(3, 1)],
            [r(4, 1), r(5, 1), zero(), r(6, 1)],
            [zero(), zero(), zero(), zero()],
            [r(7, 1), r(8, 1), zero(), r(9, 1)],
        ]
    );
}
