//! Exact rational numbers.
//!
//! Every coordinate, scale factor and margin of a layout is a `Rational`. Its
//! view is the real number that it denotes, so contracts speak of real
//! arithmetic, and two values with the same view denote the same number even
//! where their representations differ.
use crate::natural::Natural;
use vstd::prelude::*;

verus! {

/// The real number `n / d`.
pub open spec fn quotient(n: int, d: int) -> real {
    n as real / d as real
}

/// The quotient `a / b`, taken as zero where `b` is zero.
pub open spec fn quotient_or_zero(a: real, b: real) -> real {
    if b == 0real {
        0real
    } else {
        a / b
    }
}

proof fn lemma_product_as_real(a: int, b: int)
    ensures
        (a * b) as real == a as real * b as real,
{
    assert((a * b) as real == a as real * b as real) by (nonlinear_arith);
}

proof fn lemma_quotient_add(n1: int, d1: int, n2: int, d2: int)
    requires
        d1 != 0,
        d2 != 0,
    ensures
        quotient(n1 * d2 + n2 * d1, d1 * d2) == quotient(n1, d1) + quotient(n2, d2),
{
    lemma_product_as_real(n1, d2);
    lemma_product_as_real(n2, d1);
    lemma_product_as_real(d1, d2);
    let a = n1 as real;
    let b = d1 as real;
    let c = n2 as real;
    let d = d2 as real;
    assert((a * d + c * b) / (b * d) == a / b + c / d) by (nonlinear_arith)
        requires
            b != 0real,
            d != 0real,
    ;
}

proof fn lemma_quotient_mul(n1: int, d1: int, n2: int, d2: int)
    requires
        d1 != 0,
        d2 != 0,
    ensures
        quotient(n1 * n2, d1 * d2) == quotient(n1, d1) * quotient(n2, d2),
{
    lemma_product_as_real(n1, n2);
    lemma_product_as_real(d1, d2);
    let a = n1 as real;
    let b = d1 as real;
    let c = n2 as real;
    let d = d2 as real;
    assert((a * c) / (b * d) == (a / b) * (c / d)) by (nonlinear_arith)
        requires
            b != 0real,
            d != 0real,
    ;
}

proof fn lemma_quotient_neg(n: int, d: int)
    requires
        d != 0,
    ensures
        quotient(-n, d) == -quotient(n, d),
{
    let a = n as real;
    let b = d as real;
    assert((-n) as real == -a);
    assert((-a) / b == -(a / b)) by (nonlinear_arith)
        requires
            b != 0real,
    ;
}

proof fn lemma_quotient_inverse(n: int, d: int)
    requires
        n != 0,
        d != 0,
    ensures
        quotient(n, d) != 0real,
        quotient(d, n) == 1real / quotient(n, d),
{
    let a = n as real;
    let b = d as real;
    assert(a / b != 0real && b / a == 1real / (a / b)) by (nonlinear_arith)
        requires
            a != 0real,
            b != 0real,
    ;
}

proof fn lemma_quotient_order(n1: int, d1: int, n2: int, d2: int)
    requires
        d1 > 0,
        d2 > 0,
    ensures
        quotient(n1, d1) < quotient(n2, d2) <==> n1 * d2 < n2 * d1,
        quotient(n1, d1) == quotient(n2, d2) <==> n1 * d2 == n2 * d1,
{
    lemma_product_as_real(n1, d2);
    lemma_product_as_real(n2, d1);
    let a = n1 as real;
    let b = d1 as real;
    let c = n2 as real;
    let d = d2 as real;
    assert((a / b < c / d <==> a * d < c * b) && (a / b == c / d <==> a * d == c * b))
        by (nonlinear_arith)
        requires
            b > 0real,
            d > 0real,
    ;
}

proof fn lemma_quotient_zero(n: int, d: int)
    requires
        d > 0,
    ensures
        quotient(n, d) == 0real <==> n == 0,
{
    let a = n as real;
    let b = d as real;
    assert(a / b == 0real <==> a == 0real) by (nonlinear_arith)
        requires
            b > 0real,
    ;
}

proof fn lemma_quotient_whole(n: int)
    ensures
        quotient(n, 1) == n as real,
{
    let a = n as real;
    assert(a / 1real == a) by (nonlinear_arith);
}

/// The magnitude of a machine integer.
fn magnitude(n: i64) -> (m: u64)
    ensures
        n >= 0 ==> m == n,
        n < 0 ==> m == -n,
{
    if n >= 0 {
        n as u64
    } else {
        let below: i64 = -(n + 1);
        below as u64 + 1
    }
}

/// An exact rational number.
#[derive(Debug)]
pub struct Rational {
    negative: bool,
    num: Natural,
    den: Natural,
}

impl View for Rational {
    type V = real;

    /// The real number that the value denotes.
    closed spec fn view(&self) -> real {
        quotient(self.numerator(), self.den@ as int)
    }
}

impl Clone for Rational {
    fn clone(&self) -> (r: Rational)
        ensures
            r@ == self@,
    {
        proof {
            use_type_invariant(self);
        }
        Rational { negative: self.negative, num: self.num.clone(), den: self.den.clone() }
    }
}

impl PartialEq for Rational {
    fn eq(&self, other: &Rational) -> (r: bool) {
        self.same(other)
    }
}

impl vstd::std_specs::cmp::PartialEqSpecImpl for Rational {
    open spec fn obeys_eq_spec() -> bool {
        true
    }

    open spec fn eq_spec(&self, other: &Rational) -> bool {
        self@ == other@
    }
}

impl Rational {
    #[verifier::type_invariant]
    spec fn positive_denominator(self) -> bool {
        self.den@ > 0
    }

    spec fn numerator(&self) -> int {
        if self.negative {
            -(self.num@ as int)
        } else {
            self.num@ as int
        }
    }

    /// The whole number `n`.
    pub fn from_int(n: i64) -> (r: Rational)
        ensures
            r@ == n as real,
    {
        proof {
            lemma_quotient_whole(n as int);
        }
        Rational { negative: n < 0, num: Natural::from_u64(magnitude(n)), den: Natural::from_u64(1) }
    }

    /// The whole number `n`.
    pub fn from_u64(n: u64) -> (r: Rational)
        ensures
            r@ == n as real,
    {
        proof {
            lemma_quotient_whole(n as int);
        }
        Rational { negative: false, num: Natural::from_u64(n), den: Natural::from_u64(1) }
    }

    /// The fraction `num / den`.
    pub fn new(num: i64, den: i64) -> (r: Rational)
        requires
            den != 0,
        ensures
            r@ == num as real / den as real,
    {
        proof {
            let a = num as real;
            let b = den as real;
            assert((-a) / (-b) == a / b) by (nonlinear_arith)
                requires
                    b != 0real,
            ;
            assert((-num) as real == -a);
            assert((-den) as real == -b);
        }
        Rational {
            negative: (num < 0) != (den < 0),
            num: Natural::from_u64(magnitude(num)),
            den: Natural::from_u64(magnitude(den)),
        }
    }

    /// The number zero.
    pub fn zero() -> (r: Rational)
        ensures
            r@ == 0real,
    {
        Rational::from_int(0)
    }

    /// The number one.
    pub fn one() -> (r: Rational)
        ensures
            r@ == 1real,
    {
        Rational::from_int(1)
    }

    /// The numerator's magnitude, the denominator and the sign of the
    /// fraction that holds the value: the value is `n / d`, negated where the
    /// flag is set. The fraction is not reduced.
    pub fn parts(&self) -> (r: (bool, Natural, Natural))
        ensures
            r.2@ > 0,
            self@ == quotient(if r.0 { -(r.1@ as int) } else { r.1@ as int }, r.2@ as int),
    {
        proof {
            use_type_invariant(self);
        }
        (self.negative, self.num.clone(), self.den.clone())
    }

    /// Whether the value is zero.
    pub fn is_zero(&self) -> (r: bool)
        ensures
            r == (self@ == 0real),
    {
        proof {
            use_type_invariant(self);
            lemma_quotient_zero(self.numerator(), self.den@ as int);
        }
        self.num.is_zero()
    }

    /// The value with its sign changed.
    pub fn neg(&self) -> (r: Rational)
        ensures
            r@ == -self@,
    {
        proof {
            use_type_invariant(self);
            lemma_quotient_neg(self.numerator(), self.den@ as int);
        }
        Rational { negative: !self.negative, num: self.num.clone(), den: self.den.clone() }
    }

    /// The sum of two values.
    pub fn add(&self, other: &Rational) -> (r: Rational)
        ensures
            r@ == self@ + other@,
    {
        proof {
            use_type_invariant(self);
            use_type_invariant(other);
            lemma_quotient_add(
                self.numerator(),
                self.den@ as int,
                other.numerator(),
                other.den@ as int,
            );
            assert(self.den@ * other.den@ > 0) by (nonlinear_arith)
                requires
                    self.den@ > 0,
                    other.den@ > 0,
            ;
            let a = self.num@ as int;
            let b = other.den@ as int;
            assert((-a) * b == -(a * b)) by (nonlinear_arith);
            let c = other.num@ as int;
            let d = self.den@ as int;
            assert((-c) * d == -(c * d)) by (nonlinear_arith);
        }
        let p = self.num.mul(&other.den);
        let q = other.num.mul(&self.den);
        let den = self.den.mul(&other.den);
        if self.negative == other.negative {
            Rational { negative: self.negative, num: p.add(&q), den }
        } else if q.le(&p) {
            Rational { negative: self.negative, num: p.sub(&q), den }
        } else {
            Rational { negative: other.negative, num: q.sub(&p), den }
        }
    }

    /// The difference of two values.
    pub fn sub(&self, other: &Rational) -> (r: Rational)
        ensures
            r@ == self@ - other@,
    {
        let opposite = other.neg();
        self.add(&opposite)
    }

    /// The product of two values.
    pub fn mul(&self, other: &Rational) -> (r: Rational)
        ensures
            r@ == self@ * other@,
    {
        proof {
            use_type_invariant(self);
            use_type_invariant(other);
            lemma_quotient_mul(
                self.numerator(),
                self.den@ as int,
                other.numerator(),
                other.den@ as int,
            );
            assert(self.den@ * other.den@ > 0) by (nonlinear_arith)
                requires
                    self.den@ > 0,
                    other.den@ > 0,
            ;
            let a = self.num@ as int;
            let c = other.num@ as int;
            assert((-a) * c == -(a * c)) by (nonlinear_arith);
            assert(a * (-c) == -(a * c)) by (nonlinear_arith);
            assert((-a) * (-c) == a * c) by (nonlinear_arith);
        }
        Rational {
            negative: self.negative != other.negative,
            num: self.num.mul(&other.num),
            den: self.den.mul(&other.den),
        }
    }

    /// The inverse of a value other than zero.
    pub fn recip(&self) -> (r: Rational)
        requires
            self@ != 0real,
        ensures
            r@ == 1real / self@,
    {
        proof {
            use_type_invariant(self);
            lemma_quotient_zero(self.numerator(), self.den@ as int);
            let n = self.num@ as int;
            let d = self.den@ as int;
            lemma_quotient_inverse(n, d);
            lemma_quotient_neg(n, d);
            lemma_quotient_neg(d, n);
            let v = quotient(n, d);
            assert(-(1real / v) == 1real / (-v)) by (nonlinear_arith)
                requires
                    v != 0real,
            ;
        }
        Rational { negative: self.negative, num: self.den.clone(), den: self.num.clone() }
    }

    /// The quotient of two values, the second of which is not zero.
    pub fn div(&self, other: &Rational) -> (r: Rational)
        requires
            other@ != 0real,
        ensures
            r@ == self@ / other@,
    {
        let inverse = other.recip();
        proof {
            let a = self@;
            let b = other@;
            assert(a * (1real / b) == a / b) by (nonlinear_arith)
                requires
                    b != 0real,
            ;
        }
        self.mul(&inverse)
    }

    /// Whether the first value is smaller than the second.
    pub fn lt(&self, other: &Rational) -> (r: bool)
        ensures
            r == (self@ < other@),
    {
        proof {
            use_type_invariant(self);
            use_type_invariant(other);
            lemma_quotient_order(
                self.numerator(),
                self.den@ as int,
                other.numerator(),
                other.den@ as int,
            );
            let a = self.num@ as int;
            let b = other.den@ as int;
            assert((-a) * b == -(a * b)) by (nonlinear_arith);
            let c = other.num@ as int;
            let d = self.den@ as int;
            assert((-c) * d == -(c * d)) by (nonlinear_arith);
        }
        let p = self.num.mul(&other.den);
        let q = other.num.mul(&self.den);
        if self.negative {
            if other.negative {
                q.lt(&p)
            } else {
                !p.is_zero() || !q.is_zero()
            }
        } else {
            if other.negative {
                false
            } else {
                p.lt(&q)
            }
        }
    }

    /// Whether the first value is at most the second.
    pub fn le(&self, other: &Rational) -> (r: bool)
        ensures
            r == (self@ <= other@),
    {
        !other.lt(self)
    }

    /// Whether the two values denote the same number.
    pub fn same(&self, other: &Rational) -> (r: bool)
        ensures
            r == (self@ == other@),
    {
        !self.lt(other) && !other.lt(self)
    }

    /// The quotient of two values, taken as zero where the second is zero.
    pub fn div_or_zero(&self, other: &Rational) -> (r: Rational)
        ensures
            r@ == quotient_or_zero(self@, other@),
    {
        if other.is_zero() {
            Rational::zero()
        } else {
            self.div(other)
        }
    }

    /// The smaller of two values.
    pub fn min(&self, other: &Rational) -> (r: Rational)
        ensures
            r@ == if other@ < self@ { other@ } else { self@ },
    {
        if other.lt(self) {
            other.clone()
        } else {
            self.clone()
        }
    }

    /// The larger of two values.
    pub fn max(&self, other: &Rational) -> (r: Rational)
        ensures
            r@ == if self@ < other@ { other@ } else { self@ },
    {
        if self.lt(other) {
            other.clone()
        } else {
            self.clone()
        }
    }
}

} // verus!
