//! Natural numbers of arbitrary size.
//!
//! A number is held as a little-endian sequence of 32-bit limbs. No operation
//! can overflow: a result simply takes as many limbs as it needs.
use vstd::prelude::*;

verus! {

/// The radix of the positional representation: every limb is a digit below it.
pub open spec fn radix() -> nat {
    0x1_0000_0000
}

/// `radix()` raised to the power `k`.
pub open spec fn radix_pow(k: nat) -> nat
    decreases k,
{
    if k == 0 {
        1
    } else {
        radix() * radix_pow((k - 1) as nat)
    }
}

/// The number that a little-endian sequence of limbs denotes.
pub open spec fn limbs_value(limbs: Seq<u32>) -> nat
    decreases limbs.len(),
{
    if limbs.len() == 0 {
        0
    } else {
        limbs_value(limbs.drop_last()) + limbs.last() as nat * radix_pow(
            (limbs.len() - 1) as nat,
        )
    }
}

proof fn lemma_value_unfold(s: Seq<u32>)
    requires
        s.len() > 0,
    ensures
        limbs_value(s) == limbs_value(s.drop_last()) + s.last() as nat * radix_pow(
            (s.len() - 1) as nat,
        ),
{
}

proof fn lemma_radix_pow_unfold(k: nat)
    ensures
        radix_pow(0) == 1,
        radix_pow(k + 1) == radix() * radix_pow(k),
{
    assert(radix_pow(0) == 1);
    assert(radix_pow(k + 1) == radix() * radix_pow(((k + 1) - 1) as nat));
}

proof fn lemma_value_empty(s: Seq<u32>)
    requires
        s.len() == 0,
    ensures
        limbs_value(s) == 0,
{
}

proof fn lemma_value_push(s: Seq<u32>, x: u32)
    ensures
        limbs_value(s.push(x)) == limbs_value(s) + x as nat * radix_pow(s.len()),
{
    assert(s.push(x).drop_last() =~= s);
    lemma_value_unfold(s.push(x));
}

proof fn lemma_value_take(s: Seq<u32>, i: int)
    requires
        0 <= i < s.len(),
    ensures
        limbs_value(s.take(i + 1)) == limbs_value(s.take(i)) + s[i] as nat * radix_pow(i as nat),
{
    assert(s.take(i + 1).drop_last() =~= s.take(i));
}

proof fn lemma_value_bound(s: Seq<u32>)
    ensures
        limbs_value(s) < radix_pow(s.len()),
    decreases s.len(),
{
    if s.len() > 0 {
        lemma_value_bound(s.drop_last());
        let p = radix_pow((s.len() - 1) as nat);
        let x = s.last() as nat;
        assert(x * p + p <= radix() * p) by (nonlinear_arith)
            requires
                x + 1 <= radix(),
                p >= 0,
        ;
    }
}

proof fn lemma_value_cons(x: u32, s: Seq<u32>)
    ensures
        limbs_value(seq![x] + s) == x as nat + radix() * limbs_value(s),
    decreases s.len(),
{
    let whole = seq![x] + s;
    assert(whole.len() == s.len() + 1);
    lemma_value_unfold(whole);
    if s.len() == 0 {
        assert(whole.drop_last() =~= Seq::<u32>::empty());
        lemma_value_empty(whole.drop_last());
        lemma_value_empty(s);
        assert(whole.last() == x);
        lemma_radix_pow_unfold(0);
        let p = radix_pow(0);
        let v = limbs_value(s);
        assert(x as nat * p == x as nat) by (nonlinear_arith)
            requires
                p == 1,
        ;
        assert(radix() * v == 0) by (nonlinear_arith)
            requires
                v == 0,
        ;
    } else {
        lemma_value_cons(x, s.drop_last());
        assert(whole.drop_last() =~= seq![x] + s.drop_last());
        assert(whole.last() == s.last());
        let p = radix_pow((s.len() - 1) as nat);
        let l = s.last() as nat;
        let v = limbs_value(s.drop_last());
        lemma_radix_pow_unfold((s.len() - 1) as nat);
        assert(radix_pow(s.len()) == radix() * p);
        lemma_value_unfold(s);
        assert(limbs_value(s) == v + l * p);
        assert(limbs_value(whole) == (x as nat + radix() * v) + l * (radix() * p));
        assert(radix() * (v + l * p) == radix() * v + l * (radix() * p)) by (nonlinear_arith);
    }
}

proof fn lemma_value_zero(s: Seq<u32>)
    ensures
        limbs_value(s) == 0 <==> forall|i: int| 0 <= i < s.len() ==> s[i] == 0,
    decreases s.len(),
{
    if s.len() > 0 {
        let t = s.drop_last();
        lemma_value_zero(t);
        let p = radix_pow((s.len() - 1) as nat);
        lemma_radix_pow_positive((s.len() - 1) as nat);
        let l = s.last() as nat;
        assert(l > 0 ==> l * p > 0) by (nonlinear_arith)
            requires
                p > 0,
        ;
        assert(l == 0 ==> l * p == 0) by (nonlinear_arith);
        if limbs_value(s) == 0 {
            assert forall|i: int| 0 <= i < s.len() implies s[i] == 0 by {
                if i < s.len() - 1 {
                    assert(t[i] == s[i]);
                }
            }
        }
        if forall|i: int| 0 <= i < s.len() ==> s[i] == 0 {
            assert forall|i: int| 0 <= i < t.len() implies t[i] == 0 by {
                assert(t[i] == s[i]);
            }
        }
    }
}

proof fn lemma_radix_pow_positive(k: nat)
    ensures
        radix_pow(k) > 0,
    decreases k,
{
    if k > 0 {
        lemma_radix_pow_positive((k - 1) as nat);
        let p = radix_pow((k - 1) as nat);
        assert(radix() * p > 0) by (nonlinear_arith)
            requires
                p > 0,
                radix() > 0,
        ;
    }
}

fn copy_limbs(a: &Vec<u32>) -> (r: Vec<u32>)
    ensures
        r@ == a@,
{
    let mut r: Vec<u32> = Vec::new();
    let mut i: usize = 0;
    while i < a.len()
        invariant
            i <= a.len(),
            r@ == a@.take(i as int),
        decreases a.len() - i,
    {
        r.push(a[i]);
        assert(a@.take(i + 1) =~= a@.take(i as int).push(a@[i as int]));
        i += 1;
    }
    assert(a@.take(a.len() as int) =~= a@);
    r
}

/// The limbs of `a`, followed by zero limbs up to the length `n`.
fn padded(a: &Vec<u32>, n: usize) -> (r: Vec<u32>)
    requires
        a.len() <= n,
    ensures
        r.len() == n,
        limbs_value(r@) == limbs_value(a@),
{
    let mut r = copy_limbs(a);
    while r.len() < n
        invariant
            r.len() <= n,
            limbs_value(r@) == limbs_value(a@),
        decreases n - r.len(),
    {
        proof {
            lemma_value_push(r@, 0);
        }
        r.push(0);
    }
    r
}

/// Whether the most significant limb, if there is any, is not zero.
pub open spec fn is_trimmed(limbs: Seq<u32>) -> bool {
    limbs.len() == 0 || limbs.last() != 0
}

/// Drops the zero limbs at the most significant end.
fn trimmed(a: Vec<u32>) -> (r: Vec<u32>)
    ensures
        limbs_value(r@) == limbs_value(a@),
        r.len() <= a.len(),
        is_trimmed(r@),
{
    let mut r = a;
    while r.len() > 0 && r[r.len() - 1] == 0
        invariant
            limbs_value(r@) == limbs_value(a@),
            r.len() <= a.len(),
        decreases r.len(),
    {
        r.pop();
    }
    r
}

fn longer(a: &Vec<u32>, b: &Vec<u32>) -> (n: usize)
    ensures
        n >= a.len(),
        n >= b.len(),
        n == a.len() || n == b.len(),
{
    if a.len() >= b.len() {
        a.len()
    } else {
        b.len()
    }
}

fn add_limbs(x: &Vec<u32>, y: &Vec<u32>) -> (r: Vec<u32>)
    ensures
        limbs_value(r@) == limbs_value(x@) + limbs_value(y@),
{
    let n = longer(x, y);
    let a = padded(x, n);
    let b = padded(y, n);
    let mut r: Vec<u32> = Vec::new();
    let mut carry: u64 = 0;
    let mut i: usize = 0;
    while i < n
        invariant
            i <= n,
            a.len() == n,
            b.len() == n,
            r.len() == i,
            carry <= 1,
            limbs_value(r@) + carry * radix_pow(i as nat) == limbs_value(a@.take(i as int))
                + limbs_value(b@.take(i as int)),
        decreases n - i,
    {
        let t: u64 = a[i] as u64 + b[i] as u64 + carry;
        let low: u32 = (t % 0x1_0000_0000) as u32;
        let high: u64 = t / 0x1_0000_0000;
        proof {
            lemma_value_push(r@, low);
            lemma_value_take(a@, i as int);
            lemma_value_take(b@, i as int);
            let p = radix_pow(i as nat);
            assert(radix_pow((i + 1) as nat) == radix() * p);
            assert(t == low + high * radix());
            assert((low + high * radix()) * p == low * p + high * (radix() * p))
                by (nonlinear_arith);
            assert((a[i as int] + b[i as int] + carry) * p == a[i as int] * p + b[i as int] * p
                + carry * p) by (nonlinear_arith);
        }
        r.push(low);
        carry = high;
        i += 1;
    }
    proof {
        assert(a@.take(n as int) =~= a@);
        assert(b@.take(n as int) =~= b@);
        lemma_value_push(r@, carry as u32);
    }
    r.push(carry as u32);
    trimmed(r)
}

/// The difference of two numbers, the first of which is not the smaller.
fn sub_limbs(x: &Vec<u32>, y: &Vec<u32>) -> (r: Vec<u32>)
    requires
        limbs_value(x@) >= limbs_value(y@),
    ensures
        limbs_value(r@) == limbs_value(x@) - limbs_value(y@),
{
    let n = longer(x, y);
    let a = padded(x, n);
    let b = padded(y, n);
    let mut r: Vec<u32> = Vec::new();
    let mut borrow: u64 = 0;
    let mut i: usize = 0;
    while i < n
        invariant
            i <= n,
            a.len() == n,
            b.len() == n,
            r.len() == i,
            borrow <= 1,
            limbs_value(r@) + limbs_value(b@.take(i as int)) == limbs_value(a@.take(i as int))
                + borrow * radix_pow(i as nat),
        decreases n - i,
    {
        let high: u64 = a[i] as u64;
        let low: u64 = b[i] as u64 + borrow;
        let next: u64 = if high >= low {
            0
        } else {
            1
        };
        let digit: u64 = if high >= low {
            high - low
        } else {
            high + 0x1_0000_0000 - low
        };
        proof {
            lemma_value_push(r@, digit as u32);
            lemma_value_take(a@, i as int);
            lemma_value_take(b@, i as int);
            let p = radix_pow(i as nat);
            assert(radix_pow((i + 1) as nat) == radix() * p);
            assert(digit + b[i as int] + borrow == a[i as int] + next * radix());
            assert((digit + b[i as int] + borrow) * p == digit * p + b[i as int] * p + borrow * p)
                by (nonlinear_arith);
            assert((a[i as int] + next * radix()) * p == a[i as int] * p + next * (radix() * p))
                by (nonlinear_arith);
        }
        r.push(digit as u32);
        borrow = next;
        i += 1;
    }
    proof {
        assert(a@.take(n as int) =~= a@);
        assert(b@.take(n as int) =~= b@);
        lemma_value_bound(r@);
        let p = radix_pow(n as nat);
        assert(borrow == 1 ==> borrow * p == p) by (nonlinear_arith);
        assert(borrow == 0 ==> borrow * p == 0) by (nonlinear_arith);
    }
    trimmed(r)
}

/// The sign of the difference of two numbers: -1, 0 or 1.
fn sign_of_difference(x: &Vec<u32>, y: &Vec<u32>) -> (s: i8)
    ensures
        s == -1 || s == 0 || s == 1,
        s == -1 <==> limbs_value(x@) < limbs_value(y@),
        s == 0 <==> limbs_value(x@) == limbs_value(y@),
{
    let n = longer(x, y);
    let a = padded(x, n);
    let b = padded(y, n);
    let mut s: i8 = 0;
    let mut i: usize = 0;
    while i < n
        invariant
            i <= n,
            a.len() == n,
            b.len() == n,
            s == -1 || s == 0 || s == 1,
            s == -1 <==> limbs_value(a@.take(i as int)) < limbs_value(b@.take(i as int)),
            s == 0 <==> limbs_value(a@.take(i as int)) == limbs_value(b@.take(i as int)),
        decreases n - i,
    {
        proof {
            lemma_value_take(a@, i as int);
            lemma_value_take(b@, i as int);
            lemma_value_bound(a@.take(i as int));
            lemma_value_bound(b@.take(i as int));
            let p = radix_pow(i as nat);
            let c = a[i as int] as nat;
            let d = b[i as int] as nat;
            assert(c < d ==> c * p + p <= d * p) by (nonlinear_arith)
                requires
                    p >= 0,
            ;
            assert(d < c ==> d * p + p <= c * p) by (nonlinear_arith)
                requires
                    p >= 0,
            ;
        }
        if a[i] < b[i] {
            s = -1;
        } else if a[i] > b[i] {
            s = 1;
        }
        i += 1;
    }
    proof {
        assert(a@.take(n as int) =~= a@);
        assert(b@.take(n as int) =~= b@);
    }
    s
}

/// The product of a number and a single limb.
fn mul_limb(a: &Vec<u32>, x: u32) -> (r: Vec<u32>)
    ensures
        limbs_value(r@) == limbs_value(a@) * x,
{
    let mut r: Vec<u32> = Vec::new();
    let mut carry: u64 = 0;
    let mut i: usize = 0;
    proof {
        assert(a@.take(0) =~= Seq::<u32>::empty());
        assert(0 * x == 0) by (nonlinear_arith);
        assert(0 * radix_pow(0) == 0) by (nonlinear_arith);
    }
    while i < a.len()
        invariant
            i <= a.len(),
            r.len() == i,
            carry < 0x1_0000_0000,
            limbs_value(r@) + carry * radix_pow(i as nat) == limbs_value(a@.take(i as int)) * x,
        decreases a.len() - i,
    {
        let limb: u64 = a[i] as u64;
        let factor: u64 = x as u64;
        assert(limb * factor <= 0xffff_ffff * 0xffff_ffff) by (nonlinear_arith)
            requires
                limb <= 0xffff_ffff,
                factor <= 0xffff_ffff,
        ;
        let t: u64 = limb * factor + carry;
        let low: u32 = (t % 0x1_0000_0000) as u32;
        let high: u64 = t / 0x1_0000_0000;
        proof {
            lemma_value_push(r@, low);
            lemma_value_take(a@, i as int);
            let p = radix_pow(i as nat);
            let v = limbs_value(a@.take(i as int));
            assert(radix_pow((i + 1) as nat) == radix() * p);
            assert(t == low + high * radix());
            assert((low + high * radix()) * p == low * p + high * (radix() * p))
                by (nonlinear_arith);
            assert((limb * factor + carry) * p == (limb * p) * factor + carry * p)
                by (nonlinear_arith);
            assert((v + limb * p) * factor == v * factor + (limb * p) * factor)
                by (nonlinear_arith);
        }
        r.push(low);
        carry = high;
        i += 1;
    }
    proof {
        assert(a@.take(a.len() as int) =~= a@);
        lemma_value_push(r@, carry as u32);
    }
    r.push(carry as u32);
    trimmed(r)
}

fn mul_limbs(x: &Vec<u32>, y: &Vec<u32>) -> (r: Vec<u32>)
    ensures
        limbs_value(r@) == limbs_value(x@) * limbs_value(y@),
{
    let mut acc: Vec<u32> = Vec::new();
    let mut i: usize = y.len();
    proof {
        assert(y@.skip(i as int) =~= Seq::<u32>::empty());
        assert(limbs_value(x@) * 0 == 0) by (nonlinear_arith);
    }
    while i > 0
        invariant
            i <= y.len(),
            limbs_value(acc@) == limbs_value(x@) * limbs_value(y@.skip(i as int)),
        decreases i,
    {
        i -= 1;
        let ghost before = acc@;
        acc.insert(0, 0);
        let part = mul_limb(x, y[i]);
        proof {
            assert(acc@ =~= seq![0u32] + before);
            lemma_value_cons(0, before);
            assert(y@.skip(i as int) =~= seq![y@[i as int]] + y@.skip(i + 1));
            lemma_value_cons(y@[i as int], y@.skip(i + 1));
            let a = limbs_value(x@);
            let top = limbs_value(y@.skip(i + 1));
            let d = y@[i as int] as nat;
            assert(radix() * (a * top) + a * d == a * (d + radix() * top)) by (nonlinear_arith);
        }
        acc = add_limbs(&acc, &part);
    }
    proof {
        assert(y@.skip(0) =~= y@);
    }
    acc
}

/// A natural number of arbitrary size.
#[derive(Debug)]
pub struct Natural {
    limbs: Vec<u32>,
}

impl View for Natural {
    type V = nat;

    /// The number itself.
    closed spec fn view(&self) -> nat {
        limbs_value(self.limbs@)
    }
}

impl Clone for Natural {
    fn clone(&self) -> (r: Natural)
        ensures
            r@ == self@,
    {
        Natural { limbs: copy_limbs(&self.limbs) }
    }
}

impl Natural {
    /// The number zero.
    pub fn zero() -> (r: Natural)
        ensures
            r@ == 0,
    {
        Natural { limbs: Vec::new() }
    }

    /// The number that `x` holds.
    pub fn from_u64(x: u64) -> (r: Natural)
        ensures
            r@ == x,
    {
        let low: u32 = (x % 0x1_0000_0000) as u32;
        let high: u32 = (x / 0x1_0000_0000) as u32;
        let mut limbs: Vec<u32> = Vec::new();
        proof {
            let none = limbs@;
            lemma_value_empty(none);
            lemma_value_push(none, low);
            lemma_value_push(none.push(low), high);
            lemma_radix_pow_unfold(0);
            let unit = radix_pow(0);
            let first = radix_pow(1);
            assert(first == radix()) by (nonlinear_arith)
                requires
                    first == radix() * unit,
                    unit == 1,
            ;
            assert(none.push(low).len() == 1);
            assert(low as nat * unit == low as nat) by (nonlinear_arith)
                requires
                    unit == 1,
            ;
            assert(limbs_value(none.push(low)) == low as nat);
            assert(limbs_value(none.push(low).push(high)) == low as nat + high as nat * radix());
            assert(x == low + high * radix());
        }
        limbs.push(low);
        limbs.push(high);
        Natural { limbs: trimmed(limbs) }
    }

    /// The limbs of the number, least significant first, without zero limbs at
    /// the most significant end.
    pub fn to_limbs(&self) -> (r: Vec<u32>)
        ensures
            limbs_value(r@) == self@,
            is_trimmed(r@),
    {
        trimmed(copy_limbs(&self.limbs))
    }

    /// Whether the number is zero.
    pub fn is_zero(&self) -> (r: bool)
        ensures
            r == (self@ == 0),
    {
        let mut i: usize = 0;
        proof {
            lemma_value_zero(self.limbs@);
        }
        while i < self.limbs.len()
            invariant
                i <= self.limbs.len(),
                forall|j: int| 0 <= j < i ==> self.limbs@[j] == 0,
                self@ == 0 <==> forall|j: int| 0 <= j < self.limbs@.len() ==> self.limbs@[j] == 0,
            decreases self.limbs.len() - i,
        {
            if self.limbs[i] != 0 {
                return false;
            }
            i += 1;
        }
        true
    }

    /// The sum of two numbers.
    pub fn add(&self, other: &Natural) -> (r: Natural)
        ensures
            r@ == self@ + other@,
    {
        Natural { limbs: add_limbs(&self.limbs, &other.limbs) }
    }

    /// The difference of two numbers, the first of which is not the smaller.
    pub fn sub(&self, other: &Natural) -> (r: Natural)
        requires
            self@ >= other@,
        ensures
            r@ == self@ - other@,
    {
        Natural { limbs: sub_limbs(&self.limbs, &other.limbs) }
    }

    /// The product of two numbers.
    pub fn mul(&self, other: &Natural) -> (r: Natural)
        ensures
            r@ == self@ * other@,
    {
        Natural { limbs: mul_limbs(&self.limbs, &other.limbs) }
    }

    /// Whether the first number is smaller than the second.
    pub fn lt(&self, other: &Natural) -> (r: bool)
        ensures
            r == (self@ < other@),
    {
        sign_of_difference(&self.limbs, &other.limbs) == -1
    }

    /// Whether the first number is at most the second.
    pub fn le(&self, other: &Natural) -> (r: bool)
        ensures
            r == (self@ <= other@),
    {
        sign_of_difference(&self.limbs, &other.limbs) != 1
    }

    /// Whether the two numbers are the same.
    pub fn same(&self, other: &Natural) -> (r: bool)
        ensures
            r == (self@ == other@),
    {
        sign_of_difference(&self.limbs, &other.limbs) == 0
    }
}

} // verus!
