//! Differentiable scalars: a value together with its derivative, carried
//! through arithmetic by the rules of differentiation.

use crate::num::{
    difference_of, negative_of, one, product_of_two, quotient_of, sum_of, zero,
};
use crate::scalar::Scalar;
use num_traits::{One, Zero};
use std::ops::{Add, Div, Mul, Neg, Sub};
use vstd::prelude::*;
use vstd::std_specs::ops::{AddSpec, DivSpec, MulSpec, NegSpec, SubSpec};

verus! {

/// A value `v` and its derivative `d`.
#[derive(Default, Debug, Clone, Copy, PartialEq)]
pub struct ADScalar<T> {
    pub v: T,
    pub d: T,
}

/// `r` is a product of `a` and `b` by the product rule: its value is a
/// product of the values, and its derivative a sum of a product of the first
/// derivative with the second value and a product of the first value with
/// the second derivative.
pub open spec fn product_rule<T: Add<Output = T> + Mul<Output = T>>(
    a: ADScalar<T>,
    b: ADScalar<T>,
    r: ADScalar<T>,
) -> bool {
    &&& product_of_two(a.v, b.v, r.v)
    &&& exists|p: T, q: T|
        #![trigger sum_of(p, q, r.d)]
        product_of_two(a.d, b.v, p) && product_of_two(a.v, b.d, q) && sum_of(p, q, r.d)
}

/// `r` is a quotient of `a` by `b` by the quotient rule: its value is a
/// quotient of the values, and its derivative a quotient whose numerator is
/// a difference of the two cross products and whose denominator is a square
/// of the second value.
pub open spec fn quotient_rule<T: Sub<Output = T> + Mul<Output = T> + Div<Output = T>>(
    a: ADScalar<T>,
    b: ADScalar<T>,
    r: ADScalar<T>,
) -> bool {
    &&& quotient_of(a.v, b.v, r.v)
    &&& exists|p: T, q: T, n: T, s: T|
        #![trigger difference_of(p, q, n), quotient_of(n, s, r.d)]
        product_of_two(a.d, b.v, p) && product_of_two(a.v, b.d, q) && difference_of(p, q, n)
            && product_of_two(b.v, b.v, s) && quotient_of(n, s, r.d)
}

impl<T> ADScalar<T> {
    /// The scalar with the value `v` and the derivative `d`.
    pub fn with(v: T, d: T) -> (r: ADScalar<T>)
        ensures
            r.v == v,
            r.d == d,
    {
        ADScalar { v, d }
    }

    /// The variable with the value `v`: its derivative is the multiplicative
    /// identity of `T`.
    pub fn new(v: T) -> (r: ADScalar<T>) where T: One
        ensures
            r.v == v,
    {
        ADScalar { v, d: one::<T>() }
    }

    /// The constant with the value `v`: its derivative is the additive
    /// identity of `T`.
    pub fn constant(v: T) -> (r: ADScalar<T>) where T: Zero
        ensures
            r.v == v,
    {
        ADScalar { v, d: zero::<T>() }
    }

    /// The value.
    pub fn v(self) -> (r: T) where T: Copy
        ensures
            r == self.v,
    {
        self.v
    }

    /// The derivative.
    pub fn d(self) -> (r: T) where T: Copy
        ensures
            r == self.d,
    {
        self.d
    }
}

impl<T: Add<Output = T> + Copy> Add<ADScalar<T>> for ADScalar<T> {
    type Output = ADScalar<T>;

    /// The sum of two differentiable scalars: the sum of the values, and the sum of
    /// the derivatives.
    fn add(self, rhs: ADScalar<T>) -> (r: ADScalar<T>)
        ensures
            sum_of(self.v, rhs.v, r.v),
            sum_of(self.d, rhs.d, r.d),
    {
        ADScalar { v: self.v + rhs.v, d: self.d + rhs.d }
    }
}

impl<T: Add<Output = T> + Copy> vstd::std_specs::ops::AddSpecImpl<ADScalar<T>> for ADScalar<T> {
    open spec fn obeys_add_spec() -> bool {
        T::obeys_add_spec()
    }

    open spec fn add_req(self, rhs: ADScalar<T>) -> bool {
        self.v.add_req(rhs.v) && self.d.add_req(rhs.d)
    }

    open spec fn add_spec(self, rhs: ADScalar<T>) -> ADScalar<T> {
        ADScalar { v: self.v.add_spec(rhs.v), d: self.d.add_spec(rhs.d) }
    }
}

impl<T: Add<Output = T> + Copy> Add<Scalar<T>> for ADScalar<T> {
    type Output = ADScalar<T>;

    /// The sum of a differentiable scalar and a constant: the derivative is that of the
    /// first.
    fn add(self, rhs: Scalar<T>) -> (r: ADScalar<T>)
        ensures
            sum_of(self.v, rhs.v, r.v),
            r.d == self.d,
    {
        ADScalar { v: self.v + rhs.v, d: self.d }
    }
}

impl<T: Add<Output = T> + Copy> vstd::std_specs::ops::AddSpecImpl<Scalar<T>> for ADScalar<T> {
    open spec fn obeys_add_spec() -> bool {
        T::obeys_add_spec()
    }

    open spec fn add_req(self, rhs: Scalar<T>) -> bool {
        self.v.add_req(rhs.v)
    }

    open spec fn add_spec(self, rhs: Scalar<T>) -> ADScalar<T> {
        ADScalar { v: self.v.add_spec(rhs.v), d: self.d }
    }
}

impl<T: Sub<Output = T> + Copy> Sub<ADScalar<T>> for ADScalar<T> {
    type Output = ADScalar<T>;

    /// The difference of two differentiable scalars: the difference of the values, and the difference of
    /// the derivatives.
    fn sub(self, rhs: ADScalar<T>) -> (r: ADScalar<T>)
        ensures
            difference_of(self.v, rhs.v, r.v),
            difference_of(self.d, rhs.d, r.d),
    {
        ADScalar { v: self.v - rhs.v, d: self.d - rhs.d }
    }
}

impl<T: Sub<Output = T> + Copy> vstd::std_specs::ops::SubSpecImpl<ADScalar<T>> for ADScalar<T> {
    open spec fn obeys_sub_spec() -> bool {
        T::obeys_sub_spec()
    }

    open spec fn sub_req(self, rhs: ADScalar<T>) -> bool {
        self.v.sub_req(rhs.v) && self.d.sub_req(rhs.d)
    }

    open spec fn sub_spec(self, rhs: ADScalar<T>) -> ADScalar<T> {
        ADScalar { v: self.v.sub_spec(rhs.v), d: self.d.sub_spec(rhs.d) }
    }
}

impl<T: Sub<Output = T> + Copy> Sub<Scalar<T>> for ADScalar<T> {
    type Output = ADScalar<T>;

    /// The difference of a differentiable scalar and a constant: the derivative is that of the
    /// first.
    fn sub(self, rhs: Scalar<T>) -> (r: ADScalar<T>)
        ensures
            difference_of(self.v, rhs.v, r.v),
            r.d == self.d,
    {
        ADScalar { v: self.v - rhs.v, d: self.d }
    }
}

impl<T: Sub<Output = T> + Copy> vstd::std_specs::ops::SubSpecImpl<Scalar<T>> for ADScalar<T> {
    open spec fn obeys_sub_spec() -> bool {
        T::obeys_sub_spec()
    }

    open spec fn sub_req(self, rhs: Scalar<T>) -> bool {
        self.v.sub_req(rhs.v)
    }

    open spec fn sub_spec(self, rhs: Scalar<T>) -> ADScalar<T> {
        ADScalar { v: self.v.sub_spec(rhs.v), d: self.d }
    }
}

impl<T: Add<Output = T> + Copy> Add<ADScalar<T>> for Scalar<T> {
    type Output = ADScalar<T>;

    /// The sum of a constant and a differentiable scalar: the derivative is that of the
    /// second.
    fn add(self, rhs: ADScalar<T>) -> (r: ADScalar<T>)
        ensures
            sum_of(self.v, rhs.v, r.v),
            r.d == rhs.d,
    {
        ADScalar { v: self.v + rhs.v, d: rhs.d }
    }
}

impl<T: Add<Output = T> + Copy> vstd::std_specs::ops::AddSpecImpl<ADScalar<T>> for Scalar<T> {
    open spec fn obeys_add_spec() -> bool {
        T::obeys_add_spec()
    }

    open spec fn add_req(self, rhs: ADScalar<T>) -> bool {
        self.v.add_req(rhs.v)
    }

    open spec fn add_spec(self, rhs: ADScalar<T>) -> ADScalar<T> {
        ADScalar { v: self.v.add_spec(rhs.v), d: rhs.d }
    }
}

impl<T: Add<Output = T> + Mul<Output = T> + Copy> Mul<ADScalar<T>> for ADScalar<T> {
    type Output = ADScalar<T>;

    /// The product of two differentiable scalars, by the product rule.
    fn mul(self, rhs: ADScalar<T>) -> (r: ADScalar<T>)
        ensures
            product_rule(self, rhs, r),
    {
        let p = self.d * rhs.v;
        let q = self.v * rhs.d;
        let d = p + q;
        let r = ADScalar { v: self.v * rhs.v, d };
        assert(product_of_two(self.d, rhs.v, p) && product_of_two(self.v, rhs.d, q) && sum_of(
            p,
            q,
            r.d,
        ));
        r
    }
}

impl<T: Add<Output = T> + Mul<Output = T> + Copy> vstd::std_specs::ops::MulSpecImpl<ADScalar<T>> for ADScalar<T> {
    open spec fn obeys_mul_spec() -> bool {
        T::obeys_mul_spec() && T::obeys_add_spec()
    }

    open spec fn mul_req(self, rhs: ADScalar<T>) -> bool {
        &&& self.v.mul_req(rhs.v)
        &&& self.d.mul_req(rhs.v)
        &&& self.v.mul_req(rhs.d)
        &&& forall|p: T, q: T|
            product_of_two(self.d, rhs.v, p) && product_of_two(self.v, rhs.d, q) ==> #[trigger] p.add_req(
                q,
            )
    }

    open spec fn mul_spec(self, rhs: ADScalar<T>) -> ADScalar<T> {
        ADScalar {
            v: self.v.mul_spec(rhs.v),
            d: self.d.mul_spec(rhs.v).add_spec(self.v.mul_spec(rhs.d)),
        }
    }
}

impl<T: Add<Output = T> + Mul<Output = T> + Copy> Mul<Scalar<T>> for ADScalar<T> {
    type Output = ADScalar<T>;

    /// The product of a differentiable scalar and a constant: value and derivative are
    /// scaled.
    fn mul(self, rhs: Scalar<T>) -> (r: ADScalar<T>)
        ensures
            product_of_two(self.v, rhs.v, r.v),
            product_of_two(self.d, rhs.v, r.d),
    {
        ADScalar { v: self.v * rhs.v, d: self.d * rhs.v }
    }
}

impl<T: Add<Output = T> + Mul<Output = T> + Copy> vstd::std_specs::ops::MulSpecImpl<Scalar<T>> for ADScalar<T> {
    open spec fn obeys_mul_spec() -> bool {
        T::obeys_mul_spec()
    }

    open spec fn mul_req(self, rhs: Scalar<T>) -> bool {
        self.v.mul_req(rhs.v) && self.d.mul_req(rhs.v)
    }

    open spec fn mul_spec(self, rhs: Scalar<T>) -> ADScalar<T> {
        ADScalar { v: self.v.mul_spec(rhs.v), d: self.d.mul_spec(rhs.v) }
    }
}

impl<T: Add<Output = T> + Mul<Output = T> + Copy> Mul<ADScalar<T>> for Scalar<T> {
    type Output = ADScalar<T>;

    /// The product of a constant and a differentiable scalar: value and derivative are
    /// scaled.
    fn mul(self, rhs: ADScalar<T>) -> (r: ADScalar<T>)
        ensures
            product_of_two(self.v, rhs.v, r.v),
            product_of_two(self.v, rhs.d, r.d),
    {
        ADScalar { v: self.v * rhs.v, d: self.v * rhs.d }
    }
}

impl<T: Add<Output = T> + Mul<Output = T> + Copy> vstd::std_specs::ops::MulSpecImpl<ADScalar<T>> for Scalar<T> {
    open spec fn obeys_mul_spec() -> bool {
        T::obeys_mul_spec()
    }

    open spec fn mul_req(self, rhs: ADScalar<T>) -> bool {
        self.v.mul_req(rhs.v) && self.v.mul_req(rhs.d)
    }

    open spec fn mul_spec(self, rhs: ADScalar<T>) -> ADScalar<T> {
        ADScalar { v: self.v.mul_spec(rhs.v), d: self.v.mul_spec(rhs.d) }
    }
}

impl<T: Sub<Output = T> + Mul<Output = T> + Div<Output = T> + Copy> Div<ADScalar<T>> for ADScalar<T> {
    type Output = ADScalar<T>;

    /// The quotient of two differentiable scalars, by the quotient rule.
    fn div(self, rhs: ADScalar<T>) -> (r: ADScalar<T>)
        ensures
            quotient_rule(self, rhs, r),
    {
        let p = self.d * rhs.v;
        let q = self.v * rhs.d;
        let n = p - q;
        let s = rhs.v * rhs.v;
        assert(difference_of(p, q, n) && product_of_two(rhs.v, rhs.v, s));
        let d = n / s;
        let r = ADScalar { v: self.v / rhs.v, d };
        assert(product_of_two(self.d, rhs.v, p) && product_of_two(self.v, rhs.d, q) && difference_of(
            p,
            q,
            n,
        ) && product_of_two(rhs.v, rhs.v, s) && quotient_of(n, s, r.d));
        r
    }
}

impl<T: Sub<Output = T> + Mul<Output = T> + Div<Output = T> + Copy> vstd::std_specs::ops::DivSpecImpl<ADScalar<T>> for ADScalar<T> {
    open spec fn obeys_div_spec() -> bool {
        T::obeys_div_spec() && T::obeys_mul_spec() && T::obeys_sub_spec()
    }

    open spec fn div_req(self, rhs: ADScalar<T>) -> bool {
        &&& self.v.div_req(rhs.v)
        &&& self.d.mul_req(rhs.v)
        &&& self.v.mul_req(rhs.d)
        &&& rhs.v.mul_req(rhs.v)
        &&& forall|p: T, q: T|
            product_of_two(self.d, rhs.v, p) && product_of_two(self.v, rhs.d, q) ==> #[trigger] p.sub_req(
                q,
            )
        &&& forall|p: T, q: T, n: T, s: T|
            #![trigger difference_of(p, q, n), n.div_req(s)]
            product_of_two(self.d, rhs.v, p) && product_of_two(self.v, rhs.d, q) && difference_of(
                p,
                q,
                n,
            ) && product_of_two(rhs.v, rhs.v, s) ==> n.div_req(s)
    }

    open spec fn div_spec(self, rhs: ADScalar<T>) -> ADScalar<T> {
        ADScalar {
            v: self.v.div_spec(rhs.v),
            d: self.d.mul_spec(rhs.v).sub_spec(self.v.mul_spec(rhs.d)).div_spec(
                rhs.v.mul_spec(rhs.v),
            ),
        }
    }
}

impl<T: Sub<Output = T> + Mul<Output = T> + Div<Output = T> + Copy> Div<Scalar<T>> for ADScalar<T> {
    type Output = ADScalar<T>;

    /// The quotient of a differentiable scalar by a constant: value and derivative are
    /// scaled.
    fn div(self, rhs: Scalar<T>) -> (r: ADScalar<T>)
        ensures
            quotient_of(self.v, rhs.v, r.v),
            quotient_of(self.d, rhs.v, r.d),
    {
        ADScalar { v: self.v / rhs.v, d: self.d / rhs.v }
    }
}

impl<T: Sub<Output = T> + Mul<Output = T> + Div<Output = T> + Copy> vstd::std_specs::ops::DivSpecImpl<Scalar<T>> for ADScalar<T> {
    open spec fn obeys_div_spec() -> bool {
        T::obeys_div_spec()
    }

    open spec fn div_req(self, rhs: Scalar<T>) -> bool {
        self.v.div_req(rhs.v) && self.d.div_req(rhs.v)
    }

    open spec fn div_spec(self, rhs: Scalar<T>) -> ADScalar<T> {
        ADScalar { v: self.v.div_spec(rhs.v), d: self.d.div_spec(rhs.v) }
    }
}

/// `r` is a quotient of the constant `a` by `b`: its value is a quotient of
/// the values, and its derivative a quotient whose numerator is the negative
/// of a product of the constant with the derivative of `b`, and whose
/// denominator is a square of the value of `b`.
pub open spec fn reciprocal_rule<
    T: Sub<Output = T> + Mul<Output = T> + Div<Output = T> + Neg<Output = T>,
>(a: Scalar<T>, b: ADScalar<T>, r: ADScalar<T>) -> bool {
    &&& quotient_of(a.v, b.v, r.v)
    &&& exists|p: T, n: T, s: T|
        #![trigger negative_of(p, n), quotient_of(n, s, r.d)]
        product_of_two(a.v, b.d, p) && negative_of(p, n) && product_of_two(b.v, b.v, s)
            && quotient_of(n, s, r.d)
}

impl<T: Sub<Output = T> + Mul<Output = T> + Div<Output = T> + Neg<Output = T> + Copy> Div<ADScalar<T>> for Scalar<T> {
    type Output = ADScalar<T>;

    /// The quotient of a constant by a differentiable scalar.
    fn div(self, rhs: ADScalar<T>) -> (r: ADScalar<T>)
        ensures
            reciprocal_rule(self, rhs, r),
    {
        let p = self.v * rhs.d;
        assert(product_of_two(self.v, rhs.d, p));
        let n = p.neg();
        let s = rhs.v * rhs.v;
        assert(negative_of(p, n) && product_of_two(rhs.v, rhs.v, s));
        let d = n / s;
        let r = ADScalar { v: self.v / rhs.v, d };
        assert(product_of_two(self.v, rhs.d, p) && negative_of(p, n) && product_of_two(
            rhs.v,
            rhs.v,
            s,
        ) && quotient_of(n, s, r.d));
        r
    }
}

impl<T: Sub<Output = T> + Mul<Output = T> + Div<Output = T> + Neg<Output = T> + Copy> vstd::std_specs::ops::DivSpecImpl<ADScalar<T>> for Scalar<T> {
    open spec fn obeys_div_spec() -> bool {
        T::obeys_div_spec() && T::obeys_mul_spec() && T::obeys_neg_spec()
    }

    open spec fn div_req(self, rhs: ADScalar<T>) -> bool {
        &&& self.v.div_req(rhs.v)
        &&& self.v.mul_req(rhs.d)
        &&& rhs.v.mul_req(rhs.v)
        &&& forall|p: T| product_of_two(self.v, rhs.d, p) ==> #[trigger] p.neg_req()
        &&& forall|p: T, n: T, s: T|
            #![trigger negative_of(p, n), n.div_req(s)]
            product_of_two(self.v, rhs.d, p) && negative_of(p, n) && product_of_two(rhs.v, rhs.v, s)
                ==> n.div_req(s)
    }

    open spec fn div_spec(self, rhs: ADScalar<T>) -> ADScalar<T> {
        ADScalar {
            v: self.v.div_spec(rhs.v),
            d: self.v.mul_spec(rhs.d).neg_spec().div_spec(rhs.v.mul_spec(rhs.v)),
        }
    }
}

impl<T: Neg<Output = T>> Neg for ADScalar<T> {
    type Output = ADScalar<T>;

    /// The negative: of the value, and of the derivative.
    fn neg(self) -> (r: ADScalar<T>)
        ensures
            negative_of(self.v, r.v),
            negative_of(self.d, r.d),
    {
        ADScalar { v: self.v.neg(), d: self.d.neg() }
    }
}

impl<T: Neg<Output = T>> vstd::std_specs::ops::NegSpecImpl for ADScalar<T> {
    open spec fn obeys_neg_spec() -> bool {
        T::obeys_neg_spec()
    }

    open spec fn neg_req(self) -> bool {
        self.v.neg_req() && self.d.neg_req()
    }

    open spec fn neg_spec(self) -> ADScalar<T> {
        ADScalar { v: self.v.neg_spec(), d: self.d.neg_spec() }
    }
}

} // verus!
