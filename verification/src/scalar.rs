//! A plain scalar: a value that takes part in arithmetic with
//! differentiable scalars and carries no derivative of its own.

use crate::num::{difference_of, negative_of, product_of_two, quotient_of, sum_of};
use std::ops::{Add, Div, Mul, Neg, Sub};
use vstd::prelude::*;
use vstd::std_specs::ops::{AddSpec, DivSpec, MulSpec, NegSpec, SubSpec};

verus! {

/// A scalar constant.
#[derive(Default, Debug, Clone, Copy, PartialEq)]
pub struct Scalar<T> {
    pub v: T,
}

impl<T> Scalar<T> {
    /// The scalar with the value `v`.
    pub fn new(v: T) -> (r: Scalar<T>)
        ensures
            r.v == v,
    {
        Scalar { v }
    }

    /// The value.
    pub fn v(self) -> (r: T) where T: Copy
        ensures
            r == self.v,
    {
        self.v
    }
}

impl<T> From<T> for Scalar<T> {
    /// The scalar with the value `v`.
    fn from(v: T) -> (r: Scalar<T>)
        ensures
            r.v == v,
    {
        Scalar { v }
    }
}

impl<T> vstd::std_specs::convert::FromSpecImpl<T> for Scalar<T> {
    open spec fn obeys_from_spec() -> bool {
        true
    }

    open spec fn from_spec(v: T) -> Scalar<T> {
        Scalar { v }
    }
}

impl<T: Add<Output = T> + Copy> Add<Scalar<T>> for Scalar<T> {
    type Output = Scalar<T>;

    /// The sum of two scalars.
    fn add(self, rhs: Scalar<T>) -> (r: Scalar<T>)
        ensures
            sum_of(self.v, rhs.v, r.v),
    {
        Scalar { v: self.v + rhs.v }
    }
}

impl<T: Add<Output = T> + Copy> vstd::std_specs::ops::AddSpecImpl<Scalar<T>> for Scalar<T> {
    open spec fn obeys_add_spec() -> bool {
        T::obeys_add_spec()
    }

    open spec fn add_req(self, rhs: Scalar<T>) -> bool {
        self.v.add_req(rhs.v)
    }

    open spec fn add_spec(self, rhs: Scalar<T>) -> Scalar<T> {
        Scalar { v: self.v.add_spec(rhs.v) }
    }
}

impl<T: Sub<Output = T> + Copy> Sub<Scalar<T>> for Scalar<T> {
    type Output = Scalar<T>;

    /// The difference of two scalars.
    fn sub(self, rhs: Scalar<T>) -> (r: Scalar<T>)
        ensures
            difference_of(self.v, rhs.v, r.v),
    {
        Scalar { v: self.v - rhs.v }
    }
}

impl<T: Sub<Output = T> + Copy> vstd::std_specs::ops::SubSpecImpl<Scalar<T>> for Scalar<T> {
    open spec fn obeys_sub_spec() -> bool {
        T::obeys_sub_spec()
    }

    open spec fn sub_req(self, rhs: Scalar<T>) -> bool {
        self.v.sub_req(rhs.v)
    }

    open spec fn sub_spec(self, rhs: Scalar<T>) -> Scalar<T> {
        Scalar { v: self.v.sub_spec(rhs.v) }
    }
}

impl<T: Mul<Output = T> + Copy> Mul<Scalar<T>> for Scalar<T> {
    type Output = Scalar<T>;

    /// The product of two scalars.
    fn mul(self, rhs: Scalar<T>) -> (r: Scalar<T>)
        ensures
            product_of_two(self.v, rhs.v, r.v),
    {
        Scalar { v: self.v * rhs.v }
    }
}

impl<T: Mul<Output = T> + Copy> vstd::std_specs::ops::MulSpecImpl<Scalar<T>> for Scalar<T> {
    open spec fn obeys_mul_spec() -> bool {
        T::obeys_mul_spec()
    }

    open spec fn mul_req(self, rhs: Scalar<T>) -> bool {
        self.v.mul_req(rhs.v)
    }

    open spec fn mul_spec(self, rhs: Scalar<T>) -> Scalar<T> {
        Scalar { v: self.v.mul_spec(rhs.v) }
    }
}

impl<T: Div<Output = T> + Copy> Div<Scalar<T>> for Scalar<T> {
    type Output = Scalar<T>;

    /// The quotient of two scalars.
    fn div(self, rhs: Scalar<T>) -> (r: Scalar<T>)
        ensures
            quotient_of(self.v, rhs.v, r.v),
    {
        Scalar { v: self.v / rhs.v }
    }
}

impl<T: Div<Output = T> + Copy> vstd::std_specs::ops::DivSpecImpl<Scalar<T>> for Scalar<T> {
    open spec fn obeys_div_spec() -> bool {
        T::obeys_div_spec()
    }

    open spec fn div_req(self, rhs: Scalar<T>) -> bool {
        self.v.div_req(rhs.v)
    }

    open spec fn div_spec(self, rhs: Scalar<T>) -> Scalar<T> {
        Scalar { v: self.v.div_spec(rhs.v) }
    }
}

impl<T: Neg<Output = T>> Neg for Scalar<T> {
    type Output = Scalar<T>;

    /// The negative of a scalar.
    fn neg(self) -> (r: Scalar<T>)
        ensures
            negative_of(self.v, r.v),
    {
        Scalar { v: self.v.neg() }
    }
}

impl<T: Neg<Output = T>> vstd::std_specs::ops::NegSpecImpl for Scalar<T> {
    open spec fn obeys_neg_spec() -> bool {
        T::obeys_neg_spec()
    }

    open spec fn neg_req(self) -> bool {
        self.v.neg_req()
    }

    open spec fn neg_spec(self) -> Scalar<T> {
        Scalar { v: self.v.neg_spec() }
    }
}

} // verus!
