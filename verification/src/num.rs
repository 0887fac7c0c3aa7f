//! What the element type supplies: two constants, and its arithmetic.

use num_traits::{One, Zero};
use std::ops::{Add, Div, Mul, Neg, Sub};
use vstd::prelude::*;

verus! {

/// `r` is a result of `a + b`, as the addition of `T` computes it.
pub open spec fn sum_of<T: Add<Output = T>>(a: T, b: T, r: T) -> bool {
    call_ensures(T::add, (a, b), r)
}

/// `r` is a result of `a - b`, as the subtraction of `T` computes it.
pub open spec fn difference_of<T: Sub<Output = T>>(a: T, b: T, r: T) -> bool {
    call_ensures(T::sub, (a, b), r)
}

/// `r` is a result of `a * b`, as the multiplication of `T` computes it.
pub open spec fn product_of_two<T: Mul<Output = T>>(a: T, b: T, r: T) -> bool {
    call_ensures(T::mul, (a, b), r)
}

/// `r` is a result of `a / b`, as the division of `T` computes it.
pub open spec fn quotient_of<T: Div<Output = T>>(a: T, b: T, r: T) -> bool {
    call_ensures(T::div, (a, b), r)
}

/// `r` is a result of `-a`, as the negation of `T` computes it.
pub open spec fn negative_of<T: Neg<Output = T>>(a: T, r: T) -> bool {
    call_ensures(T::neg, (a,), r)
}

/// `num_traits::Zero::zero`: the additive identity of `T`. Nothing is
/// claimed of the value.
#[verifier::external_body]
pub(crate) fn zero<T: Zero>() -> T {
    T::zero()
}

/// `num_traits::One::one`: the multiplicative identity of `T`. Nothing is
/// claimed of the value.
#[verifier::external_body]
pub(crate) fn one<T: One>() -> T {
    T::one()
}

} // verus!
