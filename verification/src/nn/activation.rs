//! Activations: functions applied to a tensor element by element.

use crate::autograd::adtensor::{recorded, ADTensor};
use crate::autograd::graph::Graph;
use crate::num::{one, zero};
use crate::tensor::{Tensor, TensorView};
use num_traits::{One, Zero};
use std::marker::PhantomData;
use vstd::prelude::*;

verus! {

/// A function that is applied to a tensor element by element.
pub trait Activation<T> {
    /// Whether the function leaves every tensor as it is, so that a layer
    /// may skip it.
    fn is_identity(&self) -> bool;

    /// The function applied to `x`: a tensor of the same shape.
    fn eval(&self, x: &Tensor<T>) -> (y: Tensor<T>)
        requires
            x@.full(),
        ensures
            y@.shape == x@.shape,
            y@.full(),
    ;

    /// The function applied to a value of the forward pass: a value of the
    /// same shape, with what the function records in the graph.
    fn forward(&self, x: &ADTensor<T>, g: &mut Graph<T>) -> (y: ADTensor<T>)
        requires
            old(g).wf(),
            x.within(old(g)),
        ensures
            final(g).wf(),
            final(g).params() == old(g).params(),
            y.within(final(g)),
            y.v@.shape == x.v@.shape,
    ;
}

/// The activation that does nothing.
#[derive(Debug, Default)]
pub struct Identity<T> {
    _t: PhantomData<T>,
}

impl<T> Identity<T> {
    /// The identity.
    pub fn new() -> Identity<T> {
        Identity { _t: PhantomData }
    }
}

impl<T: Copy> Activation<T> for Identity<T> {
    /// Always true.
    fn is_identity(&self) -> (r: bool)
        ensures
            r,
    {
        true
    }

    /// A copy of `x`.
    fn eval(&self, x: &Tensor<T>) -> (y: Tensor<T>)
        ensures
            y@ == x@,
    {
        x.copy()
    }

    /// A copy of `x`, with the same vertex; nothing is recorded.
    fn forward(&self, x: &ADTensor<T>, g: &mut Graph<T>) -> (y: ADTensor<T>)
        ensures
            y.v@ == x.v@,
            y.i == x.i,
            final(g).ledger() == old(g).ledger(),
    {
        x.copy()
    }
}

/// `b` is what the comparison `x > y` of `T` gave.
pub open spec fn above<T: PartialOrd>(x: T, y: T, b: bool) -> bool {
    call_ensures(T::gt, (&x, &y), b)
}

/// `y` is the step of `x` between `lo` and `hi`: `hi` where the comparison of
/// `T` finds `x` above `lo`, and `lo` elsewhere.
pub open spec fn step_between<T: PartialOrd>(x: T, lo: T, hi: T, y: T) -> bool {
    exists|b: bool| #[trigger] above(x, lo, b) && y == (if b { hi } else { lo })
}

/// The hard step: the upper value where an element is above the lower value,
/// and the lower value elsewhere. The step is flat almost everywhere, and the
/// value `flat` is recorded as its derivative everywhere: the zero of the
/// element type.
#[derive(Debug, Clone, Copy, PartialEq)]
pub struct Step<T> {
    pub lo: T,
    pub hi: T,
    pub flat: T,
}

impl<T> Step<T> {
    /// The step from the additive to the multiplicative identity of `T`,
    /// with the additive identity as its derivative: the step between the
    /// values that `T` supplies.
    pub fn new() -> Step<T> where T: Zero + One {
        Step::between(zero::<T>(), one::<T>(), zero::<T>())
    }

    /// The step from `lo` to `hi` whose derivative is recorded as `flat`.
    pub fn between(lo: T, hi: T, flat: T) -> (r: Step<T>)
        ensures
            r.lo == lo,
            r.hi == hi,
            r.flat == flat,
    {
        Step { lo, hi, flat }
    }
}

impl<T: Copy + PartialOrd> Activation<T> for Step<T> {
    /// Never true.
    fn is_identity(&self) -> (r: bool)
        ensures
            !r,
    {
        false
    }

    /// The step of each element of `x`.
    fn eval(&self, x: &Tensor<T>) -> (y: Tensor<T>)
        ensures
            forall|i: int|
                0 <= i < x@.data.len() ==> step_between(
                    x@.data[i],
                    self.lo,
                    self.hi,
                    #[trigger] y@.data[i],
                ),
    {
        let lo = self.lo;
        let hi = self.hi;
        let f = |a: T| -> (r: T)
            ensures
                step_between(a, lo, hi, r),
            {
                let b = a > lo;
                assert(above(a, lo, b));
                if b {
                    hi
                } else {
                    lo
                }
            };
        x.map(f)
    }

    /// The step of each element of `x`. Where `x` has a vertex, the local
    /// derivative is recorded: the tensor of the shape of `x` filled with the
    /// value `flat`.
    fn forward(&self, x: &ADTensor<T>, g: &mut Graph<T>) -> (y: ADTensor<T>)
        ensures
            forall|i: int|
                0 <= i < x.v@.data.len() ==> step_between(
                    x.v@.data[i],
                    self.lo,
                    self.hi,
                    #[trigger] y.v@.data[i],
                ),
            recorded(
                old(g),
                final(g),
                x.i,
                TensorView::filled(x.v@.shape, self.flat),
                None,
                TensorView::filled(x.v@.shape, self.flat),
                y.i,
            ),
    {
        let v = self.eval(&x.v);
        proof {
            // A full tensor has as many elements as its buffer, which fits.
            assert(x.v.v@.len() == x.v.v.len());
        }
        let d = Tensor::shape_elem(x.v.s.copy(), self.flat);
        let i = crate::autograd::adtensor::note(g, x.i, &d, None, &d);
        ADTensor { v, i }
    }
}

} // verus!
