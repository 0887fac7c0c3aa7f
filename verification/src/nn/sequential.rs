//! Layers in a row: what it is to run a layer, and the layer that runs one
//! layer on the result of another.

use crate::nn::activation::{step_between, Activation, Identity, Step};
use crate::tensor::Tensor;
use vstd::prelude::*;

verus! {

/// A layer that is run on an input and may change as it runs.
pub trait Forward<X> {
    /// What the layer returns.
    type Y;

    /// The layer can be run on `x`. A layer that does not say otherwise can
    /// be run on every input.
    open spec fn runs(&self, x: X) -> bool {
        true
    }

    /// Run on `x`, the layer has returned `y` and has become `after`. A
    /// layer that does not say otherwise promises nothing of the two.
    open spec fn gives(&self, x: X, after: &Self, y: Self::Y) -> bool {
        true
    }

    /// Runs the layer on `x`.
    fn forward(&mut self, x: X) -> (y: Self::Y)
        requires
            old(self).runs(x),
        ensures
            old(self).gives(x, final(self), y),
    ;
}

/// Something that is evaluated on an input and does not change.
pub trait Evaluate<X> {
    /// What the evaluation returns.
    type Y;

    /// This can be evaluated on `x`: on every input, unless it says
    /// otherwise.
    open spec fn evaluates(&self, x: X) -> bool {
        true
    }

    /// Evaluated on `x`, this returns `y`. Nothing is promised of `y` unless
    /// it says otherwise.
    open spec fn value(&self, x: X, y: Self::Y) -> bool {
        true
    }

    /// Evaluates this on `x`.
    fn eval(&self, x: &X) -> (y: Self::Y)
        requires
            self.evaluates(*x),
        ensures
            self.value(*x, y),
    ;
}

/// Two layers in a row: the second runs on what the first returns.
#[derive(Debug)]
pub struct Sequential<A, B> {
    pub a: A,
    pub b: B,
}

impl<A, B> Sequential<A, B> {
    /// The layer `a` followed by the layer `b`.
    pub fn new(a: A, b: B) -> (s: Sequential<A, B>)
        ensures
            s.a == a,
            s.b == b,
    {
        Sequential { a, b }
    }
}

impl<X, A: Forward<X>, B: Forward<A::Y>> Forward<X> for Sequential<A, B> {
    type Y = B::Y;

    open spec fn runs(&self, x: X) -> bool {
        &&& self.a.runs(x)
        &&& forall|after: A, y: A::Y| #[trigger] self.a.gives(x, &after, y) ==> self.b.runs(y)
    }

    open spec fn gives(&self, x: X, after: &Self, y: B::Y) -> bool {
        exists|mid: A::Y| #[trigger] self.a.gives(x, &after.a, mid) && self.b.gives(mid, &after.b, y)
    }

    /// Runs the first layer on `x`, and the second on what the first has
    /// returned.
    fn forward(&mut self, x: X) -> (y: B::Y) {
        let ghost a0 = self.a;
        let ghost b0 = self.b;
        let mid = self.a.forward(x);
        let ghost m = mid;
        let y = self.b.forward(mid);
        assert(a0.gives(x, &self.a, m) && b0.gives(m, &self.b, y));
        y
    }
}

impl<X, A: Evaluate<X>, B: Evaluate<A::Y>> Evaluate<X> for Sequential<A, B> {
    type Y = B::Y;

    open spec fn evaluates(&self, x: X) -> bool {
        &&& self.a.evaluates(x)
        &&& forall|y: A::Y| #[trigger] self.a.value(x, y) ==> self.b.evaluates(y)
    }

    open spec fn value(&self, x: X, y: B::Y) -> bool {
        exists|mid: A::Y| #[trigger] self.a.value(x, mid) && self.b.value(mid, y)
    }

    /// Evaluates the first on `x`, and the second on what the first has
    /// returned.
    fn eval(&self, x: &X) -> (y: B::Y) {
        let mid = self.a.eval(x);
        self.b.eval(&mid)
    }
}

impl<T: Copy> Evaluate<Tensor<T>> for Identity<T> {
    type Y = Tensor<T>;

    open spec fn value(&self, x: Tensor<T>, y: Tensor<T>) -> bool {
        y@ == x@
    }

    /// A copy of `x`.
    fn eval(&self, x: &Tensor<T>) -> (y: Tensor<T>) {
        x.copy()
    }
}

impl<T: Copy> Forward<Tensor<T>> for Identity<T> {
    type Y = Tensor<T>;

    open spec fn gives(&self, x: Tensor<T>, after: &Self, y: Tensor<T>) -> bool {
        y == x
    }

    /// The input itself.
    fn forward(&mut self, x: Tensor<T>) -> (y: Tensor<T>) {
        x
    }
}

impl<T: Copy + PartialOrd> Evaluate<Tensor<T>> for Step<T> {
    type Y = Tensor<T>;

    open spec fn evaluates(&self, x: Tensor<T>) -> bool {
        x@.full()
    }

    open spec fn value(&self, x: Tensor<T>, y: Tensor<T>) -> bool {
        &&& y@.shape == x@.shape
        &&& y@.full()
        &&& forall|i: int|
            0 <= i < x@.data.len() ==> step_between(
                x@.data[i],
                self.lo,
                self.hi,
                #[trigger] y@.data[i],
            )
    }

    /// The step of each element of `x`.
    fn eval(&self, x: &Tensor<T>) -> (y: Tensor<T>) {
        Activation::eval(self, x)
    }
}

impl<T: Copy + PartialOrd> Forward<Tensor<T>> for Step<T> {
    type Y = Tensor<T>;

    open spec fn runs(&self, x: Tensor<T>) -> bool {
        x@.full()
    }

    open spec fn gives(&self, x: Tensor<T>, after: &Self, y: Tensor<T>) -> bool {
        &&& *after == *self
        &&& y@.shape == x@.shape
        &&& y@.full()
        &&& forall|i: int|
            0 <= i < x@.data.len() ==> step_between(
                x@.data[i],
                self.lo,
                self.hi,
                #[trigger] y@.data[i],
            )
    }

    /// The step of each element of `x`; the layer stays as it is.
    fn forward(&mut self, x: Tensor<T>) -> (y: Tensor<T>) {
        Activation::eval(&*self, &x)
    }
}

} // verus!
