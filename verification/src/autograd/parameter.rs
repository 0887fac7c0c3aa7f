//! Parameters: tensors that are made by an initializer, once their shape is
//! known, and moved by an optimizer, which keeps a state for each of them.

use crate::nn::initializer::Initializer;
use crate::optim::Optimizer;
use crate::shape::{product_of, Shape};
use crate::tensor::Tensor;
use vstd::prelude::*;

verus! {

/// A tensor together with the initializer that makes it and the state that
/// an optimizer keeps for it.
pub struct Parameter<T, I, M> {
    pub t: Tensor<T>,
    pub i: I,
    pub m: M,
}

/// `m` is a fresh optimizer state: a value that `M::default` returned.
pub open spec fn fresh<M: Default>(m: M) -> bool {
    call_ensures(M::default, (), m)
}

impl<T, I: Initializer<T>, M: Default> Parameter<T, I, M> {
    /// The parameter that holds `t` and is made anew by `i`, with a fresh
    /// optimizer state.
    pub fn new(t: Tensor<T>, i: I) -> (p: Parameter<T, I, M>)
        ensures
            p.t == t,
            p.i == i,
            fresh(p.m),
    {
        Parameter { t, i, m: M::default() }
    }

    /// The parameter of the shape `s` that has no elements yet, with a fresh
    /// optimizer state.
    pub fn shape_init(s: Shape, i: I) -> (p: Parameter<T, I, M>)
        ensures
            p.t@.shape == s@,
            p.t@.data.len() == 0,
            p.i == i,
            fresh(p.m),
    {
        Parameter { t: Tensor::shape(s), i, m: M::default() }
    }

    /// Makes the tensor anew, in the shape `s`, and resets the optimizer
    /// state.
    pub fn init(&mut self, s: Shape)
        requires
            product_of(s@) <= usize::MAX,
        ensures
            old(self).i.makes(s@, final(self).t@),
            final(self).t@.shape == s@,
            final(self).t@.full(),
            final(self).i == old(self).i,
            fresh(final(self).m),
    {
        self.t = self.i.init(s);
        self.m = M::default();
    }

    /// The tensor.
    pub fn t(&self) -> (r: &Tensor<T>)
        ensures
            *r == self.t,
    {
        &self.t
    }

    /// Lets the optimizer `opt` update the tensor, and the state it keeps
    /// for it, with the gradient `dy`.
    pub fn step<O: Optimizer<T, M>>(&mut self, dy: &Tensor<T>, opt: &O)
        requires
            opt.accepts(old(self).t@, old(self).m, dy@),
        ensures
            opt.updates(old(self).t@, old(self).m, dy@, final(self).t@, final(self).m),
            final(self).t@.shape == old(self).t@.shape,
            final(self).t@.data.len() == old(self).t@.data.len(),
            final(self).i == old(self).i,
    {
        opt.step(&mut self.t, &mut self.m, dy);
    }
}

} // verus!
