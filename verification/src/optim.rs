//! The optimizer step: what is done with the gradients of a backward pass.

use crate::num::{difference_of, product_of_two};
use crate::tensor::{Tensor, TensorView};
use std::ops::{Mul, Sub};
use vstd::prelude::*;
use vstd::std_specs::ops::{MulSpec, SubSpec};

verus! {

/// `y` is `x` after a step of rate `lr` against the gradient `d`, as the
/// arithmetic of `T` computes it: `x` less a product of `lr` and `d`.
pub open spec fn step_of<T: Sub<Output = T> + Mul<Output = T>>(lr: T, x: T, d: T, y: T) -> bool {
    exists|z: T| #[trigger] product_of_two(lr, d, z) && difference_of(x, z, y)
}

/// An update rule: what is done to a parameter, and to the state that the
/// rule keeps for it, with the parameter's gradient.
pub trait Optimizer<T, M> {
    /// The rule can be applied to the parameter `p` in the state `m` with the
    /// gradient `dp`. A rule that does not say otherwise can be applied to
    /// everything.
    open spec fn accepts(&self, p: TensorView<T>, m: M, dp: TensorView<T>) -> bool {
        true
    }

    /// `q` and `n` are what the rule makes of the parameter `p` and its state
    /// `m` with the gradient `dp`. A rule that does not say otherwise
    /// promises nothing more than `step` does.
    open spec fn updates(
        &self,
        p: TensorView<T>,
        m: M,
        dp: TensorView<T>,
        q: TensorView<T>,
        n: M,
    ) -> bool {
        true
    }

    /// Updates the parameter `p` and its state `m` with the gradient `dp`.
    /// The parameter keeps its shape.
    fn step(&self, p: &mut Tensor<T>, m: &mut M, dp: &Tensor<T>)
        requires
            self.accepts(old(p)@, *old(m), dp@),
        ensures
            self.updates(old(p)@, *old(m), dp@, final(p)@, *final(m)),
            final(p)@.shape == old(p)@.shape,
            final(p)@.data.len() == old(p)@.data.len(),
    ;
}

/// Plain gradient descent with the learning rate `lr`.
#[derive(Debug, Clone, Copy, PartialEq)]
pub struct SGD<T> {
    pub lr: T,
}

impl<T: Copy + Sub<Output = T> + Mul<Output = T>> SGD<T> {
    /// The parameter `p` after one step against the gradient `dp`: each
    /// element less the learning rate times the gradient's element. An empty
    /// gradient stands for zero and leaves the parameter as it is.
    pub open spec fn stepped(&self, p: TensorView<T>, dp: TensorView<T>) -> TensorView<T> {
        if dp.data.len() == 0 {
            p
        } else {
            TensorView {
                shape: p.shape,
                data: Seq::new(
                    p.data.len(),
                    |i: int| p.data[i].sub_spec(self.lr.mul_spec(dp.data[i])),
                ),
            }
        }
    }

    /// A step of `p` against `dp` can be taken: the gradient is empty, or it
    /// has the shape of the parameter, element for element, and the
    /// multiplication and the subtraction of `T` accept what they are given.
    pub open spec fn can_step(&self, p: TensorView<T>, dp: TensorView<T>) -> bool {
        dp.data.len() > 0 ==> {
            &&& dp.shape == p.shape
            &&& dp.data.len() == p.data.len()
            &&& forall|i: int| 0 <= i < p.data.len() ==> self.lr.mul_req(#[trigger] dp.data[i])
            &&& forall|i: int, z: T|
                0 <= i < p.data.len() && product_of_two(self.lr, dp.data[i], z)
                    ==> #[trigger] p.data[i].sub_req(z)
        }
    }

    /// `q` is the parameter `p` after a step against `dp`, as the arithmetic
    /// of `T` computes it: it has the shape of `p`, and each of its elements
    /// is the element of `p` less a product of the learning rate and the
    /// gradient's element. An empty gradient has left the parameter as it
    /// was.
    pub open spec fn steps_to(&self, p: TensorView<T>, dp: TensorView<T>, q: TensorView<T>) -> bool {
        if dp.data.len() == 0 {
            q == p
        } else {
            &&& q.shape == p.shape
            &&& q.data.len() == p.data.len()
            &&& forall|i: int|
                0 <= i < p.data.len() ==> step_of(
                    self.lr,
                    p.data[i],
                    dp.data[i],
                    #[trigger] q.data[i],
                )
        }
    }

    /// Moves the parameter `p` one step against its gradient `dp`.
    pub fn step(&self, p: &mut Tensor<T>, dp: &Tensor<T>)
        requires
            self.can_step(old(p)@, dp@),
        ensures
            self.steps_to(old(p)@, dp@, final(p)@),
            T::obeys_mul_spec() && T::obeys_sub_spec() ==> final(p)@ == self.stepped(old(p)@, dp@),
    {
        let n = p.v.len();
        if dp.v.len() == 0 {
            return ;
        }
        assert(dp@.data.len() > 0);
        let mut i: usize = 0;
        while i < n
            invariant
                i <= n,
                n == old(p)@.data.len(),
                dp@.data.len() == n,
                self.can_step(old(p)@, dp@),
                p@.shape == old(p)@.shape,
                p@.data.len() == n,
                forall|j: int| i <= j < n ==> p@.data[j] == old(p)@.data[j],
                forall|j: int|
                    0 <= j < i ==> step_of(
                        self.lr,
                        old(p)@.data[j],
                        dp@.data[j],
                        #[trigger] p@.data[j],
                    ),
            decreases n - i,
        {
            let d = dp.v[i];
            assert(self.lr.mul_req(dp@.data[i as int]));
            let z = self.lr * d;
            let x = p.v[i];
            assert(old(p)@.data[i as int].sub_req(z));
            let y = x - z;
            p.v[i] = y;
            assert(product_of_two(self.lr, dp@.data[i as int], z) && difference_of(
                old(p)@.data[i as int],
                z,
                p@.data[i as int],
            ));
            i += 1;
        }
        assert(T::obeys_mul_spec() && T::obeys_sub_spec() ==> p@.data =~= self.stepped(
            old(p)@,
            dp@,
        ).data) by {
            if T::obeys_mul_spec() && T::obeys_sub_spec() {
                assert forall|j: int| 0 <= j < n implies p@.data[j] == self.stepped(
                    old(p)@,
                    dp@,
                ).data[j] by {
                    assert(step_of(self.lr, old(p)@.data[j], dp@.data[j], p@.data[j]));
                }
            }
        }
    }

    /// Moves each parameter one step against the gradient at the same place.
    pub fn step_all(&self, params: &mut Vec<Tensor<T>>, grads: &Vec<Tensor<T>>)
        requires
            old(params).len() == grads.len(),
            forall|i: int|
                0 <= i < grads.len() ==> self.can_step((#[trigger] old(params)@[i])@, grads@[i]@),
        ensures
            final(params).len() == old(params).len(),
            forall|i: int|
                0 <= i < grads.len() ==> self.steps_to(
                    old(params)@[i]@,
                    grads@[i]@,
                    (#[trigger] final(params)@[i])@,
                ),
            T::obeys_mul_spec() && T::obeys_sub_spec() ==> forall|i: int|
                0 <= i < grads.len() ==> (#[trigger] final(params)@[i])@ == self.stepped(
                    old(params)@[i]@,
                    grads@[i]@,
                ),
    {
        let n = params.len();
        let mut i: usize = 0;
        while i < n
            invariant
                i <= n,
                n == grads.len(),
                params.len() == n,
                forall|j: int|
                    0 <= j < n ==> self.can_step((#[trigger] old(params)@[j])@, grads@[j]@),
                forall|j: int| i <= j < n ==> params@[j] == old(params)@[j],
                forall|j: int|
                    0 <= j < i ==> self.steps_to(
                        old(params)@[j]@,
                        grads@[j]@,
                        (#[trigger] params@[j])@,
                    ),
                T::obeys_mul_spec() && T::obeys_sub_spec() ==> forall|j: int|
                    0 <= j < i ==> (#[trigger] params@[j])@ == self.stepped(
                        old(params)@[j]@,
                        grads@[j]@,
                    ),
            decreases n - i,
        {
            assert(self.can_step(old(params)@[i as int]@, grads@[i as int]@));
            self.step(&mut params[i], &grads[i]);
            i += 1;
        }
    }
}

impl<T: Copy + Sub<Output = T> + Mul<Output = T>, M> Optimizer<T, M> for SGD<T> {
    open spec fn accepts(&self, p: TensorView<T>, m: M, dp: TensorView<T>) -> bool {
        self.can_step(p, dp)
    }

    open spec fn updates(
        &self,
        p: TensorView<T>,
        m: M,
        dp: TensorView<T>,
        q: TensorView<T>,
        n: M,
    ) -> bool {
        self.steps_to(p, dp, q) && n == m
    }

    /// One step of gradient descent. The rule keeps no state of its own, and
    /// leaves the state as it is.
    fn step(&self, p: &mut Tensor<T>, m: &mut M, dp: &Tensor<T>) {
        SGD::step(self, p, dp)
    }
}

} // verus!
