//! The end of a forward pass: the terminal value together with the gradients
//! of the parameters.

use crate::autograd::adtensor::{can_add, recorded, ADTensor};
use crate::autograd::backward::{
    lemma_terminal_gradient, lemma_unit_seed, names, outcome, total_add, unit_seed, views, walk,
    GradState,
};
use crate::autograd::graph::{Graph, PartialGrad, Vtx};
use crate::matmul::{is_kernel, MatRef};
use crate::shape::{
    broadcast, broadcast_mm, lemma_product_row, MismatchView, ShapeMismatch,
};
use crate::tensor::{Tensor, TensorView};
use num_traits::One;
use std::ops::Add;
use vstd::prelude::*;
use vstd::std_specs::ops::AddSpec;

verus! {

/// A terminal value and the gradients of the parameters, in the order of the
/// parameter table.
#[derive(Debug, Clone, PartialEq)]
pub struct Loss<T> {
    pub v: Tensor<T>,
    pub g: Vec<Tensor<T>>,
}

/// The gradients of an outcome, as the outcome of a walk.
pub open spec fn gradients<T>(r: Result<Loss<T>, ShapeMismatch>) -> Result<
    Seq<TensorView<T>>,
    MismatchView,
> {
    match r {
        Ok(l) => Ok(views(l.g@)),
        Err(e) => Err(e@),
    }
}

/// The vertex `i` stands for the result of a recorded operation.
pub open spec fn ends_a_record(i: Option<Vtx>) -> bool {
    i matches Some(Vtx::Var(_))
}

/// The ledger that a backward pass from the vertex `i` walks: the records up
/// to the one that `i` stands for, and the whole ledger, which is left
/// alone, where `i` stands for no record.
pub open spec fn cut<T>(ledger: Seq<PartialGrad<T>>, i: Option<Vtx>) -> Seq<PartialGrad<T>> {
    match i {
        Some(Vtx::Var(k)) => ledger.take(k + 1),
        _ => ledger,
    }
}

impl<T> Loss<T> {
    /// The loss without a value and without gradients.
    pub fn new() -> (l: Loss<T>)
        ensures
            l.v@ == TensorView::<T>::empty(),
            l.g@.len() == 0,
    {
        Loss { v: Tensor::new(), g: Vec::new() }
    }
}

impl<T: Copy + Add<Output = T>> ADTensor<T> {
    /// Ends the forward pass at this value and runs the backward pass from
    /// the given seed. Where this value is the result of a recorded
    /// operation, the ledger is cut behind that operation and walked; a value
    /// that no operation of the ledger has produced has no gradients.
    pub fn backward_with<F>(self, g: &mut Graph<T>, seed: Tensor<T>, kernel: &F) -> (r: Result<
        Loss<T>,
        ShapeMismatch,
    >) where F: Fn(MatRef<T>, MatRef<T>) -> Vec<T>
        requires
            old(g).wf(),
            self.within(old(g)),
            seed@.wf(),
            is_kernel(*kernel),
            total_add::<T>(),
        ensures
            final(g).wf(),
            final(g).params() == old(g).params(),
            r matches Ok(l) ==> l.v == self.v,
            final(g).ledger() == cut(old(g).ledger(), self.i),
            self.i matches Some(Vtx::Var(i)) ==> walk(
                *kernel,
                final(g).ledger(),
                GradState::start(final(g).params().len(), (i + 1) as nat, seed@),
                gradients(r),
            ),
            !ends_a_record(self.i) ==> (r matches Ok(l) && l.g@.len() == 0),
    {
        match self.i {
            Some(Vtx::Var(i)) => {
                let n = g.len();
                assert(i < n);
                g.truncate(i + 1);
                match g.backward_with(seed, kernel) {
                    Ok(grads) => Ok(Loss { v: self.v, g: grads }),
                    Err(e) => Err(e),
                }
            },
            _ => Ok(Loss { v: self.v, g: Vec::new() }),
        }
    }

    /// Ends the forward pass at this value and runs the backward pass from
    /// the conventional seed, the one by one tensor that holds the
    /// multiplicative identity of `T`.
    pub fn backward<F>(self, g: &mut Graph<T>, kernel: &F) -> (r: Result<Loss<T>, ShapeMismatch>) where
        F: Fn(MatRef<T>, MatRef<T>) -> Vec<T>,
        T: One,

        requires
            old(g).wf(),
            self.within(old(g)),
            is_kernel(*kernel),
            total_add::<T>(),
        ensures
            final(g).wf(),
            final(g).params() == old(g).params(),
            r matches Ok(l) ==> l.v == self.v,
            final(g).ledger() == cut(old(g).ledger(), self.i),
            self.i matches Some(Vtx::Var(i)) ==> exists|unit: T|
                walk(
                    *kernel,
                    final(g).ledger(),
                    GradState::start(
                        final(g).params().len(),
                        (i + 1) as nat,
                        #[trigger] unit_seed(unit),
                    ),
                    gradients(r),
                ),
            !ends_a_record(self.i) ==> (r matches Ok(l) && l.g@.len() == 0),
    {
        match self.i {
            Some(Vtx::Var(i)) => {
                let n = g.len();
                assert(i < n);
                g.truncate(i + 1);
                match g.backward(kernel) {
                    Ok(grads) => Ok(Loss { v: self.v, g: grads }),
                    Err(e) => Err(e),
                }
            },
            _ => Ok(Loss { v: self.v, g: Vec::new() }),
        }
    }
}

impl<T: Copy + Add<Output = T>> Loss<T> {
    /// The values of two losses can be summed: the first has no value yet, or
    /// the two values can be added.
    pub open spec fn values_add(&self, rhs: &Loss<T>) -> bool {
        self.v@.data.len() > 0 ==> can_add(self.v@, rhs.v@)
    }

    /// The gradients of two losses can be summed: the first has none yet, or
    /// each gradient that both hold can be added to its counterpart.
    pub open spec fn gradients_add(&self, rhs: &Loss<T>) -> bool {
        self.g@.len() > 0 ==> forall|i: int|
            0 <= i < self.g@.len() && i < rhs.g@.len() ==> can_add(
                #[trigger] self.g@[i]@,
                rhs.g@[i]@,
            )
    }

    /// The sum of two losses. A loss without a value takes the value of
    /// `rhs`, and a loss without gradients takes the gradients of `rhs`.
    /// Otherwise the values are added, and the result has as many gradients
    /// as `rhs`: the sum of the two where both losses hold one, and the empty
    /// tensor behind the last gradient of this loss.
    pub fn add(&self, rhs: &Loss<T>) -> (l: Loss<T>)
        requires
            self.values_add(rhs),
            self.gradients_add(rhs),
        ensures
            self.v@.data.len() == 0 ==> l.v@ == rhs.v@,
            self.v@.data.len() > 0 ==> self.v@.sum_is(rhs.v@, l.v@),
            self.v@.data.len() > 0 && T::obeys_add_spec() ==> l.v@ == self.v@.plus(rhs.v@),
            l.g@.len() == rhs.g@.len(),
            self.g@.len() == 0 ==> views(l.g@) == views(rhs.g@),
            self.g@.len() > 0 ==> forall|i: int|
                0 <= i < rhs.g@.len() ==> if i < self.g@.len() {
                    &&& self.g@[i]@.sum_is(rhs.g@[i]@, (#[trigger] l.g@[i])@)
                    &&& T::obeys_add_spec() ==> l.g@[i]@ == self.g@[i]@.plus(rhs.g@[i]@)
                } else {
                    l.g@[i]@ == TensorView::<T>::empty()
                },
    {
        let v = if self.v.len() == 0 {
            rhs.v.copy()
        } else {
            (&self.v).add(&rhs.v)
        };
        let n = rhs.g.len();
        let m = self.g.len();
        let mut g: Vec<Tensor<T>> = Vec::new();
        let mut i: usize = 0;
        while i < n
            invariant
                i <= n,
                n == rhs.g@.len(),
                m == self.g@.len(),
                g.len() == i,
                self.gradients_add(rhs),
                m == 0 ==> forall|j: int| 0 <= j < i ==> (#[trigger] g@[j])@ == rhs.g@[j]@,
                m > 0 ==> forall|j: int|
                    0 <= j < i ==> if j < m {
                        &&& self.g@[j]@.sum_is(rhs.g@[j]@, (#[trigger] g@[j])@)
                        &&& T::obeys_add_spec() ==> g@[j]@ == self.g@[j]@.plus(rhs.g@[j]@)
                    } else {
                        g@[j]@ == TensorView::<T>::empty()
                    },
            decreases n - i,
        {
            let t = if m == 0 {
                rhs.g[i].copy()
            } else if i < m {
                assert(can_add(self.g@[i as int]@, rhs.g@[i as int]@));
                (&self.g[i]).add(&rhs.g[i])
            } else {
                Tensor::new()
            };
            g.push(t);
            i += 1;
        }
        assert(m == 0 ==> views(g@) =~= views(rhs.g@));
        Loss { v, g }
    }
}

/// The gradient of the weight of a terminal product. Take a forward pass
/// that ends with an operation whose right operand is the parameter `i`, with
/// the local derivative `x` of rows and columns, and that names this
/// parameter nowhere else: `before` is the graph ahead of the operation and
/// `last` the graph behind it. For a matrix product `x` is the input. Where
/// the backward pass from the result, which leaves the graph `after`,
/// succeeds from the conventional seed, it returns one gradient for each
/// parameter, and the gradient of parameter `i` is the kernel's product of
/// the seed with `x`: a single row with the columns of `x`.
pub proof fn lemma_weight_gradient<T: Add<Output = T>, F: Fn(MatRef<T>, MatRef<T>) -> Vec<T>>(
    kernel: F,
    before: &Graph<T>,
    last: &Graph<T>,
    after: &Graph<T>,
    lhs: Option<Vtx>,
    dl: TensorView<T>,
    i: usize,
    x: TensorView<T>,
    y: Option<Vtx>,
    r: Result<Loss<T>, ShapeMismatch>,
)
    requires
        before.wf(),
        recorded(before, last, lhs, dl, Some(Vtx::Param(i)), x, y),
        i < before.params().len(),
        lhs != Some(Vtx::Param(i)),
        forall|u: int|
            0 <= u < before.ledger().len() ==> !names(#[trigger] before.ledger()[u], Vtx::Param(i)),
        x.shape.len() == 2,
        after.params() == last.params(),
        after.ledger() == cut(last.ledger(), y),
        y matches Some(Vtx::Var(k)) ==> exists|one: T|
            walk(
                kernel,
                after.ledger(),
                GradState::start(after.params().len(), (k + 1) as nat, #[trigger] unit_seed(one)),
                gradients(r),
            ),
        r is Ok,
    ensures
        r matches Ok(l) && {
            &&& l.g@.len() == before.params().len()
            &&& l.g@[i as int]@.shape == seq![1usize, x.shape[1]]
            &&& l.g@[i as int]@.data.len() == x.shape[1]
            &&& exists|one: T| #[trigger] unit_seed(one).mm_by(x, kernel, l.g@[i as int]@)
        },
{
    let k = before.ledger().len() as usize;
    assert(y == Some(Vtx::Var(k)));
    let ledger = last.ledger();
    assert(ledger.take(k + 1) =~= ledger);
    assert forall|u: int| 0 <= u < ledger.len() - 1 implies !names(
        #[trigger] ledger[u],
        Vtx::Param(i),
    ) by {
        assert(ledger[u] == ledger.drop_last()[u]);
    }
    let one = choose|one: T|
        walk(
            kernel,
            after.ledger(),
            GradState::start(after.params().len(), (k + 1) as nat, #[trigger] unit_seed(one)),
            gradients(r),
        );
    let l = r->Ok_0;
    let grads = views(l.g@);
    let seed = unit_seed(one);
    lemma_unit_seed(one);
    lemma_terminal_gradient(kernel, ledger, last.params().len(), seed, grads, i);
    assert(grads[i as int] == l.g@[i as int]@);
    let e = Seq::<usize>::empty();
    assert(seed.shape.take(0) =~= e);
    assert(x.shape.take(0) =~= e);
    assert(broadcast(e, e) =~= e);
    assert(broadcast_mm(seed.shape, x.shape) =~= seq![1usize, x.shape[1]]);
    lemma_product_row(x.shape[1]);
}

/// The gradient of the bias of a terminal sum. Take a forward pass that ends
/// with a sum of rows and columns, of shape `s`, whose right operand is the
/// parameter `i`, and that names this parameter nowhere else: `before` is the
/// graph ahead of the sum and `summed` the graph behind it. Where the backward
/// pass from the sum, which leaves the graph `after`, succeeds from the
/// conventional seed, it returns one gradient for each parameter, and the
/// gradient of the bias is a single row with the columns of the sum: the
/// kernel's product of the seed with the tensor of shape `s` filled with the
/// unit.
pub proof fn lemma_bias_gradient<T: Add<Output = T>, F: Fn(MatRef<T>, MatRef<T>) -> Vec<T>>(
    kernel: F,
    before: &Graph<T>,
    summed: &Graph<T>,
    after: &Graph<T>,
    lhs: Option<Vtx>,
    i: usize,
    s: Seq<usize>,
    y: Option<Vtx>,
    r: Result<Loss<T>, ShapeMismatch>,
)
    requires
        before.wf(),
        exists|unit: T| #[trigger]
            recorded(
                before,
                summed,
                lhs,
                TensorView::filled(s, unit),
                Some(Vtx::Param(i)),
                TensorView::filled(s, unit),
                y,
            ),
        i < before.params().len(),
        lhs != Some(Vtx::Param(i)),
        forall|u: int|
            0 <= u < before.ledger().len() ==> !names(#[trigger] before.ledger()[u], Vtx::Param(i)),
        s.len() == 2,
        after.params() == summed.params(),
        after.ledger() == cut(summed.ledger(), y),
        y matches Some(Vtx::Var(k)) ==> exists|one: T|
            walk(
                kernel,
                after.ledger(),
                GradState::start(after.params().len(), (k + 1) as nat, #[trigger] unit_seed(one)),
                gradients(r),
            ),
        r is Ok,
    ensures
        r matches Ok(l) && {
            &&& l.g@.len() == before.params().len()
            &&& l.g@[i as int]@.shape == seq![1usize, s[1]]
            &&& l.g@[i as int]@.data.len() == s[1]
            &&& exists|one: T, unit: T| #[trigger]
                unit_seed(one).mm_by(TensorView::filled(s, unit), kernel, l.g@[i as int]@)
        },
{
    let unit = choose|unit: T| #[trigger]
        recorded(
            before,
            summed,
            lhs,
            TensorView::filled(s, unit),
            Some(Vtx::Param(i)),
            TensorView::filled(s, unit),
            y,
        );
    let d = TensorView::filled(s, unit);
    lemma_weight_gradient(kernel, before, summed, after, lhs, d, i, d, y, r);
}

} // verus!
