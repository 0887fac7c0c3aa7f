//! The linear layer: a matrix product with a weight, and the sum with a bias
//! where the layer has one. Weight and bias are made on first use, in the
//! shapes that the input asks for.

use crate::autograd::backward::total_add;
use crate::autograd::parameter::{fresh, Parameter};
use crate::matmul::{is_kernel, MatRef};
use crate::nn::initializer::Initializer;
use crate::shape::{
    batch, broadcast_mm, can_broadcast, can_broadcast_mm, dim, lemma_product_row, meet,
    MismatchView, product_of, Shape, ShapeMismatch,
};
use crate::tensor::{Tensor, TensorView};
use std::ops::{Add, Index};
use vstd::prelude::*;

verus! {

/// A weight, an optional bias, and the last input of the layer.
pub struct Linear<T, I, M> {
    pub x: Option<Tensor<T>>,
    pub w: Parameter<T, I, M>,
    pub b: Option<Parameter<T, I, M>>,
}

/// The shape that a weight of shape `w` takes for an input of shape `x`: its
/// own where the two can be multiplied, and otherwise the columns of the
/// input by the columns of the weight.
pub open spec fn weight_shape(x: Seq<usize>, w: Seq<usize>) -> Seq<usize> {
    if can_broadcast_mm(x, w) {
        w
    } else {
        seq![dim(x, 0) as usize, dim(w, 0) as usize]
    }
}

/// The shape that a bias of shape `b` takes for an output of shape `y`: its
/// own where the two can be broadcast, and otherwise one row of the columns
/// of the output.
pub open spec fn bias_shape(y: Seq<usize>, b: Seq<usize>) -> Seq<usize> {
    if can_broadcast(b, y) {
        b
    } else {
        seq![1usize, dim(y, 0) as usize]
    }
}

/// The parameter `q` is `p` as the layer uses it in the shape `s`: `p` itself
/// where it has that shape, and otherwise a tensor that its initializer
/// makes for the shape, with a fresh optimizer state.
pub open spec fn fitted<T, I: Initializer<T>, M: Default>(
    p: Parameter<T, I, M>,
    s: Seq<usize>,
    q: Parameter<T, I, M>,
) -> bool {
    &&& q.i == p.i
    &&& q.t@.shape == s
    &&& if p.t@.shape == s {
        q.t@ == p.t@ && q.m == p.m
    } else {
        p.i.makes(s, q.t@) && q.t@.full() && fresh(q.m)
    }
}

/// `r` is what comes of accumulating the bias `b` into the product `p`: the
/// sum, where the product can take the bias chunk by chunk or has no elements,
/// and the two shapes otherwise.
pub open spec fn biased<T: Add<Output = T>>(
    p: TensorView<T>,
    b: TensorView<T>,
    r: Result<Tensor<T>, ShapeMismatch>,
) -> bool {
    match r {
        Ok(y) => p.accepts(b) && p.accumulated(b, y@),
        Err(e) => !p.accepts(b) && e@ == (MismatchView { lhs: p.shape, rhs: b.shape }),
    }
}

/// Every input is full and has at least two axes before a weight of at least
/// one axis, weight and product fit in a buffer, and a weight that already
/// has the right shape is full.
pub open spec fn layer_fits<T, I: Initializer<T>, M>(l: Linear<T, I, M>, x: TensorView<T>) -> bool {
    let ws = weight_shape(x.shape, l.w.t@.shape);
    let ys = broadcast_mm(x.shape, ws);
    &&& x.full()
    &&& x.shape.len() >= 2
    &&& l.w.t@.shape.len() >= 1
    &&& product_of(ws) <= usize::MAX
    &&& product_of(ys) <= usize::MAX
    &&& ws == l.w.t@.shape ==> l.w.t@.full()
}

/// A weight of the columns of an input by any number of columns can be
/// multiplied with the input.
pub proof fn lemma_weight_fits(x: Seq<usize>, c: usize)
    requires
        x.len() >= 2,
    ensures
        can_broadcast_mm(x, seq![dim(x, 0) as usize, c]),
{
    let w = seq![dim(x, 0) as usize, c];
    assert(batch(w) =~= Seq::<usize>::empty());
    assert forall|i: int| 0 <= i implies #[trigger] meet(batch(x), batch(w), i) by {}
}

/// One row of the columns of a tensor can be broadcast against the tensor.
pub proof fn lemma_bias_fits(y: Seq<usize>)
    requires
        y.len() >= 1,
    ensures
        can_broadcast(seq![1usize, dim(y, 0) as usize], y),
{
    let b = seq![1usize, dim(y, 0) as usize];
    assert forall|i: int| 0 <= i implies #[trigger] meet(b, y, i) by {}
}

impl<T: Copy + Add<Output = T>, I: Initializer<T>, M: Default> Linear<T, I, M> {
    /// The layer with the weight `w` and the bias `b`.
    pub fn new(w: Parameter<T, I, M>, b: Option<Parameter<T, I, M>>) -> (l: Linear<T, I, M>)
        ensures
            l.x is None,
            l.w == w,
            l.b == b,
    {
        Linear { x: None, w, b }
    }

    /// Runs the layer on `x`. A weight that cannot be multiplied with the
    /// input is made anew, as is a bias that cannot be broadcast against the
    /// product; the result is the product of the input with the weight, with
    /// the bias accumulated into it chunk by chunk. Where the product cannot
    /// take the bias, the two shapes are reported.
    pub fn forward<F>(&mut self, x: Tensor<T>, kernel: &F) -> (r: Result<
        Tensor<T>,
        ShapeMismatch,
    >) where F: Fn(MatRef<T>, MatRef<T>) -> Vec<T>
        requires
            layer_fits(*old(self), x@),
            is_kernel(*kernel),
            total_add::<T>(),
        ensures
            final(self).x matches Some(kept) && kept@ == x@,
            fitted(old(self).w, weight_shape(x@.shape, old(self).w.t@.shape), final(self).w),
            match old(self).b {
                None => {
                    &&& final(self).b is None
                    &&& r matches Ok(y) && x@.mm_by(final(self).w.t@, *kernel, y@)
                },
                Some(b) => {
                    &&& final(self).b matches Some(fb)
                    &&& fitted(
                        b,
                        bias_shape(broadcast_mm(x@.shape, final(self).w.t@.shape), b.t@.shape),
                        fb,
                    )
                    &&& exists|p: TensorView<T>|
                        #[trigger] x@.mm_by(final(self).w.t@, *kernel, p) && biased(p, fb.t@, r)
                },
            },
    {
        let ghost ws = weight_shape(x@.shape, self.w.t@.shape);
        if !x.s.can_broadcast_mm(&self.w.t.s) {
            let k = *x.s.index(0);
            let c = *self.w.t.s.index(0);
            let mut s: Vec<usize> = Vec::new();
            s.push(k);
            s.push(c);
            proof {
                assert(s@ =~= seq![k, c]);
                assert(self.w.t@.shape != ws) by {
                    lemma_weight_fits(x@.shape, c);
                }
            }
            self.w.init(Shape::from(s));
        }
        proof {
            lemma_weight_fits(x@.shape, dim(old(self).w.t@.shape, 0) as usize);
        }
        let mut y = x.mm(&self.w.t, kernel);
        let ghost p = y@;
        let added = match &mut self.b {
            None => Ok(()),
            Some(b) => {
                let ghost b0 = *b;
                proof {
                    lemma_bias_fits(y@.shape);
                }
                if !b.t.s.can_broadcast(&y.s) {
                    let n = *y.s.index(0);
                    let mut s: Vec<usize> = Vec::new();
                    s.push(1);
                    s.push(n);
                    proof {
                        assert(s@ =~= seq![1usize, n]);
                        lemma_product_row(n);
                    }
                    b.init(Shape::from(s));
                }
                let added = y.add_assign(&b.t);
                assert(fitted(b0, bias_shape(p.shape, b0.t@.shape), *b));
                added
            },
        };
        self.x = Some(x);
        let r = match added {
            Ok(_) => Ok(y),
            Err(e) => Err(e),
        };
        proof {
            match old(self).b {
                None => {
                    assert(self.b is None);
                    assert(r is Ok);
                    assert(x@.mm_by(self.w.t@, *kernel, p));
                },
                Some(b) => {
                    assert(self.b is Some);
                    let fb = self.b->Some_0;
                    assert(fitted(
                        b,
                        bias_shape(broadcast_mm(x@.shape, self.w.t@.shape), b.t@.shape),
                        fb,
                    ));
                    assert(x@.mm_by(self.w.t@, *kernel, p) && biased(p, fb.t@, r));
                },
            }
        }
        r
    }
}

} // verus!
