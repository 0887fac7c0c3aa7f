//! Tensors on which the operations are recorded: a value, and the vertex of
//! the graph that stands for it, if gradients flow back through it.

use crate::adscalar::ADScalar;
use crate::autograd::graph::{place_of, vtx_before, Graph, PartialGrad, Vtx};
use crate::matmul::{is_kernel, MatRef};
use crate::shape::{broadcast, broadcast_mm, can_broadcast, can_broadcast_mm, product_of, Shape, Shaped};
use crate::num::one;
use crate::tensor::{Tensor, TensorView};
use num_traits::One;
use std::ops::Add;
use vstd::prelude::*;
use vstd::std_specs::ops::AddSpec;

verus! {

/// A value of the forward pass. Its vertex is `None` where the value depends
/// on no parameter and on no recorded operation.
#[derive(Debug, Clone, PartialEq)]
pub struct ADTensor<T> {
    pub v: Tensor<T>,
    pub i: Option<Vtx>,
}

impl<T> Shaped for ADTensor<T> {
    fn s(&self) -> (r: &Shape)
        ensures
            r@ == self.v@.shape,
    {
        &self.v.s
    }
}

/// The entry `e` of a record names the vertex `vx` with the local derivative
/// `d`, or is absent where there is no vertex.
pub open spec fn edge_is<T>(e: Option<(Vtx, Tensor<T>)>, vx: Option<Vtx>, d: TensorView<T>) -> bool {
    match vx {
        None => e is None,
        Some(x) => e matches Some((y, t)) && y == x && t@ == d,
    }
}

/// The vertex of the parameter with the given key, if it is registered.
pub open spec fn param_vtx(params: Seq<usize>, key: usize) -> Option<Vtx> {
    match place_of(params, key) {
        Some(i) => Some(Vtx::Param(i)),
        None => None,
    }
}

/// What an operation leaves in the graph `after`, which was `before`: where
/// one of its operands has a vertex, one more record, which names each such
/// operand with its local derivative, and the vertex of that record for the
/// result; otherwise nothing, and no vertex.
pub open spec fn recorded<T>(
    before: &Graph<T>,
    after: &Graph<T>,
    lhs: Option<Vtx>,
    dl: TensorView<T>,
    rhs: Option<Vtx>,
    dr: TensorView<T>,
    result: Option<Vtx>,
) -> bool {
    &&& after.params() == before.params()
    &&& if lhs is Some || rhs is Some {
        &&& after.ledger().len() == before.ledger().len() + 1
        &&& after.ledger().drop_last() == before.ledger()
        &&& edge_is(after.ledger().last().lhs, lhs, dl)
        &&& edge_is(after.ledger().last().rhs, rhs, dr)
        &&& result == Some(Vtx::Var(before.ledger().len() as usize))
    } else {
        &&& after.ledger() == before.ledger()
        &&& result is None
    }
}

impl<T> Graph<T> {
    /// Wraps a value that is not a parameter: an input of the forward pass.
    pub fn input(&self, v: Tensor<T>) -> (x: ADTensor<T>)
        ensures
            x.v == v,
            x.i is None,
    {
        ADTensor { v, i: None }
    }
}

impl<T> ADTensor<T> {
    /// The value.
    pub fn v(&self) -> (r: &Tensor<T>)
        ensures
            *r == self.v,
    {
        &self.v
    }

    /// Whether this value belongs to a forward pass on the graph `g`.
    pub fn is_within(&self, g: &Graph<T>) -> (r: bool)
        ensures
            r == self.within(g),
    {
        let known = match self.i {
            None => true,
            Some(Vtx::Param(i)) => i < g.param_count(),
            Some(Vtx::Var(i)) => i < g.len(),
        };
        known && self.v.is_full()
    }

    /// This value belongs to a forward pass on the graph `g`: it is a full
    /// tensor, and its vertex, if it has one, exists in `g`.
    pub open spec fn within(&self, g: &Graph<T>) -> bool {
        &&& self.v@.full()
        &&& self.i matches Some(vx) ==> vtx_before(vx, g.params().len(), g.ledger().len())
    }
}

/// Records an operation whose operands have the given vertices and local
/// derivatives, and returns the vertex of its result.
pub(crate) fn note<T: Copy>(
    g: &mut Graph<T>,
    lhs: Option<Vtx>,
    dl: &Tensor<T>,
    rhs: Option<Vtx>,
    dr: &Tensor<T>,
) -> (r: Option<Vtx>)
    requires
        old(g).wf(),
        dl@.full(),
        dr@.full(),
        lhs matches Some(vx) ==> vtx_before(vx, old(g).params().len(), old(g).ledger().len()),
        rhs matches Some(vx) ==> vtx_before(vx, old(g).params().len(), old(g).ledger().len()),
    ensures
        final(g).wf(),
        recorded(old(g), final(g), lhs, dl@, rhs, dr@, r),
{
    if lhs.is_none() && rhs.is_none() {
        return None;
    }
    let el = match lhs {
        Some(vx) => Some((vx, dl.copy())),
        None => None,
    };
    let er = match rhs {
        Some(vx) => Some((vx, dr.copy())),
        None => None,
    };
    let rec = PartialGrad { lhs: el, rhs: er };
    let ghost before = g.ledger();
    let vx = g.push(rec);
    assert(g.ledger().drop_last() =~= before);
    Some(vx)
}

impl<T: Copy> ADTensor<T> {
    /// The matrix product of this value with the tensor `rhs`, which the
    /// caller holds under the key `key`. The local derivative by each operand
    /// is the value of the other.
    pub fn mm<F>(&self, g: &mut Graph<T>, key: usize, rhs: &Tensor<T>, kernel: &F) -> (y: ADTensor<
        T,
    >) where F: Fn(MatRef<T>, MatRef<T>) -> Vec<T>
        requires
            old(g).wf(),
            self.within(old(g)),
            rhs@.full(),
            can_broadcast_mm(self.v@.shape, rhs@.shape),
            product_of(broadcast_mm(self.v@.shape, rhs@.shape)) <= usize::MAX,
            is_kernel(*kernel),
        ensures
            final(g).wf(),
            y.within(final(g)),
            self.v@.mm_by(rhs@, *kernel, y.v@),
            recorded(
                old(g),
                final(g),
                self.i,
                rhs@,
                param_vtx(old(g).params(), key),
                self.v@,
                y.i,
            ),
    {
        let v = self.v.mm(rhs, kernel);
        let px = match g.find_param(key) {
            Some(p) => Some(Vtx::Param(p)),
            None => None,
        };
        let i = note(g, self.i, rhs, px, &self.v);
        ADTensor { v, i }
    }

    /// The matrix product of this value with another value of the forward
    /// pass. The local derivative by each operand is the value of the other.
    pub fn mm_var<F>(&self, g: &mut Graph<T>, rhs: &ADTensor<T>, kernel: &F) -> (y: ADTensor<
        T,
    >) where F: Fn(MatRef<T>, MatRef<T>) -> Vec<T>
        requires
            old(g).wf(),
            self.within(old(g)),
            rhs.within(old(g)),
            can_broadcast_mm(self.v@.shape, rhs.v@.shape),
            product_of(broadcast_mm(self.v@.shape, rhs.v@.shape)) <= usize::MAX,
            is_kernel(*kernel),
        ensures
            final(g).wf(),
            y.within(final(g)),
            self.v@.mm_by(rhs.v@, *kernel, y.v@),
            recorded(old(g), final(g), self.i, rhs.v@, rhs.i, self.v@, y.i),
    {
        let v = self.v.mm(&rhs.v, kernel);
        let i = note(g, self.i, &rhs.v, rhs.i, &self.v);
        ADTensor { v, i }
    }
}

/// `y` and `d` are the values and the derivatives that the differentiable
/// function `f` gives on the elements of `x`, each taken as a variable whose
/// own derivative is `unit`: both have the shape of `x`, and at each place
/// `f` has returned the element of `y` with the derivative in `d`.
pub open spec fn mapped<T, F: Fn(ADScalar<T>) -> ADScalar<T>>(
    f: F,
    unit: T,
    x: TensorView<T>,
    y: TensorView<T>,
    d: TensorView<T>,
) -> bool {
    &&& y.shape == x.shape
    &&& d.shape == x.shape
    &&& y.data.len() == x.data.len()
    &&& d.data.len() == x.data.len()
    &&& forall|i: int|
        0 <= i < x.data.len() ==> call_ensures(
            f,
            (ADScalar { v: x.data[i], d: unit },),
            ADScalar { v: #[trigger] y.data[i], d: d.data[i] },
        )
}

impl<T: Copy> ADTensor<T> {
    /// A copy of this value, with the same vertex.
    pub fn copy(&self) -> (y: ADTensor<T>)
        ensures
            y.v@ == self.v@,
            y.i == self.i,
    {
        ADTensor { v: self.v.copy(), i: self.i }
    }

    /// Applies the differentiable function `f` to each element. The local
    /// derivative is the tensor of the derivatives that `f` returns, and is
    /// recorded where this value has a vertex.
    pub fn map<F>(&self, g: &mut Graph<T>, unit: T, f: F) -> (y: ADTensor<T>) where
        F: Fn(ADScalar<T>) -> ADScalar<T>,

        requires
            old(g).wf(),
            self.within(old(g)),
            forall|i: int|
                0 <= i < self.v@.data.len() ==> call_requires(
                    f,
                    (ADScalar { v: #[trigger] self.v@.data[i], d: unit },),
                ),
        ensures
            final(g).wf(),
            y.within(final(g)),
            exists|d: TensorView<T>|
                {
                    &&& #[trigger] mapped(f, unit, self.v@, y.v@, d)
                    &&& recorded(old(g), final(g), self.i, d, None, d, y.i)
                },
    {
        let n = self.v.v.len();
        let mut v: Vec<T> = Vec::new();
        let mut dv: Vec<T> = Vec::new();
        let mut i: usize = 0;
        while i < n
            invariant
                i <= n,
                n == self.v@.data.len(),
                v.len() == i,
                dv.len() == i,
                forall|j: int|
                    0 <= j < n ==> call_requires(
                        f,
                        (ADScalar { v: #[trigger] self.v@.data[j], d: unit },),
                    ),
                forall|j: int|
                    0 <= j < i ==> call_ensures(
                        f,
                        (ADScalar { v: self.v@.data[j], d: unit },),
                        ADScalar { v: #[trigger] v@[j], d: dv@[j] },
                    ),
            decreases n - i,
        {
            let x = self.v.v[i];
            assert(x == self.v@.data[i as int]);
            let out = f(ADScalar { v: x, d: unit });
            v.push(out.v);
            dv.push(out.d);
            i += 1;
        }
        let y = Tensor { s: self.v.s.copy(), v };
        let d = Tensor { s: self.v.s.copy(), v: dv };
        let i = note(g, self.i, &d, None, &d);
        let r = ADTensor { v: y, i };
        assert(mapped(f, unit, self.v@, r.v@, d@));
        assert(recorded(old(g), g, self.i, d@, None, d@, r.i));
        r
    }
}

/// The operands of a sum can be added: they are compatible, the sum fits in
/// a buffer, and the addition of `T` accepts each pair of elements that
/// meet.
pub open spec fn can_add<T: Add<Output = T>>(a: TensorView<T>, b: TensorView<T>) -> bool {
    &&& a.full()
    &&& b.full()
    &&& can_broadcast(a.shape, b.shape)
    &&& product_of(broadcast(a.shape, b.shape)) <= usize::MAX
    &&& forall|i: int|
        0 <= i < product_of(broadcast(a.shape, b.shape)) ==> (#[trigger] a.lhs_at(b, i)).add_req(
            a.rhs_at(b, i),
        )
}

impl<T: Copy + Add<Output = T>> ADTensor<T> {
    /// The sum of this value and the tensor `rhs`, which the caller holds
    /// under the key `key`. The local derivative by each operand is the
    /// tensor of the sum's shape filled with `unit`.
    pub fn add_unit(&self, g: &mut Graph<T>, key: usize, rhs: &Tensor<T>, unit: T) -> (y: ADTensor<T>)
        requires
            old(g).wf(),
            self.within(old(g)),
            can_add(self.v@, rhs@),
        ensures
            final(g).wf(),
            y.within(final(g)),
            self.v@.sum_is(rhs@, y.v@),
            T::obeys_add_spec() ==> y.v@ == self.v@.plus(rhs@),
            recorded(
                old(g),
                final(g),
                self.i,
                TensorView::filled(y.v@.shape, unit),
                param_vtx(old(g).params(), key),
                TensorView::filled(y.v@.shape, unit),
                y.i,
            ),
    {
        let v = (&self.v).add(rhs);
        assert(product_of(v@.shape) == v.v.len());
        let d = Tensor::shape_elem(v.s.copy(), unit);
        let px = match g.find_param(key) {
            Some(p) => Some(Vtx::Param(p)),
            None => None,
        };
        let i = note(g, self.i, &d, px, &d);
        ADTensor { v, i }
    }

    /// The sum of this value and another value of the forward pass. The local
    /// derivative by each operand is the tensor of the sum's shape filled
    /// with `unit`.
    pub fn add_var_unit(&self, g: &mut Graph<T>, rhs: &ADTensor<T>, unit: T) -> (y: ADTensor<T>)
        requires
            old(g).wf(),
            self.within(old(g)),
            rhs.within(old(g)),
            can_add(self.v@, rhs.v@),
        ensures
            final(g).wf(),
            y.within(final(g)),
            self.v@.sum_is(rhs.v@, y.v@),
            T::obeys_add_spec() ==> y.v@ == self.v@.plus(rhs.v@),
            recorded(
                old(g),
                final(g),
                self.i,
                TensorView::filled(y.v@.shape, unit),
                rhs.i,
                TensorView::filled(y.v@.shape, unit),
                y.i,
            ),
    {
        let v = (&self.v).add(&rhs.v);
        assert(product_of(v@.shape) == v.v.len());
        let d = Tensor::shape_elem(v.s.copy(), unit);
        let i = note(g, self.i, &d, rhs.i, &d);
        ADTensor { v, i }
    }

    /// The sum of this value and the tensor `rhs`, which the caller holds
    /// under the key `key`. The local derivative by each operand is the
    /// tensor of the sum's shape filled with the multiplicative identity of
    /// `T`.
    pub fn add(&self, g: &mut Graph<T>, key: usize, rhs: &Tensor<T>) -> (y: ADTensor<T>) where T: One
        requires
            old(g).wf(),
            self.within(old(g)),
            can_add(self.v@, rhs@),
        ensures
            final(g).wf(),
            y.within(final(g)),
            self.v@.sum_is(rhs@, y.v@),
            T::obeys_add_spec() ==> y.v@ == self.v@.plus(rhs@),
            exists|unit: T| #[trigger]
                recorded(
                    old(g),
                    final(g),
                    self.i,
                    TensorView::filled(y.v@.shape, unit),
                    param_vtx(old(g).params(), key),
                    TensorView::filled(y.v@.shape, unit),
                    y.i,
                ),
    {
        self.add_unit(g, key, rhs, one::<T>())
    }

    /// The sum of this value and another value of the forward pass. The local
    /// derivative by each operand is the tensor of the sum's shape filled
    /// with the multiplicative identity of `T`.
    pub fn add_var(&self, g: &mut Graph<T>, rhs: &ADTensor<T>) -> (y: ADTensor<T>) where T: One
        requires
            old(g).wf(),
            self.within(old(g)),
            rhs.within(old(g)),
            can_add(self.v@, rhs.v@),
        ensures
            final(g).wf(),
            y.within(final(g)),
            self.v@.sum_is(rhs.v@, y.v@),
            T::obeys_add_spec() ==> y.v@ == self.v@.plus(rhs.v@),
            exists|unit: T| #[trigger]
                recorded(
                    old(g),
                    final(g),
                    self.i,
                    TensorView::filled(y.v@.shape, unit),
                    rhs.i,
                    TensorView::filled(y.v@.shape, unit),
                    y.i,
                ),
    {
        self.add_var_unit(g, rhs, one::<T>())
    }
}

} // verus!
