//! The backward pass. Every vertex of the graph has an accumulator, empty at
//! first; the accumulator of the last record is seeded, and the ledger is
//! walked from its last record to its first. At each record, the gradient
//! that has reached it flows on to each of its operands: it is multiplied, as
//! a matrix product, with the operand's local derivative, and the product is
//! accumulated at the operand's vertex.

use crate::autograd::graph::{edge_fits, record_fits, Graph, PartialGrad, Vtx};
use crate::matmul::{is_kernel, MatRef};
use crate::shape::{
    lemma_product_row, multipliable, product_of, MismatchView, Shape, ShapeMismatch,
};
use crate::tensor::{Tensor, TensorView};
use num_traits::One;
use std::ops::Add;
use vstd::prelude::*;
use vstd::std_specs::ops::AddSpec;

verus! {

/// The accumulators of a backward pass: one for each parameter, and one for
/// each record of the ledger that has not been walked yet.
pub struct GradState<T> {
    pub params: Seq<TensorView<T>>,
    pub vars: Seq<TensorView<T>>,
}

impl<T> GradState<T> {
    /// The accumulator of a vertex; the empty tensor for a vertex that has
    /// none.
    pub open spec fn get(self, vx: Vtx) -> TensorView<T> {
        match vx {
            Vtx::Param(i) => if i < self.params.len() {
                self.params[i as int]
            } else {
                TensorView::empty()
            },
            Vtx::Var(i) => if i < self.vars.len() {
                self.vars[i as int]
            } else {
                TensorView::empty()
            },
        }
    }

    /// The state in which the accumulator of `vx` holds `t`. A vertex that
    /// has no accumulator leaves the state as it is.
    pub open spec fn set(self, vx: Vtx, t: TensorView<T>) -> GradState<T> {
        match vx {
            Vtx::Param(i) => if i < self.params.len() {
                GradState { params: self.params.update(i as int, t), vars: self.vars }
            } else {
                self
            },
            Vtx::Var(i) => if i < self.vars.len() {
                GradState { params: self.params, vars: self.vars.update(i as int, t) }
            } else {
                self
            },
        }
    }

    /// The state at the start of a backward pass over a graph of `p`
    /// parameters and `l` records: every accumulator is empty but that of the
    /// last record, which holds the seed.
    pub open spec fn start(p: nat, l: nat, seed: TensorView<T>) -> GradState<T> {
        GradState {
            params: Seq::new(p, |i: int| TensorView::empty()),
            vars: Seq::new(
                l,
                |i: int|
                    if i == l - 1 {
                        seed
                    } else {
                        TensorView::empty()
                    },
            ),
        }
    }

    /// Every accumulator is full or empty.
    pub open spec fn wf(self) -> bool {
        &&& forall|i: int| 0 <= i < self.params.len() ==> (#[trigger] self.params[i]).wf()
        &&& forall|i: int| 0 <= i < self.vars.len() ==> (#[trigger] self.vars[i]).wf()
    }
}

/// What the tensors of a vector are.
pub open spec fn views<T>(v: Seq<Tensor<T>>) -> Seq<TensorView<T>> {
    Seq::new(v.len(), |i: int| v[i]@)
}

/// The addition of `T` accepts every pair of operands.
pub open spec fn total_add<T: Add<Output = T>>() -> bool {
    forall|x: T, y: T| #[trigger] x.add_req(y)
}

/// An accumulator takes a gradient when it is still without elements, or
/// when it can take the gradient chunk by chunk.
pub open spec fn accepts<T>(acc: TensorView<T>, grad: TensorView<T>) -> bool {
    acc.accepts(grad)
}

/// The flow of the gradient `up` along one operand entry of a record, from
/// the state `st` to the outcome `out`. No entry, or a gradient without
/// elements, leaves the state as it is. Otherwise the gradient is multiplied
/// with the local derivative and the product accumulated at the operand's
/// vertex; shapes that do not allow one of the two steps are the outcome
/// instead.
pub open spec fn edge_step<T: Add<Output = T>, F: Fn(MatRef<T>, MatRef<T>) -> Vec<T>>(
    kernel: F,
    edge: Option<(Vtx, Tensor<T>)>,
    up: TensorView<T>,
    st: GradState<T>,
    out: Result<GradState<T>, MismatchView>,
) -> bool {
    match edge {
        None => out == Ok::<GradState<T>, MismatchView>(st),
        Some((vx, d)) => if up.data.len() == 0 {
            out == Ok::<GradState<T>, MismatchView>(st)
        } else if !multipliable(up.shape, d@.shape) {
            out == Err::<GradState<T>, MismatchView>(MismatchView { lhs: up.shape, rhs: d@.shape })
        } else {
            exists|prod: TensorView<T>|
                {
                    &&& #[trigger] up.mm_by(d@, kernel, prod)
                    &&& if accepts(st.get(vx), prod) {
                        exists|sum: TensorView<T>|
                            {
                                &&& #[trigger] st.get(vx).accumulated(prod, sum)
                                &&& out == Ok::<GradState<T>, MismatchView>(st.set(vx, sum))
                            }
                    } else {
                        out == Err::<GradState<T>, MismatchView>(
                            MismatchView { lhs: st.get(vx).shape, rhs: prod.shape },
                        )
                    }
                }
        },
    }
}

/// The flow of the gradient `up` through one record: along its left entry,
/// then along its right one, unless the first has failed.
pub open spec fn record_step<T: Add<Output = T>, F: Fn(MatRef<T>, MatRef<T>) -> Vec<T>>(
    kernel: F,
    rec: PartialGrad<T>,
    up: TensorView<T>,
    st: GradState<T>,
    out: Result<GradState<T>, MismatchView>,
) -> bool {
    exists|mid: Result<GradState<T>, MismatchView>|
        (#[trigger] edge_step(kernel, rec.lhs, up, st, mid)) && match mid {
            Ok(s1) => edge_step(kernel, rec.rhs, up, s1, out),
            Err(e) => out == Err::<GradState<T>, MismatchView>(e),
        }
}

/// The walk over a ledger from its last record to its first, from the state
/// `st`, which holds one accumulator for each record. The gradient that has
/// reached the last record flows through it, and the walk goes on over the
/// records before it. Its outcome is the parameters' accumulators, or the
/// first mismatch of shapes on the way.
pub open spec fn walk<T: Add<Output = T>, F: Fn(MatRef<T>, MatRef<T>) -> Vec<T>>(
    kernel: F,
    ledger: Seq<PartialGrad<T>>,
    st: GradState<T>,
    out: Result<Seq<TensorView<T>>, MismatchView>,
) -> bool
    decreases ledger.len(),
{
    if ledger.len() == 0 {
        out == Ok::<Seq<TensorView<T>>, MismatchView>(st.params)
    } else {
        let rest = GradState { params: st.params, vars: st.vars.drop_last() };
        exists|mid: Result<GradState<T>, MismatchView>|
            (#[trigger] record_step(kernel, ledger.last(), st.vars.last(), rest, mid)) && match mid {
                Ok(s1) => walk(kernel, ledger.drop_last(), s1, out),
                Err(e) => out == Err::<Seq<TensorView<T>>, MismatchView>(e),
            }
    }
}

/// The conventional seed of a backward pass: the one by one tensor that
/// holds `unit`.
pub open spec fn unit_seed<T>(unit: T) -> TensorView<T> {
    TensorView::filled(seq![1usize, 1usize], unit)
}

/// The conventional seed is full and holds its unit once.
pub proof fn lemma_unit_seed<T>(unit: T)
    ensures
        unit_seed(unit).full(),
        unit_seed(unit).data.len() == 1,
{
    lemma_product_row(1);
}

/// What a backward pass returned, as an outcome of a walk.
pub open spec fn outcome<T>(r: Result<Vec<Tensor<T>>, ShapeMismatch>) -> Result<
    Seq<TensorView<T>>,
    MismatchView,
> {
    match r {
        Ok(g) => Ok(views(g@)),
        Err(e) => Err(e@),
    }
}

/// The state that the accumulators in `pg` and `vg` stand for.
pub open spec fn state_of<T>(pg: Seq<Tensor<T>>, vg: Seq<Tensor<T>>) -> GradState<T> {
    GradState { params: views(pg), vars: views(vg) }
}

/// Accumulates `grad` into element `i` of `acc`, or reports the two shapes
/// where the accumulator does not take the gradient.
fn add_at<T: Copy + Add<Output = T>>(acc: &mut Vec<Tensor<T>>, i: usize, grad: &Tensor<T>) -> (r:
    Result<(), ShapeMismatch>)
    requires
        i < old(acc).len(),
        views(old(acc)@)[i as int].wf(),
        grad@.full(),
        total_add::<T>(),
    ensures
        final(acc).len() == old(acc).len(),
        match r {
            Ok(_) => {
                &&& accepts(views(old(acc)@)[i as int], grad@)
                &&& views(old(acc)@)[i as int].accumulated(grad@, views(final(acc)@)[i as int])
                &&& views(final(acc)@) == views(old(acc)@).update(
                    i as int,
                    views(final(acc)@)[i as int],
                )
                &&& views(final(acc)@)[i as int].wf()
            },
            Err(e) => {
                &&& !accepts(views(old(acc)@)[i as int], grad@)
                &&& e@ == (MismatchView { lhs: views(old(acc)@)[i as int].shape, rhs: grad@.shape })
                &&& views(final(acc)@) == views(old(acc)@)
            },
        },
{
    let ghost before = acc@;
    let r = acc[i].add_assign(grad);
    proof {
        assert(views(acc@) =~= views(before).update(i as int, views(acc@)[i as int]));
        if r is Err {
            assert(views(acc@) =~= views(before));
        }
    }
    r
}

/// Lets the gradient `up` flow along one operand entry of a record.
fn flow<T: Copy + Add<Output = T>, F: Fn(MatRef<T>, MatRef<T>) -> Vec<T>>(
    kernel: &F,
    edge: &Option<(Vtx, Tensor<T>)>,
    up: &Tensor<T>,
    pg: &mut Vec<Tensor<T>>,
    vg: &mut Vec<Tensor<T>>,
) -> (r: Result<(), ShapeMismatch>)
    requires
        edge_fits(*edge, old(pg).len() as nat, old(vg).len() as nat),
        up@.wf(),
        state_of(old(pg)@, old(vg)@).wf(),
        is_kernel(*kernel),
        total_add::<T>(),
    ensures
        final(pg).len() == old(pg).len(),
        final(vg).len() == old(vg).len(),
        state_of(final(pg)@, final(vg)@).wf(),
        edge_step(
            *kernel,
            *edge,
            up@,
            state_of(old(pg)@, old(vg)@),
            match r {
                Ok(_) => Ok(state_of(final(pg)@, final(vg)@)),
                Err(e) => Err(e@),
            },
        ),
{
    let ghost st = state_of(pg@, vg@);
    match edge {
        None => Ok(()),
        Some((vx, d)) => {
            if up.len() == 0 {
                return Ok(());
            }
            let prod = match up.try_mm(d, kernel) {
                Ok(prod) => prod,
                Err(e) => {
                    return Err(e);
                },
            };
            assert(st.get(*vx).wf());
            let r = match vx {
                Vtx::Param(i) => add_at(pg, *i, &prod),
                Vtx::Var(i) => add_at(vg, *i, &prod),
            };
            proof {
                let now = state_of(pg@, vg@);
                assert(up@.mm_by(d@, *kernel, prod@));
                if r is Ok {
                    assert(now == st.set(*vx, now.get(*vx)));
                    assert(st.get(*vx).accumulated(prod@, now.get(*vx)));
                }
            }
            r
        },
    }
}

impl<T: Copy + Add<Output = T>> Graph<T> {
    /// The backward pass from the given seed: the gradient of every
    /// parameter, in the order of the parameter table, or the first mismatch
    /// of shapes that the walk over the ledger meets. The gradient of a
    /// parameter that no gradient has reached is the empty tensor.
    pub fn backward_with<F>(&self, seed: Tensor<T>, kernel: &F) -> (r: Result<
        Vec<Tensor<T>>,
        ShapeMismatch,
    >) where F: Fn(MatRef<T>, MatRef<T>) -> Vec<T>
        requires
            self.wf(),
            seed@.wf(),
            is_kernel(*kernel),
            total_add::<T>(),
        ensures
            walk(
                *kernel,
                self.ledger(),
                GradState::start(self.params().len(), self.ledger().len(), seed@),
                outcome(r),
            ),
    {
        let plen = self.param_count();
        let vlen = self.len();
        let ghost st0 = GradState::start(self.params().len(), self.ledger().len(), seed@);
        let mut pg: Vec<Tensor<T>> = Vec::new();
        while pg.len() < plen
            invariant
                pg.len() <= plen,
                forall|i: int| 0 <= i < pg.len() ==> pg@[i]@ == TensorView::<T>::empty(),
            decreases plen - pg.len(),
        {
            pg.push(Tensor::new());
        }
        let mut vg: Vec<Tensor<T>> = Vec::new();
        if vlen > 0 {
            while vg.len() < vlen - 1
                invariant
                    vlen > 0,
                    vg.len() <= vlen - 1,
                    forall|i: int| 0 <= i < vg.len() ==> vg@[i]@ == TensorView::<T>::empty(),
                decreases vlen - 1 - vg.len(),
            {
                vg.push(Tensor::new());
            }
            vg.push(seed);
        }
        assert(state_of(pg@, vg@).params =~= st0.params);
        assert(state_of(pg@, vg@).vars =~= st0.vars);
        assert(self.ledger().take(vlen as int) =~= self.ledger());
        let mut u: usize = vlen;
        while u > 0
            invariant
                self.wf(),
                is_kernel(*kernel),
                total_add::<T>(),
                u <= self.ledger().len(),
                st0 == GradState::start(self.params().len(), self.ledger().len(), seed@),
                pg.len() == self.params().len(),
                vg.len() == u,
                state_of(pg@, vg@).wf(),
                forall|out: Result<Seq<TensorView<T>>, MismatchView>|
                    (#[trigger] walk(
                        *kernel,
                        self.ledger().take(u as int),
                        state_of(pg@, vg@),
                        out,
                    )) ==> walk(*kernel, self.ledger(), st0, out),
            decreases u,
        {
            let ghost cur = state_of(pg@, vg@);
            let ghost part = self.ledger().take(u as int);
            let up = match vg.pop() {
                Some(t) => t,
                None => Tensor::new(),
            };
            let rec = self.record(u - 1);
            let ghost rest = state_of(pg@, vg@);
            proof {
                assert(part.last() == *rec);
                assert(part.drop_last() =~= self.ledger().take(u as int - 1));
                assert(rest.vars =~= cur.vars.drop_last());
                assert(rest == (GradState { params: cur.params, vars: cur.vars.drop_last() }));
                assert(up@ == cur.vars.last());
                assert(record_fits(*rec, self.params().len(), (u - 1) as nat));
            }
            match flow(kernel, &rec.lhs, &up, &mut pg, &mut vg) {
                Ok(_) => {},
                Err(e) => {
                    proof {
                        let mid = Err::<GradState<T>, MismatchView>(e@);
                        assert(edge_step(*kernel, rec.lhs, up@, rest, mid));
                        assert(record_step(*kernel, *rec, up@, rest, mid));
                        assert(walk(*kernel, part, cur, Err::<Seq<TensorView<T>>, MismatchView>(e@)));
                    }
                    return Err(e);
                },
            }
            let ghost s1 = state_of(pg@, vg@);
            match flow(kernel, &rec.rhs, &up, &mut pg, &mut vg) {
                Ok(_) => {},
                Err(e) => {
                    proof {
                        let m1 = Ok::<GradState<T>, MismatchView>(s1);
                        let mid = Err::<GradState<T>, MismatchView>(e@);
                        assert(edge_step(*kernel, rec.lhs, up@, rest, m1));
                        assert(edge_step(*kernel, rec.rhs, up@, s1, mid));
                        assert(record_step(*kernel, *rec, up@, rest, mid));
                        assert(walk(*kernel, part, cur, Err::<Seq<TensorView<T>>, MismatchView>(e@)));
                    }
                    return Err(e);
                },
            }
            proof {
                let s2 = state_of(pg@, vg@);
                let m1 = Ok::<GradState<T>, MismatchView>(s1);
                let m2 = Ok::<GradState<T>, MismatchView>(s2);
                assert(edge_step(*kernel, rec.lhs, up@, rest, m1));
                assert(edge_step(*kernel, rec.rhs, up@, s1, m2));
                assert(record_step(*kernel, *rec, up@, rest, m2));
                assert forall|out: Result<Seq<TensorView<T>>, MismatchView>|
                    (#[trigger] walk(
                        *kernel,
                        self.ledger().take(u as int - 1),
                        s2,
                        out,
                    )) implies walk(*kernel, self.ledger(), st0, out) by {
                    assert(walk(*kernel, part, cur, out));
                }
            }
            u -= 1;
        }
        proof {
            assert(self.ledger().take(0) =~= Seq::<PartialGrad<T>>::empty());
            assert(walk(
                *kernel,
                self.ledger().take(0),
                state_of(pg@, vg@),
                Ok::<Seq<TensorView<T>>, MismatchView>(views(pg@)),
            ));
        }
        Ok(pg)
    }

    /// The backward pass from the conventional seed, the one by one tensor
    /// that holds the multiplicative identity of `T`: the gradient of every
    /// parameter, or the first mismatch of shapes on the way.
    pub fn backward<F>(&self, kernel: &F) -> (r: Result<Vec<Tensor<T>>, ShapeMismatch>) where
        F: Fn(MatRef<T>, MatRef<T>) -> Vec<T>,
        T: One,

        requires
            self.wf(),
            is_kernel(*kernel),
            total_add::<T>(),
        ensures
            exists|unit: T|
                walk(
                    *kernel,
                    self.ledger(),
                    GradState::start(
                        self.params().len(),
                        self.ledger().len(),
                        #[trigger] unit_seed(unit),
                    ),
                    outcome(r),
                ),
    {
        let mut s: Vec<usize> = Vec::new();
        s.push(1);
        s.push(1);
        proof {
            assert(s@ =~= seq![1usize, 1usize]);
            lemma_product_row(1);
        }
        let seed = Tensor::ones(Shape::from(s));
        let ghost unit = choose|u: T| seed@ == TensorView::filled(seq![1usize, 1usize], u);
        assert(seed@ == unit_seed(unit));
        self.backward_with(seed, kernel)
    }
}

/// The record `r` names the vertex `vx` as one of its operands.
pub open spec fn names<T>(r: PartialGrad<T>, vx: Vtx) -> bool {
    (r.lhs matches Some((x, _)) && x == vx) || (r.rhs matches Some((x, _)) && x == vx)
}

/// A parameter that no record of the ledger names as an operand keeps, in
/// every backward pass that succeeds, the gradient that it had at the start:
/// the empty tensor, where the pass started with empty accumulators.
pub proof fn lemma_untouched_parameter<T: Add<Output = T>, F: Fn(MatRef<T>, MatRef<T>) -> Vec<T>>(
    kernel: F,
    ledger: Seq<PartialGrad<T>>,
    st: GradState<T>,
    grads: Seq<TensorView<T>>,
    i: int,
)
    requires
        walk(kernel, ledger, st, Ok(grads)),
        0 <= i < st.params.len(),
        forall|u: int| 0 <= u < ledger.len() ==> !names(#[trigger] ledger[u], Vtx::Param(i as usize)),
        i <= usize::MAX,
    ensures
        grads.len() == st.params.len(),
        grads[i] == st.params[i],
    decreases ledger.len(),
{
    if ledger.len() > 0 {
        let rec = ledger.last();
        let up = st.vars.last();
        let rest = GradState { params: st.params, vars: st.vars.drop_last() };
        let mid = choose|mid: Result<GradState<T>, MismatchView>|
            (#[trigger] record_step(kernel, rec, up, rest, mid)) && match mid {
                Ok(s1) => walk(kernel, ledger.drop_last(), s1, Ok(grads)),
                Err(e) => Ok::<Seq<TensorView<T>>, MismatchView>(grads) == Err::<
                    Seq<TensorView<T>>,
                    MismatchView,
                >(e),
            };
        let s2 = mid->Ok_0;
        let m1 = choose|m1: Result<GradState<T>, MismatchView>|
            (#[trigger] edge_step(kernel, rec.lhs, up, rest, m1)) && match m1 {
                Ok(s1) => edge_step(kernel, rec.rhs, up, s1, mid),
                Err(e) => mid == Err::<GradState<T>, MismatchView>(e),
            };
        let s1 = m1->Ok_0;
        assert(!names(rec, Vtx::Param(i as usize)));
        lemma_edge_keeps(kernel, rec.lhs, up, rest, s1, i);
        lemma_edge_keeps(kernel, rec.rhs, up, s1, s2, i);
        assert forall|u: int| 0 <= u < ledger.drop_last().len() implies !names(
            #[trigger] ledger.drop_last()[u],
            Vtx::Param(i as usize),
        ) by {
            assert(ledger.drop_last()[u] == ledger[u]);
        }
        lemma_untouched_parameter(kernel, ledger.drop_last(), s2, grads, i);
    }
}

/// The outcome `out` of a step, with the accumulator of parameter `i` set to
/// `t` where the step has succeeded.
pub open spec fn with_param<T>(out: Result<GradState<T>, MismatchView>, i: usize, t: TensorView<T>) -> Result<
    GradState<T>,
    MismatchView,
> {
    match out {
        Ok(s) => Ok(s.set(Vtx::Param(i), t)),
        Err(e) => Err(e),
    }
}

/// The flow along an entry that does not name parameter `i` goes the same
/// way whatever the accumulator of that parameter holds.
proof fn lemma_edge_inert<T: Add<Output = T>, F: Fn(MatRef<T>, MatRef<T>) -> Vec<T>>(
    kernel: F,
    edge: Option<(Vtx, Tensor<T>)>,
    up: TensorView<T>,
    st: GradState<T>,
    out: Result<GradState<T>, MismatchView>,
    i: usize,
    t: TensorView<T>,
)
    requires
        edge_step(kernel, edge, up, st, out),
        i < st.params.len(),
        !(edge matches Some((x, _)) && x == Vtx::Param(i)),
    ensures
        edge_step(kernel, edge, up, st.set(Vtx::Param(i), t), with_param(out, i, t)),
        out matches Ok(s) ==> s.params.len() == st.params.len() && s.vars.len() == st.vars.len(),
{
    let pi = Vtx::Param(i);
    let st2 = st.set(pi, t);
    let out2 = with_param(out, i, t);
    match edge {
        None => {
            assert(out == Ok::<GradState<T>, MismatchView>(st));
        },
        Some((vx, d)) => {
            if up.data.len() == 0 {
                assert(out == Ok::<GradState<T>, MismatchView>(st));
            } else if multipliable(up.shape, d@.shape) {
                let prod = choose|prod: TensorView<T>|
                    {
                        &&& #[trigger] up.mm_by(d@, kernel, prod)
                        &&& if accepts(st.get(vx), prod) {
                            exists|sum: TensorView<T>|
                                {
                                    &&& #[trigger] st.get(vx).accumulated(prod, sum)
                                    &&& out == Ok::<GradState<T>, MismatchView>(st.set(vx, sum))
                                }
                        } else {
                            out == Err::<GradState<T>, MismatchView>(
                                MismatchView { lhs: st.get(vx).shape, rhs: prod.shape },
                            )
                        }
                    };
                assert(vx != pi);
                assert(st2.get(vx) == st.get(vx));
                if accepts(st.get(vx), prod) {
                    let sum = choose|sum: TensorView<T>|
                        {
                            &&& #[trigger] st.get(vx).accumulated(prod, sum)
                            &&& out == Ok::<GradState<T>, MismatchView>(st.set(vx, sum))
                        };
                    assert(st.set(vx, sum).set(pi, t) == st2.set(vx, sum)) by {
                        assert(st.set(vx, sum).set(pi, t).params =~= st2.set(vx, sum).params);
                        assert(st.set(vx, sum).set(pi, t).vars =~= st2.set(vx, sum).vars);
                    }
                    assert(st2.get(vx).accumulated(prod, sum));
                    assert(out2 == Ok::<GradState<T>, MismatchView>(st2.set(vx, sum)));
                }
                assert(up.mm_by(d@, kernel, prod));
            }
        },
    }
}

/// A parameter that no record of the ledger names as an operand has no part
/// in the backward pass: whatever its accumulator holds at the start, the
/// pass ends in the same mismatch, or in the same gradients for all other
/// parameters and that accumulator for this one. So no error is ever on its
/// account.
pub proof fn lemma_untouched_parameter_is_inert<
    T: Add<Output = T>,
    F: Fn(MatRef<T>, MatRef<T>) -> Vec<T>,
>(
    kernel: F,
    ledger: Seq<PartialGrad<T>>,
    st: GradState<T>,
    out: Result<Seq<TensorView<T>>, MismatchView>,
    i: usize,
    t: TensorView<T>,
)
    requires
        walk(kernel, ledger, st, out),
        i < st.params.len(),
        forall|u: int| 0 <= u < ledger.len() ==> !names(#[trigger] ledger[u], Vtx::Param(i)),
    ensures
        walk(
            kernel,
            ledger,
            st.set(Vtx::Param(i), t),
            match out {
                Ok(g) => Ok(g.update(i as int, t)),
                Err(e) => Err(e),
            },
        ),
    decreases ledger.len(),
{
    let pi = Vtx::Param(i);
    let st2 = st.set(pi, t);
    let out2 = match out {
        Ok(g) => Ok::<Seq<TensorView<T>>, MismatchView>(g.update(i as int, t)),
        Err(e) => Err::<Seq<TensorView<T>>, MismatchView>(e),
    };
    if ledger.len() == 0 {
        assert(out == Ok::<Seq<TensorView<T>>, MismatchView>(st.params));
    } else {
        let rec = ledger.last();
        let up = st.vars.last();
        let rest = GradState { params: st.params, vars: st.vars.drop_last() };
        let rest2 = GradState { params: st2.params, vars: st2.vars.drop_last() };
        assert(rest2 == rest.set(pi, t));
        let mid = choose|mid: Result<GradState<T>, MismatchView>|
            (#[trigger] record_step(kernel, rec, up, rest, mid)) && match mid {
                Ok(s1) => walk(kernel, ledger.drop_last(), s1, out),
                Err(e) => out == Err::<Seq<TensorView<T>>, MismatchView>(e),
            };
        let m1 = choose|m1: Result<GradState<T>, MismatchView>|
            (#[trigger] edge_step(kernel, rec.lhs, up, rest, m1)) && match m1 {
                Ok(s1) => edge_step(kernel, rec.rhs, up, s1, mid),
                Err(e) => mid == Err::<GradState<T>, MismatchView>(e),
            };
        assert(!names(rec, pi));
        lemma_edge_inert(kernel, rec.lhs, up, rest, m1, i, t);
        match m1 {
            Ok(s1) => {
                lemma_edge_inert(kernel, rec.rhs, up, s1, mid, i, t);
            },
            Err(e) => {},
        }
        let mid2 = with_param(mid, i, t);
        assert(edge_step(kernel, rec.lhs, up, rest2, with_param(m1, i, t)));
        assert(record_step(kernel, rec, up, rest2, mid2));
        match mid {
            Ok(s2) => {
                assert forall|u: int| 0 <= u < ledger.drop_last().len() implies !names(
                    #[trigger] ledger.drop_last()[u],
                    pi,
                ) by {
                    assert(ledger.drop_last()[u] == ledger[u]);
                }
                lemma_untouched_parameter_is_inert(kernel, ledger.drop_last(), s2, out, i, t);
            },
            Err(e) => {},
        }
        assert(st2.vars.last() == up);
    }
}

/// The gradient of a parameter that only the last record of the ledger
/// names, as its right operand, is the product of the seed with the local
/// derivative of that record: whatever the kernel returned for the two. So
/// the gradient of the weight of a terminal product is the seed times the
/// input, and the gradient of the bias of a terminal sum is the seed times the
/// tensor of ones.
pub proof fn lemma_terminal_gradient<T: Add<Output = T>, F: Fn(MatRef<T>, MatRef<T>) -> Vec<T>>(
    kernel: F,
    ledger: Seq<PartialGrad<T>>,
    p: nat,
    seed: TensorView<T>,
    grads: Seq<TensorView<T>>,
    i: usize,
)
    requires
        ledger.len() > 0,
        walk(kernel, ledger, GradState::start(p, ledger.len(), seed), Ok(grads)),
        i < p,
        seed.data.len() > 0,
        ledger.last().rhs matches Some((x, _)) && x == Vtx::Param(i),
        !(ledger.last().lhs matches Some((x, _)) && x == Vtx::Param(i)),
        forall|u: int| 0 <= u < ledger.len() - 1 ==> !names(#[trigger] ledger[u], Vtx::Param(i)),
    ensures
        grads.len() == p,
        ledger.last().rhs matches Some((_, d)) && seed.mm_by(d@, kernel, grads[i as int]),
{
    let st = GradState::start(p, ledger.len(), seed);
    let rec = ledger.last();
    let out = Ok::<Seq<TensorView<T>>, MismatchView>(grads);
    let rest = GradState { params: st.params, vars: st.vars.drop_last() };
    assert(st.vars.last() == seed);
    let mid = choose|mid: Result<GradState<T>, MismatchView>|
        (#[trigger] record_step(kernel, rec, seed, rest, mid)) && match mid {
            Ok(s1) => walk(kernel, ledger.drop_last(), s1, out),
            Err(e) => out == Err::<Seq<TensorView<T>>, MismatchView>(e),
        };
    let s2 = mid->Ok_0;
    let m1 = choose|m1: Result<GradState<T>, MismatchView>|
        (#[trigger] edge_step(kernel, rec.lhs, seed, rest, m1)) && match m1 {
            Ok(s1) => edge_step(kernel, rec.rhs, seed, s1, mid),
            Err(e) => mid == Err::<GradState<T>, MismatchView>(e),
        };
    let s1 = m1->Ok_0;
    lemma_edge_keeps(kernel, rec.lhs, seed, rest, s1, i as int);
    let d = match rec.rhs {
        Some((_, t)) => t,
        None => arbitrary(),
    };
    let vx = Vtx::Param(i);
    assert(s1.get(vx) == TensorView::<T>::empty());
    assert(edge_step(kernel, rec.rhs, seed, s1, mid));
    let prod = choose|prod: TensorView<T>|
        {
            &&& #[trigger] seed.mm_by(d@, kernel, prod)
            &&& if accepts(s1.get(vx), prod) {
                exists|sum: TensorView<T>|
                    {
                        &&& #[trigger] s1.get(vx).accumulated(prod, sum)
                        &&& mid == Ok::<GradState<T>, MismatchView>(s1.set(vx, sum))
                    }
            } else {
                mid == Err::<GradState<T>, MismatchView>(
                    MismatchView { lhs: s1.get(vx).shape, rhs: prod.shape },
                )
            }
        };
    let sum = choose|sum: TensorView<T>|
        {
            &&& #[trigger] s1.get(vx).accumulated(prod, sum)
            &&& mid == Ok::<GradState<T>, MismatchView>(s1.set(vx, sum))
        };
    assert(sum == prod);
    assert(s2.params[i as int] == prod);
    assert forall|u: int| 0 <= u < ledger.drop_last().len() implies !names(
        #[trigger] ledger.drop_last()[u],
        Vtx::Param(i),
    ) by {
        assert(ledger.drop_last()[u] == ledger[u]);
    }
    lemma_untouched_parameter(kernel, ledger.drop_last(), s2, grads, i as int);
}

/// The flow along an entry that does not name parameter `i` leaves the
/// accumulator of that parameter as it is.
proof fn lemma_edge_keeps<T: Add<Output = T>, F: Fn(MatRef<T>, MatRef<T>) -> Vec<T>>(
    kernel: F,
    edge: Option<(Vtx, Tensor<T>)>,
    up: TensorView<T>,
    st: GradState<T>,
    next: GradState<T>,
    i: int,
)
    requires
        edge_step(kernel, edge, up, st, Ok(next)),
        0 <= i < st.params.len(),
        i <= usize::MAX,
        !(edge matches Some((x, _)) && x == Vtx::Param(i as usize)),
    ensures
        next.params.len() == st.params.len(),
        next.params[i] == st.params[i],
{
    let out = Ok::<GradState<T>, MismatchView>(next);
    assert(edge_step(kernel, edge, up, st, out));
    match edge {
        None => {
            assert(out == Ok::<GradState<T>, MismatchView>(st));
        },
        Some((vx, d)) => {
            if up.data.len() == 0 {
                assert(out == Ok::<GradState<T>, MismatchView>(st));
            } else if multipliable(up.shape, d@.shape) {
                let prod = choose|prod: TensorView<T>|
                    {
                        &&& #[trigger] up.mm_by(d@, kernel, prod)
                        &&& if accepts(st.get(vx), prod) {
                            exists|sum: TensorView<T>|
                                {
                                    &&& #[trigger] st.get(vx).accumulated(prod, sum)
                                    &&& out == Ok::<GradState<T>, MismatchView>(st.set(vx, sum))
                                }
                        } else {
                            out == Err::<GradState<T>, MismatchView>(
                                MismatchView { lhs: st.get(vx).shape, rhs: prod.shape },
                            )
                        }
                    };
                let sum = choose|sum: TensorView<T>|
                    {
                        &&& #[trigger] st.get(vx).accumulated(prod, sum)
                        &&& out == Ok::<GradState<T>, MismatchView>(st.set(vx, sum))
                    };
                assert(next == st.set(vx, sum));
            }
        },
    }
}

} // verus!
