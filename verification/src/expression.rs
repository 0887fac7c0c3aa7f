//! An append-only arena of expressions. Each entry keeps the value that it
//! was evaluated to, the place of its operand and its own place, and the
//! expression that gave the value; a variable is the place of an entry.

use std::marker::PhantomData;
use vstd::pervasive::cloned;
use vstd::prelude::*;

verus! {

/// Something that can be evaluated on two operands to a pair of values.
pub trait Expression<T> {
    /// The operands that `eval` can be called on. An expression that does not
    /// say otherwise takes every pair.
    open spec fn takes(&self, lhs: T, rhs: T) -> bool {
        true
    }

    /// `r` is a pair that `eval` may return on `lhs` and `rhs`. An expression
    /// that does not say otherwise promises nothing of it.
    open spec fn gives(&self, lhs: T, rhs: T, r: (T, T)) -> bool {
        true
    }

    /// Evaluates the expression on `lhs` and `rhs`.
    fn eval(&self, lhs: &T, rhs: &T) -> (r: (T, T))
        requires
            self.takes(*lhs, *rhs),
        ensures
            self.gives(*lhs, *rhs, r),
    ;
}

/// The expression that hands both operands back.
#[derive(Debug, Default)]
pub struct Identity<T> {
    _t: PhantomData<T>,
}

impl<T> Identity<T> {
    /// The identity.
    pub fn new() -> Identity<T> {
        Identity { _t: PhantomData }
    }
}

impl<T: Clone> Expression<T> for Identity<T> {
    open spec fn gives(&self, lhs: T, rhs: T, r: (T, T)) -> bool {
        cloned(lhs, r.0) && cloned(rhs, r.1)
    }

    /// A clone of each operand.
    fn eval(&self, lhs: &T, rhs: &T) -> (r: (T, T)) {
        (lhs.clone(), rhs.clone())
    }
}

/// One entry of the arena.
#[verifier::reject_recursive_types(T)]
pub struct Expr<T> {
    /// The place of the operand, then the place of this entry.
    pub p: (usize, usize),
    /// The expression that gave the value.
    pub e: Box<dyn Expression<T>>,
    /// The value.
    pub t: T,
}

impl<T> Expression<T> for Expr<T> {
    open spec fn takes(&self, lhs: T, rhs: T) -> bool {
        self.e.takes(lhs, rhs)
    }

    open spec fn gives(&self, lhs: T, rhs: T, r: (T, T)) -> bool {
        self.e.gives(lhs, rhs, r)
    }

    /// What the expression of this entry evaluates to.
    fn eval(&self, lhs: &T, rhs: &T) -> (r: (T, T)) {
        self.e.eval(lhs, rhs)
    }
}

/// The expression that applies a function to its left operand and pairs the
/// result with the default value.
pub struct Function<F, T> {
    pub f: F,
    pub _t: PhantomData<T>,
}

impl<F, T> From<F> for Function<F, T> {
    /// The expression that applies `f`.
    fn from(f: F) -> (r: Function<F, T>)
        ensures
            r.f == f,
    {
        Function { f, _t: PhantomData }
    }
}

impl<F, T> vstd::std_specs::convert::FromSpecImpl<F> for Function<F, T> {
    open spec fn obeys_from_spec() -> bool {
        true
    }

    open spec fn from_spec(f: F) -> Function<F, T> {
        Function { f, _t: PhantomData }
    }
}

impl<F, T> Expression<T> for Function<F, T> where T: Default, F: Fn(&T) -> T {
    open spec fn takes(&self, lhs: T, rhs: T) -> bool {
        call_requires(self.f, (&lhs,))
    }

    open spec fn gives(&self, lhs: T, rhs: T, r: (T, T)) -> bool {
        call_ensures(self.f, (&lhs,), r.0) && call_ensures(T::default, (), r.1)
    }

    /// The function applied to `lhs`, and the default value.
    fn eval(&self, lhs: &T, rhs: &T) -> (r: (T, T)) {
        ((self.f)(lhs), T::default())
    }
}

/// What the contracts say of an entry: the place of its operand, its own
/// place, and its value. The expression of an entry is a trait object, of
/// which the arena states nothing; it is evaluated through
/// [`Expression::eval`] on what [`ExprGraph::entry`] returns.
pub struct Slot<T> {
    pub p: (usize, usize),
    pub t: T,
}

/// The place of an entry in an arena.
#[derive(Debug, Clone, Copy, PartialEq, Eq)]
pub struct Var {
    pub i: usize,
}

/// The arena. Entries are only ever appended, so the operand of an entry
/// stands before it, or is the entry itself where it has none.
#[verifier::reject_recursive_types(T)]
pub struct ExprGraph<T> {
    es: Vec<Expr<T>>,
}

impl<T> ExprGraph<T> {
    /// The entries in the order in which they were appended.
    pub closed spec fn view(&self) -> Seq<Slot<T>> {
        Seq::new(self.es@.len(), |i: int| (Slot { p: self.es@[i].p, t: self.es@[i].t }))
    }

    /// Every entry records its own place, and an operand that is not behind
    /// it.
    pub open spec fn wf(&self) -> bool {
        forall|i: int| 0 <= i < self@.len() ==> (#[trigger] self@[i]).p.1 == i && self@[i].p.0 <= i
    }

    /// The arena without entries.
    pub fn new() -> (g: ExprGraph<T>)
        ensures
            g@ == Seq::<Slot<T>>::empty(),
            g.wf(),
    {
        let g = ExprGraph { es: Vec::new() };
        assert(g@ =~= Seq::<Slot<T>>::empty());
        g
    }

    /// The number of entries.
    pub fn len(&self) -> (n: usize)
        ensures
            n == self@.len(),
    {
        self.es.len()
    }

    /// Appends `e` and returns its place.
    fn push(&mut self, e: Expr<T>) -> (v: Var)
        requires
            old(self).wf(),
            e.p.1 == old(self)@.len(),
            e.p.0 <= e.p.1,
        ensures
            final(self).wf(),
            final(self)@ == old(self)@.push(Slot { p: e.p, t: e.t }),
            v.i == old(self)@.len(),
    {
        let v = Var { i: self.es.len() };
        self.es.push(e);
        assert(self@ =~= old(self)@.push(Slot { p: e.p, t: e.t }));
        v
    }

    /// Appends an entry that holds `t` and has no operand: it names itself
    /// in that place, and evaluates as the identity.
    pub fn var(&mut self, t: T) -> (v: Var) where T: 'static + Clone
        requires
            old(self).wf(),
        ensures
            final(self).wf(),
            final(self)@ == old(self)@.push(Slot { p: (v.i, v.i), t }),
            v.i == old(self)@.len(),
    {
        let i = self.len();
        self.push(Expr { p: (i, i), e: Box::new(Identity::<T>::new()), t })
    }

    /// `v` names an entry of this arena.
    pub fn holds(&self, v: &Var) -> (r: bool)
        ensures
            r == (v.i < self@.len()),
    {
        v.i < self.es.len()
    }

    /// The entry `v`.
    pub fn entry(&self, v: &Var) -> (e: &Expr<T>)
        requires
            v.i < self@.len(),
        ensures
            e.p == self@[v.i as int].p,
            e.t == self@[v.i as int].t,
    {
        &self.es[v.i]
    }
}

impl Var {
    /// Applies `f` to the value of this entry of `g` and appends the result
    /// as a new entry whose operand is this one. Returns the new place.
    pub fn func<T, F>(self, g: &mut ExprGraph<T>, f: F) -> (v: Var) where
        T: 'static + Default,
        F: 'static + Fn(&T) -> T,

        requires
            old(g).wf(),
            self.i < old(g)@.len(),
            call_requires(f, (&old(g)@[self.i as int].t,)),
        ensures
            final(g).wf(),
            v.i == old(g)@.len(),
            final(g)@.len() == old(g)@.len() + 1,
            final(g)@.take(v.i as int) == old(g)@,
            final(g)@[v.i as int].p == (self.i, v.i),
            call_ensures(f, (&old(g)@[self.i as int].t,), final(g)@[v.i as int].t),
    {
        let p = (self.i, g.len());
        let t = f(&g.entry(&self).t);
        let e = Function::<F, T>::from(f);
        let v = g.push(Expr { p, e: Box::new(e), t });
        assert(g@.take(v.i as int) =~= old(g)@);
        v
    }
}

} // verus!
