//! The graph of one forward pass: the table of registered parameters and the
//! ledger of partial gradients, one record for each differentiable operation.

use crate::tensor::Tensor;
use vstd::prelude::*;
use vstd::seq_lib::{to_multiset_build, to_multiset_insert};

verus! {

/// A vertex of the graph: a registered parameter, by its place in the sorted
/// parameter table, or the result of a recorded operation, by its place in
/// the ledger.
#[derive(Debug, Clone, Copy, PartialEq, Eq, Structural)]
pub enum Vtx {
    Param(usize),
    Var(usize),
}

/// The record of one operation: for each operand that gradients flow back
/// to, its vertex and the local derivative of the result by that operand.
#[derive(Debug, Clone, PartialEq)]
pub struct PartialGrad<T> {
    pub lhs: Option<(Vtx, Tensor<T>)>,
    pub rhs: Option<(Vtx, Tensor<T>)>,
}

/// The entries of `s` do not decrease.
pub open spec fn sorted(s: Seq<usize>) -> bool {
    forall|i: int, j: int| 0 <= i <= j < s.len() ==> s[i] <= s[j]
}

/// The place of `key` in a parameter table: the first place that holds it, or
/// `None` where the table does not hold it.
pub open spec fn place_of(params: Seq<usize>, key: usize) -> Option<usize> {
    match params.index_of_first(key) {
        Some(i) => Some(i as usize),
        None => None,
    }
}

/// The vertex `vx` exists for an operation recorded at place `at` of the
/// ledger of a graph of `p` parameters: it is one of the parameters, or the
/// result of an earlier operation.
pub open spec fn vtx_before(vx: Vtx, p: nat, at: nat) -> bool {
    match vx {
        Vtx::Param(i) => i < p,
        Vtx::Var(i) => i < at,
    }
}

/// One operand entry of a record is fit for place `at` of the ledger: its
/// vertex exists there, and its local derivative is a full tensor.
pub open spec fn edge_fits<T>(e: Option<(Vtx, Tensor<T>)>, p: nat, at: nat) -> bool {
    match e {
        None => true,
        Some((vx, d)) => vtx_before(vx, p, at) && d@.full(),
    }
}

/// A record is fit for place `at` of the ledger of a graph of `p` parameters.
pub open spec fn record_fits<T>(r: PartialGrad<T>, p: nat, at: nat) -> bool {
    edge_fits(r.lhs, p, at) && edge_fits(r.rhs, p, at)
}

/// The parameter table and the ledger of one forward pass.
#[derive(Debug)]
pub struct Graph<T> {
    p: Vec<usize>,
    v: Vec<PartialGrad<T>>,
}

impl<T> Graph<T> {
    /// The keys of the registered parameters, in ascending order.
    pub closed spec fn params(&self) -> Seq<usize> {
        self.p@
    }

    /// The records of the operations so far, in the order in which they ran.
    pub closed spec fn ledger(&self) -> Seq<PartialGrad<T>> {
        self.v@
    }

    /// A graph is well formed when its parameter table is sorted, each record
    /// of its ledger refers only to parameters and to records before it, and
    /// both can be counted in a `usize`.
    pub open spec fn wf(&self) -> bool {
        &&& sorted(self.params())
        &&& self.params().len() <= usize::MAX
        &&& self.ledger().len() <= usize::MAX
        &&& forall|u: int|
            0 <= u < self.ledger().len() ==> record_fits(
                #[trigger] self.ledger()[u],
                self.params().len(),
                u as nat,
            )
    }

    /// Registers the parameters with the given keys: a new graph whose table
    /// holds the keys in ascending order, and whose ledger is empty.
    pub fn register(keys: Vec<usize>) -> (g: Graph<T>)
        ensures
            g.wf(),
            g.params().to_multiset() == keys@.to_multiset(),
            g.ledger().len() == 0,
    {
        let mut p: Vec<usize> = Vec::new();
        let mut i: usize = 0;
        assert(p@ =~= keys@.take(0));
        while i < keys.len()
            invariant
                i <= keys.len(),
                p.len() == i,
                sorted(p@),
                p@.to_multiset() == keys@.take(i as int).to_multiset(),
            decreases keys.len() - i,
        {
            let key = keys[i];
            let mut at: usize = 0;
            while at < p.len() && p[at] <= key
                invariant
                    at <= p.len(),
                    forall|j: int| 0 <= j < at ==> p[j] <= key,
                decreases p.len() - at,
            {
                at += 1;
            }
            proof {
                to_multiset_insert(p@, at as int, key);
                assert(keys@.take(i as int + 1) =~= keys@.take(i as int).push(key));
                to_multiset_build(keys@.take(i as int), key);
            }
            p.insert(at, key);
            i += 1;
        }
        assert(keys@.take(keys.len() as int) =~= keys@);
        Graph { p, v: Vec::new() }
    }

    /// The place of `key` in the parameter table: the first place that holds
    /// it, or `None` where no parameter has that key.
    pub fn find_param(&self, key: usize) -> (r: Option<usize>)
        requires
            self.wf(),
        ensures
            r == place_of(self.params(), key),
            r matches Some(i) ==> i < self.params().len() && self.params()[i as int] == key,
    {
        let n = self.p.len();
        let mut lo: usize = 0;
        let mut hi: usize = n;
        while lo < hi
            invariant
                lo <= hi <= n,
                n == self.p@.len(),
                sorted(self.p@),
                forall|j: int| 0 <= j < lo ==> self.p@[j] < key,
                forall|j: int| hi <= j < n ==> self.p@[j] >= key,
            decreases hi - lo,
        {
            let mid = lo + (hi - lo) / 2;
            if self.p[mid] < key {
                lo = mid + 1;
            } else {
                hi = mid;
            }
        }
        if lo < n && self.p[lo] == key {
            proof {
                assert(self.p@.contains(key));
                self.p@.index_of_first_ensures(key);
                let c = self.p@.index_of_first(key)->Some_0;
                assert(c == lo) by {
                    if c < lo {
                        assert(self.p@[c] < key);
                    }
                }
            }
            Some(lo)
        } else {
            proof {
                assert forall|j: int| 0 <= j < n implies self.p@[j] != key by {
                    if j >= lo {
                        assert(self.p@[lo as int] <= self.p@[j]);
                    }
                }
                self.p@.index_of_first_ensures(key);
            }
            None
        }
    }

    /// The number of parameters.
    pub fn param_count(&self) -> (n: usize)
        ensures
            n == self.params().len(),
    {
        self.p.len()
    }

    /// The key at place `i` of the parameter table.
    pub fn key(&self, i: usize) -> (k: usize)
        requires
            i < self.params().len(),
        ensures
            k == self.params()[i as int],
    {
        self.p[i]
    }

    /// The number of records in the ledger.
    pub fn len(&self) -> (n: usize)
        ensures
            n == self.ledger().len(),
    {
        self.v.len()
    }

    /// Record `u` of the ledger.
    pub fn record(&self, u: usize) -> (r: &PartialGrad<T>)
        requires
            u < self.ledger().len(),
        ensures
            *r == self.ledger()[u as int],
    {
        &self.v[u]
    }

    /// Appends the record of an operation to the ledger and returns the
    /// vertex that stands for its result.
    pub fn push(&mut self, r: PartialGrad<T>) -> (vx: Vtx)
        requires
            old(self).wf(),
            record_fits(r, old(self).params().len(), old(self).ledger().len()),
        ensures
            final(self).wf(),
            vx == Vtx::Var(old(self).ledger().len() as usize),
            final(self).ledger() == old(self).ledger().push(r),
            final(self).params() == old(self).params(),
    {
        let i = self.v.len();
        self.v.push(r);
        assert(self.v@.len() == self.v.len());
        Vtx::Var(i)
    }

    /// Empties the ledger, so that the graph can record another forward
    /// pass over the same parameters.
    pub fn clear(&mut self)
        requires
            old(self).wf(),
        ensures
            final(self).wf(),
            final(self).params() == old(self).params(),
            final(self).ledger().len() == 0,
    {
        self.v.clear();
    }

    /// Cuts the ledger down to its first `n` records.
    pub fn truncate(&mut self, n: usize)
        requires
            old(self).wf(),
        ensures
            final(self).wf(),
            final(self).params() == old(self).params(),
            n <= old(self).ledger().len() ==> final(self).ledger() == old(self).ledger().take(
                n as int,
            ),
            n > old(self).ledger().len() ==> final(self).ledger() == old(self).ledger(),
    {
        self.v.truncate(n);
    }
}

} // verus!
