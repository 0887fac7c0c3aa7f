//! Tensor shapes: an ordered list of axis sizes, with the broadcasting and
//! matrix-product rules that decide which shapes may meet in one operation.
//!
//! A shape is written leading axis first, as in `[batch, rows, cols]`, and is
//! indexed from the other end: axis 0 is the trailing (fastest varying) axis.

use std::iter::Rev;
use std::ops::Index;
use std::slice::Iter;
use vstd::prelude::*;
use vstd::std_specs::iter::IteratorSpec;

verus! {

/// Size of axis `i` of `s`, counted from the trailing axis. An axis beyond
/// the rank of `s` has size 1, which is how a shorter shape is aligned with a
/// longer one.
pub open spec fn dim(s: Seq<usize>, i: int) -> int {
    if 0 <= i < s.len() {
        s[s.len() - 1 - i] as int
    } else {
        1
    }
}

/// Number of elements of a tensor of shape `s`: the product of its axis sizes.
/// The empty shape has one element.
pub open spec fn product_of(s: Seq<usize>) -> nat
    decreases s.len(),
{
    if s.len() == 0 {
        1
    } else {
        product_of(s.drop_last()) * (s.last() as nat)
    }
}

/// `a` and `b` have the same size on each of their `k` trailing axes.
pub open spec fn agree(a: Seq<usize>, b: Seq<usize>, k: int) -> bool {
    forall|i: int| 0 <= i < k ==> dim(a, i) == dim(b, i)
}

/// Every axis of `a` from axis `k` outward has size 1.
pub open spec fn ones_from(a: Seq<usize>, k: int) -> bool {
    forall|i: int| k <= i ==> dim(a, i) == 1
}

/// `a` and `b` meet on axis `i`: the two sizes are equal, or one of them is 1
/// and that operand is stretched along the axis.
pub open spec fn meet(a: Seq<usize>, b: Seq<usize>, i: int) -> bool {
    dim(a, i) == dim(b, i) || dim(a, i) == 1 || dim(b, i) == 1
}

/// Two shapes can be broadcast against each other when, aligned at the
/// trailing axis, they meet on every axis.
pub open spec fn can_broadcast(a: Seq<usize>, b: Seq<usize>) -> bool {
    forall|i: int| 0 <= i ==> #[trigger] meet(a, b, i)
}

/// On axis `i` the operand `a` has the size of the result `r`, or size 1.
pub open spec fn fit(a: Seq<usize>, r: Seq<usize>, i: int) -> bool {
    dim(a, i) == dim(r, i) || dim(a, i) == 1
}

/// An operand of shape `a` can be read for a result of shape `r`: on every
/// axis it has the size of the result, or size 1.
pub open spec fn fits(a: Seq<usize>, r: Seq<usize>) -> bool {
    forall|i: int| 0 <= i ==> #[trigger] fit(a, r, i)
}

/// One of two shapes repeats as a block in the other: they share a block of
/// trailing axes and, beyond that block, one of them has only axes of size 1.
/// Broadcasting then needs no gather: the buffer of that operand is repeated
/// whole through the buffer of the other.
pub open spec fn repeats(a: Seq<usize>, b: Seq<usize>) -> bool {
    exists|k: int| 0 <= k && #[trigger] agree(a, b, k) && (ones_from(a, k) || ones_from(b, k))
}

/// The common shape of two operands: as long as the longer of the two, and on
/// each axis the size that is not 1 where the two differ.
pub open spec fn broadcast(a: Seq<usize>, b: Seq<usize>) -> Seq<usize> {
    let n = if a.len() >= b.len() {
        a.len()
    } else {
        b.len()
    };
    Seq::new(
        n,
        |j: int|
            if dim(a, n - 1 - j) == 1 {
                dim(b, n - 1 - j) as usize
            } else {
                dim(a, n - 1 - j) as usize
            },
    )
}

/// The axes of `s` in front of its trailing two: the batch axes of a stack of
/// matrices.
pub open spec fn batch(s: Seq<usize>) -> Seq<usize> {
    s.take(s.len() - 2)
}

/// A stack of `m` by `k` matrices can be multiplied with a stack of `k` by `n`
/// matrices when both have at least two axes, their batch axes can be
/// broadcast, and the two sizes of the contracted axis are equal or one of
/// them is 1.
pub open spec fn can_broadcast_mm(a: Seq<usize>, b: Seq<usize>) -> bool {
    &&& a.len() >= 2
    &&& b.len() >= 2
    &&& can_broadcast(batch(a), batch(b))
    &&& (dim(a, 0) == dim(b, 1) || dim(a, 0) == 1 || dim(b, 1) == 1)
}

/// Shape of a matrix product: the broadcast batch axes, then the rows of the
/// left operand and the columns of the right one.
pub open spec fn broadcast_mm(a: Seq<usize>, b: Seq<usize>) -> Seq<usize> {
    broadcast(batch(a), batch(b)).push(dim(a, 1) as usize).push(dim(b, 0) as usize)
}

/// Tensors of the shapes `a` and `b` can be multiplied: the shapes are
/// compatible, and the product has no more elements than a buffer can hold.
pub open spec fn multipliable(a: Seq<usize>, b: Seq<usize>) -> bool {
    can_broadcast_mm(a, b) && product_of(broadcast_mm(a, b)) <= usize::MAX
}

/// Length of the contracted axis of a matrix product: the size that is not 1
/// where the two operands differ.
pub open spec fn contraction(a: Seq<usize>, b: Seq<usize>) -> int {
    if dim(a, 0) == 1 {
        dim(b, 1)
    } else {
        dim(a, 0)
    }
}

/// One more trailing axis multiplies the number of elements by its size.
pub proof fn lemma_product_push(s: Seq<usize>, d: usize)
    ensures
        product_of(s.push(d)) == product_of(s) * (d as nat),
{
    assert(s.push(d).drop_last() =~= s);
}

/// A single row of `n` columns has `n` elements.
pub proof fn lemma_product_row(n: usize)
    ensures
        product_of(seq![1usize, n]) == n,
{
    let e = Seq::<usize>::empty();
    assert(seq![1usize, n] =~= e.push(1usize).push(n));
    lemma_product_push(e, 1usize);
    lemma_product_push(e.push(1usize), n);
    assert(product_of(e.push(1usize).push(n)) == n) by (nonlinear_arith)
        requires
            product_of(e) == 1,
            product_of(e.push(1usize)) == product_of(e) * 1,
            product_of(e.push(1usize).push(n)) == product_of(e.push(1usize)) * n,
    ;
}

/// The first `i + 1` axes hold the elements of the first `i`, times the size
/// of axis `i`.
pub proof fn lemma_product_take(s: Seq<usize>, i: int)
    requires
        0 <= i < s.len(),
    ensures
        product_of(s.take(i + 1)) == product_of(s.take(i)) * (s[i] as nat),
{
    assert(s.take(i + 1).drop_last() =~= s.take(i));
}

/// A shape with an axis of size 0 has no elements.
pub proof fn lemma_product_zero(s: Seq<usize>, i: int)
    requires
        0 <= i < s.len(),
        s[i] == 0,
    ensures
        product_of(s) == 0,
    decreases s.len(),
{
    if i == s.len() - 1 {
        assert(product_of(s.drop_last()) * 0 == 0) by (nonlinear_arith);
    } else {
        lemma_product_zero(s.drop_last(), i);
        assert(0 * (s.last() as nat) == 0) by (nonlinear_arith);
    }
}

/// A shape without an axis of size 0 has at least one element, and each
/// prefix of it has no more elements than the whole.
pub proof fn lemma_product_positive(s: Seq<usize>, i: int)
    requires
        forall|j: int| 0 <= j < s.len() ==> s[j] > 0,
        0 <= i <= s.len(),
    ensures
        1 <= product_of(s.take(i)) <= product_of(s),
    decreases s.len() - i,
{
    if i == s.len() {
        assert(s.take(i) =~= s);
        lemma_product_nonzero(s);
    } else {
        lemma_product_positive(s, i + 1);
        lemma_product_take(s, i);
        let p = product_of(s.take(i));
        let d = s[i] as nat;
        assert(p * d >= 1 && d >= 1 ==> 1 <= p <= p * d) by (nonlinear_arith);
    }
}

proof fn lemma_product_nonzero(s: Seq<usize>)
    requires
        forall|j: int| 0 <= j < s.len() ==> s[j] > 0,
    ensures
        product_of(s) >= 1,
    decreases s.len(),
{
    if s.len() > 0 {
        lemma_product_nonzero(s.drop_last());
        let p = product_of(s.drop_last());
        let d = s.last() as nat;
        assert(p >= 1 && d >= 1 ==> p * d >= 1) by (nonlinear_arith);
    }
}

/// Number of elements in one block of the `k` trailing axes of `s`.
pub open spec fn block(s: Seq<usize>, k: int) -> nat
    decreases k,
{
    if k <= 0 {
        1
    } else {
        block(s, k - 1) * (dim(s, k - 1) as nat)
    }
}

/// A buffer of shape `s` is a whole number of blocks of its `k` trailing axes:
/// as many as the axes in front of them hold.
pub proof fn lemma_block_split(s: Seq<usize>, k: int)
    requires
        0 <= k,
    ensures
        k <= s.len() ==> product_of(s) == product_of(s.take(s.len() - k)) * block(s, k),
        k >= s.len() ==> product_of(s) == block(s, k),
    decreases k,
{
    let n = s.len() as int;
    if k == 0 {
        assert(s.take(n) =~= s);
        assert(product_of(s) * 1 == product_of(s)) by (nonlinear_arith);
        if n == 0 {
        }
    } else {
        lemma_block_split(s, k - 1);
        if k <= n {
            lemma_product_take(s, n - k);
            let x = product_of(s.take(n - k));
            let y = s[n - k] as nat;
            let z = block(s, k - 1);
            assert(dim(s, k - 1) == s[n - k]);
            assert((x * y) * z == x * (z * y)) by (nonlinear_arith);
            if k == n {
                assert(s.take(0) =~= Seq::<usize>::empty());
                assert(1 * block(s, k) == block(s, k)) by (nonlinear_arith);
            }
        } else {
            assert(dim(s, k - 1) == 1);
            assert(block(s, k - 1) * 1 == block(s, k - 1)) by (nonlinear_arith);
        }
    }
}

/// Shapes that agree on their `k` trailing axes have blocks of the same size.
pub proof fn lemma_block_agree(a: Seq<usize>, b: Seq<usize>, k: int)
    requires
        agree(a, b, k),
    ensures
        block(a, k) == block(b, k),
    decreases k,
{
    if k > 0 {
        assert(agree(a, b, k - 1));
        lemma_block_agree(a, b, k - 1);
        assert(dim(a, k - 1) == dim(b, k - 1));
    }
}

/// A shape that is 1 on every axis from axis `k` outward holds exactly one
/// block of its `k` trailing axes.
pub proof fn lemma_block_whole(a: Seq<usize>, k: int)
    requires
        0 <= k,
        ones_from(a, k),
    ensures
        product_of(a) == block(a, k),
    decreases a.len() - k,
{
    if k >= a.len() {
        lemma_block_split(a, k);
    } else {
        assert(ones_from(a, k + 1));
        lemma_block_whole(a, k + 1);
        assert(dim(a, k) == 1);
        assert(block(a, k) * 1 == block(a, k)) by (nonlinear_arith);
    }
}

/// Padding a shape with leading axes of size 1 does not change its number of
/// elements.
pub proof fn lemma_product_padded(b: Seq<usize>, n: int)
    requires
        n >= b.len(),
    ensures
        product_of(Seq::new(n as nat, |j: int| dim(b, n - 1 - j) as usize)) == product_of(b),
{
    let r = Seq::new(n as nat, |j: int| dim(b, n - 1 - j) as usize);
    assert forall|k: int| 0 <= k implies block(r, k) == block(b, k) by {
        lemma_block_agree(r, b, k);
    }
    lemma_block_split(r, n);
    lemma_block_split(b, n);
}

/// Where one of two shapes repeats as a block in the other, their broadcast
/// has the elements of the larger operand, and the buffer of each operand is
/// repeated a whole number of times in it.
pub proof fn lemma_repeats_product(a: Seq<usize>, b: Seq<usize>) -> (q: (nat, nat))
    requires
        repeats(a, b),
    ensures
        product_of(broadcast(a, b)) == product_of(a) || product_of(broadcast(a, b)) == product_of(b),
        product_of(broadcast(a, b)) == q.0 * product_of(a),
        product_of(broadcast(a, b)) == q.1 * product_of(b),
{
    let k = choose|k: int| 0 <= k && #[trigger] agree(a, b, k) && (ones_from(a, k) || ones_from(b, k));
    let n: int = if a.len() >= b.len() {
        a.len() as int
    } else {
        b.len() as int
    };
    let r = broadcast(a, b);
    lemma_block_agree(a, b, k);
    if ones_from(a, k) {
        assert(r =~= Seq::new(n as nat, |j: int| dim(b, n - 1 - j) as usize)) by {
            assert forall|j: int| 0 <= j < n implies r[j] == dim(b, n - 1 - j) as usize by {
                if dim(a, n - 1 - j) != 1 {
                    assert(n - 1 - j < k);
                }
            }
        }
        lemma_product_padded(b, n);
        lemma_block_whole(a, k);
        lemma_block_split(b, k);
        let q: nat = if k <= b.len() {
            product_of(b.take(b.len() - k))
        } else {
            1
        };
        assert(product_of(r) == q * product_of(a)) by (nonlinear_arith)
            requires
                product_of(r) == product_of(b),
                product_of(a) == block(b, k),
                k <= b.len() ==> product_of(b) == q * block(b, k),
                k > b.len() ==> product_of(b) == block(b, k) && q == 1,
        ;
        assert(product_of(r) == 1 * product_of(b)) by (nonlinear_arith)
            requires
                product_of(r) == product_of(b),
        ;
        (q, 1)
    } else {
        assert(r =~= Seq::new(n as nat, |j: int| dim(a, n - 1 - j) as usize)) by {
            assert forall|j: int| 0 <= j < n implies r[j] == dim(a, n - 1 - j) as usize by {
                if dim(a, n - 1 - j) == 1 {
                    if n - 1 - j < k {
                        assert(dim(a, n - 1 - j) == dim(b, n - 1 - j));
                    } else {
                        assert(dim(b, n - 1 - j) == 1);
                    }
                }
            }
        }
        lemma_product_padded(a, n);
        lemma_block_whole(b, k);
        lemma_block_split(a, k);
        let q: nat = if k <= a.len() {
            product_of(a.take(a.len() - k))
        } else {
            1
        };
        assert(product_of(r) == q * product_of(b)) by (nonlinear_arith)
            requires
                product_of(r) == product_of(a),
                product_of(b) == block(a, k),
                k <= a.len() ==> product_of(a) == q * block(a, k),
                k > a.len() ==> product_of(a) == block(a, k) && q == 1,
        ;
        assert(product_of(r) == 1 * product_of(a)) by (nonlinear_arith)
            requires
                product_of(r) == product_of(a),
        ;
        (1, q)
    }
}

/// Shapes of which one repeats as a block in the other can be broadcast.
pub proof fn lemma_repeats_can_broadcast(a: Seq<usize>, b: Seq<usize>)
    requires
        repeats(a, b),
    ensures
        can_broadcast(a, b),
{
    let k = choose|k: int| 0 <= k && #[trigger] agree(a, b, k) && (ones_from(a, k) || ones_from(b, k));
    assert forall|i: int| 0 <= i implies #[trigger] meet(a, b, i) by {
        if i < k {
            assert(dim(a, i) == dim(b, i));
        }
    }
}

/// Every shape can be broadcast against itself, and the result is the shape.
pub proof fn lemma_broadcast_same(s: Seq<usize>)
    ensures
        can_broadcast(s, s),
        broadcast(s, s) == s,
{
    assert forall|i: int| 0 <= i implies #[trigger] meet(s, s, i) by {}
    assert(broadcast(s, s) =~= s);
}

/// Broadcasting does not depend on the order of the operands.
pub proof fn lemma_broadcast_commutes(a: Seq<usize>, b: Seq<usize>)
    requires
        can_broadcast(a, b),
    ensures
        can_broadcast(b, a),
        broadcast(b, a) == broadcast(a, b),
{
    assert forall|i: int| 0 <= i implies #[trigger] meet(b, a, i) by {
        assert(meet(a, b, i));
    }
    let n: int = if a.len() >= b.len() {
        a.len() as int
    } else {
        b.len() as int
    };
    assert forall|j: int| 0 <= j < n implies broadcast(b, a)[j] == broadcast(a, b)[j] by {
        assert(meet(a, b, n - 1 - j));
    }
    assert(broadcast(b, a) =~= broadcast(a, b));
}

/// The broadcast of two compatible shapes has, on every axis, the size of the
/// one operand where that is not 1, and the size of the other elsewhere; each
/// operand can be read for it.
pub proof fn lemma_broadcast_fits(a: Seq<usize>, b: Seq<usize>)
    requires
        can_broadcast(a, b),
    ensures
        fits(a, broadcast(a, b)),
        fits(b, broadcast(a, b)),
        forall|i: int|
            0 <= i ==> #[trigger] dim(broadcast(a, b), i) == (if dim(a, i) == 1 {
                dim(b, i)
            } else {
                dim(a, i)
            }),
{
    let r = broadcast(a, b);
    assert forall|i: int| 0 <= i implies #[trigger] dim(r, i) == (if dim(a, i) == 1 {
        dim(b, i)
    } else {
        dim(a, i)
    }) by {
        if i >= r.len() {
            assert(dim(a, i) == 1 && dim(b, i) == 1);
        }
    }
    assert forall|i: int| 0 <= i implies #[trigger] fit(a, r, i) by {
        assert(dim(r, i) == (if dim(a, i) == 1 {
            dim(b, i)
        } else {
            dim(a, i)
        }));
    }
    assert forall|i: int| 0 <= i implies #[trigger] fit(b, r, i) by {
        assert(meet(a, b, i));
        assert(dim(r, i) == (if dim(a, i) == 1 {
            dim(b, i)
        } else {
            dim(a, i)
        }));
    }
}

/// A shape that has elements has at least one element in each block of its
/// trailing axes, and no more in a block than in the whole.
pub proof fn lemma_block_positive(s: Seq<usize>, k: int)
    requires
        product_of(s) > 0,
    ensures
        0 < block(s, k) <= product_of(s),
        0 <= k ==> dim(s, k) > 0,
    decreases k,
{
    if 0 <= k < s.len() && dim(s, k) == 0 {
        lemma_product_zero(s, s.len() - 1 - k);
    }
    if k > 0 {
        lemma_block_positive(s, k - 1);
        assert(block(s, k - 1) * (dim(s, k - 1) as nat) > 0) by (nonlinear_arith)
            requires
                block(s, k - 1) > 0,
                dim(s, k - 1) > 0,
        ;
        lemma_block_split(s, k);
        if k <= s.len() {
            let x = product_of(s.take(s.len() - k));
            let y = block(s, k);
            assert(x >= 1 && y <= x * y) by (nonlinear_arith)
                requires
                    x * y > 0,
                    y > 0,
            ;
        }
    } else {
    }
}

/// An operand that can be read for a result with elements has elements.
pub proof fn lemma_fits_positive(a: Seq<usize>, r: Seq<usize>)
    requires
        fits(a, r),
        product_of(r) > 0,
    ensures
        product_of(a) > 0,
{
    assert forall|j: int| 0 <= j < a.len() implies a[j] > 0 by {
        let i = a.len() - 1 - j;
        assert(fit(a, r, i));
        lemma_block_positive(r, i);
    }
    lemma_product_nonzero(a);
}

/// An `m` by `k` matrix can be multiplied with a `k` by `n` matrix, and the
/// product is `m` by `n`.
pub proof fn lemma_matrix_product_shape(m: usize, k: usize, n: usize)
    ensures
        can_broadcast_mm(seq![m, k], seq![k, n]),
        broadcast_mm(seq![m, k], seq![k, n]) == seq![m, n],
{
    let a = seq![m, k];
    let b = seq![k, n];
    let e = Seq::<usize>::empty();
    assert(batch(a) =~= e);
    assert(batch(b) =~= e);
    lemma_broadcast_same(e);
    assert(broadcast_mm(a, b) =~= seq![m, n]);
}

/// An ordered list of axis sizes. Its view is the list as written, leading
/// axis first.
#[derive(Default, Clone, PartialEq, Debug)]
pub struct Shape {
    s: Vec<usize>,
}

impl View for Shape {
    type V = Seq<usize>;

    closed spec fn view(&self) -> Seq<usize> {
        self.s@
    }
}

/// Two shapes that cannot meet in one operation: they are not compatible, or
/// the result would hold more elements than a buffer can.
#[derive(Clone, PartialEq, Debug)]
pub struct ShapeMismatch {
    pub lhs: Shape,
    pub rhs: Shape,
}

/// What a mismatch reports: the axis sizes of the two shapes.
pub struct MismatchView {
    pub lhs: Seq<usize>,
    pub rhs: Seq<usize>,
}

impl View for ShapeMismatch {
    type V = MismatchView;

    open spec fn view(&self) -> MismatchView {
        MismatchView { lhs: self.lhs@, rhs: self.rhs@ }
    }
}

/// Something that has a shape.
pub trait Shaped {
    /// The shape.
    fn s(&self) -> &Shape;
}

impl Shape {
    /// The empty shape, of rank 0.
    pub fn new() -> (r: Shape)
        ensures
            r@ == Seq::<usize>::empty(),
    {
        Shape { s: Vec::new() }
    }

    /// The rank: the number of axes.
    pub fn len(&self) -> (n: usize)
        ensures
            n == self@.len(),
    {
        self.s.len()
    }

    /// The axis sizes as a vector, leading axis first.
    pub fn to_vec(&self) -> (v: Vec<usize>)
        ensures
            v@ == self@,
    {
        self.s.clone()
    }

    /// A copy of this shape.
    pub fn copy(&self) -> (r: Shape)
        ensures
            r@ == self@,
    {
        Shape { s: self.s.clone() }
    }

    /// Whether two shapes have the same axis sizes.
    pub fn same(&self, rhs: &Shape) -> (r: bool)
        ensures
            r == (self@ == rhs@),
    {
        if self.s.len() != rhs.s.len() {
            return false;
        }
        let mut i: usize = 0;
        while i < self.s.len()
            invariant
                i <= self.s.len(),
                self.s.len() == rhs.s.len(),
                forall|j: int| 0 <= j < i ==> self.s[j] == rhs.s[j],
            decreases self.s.len() - i,
        {
            if self.s[i] != rhs.s[i] {
                return false;
            }
            i += 1;
        }
        assert(self@ =~= rhs@);
        true
    }

    /// Iterates over the axis sizes from the trailing axis outward.
    pub fn iter<'a>(&'a self) -> (it: Rev<Iter<'a, usize>>)
        ensures
            IteratorSpec::remaining(&it).unref() == self@.reverse(),
    {
        let it = self.s.iter();
        it.rev()
    }

    /// Sets the size of axis `i`, counted from the trailing axis.
    pub fn set(&mut self, i: usize, d: usize)
        requires
            i < old(self)@.len(),
        ensures
            final(self)@ == old(self)@.update(old(self)@.len() - 1 - i, d),
    {
        let n = self.s.len();
        self.s[n - (1 + i)] = d;
    }

    /// Size of axis `i`, counted from the trailing axis, and 1 beyond the
    /// rank.
    pub fn dim(&self, i: usize) -> (d: usize)
        ensures
            d == dim(self@, i as int),
    {
        axis(&self.s, self.s.len(), i)
    }

    /// The number of elements of this shape, or `None` where that number does
    /// not fit in a `usize`.
    pub fn checked_product(&self) -> (r: Option<usize>)
        ensures
            match r {
                Some(p) => p == product_of(self@),
                None => product_of(self@) > usize::MAX,
            },
    {
        let n = self.s.len();
        let mut z: usize = 0;
        while z < n
            invariant
                n == self.s.len(),
                z <= n,
                forall|j: int| 0 <= j < z ==> self.s[j] > 0,
            decreases n - z,
        {
            if self.s[z] == 0 {
                proof {
                    lemma_product_zero(self@, z as int);
                }
                return Some(0);
            }
            z += 1;
        }
        let mut p: usize = 1;
        let mut i: usize = 0;
        while i < n
            invariant
                n == self.s.len(),
                i <= n,
                forall|j: int| 0 <= j < n ==> self.s[j] > 0,
                p == product_of(self@.take(i as int)),
            decreases n - i,
        {
            proof {
                lemma_product_take(self@, i as int);
                lemma_product_positive(self@, i as int + 1);
            }
            match p.checked_mul(self.s[i]) {
                Some(q) => {
                    p = q;
                },
                None => {
                    return None;
                },
            }
            i += 1;
        }
        assert(self@.take(n as int) =~= self@);
        Some(p)
    }

    /// The number of elements of this shape.
    pub fn product(&self) -> (p: usize)
        requires
            product_of(self@) <= usize::MAX,
        ensures
            p == product_of(self@),
    {
        match self.checked_product() {
            Some(p) => p,
            None => 0,
        }
    }

    /// Whether this shape and `rhs` can be broadcast against each other.
    pub fn can_broadcast(&self, rhs: &Shape) -> (r: bool)
        ensures
            r == can_broadcast(self@, rhs@),
    {
        assert(self.s@.take(self.s.len() as int) =~= self@);
        assert(rhs.s@.take(rhs.s.len() as int) =~= rhs@);
        compatible(&self.s, self.s.len(), &rhs.s, rhs.s.len())
    }

    /// Whether an operand of this shape can be read for a result of shape
    /// `r`.
    pub fn fits(&self, r: &Shape) -> (ok: bool)
        ensures
            ok == fits(self@, r@),
    {
        let n = self.s.len();
        let mut i: usize = 0;
        while i < n
            invariant
                n == self@.len(),
                i <= n,
                forall|j: int| 0 <= j < i ==> #[trigger] fit(self@, r@, j),
            decreases n - i,
        {
            let x = self.dim(i);
            if x != 1 && x != r.dim(i) {
                assert(!fit(self@, r@, i as int));
                return false;
            }
            i += 1;
        }
        assert forall|j: int| 0 <= j implies #[trigger] fit(self@, r@, j) by {}
        true
    }

    /// The axes in front of the trailing two.
    pub fn batch(&self) -> (r: Shape)
        requires
            self@.len() >= 2,
        ensures
            r@ == batch(self@),
    {
        let n = self.s.len() - 2;
        let mut v: Vec<usize> = Vec::new();
        let mut i: usize = 0;
        while i < n
            invariant
                n == self@.len() - 2,
                i <= n,
                v.len() == i,
                forall|j: int| 0 <= j < i ==> v[j] == self.s[j],
            decreases n - i,
        {
            v.push(self.s[i]);
            i += 1;
        }
        assert(v@ =~= batch(self@));
        Shape { s: v }
    }

    /// The common shape of this shape and `rhs`.
    pub fn broadcast(&self, rhs: &Shape) -> (r: Shape)
        requires
            can_broadcast(self@, rhs@),
        ensures
            r@ == broadcast(self@, rhs@),
    {
        assert(self.s@.take(self.s.len() as int) =~= self@);
        assert(rhs.s@.take(rhs.s.len() as int) =~= rhs@);
        Shape { s: stretch(&self.s, self.s.len(), &rhs.s, rhs.s.len()) }
    }

    /// The common shape of this shape and `rhs`, or the two shapes where they
    /// cannot be broadcast.
    pub fn try_broadcast(&self, rhs: &Shape) -> (r: Result<Shape, ShapeMismatch>)
        ensures
            match r {
                Ok(s) => can_broadcast(self@, rhs@) && s@ == broadcast(self@, rhs@),
                Err(e) => !can_broadcast(self@, rhs@) && e@ == (MismatchView {
                    lhs: self@,
                    rhs: rhs@,
                }),
            },
    {
        if self.can_broadcast(rhs) {
            Ok(self.broadcast(rhs))
        } else {
            Err(ShapeMismatch { lhs: self.copy(), rhs: rhs.copy() })
        }
    }

    /// Whether a tensor of this shape can be multiplied, as a stack of
    /// matrices, with one of shape `rhs`.
    pub fn can_broadcast_mm(&self, rhs: &Shape) -> (r: bool)
        ensures
            r == can_broadcast_mm(self@, rhs@),
    {
        let la = self.s.len();
        let lb = rhs.s.len();
        if la < 2 || lb < 2 {
            return false;
        }
        if !compatible(&self.s, la - 2, &rhs.s, lb - 2) {
            return false;
        }
        let k = self.s[la - 1];
        let kr = rhs.s[lb - 2];
        k == kr || k == 1 || kr == 1
    }

    /// The shape of the matrix product of a tensor of this shape with one of
    /// shape `rhs`.
    pub fn broadcast_mm(&self, rhs: &Shape) -> (r: Shape)
        requires
            can_broadcast_mm(self@, rhs@),
        ensures
            r@ == broadcast_mm(self@, rhs@),
    {
        let la = self.s.len();
        let lb = rhs.s.len();
        let mut r = stretch(&self.s, la - 2, &rhs.s, lb - 2);
        r.push(self.s[la - 2]);
        r.push(rhs.s[lb - 1]);
        Shape { s: r }
    }
}

impl Shape {
    /// The shape of the matrix product of a tensor of this shape with one of
    /// shape `rhs`, or the two shapes where they cannot be multiplied.
    pub fn try_broadcast_mm(&self, rhs: &Shape) -> (r: Result<Shape, ShapeMismatch>)
        ensures
            match r {
                Ok(s) => can_broadcast_mm(self@, rhs@) && s@ == broadcast_mm(self@, rhs@),
                Err(e) => !can_broadcast_mm(self@, rhs@) && e@ == (MismatchView {
                    lhs: self@,
                    rhs: rhs@,
                }),
            },
    {
        if self.can_broadcast_mm(rhs) {
            Ok(self.broadcast_mm(rhs))
        } else {
            Err(ShapeMismatch { lhs: self.copy(), rhs: rhs.copy() })
        }
    }
}

impl Index<usize> for Shape {
    type Output = usize;

    /// Size of axis `i`, counted from the trailing axis.
    fn index(&self, i: usize) -> (r: &usize)
        ensures
            *r == dim(self@, i as int),
    {
        let n = self.s.len();
        &self.s[n - (1 + i)]
    }
}

impl vstd::std_specs::core::IndexSpecImpl<usize> for Shape {
    open spec fn index_req(&self, i: &usize) -> bool {
        *i < self@.len()
    }
}

impl From<Vec<usize>> for Shape {
    /// The shape with the axis sizes `s`, leading axis first.
    fn from(s: Vec<usize>) -> (r: Shape)
        ensures
            r@ == s@,
    {
        Shape { s }
    }
}

impl vstd::std_specs::convert::FromSpecImpl<Vec<usize>> for Shape {
    open spec fn obeys_from_spec() -> bool {
        true
    }

    closed spec fn from_spec(s: Vec<usize>) -> Shape {
        Shape { s }
    }
}

/// Size of axis `i` of the first `n` entries of `v`.
fn axis(v: &Vec<usize>, n: usize, i: usize) -> (d: usize)
    requires
        n <= v.len(),
    ensures
        d == dim(v@.take(n as int), i as int),
{
    if i < n {
        v[n - 1 - i]
    } else {
        1
    }
}

/// Whether the first `la` entries of `a` and the first `lb` entries of `b`
/// are shapes that can be broadcast.
fn compatible(a: &Vec<usize>, la: usize, b: &Vec<usize>, lb: usize) -> (r: bool)
    requires
        la <= a.len(),
        lb <= b.len(),
    ensures
        r == can_broadcast(a@.take(la as int), b@.take(lb as int)),
{
    let ghost sa = a@.take(la as int);
    let ghost sb = b@.take(lb as int);
    let n = if la >= lb {
        la
    } else {
        lb
    };
    let mut i: usize = 0;
    while i < n
        invariant
            la <= a.len(),
            lb <= b.len(),
            sa == a@.take(la as int),
            sb == b@.take(lb as int),
            n == (if la >= lb { la } else { lb }),
            i <= n,
            forall|j: int| 0 <= j < i ==> #[trigger] meet(sa, sb, j),
        decreases n - i,
    {
        let x = axis(a, la, i);
        let y = axis(b, lb, i);
        if x != y && x != 1 && y != 1 {
            assert(!meet(sa, sb, i as int));
            return false;
        }
        i += 1;
    }
    assert forall|j: int| 0 <= j implies #[trigger] meet(sa, sb, j) by {}
    true
}

/// The broadcast of the first `la` entries of `a` with the first `lb`
/// entries of `b`.
fn stretch(a: &Vec<usize>, la: usize, b: &Vec<usize>, lb: usize) -> (r: Vec<usize>)
    requires
        la <= a.len(),
        lb <= b.len(),
    ensures
        r@ == broadcast(a@.take(la as int), b@.take(lb as int)),
{
    let ghost sa = a@.take(la as int);
    let ghost sb = b@.take(lb as int);
    let n = if la >= lb {
        la
    } else {
        lb
    };
    let mut r: Vec<usize> = Vec::new();
    let mut j: usize = 0;
    while j < n
        invariant
            la <= a.len(),
            lb <= b.len(),
            sa == a@.take(la as int),
            sb == b@.take(lb as int),
            n == (if la >= lb { la } else { lb }),
            j <= n,
            r.len() == j,
            broadcast(sa, sb).len() == n,
            forall|t: int| 0 <= t < j ==> r[t] == broadcast(sa, sb)[t],
        decreases n - j,
    {
        let x = axis(a, la, n - 1 - j);
        let d = if x == 1 {
            axis(b, lb, n - 1 - j)
        } else {
            x
        };
        r.push(d);
        j += 1;
    }
    assert(r@ =~= broadcast(sa, sb));
    r
}

} // verus!
