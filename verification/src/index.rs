//! How the flat index of an element reads along the axes: where an operand
//! is read for an element of a broadcast result.

use crate::shape::{
    agree, block, broadcast, dim, fit, fits, lemma_block_agree, lemma_block_positive,
    lemma_block_split, lemma_repeats_can_broadcast, lemma_repeats_product, ones_from, product_of, repeats, Shape,
};
use vstd::arithmetic::div_mod::{lemma_div_denominator, lemma_mod_breakdown};
use vstd::prelude::*;

verus! {

/// The position along axis `j`, counted from the trailing axis, of the
/// element at the flat index `i` of a row-major buffer of shape `s`.
pub open spec fn coordinate(s: Seq<usize>, i: int, j: int) -> int {
    (i / (block(s, j) as int)) % dim(s, j)
}

/// Where an operand of shape `a` is read for the element at the flat index
/// `i` of a result of shape `r`, as far as the `k` trailing axes of the
/// operand decide it: along each axis at the position of the result, and at
/// 0 along an axis on which the operand has size 1.
pub open spec fn source(a: Seq<usize>, r: Seq<usize>, i: int, k: int) -> int
    decreases k,
{
    if k <= 0 {
        0
    } else {
        source(a, r, i, k - 1) + (if dim(a, k - 1) == 1 {
            0
        } else {
            coordinate(r, i, k - 1)
        }) * block(a, k - 1)
    }
}

/// The flat index at which an operand of shape `a` is read for the element at
/// the flat index `i` of a result of shape `r`.
pub open spec fn read(a: Seq<usize>, r: Seq<usize>, i: int) -> int {
    source(a, r, i, a.len() as int)
}

/// An operand that can be read for a result is read inside the block of the
/// axes that have been taken into account.
pub proof fn lemma_source_bound(a: Seq<usize>, r: Seq<usize>, i: int, k: int)
    requires
        fits(a, r),
        0 <= i,
        0 <= k,
        product_of(r) > 0,
    ensures
        0 <= source(a, r, i, k) < block(a, k),
    decreases k,
{
    if k > 0 {
        lemma_source_bound(a, r, i, k - 1);
        lemma_block_positive(r, k - 1);
        let d = dim(a, k - 1);
        let b = block(a, k - 1) as int;
        let p = source(a, r, i, k - 1);
        assert(fit(a, r, k - 1));
        if d == 1 {
            assert(b * 1 == b) by (nonlinear_arith);
        } else {
            let c = coordinate(r, i, k - 1);
            assert(0 <= c < d);
            assert(0 <= p + c * b < b * d) by (nonlinear_arith)
                requires
                    0 <= p < b,
                    0 <= c < d,
            ;
        }
    }
}

/// An operand that can be read for a result with elements is read at one of
/// its own elements.
pub proof fn lemma_read_bound(a: Seq<usize>, r: Seq<usize>, i: int)
    requires
        fits(a, r),
        0 <= i < product_of(r),
    ensures
        0 <= read(a, r, i) < product_of(a),
{
    lemma_source_bound(a, r, i, a.len() as int);
    lemma_block_split(a, a.len() as int);
}

/// An operand that has the shape of the result is read where the result is
/// written.
pub proof fn lemma_read_same(s: Seq<usize>, i: int)
    requires
        0 <= i < product_of(s),
    ensures
        read(s, s, i) == i,
{
    lemma_source(s, s, i, s.len() as int, s.len() as int);
    lemma_block_split(s, s.len() as int);
    vstd::arithmetic::div_mod::lemma_small_mod(i as nat, product_of(s));
}

impl Shape {
    /// The flat index at which an operand of this shape is read for the
    /// element at the flat index `i` of a result of shape `r`.
    pub fn read(&self, r: &Shape, i: usize) -> (p: usize)
        requires
            fits(self@, r@),
            i < product_of(r@),
            product_of(self@) <= usize::MAX,
        ensures
            p == read(self@, r@, i as int),
            p < product_of(self@),
    {
        let n = self.len();
        let ghost a = self@;
        let ghost rs = r@;
        let mut p: usize = 0;
        let mut ba: usize = 1;
        let mut rem: usize = i;
        let mut k: usize = 0;
        proof {
            crate::shape::lemma_fits_positive(a, rs);
            assert(block(rs, 0) == 1 && block(a, 0) == 1);
            assert((i as int) / 1 == i);
        }
        while k < n
            invariant
                a == self@,
                rs == r@,
                n == a.len(),
                fits(a, rs),
                i < product_of(rs),
                0 < product_of(a) <= usize::MAX,
                k <= n,
                ba == block(a, k as int),
                rem == (i as int) / (block(rs, k as int) as int),
                p == source(a, rs, i as int, k as int),
            decreases n - k,
        {
            let dr = r.dim(k);
            let da = self.dim(k);
            proof {
                lemma_block_positive(rs, k as int);
                lemma_block_positive(a, k as int);
                lemma_block_positive(a, k as int + 1);
                lemma_source_bound(a, rs, i as int, k as int);
                lemma_source_bound(a, rs, i as int, k as int + 1);
                assert(fit(a, rs, k as int));
                lemma_div_denominator(i as int, block(rs, k as int) as int, dr as int);
                assert(block(rs, k as int + 1) == block(rs, k as int) * dr);
                assert(block(a, k as int + 1) == block(a, k as int) * da);
            }
            let c = rem % dr;
            rem = rem / dr;
            if da != 1 {
                assert(c * ba <= source(a, rs, i as int, k as int + 1)) by (nonlinear_arith)
                    requires
                        source(a, rs, i as int, k as int + 1) == p + c * ba,
                        p >= 0,
                ;
                p = p + c * ba;
            }
            ba = ba * da;
            k += 1;
        }
        proof {
            crate::index::lemma_read_bound(a, rs, i as int);
        }
        p
    }
}

/// An operand that has the sizes of the result on its `m` trailing axes, and
/// size 1 beyond them, is read at the flat index of the result taken modulo
/// the block of those axes.
proof fn lemma_source(a: Seq<usize>, r: Seq<usize>, i: int, m: int, k: int)
    requires
        0 <= i,
        0 <= m,
        0 <= k,
        product_of(r) > 0,
        forall|j: int| 0 <= j < m ==> dim(a, j) == dim(r, j),
        forall|j: int| m <= j ==> dim(a, j) == 1,
    ensures
        k <= m ==> block(a, k) == block(r, k) && source(a, r, i, k) == i % (block(r, k) as int),
        k >= m ==> source(a, r, i, k) == i % (block(r, m) as int),
    decreases k,
{
    if k == 0 {
    } else {
        lemma_source(a, r, i, m, k - 1);
        if k <= m {
            let b = block(r, k - 1) as int;
            let d = dim(r, k - 1);
            lemma_block_positive(r, k - 1);
            lemma_mod_breakdown(i, b, d);
            assert(block(r, k) == b * d) by (nonlinear_arith)
                requires
                    block(r, k) == block(r, k - 1) * (dim(r, k - 1) as nat),
                    b == block(r, k - 1),
                    d == dim(r, k - 1),
            ;
            if d == 1 {
                assert(coordinate(r, i, k - 1) == 0);
            }
            assert(source(a, r, i, k) == i % b + coordinate(r, i, k - 1) * b);
            assert(coordinate(r, i, k - 1) * b == b * ((i / b) % d)) by (nonlinear_arith)
                requires
                    coordinate(r, i, k - 1) == (i / b) % d,
            ;
        } else {
            assert(dim(a, k - 1) == 1);
        }
    }
}

/// Block by block is axis by axis. Where one of two shapes repeats as a block
/// in the other, the element at the flat index `i` of their broadcast reads
/// each operand at that index taken modulo the number of elements of the
/// operand: the buffer of the smaller operand is repeated whole, and no
/// gather is needed.
pub proof fn lemma_read_is_cyclic(a: Seq<usize>, b: Seq<usize>, i: int)
    requires
        repeats(a, b),
        0 <= i < product_of(broadcast(a, b)),
    ensures
        product_of(a) > 0,
        product_of(b) > 0,
        read(a, broadcast(a, b), i) == i % (product_of(a) as int),
        read(b, broadcast(a, b), i) == i % (product_of(b) as int),
{
    let r = broadcast(a, b);
    let k = choose|k: int| 0 <= k && #[trigger] agree(a, b, k) && (ones_from(a, k) || ones_from(b, k));
    let q = lemma_repeats_product(a, b);
    lemma_repeats_can_broadcast(a, b);
    crate::shape::lemma_broadcast_fits(a, b);
    assert(product_of(a) > 0 && product_of(b) > 0) by (nonlinear_arith)
        requires
            product_of(r) > 0,
            product_of(r) == q.0 * product_of(a),
            product_of(r) == q.1 * product_of(b),
    ;
    let n = r.len() as int;
    lemma_block_split(a, a.len() as int);
    lemma_block_split(b, b.len() as int);
    lemma_block_split(r, n);
    if ones_from(a, k) {
        assert forall|j: int| 0 <= j < k implies dim(a, j) == dim(r, j) by {
            assert(dim(a, j) == dim(b, j));
        }
        lemma_source(a, r, i, k, a.len() as int);
        lemma_source(a, r, i, k, k);
        crate::shape::lemma_block_whole(a, k);
        if a.len() < k {
            lemma_block_split(a, k);
        }
        assert forall|j: int| 0 <= j < n implies dim(b, j) == dim(r, j) by {
            if j < k {
                assert(dim(a, j) == dim(b, j));
            }
        }
        assert forall|j: int| n <= j implies dim(b, j) == 1 by {}
        lemma_source(b, r, i, n, b.len() as int);
        lemma_source(b, r, i, n, n);
        lemma_block_agree(b, r, n);
        lemma_block_split(b, n);
        assert(i % (block(r, n) as int) == i % (product_of(b) as int));
    } else {
        assert forall|j: int| 0 <= j < k implies dim(b, j) == dim(r, j) by {
            assert(dim(a, j) == dim(b, j));
        }
        lemma_source(b, r, i, k, b.len() as int);
        lemma_source(b, r, i, k, k);
        crate::shape::lemma_block_whole(b, k);
        if b.len() < k {
            lemma_block_split(b, k);
        }
        assert forall|j: int| 0 <= j < n implies dim(a, j) == dim(r, j) by {
            if j >= k {
                assert(dim(b, j) == 1);
            }
        }
        assert forall|j: int| n <= j implies dim(a, j) == 1 by {}
        lemma_source(a, r, i, n, a.len() as int);
        lemma_source(a, r, i, n, n);
        lemma_block_agree(a, r, n);
        lemma_block_split(a, n);
        assert(i % (block(r, n) as int) == i % (product_of(a) as int));
    }
}

} // verus!
