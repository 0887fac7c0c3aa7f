//! Batched matrix multiplication. The trailing two axes of a tensor are the
//! rows and columns of a matrix, the axes in front of them count a stack of
//! such matrices, and each pair of matrices is multiplied by a dense kernel
//! that the caller supplies.

use crate::index::{lemma_read_bound, read};
use crate::shape::{
    batch, broadcast, broadcast_mm, can_broadcast_mm, contraction, dim, fits, lemma_broadcast_fits,
    lemma_fits_positive, lemma_product_push, multipliable, product_of, MismatchView, ShapeMismatch,
};
use crate::tensor::{Tensor, TensorView};
use std::ops::Index;
use vstd::prelude::*;
use vstd::slice::slice_subrange;

verus! {

/// What a matrix operand is: a buffer, and the strides by which element
/// `(r, c)` is found in it, at `r * row_stride + c * col_stride`. A stride of
/// 0 repeats one row or one column.
pub struct MatView<T> {
    pub data: Seq<T>,
    pub rows: nat,
    pub cols: nat,
    pub row_stride: nat,
    pub col_stride: nat,
}

impl<T> MatView<T> {
    /// Every element of the matrix lies inside the buffer.
    pub open spec fn wf(self) -> bool {
        self.rows > 0 && self.cols > 0 ==> (self.rows - 1) * self.row_stride + (self.cols - 1)
            * self.col_stride < self.data.len()
    }
}

/// A matrix operand handed to a kernel: a borrowed buffer read through
/// strides.
pub struct MatRef<'a, T> {
    pub data: &'a [T],
    pub rows: usize,
    pub cols: usize,
    pub row_stride: usize,
    pub col_stride: usize,
}

impl<'a, T> View for MatRef<'a, T> {
    type V = MatView<T>;

    open spec fn view(&self) -> MatView<T> {
        MatView {
            data: self.data@,
            rows: self.rows as nat,
            cols: self.cols as nat,
            row_stride: self.row_stride as nat,
            col_stride: self.col_stride as nat,
        }
    }
}

impl<'a, T> MatRef<'a, T> {
    /// Whether every element of the matrix lies inside the buffer.
    pub fn fits(&self) -> (r: bool)
        ensures
            r == self@.wf(),
    {
        if self.rows == 0 || self.cols == 0 {
            return true;
        }
        let n = self.data.len();
        let down = match (self.rows - 1).checked_mul(self.row_stride) {
            Some(d) => d,
            None => {
                assert((self.rows - 1) * self.row_stride > usize::MAX);
                return false;
            },
        };
        let across = match (self.cols - 1).checked_mul(self.col_stride) {
            Some(d) => d,
            None => {
                assert((self.cols - 1) * self.col_stride > usize::MAX);
                return false;
            },
        };
        match down.checked_add(across) {
            Some(last) => last < n,
            None => false,
        }
    }
}

/// A kernel multiplies every pair of well-formed operands whose inner sizes
/// match, and returns the product in row-major order: as many elements as
/// the left operand has rows and the right one has columns.
pub open spec fn is_kernel<T, F: Fn(MatRef<T>, MatRef<T>) -> Vec<T>>(kernel: F) -> bool {
    &&& forall|l: MatRef<T>, r: MatRef<T>|
        l@.wf() && r@.wf() && l@.cols == r@.rows ==> #[trigger] call_requires(kernel, (l, r))
    &&& forall|l: MatRef<T>, r: MatRef<T>, c: Vec<T>| #[trigger]
        call_ensures(kernel, (l, r), c) ==> c@.len() == l@.rows * r@.cols
}

/// `c` is a product that `kernel` returned for the operands `l` and `r`.
pub open spec fn product_by<T, F: Fn(MatRef<T>, MatRef<T>) -> Vec<T>>(
    kernel: F,
    l: MatView<T>,
    r: MatView<T>,
    c: Seq<T>,
) -> bool {
    exists|ml: MatRef<T>, mr: MatRef<T>, v: Vec<T>|
        ml@ == l && mr@ == r && v@ == c && #[trigger] call_ensures(kernel, (ml, mr), v)
}

/// Number of matrix products that a multiplication of tensors of shapes `a`
/// and `b` takes: one for each matrix of the broadcast stack, and none where
/// the product has no rows or no columns.
pub open spec fn mm_blocks(a: Seq<usize>, b: Seq<usize>) -> nat {
    if dim(a, 1) * dim(b, 0) == 0 {
        0
    } else {
        product_of(broadcast(batch(a), batch(b)))
    }
}

impl<T> TensorView<T> {
    /// The left operand of product `j`: the matrix of this stack that lies at
    /// the place `j` of the broadcast stack, read row by row. Where this
    /// tensor has a single column and `rhs` more than one row, that column is
    /// repeated.
    pub open spec fn lhs_block(self, rhs: TensorView<T>, j: int) -> MatView<T> {
        let m = dim(self.shape, 1);
        let k = dim(self.shape, 0);
        let kk = contraction(self.shape, rhs.shape);
        let at = read(batch(self.shape), broadcast(batch(self.shape), batch(rhs.shape)), j) * (m * k);
        MatView {
            data: self.data.subrange(at, at + m * k),
            rows: m as nat,
            cols: kk as nat,
            row_stride: k as nat,
            col_stride: if k == kk {
                1
            } else {
                0
            },
        }
    }

    /// The right operand of product `j`: the matrix of the stack `rhs` that
    /// lies at the place `j` of the broadcast stack, read row by row. Where
    /// `rhs` has a single row and this tensor more than one column, that row
    /// is repeated.
    pub open spec fn rhs_block(self, rhs: TensorView<T>, j: int) -> MatView<T> {
        let k = dim(rhs.shape, 1);
        let n = dim(rhs.shape, 0);
        let kk = contraction(self.shape, rhs.shape);
        let at = read(batch(rhs.shape), broadcast(batch(self.shape), batch(rhs.shape)), j) * (k * n);
        MatView {
            data: rhs.data.subrange(at, at + k * n),
            rows: kk as nat,
            cols: n as nat,
            row_stride: if k == kk {
                n as nat
            } else {
                0
            },
            col_stride: 1,
        }
    }

    /// Block `j` of the buffer of a product: the result of product `j`.
    pub open spec fn out_block(self, rhs: TensorView<T>, out: Seq<T>, j: int) -> Seq<T> {
        let mn = dim(self.shape, 1) * dim(rhs.shape, 0);
        out.subrange(j * mn, j * mn + mn)
    }

    /// `out` is a matrix product of this tensor with `rhs` as `kernel`
    /// computes it: it has the product's shape, and each block of its buffer
    /// is what the kernel returned for the matching pair of matrices.
    pub open spec fn mm_by<F: Fn(MatRef<T>, MatRef<T>) -> Vec<T>>(
        self,
        rhs: TensorView<T>,
        kernel: F,
        out: TensorView<T>,
    ) -> bool {
        &&& out.shape == broadcast_mm(self.shape, rhs.shape)
        &&& out.full()
        &&& forall|j: int|
            0 <= j < mm_blocks(self.shape, rhs.shape) ==> product_by(
                kernel,
                self.lhs_block(rhs, j),
                self.rhs_block(rhs, j),
                #[trigger] self.out_block(rhs, out.data, j),
            )
    }
}

/// A shape of at least two axes holds as many elements as its batch axes
/// count matrices, times the rows, times the columns.
pub proof fn lemma_product_matrix(s: Seq<usize>)
    requires
        s.len() >= 2,
    ensures
        product_of(s) == product_of(batch(s)) * (dim(s, 1) * dim(s, 0)),
{
    let b = batch(s);
    let m = s[s.len() - 2];
    let k = s[s.len() - 1];
    assert(s =~= b.push(m).push(k));
    lemma_product_push(b, m);
    lemma_product_push(b.push(m), k);
    let x = product_of(b);
    assert(x * (m as nat) * (k as nat) == x * (m * k)) by (nonlinear_arith);
}

impl<T: Copy> Tensor<T> {
    /// The matrix product of this tensor with `rhs`, or the two shapes where
    /// one of the two is not full, the shapes are not compatible, or the
    /// product would not fit in a buffer.
    pub fn try_mm<F>(&self, rhs: &Tensor<T>, kernel: &F) -> (r: Result<Tensor<T>, ShapeMismatch>) where
        F: Fn(MatRef<T>, MatRef<T>) -> Vec<T>,

        requires
            is_kernel(*kernel),
        ensures
            match r {
                Ok(t) => {
                    &&& self@.full()
                    &&& rhs@.full()
                    &&& multipliable(self@.shape, rhs@.shape)
                    &&& self@.mm_by(rhs@, *kernel, t@)
                },
                Err(e) => {
                    &&& !(self@.full() && rhs@.full() && multipliable(self@.shape, rhs@.shape))
                    &&& e@ == (MismatchView { lhs: self@.shape, rhs: rhs@.shape })
                },
            },
    {
        if !self.is_full() || !rhs.is_full() || !self.s.can_broadcast_mm(&rhs.s) {
            return Err(ShapeMismatch { lhs: self.s.copy(), rhs: rhs.s.copy() });
        }
        let s = self.s.broadcast_mm(&rhs.s);
        if s.checked_product().is_none() {
            return Err(ShapeMismatch { lhs: self.s.copy(), rhs: rhs.s.copy() });
        }
        Ok(self.mm(rhs, kernel))
    }

    /// The matrix product of this tensor with `rhs`, both read as stacks of
    /// matrices: each block of the result is what `kernel` returns for one
    /// pair of matrices, the two stacks broadcast against each other axis by
    /// axis.
    pub fn mm<F>(&self, rhs: &Tensor<T>, kernel: &F) -> (t: Tensor<T>) where
        F: Fn(MatRef<T>, MatRef<T>) -> Vec<T>,

        requires
            self@.full(),
            rhs@.full(),
            can_broadcast_mm(self@.shape, rhs@.shape),
            product_of(broadcast_mm(self@.shape, rhs@.shape)) <= usize::MAX,
            is_kernel(*kernel),
        ensures
            self@.mm_by(rhs@, *kernel, t@),
    {
        let s = self.s.broadcast_mm(&rhs.s);
        let total = s.product();
        let m = *self.s.index(1);
        let k = *self.s.index(0);
        let kr = *rhs.s.index(1);
        let n = *rhs.s.index(0);
        let ghost sa = self@.shape;
        let ghost sb = rhs@.shape;
        let ghost rb = broadcast(batch(sa), batch(sb));
        let ghost na = product_of(batch(sa)) as int;
        let ghost nb = product_of(batch(sb)) as int;
        let ghost nt = product_of(rb) as int;
        let la = self.v.len();
        let lb = rhs.v.len();
        let mut v: Vec<T> = Vec::new();
        proof {
            lemma_product_push(rb, m);
            lemma_product_push(rb.push(m), n);
            assert(total == nt * (m * n)) by (nonlinear_arith)
                requires
                    total == (nt * m) * n,
            ;
        }
        if total == 0 {
            proof {
                assert(m * n != 0 ==> nt == 0) by (nonlinear_arith)
                    requires
                        0 == nt * (m * n),
                        nt >= 0,
                ;
            }
            return Tensor { s, v };
        }
        proof {
            lemma_broadcast_fits(batch(sa), batch(sb));
            lemma_product_matrix(sa);
            lemma_product_matrix(sb);
            assert(nt > 0 && m > 0 && n > 0 && m * n <= total && nt <= total) by (nonlinear_arith)
                requires
                    total == nt * (m * n),
                    total > 0,
                    nt >= 0,
            ;
            lemma_fits_positive(batch(sa), rb);
            lemma_fits_positive(batch(sb), rb);
            assert(m * k <= na * (m * k) && kr * n <= nb * (kr * n)) by (nonlinear_arith)
                requires
                    na > 0,
                    nb > 0,
            ;
            assert(la == na * (m * k));
            assert(lb == nb * (kr * n));
            assert(m * k <= la && kr * n <= lb);
            assert(m * n > 0) by (nonlinear_arith)
                requires
                    m > 0,
                    n > 0,
            ;
        }
        let mk = m * k;
        let kn = kr * n;
        let mn = m * n;
        let kk = if k == 1 {
            kr
        } else {
            k
        };
        let ba = self.s.batch();
        let bb = rhs.s.batch();
        let br = ba.broadcast(&bb);
        let mut j: usize = 0;
        while v.len() < total
            invariant
                self@.full(),
                rhs@.full(),
                can_broadcast_mm(sa, sb),
                is_kernel(*kernel),
                sa == self@.shape,
                sb == rhs@.shape,
                ba@ == batch(sa),
                bb@ == batch(sb),
                br@ == rb,
                rb == broadcast(batch(sa), batch(sb)),
                fits(batch(sa), rb),
                fits(batch(sb), rb),
                m == dim(sa, 1),
                k == dim(sa, 0),
                kr == dim(sb, 1),
                n == dim(sb, 0),
                kk == contraction(sa, sb),
                mk == m * k,
                kn == kr * n,
                mn == m * n,
                mn > 0,
                la == self@.data.len(),
                lb == rhs@.data.len(),
                la == na * mk,
                lb == nb * kn,
                na == product_of(batch(sa)),
                nb == product_of(batch(sb)),
                nt == product_of(rb),
                na > 0,
                nb > 0,
                total == nt * mn,
                nt <= total,
                0 <= j <= nt,
                v.len() == j * mn,
                forall|i: int|
                    0 <= i < j ==> product_by(
                        *kernel,
                        self@.lhs_block(rhs@, i),
                        self@.rhs_block(rhs@, i),
                        #[trigger] self@.out_block(rhs@, v@, i),
                    ),
            decreases total - v.len(),
        {
            proof {
                assert(j < nt) by (nonlinear_arith)
                    requires
                        j * mn < nt * mn,
                        mn > 0,
                ;
                assert((j + 1) * mn == j * mn + mn && (j + 1) * mn <= nt * mn) by (nonlinear_arith)
                    requires
                        j < nt,
                        mn > 0,
                ;
                lemma_read_bound(batch(sa), rb, j as int);
                lemma_read_bound(batch(sb), rb, j as int);
            }
            let ghost ia = read(batch(sa), rb, j as int);
            let ghost ib = read(batch(sb), rb, j as int);
            proof {
                assert(0 <= ia * mk && ia * mk + mk <= na * mk) by (nonlinear_arith)
                    requires
                        0 <= ia < na,
                        0 <= mk,
                ;
                assert(0 <= ib * kn && ib * kn + kn <= nb * kn) by (nonlinear_arith)
                    requires
                        0 <= ib < nb,
                        0 <= kn,
                ;
            }
            let oa = if mk == 0 {
                assert(ia * 0 == 0) by (nonlinear_arith);
                0
            } else {
                assert(na <= la) by (nonlinear_arith)
                    requires
                        la == na * mk,
                        mk > 0,
                        na > 0,
                ;
                ba.read(&br, j) * mk
            };
            let ob = if kn == 0 {
                assert(ib * 0 == 0) by (nonlinear_arith);
                0
            } else {
                assert(nb <= lb) by (nonlinear_arith)
                    requires
                        lb == nb * kn,
                        kn > 0,
                        nb > 0,
                ;
                bb.read(&br, j) * kn
            };
            assert(oa == ia * mk && ob == ib * kn);
            let l = MatRef {
                data: slice_subrange(self.v.as_slice(), oa, oa + mk),
                rows: m,
                cols: kk,
                row_stride: k,
                col_stride: if k == kk {
                    1
                } else {
                    0
                },
            };
            let r = MatRef {
                data: slice_subrange(rhs.v.as_slice(), ob, ob + kn),
                rows: kk,
                cols: n,
                row_stride: if kr == kk {
                    n
                } else {
                    0
                },
                col_stride: 1,
            };
            proof {
                assert(l@ == self@.lhs_block(rhs@, j as int));
                assert(r@ == self@.rhs_block(rhs@, j as int));
                assert(l@.wf()) by {
                    if k == kk {
                        assert(m > 0 && kk > 0 ==> (m - 1) * k + (kk - 1) * 1 < m * k)
                            by (nonlinear_arith)
                            requires
                                k == kk,
                        ;
                    } else {
                        assert(k == 1);
                        assert(m > 0 ==> (m - 1) * 1 + (kk - 1) * 0 < m * 1) by (nonlinear_arith);
                    }
                }
                assert(r@.wf()) by {
                    if kr == kk {
                        assert(kk > 0 && n > 0 ==> (kk - 1) * n + (n - 1) * 1 < kr * n)
                            by (nonlinear_arith)
                            requires
                                kr == kk,
                        ;
                    } else {
                        assert(kr == 1);
                        assert(n > 0 ==> (kk - 1) * 0 + (n - 1) * 1 < 1 * n) by (nonlinear_arith);
                    }
                }
            }
            let c = kernel(l, r);
            let ghost before = v@;
            let mut i: usize = 0;
            while i < mn
                invariant
                    i <= mn,
                    c@.len() == mn,
                    before.len() + mn <= usize::MAX,
                    v@ == before + c@.take(i as int),
                decreases mn - i,
            {
                v.push(c[i]);
                i += 1;
                assert(v@ =~= before + c@.take(i as int));
            }
            proof {
                assert(c@.take(mn as int) =~= c@);
                assert(self@.out_block(rhs@, v@, j as int) =~= c@);
                assert forall|i: int| 0 <= i < j implies product_by(
                    *kernel,
                    self@.lhs_block(rhs@, i),
                    self@.rhs_block(rhs@, i),
                    #[trigger] self@.out_block(rhs@, v@, i),
                ) by {
                    assert(i * mn + mn <= j * mn) by (nonlinear_arith)
                        requires
                            0 <= i < j,
                            mn > 0,
                    ;
                    assert(self@.out_block(rhs@, v@, i) =~= self@.out_block(rhs@, before, i));
                }
            }
            j += 1;
        }
        proof {
            assert(j == nt) by (nonlinear_arith)
                requires
                    j * mn >= nt * mn,
                    j <= nt,
                    mn > 0,
            ;
        }
        Tensor { s, v }
    }
}

} // verus!
