//! Dense tensors: a shape and a flat, row-major buffer whose trailing axis
//! varies fastest.

use crate::index::{lemma_read_same, read};
use crate::shape::{
    broadcast, can_broadcast, fits, lemma_broadcast_commutes, lemma_broadcast_fits,
    lemma_broadcast_same, lemma_product_row, product_of, MismatchView, Shape, ShapeMismatch,
    Shaped,
};
use crate::num::{difference_of, one, product_of_two, quotient_of, sum_of, zero};
use num_traits::{One, Zero};
use std::ops::{Add, Div, Mul, Sub};
use vstd::prelude::*;
use vstd::std_specs::ops::{AddSpec, DivSpec, MulSpec, SubSpec};

verus! {

/// What a tensor is: the sizes of its axes and the elements of its buffer.
pub struct TensorView<T> {
    pub shape: Seq<usize>,
    pub data: Seq<T>,
}

impl<T> TensorView<T> {
    /// The buffer holds exactly the elements that the shape asks for.
    pub open spec fn full(self) -> bool {
        self.data.len() == product_of(self.shape)
    }

    /// The placeholder that stands for "no value yet": no axes and no
    /// elements.
    pub open spec fn is_empty(self) -> bool {
        self.shape.len() == 0 && self.data.len() == 0
    }

    /// A tensor is well formed when it is full or the empty placeholder.
    pub open spec fn wf(self) -> bool {
        self.full() || self.is_empty()
    }

    /// The empty placeholder.
    pub open spec fn empty() -> TensorView<T> {
        TensorView { shape: Seq::empty(), data: Seq::empty() }
    }

    /// The tensor of the given shape whose elements all equal `x`.
    pub open spec fn filled(shape: Seq<usize>, x: T) -> TensorView<T> {
        TensorView { shape, data: Seq::new(product_of(shape), |i: int| x) }
    }

    /// The same buffer under another shape.
    pub open spec fn reshape(self, shape: Seq<usize>) -> TensorView<T> {
        TensorView { shape, data: self.data }
    }

    /// The element of this tensor that lies at the place `i` of a result of
    /// shape `r`: at the position of the result along every axis, and at 0
    /// along an axis on which this tensor has size 1.
    pub open spec fn at(self, r: Seq<usize>, i: int) -> T {
        self.data[read(self.shape, r, i)]
    }

    /// The element of this tensor that meets `rhs` at the place `i` of their
    /// broadcast.
    pub open spec fn lhs_at(self, rhs: TensorView<T>, i: int) -> T {
        self.at(broadcast(self.shape, rhs.shape), i)
    }

    /// The element of `rhs` that meets this tensor at the place `i` of their
    /// broadcast.
    pub open spec fn rhs_at(self, rhs: TensorView<T>, i: int) -> T {
        rhs.at(broadcast(self.shape, rhs.shape), i)
    }

    /// The elementwise combination of two tensors under broadcasting: the
    /// result has the broadcast shape, and each of its elements combines the
    /// elements of the two operands that lie at its place, axis by axis.
    pub open spec fn zip(self, rhs: TensorView<T>, f: spec_fn(T, T) -> T) -> TensorView<T> {
        let shape = broadcast(self.shape, rhs.shape);
        TensorView {
            shape,
            data: Seq::new(product_of(shape), |i: int| f(self.lhs_at(rhs, i), self.rhs_at(rhs, i))),
        }
    }

    /// `out` is an elementwise combination of this tensor with `rhs` under
    /// broadcasting: it is full, it has the broadcast shape, and each of its
    /// elements stands in the relation `rel` to the elements of the two
    /// operands that lie at its place, axis by axis.
    pub open spec fn zipped(
        self,
        rhs: TensorView<T>,
        out: TensorView<T>,
        rel: spec_fn(T, T, T) -> bool,
    ) -> bool {
        &&& out.shape == broadcast(self.shape, rhs.shape)
        &&& out.full()
        &&& forall|i: int|
            0 <= i < out.data.len() ==> rel(
                self.lhs_at(rhs, i),
                self.rhs_at(rhs, i),
                #[trigger] out.data[i],
            )
    }

    /// Element `i` of the buffer repeated without end.
    pub open spec fn cyc(self, i: int) -> T {
        self.data[i % (self.data.len() as int)]
    }

    /// This tensor can take `rhs` chunk by chunk: the shapes are compatible,
    /// and the buffer of this tensor is a whole number of chunks of as many
    /// elements as `rhs` has, at least one.
    pub open spec fn takes(self, rhs: TensorView<T>) -> bool {
        &&& can_broadcast(self.shape, rhs.shape)
        &&& 0 < rhs.data.len() <= self.data.len()
        &&& self.data.len() % rhs.data.len() == 0
    }

    /// `rhs` can be accumulated into this tensor in place: this tensor has no
    /// elements yet, or it can take `rhs` chunk by chunk.
    pub open spec fn accepts(self, rhs: TensorView<T>) -> bool {
        self.data.len() == 0 || self.takes(rhs)
    }

    /// Accumulation in place. A receiver without elements becomes `rhs`. A
    /// receiver that can take `rhs` keeps its shape, and each chunk of its
    /// buffer is combined with `rhs` element by element. The accumulation
    /// fails on every other `rhs`, which leaves the receiver as it is.
    pub open spec fn accumulate(self, rhs: TensorView<T>, f: spec_fn(T, T) -> T) -> TensorView<T> {
        if self.data.len() == 0 {
            rhs
        } else if self.takes(rhs) {
            TensorView {
                shape: self.shape,
                data: Seq::new(self.data.len(), |i: int| f(self.data[i], rhs.cyc(i))),
            }
        } else {
            self
        }
    }
}

impl<T: Add<Output = T>> TensorView<T> {
    /// The elementwise sum under broadcasting.
    pub open spec fn plus(self, rhs: TensorView<T>) -> TensorView<T> {
        self.zip(rhs, |x: T, y: T| x.add_spec(y))
    }

    /// The sum accumulated in place.
    pub open spec fn plus_in_place(self, rhs: TensorView<T>) -> TensorView<T> {
        self.accumulate(rhs, |x: T, y: T| x.add_spec(y))
    }

    /// `out` is an elementwise sum of this tensor and `rhs` under
    /// broadcasting, as the addition of `T` computes it.
    pub open spec fn sum_is(self, rhs: TensorView<T>, out: TensorView<T>) -> bool {
        self.zipped(rhs, out, |x: T, y: T, r: T| sum_of(x, y, r))
    }

    /// `sum` is this tensor after `rhs` has been accumulated into it, as the
    /// addition of `T` computes it. A receiver without elements has become
    /// `rhs`. Otherwise the receiver has kept its shape, and each of its
    /// elements is a sum of what it was and the element of `rhs` at that
    /// place of its chunk.
    pub open spec fn accumulated(self, rhs: TensorView<T>, sum: TensorView<T>) -> bool {
        if self.data.len() == 0 {
            sum == rhs
        } else {
            &&& sum.shape == self.shape
            &&& sum.data.len() == self.data.len()
            &&& forall|i: int|
                0 <= i < self.data.len() ==> sum_of(self.data[i], rhs.cyc(i), #[trigger] sum.data[i])
        }
    }
}

impl<T: Sub<Output = T>> TensorView<T> {
    /// The elementwise difference under broadcasting.
    pub open spec fn minus(self, rhs: TensorView<T>) -> TensorView<T> {
        self.zip(rhs, |x: T, y: T| x.sub_spec(y))
    }

    /// `out` is an elementwise difference of this tensor and `rhs` under
    /// broadcasting, as the subtraction of `T` computes it.
    pub open spec fn difference_is(self, rhs: TensorView<T>, out: TensorView<T>) -> bool {
        self.zipped(rhs, out, |x: T, y: T, r: T| difference_of(x, y, r))
    }
}

impl<T: Mul<Output = T>> TensorView<T> {
    /// The elementwise product under broadcasting.
    pub open spec fn times(self, rhs: TensorView<T>) -> TensorView<T> {
        self.zip(rhs, |x: T, y: T| x.mul_spec(y))
    }

    /// `out` is an elementwise product of this tensor and `rhs` under
    /// broadcasting, as the multiplication of `T` computes it.
    pub open spec fn product_is(self, rhs: TensorView<T>, out: TensorView<T>) -> bool {
        self.zipped(rhs, out, |x: T, y: T, r: T| product_of_two(x, y, r))
    }
}

impl<T: Div<Output = T>> TensorView<T> {
    /// The elementwise quotient under broadcasting.
    pub open spec fn over(self, rhs: TensorView<T>) -> TensorView<T> {
        self.zip(rhs, |x: T, y: T| x.div_spec(y))
    }

    /// `out` is an elementwise quotient of this tensor and `rhs` under
    /// broadcasting, as the division of `T` computes it.
    pub open spec fn quotient_is(self, rhs: TensorView<T>, out: TensorView<T>) -> bool {
        self.zipped(rhs, out, |x: T, y: T, r: T| quotient_of(x, y, r))
    }
}

/// A shape together with a flat buffer in row-major order.
#[derive(Default, Debug, Clone, PartialEq)]
pub struct Tensor<T> {
    pub s: Shape,
    pub v: Vec<T>,
}

impl<T> View for Tensor<T> {
    type V = TensorView<T>;

    open spec fn view(&self) -> TensorView<T> {
        TensorView { shape: self.s@, data: self.v@ }
    }
}

impl<T> Shaped for Tensor<T> {
    fn s(&self) -> (r: &Shape)
        ensures
            r@ == self@.shape,
    {
        &self.s
    }
}

impl<T> Tensor<T> {
    /// The empty placeholder.
    pub fn new() -> (t: Tensor<T>)
        ensures
            t@ == TensorView::<T>::empty(),
    {
        Tensor { s: Shape::new(), v: Vec::new() }
    }

    /// A tensor that has a shape and no elements yet: a placeholder to be
    /// filled later.
    pub fn shape(s: Shape) -> (t: Tensor<T>)
        ensures
            t@.shape == s@,
            t@.data.len() == 0,
    {
        Tensor { s, v: Vec::new() }
    }

    /// The tensor of shape `s` whose elements are the successive results of
    /// `f`.
    pub fn shape_fn<F>(s: Shape, f: F) -> (t: Tensor<T>) where F: Fn() -> T
        requires
            product_of(s@) <= usize::MAX,
            call_requires(f, ()),
        ensures
            t@.shape == s@,
            t@.full(),
            forall|i: int| 0 <= i < t@.data.len() ==> call_ensures(f, (), #[trigger] t@.data[i]),
    {
        let n = s.product();
        let mut v: Vec<T> = Vec::new();
        while v.len() < n
            invariant
                v.len() <= n,
                call_requires(f, ()),
                forall|i: int| 0 <= i < v.len() ==> call_ensures(f, (), #[trigger] v@[i]),
            decreases n - v.len(),
        {
            let x = f();
            v.push(x);
        }
        Tensor { s, v }
    }

    /// The tensor of shape `s` whose elements all equal `x`.
    pub fn shape_elem(s: Shape, x: T) -> (t: Tensor<T>) where T: Copy
        requires
            product_of(s@) <= usize::MAX,
        ensures
            t@ == TensorView::filled(s@, x),
    {
        let n = s.product();
        let mut v: Vec<T> = Vec::new();
        while v.len() < n
            invariant
                v.len() <= n,
                forall|i: int| 0 <= i < v.len() ==> v[i] == x,
            decreases n - v.len(),
        {
            v.push(x);
        }
        assert(v@ =~= TensorView::filled(s@, x).data);
        Tensor { s, v }
    }

    /// The tensor of shape `s` filled with the additive identity of `T`: one
    /// value throughout.
    pub fn zeros(s: Shape) -> (t: Tensor<T>) where T: Zero + Copy
        requires
            product_of(s@) <= usize::MAX,
        ensures
            exists|z: T| t@ == TensorView::filled(s@, z),
    {
        Tensor::shape_elem(s, zero::<T>())
    }

    /// The tensor of shape `s` filled with the multiplicative identity of
    /// `T`: one value throughout.
    pub fn ones(s: Shape) -> (t: Tensor<T>) where T: One + Copy
        requires
            product_of(s@) <= usize::MAX,
        ensures
            exists|u: T| t@ == TensorView::filled(s@, u),
    {
        Tensor::shape_elem(s, one::<T>())
    }

    /// Whether the buffer holds exactly the elements that the shape asks for.
    pub fn is_full(&self) -> (r: bool)
        ensures
            r == self@.full(),
    {
        let n = self.v.len();
        match self.s.checked_product() {
            Some(p) => p == n,
            None => false,
        }
    }

    /// The number of elements in the buffer.
    pub fn len(&self) -> (n: usize)
        ensures
            n == self@.data.len(),
    {
        self.v.len()
    }

    /// The same buffer under the shape `s`, which must ask for exactly the
    /// elements that the buffer holds.
    pub fn reshape(self, s: Shape) -> (t: Tensor<T>)
        requires
            product_of(s@) == self@.data.len(),
        ensures
            t@ == self@.reshape(s@),
            t@.full(),
    {
        Tensor { s, v: self.v }
    }

    /// A copy of this tensor.
    pub fn copy(&self) -> (t: Tensor<T>) where T: Copy
        ensures
            t@ == self@,
    {
        let mut v: Vec<T> = Vec::new();
        let mut i: usize = 0;
        while i < self.v.len()
            invariant
                i <= self.v.len(),
                v.len() == i,
                forall|j: int| 0 <= j < i ==> v[j] == self.v[j],
            decreases self.v.len() - i,
        {
            v.push(self.v[i]);
            i += 1;
        }
        assert(v@ =~= self.v@);
        Tensor { s: self.s.copy(), v }
    }

    /// The tensor of the same shape whose element `i` is a result of `f` on
    /// element `i` of this one.
    pub fn map<U, F>(&self, f: F) -> (t: Tensor<U>) where T: Copy, F: Fn(T) -> U
        requires
            forall|i: int| 0 <= i < self@.data.len() ==> call_requires(f, (self@.data[i],)),
        ensures
            t@.shape == self@.shape,
            t@.data.len() == self@.data.len(),
            forall|i: int|
                0 <= i < self@.data.len() ==> call_ensures(f, (self@.data[i],), #[trigger] t@.data[i]),
    {
        let mut v: Vec<U> = Vec::new();
        let mut i: usize = 0;
        while i < self.v.len()
            invariant
                i <= self.v.len(),
                v.len() == i,
                forall|j: int| 0 <= j < self@.data.len() ==> call_requires(f, (self@.data[j],)),
                forall|j: int| 0 <= j < i ==> call_ensures(f, (self@.data[j],), #[trigger] v@[j]),
            decreases self.v.len() - i,
        {
            assert(call_requires(f, (self@.data[i as int],)));
            let y = f(self.v[i]);
            v.push(y);
            i += 1;
        }
        Tensor { s: self.s.copy(), v }
    }
}

impl<T> From<Vec<T>> for Tensor<T> {
    /// A vector as a single row: the tensor of shape `[1, v.len()]` over the
    /// buffer `v`.
    fn from(v: Vec<T>) -> (t: Tensor<T>)
        ensures
            t@.shape == seq![1usize, v@.len() as usize],
            t@.data == v@,
            t@.full(),
    {
        let mut s: Vec<usize> = Vec::new();
        s.push(1);
        s.push(v.len());
        proof {
            assert(s@ =~= seq![1usize, v@.len() as usize]);
            lemma_product_row(v@.len() as usize);
        }
        Tensor { s: Shape::from(s), v }
    }
}

impl<T> vstd::std_specs::convert::FromSpecImpl<Vec<T>> for Tensor<T> {
    open spec fn obeys_from_spec() -> bool {
        false
    }

    open spec fn from_spec(v: Vec<T>) -> Tensor<T> {
        arbitrary()
    }
}

impl<T: Copy> Tensor<T> {
    /// The elementwise combination of this tensor with `rhs` under
    /// broadcasting: element `i` of the result is a result of `f` on the
    /// elements of the two operands that lie at the place `i`, axis by axis.
    pub fn zip_with<F>(&self, rhs: &Tensor<T>, f: F) -> (t: Tensor<T>) where F: Fn(T, T) -> T
        requires
            self@.full(),
            rhs@.full(),
            can_broadcast(self@.shape, rhs@.shape),
            product_of(broadcast(self@.shape, rhs@.shape)) <= usize::MAX,
            forall|i: int|
                0 <= i < product_of(broadcast(self@.shape, rhs@.shape)) ==> call_requires(
                    f,
                    (#[trigger] self@.lhs_at(rhs@, i), self@.rhs_at(rhs@, i)),
                ),
        ensures
            t@.shape == broadcast(self@.shape, rhs@.shape),
            t@.full(),
            forall|i: int|
                0 <= i < t@.data.len() ==> call_ensures(
                    f,
                    (self@.lhs_at(rhs@, i), self@.rhs_at(rhs@, i)),
                    #[trigger] t@.data[i],
                ),
    {
        let s = self.s.broadcast(&rhs.s);
        proof {
            lemma_broadcast_fits(self@.shape, rhs@.shape);
        }
        let n = s.product();
        let la = self.v.len();
        let lb = rhs.v.len();
        let mut v: Vec<T> = Vec::new();
        let mut i: usize = 0;
        while i < n
            invariant
                i <= n,
                v.len() == i,
                self@.full(),
                rhs@.full(),
                la == self@.data.len(),
                lb == rhs@.data.len(),
                s@ == broadcast(self@.shape, rhs@.shape),
                fits(self@.shape, s@),
                fits(rhs@.shape, s@),
                n == product_of(s@),
                forall|j: int|
                    0 <= j < n ==> call_requires(
                        f,
                        (#[trigger] self@.lhs_at(rhs@, j), self@.rhs_at(rhs@, j)),
                    ),
                forall|j: int|
                    0 <= j < i ==> call_ensures(
                        f,
                        (self@.lhs_at(rhs@, j), self@.rhs_at(rhs@, j)),
                        #[trigger] v@[j],
                    ),
            decreases n - i,
        {
            let x = self.v[self.s.read(&s, i)];
            let y = rhs.v[rhs.s.read(&s, i)];
            assert(x == self@.lhs_at(rhs@, i as int) && y == self@.rhs_at(rhs@, i as int));
            let z = f(x, y);
            v.push(z);
            i += 1;
        }
        Tensor { s, v }
    }
}

impl<T: Copy + Add<Output = T>> Tensor<T> {
    /// Accumulates `rhs` into this tensor in place. A tensor without elements
    /// becomes a copy of `rhs`. A tensor that can take `rhs` has `rhs` added
    /// to each chunk of its buffer, element by element. On every other `rhs`
    /// the tensor is left as it is and the two shapes are reported.
    pub fn add_assign(&mut self, rhs: &Tensor<T>) -> (r: Result<(), ShapeMismatch>)
        requires
            old(self)@.data.len() > 0 && old(self)@.takes(rhs@) ==> forall|i: int|
                0 <= i < old(self)@.data.len() ==> (#[trigger] old(self)@.data[i]).add_req(
                    rhs@.cyc(i),
                ),
        ensures
            match r {
                Ok(_) => old(self)@.accepts(rhs@) && old(self)@.accumulated(rhs@, final(self)@),
                Err(e) => {
                    &&& !old(self)@.accepts(rhs@)
                    &&& final(self)@ == old(self)@
                    &&& e@ == (MismatchView { lhs: old(self)@.shape, rhs: rhs@.shape })
                },
            },
            T::obeys_add_spec() ==> final(self)@ == old(self)@.plus_in_place(rhs@),
    {
        let n = self.v.len();
        let lb = rhs.v.len();
        if n == 0 {
            *self = rhs.copy();
            return Ok(());
        }
        if lb == 0 || lb > n || n % lb != 0 || !self.s.can_broadcast(&rhs.s) {
            return Err(ShapeMismatch { lhs: self.s.copy(), rhs: rhs.s.copy() });
        }
        let mut i: usize = 0;
        while i < n
            invariant
                i <= n,
                0 < lb <= n,
                n == old(self)@.data.len(),
                lb == rhs@.data.len(),
                self@.shape == old(self)@.shape,
                self@.data.len() == n,
                forall|j: int|
                    0 <= j < n ==> (#[trigger] old(self)@.data[j]).add_req(rhs@.cyc(j)),
                forall|j: int| i <= j < n ==> self@.data[j] == old(self)@.data[j],
                forall|j: int|
                    0 <= j < i ==> sum_of(
                        old(self)@.data[j],
                        rhs@.cyc(j),
                        #[trigger] self@.data[j],
                    ),
            decreases n - i,
        {
            let x = self.v[i];
            let y = rhs.v[i % lb];
            assert(x == old(self)@.data[i as int] && y == rhs@.cyc(i as int));
            let z = x + y;
            self.v[i] = z;
            i += 1;
        }
        assert(T::obeys_add_spec() ==> self@.data =~= old(self)@.plus_in_place(rhs@).data) by {
            if T::obeys_add_spec() {
                assert forall|j: int| 0 <= j < n implies self@.data[j] == old(self)@.plus_in_place(
                    rhs@,
                ).data[j] by {
                    assert(sum_of(old(self)@.data[j], rhs@.cyc(j), self@.data[j]));
                }
            }
        }
        Ok(())
    }
}

impl<'a, 'b, T: Copy + Add<Output = T>> Add<&'b Tensor<T>> for &'a Tensor<T> {
    type Output = Tensor<T>;

    /// The elementwise sum under broadcasting, in a fresh tensor.
    fn add(self, rhs: &'b Tensor<T>) -> (t: Tensor<T>)
        ensures
            self@.sum_is(rhs@, t@),
            T::obeys_add_spec() ==> t@ == self@.plus(rhs@),
    {
        let f = |x: T, y: T| -> (r: T)
            requires
                x.add_req(y),
            ensures
                sum_of(x, y, r),
            { x + y };
        let t = self.zip_with(rhs, f);
        assert(T::obeys_add_spec() ==> t@.data =~= self@.plus(rhs@).data) by {
            if T::obeys_add_spec() {
                assert forall|i: int| 0 <= i < t@.data.len() implies t@.data[i] == self@.plus(
                    rhs@,
                ).data[i] by {
                    assert(sum_of(self@.lhs_at(rhs@, i), self@.rhs_at(rhs@, i), t@.data[i]));
                }
            }
        }
        t
    }
}

impl<'a, 'b, T: Copy + Add<Output = T>> vstd::std_specs::ops::AddSpecImpl<&'b Tensor<T>> for &'a Tensor<T> {
    open spec fn obeys_add_spec() -> bool {
        false
    }

    open spec fn add_req(self, rhs: &'b Tensor<T>) -> bool {
        &&& self@.full()
        &&& rhs@.full()
        &&& can_broadcast(self@.shape, rhs@.shape)
        &&& product_of(broadcast(self@.shape, rhs@.shape)) <= usize::MAX
        &&& forall|i: int|
            0 <= i < product_of(broadcast(self@.shape, rhs@.shape)) ==> (#[trigger] self@.lhs_at(
                rhs@,
                i,
            )).add_req(self@.rhs_at(rhs@, i))
    }

    open spec fn add_spec(self, rhs: &'b Tensor<T>) -> Tensor<T> {
        arbitrary()
    }
}

impl<'a, 'b, T: Copy + Sub<Output = T>> Sub<&'b Tensor<T>> for &'a Tensor<T> {
    type Output = Tensor<T>;

    /// The elementwise difference under broadcasting, in a fresh tensor.
    fn sub(self, rhs: &'b Tensor<T>) -> (t: Tensor<T>)
        ensures
            self@.difference_is(rhs@, t@),
            T::obeys_sub_spec() ==> t@ == self@.minus(rhs@),
    {
        let f = |x: T, y: T| -> (r: T)
            requires
                x.sub_req(y),
            ensures
                difference_of(x, y, r),
            { x - y };
        let t = self.zip_with(rhs, f);
        assert(T::obeys_sub_spec() ==> t@.data =~= self@.minus(rhs@).data) by {
            if T::obeys_sub_spec() {
                assert forall|i: int| 0 <= i < t@.data.len() implies t@.data[i] == self@.minus(
                    rhs@,
                ).data[i] by {
                    assert(difference_of(self@.lhs_at(rhs@, i), self@.rhs_at(rhs@, i), t@.data[i]));
                }
            }
        }
        t
    }
}

impl<'a, 'b, T: Copy + Sub<Output = T>> vstd::std_specs::ops::SubSpecImpl<&'b Tensor<T>> for &'a Tensor<T> {
    open spec fn obeys_sub_spec() -> bool {
        false
    }

    open spec fn sub_req(self, rhs: &'b Tensor<T>) -> bool {
        &&& self@.full()
        &&& rhs@.full()
        &&& can_broadcast(self@.shape, rhs@.shape)
        &&& product_of(broadcast(self@.shape, rhs@.shape)) <= usize::MAX
        &&& forall|i: int|
            0 <= i < product_of(broadcast(self@.shape, rhs@.shape)) ==> (#[trigger] self@.lhs_at(
                rhs@,
                i,
            )).sub_req(self@.rhs_at(rhs@, i))
    }

    open spec fn sub_spec(self, rhs: &'b Tensor<T>) -> Tensor<T> {
        arbitrary()
    }
}

impl<'a, 'b, T: Copy + Mul<Output = T>> Mul<&'b Tensor<T>> for &'a Tensor<T> {
    type Output = Tensor<T>;

    /// The elementwise product under broadcasting, in a fresh tensor.
    fn mul(self, rhs: &'b Tensor<T>) -> (t: Tensor<T>)
        ensures
            self@.product_is(rhs@, t@),
            T::obeys_mul_spec() ==> t@ == self@.times(rhs@),
    {
        let f = |x: T, y: T| -> (r: T)
            requires
                x.mul_req(y),
            ensures
                product_of_two(x, y, r),
            { x * y };
        let t = self.zip_with(rhs, f);
        assert(T::obeys_mul_spec() ==> t@.data =~= self@.times(rhs@).data) by {
            if T::obeys_mul_spec() {
                assert forall|i: int| 0 <= i < t@.data.len() implies t@.data[i] == self@.times(
                    rhs@,
                ).data[i] by {
                    assert(product_of_two(self@.lhs_at(rhs@, i), self@.rhs_at(rhs@, i), t@.data[i]));
                }
            }
        }
        t
    }
}

impl<'a, 'b, T: Copy + Mul<Output = T>> vstd::std_specs::ops::MulSpecImpl<&'b Tensor<T>> for &'a Tensor<T> {
    open spec fn obeys_mul_spec() -> bool {
        false
    }

    open spec fn mul_req(self, rhs: &'b Tensor<T>) -> bool {
        &&& self@.full()
        &&& rhs@.full()
        &&& can_broadcast(self@.shape, rhs@.shape)
        &&& product_of(broadcast(self@.shape, rhs@.shape)) <= usize::MAX
        &&& forall|i: int|
            0 <= i < product_of(broadcast(self@.shape, rhs@.shape)) ==> (#[trigger] self@.lhs_at(
                rhs@,
                i,
            )).mul_req(self@.rhs_at(rhs@, i))
    }

    open spec fn mul_spec(self, rhs: &'b Tensor<T>) -> Tensor<T> {
        arbitrary()
    }
}

impl<'a, 'b, T: Copy + Div<Output = T>> Div<&'b Tensor<T>> for &'a Tensor<T> {
    type Output = Tensor<T>;

    /// The elementwise quotient under broadcasting, in a fresh tensor.
    fn div(self, rhs: &'b Tensor<T>) -> (t: Tensor<T>)
        ensures
            self@.quotient_is(rhs@, t@),
            T::obeys_div_spec() ==> t@ == self@.over(rhs@),
    {
        let f = |x: T, y: T| -> (r: T)
            requires
                x.div_req(y),
            ensures
                quotient_of(x, y, r),
            { x / y };
        let t = self.zip_with(rhs, f);
        assert(T::obeys_div_spec() ==> t@.data =~= self@.over(rhs@).data) by {
            if T::obeys_div_spec() {
                assert forall|i: int| 0 <= i < t@.data.len() implies t@.data[i] == self@.over(
                    rhs@,
                ).data[i] by {
                    assert(quotient_of(self@.lhs_at(rhs@, i), self@.rhs_at(rhs@, i), t@.data[i]));
                }
            }
        }
        t
    }
}

impl<'a, 'b, T: Copy + Div<Output = T>> vstd::std_specs::ops::DivSpecImpl<&'b Tensor<T>> for &'a Tensor<T> {
    open spec fn obeys_div_spec() -> bool {
        false
    }

    open spec fn div_req(self, rhs: &'b Tensor<T>) -> bool {
        &&& self@.full()
        &&& rhs@.full()
        &&& can_broadcast(self@.shape, rhs@.shape)
        &&& product_of(broadcast(self@.shape, rhs@.shape)) <= usize::MAX
        &&& forall|i: int|
            0 <= i < product_of(broadcast(self@.shape, rhs@.shape)) ==> (#[trigger] self@.lhs_at(
                rhs@,
                i,
            )).div_req(self@.rhs_at(rhs@, i))
    }

    open spec fn div_spec(self, rhs: &'b Tensor<T>) -> Tensor<T> {
        arbitrary()
    }
}

/// Adding a tensor of zeros to a tensor of zeros of the same shape gives the
/// tensor of zeros: for every shape `s`, and every `z` for which `z + z` is
/// `z` and nothing else.
pub proof fn lemma_zeros_sum<T: Add<Output = T>>(s: Seq<usize>, z: T, out: TensorView<T>)
    requires
        forall|r: T| sum_of(z, z, r) ==> r == z,
        TensorView::filled(s, z).sum_is(TensorView::filled(s, z), out),
    ensures
        can_broadcast(s, s),
        out == TensorView::filled(s, z),
{
    lemma_broadcast_same(s);
    let a = TensorView::filled(s, z);
    assert forall|i: int| 0 <= i < out.data.len() implies out.data[i] == z by {
        lemma_read_same(s, i);
        assert(sum_of(a.lhs_at(a, i), a.rhs_at(a, i), out.data[i]));
    }
    assert(out.data =~= a.data);
}

/// An elementwise sum under broadcasting is a sum of the operands in the
/// other order as well, where the addition of the elements commutes.
pub proof fn lemma_sum_commutes<T: Add<Output = T>>(
    a: TensorView<T>,
    b: TensorView<T>,
    out: TensorView<T>,
)
    requires
        can_broadcast(a.shape, b.shape),
        forall|x: T, y: T, r: T| sum_of(x, y, r) ==> sum_of(y, x, r),
        a.sum_is(b, out),
    ensures
        b.sum_is(a, out),
{
    lemma_broadcast_commutes(a.shape, b.shape);
    assert forall|i: int| 0 <= i < out.data.len() implies sum_of(
        b.lhs_at(a, i),
        b.rhs_at(a, i),
        #[trigger] out.data[i],
    ) by {
        assert(sum_of(a.lhs_at(b, i), a.rhs_at(b, i), out.data[i]));
    }
}

/// An elementwise product under broadcasting is a product of the operands in
/// the other order as well, where the multiplication of the elements
/// commutes.
pub proof fn lemma_product_commutes<T: Mul<Output = T>>(
    a: TensorView<T>,
    b: TensorView<T>,
    out: TensorView<T>,
)
    requires
        can_broadcast(a.shape, b.shape),
        forall|x: T, y: T, r: T| product_of_two(x, y, r) ==> product_of_two(y, x, r),
        a.product_is(b, out),
    ensures
        b.product_is(a, out),
{
    lemma_broadcast_commutes(a.shape, b.shape);
    assert forall|i: int| 0 <= i < out.data.len() implies product_of_two(
        b.lhs_at(a, i),
        b.rhs_at(a, i),
        #[trigger] out.data[i],
    ) by {
        assert(product_of_two(a.lhs_at(b, i), a.rhs_at(b, i), out.data[i]));
    }
}

/// An elementwise operation under broadcasting commutes where the operator
/// on the elements does: for compatible shapes, `a op b == b op a`.
pub proof fn lemma_zip_commutes<T>(a: TensorView<T>, b: TensorView<T>, f: spec_fn(T, T) -> T)
    requires
        can_broadcast(a.shape, b.shape),
        forall|x: T, y: T| #[trigger] f(x, y) == f(y, x),
    ensures
        a.zip(b, f) == b.zip(a, f),
{
    lemma_broadcast_commutes(a.shape, b.shape);
    assert(a.zip(b, f).data =~= b.zip(a, f).data);
}

/// Reshaping a tensor and reshaping the result back to the first shape gives
/// the tensor again.
pub proof fn lemma_reshape_round_trip<T>(t: TensorView<T>, s: Seq<usize>)
    ensures
        t.reshape(s).reshape(t.shape) == t,
{
}

} // verus!
