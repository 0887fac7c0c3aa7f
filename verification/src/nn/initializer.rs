//! Initializers: how the tensor of a parameter is made once its shape is
//! known.

use crate::shape::{dim, product_of, Shape};
use crate::num::zero;
use crate::tensor::{Tensor, TensorView};
use num_traits::Zero;
use std::marker::PhantomData;
use vstd::prelude::*;

verus! {

/// Makes the first value of a parameter of a given shape.
pub trait Initializer<T> {
    /// `t` is a tensor that this initializer makes for the shape `s`. An
    /// initializer that does not say otherwise promises nothing more than
    /// `init` does.
    open spec fn makes(&self, s: Seq<usize>, t: TensorView<T>) -> bool {
        true
    }

    /// A full tensor of the shape `s`.
    fn init(&self, s: Shape) -> (t: Tensor<T>)
        requires
            product_of(s@) <= usize::MAX,
        ensures
            self.makes(s@, t@),
            t@.shape == s@,
            t@.full(),
    ;
}

/// Fills a parameter with one element.
#[derive(Debug, Default, Clone, Copy)]
pub struct ElemInit<T> {
    pub t: T,
}

impl<T> ElemInit<T> {
    /// The initializer that fills with `t`.
    pub fn new(t: T) -> (r: ElemInit<T>)
        ensures
            r.t == t,
    {
        ElemInit { t }
    }
}

impl<T: Copy> Initializer<T> for ElemInit<T> {
    open spec fn makes(&self, s: Seq<usize>, t: TensorView<T>) -> bool {
        t == TensorView::filled(s, self.t)
    }

    /// The tensor of the shape `s` whose elements all equal the element of
    /// this initializer.
    fn init(&self, s: Shape) -> (t: Tensor<T>) {
        Tensor::shape_elem(s, self.t)
    }
}

/// Fills a parameter with the additive identity of its element type, which
/// it holds as `z`.
#[derive(Debug, Default, Clone, Copy)]
pub struct Zeros<T> {
    pub z: T,
}

impl<T> Zeros<T> {
    /// The initializer that fills with the additive identity of `T`.
    pub fn new() -> Zeros<T> where T: Zero {
        Zeros::of(zero::<T>())
    }

    /// The initializer that fills with `z`.
    pub fn of(z: T) -> (r: Zeros<T>)
        ensures
            r.z == z,
    {
        Zeros { z }
    }

    /// The tensor of the shape `s` filled with the value that this
    /// initializer holds.
    pub fn tensor(&self, s: Shape) -> (t: Tensor<T>) where T: Copy
        requires
            product_of(s@) <= usize::MAX,
        ensures
            t@ == TensorView::filled(s@, self.z),
    {
        Tensor::shape_elem(s, self.z)
    }
}

impl<T: Copy> Initializer<T> for Zeros<T> {
    open spec fn makes(&self, s: Seq<usize>, t: TensorView<T>) -> bool {
        t == TensorView::filled(s, self.z)
    }

    /// The tensor of the shape `s` filled with the value that this
    /// initializer holds.
    fn init(&self, s: Shape) -> (t: Tensor<T>) {
        self.tensor(s)
    }
}

/// The sizes of the two trailing axes of a weight of shape `s`, the trailing
/// one first: the number of its columns and the number of its rows. An axis
/// that the shape does not have counts as 1.
pub fn fans(s: &Shape) -> (r: (usize, usize))
    ensures
        r.0 == dim(s@, 0),
        r.1 == dim(s@, 1),
{
    (s.dim(0), s.dim(1))
}

/// The plain initializer that layers fall back on: normally distributed
/// weights whose variance is 2 over the sum of the two trailing axis sizes.
/// The sizes are found here; the sampling is left to the caller.
#[derive(Debug, Default)]
pub struct BasicInit<T> {
    _p: PhantomData<T>,
}

impl<T> BasicInit<T> {
    /// The plain initializer.
    pub fn new() -> BasicInit<T> {
        BasicInit { _p: PhantomData }
    }

    /// The two sizes whose sum divides 2 in the variance of the weights.
    pub fn fan(&self, s: &Shape) -> (r: (usize, usize))
        ensures
            r.0 == dim(s@, 0),
            r.1 == dim(s@, 1),
    {
        fans(s)
    }
}

/// He initialization: normally distributed weights whose variance is 2 over
/// the sum of the two trailing axis sizes. The sizes are found here; the
/// sampling is left to the caller.
#[derive(Debug, Default)]
pub struct HeInit<T> {
    _p: PhantomData<T>,
}

impl<T> HeInit<T> {
    /// The He initializer.
    pub fn new() -> HeInit<T> {
        HeInit { _p: PhantomData }
    }

    /// The two sizes whose sum divides 2 in the variance of the weights.
    pub fn fan(&self, s: &Shape) -> (r: (usize, usize))
        ensures
            r.0 == dim(s@, 0),
            r.1 == dim(s@, 1),
    {
        fans(s)
    }
}

/// Xavier initialization: normally distributed weights whose variance is 1
/// over the number of rows of the weight. The number is found here; the
/// sampling is left to the caller.
#[derive(Debug, Default)]
pub struct XavierInit<T> {
    _p: PhantomData<T>,
}

impl<T> XavierInit<T> {
    /// The Xavier initializer.
    pub fn new() -> XavierInit<T> {
        XavierInit { _p: PhantomData }
    }

    /// The number of rows of a weight of shape `s`: the size that divides 1
    /// in the variance of the weights.
    pub fn fan_in(&self, s: &Shape) -> (r: usize)
        ensures
            r == dim(s@, 1),
    {
        s.dim(1)
    }
}

} // verus!
