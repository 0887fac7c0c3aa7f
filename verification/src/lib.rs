//! A small tensor engine with reverse-mode automatic differentiation.
//!
//! [`shape`] and [`tensor`] are the data model: shapes with broadcasting, and
//! dense tensors with elementwise arithmetic; [`index`] says where an operand
//! is read for an element of a broadcast result. [`matmul`] multiplies stacks
//! of matrices through a dense kernel that the caller supplies. [`autograd`]
//! records the operations of a forward pass and walks them backward to the
//! gradients of the registered parameters, which [`optim`] applies.
//! [`scalar`] and [`adscalar`] are the scalar counterparts, [`nn`] holds
//! building blocks for layers, and [`expression`] is an append-only arena of
//! evaluated expressions.

pub mod num;
pub mod shape;
pub mod tensor;
pub mod index;
pub mod matmul;
pub mod autograd;
pub mod optim;
pub mod scalar;
pub mod adscalar;
pub mod nn;
pub mod expression;

pub use crate::autograd::adtensor::ADTensor;
pub use crate::autograd::graph::Graph;
pub use crate::autograd::loss::Loss;
pub use crate::matmul::MatRef;
pub use crate::shape::{Shape, ShapeMismatch, Shaped};
pub use crate::tensor::Tensor;
