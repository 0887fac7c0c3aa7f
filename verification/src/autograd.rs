//! Reverse-mode automatic differentiation: a ledger of the local derivatives
//! of the operations of a forward pass, and the backward pass that turns it
//! into the gradients of the registered parameters.

pub mod graph;
pub mod backward;
pub mod adtensor;
pub mod loss;
pub mod parameter;
