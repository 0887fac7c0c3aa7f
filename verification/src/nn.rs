//! Building blocks for layers on top of the tensor engine: how weights are
//! initialised, the activations that follow a layer, the linear layer, and
//! layers in a row.

pub mod initializer;
pub mod activation;
pub mod linear;
pub mod sequential;
