//! Tensors over a pluggable device, with several ownership representations,
//! and a reverse-mode automatic differentiation engine.

pub mod autograd;
pub mod dims;
pub mod error;
pub mod float;
pub mod float_tensor;
pub mod layer;
pub mod ops;
pub mod optimizer;
pub mod scalar;
pub mod tensor;
pub mod util;
