//! Errors of the tensor and autograd operations.

use vstd::prelude::*;

verus! {

/// A failure reported by the device that holds a buffer.
#[derive(Clone, Copy, Debug, PartialEq, Eq, Structural)]
pub enum DeviceError {
    /// The requested buffer does not fit in memory.
    AllocationTooLarge,
}

/// The error kinds of the library's fallible operations.
#[derive(Clone, Copy, Debug, PartialEq, Eq, Structural)]
pub enum Error {
    /// Dimensions or strides do not allow the requested reshape or conversion.
    Shape,
    /// The element type of a tensor is not the one requested.
    TypeMismatch,
    /// Propagated unchanged from the device.
    Device(DeviceError),
    /// `backward` was asked of a variable that carries no gradient, or is not a scalar.
    InvalidBackwardTarget,
}

} // verus!
