//! Errors of the USB stack.

use vstd::prelude::*;

verus! {

/// Why a USB operation failed.
#[derive(Clone, Copy, Debug, PartialEq, Eq)]
pub enum UsbError {
    /// Nothing happened within the allotted time.
    Timeout,
    /// The device refused the request.
    Stall,
    /// The other side, or the caller, broke the protocol.
    Protocol(&'static str),
    /// The controller misbehaved.
    Hardware(&'static str),
    /// There is no device at this place.
    NotPresent,
    /// The device asks for something that is not supported.
    NotImplemented,
}

/// Result of a USB operation.
pub type UsbResult<T> = Result<T, UsbError>;

} // verus!
