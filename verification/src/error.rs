//! Errors of USB transfers, and the non-blocking form in which word-wise access reports them.

use vstd::prelude::*;

verus! {

/// A USB stack error.
#[derive(Debug, Clone, Copy, PartialEq, Eq, Structural)]
pub enum UsbError {
    /// An operation would block because the device is currently busy or there is no data
    /// available.
    WouldBlock,
    /// Parsing failed due to invalid input.
    ParseError,
    /// A buffer too short for the data to read was passed, or provided data cannot fit within
    /// length constraints.
    BufferOverflow,
    /// Classes attempted to allocate more endpoints than the peripheral supports.
    EndpointOverflow,
    /// Classes attempted to allocate more packet buffer memory than the peripheral supports.
    EndpointMemoryOverflow,
    /// The endpoint address is invalid or already used.
    InvalidEndpoint,
    /// Operation is not supported by device or configuration.
    Unsupported,
    /// Operation is not valid in the current state of the object.
    InvalidState,
}

/// An error of a non-blocking operation.
#[derive(Debug, Clone, Copy, PartialEq, Eq, Structural)]
pub enum NbError {
    /// A different kind of error.
    Other(UsbError),
    /// This operation requires blocking behavior to complete.
    WouldBlock,
}

/// The non-blocking form of an error: a transfer that would block is told apart from one that
/// failed.
pub open spec fn nb_error_of(err: UsbError) -> NbError {
    if err == UsbError::WouldBlock {
        NbError::WouldBlock
    } else {
        NbError::Other(err)
    }
}

/// Computes [`nb_error_of`].
pub fn nb_error(err: UsbError) -> (nb: NbError)
    ensures
        nb == nb_error_of(err),
{
    match err {
        UsbError::WouldBlock => NbError::WouldBlock,
        _ => NbError::Other(err),
    }
}

} // verus!
