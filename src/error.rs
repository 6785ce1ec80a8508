//! The error kinds that the debugger's operations report.
use vstd::prelude::*;

verus! {

/// Why an operation failed. Every fallible operation returns one to its caller;
/// a failed edit leaves the state as it was.
#[derive(Clone, Copy, Debug, PartialEq, Eq, Structural)]
pub enum EmuError {
    /// The address lies beyond the configured memory size.
    OutOfRange,
    /// The address belongs to a device that does not accept writes.
    ReadOnly,
    /// User-entered text is not a hexadecimal value of the expected width.
    InvalidEncoding,
    /// The decoder does not recognise the bytes at an address.
    DecodeFailure,
    /// The CPU reported an error while stepping or running.
    ExecutionFailure,
}

} // verus!
