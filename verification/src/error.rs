//! Errors of the library.
use vstd::prelude::*;

verus! {

/// The kind of failure of a read, a write or a conversion, as the protocol
/// code reports it.
#[derive(Debug, PartialEq, Eq, Clone, Copy, Structural)]
pub enum IoError {
    /// The input ended before the value did.
    UnexpectedEof,
    /// The input holds bytes that are not a valid value.
    InvalidData,
    /// A value to be written breaks a limit of the protocol.
    InvalidInput,
    /// An outside library reported a failure.
    Other,
}

} // verus!
