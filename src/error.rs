//! The error that decoding from a byte stream can end in.
use vstd::prelude::*;

verus! {

/// Why a decode from a byte stream failed.
#[derive(Debug, Clone, Copy, PartialEq, Eq, Structural)]
pub enum DecodeError {
    /// The stream ended before the bytes that the current step needs.
    TruncatedInput,
}

} // verus!
