//! The two ways construction of an identifier can fail.

use vstd::prelude::*;

verus! {

/// Why a value could not be constructed. Parsing text and reading raw bytes
/// are the only fallible operations; every other operation is total.
#[derive(Clone, Copy, Debug, PartialEq, Eq, Structural)]
pub enum UuidError {
    /// The input did not match the accepted UUID textual grammar.
    MalformedText,
    /// The byte input was not exactly 16 bytes long; carries the length received.
    MalformedBytes { len: usize },
}

impl UuidError {
    /// A short human-readable account of what was wrong.
    pub fn description(&self) -> (r: &'static str)
        ensures
            self is MalformedText ==> r@ == "invalid UUID text"@,
            self is MalformedBytes ==> r@ == "UUID must be exactly 16 bytes"@,
    {
        match self {
            UuidError::MalformedText => "invalid UUID text",
            UuidError::MalformedBytes { .. } => "UUID must be exactly 16 bytes",
        }
    }
}

} // verus!
