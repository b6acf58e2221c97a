//! Decode failures. A malformed frame is always rejected, never partially
//! accepted; each error carries the offending byte offset and, where it
//! applies, the expected and actual values.

use vstd::prelude::*;

verus! {

/// Why a frame was rejected.
#[derive(Debug, Clone, Copy, PartialEq, Eq, Structural)]
pub enum DecodeError {
    /// A frame delimiter is missing or misplaced: the byte at `offset` was
    /// `found` where a marker was required.
    FramingError { offset: usize, found: u8 },
    /// An escape marker is followed by an undefined code, a trailing escape
    /// marker has no following byte, or a reserved byte stands unescaped in
    /// the payload region; `offset` is the offending byte's position.
    MalformedEscape { offset: usize },
    /// The stored checksum byte does not match the one recomputed over the
    /// frame body.
    ChecksumMismatch { expected: u8, found: u8 },
    /// The input ends before a required field is read.
    TruncatedFrame { length: usize, required: usize },
}

} // verus!
