//! Reserved byte values of the wire format: the frame delimiters, the escape
//! marker, and the one-byte codes that stand for each reserved value inside
//! an escape sequence.

use vstd::prelude::*;

verus! {

/// Start-of-packet marker: the first byte of every frame.
pub const SOP: u8 = 0x8D;

/// End-of-packet marker: the last byte of every frame.
pub const EOP: u8 = 0xD8;

/// Escape marker: introduces a two-byte escape sequence inside the payload
/// region.
pub const ESC: u8 = 0xAB;

/// Escape code standing for an escaped `ESC` byte.
pub const ESC_ESC: u8 = 0x23;

/// Escape code standing for an escaped `SOP` byte.
pub const ESC_SOP: u8 = 0x05;

/// Escape code standing for an escaped `EOP` byte.
pub const ESC_EOP: u8 = 0x50;

} // verus!
