//! The flag byte of a packet: eight independent boolean attributes that
//! control which optional header fields are present and how a packet is
//! answered. Every bit pattern is a legal flag combination; the reserved
//! bits round-trip unchanged.

use vstd::prelude::*;

verus! {

/// The packet is a response; its header then carries an error-code byte.
pub const IS_RESPONSE: u8 = 0x01;

/// A response to this command is requested.
pub const REQUEST_RESPONSE: u8 = 0x02;

/// A response is requested only if the command fails.
pub const ONLY_ERROR_RESPONSE: u8 = 0x04;

/// The packet counts as activity and resets the receiver's inactivity timeout.
pub const IS_ACTIVITY: u8 = 0x08;

/// The header carries a target address byte.
pub const HAS_TARGET: u8 = 0x10;

/// The header carries a source address byte.
pub const HAS_SOURCE: u8 = 0x20;

/// Reserved; accepted and preserved, never interpreted.
pub const UNUSED: u8 = 0x40;

/// Reserved for a future second flags byte; accepted and preserved.
pub const EXTENDED_FLAGS: u8 = 0x80;

/// An 8-bit set of packet flags. Converting an arbitrary byte to a `Flags`
/// never fails: every bit pattern is a legal combination.
#[derive(Debug, Clone, Copy, PartialEq, Eq, Structural)]
pub struct Flags {
    pub bits: u8,
}

impl Flags {
    /// The set contains every flag of `mask`.
    pub open spec fn spec_contains(self, mask: u8) -> bool {
        self.bits & mask == mask
    }

    /// A target address byte is present in the header.
    pub open spec fn spec_has_target(self) -> bool {
        self.bits & HAS_TARGET == HAS_TARGET
    }

    /// A source address byte is present in the header.
    pub open spec fn spec_has_source(self) -> bool {
        self.bits & HAS_SOURCE == HAS_SOURCE
    }

    /// The packet is a response, so an error-code byte is present.
    pub open spec fn spec_is_response(self) -> bool {
        self.bits & IS_RESPONSE == IS_RESPONSE
    }

    /// Converts a raw byte into a flag set; never fails.
    pub fn from_bits(bits: u8) -> (r: Flags)
        ensures
            r.bits == bits,
    {
        Flags { bits }
    }

    /// Tests whether every flag of `mask` is set.
    pub fn contains(self, mask: u8) -> (r: bool)
        ensures
            r == self.spec_contains(mask),
    {
        self.bits & mask == mask
    }

    /// Bitwise union of two flag sets.
    pub fn union(self, other: Flags) -> (r: Flags)
        ensures
            r.bits == self.bits | other.bits,
    {
        Flags { bits: self.bits | other.bits }
    }

    /// Adds the flags of `mask` to the set.
    pub fn insert(self, mask: u8) -> (r: Flags)
        ensures
            r.bits == self.bits | mask,
    {
        Flags { bits: self.bits | mask }
    }
}

} // verus!
