//! Binary framing codec for a point-to-point command/response packet
//! protocol carried over an unreliable byte stream.

use vstd::prelude::*;

mod checksum;
mod counter;
mod error;
mod escape;
mod flags;
mod markers;
mod node;
mod packet;

pub use checksum::checksum_spec;
pub use checksum::compute_checksum;
pub use counter::SequenceGenerator;
pub use error::DecodeError;
pub use escape::escape;
pub use escape::escape_spec;
pub use escape::unescape;
pub use escape::unescape_spec;
pub use flags::Flags;
pub use flags::EXTENDED_FLAGS;
pub use flags::HAS_SOURCE;
pub use flags::HAS_TARGET;
pub use flags::IS_ACTIVITY;
pub use flags::IS_RESPONSE;
pub use flags::ONLY_ERROR_RESPONSE;
pub use flags::REQUEST_RESPONSE;
pub use flags::UNUSED;
pub use markers::EOP;
pub use markers::ESC;
pub use markers::ESC_EOP;
pub use markers::ESC_ESC;
pub use markers::ESC_SOP;
pub use markers::SOP;
pub use node::Node;
pub use packet::decode_spec;
pub use packet::header_len_spec;
pub use packet::lemma_body_corruption_rejected;
pub use packet::lemma_round_trip;
pub use packet::Command;
pub use packet::Device;
pub use packet::Packet;
pub use packet::PacketModel;
pub use packet::MIN_FRAME_LEN;
