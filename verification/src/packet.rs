//! The packet: the logical unit of the protocol, and its encoder. A packet
//! carries a device code, a command code, flags, optional source and target
//! addresses, a sequence number, an optional error code, and a payload.
//! Serialization emits the fields in fixed wire order between the two frame
//! markers, escapes the payload, and appends the checksum.

use vstd::prelude::*;

use crate::checksum::checksum_spec;
use crate::checksum::compute_checksum;
use crate::counter::next_seq_value;
use crate::counter::SequenceGenerator;
use crate::error::DecodeError;
use crate::escape::escape_into;
use crate::escape::escape_spec;
use crate::escape::unescape_raw;
use crate::escape::unescape_spec;
use crate::flags::Flags;
use crate::flags::HAS_SOURCE;
use crate::flags::HAS_TARGET;
use crate::flags::IS_ACTIVITY;
use crate::flags::IS_RESPONSE;
use crate::flags::REQUEST_RESPONSE;
use crate::markers::EOP;
use crate::markers::SOP;
use crate::node::Node;
use vstd::slice::slice_subrange;

verus! {

/// The command group ("virtual device") a command is addressed to. The
/// catalog is protocol-defined and extensible; a wire byte matching no entry
/// is treated as `InvalidDevice`.
#[derive(Debug, Clone, Copy, PartialEq, Eq, Structural)]
pub enum Device {
    InvalidDevice,
    SomeDevice1,
}

impl Device {
    /// The wire byte of a device code.
    pub open spec fn spec_byte(self) -> u8 {
        match self {
            Device::InvalidDevice => 0,
            Device::SomeDevice1 => 1,
        }
    }

    /// The device code a wire byte names; an unrecognized byte is
    /// `InvalidDevice`.
    pub open spec fn spec_from_byte(b: u8) -> Device {
        if b == 1 {
            Device::SomeDevice1
        } else {
            Device::InvalidDevice
        }
    }

    /// Encodes the device code as its wire byte.
    pub fn to_byte(self) -> (r: u8)
        ensures
            r == self.spec_byte(),
    {
        match self {
            Device::InvalidDevice => 0,
            Device::SomeDevice1 => 1,
        }
    }

    /// Decodes a wire byte into a device code; never fails.
    pub fn from_byte(b: u8) -> (r: Device)
        ensures
            r == Device::spec_from_byte(b),
    {
        if b == 1 {
            Device::SomeDevice1
        } else {
            Device::InvalidDevice
        }
    }
}

/// The command to execute. The catalog is protocol-defined and extensible;
/// a wire byte matching no entry is treated as `InvalidCommand`.
#[derive(Debug, Clone, Copy, PartialEq, Eq, Structural)]
pub enum Command {
    InvalidCommand,
    SomeCommand1,
}

impl Command {
    /// The wire byte of a command code.
    pub open spec fn spec_byte(self) -> u8 {
        match self {
            Command::InvalidCommand => 0,
            Command::SomeCommand1 => 1,
        }
    }

    /// The command code a wire byte names; an unrecognized byte is
    /// `InvalidCommand`.
    pub open spec fn spec_from_byte(b: u8) -> Command {
        if b == 1 {
            Command::SomeCommand1
        } else {
            Command::InvalidCommand
        }
    }

    /// Encodes the command code as its wire byte.
    pub fn to_byte(self) -> (r: u8)
        ensures
            r == self.spec_byte(),
    {
        match self {
            Command::InvalidCommand => 0,
            Command::SomeCommand1 => 1,
        }
    }

    /// Decodes a wire byte into a command code; never fails.
    pub fn from_byte(b: u8) -> (r: Command)
        ensures
            r == Command::spec_from_byte(b),
    {
        if b == 1 {
            Command::SomeCommand1
        } else {
            Command::InvalidCommand
        }
    }
}

/// The mathematical model of a packet: every field of [`Packet`], with the
/// payload as a byte sequence.
#[verifier::ext_equal]
pub ghost struct PacketModel {
    pub device: Device,
    pub command: Command,
    pub flags: Flags,
    pub source: Option<Node>,
    pub target: Option<Node>,
    pub seq_no: u8,
    pub err_code: Option<u8>,
    pub payload: Seq<u8>,
}

impl PacketModel {
    /// A packet's invariants: each presence flag is set exactly when the
    /// field it announces is present, an error code travels only on
    /// responses, and the addresses fit their four-bit fields.
    pub open spec fn wf(self) -> bool {
        &&& self.flags.spec_has_target() <==> self.target is Some
        &&& self.flags.spec_has_source() <==> self.source is Some
        &&& self.flags.spec_is_response() <==> self.err_code is Some
        &&& (self.target matches Some(t) ==> t.wf())
        &&& (self.source matches Some(n) ==> n.wf())
    }

    /// The header bytes of the frame, in wire order: flags, the optional
    /// target and source address bytes, device, command, sequence number,
    /// and the error code on responses.
    pub open spec fn header_spec(self) -> Seq<u8> {
        seq![self.flags.bits] + (match self.target {
            Some(t) => seq![t.spec_pack()],
            None => Seq::empty(),
        }) + (match self.source {
            Some(n) => seq![n.spec_pack()],
            None => Seq::empty(),
        }) + seq![self.device.spec_byte(), self.command.spec_byte(), self.seq_no] + (
        match self.err_code {
            Some(e) => seq![e],
            None => Seq::empty(),
        })
    }

    /// The frame body: every byte between the start marker and the checksum,
    /// that is the header followed by the escaped payload.
    pub open spec fn body_spec(self) -> Seq<u8> {
        self.header_spec() + escape_spec(self.payload)
    }

    /// The full wire frame: start marker, body, checksum over the body, end
    /// marker.
    pub open spec fn frame_spec(self) -> Seq<u8> {
        seq![SOP] + self.body_spec() + seq![checksum_spec(self.body_spec()), EOP]
    }
}

/// The shortest possible frame: both markers, the flags byte, device,
/// command and sequence number bytes, and the checksum.
pub const MIN_FRAME_LEN: usize = 7;

/// How many bytes stand before the payload region of a frame with these
/// flags: the start marker, the flags byte, the optional target and source
/// address bytes, device, command, sequence number, and the error code on
/// responses.
pub open spec fn header_len_spec(flags: Flags) -> int {
    2 + (if flags.spec_has_target() {
        1int
    } else {
        0int
    }) + (if flags.spec_has_source() {
        1int
    } else {
        0int
    }) + 3 + (if flags.spec_is_response() {
        1int
    } else {
        0int
    })
}

/// What decoding a frame yields: the packet all of whose fields are read
/// from the bytes, or the error the frame's first defect causes. Defects are
/// found in the decoder's order: missing start marker, truncation, a
/// malformed escape in the payload region, a checksum mismatch, and last a
/// missing end marker.
pub open spec fn decode_spec(s: Seq<u8>) -> Result<PacketModel, DecodeError> {
    if s.len() == 0 {
        Err(DecodeError::TruncatedFrame { length: 0, required: MIN_FRAME_LEN })
    } else if s[0] != SOP {
        Err(DecodeError::FramingError { offset: 0, found: s[0] })
    } else if s.len() == 1 {
        Err(DecodeError::TruncatedFrame { length: 1, required: MIN_FRAME_LEN })
    } else {
        let flags = Flags { bits: s[1] };
        let hl = header_len_spec(flags);
        if s.len() < hl + 2 {
            Err(
                DecodeError::TruncatedFrame {
                    length: s.len() as usize,
                    required: (hl + 2) as usize,
                },
            )
        } else {
            match unescape_spec(s.subrange(hl, s.len() - 2)) {
                Err(k) => Err(DecodeError::MalformedEscape { offset: (hl + k) as usize }),
                Ok(payload) => {
                    let computed = checksum_spec(s.subrange(1, s.len() - 2));
                    let stored = s[s.len() - 2];
                    if stored != computed {
                        Err(DecodeError::ChecksumMismatch { expected: computed, found: stored })
                    } else if s[s.len() - 1] != EOP {
                        Err(
                            DecodeError::FramingError {
                                offset: (s.len() - 1) as usize,
                                found: s[s.len() - 1],
                            },
                        )
                    } else {
                        let si = 2 + (if flags.spec_has_target() {
                            1int
                        } else {
                            0int
                        });
                        let di = si + (if flags.spec_has_source() {
                            1int
                        } else {
                            0int
                        });
                        Ok(
                            PacketModel {
                                device: Device::spec_from_byte(s[di]),
                                command: Command::spec_from_byte(s[di + 1]),
                                flags,
                                source: if flags.spec_has_source() {
                                    Some(Node::spec_unpack(s[si]))
                                } else {
                                    None
                                },
                                target: if flags.spec_has_target() {
                                    Some(Node::spec_unpack(s[2]))
                                } else {
                                    None
                                },
                                seq_no: s[di + 2],
                                err_code: if flags.spec_is_response() {
                                    Some(s[di + 3])
                                } else {
                                    None
                                },
                                payload,
                            },
                        )
                    }
                },
            }
        }
    }
}

/// One protocol packet. Constructed once, optionally given a source or
/// target address, then serialized; encoding cannot fail for any packet
/// satisfying [`PacketModel::wf`].
#[derive(Debug)]
pub struct Packet {
    pub device: Device,
    pub command: Command,
    pub flags: Flags,
    pub source: Option<Node>,
    pub target: Option<Node>,
    pub seq_no: u8,
    pub err_code: Option<u8>,
    pub payload: Vec<u8>,
}

impl View for Packet {
    type V = PacketModel;

    open spec fn view(&self) -> PacketModel {
        PacketModel {
            device: self.device,
            command: self.command,
            flags: self.flags,
            source: self.source,
            target: self.target,
            seq_no: self.seq_no,
            err_code: self.err_code,
            payload: self.payload@,
        }
    }
}

impl Packet {
    /// The packet's invariants; see [`PacketModel::wf`].
    pub open spec fn wf(&self) -> bool {
        self@.wf()
    }

    /// Creates a command packet with the default flags (a response is
    /// requested and the packet counts as activity), no source or target,
    /// no error code, and a fresh sequence number drawn from `seq_gen`.
    pub fn new(device: Device, command: Command, payload: Vec<u8>, seq_gen: &mut SequenceGenerator) -> (r:
        Packet)
        ensures
            final(seq_gen)@ == next_seq_value(old(seq_gen)@),
            r@ == (PacketModel {
                device,
                command,
                flags: Flags { bits: REQUEST_RESPONSE | IS_ACTIVITY },
                source: None,
                target: None,
                seq_no: final(seq_gen)@,
                err_code: None,
                payload: payload@,
            }),
            r.wf(),
    {
        proof {
            let bits = REQUEST_RESPONSE | IS_ACTIVITY;
            assert(bits & HAS_TARGET != HAS_TARGET && bits & HAS_SOURCE != HAS_SOURCE && bits
                & crate::flags::IS_RESPONSE != crate::flags::IS_RESPONSE) by (bit_vector)
                requires
                    bits == REQUEST_RESPONSE | IS_ACTIVITY,
            ;
        }
        let seq_no = seq_gen.next();
        Packet {
            device,
            command,
            flags: Flags { bits: REQUEST_RESPONSE | IS_ACTIVITY },
            source: None,
            target: None,
            seq_no,
            err_code: None,
            payload,
        }
    }

    /// Attaches a source address and sets the presence flag; re-attaching
    /// replaces the prior address and changes nothing else.
    pub fn source<'a>(&'a mut self, source: Node) -> (r: &'a mut Packet)
        ensures
            r@ == (PacketModel {
                source: Some(source),
                flags: Flags { bits: old(self).flags.bits | HAS_SOURCE },
                ..old(self)@
            }),
            *final(self) == *final(r),
            source.wf() && old(self).wf() ==> r.wf(),
    {
        proof {
            let bits = self.flags.bits;
            assert((bits | HAS_SOURCE) & HAS_SOURCE == HAS_SOURCE && (bits | HAS_SOURCE)
                & HAS_TARGET == bits & HAS_TARGET && (bits | HAS_SOURCE)
                & crate::flags::IS_RESPONSE == bits & crate::flags::IS_RESPONSE) by (bit_vector);
        }
        self.source = Some(source);
        self.flags = self.flags.insert(HAS_SOURCE);
        self
    }

    /// Attaches a target address and sets the presence flag; re-attaching
    /// replaces the prior address and changes nothing else.
    pub fn target<'a>(&'a mut self, target: Node) -> (r: &'a mut Packet)
        ensures
            r@ == (PacketModel {
                target: Some(target),
                flags: Flags { bits: old(self).flags.bits | HAS_TARGET },
                ..old(self)@
            }),
            *final(self) == *final(r),
            target.wf() && old(self).wf() ==> r.wf(),
    {
        proof {
            let bits = self.flags.bits;
            assert((bits | HAS_TARGET) & HAS_TARGET == HAS_TARGET && (bits | HAS_TARGET)
                & HAS_SOURCE == bits & HAS_SOURCE && (bits | HAS_TARGET)
                & crate::flags::IS_RESPONSE == bits & crate::flags::IS_RESPONSE) by (bit_vector);
        }
        self.target = Some(target);
        self.flags = self.flags.insert(HAS_TARGET);
        self
    }

    /// Appends the escaped form of `bytes` to `buf`; see [`crate::escape::escape`].
    pub fn add_escaped(&self, buf: &mut Vec<u8>, bytes: &[u8])
        ensures
            final(buf)@ == old(buf)@ + escape_spec(bytes@),
    {
        escape_into(buf, bytes)
    }

    /// The checksum of `bytes`; see [`crate::checksum::compute_checksum`].
    pub fn checksum(&self, bytes: &[u8]) -> (r: u8)
        ensures
            r == checksum_spec(bytes@),
    {
        compute_checksum(bytes)
    }

    /// Encodes the packet as one complete wire frame: start marker, flags,
    /// the optional target and source bytes, device, command, sequence
    /// number, the error code on responses, the escaped payload, the
    /// checksum over everything after the start marker, and the end marker.
    pub fn serialize(&self) -> (r: Vec<u8>)
        requires
            self.wf(),
        ensures
            r@ == self@.frame_spec(),
    {
        let mut body: Vec<u8> = Vec::new();
        body.push(self.flags.bits);
        if let Some(t) = &self.target {
            body.push(t.pack());
        }
        if let Some(n) = &self.source {
            body.push(n.pack());
        }
        body.push(self.device.to_byte());
        body.push(self.command.to_byte());
        body.push(self.seq_no);
        if let Some(e) = self.err_code {
            body.push(e);
        }
        proof {
            assert(body@ =~= self@.header_spec());
        }
        self.add_escaped(&mut body, self.payload.as_slice());
        let chk = compute_checksum(body.as_slice());
        let mut frame: Vec<u8> = Vec::new();
        frame.push(SOP);
        frame.append(&mut body);
        frame.push(chk);
        frame.push(EOP);
        proof {
            assert(frame@ =~= self@.frame_spec());
        }
        frame
    }

    /// Decodes one complete, already-delimited frame into a packet,
    /// populating every field from the bytes read; see [`decode_spec`] for
    /// exactly which packet or error each input yields.
    pub fn deserialize(bytes: &[u8]) -> (r: Result<Packet, DecodeError>)
        ensures
            (r matches Ok(p) ==> decode_spec(bytes@) == Ok::<PacketModel, DecodeError>(p@)
                && p.wf()),
            (r matches Err(e) ==> decode_spec(bytes@) == Err::<PacketModel, DecodeError>(e)),
    {
        let len = bytes.len();
        if len == 0 {
            return Err(DecodeError::TruncatedFrame { length: 0, required: MIN_FRAME_LEN });
        }
        let b0 = bytes[0];
        if b0 != SOP {
            return Err(DecodeError::FramingError { offset: 0, found: b0 });
        }
        if len == 1 {
            return Err(DecodeError::TruncatedFrame { length: 1, required: MIN_FRAME_LEN });
        }
        let flags = Flags { bits: bytes[1] };
        let has_t = flags.contains(HAS_TARGET);
        let has_s = flags.contains(HAS_SOURCE);
        let is_r = flags.contains(IS_RESPONSE);
        let hl: usize = 2 + (if has_t {
            1
        } else {
            0
        }) + (if has_s {
            1
        } else {
            0
        }) + 3 + (if is_r {
            1
        } else {
            0
        });
        proof {
            assert(hl == header_len_spec(flags));
        }
        if len < hl + 2 {
            return Err(DecodeError::TruncatedFrame { length: len, required: hl + 2 });
        }
        let data = slice_subrange(bytes, hl, len - 2);
        let payload = match unescape_raw(data) {
            Err(k) => {
                return Err(DecodeError::MalformedEscape { offset: hl + k });
            },
            Ok(v) => v,
        };
        let body = slice_subrange(bytes, 1, len - 2);
        let computed = compute_checksum(body);
        let stored = bytes[len - 2];
        if stored != computed {
            return Err(DecodeError::ChecksumMismatch { expected: computed, found: stored });
        }
        let last = bytes[len - 1];
        if last != EOP {
            return Err(DecodeError::FramingError { offset: len - 1, found: last });
        }
        let target = if has_t {
            Some(Node::unpack(bytes[2]))
        } else {
            None
        };
        let si: usize = if has_t {
            3
        } else {
            2
        };
        let source = if has_s {
            Some(Node::unpack(bytes[si]))
        } else {
            None
        };
        let di: usize = if has_s {
            si + 1
        } else {
            si
        };
        let device = Device::from_byte(bytes[di]);
        let command = Command::from_byte(bytes[di + 1]);
        let seq_no = bytes[di + 2];
        let err_code = if is_r {
            Some(bytes[di + 3])
        } else {
            None
        };
        let p = Packet { device, command, flags, source, target, seq_no, err_code, payload };
        proof {
            assert(decode_spec(bytes@) =~~= Ok::<PacketModel, DecodeError>(p@));
        }
        Ok(p)
    }
}

/// Round-trip: decoding the frame a well-formed packet serializes to
/// reproduces that packet exactly — device, command, flags, sequence number,
/// optional addresses, optional error code, and payload.
pub proof fn lemma_round_trip(p: PacketModel)
    requires
        p.wf(),
    ensures
        decode_spec(p.frame_spec()) == Ok::<PacketModel, DecodeError>(p),
{
    let h = p.header_spec();
    let e = escape_spec(p.payload);
    let b = p.body_spec();
    let f = p.frame_spec();
    let hl = header_len_spec(p.flags);

    crate::escape::lemma_unescape_escape(p.payload);

    let tl: int = if p.flags.spec_has_target() {
        1
    } else {
        0
    };
    let sl: int = if p.flags.spec_has_source() {
        1
    } else {
        0
    };
    let el: int = if p.flags.spec_is_response() {
        1
    } else {
        0
    };
    assert(h.len() == 4 + tl + sl + el);
    assert(hl == 5 + tl + sl + el);
    assert(b.len() == h.len() + e.len());
    assert(f.len() == b.len() + 3);
    assert(f.len() >= hl + 2);

    assert(f[0] == SOP);
    assert(f[1] == h[0]);
    assert(h[0] == p.flags.bits);
    assert(Flags { bits: f[1] } == p.flags);

    assert(f.subrange(hl, f.len() - 2) =~= e);
    assert(f.subrange(1, f.len() - 2) =~= b);
    assert(f[f.len() - 2] == checksum_spec(b));
    assert(f[f.len() - 1] == EOP);

    let si = 2 + tl;
    let di = si + sl;
    match p.target {
        Some(t) => {
            assert(h[1] == t.spec_pack());
            assert(f[2] == h[1]);
            crate::node::lemma_node_pack_unpack(t);
        },
        None => {},
    }
    match p.source {
        Some(n) => {
            assert(h[si - 1] == n.spec_pack());
            assert(f[si] == h[si - 1]);
            crate::node::lemma_node_pack_unpack(n);
        },
        None => {},
    }
    assert(f[di] == h[di - 1]);
    assert(f[di + 1] == h[di]);
    assert(f[di + 2] == h[di + 1]);
    assert(h[di - 1] == p.device.spec_byte());
    assert(h[di] == p.command.spec_byte());
    assert(h[di + 1] == p.seq_no);
    match p.err_code {
        Some(ec) => {
            assert(h[di + 2] == ec);
            assert(f[di + 3] == h[di + 2]);
        },
        None => {},
    }
    assert(Device::spec_from_byte(p.device.spec_byte()) == p.device);
    assert(Command::spec_from_byte(p.command.spec_byte()) == p.command);

    assert(decode_spec(f) =~~= Ok::<PacketModel, DecodeError>(p));
}

/// Checksum sensitivity: changing any single byte of a serialized frame's
/// body — every position between the start marker and the checksum byte, so
/// in particular flipping any bit there — makes decoding fail. When the
/// corrupted frame still parses structurally, the failure is the checksum
/// mismatch; a corruption that breaks the structure first is rejected as a
/// malformed escape or a truncated frame instead.
pub proof fn lemma_body_corruption_rejected(p: PacketModel, i: int, b: u8)
    requires
        p.wf(),
        1 <= i < p.frame_spec().len() - 2,
        b != p.frame_spec()[i],
    ensures
        decode_spec(p.frame_spec().update(i, b)) is Err,
{
    let h = p.header_spec();
    let e = escape_spec(p.payload);
    let body = p.body_spec();
    let f = p.frame_spec();
    let g = f.update(i, b);

    assert(f.len() == body.len() + 3);
    assert(body.len() >= 4);
    assert(g.len() == f.len());
    assert(g[0] == f[0] && f[0] == SOP);
    assert(g[g.len() - 2] == f[f.len() - 2]);
    assert(f[f.len() - 2] == checksum_spec(body));

    let flags2 = Flags { bits: g[1] };
    let hl2 = header_len_spec(flags2);
    if g.len() < hl2 + 2 {
        assert(decode_spec(g) is Err);
    } else {
        match unescape_spec(g.subrange(hl2, g.len() - 2)) {
            Err(_) => {
                assert(decode_spec(g) is Err);
            },
            Ok(_) => {
                let body1 = f.subrange(1, f.len() - 2);
                assert(body1 =~= body);
                assert(g.subrange(1, g.len() - 2) =~= body.update(i - 1, b));
                assert(body[i - 1] == f[i]);
                crate::checksum::lemma_checksum_byte_sensitive(body, i - 1, b);
                assert(decode_spec(g) is Err);
            },
        }
    }
}

} // verus!
