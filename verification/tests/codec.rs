use sphero::Command;
use sphero::DecodeError;
use sphero::Device;
use sphero::Flags;
use sphero::Node;
use sphero::Packet;
use sphero::SequenceGenerator;
use sphero::EOP;
use sphero::ESC;
use sphero::ESC_EOP;
use sphero::ESC_ESC;
use sphero::ESC_SOP;
use sphero::HAS_SOURCE;
use sphero::HAS_TARGET;
use sphero::IS_RESPONSE;
use sphero::SOP;

#[test]
fn test_new() {
    let mut gen = SequenceGenerator::new();
    let p = Packet::new(Device::SomeDevice1, Command::SomeCommand1, vec![1, 2, 3], &mut gen);
    assert!(p.target.is_none());
    assert_eq!(p.device, Device::SomeDevice1);
    assert_eq!(p.command, Command::SomeCommand1);
    assert_eq!(p.seq_no, gen.current());
    assert_eq!(p.payload, vec![1, 2, 3]);
}

#[test]
fn test_serialize() {
    let mut gen = SequenceGenerator::new();
    let p = Packet::new(Device::SomeDevice1, Command::SomeCommand1, vec![1, 2, 3], &mut gen);
    let s = p.serialize();
    assert_eq!(
        s,
        vec![
            SOP,
            0b00001010,
            1,
            1,
            gen.current(),
            1,
            2,
            3,
            p.checksum(&s[1..=7]),
            EOP
        ]
    );
}

#[test]
fn test_deserialize() {
    let p = Packet::deserialize(&vec![SOP, 0b00010010, 0x00, 1, 1, 22, 1, 212, EOP]);
    println!("{:?}", p);
    assert!(p.is_ok());
}

#[test]
fn test_deserialize_populates_fields() {
    let p = Packet::deserialize(&vec![SOP, 0b00010010, 0x4B, 1, 1, 22, 1, 137, EOP]).unwrap();
    assert_eq!(p.flags, Flags { bits: 0b00010010 });
    assert_eq!(p.target, Some(Node { port_id: 4, node_id: 11 }));
    assert_eq!(p.source, None);
    assert_eq!(p.device, Device::SomeDevice1);
    assert_eq!(p.command, Command::SomeCommand1);
    assert_eq!(p.seq_no, 22);
    assert_eq!(p.err_code, None);
    assert_eq!(p.payload, vec![1]);
}

#[test]
fn test_scenario_command_frame() {
    // A command packet with device 1, command 1, no addresses, payload 1 2 3:
    // the checksum is the bit-inverted modulo-256 sum of the body bytes.
    let mut gen = SequenceGenerator::new();
    let p = Packet::new(Device::SomeDevice1, Command::SomeCommand1, vec![1, 2, 3], &mut gen);
    let s = p.serialize();
    let seq = p.seq_no;
    assert_eq!(seq, 1);
    let sum: u32 = (0b00001010 + 1 + 1 + seq as u32 + 1 + 2 + 3) % 256;
    let chk = 0xFF ^ (sum as u8);
    assert_eq!(s, vec![SOP, 0b00001010, 1, 1, seq, 1, 2, 3, chk, EOP]);
}

#[test]
fn test_roundtrip_response_with_addresses() {
    let p = Packet {
        device: Device::SomeDevice1,
        command: Command::SomeCommand1,
        flags: Flags { bits: IS_RESPONSE | HAS_TARGET | HAS_SOURCE },
        source: Some(Node { port_id: 2, node_id: 3 }),
        target: Some(Node { port_id: 4, node_id: 5 }),
        seq_no: 77,
        err_code: Some(9),
        payload: vec![10, 20, 30],
    };
    let s = p.serialize();
    let q = Packet::deserialize(&s).unwrap();
    assert_eq!(q.device, p.device);
    assert_eq!(q.command, p.command);
    assert_eq!(q.flags, p.flags);
    assert_eq!(q.source, p.source);
    assert_eq!(q.target, p.target);
    assert_eq!(q.seq_no, p.seq_no);
    assert_eq!(q.err_code, p.err_code);
    assert_eq!(q.payload, p.payload);
}

#[test]
fn test_marker_collision_payload() {
    // A payload holding all three reserved byte values survives the trip.
    let mut gen = SequenceGenerator::new();
    let payload = vec![SOP, EOP, ESC, 0x42];
    let p = Packet::new(Device::SomeDevice1, Command::SomeCommand1, payload.clone(), &mut gen);
    let s = p.serialize();
    let q = Packet::deserialize(&s).unwrap();
    assert_eq!(q.payload, payload);
}

#[test]
fn test_checksum_flip_detected() {
    // Flipping one bit of a body byte must fail with a checksum mismatch.
    let mut gen = SequenceGenerator::new();
    let p = Packet::new(Device::SomeDevice1, Command::SomeCommand1, vec![1, 2, 3], &mut gen);
    let mut s = p.serialize();
    s[3] ^= 0x02; // the command byte
    let r = Packet::deserialize(&s);
    assert!(matches!(r, Err(DecodeError::ChecksumMismatch { .. })));
}

#[test]
fn test_corrupted_end_marker() {
    // A corrupted end marker is a framing error, not a panic or a success.
    let mut gen = SequenceGenerator::new();
    let p = Packet::new(Device::SomeDevice1, Command::SomeCommand1, vec![1, 2, 3], &mut gen);
    let mut s = p.serialize();
    let last = s.len() - 1;
    s[last] = 0x00;
    let r = Packet::deserialize(&s);
    assert_eq!(
        r.unwrap_err(),
        DecodeError::FramingError {
            offset: last,
            found: 0x00
        }
    );
}

#[test]
fn test_missing_start_marker() {
    let r = Packet::deserialize(&[0x00, 0x00, 1, 1, 5, 250, EOP]);
    assert_eq!(
        r.unwrap_err(),
        DecodeError::FramingError {
            offset: 0,
            found: 0x00
        }
    );
}

#[test]
fn test_truncated_frame() {
    let r = Packet::deserialize(&[SOP, 0x00, 1]);
    assert_eq!(
        r.unwrap_err(),
        DecodeError::TruncatedFrame {
            length: 3,
            required: 7
        }
    );
    let r = Packet::deserialize(&[]);
    assert_eq!(
        r.unwrap_err(),
        DecodeError::TruncatedFrame {
            length: 0,
            required: 7
        }
    );
}

#[test]
fn test_malformed_escape_in_frame() {
    // Data region is a single dangling escape marker at offset 5.
    let r = Packet::deserialize(&[SOP, 0x00, 1, 1, 0, ESC, 82, EOP]);
    assert_eq!(r.unwrap_err(), DecodeError::MalformedEscape { offset: 5 });
}

#[test]
fn test_escape_expected_bytes() {
    let out = sphero::escape(&[ESC, SOP, EOP, 0x07]);
    assert_eq!(out, vec![ESC, ESC_ESC, ESC, ESC_SOP, ESC, ESC_EOP, 0x07]);
}

#[test]
fn test_unescape_inverts_escape() {
    let original: Vec<u8> = vec![0, ESC, 1, SOP, 2, EOP, 3, 0xFF];
    let escaped = sphero::escape(&original);
    let restored = sphero::unescape(&escaped).unwrap();
    assert_eq!(restored, original);
}

#[test]
fn test_unescape_rejects_bad_input() {
    assert_eq!(
        sphero::unescape(&[ESC]),
        Err(DecodeError::MalformedEscape { offset: 0 })
    );
    assert_eq!(
        sphero::unescape(&[0x01, ESC, 0x99]),
        Err(DecodeError::MalformedEscape { offset: 2 })
    );
    assert_eq!(
        sphero::unescape(&[0x01, SOP]),
        Err(DecodeError::MalformedEscape { offset: 1 })
    );
    assert_eq!(sphero::unescape(&[ESC, ESC_SOP]), Ok(vec![SOP]));
}

#[test]
fn test_checksum_values() {
    let p = Packet::deserialize(&[SOP, 0x00, 1, 1, 0, 253, EOP]).unwrap();
    assert_eq!(p.payload, Vec::<u8>::new());
    // The sum wraps modulo 256: 200 + 100 = 300 wraps to 44.
    assert_eq!(sphero::compute_checksum(&[200, 100]), 0xFF ^ 44);
    assert_eq!(sphero::compute_checksum(&[]), 0xFF);
}

#[test]
fn test_sequence_monotonicity() {
    // Constructions yield 1, 2, ... 255, 0, 1, ... : increasing modulo 256,
    // no repeats until wraparound.
    let mut gen = SequenceGenerator::new();
    for i in 1u32..=300 {
        let mut p = Packet::new(Device::SomeDevice1, Command::SomeCommand1, vec![], &mut gen);
        assert_eq!(p.seq_no, (i % 256) as u8);
        // The builder mutators touch only their own field and flag.
        p.source(Node { port_id: 1, node_id: 2 });
        p.target(Node { port_id: 3, node_id: 4 });
        assert_eq!(p.seq_no, (i % 256) as u8);
        assert_eq!(p.source, Some(Node { port_id: 1, node_id: 2 }));
        assert_eq!(p.target, Some(Node { port_id: 3, node_id: 4 }));
        assert_eq!(p.flags.bits, 0b00001010 | HAS_SOURCE | HAS_TARGET);
    }
}

#[test]
fn test_flags_operations() {
    let f = Flags::from_bits(0xFF);
    assert!(f.contains(HAS_TARGET));
    let g = Flags::from_bits(0x00);
    assert!(!g.contains(HAS_TARGET));
    assert_eq!(g.union(Flags::from_bits(0x11)).bits, 0x11);
    assert_eq!(g.insert(IS_RESPONSE).bits, 0x01);
}

#[test]
fn test_node_pack_unpack() {
    let n = Node::new(5, 9);
    assert_eq!(n.pack(), 0x59);
    assert_eq!(Node::unpack(0x59), n);
    assert_eq!(Node::unpack(0xF0), Node { port_id: 15, node_id: 0 });
}

#[test]
fn test_unknown_codes_are_invalid() {
    assert_eq!(Device::from_byte(7), Device::InvalidDevice);
    assert_eq!(Command::from_byte(9), Command::InvalidCommand);
    assert_eq!(Device::from_byte(1), Device::SomeDevice1);
    assert_eq!(Command::from_byte(1), Command::SomeCommand1);
    assert_eq!(Device::SomeDevice1.to_byte(), 1);
    assert_eq!(Command::InvalidCommand.to_byte(), 0);
}
