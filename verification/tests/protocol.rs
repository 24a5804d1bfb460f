//! Tests for the packet codec: round trips, validation order, and CRC
//! rejection.

use serialwarp::error::ProtocolError;
use serialwarp::protocol::{
    FrameAckPayload, FrameHeader, HelloPayload, Packet, PacketType, PingPayload, PongPayload,
    StartAckPayload, StartPayload, HEADER_SIZE,
};

#[test]
fn test_packet_roundtrip() {
    let payload = HelloPayload::new(1, 3840, 2160, 60, 0x03);
    let packet = Packet::new(PacketType::Hello, 0, 1, payload.to_bytes());
    let bytes = packet.to_bytes();

    let (parsed, consumed) = Packet::parse(&bytes).unwrap();
    assert_eq!(consumed, bytes.len());
    assert_eq!(parsed.header.packet_type, PacketType::Hello);
    assert_eq!(parsed.header.sequence, 1);
    assert_eq!(parsed.payload, payload.to_bytes());
}

#[test]
fn test_invalid_magic() {
    let mut bytes: Vec<u8> = Vec::new();
    bytes.extend_from_slice(&0x12345678u32.to_le_bytes()); // wrong magic
    bytes.push(1);
    bytes.push(0x01);
    bytes.extend_from_slice(&0u16.to_le_bytes());
    bytes.extend_from_slice(&0u32.to_le_bytes());
    bytes.extend_from_slice(&0u32.to_le_bytes());
    bytes.extend_from_slice(&0u32.to_le_bytes()); // CRC (wrong anyway)

    let result = Packet::parse(&bytes);
    assert!(matches!(result, Err(ProtocolError::InvalidMagic(0x12345678))));
}

#[test]
fn test_checksum_mismatch() {
    let payload = b"test".to_vec();
    let packet = Packet::new(PacketType::Ping, 0, 1, payload);
    let mut bytes = packet.to_bytes();

    // Corrupt a payload byte.
    bytes[HEADER_SIZE] ^= 0xFF;

    let result = Packet::parse(&bytes);
    assert!(matches!(result, Err(ProtocolError::ChecksumMismatch { .. })));
}

#[test]
fn test_hello_payload() {
    let payload = HelloPayload::new(1, 3840, 2160, 60, 0x03);
    assert_eq!(payload.max_fps(), 60);
    assert!(payload.supports_hidpi());
    assert!(payload.supports_audio());

    let bytes = payload.to_bytes();
    let parsed = HelloPayload::parse(&bytes).unwrap();
    assert_eq!(parsed.software_version, 1);
    assert_eq!(parsed.max_width, 3840);
    assert_eq!(parsed.max_height, 2160);
    assert_eq!(parsed.max_fps(), 60);
}

#[test]
fn test_start_payload() {
    let payload = StartPayload::new(1920, 1080, 60, 20_000_000);
    assert_eq!(payload.fps(), 60);

    let bytes = payload.to_bytes();
    let parsed = StartPayload::parse(&bytes).unwrap();
    assert_eq!(parsed.width, 1920);
    assert_eq!(parsed.height, 1080);
    assert_eq!(parsed.fps(), 60);
    assert_eq!(parsed.bitrate_bps, 20_000_000);
}

#[test]
fn test_frame_header() {
    let header = FrameHeader::new(42, 1000000, 1000100, 65536, 0, 2);
    let bytes = header.to_bytes();
    let parsed = FrameHeader::parse(&bytes).unwrap();
    assert_eq!(parsed.frame_number, 42);
    assert_eq!(parsed.pts_us, 1000000);
    assert_eq!(parsed.segment_count, 2);
}

#[test]
fn test_frame_ack_payload() {
    let payload = FrameAckPayload::new(42, 500, 2);
    let bytes = payload.to_bytes();
    let parsed = FrameAckPayload::parse(&bytes).unwrap();
    assert_eq!(parsed.frame_number, 42);
    assert_eq!(parsed.decode_time_us, 500);
    assert_eq!(parsed.credits_returned, 2);
}

#[test]
fn packet_roundtrip_every_type() {
    let cases: Vec<(PacketType, Vec<u8>)> = vec![
        (PacketType::Hello, HelloPayload::new(1, 3840, 2160, 60, 0x03).to_bytes()),
        (PacketType::HelloAck, HelloPayload::new(1, 1920, 1080, 60, 0x00).to_bytes()),
        (PacketType::Start, StartPayload::new(1920, 1080, 60, 20_000_000).to_bytes()),
        (PacketType::StartAck, StartAckPayload::ok(8).to_bytes()),
        (PacketType::Frame, FrameHeader::new(1, 2, 3, 4, 0, 1).to_bytes()),
        (PacketType::FrameAck, FrameAckPayload::new(1, 2, 3).to_bytes()),
        (PacketType::Stop, Vec::new()),
        (PacketType::StopAck, Vec::new()),
        (PacketType::Ping, PingPayload::new(123).to_bytes()),
        (PacketType::Pong, PongPayload::new(123, 456).to_bytes()),
    ];
    let mut sequence: u32 = 0;
    for (packet_type, payload) in cases {
        let packet = Packet::new(packet_type, 0, sequence, payload.clone());
        let bytes = packet.to_bytes();
        let (parsed, consumed) = Packet::parse(&bytes).unwrap();
        assert_eq!(consumed, HEADER_SIZE + payload.len() + 4);
        assert_eq!(parsed.header.packet_type, packet_type);
        assert_eq!(parsed.header.sequence, sequence);
        assert_eq!(parsed.payload, payload);
        sequence += 1;
    }
}

#[test]
fn every_bit_flip_is_rejected() {
    let packet = Packet::new(PacketType::Ping, 0, 7, vec![1, 2, 3, 4, 5, 6, 7, 8]);
    let bytes = packet.to_bytes();
    // Flip every bit of the header and payload (not the trailing CRC).
    for i in 0..bytes.len() - 4 {
        for bit in 0..8 {
            let mut corrupted = bytes.clone();
            corrupted[i] ^= 1u8 << bit;
            let r = Packet::parse(&corrupted);
            if i < 4 {
                // A flip inside the magic field fails the magic check first.
                assert!(matches!(r, Err(ProtocolError::InvalidMagic(_))));
            } else {
                assert!(r.is_err());
            }
        }
    }
}

#[test]
fn trailing_crc_matches_reference_implementation() {
    let packet = Packet::new(PacketType::Pong, 0, 3, b"reference".to_vec());
    let bytes = packet.to_bytes();
    let n = bytes.len();
    let stored = u32::from_le_bytes([bytes[n - 4], bytes[n - 3], bytes[n - 2], bytes[n - 1]]);
    assert_eq!(stored, crc32c::crc32c(&bytes[..n - 4]));
}

#[test]
fn unsupported_version_is_rejected() {
    let packet = Packet::new(PacketType::Ping, 0, 1, PingPayload::new(9).to_bytes());
    let mut bytes = packet.to_bytes();
    bytes[4] = 2; // not the protocol version
    let result = Packet::parse(&bytes);
    assert!(matches!(result, Err(ProtocolError::UnsupportedVersion(2))));
}

#[test]
fn unknown_packet_type_is_rejected() {
    let packet = Packet::new(PacketType::Ping, 0, 1, PingPayload::new(9).to_bytes());
    let mut bytes = packet.to_bytes();
    bytes[5] = 0x99; // no such packet type
    let result = Packet::parse(&bytes);
    assert!(matches!(result, Err(ProtocolError::UnknownPacketType(0x99))));

    assert!(PacketType::from_u8(0x99).is_err());
    assert_eq!(PacketType::from_u8(0x10).unwrap(), PacketType::Frame);
}

#[test]
fn short_buffer_is_rejected() {
    let result = Packet::parse(&[0x50, 0x52, 0x57]);
    assert!(matches!(
        result,
        Err(ProtocolError::BufferTooShort { needed: 16, available: 3 })
    ));

    // A header promising more payload than the buffer holds.
    let packet = Packet::new(PacketType::Ping, 0, 1, PingPayload::new(9).to_bytes());
    let bytes = packet.to_bytes();
    let result = Packet::parse(&bytes[..bytes.len() - 6]);
    assert!(matches!(result, Err(ProtocolError::BufferTooShort { .. })));
}

#[test]
fn short_payloads_are_rejected() {
    assert!(matches!(
        HelloPayload::parse(&[0u8; 10]),
        Err(ProtocolError::InvalidPayloadLength { expected: 28, actual: 10 })
    ));
    assert!(matches!(
        StartPayload::parse(&[0u8; 3]),
        Err(ProtocolError::InvalidPayloadLength { expected: 24, actual: 3 })
    ));
    assert!(matches!(
        StartAckPayload::parse(&[]),
        Err(ProtocolError::InvalidPayloadLength { expected: 4, actual: 0 })
    ));
    assert!(matches!(
        FrameAckPayload::parse(&[0u8; 15]),
        Err(ProtocolError::InvalidPayloadLength { expected: 16, actual: 15 })
    ));
    assert!(matches!(
        PingPayload::parse(&[0u8; 7]),
        Err(ProtocolError::InvalidPayloadLength { expected: 8, actual: 7 })
    ));
    assert!(matches!(
        PongPayload::parse(&[0u8; 8]),
        Err(ProtocolError::InvalidPayloadLength { expected: 16, actual: 8 })
    ));
}

#[test]
fn start_payload_rejects_zero_dimensions() {
    let zero_width = StartPayload::new(0, 1080, 60, 1_000_000).to_bytes();
    assert!(StartPayload::parse(&zero_width).is_err());

    let zero_height = StartPayload::new(1920, 0, 60, 1_000_000).to_bytes();
    assert!(StartPayload::parse(&zero_height).is_err());
}

#[test]
fn frame_header_rejects_bad_segment_fields() {
    // Zero segment count.
    let bytes = FrameHeader::new(1, 2, 3, 4, 0, 1).to_bytes();
    let mut zero_count = bytes.clone();
    zero_count[30] = 0;
    zero_count[31] = 0;
    assert!(matches!(
        FrameHeader::parse(&zero_count),
        Err(ProtocolError::FrameReassemblyError(_))
    ));

    // Segment index at the segment count.
    let mut bad_index = bytes.clone();
    bad_index[28] = 1;
    bad_index[29] = 0;
    assert!(matches!(
        FrameHeader::parse(&bad_index),
        Err(ProtocolError::FrameReassemblyError(_))
    ));
}

#[test]
fn ping_pong_roundtrip() {
    let ping = PingPayload::new(111_222_333);
    let parsed = PingPayload::parse(&ping.to_bytes()).unwrap();
    assert_eq!(parsed.timestamp_us, 111_222_333);

    let pong = PongPayload::new(111_222_333, 444_555_666);
    let parsed = PongPayload::parse(&pong.to_bytes()).unwrap();
    assert_eq!(parsed.ping_timestamp_us, 111_222_333);
    assert_eq!(parsed.pong_timestamp_us, 444_555_666);
}

#[test]
fn start_ack_roundtrip() {
    let ack = StartAckPayload::ok(8);
    assert!(ack.is_ok());
    let parsed = StartAckPayload::parse(&ack.to_bytes()).unwrap();
    assert_eq!(parsed.status, 0);
    assert_eq!(parsed.initial_credits, 8);

    let failed = StartAckPayload::new(5, 0);
    assert!(!failed.is_ok());
}
