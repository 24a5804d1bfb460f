//! End-to-end scenarios driving the two peer state machines against each
//! other through serialized packets, as the applications do over the wire.

use serialwarp::error::ProtocolError;
use serialwarp::frame::{EncodedFrame, FrameMetadata};
use serialwarp::protocol::{FrameAckPayload, Packet, PacketType, PingPayload, PongPayload};
use serialwarp::sink::{Sink, SinkAction, SinkConfig, SinkState};
use serialwarp::source::{Source, SourceAction, SourceConfig, SourceState};

fn reparse(packet: &Packet) -> Packet {
    let bytes = packet.to_bytes();
    let (parsed, consumed) = Packet::parse(&bytes).expect("packet should parse");
    assert_eq!(consumed, bytes.len());
    parsed
}

fn sent(action: SinkAction) -> Packet {
    match action {
        SinkAction::Send(p) => p,
        other => panic!("expected a packet to send, got {:?}", other),
    }
}

fn source_sent(action: SourceAction) -> Packet {
    match action {
        SourceAction::Send(p) => p,
        other => panic!("expected a packet to send, got {:?}", other),
    }
}

/// Run the four-packet handshake and leave both peers streaming.
fn handshake(initial_credits: u16) -> (Source, Sink) {
    let mut source = Source::new(SourceConfig {
        width: 3840,
        height: 2160,
        fps: 60,
        bitrate_bps: 20_000_000,
        hidpi: true,
    });
    let mut sink = Sink::new(SinkConfig {
        max_width: 1920,
        max_height: 1080,
        initial_credits,
    });
    sink.transport_opened();

    let hello = source.start();
    assert_eq!(hello.packet_type(), PacketType::Hello);

    let hello_ack = sent(sink.on_packet(&reparse(&hello), 0));
    assert_eq!(hello_ack.packet_type(), PacketType::HelloAck);

    let start = source_sent(source.on_packet(&reparse(&hello_ack), 0));
    assert_eq!(start.packet_type(), PacketType::Start);

    let start_ack = sent(sink.on_packet(&reparse(&start), 0));
    assert_eq!(start_ack.packet_type(), PacketType::StartAck);

    let action = source.on_packet(&reparse(&start_ack), 0);
    assert!(matches!(action, SourceAction::Ignore));

    (source, sink)
}

#[test]
fn minimal_handshake_reaches_streaming() {
    let (source, sink) = handshake(8);
    assert_eq!(source.state, SourceState::Streaming);
    assert_eq!(sink.state, SinkState::Streaming);
    assert_eq!(source.credits, 8);

    // The source asked for the negotiated minima of both peers.
    let params = sink.negotiated.unwrap();
    assert_eq!(params.width, 1920);
    assert_eq!(params.height, 1080);
    assert_eq!(params.fps, 60);
    assert_eq!(params.bitrate_bps, 20_000_000);
}

#[test]
fn single_segment_frame_returns_credit() {
    let (mut source, mut sink) = handshake(8);

    let frame = EncodedFrame::new(FrameMetadata::new(1, 16667, 16667, false), vec![0xAB; 1000]);
    let packets = source.send_frame(frame).expect("credits are available");
    assert_eq!(packets.len(), 1);
    assert_eq!(source.credits, 7);

    let action = sink.on_packet(&reparse(&packets[0]), 0);
    let complete = match action {
        SinkAction::FrameComplete(f) => f,
        other => panic!("expected a completed frame, got {:?}", other),
    };
    assert_eq!(complete.metadata.frame_number, 1);
    assert_eq!(complete.metadata.pts_us, 16667);
    assert_eq!(complete.data, vec![0xAB; 1000]);

    let ack = sink.on_frame_decoded(1, 420);
    assert_eq!(ack.packet_type(), PacketType::FrameAck);
    let payload = FrameAckPayload::parse(&ack.payload).unwrap();
    assert_eq!(payload.frame_number, 1);
    assert_eq!(payload.credits_returned, 1);

    let action = source.on_packet(&reparse(&ack), 0);
    assert!(matches!(action, SourceAction::Ignore));
    assert_eq!(source.credits, 8);
}

#[test]
fn multi_segment_frame_reassembles() {
    let (mut source, mut sink) = handshake(8);

    let mut data: Vec<u8> = Vec::with_capacity(200_000);
    for i in 0..200_000usize {
        data.push((i % 256) as u8);
    }
    let frame = EncodedFrame::new(FrameMetadata::new(1, 16667, 16667, false), data.clone());
    let packets = source.send_frame(frame).expect("credits are available");
    assert_eq!(packets.len(), 4);

    // 32-byte frame header plus the segment bytes in each FRAME payload.
    assert_eq!(packets[0].payload.len(), 32 + 65536);
    assert_eq!(packets[1].payload.len(), 32 + 65536);
    assert_eq!(packets[2].payload.len(), 32 + 65536);
    assert_eq!(packets[3].payload.len(), 32 + 3392);

    let mut completed = None;
    for packet in &packets {
        match sink.on_packet(&reparse(packet), 0) {
            SinkAction::FrameComplete(f) => {
                assert!(completed.is_none());
                completed = Some(f);
            }
            SinkAction::Ignore => {}
            other => panic!("unexpected action {:?}", other),
        }
    }
    let completed = completed.expect("the last segment completes the frame");
    assert_eq!(completed.data.len(), 200_000);
    assert_eq!(completed.data, data);
}

#[test]
fn dropped_partial_frame_is_counted() {
    let (mut source, mut sink) = handshake(8);

    let frame5 = EncodedFrame::new(FrameMetadata::new(5, 100, 100, false), vec![5u8; 200_000]);
    let packets5 = source.send_frame(frame5).unwrap();
    assert_eq!(packets5.len(), 4);

    // Only the first two segments of frame 5 arrive.
    for packet in &packets5[..2] {
        assert!(matches!(sink.on_packet(&reparse(packet), 0), SinkAction::Ignore));
    }
    assert_eq!(sink.frames_dropped, 0);

    // All segments of frame 6 arrive.
    let data6 = vec![6u8; 100_000];
    let frame6 = EncodedFrame::new(FrameMetadata::new(6, 200, 200, false), data6.clone());
    let packets6 = source.send_frame(frame6).unwrap();
    let mut completed = None;
    for packet in &packets6 {
        if let SinkAction::FrameComplete(f) = sink.on_packet(&reparse(packet), 0) {
            completed = Some(f);
        }
    }

    let completed = completed.expect("frame 6 completes");
    assert_eq!(completed.metadata.frame_number, 6);
    assert_eq!(completed.data, data6);
    assert_eq!(sink.frames_dropped, 1);
}

#[test]
fn corrupted_packet_is_dropped_and_stream_continues() {
    let (mut source, mut sink) = handshake(8);

    let frame = EncodedFrame::new(FrameMetadata::new(1, 10, 10, false), vec![0x55; 1000]);
    let packets = source.send_frame(frame).unwrap();
    let bytes = packets[0].to_bytes();

    // The last payload byte, just before the four CRC bytes, is flipped.
    let mut corrupted = bytes.clone();
    let n = corrupted.len();
    corrupted[n - 5] ^= 0xFF;
    assert!(matches!(
        Packet::parse(&corrupted),
        Err(ProtocolError::ChecksumMismatch { .. })
    ));
    // The corrupt packet never reaches the state machine: no state change.
    assert_eq!(sink.segments_received, 0);

    // The next (intact) packet processes normally.
    let (packet, _) = Packet::parse(&bytes).unwrap();
    let action = sink.on_packet(&packet, 0);
    assert!(matches!(action, SinkAction::FrameComplete(_)));
    assert_eq!(sink.frames_completed, 1);
}

#[test]
fn credit_exhaustion_stalls_the_source() {
    let (mut source, mut sink) = handshake(2);
    assert_eq!(source.credits, 2);

    // The sink withholds all FRAME_ACKs: exactly two frames go out.
    for n in 0..2u64 {
        let frame = EncodedFrame::new(FrameMetadata::new(n, 0, 0, false), vec![0u8; 100]);
        assert!(source.send_frame(frame).is_some());
    }
    assert_eq!(source.credits, 0);
    assert_eq!(source.frames_sent, 2);

    let stalled = EncodedFrame::new(FrameMetadata::new(2, 0, 0, false), vec![0u8; 100]);
    assert!(source.send_frame(stalled).is_none());
    assert_eq!(source.frames_sent, 2);

    // One FRAME_ACK with a single credit lets exactly one more frame out.
    let ack = sink.on_frame_decoded(0, 100);
    source.on_packet(&reparse(&ack), 0);
    assert_eq!(source.credits, 1);

    let frame = EncodedFrame::new(FrameMetadata::new(2, 0, 0, false), vec![0u8; 100]);
    assert!(source.send_frame(frame).is_some());
    assert_eq!(source.credits, 0);
    assert_eq!(source.frames_sent, 3);

    let stalled = EncodedFrame::new(FrameMetadata::new(3, 0, 0, false), vec![0u8; 100]);
    assert!(source.send_frame(stalled).is_none());
}

#[test]
fn source_handshake_fails_fast_on_unexpected_packet() {
    let mut source = Source::new(SourceConfig {
        width: 1920,
        height: 1080,
        fps: 60,
        bitrate_bps: 20_000_000,
        hidpi: false,
    });
    let _hello = source.start();
    assert_eq!(source.state, SourceState::HelloSent);

    // Anything but HELLO_ACK closes the session within this one packet.
    let ping = Packet::new(PacketType::Ping, 0, 0, PingPayload::new(1).to_bytes());
    let action = source.on_packet(&reparse(&ping), 0);
    assert!(matches!(
        action,
        SourceAction::Fatal(ProtocolError::HandshakeFailed(_))
    ));
    assert_eq!(source.state, SourceState::Closed);
}

#[test]
fn sink_handshake_fails_fast_on_unexpected_packet() {
    let mut sink = Sink::new(SinkConfig {
        max_width: 1920,
        max_height: 1080,
        initial_credits: 8,
    });
    sink.transport_opened();

    let ping = Packet::new(PacketType::Ping, 0, 0, PingPayload::new(1).to_bytes());
    let action = sink.on_packet(&reparse(&ping), 0);
    assert!(matches!(
        action,
        SinkAction::Fatal(ProtocolError::HandshakeFailed(_))
    ));
    assert_eq!(sink.state, SinkState::Closed);
}

#[test]
fn credits_saturate_at_the_counter_maximum() {
    let (mut source, _sink) = handshake(65530);
    assert_eq!(source.credits, 65530);

    let ack = Packet::new(
        PacketType::FrameAck,
        0,
        0,
        FrameAckPayload::new(1, 0, 10).to_bytes(),
    );
    source.on_packet(&reparse(&ack), 0);
    assert_eq!(source.credits, 65535);

    let frame = EncodedFrame::new(FrameMetadata::new(1, 0, 0, false), vec![0u8; 10]);
    assert!(source.send_frame(frame).is_some());
    assert_eq!(source.credits, 65534);
}

#[test]
fn ping_is_answered_with_pong() {
    let (mut source, mut sink) = handshake(8);

    let ping = Packet::new(PacketType::Ping, 0, 0, PingPayload::new(12345).to_bytes());
    let pong = sent(sink.on_packet(&reparse(&ping), 99999));
    assert_eq!(pong.packet_type(), PacketType::Pong);
    let payload = PongPayload::parse(&pong.payload).unwrap();
    assert_eq!(payload.ping_timestamp_us, 12345);
    assert_eq!(payload.pong_timestamp_us, 99999);

    // The source answers pings on its control channel the same way.
    let pong = source_sent(source.on_packet(&reparse(&ping), 77777));
    let payload = PongPayload::parse(&pong.payload).unwrap();
    assert_eq!(payload.ping_timestamp_us, 12345);
    assert_eq!(payload.pong_timestamp_us, 77777);
}

#[test]
fn stop_is_acknowledged_and_closes_both_peers() {
    let (mut source, mut sink) = handshake(8);

    let stop = source.request_stop();
    assert_eq!(stop.packet_type(), PacketType::Stop);
    assert_eq!(source.state, SourceState::Stopping);

    let stop_ack = sent(sink.on_packet(&reparse(&stop), 0));
    assert_eq!(stop_ack.packet_type(), PacketType::StopAck);
    assert_eq!(sink.state, SinkState::Closed);

    source.on_packet(&reparse(&stop_ack), 0);
    assert_eq!(source.state, SourceState::Closed);
}

#[test]
fn display_frame_numbers_increase() {
    let (_source, mut sink) = handshake(8);
    assert_eq!(sink.next_display_number(), 0);
    assert_eq!(sink.next_display_number(), 1);
    assert_eq!(sink.next_display_number(), 2);
}

#[test]
fn frame_numbers_seen_by_sink_are_nondecreasing() {
    let (mut source, mut sink) = handshake(8);

    let mut seen: Vec<u64> = Vec::new();
    for n in [1u64, 3, 3, 7] {
        let frame = EncodedFrame::new(FrameMetadata::new(n, 0, 0, false), vec![0u8; 100]);
        let packets = source.send_frame(frame).unwrap();
        for packet in &packets {
            if let SinkAction::FrameComplete(f) = sink.on_packet(&reparse(packet), 0) {
                seen.push(f.metadata.frame_number);
            }
        }
        let ack = sink.on_frame_decoded(n, 0);
        source.on_packet(&reparse(&ack), 0);
    }
    let mut sorted = seen.clone();
    sorted.sort();
    assert_eq!(seen, sorted);
    assert_eq!(seen.len(), 4);
}
