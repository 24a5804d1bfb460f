//! The sink (consumer) peer: handshake answering, segment reassembly, and
//! credit granting, driven as a pure state machine by received packets.
//!
//! Callers perform the I/O: every received packet goes to `on_packet`, the
//! returned actions say what to send back, and a completed frame is handed
//! out for decoding; `on_frame_decoded` then builds the FRAME_ACK.

use vstd::prelude::*;

use crate::error::ProtocolError;
use crate::frame::{spec_add, EncodedFrame, FrameReassembler};
use crate::protocol::FrameHeader;
use crate::protocol::{
    spec_hello_bytes, spec_parse_frame_header, spec_parse_ping,
    spec_parse_start, spec_pong_bytes, spec_start_ack_bytes, spec_frame_ack_bytes,
    FrameAckPayload, HelloPayload, Packet, PacketType, PingPayload, PongPayload, StartAckPayload,
    StartPayload, PROTOCOL_VERSION,
};
use crate::source::{sat_inc_u64, spec_sat_inc_u64, spec_wrap_inc, wrap_inc};

verus! {

/// The sink's session states.
#[derive(Debug, Clone, Copy, PartialEq, Eq, Structural)]
pub enum SinkState {
    Idle,
    Waiting,
    Connected,
    Streaming,
    Stopping,
    Closed,
}

/// What the sink advertises and grants: its maximum resolution and the
/// initial credit budget.
#[derive(Debug, Clone, Copy, PartialEq, Eq, Structural)]
pub struct SinkConfig {
    pub max_width: u32,
    pub max_height: u32,
    pub initial_credits: u16,
}

/// Negotiated stream parameters taken from the START packet.
#[derive(Debug, Clone, Copy, PartialEq, Eq, Structural)]
pub struct NegotiatedParams {
    pub width: u32,
    pub height: u32,
    pub fps: u32,
    pub bitrate_bps: u32,
}

impl Default for NegotiatedParams {
    fn default() -> (r: Self)
        ensures
            r == (NegotiatedParams { width: 0, height: 0, fps: 0, bitrate_bps: 0 }),
    {
        Self { width: 0, height: 0, fps: 0, bitrate_bps: 0 }
    }
}

/// What the sink asks its caller to do after handling a packet.
#[derive(Debug)]
pub enum SinkAction {
    /// Nothing to do.
    Ignore,
    /// Send this packet to the peer.
    Send(Packet),
    /// A frame finished reassembly: decode and render it, then call
    /// `on_frame_decoded`.
    FrameComplete(EncodedFrame),
    /// The session is fatally broken; stop driving it.
    Fatal(ProtocolError),
}

/// The sink peer's state machine.
#[derive(Debug)]
pub struct Sink {
    pub state: SinkState,
    pub config: SinkConfig,
    /// Sequence number of the next packet this sink sends.
    pub sequence: u32,
    /// The single-slot segment reassembler.
    pub reassembler: FrameReassembler,
    /// Stream parameters taken from START, once it arrived.
    pub negotiated: Option<NegotiatedParams>,
    /// The next display frame number to assign; strictly increasing.
    pub next_display_frame: u64,
    pub segments_received: u64,
    pub frames_completed: u64,
    pub frames_dropped: u64,
}

impl Sink {
    /// The sink's internal invariant: its reassembler is well formed.
    pub open spec fn wf(self) -> bool {
        self.reassembler.wf()
    }

    /// A fresh sink, before the transport is open.
    pub fn new(config: SinkConfig) -> (r: Self)
        ensures
            r.state is Idle,
            r.config == config,
            r.sequence == 0,
            r.reassembler@ is None,
            r.negotiated is None,
            r.next_display_frame == 0,
            r.segments_received == 0,
            r.frames_completed == 0,
            r.frames_dropped == 0,
            r.wf(),
    {
        Self {
            state: SinkState::Idle,
            config,
            sequence: 0,
            reassembler: FrameReassembler::new(),
            negotiated: None,
            next_display_frame: 0,
            segments_received: 0,
            frames_completed: 0,
            frames_dropped: 0,
        }
    }

    /// The transport is open: wait for the peer's HELLO.
    pub fn transport_opened(&mut self)
        requires
            old(self).state is Idle,
        ensures
            *final(self) == (Sink { state: SinkState::Waiting, ..*old(self) }),
    {
        self.state = SinkState::Waiting;
    }

    /// Handle one received packet.
    ///
    /// HELLO is answered with HELLO_ACK, START with START_ACK granting the
    /// configured credits; any other packet during the handshake closes the
    /// session. While streaming, FRAME segments feed the reassembler (a
    /// malformed FRAME is dropped and the stream continues), STOP is
    /// answered with STOP_ACK and closes, PING with PONG carrying `now_us`.
    pub fn on_packet(&mut self, packet: &Packet, now_us: u64) -> (r: SinkAction)
        requires
            old(self).wf(),
        ensures
            final(self).wf(),
            final(self).config == old(self).config,
            // Handshake fail-fast.
            old(self).state is Waiting && !(packet.header.packet_type is Hello)
                ==> final(self).state is Closed && r is Fatal,
            old(self).state is Connected && !(packet.header.packet_type is Start)
                ==> final(self).state is Closed && r is Fatal,
            old(self).state is Waiting && packet.header.packet_type is Hello ==> ({
                if packet.payload@.len() >= 28 {
                    &&& *final(self) == (Sink {
                        state: SinkState::Connected,
                        sequence: spec_wrap_inc(old(self).sequence),
                        ..*old(self)
                    })
                    &&& r matches SinkAction::Send(p2) && p2.wf()
                        && p2.header.packet_type is HelloAck && p2.header.flags == 0
                        && p2.header.sequence == old(self).sequence
                        && p2.payload@ == spec_hello_bytes(HelloPayload {
                        software_version: 1,
                        min_protocol_version: PROTOCOL_VERSION as u16,
                        max_protocol_version: PROTOCOL_VERSION as u16,
                        reserved1: 0,
                        max_width: old(self).config.max_width,
                        max_height: old(self).config.max_height,
                        max_fps_fixed: 60u32 << 16,
                        capabilities: 3,
                        reserved2: 0,
                    })
                } else {
                    final(self).state is Closed && r is Fatal
                }
            }),
            old(self).state is Connected && packet.header.packet_type is Start ==> ({
                let start = spec_parse_start(packet.payload@);
                if packet.payload@.len() >= 24 && start.width != 0 && start.height != 0 {
                    &&& *final(self) == (Sink {
                        state: SinkState::Streaming,
                        sequence: spec_wrap_inc(old(self).sequence),
                        negotiated: Some(NegotiatedParams {
                            width: start.width,
                            height: start.height,
                            fps: start.fps_fixed >> 16,
                            bitrate_bps: start.bitrate_bps,
                        }),
                        ..*old(self)
                    })
                    &&& r matches SinkAction::Send(p2) && p2.wf()
                        && p2.header.packet_type is StartAck && p2.header.flags == 0
                        && p2.header.sequence == old(self).sequence
                        && p2.payload@ == spec_start_ack_bytes(StartAckPayload {
                        status: 0,
                        reserved: 0,
                        initial_credits: old(self).config.initial_credits,
                    })
                } else {
                    final(self).state is Closed && r is Fatal
                }
            }),
            old(self).state is Streaming && packet.header.packet_type is Frame ==> ({
                let h = spec_parse_frame_header(packet.payload@);
                if packet.payload@.len() >= 32 && h.valid() {
                    let seg_bytes = packet.payload@.skip(32);
                    let stepped = spec_add(old(self).reassembler@, h, seg_bytes);
                    &&& final(self).state is Streaming
                    &&& final(self).sequence == old(self).sequence
                    &&& final(self).negotiated == old(self).negotiated
                    &&& final(self).next_display_frame == old(self).next_display_frame
                    &&& final(self).reassembler@ == stepped.0
                    &&& final(self).segments_received == spec_sat_inc_u64(
                        old(self).segments_received,
                    )
                    // An arriving segment for a different frame abandons the
                    // pending partial frame, and that is counted as dropped.
                    &&& final(self).frames_dropped == if old(self).reassembler@ matches Some(p)
                        && p.frame_number != h.frame_number {
                        spec_sat_inc_u64(old(self).frames_dropped)
                    } else {
                        old(self).frames_dropped
                    }
                    &&& match stepped.1 {
                        Some(e) => r matches SinkAction::FrameComplete(f) && f.metadata == e.0
                            && f.data@ == e.1 && final(self).frames_completed == spec_sat_inc_u64(
                            old(self).frames_completed,
                        ),
                        None => r is Ignore && final(self).frames_completed == old(
                            self,
                        ).frames_completed,
                    }
                } else {
                    // A malformed FRAME never poisons the stream: it is
                    // dropped and everything else stays as it was.
                    *final(self) == *old(self) && r is Ignore
                }
            }),
            old(self).state is Streaming && packet.header.packet_type is Stop ==> ({
                &&& *final(self) == (Sink {
                    state: SinkState::Closed,
                    sequence: spec_wrap_inc(old(self).sequence),
                    ..*old(self)
                })
                &&& r matches SinkAction::Send(p2) && p2.wf() && p2.header.packet_type is StopAck
                    && p2.header.flags == 0 && p2.header.sequence == old(self).sequence
                    && p2.payload@ == Seq::<u8>::empty()
            }),
            old(self).state is Streaming && packet.header.packet_type is Ping ==> ({
                if packet.payload@.len() >= 8 {
                    &&& *final(self) == (Sink {
                        sequence: spec_wrap_inc(old(self).sequence),
                        ..*old(self)
                    })
                    &&& r matches SinkAction::Send(p2) && p2.wf() && p2.header.packet_type is Pong
                        && p2.header.flags == 0 && p2.header.sequence == old(self).sequence
                        && p2.payload@ == spec_pong_bytes(PongPayload {
                        ping_timestamp_us: spec_parse_ping(packet.payload@).timestamp_us,
                        pong_timestamp_us: now_us,
                    })
                } else {
                    *final(self) == *old(self) && r is Ignore
                }
            }),
            old(self).state is Streaming && !(packet.header.packet_type is Frame
                || packet.header.packet_type is Stop || packet.header.packet_type is Ping)
                ==> *final(self) == *old(self) && r is Ignore,
            old(self).state is Stopping ==> ({
                if packet.header.packet_type is StopAck {
                    *final(self) == (Sink { state: SinkState::Closed, ..*old(self) })
                        && r is Ignore
                } else {
                    *final(self) == *old(self) && r is Ignore
                }
            }),
            old(self).state is Idle || old(self).state is Closed ==> *final(self) == *old(self)
                && r is Ignore,
    {
        match self.state {
            SinkState::Waiting => {
                if !matches!(packet.header.packet_type, PacketType::Hello) {
                    self.state = SinkState::Closed;
                    return SinkAction::Fatal(ProtocolError::HandshakeFailed(
                        "expected HELLO".to_owned(),
                    ));
                }
                match HelloPayload::parse(packet.payload.as_slice()) {
                    Ok(_) => {
                        let ack = HelloPayload::new(
                            1,
                            self.config.max_width,
                            self.config.max_height,
                            60,
                            3,
                        );
                        let p2 = Packet::new(PacketType::HelloAck, 0, self.sequence, ack.to_bytes());
                        self.sequence = wrap_inc(self.sequence);
                        self.state = SinkState::Connected;
                        SinkAction::Send(p2)
                    }
                    Err(_) => {
                        self.state = SinkState::Closed;
                        SinkAction::Fatal(ProtocolError::HandshakeFailed(
                            "malformed HELLO".to_owned(),
                        ))
                    }
                }
            }
            SinkState::Connected => {
                if !matches!(packet.header.packet_type, PacketType::Start) {
                    self.state = SinkState::Closed;
                    return SinkAction::Fatal(ProtocolError::HandshakeFailed(
                        "expected START".to_owned(),
                    ));
                }
                match StartPayload::parse(packet.payload.as_slice()) {
                    Ok(start) => {
                        self.negotiated = Some(NegotiatedParams {
                            width: start.width,
                            height: start.height,
                            fps: start.fps(),
                            bitrate_bps: start.bitrate_bps,
                        });
                        let ack = StartAckPayload::ok(self.config.initial_credits);
                        let p2 = Packet::new(PacketType::StartAck, 0, self.sequence, ack.to_bytes());
                        self.sequence = wrap_inc(self.sequence);
                        self.state = SinkState::Streaming;
                        SinkAction::Send(p2)
                    }
                    Err(_) => {
                        self.state = SinkState::Closed;
                        SinkAction::Fatal(ProtocolError::HandshakeFailed(
                            "malformed START".to_owned(),
                        ))
                    }
                }
            }
            SinkState::Streaming => {
                match packet.header.packet_type {
                    PacketType::Frame => {
                        match FrameHeader::parse(packet.payload.as_slice()) {
                            Ok(header) => {
                                let discards: bool = match self.reassembler.pending_frame_number() {
                                    Some(f) => f != header.frame_number,
                                    None => false,
                                };
                                if discards {
                                    self.frames_dropped = sat_inc_u64(self.frames_dropped);
                                }
                                self.segments_received = sat_inc_u64(self.segments_received);
                                let seg_bytes = crate::wire::copy_range(
                                    packet.payload.as_slice(),
                                    FrameHeader::SIZE,
                                    packet.payload.len(),
                                );
                                match self.reassembler.add_segment(&header, seg_bytes) {
                                    Some(f) => {
                                        self.frames_completed = sat_inc_u64(self.frames_completed);
                                        SinkAction::FrameComplete(f)
                                    }
                                    None => SinkAction::Ignore,
                                }
                            }
                            Err(_) => SinkAction::Ignore,
                        }
                    }
                    PacketType::Stop => {
                        let p2 = Packet::new(PacketType::StopAck, 0, self.sequence, Vec::new());
                        self.sequence = wrap_inc(self.sequence);
                        self.state = SinkState::Closed;
                        proof {
                            assert(p2.payload@ =~= Seq::<u8>::empty());
                        }
                        SinkAction::Send(p2)
                    }
                    PacketType::Ping => {
                        match PingPayload::parse(packet.payload.as_slice()) {
                            Ok(ping) => {
                                let pong = PongPayload::new(ping.timestamp_us, now_us);
                                let p2 = Packet::new(
                                    PacketType::Pong,
                                    0,
                                    self.sequence,
                                    pong.to_bytes(),
                                );
                                self.sequence = wrap_inc(self.sequence);
                                SinkAction::Send(p2)
                            }
                            Err(_) => SinkAction::Ignore,
                        }
                    }
                    _ => SinkAction::Ignore,
                }
            }
            SinkState::Stopping => {
                if matches!(packet.header.packet_type, PacketType::StopAck) {
                    self.state = SinkState::Closed;
                }
                SinkAction::Ignore
            }
            SinkState::Idle => SinkAction::Ignore,
            SinkState::Closed => SinkAction::Ignore,
        }
    }

    /// A completed frame was decoded: build the FRAME_ACK returning one
    /// credit and reporting the decode time.
    pub fn on_frame_decoded(&mut self, frame_number: u64, decode_time_us: u32) -> (r: Packet)
        ensures
            *final(self) == (Sink {
                sequence: spec_wrap_inc(old(self).sequence),
                ..*old(self)
            }),
            r.wf(),
            r.header.packet_type is FrameAck,
            r.header.flags == 0,
            r.header.sequence == old(self).sequence,
            r.payload@ == spec_frame_ack_bytes(FrameAckPayload {
                frame_number,
                decode_time_us,
                credits_returned: 1,
                reserved: 0,
            }),
    {
        let ack = FrameAckPayload::new(frame_number, decode_time_us, 1);
        let packet = Packet::new(PacketType::FrameAck, 0, self.sequence, ack.to_bytes());
        self.sequence = wrap_inc(self.sequence);
        packet
    }

    /// Assign the next display frame number; these are strictly increasing
    /// over the session.
    pub fn next_display_number(&mut self) -> (r: u64)
        ensures
            r == old(self).next_display_frame,
            *final(self) == (Sink {
                next_display_frame: spec_sat_inc_u64(old(self).next_display_frame),
                ..*old(self)
            }),
    {
        let r = self.next_display_frame;
        self.next_display_frame = sat_inc_u64(self.next_display_frame);
        r
    }

    /// Ask the peer to stop: build the STOP packet and enter Stopping.
    pub fn request_stop(&mut self) -> (r: Packet)
        ensures
            *final(self) == (Sink {
                state: SinkState::Stopping,
                sequence: spec_wrap_inc(old(self).sequence),
                ..*old(self)
            }),
            r.wf(),
            r.header.packet_type is Stop,
            r.header.flags == 0,
            r.header.sequence == old(self).sequence,
            r.payload@ == Seq::<u8>::empty(),
    {
        let packet = Packet::new(PacketType::Stop, 0, self.sequence, Vec::new());
        self.sequence = wrap_inc(self.sequence);
        self.state = SinkState::Stopping;
        proof {
            assert(packet.payload@ =~= Seq::<u8>::empty());
        }
        packet
    }

    /// Close the session, as on a fatal transport error.
    pub fn close(&mut self)
        ensures
            *final(self) == (Sink { state: SinkState::Closed, ..*old(self) }),
    {
        self.state = SinkState::Closed;
    }
}

/// Connection status of the display-side application, as shown in its user
/// interface.
#[derive(Debug, Clone, PartialEq, Eq, Structural)]
pub enum ConnectionStatus {
    Disconnected,
    Waiting,
    Connecting,
    Connected,
    Receiving,
    Error,
}

/// Display-side application settings.
#[derive(Debug, Clone, Copy, PartialEq, Eq, Structural)]
pub struct AppSettings {
    pub auto_fullscreen: bool,
    pub vsync: bool,
    pub max_width: u32,
    pub max_height: u32,
    pub max_credits: u16,
}

impl Default for AppSettings {
    fn default() -> (r: Self)
        ensures
            r == (AppSettings {
                auto_fullscreen: false,
                vsync: true,
                max_width: 1920,
                max_height: 1080,
                max_credits: 4,
            }),
    {
        Self { auto_fullscreen: false, vsync: true, max_width: 1920, max_height: 1080, max_credits: 4 }
    }
}

} // verus!
