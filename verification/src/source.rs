//! The source (producer) peer: handshake, credit-paced frame sending, and
//! the session state machine driven by received packets.
//!
//! The state machine is pure: callers perform the I/O, hand every received
//! packet to `on_packet`, and send whatever packets the actions carry.

use vstd::prelude::*;

use crate::error::ProtocolError;
use crate::frame::{
    is_segment_of, seg_header, spec_seg_count, spec_seg_data, EncodedFrame, MAX_FRAME_DATA,
};
use crate::protocol::{
    spec_hello_bytes, spec_parse_frame_ack, spec_parse_hello, spec_parse_ping,
    spec_parse_start_ack, spec_pong_bytes, spec_start_bytes, FrameAckPayload, HelloPayload,
    Packet, PacketType, PingPayload, PongPayload, StartAckPayload, StartPayload, PROTOCOL_VERSION,
};
use crate::usb::UsbDeviceInfo;

verus! {

/// The source's session states.
#[derive(Debug, Clone, Copy, PartialEq, Eq, Structural)]
pub enum SourceState {
    Idle,
    HelloSent,
    StartSent,
    Streaming,
    Stopping,
    Closed,
}

/// The stream the source offers: its local maxima and chosen bitrate.
#[derive(Debug, Clone, Copy, PartialEq, Eq, Structural)]
pub struct SourceConfig {
    pub width: u32,
    pub height: u32,
    pub fps: u32,
    pub bitrate_bps: u32,
    pub hidpi: bool,
}

/// What the source asks its caller to do after handling a packet.
#[derive(Debug)]
pub enum SourceAction {
    /// Nothing to do.
    Ignore,
    /// Send this packet to the peer.
    Send(Packet),
    /// The session is fatally broken; stop driving it.
    Fatal(ProtocolError),
}

/// The next sequence number: one more, wrapping at 2^32.
pub open spec fn spec_wrap_inc(s: u32) -> u32 {
    if s == u32::MAX {
        0
    } else {
        (s + 1) as u32
    }
}

/// The sequence number k steps later, wrapping at 2^32.
pub open spec fn spec_wrap_add(s: u32, k: int) -> u32
    decreases k,
{
    if k <= 0 {
        s
    } else {
        spec_wrap_inc(spec_wrap_add(s, k - 1))
    }
}

/// Credit addition, saturating at 2^16 - 1.
pub open spec fn spec_sat_add_u16(a: u16, b: u16) -> u16 {
    if a + b > 65535 {
        65535u16
    } else {
        (a + b) as u16
    }
}

/// Counter increment, saturating at 2^64 - 1.
pub open spec fn spec_sat_inc_u64(a: u64) -> u64 {
    if a == u64::MAX {
        a
    } else {
        (a + 1) as u64
    }
}

/// The smaller of two values, as used in capability negotiation.
pub open spec fn spec_min_u32(a: u32, b: u32) -> u32 {
    if a <= b {
        a
    } else {
        b
    }
}

pub(crate) fn wrap_inc(s: u32) -> (r: u32)
    ensures
        r == spec_wrap_inc(s),
{
    if s == u32::MAX {
        0
    } else {
        s + 1
    }
}

fn sat_add_u16(a: u16, b: u16) -> (r: u16)
    ensures
        r == spec_sat_add_u16(a, b),
{
    let sum: u32 = (a as u32) + (b as u32);
    if sum > 65535 {
        65535
    } else {
        sum as u16
    }
}

pub(crate) fn sat_inc_u64(a: u64) -> (r: u64)
    ensures
        r == spec_sat_inc_u64(a),
{
    if a == u64::MAX {
        a
    } else {
        a + 1
    }
}

/// The source peer's state machine.
#[derive(Debug, Clone, Copy, PartialEq, Eq, Structural)]
pub struct Source {
    pub state: SourceState,
    pub config: SourceConfig,
    /// Sequence number of the next packet this source sends.
    pub sequence: u32,
    /// Authoritative flow-control credit counter.
    pub credits: u16,
    /// Negotiated stream width; the local maximum until HELLO_ACK arrives.
    pub width: u32,
    /// Negotiated stream height.
    pub height: u32,
    /// Negotiated whole frames per second.
    pub fps: u32,
    /// Frame number of the last frame sent; the FRAME stream is
    /// non-decreasing in frame number.
    pub last_frame_number: u64,
    pub frames_sent: u64,
    pub frames_dropped: u64,
}

impl Source {
    /// A fresh source in the idle state, before any packet is sent.
    pub fn new(config: SourceConfig) -> (r: Self)
        ensures
            r == (Source {
                state: SourceState::Idle,
                config,
                sequence: 0,
                credits: 0,
                width: config.width,
                height: config.height,
                fps: config.fps,
                last_frame_number: 0,
                frames_sent: 0,
                frames_dropped: 0,
            }),
    {
        Self {
            state: SourceState::Idle,
            config,
            sequence: 0,
            credits: 0,
            width: config.width,
            height: config.height,
            fps: config.fps,
            last_frame_number: 0,
            frames_sent: 0,
            frames_dropped: 0,
        }
    }

    /// Open the session: build the HELLO packet advertising the local
    /// maxima and capability bits, and enter HelloSent.
    pub fn start(&mut self) -> (r: Packet)
        requires
            old(self).state is Idle,
        ensures
            *final(self) == (Source {
                state: SourceState::HelloSent,
                sequence: spec_wrap_inc(old(self).sequence),
                ..*old(self)
            }),
            r.wf(),
            r.header.packet_type is Hello,
            r.header.flags == 0,
            r.header.sequence == old(self).sequence,
            r.payload@ == spec_hello_bytes(HelloPayload {
                software_version: 1,
                min_protocol_version: PROTOCOL_VERSION as u16,
                max_protocol_version: PROTOCOL_VERSION as u16,
                reserved1: 0,
                max_width: old(self).config.width,
                max_height: old(self).config.height,
                max_fps_fixed: old(self).config.fps << 16,
                capabilities: if old(self).config.hidpi { 1u32 } else { 0u32 },
                reserved2: 0,
            }),
    {
        let capabilities: u32 = if self.config.hidpi {
            1
        } else {
            0
        };
        let hello = HelloPayload::new(
            1,
            self.config.width,
            self.config.height,
            self.config.fps,
            capabilities,
        );
        let packet = Packet::new(PacketType::Hello, 0, self.sequence, hello.to_bytes());
        self.sequence = wrap_inc(self.sequence);
        self.state = SourceState::HelloSent;
        packet
    }

    /// Handle one received packet.
    ///
    /// During the handshake, any unexpected or malformed packet closes the
    /// session (fail-fast). While streaming, FRAME_ACK returns credits
    /// saturating at 2^16 - 1, STOP moves to Stopping, PING is answered with
    /// PONG carrying `now_us`, and anything else is dropped.
    pub fn on_packet(&mut self, packet: &Packet, now_us: u64) -> (r: SourceAction)
        ensures
            final(self).config == old(self).config,
            final(self).last_frame_number == old(self).last_frame_number,
            final(self).frames_sent == old(self).frames_sent,
            final(self).frames_dropped == old(self).frames_dropped,
            // Handshake fail-fast: a wrong packet type during the handshake
            // closes the session within this one packet.
            old(self).state is HelloSent && !(packet.header.packet_type is HelloAck)
                ==> final(self).state is Closed && r is Fatal,
            old(self).state is StartSent && !(packet.header.packet_type is StartAck)
                ==> final(self).state is Closed && r is Fatal,
            old(self).state is HelloSent && packet.header.packet_type is HelloAck ==> ({
                if packet.payload@.len() >= 28 {
                    let ack = spec_parse_hello(packet.payload@);
                    let w = spec_min_u32(old(self).config.width, ack.max_width);
                    let h = spec_min_u32(old(self).config.height, ack.max_height);
                    let f = spec_min_u32(old(self).config.fps, ack.max_fps_fixed >> 16);
                    &&& *final(self) == (Source {
                        state: SourceState::StartSent,
                        sequence: spec_wrap_inc(old(self).sequence),
                        width: w,
                        height: h,
                        fps: f,
                        ..*old(self)
                    })
                    &&& r matches SourceAction::Send(p2) && p2.wf()
                        && p2.header.packet_type is Start && p2.header.flags == 0
                        && p2.header.sequence == old(self).sequence
                        && p2.payload@ == spec_start_bytes(StartPayload {
                        width: w,
                        height: h,
                        fps_fixed: f << 16,
                        bitrate_bps: old(self).config.bitrate_bps,
                        pixel_format: 0,
                        audio_enabled: 0,
                        audio_sample_rate: 0,
                        audio_channels: 0,
                        audio_bits: 0,
                        reserved: 0,
                    })
                } else {
                    final(self).state is Closed && r is Fatal
                }
            }),
            old(self).state is StartSent && packet.header.packet_type is StartAck ==> ({
                if packet.payload@.len() >= 4 {
                    let ack = spec_parse_start_ack(packet.payload@);
                    if ack.status == 0 {
                        &&& *final(self) == (Source {
                            state: SourceState::Streaming,
                            credits: ack.initial_credits,
                            ..*old(self)
                        })
                        &&& r is Ignore
                    } else {
                        final(self).state is Closed && r is Fatal
                    }
                } else {
                    final(self).state is Closed && r is Fatal
                }
            }),
            old(self).state is Streaming && packet.header.packet_type is FrameAck ==> ({
                if packet.payload@.len() >= 16 {
                    &&& *final(self) == (Source {
                        credits: spec_sat_add_u16(
                            old(self).credits,
                            spec_parse_frame_ack(packet.payload@).credits_returned,
                        ),
                        ..*old(self)
                    })
                    &&& r is Ignore
                } else {
                    *final(self) == *old(self) && r is Ignore
                }
            }),
            old(self).state is Streaming && packet.header.packet_type is Stop ==> *final(self)
                == (Source { state: SourceState::Stopping, ..*old(self) }) && r is Ignore,
            old(self).state is Streaming && packet.header.packet_type is Ping ==> ({
                if packet.payload@.len() >= 8 {
                    &&& *final(self) == (Source {
                        sequence: spec_wrap_inc(old(self).sequence),
                        ..*old(self)
                    })
                    &&& r matches SourceAction::Send(p2) && p2.wf()
                        && p2.header.packet_type is Pong && p2.header.flags == 0
                        && p2.header.sequence == old(self).sequence
                        && p2.payload@ == spec_pong_bytes(PongPayload {
                        ping_timestamp_us: spec_parse_ping(packet.payload@).timestamp_us,
                        pong_timestamp_us: now_us,
                    })
                } else {
                    *final(self) == *old(self) && r is Ignore
                }
            }),
            old(self).state is Streaming && !(packet.header.packet_type is FrameAck
                || packet.header.packet_type is Stop || packet.header.packet_type is Ping)
                ==> *final(self) == *old(self) && r is Ignore,
            old(self).state is Stopping ==> ({
                if packet.header.packet_type is StopAck {
                    *final(self) == (Source { state: SourceState::Closed, ..*old(self) })
                        && r is Ignore
                } else {
                    *final(self) == *old(self) && r is Ignore
                }
            }),
            old(self).state is Idle || old(self).state is Closed ==> *final(self) == *old(self)
                && r is Ignore,
    {
        match self.state {
            SourceState::HelloSent => {
                if !matches!(packet.header.packet_type, PacketType::HelloAck) {
                    self.state = SourceState::Closed;
                    return SourceAction::Fatal(ProtocolError::HandshakeFailed(
                        "expected HELLO_ACK".to_owned(),
                    ));
                }
                match HelloPayload::parse(packet.payload.as_slice()) {
                    Ok(ack) => {
                        let w = if self.config.width <= ack.max_width {
                            self.config.width
                        } else {
                            ack.max_width
                        };
                        let h = if self.config.height <= ack.max_height {
                            self.config.height
                        } else {
                            ack.max_height
                        };
                        let peer_fps = ack.max_fps();
                        let f = if self.config.fps <= peer_fps {
                            self.config.fps
                        } else {
                            peer_fps
                        };
                        let start = StartPayload::new(w, h, f, self.config.bitrate_bps);
                        let p2 = Packet::new(PacketType::Start, 0, self.sequence, start.to_bytes());
                        self.sequence = wrap_inc(self.sequence);
                        self.state = SourceState::StartSent;
                        self.width = w;
                        self.height = h;
                        self.fps = f;
                        SourceAction::Send(p2)
                    }
                    Err(_) => {
                        self.state = SourceState::Closed;
                        SourceAction::Fatal(ProtocolError::HandshakeFailed(
                            "malformed HELLO_ACK".to_owned(),
                        ))
                    }
                }
            }
            SourceState::StartSent => {
                if !matches!(packet.header.packet_type, PacketType::StartAck) {
                    self.state = SourceState::Closed;
                    return SourceAction::Fatal(ProtocolError::HandshakeFailed(
                        "expected START_ACK".to_owned(),
                    ));
                }
                match StartAckPayload::parse(packet.payload.as_slice()) {
                    Ok(ack) => {
                        if ack.status == 0 {
                            self.credits = ack.initial_credits;
                            self.state = SourceState::Streaming;
                            SourceAction::Ignore
                        } else {
                            self.state = SourceState::Closed;
                            SourceAction::Fatal(ProtocolError::HandshakeFailed(
                                "START_ACK reported failure".to_owned(),
                            ))
                        }
                    }
                    Err(_) => {
                        self.state = SourceState::Closed;
                        SourceAction::Fatal(ProtocolError::HandshakeFailed(
                            "malformed START_ACK".to_owned(),
                        ))
                    }
                }
            }
            SourceState::Streaming => {
                match packet.header.packet_type {
                    PacketType::FrameAck => {
                        match FrameAckPayload::parse(packet.payload.as_slice()) {
                            Ok(ack) => {
                                self.credits = sat_add_u16(self.credits, ack.credits_returned);
                                SourceAction::Ignore
                            }
                            Err(_) => SourceAction::Ignore,
                        }
                    }
                    PacketType::Stop => {
                        self.state = SourceState::Stopping;
                        SourceAction::Ignore
                    }
                    PacketType::Ping => {
                        match PingPayload::parse(packet.payload.as_slice()) {
                            Ok(ping) => {
                                let pong = PongPayload::new(ping.timestamp_us, now_us);
                                let p2 = Packet::new(
                                    PacketType::Pong,
                                    0,
                                    self.sequence,
                                    pong.to_bytes(),
                                );
                                self.sequence = wrap_inc(self.sequence);
                                SourceAction::Send(p2)
                            }
                            Err(_) => SourceAction::Ignore,
                        }
                    }
                    _ => SourceAction::Ignore,
                }
            }
            SourceState::Stopping => {
                if matches!(packet.header.packet_type, PacketType::StopAck) {
                    self.state = SourceState::Closed;
                }
                SourceAction::Ignore
            }
            SourceState::Idle => SourceAction::Ignore,
            SourceState::Closed => SourceAction::Ignore,
        }
    }

    /// Segment one encoded frame into FRAME packets and spend one credit.
    ///
    /// With no credit available nothing is sent and nothing changes: the
    /// source never emits a FRAME while its credit counter is zero. With a
    /// credit, the packets carry the frame's segments in ascending segment
    /// order under consecutive sequence numbers.
    pub fn send_frame(&mut self, frame: EncodedFrame) -> (r: Option<Vec<Packet>>)
        requires
            old(self).state is Streaming,
            frame.data@.len() <= MAX_FRAME_DATA,
            frame.metadata.frame_number >= old(self).last_frame_number,
        ensures
            old(self).credits == 0 ==> r is None && *final(self) == *old(self),
            old(self).credits > 0 ==> ({
                let n = spec_seg_count(frame.data@.len() as int);
                &&& r matches Some(pkts)
                &&& pkts@.len() == n
                &&& forall|i: int| 0 <= i < n ==> {
                    let p = #[trigger] pkts@[i];
                    &&& p.wf()
                    &&& p.header.packet_type is Frame
                    &&& p.header.flags == 0
                    &&& p.header.sequence == spec_wrap_add(old(self).sequence, i)
                    &&& p.payload@ == crate::protocol::spec_frame_header_bytes(seg_header(
                        frame.metadata.frame_number,
                        frame.metadata.pts_us,
                        frame.metadata.capture_ts_us,
                        frame.data@,
                        i,
                    )) + spec_seg_data(frame.data@, i)
                }
                &&& *final(self) == (Source {
                    credits: (old(self).credits - 1) as u16,
                    sequence: spec_wrap_add(old(self).sequence, n),
                    last_frame_number: frame.metadata.frame_number,
                    frames_sent: spec_sat_inc_u64(old(self).frames_sent),
                    ..*old(self)
                })
            }),
    {
        if self.credits == 0 {
            return None;
        }

        let ghost start_seq = self.sequence;
        let ghost data_view = frame.data@;
        let md = frame.metadata;
        proof {
            crate::frame::lemma_seg_count_bounds(data_view.len() as int);
        }
        let segments = frame.into_segments();
        let n: usize = segments.len();

        let mut packets: Vec<Packet> = Vec::new();
        let mut i: usize = 0;
        while i < n
            invariant
                i <= n,
                n == segments@.len(),
                n as int == spec_seg_count(data_view.len() as int),
                n <= 65535,
                data_view.len() <= MAX_FRAME_DATA,
                forall|j: int| 0 <= j < n ==> is_segment_of(
                    #[trigger] segments@[j],
                    md,
                    data_view,
                    n as int,
                    j,
                ),
                self.sequence == spec_wrap_add(start_seq, i as int),
                self.state == old(self).state,
                self.config == old(self).config,
                self.credits == old(self).credits,
                self.width == old(self).width,
                self.height == old(self).height,
                self.fps == old(self).fps,
                self.last_frame_number == old(self).last_frame_number,
                self.frames_sent == old(self).frames_sent,
                self.frames_dropped == old(self).frames_dropped,
                packets@.len() == i,
                forall|j: int| 0 <= j < i ==> {
                    let p = #[trigger] packets@[j];
                    &&& p.wf()
                    &&& p.header.packet_type is Frame
                    &&& p.header.flags == 0
                    &&& p.header.sequence == spec_wrap_add(start_seq, j)
                    &&& p.payload@ == crate::protocol::spec_frame_header_bytes(seg_header(
                        md.frame_number,
                        md.pts_us,
                        md.capture_ts_us,
                        data_view,
                        j,
                    )) + spec_seg_data(data_view, j)
                },
            decreases n - i,
        {
            proof {
                crate::frame::lemma_seg_bounds(data_view.len() as int, i as int);
            }
            let seg = &segments[i];
            let payload = seg.to_payload();
            proof {
                assert(seg.spec_header() == seg_header(
                    md.frame_number,
                    md.pts_us,
                    md.capture_ts_us,
                    data_view,
                    i as int,
                ));
            }
            let pkt = Packet::new(PacketType::Frame, 0, self.sequence, payload);
            packets.push(pkt);
            self.sequence = wrap_inc(self.sequence);
            i = i + 1;
        }

        self.credits = self.credits - 1;
        self.last_frame_number = md.frame_number;
        self.frames_sent = sat_inc_u64(self.frames_sent);
        Some(packets)
    }

    /// Record a frame lost to a capture or encode error; such errors are
    /// non-fatal.
    pub fn record_dropped_frame(&mut self)
        ensures
            *final(self) == (Source {
                frames_dropped: spec_sat_inc_u64(old(self).frames_dropped),
                ..*old(self)
            }),
    {
        self.frames_dropped = sat_inc_u64(self.frames_dropped);
    }

    /// Ask the peer to stop: build the STOP packet and enter Stopping.
    pub fn request_stop(&mut self) -> (r: Packet)
        ensures
            *final(self) == (Source {
                state: SourceState::Stopping,
                sequence: spec_wrap_inc(old(self).sequence),
                ..*old(self)
            }),
            r.wf(),
            r.header.packet_type is Stop,
            r.header.flags == 0,
            r.header.sequence == old(self).sequence,
            r.payload@ == Seq::<u8>::empty(),
    {
        let packet = Packet::new(PacketType::Stop, 0, self.sequence, Vec::new());
        self.sequence = wrap_inc(self.sequence);
        self.state = SourceState::Stopping;
        proof {
            assert(packet.payload@ =~= Seq::<u8>::empty());
        }
        packet
    }

    /// Close the session, as on a fatal transport error.
    pub fn close(&mut self)
        ensures
            *final(self) == (Source { state: SourceState::Closed, ..*old(self) }),
    {
        self.state = SourceState::Closed;
    }
}

/// One step of the credit counter's life: the source spends a credit by
/// sending a frame, or receives some back in a FRAME_ACK.
#[derive(Debug, Clone, Copy, PartialEq, Eq, Structural)]
pub enum CreditEvent {
    /// A frame is sent; one credit is spent, and only when one is held.
    SendFrame,
    /// A FRAME_ACK returns this many credits.
    AckReturn(u16),
}

/// The credit counter after a sequence of sends and acknowledgements, as
/// the source's transitions compute it: a send takes one credit only when
/// one is held (`send_frame` refuses otherwise), an acknowledgement adds
/// saturating at 2^16 - 1 (`on_packet` on FRAME_ACK).
pub open spec fn spec_credits_after(init: u16, events: Seq<CreditEvent>) -> int
    decreases events.len(),
{
    if events.len() == 0 {
        init as int
    } else {
        let c = spec_credits_after(init, events.drop_last());
        match events.last() {
            CreditEvent::SendFrame => if c > 0 {
                c - 1
            } else {
                c
            },
            CreditEvent::AckReturn(k) => if c + k > 65535 {
                65535int
            } else {
                c + k
            },
        }
    }
}

/// Credit invariant: across any interleaving of frame sends and
/// acknowledgement receipts, the credit counter never goes negative and
/// never exceeds 2^16 - 1.
pub proof fn lemma_credit_invariant(init: u16, events: Seq<CreditEvent>)
    ensures
        0 <= spec_credits_after(init, events) <= 65535,
    decreases events.len(),
{
    if events.len() > 0 {
        lemma_credit_invariant(init, events.drop_last());
    }
}

/// Connection status of the capture-side application, as shown in its user
/// interface.
#[derive(Debug, Clone, PartialEq, Eq, Structural)]
pub enum ConnectionStatus {
    Disconnected,
    Connecting,
    Connected,
    Streaming,
    Error,
}

/// Display information for the capture-side user interface.
#[derive(Debug, Clone, PartialEq, Eq)]
pub struct DisplayInfo {
    pub id: u32,
    pub name: String,
    pub width: u32,
    pub height: u32,
    pub is_main: bool,
}

/// Capture-side application settings.
#[derive(Debug, Clone, PartialEq, Eq)]
pub struct AppSettings {
    pub default_resolution: String,
    pub default_fps: u32,
    pub default_bitrate_mbps: u32,
    pub auto_connect: bool,
    pub preview_enabled: bool,
    pub preview_quality: u32,
}

impl Default for AppSettings {
    fn default() -> (r: Self)
        ensures
            r.default_resolution@ == "1920x1080"@,
            r.default_fps == 60,
            r.default_bitrate_mbps == 20,
            !r.auto_connect,
            r.preview_enabled,
            r.preview_quality == 50,
    {
        Self {
            default_resolution: "1920x1080".to_owned(),
            default_fps: 60,
            default_bitrate_mbps: 20,
            auto_connect: false,
            preview_enabled: true,
            preview_quality: 50,
        }
    }
}

/// Troubleshooting information for the capture-side user interface.
#[derive(Debug, Clone, PartialEq, Eq)]
pub struct DebugInfo {
    pub connected_devices: Vec<UsbDeviceInfo>,
    pub supported_devices: Vec<UsbDeviceInfo>,
    pub last_error: Option<String>,
}

impl Default for DebugInfo {
    fn default() -> (r: Self)
        ensures
            r.connected_devices@.len() == 0,
            r.supported_devices@.len() == 0,
            r.last_error is None,
    {
        Self { connected_devices: Vec::new(), supported_devices: Vec::new(), last_error: None }
    }
}

} // verus!
