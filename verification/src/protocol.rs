//! The packet codec: the fixed 16-byte header, the ten packet types, the
//! typed payloads, and CRC-guarded serialization and parsing.
//!
//! Every serializer has an exact byte-level specification, every parser an
//! exact contract saying which input yields which result, and round-trip
//! lemmas prove that parsing a serialized packet gives the packet back.

use vstd::prelude::*;

use crate::checksum::{crc32c_bytes, crc32c_of};
use crate::error::ProtocolError;
use crate::wire::{
    copy_range, push_bytes, push_u16_le, push_u32_le, push_u64_le, read_u16_le, read_u32_le,
    read_u64_le, u16_from_le, u16_le, u32_from_le, u32_le, u64_from_le, u64_le,
    lemma_u16_le_roundtrip, lemma_u32_le_roundtrip, lemma_u64_le_roundtrip,
};

verus! {

/// Protocol magic number ("SWRP" read as a little-endian 32-bit value).
pub const MAGIC: u32 = 0x53575250;

/// Current protocol version.
pub const PROTOCOL_VERSION: u8 = 1;

/// Maximum segment size for frame data (64 KiB).
pub const MAX_SEGMENT_SIZE: usize = 65536;

/// Header size in bytes.
pub const HEADER_SIZE: usize = 16;

/// CRC size in bytes.
pub const CRC_SIZE: usize = 4;

/// Packet types.
#[derive(Debug, Clone, Copy, PartialEq, Eq, Structural)]
pub enum PacketType {
    Hello,
    HelloAck,
    Start,
    StartAck,
    Frame,
    FrameAck,
    Stop,
    StopAck,
    Ping,
    Pong,
}

/// The single-byte wire code of a packet type.
pub open spec fn type_code(t: PacketType) -> u8 {
    match t {
        PacketType::Hello => 0x01,
        PacketType::HelloAck => 0x02,
        PacketType::Start => 0x03,
        PacketType::StartAck => 0x04,
        PacketType::Frame => 0x10,
        PacketType::FrameAck => 0x11,
        PacketType::Stop => 0x30,
        PacketType::StopAck => 0x31,
        PacketType::Ping => 0x40,
        PacketType::Pong => 0x41,
    }
}

/// Whether a byte is the wire code of some packet type.
pub open spec fn is_known_type_code(value: u8) -> bool {
    exists|t: PacketType| type_code(t) == value
}

/// The packet type a known wire code stands for.
pub open spec fn spec_type_of(value: u8) -> PacketType
    recommends
        is_known_type_code(value),
{
    choose|t: PacketType| type_code(t) == value
}

impl PacketType {
    /// The wire code of this packet type.
    pub fn to_u8(self) -> (r: u8)
        ensures
            r == type_code(self),
    {
        match self {
            PacketType::Hello => 0x01,
            PacketType::HelloAck => 0x02,
            PacketType::Start => 0x03,
            PacketType::StartAck => 0x04,
            PacketType::Frame => 0x10,
            PacketType::FrameAck => 0x11,
            PacketType::Stop => 0x30,
            PacketType::StopAck => 0x31,
            PacketType::Ping => 0x40,
            PacketType::Pong => 0x41,
        }
    }

    /// Decode a wire code: succeeds exactly on the ten known codes, and the
    /// decoded type's own code is the input byte.
    pub fn from_u8(value: u8) -> (r: Result<Self, ProtocolError>)
        ensures
            r is Ok <==> is_known_type_code(value),
            r matches Ok(t) ==> type_code(t) == value && t == spec_type_of(value),
            r matches Err(e) ==> e == ProtocolError::UnknownPacketType(value),
    {
        let r: Result<Self, ProtocolError> = match value {
            0x01 => Ok(PacketType::Hello),
            0x02 => Ok(PacketType::HelloAck),
            0x03 => Ok(PacketType::Start),
            0x04 => Ok(PacketType::StartAck),
            0x10 => Ok(PacketType::Frame),
            0x11 => Ok(PacketType::FrameAck),
            0x30 => Ok(PacketType::Stop),
            0x31 => Ok(PacketType::StopAck),
            0x40 => Ok(PacketType::Ping),
            0x41 => Ok(PacketType::Pong),
            _ => Err(ProtocolError::UnknownPacketType(value)),
        };
        proof {
            if r is Ok {
                let t = r->Ok_0;
                assert(is_known_type_code(value)) by {
                    assert(type_code(t) == value);
                }
                assert(spec_type_of(value) == t) by {
                    let u = choose|u: PacketType| type_code(u) == value;
                    assert(type_code(u) == type_code(t));
                }
            } else {
                assert forall|t: PacketType| type_code(t) != value by {
                    if type_code(t) == value {
                        assert(false);
                    }
                }
            }
        }
        r
    }
}

/// Packet header (16 bytes on the wire).
#[derive(Debug, Clone, Copy, PartialEq, Eq, Structural)]
pub struct PacketHeader {
    pub magic: u32,
    pub version: u8,
    pub packet_type: PacketType,
    pub flags: u16,
    pub sequence: u32,
    pub payload_length: u32,
}

/// The 16 header bytes, fields in wire order, integers little-endian.
pub open spec fn spec_header_bytes(h: PacketHeader) -> Seq<u8> {
    u32_le(h.magic) + seq![h.version, type_code(h.packet_type)] + u16_le(h.flags)
        + u32_le(h.sequence) + u32_le(h.payload_length)
}

/// What parsing a header from a byte sequence yields, with the validation
/// order of the wire format: length, magic, version, packet type.
pub open spec fn spec_parse_header(data: Seq<u8>) -> Result<PacketHeader, ProtocolError> {
    if data.len() < 16 {
        Err(ProtocolError::BufferTooShort { needed: 16, available: data.len() as usize })
    } else {
        let magic = u32_from_le(data[0], data[1], data[2], data[3]);
        if magic != MAGIC {
            Err(ProtocolError::InvalidMagic(magic))
        } else if data[4] != PROTOCOL_VERSION {
            Err(ProtocolError::UnsupportedVersion(data[4]))
        } else if !is_known_type_code(data[5]) {
            Err(ProtocolError::UnknownPacketType(data[5]))
        } else {
            Ok(PacketHeader {
                magic,
                version: data[4],
                packet_type: spec_type_of(data[5]),
                flags: u16_from_le(data[6], data[7]),
                sequence: u32_from_le(data[8], data[9], data[10], data[11]),
                payload_length: u32_from_le(data[12], data[13], data[14], data[15]),
            })
        }
    }
}

impl PacketHeader {
    /// Build a header with the protocol magic and current version.
    pub fn new(packet_type: PacketType, flags: u16, sequence: u32, payload_length: u32) -> (r: Self)
        ensures
            r == (PacketHeader {
                magic: MAGIC,
                version: PROTOCOL_VERSION,
                packet_type,
                flags,
                sequence,
                payload_length,
            }),
    {
        Self { magic: MAGIC, version: PROTOCOL_VERSION, packet_type, flags, sequence, payload_length }
    }

    /// Serialize the header to its 16 wire bytes.
    pub fn to_bytes(&self) -> (r: Vec<u8>)
        ensures
            r@ == spec_header_bytes(*self),
    {
        let mut buf: Vec<u8> = Vec::new();
        push_u32_le(&mut buf, self.magic);
        buf.push(self.version);
        buf.push(self.packet_type.to_u8());
        push_u16_le(&mut buf, self.flags);
        push_u32_le(&mut buf, self.sequence);
        push_u32_le(&mut buf, self.payload_length);
        proof {
            assert(buf@ =~= spec_header_bytes(*self));
        }
        buf
    }

    /// Parse a header from the front of a buffer; the result is exactly what
    /// `spec_parse_header` yields on the bytes.
    pub fn parse(data: &[u8]) -> (r: Result<Self, ProtocolError>)
        ensures
            match r {
                Ok(h) => spec_parse_header(data@) == Ok::<PacketHeader, ProtocolError>(h),
                Err(e) => spec_parse_header(data@) == Err::<PacketHeader, ProtocolError>(e),
            },
    {
        if data.len() < HEADER_SIZE {
            return Err(ProtocolError::BufferTooShort { needed: HEADER_SIZE, available: data.len() });
        }

        let magic = read_u32_le(data, 0);
        if magic != MAGIC {
            return Err(ProtocolError::InvalidMagic(magic));
        }

        let version = data[4];
        if version != PROTOCOL_VERSION {
            return Err(ProtocolError::UnsupportedVersion(version));
        }

        let packet_type = match PacketType::from_u8(data[5]) {
            Ok(t) => t,
            Err(e) => {
                return Err(e);
            }
        };

        let flags = read_u16_le(data, 6);
        let sequence = read_u32_le(data, 8);
        let payload_length = read_u32_le(data, 12);

        Ok(Self { magic, version, packet_type, flags, sequence, payload_length })
    }
}

/// The header's wire encoding parses back to the header itself.
pub proof fn lemma_header_roundtrip(h: PacketHeader)
    requires
        h.magic == MAGIC,
        h.version == PROTOCOL_VERSION,
    ensures
        spec_parse_header(spec_header_bytes(h)) == Ok::<PacketHeader, ProtocolError>(h),
{
    assert(spec_header_bytes(h).subrange(0, 16) =~= spec_header_bytes(h));
    lemma_header_roundtrip_prefix(h, spec_header_bytes(h));
}

/// Parsing any buffer that begins with a header's wire encoding yields that
/// header, whatever follows the 16 header bytes.
pub proof fn lemma_header_roundtrip_prefix(h: PacketHeader, data: Seq<u8>)
    requires
        h.magic == MAGIC,
        h.version == PROTOCOL_VERSION,
        data.len() >= 16,
        data.subrange(0, 16) == spec_header_bytes(h),
    ensures
        spec_parse_header(data) == Ok::<PacketHeader, ProtocolError>(h),
{
    let bs = data;
    assert forall|i: int| 0 <= i < 16 implies data[i] == spec_header_bytes(h)[i] by {
        assert(data.subrange(0, 16)[i] == data[i]);
    }
    assert(bs[0] == u32_le(h.magic)[0]);
    assert(bs[1] == u32_le(h.magic)[1]);
    assert(bs[2] == u32_le(h.magic)[2]);
    assert(bs[3] == u32_le(h.magic)[3]);
    assert(bs[4] == h.version);
    assert(bs[5] == type_code(h.packet_type));
    assert(bs[6] == u16_le(h.flags)[0]);
    assert(bs[7] == u16_le(h.flags)[1]);
    assert(bs[8] == u32_le(h.sequence)[0]);
    assert(bs[9] == u32_le(h.sequence)[1]);
    assert(bs[10] == u32_le(h.sequence)[2]);
    assert(bs[11] == u32_le(h.sequence)[3]);
    assert(bs[12] == u32_le(h.payload_length)[0]);
    assert(bs[13] == u32_le(h.payload_length)[1]);
    assert(bs[14] == u32_le(h.payload_length)[2]);
    assert(bs[15] == u32_le(h.payload_length)[3]);
    lemma_u32_le_roundtrip(h.magic);
    lemma_u16_le_roundtrip(h.flags);
    lemma_u32_le_roundtrip(h.sequence);
    lemma_u32_le_roundtrip(h.payload_length);
    assert(is_known_type_code(bs[5])) by {
        assert(type_code(h.packet_type) == bs[5]);
    }
    assert(spec_type_of(bs[5]) == h.packet_type) by {
        let u = choose|u: PacketType| type_code(u) == bs[5];
        assert(type_code(u) == type_code(h.packet_type));
    }
}

/// Complete packet with header and payload.
#[derive(Debug, Clone)]
pub struct Packet {
    pub header: PacketHeader,
    pub payload: Vec<u8>,
}

/// The full wire encoding of a packet: header bytes, payload bytes, then the
/// CRC-32C of everything before it, little-endian.
pub open spec fn spec_packet_bytes(h: PacketHeader, payload: Seq<u8>) -> Seq<u8> {
    let prefix = spec_header_bytes(h) + payload;
    prefix + u32_le(crc32c_of(prefix))
}

/// What parsing a packet from a byte buffer yields: the header, the payload
/// bytes, and the number of bytes consumed, or the first error in the wire
/// format's validation order.
pub open spec fn spec_parse_packet(data: Seq<u8>) -> Result<(PacketHeader, Seq<u8>, int), ProtocolError> {
    match spec_parse_header(data) {
        Err(e) => Err(e),
        Ok(h) => {
            let total = 16 + h.payload_length as int + 4;
            if data.len() < total {
                Err(ProtocolError::BufferTooShort {
                    needed: total as usize,
                    available: data.len() as usize,
                })
            } else {
                let payload_end = 16 + h.payload_length as int;
                let stored = u32_from_le(
                    data[payload_end], data[payload_end + 1],
                    data[payload_end + 2], data[payload_end + 3],
                );
                let computed = crc32c_of(data.subrange(0, payload_end));
                if stored != computed {
                    Err(ProtocolError::ChecksumMismatch { expected: stored, actual: computed })
                } else {
                    Ok((h, data.subrange(16, payload_end), total))
                }
            }
        }
    }
}

impl Packet {
    /// A packet is well formed when its header carries the protocol magic and
    /// version and its length field matches the payload.
    pub open spec fn wf(self) -> bool {
        &&& self.header.magic == MAGIC
        &&& self.header.version == PROTOCOL_VERSION
        &&& self.header.payload_length == self.payload@.len()
    }

    /// Build a packet around a payload; the header's length field is the
    /// payload's length.
    pub fn new(packet_type: PacketType, flags: u16, sequence: u32, payload: Vec<u8>) -> (r: Self)
        requires
            payload@.len() <= u32::MAX,
        ensures
            r.header == (PacketHeader {
                magic: MAGIC,
                version: PROTOCOL_VERSION,
                packet_type,
                flags,
                sequence,
                payload_length: payload@.len() as u32,
            }),
            r.payload == payload,
            r.wf(),
    {
        let len: u32 = payload.len() as u32;
        let header = PacketHeader::new(packet_type, flags, sequence, len);
        Self { header, payload }
    }

    /// Serialize the packet: header, payload, then CRC-32C little-endian.
    pub fn to_bytes(&self) -> (r: Vec<u8>)
        ensures
            r@ == spec_packet_bytes(self.header, self.payload@),
    {
        let mut buf = self.header.to_bytes();
        push_bytes(&mut buf, self.payload.as_slice());
        let crc = crc32c_bytes(buf.as_slice());
        push_u32_le(&mut buf, crc);
        buf
    }

    /// Parse a packet from raw bytes; on success also returns the number of
    /// bytes consumed. The result is exactly what `spec_parse_packet` yields.
    pub fn parse(data: &[u8]) -> (r: Result<(Self, usize), ProtocolError>)
        ensures
            match r {
                Ok(p) => spec_parse_packet(data@)
                    == Ok::<(PacketHeader, Seq<u8>, int), ProtocolError>((
                        p.0.header,
                        p.0.payload@,
                        p.1 as int,
                    )),
                Err(e) => spec_parse_packet(data@)
                    == Err::<(PacketHeader, Seq<u8>, int), ProtocolError>(e),
            },
    {
        let header = match PacketHeader::parse(data) {
            Ok(h) => h,
            Err(e) => {
                return Err(e);
            }
        };

        let total64: u64 = (HEADER_SIZE as u64) + (header.payload_length as u64) + (CRC_SIZE as u64);
        if (data.len() as u64) < total64 {
            return Err(ProtocolError::BufferTooShort {
                needed: total64 as usize,
                available: data.len(),
            });
        }

        let total: usize = total64 as usize;
        let payload_end: usize = HEADER_SIZE + (header.payload_length as usize);

        let payload = copy_range(data, HEADER_SIZE, payload_end);

        let stored = read_u32_le(data, payload_end);
        let prefix = vstd::slice::slice_subrange(data, 0, payload_end);
        let computed = crc32c_bytes(prefix);

        if stored != computed {
            return Err(ProtocolError::ChecksumMismatch { expected: stored, actual: computed });
        }

        Ok((Self { header, payload }, total))
    }

    /// The packet type.
    pub fn packet_type(&self) -> (r: PacketType)
        ensures
            r == self.header.packet_type,
    {
        self.header.packet_type
    }

    /// The sequence number.
    pub fn sequence(&self) -> (r: u32)
        ensures
            r == self.header.sequence,
    {
        self.header.sequence
    }
}

/// Packet round trip: parsing a well-formed packet's wire encoding yields the
/// packet back, and the consumed byte count is header + payload + CRC.
pub proof fn lemma_packet_roundtrip(p: Packet)
    requires
        p.wf(),
    ensures
        spec_parse_packet(spec_packet_bytes(p.header, p.payload@))
            == Ok::<(PacketHeader, Seq<u8>, int), ProtocolError>((
                p.header,
                p.payload@,
                16 + p.payload@.len() as int + 4,
            )),
{
    let h = p.header;
    let payload = p.payload@;
    let prefix = spec_header_bytes(h) + payload;
    let crc = crc32c_of(prefix);
    let bs = prefix + u32_le(crc);
    let pl = h.payload_length as int;

    assert(spec_header_bytes(h).len() == 16);
    assert(bs.len() == 16 + payload.len() + 4);

    assert(bs.subrange(0, 16) =~= spec_header_bytes(h));
    lemma_header_roundtrip_prefix(h, bs);

    let payload_end = 16 + pl;
    assert(payload_end == 16 + payload.len());

    assert(bs.subrange(0, payload_end) =~= prefix);

    assert(bs[payload_end] == u32_le(crc)[0]);
    assert(bs[payload_end + 1] == u32_le(crc)[1]);
    assert(bs[payload_end + 2] == u32_le(crc)[2]);
    assert(bs[payload_end + 3] == u32_le(crc)[3]);
    lemma_u32_le_roundtrip(crc);

    assert(bs.subrange(16, payload_end) =~= payload);
}

/// A buffer whose magic field does not match is rejected with InvalidMagic,
/// whatever else it holds.
pub proof fn lemma_magic_rejected(data: Seq<u8>)
    requires
        data.len() >= 16,
        u32_from_le(data[0], data[1], data[2], data[3]) != MAGIC,
    ensures
        spec_parse_packet(data)
            == Err::<(PacketHeader, Seq<u8>, int), ProtocolError>(ProtocolError::InvalidMagic(
                u32_from_le(data[0], data[1], data[2], data[3]),
            )),
{
}

/// A packet whose trailing CRC does not match the checksum of its header and
/// payload is rejected with ChecksumMismatch.
pub proof fn lemma_crc_mismatch_rejected(h: PacketHeader, payload: Seq<u8>, stored: u32)
    requires
        h.magic == MAGIC,
        h.version == PROTOCOL_VERSION,
        h.payload_length == payload.len(),
        stored != crc32c_of(spec_header_bytes(h) + payload),
    ensures
        spec_parse_packet(spec_header_bytes(h) + payload + u32_le(stored))
            == Err::<(PacketHeader, Seq<u8>, int), ProtocolError>(ProtocolError::ChecksumMismatch {
                expected: stored,
                actual: crc32c_of(spec_header_bytes(h) + payload),
            }),
{
    let prefix = spec_header_bytes(h) + payload;
    let bs = prefix + u32_le(stored);
    let pl = h.payload_length as int;
    let payload_end = 16 + pl;

    assert(spec_header_bytes(h).len() == 16);
    assert(bs.subrange(0, 16) =~= spec_header_bytes(h));
    lemma_header_roundtrip_prefix(h, bs);

    assert(bs.subrange(0, payload_end) =~= prefix);
    assert(bs[payload_end] == u32_le(stored)[0]);
    assert(bs[payload_end + 1] == u32_le(stored)[1]);
    assert(bs[payload_end + 2] == u32_le(stored)[2]);
    assert(bs[payload_end + 3] == u32_le(stored)[3]);
    lemma_u32_le_roundtrip(stored);
}

/// HELLO / HELLO_ACK payload (28 bytes).
#[derive(Debug, Clone, Copy, PartialEq, Eq, Structural)]
pub struct HelloPayload {
    pub software_version: u16,
    pub min_protocol_version: u16,
    pub max_protocol_version: u16,
    pub reserved1: u16,
    pub max_width: u32,
    pub max_height: u32,
    /// Fixed-point 16.16: whole frames per second in the high 16 bits.
    pub max_fps_fixed: u32,
    pub capabilities: u32,
    pub reserved2: u32,
}

/// The 28 wire bytes of a HELLO payload.
pub open spec fn spec_hello_bytes(p: HelloPayload) -> Seq<u8> {
    u16_le(p.software_version) + u16_le(p.min_protocol_version) + u16_le(p.max_protocol_version)
        + u16_le(p.reserved1) + u32_le(p.max_width) + u32_le(p.max_height)
        + u32_le(p.max_fps_fixed) + u32_le(p.capabilities) + u32_le(p.reserved2)
}

/// The HELLO payload read from the front of a byte sequence.
pub open spec fn spec_parse_hello(data: Seq<u8>) -> HelloPayload
    recommends
        data.len() >= 28,
{
    HelloPayload {
        software_version: u16_from_le(data[0], data[1]),
        min_protocol_version: u16_from_le(data[2], data[3]),
        max_protocol_version: u16_from_le(data[4], data[5]),
        reserved1: u16_from_le(data[6], data[7]),
        max_width: u32_from_le(data[8], data[9], data[10], data[11]),
        max_height: u32_from_le(data[12], data[13], data[14], data[15]),
        max_fps_fixed: u32_from_le(data[16], data[17], data[18], data[19]),
        capabilities: u32_from_le(data[20], data[21], data[22], data[23]),
        reserved2: u32_from_le(data[24], data[25], data[26], data[27]),
    }
}

impl HelloPayload {
    pub const SIZE: usize = 28;

    /// Build a HELLO payload advertising the given maxima; the whole frame
    /// rate is stored in the high 16 bits of the fixed-point field.
    pub fn new(software_version: u16, max_width: u32, max_height: u32, max_fps: u32, capabilities: u32) -> (r: Self)
        ensures
            r == (HelloPayload {
                software_version,
                min_protocol_version: PROTOCOL_VERSION as u16,
                max_protocol_version: PROTOCOL_VERSION as u16,
                reserved1: 0,
                max_width,
                max_height,
                max_fps_fixed: max_fps << 16,
                capabilities,
                reserved2: 0,
            }),
    {
        Self {
            software_version,
            min_protocol_version: PROTOCOL_VERSION as u16,
            max_protocol_version: PROTOCOL_VERSION as u16,
            reserved1: 0,
            max_width,
            max_height,
            max_fps_fixed: max_fps << 16,
            capabilities,
            reserved2: 0,
        }
    }

    /// Serialize to the 28 wire bytes.
    pub fn to_bytes(&self) -> (r: Vec<u8>)
        ensures
            r@ == spec_hello_bytes(*self),
    {
        let mut buf: Vec<u8> = Vec::new();
        push_u16_le(&mut buf, self.software_version);
        push_u16_le(&mut buf, self.min_protocol_version);
        push_u16_le(&mut buf, self.max_protocol_version);
        push_u16_le(&mut buf, self.reserved1);
        push_u32_le(&mut buf, self.max_width);
        push_u32_le(&mut buf, self.max_height);
        push_u32_le(&mut buf, self.max_fps_fixed);
        push_u32_le(&mut buf, self.capabilities);
        push_u32_le(&mut buf, self.reserved2);
        proof {
            assert(buf@ =~= spec_hello_bytes(*self));
        }
        buf
    }

    /// Parse a HELLO payload: succeeds exactly when at least 28 bytes are
    /// given, and then yields the fields read little-endian in wire order.
    pub fn parse(data: &[u8]) -> (r: Result<Self, ProtocolError>)
        ensures
            data@.len() >= 28 ==> r == Ok::<HelloPayload, ProtocolError>(spec_parse_hello(data@)),
            data@.len() < 28 ==> r == Err::<HelloPayload, ProtocolError>(
                ProtocolError::InvalidPayloadLength { expected: 28, actual: data@.len() as usize },
            ),
    {
        if data.len() < Self::SIZE {
            return Err(ProtocolError::InvalidPayloadLength {
                expected: Self::SIZE,
                actual: data.len(),
            });
        }

        Ok(Self {
            software_version: read_u16_le(data, 0),
            min_protocol_version: read_u16_le(data, 2),
            max_protocol_version: read_u16_le(data, 4),
            reserved1: read_u16_le(data, 6),
            max_width: read_u32_le(data, 8),
            max_height: read_u32_le(data, 12),
            max_fps_fixed: read_u32_le(data, 16),
            capabilities: read_u32_le(data, 20),
            reserved2: read_u32_le(data, 24),
        })
    }

    /// The whole part of the fixed-point 16.16 frame rate.
    pub fn max_fps(&self) -> (r: u32)
        ensures
            r == self.max_fps_fixed >> 16,
    {
        self.max_fps_fixed >> 16
    }

    /// Whether the HiDPI capability bit is set.
    pub fn supports_hidpi(&self) -> (r: bool)
        ensures
            r == (self.capabilities & 0x01 != 0),
    {
        self.capabilities & 0x01 != 0
    }

    /// Whether the audio capability bit is set.
    pub fn supports_audio(&self) -> (r: bool)
        ensures
            r == (self.capabilities & 0x02 != 0),
    {
        self.capabilities & 0x02 != 0
    }
}

/// A HELLO payload's wire encoding parses back to the payload itself.
pub proof fn lemma_hello_roundtrip(p: HelloPayload)
    ensures
        spec_parse_hello(spec_hello_bytes(p)) == p,
{
    let bs = spec_hello_bytes(p);
    assert(bs[0] == u16_le(p.software_version)[0]);
    assert(bs[1] == u16_le(p.software_version)[1]);
    assert(bs[2] == u16_le(p.min_protocol_version)[0]);
    assert(bs[3] == u16_le(p.min_protocol_version)[1]);
    assert(bs[4] == u16_le(p.max_protocol_version)[0]);
    assert(bs[5] == u16_le(p.max_protocol_version)[1]);
    assert(bs[6] == u16_le(p.reserved1)[0]);
    assert(bs[7] == u16_le(p.reserved1)[1]);
    assert(bs[8] == u32_le(p.max_width)[0]);
    assert(bs[9] == u32_le(p.max_width)[1]);
    assert(bs[10] == u32_le(p.max_width)[2]);
    assert(bs[11] == u32_le(p.max_width)[3]);
    assert(bs[12] == u32_le(p.max_height)[0]);
    assert(bs[13] == u32_le(p.max_height)[1]);
    assert(bs[14] == u32_le(p.max_height)[2]);
    assert(bs[15] == u32_le(p.max_height)[3]);
    assert(bs[16] == u32_le(p.max_fps_fixed)[0]);
    assert(bs[17] == u32_le(p.max_fps_fixed)[1]);
    assert(bs[18] == u32_le(p.max_fps_fixed)[2]);
    assert(bs[19] == u32_le(p.max_fps_fixed)[3]);
    assert(bs[20] == u32_le(p.capabilities)[0]);
    assert(bs[21] == u32_le(p.capabilities)[1]);
    assert(bs[22] == u32_le(p.capabilities)[2]);
    assert(bs[23] == u32_le(p.capabilities)[3]);
    assert(bs[24] == u32_le(p.reserved2)[0]);
    assert(bs[25] == u32_le(p.reserved2)[1]);
    assert(bs[26] == u32_le(p.reserved2)[2]);
    assert(bs[27] == u32_le(p.reserved2)[3]);
    lemma_u16_le_roundtrip(p.software_version);
    lemma_u16_le_roundtrip(p.min_protocol_version);
    lemma_u16_le_roundtrip(p.max_protocol_version);
    lemma_u16_le_roundtrip(p.reserved1);
    lemma_u32_le_roundtrip(p.max_width);
    lemma_u32_le_roundtrip(p.max_height);
    lemma_u32_le_roundtrip(p.max_fps_fixed);
    lemma_u32_le_roundtrip(p.capabilities);
    lemma_u32_le_roundtrip(p.reserved2);
}

/// START payload (24 bytes).
#[derive(Debug, Clone, Copy, PartialEq, Eq, Structural)]
pub struct StartPayload {
    pub width: u32,
    pub height: u32,
    /// Fixed-point 16.16: whole frames per second in the high 16 bits.
    pub fps_fixed: u32,
    pub bitrate_bps: u32,
    pub pixel_format: u8,
    pub audio_enabled: u8,
    pub audio_sample_rate: u16,
    pub audio_channels: u8,
    pub audio_bits: u8,
    pub reserved: u16,
}

/// The 24 wire bytes of a START payload.
pub open spec fn spec_start_bytes(p: StartPayload) -> Seq<u8> {
    u32_le(p.width) + u32_le(p.height) + u32_le(p.fps_fixed) + u32_le(p.bitrate_bps)
        + seq![p.pixel_format, p.audio_enabled] + u16_le(p.audio_sample_rate)
        + seq![p.audio_channels, p.audio_bits] + u16_le(p.reserved)
}

/// The START payload read from the front of a byte sequence.
pub open spec fn spec_parse_start(data: Seq<u8>) -> StartPayload
    recommends
        data.len() >= 24,
{
    StartPayload {
        width: u32_from_le(data[0], data[1], data[2], data[3]),
        height: u32_from_le(data[4], data[5], data[6], data[7]),
        fps_fixed: u32_from_le(data[8], data[9], data[10], data[11]),
        bitrate_bps: u32_from_le(data[12], data[13], data[14], data[15]),
        pixel_format: data[16],
        audio_enabled: data[17],
        audio_sample_rate: u16_from_le(data[18], data[19]),
        audio_channels: data[20],
        audio_bits: data[21],
        reserved: u16_from_le(data[22], data[23]),
    }
}

impl StartPayload {
    pub const SIZE: usize = 24;

    /// Build a START payload for a video-only NV12 stream.
    pub fn new(width: u32, height: u32, fps: u32, bitrate_bps: u32) -> (r: Self)
        ensures
            r == (StartPayload {
                width,
                height,
                fps_fixed: fps << 16,
                bitrate_bps,
                pixel_format: 0,
                audio_enabled: 0,
                audio_sample_rate: 0,
                audio_channels: 0,
                audio_bits: 0,
                reserved: 0,
            }),
    {
        Self {
            width,
            height,
            fps_fixed: fps << 16,
            bitrate_bps,
            pixel_format: 0,
            audio_enabled: 0,
            audio_sample_rate: 0,
            audio_channels: 0,
            audio_bits: 0,
            reserved: 0,
        }
    }

    /// Serialize to the 24 wire bytes.
    pub fn to_bytes(&self) -> (r: Vec<u8>)
        ensures
            r@ == spec_start_bytes(*self),
    {
        let mut buf: Vec<u8> = Vec::new();
        push_u32_le(&mut buf, self.width);
        push_u32_le(&mut buf, self.height);
        push_u32_le(&mut buf, self.fps_fixed);
        push_u32_le(&mut buf, self.bitrate_bps);
        buf.push(self.pixel_format);
        buf.push(self.audio_enabled);
        push_u16_le(&mut buf, self.audio_sample_rate);
        buf.push(self.audio_channels);
        buf.push(self.audio_bits);
        push_u16_le(&mut buf, self.reserved);
        proof {
            assert(buf@ =~= spec_start_bytes(*self));
        }
        buf
    }

    /// Parse a START payload: succeeds exactly when at least 24 bytes are
    /// given and the encoded width and height are both nonzero.
    pub fn parse(data: &[u8]) -> (r: Result<Self, ProtocolError>)
        ensures
            r is Ok <==> data@.len() >= 24 && spec_parse_start(data@).width != 0
                && spec_parse_start(data@).height != 0,
            r matches Ok(p) ==> p == spec_parse_start(data@),
            data@.len() < 24 ==> r == Err::<StartPayload, ProtocolError>(
                ProtocolError::InvalidPayloadLength { expected: 24, actual: data@.len() as usize },
            ),
            data@.len() >= 24 && (spec_parse_start(data@).width == 0
                || spec_parse_start(data@).height == 0) ==> r == Err::<StartPayload, ProtocolError>(
                ProtocolError::InvalidPayloadLength { expected: 1, actual: 0 },
            ),
    {
        if data.len() < Self::SIZE {
            return Err(ProtocolError::InvalidPayloadLength {
                expected: Self::SIZE,
                actual: data.len(),
            });
        }

        let width = read_u32_le(data, 0);
        let height = read_u32_le(data, 4);
        if width == 0 || height == 0 {
            return Err(ProtocolError::InvalidPayloadLength { expected: 1, actual: 0 });
        }

        Ok(Self {
            width,
            height,
            fps_fixed: read_u32_le(data, 8),
            bitrate_bps: read_u32_le(data, 12),
            pixel_format: data[16],
            audio_enabled: data[17],
            audio_sample_rate: read_u16_le(data, 18),
            audio_channels: data[20],
            audio_bits: data[21],
            reserved: read_u16_le(data, 22),
        })
    }

    /// The whole part of the fixed-point 16.16 frame rate.
    pub fn fps(&self) -> (r: u32)
        ensures
            r == self.fps_fixed >> 16,
    {
        self.fps_fixed >> 16
    }
}

/// A START payload's wire encoding parses back to the payload itself.
pub proof fn lemma_start_roundtrip(p: StartPayload)
    ensures
        spec_parse_start(spec_start_bytes(p)) == p,
{
    let bs = spec_start_bytes(p);
    assert(bs[0] == u32_le(p.width)[0]);
    assert(bs[1] == u32_le(p.width)[1]);
    assert(bs[2] == u32_le(p.width)[2]);
    assert(bs[3] == u32_le(p.width)[3]);
    assert(bs[4] == u32_le(p.height)[0]);
    assert(bs[5] == u32_le(p.height)[1]);
    assert(bs[6] == u32_le(p.height)[2]);
    assert(bs[7] == u32_le(p.height)[3]);
    assert(bs[8] == u32_le(p.fps_fixed)[0]);
    assert(bs[9] == u32_le(p.fps_fixed)[1]);
    assert(bs[10] == u32_le(p.fps_fixed)[2]);
    assert(bs[11] == u32_le(p.fps_fixed)[3]);
    assert(bs[12] == u32_le(p.bitrate_bps)[0]);
    assert(bs[13] == u32_le(p.bitrate_bps)[1]);
    assert(bs[14] == u32_le(p.bitrate_bps)[2]);
    assert(bs[15] == u32_le(p.bitrate_bps)[3]);
    assert(bs[16] == p.pixel_format);
    assert(bs[17] == p.audio_enabled);
    assert(bs[18] == u16_le(p.audio_sample_rate)[0]);
    assert(bs[19] == u16_le(p.audio_sample_rate)[1]);
    assert(bs[20] == p.audio_channels);
    assert(bs[21] == p.audio_bits);
    assert(bs[22] == u16_le(p.reserved)[0]);
    assert(bs[23] == u16_le(p.reserved)[1]);
    lemma_u32_le_roundtrip(p.width);
    lemma_u32_le_roundtrip(p.height);
    lemma_u32_le_roundtrip(p.fps_fixed);
    lemma_u32_le_roundtrip(p.bitrate_bps);
    lemma_u16_le_roundtrip(p.audio_sample_rate);
    lemma_u16_le_roundtrip(p.reserved);
}

/// START_ACK payload (4 bytes).
#[derive(Debug, Clone, Copy, PartialEq, Eq, Structural)]
pub struct StartAckPayload {
    pub status: u8,
    pub reserved: u8,
    pub initial_credits: u16,
}

/// The 4 wire bytes of a START_ACK payload.
pub open spec fn spec_start_ack_bytes(p: StartAckPayload) -> Seq<u8> {
    seq![p.status, p.reserved] + u16_le(p.initial_credits)
}

/// The START_ACK payload read from the front of a byte sequence.
pub open spec fn spec_parse_start_ack(data: Seq<u8>) -> StartAckPayload
    recommends
        data.len() >= 4,
{
    StartAckPayload {
        status: data[0],
        reserved: data[1],
        initial_credits: u16_from_le(data[2], data[3]),
    }
}

impl StartAckPayload {
    pub const SIZE: usize = 4;

    pub const DEFAULT_CREDITS: u16 = 8;

    pub fn new(status: u8, initial_credits: u16) -> (r: Self)
        ensures
            r == (StartAckPayload { status, reserved: 0, initial_credits }),
    {
        Self { status, reserved: 0, initial_credits }
    }

    /// A successful START_ACK granting the given initial credits.
    pub fn ok(initial_credits: u16) -> (r: Self)
        ensures
            r == (StartAckPayload { status: 0, reserved: 0, initial_credits }),
    {
        Self::new(0, initial_credits)
    }

    /// Serialize to the 4 wire bytes.
    pub fn to_bytes(&self) -> (r: Vec<u8>)
        ensures
            r@ == spec_start_ack_bytes(*self),
    {
        let mut buf: Vec<u8> = Vec::new();
        buf.push(self.status);
        buf.push(self.reserved);
        push_u16_le(&mut buf, self.initial_credits);
        proof {
            assert(buf@ =~= spec_start_ack_bytes(*self));
        }
        buf
    }

    /// Parse a START_ACK payload: succeeds exactly when at least 4 bytes are
    /// given.
    pub fn parse(data: &[u8]) -> (r: Result<Self, ProtocolError>)
        ensures
            data@.len() >= 4 ==> r == Ok::<StartAckPayload, ProtocolError>(
                spec_parse_start_ack(data@),
            ),
            data@.len() < 4 ==> r == Err::<StartAckPayload, ProtocolError>(
                ProtocolError::InvalidPayloadLength { expected: 4, actual: data@.len() as usize },
            ),
    {
        if data.len() < Self::SIZE {
            return Err(ProtocolError::InvalidPayloadLength {
                expected: Self::SIZE,
                actual: data.len(),
            });
        }

        Ok(Self { status: data[0], reserved: data[1], initial_credits: read_u16_le(data, 2) })
    }

    /// Whether the acknowledgement reports success.
    pub fn is_ok(&self) -> (r: bool)
        ensures
            r == (self.status == 0),
    {
        self.status == 0
    }
}

/// A START_ACK payload's wire encoding parses back to the payload itself.
pub proof fn lemma_start_ack_roundtrip(p: StartAckPayload)
    ensures
        spec_parse_start_ack(spec_start_ack_bytes(p)) == p,
{
    let bs = spec_start_ack_bytes(p);
    assert(bs[2] == u16_le(p.initial_credits)[0]);
    assert(bs[3] == u16_le(p.initial_credits)[1]);
    lemma_u16_le_roundtrip(p.initial_credits);
}

/// FRAME header (32 bytes, precedes the segment bytes in a FRAME payload).
#[derive(Debug, Clone, Copy, PartialEq, Eq, Structural)]
pub struct FrameHeader {
    pub frame_number: u64,
    pub pts_us: u64,
    pub capture_ts_us: u64,
    /// Total encoded bytes across all segments of the frame.
    pub frame_size: u32,
    pub segment_index: u16,
    pub segment_count: u16,
}

/// The 32 wire bytes of a FRAME header.
pub open spec fn spec_frame_header_bytes(p: FrameHeader) -> Seq<u8> {
    u64_le(p.frame_number) + u64_le(p.pts_us) + u64_le(p.capture_ts_us) + u32_le(p.frame_size)
        + u16_le(p.segment_index) + u16_le(p.segment_count)
}

/// The FRAME header read from the front of a byte sequence.
pub open spec fn spec_parse_frame_header(data: Seq<u8>) -> FrameHeader
    recommends
        data.len() >= 32,
{
    FrameHeader {
        frame_number: u64_from_le(
            data[0], data[1], data[2], data[3], data[4], data[5], data[6], data[7],
        ),
        pts_us: u64_from_le(
            data[8], data[9], data[10], data[11], data[12], data[13], data[14], data[15],
        ),
        capture_ts_us: u64_from_le(
            data[16], data[17], data[18], data[19], data[20], data[21], data[22], data[23],
        ),
        frame_size: u32_from_le(data[24], data[25], data[26], data[27]),
        segment_index: u16_from_le(data[28], data[29]),
        segment_count: u16_from_le(data[30], data[31]),
    }
}

impl FrameHeader {
    pub const SIZE: usize = 32;

    /// A frame header is valid when it has at least one segment and its
    /// segment index lies below the segment count.
    pub open spec fn valid(self) -> bool {
        &&& self.segment_count >= 1
        &&& self.segment_index < self.segment_count
    }

    pub fn new(frame_number: u64, pts_us: u64, capture_ts_us: u64, frame_size: u32, segment_index: u16, segment_count: u16) -> (r: Self)
        ensures
            r == (FrameHeader {
                frame_number,
                pts_us,
                capture_ts_us,
                frame_size,
                segment_index,
                segment_count,
            }),
    {
        Self { frame_number, pts_us, capture_ts_us, frame_size, segment_index, segment_count }
    }

    /// Serialize to the 32 wire bytes.
    pub fn to_bytes(&self) -> (r: Vec<u8>)
        ensures
            r@ == spec_frame_header_bytes(*self),
    {
        let mut buf: Vec<u8> = Vec::new();
        push_u64_le(&mut buf, self.frame_number);
        push_u64_le(&mut buf, self.pts_us);
        push_u64_le(&mut buf, self.capture_ts_us);
        push_u32_le(&mut buf, self.frame_size);
        push_u16_le(&mut buf, self.segment_index);
        push_u16_le(&mut buf, self.segment_count);
        proof {
            assert(buf@ =~= spec_frame_header_bytes(*self));
        }
        buf
    }

    /// Parse a FRAME header: succeeds exactly when at least 32 bytes are
    /// given, the segment count is nonzero, and the segment index lies below
    /// the segment count; the parsed header is then valid.
    pub fn parse(data: &[u8]) -> (r: Result<Self, ProtocolError>)
        ensures
            r is Ok <==> data@.len() >= 32 && spec_parse_frame_header(data@).valid(),
            r matches Ok(h) ==> h == spec_parse_frame_header(data@) && h.valid(),
            data@.len() < 32 ==> r == Err::<FrameHeader, ProtocolError>(
                ProtocolError::InvalidPayloadLength { expected: 32, actual: data@.len() as usize },
            ),
            data@.len() >= 32 && !spec_parse_frame_header(data@).valid() ==> (r matches Err(e)
                && e is FrameReassemblyError),
    {
        if data.len() < Self::SIZE {
            return Err(ProtocolError::InvalidPayloadLength {
                expected: Self::SIZE,
                actual: data.len(),
            });
        }

        let frame_number = read_u64_le(data, 0);
        let pts_us = read_u64_le(data, 8);
        let capture_ts_us = read_u64_le(data, 16);
        let frame_size = read_u32_le(data, 24);
        let segment_index = read_u16_le(data, 28);
        let segment_count = read_u16_le(data, 30);

        if segment_count == 0 {
            return Err(ProtocolError::FrameReassemblyError(
                "segment_count cannot be zero".to_owned(),
            ));
        }
        if segment_index >= segment_count {
            return Err(ProtocolError::FrameReassemblyError(
                "segment_index must be less than segment_count".to_owned(),
            ));
        }

        Ok(Self { frame_number, pts_us, capture_ts_us, frame_size, segment_index, segment_count })
    }
}

/// A FRAME header's wire encoding parses back to the header itself.
pub proof fn lemma_frame_header_roundtrip(p: FrameHeader)
    ensures
        spec_parse_frame_header(spec_frame_header_bytes(p)) == p,
{
    let bs = spec_frame_header_bytes(p);
    assert forall|i: int| 0 <= i < 8 implies bs[i] == u64_le(p.frame_number)[i] by {}
    assert forall|i: int| 0 <= i < 8 implies bs[8 + i] == u64_le(p.pts_us)[i] by {}
    assert forall|i: int| 0 <= i < 8 implies bs[16 + i] == u64_le(p.capture_ts_us)[i] by {}
    assert forall|i: int| 0 <= i < 4 implies bs[24 + i] == u32_le(p.frame_size)[i] by {}
    assert(bs[28] == u16_le(p.segment_index)[0]);
    assert(bs[29] == u16_le(p.segment_index)[1]);
    assert(bs[30] == u16_le(p.segment_count)[0]);
    assert(bs[31] == u16_le(p.segment_count)[1]);
    lemma_u64_le_roundtrip(p.frame_number);
    lemma_u64_le_roundtrip(p.pts_us);
    lemma_u64_le_roundtrip(p.capture_ts_us);
    lemma_u32_le_roundtrip(p.frame_size);
    lemma_u16_le_roundtrip(p.segment_index);
    lemma_u16_le_roundtrip(p.segment_count);
}

/// Parsing any buffer that begins with a FRAME header's wire encoding reads
/// back that header, whatever follows the 32 header bytes.
pub proof fn lemma_frame_header_roundtrip_prefix(h: FrameHeader, data: Seq<u8>)
    requires
        data.len() >= 32,
        data.subrange(0, 32) == spec_frame_header_bytes(h),
    ensures
        spec_parse_frame_header(data) == h,
{
    let bs = spec_frame_header_bytes(h);
    assert forall|i: int| 0 <= i < 32 implies data[i] == bs[i] by {
        assert(data.subrange(0, 32)[i] == data[i]);
    }
    assert forall|i: int| 0 <= i < 8 implies bs[i] == u64_le(h.frame_number)[i] by {}
    assert forall|i: int| 0 <= i < 8 implies bs[8 + i] == u64_le(h.pts_us)[i] by {}
    assert forall|i: int| 0 <= i < 8 implies bs[16 + i] == u64_le(h.capture_ts_us)[i] by {}
    assert forall|i: int| 0 <= i < 4 implies bs[24 + i] == u32_le(h.frame_size)[i] by {}
    assert(bs[28] == u16_le(h.segment_index)[0]);
    assert(bs[29] == u16_le(h.segment_index)[1]);
    assert(bs[30] == u16_le(h.segment_count)[0]);
    assert(bs[31] == u16_le(h.segment_count)[1]);
    lemma_u64_le_roundtrip(h.frame_number);
    lemma_u64_le_roundtrip(h.pts_us);
    lemma_u64_le_roundtrip(h.capture_ts_us);
    lemma_u32_le_roundtrip(h.frame_size);
    lemma_u16_le_roundtrip(h.segment_index);
    lemma_u16_le_roundtrip(h.segment_count);
}

/// FRAME_ACK payload (16 bytes).
#[derive(Debug, Clone, Copy, PartialEq, Eq, Structural)]
pub struct FrameAckPayload {
    pub frame_number: u64,
    pub decode_time_us: u32,
    pub credits_returned: u16,
    pub reserved: u16,
}

/// The 16 wire bytes of a FRAME_ACK payload.
pub open spec fn spec_frame_ack_bytes(p: FrameAckPayload) -> Seq<u8> {
    u64_le(p.frame_number) + u32_le(p.decode_time_us) + u16_le(p.credits_returned)
        + u16_le(p.reserved)
}

/// The FRAME_ACK payload read from the front of a byte sequence.
pub open spec fn spec_parse_frame_ack(data: Seq<u8>) -> FrameAckPayload
    recommends
        data.len() >= 16,
{
    FrameAckPayload {
        frame_number: u64_from_le(
            data[0], data[1], data[2], data[3], data[4], data[5], data[6], data[7],
        ),
        decode_time_us: u32_from_le(data[8], data[9], data[10], data[11]),
        credits_returned: u16_from_le(data[12], data[13]),
        reserved: u16_from_le(data[14], data[15]),
    }
}

impl FrameAckPayload {
    pub const SIZE: usize = 16;

    pub fn new(frame_number: u64, decode_time_us: u32, credits_returned: u16) -> (r: Self)
        ensures
            r == (FrameAckPayload { frame_number, decode_time_us, credits_returned, reserved: 0 }),
    {
        Self { frame_number, decode_time_us, credits_returned, reserved: 0 }
    }

    /// Serialize to the 16 wire bytes.
    pub fn to_bytes(&self) -> (r: Vec<u8>)
        ensures
            r@ == spec_frame_ack_bytes(*self),
    {
        let mut buf: Vec<u8> = Vec::new();
        push_u64_le(&mut buf, self.frame_number);
        push_u32_le(&mut buf, self.decode_time_us);
        push_u16_le(&mut buf, self.credits_returned);
        push_u16_le(&mut buf, self.reserved);
        proof {
            assert(buf@ =~= spec_frame_ack_bytes(*self));
        }
        buf
    }

    /// Parse a FRAME_ACK payload: succeeds exactly when at least 16 bytes are
    /// given.
    pub fn parse(data: &[u8]) -> (r: Result<Self, ProtocolError>)
        ensures
            data@.len() >= 16 ==> r == Ok::<FrameAckPayload, ProtocolError>(
                spec_parse_frame_ack(data@),
            ),
            data@.len() < 16 ==> r == Err::<FrameAckPayload, ProtocolError>(
                ProtocolError::InvalidPayloadLength { expected: 16, actual: data@.len() as usize },
            ),
    {
        if data.len() < Self::SIZE {
            return Err(ProtocolError::InvalidPayloadLength {
                expected: Self::SIZE,
                actual: data.len(),
            });
        }

        Ok(Self {
            frame_number: read_u64_le(data, 0),
            decode_time_us: read_u32_le(data, 8),
            credits_returned: read_u16_le(data, 12),
            reserved: read_u16_le(data, 14),
        })
    }
}

/// A FRAME_ACK payload's wire encoding parses back to the payload itself.
pub proof fn lemma_frame_ack_roundtrip(p: FrameAckPayload)
    ensures
        spec_parse_frame_ack(spec_frame_ack_bytes(p)) == p,
{
    let bs = spec_frame_ack_bytes(p);
    assert forall|i: int| 0 <= i < 8 implies bs[i] == u64_le(p.frame_number)[i] by {}
    assert forall|i: int| 0 <= i < 4 implies bs[8 + i] == u32_le(p.decode_time_us)[i] by {}
    assert(bs[12] == u16_le(p.credits_returned)[0]);
    assert(bs[13] == u16_le(p.credits_returned)[1]);
    assert(bs[14] == u16_le(p.reserved)[0]);
    assert(bs[15] == u16_le(p.reserved)[1]);
    lemma_u64_le_roundtrip(p.frame_number);
    lemma_u32_le_roundtrip(p.decode_time_us);
    lemma_u16_le_roundtrip(p.credits_returned);
    lemma_u16_le_roundtrip(p.reserved);
}

/// PING payload (8 bytes).
#[derive(Debug, Clone, Copy, PartialEq, Eq, Structural)]
pub struct PingPayload {
    pub timestamp_us: u64,
}

/// The 8 wire bytes of a PING payload.
pub open spec fn spec_ping_bytes(p: PingPayload) -> Seq<u8> {
    u64_le(p.timestamp_us)
}

/// The PING payload read from the front of a byte sequence.
pub open spec fn spec_parse_ping(data: Seq<u8>) -> PingPayload
    recommends
        data.len() >= 8,
{
    PingPayload {
        timestamp_us: u64_from_le(
            data[0], data[1], data[2], data[3], data[4], data[5], data[6], data[7],
        ),
    }
}

impl PingPayload {
    pub const SIZE: usize = 8;

    pub fn new(timestamp_us: u64) -> (r: Self)
        ensures
            r == (PingPayload { timestamp_us }),
    {
        Self { timestamp_us }
    }

    /// Serialize to the 8 wire bytes.
    pub fn to_bytes(&self) -> (r: Vec<u8>)
        ensures
            r@ == spec_ping_bytes(*self),
    {
        let mut buf: Vec<u8> = Vec::new();
        push_u64_le(&mut buf, self.timestamp_us);
        proof {
            assert(buf@ =~= spec_ping_bytes(*self));
        }
        buf
    }

    /// Parse a PING payload: succeeds exactly when at least 8 bytes are given.
    pub fn parse(data: &[u8]) -> (r: Result<Self, ProtocolError>)
        ensures
            data@.len() >= 8 ==> r == Ok::<PingPayload, ProtocolError>(spec_parse_ping(data@)),
            data@.len() < 8 ==> r == Err::<PingPayload, ProtocolError>(
                ProtocolError::InvalidPayloadLength { expected: 8, actual: data@.len() as usize },
            ),
    {
        if data.len() < Self::SIZE {
            return Err(ProtocolError::InvalidPayloadLength {
                expected: Self::SIZE,
                actual: data.len(),
            });
        }

        Ok(Self { timestamp_us: read_u64_le(data, 0) })
    }
}

/// A PING payload's wire encoding parses back to the payload itself.
pub proof fn lemma_ping_roundtrip(p: PingPayload)
    ensures
        spec_parse_ping(spec_ping_bytes(p)) == p,
{
    lemma_u64_le_roundtrip(p.timestamp_us);
}

/// PONG payload (16 bytes).
#[derive(Debug, Clone, Copy, PartialEq, Eq, Structural)]
pub struct PongPayload {
    pub ping_timestamp_us: u64,
    pub pong_timestamp_us: u64,
}

/// The 16 wire bytes of a PONG payload.
pub open spec fn spec_pong_bytes(p: PongPayload) -> Seq<u8> {
    u64_le(p.ping_timestamp_us) + u64_le(p.pong_timestamp_us)
}

/// The PONG payload read from the front of a byte sequence.
pub open spec fn spec_parse_pong(data: Seq<u8>) -> PongPayload
    recommends
        data.len() >= 16,
{
    PongPayload {
        ping_timestamp_us: u64_from_le(
            data[0], data[1], data[2], data[3], data[4], data[5], data[6], data[7],
        ),
        pong_timestamp_us: u64_from_le(
            data[8], data[9], data[10], data[11], data[12], data[13], data[14], data[15],
        ),
    }
}

impl PongPayload {
    pub const SIZE: usize = 16;

    pub fn new(ping_timestamp_us: u64, pong_timestamp_us: u64) -> (r: Self)
        ensures
            r == (PongPayload { ping_timestamp_us, pong_timestamp_us }),
    {
        Self { ping_timestamp_us, pong_timestamp_us }
    }

    /// Serialize to the 16 wire bytes.
    pub fn to_bytes(&self) -> (r: Vec<u8>)
        ensures
            r@ == spec_pong_bytes(*self),
    {
        let mut buf: Vec<u8> = Vec::new();
        push_u64_le(&mut buf, self.ping_timestamp_us);
        push_u64_le(&mut buf, self.pong_timestamp_us);
        proof {
            assert(buf@ =~= spec_pong_bytes(*self));
        }
        buf
    }

    /// Parse a PONG payload: succeeds exactly when at least 16 bytes are
    /// given.
    pub fn parse(data: &[u8]) -> (r: Result<Self, ProtocolError>)
        ensures
            data@.len() >= 16 ==> r == Ok::<PongPayload, ProtocolError>(spec_parse_pong(data@)),
            data@.len() < 16 ==> r == Err::<PongPayload, ProtocolError>(
                ProtocolError::InvalidPayloadLength { expected: 16, actual: data@.len() as usize },
            ),
    {
        if data.len() < Self::SIZE {
            return Err(ProtocolError::InvalidPayloadLength {
                expected: Self::SIZE,
                actual: data.len(),
            });
        }

        Ok(Self { ping_timestamp_us: read_u64_le(data, 0), pong_timestamp_us: read_u64_le(data, 8) })
    }
}

/// A PONG payload's wire encoding parses back to the payload itself.
pub proof fn lemma_pong_roundtrip(p: PongPayload)
    ensures
        spec_parse_pong(spec_pong_bytes(p)) == p,
{
    let bs = spec_pong_bytes(p);
    assert forall|i: int| 0 <= i < 8 implies bs[i] == u64_le(p.ping_timestamp_us)[i] by {}
    assert forall|i: int| 0 <= i < 8 implies bs[8 + i] == u64_le(p.pong_timestamp_us)[i] by {}
    lemma_u64_le_roundtrip(p.ping_timestamp_us);
    lemma_u64_le_roundtrip(p.pong_timestamp_us);
}

} // verus!
