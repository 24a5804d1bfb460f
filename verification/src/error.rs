//! Typed errors for the transport, protocol, codec, capture, display and
//! render layers.

use vstd::prelude::*;

verus! {

/// Protocol-level errors raised while parsing or validating packets.
#[derive(Debug, Clone, PartialEq, Eq)]
pub enum ProtocolError {
    /// The packet's magic field does not match the protocol magic.
    InvalidMagic(u32),
    /// The trailing CRC does not match the CRC computed over header and payload.
    ChecksumMismatch { expected: u32, actual: u32 },
    /// The packet's version field is not the supported protocol version.
    UnsupportedVersion(u8),
    /// The packet's type field maps to no known packet type.
    UnknownPacketType(u8),
    /// A typed payload is shorter than its fixed size, or structurally invalid.
    InvalidPayloadLength { expected: usize, actual: usize },
    /// The buffer is too short to hold what the header promises.
    BufferTooShort { needed: usize, available: usize },
    /// A sequence number other than the expected one was observed.
    InvalidSequence { expected: u32, actual: u32 },
    /// A packet of an unexpected type arrived.
    UnexpectedPacketType { expected: &'static str, actual: u8 },
    /// The handshake cannot proceed; the session is fatally broken.
    HandshakeFailed(String),
    /// A frame segment header is structurally invalid.
    FrameReassemblyError(String),
}

/// Transport-level errors raised by the byte conduit between the peers.
#[derive(Debug, Clone, PartialEq, Eq)]
pub enum TransportError {
    DeviceNotFound,
    Disconnected,
    Timeout { duration_ms: u64 },
    UsbError(String),
    IoError(String),
    ConnectionRefused,
    ChannelClosed,
}

/// Video encoding errors.
#[derive(Debug, Clone, PartialEq, Eq)]
pub enum EncodeError {
    SessionCreationFailed(i32),
    EncodingFailed(i32),
    FlushFailed(i32),
    PropertySetFailed { property: String, status: i32 },
    InvalidPixelBuffer,
    NoOutput,
    NotReady,
    InvalidInput(String),
    PixelBufferFailed(i32),
}

/// Video decoding errors.
#[derive(Debug, Clone, PartialEq, Eq)]
pub enum DecodeError {
    CodecNotFound,
    ContextCreationFailed,
    OpenFailed,
    DecodingFailed(String),
    ConversionFailed,
    InvalidFrameData,
    FfmpegError(String),
}

/// Screen capture errors.
#[derive(Debug, Clone, PartialEq, Eq)]
pub enum CaptureError {
    DisplayNotFound(u32),
    StreamCreationFailed,
    PermissionDenied,
    InvalidConfiguration(String),
    CaptureFailed(String),
}

/// Virtual display errors.
#[derive(Debug, Clone, PartialEq, Eq)]
pub enum DisplayError {
    CreationFailed,
    InvalidConfiguration(String),
    AlreadyExists,
    NotAvailable,
}

/// Rendering errors.
#[derive(Debug, Clone, PartialEq, Eq)]
pub enum RenderError {
    SdlInitFailed(String),
    WindowCreationFailed(String),
    RendererCreationFailed(String),
    TextureCreationFailed(String),
    TextureUpdateFailed(String),
    RenderFailed(String),
}

} // verus!
