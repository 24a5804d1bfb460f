//! Configuration types for the capture, encode, decode, render and virtual
//! display stages, and the stream configuration chosen in the user
//! interface.

use vstd::prelude::*;

verus! {

/// Encoder configuration.
#[derive(Debug, Clone, PartialEq, Eq, Structural)]
pub struct EncoderConfig {
    /// Video width in pixels.
    pub width: u32,
    /// Video height in pixels.
    pub height: u32,
    /// Target frames per second.
    pub fps: u32,
    /// Target bitrate in bits per second.
    pub bitrate_bps: u32,
    /// Keyframe interval (GOP size).
    pub keyframe_interval: u32,
    /// Enable low-latency mode.
    pub low_latency: bool,
}

impl Default for EncoderConfig {
    fn default() -> (r: Self)
        ensures
            r == (EncoderConfig {
                width: 1920,
                height: 1080,
                fps: 60,
                bitrate_bps: 20_000_000,
                keyframe_interval: 30,
                low_latency: true,
            }),
    {
        Self {
            width: 1920,
            height: 1080,
            fps: 60,
            bitrate_bps: 20_000_000,
            keyframe_interval: 30,
            low_latency: true,
        }
    }
}

/// Decoder configuration.
#[derive(Debug, Clone, PartialEq, Eq)]
pub struct DecoderConfig {
    /// Number of threads to use for decoding (None = auto).
    pub thread_count: Option<usize>,
}

impl Default for DecoderConfig {
    fn default() -> (r: Self)
        ensures
            r.thread_count is None,
    {
        Self { thread_count: None }
    }
}

/// Capture configuration.
#[derive(Debug, Clone, PartialEq, Eq, Structural)]
pub struct CaptureConfig {
    /// Display identifier to capture.
    pub display_id: u32,
    /// Capture width in pixels.
    pub width: u32,
    /// Capture height in pixels.
    pub height: u32,
    /// Target frames per second.
    pub fps: u32,
}

impl Default for CaptureConfig {
    fn default() -> (r: Self)
        ensures
            r == (CaptureConfig { display_id: 0, width: 1920, height: 1080, fps: 60 }),
    {
        Self { display_id: 0, width: 1920, height: 1080, fps: 60 }
    }
}

/// Renderer configuration.
#[derive(Debug, Clone, PartialEq, Eq)]
pub struct RendererConfig {
    /// Window title.
    pub title: String,
    /// Initial window width.
    pub width: u32,
    /// Initial window height.
    pub height: u32,
    /// Start in fullscreen mode.
    pub fullscreen: bool,
    /// Enable vertical sync.
    pub vsync: bool,
}

impl Default for RendererConfig {
    fn default() -> (r: Self)
        ensures
            r.title@ == "serialwarp"@,
            r.width == 1920,
            r.height == 1080,
            !r.fullscreen,
            r.vsync,
    {
        Self { title: "serialwarp".to_owned(), width: 1920, height: 1080, fullscreen: false, vsync: true }
    }
}

/// Virtual display configuration.
#[derive(Debug, Clone, PartialEq, Eq)]
pub struct VirtualDisplayConfig {
    /// Display name.
    pub name: String,
    /// Maximum width in pixels.
    pub max_width: u32,
    /// Maximum height in pixels.
    pub max_height: u32,
    /// Refresh rate in Hz.
    pub refresh_rate: u32,
    /// Enable HiDPI (retina) mode.
    pub hidpi: bool,
}

impl Default for VirtualDisplayConfig {
    fn default() -> (r: Self)
        ensures
            r.name@ == "serialwarp"@,
            r.max_width == 1920,
            r.max_height == 1080,
            r.refresh_rate == 60,
            !r.hidpi,
    {
        Self {
            name: "serialwarp".to_owned(),
            max_width: 1920,
            max_height: 1080,
            refresh_rate: 60,
            hidpi: false,
        }
    }
}

/// Stream configuration chosen in the user interface.
#[derive(Debug, Clone, PartialEq, Eq, Structural)]
pub struct StreamConfig {
    pub width: u32,
    pub height: u32,
    pub fps: u32,
    pub bitrate_mbps: u32,
    pub hidpi: bool,
}

impl Default for StreamConfig {
    fn default() -> (r: Self)
        ensures
            r == (StreamConfig { width: 1920, height: 1080, fps: 60, bitrate_mbps: 20, hidpi: false }),
    {
        Self { width: 1920, height: 1080, fps: 60, bitrate_mbps: 20, hidpi: false }
    }
}

impl StreamConfig {
    /// The virtual display this stream runs on.
    pub fn to_virtual_display_config(&self) -> (r: VirtualDisplayConfig)
        ensures
            r.name@ == "SerialWarp"@,
            r.max_width == self.width,
            r.max_height == self.height,
            r.refresh_rate == self.fps,
            r.hidpi == self.hidpi,
    {
        VirtualDisplayConfig {
            name: "SerialWarp".to_owned(),
            max_width: self.width,
            max_height: self.height,
            refresh_rate: self.fps,
            hidpi: self.hidpi,
        }
    }

    /// The capture configuration for this stream on a given display.
    pub fn to_capture_config(&self, display_id: u32) -> (r: CaptureConfig)
        ensures
            r == (CaptureConfig {
                display_id,
                width: self.width,
                height: self.height,
                fps: self.fps,
            }),
    {
        CaptureConfig { display_id, width: self.width, height: self.height, fps: self.fps }
    }

    /// The encoder configuration for this stream: the bitrate converted to
    /// bits per second and a one-second keyframe interval.
    pub fn to_encoder_config(&self) -> (r: EncoderConfig)
        requires
            self.bitrate_mbps * 1_000_000 <= u32::MAX,
        ensures
            r == (EncoderConfig {
                width: self.width,
                height: self.height,
                fps: self.fps,
                bitrate_bps: (self.bitrate_mbps * 1_000_000) as u32,
                keyframe_interval: self.fps,
                low_latency: true,
            }),
    {
        EncoderConfig {
            width: self.width,
            height: self.height,
            fps: self.fps,
            bitrate_bps: self.bitrate_mbps * 1_000_000,
            keyframe_interval: self.fps,
            low_latency: true,
        }
    }
}

/// A timestamp value in the form the platform encoder's API takes: a counted
/// value over a timescale, with validity flags.
#[derive(Debug, Clone, Copy, PartialEq, Eq, Structural)]
pub struct CMTimeStruct {
    pub value: i64,
    pub timescale: i32,
    pub flags: u32,
    pub epoch: i64,
}

impl CMTimeStruct {
    /// A valid timestamp of `value` counts over the given timescale.
    pub fn new(value: i64, timescale: i32) -> (r: Self)
        ensures
            r == (CMTimeStruct { value, timescale, flags: 1, epoch: 0 }),
    {
        Self { value, timescale, flags: 1, epoch: 0 }
    }

    /// The invalid timestamp.
    pub fn invalid() -> (r: Self)
        ensures
            r == (CMTimeStruct { value: 0, timescale: 0, flags: 0, epoch: 0 }),
    {
        Self { value: 0, timescale: 0, flags: 0, epoch: 0 }
    }
}

} // verus!
