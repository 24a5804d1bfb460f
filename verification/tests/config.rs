//! Tests for the configuration types and their defaults.

use serialwarp::config::{
    CMTimeStruct, CaptureConfig, DecoderConfig, EncoderConfig, RendererConfig, StreamConfig,
    VirtualDisplayConfig,
};

#[test]
fn test_config_default() {
    let config = EncoderConfig::default();
    assert_eq!(config.width, 1920);
    assert_eq!(config.height, 1080);
    assert_eq!(config.fps, 60);
    assert_eq!(config.bitrate_bps, 20_000_000);
}

#[test]
fn lib_test_config_default() {
    let config = VirtualDisplayConfig::default();
    assert_eq!(config.max_width, 1920);
    assert_eq!(config.max_height, 1080);
    assert_eq!(config.refresh_rate, 60);
    assert!(!config.hidpi);
}

#[test]
fn test_decoder_config_default() {
    let config = DecoderConfig::default();
    assert!(config.thread_count.is_none());
}

#[test]
fn test_renderer_config_default() {
    let config = RendererConfig::default();
    assert_eq!(config.width, 1920);
    assert_eq!(config.height, 1080);
    assert!(!config.fullscreen);
    assert!(config.vsync);
}

#[test]
fn test_cmtime_creation() {
    let time = CMTimeStruct::new(1000, 1_000_000);
    assert_eq!(time.value, 1000);
    assert_eq!(time.timescale, 1_000_000);
}

#[test]
fn capture_config_default() {
    let config = CaptureConfig::default();
    assert_eq!(config.width, 1920);
    assert_eq!(config.height, 1080);
    assert_eq!(config.fps, 60);
}

#[test]
fn cmtime_invalid_is_all_zero() {
    let time = CMTimeStruct::invalid();
    assert_eq!(time.value, 0);
    assert_eq!(time.timescale, 0);
    assert_eq!(time.flags, 0);
    assert_eq!(time.epoch, 0);
}

#[test]
fn stream_config_conversions() {
    let stream = StreamConfig {
        width: 2560,
        height: 1440,
        fps: 30,
        bitrate_mbps: 15,
        hidpi: true,
    };

    let vdisp = stream.to_virtual_display_config();
    assert_eq!(vdisp.max_width, 2560);
    assert_eq!(vdisp.max_height, 1440);
    assert_eq!(vdisp.refresh_rate, 30);
    assert!(vdisp.hidpi);

    let capture = stream.to_capture_config(7);
    assert_eq!(capture.display_id, 7);
    assert_eq!(capture.width, 2560);

    let encoder = stream.to_encoder_config();
    assert_eq!(encoder.bitrate_bps, 15_000_000);
    assert_eq!(encoder.keyframe_interval, 30);
    assert!(encoder.low_latency);
}
