//! Verified core of a USB link-cable video streaming system.
//!
//! The crate implements the framed, credit-paced, segmented wire protocol
//! spoken between a video producer (source) and a video consumer (sink):
//! packet serialization and parsing with CRC validation, frame segmentation
//! and reassembly, and the two peer state machines with their flow-control
//! credit accounting.

pub mod annexb;
pub mod checksum;
pub mod config;
pub mod error;
pub mod frame;
pub mod protocol;
pub mod sink;
pub mod source;
pub mod usb;
pub mod wire;
