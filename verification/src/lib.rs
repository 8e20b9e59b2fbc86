//! Verified core of a desktop voice/screen-share media engine.
//!
//! The library holds the logic of the real-time pipelines — pixel-format
//! conversion, alpha-crop detection, frame extraction, RTP timeline
//! accounting, speaking-state holding, MJPEG framing, preview downscaling,
//! device-list parsing, codec parameters and engine lifecycle decisions —
//! each with a contract checked by Verus. Device I/O, the PipeWire loops,
//! the peer connections and the encoders live outside and call in.

pub mod clipboard;
pub mod codec;
pub mod crop;
pub mod devices;
pub mod engine;
pub mod frame;
pub mod mjpeg;
pub mod pixel;
pub mod preview;
pub mod resampler;
pub mod rtp;
pub mod speaking;
pub mod types;

use vstd::prelude::*;

verus! {

/// Samples per 20 ms Opus frame at 48 kHz.
pub const OPUS_FRAME_SAMPLES: u32 = 960;

/// The RTP payload type used for Opus on both pipelines.
pub const OPUS_PAYLOAD_TYPE: u8 = 111;

/// The RTP payload type used for H.264 on the screen pipeline.
pub const H264_PAYLOAD_TYPE: u8 = 102;

} // verus!
