//! The exact codec registrations both peers make. The SFU matches these
//! byte-for-byte: payload types, clock rates, channel counts and fmtp
//! lines must not drift.

use vstd::prelude::*;
use vstd::string::StringExecFns;

verus! {

/// One codec as registered with the peer's media engine.
pub struct CodecParams {
    pub mime_type: String,
    pub clock_rate: u32,
    pub channels: u16,
    pub fmtp: String,
    pub payload_type: u8,
}

/// The Opus registration both pipelines use: 48 kHz stereo, payload type
/// 111, FEC and DTX on, 128 kbit/s average cap.
pub fn opus_codec_params() -> (r: CodecParams)
    ensures
        r.mime_type@ == "audio/opus"@,
        r.clock_rate == 48000,
        r.channels == 2,
        r.fmtp@ == "minptime=10;useinbandfec=1;usedtx=1;maxaveragebitrate=128000"@,
        r.payload_type == 111,
{
    CodecParams {
        mime_type: String::from_str("audio/opus"),
        clock_rate: 48000,
        channels: 2,
        fmtp: String::from_str("minptime=10;useinbandfec=1;usedtx=1;maxaveragebitrate=128000"),
        payload_type: 111,
    }
}

/// The H.264 registration of the screen peer: 90 kHz, payload type 102,
/// constrained baseline at level 3.1, packetization mode 1.
pub fn h264_codec_params() -> (r: CodecParams)
    ensures
        r.mime_type@ == "video/H264"@,
        r.clock_rate == 90000,
        r.channels == 0,
        r.fmtp@ == "level-asymmetry-allowed=1;packetization-mode=1;profile-level-id=42e01f"@,
        r.payload_type == 102,
{
    CodecParams {
        mime_type: String::from_str("video/H264"),
        clock_rate: 90000,
        channels: 0,
        fmtp: String::from_str(
            "level-asymmetry-allowed=1;packetization-mode=1;profile-level-id=42e01f",
        ),
        payload_type: 102,
    }
}

/// The one ICE server both peers are configured with.
pub fn stun_server_url() -> (r: &'static str)
    ensures
        r@ == "stun:stun.l.google.com:19302"@,
{
    "stun:stun.l.google.com:19302"
}

} // verus!
