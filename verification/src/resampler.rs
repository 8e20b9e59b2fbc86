//! The output-size arithmetic of the fixed-input-size resampler.
//!
//! The resampler itself is an FFT engine over float PCM and runs next to
//! the device streams; what the pipeline depends on is that a chunk of
//! `input_frames` frames comes back as exactly
//! `ceil(input_frames * to_rate / from_rate)` frames, and that the frame
//! drained from the ring per 20 ms tick is `ceil(960 * rate / 48000)`
//! frames of `channels` samples. Those two formulas live here.

use vstd::prelude::*;

verus! {

/// `ceil(a / b)` over the integers.
pub open spec fn ceil_div(a: int, b: int) -> int {
    (a + b - 1) / b
}

/// Frames one resampler call returns for `input_frames` input frames.
pub open spec fn spec_output_frames(input_frames: int, from_rate: int, to_rate: int) -> int {
    ceil_div(input_frames * to_rate, from_rate)
}

/// The number of frames a resampler converting `from_rate` to `to_rate`
/// produces per chunk of `input_frames` frames.
pub fn resampler_output_frames(input_frames: u64, from_rate: u32, to_rate: u32) -> (r: u64)
    requires
        from_rate > 0,
        input_frames * to_rate + from_rate <= u64::MAX,
    ensures
        r == spec_output_frames(input_frames as int, from_rate as int, to_rate as int),
{
    (input_frames * to_rate as u64 + from_rate as u64 - 1) / from_rate as u64
}

/// The ceiling formula is the least count whose duration covers the input:
/// `r` output frames at `to_rate` span at least as long as `input_frames`
/// at `from_rate`, and one frame fewer would fall short.
pub proof fn lemma_output_frames_is_ceil(input_frames: int, from_rate: int, to_rate: int)
    requires
        from_rate > 0,
        input_frames >= 0,
        to_rate >= 0,
    ensures
        spec_output_frames(input_frames, from_rate, to_rate) * from_rate >= input_frames * to_rate,
        (spec_output_frames(input_frames, from_rate, to_rate) - 1) * from_rate < input_frames
            * to_rate,
{
    let a = input_frames * to_rate;
    let b = from_rate;
    let q = (a + b - 1) / b;
    assert(a + b - 1 == b * ((a + b - 1) / b) + (a + b - 1) % b) by {
        vstd::arithmetic::div_mod::lemma_fundamental_div_mod(a + b - 1, b);
    }
    assert(0 <= (a + b - 1) % b < b) by {
        vstd::arithmetic::div_mod::lemma_mod_bound(a + b - 1, b);
    }
    assert(q * b == b * q) by (nonlinear_arith);
    assert((q - 1) * b == b * q - b) by (nonlinear_arith);
}

/// Interleaved samples drained from the capture ring per 20 ms frame at a
/// device rate of `rate` and `channels` channels:
/// `ceil(960 * rate / 48000) * channels`.
pub fn device_frame_samples(rate: u32, channels: u32) -> (r: u64)
    ensures
        r == ceil_div(960 * rate as int, 48000) * channels as int,
{
    let frames: u128 = (960u128 * rate as u128 + 48000 - 1) / 48000;
    proof {
        vstd::arithmetic::div_mod::lemma_div_is_ordered(
            960int * (rate as int) + 47999,
            960int * 0xffff_ffff + 47999,
            48000,
        );
        assert((960int * 0xffff_ffff + 47999) / 48000 < 0x1_0000_0000);
        assert((frames as int) * (channels as int) < 0x1_0000_0000 * 0x1_0000_0000)
            by (nonlinear_arith)
            requires
                (frames as int) < 0x1_0000_0000,
                (channels as int) < 0x1_0000_0000,
                0 <= frames as int,
                0 <= channels as int,
        ;
    }
    let samples: u128 = frames * channels as u128;
    samples as u64
}

/// Capture-side ring capacity: at least 200 ms of interleaved samples at
/// the device rate, and never below 8192.
pub fn capture_ring_size(rate: u32, channels: u32) -> (r: u64)
    ensures
        r == if rate as int * channels as int * 200 / 1000 > 8192 {
            rate as int * channels as int * 200 / 1000
        } else {
            8192int
        },
{
    let wanted: u64 = ring_samples(rate, channels, 200);
    if wanted > 8192 {
        wanted
    } else {
        8192
    }
}

/// Playback-side ring capacity: at least 500 ms of interleaved samples at
/// the device rate, and never below 16384.
pub fn playback_ring_size(rate: u32, channels: u32) -> (r: u64)
    ensures
        r == if rate as int * channels as int * 500 / 1000 > 16384 {
            rate as int * channels as int * 500 / 1000
        } else {
            16384int
        },
{
    let wanted: u64 = ring_samples(rate, channels, 500);
    if wanted > 16384 {
        wanted
    } else {
        16384
    }
}

/// Interleaved sample count covering `ms` milliseconds at the given rate
/// and channel count.
fn ring_samples(rate: u32, channels: u32, ms: u32) -> (r: u64)
    requires
        ms <= 1000,
    ensures
        r == rate as int * channels as int * ms as int / 1000,
{
    proof {
        assert((rate as int) * (channels as int) < 0x1_0000_0000 * 0x1_0000_0000)
            by (nonlinear_arith)
            requires
                rate < 0x1_0000_0000u64,
                channels < 0x1_0000_0000u64,
        ;
        assert((rate as int) * (channels as int) * (ms as int) < 0x1_0000_0000 * 0x1_0000_0000
            * 1001) by (nonlinear_arith)
            requires
                (rate as int) * (channels as int) < 0x1_0000_0000 * 0x1_0000_0000,
                0 <= (rate as int) * (channels as int),
                ms <= 1000,
        ;
    }
    let prod: u128 = rate as u128 * channels as u128 * ms as u128;
    let out: u128 = prod / 1000;
    proof {
        assert(out * 1000 <= prod && prod <= 0xffff_ffffu128 * 0xffff_ffffu128 * 1000)
            by (nonlinear_arith)
            requires
                out == prod / 1000,
                prod == (rate as int) * (channels as int) * (ms as int),
                rate <= 0xffff_ffffu64,
                channels <= 0xffff_ffffu64,
                ms <= 1000,
        ;
        assert(out <= 0xffff_ffffu128 * 0xffff_ffffu128) by (nonlinear_arith)
            requires
                out * 1000 <= 0xffff_ffffu128 * 0xffff_ffffu128 * 1000,
        ;
    }
    out as u64
}

} // verus!
