use media_engine::rtp::{encode_step, RtpTimeline};
use media_engine::speaking::SpeakingHold;
use media_engine::resampler::{
    capture_ring_size, device_frame_samples, playback_ring_size, resampler_output_frames,
};

#[test]
fn unmuted_step_advances_sequence_and_timestamp() {
    let mut tl = RtpTimeline::new();
    let h = encode_step(&mut tl, false, 111).unwrap();
    assert_eq!(h.sequence_number, 0);
    assert_eq!(h.timestamp, 0);
    assert_eq!(h.payload_type, 111);
    assert_eq!(h.version, 2);
    assert_eq!(h.ssrc, 0);
    assert!(!h.marker);
    assert_eq!(tl.sequence, 1);
    assert_eq!(tl.timestamp, 960);
    let h2 = encode_step(&mut tl, false, 111).unwrap();
    assert_eq!(h2.sequence_number, 1);
    assert_eq!(h2.timestamp, 960);
}

#[test]
fn muted_second_keeps_timeline_moving() {
    // 1 s of muted 20 ms frames: no packet leaves, yet the timestamp
    // advances by a full second of samples.
    let mut tl = RtpTimeline::new();
    let mut packets = 0;
    for _ in 0..50 {
        if encode_step(&mut tl, true, 111).is_some() {
            packets += 1;
        }
    }
    assert_eq!(packets, 0);
    assert_eq!(tl.sequence, 0);
    assert_eq!(tl.timestamp, 48000);
}

#[test]
fn sequence_wraps_at_u16() {
    let mut tl = RtpTimeline { sequence: 0xffff, timestamp: 0 };
    tl.advance_sent();
    assert_eq!(tl.sequence, 0);
}

#[test]
fn timestamp_wraps_at_u32() {
    let mut tl = RtpTimeline { sequence: 0, timestamp: u32::MAX - 100 };
    tl.advance_muted();
    assert_eq!(tl.timestamp, 859);
}

#[test]
fn speaking_burst_emits_one_rise_and_one_fall() {
    // A one-second 440 Hz tone at amplitude 0.2 keeps the smoothed RMS far
    // above threshold for every 20 ms frame, then silence follows.
    let mut hold = SpeakingHold::new();
    let mut rises = 0;
    let mut falls = 0;
    for _ in 0..50 {
        match hold.step(true, 20) {
            Some(true) => rises += 1,
            Some(false) => falls += 1,
            None => {},
        }
    }
    for _ in 0..50 {
        match hold.step(false, 20) {
            Some(true) => rises += 1,
            Some(false) => falls += 1,
            None => {},
        }
    }
    assert_eq!(rises, 1);
    assert_eq!(falls, 1);
}

#[test]
fn hold_releases_after_exactly_250_ms() {
    let mut hold = SpeakingHold::new();
    assert_eq!(hold.step(true, 20), Some(true));
    // Quiet frames: the hold covers 250 ms past the loud frame's clock.
    // Frames ending at 40..=260 ms stay speaking; 270 ms > 20+250 flips.
    for _ in 0..12 {
        assert_eq!(hold.step(false, 20), None);
    }
    assert_eq!(hold.step(false, 20), Some(false));
    // And only once.
    assert_eq!(hold.step(false, 20), None);
}

#[test]
fn reset_forgets_the_hold() {
    let mut hold = SpeakingHold::new();
    hold.step(true, 20);
    hold.reset();
    assert!(!hold.was_speaking);
    assert_eq!(hold.clock_ms, 0);
    assert_eq!(hold.hold_until_ms, 0);
}

#[test]
fn resampler_output_length_formula() {
    // 44.1 kHz -> 48 kHz on a 20 ms chunk of 882 frames.
    assert_eq!(resampler_output_frames(882, 44100, 48000), 960);
    // 48 kHz -> 44.1 kHz on a 960-frame chunk: ceil(960*44100/48000) = 882.
    assert_eq!(resampler_output_frames(960, 48000, 44100), 882);
    // Non-dividing rates round up.
    assert_eq!(resampler_output_frames(1000, 44100, 48000), 1089);
}

#[test]
fn frame_and_ring_sizes() {
    // 20 ms at 44.1 kHz stereo: ceil(960*44100/48000) * 2 = 882 * 2.
    assert_eq!(device_frame_samples(44100, 2), 1764);
    assert_eq!(device_frame_samples(48000, 2), 1920);
    // 200 ms at 48 kHz stereo.
    assert_eq!(capture_ring_size(48000, 2), 19200);
    // Small rates fall back to the floor capacity.
    assert_eq!(capture_ring_size(8000, 1), 8192);
    // 500 ms at 48 kHz stereo.
    assert_eq!(playback_ring_size(48000, 2), 48000);
    assert_eq!(playback_ring_size(8000, 1), 16384);
}
