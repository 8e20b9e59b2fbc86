//! RTP timeline accounting for the Opus encode loops.
//!
//! Both the microphone encode task and the screen-audio encode loop stamp
//! each 20 ms frame with a sequence number and a timestamp. The timestamp
//! advances by 960 for every frame taken off the ring, whether or not the
//! frame was muted; the sequence number advances only when a packet is
//! actually emitted, so the stream stays strictly monotone modulo wrap.

use vstd::prelude::*;

verus! {

/// Field values of an outgoing RTP header, as both encode loops fill them.
pub struct RtpHeaderFields {
    pub version: u8,
    pub padding: bool,
    pub extension: bool,
    pub marker: bool,
    pub payload_type: u8,
    pub sequence_number: u16,
    pub timestamp: u32,
    pub ssrc: u32,
}

/// Sequence/timestamp state of one outgoing RTP stream.
pub struct RtpTimeline {
    pub sequence: u16,
    pub timestamp: u32,
}

/// The sequence number after one emitted packet, wrapping as a u16.
pub open spec fn seq_next(s: u16) -> u16 {
    ((s + 1) % 0x1_0000) as u16
}

/// The timestamp after one 20 ms frame, wrapping as a u32.
pub open spec fn ts_next(t: u32) -> u32 {
    ((t + 960) % 0x1_0000_0000) as u32
}

impl RtpTimeline {
    /// A fresh stream starts at sequence 0, timestamp 0.
    pub fn new() -> (r: RtpTimeline)
        ensures
            r.sequence == 0,
            r.timestamp == 0,
    {
        RtpTimeline { sequence: 0, timestamp: 0 }
    }

    /// One frame was encoded and sent: both counters advance.
    pub fn advance_sent(&mut self)
        ensures
            final(self).sequence == seq_next(old(self).sequence),
            final(self).timestamp == ts_next(old(self).timestamp),
    {
        self.sequence = if self.sequence == 0xffff {
            0
        } else {
            self.sequence + 1
        };
        self.timestamp = if self.timestamp >= 0xffff_fc40u32 {
            self.timestamp - 0xffff_fc40u32
        } else {
            self.timestamp + 960
        };
    }

    /// One frame was taken while muted: the timeline keeps moving but no
    /// packet (and no sequence number) is spent on it.
    pub fn advance_muted(&mut self)
        ensures
            final(self).sequence == old(self).sequence,
            final(self).timestamp == ts_next(old(self).timestamp),
    {
        self.timestamp = if self.timestamp >= 0xffff_fc40u32 {
            self.timestamp - 0xffff_fc40u32
        } else {
            self.timestamp + 960
        };
    }
}

/// One steady-state step of an Opus encode loop, after a full frame has
/// been drained from the ring: stamp a header when unmuted, advance the
/// timeline either way.
pub fn encode_step(tl: &mut RtpTimeline, muted: bool, payload_type: u8) -> (r: Option<
    RtpHeaderFields,
>)
    ensures
        final(tl).timestamp == ts_next(old(tl).timestamp),
        muted ==> r.is_none() && final(tl).sequence == old(tl).sequence,
        !muted ==> final(tl).sequence == seq_next(old(tl).sequence),
        !muted ==> (r matches Some(h) && h == (RtpHeaderFields {
            version: 2,
            padding: false,
            extension: false,
            marker: false,
            payload_type: payload_type,
            sequence_number: old(tl).sequence,
            timestamp: old(tl).timestamp,
            ssrc: 0,
        })),
{
    if muted {
        tl.advance_muted();
        None
    } else {
        let h = RtpHeaderFields {
            version: 2,
            padding: false,
            extension: false,
            marker: false,
            payload_type: payload_type,
            sequence_number: tl.sequence,
            timestamp: tl.timestamp,
            ssrc: 0,
        };
        tl.advance_sent();
        Some(h)
    }
}

/// Per frame taken at steady state the timestamp advances by exactly 960
/// modulo wrap, whether or not the frame was muted; the sequence number
/// advances by exactly 1 modulo wrap on every unmuted frame and is left
/// untouched by a muted one.
pub proof fn lemma_timeline_step(pre: RtpTimeline, post: RtpTimeline, muted: bool)
    requires
        post.timestamp == ts_next(pre.timestamp),
        post.sequence == if muted {
            pre.sequence
        } else {
            seq_next(pre.sequence)
        },
    ensures
        post.timestamp == (pre.timestamp + 960) % 0x1_0000_0000,
        !muted ==> post.sequence == (pre.sequence + 1) % 0x1_0000,
        muted ==> post.sequence == pre.sequence,
{
}

/// Because the timestamp moves by 960 on every frame, muted or not, a
/// stream that has taken `n` frames since `RtpTimeline::new` stands at
/// exactly `960 * n` modulo wrap — a muted stretch never rewinds or stalls
/// the timeline. The step from `n` to `n + 1` frames is `ts_next`.
pub proof fn lemma_timeline_after_frames(n: nat)
    ensures
        ts_next(((960 * (n as int)) % 0x1_0000_0000) as u32) as int == (960 * (n as int
            + 1)) % 0x1_0000_0000,
{
    let m: int = 0x1_0000_0000;
    let t: int = (960 * (n as int)) % m;
    vstd::arithmetic::div_mod::lemma_add_mod_noop(960 * (n as int), 960, m);
    vstd::arithmetic::div_mod::lemma_mod_bound(960 * (n as int), m);
    assert((t + 960) % m == (960 * (n as int) + 960) % m);
    assert(960 * (n as int + 1) == 960 * (n as int) + 960) by (nonlinear_arith);
}

} // verus!
