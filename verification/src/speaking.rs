//! The hold-timer half of the speaking detector.
//!
//! The detector smooths the microphone RMS with an EMA and compares it to a
//! threshold; that float comparison happens next to the device stream. What
//! it feeds this machine is one bit per frame — whether the smoothed level
//! is above the threshold — together with the frame's nominal duration.
//! The machine keeps the millisecond clock and the hold timer: a loud frame
//! re-arms the timer 250 ms into the future, a quiet frame keeps the state
//! speaking until the clock passes the timer, and an event is emitted only
//! when the reported state flips.

use vstd::prelude::*;

verus! {

/// How long the detector keeps reporting speaking after the level drops.
pub const HOLD_MS: u64 = 250;

/// Clock, hold timer and last reported state of the speaking detector.
pub struct SpeakingHold {
    pub was_speaking: bool,
    pub hold_until_ms: u64,
    pub clock_ms: u64,
}

/// The full transition relation of one frame: the clock advances by the
/// frame duration; a loud frame re-arms the hold timer and reports
/// speaking; a quiet frame reports speaking exactly while the clock is
/// still before the timer; an event comes out exactly on a flip.
pub open spec fn hold_step(
    pre: SpeakingHold,
    loud: bool,
    frame_ms: u64,
    post: SpeakingHold,
    r: Option<bool>,
) -> bool {
    let clock: int = pre.clock_ms + frame_ms;
    let speaking = loud || clock < pre.hold_until_ms;
    post.clock_ms == clock && post.hold_until_ms == (if loud {
        clock + HOLD_MS
    } else {
        pre.hold_until_ms as int
    }) && post.was_speaking == speaking && r == (if speaking != pre.was_speaking {
        Some(speaking)
    } else {
        None::<bool>
    })
}

impl SpeakingHold {
    /// A fresh detector: silent, clock at zero, timer expired.
    pub fn new() -> (r: SpeakingHold)
        ensures
            !r.was_speaking,
            r.hold_until_ms == 0,
            r.clock_ms == 0,
    {
        SpeakingHold { was_speaking: false, hold_until_ms: 0, clock_ms: 0 }
    }

    /// Forget everything, as if freshly created.
    pub fn reset(&mut self)
        ensures
            !final(self).was_speaking,
            final(self).hold_until_ms == 0,
            final(self).clock_ms == 0,
    {
        self.was_speaking = false;
        self.hold_until_ms = 0;
        self.clock_ms = 0;
    }

    /// Process one frame, given whether the smoothed level was above the
    /// speaking threshold, and report a state change if there was one.
    pub fn step(&mut self, loud: bool, frame_ms: u64) -> (r: Option<bool>)
        requires
            old(self).clock_ms + frame_ms + HOLD_MS <= u64::MAX,
        ensures
            hold_step(*old(self), loud, frame_ms, *final(self), r),
    {
        self.clock_ms = self.clock_ms + frame_ms;
        let is_speaking = if loud {
            self.hold_until_ms = self.clock_ms + HOLD_MS;
            true
        } else {
            self.clock_ms < self.hold_until_ms
        };
        if is_speaking != self.was_speaking {
            self.was_speaking = is_speaking;
            Some(is_speaking)
        } else {
            None
        }
    }
}

/// A loud frame arms the hold timer exactly 250 ms past the current clock
/// and reports speaking; the event fires only if the detector was silent.
pub proof fn lemma_loud_arms_hold(
    pre: SpeakingHold,
    frame_ms: u64,
    post: SpeakingHold,
    r: Option<bool>,
)
    requires
        hold_step(pre, true, frame_ms, post, r),
    ensures
        post.was_speaking,
        post.hold_until_ms == post.clock_ms + HOLD_MS,
        r == if pre.was_speaking {
            None::<bool>
        } else {
            Some(true)
        },
{
}

/// While the clock stays short of the hold timer, a quiet frame keeps the
/// detector speaking and emits nothing: the state held since the last loud
/// frame persists for the full 250 ms.
pub proof fn lemma_hold_keeps_speaking(
    pre: SpeakingHold,
    frame_ms: u64,
    post: SpeakingHold,
    r: Option<bool>,
)
    requires
        hold_step(pre, false, frame_ms, post, r),
        pre.was_speaking,
        pre.clock_ms + frame_ms < pre.hold_until_ms,
    ensures
        post.was_speaking,
        r.is_none(),
        post.hold_until_ms == pre.hold_until_ms,
{
}

/// The first quiet frame that carries the clock to or past the hold timer
/// flips the detector to silent and emits exactly one not-speaking event.
pub proof fn lemma_hold_expires(
    pre: SpeakingHold,
    frame_ms: u64,
    post: SpeakingHold,
    r: Option<bool>,
)
    requires
        hold_step(pre, false, frame_ms, post, r),
        pre.was_speaking,
        pre.clock_ms + frame_ms >= pre.hold_until_ms,
    ensures
        !post.was_speaking,
        r == Some(false),
{
}

/// A detector that is already silent stays silent through quiet frames and
/// emits nothing more: the not-speaking event of a drop is reported once.
pub proof fn lemma_silence_is_stable(
    pre: SpeakingHold,
    frame_ms: u64,
    post: SpeakingHold,
    r: Option<bool>,
)
    requires
        hold_step(pre, false, frame_ms, post, r),
        !pre.was_speaking,
        pre.clock_ms >= pre.hold_until_ms,
    ensures
        !post.was_speaking,
        r.is_none(),
{
}

} // verus!
