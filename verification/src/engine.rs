//! Decision logic of the capture workers and the engine lifecycles.
//!
//! The PipeWire loops, the device streams and the peers run outside; every
//! choice they make — when to rescan the alpha channel, whether a frame
//! matches the encoder, when to force an IDR keyframe, when to emit a
//! preview, what a command tears down and restarts — is computed here and
//! handed back as plain values.

use vstd::prelude::*;

verus! {

/// The encoder forces an IDR keyframe every 60th processed frame.
pub const IDR_INTERVAL: u32 = 60;

/// Minimum milliseconds between preview thumbnails.
pub const PREVIEW_INTERVAL_MS: u64 = 33;

/// The alpha channel is rescanned every 30th buffer.
pub const CROP_SCAN_INTERVAL: u32 = 30;

/// Counts buffers on the video capture stream and says when the cached
/// crop decision must be recomputed.
pub struct CropCadence {
    pub counter: u32,
}

impl CropCadence {
    /// Start counting; the very first buffer triggers a scan.
    pub fn new() -> (r: CropCadence)
        ensures
            r.counter == 0,
    {
        CropCadence { counter: 0 }
    }

    /// Count one buffer; true exactly on the first of every run of 30.
    pub fn tick(&mut self) -> (rescan: bool)
        ensures
            final(self).counter == ((old(self).counter + 1) % 0x1_0000_0000) as u32,
            rescan == (final(self).counter % 30 == 1),
    {
        self.counter = if self.counter == 0xffff_ffffu32 {
            0
        } else {
            self.counter + 1
        };
        self.counter % 30 == 1
    }
}

/// What the encoder worker does with one incoming frame.
pub struct FrameStep {
    /// Encode the frame (its even-rounded size matches the encoder).
    pub encode: bool,
    /// Force an IDR keyframe before encoding.
    pub force_idr: bool,
    /// Publish a preview thumbnail of this frame.
    pub emit_preview: bool,
}

/// Per-session state of the H.264 encoder worker: the dimensions fixed by
/// the first frame, the processed-frame counter, and the time of the last
/// preview.
pub struct EncodeWorker {
    pub width: usize,
    pub height: usize,
    pub frame_count: u32,
    pub last_preview_ms: Option<u64>,
}

impl EncodeWorker {
    /// A worker locked to the even-rounded size of the first frame.
    pub fn new(width: usize, height: usize) -> (r: EncodeWorker)
        ensures
            r.width == width - width % 2,
            r.height == height - height % 2,
            r.frame_count == 0,
            r.last_preview_ms.is_none(),
    {
        EncodeWorker {
            width: width - width % 2,
            height: height - height % 2,
            frame_count: 0,
            last_preview_ms: None,
        }
    }

    /// Decide what to do with a frame of size `fw` by `fh` arriving at
    /// `now_ms`: skip it if its even-rounded size does not match the
    /// encoder; otherwise count it, force an IDR on every 60th frame, and
    /// emit a preview when none has been emitted for 33 ms (or ever).
    pub fn on_frame(&mut self, fw: usize, fh: usize, now_ms: u64) -> (r: FrameStep)
        ensures
            ({
                let ok_size = (fw - fw % 2 == old(self).width) && (fh - fh % 2
                    == old(self).height);
                if !ok_size {
                    r.encode == false && r.force_idr == false && r.emit_preview == false
                        && *final(self) == *old(self)
                } else {
                    let count = ((old(self).frame_count + 1) % 0x1_0000_0000) as u32;
                    let due = match old(self).last_preview_ms {
                        None => true,
                        Some(t) => now_ms >= t + PREVIEW_INTERVAL_MS,
                    };
                    r.encode == true && final(self).frame_count == count && r.force_idr == (count
                        % IDR_INTERVAL == 0) && r.emit_preview == due
                        && final(self).width == old(self).width
                        && final(self).height == old(self).height && final(self).last_preview_ms
                        == (if due {
                        Some(now_ms)
                    } else {
                        old(self).last_preview_ms
                    })
                }
            }),
    {
        if fw - fw % 2 != self.width || fh - fh % 2 != self.height {
            return FrameStep { encode: false, force_idr: false, emit_preview: false };
        }
        self.frame_count = if self.frame_count == 0xffff_ffffu32 {
            0
        } else {
            self.frame_count + 1
        };
        let due = match self.last_preview_ms {
            None => true,
            Some(t) => now_ms >= t && now_ms - t >= PREVIEW_INTERVAL_MS,
        };
        if due {
            self.last_preview_ms = Some(now_ms);
        }
        FrameStep {
            encode: true,
            force_idr: self.frame_count % IDR_INTERVAL == 0,
            emit_preview: due,
        }
    }
}

/// Forced IDR keyframes among the first `n` processed frames (frames are
/// numbered from 1; every 60th forces one).
pub open spec fn idr_count(n: nat) -> nat
    decreases n,
{
    if n == 0 {
        0
    } else {
        idr_count((n - 1) as nat) + (if n % 60 == 0 {
            1nat
        } else {
            0nat
        })
    }
}

/// Steady cadence: among the first `n` frames of a session the worker
/// forces exactly `n / 60` IDR keyframes — at frames 60, 120, 180 and so
/// on.
pub proof fn lemma_idr_cadence(n: nat)
    ensures
        idr_count(n) == n / 60,
    decreases n,
{
    if n > 0 {
        lemma_idr_cadence((n - 1) as nat);
        vstd::arithmetic::div_mod::lemma_fundamental_div_mod(n as int, 60);
        vstd::arithmetic::div_mod::lemma_fundamental_div_mod(n as int - 1, 60);
        vstd::arithmetic::div_mod::lemma_mod_bound(n as int, 60);
        vstd::arithmetic::div_mod::lemma_mod_bound(n as int - 1, 60);
    }
}

/// The lifecycle states every engine session moves through.
#[derive(Clone, Copy, PartialEq, Eq, Structural, Debug)]
pub enum SessionState {
    Idle,
    Starting,
    Running,
    Stopping,
}

/// What the voice engine asks its surroundings to do, in order.
#[derive(Clone, PartialEq, Eq, Debug)]
pub enum VoiceAction {
    StartPlayback,
    OpenCapture(Option<String>),
    CloseCapture,
    CreatePeer,
    ClosePeer,
}

/// The voice engine's bookkeeping: what is open, what is selected, and
/// what the mute/deafen toggles say.
pub struct VoiceEngineModel {
    pub has_peer: bool,
    pub capture_running: bool,
    pub playback_running: bool,
    pub input_device: Option<String>,
    pub output_device: Option<String>,
}

impl VoiceEngineModel {
    /// A fresh engine: nothing open, default devices.
    pub fn new() -> (r: VoiceEngineModel)
        ensures
            !r.has_peer,
            !r.capture_running,
            !r.playback_running,
            r.input_device.is_none(),
            r.output_device.is_none(),
    {
        VoiceEngineModel {
            has_peer: false,
            capture_running: false,
            playback_running: false,
            input_device: None,
            output_device: None,
        }
    }

    /// Answering an offer needs a live peer: open playback if it is not
    /// running, create the peer, and start capture on the selected input
    /// device. A second offer on a live peer changes nothing.
    pub fn ensure_peer(&mut self) -> (acts: Vec<VoiceAction>)
        ensures
            final(self).has_peer,
            final(self).input_device == old(self).input_device,
            final(self).output_device == old(self).output_device,
            !old(self).has_peer ==> final(self).capture_running && final(self).playback_running,
            old(self).has_peer ==> acts@ =~= Seq::<VoiceAction>::empty() && *final(self)
                == *old(self),
            !old(self).has_peer && old(self).playback_running ==> acts@ =~= seq![
                VoiceAction::CreatePeer,
                VoiceAction::OpenCapture(old(self).input_device),
            ],
            !old(self).has_peer && !old(self).playback_running ==> acts@ =~= seq![
                VoiceAction::StartPlayback,
                VoiceAction::CreatePeer,
                VoiceAction::OpenCapture(old(self).input_device),
            ],
    {
        let mut acts: Vec<VoiceAction> = Vec::new();
        if self.has_peer {
            return acts;
        }
        if !self.playback_running {
            acts.push(VoiceAction::StartPlayback);
            self.playback_running = true;
        }
        acts.push(VoiceAction::CreatePeer);
        self.has_peer = true;
        acts.push(VoiceAction::OpenCapture(clone_device(&self.input_device)));
        self.capture_running = true;
        acts
    }

    /// Select an input device. While capture is live on a peer, the device
    /// is swapped by exactly one close and one reopen on the new device;
    /// capture counts as running throughout.
    pub fn set_input_device(&mut self, name: String) -> (acts: Vec<VoiceAction>)
        ensures
            final(self).input_device == Some(name),
            final(self).capture_running == old(self).capture_running,
            final(self).playback_running == old(self).playback_running,
            final(self).has_peer == old(self).has_peer,
            final(self).output_device == old(self).output_device,
            old(self).capture_running && old(self).has_peer ==> acts@ =~= seq![
                VoiceAction::CloseCapture,
                VoiceAction::OpenCapture(Some(name)),
            ],
            !(old(self).capture_running && old(self).has_peer) ==> acts@
                =~= Seq::<VoiceAction>::empty(),
    {
        self.input_device = Some(name.clone());
        let mut acts: Vec<VoiceAction> = Vec::new();
        if self.capture_running && self.has_peer {
            acts.push(VoiceAction::CloseCapture);
            acts.push(VoiceAction::OpenCapture(Some(name)));
        }
        acts
    }

    /// Select an output device; live playback is restarted on it.
    pub fn set_output_device(&mut self, name: String) -> (restart: bool)
        ensures
            final(self).output_device == Some(name),
            final(self).playback_running == old(self).playback_running,
            final(self).capture_running == old(self).capture_running,
            final(self).has_peer == old(self).has_peer,
            final(self).input_device == old(self).input_device,
            restart == old(self).playback_running,
    {
        self.output_device = Some(name);
        self.playback_running
    }

    /// Stop everything; device selections survive for the next session.
    pub fn stop(&mut self) -> (acts: Vec<VoiceAction>)
        ensures
            !final(self).has_peer,
            !final(self).capture_running,
            !final(self).playback_running,
            final(self).input_device == old(self).input_device,
            final(self).output_device == old(self).output_device,
            acts@ =~= seq![VoiceAction::CloseCapture, VoiceAction::ClosePeer],
    {
        self.has_peer = false;
        self.capture_running = false;
        self.playback_running = false;
        let mut acts: Vec<VoiceAction> = Vec::new();
        acts.push(VoiceAction::CloseCapture);
        acts.push(VoiceAction::ClosePeer);
        acts
    }
}

/// The screen engine's lifecycle: it runs the portal first and binds the
/// preview listener only after the portal succeeded.
pub struct ScreenEngineModel {
    pub state: SessionState,
    pub preview_port: Option<u16>,
}

impl ScreenEngineModel {
    /// A fresh screen engine, idle with no preview listener.
    pub fn new() -> (r: ScreenEngineModel)
        ensures
            r.state == SessionState::Idle,
            r.preview_port.is_none(),
    {
        ScreenEngineModel { state: SessionState::Idle, preview_port: None }
    }

    /// A share begins: any previous session is torn down and the portal
    /// dialog goes up.
    pub fn start_begin(&mut self)
        ensures
            final(self).state == SessionState::Starting,
            final(self).preview_port.is_none(),
    {
        self.state = SessionState::Starting;
        self.preview_port = None;
    }

    /// The portal failed or the user cancelled the picker: the engine is
    /// idle again, and no preview listener was ever bound.
    pub fn portal_denied(&mut self)
        ensures
            final(self).state == SessionState::Idle,
            final(self).preview_port.is_none(),
    {
        self.state = SessionState::Idle;
        self.preview_port = None;
    }

    /// Capture, peer and preview server are up; the session runs.
    pub fn started(&mut self, port: u16)
        requires
            old(self).state == SessionState::Starting,
        ensures
            final(self).state == SessionState::Running,
            final(self).preview_port == Some(port),
    {
        self.state = SessionState::Running;
        self.preview_port = Some(port);
    }

    /// The share ends; stopping always succeeds.
    pub fn stop(&mut self)
        ensures
            final(self).state == SessionState::Idle,
            final(self).preview_port.is_none(),
    {
        self.state = SessionState::Idle;
        self.preview_port = None;
    }
}

/// Clone an optional device name.
fn clone_device(d: &Option<String>) -> (r: Option<String>)
    ensures
        r == *d,
{
    match d {
        Some(s) => Some(s.clone()),
        None => None,
    }
}

} // verus!
