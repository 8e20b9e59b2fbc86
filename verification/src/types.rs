//! Plain data carried between the engines, the command surface and the
//! peers: SDP answers, ICE candidates in wire shape, UI events and device
//! listings.

use vstd::prelude::*;
use crate::frame::FrameData;

verus! {

/// The SDP answer returned for an offer.
pub struct SdpAnswer {
    pub sdp: String,
}

/// A local ICE candidate on its way out to the UI.
pub struct IceCandidateOut {
    pub candidate: String,
    pub sdp_mid: Option<String>,
    pub sdp_mline_index: Option<u16>,
}

/// A remote ICE candidate handed in by the UI.
pub struct IceCandidateIn {
    pub candidate: String,
    pub sdp_mid: Option<String>,
    pub sdp_mline_index: Option<u16>,
}

/// Edge-triggered speaking state for the UI.
pub struct SpeakingEvent {
    pub speaking: bool,
}

/// A peer-connection state change for the UI.
pub struct ConnectionStateEvent {
    pub state: String,
}

/// What microphone capture reports to the engine.
pub enum CaptureEvent {
    Speaking(bool),
}

/// What the screen peer connection reports to the engine.
pub enum ScreenPeerEvent {
    IceCandidate(IceCandidateOut),
    ConnectionState(String),
}

/// The result of starting a screen share: where the preview stream listens.
pub struct ScreenStartResult {
    pub preview_port: u16,
}

/// An H.264 encoder backend: one `encode` per frame, Annex-B output.
pub trait ScreenEncoder {
    /// Encode a frame; empty output means the encoder buffered it.
    fn encode(&mut self, frame: &FrameData) -> Result<Vec<u8>, String>;

    /// Force the next encoded frame to be an IDR keyframe.
    fn force_keyframe(&mut self);
}

/// One audio device as the UI lists it.
pub struct AudioDeviceInfo {
    pub name: String,
    pub is_default: bool,
}

/// The input and output devices available to the voice pipeline.
pub struct AudioDeviceList {
    pub inputs: Vec<AudioDeviceInfo>,
    pub outputs: Vec<AudioDeviceInfo>,
}

/// Wrap bare device names into the list shape the UI expects, none of them
/// marked default.
pub fn device_list_from_names(inputs: Vec<String>, outputs: Vec<String>) -> (r: AudioDeviceList)
    ensures
        r.inputs@.len() == inputs@.len(),
        r.outputs@.len() == outputs@.len(),
        forall|i: int|
            0 <= i < inputs@.len() ==> (#[trigger] r.inputs@[i]).name == inputs@[i]
                && !r.inputs@[i].is_default,
        forall|i: int|
            0 <= i < outputs@.len() ==> (#[trigger] r.outputs@[i]).name == outputs@[i]
                && !r.outputs@[i].is_default,
{
    let mut ins: Vec<AudioDeviceInfo> = Vec::new();
    let mut i: usize = 0;
    let n_in: usize = inputs.len();
    while i < n_in
        invariant
            i <= n_in,
            n_in == inputs@.len(),
            ins@.len() == i,
            forall|j: int|
                0 <= j < i ==> (#[trigger] ins@[j]).name == inputs@[j] && !ins@[j].is_default,
        decreases n_in - i,
    {
        ins.push(AudioDeviceInfo { name: inputs[i].clone(), is_default: false });
        i += 1;
    }
    let mut outs: Vec<AudioDeviceInfo> = Vec::new();
    let mut k: usize = 0;
    let n_out: usize = outputs.len();
    while k < n_out
        invariant
            k <= n_out,
            n_out == outputs@.len(),
            outs@.len() == k,
            forall|j: int|
                0 <= j < k ==> (#[trigger] outs@[j]).name == outputs@[j] && !outs@[j].is_default,
        decreases n_out - k,
    {
        outs.push(AudioDeviceInfo { name: outputs[k].clone(), is_default: false });
        k += 1;
    }
    AudioDeviceList { inputs: ins, outputs: outs }
}

} // verus!
