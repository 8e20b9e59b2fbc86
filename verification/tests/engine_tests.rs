use media_engine::engine::{
    CropCadence, EncodeWorker, ScreenEngineModel, SessionState, VoiceAction, VoiceEngineModel,
};
use media_engine::codec::{h264_codec_params, opus_codec_params, stun_server_url};
use media_engine::types::device_list_from_names;

#[test]
fn crop_rescan_every_thirtieth_buffer() {
    let mut c = CropCadence::new();
    let mut rescans = Vec::new();
    for i in 1..=90 {
        if c.tick() {
            rescans.push(i);
        }
    }
    assert_eq!(rescans, vec![1, 31, 61]);
}

#[test]
fn idr_forced_every_sixtieth_frame() {
    // 180 frames at the session's fixed size: IDRs forced at 60, 120, 180,
    // on top of the IDR the encoder emits for the very first frame.
    let mut w = EncodeWorker::new(640, 480);
    let mut forced = Vec::new();
    for i in 1..=180 {
        let step = w.on_frame(640, 480, i * 33);
        assert!(step.encode);
        if step.force_idr {
            forced.push(i);
        }
    }
    assert_eq!(forced, vec![60, 120, 180]);
}

#[test]
fn mismatched_frames_are_skipped_and_not_counted() {
    let mut w = EncodeWorker::new(641, 480);
    assert_eq!(w.width, 640);
    let step = w.on_frame(800, 600, 0);
    assert!(!step.encode);
    assert!(!step.force_idr);
    assert!(!step.emit_preview);
    assert_eq!(w.frame_count, 0);
    // An odd width rounds down to the encoder's even width and matches.
    let step2 = w.on_frame(641, 481, 0);
    assert!(step2.encode);
    assert_eq!(w.frame_count, 1);
}

#[test]
fn preview_rate_is_limited() {
    let mut w = EncodeWorker::new(64, 64);
    // First frame always previews; then only after 33 ms have passed.
    assert!(w.on_frame(64, 64, 1000).emit_preview);
    assert!(!w.on_frame(64, 64, 1010).emit_preview);
    assert!(!w.on_frame(64, 64, 1032).emit_preview);
    assert!(w.on_frame(64, 64, 1033).emit_preview);
    assert!(!w.on_frame(64, 64, 1040).emit_preview);
}

#[test]
fn device_switch_reopens_capture_once() {
    // With capture running on a live peer, selecting input device B tears
    // capture down and reopens it on B; it counts as running throughout.
    let mut m = VoiceEngineModel::new();
    m.ensure_peer();
    assert!(m.capture_running);
    let acts = m.set_input_device("B".to_string());
    assert_eq!(
        acts,
        vec![VoiceAction::CloseCapture, VoiceAction::OpenCapture(Some("B".to_string()))],
    );
    assert!(m.capture_running);
    assert_eq!(m.input_device, Some("B".to_string()));
    let reopens = acts
        .iter()
        .filter(|a| matches!(a, VoiceAction::OpenCapture(_)))
        .count();
    assert_eq!(reopens, 1);
}

#[test]
fn device_select_while_idle_only_records_the_choice() {
    let mut m = VoiceEngineModel::new();
    let acts = m.set_input_device("B".to_string());
    assert!(acts.is_empty());
    assert_eq!(m.input_device, Some("B".to_string()));
}

#[test]
fn first_offer_builds_the_whole_pipeline() {
    let mut m = VoiceEngineModel::new();
    let acts = m.ensure_peer();
    assert_eq!(
        acts,
        vec![
            VoiceAction::StartPlayback,
            VoiceAction::CreatePeer,
            VoiceAction::OpenCapture(None),
        ],
    );
    // A second offer finds the peer and does nothing.
    let again = m.ensure_peer();
    assert!(again.is_empty());
}

#[test]
fn stop_keeps_device_selection() {
    let mut m = VoiceEngineModel::new();
    m.set_input_device("B".to_string());
    m.ensure_peer();
    m.stop();
    assert!(!m.has_peer);
    assert!(!m.capture_running);
    assert!(!m.playback_running);
    assert_eq!(m.input_device, Some("B".to_string()));
}

#[test]
fn portal_cancel_leaves_screen_engine_idle() {
    // The user cancels the portal picker: an error comes back, no preview
    // port exists, and the engine is idle again.
    let mut s = ScreenEngineModel::new();
    s.start_begin();
    assert_eq!(s.state, SessionState::Starting);
    s.portal_denied();
    assert_eq!(s.state, SessionState::Idle);
    assert!(s.preview_port.is_none());
}

#[test]
fn screen_session_runs_then_stops() {
    let mut s = ScreenEngineModel::new();
    s.start_begin();
    s.started(40123);
    assert_eq!(s.state, SessionState::Running);
    assert_eq!(s.preview_port, Some(40123));
    s.stop();
    assert_eq!(s.state, SessionState::Idle);
    assert!(s.preview_port.is_none());
}

#[test]
fn codec_registrations_match_the_sfu() {
    let opus = opus_codec_params();
    assert_eq!(opus.mime_type, "audio/opus");
    assert_eq!(opus.clock_rate, 48000);
    assert_eq!(opus.channels, 2);
    assert_eq!(opus.fmtp, "minptime=10;useinbandfec=1;usedtx=1;maxaveragebitrate=128000");
    assert_eq!(opus.payload_type, 111);
    let h264 = h264_codec_params();
    assert_eq!(h264.mime_type, "video/H264");
    assert_eq!(h264.clock_rate, 90000);
    assert_eq!(h264.channels, 0);
    assert_eq!(
        h264.fmtp,
        "level-asymmetry-allowed=1;packetization-mode=1;profile-level-id=42e01f",
    );
    assert_eq!(h264.payload_type, 102);
    assert_eq!(stun_server_url(), "stun:stun.l.google.com:19302");
}

#[test]
fn device_names_become_list_entries() {
    let list = device_list_from_names(
        vec!["mic".to_string(), "line-in".to_string()],
        vec!["speakers".to_string()],
    );
    assert_eq!(list.inputs.len(), 2);
    assert_eq!(list.outputs.len(), 1);
    assert_eq!(list.inputs[0].name, "mic");
    assert_eq!(list.inputs[1].name, "line-in");
    assert_eq!(list.outputs[0].name, "speakers");
    assert!(list.inputs.iter().all(|d| !d.is_default));
}
