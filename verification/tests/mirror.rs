use bridgescope::device::{BridgeError, DeviceTarget, ErrorCode};
use bridgescope::i18n::Language;
use bridgescope::mirror::{
    bit_rate_presets, max_size_label, max_size_presets, press_key, remote_rows, MirrorCommand,
    MirrorEvent, MirrorPanelState, DEFAULT_BIT_RATE,
};

fn target() -> DeviceTarget {
    DeviceTarget::new("s", 1)
}

fn error(key: &str) -> BridgeError {
    BridgeError { code: ErrorCode::Other, message_key: key.to_owned(), detail: "x".to_owned() }
}

#[test]
fn started_then_stopped_transitions_the_session() {
    let mut state = MirrorPanelState::new();
    assert_eq!(state.max_size, Some(1280));
    let request_id = 1;
    state.starting = Some(request_id);
    state.handle_event(&MirrorEvent::MirrorStarted { request_id, target: target(), width: 1280, height: 720 });
    assert_eq!(state.running, Some(request_id));
    assert_eq!(state.stream, Some((1280, 720)));
    let ended = state.handle_event(&MirrorEvent::MirrorStopped { request_id, target: target() });
    assert!(state.running.is_none() && state.starting.is_none());
    assert!(ended, "the shell drops the texture");
}

#[test]
fn failure_clears_the_session_and_reports() {
    let mut state = MirrorPanelState::new();
    let request_id = 2;
    state.starting = Some(request_id);
    state.handle_event(&MirrorEvent::MirrorFailed { request_id, target: target(), error: error("mirror.push_failed") });
    assert!(state.starting.is_none() && state.running.is_none());
    assert_eq!(state.error.map(|error| error.message_key), Some("mirror.push_failed".to_owned()));
}

#[test]
fn unrelated_events_are_ignored() {
    let mut state = MirrorPanelState::new();
    state.handle_event(&MirrorEvent::MirrorStarted { request_id: 3, target: target(), width: 1, height: 1 });
    assert!(state.running.is_none() && state.starting.is_none());
}

#[test]
fn recording_events_track_the_saved_file() {
    let mut state = MirrorPanelState::new();
    state.recording = Some(0);
    state.handle_event(&MirrorEvent::MirrorRecordingSaved {
        target: target(),
        path: "recordings/a.mp4".to_owned(),
        frames: 42,
    });
    assert!(state.recording.is_none());
    assert_eq!(state.saved, Some(("recordings/a.mp4".to_owned(), 42)));

    state.recording = Some(0);
    state.handle_event(&MirrorEvent::MirrorRecordingFailed { target: target(), error: error("mirror.record_write_failed") });
    assert!(state.recording.is_none());
    assert_eq!(state.error.map(|error| error.message_key), Some("mirror.record_write_failed".to_owned()));
}

#[test]
fn stopping_the_session_keeps_the_saved_path_visible() {
    let mut state = MirrorPanelState::new();
    let request_id = 4;
    state.starting = Some(request_id);
    state.handle_event(&MirrorEvent::MirrorStarted { request_id, target: target(), width: 1280, height: 720 });
    state.recording = Some(0);
    state.handle_event(&MirrorEvent::MirrorRecordingSaved {
        target: target(),
        path: "recordings/b.mp4".to_owned(),
        frames: 3,
    });
    state.handle_event(&MirrorEvent::MirrorStopped { request_id, target: target() });
    assert!(state.running.is_none() && state.recording.is_none());
    assert!(state.saved.is_some(), "the saved path survives the stop");
}

#[test]
fn clicking_a_key_with_a_device_queues_one_key_event() {
    let selected = Some(target());
    let commands: Vec<MirrorCommand> = press_key(&selected, 24).into_iter().collect();
    assert_eq!(commands.len(), 1);
    assert!(matches!(
        &commands[0],
        MirrorCommand::SendKeyEvent { target, keycode: 24 } if target.serial.as_str() == "s"
    ));
}

#[test]
fn clicking_a_key_without_a_device_queues_nothing() {
    assert!(press_key(&None, 24).is_none());
}

#[test]
fn start_uses_the_presets_and_waits_for_confirmation() {
    let mut state = MirrorPanelState::new();
    assert!(state.start(&None, 1).is_none());
    state.max_size = Some(960);
    let command = state.start(&Some(target()), 7);
    assert!(matches!(
        command,
        Some(MirrorCommand::StartMirror { request_id: 7, max_size: Some(960), video_bit_rate, .. })
            if video_bit_rate == DEFAULT_BIT_RATE
    ));
    assert!(state.start(&Some(target()), 8).is_none(), "already starting");
    assert!(matches!(state.stop(), Some(MirrorCommand::StopMirror)));
    assert!(matches!(state.toggle_recording(100), Some(MirrorCommand::StartMirrorRecording)));
    assert_eq!(state.recording, Some(100));
    assert!(matches!(state.toggle_recording(200), Some(MirrorCommand::StopMirrorRecording)));
}

#[test]
fn presets_and_labels() {
    assert_eq!(max_size_presets(), [None, Some(1920), Some(1280), Some(960), Some(640)]);
    assert_eq!(bit_rate_presets(), [1, 2, 4, 8, 16]);
    assert_eq!(max_size_label(Language::English, Some(1280)), "1280");
    let rows = remote_rows(Language::English);
    let codes: Vec<Vec<u32>> = rows.iter().map(|row| row.iter().map(|k| k.keycode).collect()).collect();
    assert_eq!(codes, vec![vec![26, 164, 85], vec![24, 25], vec![19], vec![21, 23, 22], vec![20], vec![82, 3, 4]]);
}

#[test]
fn auto_start_backs_off_and_records_once() {
    let mut state = MirrorPanelState::new();
    let selected = Some(target());
    let commands = bridgescope::mirror::auto(&mut state, &selected, true, None, 1_000, 1);
    assert_eq!(commands.len(), 1);
    state.handle_event(&MirrorEvent::MirrorFailed { request_id: 1, target: target(), error: error("e") });
    assert!(bridgescope::mirror::auto(&mut state, &selected, true, None, 2_000, 2).is_empty());
    assert_eq!(bridgescope::mirror::auto(&mut state, &selected, true, None, 9_000, 3).len(), 1);
    state.handle_event(&MirrorEvent::MirrorStarted { request_id: 3, target: target(), width: 1, height: 1 });
    let commands = bridgescope::mirror::auto(&mut state, &selected, false, Some(2), 10_000, 4);
    assert!(matches!(commands.as_slice(), [MirrorCommand::StartMirrorRecording]));
    assert!(bridgescope::mirror::auto(&mut state, &selected, false, Some(2), 11_000, 5).is_empty());
    let commands = bridgescope::mirror::auto(&mut state, &selected, false, Some(2), 12_000, 6);
    assert!(matches!(commands.as_slice(), [MirrorCommand::StopMirrorRecording]));
    assert!(bridgescope::mirror::auto(&mut state, &selected, false, Some(2), 20_000, 7).is_empty());
}
