use bridgescope::device::{BridgeError, DeviceRecord, DeviceState, DeviceTarget};
use bridgescope::screenshot::{
    screenshot_file_name, ScreenshotCommand, ScreenshotData, ScreenshotEvent, ScreenshotFormat,
    ScreenshotPanelState,
};

fn record(state: DeviceState) -> DeviceRecord {
    DeviceRecord { serial: "emulator-5554".to_owned(), state, model: None, generation: 1 }
}

#[test]
fn fresh_state_has_no_capture_target() {
    let state = ScreenshotPanelState::default();
    assert!(state.target.is_none());
    assert!(!state.loading);
}

#[test]
fn capture_needs_an_online_device_and_matches_its_answer() {
    let mut state = ScreenshotPanelState::default();
    let offline = record(DeviceState::Offline);
    assert!(state.reconcile_target(Some(&offline)));
    assert!(state.capture_clicked(Some(&offline), 1).is_none());
    let online = record(DeviceState::Online);
    assert!(!state.reconcile_target(Some(&online)), "same connection");
    let command = state.capture_clicked(Some(&online), 2);
    assert!(matches!(
        command,
        Some(ScreenshotCommand::CaptureScreenshot { request_id: 2, format: ScreenshotFormat::RawPng, .. })
    ));
    assert!(state.capture_clicked(Some(&online), 3).is_none(), "already capturing");
    let target = DeviceTarget::new("emulator-5554", 1);
    let stale = ScreenshotEvent::ScreenshotCaptured {
        target: target.clone(),
        request_id: 1,
        data: ScreenshotData::RawPng(vec![1, 2, 3]),
    };
    assert!(!state.handle_event(&stale));
    assert!(state.raw_png.is_none());
    let fresh = ScreenshotEvent::ScreenshotCaptured {
        target,
        request_id: 2,
        data: ScreenshotData::DecodedWithPng { width: 2, height: 3, rgba: vec![0; 24], png: vec![9] },
    };
    assert!(state.handle_event(&fresh));
    assert_eq!(state.dimensions, Some((2, 3)));
    assert_eq!(state.raw_png, Some(vec![9]));
    assert!(!state.loading);
}

#[test]
fn failures_and_device_changes_reset_the_panel() {
    let mut state = ScreenshotPanelState::default();
    let online = record(DeviceState::Online);
    state.reconcile_target(Some(&online));
    let _ = state.capture(4);
    state.handle_event(&ScreenshotEvent::ScreenshotFailed {
        target: DeviceTarget::new("emulator-5554", 1),
        request_id: 4,
        error: BridgeError::invalid_input("screenshot.failed"),
    });
    assert!(state.error.is_some());
    assert!(!state.loading);
    assert!(state.reconcile_target(None));
    assert!(state.error.is_none());
    assert!(state.target.is_none());
    state.save_failed("disk full".to_owned());
    assert_eq!(state.error.as_ref().map(|e| e.message_key.as_str()), Some("screenshot.save_failed"));
}

#[test]
fn saved_files_are_named_by_timestamp() {
    assert_eq!(screenshot_file_name(1_700_000_000), "bridgescope-1700000000.png");
}
