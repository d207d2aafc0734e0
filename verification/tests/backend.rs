use bridgescope::backend::{
    current_online, decode_screenshot, misrouted_shell_input, overview_to_reload, screenshot_from_decoding, BackendState,
    MutationKind, TransferOutcome,
};
use bridgescope::device::{BridgeError, DeviceRecord, DeviceState, DeviceTarget, ErrorCode};
use bridgescope::selection::DeviceSnapshot;

fn record(serial: &str, state: DeviceState, generation: u64) -> DeviceRecord {
    DeviceRecord { serial: serial.to_owned(), state, model: None, generation }
}

fn backend_with(devices: Vec<DeviceRecord>) -> BackendState {
    let mut state = BackendState::new();
    state.devices = devices;
    state
}

fn error(code: ErrorCode) -> BridgeError {
    BridgeError { code, message_key: "k".to_owned(), detail: "d".to_owned() }
}

#[test]
fn only_the_current_online_connection_is_served() {
    let devices = vec![record("a", DeviceState::Online, 2), record("b", DeviceState::Offline, 1)];
    assert!(current_online(&devices, &DeviceTarget::new("a", 2)));
    assert!(!current_online(&devices, &DeviceTarget::new("a", 1)), "an older connection is stale");
    assert!(!current_online(&devices, &DeviceTarget::new("b", 1)), "offline is not served");
    assert!(!current_online(&devices, &DeviceTarget::new("c", 1)));
    let state = backend_with(devices);
    let err = state.check_target(&DeviceTarget::new("a", 1)).unwrap_err();
    assert_eq!(err.code, ErrorCode::DeviceUnavailable);
    assert_eq!(err.message_key, "device.target_stale");
    assert_eq!(err.detail, "device is no longer online");
    assert!(state.check_target(&DeviceTarget::new("a", 2)).is_ok());
}

#[test]
fn transfers_are_tracked_until_they_finish() {
    let mut state = backend_with(vec![record("a", DeviceState::Online, 1)]);
    assert!(state.start_transfer(7, DeviceTarget::new("a", 1)).is_ok());
    assert!(state.start_transfer(8, DeviceTarget::new("a", 1)).is_ok());
    assert!(state.start_transfer(9, DeviceTarget::new("a", 2)).is_err(), "stale target");
    assert!(state.is_transfer_active(7));
    assert!(!state.is_transfer_active(9));
    assert!(matches!(state.finish_transfer(7, Ok(())), TransferOutcome::Completed));
    assert!(!state.is_transfer_active(7));
    assert!(matches!(state.finish_transfer(8, Err(error(ErrorCode::Cancelled))), TransferOutcome::Cancelled));
    assert!(state.transfers.is_empty());
    state.start_transfer(10, DeviceTarget::new("a", 1)).unwrap();
    match state.finish_transfer(10, Err(error(ErrorCode::AdbFailed))) {
        TransferOutcome::Failed(e) => assert_eq!(e.code, ErrorCode::AdbFailed),
        _ => panic!("a failure is reported as such"),
    }
}

#[test]
fn restarting_a_transfer_id_replaces_it() {
    let mut state = backend_with(vec![record("a", DeviceState::Online, 1), record("b", DeviceState::Online, 1)]);
    state.start_transfer(5, DeviceTarget::new("a", 1)).unwrap();
    state.start_transfer(5, DeviceTarget::new("b", 1)).unwrap();
    assert_eq!(state.transfers.len(), 1);
    assert_eq!(state.transfers[0].target, DeviceTarget::new("b", 1));
}

#[test]
fn transfers_of_gone_devices_are_cancelled() {
    let mut state = backend_with(vec![record("a", DeviceState::Online, 1), record("b", DeviceState::Online, 1)]);
    state.start_transfer(1, DeviceTarget::new("a", 1)).unwrap();
    state.start_transfer(2, DeviceTarget::new("b", 1)).unwrap();
    state.start_transfer(3, DeviceTarget::new("a", 1)).unwrap();
    state.devices = vec![record("a", DeviceState::Online, 2), record("b", DeviceState::Online, 1)];
    assert_eq!(state.stale_transfers(), vec![1, 3]);
}

#[test]
fn forwarded_ports_are_remembered_once() {
    let mut state = BackendState::new();
    state.track_forward(39222);
    state.track_forward(39223);
    state.track_forward(39222);
    assert_eq!(state.forwards, vec![39222, 39223]);
    assert_eq!(state.take_forwards(), vec![39222, 39223]);
    assert!(state.forwards.is_empty());
}

#[test]
fn mutations_are_checked_before_they_run() {
    let state = backend_with(vec![record("a", DeviceState::Online, 1)]);
    let target = DeviceTarget::new("a", 1);
    let delete = state.check_mutation(&target, MutationKind::DeleteFile, false, false).unwrap_err();
    assert_eq!(delete.code, ErrorCode::InvalidInput);
    assert_eq!(delete.message_key, "file.delete_confirmation_required");
    assert!(state.check_mutation(&target, MutationKind::DeleteFile, true, false).is_ok());
    let rename = state.check_mutation(&target, MutationKind::Rename, true, false).unwrap_err();
    assert_eq!(rename.message_key, "file.rename_destination_missing");
    assert!(state.check_mutation(&target, MutationKind::Rename, false, true).is_ok());
    assert!(state.check_mutation(&target, MutationKind::CreateDirectory, false, false).is_ok());
    let stale = state
        .check_mutation(&DeviceTarget::new("a", 9), MutationKind::DeleteFile, false, false)
        .unwrap_err();
    assert_eq!(stale.message_key, "device.target_stale", "a stale target is reported first");
}

#[test]
fn overview_reloads_only_for_an_unchanged_online_selection() {
    let online = DeviceSnapshot { devices: vec![record("a", DeviceState::Online, 1)], selected: Some("a".to_owned()) };
    assert_eq!(overview_to_reload(&Some("a".to_owned()), &online), Some("a".to_owned()));
    assert_eq!(overview_to_reload(&None, &online), None, "a new selection loads it elsewhere");
    let offline = DeviceSnapshot { devices: vec![record("a", DeviceState::Offline, 1)], selected: Some("a".to_owned()) };
    assert_eq!(overview_to_reload(&Some("a".to_owned()), &offline), None);
    assert_eq!(overview_to_reload(&None, &DeviceSnapshot::default()), None);
}

#[test]
fn screenshots_past_the_limits_are_refused() {
    let ok = screenshot_from_decoding(Ok((2, 1, vec![0; 8]))).unwrap();
    assert_eq!((ok.width, ok.height, ok.rgba.len()), (2, 1, 8));
    let wide = screenshot_from_decoding(Ok((8193, 1, Vec::new()))).unwrap_err();
    assert_eq!(wide.code, ErrorCode::OutputLimit);
    assert_eq!(wide.message_key, "screenshot.dimensions_too_large");
    assert_eq!(wide.detail, "8193x1");
    let many = screenshot_from_decoding(Ok((4097, 4096, Vec::new()))).unwrap_err();
    assert_eq!(many.detail, "4097x4096");
    assert!(screenshot_from_decoding(Ok((4096, 4096, Vec::new()))).is_ok(), "exactly at the pixel limit");
    let bad = screenshot_from_decoding(Err("broken".to_owned())).unwrap_err();
    assert_eq!(bad.code, ErrorCode::InvalidInput);
    assert_eq!(bad.message_key, "screenshot.decode_failed");
    assert_eq!(bad.detail, "broken");
}

#[test]
fn captured_png_bytes_are_decoded() {
    let mut png = Vec::new();
    image::RgbaImage::from_raw(2, 1, vec![1, 2, 3, 255, 4, 5, 6, 255])
        .expect("buffer fits")
        .write_to(&mut std::io::Cursor::new(&mut png), image::ImageFormat::Png)
        .expect("encodes");
    let decoded = decode_screenshot(&png).expect("decodes");
    assert_eq!((decoded.width, decoded.height), (2, 1));
    assert_eq!(decoded.rgba, vec![1, 2, 3, 255, 4, 5, 6, 255]);
    let garbage = decode_screenshot(b"not a png").unwrap_err();
    assert_eq!(garbage.message_key, "screenshot.decode_failed");
    assert!(!garbage.detail.is_empty());
}

#[test]
fn shell_input_on_the_control_queue_fails_the_session() {
    match misrouted_shell_input(4) {
        bridgescope::shell::ShellEvent::Failed { session_id, error } => {
            assert_eq!(session_id, 4);
            assert_eq!(error.code, ErrorCode::Internal);
            assert_eq!(error.message_key, "shell.input_routing_failed");
        }
        _ => panic!("the session is reported failed"),
    }
}
