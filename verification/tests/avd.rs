use bridgescope::avd::{AvdCommand, AvdEntry, AvdEvent, AvdPanelState, BOOT_POLLS, SETTLE_POLLS};
use bridgescope::device::BridgeError;

#[test]
fn launch_event_starts_boot_polling() {
    let mut state = AvdPanelState::default();
    state.handle_event(
        &AvdEvent::AvdsLoaded { avds: vec![AvdEntry { name: "Pixel_9a".to_owned(), running_serial: None }] },
        0,
    );
    state.handle_event(&AvdEvent::AvdLaunchFinished { request_id: 1, name: "Pixel_9a".to_owned() }, 1_000);
    let commands = bridgescope::avd::auto(&mut state, 1_000);
    // The first poll is deferred by the interval, so nothing yet.
    assert!(commands.is_empty());
    assert_eq!(state.boot_polls, BOOT_POLLS);
    assert_eq!(state.notice, Some("avd_started_hint"));
}

#[test]
fn kill_event_confirms_stops_and_schedules_resync() {
    let mut state = AvdPanelState::default();
    let commands = state.handle_event(
        &AvdEvent::EmulatorKillFinished { request_id: 2, serial: "emulator-5554".to_owned() },
        0,
    );
    assert!(commands.contains(&AvdCommand::RefreshDevices));
    assert_eq!(state.confirm_stop, None);
    assert_eq!(state.settle_polls, SETTLE_POLLS);
}

#[test]
fn auto_loads_once_and_backs_off() {
    let mut state = AvdPanelState::default();
    let commands = bridgescope::avd::auto(&mut state, 0);
    assert_eq!(commands.len(), 1);
    assert!(matches!(commands[0], AvdCommand::ListAvds));
    state.handle_event(&AvdEvent::AvdsLoaded { avds: Vec::new() }, 100);
    // Still empty, but inside the backoff window: no repeat load.
    assert!(bridgescope::avd::auto(&mut state, 200).is_empty());
    assert!(!state.loading);
    assert_eq!(bridgescope::avd::auto(&mut state, 5_000).len(), 1);
}

#[test]
fn boot_polls_count_down_at_the_interval() {
    let mut state = AvdPanelState::default();
    state.handle_event(
        &AvdEvent::AvdsLoaded { avds: vec![AvdEntry { name: "a".to_owned(), running_serial: None }] },
        0,
    );
    state.handle_event(&AvdEvent::AvdLaunchFinished { request_id: 1, name: "a".to_owned() }, 0);
    assert_eq!(
        bridgescope::avd::auto(&mut state, 5_000),
        vec![AvdCommand::RefreshDevices, AvdCommand::ListAvds]
    );
    assert_eq!(state.boot_polls, BOOT_POLLS - 1);
    assert!(bridgescope::avd::auto(&mut state, 6_000).is_empty());
}

#[test]
fn stopping_waits_for_confirmation() {
    let mut state = AvdPanelState::default();
    let serial = "emulator-5554".to_owned();
    assert!(state.confirm_stop(&serial, 1).is_none());
    state.request_stop(&serial);
    assert_eq!(
        state.confirm_stop(&serial, 2),
        Some(AvdCommand::KillEmulator { request_id: 2, serial: serial.clone() })
    );
    state.handle_event(
        &AvdEvent::EmulatorKillFailed { request_id: 2, serial, error: BridgeError::invalid_input("avd.kill") },
        0,
    );
    assert!(state.confirm_stop.is_none());
    assert!(state.error.is_some());
    assert_eq!(
        state.launch(&"a".to_owned(), true, 3),
        AvdCommand::LaunchAvd { request_id: 3, name: "a".to_owned(), wipe_data: true }
    );
    assert_eq!(state.notice, Some("avd_starting"));
    assert_eq!(state.refresh(), Some(AvdCommand::ListAvds));
    assert_eq!(state.refresh(), None);
}
