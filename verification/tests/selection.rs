use bridgescope::applications::{ApplicationAction, ApplicationRecord, ApplicationsCommand};
use bridgescope::device::{BridgeError, DeviceRecord, DeviceState, DeviceTarget};
use bridgescope::logcat::LogcatCommand;
use bridgescope::overview::DeviceOverview;
use bridgescope::processes::ProcessesCommand;
use bridgescope::selection::{DeviceSnapshot, Workspace, WorkspaceCommand, WorkspaceEvent};
use bridgescope::window::{seam_direction, Panel, ResizeDirection};

fn record(serial: &str, state: DeviceState, generation: u64) -> DeviceRecord {
    DeviceRecord { serial: serial.to_owned(), state, model: None, generation }
}

fn snapshot(devices: Vec<DeviceRecord>, selected: Option<&str>) -> DeviceSnapshot {
    DeviceSnapshot { devices, selected: selected.map(str::to_owned) }
}

fn overview(serial: &str) -> DeviceOverview {
    DeviceOverview {
        serial: serial.to_owned(),
        model: None,
        brand: None,
        manufacturer: None,
        android_version: None,
        api_level: None,
        kernel_version: None,
        soc: None,
        cpu_cores: None,
        abi: None,
        memory_total_kib: None,
        storage_total_kib: None,
        storage_used_kib: None,
        battery_percent: None,
        screen_physical: None,
        screen_override: None,
        screen_density: None,
        font_scale: None,
        wifi_ssid: None,
        ip_address: None,
        mac_address: None,
    }
}

/// The seam test of the window, with the pointer geometry worked out here.
fn resize_direction(x: f32, y: f32, width: f32, height: f32) -> Option<ResizeDirection> {
    let thickness = 6.0;
    if x < 0.0 || y < 0.0 || x > width || y > height {
        return None;
    }
    seam_direction(x < thickness, width - x < thickness, y < thickness, height - y < thickness)
}

#[test]
fn initial_device_snapshot_has_no_implicit_selection() {
    assert_eq!(DeviceSnapshot::default().selected, None::<String>);
}

#[test]
fn resize_direction_covers_edges_and_corners() {
    let (w, h) = (1000.0, 800.0);
    assert_eq!(resize_direction(500.0, 400.0, w, h), None, "center is not a resize seam");
    assert_eq!(resize_direction(2.0, 400.0, w, h), Some(ResizeDirection::West));
    assert_eq!(resize_direction(998.0, 400.0, w, h), Some(ResizeDirection::East));
    assert_eq!(resize_direction(500.0, 2.0, w, h), Some(ResizeDirection::North));
    assert_eq!(resize_direction(500.0, 798.0, w, h), Some(ResizeDirection::South));
    assert_eq!(resize_direction(3.0, 3.0, w, h), Some(ResizeDirection::NorthWest));
    assert_eq!(resize_direction(997.0, 3.0, w, h), Some(ResizeDirection::NorthEast));
    assert_eq!(resize_direction(3.0, 797.0, w, h), Some(ResizeDirection::SouthWest));
    assert_eq!(resize_direction(997.0, 797.0, w, h), Some(ResizeDirection::SouthEast));
    assert_eq!(resize_direction(-5.0, 400.0, w, h), None, "outside the window is not a seam");
}

#[test]
fn every_action_has_a_distinct_label() {
    let actions = [
        ApplicationAction::Launch,
        ApplicationAction::ForceStop,
        ApplicationAction::ClearData,
        ApplicationAction::Freeze,
        ApplicationAction::Unfreeze,
        ApplicationAction::Uninstall,
    ];
    let mut labels: Vec<&str> = actions.iter().map(|action| action.label_key()).collect();
    labels.sort_unstable();
    let total = labels.len();
    labels.dedup();
    assert_eq!(labels.len(), total, "labels must not collide");
}

#[test]
fn selected_record_is_the_first_with_the_selected_serial() {
    let snap = snapshot(
        vec![
            record("a", DeviceState::Online, 1),
            record("b", DeviceState::Offline, 2),
            record("b", DeviceState::Online, 3),
        ],
        Some("b"),
    );
    let found = snap.selected_record().expect("b is listed");
    assert_eq!(found.generation, 2);
    assert_eq!(snap.selected_target(), Some(DeviceTarget::new("b", 2)));
    assert_eq!(snap.online_target(), None, "an offline selection is not a live target");
    let missing = snapshot(vec![record("a", DeviceState::Online, 1)], Some("zz"));
    assert!(missing.selected_record().is_none());
}

#[test]
fn device_list_without_selection_change_keeps_the_overview() {
    let mut ws = Workspace::new(false);
    ws.handle_event(
        WorkspaceEvent::DevicesChanged(snapshot(vec![record("a", DeviceState::Online, 1)], Some("a"))),
        1,
    );
    ws.handle_event(WorkspaceEvent::OverviewLoading("a".to_owned()), 2);
    assert!(ws.loading_overview);
    ws.handle_event(WorkspaceEvent::OverviewLoaded(overview("a")), 3);
    assert!(!ws.loading_overview);
    assert_eq!(ws.overview.as_ref().map(|o| o.serial.as_str()), Some("a"));
    ws.handle_event(
        WorkspaceEvent::DevicesChanged(snapshot(
            vec![record("a", DeviceState::Online, 1), record("b", DeviceState::Online, 2)],
            Some("a"),
        )),
        4,
    );
    assert!(ws.overview.is_some(), "same selection keeps the overview");
    ws.handle_event(
        WorkspaceEvent::DevicesChanged(snapshot(vec![record("b", DeviceState::Online, 2)], Some("b"))),
        5,
    );
    assert!(ws.overview.is_none(), "another selection drops it");
}

#[test]
fn overview_of_another_device_is_ignored() {
    let mut ws = Workspace::new(false);
    ws.handle_event(
        WorkspaceEvent::DevicesChanged(snapshot(vec![record("a", DeviceState::Online, 1)], Some("a"))),
        1,
    );
    ws.handle_event(WorkspaceEvent::OverviewLoading("b".to_owned()), 2);
    assert!(!ws.loading_overview);
    ws.handle_event(WorkspaceEvent::OverviewLoaded(overview("b")), 3);
    assert!(ws.overview.is_none());
}

#[test]
fn failures_reach_the_status_line() {
    let mut ws = Workspace::new(false);
    ws.loading_overview = true;
    ws.handle_event(WorkspaceEvent::PanelFailed(BridgeError::invalid_input("x")), 1);
    assert!(ws.loading_overview, "a panel failure leaves the overview alone");
    assert_eq!(ws.last_error.as_ref().map(|e| e.message_key.as_str()), Some("x"));
    ws.handle_event(WorkspaceEvent::OperationFailed(BridgeError::invalid_input("y")), 2);
    assert!(!ws.loading_overview);
    assert_eq!(ws.last_error.as_ref().map(|e| e.message_key.as_str()), Some("y"));
}

#[test]
fn auto_select_picks_the_first_online_device_once() {
    let mut ws = Workspace::new(true);
    let offline_first = ws.handle_event(
        WorkspaceEvent::DevicesChanged(snapshot(vec![record("a", DeviceState::Offline, 1)], None)),
        1,
    );
    assert!(offline_first.is_empty(), "an offline first device is not picked");
    assert!(ws.auto_select_requested);
    let commands = ws.handle_event(
        WorkspaceEvent::DevicesChanged(snapshot(
            vec![record("a", DeviceState::Online, 1), record("b", DeviceState::Online, 2)],
            None,
        )),
        2,
    );
    assert_eq!(commands.len(), 1);
    assert!(matches!(&commands[0], WorkspaceCommand::SelectDevice(Some(s)) if s == "a"));
    assert!(!ws.auto_select_requested);
    let again = ws.handle_event(
        WorkspaceEvent::DevicesChanged(snapshot(vec![record("a", DeviceState::Online, 1)], None)),
        3,
    );
    assert!(again.iter().all(|c| !matches!(c, WorkspaceCommand::SelectDevice(_))));
}

#[test]
fn panels_follow_the_online_selection_and_refresh_on_their_interval() {
    let mut ws = Workspace::new(false);
    ws.handle_event(
        WorkspaceEvent::DevicesChanged(snapshot(vec![record("a", DeviceState::Online, 7)], Some("a"))),
        1,
    );
    let target = DeviceTarget::new("a", 7);
    assert_eq!(ws.processes.target, Some(target.clone()));
    let first = ws.refresh_live_panels(Panel::Processes, 10_000, 2);
    assert_eq!(first.len(), 1);
    assert!(matches!(&first[0], WorkspaceCommand::Processes(ProcessesCommand::LoadProcesses(t)) if *t == target));
    assert_eq!(ws.last_process_refresh, Some(10_000));
    assert!(ws.refresh_live_panels(Panel::Processes, 12_999, 3).is_empty(), "within the interval");
    assert_eq!(ws.refresh_live_panels(Panel::Processes, 13_000, 4).len(), 1);
    assert!(ws.refresh_live_panels(Panel::Overview, 20_000, 5).is_empty());
}

#[test]
fn an_offline_selection_detaches_the_panels() {
    let mut ws = Workspace::new(false);
    ws.handle_event(
        WorkspaceEvent::DevicesChanged(snapshot(vec![record("a", DeviceState::Unauthorized, 1)], Some("a"))),
        1,
    );
    assert_eq!(ws.applications.target, Some(DeviceTarget::new("a", 1)));
    let commands = ws.refresh_live_panels(Panel::Applications, 1_000, 2);
    assert!(commands.is_empty());
    assert_eq!(ws.applications.target, None);
    assert_eq!(ws.logcat.target, None);
}

#[test]
fn logcat_starts_by_itself_when_shown() {
    let mut ws = Workspace::new(false);
    ws.handle_event(
        WorkspaceEvent::DevicesChanged(snapshot(vec![record("a", DeviceState::Online, 1)], Some("a"))),
        1,
    );
    let commands = ws.refresh_live_panels(Panel::Logcat, 5_000, 42);
    assert_eq!(commands.len(), 1);
    assert!(matches!(&commands[0], WorkspaceCommand::Logcat(LogcatCommand::Start { session_id: 42, .. })));
}

#[test]
fn first_application_opens_once_the_list_arrives() {
    let mut ws = Workspace::new(true);
    ws.handle_event(
        WorkspaceEvent::DevicesChanged(snapshot(vec![record("a", DeviceState::Online, 1)], Some("a"))),
        1,
    );
    ws.applications.applications = vec![ApplicationRecord {
        package: "com.example".to_owned(),
        system: false,
        disabled: false,
    }];
    let commands = ws.handle_event(WorkspaceEvent::ApplicationsLoaded, 9);
    assert_eq!(commands.len(), 1);
    assert!(matches!(
        &commands[0],
        WorkspaceCommand::Applications(ApplicationsCommand::LoadApplicationDetails { request_id: 9, package, .. })
            if package == "com.example"
    ));
    assert_eq!(ws.applications.selected.as_deref(), Some("com.example"));
    assert!(ws.handle_event(WorkspaceEvent::ApplicationsLoaded, 10).is_empty());
}

#[test]
fn refresh_button_reloads_list_and_overview() {
    let mut ws = Workspace::new(false);
    assert!(matches!(ws.refresh_devices().as_slice(), [WorkspaceCommand::RefreshDevices]));
    ws.snapshot.selected = Some("a".to_owned());
    let commands = ws.refresh_devices();
    assert_eq!(commands.len(), 2);
    assert!(matches!(&commands[1], WorkspaceCommand::LoadOverview(s) if s == "a"));
}
