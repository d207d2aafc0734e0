use bridgescope::applications::{
    elide, short_name, tile_hue, tile_initial, ApplicationAction, ApplicationDetails,
    ApplicationFilter, ApplicationIconData, ApplicationRecord, ApplicationsCommand,
    ApplicationsEvent, ApplicationsPanelState, PendingAction,
};
use bridgescope::device::{BridgeError, DeviceTarget};

fn empty_details(package: &str) -> ApplicationDetails {
    ApplicationDetails {
        package: package.to_owned(),
        version_name: None,
        version_code: None,
        min_sdk: None,
        target_sdk: None,
        first_install_time: None,
        last_update_time: None,
        installer: None,
        apk_path: None,
        permissions: Vec::new(),
    }
}

fn device_target() -> DeviceTarget {
    DeviceTarget::new("emulator-5554", 1)
}

fn record(package: &str) -> ApplicationRecord {
    ApplicationRecord { package: package.to_owned(), system: false, disabled: false }
}

fn loaded(device: &DeviceTarget, applications: Vec<ApplicationRecord>) -> ApplicationsEvent {
    ApplicationsEvent::ApplicationsLoaded { target: device.clone(), applications }
}

#[test]
fn reloading_replaces_snapshot_and_drops_lost_selection() {
    let mut state = ApplicationsPanelState::default();
    let device = device_target();
    state.reset_for(Some(device.clone()));
    state.selected = Some("com.example.gone".to_owned());
    state.details = Some(empty_details("com.example.gone"));

    let commands = state.handle_event(&loaded(&device, vec![record("com.example.here")]));

    assert!(!state.loading);
    assert!(state.selected.is_none());
    assert!(state.details.is_none());
    assert!(commands.is_empty());
}

#[test]
fn icon_requests_cover_visible_packages_exactly_once() {
    let mut state = ApplicationsPanelState::default();
    let device = device_target();
    state.reset_for(Some(device.clone()));
    let package = "com.example.app".to_owned();
    let system = "com.android.system".to_owned();
    state.handle_event(&loaded(
        &device,
        vec![record("com.example.app"), {
            let mut app = record("com.android.system");
            app.system = true;
            app
        }],
    ));

    // Default third-party view: the system app is never requested.
    let mut commands = Vec::new();
    state.request_visible_icons(&mut commands);
    assert_eq!(commands.len(), 1);
    assert!(matches!(
        &commands[0],
        ApplicationsCommand::LoadApplicationIcons { packages, .. }
            if packages.len() == 1 && packages[0] == package
    ));

    // While the request is in flight, the per-frame pass is a no-op.
    let mut commands = Vec::new();
    state.request_visible_icons(&mut commands);
    assert!(commands.is_empty());

    // The icon lands, clearing the in-flight marker.
    state.handle_event(&ApplicationsEvent::ApplicationIconLoaded {
        target: device.clone(),
        package: package.clone(),
        icon: ApplicationIconData { width: 48, height: 48, rgba: vec![0; 48 * 48 * 4] },
    });
    assert!(state.icons.contains_key(&package));
    let mut commands = Vec::new();
    state.request_visible_icons(&mut commands);
    assert!(commands.is_empty());

    // Switching to the system filter fetches only the system app.
    state.filter = ApplicationFilter::System;
    let mut commands = Vec::new();
    state.request_visible_icons(&mut commands);
    assert_eq!(commands.len(), 1);
    assert!(matches!(
        &commands[0],
        ApplicationsCommand::LoadApplicationIcons { packages, .. }
            if packages.len() == 1 && packages[0] == system
    ));
}

#[test]
fn icons_from_other_targets_are_ignored() {
    let mut state = ApplicationsPanelState::default();
    state.reset_for(Some(device_target()));
    let package = "com.example.app".to_owned();

    let other = DeviceTarget::new("other", 1);
    state.handle_event(&ApplicationsEvent::ApplicationIconLoaded {
        target: other,
        package: package.clone(),
        icon: ApplicationIconData { width: 1, height: 1, rgba: vec![0; 4] },
    });
    assert!(!state.icons.contains_key(&package));
}

#[test]
fn completing_mutating_action_requests_a_reload() {
    let mut state = ApplicationsPanelState::default();
    let device = device_target();
    state.reset_for(Some(device.clone()));
    let request_id = 11;
    state.pending = Some(PendingAction { request_id, action: ApplicationAction::Uninstall });

    let commands = state.handle_event(&ApplicationsEvent::ApplicationActionCompleted {
        request_id,
        action: ApplicationAction::Uninstall,
        target: device,
        package: "com.example.app".to_owned(),
    });

    assert_eq!(commands.len(), 1);
    assert!(matches!(commands[0], ApplicationsCommand::LoadApplications(_)));
    assert!(state.pending.is_none());
}

#[test]
fn completing_launching_action_skips_the_reload() {
    let mut state = ApplicationsPanelState::default();
    let device = device_target();
    state.reset_for(Some(device.clone()));
    let request_id = 12;
    state.pending = Some(PendingAction { request_id, action: ApplicationAction::Launch });

    let commands = state.handle_event(&ApplicationsEvent::ApplicationActionCompleted {
        request_id,
        action: ApplicationAction::Launch,
        target: device,
        package: "com.example.app".to_owned(),
    });

    assert!(commands.is_empty());
    assert!(state.pending.is_none());
}

#[test]
fn finishing_an_install_sets_the_notice_and_reloads() {
    let mut state = ApplicationsPanelState::default();
    let device = device_target();
    state.reset_for(Some(device.clone()));
    let request_id = 13;
    state.install = Some(request_id);

    let commands = state.handle_event(&ApplicationsEvent::ApkInstallFinished { request_id, target: device });

    assert_eq!(commands.len(), 1);
    assert!(matches!(commands[0], ApplicationsCommand::LoadApplications(_)));
    assert!(state.install.is_none());
    assert!(state.install_notice);
    // The refreshed listing clears the notice again.
    state.handle_event(&ApplicationsEvent::ApplicationsLoading(state.target.clone().expect("target")));
    let refreshed = loaded(&state.target.clone().expect("target"), Vec::new());
    state.handle_event(&refreshed);
    assert!(!state.install_notice);
}

#[test]
fn failing_an_install_clears_the_pending_marker() {
    let mut state = ApplicationsPanelState::default();
    let device = device_target();
    state.reset_for(Some(device.clone()));
    let request_id = 14;
    state.install = Some(request_id);

    state.handle_event(&ApplicationsEvent::ApkInstallFailed {
        request_id,
        target: device,
        error: BridgeError::invalid_input("test"),
    });

    assert!(state.install.is_none());
    assert!(!state.install_notice);
}

#[test]
fn events_for_other_requests_are_ignored() {
    let mut state = ApplicationsPanelState::default();
    let device = device_target();
    state.reset_for(Some(device.clone()));
    let request_id = 15;
    state.pending = Some(PendingAction { request_id, action: ApplicationAction::Launch });

    let commands = state.handle_event(&ApplicationsEvent::ApplicationActionFailed {
        request_id: 16,
        action: ApplicationAction::Uninstall,
        target: device,
        package: "com.example.other".to_owned(),
        error: BridgeError::invalid_input("test"),
    });

    assert!(commands.is_empty());
    assert!(state.pending.is_some(), "the tracked action stays pending");
}

#[test]
fn reset_clears_transient_selection_state() {
    let mut state = ApplicationsPanelState::default();
    let device = device_target();
    state.reset_for(Some(device));
    state.selected = Some("com.example.app".to_owned());
    state.confirm = Some(ApplicationAction::Uninstall);
    state.icons.insert(
        "com.example.app".to_owned(),
        ApplicationIconData { width: 1, height: 1, rgba: vec![0; 4] },
    );
    state.reset_for(None);
    assert!(state.selected.is_none());
    assert!(state.confirm.is_none());
    assert!(state.applications.is_empty());
    assert!(state.icons.is_empty());
}

#[test]
fn tile_naming_derives_initials_and_short_names() {
    assert_eq!(short_name("org.mozilla.firefox"), "firefox");
    assert_eq!(short_name("chrome"), "chrome");
    assert_eq!(tile_initial("org.mozilla.firefox"), "F");
    assert_eq!(tile_initial("com.fadb.demo"), "D");
    assert_eq!(elide("averyveryverylongname", 10), "averyvery…");
    assert_eq!(elide("short", 10), "short");
}

#[test]
fn tile_initial_of_a_trailing_dot_is_a_question_mark() {
    assert_eq!(tile_initial("com.example."), "?");
    assert_eq!(tile_initial(""), "?");
    assert_eq!(short_name("com.example."), "");
    assert_eq!(elide("abc", 0), "…");
}

#[test]
fn tile_hue_is_stable_and_in_range() {
    // FNV-style hash of "a": (2166136261 * 16777619 + 97) mod 2^32 = 84696448.
    assert_eq!(tile_hue("a"), 84696448 % 3600);
    assert_eq!(tile_hue(""), 2166136261 % 3600);
    assert_eq!(tile_hue("com.example.app"), tile_hue("com.example.app"));
}

#[test]
fn every_action_has_a_distinct_label_key() {
    let actions = [
        ApplicationAction::Launch,
        ApplicationAction::ForceStop,
        ApplicationAction::ClearData,
        ApplicationAction::Freeze,
        ApplicationAction::Unfreeze,
        ApplicationAction::Uninstall,
    ];
    let mut keys: Vec<&str> = actions.iter().map(|action| action.label_key()).collect();
    keys.sort_unstable();
    let total = keys.len();
    keys.dedup();
    assert_eq!(keys.len(), total);
}

#[test]
fn search_is_trimmed_and_case_insensitive() {
    let mut state = ApplicationsPanelState::default();
    let device = device_target();
    state.reset_for(Some(device.clone()));
    state.handle_event(&loaded(
        &device,
        vec![record("org.Mozilla.firefox"), record("com.example.app"), {
            let mut app = record("com.android.settings");
            app.system = true;
            app
        }],
    ));
    state.search = "  MOZILLA ".to_owned();
    let names: Vec<String> = state.visible_applications().into_iter().map(|a| a.package).collect();
    assert_eq!(names, vec!["org.Mozilla.firefox".to_owned()]);
    state.search = String::new();
    state.filter = ApplicationFilter::All;
    assert_eq!(state.visible_applications().len(), 3);
}

#[test]
fn selecting_a_tile_asks_for_details_once() {
    let mut state = ApplicationsPanelState::default();
    let device = device_target();
    state.reset_for(Some(device));
    let first = state.select("com.example.app".to_owned(), 21);
    assert!(matches!(
        first,
        Some(ApplicationsCommand::LoadApplicationDetails { request_id: 21, ref package, .. })
            if package == "com.example.app"
    ));
    assert!(state.select("com.example.app".to_owned(), 22).is_none());
}

#[test]
fn confirming_a_destructive_action_runs_it_on_the_selection() {
    let mut state = ApplicationsPanelState::default();
    let device = device_target();
    state.reset_for(Some(device));
    state.selected = Some("com.example.app".to_owned());
    state.confirm = Some(ApplicationAction::ClearData);
    let mut commands = Vec::new();
    state.confirm_action(&mut commands, 31);
    assert_eq!(commands.len(), 1);
    assert!(matches!(
        &commands[0],
        ApplicationsCommand::RunApplicationAction { request_id: 31, action: ApplicationAction::ClearData, package, .. }
            if package == "com.example.app"
    ));
    assert!(state.confirm.is_none());
    assert_eq!(state.pending, Some(PendingAction { request_id: 31, action: ApplicationAction::ClearData }));
}

#[test]
fn refresh_and_install_need_a_device() {
    let mut state = ApplicationsPanelState::default();
    assert!(state.refresh().is_none());
    assert!(state.start_install("/tmp/app.apk".to_owned(), 1).is_none());
    state.reset_for(Some(device_target()));
    assert!(state.refresh().is_some());
    assert!(state.refresh().is_none(), "a load is already under way");
    assert!(state.start_install("/tmp/app.apk".to_owned(), 2).is_some());
    assert!(state.start_install("/tmp/app.apk".to_owned(), 3).is_none());
    assert_eq!(state.install, Some(2));
}

#[test]
fn icons_keep_their_size_per_package() {
    let mut icons = bridgescope::applications::PackageIcons::new();
    icons.insert("a".to_owned(), ApplicationIconData { width: 2, height: 3, rgba: vec![0; 24] });
    icons.insert("b".to_owned(), ApplicationIconData { width: 1, height: 1, rgba: vec![9; 4] });
    icons.insert("a".to_owned(), ApplicationIconData { width: 4, height: 1, rgba: vec![1; 16] });
    let a = icons.get("a").expect("a has an icon");
    assert_eq!((a.width, a.height, a.rgba.len()), (4, 1, 16));
    let b = icons.get("b").expect("b keeps its icon");
    assert_eq!((b.width, b.height, b.rgba.clone()), (1, 1, vec![9; 4]));
    assert!(icons.get("c").is_none());
}
