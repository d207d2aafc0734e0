use bridgescope::device::{BridgeError, DeviceTarget, ErrorCode};
use bridgescope::files::{
    format_error, sort_entries, FileTransferDirection, FilesCommand, FilesEvent, FilesPanelState,
    MutationModalKind, OverwritePolicy, RemoteFileEntry, RemoteFileKind, SortKey, TransferIntent,
};

fn entry(name: &str, kind: RemoteFileKind, size: Option<u64>, modified: Option<i64>) -> RemoteFileEntry {
    RemoteFileEntry {
        path: format!("/sdcard/{name}"),
        name: name.to_owned(),
        kind,
        size_bytes: size,
        modified_unix_seconds: modified,
        permissions: None,
    }
}

fn names(entries: &[RemoteFileEntry]) -> Vec<&str> {
    entries.iter().map(|entry| entry.name.as_str()).collect()
}

#[test]
fn files_target_change_clears_listing() {
    let mut state = FilesPanelState::default();
    let target = DeviceTarget::new("a", 1);
    let _ = state.reconcile_target(Some(target), 1);
    assert!(state.loading);
}

#[test]
fn files_navigation_records_history_for_back() {
    let mut state = FilesPanelState::default();
    let target = DeviceTarget::new("a", 1);
    let _ = state.reconcile_target(Some(target.clone()), 1);
    state.directory = Some("/sdcard".to_owned());
    let _ = state.navigate(target.clone(), "/sdcard/DCIM".to_owned(), 2);
    assert_eq!(state.history.len(), 1);
    // Refreshing the same directory must not pollute history.
    let _ = state.list(target, "/sdcard/DCIM".to_owned(), 3);
    assert_eq!(state.history.len(), 1);
    let back = state.history.pop().expect("history entry");
    assert_eq!(back, "/sdcard");
}

#[test]
fn files_sorts_entries_by_key_with_directories_first() {
    let mut entries = vec![
        entry("b.txt", RemoteFileKind::File, Some(2), Some(200)),
        entry("dir", RemoteFileKind::Directory, None, None),
        entry("a.txt", RemoteFileKind::File, Some(1), Some(100)),
    ];
    sort_entries(&mut entries, SortKey::Name, false);
    assert_eq!(names(&entries), vec!["dir", "a.txt", "b.txt"]);
    sort_entries(&mut entries, SortKey::Modified, false);
    assert_eq!(entries[0].name, "dir");
    assert_eq!(entries[1].name, "a.txt");
    sort_entries(&mut entries, SortKey::Modified, true);
    assert_eq!(entries[0].name, "dir");
    assert_eq!(entries[1].name, "b.txt");
}

#[test]
fn size_sort_puts_missing_sizes_first_and_keeps_ties_in_order() {
    let mut entries = vec![
        entry("big", RemoteFileKind::File, Some(900), None),
        entry("unknown", RemoteFileKind::File, None, None),
        entry("tie1", RemoteFileKind::File, Some(5), None),
        entry("tie2", RemoteFileKind::File, Some(5), None),
    ];
    sort_entries(&mut entries, SortKey::Size, false);
    assert_eq!(names(&entries), vec!["unknown", "tie1", "tie2", "big"]);
}

#[test]
fn reconcile_with_same_target_is_a_no_op() {
    let mut state = FilesPanelState::default();
    let target = DeviceTarget::new("a", 1);
    let first = state.reconcile_target(Some(target.clone()), 1);
    match first {
        Some(FilesCommand::ListDirectory { request_id, path, .. }) => {
            assert_eq!(request_id, 1);
            assert_eq!(path, "/sdcard");
        }
        _ => panic!("a new target lists the default directory"),
    }
    assert!(state.reconcile_target(Some(target), 2).is_none());
    assert_eq!(state.listing_request, Some(1));
    assert!(state.reconcile_target(None, 3).is_none());
    assert!(!state.loading);
    assert!(state.listing_request.is_none());
}

#[test]
fn loaded_listing_for_current_request_replaces_entries() {
    let mut state = FilesPanelState::default();
    let target = DeviceTarget::new("a", 1);
    let _ = state.reconcile_target(Some(target.clone()), 7);
    let stale = FilesEvent::DirectoryLoaded {
        request_id: 6,
        target: target.clone(),
        directory: "/old".to_owned(),
        entries: vec![entry("x", RemoteFileKind::File, None, None)],
    };
    assert!(state.handle_event(&stale, 8).is_empty());
    assert!(state.entries.is_empty());
    let current = FilesEvent::DirectoryLoaded {
        request_id: 7,
        target,
        directory: "/sdcard".to_owned(),
        entries: vec![entry("x", RemoteFileKind::File, None, None)],
    };
    assert!(state.handle_event(&current, 8).is_empty());
    assert_eq!(names(&state.entries), vec!["x"]);
    assert_eq!(state.directory.as_deref(), Some("/sdcard"));
    assert!(!state.loading);
}

#[test]
fn completed_transfer_relists_the_directory() {
    let mut state = FilesPanelState::default();
    let target = DeviceTarget::new("a", 1);
    let _ = state.reconcile_target(Some(target.clone()), 1);
    state.directory = Some("/sdcard".to_owned());
    let intent = TransferIntent {
        direction: FileTransferDirection::Upload,
        target: target.clone(),
        local_path: "/tmp/a".to_owned(),
        remote_path: "/sdcard/a".to_owned(),
    };
    let _ = state.start_transfer(intent, OverwritePolicy::Deny, 2);
    assert_eq!(state.transfer, Some(2));
    let commands = state.handle_event(
        &FilesEvent::FileTransferCompleted { request_id: 2, target },
        3,
    );
    assert_eq!(commands.len(), 1);
    match &commands[0] {
        FilesCommand::ListDirectory { request_id, path, .. } => {
            assert_eq!(*request_id, 3);
            assert_eq!(path, "/sdcard");
        }
        _ => panic!("expected a relisting"),
    }
    assert!(state.transfer.is_none());
}

#[test]
fn refused_overwrite_offers_the_transfer_again() {
    let mut state = FilesPanelState::default();
    let target = DeviceTarget::new("a", 1);
    let _ = state.reconcile_target(Some(target.clone()), 1);
    let intent = TransferIntent {
        direction: FileTransferDirection::Download,
        target: target.clone(),
        local_path: "/tmp/a".to_owned(),
        remote_path: "/sdcard/a".to_owned(),
    };
    let _ = state.start_transfer(intent, OverwritePolicy::Deny, 2);
    let error = BridgeError {
        code: ErrorCode::AlreadyExists,
        message_key: "files.exists".to_owned(),
        detail: String::new(),
    };
    let commands = state.handle_event(
        &FilesEvent::FileTransferFailed { request_id: 2, target, error },
        3,
    );
    assert!(commands.is_empty());
    assert!(state.overwrite_prompt.is_some());
    assert!(state.error.is_none());
}

#[test]
fn failures_render_key_and_detail() {
    let error = BridgeError {
        code: ErrorCode::Other,
        message_key: "files.list_failed".to_owned(),
        detail: "permission denied".to_owned(),
    };
    assert_eq!(format_error(&error), "files.list_failed: permission denied");
    let mut state = FilesPanelState::default();
    let target = DeviceTarget::new("a", 1);
    let _ = state.reconcile_target(Some(target.clone()), 1);
    let _ = state.handle_event(&FilesEvent::DirectoryFailed { request_id: 1, target, error }, 2);
    assert_eq!(state.error.as_deref(), Some("files.list_failed: permission denied"));
    assert!(!state.loading);
}

#[test]
fn clicking_the_active_header_flips_direction() {
    let mut state = FilesPanelState::default();
    state.click_sort_header(SortKey::Name);
    assert!(state.sort_reverse);
    state.click_sort_header(SortKey::Size);
    assert_eq!(state.sort_key, SortKey::Size);
    assert!(!state.sort_reverse);
}

fn download_intent(target: &DeviceTarget) -> TransferIntent {
    TransferIntent {
        direction: FileTransferDirection::Download,
        target: target.clone(),
        local_path: "/tmp/a".to_owned(),
        remote_path: "/sdcard/a".to_owned(),
    }
}

#[test]
fn overwrite_needs_the_replace_button() {
    let mut state = FilesPanelState::default();
    let target = DeviceTarget::new("a", 1);
    let _ = state.reconcile_target(Some(target.clone()), 1);
    let first = state.request_transfer(download_intent(&target), 2);
    assert!(matches!(first, FilesCommand::DownloadFile { request_id: 2, overwrite: OverwritePolicy::Deny, .. }));
    let exists = BridgeError { code: ErrorCode::AlreadyExists, message_key: "k".to_owned(), detail: String::new() };
    let _ = state.handle_event(&FilesEvent::FileTransferFailed { request_id: 2, target: target.clone(), error: exists }, 3);
    assert!(state.overwrite_prompt.is_some());
    match state.confirm_overwrite(4) {
        Some(FilesCommand::DownloadFile { request_id, overwrite, remote_path, .. }) => {
            assert_eq!(request_id, 4);
            assert_eq!(overwrite, OverwritePolicy::ReplaceConfirmed);
            assert_eq!(remote_path, "/sdcard/a");
        }
        _ => panic!("the kept transfer is sent again"),
    }
    assert!(state.overwrite_prompt.is_none());
    assert_eq!(state.transfer, Some(4));
    assert!(state.confirm_overwrite(5).is_none(), "no prompt, nothing to confirm");
}

#[test]
fn dismissed_overwrite_sends_nothing() {
    let mut state = FilesPanelState::default();
    let target = DeviceTarget::new("a", 1);
    state.overwrite_prompt = Some(download_intent(&target));
    state.dismiss_overwrite();
    assert!(state.overwrite_prompt.is_none());
    assert!(state.confirm_overwrite(1).is_none());
    assert!(state.transfer.is_none());
}

#[test]
fn back_pops_history_then_lists_the_parent() {
    let mut state = FilesPanelState::default();
    let target = DeviceTarget::new("a", 1);
    state.history = vec!["/sdcard".to_owned(), "/sdcard/Download".to_owned()];
    match state.go_back(target.clone(), Some("/".to_owned()), 7) {
        Some(FilesCommand::ListDirectory { request_id: 7, path, .. }) => assert_eq!(path, "/sdcard/Download"),
        _ => panic!("the latest directory comes back"),
    }
    assert_eq!(state.history, vec!["/sdcard".to_owned()]);
    assert!(state.loading);
    state.history.clear();
    match state.go_back(target.clone(), Some("/".to_owned()), 8) {
        Some(FilesCommand::ListDirectory { request_id: 8, path, .. }) => assert_eq!(path, "/"),
        _ => panic!("without history the parent is listed"),
    }
    assert!(state.go_back(target, None, 9).is_none());
}

#[test]
fn completed_mutation_relists_and_marks_loading() {
    let mut state = FilesPanelState::default();
    let target = DeviceTarget::new("a", 1);
    let _ = state.reconcile_target(Some(target.clone()), 1);
    state.directory = Some("/sdcard".to_owned());
    state.loading = false;
    state.open_mutation_dialog(MutationModalKind::CreateDirectory);
    let sent = state.submit_mutation(target.clone(), Some("/sdcard/new".to_owned()), 2);
    assert!(matches!(sent, Some(FilesCommand::CreateDirectory { request_id: 2, .. })));
    assert!(state.mutation_modal.is_none());
    let commands = state.handle_event(&FilesEvent::FileMutationCompleted { request_id: 2, target }, 3);
    assert_eq!(commands.len(), 1);
    assert!(state.loading);
    assert_eq!(state.listing_request, Some(3));
}

#[test]
fn dialogs_need_what_they_act_on() {
    let mut state = FilesPanelState::default();
    let target = DeviceTarget::new("a", 1);
    state.open_mutation_dialog(MutationModalKind::Rename);
    assert!(state.mutation_modal.is_none(), "rename needs a selected entry");
    state.entries = vec![entry("a.txt", RemoteFileKind::File, Some(1), None)];
    state.selected = Some(0);
    state.open_mutation_dialog(MutationModalKind::Rename);
    assert_eq!(state.mutation_modal.as_ref().map(|m| m.input.as_str()), Some("a.txt"));
    let refused = state.submit_mutation(target.clone(), None, 2);
    assert!(refused.is_none());
    assert_eq!(state.error.as_deref(), Some("Invalid remote name or selection."));
    assert!(state.mutation_modal.is_some(), "the dialog stays open");
    state.cancel_mutation_dialog();
    state.open_mutation_dialog(MutationModalKind::Delete);
    match state.submit_mutation(target, None, 3) {
        Some(FilesCommand::DeleteRemoteFile { path, confirmed, .. }) => {
            assert_eq!(path, "/sdcard/a.txt");
            assert!(confirmed);
        }
        _ => panic!("a delete is sent confirmed"),
    }
    assert_eq!(state.mutation, Some(3));
    assert!(state.cancel_transfer().is_none());
}
