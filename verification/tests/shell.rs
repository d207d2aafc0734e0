use bridgescope::device::{BridgeError, DeviceTarget};
use bridgescope::shell::{
    append_terminal_input, key_bytes, ShellCommand, ShellEvent, ShellPanelState, ShellStatus,
    TerminalKey, TERMINAL_COLUMNS, TERMINAL_ROWS,
};

/// Shell input batch limit used by these tests.
const MAX_SHELL_INPUT_BYTES: usize = 4096;

#[test]
fn control_keys_are_encoded() {
    assert_eq!(
        key_bytes(TerminalKey::Letter('C'), true, false, false),
        Some(vec![3])
    );
    assert_eq!(
        key_bytes(TerminalKey::ArrowUp, false, false, true),
        Some(b"\x1bOA".to_vec())
    );
}

#[test]
fn other_keys_and_modifiers() {
    assert_eq!(key_bytes(TerminalKey::ArrowUp, false, false, false), Some(b"\x1b[A".to_vec()));
    assert_eq!(key_bytes(TerminalKey::Enter, false, false, false), Some(b"\r".to_vec()));
    assert_eq!(key_bytes(TerminalKey::Delete, true, true, true), Some(b"\x1b[3~".to_vec()));
    assert_eq!(key_bytes(TerminalKey::Letter('C'), true, true, false), None);
    assert_eq!(key_bytes(TerminalKey::Letter('C'), false, false, false), None);
    assert_eq!(key_bytes(TerminalKey::Letter('Z'), true, false, false), Some(vec![26]));
    assert_eq!(key_bytes(TerminalKey::Letter('é'), true, false, false), None);
    assert_eq!(key_bytes(TerminalKey::Other, true, false, false), None);
}

#[test]
fn terminal_input_batches_and_preserves_order() {
    let mut output = Vec::new();
    append_terminal_input(&mut output, b"hello", MAX_SHELL_INPUT_BYTES);
    append_terminal_input(&mut output, b"\r", MAX_SHELL_INPUT_BYTES);
    assert_eq!(output, [b"hello\r".to_vec()]);
}

#[test]
fn terminal_input_splits_at_domain_limit() {
    let input = vec![b'x'; MAX_SHELL_INPUT_BYTES + 7];
    let mut output = Vec::new();
    append_terminal_input(&mut output, &input, MAX_SHELL_INPUT_BYTES);
    assert_eq!(output.len(), 2);
    assert_eq!(output[0].len(), MAX_SHELL_INPUT_BYTES);
    assert_eq!(output[1], vec![b'x'; 7]);
}

#[test]
fn partial_batches_are_topped_up_first() {
    let mut output = vec![b"ab".to_vec()];
    append_terminal_input(&mut output, b"cdefg", 4);
    assert_eq!(output, [b"abcd".to_vec(), b"efg".to_vec()]);
    append_terminal_input(&mut output, b"", 4);
    assert_eq!(output, [b"abcd".to_vec(), b"efg".to_vec()]);
    append_terminal_input(&mut output, b"h", 4);
    assert_eq!(output, [b"abcd".to_vec(), b"efgh".to_vec()]);
    append_terminal_input(&mut output, b"i", 4);
    assert_eq!(output, [b"abcd".to_vec(), b"efgh".to_vec(), b"i".to_vec()]);
}

#[test]
fn session_opens_streams_and_closes() {
    let mut state = ShellPanelState::default();
    assert!(state.connect(1).is_none(), "no target, no session");
    let target = DeviceTarget::new("serial", 3);
    let (commands, clear) = state.reconcile_target(Some(target.clone()));
    assert!(commands.is_empty() && clear);
    let open = state.connect(5).expect("open request");
    assert!(matches!(
        open,
        ShellCommand::Open { session_id: 5, columns, rows, .. }
            if columns == TERMINAL_COLUMNS && rows == TERMINAL_ROWS
    ));
    assert_eq!(state.status, ShellStatus::Connecting);
    assert!(!state.connected());
    state.handle_event(&ShellEvent::Opened { target: target.clone(), session_id: 5 });
    assert!(state.connected() && state.focus_terminal);
    assert!(state.handle_event(&ShellEvent::Output { session_id: 5, bytes: b"$ ".to_vec() }));
    assert!(!state.handle_event(&ShellEvent::Output { session_id: 6, bytes: b"x".to_vec() }));
    assert!(state.write(Vec::new(), MAX_SHELL_INPUT_BYTES).is_none());
    assert!(matches!(
        state.write(b"ls\r".to_vec(), MAX_SHELL_INPUT_BYTES),
        Some(ShellCommand::Write { session_id: 5, .. })
    ));
    assert!(matches!(state.close(), Some(ShellCommand::Close(5))));
    assert_eq!(state.status, ShellStatus::Closing);
    state.handle_event(&ShellEvent::Closed { session_id: 5, exit_code: Some(0) });
    assert_eq!(state.status, ShellStatus::Exited);
    assert!(state.session_id.is_none());
}

#[test]
fn failures_and_target_changes_end_the_session() {
    let mut state = ShellPanelState::default();
    let _ = state.reconcile_target(Some(DeviceTarget::new("a", 1)));
    let _ = state.connect(9);
    state.handle_event(&ShellEvent::Failed { session_id: 9, error: BridgeError::invalid_input("shell.broken") });
    assert_eq!(state.status, ShellStatus::Failed);
    assert_eq!(state.error.as_ref().map(|e| e.message_key.as_str()), Some("shell.broken"));
    let _ = state.connect(10);
    let (commands, clear) = state.reconcile_target(Some(DeviceTarget::new("a", 1)));
    assert!(commands.is_empty() && !clear);
    let (commands, clear) = state.reconcile_target(None);
    assert!(clear);
    assert!(matches!(commands.as_slice(), [ShellCommand::Close(10)]));
    assert_eq!(state.status, ShellStatus::Disconnected);
    assert!(state.error.is_none());
}
