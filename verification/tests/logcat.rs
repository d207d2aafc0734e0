use bridgescope::device::DeviceTarget;
use bridgescope::logcat::{
    auto_start, split_prefix_fields, LogLine, LogcatCommand, LogcatEvent, LogcatPanelState,
    MAX_LINES,
};

#[test]
fn parses_threadtime_lines() {
    let line = LogLine::parse(
        "08-29 10:00:01.100  1000  1001 I ActivityTaskManager: Displayed com.example/.Main",
    );
    assert_eq!(line.time, "08-29 10:00:01.100");
    assert_eq!(line.pid, "1000");
    assert_eq!(line.tid, "1001");
    assert_eq!(line.level, 'I');
    assert_eq!(line.tag, "ActivityTaskManager");
    assert_eq!(line.message, "Displayed com.example/.Main");
}

#[test]
fn keeps_unrecognized_lines_as_raw_rows() {
    let line = LogLine::parse("--------- beginning of main");
    assert_eq!(line.level, '?');
    assert_eq!(line.message, "--------- beginning of main");
}

#[test]
fn severity_orders_for_filtering() {
    assert_eq!(
        LogLine::parse("08-29 10:00:00.000 1 1 V T: m").severity_index(),
        Some(0)
    );
    assert_eq!(
        LogLine::parse("08-29 10:00:00.000 1 1 D T: m").severity_index(),
        Some(1)
    );
    assert_eq!(
        LogLine::parse("08-29 10:00:00.000 1 1 W T: m").severity_index(),
        Some(3)
    );
    assert_eq!(
        LogLine::parse("08-29 10:00:00.000 1 1 F T: m").severity_index(),
        Some(5)
    );
    assert_eq!(LogLine::parse("junk").severity_index(), None);
}

#[test]
fn ingest_splits_lines_and_respects_pause() {
    let mut state = LogcatPanelState::default();
    state.ingest(b"08-29 10:00:01.100 1 1 I Tag: hello\n08-29 10:00:01.200 1 1 W");
    assert_eq!(state.lines.len(), 1);
    assert_eq!(state.pending_bytes, b"08-29 10:00:01.200 1 1 W");
    state.ingest(b" Tag: partial\n");
    assert_eq!(state.lines.len(), 2);
    assert_eq!(state.lines[1].tag, "Tag");

    state.paused = true;
    state.ingest(b"08-29 10:00:01.300 1 1 E Tag: dropped\n");
    assert_eq!(state.lines.len(), 2);
}

#[test]
fn auto_start_requires_online_target_and_backs_off() {
    let mut state = LogcatPanelState::default();
    assert!(auto_start(&mut state, false, 0, 1).is_empty());

    let target = DeviceTarget::new("emulator-5554", 1);
    state.target = Some(target);
    let commands = auto_start(&mut state, true, 0, 1);
    assert_eq!(commands.len(), 1);
    // A session is already pending: no double start.
    assert!(auto_start(&mut state, true, 10, 2).is_empty());
    // The user pressed stop: auto-start stays suppressed.
    let mut stopped = LogcatPanelState {
        target: state.target.clone(),
        user_stopped: true,
        ..LogcatPanelState::default()
    };
    assert!(auto_start(&mut stopped, true, 0, 3).is_empty());
}

#[test]
fn failed_start_retries_only_after_the_backoff() {
    let mut state = LogcatPanelState::default();
    state.target = Some(DeviceTarget::new("serial", 4));
    assert_eq!(auto_start(&mut state, true, 1_000, 7).len(), 1);
    state.handle_event(&LogcatEvent::Failed { session_id: 7 });
    assert!(state.session.is_none());
    assert!(auto_start(&mut state, true, 3_999, 8).is_empty());
    let commands = auto_start(&mut state, true, 4_000, 9);
    assert!(matches!(
        commands.as_slice(),
        [LogcatCommand::Start { session_id: 9, target }] if target.serial == "serial"
    ));
}

#[test]
fn session_lifecycle_and_target_change() {
    let mut state = LogcatPanelState::default();
    let target = DeviceTarget::new("a", 1);
    assert!(state.reset_for(Some(target.clone())).is_empty());
    let command = state.start(11, 0).expect("start allowed");
    assert!(matches!(command, LogcatCommand::Start { session_id: 11, .. }));
    assert!(state.start(12, 0).is_none(), "one session at a time");
    state.handle_event(&LogcatEvent::Started { target: DeviceTarget::new("a", 2), session_id: 11 });
    assert!(!state.running, "another generation is a different device");
    state.handle_event(&LogcatEvent::Started { target: target.clone(), session_id: 11 });
    assert!(state.running && !state.starting);
    state.handle_event(&LogcatEvent::Output { session_id: 99, bytes: b"ignored\n".to_vec() });
    assert!(state.lines.is_empty());
    state.handle_event(&LogcatEvent::Output { session_id: 11, bytes: b"kept\r\n".to_vec() });
    assert_eq!(state.lines.len(), 1);
    assert_eq!(state.lines[0].message, "kept");
    state.toggle_pause();
    assert!(state.paused);
    let stop = state.stop();
    assert!(matches!(stop.as_slice(), [LogcatCommand::Stop(11)]));
    assert!(state.user_stopped && state.lines.is_empty());
    assert!(auto_start(&mut state, true, 100_000, 12).is_empty());
    let commands = state.reset_for(Some(DeviceTarget::new("b", 1)));
    assert!(commands.is_empty());
    assert!(!state.user_stopped);
}

#[test]
fn buffer_keeps_the_newest_rows() {
    let mut state = LogcatPanelState::default();
    let mut bytes = Vec::new();
    for index in 0..MAX_LINES + 5 {
        bytes.extend_from_slice(format!("row {index}\n").as_bytes());
    }
    state.ingest(&bytes);
    assert_eq!(state.lines.len(), MAX_LINES);
    assert_eq!(state.lines[0].message, "row 5");
    assert_eq!(state.lines[MAX_LINES - 1].message, format!("row {}", MAX_LINES + 4));
}

#[test]
fn fragmented_input_parses_like_whole_input() {
    let whole = b"08-29 10:00:01.100 1 1 I Tag: one\n08-29 10:00:01.200 2 2 E Other: two\npart";
    let mut at_once = LogcatPanelState::default();
    at_once.ingest(whole);
    let mut pieces = LogcatPanelState::default();
    for piece in whole.chunks(3) {
        pieces.ingest(piece);
    }
    assert_eq!(at_once.lines, pieces.lines);
    assert_eq!(at_once.pending_bytes, pieces.pending_bytes);
}

#[test]
fn format_and_filters() {
    let line = LogLine::parse("08-29 10:00:01.100  1000  1001 W Net: slow link");
    assert_eq!(line.format(), "08-29 10:00:01.100 W/Net 1000: slow link");
    assert_eq!(LogLine::parse("odd row").format(), "odd row");
    let no_message = LogLine::parse("08-29 10:00:01.100 1 1 I TagOnly");
    assert_eq!(no_message.tag, "TagOnly");
    assert_eq!(no_message.message, "");

    let mut state = LogcatPanelState::default();
    state.ingest(b"08-29 10:00:00.000 1 1 V Verbose: a\n08-29 10:00:00.000 1 1 E Crash: b\nnoise\n");
    assert_eq!(state.visible_rows(), vec![0, 1, 2]);
    state.level_filter = 2;
    assert_eq!(state.visible_rows(), vec![1]);
    state.level_filter = 0;
    state.query = "  CRASH ".to_owned();
    assert_eq!(state.visible_rows(), vec![1]);
}

#[test]
fn prefix_fields_collapse_white_space() {
    let (fields, rest) = split_prefix_fields("  a \t b  c rest of it", 3).expect("three fields");
    assert_eq!(fields, vec!["a", "b", "c"]);
    assert_eq!(rest, "rest of it");
    assert!(split_prefix_fields("a b", 3).is_none());
}

#[test]
fn invalid_utf8_still_yields_a_row() {
    let mut state = LogcatPanelState::default();
    state.ingest(&[0xff, b'x', b'\n']);
    assert_eq!(state.lines.len(), 1);
    assert_eq!(state.lines[0].message, "\u{fffd}x");
}

#[test]
fn stop_keeps_the_view_settings() {
    let mut state = bridgescope::logcat::LogcatPanelState::default();
    state.running = true;
    state.session = Some(3);
    state.level_filter = 4;
    state.auto_scroll = true;
    state.pending_bytes = vec![b'x'];
    let commands = state.stop();
    assert_eq!(commands.len(), 1);
    assert_eq!(state.level_filter, 4);
    assert!(state.auto_scroll);
    assert!(state.pending_bytes.is_empty());
    assert!(state.user_stopped);
}
