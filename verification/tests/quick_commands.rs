use bridgescope::quick_commands::{
    payload_chunks, sendable_commands, QuickCommand, QuickCommandStore, MAX_BUTTON_LABEL_CHARS,
};

/// Shell input batch limit used by these tests.
const CHUNK_LIMIT: usize = 4096;

#[test]
fn payload_appends_newline_only_when_run() {
    let executing = QuickCommand::new("dmesg", "dmesg", true);
    assert_eq!(payload_chunks(&executing, CHUNK_LIMIT), [b"dmesg\n".to_vec()]);

    let typing = QuickCommand::new("cd", "cd /data/local/tmp", false);
    assert_eq!(
        payload_chunks(&typing, CHUNK_LIMIT),
        [b"cd /data/local/tmp".to_vec()]
    );
}

#[test]
fn payload_splits_at_domain_limit() {
    let chunk_limit = CHUNK_LIMIT;
    let long = QuickCommand {
        command: "x".repeat(chunk_limit + 3),
        ..QuickCommand::new("big", "x", true)
    };
    let chunks = payload_chunks(&long, chunk_limit);
    // limit+3 letters plus the trailing newline straddle two chunks.
    assert_eq!(chunks.len(), 2);
    assert_eq!(chunks[0].len(), chunk_limit);
    assert_eq!(chunks[1], b"xxx\n".to_vec());
}

#[test]
fn import_skips_blank_and_duplicate_entries() {
    let mut store = QuickCommandStore::default();
    let baseline = store.commands.len();
    let known = store.commands[0].clone();
    let added = store.import(vec![
        QuickCommand::new("", "   ", true),
        QuickCommand::new(&known.label, &known.command, !known.run),
        QuickCommand::new("fresh", "echo fresh", false),
    ]);
    assert_eq!(added, 1);
    assert_eq!(store.commands.len(), baseline + 1);
    assert_eq!(
        store.commands.last().map(|command| command.label.as_str()),
        Some("fresh")
    );
}

#[test]
fn display_label_falls_back_to_command_and_truncates() {
    let labelled = QuickCommand::new("  清理日志  ", "logcat -c", true);
    assert_eq!(labelled.display_label(), "清理日志");

    let unlabelled = QuickCommand::new("", "getprop", true);
    assert_eq!(unlabelled.display_label(), "getprop");

    let long_command = "x".repeat(MAX_BUTTON_LABEL_CHARS + 5);
    let truncated = QuickCommand::new("", &long_command, true);
    let label = truncated.display_label();
    assert_eq!(label.chars().count(), MAX_BUTTON_LABEL_CHARS + 1);
    assert!(label.ends_with('…'));
}

#[test]
fn importing_twice_adds_nothing_the_second_time() {
    let mut store = QuickCommandStore::default();
    let incoming = vec![
        QuickCommand::new("a", "echo a", true),
        QuickCommand::new("a", "echo a", false),
        QuickCommand::new("b", "\techo b ", true),
    ];
    assert_eq!(store.import(incoming.clone()), 2);
    let after_first = store.commands.clone();
    assert_eq!(store.import(incoming), 0);
    assert_eq!(store.commands, after_first);
}

#[test]
fn default_store_seeds_three_read_only_commands() {
    let store = QuickCommandStore::default();
    let commands: Vec<&str> = store.commands.iter().map(|c| c.command.as_str()).collect();
    assert_eq!(
        commands,
        ["getprop ro.build.version.release", "dumpsys battery", "df -h /data"]
    );
    assert!(store.commands.iter().all(|c| c.run));
    assert!(!store.manage_open);
    assert!(store.status.is_none());
}

#[test]
fn blank_entries_are_not_sendable_and_are_filtered() {
    let kept = sendable_commands(vec![
        QuickCommand::new("ls", "ls -l", true),
        QuickCommand::new("blank", " \u{3000}\n", true),
        QuickCommand::new("d", "dmesg", false),
    ]);
    assert_eq!(
        kept,
        vec![
            QuickCommand::new("ls", "ls -l", true),
            QuickCommand::new("d", "dmesg", false),
        ]
    );
    assert!(!QuickCommand::new("x", "\u{2003}", true).is_sendable());
}

#[test]
fn rows_move_and_delete() {
    let mut store = QuickCommandStore::default();
    store.move_up(0);
    assert_eq!(store.commands[0].command, "getprop ro.build.version.release");
    store.move_down(0);
    assert_eq!(store.commands[0].command, "dumpsys battery");
    assert_eq!(store.commands[1].command, "getprop ro.build.version.release");
    store.move_down(2);
    assert_eq!(store.commands[2].command, "df -h /data");
    store.delete(1);
    assert_eq!(store.commands.len(), 2);
    store.add_blank();
    assert_eq!(store.commands[2], QuickCommand::new("", "", true));
}

#[test]
fn empty_payload_has_no_chunks() {
    let typing = QuickCommand::new("nothing", "", false);
    assert!(payload_chunks(&typing, 8).is_empty());
    let exact = QuickCommand::new("eight", "12345678", false);
    assert_eq!(payload_chunks(&exact, 8), [b"12345678".to_vec()]);
}
