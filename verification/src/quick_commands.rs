//! Quick commands: one-click buttons that send frequently used commands to
//! the shell. The list is user editable and can travel between machines
//! through an export file (read and written by the application shell).

use vstd::prelude::*;

use crate::text::{chars_of, push_char, string_of, trim, trimmed_chars};
use crate::shell::{append_terminal_input, chunk_layout, flatten};
use vstd::utf8::encode_utf8;

verus! {

/// Buttons longer than this would crowd the shell toolbar.
pub const MAX_BUTTON_LABEL_CHARS: usize = 24;

/// One saved command: a short button label plus the text to type, and whether
/// pressing the button also presses Enter afterwards.
#[derive(Clone, Debug, PartialEq, Eq)]
pub struct QuickCommand {
    pub label: String,
    pub command: String,
    pub run: bool,
}

/// What a quick command is, as plain character sequences.
pub struct QuickCommandView {
    pub label: Seq<char>,
    pub command: Seq<char>,
    pub run: bool,
}

impl View for QuickCommand {
    type V = QuickCommandView;

    open spec fn view(&self) -> QuickCommandView {
        QuickCommandView { label: self.label@, command: self.command@, run: self.run }
    }
}

/// Whether a command has something to send once surrounding white space is gone.
pub open spec fn is_sendable_view(command: QuickCommandView) -> bool {
    trim(command.command).len() > 0
}

/// The text of a quick-command button.
pub open spec fn display_label_view(command: QuickCommandView) -> Seq<char> {
    let source = if trim(command.label).len() == 0 {
        trim(command.command)
    } else {
        trim(command.label)
    };
    if source.len() <= MAX_BUTTON_LABEL_CHARS {
        source
    } else {
        source.take(MAX_BUTTON_LABEL_CHARS as int).push('…')
    }
}

/// The whether-run default of a command read from an export file.
pub fn default_run() -> (run: bool)
    ensures
        run,
{
    true
}

impl QuickCommand {
    pub fn new(label: &str, command: &str, run: bool) -> (res: Self)
        ensures
            res@ == (QuickCommandView { label: label@, command: command@, run }),
    {
        QuickCommand { label: string_of(chars_of(label).as_slice()), command: string_of(chars_of(command).as_slice()), run }
    }

    /// A blank row that still executes on click.
    pub fn blank() -> (res: Self)
        ensures
            res@ == (QuickCommandView { label: Seq::empty(), command: Seq::empty(), run: true }),
    {
        QuickCommand { label: String::new(), command: String::new(), run: true }
    }

    /// The text shown on the bar button: the label, or the command itself when
    /// no label was set, truncated so a long entry cannot eat the toolbar.
    pub fn display_label(&self) -> (res: String)
        ensures
            res@ == display_label_view(self@),
    {
        let label = trimmed_chars(self.label.as_str());
        let source = if label.len() == 0 {
            trimmed_chars(self.command.as_str())
        } else {
            label
        };
        if source.len() <= MAX_BUTTON_LABEL_CHARS {
            return string_of(source.as_slice());
        }
        let mut truncated = String::new();
        let mut i: usize = 0;
        while i < MAX_BUTTON_LABEL_CHARS
            invariant
                i <= MAX_BUTTON_LABEL_CHARS < source@.len(),
                truncated@ == source@.take(i as int),
            decreases MAX_BUTTON_LABEL_CHARS - i,
        {
            push_char(&mut truncated, source[i]);
            i = i + 1;
            assert(source@.take(i as int) == source@.take((i - 1) as int).push(source@[i - 1]));
        }
        push_char(&mut truncated, '…');
        truncated
    }

    /// Whether the command has anything to send.
    pub fn is_sendable(&self) -> (res: bool)
        ensures
            res == is_sendable_view(self@),
    {
        trimmed_chars(self.command.as_str()).len() > 0
    }
}


/// Outcome of the last import/export, rendered later in the current language.
#[derive(Clone, Debug)]
pub enum QuickCommandStatus {
    Imported(usize),
    Exported(String),
    Failed(String),
}

/// Everything the shell panel needs to render and edit the quick commands.
pub struct QuickCommandStore {
    pub commands: Vec<QuickCommand>,
    pub manage_open: bool,
    pub status: Option<QuickCommandStatus>,
}

/// The commands of a list, as plain values.
pub open spec fn command_views(commands: Seq<QuickCommand>) -> Seq<QuickCommandView> {
    commands.map_values(|c: QuickCommand| c@)
}

/// Whether `known` already holds an entry with the label and command of `c`.
pub open spec fn has_entry(known: Seq<QuickCommandView>, c: QuickCommandView) -> bool {
    exists|i: int|
        0 <= i < known.len() && (#[trigger] known[i]).label == c.label && known[i].command
            == c.command
}

/// `known` after considering one incoming command: it is appended when it is
/// sendable and no entry with its label and command exists yet.
pub open spec fn import_one(known: Seq<QuickCommandView>, c: QuickCommandView) -> Seq<
    QuickCommandView,
> {
    if is_sendable_view(c) && !has_entry(known, c) {
        known.push(c)
    } else {
        known
    }
}

/// `known` after importing `incoming` in order.
pub open spec fn import_all(known: Seq<QuickCommandView>, incoming: Seq<QuickCommandView>) -> Seq<
    QuickCommandView,
>
    decreases incoming.len(),
{
    if incoming.len() == 0 {
        known
    } else {
        import_all(import_one(known, incoming[0]), incoming.drop_first())
    }
}

proof fn lemma_has_entry_push(known: Seq<QuickCommandView>, extra: QuickCommandView, c: QuickCommandView)
    requires
        has_entry(known, c),
    ensures
        has_entry(known.push(extra), c),
{
    let i = choose|i: int|
        0 <= i < known.len() && (#[trigger] known[i]).label == c.label && known[i].command
            == c.command;
    assert(known.push(extra)[i] == known[i]);
}

/// Importing only appends: what was listed stays first and in order, and at
/// most one entry is added per incoming command.
pub proof fn lemma_import_appends(known: Seq<QuickCommandView>, incoming: Seq<QuickCommandView>)
    ensures
        known.len() <= import_all(known, incoming).len() <= known.len() + incoming.len(),
        import_all(known, incoming).take(known.len() as int) == known,
    decreases incoming.len(),
{
    if incoming.len() > 0 {
        let next = import_one(known, incoming[0]);
        lemma_import_appends(next, incoming.drop_first());
        assert(next.take(known.len() as int) == known);
        let result = import_all(known, incoming);
        assert(result.take(next.len() as int).take(known.len() as int) == result.take(
            known.len() as int,
        ));
    } else {
        assert(known.take(known.len() as int) == known);
    }
}

/// Every added entry is sendable and has a label and command that no entry
/// before it has: an import never introduces a duplicate.
pub proof fn lemma_import_adds_only_new_sendable(
    known: Seq<QuickCommandView>,
    incoming: Seq<QuickCommandView>,
)
    ensures
        forall|i: int|
            known.len() <= i < import_all(known, incoming).len() ==> {
                &&& is_sendable_view(#[trigger] import_all(known, incoming)[i])
                &&& !has_entry(import_all(known, incoming).take(i), import_all(known, incoming)[i])
            },
    decreases incoming.len(),
{
    if incoming.len() > 0 {
        let next = import_one(known, incoming[0]);
        lemma_import_adds_only_new_sendable(next, incoming.drop_first());
        lemma_import_appends(next, incoming.drop_first());
        let result = import_all(known, incoming);
        assert forall|i: int| known.len() <= i < result.len() implies {
            &&& is_sendable_view(#[trigger] import_all(known, incoming)[i])
            &&& !has_entry(import_all(known, incoming).take(i), import_all(known, incoming)[i])
        } by {
            if i < next.len() {
                assert(next.len() == known.len() + 1);
                assert(i == known.len());
                assert(result[i] == result.take(next.len() as int)[i]);
                assert(result.take(i) == known);
            }
        }
    }
}

/// After an import, every sendable incoming command has an entry with its
/// label and command.
pub proof fn lemma_import_covers_incoming(
    known: Seq<QuickCommandView>,
    incoming: Seq<QuickCommandView>,
)
    ensures
        forall|j: int|
            0 <= j < incoming.len() && is_sendable_view(#[trigger] incoming[j]) ==> has_entry(
                import_all(known, incoming),
                incoming[j],
            ),
    decreases incoming.len(),
{
    if incoming.len() > 0 {
        let next = import_one(known, incoming[0]);
        let rest = incoming.drop_first();
        lemma_import_covers_incoming(next, rest);
        if is_sendable_view(incoming[0]) {
            if !has_entry(known, incoming[0]) {
                assert(next[known.len() as int] == incoming[0]);
            }
            assert(has_entry(next, incoming[0]));
            lemma_import_keeps_entries(next, rest, incoming[0]);
        }
        assert forall|j: int|
            0 <= j < incoming.len() && is_sendable_view(#[trigger] incoming[j]) implies has_entry(
            import_all(known, incoming),
            incoming[j],
        ) by {
            if j > 0 {
                assert(incoming[j] == rest[j - 1]);
            }
        }
    }
}

/// An entry present before an import is still present after it.
pub proof fn lemma_import_keeps_entries(
    known: Seq<QuickCommandView>,
    incoming: Seq<QuickCommandView>,
    c: QuickCommandView,
)
    requires
        has_entry(known, c),
    ensures
        has_entry(import_all(known, incoming), c),
    decreases incoming.len(),
{
    if incoming.len() > 0 {
        let next = import_one(known, incoming[0]);
        if next != known {
            lemma_has_entry_push(known, incoming[0], c);
        }
        lemma_import_keeps_entries(next, incoming.drop_first(), c);
    }
}

proof fn lemma_import_nothing_new(known: Seq<QuickCommandView>, incoming: Seq<QuickCommandView>)
    requires
        forall|j: int|
            0 <= j < incoming.len() && is_sendable_view(#[trigger] incoming[j]) ==> has_entry(
                known,
                incoming[j],
            ),
    ensures
        import_all(known, incoming) == known,
    decreases incoming.len(),
{
    if incoming.len() > 0 {
        let rest = incoming.drop_first();
        assert(import_one(known, incoming[0]) == known);
        assert forall|j: int|
            0 <= j < rest.len() && is_sendable_view(#[trigger] rest[j]) implies has_entry(
            known,
            rest[j],
        ) by {
            assert(rest[j] == incoming[j + 1]);
        }
        lemma_import_nothing_new(known, rest);
    }
}

/// Importing the same commands a second time adds nothing.
pub proof fn lemma_import_idempotent(known: Seq<QuickCommandView>, incoming: Seq<QuickCommandView>)
    ensures
        import_all(import_all(known, incoming), incoming) == import_all(known, incoming),
{
    lemma_import_covers_incoming(known, incoming);
    lemma_import_nothing_new(import_all(known, incoming), incoming);
}

/// The commands seeded on first launch.
pub open spec fn default_command_views() -> Seq<QuickCommandView> {
    seq![
        QuickCommandView {
            label: "安卓版本"@,
            command: "getprop ro.build.version.release"@,
            run: true,
        },
        QuickCommandView { label: "电池信息"@, command: "dumpsys battery"@, run: true },
        QuickCommandView { label: "磁盘占用"@, command: "df -h /data"@, run: true },
    ]
}

/// Read-only Android commands seeded on first launch so the bar demonstrates itself.
pub fn default_commands() -> (commands: Vec<QuickCommand>)
    ensures
        command_views(commands@) == default_command_views(),
{
    let mut commands = Vec::new();
    commands.push(QuickCommand::new("安卓版本", "getprop ro.build.version.release", true));
    commands.push(QuickCommand::new("电池信息", "dumpsys battery", true));
    commands.push(QuickCommand::new("磁盘占用", "df -h /data", true));
    assert(command_views(commands@) == default_command_views());
    commands
}

impl Default for QuickCommandStore {
    fn default() -> (store: Self)
        ensures
            command_views(store.commands@) == default_command_views(),
            !store.manage_open,
            store.status is None,
    {
        QuickCommandStore { commands: default_commands(), manage_open: false, status: None }
    }
}

fn copy_command(command: &QuickCommand) -> (res: QuickCommand)
    ensures
        res@ == command@,
{
    QuickCommand { label: command.label.clone(), command: command.command.clone(), run: command.run }
}

impl QuickCommandStore {
    /// Whether a command with the label and command of `c` is already listed.
    fn contains_entry(&self, c: &QuickCommand) -> (res: bool)
        ensures
            res == has_entry(command_views(self.commands@), c@),
    {
        let ghost known = command_views(self.commands@);
        let mut i: usize = 0;
        while i < self.commands.len()
            invariant
                i <= self.commands.len(),
                known == command_views(self.commands@),
                forall|j: int|
                    0 <= j < i ==> !((#[trigger] known[j]).label == c@.label && known[j].command
                        == c@.command),
            decreases self.commands.len() - i,
        {
            if self.commands[i].label == c.label && self.commands[i].command == c.command {
                assert(known[i as int].label == c@.label && known[i as int].command == c@.command);
                return true;
            }
            i = i + 1;
        }
        false
    }

    /// Appends imported commands, skipping blank and duplicate entries;
    /// returns how many were actually added.
    pub fn import(&mut self, incoming: Vec<QuickCommand>) -> (added: usize)
        ensures
            command_views(final(self).commands@) == import_all(
                command_views(old(self).commands@),
                command_views(incoming@),
            ),
            added == final(self).commands@.len() - old(self).commands@.len(),
            *final(self) == (QuickCommandStore { commands: final(self).commands, ..*old(self) }),
    {
        let ghost all = command_views(incoming@);
        let ghost goal = import_all(command_views(self.commands@), all);
        let ghost start_len = self.commands@.len();
        let mut added: usize = 0;
        let mut i: usize = 0;
        assert(all.skip(0) == all);
        while i < incoming.len()
            invariant
                i <= incoming.len(),
                all == command_views(incoming@),
                goal == import_all(command_views(self.commands@), all.skip(i as int)),
                self.commands@.len() == start_len + added,
                self.manage_open == old(self).manage_open,
                self.status == old(self).status,
            decreases incoming.len() - i,
        {
            let ghost known = command_views(self.commands@);
            assert(all.skip(i as int)[0] == all[i as int]);
            assert(all.skip(i as int).drop_first() == all.skip(i + 1));
            let command = &incoming[i];
            if command.is_sendable() && !self.contains_entry(command) {
                self.commands.push(copy_command(command));
                assert(command_views(self.commands@) == known.push(all[i as int]));
                let _len = self.commands.len();
                added = added + 1;
            }
            i = i + 1;
        }
        assert(all.skip(incoming.len() as int).len() == 0);
        added
    }
}

/// The commands of an import file worth keeping: blank entries are dropped.
pub fn sendable_commands(commands: Vec<QuickCommand>) -> (kept: Vec<QuickCommand>)
    ensures
        command_views(kept@) == command_views(commands@).filter(|c: QuickCommandView| is_sendable_view(c)),
{
    let ghost all = command_views(commands@);
    let ghost keep = |c: QuickCommandView| is_sendable_view(c);
    let mut kept: Vec<QuickCommand> = Vec::new();
    let mut i: usize = 0;
    while i < commands.len()
        invariant
            i <= commands.len(),
            all == command_views(commands@),
            keep == (|c: QuickCommandView| is_sendable_view(c)),
            command_views(kept@) == all.take(i as int).filter(keep),
        decreases commands.len() - i,
    {
        let ghost before = command_views(kept@);
        if commands[i].is_sendable() {
            kept.push(copy_command(&commands[i]));
            assert(command_views(kept@) == before.push(all[i as int]));
        }
        proof {
            reveal(Seq::filter);
            assert(all.take(i + 1).drop_last() == all.take(i as int));
            assert(all.take(i + 1).last() == all[i as int]);
        }
        i = i + 1;
    }
    assert(all.take(commands.len() as int) == all);
    kept
}

impl QuickCommandStore {
    /// Adds a blank row at the end of the list.
    pub fn add_blank(&mut self)
        ensures
            command_views(final(self).commands@) == command_views(old(self).commands@).push(
                QuickCommandView { label: Seq::empty(), command: Seq::empty(), run: true },
            ),
            *final(self) == (QuickCommandStore { commands: final(self).commands, ..*old(self) }),
    {
        self.commands.push(QuickCommand::blank());
        assert(command_views(self.commands@) == command_views(old(self).commands@).push(
            QuickCommandView { label: Seq::empty(), command: Seq::empty(), run: true },
        ));
    }

    /// Swaps the row at `index` with the one above it; the first row stays put.
    pub fn move_up(&mut self, index: usize)
        requires
            index < old(self).commands@.len(),
        ensures
            index == 0 ==> final(self).commands@ == old(self).commands@,
            index > 0 ==> command_views(final(self).commands@) == command_views(
                old(self).commands@,
            ).update(index - 1, old(self).commands@[index as int]@).update(
                index as int,
                old(self).commands@[index - 1]@,
            ),
            *final(self) == (QuickCommandStore { commands: final(self).commands, ..*old(self) }),
    {
        if index > 0 {
            let row = self.commands.remove(index);
            self.commands.insert(index - 1, row);
            assert(command_views(self.commands@) == command_views(old(self).commands@).update(
                index - 1,
                old(self).commands@[index as int]@,
            ).update(index as int, old(self).commands@[index - 1]@));
        }
    }

    /// Swaps the row at `index` with the one below it; the last row stays put.
    pub fn move_down(&mut self, index: usize)
        requires
            index < old(self).commands@.len(),
        ensures
            index + 1 == old(self).commands@.len() ==> final(self).commands@ == old(self).commands@,
            index + 1 < old(self).commands@.len() ==> command_views(final(self).commands@)
                == command_views(old(self).commands@).update(
                index as int,
                old(self).commands@[index + 1]@,
            ).update(index + 1, old(self).commands@[index as int]@),
            *final(self) == (QuickCommandStore { commands: final(self).commands, ..*old(self) }),
    {
        if index < self.commands.len() - 1 {
            let row = self.commands.remove(index);
            self.commands.insert(index + 1, row);
            assert(command_views(self.commands@) == command_views(old(self).commands@).update(
                index as int,
                old(self).commands@[index + 1]@,
            ).update(index + 1, old(self).commands@[index as int]@));
        }
    }

    /// Deletes the row at `index`.
    pub fn delete(&mut self, index: usize)
        requires
            index < old(self).commands@.len(),
        ensures
            command_views(final(self).commands@) == command_views(old(self).commands@).remove(
                index as int,
            ),
            *final(self) == (QuickCommandStore { commands: final(self).commands, ..*old(self) }),
    {
        self.commands.remove(index);
        assert(command_views(self.commands@) == command_views(old(self).commands@).remove(
            index as int,
        ));
    }
}

/// The bytes typed into the shell for a quick command: its text, then a
/// newline when it runs on click.
pub open spec fn payload_bytes(command: QuickCommandView) -> Seq<u8> {
    encode_utf8(command.command) + if command.run {
        seq![10u8]
    } else {
        Seq::empty()
    }
}

/// Byte chunks to write to the shell for one quick command: the command text,
/// a trailing newline when `run` is set, split at the shell input limit.
pub fn payload_chunks(command: &QuickCommand, limit: usize) -> (chunks: Vec<Vec<u8>>)
    requires
        limit > 0,
    ensures
        flatten(chunks@.map_values(|c: Vec<u8>| c@)) == payload_bytes(command@),
        chunk_layout(chunks@.map_values(|c: Vec<u8>| c@), limit as nat, 0),
        chunks@.len() == 0 <==> payload_bytes(command@).len() == 0,
        forall|i: int| 0 <= i < chunks@.len() ==> (#[trigger] chunks@[i])@.len() > 0,
{
    let text = command.command.as_str().as_bytes();
    let mut bytes: Vec<u8> = Vec::new();
    let mut i: usize = 0;
    while i < text.len()
        invariant
            i <= text.len(),
            bytes@ == text@.take(i as int),
        decreases text.len() - i,
    {
        bytes.push(text[i]);
        i = i + 1;
        assert(text@.take(i as int) == text@.take((i - 1) as int).push(text@[i - 1]));
    }
    assert(text@.take(text.len() as int) == text@);
    if command.run {
        bytes.push(10u8);
    }
    assert(bytes@ == payload_bytes(command@));
    let mut chunks: Vec<Vec<u8>> = Vec::new();
    assert(flatten(chunks@.map_values(|c: Vec<u8>| c@)) == Seq::<u8>::empty());
    append_terminal_input(&mut chunks, bytes.as_slice(), limit);
    proof {
        let after = chunks@.map_values(|c: Vec<u8>| c@);
        assert(flatten(after) == Seq::<u8>::empty() + bytes@);
        assert(Seq::<u8>::empty() + bytes@ == bytes@);
        assert forall|i: int| 0 <= i < chunks@.len() implies (#[trigger] chunks@[i])@.len() > 0 by {
            assert(after[i] == chunks@[i]@);
            if i < chunks@.len() - 1 {
                assert(after[i].len() == limit);
            }
        }
    }
    chunks
}

} // verus!
