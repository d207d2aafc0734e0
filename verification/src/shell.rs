//! The interactive shell panel: input batching, key encoding and the
//! session state machine around one remote PTY.

use vstd::prelude::*;

use crate::device::{duplicate_target, same_target, target_view, BridgeError, DeviceTarget};

verus! {

/// The bytes of `chunks`, concatenated in order.
pub open spec fn flatten(chunks: Seq<Seq<u8>>) -> Seq<u8>
    decreases chunks.len(),
{
    if chunks.len() == 0 {
        Seq::empty()
    } else {
        flatten(chunks.drop_last()) + chunks.last()
    }
}

/// How `append_terminal_input` leaves the chunks from index `from` on:
/// none longer than `limit`, all but the last exactly `limit` long.
pub open spec fn chunk_layout(chunks: Seq<Seq<u8>>, limit: nat, from: int) -> bool {
    &&& forall|i: int| 0 <= i < chunks.len() ==> #[trigger] chunks[i].len() <= limit
    &&& forall|i: int| from <= i < chunks.len() - 1 ==> #[trigger] chunks[i].len() == limit
}

proof fn lemma_flatten_push(chunks: Seq<Seq<u8>>, chunk: Seq<u8>)
    ensures
        flatten(chunks.push(chunk)) == flatten(chunks) + chunk,
{
    assert(chunks.push(chunk).drop_last() == chunks);
}

/// Puts the next bytes of `bytes` from `pos` into the last batch, or into a
/// new one when the last is full; returns how many bytes went in.
fn fill_last_batch(output: &mut Vec<Vec<u8>>, bytes: &[u8], pos: usize, limit: usize) -> (count:
    usize)
    requires
        limit > 0,
        pos < bytes.len(),
        forall|i: int| 0 <= i < old(output)@.len() ==> #[trigger] old(output)@[i]@.len() <= limit,
    ensures
        ({
            let start = old(output)@.map_values(|c: Vec<u8>| c@);
            let now = final(output)@.map_values(|c: Vec<u8>| c@);
            let k = if start.len() == 0 {
                0
            } else {
                start.len() - 1
            };
            &&& 0 < count
            &&& pos + count <= bytes.len()
            &&& now.len() == start.len() || now.len() == start.len() + 1
            &&& now.len() > 0
            &&& now.take(k) == start.take(k)
            &&& forall|i: int| k <= i < now.len() - 1 ==> #[trigger] now[i].len() == limit
            &&& forall|i: int| 0 <= i < now.len() ==> #[trigger] now[i].len() <= limit
            &&& now.last().len() > 0
            &&& flatten(now) == flatten(start) + bytes@.subrange(pos as int, pos + count)
        }),
{
    let ghost start = output@.map_values(|c: Vec<u8>| c@);
    let mut chunk: Vec<u8> = Vec::new();
    let popped = output.pop();
    match popped {
        Some(last) => {
            assert(start == output@.map_values(|c: Vec<u8>| c@).push(last@));
            if last.len() < limit {
                chunk = last;
            } else {
                output.push(last);
                assert(output@.map_values(|c: Vec<u8>| c@) == start);
            }
        },
        None => {},
    }
    let ghost base = output@.map_values(|c: Vec<u8>| c@);
    proof {
        lemma_flatten_push(base, chunk@);
    }
    let room = limit - chunk.len();
    let count = if bytes.len() - pos < room {
        bytes.len() - pos
    } else {
        room
    };
    let ghost chunk_start = chunk@;
    let mut j: usize = 0;
    while j < count
        invariant
            j <= count,
            pos + count <= bytes.len(),
            chunk@ == chunk_start + bytes@.subrange(pos as int, pos + j),
        decreases count - j,
    {
        chunk.push(bytes[pos + j]);
        j = j + 1;
        assert(chunk@ == chunk_start + bytes@.subrange(pos as int, pos + j));
    }
    output.push(chunk);
    proof {
        let now = output@.map_values(|c: Vec<u8>| c@);
        assert(now == base.push(chunk@));
        lemma_flatten_push(base, chunk@);
        assert(forall|i: int| 0 <= i < base.len() ==> now[i] == base[i]);
        assert forall|i: int| 0 <= i < now.len() implies #[trigger] now[i].len() <= limit by {
            if i < base.len() {
                if base.len() < start.len() {
                    assert(base[i] == start[i]);
                }
            }
        }
    }
    count
}

/// Appends `bytes` to the input batches in `output`: the last batch is filled
/// up to `limit` bytes first, then new batches of at most `limit` bytes
/// follow, so every batch fits one shell write and byte order is kept.
pub fn append_terminal_input(output: &mut Vec<Vec<u8>>, bytes: &[u8], limit: usize)
    requires
        limit > 0,
        forall|i: int| 0 <= i < old(output)@.len() ==> #[trigger] old(output)@[i]@.len() <= limit,
    ensures
        ({
            let before = old(output)@.map_values(|c: Vec<u8>| c@);
            let after = final(output)@.map_values(|c: Vec<u8>| c@);
            let kept = if before.len() == 0 {
                0
            } else {
                before.len() - 1
            };
            &&& after.len() >= before.len()
            &&& after.take(kept) == before.take(kept)
            &&& flatten(after) == flatten(before) + bytes@
            &&& chunk_layout(after, limit as nat, kept)
            &&& bytes@.len() == 0 ==> after == before
            &&& bytes@.len() > 0 ==> after.last().len() > 0
        }),
{
    let ghost before = old(output)@.map_values(|c: Vec<u8>| c@);
    let ghost kept: int = if before.len() == 0 {
        0
    } else {
        before.len() - 1
    };
    let mut pos: usize = 0;
    while pos < bytes.len()
        invariant
            limit > 0,
            pos <= bytes.len(),
            before == old(output)@.map_values(|c: Vec<u8>| c@),
            kept == (if before.len() == 0 {
                0
            } else {
                before.len() - 1
            }),
            output@.len() >= before.len(),
            output@.map_values(|c: Vec<u8>| c@).take(kept) == before.take(kept),
            flatten(output@.map_values(|c: Vec<u8>| c@)) == flatten(before) + bytes@.take(
                pos as int,
            ),
            chunk_layout(output@.map_values(|c: Vec<u8>| c@), limit as nat, kept),
            pos == 0 ==> output@.map_values(|c: Vec<u8>| c@) == before,
            pos > 0 ==> output@.last()@.len() > 0,
        decreases bytes.len() - pos,
    {
        let ghost start = output@.map_values(|c: Vec<u8>| c@);
        proof {
            assert forall|i: int| 0 <= i < output@.len() implies #[trigger] output@[i]@.len()
                <= limit by {
                assert(start[i] == output@[i]@);
            }
        }
        let count = fill_last_batch(output, bytes, pos, limit);
        proof {
            let now = output@.map_values(|c: Vec<u8>| c@);
            let k = if start.len() == 0 {
                0
            } else {
                start.len() - 1
            };
            assert(kept <= k);
            assert(now.take(kept) == now.take(k).take(kept));
            assert(start.take(kept) == start.take(k).take(kept));
            assert forall|i: int| kept <= i < now.len() - 1 implies #[trigger] now[i].len()
                == limit by {
                if i < k {
                    assert(now.take(k)[i] == start.take(k)[i]);
                }
            }
            assert(bytes@.take(pos + count) == bytes@.take(pos as int) + bytes@.subrange(
                pos as int,
                pos + count,
            ));
            assert(now.last() == now[now.len() - 1]);
        }
        pos = pos + count;
    }
    assert(bytes@.take(bytes.len() as int) == bytes@);
}


/// Fixed terminal size of the shell adapter.
pub const TERMINAL_ROWS: u16 = 24;
pub const TERMINAL_COLUMNS: u16 = 80;

#[derive(Clone, Copy, Debug, Eq, PartialEq, Structural)]
pub enum ShellStatus {
    Disconnected,
    Connecting,
    Connected,
    Closing,
    Exited,
    Failed,
}

/// Backend requests of the shell panel.
pub enum ShellCommand {
    Open { target: DeviceTarget, session_id: u64, columns: u16, rows: u16 },
    Write { session_id: u64, bytes: Vec<u8> },
    Close(u64),
}

/// Backend reports the shell panel reacts to.
pub enum ShellEvent {
    Opened { target: DeviceTarget, session_id: u64 },
    Output { session_id: u64, bytes: Vec<u8> },
    Closed { session_id: u64, exit_code: Option<i32> },
    Failed { session_id: u64, error: BridgeError },
}

/// The interactive shell: one remote PTY session bound to one device. The
/// terminal emulator that renders the session's output lives beside it.
pub struct ShellPanelState {
    pub target: Option<DeviceTarget>,
    pub session_id: Option<u64>,
    pub status: ShellStatus,
    pub error: Option<BridgeError>,
    pub focus_terminal: bool,
}

impl Default for ShellPanelState {
    fn default() -> (state: Self)
        ensures
            state.target is None,
            state.session_id is None,
            state.status == ShellStatus::Disconnected,
            state.error is None,
            !state.focus_terminal,
    {
        ShellPanelState {
            target: None,
            session_id: None,
            status: ShellStatus::Disconnected,
            error: None,
            focus_terminal: false,
        }
    }
}

impl ShellPanelState {
    /// Applies one backend report; reports for other sessions are ignored.
    /// Returns whether the report carries output of the session, which then
    /// goes to the terminal emulator.
    pub fn handle_event(&mut self, event: &ShellEvent) -> (feed: bool)
        ensures
            feed == (event matches ShellEvent::Output { session_id, .. } && old(self).session_id
                == Some(*session_id)),
            match event {
                ShellEvent::Opened { target, session_id } => if target_view(old(self).target)
                    == Some(target@) && old(self).session_id == Some(*session_id) {
                    *final(self) == (ShellPanelState {
                        status: ShellStatus::Connected,
                        error: None,
                        focus_terminal: true,
                        ..*old(self)
                    })
                } else {
                    *final(self) == *old(self)
                },
                ShellEvent::Output { .. } => *final(self) == *old(self),
                ShellEvent::Closed { session_id, .. } => if old(self).session_id == Some(*session_id) {
                    *final(self) == (ShellPanelState {
                        status: ShellStatus::Exited,
                        session_id: None,
                        ..*old(self)
                    })
                } else {
                    *final(self) == *old(self)
                },
                ShellEvent::Failed { session_id, error } => if old(self).session_id == Some(*session_id) {
                    *final(self) == (ShellPanelState {
                        status: ShellStatus::Failed,
                        session_id: None,
                        error: Some(*error),
                        ..*old(self)
                    })
                } else {
                    *final(self) == *old(self)
                },
            },
    {
        match event {
            ShellEvent::Opened { target, session_id } => {
                if crate::device::is_target(&self.target, target) && self.session_id == Some(
                    *session_id,
                ) {
                    self.status = ShellStatus::Connected;
                    self.error = None;
                    self.focus_terminal = true;
                }
            },
            ShellEvent::Output { session_id, bytes: _ } => {
                return self.session_id == Some(*session_id);
            },
            ShellEvent::Closed { session_id, exit_code: _ } => {
                if self.session_id == Some(*session_id) {
                    self.status = ShellStatus::Exited;
                    self.session_id = None;
                }
            },
            ShellEvent::Failed { session_id, error } => {
                if self.session_id == Some(*session_id) {
                    self.status = ShellStatus::Failed;
                    self.error = Some(error.duplicate());
                    self.session_id = None;
                }
            },
        }
        false
    }

    /// Follows the selected device: a different target closes the open
    /// session and resets the status; the second result says whether the
    /// terminal screen must be cleared (exactly when the target changed).
    pub fn reconcile_target(&mut self, selected: Option<DeviceTarget>) -> (result: (
        Vec<ShellCommand>,
        bool,
    ))
        ensures
            result.1 == (target_view(old(self).target) != target_view(selected)),
            target_view(old(self).target) == target_view(selected) ==> result.0@.len() == 0
                && *final(self) == *old(self),
            target_view(old(self).target) != target_view(selected) ==> {
                &&& *final(self) == (ShellPanelState {
                    target: selected,
                    session_id: None,
                    status: ShellStatus::Disconnected,
                    error: None,
                    ..*old(self)
                })
                &&& match old(self).session_id {
                    Some(id) => result.0@.len() == 1 && result.0@[0] == ShellCommand::Close(id),
                    None => result.0@.len() == 0,
                }
            },
    {
        if same_target(&self.target, &selected) {
            return (Vec::new(), false);
        }
        let mut commands = Vec::new();
        if let Some(session_id) = self.session_id.take() {
            commands.push(ShellCommand::Close(session_id));
        }
        self.target = selected;
        self.status = ShellStatus::Disconnected;
        self.error = None;
        (commands, true)
    }

    /// The Connect button: opens a session with the fresh id `session_id` on
    /// the current target, if there is one.
    pub fn connect(&mut self, session_id: u64) -> (command: Option<ShellCommand>)
        ensures
            match old(self).target {
                Some(t) => {
                    &&& command matches Some(
                        ShellCommand::Open { target, session_id: id, columns, rows },
                    ) && target == t && id == session_id && columns == TERMINAL_COLUMNS && rows
                        == TERMINAL_ROWS
                    &&& *final(self) == (ShellPanelState {
                        session_id: Some(session_id),
                        status: ShellStatus::Connecting,
                        error: None,
                        ..*old(self)
                    })
                },
                None => command is None && *final(self) == *old(self),
            },
    {
        let target = match &self.target {
            Some(t) => t.duplicate(),
            None => {
                return None;
            },
        };
        self.session_id = Some(session_id);
        self.status = ShellStatus::Connecting;
        self.error = None;
        Some(
            ShellCommand::Open {
                target,
                session_id,
                columns: TERMINAL_COLUMNS,
                rows: TERMINAL_ROWS,
            },
        )
    }

    /// Keyboard input for the open session; input outside the shell's
    /// bounds (empty, or longer than `limit` bytes) is not sent.
    pub fn write(&self, bytes: Vec<u8>, limit: usize) -> (command: Option<ShellCommand>)
        ensures
            match self.session_id {
                Some(id) => if bytes@.len() > 0 && bytes@.len() <= limit {
                    command matches Some(ShellCommand::Write { session_id, bytes: sent })
                        && session_id == id && sent@ == bytes@
                } else {
                    command is None
                },
                None => command is None,
            },
    {
        let session_id = match self.session_id {
            Some(id) => id,
            None => {
                return None;
            },
        };
        if bytes.len() == 0 || bytes.len() > limit {
            return None;
        }
        Some(ShellCommand::Write { session_id, bytes })
    }

    /// The Close button: asks the backend to end the open session.
    pub fn close(&mut self) -> (command: Option<ShellCommand>)
        ensures
            match old(self).session_id {
                Some(id) => command == Some(ShellCommand::Close(id)) && *final(self) == (ShellPanelState {
                    status: ShellStatus::Closing,
                    ..*old(self)
                }),
                None => command is None && *final(self) == *old(self),
            },
    {
        let session_id = match self.session_id {
            Some(id) => id,
            None => {
                return None;
            },
        };
        self.status = ShellStatus::Closing;
        Some(ShellCommand::Close(session_id))
    }

    /// Whether keyboard input goes to a live session.
    pub fn connected(&self) -> (live: bool)
        ensures
            live == (self.status == ShellStatus::Connected && self.session_id is Some),
    {
        self.status == ShellStatus::Connected && self.session_id.is_some()
    }

}


/// The keys the terminal translates into input bytes.
#[derive(Clone, Copy, Debug, Eq, PartialEq)]
pub enum TerminalKey {
    Enter,
    Tab,
    Backspace,
    Escape,
    ArrowUp,
    ArrowDown,
    ArrowRight,
    ArrowLeft,
    Home,
    End,
    Insert,
    Delete,
    PageUp,
    PageDown,
    /// A letter key, named by its upper-case letter.
    Letter(char),
    Other,
}

/// The control byte Ctrl+`letter` types: 1 for A through 26 for Z.
pub open spec fn control_byte(letter: char) -> Option<u8> {
    if 'A' <= letter <= 'Z' {
        Some((letter as u32 - 'A' as u32 + 1) as u8)
    } else {
        None
    }
}

/// The bytes a key press sends: fixed sequences for the editing and cursor
/// keys (cursor keys in application mode use `ESC O`), the control byte for
/// Ctrl+letter without Shift, nothing otherwise.
pub open spec fn key_sequence(key: TerminalKey, ctrl: bool, shift: bool, application_cursor: bool) -> Option<Seq<u8>> {
    match key {
        TerminalKey::Enter => Some(seq![13u8]),
        TerminalKey::Tab => Some(seq![9u8]),
        TerminalKey::Backspace => Some(seq![127u8]),
        TerminalKey::Escape => Some(seq![27u8]),
        TerminalKey::ArrowUp => Some(seq![27u8, if application_cursor { 79u8 } else { 91u8 }, 65u8]),
        TerminalKey::ArrowDown => Some(seq![27u8, if application_cursor { 79u8 } else { 91u8 }, 66u8]),
        TerminalKey::ArrowRight => Some(seq![27u8, if application_cursor { 79u8 } else { 91u8 }, 67u8]),
        TerminalKey::ArrowLeft => Some(seq![27u8, if application_cursor { 79u8 } else { 91u8 }, 68u8]),
        TerminalKey::Home => Some(seq![27u8, 91u8, 72u8]),
        TerminalKey::End => Some(seq![27u8, 91u8, 70u8]),
        TerminalKey::Insert => Some(seq![27u8, 91u8, 50u8, 126u8]),
        TerminalKey::Delete => Some(seq![27u8, 91u8, 51u8, 126u8]),
        TerminalKey::PageUp => Some(seq![27u8, 91u8, 53u8, 126u8]),
        TerminalKey::PageDown => Some(seq![27u8, 91u8, 54u8, 126u8]),
        TerminalKey::Letter(c) => if ctrl && !shift && control_byte(c) is Some {
            Some(seq![control_byte(c)->0])
        } else {
            None
        },
        TerminalKey::Other => None,
    }
}

/// What each key sends, byte by byte: Enter CR, Tab HT, Backspace DEL,
/// Escape ESC; the cursor keys ESC `[` (ESC `O` in application-cursor mode)
/// then `A` up, `B` down, `C` right, `D` left; Home ESC `[H`, End ESC `[F`,
/// Insert, Delete, Page Up and Page Down ESC `[2~`, `[3~`, `[5~`, `[6~`;
/// Ctrl with an upper-case letter (no Shift) its control code 1 to 26;
/// nothing for anything else.
pub proof fn lemma_key_sequence_bytes(key: TerminalKey, ctrl: bool, shift: bool, application_cursor: bool)
    ensures
        key == TerminalKey::Enter ==> key_sequence(key, ctrl, shift, application_cursor) == Some(seq![0x0du8]),
        key == TerminalKey::Tab ==> key_sequence(key, ctrl, shift, application_cursor) == Some(seq![0x09u8]),
        key == TerminalKey::Backspace ==> key_sequence(key, ctrl, shift, application_cursor) == Some(seq![0x7fu8]),
        key == TerminalKey::Escape ==> key_sequence(key, ctrl, shift, application_cursor) == Some(seq![0x1bu8]),
        key == TerminalKey::ArrowUp ==> key_sequence(key, ctrl, shift, application_cursor) == Some(seq![0x1bu8, (if application_cursor { 0x4fu8 } else { 0x5bu8 }), 0x41u8]),
        key == TerminalKey::ArrowDown ==> key_sequence(key, ctrl, shift, application_cursor) == Some(seq![0x1bu8, (if application_cursor { 0x4fu8 } else { 0x5bu8 }), 0x42u8]),
        key == TerminalKey::ArrowRight ==> key_sequence(key, ctrl, shift, application_cursor) == Some(seq![0x1bu8, (if application_cursor { 0x4fu8 } else { 0x5bu8 }), 0x43u8]),
        key == TerminalKey::ArrowLeft ==> key_sequence(key, ctrl, shift, application_cursor) == Some(seq![0x1bu8, (if application_cursor { 0x4fu8 } else { 0x5bu8 }), 0x44u8]),
        key == TerminalKey::Home ==> key_sequence(key, ctrl, shift, application_cursor) == Some(seq![0x1bu8, 0x5bu8, 0x48u8]),
        key == TerminalKey::End ==> key_sequence(key, ctrl, shift, application_cursor) == Some(seq![0x1bu8, 0x5bu8, 0x46u8]),
        key == TerminalKey::Insert ==> key_sequence(key, ctrl, shift, application_cursor) == Some(seq![0x1bu8, 0x5bu8, 0x32u8, 0x7eu8]),
        key == TerminalKey::Delete ==> key_sequence(key, ctrl, shift, application_cursor) == Some(seq![0x1bu8, 0x5bu8, 0x33u8, 0x7eu8]),
        key == TerminalKey::PageUp ==> key_sequence(key, ctrl, shift, application_cursor) == Some(seq![0x1bu8, 0x5bu8, 0x35u8, 0x7eu8]),
        key == TerminalKey::PageDown ==> key_sequence(key, ctrl, shift, application_cursor) == Some(seq![0x1bu8, 0x5bu8, 0x36u8, 0x7eu8]),
        forall|c: char|
            key == TerminalKey::Letter(c) ==> key_sequence(key, ctrl, shift, application_cursor) == if ctrl && !shift && 'A' <= c <= 'Z' {
                Some(seq![(c as int - 0x40) as u8])
            } else {
                None
            },
        key == TerminalKey::Other ==> key_sequence(key, ctrl, shift, application_cursor) is None,
{
}

/// The control byte of a letter key, if it is one of A to Z.
pub fn control_letter(letter: char) -> (byte: Option<u8>)
    ensures
        byte == control_byte(letter),
        'A' <= letter <= 'Z' ==> byte == Some((letter as int - 0x40) as u8),
        !('A' <= letter <= 'Z') ==> byte is None,
{
    if 'A' <= letter && letter <= 'Z' {
        Some((letter as u32 - 'A' as u32 + 1) as u8)
    } else {
        None
    }
}

/// The input bytes for a key press.
pub fn key_bytes(key: TerminalKey, ctrl: bool, shift: bool, application_cursor: bool) -> (bytes: Option<Vec<u8>>)
    ensures
        match bytes {
            Some(b) => key_sequence(key, ctrl, shift, application_cursor) == Some(b@),
            None => key_sequence(key, ctrl, shift, application_cursor) is None,
        },
        key == TerminalKey::Enter ==> (bytes matches Some(b) && b@ == seq![0x0du8]),
        key == TerminalKey::Tab ==> (bytes matches Some(b) && b@ == seq![0x09u8]),
        key == TerminalKey::Backspace ==> (bytes matches Some(b) && b@ == seq![0x7fu8]),
        key == TerminalKey::Escape ==> (bytes matches Some(b) && b@ == seq![0x1bu8]),
        key == TerminalKey::ArrowUp ==> (bytes matches Some(b) && b@ == seq![0x1bu8, (if application_cursor { 0x4fu8 } else { 0x5bu8 }), 0x41u8]),
        key == TerminalKey::ArrowDown ==> (bytes matches Some(b) && b@ == seq![0x1bu8, (if application_cursor { 0x4fu8 } else { 0x5bu8 }), 0x42u8]),
        key == TerminalKey::ArrowRight ==> (bytes matches Some(b) && b@ == seq![0x1bu8, (if application_cursor { 0x4fu8 } else { 0x5bu8 }), 0x43u8]),
        key == TerminalKey::ArrowLeft ==> (bytes matches Some(b) && b@ == seq![0x1bu8, (if application_cursor { 0x4fu8 } else { 0x5bu8 }), 0x44u8]),
        key == TerminalKey::Home ==> (bytes matches Some(b) && b@ == seq![0x1bu8, 0x5bu8, 0x48u8]),
        key == TerminalKey::End ==> (bytes matches Some(b) && b@ == seq![0x1bu8, 0x5bu8, 0x46u8]),
        key == TerminalKey::Insert ==> (bytes matches Some(b) && b@ == seq![0x1bu8, 0x5bu8, 0x32u8, 0x7eu8]),
        key == TerminalKey::Delete ==> (bytes matches Some(b) && b@ == seq![0x1bu8, 0x5bu8, 0x33u8, 0x7eu8]),
        key == TerminalKey::PageUp ==> (bytes matches Some(b) && b@ == seq![0x1bu8, 0x5bu8, 0x35u8, 0x7eu8]),
        key == TerminalKey::PageDown ==> (bytes matches Some(b) && b@ == seq![0x1bu8, 0x5bu8, 0x36u8, 0x7eu8]),
        forall|c: char|
            key == TerminalKey::Letter(c) ==> if ctrl && !shift && 'A' <= c <= 'Z' {
                bytes matches Some(b) && b@ == seq![(c as int - 0x40) as u8]
            } else {
                bytes is None
            },
        key == TerminalKey::Other ==> bytes is None,
{
    proof {
        lemma_key_sequence_bytes(key, ctrl, shift, application_cursor);
    }
    let cursor: u8 = if application_cursor { 79 } else { 91 };
    let bytes = match key {
        TerminalKey::Enter => vec![13u8],
        TerminalKey::Tab => vec![9u8],
        TerminalKey::Backspace => vec![127u8],
        TerminalKey::Escape => vec![27u8],
        TerminalKey::ArrowUp => vec![27u8, cursor, 65u8],
        TerminalKey::ArrowDown => vec![27u8, cursor, 66u8],
        TerminalKey::ArrowRight => vec![27u8, cursor, 67u8],
        TerminalKey::ArrowLeft => vec![27u8, cursor, 68u8],
        TerminalKey::Home => vec![27u8, 91u8, 72u8],
        TerminalKey::End => vec![27u8, 91u8, 70u8],
        TerminalKey::Insert => vec![27u8, 91u8, 50u8, 126u8],
        TerminalKey::Delete => vec![27u8, 91u8, 51u8, 126u8],
        TerminalKey::PageUp => vec![27u8, 91u8, 53u8, 126u8],
        TerminalKey::PageDown => vec![27u8, 91u8, 54u8, 126u8],
        TerminalKey::Letter(c) => {
            if ctrl && !shift {
                match control_letter(c) {
                    Some(b) => vec![b],
                    None => {
                        return None;
                    },
                }
            } else {
                return None;
            }
        },
        TerminalKey::Other => {
            return None;
        },
    };
    assert(key_sequence(key, ctrl, shift, application_cursor) == Some(bytes@));
    Some(bytes)
}

} // verus!
