//! The logcat console: `threadtime` line parsing, stream ingestion and the
//! start/stop session state machine.

use vstd::prelude::*;

use crate::device::{duplicate_target, is_target, same_target, target_view, DeviceTarget};
use crate::i18n::{text, translation, Language};
use crate::text::{
    chars_of, contains, contains_text, decimal, decimal_chars, decode_lossy, is_white_space,
    is_whitespace, lossy_utf8, lowercase, push_char, push_chars, replace_all, replaced, string_of,
    to_lowercase, trim, trim_end_cr, trim_start, trimmed, without_trailing_cr,
};

verus! {

/// `logcat -v threadtime` severity letters, in ascending order.
pub open spec fn level_rank(c: char) -> int {
    if c == 'V' {
        0
    } else if c == 'D' {
        1
    } else if c == 'I' {
        2
    } else if c == 'W' {
        3
    } else if c == 'E' {
        4
    } else if c == 'F' {
        5
    } else {
        -1
    }
}

/// Length of the leading run of non-white-space characters of `t`.
pub open spec fn word_len(t: Seq<char>) -> nat
    decreases t.len(),
{
    if t.len() == 0 || is_white_space(t[0]) {
        0
    } else {
        1 + word_len(t.drop_first())
    }
}

/// The first `count` white-space separated fields of `s` and the rest after
/// them with its leading white space removed, or none when `s` has fewer.
pub open spec fn split_fields(s: Seq<char>, count: nat) -> Option<(Seq<Seq<char>>, Seq<char>)>
    decreases count,
{
    if count == 0 {
        Some((Seq::empty(), trim_start(s)))
    } else {
        let t = trim_start(s);
        let n = word_len(t);
        if n == 0 {
            None
        } else {
            match split_fields(t.skip(n as int), (count - 1) as nat) {
                Some(r) => Some((seq![t.take(n as int)] + r.0, r.1)),
                None => None,
            }
        }
    }
}

/// Whether `": "` starts at index `i` of `s`.
pub open spec fn colon_space_at(s: Seq<char>, i: int) -> bool {
    0 <= i && i + 1 < s.len() && s[i] == ':' && s[i + 1] == ' '
}

/// Whether `i` is the first index where `": "` starts.
pub open spec fn first_colon_space(s: Seq<char>, i: int) -> bool {
    colon_space_at(s, i) && forall|j: int| 0 <= j < i ==> !colon_space_at(s, j)
}

/// Tag and message of the text after the severity letter: split at the first
/// `": "`, or all tag when there is none.
pub open spec fn split_tag(rest: Seq<char>) -> (Seq<char>, Seq<char>) {
    if exists|i: int| first_colon_space(rest, i) {
        let i = choose|i: int| first_colon_space(rest, i);
        (rest.take(i), rest.skip(i + 2))
    } else {
        (rest, Seq::empty())
    }
}

/// One parsed logcat row, as plain values.
pub struct LogLineView {
    pub time: Seq<char>,
    pub pid: Seq<char>,
    pub tid: Seq<char>,
    pub level: char,
    pub tag: Seq<char>,
    pub message: Seq<char>,
}

/// An unrecognized line, kept whole as the message of a level-`'?'` row.
pub open spec fn raw_row(raw: Seq<char>) -> LogLineView {
    LogLineView {
        time: Seq::empty(),
        pid: Seq::empty(),
        tid: Seq::empty(),
        level: '?',
        tag: Seq::empty(),
        message: raw,
    }
}

/// A `MM-DD HH:MM:SS.mmm PID TID L TAG: msg` line: five fields, a severity
/// letter as the fifth, then the tag and message; anything else is a raw row.
pub open spec fn parse_line(raw: Seq<char>) -> LogLineView {
    match split_fields(raw, 5) {
        Some(parts) => {
            let fields = parts.0;
            if fields[4].len() == 1 && level_rank(fields[4][0]) >= 0 {
                LogLineView {
                    time: fields[0] + seq![' '] + fields[1],
                    pid: fields[2],
                    tid: fields[3],
                    level: fields[4][0],
                    tag: split_tag(parts.1).0,
                    message: split_tag(parts.1).1,
                }
            } else {
                raw_row(raw)
            }
        },
        None => raw_row(raw),
    }
}

/// A row as written to a saved log file.
pub open spec fn format_line(line: LogLineView) -> Seq<char> {
    if line.level == '?' {
        line.message
    } else {
        line.time + seq![' ', line.level, '/'] + line.tag + seq![' '] + line.pid + seq![':', ' ']
            + line.message
    }
}

/// One logcat row.
#[derive(Clone, Debug, Default, PartialEq)]
pub struct LogLine {
    pub time: String,
    pub pid: String,
    pub tid: String,
    pub level: char,
    pub tag: String,
    pub message: String,
}

impl View for LogLine {
    type V = LogLineView;

    open spec fn view(&self) -> LogLineView {
        LogLineView {
            time: self.time@,
            pid: self.pid@,
            tid: self.tid@,
            level: self.level,
            tag: self.tag@,
            message: self.message@,
        }
    }
}

/// A successful split yields exactly `count` fields.
pub proof fn lemma_split_fields_count(s: Seq<char>, count: nat)
    ensures
        split_fields(s, count) matches Some(r) ==> r.0.len() == count,
    decreases count,
{
    if count > 0 {
        let t = trim_start(s);
        let n = word_len(t);
        lemma_split_fields_count(t.skip(n as int), (count - 1) as nat);
    }
}

proof fn lemma_skip_step<A>(s: Seq<A>, i: int)
    requires
        0 <= i < s.len(),
    ensures
        s.skip(i).drop_first() == s.skip(i + 1),
        s.skip(i)[0] == s[i],
        s.skip(i).len() > 0,
{
    assert(s.skip(i).drop_first() == s.skip(i + 1));
}

/// First index at or after `pos` holding no white space (or the length).
fn skip_white_space(chars: &[char], pos: usize) -> (next: usize)
    requires
        pos <= chars@.len(),
    ensures
        pos <= next <= chars@.len(),
        chars@.skip(next as int) == trim_start(chars@.skip(pos as int)),
{
    let mut i = pos;
    while i < chars.len() && is_whitespace(chars[i])
        invariant
            pos <= i <= chars@.len(),
            trim_start(chars@.skip(i as int)) == trim_start(chars@.skip(pos as int)),
        decreases chars.len() - i,
    {
        proof {
            lemma_skip_step(chars@, i as int);
        }
        i = i + 1;
    }
    proof {
        if i == chars.len() {
            assert(chars@.skip(i as int).len() == 0);
        }
    }
    i
}

/// End of the run of non-white-space characters starting at `pos`.
fn word_end(chars: &[char], pos: usize) -> (end: usize)
    requires
        pos <= chars@.len(),
    ensures
        pos <= end <= chars@.len(),
        end - pos == word_len(chars@.skip(pos as int)),
{
    let mut i = pos;
    while i < chars.len() && !is_whitespace(chars[i])
        invariant
            pos <= i <= chars@.len(),
            word_len(chars@.skip(pos as int)) == (i - pos) + word_len(chars@.skip(i as int)),
        decreases chars.len() - i,
    {
        proof {
            lemma_skip_step(chars@, i as int);
        }
        i = i + 1;
    }
    proof {
        if i == chars.len() {
            assert(chars@.skip(i as int).len() == 0);
        } else {
            lemma_skip_step(chars@, i as int);
        }
    }
    i
}

/// The characters of `chars` from `start` to `end`, as a string.
fn slice_string(chars: &[char], start: usize, end: usize) -> (res: String)
    requires
        start <= end <= chars@.len(),
    ensures
        res@ == chars@.subrange(start as int, end as int),
{
    let mut res = String::new();
    let mut i = start;
    while i < end
        invariant
            start <= i <= end <= chars@.len(),
            res@ == chars@.subrange(start as int, i as int),
        decreases end - i,
    {
        push_char(&mut res, chars[i]);
        i = i + 1;
        assert(chars@.subrange(start as int, i as int) == chars@.subrange(
            start as int,
            i - 1,
        ).push(chars@[i - 1]));
    }
    res
}

/// Field views of a list of strings.
pub open spec fn string_views(fields: Seq<String>) -> Seq<Seq<char>> {
    fields.map_values(|f: String| f@)
}

/// Splits the first `count` white-space separated fields off `chars`,
/// collapsing runs of white space; returns the fields and the remainder
/// after them with its leading white space removed.
fn split_prefix_chars(chars: &[char], count: usize) -> (res: Option<(Vec<String>, usize)>)
    ensures
        match res {
            Some(r) => r.1 <= chars@.len() && split_fields(chars@, count as nat) == Some(
                (string_views(r.0@), chars@.skip(r.1 as int)),
            ),
            None => split_fields(chars@, count as nat) is None,
        },
{
    let mut fields: Vec<String> = Vec::new();
    let mut pos: usize = 0;
    let mut k: usize = 0;
    assert(chars@.skip(0) == chars@);
    while k < count
        invariant
            k <= count,
            pos <= chars@.len(),
            split_fields(chars@, count as nat) == match split_fields(
                chars@.skip(pos as int),
                (count - k) as nat,
            ) {
                Some(r) => Some((string_views(fields@) + r.0, r.1)),
                None => None::<(Seq<Seq<char>>, Seq<char>)>,
            },
        decreases count - k,
    {
        let start = skip_white_space(chars, pos);
        let end = word_end(chars, start);
        let ghost rest = chars@.skip(pos as int);
        let ghost t = trim_start(rest);
        assert(t == chars@.skip(start as int));
        if end == start {
            return None;
        }
        let field = slice_string(chars, start, end);
        let ghost before = string_views(fields@);
        proof {
            assert(t.take((end - start) as int) == chars@.subrange(start as int, end as int));
            assert(t.skip((end - start) as int) == chars@.skip(end as int));
            let after = before.push(field@);
            assert forall|fs: Seq<Seq<char>>|
                #![auto]
                before + (seq![field@] + fs) == after + fs by {
                assert(before + (seq![field@] + fs) =~= after + fs);
            }
        }
        fields.push(field);
        assert(string_views(fields@) == before.push(field@));
        pos = end;
        k = k + 1;
    }
    let rest_start = skip_white_space(chars, pos);
    assert(string_views(fields@) + Seq::<Seq<char>>::empty() == string_views(fields@));
    Some((fields, rest_start))
}


/// Splits the first `count` white-space separated fields off `raw`,
/// collapsing runs of white space; returns the fields and the remainder.
pub fn split_prefix_fields(raw: &str, count: usize) -> (res: Option<(Vec<String>, String)>)
    ensures
        match res {
            Some(r) => split_fields(raw@, count as nat) == Some((string_views(r.0@), r.1@)),
            None => split_fields(raw@, count as nat) is None,
        },
{
    let chars = chars_of(raw);
    match split_prefix_chars(chars.as_slice(), count) {
        Some((fields, start)) => {
            let rest = slice_string(chars.as_slice(), start, chars.len());
            assert(chars@.subrange(start as int, chars@.len() as int) == chars@.skip(start as int));
            Some((fields, rest))
        },
        None => None,
    }
}

/// Index of the first `": "` at or after `from` in `chars`, if any.
fn find_colon_space(chars: &[char], from: usize) -> (found: Option<usize>)
    requires
        from <= chars@.len(),
    ensures
        match found {
            Some(i) => from <= i && first_colon_space(chars@.skip(from as int), i - from),
            None => forall|i: int| !colon_space_at(chars@.skip(from as int), i),
        },
{
    let ghost rest = chars@.skip(from as int);
    let mut i = from;
    while chars.len() - i >= 2
        invariant
            from <= i <= chars@.len(),
            rest == chars@.skip(from as int),
            forall|j: int| 0 <= j < i - from ==> !colon_space_at(rest, j),
        decreases chars.len() - i,
    {
        if chars[i] == ':' && chars[i + 1] == ' ' {
            assert(colon_space_at(rest, i - from));
            return Some(i);
        }
        assert(!colon_space_at(rest, i - from));
        i = i + 1;
    }
    assert forall|j: int| !colon_space_at(rest, j) by {
        if 0 <= j && j + 1 < rest.len() {
            assert(j < i - from);
        }
    }
    None
}

proof fn lemma_split_tag_found(rest: Seq<char>, i: int)
    requires
        first_colon_space(rest, i),
    ensures
        split_tag(rest) == (rest.take(i), rest.skip(i + 2)),
{
    let k = choose|k: int| first_colon_space(rest, k);
    assert(first_colon_space(rest, k));
    if k < i {
        assert(!colon_space_at(rest, k));
    }
    if i < k {
        assert(!colon_space_at(rest, i));
    }
}

/// The severity letter of a parsed row's level, from 0 (`V`) to 5 (`F`).
/// The severities in rising order: Verbose, Debug, Info, Warning, Error,
/// Fatal rank 0 to 5, each letter its own rank, and no other character has
/// a severity.
pub proof fn lemma_level_ranks(c: char)
    ensures
        level_rank('V') == 0 && level_rank('D') == 1 && level_rank('I') == 2,
        level_rank('W') == 3 && level_rank('E') == 4 && level_rank('F') == 5,
        c != 'V' && c != 'D' && c != 'I' && c != 'W' && c != 'E' && c != 'F' ==> level_rank(c) < 0,
{
}

fn level_index(c: char) -> (rank: Option<usize>)
    ensures
        c == 'V' ==> rank == Some(0usize),
        c == 'D' ==> rank == Some(1usize),
        c == 'I' ==> rank == Some(2usize),
        c == 'W' ==> rank == Some(3usize),
        c == 'E' ==> rank == Some(4usize),
        c == 'F' ==> rank == Some(5usize),
        c != 'V' && c != 'D' && c != 'I' && c != 'W' && c != 'E' && c != 'F' ==> rank is None,
        match rank {
            Some(r) => r == level_rank(c) && level_rank(c) >= 0,
            None => level_rank(c) < 0,
        },
{
    if c == 'V' {
        Some(0)
    } else if c == 'D' {
        Some(1)
    } else if c == 'I' {
        Some(2)
    } else if c == 'W' {
        Some(3)
    } else if c == 'E' {
        Some(4)
    } else if c == 'F' {
        Some(5)
    } else {
        None
    }
}

impl LogLine {
    /// An unrecognized line kept as a gray level-`'?'` row.
    fn raw(raw: &str) -> (line: LogLine)
        ensures
            line@ == raw_row(raw@),
    {
        LogLine {
            time: String::new(),
            pid: String::new(),
            tid: String::new(),
            level: '?',
            tag: String::new(),
            message: string_of(chars_of(raw).as_slice()),
        }
    }

    /// Parses one `threadtime` line: `MM-DD HH:MM:SS.mmm PID TID L TAG: msg`.
    /// Runs of white space between the fields are collapsed and everything
    /// past the severity letter is kept verbatim. Unrecognized lines survive
    /// as level-`'?'` rows so device noise is never silently dropped.
    pub fn parse(raw: &str) -> (line: LogLine)
        ensures
            line@ == parse_line(raw@),
    {
        let chars = chars_of(raw);
        match split_prefix_chars(chars.as_slice(), 5) {
            Some((fields, start)) => {
                let ghost rest = chars@.skip(start as int);
                proof {
                    lemma_split_fields_count(chars@, 5);
                    assert(string_views(fields@).len() == 5);
                }
                let level_field = chars_of(fields[4].as_str());
                if level_field.len() != 1 {
                    return LogLine::raw(raw);
                }
                let level = level_field[0];
                if level_index(level).is_none() {
                    return LogLine::raw(raw);
                }
                let ghost views = string_views(fields@);
                assert(views[4] == fields@[4]@);
                assert(level == views[4][0]);
                assert(rest.len() == chars@.len() - start);
                let (tag, message) = match find_colon_space(chars.as_slice(), start) {
                    Some(i) => {
                        proof {
                            lemma_split_tag_found(rest, i - start);
                            assert(colon_space_at(rest, i - start));
                            assert(i + 2 <= chars@.len());
                            assert(rest.take(i - start) == chars@.subrange(start as int, i as int));
                            assert(rest.skip(i - start + 2) == chars@.subrange(
                                i + 2,
                                chars@.len() as int,
                            ));
                        }
                        assert(i + 2 <= chars@.len());
                        assert(chars@.len() == chars.len());
                        let message_start: usize = i + 2;
                        (
                            slice_string(chars.as_slice(), start, i),
                            slice_string(chars.as_slice(), message_start, chars.len()),
                        )
                    },
                    None => {
                        assert(chars@.subrange(start as int, chars@.len() as int) == rest);
                        (slice_string(chars.as_slice(), start, chars.len()), String::new())
                    },
                };
                let mut time = fields[0].clone();
                push_char(&mut time, ' ');
                let first = chars_of(fields[1].as_str());
                push_chars(&mut time, first.as_slice());
                assert(views[0] == fields@[0]@);
                assert(views[1] == fields@[1]@);
                assert(views[2] == fields@[2]@);
                assert(views[3] == fields@[3]@);
                assert(time@ == views[0] + seq![' '] + views[1]);
                assert(tag@ == split_tag(rest).0);
                assert(message@ == split_tag(rest).1);
                LogLine {
                    time,
                    pid: fields[2].clone(),
                    tid: fields[3].clone(),
                    level,
                    tag,
                    message,
                }
            },
            None => LogLine::raw(raw),
        }
    }

    /// The row as saved to a text file: unrecognized rows verbatim, parsed
    /// rows as `time level/tag pid: message`.
    pub fn format(&self) -> (text: String)
        ensures
            text@ == format_line(self@),
    {
        if self.level == '?' {
            return self.message.clone();
        }
        let mut text = self.time.clone();
        push_char(&mut text, ' ');
        push_char(&mut text, self.level);
        push_char(&mut text, '/');
        push_chars(&mut text, chars_of(self.tag.as_str()).as_slice());
        push_char(&mut text, ' ');
        push_chars(&mut text, chars_of(self.pid.as_str()).as_slice());
        push_char(&mut text, ':');
        push_char(&mut text, ' ');
        push_chars(&mut text, chars_of(self.message.as_str()).as_slice());
        text
    }

    /// Position of the row's severity letter in `V D I W E F`, if it has one.
    pub fn severity_index(&self) -> (rank: Option<usize>)
        ensures
            match rank {
                Some(r) => r == level_rank(self.level),
                None => level_rank(self.level) < 0,
            },
    {
        level_index(self.level)
    }
}


/// Rows kept in memory; older rows are dropped first.
pub const MAX_LINES: usize = 10_000;

/// Milliseconds between automatic start attempts.
pub const AUTO_START_RETRY_MS: u64 = 3_000;

/// The complete lines and the unfinished remainder of a byte stream that
/// continues the unfinished line `partial` with `bytes`.
pub open spec fn split_stream(partial: Seq<u8>, bytes: Seq<u8>) -> (Seq<Seq<u8>>, Seq<u8>)
    decreases bytes.len(),
{
    if bytes.len() == 0 {
        (Seq::empty(), partial)
    } else {
        let (lines, rest) = split_stream(partial, bytes.drop_last());
        if bytes.last() == 10 {
            (lines.push(rest), Seq::empty())
        } else {
            (lines, rest.push(bytes.last()))
        }
    }
}

/// The row shown for one complete line of streamed bytes.
pub open spec fn row_of(line: Seq<u8>) -> LogLineView {
    parse_line(trim_end_cr(lossy_utf8(line)))
}

/// The last `n` rows of `rows`.
pub open spec fn keep_last<A>(rows: Seq<A>, n: nat) -> Seq<A> {
    if rows.len() <= n {
        rows
    } else {
        rows.skip(rows.len() - n)
    }
}

/// Row views of a list of rows.
pub open spec fn line_views(lines: Seq<LogLine>) -> Seq<LogLineView> {
    lines.map_values(|l: LogLine| l@)
}

/// Rows and pending bytes after streaming `bytes`: complete lines become
/// rows unless paused (a paused stream drops them), at most `MAX_LINES`
/// rows stay, and the unfinished last line waits for more bytes.
pub open spec fn ingest_result(
    rows: Seq<LogLineView>,
    pending: Seq<u8>,
    paused: bool,
    bytes: Seq<u8>,
) -> (Seq<LogLineView>, Seq<u8>) {
    let (lines, rest) = split_stream(pending, bytes);
    let added = if paused {
        Seq::empty()
    } else {
        lines.map_values(|l: Seq<u8>| row_of(l))
    };
    (keep_last(rows + added, MAX_LINES as nat), rest)
}

/// Backend requests of the logcat panel.
pub enum LogcatCommand {
    Start { target: DeviceTarget, session_id: u64 },
    Stop(u64),
}

/// Backend reports the logcat panel reacts to.
pub enum LogcatEvent {
    Started { target: DeviceTarget, session_id: u64 },
    Output { session_id: u64, bytes: Vec<u8> },
    Closed { session_id: u64 },
    Failed { session_id: u64 },
}

/// The logcat console. The plain bools are the small session state machine
/// (starting, running, user-stopped, paused) plus the auto-scroll preference.
pub struct LogcatPanelState {
    pub target: Option<DeviceTarget>,
    pub session: Option<u64>,
    /// A start request is in flight for this session id.
    pub starting: bool,
    /// The stream is live (started and not yet closed or failed).
    pub running: bool,
    /// The user pressed stop; auto-start stays off until the target changes.
    pub user_stopped: bool,
    pub paused: bool,
    pub auto_scroll: bool,
    /// Minimum severity shown: 0 shows all, `k` shows ranks from `k - 1` up.
    pub level_filter: usize,
    pub query: String,
    pub lines: Vec<LogLine>,
    pub pending_bytes: Vec<u8>,
    /// When the last start was attempted, in milliseconds of the app clock.
    pub last_start_attempt: Option<u64>,
}

impl Default for LogcatPanelState {
    fn default() -> (state: Self)
        ensures
            state.target is None,
            state.session is None,
            !state.starting && !state.running && !state.user_stopped && !state.paused,
            !state.auto_scroll,
            state.level_filter == 0,
            state.query@.len() == 0,
            state.lines@.len() == 0,
            state.pending_bytes@.len() == 0,
            state.last_start_attempt is None,
    {
        LogcatPanelState {
            target: None,
            session: None,
            starting: false,
            running: false,
            user_stopped: false,
            paused: false,
            auto_scroll: false,
            level_filter: 0,
            query: String::new(),
            lines: Vec::new(),
            pending_bytes: Vec::new(),
            last_start_attempt: None,
        }
    }
}

proof fn lemma_split_stream_push(partial: Seq<u8>, bytes: Seq<u8>, b: u8)
    ensures
        split_stream(partial, bytes.push(b)) == ({
            let (lines, rest) = split_stream(partial, bytes);
            if b == 10 {
                (lines.push(rest), Seq::<u8>::empty())
            } else {
                (lines, rest.push(b))
            }
        }),
{
    assert(bytes.push(b).drop_last() == bytes);
}

/// The stop request for a live session, if any.
pub open spec fn stop_commands(session: Option<u64>) -> Seq<LogcatCommand> {
    match session {
        Some(id) => seq![LogcatCommand::Stop(id)],
        None => Seq::empty(),
    }
}

/// The console `after` following the device `target` from `before`, with
/// the requests it sends: the same device changes nothing; another one stops
/// the stream, clears the buffer and lifts a user stop.
pub open spec fn follows_target(
    before: LogcatPanelState,
    after: LogcatPanelState,
    target: Option<DeviceTarget>,
    commands: Seq<LogcatCommand>,
) -> bool {
    if target_view(before.target) == target_view(target) {
        after == before && commands.len() == 0
    } else {
        &&& after.lines@.len() == 0
        &&& after.pending_bytes@.len() == 0
        &&& after == (LogcatPanelState {
            target,
            session: None,
            starting: false,
            running: false,
            user_stopped: false,
            lines: after.lines,
            pending_bytes: after.pending_bytes,
            ..before
        })
        &&& commands == stop_commands(before.session)
    }
}

impl LogcatPanelState {
    /// Splits streamed bytes into lines and appends them as rows while not
    /// paused; a paused stream keeps consuming (and dropping) data, matching
    /// the usual "resume from now" expectation.
    pub fn ingest(&mut self, bytes: &[u8])
        ensures
            (line_views(final(self).lines@), final(self).pending_bytes@) == ingest_result(
                line_views(old(self).lines@),
                old(self).pending_bytes@,
                old(self).paused,
                bytes@,
            ),
            final(self).lines@.len() <= MAX_LINES,
            *final(self) == (LogcatPanelState {
                lines: final(self).lines,
                pending_bytes: final(self).pending_bytes,
                ..*old(self)
            }),
    {
        let ghost rows = line_views(self.lines@);
        let ghost pending = self.pending_bytes@;
        let ghost paused = self.paused;
        let mut i: usize = 0;
        assert(bytes@.take(0) == Seq::<u8>::empty());
        while i < bytes.len()
            invariant
                i <= bytes.len(),
                paused == self.paused,
                paused == old(self).paused,
                *self == (LogcatPanelState {
                    lines: self.lines,
                    pending_bytes: self.pending_bytes,
                    ..*old(self)
                }),
                ({
                    let (lines, rest) = split_stream(pending, bytes@.take(i as int));
                    &&& self.pending_bytes@ == rest
                    &&& line_views(self.lines@) == rows + if paused {
                        Seq::empty()
                    } else {
                        lines.map_values(|l: Seq<u8>| row_of(l))
                    }
                }),
            decreases bytes.len() - i,
        {
            let ghost before_lines = line_views(self.lines@);
            let byte = bytes[i];
            proof {
                assert(bytes@.take(i + 1) == bytes@.take(i as int).push(byte));
                lemma_split_stream_push(pending, bytes@.take(i as int), byte);
            }
            if byte == 10 {
                let text = decode_lossy(self.pending_bytes.as_slice());
                let line = without_trailing_cr(text.as_str());
                if !self.paused {
                    self.lines.push(LogLine::parse(line.as_str()));
                    assert(line_views(self.lines@) == before_lines.push(
                        row_of(self.pending_bytes@),
                    ));
                }
                self.pending_bytes.clear();
            } else {
                self.pending_bytes.push(byte);
            }
            i = i + 1;
        }
        assert(bytes@.take(bytes.len() as int) == bytes@);
        if self.lines.len() > MAX_LINES {
            let start = self.lines.len() - MAX_LINES;
            let tail = self.lines.split_off(start);
            self.lines = tail;
        }
        assert(line_views(self.lines@) == keep_last(
            rows + if paused {
                Seq::empty()
            } else {
                split_stream(pending, bytes@).0.map_values(|l: Seq<u8>| row_of(l))
            },
            MAX_LINES as nat,
        ));
    }

    /// Stops any live stream and clears the buffer.
    fn take_down(&mut self) -> (commands: Vec<LogcatCommand>)
        ensures
            final(self).lines@.len() == 0,
            final(self).pending_bytes@.len() == 0,
            *final(self) == (LogcatPanelState {
                session: None,
                starting: false,
                running: false,
                lines: final(self).lines,
                pending_bytes: final(self).pending_bytes,
                ..*old(self)
            }),
            commands@ == stop_commands(old(self).session),
    {
        let mut commands = Vec::new();
        if let Some(session) = self.session.take() {
            commands.push(LogcatCommand::Stop(session));
        }
        self.starting = false;
        self.running = false;
        self.lines.clear();
        self.pending_bytes.clear();
        commands
    }

    /// Follows the selected device: a different target stops the stream,
    /// clears the buffer and lifts a user stop.
    pub fn reset_for(&mut self, target: Option<DeviceTarget>) -> (commands: Vec<LogcatCommand>)
        ensures
            follows_target(*old(self), *final(self), target, commands@),
    {
        let mut commands = Vec::new();
        if !same_target(&self.target, &target) {
            self.target = target;
            commands = self.take_down();
            self.user_stopped = false;
        }
        commands
    }

    /// Applies one backend report; reports for other sessions are ignored.
    pub fn handle_event(&mut self, event: &LogcatEvent)
        ensures
            match event {
                LogcatEvent::Started { target, session_id } => if target_view(old(self).target)
                    == Some(target@) && old(self).session == Some(*session_id) {
                    *final(self) == (LogcatPanelState {
                        starting: false,
                        running: true,
                        user_stopped: false,
                        ..*old(self)
                    })
                } else {
                    *final(self) == *old(self)
                },
                LogcatEvent::Output { session_id, bytes } => if old(self).session == Some(
                    *session_id,
                ) && bytes@.len() > 0 {
                    (line_views(final(self).lines@), final(self).pending_bytes@) == ingest_result(
                        line_views(old(self).lines@),
                        old(self).pending_bytes@,
                        old(self).paused,
                        bytes@,
                    ) && *final(self) == (LogcatPanelState {
                        lines: final(self).lines,
                        pending_bytes: final(self).pending_bytes,
                        ..*old(self)
                    })
                } else {
                    *final(self) == *old(self)
                },
                LogcatEvent::Closed { session_id } | LogcatEvent::Failed { session_id } => if old(
                    self,
                ).session == Some(*session_id) {
                    *final(self) == (LogcatPanelState {
                        session: None,
                        starting: false,
                        running: false,
                        ..*old(self)
                    })
                } else {
                    *final(self) == *old(self)
                },
            },
            final(self).target == old(self).target,
            final(self).paused == old(self).paused,
    {
        match event {
            LogcatEvent::Started { target, session_id } => {
                if is_target(&self.target, target) && self.session == Some(*session_id) {
                    self.starting = false;
                    self.running = true;
                    self.user_stopped = false;
                }
            },
            LogcatEvent::Output { session_id, bytes } => {
                if self.session == Some(*session_id) && bytes.len() > 0 {
                    self.ingest(bytes.as_slice());
                }
            },
            LogcatEvent::Closed { session_id } | LogcatEvent::Failed { session_id } => {
                if self.session == Some(*session_id) {
                    self.session = None;
                    self.starting = false;
                    self.running = false;
                }
            },
        }
    }
}


impl LogcatPanelState {
    /// The Start button: opens a session when the device is known, nothing
    /// is live or pending and the user has not stopped the stream.
    pub fn start(&mut self, session_id: u64, now_ms: u64) -> (command: Option<LogcatCommand>)
        ensures
            ({
                let can_start = !old(self).running && !old(self).starting && old(self).target is Some
                    && !old(self).user_stopped;
                &&& can_start ==> {
                    &&& command matches Some(LogcatCommand::Start { target, session_id: id }) && id
                        == session_id && Some(target@) == target_view(old(self).target)
                    &&& *final(self) == (LogcatPanelState {
                        session: Some(session_id),
                        starting: true,
                        paused: false,
                        user_stopped: false,
                        last_start_attempt: Some(now_ms),
                        ..*old(self)
                    })
                }
                &&& !can_start ==> command is None && *final(self) == *old(self)
            }),
    {
        if self.running || self.starting || self.user_stopped {
            return None;
        }
        match &self.target {
            Some(target) => {
                let target = target.duplicate();
                self.session = Some(session_id);
                self.starting = true;
                self.paused = false;
                self.user_stopped = false;
                self.last_start_attempt = Some(now_ms);
                Some(LogcatCommand::Start { target, session_id })
            },
            None => None,
        }
    }

    /// The Stop button: takes the live stream down and keeps auto-start off
    /// until the target changes.
    pub fn stop(&mut self) -> (commands: Vec<LogcatCommand>)
        ensures
            old(self).running ==> {
                &&& final(self).lines@.len() == 0
                &&& final(self).pending_bytes@.len() == 0
                &&& *final(self) == (LogcatPanelState {
                    session: None,
                    starting: false,
                    running: false,
                    user_stopped: true,
                    lines: final(self).lines,
                    pending_bytes: final(self).pending_bytes,
                    ..*old(self)
                })
                &&& match old(self).session {
                    Some(id) => commands@.len() == 1 && commands@[0] == LogcatCommand::Stop(id),
                    None => commands@.len() == 0,
                }
            },
            !old(self).running ==> commands@.len() == 0 && *final(self) == *old(self),
    {
        if !self.running {
            return Vec::new();
        }
        let commands = self.take_down();
        self.user_stopped = true;
        commands
    }

    /// The Pause/Resume button, enabled while the stream is live.
    pub fn toggle_pause(&mut self)
        ensures
            *final(self) == (LogcatPanelState { paused: old(self).paused != old(self).running, ..*old(self) }),
    {
        if self.running {
            self.paused = !self.paused;
        }
    }

    /// Row indices passing the severity and search filters, in order.
    pub fn visible_rows(&self) -> (rows: Vec<usize>)
        ensures
            rows@ == Seq::new(self.lines@.len(), |i: int| i).filter(
                |i: int|
                    row_visible(
                        self.lines@[i]@,
                        self.level_filter as int,
                        lowercase(trim(self.query@)),
                    ),
            ).map_values(|i: int| i as usize),
            forall|i: int|
                0 <= i < self.lines@.len() ==> (rows@.contains(i as usize) <==> {
                    let line = #[trigger] self.lines@[i]@;
                    let needle = lowercase(trim(self.query@));
                    &&& (self.level_filter == 0 || level_rank(line.level) >= self.level_filter)
                    &&& (needle.len() == 0 || contains_text(lowercase(line.tag), needle)
                        || contains_text(lowercase(line.message), needle))
                }),
    {
        let trimmed_query = trimmed(self.query.as_str());
        let needle = to_lowercase(trimmed_query.as_str());
        let ghost keep = |i: int|
            row_visible(self.lines@[i]@, self.level_filter as int, lowercase(trim(self.query@)));
        let ghost all = Seq::new(self.lines@.len(), |i: int| i);
        let mut rows: Vec<usize> = Vec::new();
        let mut i: usize = 0;
        while i < self.lines.len()
            invariant
                i <= self.lines@.len(),
                needle@ == lowercase(trim(self.query@)),
                all == Seq::new(self.lines@.len(), |i: int| i),
                keep == (|i: int|
                    row_visible(
                        self.lines@[i]@,
                        self.level_filter as int,
                        lowercase(trim(self.query@)),
                    )),
                rows@ == all.take(i as int).filter(keep).map_values(|i: int| i as usize),
                forall|k: int| 0 <= k < i ==> (rows@.contains(k as usize) <==> #[trigger] keep(k)),
                forall|x: usize| rows@.contains(x) ==> x < i,
            decreases self.lines@.len() - i,
        {
            let line = &self.lines[i];
            let rank = match line.severity_index() {
                Some(r) => r,
                None => 0,
            };
            let mut shown = !(self.level_filter > 0 && rank < self.level_filter);
            if shown && needle.as_str().unicode_len() > 0 {
                let tag = to_lowercase(line.tag.as_str());
                let message = to_lowercase(line.message.as_str());
                shown = contains(tag.as_str(), needle.as_str()) || contains(
                    message.as_str(),
                    needle.as_str(),
                );
            }
            proof {
                assert(shown == keep(i as int));
                reveal(Seq::filter);
                assert(all.take(i + 1).drop_last() == all.take(i as int));
                assert(all.take(i + 1).last() == i as int);
            }
            let ghost before = rows@;
            if shown {
                rows.push(i);
            }
            proof {
                assert forall|k: int| 0 <= k < i + 1 implies (rows@.contains(k as usize) <==> #[trigger] keep(k)) by {
                    if shown {
                        assert(rows@ == before.push(i));
                        if k < i {
                            if rows@.contains(k as usize) {
                                let j = choose|j: int| 0 <= j < rows@.len() && rows@[j] == k as usize;
                                if j < before.len() {
                                    assert(before[j] == k as usize);
                                }
                            }
                            if before.contains(k as usize) {
                                let j = choose|j: int| 0 <= j < before.len() && before[j] == k as usize;
                                assert(rows@[j] == k as usize);
                            }
                        } else {
                            assert(rows@[before.len() as int] == i);
                        }
                    } else if k == i {
                        assert(!before.contains(i));
                    }
                }
                assert forall|x: usize| rows@.contains(x) implies x < i + 1 by {
                    if shown {
                        let j = choose|j: int| 0 <= j < rows@.len() && rows@[j] == x;
                        if j < before.len() {
                            assert(before[j] == x);
                            assert(before.contains(x));
                        } else {
                            assert(x == i);
                        }
                    } else {
                        assert(before.contains(x));
                    }
                }
            }
            i = i + 1;
        }
        assert(all.take(self.lines@.len() as int) == all);
        proof {
            assert forall|k: int| 0 <= k < self.lines@.len() implies keep(k) == ({
                let line = #[trigger] self.lines@[k]@;
                let needle = lowercase(trim(self.query@));
                &&& (self.level_filter == 0 || level_rank(line.level) >= self.level_filter)
                &&& (needle.len() == 0 || contains_text(lowercase(line.tag), needle)
                    || contains_text(lowercase(line.message), needle))
            }) by {
                lemma_row_visible_fields(self.lines@[k]@, self.level_filter as int, lowercase(trim(self.query@)));
            }
        }
        rows
    }
}

/// Whether a row passes the filters: a severity filter `k > 0` hides rows
/// ranked below `k` (unrecognized rows count as rank 0), and a non-empty
/// lower-case needle must occur in the lower-cased tag or message.
pub open spec fn row_visible(line: LogLineView, level_filter: int, needle: Seq<char>) -> bool {
    let rank = if level_rank(line.level) >= 0 {
        level_rank(line.level)
    } else {
        0
    };
    &&& !(level_filter > 0 && rank < level_filter)
    &&& (needle.len() == 0 || contains_text(lowercase(line.tag), needle) || contains_text(
        lowercase(line.message),
        needle,
    ))
}

/// Which rows the filters show, in terms of the row: with a severity
/// filter `k > 0` exactly the rows ranked `k` or above (a row of unknown
/// severity is hidden), and with a non-empty needle exactly the rows whose
/// lower-cased tag or lower-cased message contains it. In particular a hit
/// in the message shows the row whatever its tag.
pub proof fn lemma_row_visible_fields(line: LogLineView, level_filter: int, needle: Seq<char>)
    requires
        level_filter >= 0,
    ensures
        row_visible(line, level_filter, needle) == ((level_filter == 0 || level_rank(line.level) >= level_filter)
            && (needle.len() == 0 || contains_text(lowercase(line.tag), needle) || contains_text(
            lowercase(line.message),
            needle,
        ))),
        (level_filter == 0 || level_rank(line.level) >= level_filter) && contains_text(
            lowercase(line.message),
            needle,
        ) ==> row_visible(line, level_filter, needle),
        (level_filter == 0 || level_rank(line.level) >= level_filter) && contains_text(
            lowercase(line.tag),
            needle,
        ) ==> row_visible(line, level_filter, needle),
        level_filter > 0 && level_rank(line.level) < level_filter ==> !row_visible(line, level_filter, needle),
{
}

/// Whether the stream starts by itself: a device is online and selected,
/// nothing runs, starts or was stopped by the user, and the last attempt is
/// not within the retry interval.
pub open spec fn auto_start_due(state: LogcatPanelState, target_online: bool, now_ms: u64) -> bool {
    let recently = match state.last_start_attempt {
        Some(last) => (if now_ms >= last {
            now_ms - last
        } else {
            0
        }) < AUTO_START_RETRY_MS,
        None => false,
    };
    target_online && !state.running && !state.starting && !state.user_stopped && state.session is None
        && !recently && state.target is Some
}

/// Called each frame the panel is on screen: starts the stream when a device
/// is online and no session exists yet, at most once per retry interval.
pub fn auto_start(
    state: &mut LogcatPanelState,
    target_online: bool,
    now_ms: u64,
    session_id: u64,
) -> (commands: Vec<LogcatCommand>)
    ensures
        auto_start_due(*old(state), target_online, now_ms) ==> {
            &&& commands@.len() == 1
            &&& commands@[0] matches LogcatCommand::Start { target, session_id: id } && id == session_id
                && Some(target@) == target_view(old(state).target)
            &&& *final(state) == (LogcatPanelState {
                session: Some(session_id),
                starting: true,
                last_start_attempt: Some(now_ms),
                ..*old(state)
            })
        },
        !auto_start_due(*old(state), target_online, now_ms) ==> commands@.len() == 0 && *final(state)
            == *old(state),
{
    let mut commands = Vec::new();
    if !target_online || state.running || state.starting || state.user_stopped
        || state.session.is_some() {
        return commands;
    }
    let recently_attempted = match state.last_start_attempt {
        Some(last) => now_ms.saturating_sub(last) < AUTO_START_RETRY_MS,
        None => false,
    };
    if recently_attempted {
        return commands;
    }
    let target = match &state.target {
        Some(target) => target.duplicate(),
        None => {
            return commands;
        },
    };
    state.session = Some(session_id);
    state.starting = true;
    state.last_start_attempt = Some(now_ms);
    commands.push(LogcatCommand::Start { target, session_id });
    commands
}

proof fn lemma_split_stream_concat(partial: Seq<u8>, a: Seq<u8>, b: Seq<u8>)
    ensures
        split_stream(partial, a + b) == ({
            let (l1, r1) = split_stream(partial, a);
            let (l2, r2) = split_stream(r1, b);
            (l1 + l2, r2)
        }),
    decreases b.len(),
{
    if b.len() == 0 {
        assert(a + b == a);
        let (l1, r1) = split_stream(partial, a);
        assert(l1 + Seq::<Seq<u8>>::empty() == l1);
    } else {
        lemma_split_stream_concat(partial, a, b.drop_last());
        assert((a + b).drop_last() == a + b.drop_last());
        assert((a + b).last() == b.last());
        let (l1, r1) = split_stream(partial, a);
        let (l2, r2) = split_stream(r1, b.drop_last());
        assert((l1 + l2).push(r2) == l1 + l2.push(r2));
    }
}

proof fn lemma_keep_last_twice<A>(rows: Seq<A>, extra: Seq<A>, n: nat)
    ensures
        keep_last(keep_last(rows, n) + extra, n) == keep_last(rows + extra, n),
{
    let all = rows + extra;
    if rows.len() > n {
        let kept = rows.skip(rows.len() - n);
        assert(kept + extra == all.skip(rows.len() - n));
        if (kept + extra).len() > n {
            assert((kept + extra).skip((kept + extra).len() - n) == all.skip(all.len() - n));
        }
    }
}

/// Streaming is insensitive to how the bytes are split into chunks: taking
/// `a` and then `b` leaves the same rows and pending bytes as taking `a + b`
/// at once.
pub proof fn lemma_ingest_chunking(
    rows: Seq<LogLineView>,
    pending: Seq<u8>,
    paused: bool,
    a: Seq<u8>,
    b: Seq<u8>,
)
    ensures
        ({
            let first = ingest_result(rows, pending, paused, a);
            ingest_result(first.0, first.1, paused, b)
        }) == ingest_result(rows, pending, paused, a + b),
{
    lemma_split_stream_concat(pending, a, b);
    let (l1, r1) = split_stream(pending, a);
    let (l2, r2) = split_stream(r1, b);
    let f = |l: Seq<u8>| row_of(l);
    assert((l1 + l2).map_values(f) == l1.map_values(f) + l2.map_values(f));
    let a1 = if paused {
        Seq::<LogLineView>::empty()
    } else {
        l1.map_values(f)
    };
    let a2 = if paused {
        Seq::<LogLineView>::empty()
    } else {
        l2.map_values(f)
    };
    lemma_keep_last_twice(rows + a1, a2, MAX_LINES as nat);
    assert(rows + a1 + a2 == rows + (if paused {
        Seq::<LogLineView>::empty()
    } else {
        (l1 + l2).map_values(f)
    }));
}

/// A counter line: the text for `key` with `{visible}` and `{total}` filled in.
pub open spec fn count_text(language: Language, key: Seq<char>, visible: nat, total: nat) -> Seq<char> {
    replaced(
        replaced(translation(language, key), "{visible}"@, decimal(visible)),
        "{total}"@,
        decimal(total),
    )
}

/// Fills the `{visible}` and `{total}` placeholders of a counter text.
pub fn text_with_count(language: Language, key: &str, visible: usize, total: usize) -> (line: String)
    ensures
        line@ == count_text(language, key@, visible as nat, total as nat),
{
    proof {
        reveal_strlit("{visible}");
        reveal_strlit("{total}");
    }
    let template = text(language, key);
    let visible_text = string_of(decimal_chars(visible as u64).as_slice());
    let first = replace_all(template, "{visible}", visible_text.as_str());
    let total_text = string_of(decimal_chars(total as u64).as_slice());
    replace_all(first.as_str(), "{total}", total_text.as_str())
}

} // verus!
