//! Screen mirroring: the start/stop life cycle of a mirroring session, its
//! recording, the quality presets and the remote-control keys.

use vstd::prelude::*;

use crate::device::{target_view, BridgeError, DeviceTarget};
use crate::i18n::{text, translation, Language};
use crate::text::{chars_of, decimal, decimal_chars, string_of};

verus! {

/// Time between automatic start attempts while idle, in milliseconds.
pub const AUTO_MIRROR_RETRY_MS: u64 = 8_000;

/// Minimum spacing between automatic recording steps, in milliseconds.
pub const RECORD_AUTO_STEP_MS: u64 = 500;

/// Resolution cap offered first: 1280 pixels on the short side.
pub const DEFAULT_MAX_SIZE: u32 = 1280;

/// Video bit rate offered first: 8 Mbit/s.
pub const DEFAULT_BIT_RATE: u32 = 8_000_000;

/// Resolution cap presets (short-side pixels); `None` is the native size.
pub open spec fn max_size_options() -> Seq<Option<u32>> {
    seq![None, Some(1920u32), Some(1280u32), Some(960u32), Some(640u32)]
}

/// The resolution cap presets.
pub fn max_size_presets() -> (options: [Option<u32>; 5])
    ensures
        options@ == max_size_options(),
{
    let options = [None, Some(1920), Some(1280), Some(960), Some(640)];
    assert(options@ =~= max_size_options());
    options
}

/// Video bit rate presets, in Mbit/s.
pub fn bit_rate_presets() -> (options: [u32; 5])
    ensures
        options@ == seq![1u32, 2u32, 4u32, 8u32, 16u32],
{
    let options = [1, 2, 4, 8, 16];
    assert(options@ =~= seq![1u32, 2u32, 4u32, 8u32, 16u32]);
    options
}

/// One remote-control button: its label and the Android key code it sends.
#[derive(Clone, Copy, Debug, PartialEq, Eq)]
pub struct RemoteKey {
    pub label: &'static str,
    pub keycode: u32,
}

impl RemoteKey {
    pub fn new(label: &'static str, keycode: u32) -> (key: Self)
        ensures
            key.label == label,
            key.keycode == keycode,
    {
        RemoteKey { label, keycode }
    }
}

/// The remote's rows of keys, top to bottom: power, mute, play; volume;
/// the d-pad in three rows; menu, home, back.
pub fn remote_rows(language: Language) -> (rows: Vec<Vec<RemoteKey>>)
    ensures
        rows@.len() == 6,
        rows@[0]@.map_values(|k: RemoteKey| k.keycode) == seq![26u32, 164u32, 85u32],
        rows@[1]@.map_values(|k: RemoteKey| k.keycode) == seq![24u32, 25u32],
        rows@[2]@.map_values(|k: RemoteKey| k.keycode) == seq![19u32],
        rows@[3]@.map_values(|k: RemoteKey| k.keycode) == seq![21u32, 23u32, 22u32],
        rows@[4]@.map_values(|k: RemoteKey| k.keycode) == seq![20u32],
        rows@[5]@.map_values(|k: RemoteKey| k.keycode) == seq![82u32, 3u32, 4u32],
{
    let mut rows: Vec<Vec<RemoteKey>> = Vec::new();
    rows.push(
        vec![
            RemoteKey::new(text(language, "mirror_key_power"), 26),
            RemoteKey::new(text(language, "mirror_key_mute"), 164),
            RemoteKey::new(text(language, "mirror_key_play"), 85),
        ],
    );
    rows.push(
        vec![
            RemoteKey::new(text(language, "mirror_key_vol_up"), 24),
            RemoteKey::new(text(language, "mirror_key_vol_down"), 25),
        ],
    );
    rows.push(vec![RemoteKey::new("▲", 19)]);
    rows.push(vec![RemoteKey::new("◀", 21), RemoteKey::new("OK", 23), RemoteKey::new("▶", 22)]);
    rows.push(vec![RemoteKey::new("▼", 20)]);
    rows.push(
        vec![
            RemoteKey::new(text(language, "mirror_key_menu"), 82),
            RemoteKey::new(text(language, "mirror_key_home"), 3),
            RemoteKey::new(text(language, "mirror_key_back"), 4),
        ],
    );
    assert(rows@[0]@.map_values(|k: RemoteKey| k.keycode) =~= seq![26u32, 164u32, 85u32]);
    assert(rows@[1]@.map_values(|k: RemoteKey| k.keycode) =~= seq![24u32, 25u32]);
    assert(rows@[2]@.map_values(|k: RemoteKey| k.keycode) =~= seq![19u32]);
    assert(rows@[3]@.map_values(|k: RemoteKey| k.keycode) =~= seq![21u32, 23u32, 22u32]);
    assert(rows@[4]@.map_values(|k: RemoteKey| k.keycode) =~= seq![20u32]);
    assert(rows@[5]@.map_values(|k: RemoteKey| k.keycode) =~= seq![82u32, 3u32, 4u32]);
    rows
}

/// The label of a resolution preset: the pixel count, or the native-size text.
pub open spec fn max_size_text(language: Language, option: Option<u32>) -> Seq<char> {
    match option {
        Some(size) => decimal(size as nat),
        None => translation(language, "mirror_native"@),
    }
}

/// The label of a resolution preset.
pub fn max_size_label(language: Language, option: Option<u32>) -> (label: String)
    ensures
        label@ == max_size_text(language, option),
{
    match option {
        Some(size) => string_of(decimal_chars(size as u64).as_slice()),
        None => string_of(chars_of(text(language, "mirror_native")).as_slice()),
    }
}

/// Backend requests of the mirror panel.
pub enum MirrorCommand {
    StartMirror { request_id: u64, target: DeviceTarget, max_size: Option<u32>, video_bit_rate: u32 },
    StopMirror,
    StartMirrorRecording,
    StopMirrorRecording,
    SendKeyEvent { target: DeviceTarget, keycode: u32 },
}

/// Backend reports the mirror panel reacts to.
pub enum MirrorEvent {
    MirrorStarted { request_id: u64, target: DeviceTarget, width: u32, height: u32 },
    MirrorStopped { request_id: u64, target: DeviceTarget },
    MirrorFailed { request_id: u64, target: DeviceTarget, error: BridgeError },
    MirrorRecordingSaved { target: DeviceTarget, path: String, frames: u64 },
    MirrorRecordingFailed { target: DeviceTarget, error: BridgeError },
}

/// The mirror panel. The video texture and the frame-rate estimate live with
/// the application shell, which drops them whenever a session ends.
pub struct MirrorPanelState {
    /// A start request awaiting its confirmation.
    pub starting: Option<u64>,
    pub running: Option<u64>,
    pub stream: Option<(u32, u32)>,
    pub error: Option<BridgeError>,
    /// When the current recording began, in milliseconds of the app's clock.
    pub recording: Option<u64>,
    /// The last finished recording and its frame count, kept until the next.
    pub saved: Option<(String, u64)>,
    /// Resolution cap; `None` is the native resolution.
    pub max_size: Option<u32>,
    /// Video bit rate in bits per second.
    pub video_bit_rate: u32,
    pub last_auto_attempt: Option<u64>,
    pub last_record_auto: Option<u64>,
    pub record_auto_done: bool,
}

/// Whether `request_id` is the session being started or running.
pub open spec fn owns_session(state: MirrorPanelState, request_id: u64) -> bool {
    state.starting == Some(request_id) || state.running == Some(request_id)
}

/// The panel once a session has ended: nothing starting or running, no
/// stream and no recording; the saved file stays visible.
pub open spec fn ended(state: MirrorPanelState) -> MirrorPanelState {
    MirrorPanelState { starting: None, running: None, stream: None, recording: None, ..state }
}

impl MirrorPanelState {
    /// A panel with the default presets.
    pub fn new() -> (state: Self)
        ensures
            state.starting is None,
            state.running is None,
            state.stream is None,
            state.error is None,
            state.recording is None,
            state.saved is None,
            state.max_size == Some(DEFAULT_MAX_SIZE),
            state.video_bit_rate == DEFAULT_BIT_RATE,
            state.last_auto_attempt is None,
            state.last_record_auto is None,
            !state.record_auto_done,
    {
        MirrorPanelState {
            starting: None,
            running: None,
            stream: None,
            error: None,
            recording: None,
            saved: None,
            max_size: Some(DEFAULT_MAX_SIZE),
            video_bit_rate: DEFAULT_BIT_RATE,
            last_auto_attempt: None,
            last_record_auto: None,
            record_auto_done: false,
        }
    }

    /// Applies one backend report; returns whether the session ended, so the
    /// shell drops its video texture and frame-rate estimate.
    pub fn handle_event(&mut self, event: &MirrorEvent) -> (session_ended: bool)
        ensures
            match event {
                MirrorEvent::MirrorStarted { request_id, width, height, .. } => !session_ended && if old(
                    self,
                ).starting == Some(*request_id) {
                    *final(self) == (MirrorPanelState {
                        starting: None,
                        running: Some(*request_id),
                        stream: Some((*width, *height)),
                        error: None,
                        ..*old(self)
                    })
                } else {
                    *final(self) == *old(self)
                },
                MirrorEvent::MirrorStopped { request_id, .. } => if owns_session(*old(self), *request_id) {
                    session_ended && *final(self) == ended(*old(self))
                } else {
                    !session_ended && *final(self) == *old(self)
                },
                MirrorEvent::MirrorFailed { request_id, error, .. } => if owns_session(
                    *old(self),
                    *request_id,
                ) {
                    session_ended && *final(self) == (MirrorPanelState {
                        error: Some(*error),
                        ..ended(*old(self))
                    })
                } else {
                    !session_ended && *final(self) == *old(self)
                },
                MirrorEvent::MirrorRecordingSaved { path, frames, .. } => {
                    &&& !session_ended
                    &&& final(self).saved matches Some(s) && s.0@ == path@ && s.1 == *frames
                    &&& *final(self) == (MirrorPanelState {
                        recording: None,
                        saved: final(self).saved,
                        ..*old(self)
                    })
                },
                MirrorEvent::MirrorRecordingFailed { error, .. } => !session_ended && *final(self) == (
                MirrorPanelState { recording: None, error: Some(*error), ..*old(self) }),
            },
    {
        match event {
            MirrorEvent::MirrorStarted { request_id, width, height, .. } => {
                if self.starting == Some(*request_id) {
                    self.starting = None;
                    self.running = Some(*request_id);
                    self.stream = Some((*width, *height));
                    self.error = None;
                }
                false
            },
            MirrorEvent::MirrorStopped { request_id, .. } => {
                if self.starting == Some(*request_id) || self.running == Some(*request_id) {
                    self.end_session();
                    true
                } else {
                    false
                }
            },
            MirrorEvent::MirrorFailed { request_id, error, .. } => {
                if self.starting == Some(*request_id) || self.running == Some(*request_id) {
                    self.end_session();
                    self.error = Some(error.duplicate());
                    true
                } else {
                    false
                }
            },
            MirrorEvent::MirrorRecordingSaved { path, frames, .. } => {
                self.recording = None;
                self.saved = Some((path.clone(), *frames));
                false
            },
            MirrorEvent::MirrorRecordingFailed { error, .. } => {
                self.recording = None;
                self.error = Some(error.duplicate());
                false
            },
        }
    }

    fn end_session(&mut self)
        ensures
            *final(self) == ended(*old(self)),
    {
        self.starting = None;
        self.running = None;
        self.stream = None;
        self.recording = None;
    }

    /// Whether a session is starting or running.
    pub fn busy(&self) -> (busy: bool)
        ensures
            busy == (self.starting is Some || self.running is Some),
    {
        self.starting.is_some() || self.running.is_some()
    }

    /// The start button, enabled with a selected device while idle: asks for
    /// a session with the chosen presets under `request_id`.
    pub fn start(&mut self, selected: &Option<DeviceTarget>, request_id: u64) -> (command: Option<
        MirrorCommand,
    >)
        ensures
            match selected {
                Some(t) => if old(self).starting is None && old(self).running is None {
                    &&& command matches Some(
                        MirrorCommand::StartMirror { request_id: id, target, max_size, video_bit_rate },
                    ) && id == request_id && target@ == t@ && max_size == old(self).max_size
                        && video_bit_rate == old(self).video_bit_rate
                    &&& *final(self) == (MirrorPanelState {
                        starting: Some(request_id),
                        error: None,
                        ..*old(self)
                    })
                } else {
                    command is None && *final(self) == *old(self)
                },
                None => command is None && *final(self) == *old(self),
            },
    {
        if self.busy() {
            return None;
        }
        match selected {
            Some(target) => {
                self.starting = Some(request_id);
                self.error = None;
                Some(
                    MirrorCommand::StartMirror {
                        request_id,
                        target: target.duplicate(),
                        max_size: self.max_size,
                        video_bit_rate: self.video_bit_rate,
                    },
                )
            },
            None => None,
        }
    }

    /// The stop button, shown while a session is starting or running.
    pub fn stop(&self) -> (command: Option<MirrorCommand>)
        ensures
            (self.starting is Some || self.running is Some) ==> command matches Some(
                MirrorCommand::StopMirror,
            ),
            !(self.starting is Some || self.running is Some) ==> command is None,
    {
        if self.busy() {
            Some(MirrorCommand::StopMirror)
        } else {
            None
        }
    }

    /// The record button, enabled during a session: stops a running
    /// recording, or starts one at `now_ms` (forgetting the last saved file).
    pub fn toggle_recording(&mut self, now_ms: u64) -> (command: Option<MirrorCommand>)
        ensures
            !(old(self).starting is Some || old(self).running is Some) ==> command is None
                && *final(self) == *old(self),
            (old(self).starting is Some || old(self).running is Some) ==> if old(self).recording is Some {
                (command matches Some(MirrorCommand::StopMirrorRecording)) && *final(self) == (
                MirrorPanelState { error: None, ..*old(self) })
            } else {
                (command matches Some(MirrorCommand::StartMirrorRecording)) && *final(self) == (
                MirrorPanelState { error: None, recording: Some(now_ms), saved: None, ..*old(self) })
            },
    {
        if !self.busy() {
            return None;
        }
        self.error = None;
        if self.recording.is_some() {
            Some(MirrorCommand::StopMirrorRecording)
        } else {
            self.recording = Some(now_ms);
            self.saved = None;
            Some(MirrorCommand::StartMirrorRecording)
        }
    }
}

/// A remote key press: one key event for the selected device, nothing
/// without one.
pub fn press_key(selected: &Option<DeviceTarget>, keycode: u32) -> (command: Option<MirrorCommand>)
    ensures
        match selected {
            Some(t) => command matches Some(MirrorCommand::SendKeyEvent { target, keycode: k })
                && target@ == t@ && k == keycode,
            None => command is None,
        },
{
    match selected {
        Some(target) => Some(MirrorCommand::SendKeyEvent { target: target.duplicate(), keycode }),
        None => None,
    }
}

/// Whether `last` is unset or at least `step` milliseconds before `now`.
pub open spec fn elapsed_at_least(last: Option<u64>, now: u64, step: u64) -> bool {
    match last {
        Some(l) => now >= l && now - l >= step,
        None => true,
    }
}

fn waited(last: Option<u64>, now: u64, step: u64) -> (done: bool)
    ensures
        done == elapsed_at_least(last, now, step),
{
    match last {
        Some(l) => now >= l && now - l >= step,
        None => true,
    }
}

/// Whether the automatic start fires: switched on, idle, backed off, and a
/// device selected.
pub open spec fn auto_start_due(
    state: MirrorPanelState,
    selected: Option<DeviceTarget>,
    auto_start: bool,
    now_ms: u64,
) -> bool {
    auto_start && state.starting is None && state.running is None && elapsed_at_least(
        state.last_auto_attempt,
        now_ms,
        AUTO_MIRROR_RETRY_MS,
    ) && selected is Some
}

/// The automatic recording step: 1 starts a recording of the running
/// session, 2 stops one that has lasted `secs` seconds, 0 does nothing.
pub open spec fn auto_record_action(state: MirrorPanelState, record_secs: Option<u64>, now_ms: u64) -> int {
    match record_secs {
        Some(secs) => if !state.record_auto_done && elapsed_at_least(
            state.last_record_auto,
            now_ms,
            RECORD_AUTO_STEP_MS,
        ) {
            if state.running is Some && state.recording is None {
                1
            } else if state.recording matches Some(started) && now_ms >= started && (now_ms - started)
                / 1000 >= secs {
                2
            } else {
                0
            }
        } else {
            0
        },
        None => 0,
    }
}

/// The automatic start and recording run by developer switches: with
/// `auto_start`, an idle panel starts mirroring the selected device at most
/// every retry interval; with `record_secs`, a running session is recorded
/// once for that many seconds.
pub fn auto(
    state: &mut MirrorPanelState,
    selected: &Option<DeviceTarget>,
    auto_start: bool,
    record_secs: Option<u64>,
    now_ms: u64,
    request_id: u64,
) -> (commands: Vec<MirrorCommand>)
    ensures
        ({
            let starts = auto_start_due(*old(state), *selected, auto_start, now_ms);
            let mid = if starts {
                MirrorPanelState {
                    last_auto_attempt: Some(now_ms),
                    starting: Some(request_id),
                    error: None,
                    ..*old(state)
                }
            } else {
                *old(state)
            };
            let action = auto_record_action(mid, record_secs, now_ms);
            let first = if starts { 1int } else { 0int };
            &&& commands@.len() == first + if action == 0 { 0int } else { 1int }
            &&& starts ==> (commands@[0] matches MirrorCommand::StartMirror {
                request_id: id,
                target,
                max_size,
                video_bit_rate,
            } && id == request_id && target@ == selected->0@ && max_size == old(state).max_size
                && video_bit_rate == old(state).video_bit_rate)
            &&& action == 1 ==> (commands@[first] matches MirrorCommand::StartMirrorRecording)
                && *final(state) == (MirrorPanelState {
                last_record_auto: Some(now_ms),
                recording: Some(now_ms),
                saved: None,
                ..mid
            })
            &&& action == 2 ==> (commands@[first] matches MirrorCommand::StopMirrorRecording)
                && *final(state) == (MirrorPanelState {
                last_record_auto: Some(now_ms),
                record_auto_done: true,
                ..mid
            })
            &&& action == 0 ==> *final(state) == mid
        }),
{
    let mut commands: Vec<MirrorCommand> = Vec::new();
    let idle = state.starting.is_none() && state.running.is_none();
    let backed_off = waited(state.last_auto_attempt, now_ms, AUTO_MIRROR_RETRY_MS);
    if auto_start && idle && backed_off {
        match selected {
            Some(target) => {
                state.last_auto_attempt = Some(now_ms);
                state.starting = Some(request_id);
                state.error = None;
                commands.push(
                    MirrorCommand::StartMirror {
                        request_id,
                        target: target.duplicate(),
                        max_size: state.max_size,
                        video_bit_rate: state.video_bit_rate,
                    },
                );
            },
            None => {},
        }
    }
    if !state.record_auto_done {
        match record_secs {
            Some(secs) => {
                if waited(state.last_record_auto, now_ms, RECORD_AUTO_STEP_MS) {
                    if state.running.is_some() && state.recording.is_none() {
                        state.last_record_auto = Some(now_ms);
                        state.recording = Some(now_ms);
                        state.saved = None;
                        commands.push(MirrorCommand::StartMirrorRecording);
                    } else {
                        let long_enough = match state.recording {
                            Some(started) => now_ms >= started && (now_ms - started) / 1000 >= secs,
                            None => false,
                        };
                        if long_enough {
                            state.last_record_auto = Some(now_ms);
                            state.record_auto_done = true;
                            commands.push(MirrorCommand::StopMirrorRecording);
                        }
                    }
                }
            },
            None => {},
        }
    }
    commands
}

} // verus!
