//! The Android Virtual Device manager: the emulator list, launching and
//! stopping emulators, and the polling that keeps the device list fresh
//! while an emulator boots or shuts down.

use vstd::prelude::*;

use crate::device::BridgeError;

verus! {

/// Time between automatic list loads while the list is empty, in milliseconds.
pub const AUTO_LOAD_RETRY_MS: u64 = 5_000;

/// Time between device-list polls while a launched emulator boots.
pub const BOOT_POLL_INTERVAL_MS: u64 = 5_000;

/// How many polls a boot gets (about a minute in all).
pub const BOOT_POLLS: u32 = 12;

/// Time between resyncs after an emulator was asked to exit.
pub const SETTLE_POLL_INTERVAL_MS: u64 = 3_000;

/// How many resyncs follow a stop.
pub const SETTLE_POLLS: u32 = 3;

/// One virtual device, with the serial of its emulator when it runs.
#[derive(Clone, Debug, PartialEq, Eq)]
pub struct AvdEntry {
    pub name: String,
    pub running_serial: Option<String>,
}

/// Backend requests of the AVD manager.
#[derive(Debug, PartialEq, Eq)]
pub enum AvdCommand {
    ListAvds,
    RefreshDevices,
    LaunchAvd { request_id: u64, name: String, wipe_data: bool },
    KillEmulator { request_id: u64, serial: String },
}

/// Backend reports the AVD manager reacts to.
pub enum AvdEvent {
    AvdsLoaded { avds: Vec<AvdEntry> },
    AvdsFailed { error: BridgeError },
    AvdLaunchFinished { request_id: u64, name: String },
    AvdLaunchFailed { request_id: u64, error: BridgeError },
    EmulatorKillFinished { request_id: u64, serial: String },
    EmulatorKillFailed { request_id: u64, serial: String, error: BridgeError },
}

/// The AVD manager.
pub struct AvdPanelState {
    pub avds: Vec<AvdEntry>,
    pub loading: bool,
    pub error: Option<BridgeError>,
    /// Text-table key of the launch or stop notice.
    pub notice: Option<&'static str>,
    /// When the list was last loaded automatically, in milliseconds.
    pub last_load_attempt: Option<u64>,
    /// Polls left while a launched emulator boots.
    pub boot_polls: u32,
    pub last_poll: Option<u64>,
    /// Resyncs left after a stop.
    pub settle_polls: u32,
    /// An emulator whose stop waits for confirmation.
    pub confirm_stop: Option<String>,
}

impl Default for AvdPanelState {
    fn default() -> (state: Self)
        ensures
            state.avds@.len() == 0,
            !state.loading,
            state.error is None,
            state.notice is None,
            state.last_load_attempt is None,
            state.boot_polls == 0,
            state.last_poll is None,
            state.settle_polls == 0,
            state.confirm_stop is None,
    {
        AvdPanelState {
            avds: Vec::new(),
            loading: false,
            error: None,
            notice: None,
            last_load_attempt: None,
            boot_polls: 0,
            last_poll: None,
            settle_polls: 0,
            confirm_stop: None,
        }
    }
}

fn copy_avds(avds: &Vec<AvdEntry>) -> (copy: Vec<AvdEntry>)
    ensures
        copy@ == avds@,
{
    let mut copy: Vec<AvdEntry> = Vec::new();
    let mut k: usize = 0;
    while k < avds.len()
        invariant
            k <= avds@.len(),
            copy@ == avds@.take(k as int),
        decreases avds@.len() - k,
    {
        let entry = &avds[k];
        let serial = match &entry.running_serial {
            Some(s) => Some(s.clone()),
            None => None,
        };
        copy.push(AvdEntry { name: entry.name.clone(), running_serial: serial });
        k = k + 1;
        assert(copy@ =~= avds@.take(k as int));
    }
    assert(avds@.take(avds@.len() as int) =~= avds@);
    copy
}

impl AvdPanelState {
    /// Applies one backend report at `now_ms`: a finished launch starts the
    /// boot polls, a finished stop refreshes the devices at once and starts
    /// the resyncs.
    pub fn handle_event(&mut self, event: &AvdEvent, now_ms: u64) -> (commands: Vec<AvdCommand>)
        ensures
            match event {
                AvdEvent::AvdsLoaded { avds } => {
                    &&& commands@.len() == 0
                    &&& final(self).avds@ == avds@
                    &&& *final(self) == (AvdPanelState {
                        loading: false,
                        error: None,
                        avds: final(self).avds,
                        ..*old(self)
                    })
                },
                AvdEvent::AvdsFailed { error } => commands@.len() == 0 && *final(self) == (AvdPanelState {
                    loading: false,
                    error: Some(*error),
                    ..*old(self)
                }),
                AvdEvent::AvdLaunchFinished { .. } => {
                    &&& commands@.len() == 0
                    &&& final(self).notice matches Some(n) && n@ == "avd_started_hint"@
                    &&& *final(self) == (AvdPanelState {
                        notice: final(self).notice,
                        boot_polls: BOOT_POLLS,
                        last_poll: Some(now_ms),
                        ..*old(self)
                    })
                },
                AvdEvent::AvdLaunchFailed { error, .. } => commands@.len() == 0 && *final(self) == (
                AvdPanelState { notice: None, error: Some(*error), ..*old(self) }),
                AvdEvent::EmulatorKillFinished { .. } => {
                    &&& commands@ == seq![AvdCommand::RefreshDevices]
                    &&& final(self).notice matches Some(n) && n@ == "avd_kill_done"@
                    &&& *final(self) == (AvdPanelState {
                        notice: final(self).notice,
                        confirm_stop: None,
                        settle_polls: SETTLE_POLLS,
                        last_poll: Some(now_ms),
                        ..*old(self)
                    })
                },
                AvdEvent::EmulatorKillFailed { error, .. } => commands@.len() == 0 && *final(self) == (
                AvdPanelState { notice: None, confirm_stop: None, error: Some(*error), ..*old(self) }),
            },
    {
        let mut commands: Vec<AvdCommand> = Vec::new();
        match event {
            AvdEvent::AvdsLoaded { avds } => {
                self.loading = false;
                self.error = None;
                self.avds = copy_avds(avds);
            },
            AvdEvent::AvdsFailed { error } => {
                self.loading = false;
                self.error = Some(error.duplicate());
            },
            AvdEvent::AvdLaunchFinished { .. } => {
                self.notice = Some("avd_started_hint");
                self.boot_polls = BOOT_POLLS;
                self.last_poll = Some(now_ms);
            },
            AvdEvent::AvdLaunchFailed { error, .. } => {
                self.notice = None;
                self.error = Some(error.duplicate());
            },
            AvdEvent::EmulatorKillFinished { .. } => {
                self.notice = Some("avd_kill_done");
                self.confirm_stop = None;
                self.settle_polls = SETTLE_POLLS;
                self.last_poll = Some(now_ms);
                commands.push(AvdCommand::RefreshDevices);
                assert(commands@ =~= seq![AvdCommand::RefreshDevices]);
            },
            AvdEvent::EmulatorKillFailed { error, .. } => {
                self.notice = None;
                self.confirm_stop = None;
                self.error = Some(error.duplicate());
            },
        }
        commands
    }

    /// The refresh button, enabled while no load runs.
    pub fn refresh(&mut self) -> (command: Option<AvdCommand>)
        ensures
            old(self).loading ==> command is None && *final(self) == *old(self),
            !old(self).loading ==> command == Some(AvdCommand::ListAvds) && *final(self) == (
            AvdPanelState { loading: true, ..*old(self) }),
    {
        if self.loading {
            return None;
        }
        self.loading = true;
        Some(AvdCommand::ListAvds)
    }

    /// Launches the virtual device `name` under `request_id`, optionally
    /// wiping its data.
    pub fn launch(&mut self, name: &String, wipe_data: bool, request_id: u64) -> (command: AvdCommand)
        ensures
            command == (AvdCommand::LaunchAvd { request_id, name: *name, wipe_data }),
            final(self).notice matches Some(n) && n@ == "avd_starting"@,
            *final(self) == (AvdPanelState { notice: final(self).notice, ..*old(self) }),
    {
        self.notice = Some("avd_starting");
        AvdCommand::LaunchAvd { request_id, name: name.clone(), wipe_data }
    }

    /// The stop button of a running emulator: asks for confirmation first.
    pub fn request_stop(&mut self, serial: &String)
        ensures
            *final(self) == (AvdPanelState { confirm_stop: Some(*serial), ..*old(self) }),
    {
        self.confirm_stop = Some(serial.clone());
    }

    /// The confirm button: stops the emulator awaiting confirmation.
    pub fn confirm_stop(&self, serial: &String, request_id: u64) -> (command: Option<AvdCommand>)
        ensures
            (self.confirm_stop matches Some(s) && s@ == serial@) ==> command == Some(
                AvdCommand::KillEmulator { request_id, serial: *serial },
            ),
            !(self.confirm_stop matches Some(s) && s@ == serial@) ==> command is None,
    {
        let confirmed = match &self.confirm_stop {
            Some(s) => *s == *serial,
            None => false,
        };
        if confirmed {
            Some(AvdCommand::KillEmulator { request_id, serial: serial.clone() })
        } else {
            None
        }
    }
}

/// Whether a poll is due: there was a last poll, `step` milliseconds ago or more.
pub open spec fn poll_due(last: Option<u64>, now_ms: u64, step: u64) -> bool {
    last matches Some(l) && now_ms >= l && now_ms - l >= step
}

fn due(last: Option<u64>, now_ms: u64, step: u64) -> (is_due: bool)
    ensures
        is_due == poll_due(last, now_ms, step),
{
    match last {
        Some(l) => now_ms >= l && now_ms - l >= step,
        None => false,
    }
}

/// The panel after the boot poll of one frame, if it is due.
pub open spec fn after_boot_poll(state: AvdPanelState, now_ms: u64) -> AvdPanelState {
    if state.boot_polls > 0 && poll_due(state.last_poll, now_ms, BOOT_POLL_INTERVAL_MS) {
        AvdPanelState { boot_polls: (state.boot_polls - 1) as u32, last_poll: Some(now_ms), ..state }
    } else {
        state
    }
}

/// The panel after the settle poll of one frame, if it is due.
pub open spec fn after_settle_poll(state: AvdPanelState, now_ms: u64) -> AvdPanelState {
    if state.settle_polls > 0 && poll_due(state.last_poll, now_ms, SETTLE_POLL_INTERVAL_MS) {
        AvdPanelState { settle_polls: (state.settle_polls - 1) as u32, last_poll: Some(now_ms), ..state }
    } else {
        state
    }
}

/// Whether the list is loaded automatically: it is empty, nothing loads,
/// no error shows, and the last automatic load is not recent.
pub open spec fn load_due(state: AvdPanelState, now_ms: u64) -> bool {
    &&& state.avds@.len() == 0
    &&& !state.loading
    &&& state.error is None
    &&& !(state.last_load_attempt matches Some(l) && !(now_ms >= l && now_ms - l >= AUTO_LOAD_RETRY_MS))
}

/// The commands of one frame's polls: a boot poll refreshes the devices and
/// the list, a settle poll the list, an automatic load the list.
pub open spec fn auto_commands(state: AvdPanelState, now_ms: u64) -> Seq<AvdCommand> {
    let boot = state.boot_polls > 0 && poll_due(state.last_poll, now_ms, BOOT_POLL_INTERVAL_MS);
    let mid = after_boot_poll(state, now_ms);
    let settle = mid.settle_polls > 0 && poll_due(mid.last_poll, now_ms, SETTLE_POLL_INTERVAL_MS);
    let late = after_settle_poll(mid, now_ms);
    (if boot {
        seq![AvdCommand::RefreshDevices, AvdCommand::ListAvds]
    } else {
        Seq::empty()
    }) + (if settle {
        seq![AvdCommand::ListAvds]
    } else {
        Seq::empty()
    }) + (if load_due(late, now_ms) {
        seq![AvdCommand::ListAvds]
    } else {
        Seq::empty()
    })
}

/// The panel after one frame's polls.
pub open spec fn after_auto(state: AvdPanelState, now_ms: u64) -> AvdPanelState {
    let late = after_settle_poll(after_boot_poll(state, now_ms), now_ms);
    if load_due(late, now_ms) {
        AvdPanelState { last_load_attempt: Some(now_ms), loading: true, ..late }
    } else {
        late
    }
}

/// Called each frame at `now_ms`: loads the list when the panel is first
/// shown, and keeps the device state fresh right after a launch or a stop.
pub fn auto(state: &mut AvdPanelState, now_ms: u64) -> (commands: Vec<AvdCommand>)
    ensures
        commands@ == auto_commands(*old(state), now_ms),
        *final(state) == after_auto(*old(state), now_ms),
{
    let mut commands: Vec<AvdCommand> = Vec::new();
    if state.boot_polls > 0 && due(state.last_poll, now_ms, BOOT_POLL_INTERVAL_MS) {
        state.boot_polls = state.boot_polls - 1;
        state.last_poll = Some(now_ms);
        commands.push(AvdCommand::RefreshDevices);
        commands.push(AvdCommand::ListAvds);
    }
    if state.settle_polls > 0 && due(state.last_poll, now_ms, SETTLE_POLL_INTERVAL_MS) {
        state.settle_polls = state.settle_polls - 1;
        state.last_poll = Some(now_ms);
        commands.push(AvdCommand::ListAvds);
    }
    let empty_and_idle = state.avds.len() == 0 && !state.loading && state.error.is_none();
    let recently_attempted = match state.last_load_attempt {
        Some(last) => !(now_ms >= last && now_ms - last >= AUTO_LOAD_RETRY_MS),
        None => false,
    };
    if empty_and_idle && !recently_attempted {
        state.last_load_attempt = Some(now_ms);
        state.loading = true;
        commands.push(AvdCommand::ListAvds);
    }
    assert(commands@ =~= auto_commands(*old(state), now_ms));
    commands
}

} // verus!
