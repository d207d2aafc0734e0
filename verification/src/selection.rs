//! The device selection and what hangs off it: which device the panels work
//! against, the overview of the selected device, and the live panels that
//! refresh themselves while they are on screen.

use vstd::prelude::*;

use crate::applications::{ApplicationsCommand, ApplicationsPanelState};
use crate::avd::{after_auto, auto_commands, AvdCommand, AvdPanelState};
use crate::device::{duplicate_target, target_view, BridgeError, DeviceRecord, DeviceState, DeviceTarget};
use crate::layout::{auto_capture_due, LayoutCommand, LayoutPanelState};
use crate::logcat::{auto_start_due, LogcatCommand, LogcatPanelState};
use crate::overview::DeviceOverview;
use crate::performance::{PerformanceCommand, PerformancePanelState};
use crate::processes::{ProcessesCommand, ProcessesPanelState};
use crate::webview::{auto_refresh_due, Pending, WebviewCommand, WebviewPanelState};
use crate::window::Panel;

verus! {

/// The device list as adb last reported it, with the user's selection.
pub struct DeviceSnapshot {
    pub devices: Vec<DeviceRecord>,
    pub selected: Option<String>,
}

impl Default for DeviceSnapshot {
    /// No device known, none selected: nothing is picked implicitly.
    fn default() -> (snapshot: Self)
        ensures
            snapshot.devices@.len() == 0,
            snapshot.selected is None,
    {
        DeviceSnapshot { devices: Vec::new(), selected: None }
    }
}

/// An optional serial as a plain value.
pub open spec fn serial_view(serial: Option<String>) -> Option<Seq<char>> {
    match serial {
        Some(s) => Some(s@),
        None => None,
    }
}

/// The first device of the list with the given serial.
pub open spec fn find_serial(devices: Seq<DeviceRecord>, serial: Seq<char>) -> Option<DeviceRecord>
    decreases devices.len(),
{
    if devices.len() == 0 {
        None
    } else if devices[0].serial@ == serial {
        Some(devices[0])
    } else {
        find_serial(devices.drop_first(), serial)
    }
}

/// The selected device's record, when the selection names a listed device.
pub open spec fn selected_of(snapshot: DeviceSnapshot) -> Option<DeviceRecord> {
    match snapshot.selected {
        Some(s) => find_serial(snapshot.devices@, s@),
        None => None,
    }
}

/// The connection a record stands for.
pub open spec fn target_of(record: DeviceRecord) -> DeviceTarget {
    DeviceTarget { serial: record.serial, generation: record.generation }
}

/// The connection of the selected device, whatever its state.
pub open spec fn selected_target(snapshot: DeviceSnapshot) -> Option<DeviceTarget> {
    match selected_of(snapshot) {
        Some(r) => Some(target_of(r)),
        None => None,
    }
}

/// The connection of the selected device while it is online.
pub open spec fn online_target(snapshot: DeviceSnapshot) -> Option<DeviceTarget> {
    match selected_of(snapshot) {
        Some(r) => if r.state == DeviceState::Online {
            Some(target_of(r))
        } else {
            None
        },
        None => None,
    }
}

/// The first listed device with the given serial.
pub fn find_device<'a>(devices: &'a Vec<DeviceRecord>, serial: &String) -> (record: Option<&'a DeviceRecord>)
    ensures
        match record {
            Some(r) => find_serial(devices@, serial@) == Some(*r),
            None => find_serial(devices@, serial@) is None,
        },
{
    let len = devices.len();
    let mut i: usize = 0;
    assert(devices@.subrange(0, len as int) =~= devices@);
    while i < len
        invariant
            i <= len,
            len == devices@.len(),
            find_serial(devices@, serial@) == find_serial(devices@.subrange(i as int, len as int), serial@),
        decreases len - i,
    {
        let rest = Ghost(devices@.subrange(i as int, len as int));
        assert(rest@[0] == devices@[i as int]);
        if devices[i].serial == *serial {
            return Some(&devices[i]);
        }
        assert(rest@.drop_first() =~= devices@.subrange(i + 1, len as int));
        i = i + 1;
    }
    assert(devices@.subrange(len as int, len as int).len() == 0);
    None
}

impl DeviceSnapshot {
    /// The record of the selected device, if the selection is listed.
    pub fn selected_record(&self) -> (record: Option<&DeviceRecord>)
        ensures
            match record {
                Some(r) => selected_of(*self) == Some(*r),
                None => selected_of(*self) is None,
            },
    {
        match &self.selected {
            Some(s) => find_device(&self.devices, s),
            None => None,
        }
    }

    /// The selected device's connection while it is online.
    pub fn online_target(&self) -> (target: Option<DeviceTarget>)
        ensures
            target == online_target(*self),
    {
        match self.selected_record() {
            Some(record) => if record.state == DeviceState::Online {
                Some(record.target())
            } else {
                None
            },
            None => None,
        }
    }

    /// The selected device's connection, whatever its state.
    pub fn selected_target(&self) -> (target: Option<DeviceTarget>)
        ensures
            target == selected_target(*self),
    {
        match self.selected_record() {
            Some(record) => Some(record.target()),
            None => None,
        }
    }
}

/// How long a failed or empty application list waits before it is fetched
/// again, in milliseconds.
pub const APPLICATIONS_RETRY_MS: u64 = 5_000;

/// How often the process list refreshes while shown, in milliseconds.
pub const PROCESS_REFRESH_MS: u64 = 3_000;

/// How often the performance readings refresh while shown, in milliseconds.
pub const PERFORMANCE_REFRESH_MS: u64 = 1_000;

/// Requests for the backend that the workspace makes.
pub enum WorkspaceCommand {
    SelectDevice(Option<String>),
    RefreshDevices,
    LoadOverview(String),
    Applications(ApplicationsCommand),
    Processes(ProcessesCommand),
    Performance(PerformanceCommand),
    Logcat(LogcatCommand),
    Layout(LayoutCommand),
    Webview(WebviewCommand),
    Avd(AvdCommand),
}

/// Backend reports the workspace reacts to beyond what each panel handles.
pub enum WorkspaceEvent {
    DevicesChanged(DeviceSnapshot),
    OverviewLoading(String),
    OverviewLoaded(DeviceOverview),
    /// A panel request failed; the error is shown in the status line.
    PanelFailed(BridgeError),
    /// A device-level request failed.
    OperationFailed(BridgeError),
    /// The application list of the current device arrived.
    ApplicationsLoaded,
}

/// The selection, the overview of the selected device and the live panels.
pub struct Workspace {
    pub snapshot: DeviceSnapshot,
    pub overview: Option<DeviceOverview>,
    pub loading_overview: bool,
    pub last_error: Option<BridgeError>,
    /// Selects the first device once it is listed online, when nothing is
    /// selected yet (a start-up option for unattended runs).
    pub auto_select_requested: bool,
    /// Opens the details of the first application once the list arrives.
    pub auto_select_app: bool,
    pub applications: ApplicationsPanelState,
    pub processes: ProcessesPanelState,
    pub performance: PerformancePanelState,
    pub layout: LayoutPanelState,
    pub webview: WebviewPanelState,
    pub logcat: LogcatPanelState,
    pub avd: AvdPanelState,
    /// When each live list was last requested, in milliseconds.
    pub last_process_refresh: Option<u64>,
    pub last_performance_refresh: Option<u64>,
    pub last_application_load: Option<u64>,
}

/// Whether `interval` milliseconds have passed since `last` (or nothing was
/// requested yet).
pub open spec fn interval_due(last: Option<u64>, now_ms: u64, interval: u64) -> bool {
    match last {
        Some(l) => now_ms >= l && now_ms - l >= interval,
        None => true,
    }
}

fn interval_elapsed(last: Option<u64>, now_ms: u64, interval: u64) -> (due: bool)
    ensures
        due == interval_due(last, now_ms, interval),
{
    match last {
        Some(l) => now_ms >= l && now_ms - l >= interval,
        None => true,
    }
}

/// The logcat requests among workspace requests.
pub open spec fn logcat_commands(commands: Seq<WorkspaceCommand>) -> Seq<LogcatCommand> {
    commands.map_values(
        |c: WorkspaceCommand|
            match c {
                WorkspaceCommand::Logcat(l) => l,
                _ => LogcatCommand::Stop(0),
            },
    )
}

/// Every panel follows `target` (see each panel's `follows_target`), the
/// requests are the log stream's, and nothing else changes.
pub open spec fn followed_selection(
    before: Workspace,
    after: Workspace,
    target: Option<DeviceTarget>,
    commands: Seq<WorkspaceCommand>,
) -> bool {
    &&& crate::applications::follows_target(before.applications, after.applications, target)
    &&& crate::processes::follows_target(before.processes, after.processes, target)
    &&& crate::performance::follows_target(before.performance, after.performance, target)
    &&& crate::layout::follows_target(before.layout, after.layout, target)
    &&& crate::webview::follows_target(before.webview, after.webview, target)
    &&& crate::logcat::follows_target(before.logcat, after.logcat, target, logcat_commands(commands))
    &&& forall|i: int| 0 <= i < commands.len() ==> #[trigger] commands[i] is Logcat
    &&& after == (Workspace {
        applications: after.applications,
        processes: after.processes,
        performance: after.performance,
        layout: after.layout,
        webview: after.webview,
        logcat: after.logcat,
        ..before
    })
}

/// What one frame of the active panel does at `now_ms`: the live lists
/// refresh at their intervals for an online device, the log stream, layout
/// capture and WebView search start by themselves, the AVD manager polls.
pub open spec fn polled(
    before: Workspace,
    active: Panel,
    now_ms: u64,
    request_id: u64,
    after: Workspace,
    commands: Seq<WorkspaceCommand>,
) -> bool {
    let target = online_target(before.snapshot);
    let online = target is Some;
    match active {
        Panel::Applications => if online && !before.applications.loading
            && before.applications.applications@.len() == 0
            && interval_due(before.last_application_load, now_ms, APPLICATIONS_RETRY_MS) {
            &&& after == (Workspace { last_application_load: Some(now_ms), ..before })
            &&& commands.len() == 1
            &&& commands[0] == WorkspaceCommand::Applications(ApplicationsCommand::LoadApplications(target->0))
        } else {
            after == before && commands.len() == 0
        },
        Panel::Processes => if online && !before.processes.loading
            && interval_due(before.last_process_refresh, now_ms, PROCESS_REFRESH_MS) {
            &&& after == (Workspace { last_process_refresh: Some(now_ms), ..before })
            &&& commands.len() == 1
            &&& commands[0] == WorkspaceCommand::Processes(ProcessesCommand::LoadProcesses(target->0))
        } else {
            after == before && commands.len() == 0
        },
        Panel::Performance => if online && !before.performance.loading
            && interval_due(before.last_performance_refresh, now_ms, PERFORMANCE_REFRESH_MS) {
            &&& after == (Workspace { last_performance_refresh: Some(now_ms), ..before })
            &&& commands.len() == 1
            &&& commands[0] == WorkspaceCommand::Performance(PerformanceCommand::LoadPerformance(target->0))
        } else {
            after == before && commands.len() == 0
        },
        Panel::Logcat => if auto_start_due(before.logcat, online, now_ms) {
            &&& after == (Workspace {
                logcat: LogcatPanelState {
                    session: Some(request_id),
                    starting: true,
                    last_start_attempt: Some(now_ms),
                    ..before.logcat
                },
                ..before
            })
            &&& commands.len() == 1
            &&& commands[0] matches WorkspaceCommand::Logcat(LogcatCommand::Start { target: t, session_id })
                && session_id == request_id && Some(t@) == target_view(before.logcat.target)
        } else {
            after == before && commands.len() == 0
        },
        Panel::Layout => if auto_capture_due(before.layout, online, now_ms) {
            &&& after == (Workspace {
                layout: LayoutPanelState {
                    request: Some(request_id),
                    last_capture_attempt: Some(now_ms),
                    ..before.layout
                },
                ..before
            })
            &&& commands.len() == 1
            &&& commands[0] matches WorkspaceCommand::Layout(LayoutCommand::CaptureLayout { request_id: id, target: t })
                && id == request_id && t@ == before.layout.target->0@
        } else {
            after == before && commands.len() == 0
        },
        Panel::WebView => if auto_refresh_due(before.webview, online, now_ms) {
            &&& after == (Workspace {
                webview: WebviewPanelState {
                    pending: Pending::Sockets(request_id),
                    last_refresh: Some(now_ms),
                    ..before.webview
                },
                ..before
            })
            &&& commands.len() == 1
            &&& commands[0] matches WorkspaceCommand::Webview(WebviewCommand::ListWebviewSockets { request_id: id, target: t })
                && id == request_id && t@ == before.webview.target->0@
        } else {
            after == before && commands.len() == 0
        },
        Panel::Avd => {
            &&& after == (Workspace { avd: after_auto(before.avd, now_ms), ..before })
            &&& commands == auto_commands(before.avd, now_ms).map_values(|c: AvdCommand| WorkspaceCommand::Avd(c))
        },
        _ => after == before && commands.len() == 0,
    }
}

fn wrap_logcat(commands: Vec<LogcatCommand>) -> (wrapped: Vec<WorkspaceCommand>)
    ensures
        wrapped@ == commands@.map_values(|c: LogcatCommand| WorkspaceCommand::Logcat(c)),
{
    let ghost all = commands@;
    let mut rest = commands;
    let mut wrapped: Vec<WorkspaceCommand> = Vec::new();
    while rest.len() > 0
        invariant
            rest@.len() <= all.len(),
            rest@ == all.subrange(all.len() - rest@.len(), all.len() as int),
            wrapped@ == all.subrange(0, all.len() - rest@.len()).map_values(
                |c: LogcatCommand| WorkspaceCommand::Logcat(c),
            ),
        decreases rest@.len(),
    {
        let ghost done = all.len() - rest@.len();
        let command = rest.remove(0);
        wrapped.push(WorkspaceCommand::Logcat(command));
        assert(wrapped@ =~= all.subrange(0, done + 1).map_values(|c: LogcatCommand| WorkspaceCommand::Logcat(c)));
    }
    assert(all.subrange(0, all.len() as int) =~= all);
    wrapped
}

fn wrap_avd(commands: Vec<AvdCommand>) -> (wrapped: Vec<WorkspaceCommand>)
    ensures
        wrapped@ == commands@.map_values(|c: AvdCommand| WorkspaceCommand::Avd(c)),
{
    let ghost all = commands@;
    let mut rest = commands;
    let mut wrapped: Vec<WorkspaceCommand> = Vec::new();
    while rest.len() > 0
        invariant
            rest@.len() <= all.len(),
            rest@ == all.subrange(all.len() - rest@.len(), all.len() as int),
            wrapped@ == all.subrange(0, all.len() - rest@.len()).map_values(
                |c: AvdCommand| WorkspaceCommand::Avd(c),
            ),
        decreases rest@.len(),
    {
        let ghost done = all.len() - rest@.len();
        let command = rest.remove(0);
        wrapped.push(WorkspaceCommand::Avd(command));
        assert(wrapped@ =~= all.subrange(0, done + 1).map_values(|c: AvdCommand| WorkspaceCommand::Avd(c)));
    }
    assert(all.subrange(0, all.len() as int) =~= all);
    wrapped
}

/// Whether a new device list triggers the one-time automatic selection: it
/// is wanted, nothing is selected before or after, and the first listed
/// device is online.
pub open spec fn auto_select_due(before: Workspace, snapshot: DeviceSnapshot) -> bool {
    &&& before.auto_select_requested
    &&& before.snapshot.selected is None
    &&& snapshot.selected is None
    &&& snapshot.devices@.len() > 0
    &&& snapshot.devices@[0].state == DeviceState::Online
}

/// Whether the arrived application list opens its first entry's details.
pub open spec fn app_select_due(before: Workspace) -> bool {
    &&& before.auto_select_app
    &&& before.applications.target is Some
    &&& before.applications.applications@.len() > 0
}

/// What one backend report does to the workspace and which requests follow.
pub open spec fn handled(
    before: Workspace,
    event: WorkspaceEvent,
    request_id: u64,
    after: Workspace,
    commands: Seq<WorkspaceCommand>,
) -> bool {
    match event {
        WorkspaceEvent::DevicesChanged(snapshot) => {
            let overview = if serial_view(before.snapshot.selected) == serial_view(snapshot.selected) {
                before.overview
            } else {
                None
            };
            if auto_select_due(before, snapshot) {
                &&& after == (Workspace { snapshot, overview, auto_select_requested: false, ..before })
                &&& commands.len() == 1
                &&& commands[0] matches WorkspaceCommand::SelectDevice(Some(serial))
                    && serial@ == snapshot.devices@[0].serial@
            } else {
                followed_selection(
                    Workspace {
                        snapshot,
                        overview,
                        last_process_refresh: None,
                        last_performance_refresh: None,
                        last_application_load: None,
                        ..before
                    },
                    after,
                    selected_target(snapshot),
                    commands,
                )
            }
        },
        WorkspaceEvent::OverviewLoading(serial) => {
            &&& after == (Workspace {
                loading_overview: serial_view(before.snapshot.selected) == Some(serial@),
                ..before
            })
            &&& commands.len() == 0
        },
        WorkspaceEvent::OverviewLoaded(overview) => {
            &&& commands.len() == 0
            &&& if serial_view(before.snapshot.selected) == Some(overview.serial@) {
                after == (Workspace {
                    overview: Some(overview),
                    loading_overview: false,
                    last_error: None,
                    ..before
                })
            } else {
                after == before
            }
        },
        WorkspaceEvent::PanelFailed(error) => {
            &&& after == (Workspace { last_error: Some(error), ..before })
            &&& commands.len() == 0
        },
        WorkspaceEvent::OperationFailed(error) => {
            &&& after == (Workspace { loading_overview: false, last_error: Some(error), ..before })
            &&& commands.len() == 0
        },
        WorkspaceEvent::ApplicationsLoaded => if app_select_due(before) {
            let package = before.applications.applications@[0].package;
            &&& after == (Workspace {
                auto_select_app: false,
                applications: ApplicationsPanelState { selected: Some(package), ..before.applications },
                ..before
            })
            &&& commands.len() == 1
            &&& commands[0] matches WorkspaceCommand::Applications(
                ApplicationsCommand::LoadApplicationDetails { request_id: id, target: t, package: p },
            ) && id == request_id && t == before.applications.target->0 && p == package
        } else {
            after == before && commands.len() == 0
        },
    }
}

fn same_serial(a: &Option<String>, b: &Option<String>) -> (same: bool)
    ensures
        same == (serial_view(*a) == serial_view(*b)),
{
    match (a, b) {
        (Some(x), Some(y)) => *x == *y,
        (None, None) => true,
        _ => false,
    }
}

impl Workspace {
    /// A workspace with nothing listed or selected; `auto_select` asks for
    /// the first online device and its first application to be opened by
    /// themselves.
    pub fn new(auto_select: bool) -> (workspace: Self)
        ensures
            workspace.snapshot.devices@.len() == 0,
            workspace.snapshot.selected is None,
            workspace.overview is None,
            !workspace.loading_overview,
            workspace.last_error is None,
            workspace.auto_select_requested == auto_select,
            workspace.auto_select_app == auto_select,
            workspace.applications.target is None,
            workspace.processes.target is None,
            workspace.performance.target is None,
            workspace.layout.target is None,
            workspace.webview.target is None,
            workspace.logcat.target is None,
            workspace.last_process_refresh is None,
            workspace.last_performance_refresh is None,
            workspace.last_application_load is None,
    {
        Workspace {
            snapshot: DeviceSnapshot::default(),
            overview: None,
            loading_overview: false,
            last_error: None,
            auto_select_requested: auto_select,
            auto_select_app: auto_select,
            applications: ApplicationsPanelState::default(),
            processes: ProcessesPanelState::default(),
            performance: PerformancePanelState::default(),
            layout: LayoutPanelState::default(),
            webview: WebviewPanelState::default(),
            logcat: LogcatPanelState::default(),
            avd: AvdPanelState::default(),
            last_process_refresh: None,
            last_performance_refresh: None,
            last_application_load: None,
        }
    }

    /// The record of the selected device, if it is listed.
    pub fn selected_record(&self) -> (record: Option<&DeviceRecord>)
        ensures
            match record {
                Some(r) => selected_of(self.snapshot) == Some(*r),
                None => selected_of(self.snapshot) is None,
            },
    {
        self.snapshot.selected_record()
    }

    /// The Refresh button of the title bar: the device list is fetched again,
    /// and so is the overview of the selected device.
    pub fn refresh_devices(&self) -> (commands: Vec<WorkspaceCommand>)
        ensures
            commands@.len() >= 1,
            commands@[0] == WorkspaceCommand::RefreshDevices,
            match self.snapshot.selected {
                Some(s) => commands@.len() == 2 && commands@[1] == WorkspaceCommand::LoadOverview(s),
                None => commands@.len() == 1,
            },
    {
        let mut commands: Vec<WorkspaceCommand> = Vec::new();
        commands.push(WorkspaceCommand::RefreshDevices);
        if let Some(serial) = &self.snapshot.selected {
            commands.push(WorkspaceCommand::LoadOverview(serial.clone()));
        }
        commands
    }

    /// Applies one backend report (after the panels have seen it) and
    /// returns the requests that follow; `request_id` is fresh.
    pub fn handle_event(&mut self, event: WorkspaceEvent, request_id: u64) -> (commands: Vec<WorkspaceCommand>)
        ensures
            handled(*old(self), event, request_id, *final(self), commands@),
            final(self).auto_select_requested ==> old(self).auto_select_requested,
            final(self).auto_select_app ==> old(self).auto_select_app,
    {
        match event {
            WorkspaceEvent::DevicesChanged(snapshot) => {
                if !same_serial(&snapshot.selected, &self.snapshot.selected) {
                    self.overview = None;
                }
                let auto_select = self.auto_select_requested && self.snapshot.selected.is_none()
                    && snapshot.selected.is_none() && snapshot.devices.len() > 0
                    && snapshot.devices[0].state == DeviceState::Online;
                if auto_select {
                    let serial = snapshot.devices[0].serial.clone();
                    self.snapshot = snapshot;
                    self.auto_select_requested = false;
                    let mut commands: Vec<WorkspaceCommand> = Vec::new();
                    commands.push(WorkspaceCommand::SelectDevice(Some(serial)));
                    return commands;
                }
                self.snapshot = snapshot;
                self.last_process_refresh = None;
                self.last_performance_refresh = None;
                self.last_application_load = None;
                let target = self.snapshot.selected_target();
                self.follow_selection(target)
            },
            WorkspaceEvent::OverviewLoading(serial) => {
                self.loading_overview = same_serial(&self.snapshot.selected, &Some(serial));
                Vec::new()
            },
            WorkspaceEvent::OverviewLoaded(overview) => {
                if same_serial(&self.snapshot.selected, &Some(overview.serial.clone())) {
                    self.overview = Some(overview);
                    self.loading_overview = false;
                    self.last_error = None;
                }
                Vec::new()
            },
            WorkspaceEvent::PanelFailed(error) => {
                self.last_error = Some(error);
                Vec::new()
            },
            WorkspaceEvent::OperationFailed(error) => {
                self.loading_overview = false;
                self.last_error = Some(error);
                Vec::new()
            },
            WorkspaceEvent::ApplicationsLoaded => {
                let mut commands: Vec<WorkspaceCommand> = Vec::new();
                if !self.auto_select_app || self.applications.applications.len() == 0 {
                    return commands;
                }
                let target = match &self.applications.target {
                    Some(t) => t.duplicate(),
                    None => {
                        return commands;
                    },
                };
                let package = self.applications.applications[0].package.clone();
                self.auto_select_app = false;
                self.applications.selected = Some(package.clone());
                commands.push(
                    WorkspaceCommand::Applications(
                        ApplicationsCommand::LoadApplicationDetails { request_id, target, package },
                    ),
                );
                commands
            },
        }
    }

    /// Called each frame with the panel on screen: the panels follow the
    /// selected device while it is online, then the active panel refreshes
    /// itself (see `polled`). Afterwards every panel works against the
    /// online selected device, or none.
    pub fn refresh_live_panels(&mut self, active: Panel, now_ms: u64, request_id: u64) -> (commands: Vec<
        WorkspaceCommand,
    >)
        ensures
            exists|mid: Workspace, first: Seq<WorkspaceCommand>, rest: Seq<WorkspaceCommand>|
                {
                    &&& #[trigger] followed_selection(*old(self), mid, online_target(old(self).snapshot), first)
                    &&& #[trigger] polled(mid, active, now_ms, request_id, *final(self), rest)
                    &&& commands@ == first + rest
                },
            final(self).snapshot == old(self).snapshot,
            target_view(final(self).applications.target) == target_view(online_target(old(self).snapshot)),
            target_view(final(self).processes.target) == target_view(online_target(old(self).snapshot)),
            target_view(final(self).performance.target) == target_view(online_target(old(self).snapshot)),
            target_view(final(self).layout.target) == target_view(online_target(old(self).snapshot)),
            target_view(final(self).webview.target) == target_view(online_target(old(self).snapshot)),
            target_view(final(self).logcat.target) == target_view(online_target(old(self).snapshot)),
            active == Panel::Processes ==> if online_target(old(self).snapshot) is Some
                && !old(self).processes.loading && interval_due(
                old(self).last_process_refresh,
                now_ms,
                PROCESS_REFRESH_MS,
            ) {
                &&& final(self).last_process_refresh == Some(now_ms)
                &&& commands@.len() >= 1
                &&& commands@.last() == WorkspaceCommand::Processes(
                    ProcessesCommand::LoadProcesses(online_target(old(self).snapshot)->0),
                )
                &&& forall|i: int| 0 <= i < commands@.len() - 1 ==> #[trigger] commands@[i] is Logcat
            } else {
                &&& final(self).last_process_refresh == old(self).last_process_refresh
                &&& forall|i: int| 0 <= i < commands@.len() ==> #[trigger] commands@[i] is Logcat
            },
            active == Panel::Performance ==> if online_target(old(self).snapshot) is Some
                && !old(self).performance.loading && interval_due(
                old(self).last_performance_refresh,
                now_ms,
                PERFORMANCE_REFRESH_MS,
            ) {
                &&& final(self).last_performance_refresh == Some(now_ms)
                &&& commands@.len() >= 1
                &&& commands@.last() == WorkspaceCommand::Performance(
                    PerformanceCommand::LoadPerformance(online_target(old(self).snapshot)->0),
                )
                &&& forall|i: int| 0 <= i < commands@.len() - 1 ==> #[trigger] commands@[i] is Logcat
            } else {
                &&& final(self).last_performance_refresh == old(self).last_performance_refresh
                &&& forall|i: int| 0 <= i < commands@.len() ==> #[trigger] commands@[i] is Logcat
            },
            online_target(old(self).snapshot) is None && active != Panel::Avd ==> forall|i: int|
                0 <= i < commands@.len() ==> #[trigger] commands@[i] is Logcat,
    {
        let target = self.snapshot.online_target();
        let mut commands = self.follow_selection(target);
        let ghost mid = *self;
        let ghost first = commands@;
        let mut rest = self.poll_active_panel(active, now_ms, request_id);
        let ghost rest_view = rest@;
        commands.append(&mut rest);
        assert(followed_selection(*old(self), mid, online_target(old(self).snapshot), first)
            && polled(mid, active, now_ms, request_id, *self, rest_view) && commands@ == first + rest_view);
        commands
    }

    /// Makes every panel follow `target`: a different device resets them and
    /// takes the log stream down.
    pub fn follow_selection(&mut self, target: Option<DeviceTarget>) -> (commands: Vec<WorkspaceCommand>)
        ensures
            followed_selection(*old(self), *final(self), target, commands@),
    {
        self.applications.reset_for(duplicate_target(&target));
        self.processes.reset_for(duplicate_target(&target));
        let _ = self.performance.reset_for(duplicate_target(&target));
        self.layout.reset_for(duplicate_target(&target));
        self.webview.reset_for(duplicate_target(&target));
        let stream = self.logcat.reset_for(target);
        let ghost stream_view = stream@;
        let commands = wrap_logcat(stream);
        assert(logcat_commands(commands@) =~= stream_view);
        commands
    }

    /// One frame of the panel on screen (see `polled`).
    pub fn poll_active_panel(&mut self, active: Panel, now_ms: u64, request_id: u64) -> (commands: Vec<
        WorkspaceCommand,
    >)
        ensures
            polled(*old(self), active, now_ms, request_id, *final(self), commands@),
    {
        let target = self.snapshot.online_target();
        let online = target.is_some();
        let mut commands: Vec<WorkspaceCommand> = Vec::new();
        match active {
            Panel::Applications => {
                if let Some(t) = target {
                    if !self.applications.loading && self.applications.applications.len() == 0
                        && interval_elapsed(self.last_application_load, now_ms, APPLICATIONS_RETRY_MS) {
                        self.last_application_load = Some(now_ms);
                        commands.push(WorkspaceCommand::Applications(ApplicationsCommand::LoadApplications(t)));
                    }
                }
            },
            Panel::Processes => {
                if let Some(t) = target {
                    if !self.processes.loading && interval_elapsed(
                        self.last_process_refresh,
                        now_ms,
                        PROCESS_REFRESH_MS,
                    ) {
                        self.last_process_refresh = Some(now_ms);
                        commands.push(WorkspaceCommand::Processes(ProcessesCommand::LoadProcesses(t)));
                    }
                }
            },
            Panel::Performance => {
                if let Some(t) = target {
                    if !self.performance.loading && interval_elapsed(
                        self.last_performance_refresh,
                        now_ms,
                        PERFORMANCE_REFRESH_MS,
                    ) {
                        self.last_performance_refresh = Some(now_ms);
                        commands.push(WorkspaceCommand::Performance(PerformanceCommand::LoadPerformance(t)));
                    }
                }
            },
            Panel::Logcat => {
                let started = crate::logcat::auto_start(&mut self.logcat, online, now_ms, request_id);
                commands = wrap_logcat(started);
            },
            Panel::Layout => {
                if let Some(c) = crate::layout::auto_capture(&mut self.layout, online, now_ms, request_id) {
                    commands.push(WorkspaceCommand::Layout(c));
                }
            },
            Panel::WebView => {
                if let Some(c) = crate::webview::auto_refresh(&mut self.webview, online, now_ms, request_id) {
                    commands.push(WorkspaceCommand::Webview(c));
                }
            },
            Panel::Avd => {
                let polls = crate::avd::auto(&mut self.avd, now_ms);
                commands = wrap_avd(polls);
            },
            _ => {},
        }
        commands
    }
}

} // verus!
