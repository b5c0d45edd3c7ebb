//! The worker that listens to the compositor, and the one that floats a window
//! once it is there.

use vstd::prelude::*;
use vstd::string::*;

use crate::hyprland::client::{float_window_commands, selector};
use crate::hyprland::display::Monitor;
use crate::hyprland::events::{reports_change, refreshes_workspaces, IpcUpdate};
use crate::hyprland::jump_list::JumpListAction;
use crate::hyprland::types::{
    active_title, displayed, Workspace, WorkspaceSnapshot, WorkspaceWindow,
};
use crate::text::{owned, trim, trim_text};

verus! {

/// What the compositor says of the active window.
#[derive(Debug)]
pub struct ActiveWindow {
    pub address: Option<String>,
    pub title: String,
    pub icon: Option<String>,
    pub jump_list_actions: Vec<JumpListAction>,
}

/// What one refresh reports: the workspaces to show, and the active window, which
/// has a title unless that is blank.
pub fn workspace_snapshot(
    workspaces: Vec<Workspace>,
    active_id: i32,
    workspace_windows: Vec<WorkspaceWindow>,
    monitors: Vec<Monitor>,
    active: ActiveWindow,
) -> (r: WorkspaceSnapshot)
    ensures
        r.workspaces@ == displayed(workspaces@, active_id),
        r.workspace_windows == workspace_windows,
        r.monitors == monitors,
        r.active_window_address == active.address,
        r.active_window_title == if trim(active.title@).len() == 0 {
            None::<String>
        } else {
            Some(active.title)
        },
        r.active_window_icon == active.icon,
        r.jump_list_actions == active.jump_list_actions,
{
    WorkspaceSnapshot {
        workspaces: Workspace::display_set(workspaces, active_id),
        workspace_windows,
        monitors,
        active_window_address: active.address,
        active_window_title: active_title(active.title),
        active_window_icon: active.icon,
        jump_list_actions: active.jump_list_actions,
    }
}

/// How far the worker that listens to the compositor has come.
#[derive(Clone, Copy, Debug, PartialEq, Eq, Structural)]
pub enum WorkerState {
    /// It looks for the sockets.
    Starting,
    /// It waits for the first refresh.
    Connecting,
    /// It opens the socket of events.
    Opening,
    /// It listens to events.
    Listening,
    /// It waits for a refresh after an event.
    Refreshing,
    Stopped,
}

/// What the worker learns.
pub enum WorkerEvent {
    /// What it waited for is there.
    Ready,
    /// It failed.
    Failed(String),
    /// A refresh came.
    Refreshed(WorkspaceSnapshot),
    /// A line came.
    Line(String),
    /// No more lines come.
    Closed,
    /// Nobody takes reports any more.
    Deserted,
}

/// What the worker is to do.
pub enum WorkerStep {
    /// Ask for a refresh.
    Refresh,
    /// Report, and open the socket of events.
    ReportAndOpen(IpcUpdate),
    /// Read a line.
    Read,
    /// Report, and read a line.
    ReportAndRead(IpcUpdate),
    /// Report, and end.
    ReportAndStop(IpcUpdate),
    /// End.
    Stop,
}

/// What the worker becomes.
pub open spec fn worker_next(state: WorkerState, event: WorkerEvent) -> WorkerState {
    match (state, event) {
        (WorkerState::Starting, WorkerEvent::Ready) => WorkerState::Connecting,
        (WorkerState::Connecting, WorkerEvent::Refreshed(_)) => WorkerState::Opening,
        (WorkerState::Opening, WorkerEvent::Ready) => WorkerState::Listening,
        (WorkerState::Listening, WorkerEvent::Line(line)) => if reports_change(trim(line@)) {
            WorkerState::Refreshing
        } else {
            WorkerState::Listening
        },
        (WorkerState::Refreshing, WorkerEvent::Refreshed(_)) => WorkerState::Listening,
        _ => WorkerState::Stopped,
    }
}

/// Whether a step is the one that follows. Before the first refresh a failure
/// means that the compositor is not there; after it, that the worker has stopped.
pub open spec fn worker_does(state: WorkerState, event: WorkerEvent, r: WorkerStep) -> bool {
    match (state, event) {
        (WorkerState::Starting, WorkerEvent::Ready) => r is Refresh,
        (WorkerState::Starting, WorkerEvent::Failed(e)) => r == WorkerStep::ReportAndStop(
            IpcUpdate::Unavailable(e),
        ),
        (WorkerState::Connecting, WorkerEvent::Refreshed(s)) => r == WorkerStep::ReportAndOpen(
            IpcUpdate::Workspaces(s),
        ),
        (WorkerState::Connecting, WorkerEvent::Failed(e)) => r == WorkerStep::ReportAndStop(
            IpcUpdate::Unavailable(e),
        ),
        (WorkerState::Opening, WorkerEvent::Ready) => r is Read,
        (WorkerState::Listening, WorkerEvent::Line(line)) => if reports_change(trim(line@)) {
            r is Refresh
        } else {
            r is Read
        },
        (WorkerState::Listening, WorkerEvent::Closed) => r matches WorkerStep::ReportAndStop(
            IpcUpdate::WorkerStopped(e),
        ) && e@ == "Hyprland event socket closed"@,
        (WorkerState::Refreshing, WorkerEvent::Refreshed(s)) => r == WorkerStep::ReportAndRead(
            IpcUpdate::Workspaces(s),
        ),
        (WorkerState::Opening, WorkerEvent::Failed(e)) => r == WorkerStep::ReportAndStop(
            IpcUpdate::WorkerStopped(e),
        ),
        (WorkerState::Listening, WorkerEvent::Failed(e)) => r == WorkerStep::ReportAndStop(
            IpcUpdate::WorkerStopped(e),
        ),
        (WorkerState::Refreshing, WorkerEvent::Failed(e)) => r == WorkerStep::ReportAndStop(
            IpcUpdate::WorkerStopped(e),
        ),
        _ => r is Stop,
    }
}

impl WorkerState {
    /// What the worker does when it learns something.
    pub fn next(&mut self, event: WorkerEvent) -> (r: WorkerStep)
        ensures
            *final(self) == worker_next(*old(self), event),
            worker_does(*old(self), event, r),
    {
        match (*self, event) {
            (WorkerState::Starting, WorkerEvent::Ready) => {
                *self = WorkerState::Connecting;
                WorkerStep::Refresh
            },
            (WorkerState::Starting, WorkerEvent::Failed(error)) => {
                *self = WorkerState::Stopped;
                WorkerStep::ReportAndStop(IpcUpdate::Unavailable(error))
            },
            (WorkerState::Connecting, WorkerEvent::Refreshed(snapshot)) => {
                *self = WorkerState::Opening;
                WorkerStep::ReportAndOpen(IpcUpdate::Workspaces(snapshot))
            },
            (WorkerState::Connecting, WorkerEvent::Failed(error)) => {
                *self = WorkerState::Stopped;
                WorkerStep::ReportAndStop(IpcUpdate::Unavailable(error))
            },
            (WorkerState::Opening, WorkerEvent::Ready) => {
                *self = WorkerState::Listening;
                WorkerStep::Read
            },
            (WorkerState::Listening, WorkerEvent::Line(line)) => {
                if refreshes_workspaces(trim_text(line.as_str()).as_str()) {
                    *self = WorkerState::Refreshing;
                    WorkerStep::Refresh
                } else {
                    WorkerStep::Read
                }
            },
            (WorkerState::Listening, WorkerEvent::Closed) => {
                *self = WorkerState::Stopped;
                WorkerStep::ReportAndStop(
                    IpcUpdate::WorkerStopped(owned("Hyprland event socket closed")),
                )
            },
            (WorkerState::Refreshing, WorkerEvent::Refreshed(snapshot)) => {
                *self = WorkerState::Listening;
                WorkerStep::ReportAndRead(IpcUpdate::Workspaces(snapshot))
            },
            (WorkerState::Opening, WorkerEvent::Failed(error)) => {
                *self = WorkerState::Stopped;
                WorkerStep::ReportAndStop(IpcUpdate::WorkerStopped(error))
            },
            (WorkerState::Listening, WorkerEvent::Failed(error)) => {
                *self = WorkerState::Stopped;
                WorkerStep::ReportAndStop(IpcUpdate::WorkerStopped(error))
            },
            (WorkerState::Refreshing, WorkerEvent::Failed(error)) => {
                *self = WorkerState::Stopped;
                WorkerStep::ReportAndStop(IpcUpdate::WorkerStopped(error))
            },
            _ => {
                *self = WorkerState::Stopped;
                WorkerStep::Stop
            },
        }
    }
}

/// How often a window is looked for before it is given up.
pub const FLOAT_ATTEMPTS: u32 = 40;

/// How long to wait before a window is looked for again, in nanoseconds.
pub const FLOAT_INTERVAL: u64 = 50_000_000;

/// A search for a window that is to float.
#[derive(Clone, Copy, Debug, PartialEq, Eq, Structural)]
pub struct FloatSearch {
    pub tried: u32,
}

/// What follows a look for a window.
#[derive(Debug)]
pub enum FloatStep {
    /// Give these commands, one after the other.
    Dispatch(String, String, String),
    /// Wait, and look again.
    Wait,
    /// Wait, and give up.
    GiveUp,
    /// End for a failure.
    Fail(String),
}

impl FloatSearch {
    /// A search that has not begun.
    pub fn new() -> (r: Self)
        ensures
            r == (FloatSearch { tried: 0 }),
    {
        FloatSearch { tried: 0 }
    }

    /// What follows a look for the window: what was found is floated, a failure
    /// ends the search, and otherwise there are as many looks as are allowed.
    pub fn looked(&mut self, found: Result<Option<String>, String>) -> (r: FloatStep)
        requires
            old(self).tried < FLOAT_ATTEMPTS,
        ensures
            final(self).tried == old(self).tried + 1,
            match found {
                Ok(Some(address)) => {
                    &&& r matches FloatStep::Dispatch(float, resize, center)
                    &&& float@ == "hl.dsp.window.float({ action = \"set\", window = "@ + selector(
                        address@,
                    ) + " })"@
                    &&& resize@ == "hl.dsp.window.resize({ x = 900, y = 650, window = "@
                        + selector(address@) + " })"@
                    &&& center@ == "hl.dsp.window.center({ window = "@ + selector(address@)
                        + " })"@
                },
                Ok(None) => if final(self).tried == FLOAT_ATTEMPTS {
                    r is GiveUp
                } else {
                    r is Wait
                },
                Err(error) => r == FloatStep::Fail(error),
            },
    {
        self.tried = self.tried + 1;
        match found {
            Ok(Some(address)) => {
                let commands = float_window_commands(address.as_str());
                FloatStep::Dispatch(commands.0, commands.1, commands.2)
            },
            Ok(None) => {
                if self.tried == FLOAT_ATTEMPTS {
                    FloatStep::GiveUp
                } else {
                    FloatStep::Wait
                }
            },
            Err(error) => FloatStep::Fail(error),
        }
    }
}

/// Every snapshot that comes while one is waited for is reported, and the worker
/// goes on.
pub proof fn law_snapshots_are_reported(state: WorkerState, snapshot: WorkspaceSnapshot, r: WorkerStep)
    requires
        state is Connecting || state is Refreshing,
        worker_does(state, WorkerEvent::Refreshed(snapshot), r),
    ensures
        r matches WorkerStep::ReportAndOpen(u) ==> u == IpcUpdate::Workspaces(snapshot),
        r matches WorkerStep::ReportAndRead(u) ==> u == IpcUpdate::Workspaces(snapshot),
        r is ReportAndOpen || r is ReportAndRead,
        !(worker_next(state, WorkerEvent::Refreshed(snapshot)) is Stopped),
{
}

/// A failure stops the worker in every state, and is reported with its reason: as a
/// compositor that is not there before the first snapshot, and as a stopped worker
/// after it.
pub proof fn law_failures_are_reported(state: WorkerState, error: String, r: WorkerStep)
    requires
        !(state is Stopped),
        worker_does(state, WorkerEvent::Failed(error), r),
    ensures
        worker_next(state, WorkerEvent::Failed(error)) is Stopped,
        r == WorkerStep::ReportAndStop(
            if state is Starting || state is Connecting {
                IpcUpdate::Unavailable(error)
            } else {
                IpcUpdate::WorkerStopped(error)
            },
        ),
{
}

/// While it listens, the worker asks for a snapshot after each line that reports a
/// change and after no other, and stays there until the lines end.
pub proof fn law_lines_are_heard(line: String, r: WorkerStep)
    requires
        worker_does(WorkerState::Listening, WorkerEvent::Line(line), r),
    ensures
        r is Refresh <==> reports_change(trim(line@)),
        r is Read <==> !reports_change(trim(line@)),
        worker_next(WorkerState::Listening, WorkerEvent::Line(line)) is Refreshing <==> r is Refresh,
        worker_next(WorkerState::Listening, WorkerEvent::Line(line)) is Listening <==> r is Read,
{
}

/// A worker that has stopped does nothing more, and nobody is told once nobody
/// listens.
pub proof fn law_stopped_for_good(state: WorkerState, event: WorkerEvent, r: WorkerStep)
    requires
        worker_does(state, event, r),
    ensures
        state is Stopped || event is Deserted ==> r is Stop && worker_next(state, event) is Stopped,
        r is Stop || r is ReportAndStop <==> worker_next(state, event) is Stopped,
{
}

} // verus!
