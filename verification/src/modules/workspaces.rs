//! The workspaces in the bar: what the compositor reported last, and the way in
//! which the active one slides in.

use vstd::prelude::*;
use vstd::string::*;

use crate::hyprland::display::Monitor;
use crate::hyprland::jump_list::JumpListAction;
use crate::hyprland::types::{Workspace, WorkspaceSnapshot, WorkspaceWindow};
use crate::seqs::{
    find_first, lemma_filter_keeps, lemma_filter_members, lemma_filter_step, lemma_first_index,
};

verus! {

/// The workspaces in the bar.
pub struct Workspaces {
    pub snapshot: WorkspaceSnapshot,
    pub active_workspace_id: Option<i32>,
    /// How far to the side the active workspace starts when it slides in.
    pub slide_offset: i64,
    /// Tells one slide from the next.
    pub transition_id: u32,
}

/// The predicate that holds of active workspaces.
pub open spec fn is_active() -> spec_fn(Workspace) -> bool {
    |w: Workspace| w.active
}

/// The identifier of the first active workspace.
pub open spec fn active_id(s: Seq<Workspace>) -> Option<i32> {
    match find_first(s, is_active()) {
        Some(w) => Some(w.id),
        None => None,
    }
}

/// The identifier of the first active workspace.
pub fn active_workspace_id(workspaces: &Vec<Workspace>) -> (r: Option<i32>)
    ensures
        r == active_id(workspaces@),
{
    let ghost p = is_active();
    let mut i: usize = 0;
    while i < workspaces.len()
        invariant
            i <= workspaces.len(),
            p == is_active(),
            forall|j: int| 0 <= j < i ==> !p(#[trigger] workspaces@[j]),
        decreases workspaces.len() - i,
    {
        if workspaces[i].active {
            proof {
                lemma_first_index(workspaces@, p, i as nat);
            }
            return Some(workspaces[i].id);
        }
        i += 1;
    }
    proof {
        lemma_first_index(workspaces@, p, i as nat);
    }
    None
}

/// The workspaces after another report. Where another workspace became active it
/// slides in: one further to the right from the left, and the other way round.
pub open spec fn replaced(
    w: Workspaces,
    snapshot: WorkspaceSnapshot,
    slide_distance: u32,
) -> Workspaces {
    let next = active_id(snapshot.workspaces@);
    let plain = Workspaces { snapshot, active_workspace_id: next, ..w };
    match (w.active_workspace_id, next) {
        (Some(from), Some(to)) => if from == to {
            plain
        } else {
            Workspaces {
                slide_offset: if to > from {
                    -(slide_distance as int) as i64
                } else {
                    slide_distance as i64
                },
                transition_id: ((w.transition_id + 1) % 0x1_0000_0000) as u32,
                ..plain
            }
        },
        _ => plain,
    }
}

/// The workspaces at their first report.
pub open spec fn first_report(snapshot: WorkspaceSnapshot) -> Workspaces {
    Workspaces {
        snapshot,
        active_workspace_id: active_id(snapshot.workspaces@),
        slide_offset: 0,
        transition_id: 0,
    }
}

/// The predicate that holds of the windows of a workspace.
pub open spec fn on_workspace(id: i32) -> spec_fn(WorkspaceWindow) -> bool {
    |w: WorkspaceWindow| w.workspace.id == id
}

/// The predicate that holds of monitors in the focus.
pub open spec fn has_focus() -> spec_fn(Monitor) -> bool {
    |m: Monitor| m.focused
}

/// The name of the monitor in the focus.
pub open spec fn focused_name(s: Seq<Monitor>) -> Option<Seq<char>> {
    match find_first(s, has_focus()) {
        Some(m) => Some(m.name@),
        None => None,
    }
}

/// What the window switcher is opened with.
pub struct SwitcherSource {
    pub windows: Vec<WorkspaceWindow>,
    pub active_address: Option<String>,
    pub focused_monitor: Option<String>,
}

/// Copies of windows.
fn clone_windows(s: &Vec<WorkspaceWindow>) -> (r: Vec<WorkspaceWindow>)
    ensures
        r@ == s@,
{
    let mut out: Vec<WorkspaceWindow> = Vec::new();
    let mut i: usize = 0;
    while i < s.len()
        invariant
            i <= s.len(),
            out@ =~= s@.take(i as int),
        decreases s.len() - i,
    {
        out.push(s[i].clone());
        i += 1;
    }
    proof {
        assert(s@.take(i as int) =~= s@);
    }
    out
}

impl Workspaces {
    /// The workspaces at their first report: nothing slides.
    pub fn new(snapshot: WorkspaceSnapshot) -> (r: Self)
        ensures
            r == first_report(snapshot),
    {
        let active_workspace_id = active_workspace_id(&snapshot.workspaces);
        Workspaces { snapshot, active_workspace_id, slide_offset: 0, transition_id: 0 }
    }

    /// Takes over a report and tells whether another workspace is active now. A
    /// workspace further to the right slides in from the left, and the other way
    /// round; each such slide is a new one.
    pub fn replace(&mut self, snapshot: WorkspaceSnapshot, slide_distance: u32) -> (r: bool)
        ensures
            r == (old(self).active_workspace_id != active_id(snapshot.workspaces@)),
            *final(self) == replaced(*old(self), snapshot, slide_distance),
    {
        let next_active = active_workspace_id(&snapshot.workspaces);
        let mut changed = true;
        match (self.active_workspace_id, next_active) {
            (Some(previous), Some(next)) => {
                if previous != next {
                    self.slide_offset = if next > previous {
                        -(slide_distance as i64)
                    } else {
                        slide_distance as i64
                    };
                    self.transition_id = self.transition_id.wrapping_add(1);
                } else {
                    changed = false;
                }
            },
            (None, None) => {
                changed = false;
            },
            _ => {},
        }
        self.snapshot = snapshot;
        self.active_workspace_id = next_active;
        changed
    }

    /// The actions of the application in the focus.
    pub fn jump_list_actions(&self) -> (r: &Vec<JumpListAction>)
        ensures
            *r == self.snapshot.jump_list_actions,
    {
        &self.snapshot.jump_list_actions
    }

    /// The windows of a workspace, in their order.
    pub fn windows_for_workspace(&self, workspace_id: i32) -> (r: Vec<WorkspaceWindow>)
        ensures
            r@ == self.snapshot.workspace_windows@.filter(on_workspace(workspace_id)),
    {
        let windows = &self.snapshot.workspace_windows;
        let ghost s = windows@;
        let ghost p = on_workspace(workspace_id);
        let mut out: Vec<WorkspaceWindow> = Vec::new();
        let mut i: usize = 0;
        proof {
            assert(s.take(0).filter(p) =~= Seq::empty()) by {
                reveal(Seq::filter);
            }
        }
        while i < windows.len()
            invariant
                i <= windows.len(),
                s == windows@,
                p == on_workspace(workspace_id),
                out@ == s.take(i as int).filter(p),
            decreases windows.len() - i,
        {
            proof {
                lemma_filter_step(s, p, i as int);
            }
            if windows[i].workspace.id == workspace_id {
                out.push(windows[i].clone());
            }
            i += 1;
        }
        proof {
            assert(s.take(i as int) =~= s);
        }
        out
    }

    /// What the window switcher is opened with: the windows, the one in the
    /// focus, and the monitor in the focus.
    pub fn switcher_state(&self) -> (r: SwitcherSource)
        ensures
            r.windows@ == self.snapshot.workspace_windows@,
            r.active_address == self.snapshot.active_window_address,
            match r.focused_monitor {
                Some(name) => focused_name(self.snapshot.monitors@) == Some(name@),
                None => focused_name(self.snapshot.monitors@) is None,
            },
    {
        let monitors = &self.snapshot.monitors;
        let ghost p = has_focus();
        let mut focused_monitor: Option<String> = None;
        let mut i: usize = 0;
        while i < monitors.len() && !monitors[i].focused
            invariant
                i <= monitors.len(),
                p == has_focus(),
                forall|j: int| 0 <= j < i ==> !p(#[trigger] monitors@[j]),
            decreases monitors.len() - i,
        {
            i += 1;
        }
        proof {
            lemma_first_index(monitors@, p, i as nat);
        }
        if i < monitors.len() {
            focused_monitor = Some(monitors[i].name.clone());
        }
        SwitcherSource {
            windows: clone_windows(&self.snapshot.workspace_windows),
            active_address: self.snapshot.active_window_address.clone(),
            focused_monitor,
        }
    }
}

/// The active workspace is the first that is marked so.
pub proof fn law_first_active_workspace(s: Seq<Workspace>, at: int)
    requires
        0 <= at <= s.len(),
        forall|j: int| 0 <= j < at ==> !(#[trigger] s[j]).active,
        at < s.len() ==> s[at].active,
    ensures
        active_id(s) == if at < s.len() {
            Some(s[at].id)
        } else {
            None
        },
{
    lemma_first_index(s, is_active(), at as nat);
}

/// A report is taken over whole. A slide begins only where one active workspace
/// follows another: to the left for a greater one and to the right for a lesser one,
/// over the given distance, and with another number than the slide before it.
pub proof fn law_slide(w: Workspaces, snapshot: WorkspaceSnapshot, distance: u32)
    ensures
        ({
            let r = replaced(w, snapshot, distance);
            let now = active_id(snapshot.workspaces@);
            let before = w.active_workspace_id;
            &&& r.snapshot == snapshot
            &&& r.active_workspace_id == now
            &&& before is None || now is None || before == now ==> r.slide_offset == w.slide_offset
                && r.transition_id == w.transition_id
            &&& before is Some && now is Some && before != now ==> {
                &&& now->0 > before->0 ==> r.slide_offset == -distance
                &&& now->0 < before->0 ==> r.slide_offset == distance
                &&& r.transition_id != w.transition_id
                &&& w.transition_id < u32::MAX ==> r.transition_id == w.transition_id + 1
            }
        }),
{
}

/// At the first report nothing slides.
pub proof fn law_first_report(snapshot: WorkspaceSnapshot)
    ensures
        first_report(snapshot).snapshot == snapshot,
        first_report(snapshot).active_workspace_id == active_id(snapshot.workspaces@),
        first_report(snapshot).slide_offset == 0,
        first_report(snapshot).transition_id == 0,
{
}

/// The windows of a workspace are those that say so, all of them and no others.
pub proof fn law_windows_of_workspace(s: Seq<WorkspaceWindow>, id: i32, i: int)
    requires
        0 <= i < s.len(),
    ensures
        s.filter(on_workspace(id)).contains(s[i]) == (s[i].workspace.id == id),
        forall|k: int|
            0 <= k < s.filter(on_workspace(id)).len() ==> s.contains(
                #[trigger] s.filter(on_workspace(id))[k],
            ),
{
    lemma_filter_members(s, on_workspace(id));
    if s[i].workspace.id == id {
        lemma_filter_keeps(s, on_workspace(id), i);
    } else if s.filter(on_workspace(id)).contains(s[i]) {
        let f = s.filter(on_workspace(id));
        let k = choose|k: int| 0 <= k < f.len() && f[k] == s[i];
        assert(on_workspace(id)(f[k]));
    }
}

/// The monitor in the focus is the first that has it.
pub proof fn law_monitor_in_focus(s: Seq<Monitor>, at: int)
    requires
        0 <= at <= s.len(),
        forall|j: int| 0 <= j < at ==> !(#[trigger] s[j]).focused,
        at < s.len() ==> s[at].focused,
    ensures
        focused_name(s) == if at < s.len() {
            Some(s[at].name@)
        } else {
            None
        },
{
    lemma_first_index(s, has_focus(), at as nat);
}

} // verus!
