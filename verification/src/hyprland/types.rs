//! Workspaces and windows as the compositor reports them.

use vstd::prelude::*;
use vstd::string::*;

use crate::hyprland::display::Monitor;
use crate::hyprland::jump_list::JumpListAction;
use crate::seqs::{first_index, lemma_filter_step, lemma_first_index, lemma_first_index_bounds};
use crate::text::{chars_of, trim, trim_chars};

verus! {

/// A workspace.
#[derive(Debug)]
pub struct Workspace {
    pub id: i32,
    pub name: String,
    pub monitor: Option<String>,
    pub windows: u32,
    pub active: bool,
    pub focused: bool,
    pub urgent: bool,
}

impl Clone for Workspace {
    fn clone(&self) -> (r: Self)
        ensures
            r == *self,
    {
        Workspace {
            id: self.id,
            name: self.name.clone(),
            monitor: self.monitor.clone(),
            windows: self.windows,
            active: self.active,
            focused: self.focused,
            urgent: self.urgent,
        }
    }
}

/// The workspace with the marks that follow from which one is active.
pub open spec fn marked(w: Workspace, active_id: i32) -> Workspace {
    Workspace { active: w.id == active_id, focused: w.id == active_id, ..w }
}

/// The predicate that holds of workspaces that are shown: those with windows,
/// and the active one.
pub open spec fn shown() -> spec_fn(Workspace) -> bool {
    |w: Workspace| w.windows > 0 || w.active
}

/// The predicate that holds of workspaces with a greater identifier.
pub open spec fn above(id: i32) -> spec_fn(Workspace) -> bool {
    |w: Workspace| w.id > id
}

/// The workspaces ordered by identifier, those of one identifier in their order.
pub open spec fn by_id(s: Seq<Workspace>) -> Seq<Workspace>
    decreases s.len(),
{
    if s.len() == 0 {
        s
    } else {
        let t = by_id(s.drop_last());
        t.insert(first_index(t, above(s.last().id)) as int, s.last())
    }
}

/// The workspaces that are shown, marked and in their order.
pub open spec fn displayed(s: Seq<Workspace>, active_id: i32) -> Seq<Workspace> {
    by_id(s.map_values(|w: Workspace| marked(w, active_id)).filter(shown()))
}

impl Workspace {
    /// The workspaces that are shown: those with windows, and the active one
    /// even without any, ordered by identifier.
    pub fn display_set(workspaces: Vec<Self>, active_id: i32) -> (r: Vec<Self>)
        ensures
            r@ == displayed(workspaces@, active_id),
    {
        let ghost all = workspaces@.map_values(|w: Workspace| marked(w, active_id));
        let ghost p = shown();
        let mut out: Vec<Workspace> = Vec::new();
        let mut i: usize = 0;
        proof {
            assert(all.take(0).filter(p) =~= Seq::empty()) by {
                reveal(Seq::filter);
            }
        }
        while i < workspaces.len()
            invariant
                i <= workspaces.len(),
                all == workspaces@.map_values(|w: Workspace| marked(w, active_id)),
                p == shown(),
                out@ == by_id(all.take(i as int).filter(p)),
            decreases workspaces.len() - i,
        {
            let ghost f = all.take(i as int).filter(p);
            let mut workspace = workspaces[i].clone();
            workspace.active = active_id == workspace.id;
            workspace.focused = workspace.active;
            proof {
                assert(workspace == all[i as int]);
                lemma_filter_step(all, p, i as int);
                assert(f.push(workspace).drop_last() =~= f);
            }
            if workspace.windows > 0 || workspace.active {
                let ghost q = above(workspace.id);
                let mut k: usize = 0;
                while k < out.len() && !(out[k].id > workspace.id)
                    invariant
                        k <= out.len(),
                        q == above(workspace.id),
                        forall|j: int| 0 <= j < k ==> !q(#[trigger] out@[j]),
                    decreases out.len() - k,
                {
                    k += 1;
                }
                proof {
                    lemma_first_index(out@, q, k as nat);
                }
                out.insert(k, workspace);
            }
            i += 1;
        }
        proof {
            assert(all.take(i as int) =~= all);
        }
        out
    }
}

/// The workspace of a window.
#[derive(Clone, Copy, Debug)]
pub struct WindowWorkspace {
    pub id: i32,
}

/// A window.
#[derive(Debug)]
pub struct WorkspaceWindow {
    pub address: String,
    pub app_id: String,
    pub initial_app_id: String,
    pub title: String,
    pub initial_title: String,
    pub mapped: bool,
    pub hidden: bool,
    pub pinned: bool,
    pub focus_history_id: i64,
    pub workspace: WindowWorkspace,
    pub display_name: String,
    pub icon: Option<String>,
}

impl Clone for WorkspaceWindow {
    fn clone(&self) -> (r: Self)
        ensures
            r == *self,
    {
        WorkspaceWindow {
            address: self.address.clone(),
            app_id: self.app_id.clone(),
            initial_app_id: self.initial_app_id.clone(),
            title: self.title.clone(),
            initial_title: self.initial_title.clone(),
            mapped: self.mapped,
            hidden: self.hidden,
            pinned: self.pinned,
            focus_history_id: self.focus_history_id,
            workspace: self.workspace,
            display_name: self.display_name.clone(),
            icon: self.icon.clone(),
        }
    }
}

/// Whether a window is offered by the switcher: a visible window of an ordinary
/// workspace that is not on all of them.
pub open spec fn switchable(w: WorkspaceWindow) -> bool {
    w.mapped && !w.hidden && !w.pinned && 1 <= w.workspace.id <= 100
}

impl WorkspaceWindow {
    /// The name of the application.
    pub fn app_name(&self) -> (r: &str)
        ensures
            r@ == self.display_name@,
    {
        self.display_name.as_str()
    }

    /// Whether the window is offered by the switcher.
    pub fn is_switcher_candidate(&self) -> (r: bool)
        ensures
            r == switchable(*self),
    {
        self.mapped && !self.hidden && !self.pinned && 1 <= self.workspace.id && self.workspace.id
            <= 100
    }

    /// The title, or the first one where the title is blank.
    pub fn title_or_initial(&self) -> (r: &str)
        ensures
            r@ == if trim(self.title@).len() == 0 {
                self.initial_title@
            } else {
                self.title@
            },
    {
        let c = chars_of(self.title.as_str());
        if trim_chars(c.as_slice()).len() == 0 {
            self.initial_title.as_str()
        } else {
            self.title.as_str()
        }
    }
}

/// What one refresh reports.
pub struct WorkspaceSnapshot {
    pub workspaces: Vec<Workspace>,
    pub workspace_windows: Vec<WorkspaceWindow>,
    pub monitors: Vec<Monitor>,
    pub active_window_address: Option<String>,
    pub active_window_title: Option<String>,
    pub active_window_icon: Option<String>,
    pub jump_list_actions: Vec<JumpListAction>,
}

/// The title of the active window, unless it is blank.
pub fn active_title(title: String) -> (r: Option<String>)
    ensures
        r == if trim(title@).len() == 0 {
            None::<String>
        } else {
            Some(title)
        },
{
    let c = chars_of(title.as_str());
    if trim_chars(c.as_slice()).len() == 0 {
        None
    } else {
        Some(title)
    }
}

/// The workspaces in order are the same workspaces, by ascending identifier.
pub proof fn law_by_id(s: Seq<Workspace>)
    ensures
        by_id(s).to_multiset() == s.to_multiset(),
        forall|i: int, j: int|
            0 <= i < j < by_id(s).len() ==> (#[trigger] by_id(s)[i]).id <= (#[trigger] by_id(
                s,
            )[j]).id,
    decreases s.len(),
{
    broadcast use vstd::seq_lib::group_to_multiset_ensures;

    if s.len() > 0 {
        let rest = s.drop_last();
        let w = s.last();
        law_by_id(rest);
        let t = by_id(rest);
        let p = above(w.id);
        let k = first_index(t, p) as int;
        lemma_first_index_bounds(t, p);
        let r = by_id(s);
        assert(s =~= rest.push(w));
        assert(rest.push(w).to_multiset() =~= rest.to_multiset().insert(w));
        assert(t.insert(k, w).to_multiset() =~= t.to_multiset().insert(w));
        assert forall|i: int, j: int| 0 <= i < j < r.len() implies (#[trigger] r[i]).id <= (
        #[trigger] r[j]).id by {
            if j == k {
                assert(!p(t[i]));
            } else if i == k {
                assert(p(t[k]));
                if j - 1 > k {
                    assert(t[k].id <= t[j - 1].id);
                }
            }
        }
    }
}

/// A workspace is displayed exactly when it holds windows or is the active one,
/// and the active one alone is marked.
pub proof fn law_displayed(s: Seq<Workspace>, active_id: i32)
    ensures
        forall|i: int|
            0 <= i < displayed(s, active_id).len() ==> {
                let w = #[trigger] displayed(s, active_id)[i];
                &&& w.windows > 0 || w.id == active_id
                &&& w.active == (w.id == active_id)
                &&& w.focused == w.active
            },
        forall|i: int|
            0 <= i < s.len() && (s[i].windows > 0 || s[i].id == active_id) ==> displayed(
                s,
                active_id,
            ).contains(marked(#[trigger] s[i], active_id)),
{
    broadcast use vstd::seq_lib::group_to_multiset_ensures;

    let all = s.map_values(|w: Workspace| marked(w, active_id));
    let f = all.filter(shown());
    let d = displayed(s, active_id);
    law_by_id(f);
    crate::seqs::lemma_filter_members(all, shown());
    assert forall|i: int| 0 <= i < d.len() implies {
        let w = #[trigger] d[i];
        &&& w.windows > 0 || w.id == active_id
        &&& w.active == (w.id == active_id)
        &&& w.focused == w.active
    } by {
        assert(d.contains(d[i]));
        assert(d.to_multiset().count(d[i]) > 0);
        assert(f.contains(d[i]));
        let k = choose|k: int| 0 <= k < f.len() && f[k] == d[i];
        assert(all.contains(f[k]));
        let m = choose|m: int| 0 <= m < all.len() && all[m] == f[k];
        assert(all[m] == marked(s[m], active_id));
    }
    assert forall|i: int|
        0 <= i < s.len() && (s[i].windows > 0 || s[i].id == active_id) implies d.contains(
        marked(#[trigger] s[i], active_id),
    ) by {
        assert(all[i] == marked(s[i], active_id));
        crate::seqs::lemma_filter_keeps(all, shown(), i);
        assert(f.to_multiset().count(all[i]) > 0);
        assert(d.to_multiset().count(all[i]) > 0);
    }
}

/// Marking a workspace changes nothing of it but its marks.
pub proof fn law_marked(w: Workspace, active_id: i32)
    ensures
        marked(w, active_id).active == (w.id == active_id),
        marked(w, active_id).focused == (w.id == active_id),
        marked(w, active_id) == (Workspace {
            active: marked(w, active_id).active,
            focused: marked(w, active_id).focused,
            ..w
        }),
{
}

/// No workspace is displayed but the given ones, each no more often than it is given.
pub proof fn law_displayed_are_given(s: Seq<Workspace>, active_id: i32, i: int)
    requires
        0 <= i < displayed(s, active_id).len(),
    ensures
        displayed(s, active_id).len() <= s.len(),
        exists|k: int|
            0 <= k < s.len() && (#[trigger] s[k]).id == displayed(s, active_id)[i].id && s[k].name
                == displayed(s, active_id)[i].name && s[k].windows == displayed(
                s,
                active_id,
            )[i].windows,
        forall|j: int|
            i < j < displayed(s, active_id).len() ==> displayed(s, active_id)[i].id <= (
            #[trigger] displayed(s, active_id)[j]).id,
{
    broadcast use vstd::seq_lib::group_to_multiset_ensures;

    let all = s.map_values(|w: Workspace| marked(w, active_id));
    let f = all.filter(shown());
    let d = displayed(s, active_id);
    law_by_id(f);
    crate::seqs::lemma_filter_members(all, shown());
    assert(d.len() == d.to_multiset().len());
    assert(f.len() == f.to_multiset().len());
    lemma_filter_len(all, shown());
    assert(d.contains(d[i]));
    assert(d.to_multiset().count(d[i]) > 0);
    assert(f.contains(d[i]));
    let k = choose|k: int| 0 <= k < f.len() && f[k] == d[i];
    assert(all.contains(f[k]));
    let m = choose|m: int| 0 <= m < all.len() && all[m] == f[k];
    assert(all[m] == marked(s[m], active_id));
    assert(s[m].id == d[i].id);
}

proof fn lemma_filter_len(s: Seq<Workspace>, p: spec_fn(Workspace) -> bool)
    ensures
        s.filter(p).len() <= s.len(),
    decreases s.len(),
{
    reveal(Seq::filter);
    if s.len() > 0 {
        lemma_filter_len(s.drop_last(), p);
    }
}

/// The switcher offers no window that is hidden, not there, on all workspaces or on
/// a workspace that is not an ordinary one, and every other window.
pub proof fn law_switchable(w: WorkspaceWindow)
    ensures
        w.hidden || !w.mapped || w.pinned ==> !switchable(w),
        w.workspace.id < 1 || w.workspace.id > 100 ==> !switchable(w),
        w.mapped && !w.hidden && !w.pinned && 0 < w.workspace.id < 101 ==> switchable(w),
{
}

} // verus!
