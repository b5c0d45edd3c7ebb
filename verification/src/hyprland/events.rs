//! Events of the compositor.

use vstd::prelude::*;
use vstd::slice::slice_subrange;

use crate::hyprland::types::WorkspaceSnapshot;
use crate::text::{chars_of, occurs_at, same, string_of};

verus! {

/// What the worker that listens to the compositor reports.
pub enum IpcUpdate {
    Workspaces(WorkspaceSnapshot),
    Unavailable(String),
    WorkerStopped(String),
}

/// What precedes the first occurrence of a separator of two characters.
pub open spec fn event_name(line: Seq<char>) -> Option<Seq<char>> {
    if exists|i: int| occurs_at(line, seq!['>', '>'], i) {
        let i = choose|i: int|
            occurs_at(line, seq!['>', '>'], i) && forall|j: int|
                0 <= j < i ==> !occurs_at(line, seq!['>', '>'], j);
        Some(line.take(i))
    } else {
        None
    }
}

/// Whether an event changes workspaces or windows.
pub open spec fn changes_workspaces(event: Seq<char>) -> bool {
    ||| event == "workspace"@
    ||| event == "workspacev2"@
    ||| event == "focusedmon"@
    ||| event == "focusedmonv2"@
    ||| event == "createworkspace"@
    ||| event == "createworkspacev2"@
    ||| event == "destroyworkspace"@
    ||| event == "destroyworkspacev2"@
    ||| event == "renameworkspace"@
    ||| event == "activewindow"@
    ||| event == "activewindowv2"@
    ||| event == "openwindow"@
    ||| event == "closewindow"@
    ||| event == "movewindow"@
    ||| event == "movewindowv2"@
    ||| event == "changefloatingmode"@
    ||| event == "fullscreen"@
    ||| event == "windowtitle"@
    ||| event == "windowtitlev2"@
}

/// The name of the event that a line reports.
fn event_of(line: &str) -> (r: Option<String>)
    ensures
        crate::text::opt_view(r) == event_name(line@),
{
    let c = chars_of(line);
    let ghost sep = seq!['>', '>'];
    if c.len() < 2 {
        proof {
            assert forall|i: int| !occurs_at(line@, sep, i) by {}
        }
        return None;
    }
    let mut i: usize = 0;
    while i < c.len() - 1
        invariant
            i <= c.len() - 1,
            c.len() >= 2,
            c@ == line@,
            sep == seq!['>', '>'],
            forall|j: int| 0 <= j < i ==> !occurs_at(line@, sep, j),
        decreases c.len() - i,
    {
        proof {
            assert(line@.subrange(i as int, i + 2) =~= seq![line@[i as int], line@[i + 1]]);
        }
        if c[i] == '>' && c[i + 1] == '>' {
            proof {
                assert(occurs_at(line@, sep, i as int));
                let k = choose|k: int|
                    occurs_at(line@, sep, k) && forall|j: int|
                        0 <= j < k ==> !occurs_at(line@, sep, j);
                assert(k == i);
            }
            let name = slice_subrange(c.as_slice(), 0, i);
            proof {
                assert(name@ =~= line@.take(i as int));
            }
            return Some(string_of(name));
        }
        proof {
            if occurs_at(line@, sep, i as int) {
                assert(line@.subrange(i as int, i + 2)[0] == sep[0]);
                assert(line@.subrange(i as int, i + 2)[1] == sep[1]);
            }
        }
        i += 1;
    }
    proof {
        assert forall|j: int| !occurs_at(line@, sep, j) by {}
    }
    None
}

/// Whether a line reports an event that changes workspaces or windows.
pub open spec fn reports_change(line: Seq<char>) -> bool {
    match event_name(line) {
        Some(event) => changes_workspaces(event),
        None => false,
    }
}

/// Whether an event of the compositor makes the workspaces stale.
pub fn refreshes_workspaces(line: &str) -> (r: bool)
    ensures
        r == reports_change(line@),
{
    match event_of(line) {
        Some(event) => {
            let e = event.as_str();
            same(e, "workspace") || same(e, "workspacev2") || same(e, "focusedmon") || same(
                e,
                "focusedmonv2",
            ) || same(e, "createworkspace") || same(e, "createworkspacev2") || same(
                e,
                "destroyworkspace",
            ) || same(e, "destroyworkspacev2") || same(e, "renameworkspace") || same(
                e,
                "activewindow",
            ) || same(e, "activewindowv2") || same(e, "openwindow") || same(e, "closewindow")
                || same(e, "movewindow") || same(e, "movewindowv2") || same(e, "changefloatingmode")
                || same(e, "fullscreen") || same(e, "windowtitle") || same(e, "windowtitlev2")
        },
        None => false,
    }
}

/// The events that make the workspaces stale.
pub open spec fn refreshing_events() -> Seq<Seq<char>> {
    seq![
        "workspace"@,
        "workspacev2"@,
        "focusedmon"@,
        "focusedmonv2"@,
        "createworkspace"@,
        "createworkspacev2"@,
        "destroyworkspace"@,
        "destroyworkspacev2"@,
        "renameworkspace"@,
        "activewindow"@,
        "activewindowv2"@,
        "openwindow"@,
        "closewindow"@,
        "movewindow"@,
        "movewindowv2"@,
        "changefloatingmode"@,
        "fullscreen"@,
        "windowtitle"@,
        "windowtitlev2"@,
    ]
}

/// A line reports the event whose name stands before its first separator, whatever
/// follows it: it is one that makes the workspaces stale, or it is not.
pub proof fn law_reported_event(name: Seq<char>, rest: Seq<char>)
    requires
        !name.contains('>'),
    ensures
        event_name(name + seq!['>', '>'] + rest) == Some(name),
        reports_change(name + seq!['>', '>'] + rest) == refreshing_events().contains(name),
{
    let line = name + seq!['>', '>'] + rest;
    let sep = seq!['>', '>'];
    let n = name.len() as int;
    assert(line.subrange(n, n + 2) =~= sep);
    assert(occurs_at(line, sep, n));
    assert forall|j: int| 0 <= j < n implies !occurs_at(line, sep, j) by {
        if occurs_at(line, sep, j) {
            assert(line.subrange(j, j + 2)[0] == '>');
            assert(line[j] == name[j]);
        }
    }
    let k = choose|k: int|
        occurs_at(line, sep, k) && forall|j: int| 0 <= j < k ==> !occurs_at(line, sep, j);
    assert(k == n);
    assert(line.take(n) =~= name);
    let events = refreshing_events();
    if changes_workspaces(name) {
        assert(events[0] == "workspace"@);
        assert(events[1] == "workspacev2"@);
        assert(events[2] == "focusedmon"@);
        assert(events[3] == "focusedmonv2"@);
        assert(events[4] == "createworkspace"@);
        assert(events[5] == "createworkspacev2"@);
        assert(events[6] == "destroyworkspace"@);
        assert(events[7] == "destroyworkspacev2"@);
        assert(events[8] == "renameworkspace"@);
        assert(events[9] == "activewindow"@);
        assert(events[10] == "activewindowv2"@);
        assert(events[11] == "openwindow"@);
        assert(events[12] == "closewindow"@);
        assert(events[13] == "movewindow"@);
        assert(events[14] == "movewindowv2"@);
        assert(events[15] == "changefloatingmode"@);
        assert(events[16] == "fullscreen"@);
        assert(events[17] == "windowtitle"@);
        assert(events[18] == "windowtitlev2"@);
    }
}

/// A line without a separator reports nothing.
pub proof fn law_line_without_event(line: Seq<char>)
    requires
        forall|i: int| 0 <= i < line.len() - 1 ==> !(#[trigger] line[i] == '>' && line[i + 1] == '>'),
    ensures
        event_name(line) is None,
        !reports_change(line),
{
    assert forall|i: int| !occurs_at(line, seq!['>', '>'], i) by {
        if occurs_at(line, seq!['>', '>'], i) {
            assert(line.subrange(i, i + 2)[0] == '>');
            assert(line.subrange(i, i + 2)[1] == '>');
        }
    }
}

} // verus!
