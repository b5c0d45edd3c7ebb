//! What holds of the notification store whatever happens to it.

use vstd::prelude::*;

use crate::modules::notification_store::{
    after_event, all_retained, arrived, ascending, by_urgency, chosen_action, cleared_of,
    closed_all, closed_state, closing, dismissed_state, distinct, due, eligible, expired_state, holds_id,
    lemma_by_urgency_len, more_urgent, not_below, one_more, popping, presented, promoted, put,
    removed_state, repeated_by, retained, revived, settled, sound, stacked_with, taken,
    timed_out, upserted, urgent, with_id, without_first, without_id, StoreView,
};
use crate::modules::notifications::{ActionView, NotificationEvent, NotificationView, Urgency};
use crate::seqs::{
    first_index, lemma_filter_all, lemma_filter_keeps, lemma_filter_members, lemma_filter_none,
    lemma_first_index, lemma_first_index_bounds,
};

verus! {

/// Whether as many notifications are displayed as there are places at most.
pub open spec fn within_places(v: StoreView) -> bool {
    v.displayed.len() <= v.limit
}

/// Whether the history is no longer than it may be.
pub open spec fn within_length(v: StoreView) -> bool {
    v.history.len() <= v.history_length
}

/// Whether a step keeps each of the two limits that held before it, whether or
/// not the other one did.
pub open spec fn keeps_limits(v: StoreView, w: StoreView) -> bool {
    &&& within_places(v) ==> within_places(w)
    &&& within_length(v) ==> within_length(w)
}

/// What holds of the store between any two operations, as long as its settings
/// stay: displayed identifiers ascend and keep to the limit, the history keeps to
/// its length and holds no identifier twice, and nothing waits that could be
/// displayed.
pub open spec fn consistent(v: StoreView) -> bool {
    sound(v) && within_places(v) && within_length(v)
}

/// Whether two states have the same limits and pause level.
pub open spec fn same_limits(v: StoreView, w: StoreView) -> bool {
    v.limit == w.limit && v.history_length == w.history_length && v.pause_level == w.pause_level
}

/// Putting a notification keeps the order and takes at most one place more.
proof fn lemma_put(s: Seq<NotificationView>, n: NotificationView)
    requires
        ascending(s),
    ensures
        ascending(put(s, n)),
        put(s, n).len() <= s.len() + 1,
        put(s, n).contains(n),
{
    let p = not_below(n.id);
    let i = first_index(s, p);
    lemma_first_index_bounds(s, p);
    let t = put(s, n);
    assert(t[i as int] == n);
    assert forall|a: int, b: int| 0 <= a < b < t.len() implies t[a].id < t[b].id by {
        if i < s.len() && s[i as int].id == n.id {
            assert(t[a].id == s[a].id);
            assert(t[b].id == s[b].id);
        } else {
            if a < i {
                assert(!p(s[a]));
            }
            if a < i && b > i {
                assert(s[a].id < s[b - 1].id);
            }
            if a == i {
                assert(p(s[i as int]));
                if b - 1 > i {
                    assert(s[i as int].id < s[b - 1].id);
                }
            }
        }
    }
}

/// Moving up keeps the order and the limit, leaves the history alone, and
/// leaves nothing waiting that could be displayed.
pub(crate) proof fn lemma_promoted(v: StoreView)
    requires
        ascending(v.displayed),
    ensures
        ascending(promoted(v).displayed),
        v.displayed.len() <= v.limit ==> promoted(v).displayed.len() <= v.limit,
        promoted(v).history == v.history,
        same_limits(promoted(v), v),
        settled(promoted(v)),
    decreases v.waiting.len(),
{
    let p = eligible(v.pause_level);
    let i = first_index(v.waiting, p);
    lemma_first_index_bounds(v.waiting, p);
    if v.displayed.len() < v.limit && i < v.waiting.len() {
        lemma_put(v.displayed, v.waiting[i as int]);
        lemma_promoted(
            StoreView {
                displayed: put(v.displayed, v.waiting[i as int]),
                waiting: v.waiting.remove(i as int),
                ..v
            },
        );
    }
}

/// Retaining keeps the length and leaves no identifier twice.
proof fn lemma_retained(h: Seq<NotificationView>, n: NotificationView, length: nat)
    requires
        distinct(h),
    ensures
        h.len() <= length ==> retained(h, n, length).len() <= length,
        distinct(retained(h, n, length)),
{
    if !n.history_ignore && length > 0 {
        let p = without_id(n.id);
        let f = h.filter(p);
        lemma_filter_members(h, p);
        lemma_filter_distinct(h, p);
        let all = seq![n] + f;
        assert forall|i: int, j: int| 0 <= i < j < all.len() implies all[i].id != all[j].id by {
            assert(all[j] == f[j - 1]);
            assert(p(f[j - 1]));
            if i > 0 {
                assert(all[i] == f[i - 1]);
            }
        }
    }
}

/// Filtering leaves no identifier twice where there was none.
proof fn lemma_filter_distinct(h: Seq<NotificationView>, p: spec_fn(NotificationView) -> bool)
    requires
        distinct(h),
    ensures
        distinct(h.filter(p)),
    decreases h.len(),
{
    reveal(Seq::filter);
    if h.len() > 0 {
        let t = h.drop_last();
        assert(distinct(t));
        lemma_filter_distinct(t, p);
        lemma_filter_members(t, p);
        let f = h.filter(p);
        assert forall|i: int, j: int| 0 <= i < j < f.len() implies f[i].id != f[j].id by {
            if j == t.filter(p).len() {
                assert(t.contains(t.filter(p)[i]));
                let k = choose|k: int| 0 <= k < t.len() && t[k] == t.filter(p)[i];
                assert(h[k].id != h[h.len() - 1].id);
            }
        }
    }
}

/// Filtering keeps the order.
proof fn lemma_filter_ascending(s: Seq<NotificationView>, p: spec_fn(NotificationView) -> bool)
    requires
        ascending(s),
    ensures
        ascending(s.filter(p)),
    decreases s.len(),
{
    reveal(Seq::filter);
    if s.len() > 0 {
        let t = s.drop_last();
        assert(ascending(t));
        lemma_filter_ascending(t, p);
        lemma_filter_members(t, p);
        let f = s.filter(p);
        assert forall|i: int, j: int| 0 <= i < j < f.len() implies f[i].id < f[j].id by {
            if j == t.filter(p).len() {
                assert(t.contains(t.filter(p)[i]));
                let k = choose|k: int| 0 <= k < t.len() && t[k] == t.filter(p)[i];
                assert(s[k].id < s[s.len() - 1].id);
            }
        }
    }
}

/// Removing an element leaves no identifier twice where there was none.
proof fn lemma_remove_distinct(s: Seq<NotificationView>, i: int)
    requires
        distinct(s),
        0 <= i < s.len(),
    ensures
        distinct(s.remove(i)),
{
    let t = s.remove(i);
    assert forall|a: int, b: int| 0 <= a < b < t.len() implies t[a].id != t[b].id by {
        let a0 = if a < i {
            a
        } else {
            a + 1
        };
        let b0 = if b < i {
            b
        } else {
            b + 1
        };
        assert(s[a0].id != s[b0].id);
    }
}

/// Removing an element keeps the order.
proof fn lemma_remove_ascending(s: Seq<NotificationView>, i: int)
    requires
        ascending(s),
        0 <= i < s.len(),
    ensures
        ascending(s.remove(i)),
{
    let t = s.remove(i);
    assert forall|a: int, b: int| 0 <= a < b < t.len() implies t[a].id < t[b].id by {
        let a0 = if a < i {
            a
        } else {
            a + 1
        };
        let b0 = if b < i {
            b
        } else {
            b + 1
        };
        assert(s[a0].id < s[b0].id);
    }
}

/// Closing keeps the store sound and within its limits.
pub(crate) proof fn lemma_closed(v: StoreView, id: u32)
    requires
        sound(v),
    ensures
        sound(closed_state(v, id)),
        keeps_limits(v, closed_state(v, id)),
        same_limits(closed_state(v, id), v),
{
    let i = first_index(v.displayed, with_id(id));
    lemma_first_index_bounds(v.displayed, with_id(id));
    lemma_first_index_bounds(v.waiting, with_id(id));
    match closing(v, id) {
        Some(n) => {
            lemma_retained(v.history, n, v.history_length);
            if i < v.displayed.len() {
                lemma_remove_ascending(v.displayed, i as int);
            }
            lemma_promoted(
                StoreView { history: retained(v.history, n, v.history_length), ..taken(v, id) },
            );
        },
        None => {},
    }
}

/// Closing keeps the store sound and each limit that it kept to, and so keeps it
/// consistent.
pub proof fn law_close_keeps_consistent(v: StoreView, id: u32)
    requires
        sound(v),
    ensures
        sound(closed_state(v, id)),
        keeps_limits(v, closed_state(v, id)),
        consistent(v) ==> consistent(closed_state(v, id)),
        closed_state(v, id).limit == v.limit,
        closed_state(v, id).history_length == v.history_length,
        closed_state(v, id).pause_level == v.pause_level,
{
    lemma_closed(v, id);
}

/// Closing several keeps the store sound and within its limits.
proof fn lemma_closed_all(v: StoreView, ids: Seq<u32>)
    requires
        sound(v),
    ensures
        sound(closed_all(v, ids)),
        keeps_limits(v, closed_all(v, ids)),
        same_limits(closed_all(v, ids), v),
    decreases ids.len(),
{
    if ids.len() > 0 {
        lemma_closed_all(v, ids.drop_last());
        lemma_closed(closed_all(v, ids.drop_last()), ids.last());
    }
}

/// Closing what is due keeps the store sound and within its limits.
pub(crate) proof fn lemma_expired(v: StoreView, now: u64)
    requires
        sound(v),
    ensures
        sound(expired_state(v, now)),
        keeps_limits(v, expired_state(v, now)),
        same_limits(expired_state(v, now), v),
{
    lemma_closed_all(v, due(v, now));
}

/// What is due is closed in the order of the identifiers.
pub(crate) proof fn lemma_due_ascends(v: StoreView, now: u64)
    requires
        ascending(v.displayed),
    ensures
        forall|i: int, j: int| 0 <= i < j < due(v, now).len() ==> due(v, now)[i] < due(v, now)[j],
{
    lemma_filter_ascending(v.displayed, timed_out(now));
    let f = v.displayed.filter(timed_out(now));
    assert forall|i: int, j: int| 0 <= i < j < due(v, now).len() implies due(v, now)[i] < due(
        v,
        now,
    )[j] by {
        assert(f[i].id < f[j].id);
    }
}

/// Replacing a displayed notification by one with its identifier keeps the order.
proof fn lemma_update_ascending(s: Seq<NotificationView>, i: int, n: NotificationView)
    requires
        ascending(s),
        0 <= i < s.len(),
        n.id == s[i].id,
    ensures
        ascending(s.update(i, n)),
{
    let t = s.update(i, n);
    assert forall|a: int, b: int| 0 <= a < b < t.len() implies t[a].id < t[b].id by {
        assert(t[a].id == s[a].id);
        assert(t[b].id == s[b].id);
    }
}

/// The arrival of a notification keeps the store sound and within its limits.
proof fn lemma_arrived(w: StoreView, n: NotificationView)
    requires
        sound(w),
    ensures
        sound(arrived(w, n)),
        keeps_limits(w, arrived(w, n)),
        same_limits(arrived(w, n), w),
{
    let i = first_index(w.displayed, with_id(n.id));
    let j = first_index(w.displayed, stacked_with(n));
    let k = first_index(w.displayed, repeated_by(n));
    lemma_first_index_bounds(w.displayed, with_id(n.id));
    if i < w.displayed.len() {
        lemma_update_ascending(
            w.displayed,
            i as int,
            NotificationView { duplicate_count: w.displayed[i as int].duplicate_count, ..n },
        );
    } else if n.stack_tag.len() > 0 && j < w.displayed.len() {
        lemma_update_ascending(
            w.displayed,
            j as int,
            NotificationView { id: w.displayed[j as int].id, ..n },
        );
    } else if k < w.displayed.len() {
        lemma_update_ascending(
            w.displayed,
            k as int,
            NotificationView {
                duplicate_count: one_more(w.displayed[k as int].duplicate_count),
                expires_at: n.expires_at,
                ..w.displayed[k as int]
            },
        );
    } else if !eligible(w.pause_level)(n) || w.displayed.len() >= w.limit {
    } else {
        lemma_put(w.displayed, n);
    }
}

/// Taking in a notification keeps the store sound and within its limits.
pub(crate) proof fn lemma_upserted(v: StoreView, n: NotificationView, now: u64)
    requires
        sound(v),
    ensures
        sound(upserted(v, n, now)),
        keeps_limits(v, upserted(v, n, now)),
        same_limits(upserted(v, n, now), v),
{
    lemma_expired(v, now);
    lemma_arrived(expired_state(v, now), n);
}

/// The store stays sound through every event: displayed identifiers ascend, the
/// history holds no identifier twice, and nothing waits that could be displayed.
/// The displayed ones keep to their number, and the history to its length, each
/// where it did before; so a consistent store stays consistent.
pub proof fn law_events_keep_consistent(v: StoreView, event: NotificationEvent, now: u64)
    requires
        sound(v),
    ensures
        sound(after_event(v, event, now)),
        keeps_limits(v, after_event(v, event, now)),
        consistent(v) ==> consistent(after_event(v, event, now)),
{
    match event {
        NotificationEvent::Upsert(n) => {
            lemma_upserted(v, n@, now);
        },
        NotificationEvent::Close(id) => {
            lemma_closed(v, id);
        },
        NotificationEvent::Remove(id) => {
            lemma_removed(v, id);
        },
        NotificationEvent::ClearAll => {},
        NotificationEvent::Refresh => {
            lemma_expired(v, now);
        },
    }
}

/// Whether no notification has an identifier.
spec fn lacks(s: Seq<NotificationView>, id: u32) -> bool {
    forall|i: int| 0 <= i < s.len() ==> (#[trigger] s[i]).id != id
}

proof fn lemma_lacks(s: Seq<NotificationView>, id: u32)
    ensures
        lacks(s, id) == !holds_id(s, id),
        lacks(s.filter(without_id(id)), id),
{
    let p = with_id(id);
    let i = first_index(s, p);
    lemma_first_index_bounds(s, p);
    if i < s.len() {
        assert(s[i as int].id == id);
    } else {
        assert forall|j: int| 0 <= j < s.len() implies (#[trigger] s[j]).id != id by {
            assert(!p(s[j]));
        }
    }
    lemma_filter_members(s, without_id(id));
    let f = s.filter(without_id(id));
    assert forall|j: int| 0 <= j < f.len() implies (#[trigger] f[j]).id != id by {
        assert(without_id(id)(f[j]));
    }
}

/// Moving up brings no identifier that was neither displayed nor waiting.
proof fn lemma_promoted_lacks(v: StoreView, id: u32)
    requires
        lacks(v.displayed, id),
        lacks(v.waiting, id),
    ensures
        lacks(promoted(v).displayed, id),
        lacks(promoted(v).waiting, id),
    decreases v.waiting.len(),
{
    let i = first_index(v.waiting, eligible(v.pause_level));
    if v.displayed.len() < v.limit && i < v.waiting.len() {
        let n = v.waiting[i as int];
        let d = put(v.displayed, n);
        let k = first_index(v.displayed, not_below(n.id));
        lemma_first_index_bounds(v.displayed, not_below(n.id));
        assert(lacks(d, id)) by {
            assert forall|j: int| 0 <= j < d.len() implies (#[trigger] d[j]).id != id by {
                if k < v.displayed.len() && v.displayed[k as int].id == n.id {
                    assert(j != k ==> d[j] == v.displayed[j]);
                } else if j < k {
                    assert(d[j] == v.displayed[j]);
                } else if j > k {
                    assert(d[j] == v.displayed[j - 1]);
                }
            }
        }
        let w = v.waiting.remove(i as int);
        assert(lacks(w, id)) by {
            assert forall|j: int| 0 <= j < w.len() implies (#[trigger] w[j]).id != id by {
                assert(w[j] == v.waiting[if j < i {
                    j
                } else {
                    j + 1
                }]);
            }
        }
        lemma_promoted_lacks(StoreView { displayed: d, waiting: w, ..v }, id);
    }
}

/// Deleting keeps the store sound and within its limits, and leaves the
/// identifier nowhere.
pub(crate) proof fn lemma_removed(v: StoreView, id: u32)
    requires
        sound(v),
    ensures
        sound(removed_state(v, id)),
        keeps_limits(v, removed_state(v, id)),
        same_limits(removed_state(v, id), v),
        removed_state(v, id).history == v.history.filter(without_id(id)),
        !holds_id(removed_state(v, id).displayed, id),
        !holds_id(removed_state(v, id).waiting, id),
        !holds_id(removed_state(v, id).history, id),
{
    let p = without_id(id);
    let w = cleared_of(v, id);
    lemma_lacks(v.displayed, id);
    lemma_lacks(v.waiting, id);
    lemma_lacks(v.history, id);
    lemma_filter_ascending(v.displayed, p);
    lemma_filter_distinct(v.history, p);
    lemma_filter_members(v.displayed, p);
    lemma_filter_members(v.waiting, p);
    lemma_filter_members(v.history, p);
    lemma_promoted(w);
    lemma_promoted_lacks(w, id);
    if !holds_id(v.displayed, id) {
        assert forall|i: int| 0 <= i < v.displayed.len() implies p(#[trigger] v.displayed[i]) by {
            assert(v.displayed[i].id != id);
        }
        lemma_filter_all(v.displayed, p);
        if v.displayed.len() < v.limit {
            assert forall|i: int| 0 <= i < w.waiting.len() implies !eligible(w.pause_level)(
                #[trigger] w.waiting[i],
            ) by {
                assert(v.waiting.contains(w.waiting[i]));
            }
        }
    }
    let r = removed_state(v, id);
    lemma_lacks(r.displayed, id);
    lemma_lacks(r.waiting, id);
    lemma_lacks(r.history, id);
}

/// Deleting keeps the store sound and each limit that it kept to, and so keeps it
/// consistent.
pub proof fn law_remove_keeps_consistent(v: StoreView, id: u32)
    requires
        sound(v),
    ensures
        sound(removed_state(v, id)),
        keeps_limits(v, removed_state(v, id)),
        consistent(v) ==> consistent(removed_state(v, id)),
{
    lemma_removed(v, id);
}

/// A deleted notification is nowhere any more, and nothing is retained of it: the
/// history is what it was without the identifier.
pub proof fn law_removed_is_gone(v: StoreView, id: u32)
    requires
        sound(v),
    ensures
        !holds_id(removed_state(v, id).displayed, id),
        !holds_id(removed_state(v, id).waiting, id),
        !holds_id(removed_state(v, id).history, id),
        removed_state(v, id).history == v.history.filter(without_id(id)),
{
    lemma_removed(v, id);
}

/// Taking one out of the history keeps the store sound.
pub(crate) proof fn lemma_history_without(v: StoreView, i: int)
    requires
        sound(v),
        0 <= i < v.history.len(),
    ensures
        sound(StoreView { history: v.history.remove(i), ..v }),
{
    lemma_remove_distinct(v.history, i);
}

/// Deleting from the history keeps the store sound.
pub(crate) proof fn lemma_history_removed(v: StoreView, id: u32)
    requires
        sound(v),
    ensures
        sound(StoreView { history: without_first(v.history, id), ..v }),
{
    lemma_first_index_bounds(v.history, with_id(id));
    if holds_id(v.history, id) {
        lemma_remove_distinct(v.history, first_index(v.history, with_id(id)) as int);
    }
}

/// New settings keep the store sound.
pub(crate) proof fn lemma_reconfigured(v: StoreView, w: StoreView)
    requires
        sound(v),
        w.displayed == v.displayed,
        w.history == v.history,
    ensures
        sound(promoted(w)),
{
    lemma_promoted(w);
}

/// Setting a pause level keeps the store sound and each limit that it kept to; at level zero whatever
/// still waits is kept from popping up, or every place is taken.
pub proof fn law_pause_level_releases(v: StoreView, level: u8)
    requires
        sound(v),
    ensures
        ({
            let w = promoted(StoreView { pause_level: level, ..v });
            &&& sound(w)
            &&& keeps_limits(v, w)
            &&& consistent(v) ==> consistent(w)
            &&& level == 0 ==> w.displayed.len() >= w.limit || forall|i: int|
                0 <= i < w.waiting.len() ==> (#[trigger] w.waiting[i]).skip_popup
        }),
{
    let u = StoreView { pause_level: level, ..v };
    lemma_promoted(u);
    let w = promoted(u);
    if level == 0 && w.displayed.len() < w.limit {
        assert forall|i: int| 0 <= i < w.waiting.len() implies (
        #[trigger] w.waiting[i]).skip_popup by {
            assert(!eligible(0)(w.waiting[i]));
        }
    }
}

/// Showing a retained notification again keeps the store sound and each limit that
/// it kept to, and so keeps it consistent.
pub proof fn law_showing_again_keeps_consistent(v: StoreView, i: int, now: u64)
    requires
        sound(v),
        0 <= i < v.history.len(),
    ensures
        ({
            let w = upserted(
                StoreView { history: v.history.remove(i), ..v },
                revived(v.history[i]),
                now,
            );
            &&& sound(w)
            &&& keeps_limits(v, w)
            &&& consistent(v) ==> consistent(w)
        }),
{
    lemma_history_without(v, i);
    lemma_upserted(
        StoreView { history: v.history.remove(i), ..v },
        revived(v.history[i]),
        now,
    );
}

/// After new settings the store is sound; the displayed ones keep to their new
/// number, and the history to its new length, where they already did.
pub proof fn law_new_settings_keep_sound(v: StoreView, limit: nat, history_length: nat, level: u8)
    requires
        sound(v),
    ensures
        ({
            let w = promoted(StoreView { limit, history_length, pause_level: level, ..v });
            &&& sound(w)
            &&& v.displayed.len() <= limit ==> within_places(w)
            &&& v.history.len() <= history_length ==> within_length(w)
        }),
{
    lemma_promoted(StoreView { limit, history_length, pause_level: level, ..v });
}

/// Dismissing everything keeps the store sound and within its limits.
pub(crate) proof fn lemma_dismissed(v: StoreView)
    requires
        sound(v),
    ensures
        sound(dismissed_state(v)),
        keeps_limits(v, dismissed_state(v)),
{
    lemma_all_retained(v.history, v.displayed, v.history_length);
    lemma_promoted(
        StoreView {
            displayed: Seq::empty(),
            history: all_retained(v.history, v.displayed, v.history_length),
            ..v
        },
    );
}

/// Dismissing everything keeps the store sound and each limit that it kept to, and
/// so keeps it consistent.
pub proof fn law_dismissing_keeps_consistent(v: StoreView)
    requires
        sound(v),
    ensures
        sound(dismissed_state(v)),
        keeps_limits(v, dismissed_state(v)),
        consistent(v) ==> consistent(dismissed_state(v)),
{
    lemma_dismissed(v);
}

/// Retaining several keeps the length and leaves no identifier twice.
proof fn lemma_all_retained(h: Seq<NotificationView>, s: Seq<NotificationView>, length: nat)
    requires
        distinct(h),
    ensures
        h.len() <= length ==> all_retained(h, s, length).len() <= length,
        distinct(all_retained(h, s, length)),
    decreases s.len(),
{
    if s.len() > 0 {
        lemma_all_retained(h, s.drop_last(), length);
        lemma_retained(all_retained(h, s.drop_last(), length), s.last(), length);
    }
}

/// A closed notification comes first in the history, unless it is to be left
/// out of it or there is none.
pub proof fn law_closed_is_retained(v: StoreView, id: u32)
    requires
        consistent(v),
        closing(v, id) is Some,
        !closing(v, id)->0.history_ignore,
        v.history_length > 0,
    ensures
        closed_state(v, id).history.len() > 0,
        closed_state(v, id).history[0] == closing(v, id)->0,
{
    let n = closing(v, id)->0;
    let h = retained(v.history, n, v.history_length);
    let i = first_index(v.displayed, with_id(id));
    lemma_first_index_bounds(v.displayed, with_id(id));
    if i < v.displayed.len() {
        lemma_remove_ascending(v.displayed, i as int);
    }
    lemma_promoted(StoreView { history: h, ..taken(v, id) });
}

/// A replacement keeps the number of notifications: nothing is added, nothing
/// waits longer, and the displayed identifiers stay.
pub proof fn law_replacement_keeps_count(w: StoreView, n: NotificationView)
    requires
        first_index(w.displayed, with_id(n.id)) < w.displayed.len(),
    ensures
        arrived(w, n).displayed.len() == w.displayed.len(),
        arrived(w, n).waiting == w.waiting,
        arrived(w, n).history == w.history,
        forall|i: int|
            0 <= i < w.displayed.len() ==> (#[trigger] arrived(w, n).displayed[i]).id
                == w.displayed[i].id,
        arrived(w, n).displayed.contains(
            NotificationView {
                duplicate_count: w.displayed[first_index(w.displayed, with_id(n.id)) as int].duplicate_count,
                ..n
            },
        ),
{
    let i = first_index(w.displayed, with_id(n.id));
    lemma_first_index_bounds(w.displayed, with_id(n.id));
    assert(arrived(w, n).displayed[i as int] == NotificationView {
        duplicate_count: w.displayed[i as int].duplicate_count,
        ..n
    });
}

/// A repetition is counted and not shown a second time.
pub proof fn law_repetition_is_counted(w: StoreView, n: NotificationView)
    requires
        first_index(w.displayed, with_id(n.id)) == w.displayed.len(),
        n.stack_tag.len() == 0,
        first_index(w.displayed, repeated_by(n)) < w.displayed.len(),
    ensures
        arrived(w, n).displayed.len() == w.displayed.len(),
        arrived(w, n).waiting == w.waiting,
        ({
            let k = first_index(w.displayed, repeated_by(n)) as int;
            arrived(w, n).displayed[k].duplicate_count == one_more(w.displayed[k].duplicate_count)
        }),
{
}

/// Notifications whose identifiers ascend come out the most urgent first, and by
/// identifier within an urgency.
pub(crate) proof fn lemma_presented(s: Seq<NotificationView>)
    requires
        ascending(s),
    ensures
        presented(by_urgency(s)),
{
    let c = s.filter(urgent(Urgency::Critical));
    let n = s.filter(urgent(Urgency::Normal));
    let l = s.filter(urgent(Urgency::Low));
    lemma_filter_ascending(s, urgent(Urgency::Critical));
    lemma_filter_ascending(s, urgent(Urgency::Normal));
    lemma_filter_ascending(s, urgent(Urgency::Low));
    lemma_filter_members(s, urgent(Urgency::Critical));
    lemma_filter_members(s, urgent(Urgency::Normal));
    lemma_filter_members(s, urgent(Urgency::Low));
    let t = by_urgency(s);
    assert forall|i: int, j: int| 0 <= i < j < t.len() implies more_urgent(t[i], t[j]) || (
    t[i].urgency == t[j].urgency && t[i].id < t[j].id) by {
        if i < c.len() {
            assert(t[i] == c[i]);
            assert(urgent(Urgency::Critical)(c[i]));
        } else if i < c.len() + n.len() {
            assert(t[i] == n[i - c.len()]);
            assert(urgent(Urgency::Normal)(n[i - c.len()]));
        } else {
            assert(t[i] == l[i - c.len() - n.len()]);
            assert(urgent(Urgency::Low)(l[i - c.len() - n.len()]));
        }
        if j < c.len() {
            assert(t[j] == c[j]);
            assert(urgent(Urgency::Critical)(c[j]));
        } else if j < c.len() + n.len() {
            assert(t[j] == n[j - c.len()]);
            assert(urgent(Urgency::Normal)(n[j - c.len()]));
        } else {
            assert(t[j] == l[j - c.len() - n.len()]);
            assert(urgent(Urgency::Low)(l[j - c.len() - n.len()]));
        }
    }
}

/// Whether nothing displayed runs out by a time.
pub open spec fn nothing_runs_out(v: StoreView, now: u64) -> bool {
    forall|i: int|
        0 <= i < v.displayed.len() ==> match (#[trigger] v.displayed[i]).expires_at {
            Some(at) => now < at,
            None => true,
        }
}

/// While nothing runs out, expiring changes nothing.
pub proof fn law_expiring_waits(v: StoreView, now: u64)
    requires
        nothing_runs_out(v, now),
    ensures
        expired_state(v, now) == v,
        due(v, now).len() == 0,
{
    assert forall|i: int| 0 <= i < v.displayed.len() implies !timed_out(now)(
        #[trigger] v.displayed[i],
    ) by {
        assert(v.displayed[i].expires_at is Some ==> now < v.displayed[i].expires_at->0);
    }
    lemma_filter_none(v.displayed, timed_out(now));
    assert(due(v, now).len() == 0);
}

/// A notification that replaces no displayed one, stacks on none and repeats none
/// comes in as it is: it is displayed where it may be and a place is free, and
/// waits behind the others otherwise. What was displayed stays as it was.
pub proof fn law_new_notification_comes_in(v: StoreView, n: NotificationView, now: u64)
    requires
        nothing_runs_out(v, now),
        forall|i: int| 0 <= i < v.displayed.len() ==> (#[trigger] v.displayed[i]).id != n.id,
        forall|i: int|
            0 <= i < v.displayed.len() ==> !(n.stack_tag.len() > 0 && (
            #[trigger] v.displayed[i]).app_name == n.app_name && v.displayed[i].stack_tag
                == n.stack_tag),
        forall|i: int|
            0 <= i < v.displayed.len() ==> !((#[trigger] v.displayed[i]).app_name == n.app_name
                && v.displayed[i].summary == n.summary && v.displayed[i].body == n.body
                && v.displayed[i].app_icon == n.app_icon && v.displayed[i].urgency == n.urgency),
    ensures
        ({
            let w = upserted(v, n, now);
            let shown = !n.skip_popup && n.override_pause_level >= v.pause_level
                && v.displayed.len() < v.limit;
            &&& shown ==> w.displayed.contains(n) && w.waiting == v.waiting && w.displayed.len()
                == v.displayed.len() + 1
            &&& !shown ==> w.waiting == v.waiting.push(n) && w.displayed == v.displayed
            &&& forall|i: int|
                0 <= i < v.displayed.len() ==> w.displayed.contains(#[trigger] v.displayed[i])
            &&& w.history == v.history
        }),
{
    law_expiring_waits(v, now);
    let d = v.displayed;
    assert forall|j: int| 0 <= j < d.len() implies !with_id(n.id)(#[trigger] d[j]) by {}
    lemma_first_index(d, with_id(n.id), d.len());
    assert forall|j: int| 0 <= j < d.len() implies !repeated_by(n)(#[trigger] d[j]) by {}
    lemma_first_index(d, repeated_by(n), d.len());
    if n.stack_tag.len() > 0 {
        assert forall|j: int| 0 <= j < d.len() implies !stacked_with(n)(#[trigger] d[j]) by {}
        lemma_first_index(d, stacked_with(n), d.len());
    }
    let k = first_index(d, not_below(n.id)) as int;
    lemma_first_index_bounds(d, not_below(n.id));
    let w = upserted(v, n, now);
    assert forall|i: int| 0 <= i < d.len() implies w.displayed.contains(#[trigger] d[i]) by {
        if w.displayed.len() == d.len() {
            assert(w.displayed[i] == d[i]);
        } else if i < k {
            assert(w.displayed[i] == d[i]);
        } else {
            assert(w.displayed[i + 1] == d[i]);
        }
    }
    if w.displayed.len() > d.len() {
        assert(w.displayed[k] == n);
    }
}

/// A notification with the identifier of a displayed one takes its place with all
/// that it says, and keeps only how often that one was repeated.
pub proof fn law_same_identifier_is_replaced(v: StoreView, n: NotificationView, now: u64, at: int)
    requires
        nothing_runs_out(v, now),
        ascending(v.displayed),
        0 <= at < v.displayed.len(),
        v.displayed[at].id == n.id,
    ensures
        ({
            let w = upserted(v, n, now);
            let r = w.displayed[at];
            &&& w.displayed.len() == v.displayed.len()
            &&& r.summary == n.summary && r.body == n.body && r.app_name == n.app_name
            &&& r.app_icon == n.app_icon && r.urgency == n.urgency && r.actions == n.actions
            &&& r.progress == n.progress && r.expires_at == n.expires_at && r.id == n.id
            &&& r.stack_tag == n.stack_tag && r.history_ignore == n.history_ignore
            &&& r.duplicate_count == v.displayed[at].duplicate_count
            &&& forall|i: int|
                0 <= i < v.displayed.len() && i != at ==> #[trigger] w.displayed[i]
                    == v.displayed[i]
            &&& w.waiting == v.waiting && w.history == v.history
        }),
{
    law_expiring_waits(v, now);
    let d = v.displayed;
    assert forall|j: int| 0 <= j < at implies !with_id(n.id)(#[trigger] d[j]) by {
        assert(d[j].id < d[at].id);
    }
    lemma_first_index(d, with_id(n.id), at as nat);
}

/// A notification with the stack tag of a displayed one of its application takes
/// the place of that one, under its identifier.
pub proof fn law_same_stack_is_replaced(v: StoreView, n: NotificationView, now: u64, at: int)
    requires
        nothing_runs_out(v, now),
        forall|i: int| 0 <= i < v.displayed.len() ==> (#[trigger] v.displayed[i]).id != n.id,
        n.stack_tag.len() > 0,
        0 <= at < v.displayed.len(),
        v.displayed[at].app_name == n.app_name,
        v.displayed[at].stack_tag == n.stack_tag,
        forall|i: int|
            0 <= i < at ==> (#[trigger] v.displayed[i]).app_name != n.app_name
                || v.displayed[i].stack_tag != n.stack_tag,
    ensures
        ({
            let w = upserted(v, n, now);
            let r = w.displayed[at];
            &&& w.displayed.len() == v.displayed.len()
            &&& r.id == v.displayed[at].id
            &&& r.summary == n.summary && r.body == n.body && r.app_icon == n.app_icon
            &&& r.urgency == n.urgency && r.actions == n.actions && r.progress == n.progress
            &&& r.expires_at == n.expires_at && r.stack_tag == n.stack_tag
            &&& r.duplicate_count == n.duplicate_count
            &&& forall|i: int|
                0 <= i < v.displayed.len() && i != at ==> #[trigger] w.displayed[i]
                    == v.displayed[i]
            &&& w.waiting == v.waiting && w.history == v.history
        }),
{
    law_expiring_waits(v, now);
    let d = v.displayed;
    assert forall|j: int| 0 <= j < d.len() implies !with_id(n.id)(#[trigger] d[j]) by {}
    lemma_first_index(d, with_id(n.id), d.len());
    assert forall|j: int| 0 <= j < at implies !stacked_with(n)(#[trigger] d[j]) by {}
    lemma_first_index(d, stacked_with(n), at as nat);
}

/// A notification that says in everything what a displayed one says is counted
/// there: that one stays what it is, with one repetition more and the new time to
/// run out.
pub proof fn law_same_message_is_counted(v: StoreView, n: NotificationView, now: u64, at: int)
    requires
        nothing_runs_out(v, now),
        forall|i: int| 0 <= i < v.displayed.len() ==> (#[trigger] v.displayed[i]).id != n.id,
        n.stack_tag.len() == 0,
        0 <= at < v.displayed.len(),
        v.displayed[at].app_name == n.app_name && v.displayed[at].summary == n.summary
            && v.displayed[at].body == n.body && v.displayed[at].app_icon == n.app_icon
            && v.displayed[at].urgency == n.urgency,
        forall|i: int|
            0 <= i < at ==> !((#[trigger] v.displayed[i]).app_name == n.app_name
                && v.displayed[i].summary == n.summary && v.displayed[i].body == n.body
                && v.displayed[i].app_icon == n.app_icon && v.displayed[i].urgency == n.urgency),
    ensures
        ({
            let w = upserted(v, n, now);
            let was = v.displayed[at];
            let r = w.displayed[at];
            &&& w.displayed.len() == v.displayed.len()
            &&& was.duplicate_count < u32::MAX ==> r.duplicate_count == was.duplicate_count + 1
            &&& was.duplicate_count == u32::MAX ==> r.duplicate_count == u32::MAX
            &&& r.expires_at == n.expires_at
            &&& r.id == was.id && r.actions == was.actions && r.progress == was.progress
            &&& r.summary == n.summary && r.body == n.body && r.app_name == n.app_name
            &&& forall|i: int|
                0 <= i < v.displayed.len() && i != at ==> #[trigger] w.displayed[i]
                    == v.displayed[i]
            &&& w.waiting == v.waiting && w.history == v.history
        }),
{
    law_expiring_waits(v, now);
    let d = v.displayed;
    assert forall|j: int| 0 <= j < d.len() implies !with_id(n.id)(#[trigger] d[j]) by {}
    lemma_first_index(d, with_id(n.id), d.len());
    assert forall|j: int| 0 <= j < at implies !repeated_by(n)(#[trigger] d[j]) by {}
    lemma_first_index(d, repeated_by(n), at as nat);
}

/// Whether no waiting notification has the identifier of a displayed one, and no
/// two that wait share one.
pub open spec fn waits_apart(v: StoreView) -> bool {
    &&& forall|i: int, j: int|
        0 <= i < v.waiting.len() && 0 <= j < v.displayed.len() ==> (#[trigger] v.waiting[i]).id != (
        #[trigger] v.displayed[j]).id
    &&& distinct(v.waiting)
}

/// Putting a notification whose identifier is new adds it and keeps the others.
proof fn lemma_put_new(s: Seq<NotificationView>, n: NotificationView)
    requires
        forall|i: int| 0 <= i < s.len() ==> (#[trigger] s[i]).id != n.id,
    ensures
        put(s, n).len() == s.len() + 1,
        put(s, n).contains(n),
        forall|m: NotificationView| #[trigger] put(s, n).contains(m) <==> s.contains(m) || m == n,
{
    let k = first_index(s, not_below(n.id)) as int;
    lemma_first_index_bounds(s, not_below(n.id));
    let t = put(s, n);
    assert(t[k] == n);
    assert forall|m: NotificationView| #[trigger] t.contains(m) <==> s.contains(m) || m == n by {
        if s.contains(m) {
            let i = choose|i: int| 0 <= i < s.len() && s[i] == m;
            assert(t[if i < k {
                i
            } else {
                i + 1
            }] == m);
        }
        if t.contains(m) && m != n {
            let i = choose|i: int| 0 <= i < t.len() && t[i] == m;
            assert(s[if i < k {
                i
            } else {
                i - 1
            }] == m);
        }
    }
}

proof fn lemma_remove_members(s: Seq<NotificationView>, i: int)
    requires
        distinct(s),
        0 <= i < s.len(),
    ensures
        forall|m: NotificationView| #[trigger]
            s.remove(i).contains(m) <==> s.contains(m) && m != s[i],
{
    let t = s.remove(i);
    assert forall|m: NotificationView| #[trigger] t.contains(m) <==> s.contains(m) && m != s[i] by {
        if t.contains(m) {
            let k = choose|k: int| 0 <= k < t.len() && t[k] == m;
            let k0 = if k < i {
                k
            } else {
                k + 1
            };
            assert(s[k0] == m);
            assert(s[k0].id != s[i].id);
        }
        if s.contains(m) && m != s[i] {
            let k = choose|k: int| 0 <= k < s.len() && s[k] == m;
            assert(t[if k < i {
                k
            } else {
                k - 1
            }] == m);
        }
    }
}

/// Moving up loses nothing and invents nothing: what was displayed stays, and each
/// waiting notification is displayed or still waits. None that may not be displayed
/// moves, and while one that may be still waits, no place is free.
pub proof fn law_moving_up_loses_nothing(v: StoreView)
    requires
        waits_apart(v),
    ensures
        ({
            let w = promoted(v);
            &&& w.displayed.len() + w.waiting.len() == v.displayed.len() + v.waiting.len()
            &&& forall|m: NotificationView| #[trigger]
                v.displayed.contains(m) ==> w.displayed.contains(m)
            &&& forall|m: NotificationView| #[trigger]
                v.waiting.contains(m) ==> w.displayed.contains(m) || w.waiting.contains(m)
            &&& forall|m: NotificationView| #[trigger]
                w.displayed.contains(m) ==> v.displayed.contains(m) || (v.waiting.contains(m)
                    && !m.skip_popup && m.override_pause_level >= v.pause_level)
            &&& forall|m: NotificationView| #[trigger]
                w.waiting.contains(m) ==> v.waiting.contains(m)
            &&& w.displayed.len() < w.limit ==> forall|m: NotificationView| #[trigger]
                w.waiting.contains(m) ==> m.skip_popup || m.override_pause_level < v.pause_level
            &&& v.displayed.len() <= v.limit ==> w.displayed.len() <= v.limit
            &&& w.history == v.history
        }),
    decreases v.waiting.len(),
{
    let p = eligible(v.pause_level);
    let i = first_index(v.waiting, p) as int;
    lemma_first_index_bounds(v.waiting, p);
    if v.displayed.len() < v.limit && i < v.waiting.len() {
        let n = v.waiting[i];
        let u = StoreView {
            displayed: put(v.displayed, n),
            waiting: v.waiting.remove(i),
            ..v
        };
        assert forall|j: int| 0 <= j < v.displayed.len() implies (#[trigger] v.displayed[j]).id
            != n.id by {}
        lemma_put_new(v.displayed, n);
        lemma_remove_members(v.waiting, i);
        lemma_remove_distinct(v.waiting, i);
        assert(waits_apart(u)) by {
            assert forall|a: int, b: int| 0 <= a < u.waiting.len() && 0 <= b < u.displayed.len()
                implies (#[trigger] u.waiting[a]).id != (#[trigger] u.displayed[b]).id by {
                let x = u.waiting[a];
                let y = u.displayed[b];
                assert(u.waiting.contains(x));
                assert(u.displayed.contains(y));
                let a0 = if a < i {
                    a
                } else {
                    a + 1
                };
                assert(v.waiting[a0] == x);
                if y == n {
                    assert(v.waiting[a0].id != v.waiting[i].id);
                } else {
                    let b0 = choose|b0: int| 0 <= b0 < v.displayed.len() && v.displayed[b0] == y;
                    assert(v.displayed[b0] == y);
                }
            }
        }
        law_moving_up_loses_nothing(u);
        let w = promoted(v);
        assert(w == promoted(u));
        assert(p(n));
        assert(v.waiting.contains(n));
        assert forall|m: NotificationView| #[trigger] v.displayed.contains(m) implies w.displayed.contains(
            m,
        ) by {
            assert(u.displayed.contains(m));
        }
        assert forall|m: NotificationView| #[trigger] v.waiting.contains(m) implies w.displayed.contains(
            m,
        ) || w.waiting.contains(m) by {
            if m == n {
                assert(u.displayed.contains(m));
            } else {
                assert(u.waiting.contains(m));
            }
        }
        assert forall|m: NotificationView| #[trigger] w.displayed.contains(m) implies v.displayed.contains(
            m,
        ) || (v.waiting.contains(m) && !m.skip_popup && m.override_pause_level >= v.pause_level) by {
            if u.displayed.contains(m) {
            } else {
                assert(u.waiting.contains(m));
            }
        }
        assert forall|m: NotificationView| #[trigger] w.waiting.contains(m) implies v.waiting.contains(
            m,
        ) by {
            assert(u.waiting.contains(m));
        }
    } else {
        if v.displayed.len() < v.limit {
            assert forall|m: NotificationView| #[trigger] v.waiting.contains(m) implies m.skip_popup
                || m.override_pause_level < v.pause_level by {
                let k = choose|k: int| 0 <= k < v.waiting.len() && v.waiting[k] == m;
                assert(!p(v.waiting[k]));
            }
        }
    }
}

/// Who waits first moves up first: of two that may be displayed the one that waits
/// longer is displayed if the other one is.
pub proof fn law_first_come_first_shown(v: StoreView, a: int, b: int)
    requires
        waits_apart(v),
        0 <= a < b < v.waiting.len(),
        !v.waiting[a].skip_popup && v.waiting[a].override_pause_level >= v.pause_level,
        promoted(v).displayed.contains(v.waiting[b]),
    ensures
        promoted(v).displayed.contains(v.waiting[a]),
    decreases v.waiting.len(),
{
    let p = eligible(v.pause_level);
    let i = first_index(v.waiting, p) as int;
    lemma_first_index_bounds(v.waiting, p);
    assert(p(v.waiting[a]));
    assert(i <= a);
    law_moving_up_loses_nothing(v);
    if v.displayed.len() < v.limit {
        let n = v.waiting[i];
        let u = StoreView {
            displayed: put(v.displayed, n),
            waiting: v.waiting.remove(i),
            ..v
        };
        assert forall|j: int| 0 <= j < v.displayed.len() implies (#[trigger] v.displayed[j]).id
            != n.id by {}
        lemma_put_new(v.displayed, n);
        lemma_remove_distinct(v.waiting, i);
        assert(waits_apart(u)) by {
            assert forall|x: int, y: int| 0 <= x < u.waiting.len() && 0 <= y < u.displayed.len()
                implies (#[trigger] u.waiting[x]).id != (#[trigger] u.displayed[y]).id by {
                let x0 = if x < i {
                    x
                } else {
                    x + 1
                };
                assert(v.waiting[x0] == u.waiting[x]);
                assert(u.displayed.contains(u.displayed[y]));
                if u.displayed[y] == n {
                    assert(v.waiting[x0].id != v.waiting[i].id);
                } else {
                    let y0 = choose|y0: int|
                        0 <= y0 < v.displayed.len() && v.displayed[y0] == u.displayed[y];
                    assert(v.displayed[y0] == u.displayed[y]);
                }
            }
        }
        law_moving_up_loses_nothing(u);
        if i == a {
            assert(u.displayed.contains(n));
        } else {
            assert(u.waiting[a - 1] == v.waiting[a]);
            assert(u.waiting[b - 1] == v.waiting[b]);
            law_first_come_first_shown(u, a - 1, b - 1);
        }
    } else {
        let k = choose|k: int| 0 <= k < v.displayed.len() && v.displayed[k] == v.waiting[b];
        assert(v.waiting[b].id == v.displayed[k].id);
    }
}

/// Closing a displayed notification takes it from the display and puts it first
/// in the history, unless it is to be left out of it; the others stay displayed.
pub proof fn law_closing_moves_to_history(v: StoreView, at: int)
    requires
        sound(v),
        waits_apart(v),
        0 <= at < v.displayed.len(),
    ensures
        ({
            let n = v.displayed[at];
            let w = closed_state(v, n.id);
            &&& closing(v, n.id) == Some(n)
            &&& !holds_id(w.displayed, n.id)
            &&& !holds_id(w.waiting, n.id)
            &&& !n.history_ignore && v.history_length > 0 ==> w.history.len() > 0 && w.history[0]
                == n
            &&& n.history_ignore ==> w.history == v.history
            &&& forall|i: int|
                0 <= i < v.displayed.len() && i != at ==> w.displayed.contains(
                    #[trigger] v.displayed[i],
                )
            &&& w.displayed.len() + w.waiting.len() == v.displayed.len() + v.waiting.len() - 1
        }),
{
    let n = v.displayed[at];
    let d = v.displayed;
    assert forall|j: int| 0 <= j < at implies !with_id(n.id)(#[trigger] d[j]) by {
        assert(d[j].id < d[at].id);
    }
    lemma_first_index(d, with_id(n.id), at as nat);
    let u = StoreView {
        displayed: d.remove(at),
        history: retained(v.history, n, v.history_length),
        ..v
    };
    let w = closed_state(v, n.id);
    assert(w == promoted(u));
    assert forall|k: int| 0 <= k < u.displayed.len() implies exists|k0: int|
        0 <= k0 < d.len() && k0 != at && #[trigger] u.displayed[k] == d[k0] by {
        assert(u.displayed[k] == d[if k < at {
            k
        } else {
            k + 1
        }]);
    }
    assert(waits_apart(u)) by {
        assert forall|x: int, y: int| 0 <= x < u.waiting.len() && 0 <= y < u.displayed.len()
            implies (#[trigger] u.waiting[x]).id != (#[trigger] u.displayed[y]).id by {
            assert(u.displayed[y] == d[if y < at {
                y
            } else {
                y + 1
            }]);
        }
    }
    law_moving_up_loses_nothing(u);
    assert forall|i: int| 0 <= i < d.len() && i != at implies w.displayed.contains(
        #[trigger] d[i],
    ) by {
        assert(u.displayed[if i < at {
            i
        } else {
            i - 1
        }] == d[i]);
        assert(u.displayed.contains(d[i]));
    }
    assert(lacks(u.displayed, n.id)) by {
        assert forall|k: int| 0 <= k < u.displayed.len() implies (#[trigger] u.displayed[k]).id
            != n.id by {
            let k0 = if k < at {
                k
            } else {
                k + 1
            };
            assert(u.displayed[k] == d[k0]);
            if k0 < at {
                assert(d[k0].id < d[at].id);
            } else {
                assert(d[at].id < d[k0].id);
            }
        }
    }
    assert(lacks(u.waiting, n.id)) by {
        assert forall|k: int| 0 <= k < u.waiting.len() implies (#[trigger] u.waiting[k]).id
            != n.id by {
            assert(v.waiting[k].id != v.displayed[at].id);
        }
    }
    lemma_promoted_lacks(u, n.id);
    lemma_lacks(w.displayed, n.id);
    lemma_lacks(w.waiting, n.id);
}

/// Closing an identifier that nothing displayed or waiting has changes nothing.
pub proof fn law_closing_unknown_changes_nothing(v: StoreView, id: u32)
    requires
        forall|i: int| 0 <= i < v.displayed.len() ==> (#[trigger] v.displayed[i]).id != id,
        forall|i: int| 0 <= i < v.waiting.len() ==> (#[trigger] v.waiting[i]).id != id,
    ensures
        closed_state(v, id) == v,
        closing(v, id) is None,
{
    lemma_first_index(v.displayed, with_id(id), v.displayed.len());
    lemma_first_index(v.waiting, with_id(id), v.waiting.len());
}

/// The history keeps the latest first, each identifier once, and forgets an older
/// one only for its identifier or for want of room.
pub proof fn law_history_keeps_others(h: Seq<NotificationView>, n: NotificationView, length: nat, i: int)
    requires
        !n.history_ignore,
        length > 0,
        0 <= i < h.len(),
        h[i].id != n.id,
        h.len() < length,
    ensures
        retained(h, n, length)[0] == n,
        retained(h, n, length).contains(h[i]),
{
    let p = without_id(n.id);
    lemma_filter_keeps(h, p, i);
    lemma_filter_members(h, p);
    let f = h.filter(p);
    let k = choose|k: int| 0 <= k < f.len() && f[k] == h[i];
    assert((seq![n] + f)[k + 1] == h[i]);
}

/// The displayed notifications come out critical ones first and low ones last,
/// none of them lost.
pub proof fn law_urgent_first(s: Seq<NotificationView>)
    requires
        ascending(s),
    ensures
        by_urgency(s).len() == s.len(),
        forall|n: NotificationView| #[trigger] s.contains(n) ==> by_urgency(s).contains(n),
        forall|i: int, j: int|
            0 <= i < j < by_urgency(s).len() ==> {
                let a = #[trigger] by_urgency(s)[i];
                let b = #[trigger] by_urgency(s)[j];
                &&& b.urgency is Critical ==> a.urgency is Critical
                &&& a.urgency is Low ==> b.urgency is Low
                &&& a.urgency == b.urgency ==> a.id < b.id
            },
{
    lemma_by_urgency_len(s);
    lemma_presented(s);
    let t = by_urgency(s);
    assert forall|i: int, j: int| 0 <= i < j < t.len() implies {
        let a = #[trigger] t[i];
        let b = #[trigger] t[j];
        &&& b.urgency is Critical ==> a.urgency is Critical
        &&& a.urgency is Low ==> b.urgency is Low
        &&& a.urgency == b.urgency ==> a.id < b.id
    } by {
        assert(more_urgent(t[i], t[j]) || (t[i].urgency == t[j].urgency && t[i].id < t[j].id));
    }
    let c = s.filter(urgent(Urgency::Critical));
    let m = s.filter(urgent(Urgency::Normal));
    let l = s.filter(urgent(Urgency::Low));
    assert forall|n: NotificationView| #[trigger] s.contains(n) implies t.contains(n) by {
        let i = choose|i: int| 0 <= i < s.len() && s[i] == n;
        match n.urgency {
            Urgency::Critical => {
                lemma_filter_keeps(s, urgent(Urgency::Critical), i);
                let k = choose|k: int| 0 <= k < c.len() && c[k] == n;
                assert(t[k] == n);
            },
            Urgency::Normal => {
                lemma_filter_keeps(s, urgent(Urgency::Normal), i);
                let k = choose|k: int| 0 <= k < m.len() && m[k] == n;
                assert(t[c.len() + k] == n);
            },
            Urgency::Low => {
                lemma_filter_keeps(s, urgent(Urgency::Low), i);
                let k = choose|k: int| 0 <= k < l.len() && l[k] == n;
                assert(t[c.len() + m.len() + k] == n);
            },
        }
    }
}

/// A notification that is shown again says what it said, offers no actions, does
/// not run out and pops up.
pub proof fn law_shown_again(n: NotificationView)
    ensures
        revived(n).id == n.id,
        revived(n).summary == n.summary,
        revived(n).body == n.body,
        revived(n).app_name == n.app_name,
        revived(n).app_icon == n.app_icon,
        revived(n).urgency == n.urgency,
        revived(n).actions.len() == 0,
        revived(n).expires_at is None,
        !revived(n).skip_popup,
        revived(n).override_pause_level == n.override_pause_level,
        revived(n).history_ignore == n.history_ignore,
        revived(n).duplicate_count == n.duplicate_count,
{
}

/// What is due is what runs out by the time, of what is displayed.
pub proof fn law_due_runs_out(v: StoreView, now: u64, i: int)
    requires
        0 <= i < v.displayed.len(),
        ascending(v.displayed),
    ensures
        due(v, now).contains(v.displayed[i].id) <==> (v.displayed[i].expires_at is Some
            && v.displayed[i].expires_at->0 <= now),
{
    let p = timed_out(now);
    let d = v.displayed;
    let f = d.filter(p);
    let ids = due(v, now);
    lemma_filter_members(d, p);
    if p(d[i]) {
        lemma_filter_keeps(d, p, i);
        let k = choose|k: int| 0 <= k < f.len() && f[k] == d[i];
        assert(ids[k] == d[i].id);
    }
    if ids.contains(d[i].id) {
        let k = choose|k: int| 0 <= k < ids.len() && ids[k] == d[i].id;
        assert(d.contains(f[k]));
        let j = choose|j: int| 0 <= j < d.len() && d[j] == f[k];
        if j < i {
            assert(d[j].id < d[i].id);
        } else if i < j {
            assert(d[i].id < d[j].id);
        }
        assert(p(f[k]));
    }
}

/// Each event does what its name says: it closes, deletes, clears or looks at the time.
pub proof fn law_events(v: StoreView, id: u32, now: u64)
    ensures
        after_event(v, NotificationEvent::Close(id), now) == closed_state(v, id),
        after_event(v, NotificationEvent::Remove(id), now) == removed_state(v, id),
        after_event(v, NotificationEvent::Refresh, now) == expired_state(v, now),
        ({
            let w = after_event(v, NotificationEvent::ClearAll, now);
            &&& w.displayed.len() == 0 && w.waiting.len() == 0 && w.history.len() == 0
            &&& w.limit == v.limit && w.history_length == v.history_length && w.pause_level
                == v.pause_level
        }),
{
}

/// Deleting an identifier deletes nothing else: what has another one stays in the
/// history, and stays or moves up elsewhere.
pub proof fn law_deleting_keeps_others(v: StoreView, id: u32, i: int)
    requires
        forall|j: int| 0 <= j < v.displayed.len() ==> (#[trigger] v.displayed[j]).id != id,
    ensures
        0 <= i < v.history.len() && v.history[i].id != id ==> removed_state(v, id).history.contains(
            v.history[i],
        ),
        0 <= i < v.waiting.len() && v.waiting[i].id != id ==> removed_state(v, id).waiting.contains(
            v.waiting[i],
        ),
        removed_state(v, id).displayed == v.displayed,
{
    lemma_first_index(v.displayed, with_id(id), v.displayed.len());
    lemma_filter_all(v.displayed, without_id(id));
    if 0 <= i < v.history.len() && v.history[i].id != id {
        lemma_filter_keeps(v.history, without_id(id), i);
    }
    if 0 <= i < v.waiting.len() && v.waiting[i].id != id {
        lemma_filter_keeps(v.waiting, without_id(id), i);
    }
}

proof fn lemma_each_retained(
    history: Seq<NotificationView>,
    s: Seq<NotificationView>,
    length: nat,
    i: int,
)
    requires
        0 <= i < s.len(),
        !s[i].history_ignore,
        forall|j: int| i < j < s.len() ==> (#[trigger] s[j]).id != s[i].id,
        history.len() + s.len() <= length,
    ensures
        all_retained(history, s, length).contains(s[i]),
    decreases s.len(),
{
    let rest = s.drop_last();
    let h = all_retained(history, rest, length);
    lemma_retained_len(history, rest, length);
    if i < rest.len() {
        assert forall|j: int| i < j < rest.len() implies (#[trigger] rest[j]).id != rest[i].id by {
            assert(rest[j] == s[j]);
        }
        lemma_each_retained(history, rest, length, i);
        let k = choose|k: int| 0 <= k < h.len() && h[k] == s[i];
        let n = s.last();
        assert(s[s.len() - 1].id != s[i].id);
        if !n.history_ignore {
            law_history_keeps_others(h, n, length, k);
        } else {
            assert(retained(h, n, length) == h);
        }
    } else {
        lemma_newest_first(h, s.last(), length);
    }
}

proof fn lemma_newest_first(h: Seq<NotificationView>, n: NotificationView, length: nat)
    requires
        !n.history_ignore,
        length > 0,
    ensures
        retained(h, n, length).contains(n),
{
    assert(retained(h, n, length)[0] == n);
}

proof fn lemma_retained_len(history: Seq<NotificationView>, s: Seq<NotificationView>, length: nat)
    ensures
        all_retained(history, s, length).len() <= history.len() + s.len(),
    decreases s.len(),
{
    if s.len() > 0 {
        let h = all_retained(history, s.drop_last(), length);
        lemma_retained_len(history, s.drop_last(), length);
        lemma_filter_shorter(h, without_id(s.last().id));
    }
}

proof fn lemma_filter_shorter(s: Seq<NotificationView>, p: spec_fn(NotificationView) -> bool)
    ensures
        s.filter(p).len() <= s.len(),
    decreases s.len(),
{
    reveal(Seq::filter);
    if s.len() > 0 {
        lemma_filter_shorter(s.drop_last(), p);
    }
}

/// Dismissing what is displayed puts each notification into the history that may be
/// there, as long as there is room for all.
pub proof fn law_dismissed_are_in_history(v: StoreView, i: int)
    requires
        waits_apart(v),
        0 <= i < v.displayed.len(),
        !v.displayed[i].history_ignore,
        forall|j: int| i < j < v.displayed.len() ==> (#[trigger] v.displayed[j]).id
            != v.displayed[i].id,
        v.history.len() + v.displayed.len() <= v.history_length,
    ensures
        dismissed_state(v).history.contains(v.displayed[i]),
{
    lemma_each_retained(v.history, v.displayed, v.history_length, i);
    law_moving_up_loses_nothing(
        StoreView {
            displayed: Seq::empty(),
            history: all_retained(v.history, v.displayed, v.history_length),
            ..v
        },
    );
}

/// What is shown again is the notification that was asked for, or else the latest of the
/// history.
pub proof fn law_what_is_shown_again(v: StoreView, id: u32, at: int)
    ensures
        popping(v, None) == 0,
        0 <= at < v.history.len() && v.history[at].id == id && (forall|j: int|
            0 <= j < at ==> (#[trigger] v.history[j]).id != id) ==> popping(v, Some(id)) == at,
{
    if 0 <= at < v.history.len() && v.history[at].id == id && (forall|j: int|
        0 <= j < at ==> (#[trigger] v.history[j]).id != id) {
        lemma_first_index(v.history, with_id(id), at as nat);
    }
}

/// Invoking a notification means its default action where it has one, else its only
/// one, and nothing where there are several.
pub proof fn law_invoked_action(actions: Seq<ActionView>, at: int)
    ensures
        0 <= at < actions.len() && actions[at].key == "default"@ ==> chosen_action(actions) == Some(
            "default"@,
        ),
        (forall|j: int| 0 <= j < actions.len() ==> (#[trigger] actions[j]).key != "default"@) ==> {
            &&& actions.len() == 1 ==> chosen_action(actions) == Some(actions[0].key)
            &&& actions.len() != 1 ==> chosen_action(actions) is None
        },
{
    let p = |a: ActionView| a.key == "default"@;
    lemma_first_index_bounds(actions, p);
    if 0 <= at < actions.len() && actions[at].key == "default"@ {
        assert(p(actions[at]));
    }
    if forall|j: int| 0 <= j < actions.len() ==> (#[trigger] actions[j]).key != "default"@ {
        lemma_first_index(actions, p, actions.len());
    }
}

/// Taking an identifier out of the history takes out its first notification, and leaves
/// the others in their order.
pub proof fn law_taken_out_of_history(s: Seq<NotificationView>, id: u32, at: int)
    requires
        0 <= at <= s.len(),
        forall|j: int| 0 <= j < at ==> (#[trigger] s[j]).id != id,
        at < s.len() ==> s[at].id == id,
    ensures
        at == s.len() ==> without_first(s, id) == s,
        at < s.len() ==> without_first(s, id) == s.take(at) + s.skip(at + 1),
        holds_id(s, id) <==> at < s.len(),
{
    lemma_first_index(s, with_id(id), at as nat);
    if at < s.len() {
        assert(s.remove(at) =~= s.take(at) + s.skip(at + 1));
    }
}

/// What is presented comes the most urgent first, and of one urgency by identifier.
pub proof fn law_presented(s: Seq<NotificationView>, i: int, j: int)
    requires
        presented(s),
        0 <= i < j < s.len(),
    ensures
        s[j].urgency is Critical ==> s[i].urgency is Critical,
        s[i].urgency is Low ==> s[j].urgency is Low,
        s[i].urgency == s[j].urgency ==> s[i].id < s[j].id,
{
    assert(more_urgent(s[i], s[j]) || (s[i].urgency == s[j].urgency && s[i].id < s[j].id));
}

} // verus!
