//! The store that the notification daemon and the tray share. A notification is
//! displayed, waits for a free place, or is retained in the history.

use vstd::prelude::*;
use vstd::string::*;

use crate::config::{clone_rules, NotificationConfig, NotificationRuleConfig};
use crate::modules::notification_laws::{
    lemma_closed, lemma_dismissed, lemma_due_ascends, lemma_expired, lemma_history_removed,
    lemma_history_without, lemma_presented, lemma_reconfigured, lemma_removed, lemma_upserted,
};
use crate::modules::notifications::{
    expired, ActionView, CloseReason, Notification, NotificationEvent, NotificationView, Urgency,
};
use crate::seqs::{first_index, lemma_filter_step, lemma_first_index};
use crate::text::same;

verus! {

/// The contents of some notifications.
pub open spec fn notes(s: Seq<Notification>) -> Seq<NotificationView> {
    s.map_values(|n: Notification| n@)
}

/// The state of the store.
#[verifier::ext_equal]
pub struct StoreView {
    /// Displayed notifications, by ascending identifier.
    pub displayed: Seq<NotificationView>,
    /// Notifications that wait for a place, first come first.
    pub waiting: Seq<NotificationView>,
    /// Retained notifications, the latest first.
    pub history: Seq<NotificationView>,
    pub limit: nat,
    pub history_length: nat,
    pub pause_level: u8,
}

/// Whether identifiers ascend, so that none occurs twice.
pub open spec fn ascending(s: Seq<NotificationView>) -> bool {
    forall|i: int, j: int| 0 <= i < j < s.len() ==> s[i].id < s[j].id
}

/// Whether no identifier occurs twice.
pub open spec fn distinct(s: Seq<NotificationView>) -> bool {
    forall|i: int, j: int| 0 <= i < j < s.len() ==> s[i].id != s[j].id
}

/// Whether nothing waits that could be displayed: every place is taken, or
/// what waits may not be displayed.
pub open spec fn settled(v: StoreView) -> bool {
    v.displayed.len() >= v.limit || forall|i: int|
        0 <= i < v.waiting.len() ==> !eligible(v.pause_level)(#[trigger] v.waiting[i])
}

/// What holds of every state of a store: displayed identifiers ascend, the history
/// holds no identifier twice, and nothing waits that could be displayed.
pub open spec fn sound(v: StoreView) -> bool {
    ascending(v.displayed) && distinct(v.history) && settled(v)
}

/// The predicate that holds of the notification with an identifier.
pub open spec fn with_id(id: u32) -> spec_fn(NotificationView) -> bool {
    |n: NotificationView| n.id == id
}

/// The predicate that holds of the notifications without an identifier.
pub open spec fn without_id(id: u32) -> spec_fn(NotificationView) -> bool {
    |n: NotificationView| n.id != id
}

/// The predicate that holds of notifications whose identifier is not less.
pub open spec fn not_below(id: u32) -> spec_fn(NotificationView) -> bool {
    |n: NotificationView| n.id >= id
}

/// The predicate that holds of notifications that may be displayed at a pause
/// level.
pub open spec fn eligible(pause_level: u8) -> spec_fn(NotificationView) -> bool {
    |n: NotificationView| !n.skip_popup && n.override_pause_level >= pause_level
}

/// The predicate that holds of notifications whose time has come.
pub open spec fn timed_out(now: u64) -> spec_fn(NotificationView) -> bool {
    |n: NotificationView| expired(n, now)
}

/// The predicate that holds of notifications of an urgency.
pub open spec fn urgent(urgency: Urgency) -> spec_fn(NotificationView) -> bool {
    |n: NotificationView| n.urgency == urgency
}

/// The predicate that holds of notifications of one application and stack tag.
pub open spec fn stacked_with(m: NotificationView) -> spec_fn(NotificationView) -> bool {
    |n: NotificationView| n.app_name == m.app_name && n.stack_tag == m.stack_tag
}

/// The predicate that holds of notifications that say the same.
pub open spec fn repeated_by(m: NotificationView) -> spec_fn(NotificationView) -> bool {
    |n: NotificationView|
        n.app_name == m.app_name && n.summary == m.summary && n.body == m.body && n.app_icon
            == m.app_icon && n.urgency == m.urgency
}

/// The displayed notifications with one more; it takes the place of one with
/// the same identifier.
pub open spec fn put(s: Seq<NotificationView>, n: NotificationView) -> Seq<NotificationView> {
    let i = first_index(s, not_below(n.id));
    if i < s.len() && s[i as int].id == n.id {
        s.update(i as int, n)
    } else {
        s.insert(i as int, n)
    }
}

/// The state after as many waiting notifications as there are places for and
/// that may be displayed have moved up, in their order.
pub open spec fn promoted(v: StoreView) -> StoreView
    decreases v.waiting.len(),
{
    let i = first_index(v.waiting, eligible(v.pause_level));
    if v.displayed.len() < v.limit && i < v.waiting.len() {
        promoted(
            StoreView {
                displayed: put(v.displayed, v.waiting[i as int]),
                waiting: v.waiting.remove(i as int),
                ..v
            },
        )
    } else {
        v
    }
}

/// The history after a notification is retained: it comes first, an older one
/// with its identifier goes, and so does what is over the length.
pub open spec fn retained(
    history: Seq<NotificationView>,
    n: NotificationView,
    history_length: nat,
) -> Seq<NotificationView> {
    if n.history_ignore || history_length == 0 {
        history
    } else {
        let all = seq![n] + history.filter(without_id(n.id));
        if all.len() <= history_length {
            all
        } else {
            all.take(history_length as int)
        }
    }
}

/// The notification that closing an identifier takes away: a displayed one, or
/// else the first waiting one.
pub open spec fn closing(v: StoreView, id: u32) -> Option<NotificationView> {
    let i = first_index(v.displayed, with_id(id));
    let j = first_index(v.waiting, with_id(id));
    if i < v.displayed.len() {
        Some(v.displayed[i as int])
    } else if j < v.waiting.len() {
        Some(v.waiting[j as int])
    } else {
        None
    }
}

/// The state without the notification that closing an identifier takes away.
pub open spec fn taken(v: StoreView, id: u32) -> StoreView {
    let i = first_index(v.displayed, with_id(id));
    let j = first_index(v.waiting, with_id(id));
    if i < v.displayed.len() {
        StoreView { displayed: v.displayed.remove(i as int), ..v }
    } else if j < v.waiting.len() {
        StoreView { waiting: v.waiting.remove(j as int), ..v }
    } else {
        v
    }
}

/// The state after closing an identifier.
pub open spec fn closed_state(v: StoreView, id: u32) -> StoreView {
    match closing(v, id) {
        Some(n) => promoted(
            StoreView {
                history: retained(v.history, n, v.history_length),
                ..taken(v, id)
            },
        ),
        None => v,
    }
}

/// The state after closing identifiers one after the other.
pub open spec fn closed_all(v: StoreView, ids: Seq<u32>) -> StoreView
    decreases ids.len(),
{
    if ids.len() == 0 {
        v
    } else {
        closed_state(closed_all(v, ids.drop_last()), ids.last())
    }
}

/// The identifiers of some notifications.
pub open spec fn ids_of(s: Seq<NotificationView>) -> Seq<u32> {
    s.map_values(|n: NotificationView| n.id)
}

/// The identifiers of the displayed notifications whose time has come.
pub open spec fn due(v: StoreView, now: u64) -> Seq<u32> {
    ids_of(v.displayed.filter(timed_out(now)))
}

/// The state after what is due is closed.
pub open spec fn expired_state(v: StoreView, now: u64) -> StoreView {
    closed_all(v, due(v, now))
}

/// One more, as far as the number allows.
pub open spec fn one_more(n: u32) -> u32 {
    if n < u32::MAX {
        (n + 1) as u32
    } else {
        n
    }
}

/// The state after a notification arrives at a state in which nothing is due.
/// It takes the place of a displayed one with its identifier, or of one with
/// its application and stack tag; it counts as a repetition of a displayed one
/// that says the same; else it is displayed, where it may be and there is a
/// place, and waits otherwise.
pub open spec fn arrived(w: StoreView, n: NotificationView) -> StoreView {
    let i = first_index(w.displayed, with_id(n.id));
    let j = first_index(w.displayed, stacked_with(n));
    let k = first_index(w.displayed, repeated_by(n));
    if i < w.displayed.len() {
        StoreView {
            displayed: w.displayed.update(
                i as int,
                NotificationView { duplicate_count: w.displayed[i as int].duplicate_count, ..n },
            ),
            ..w
        }
    } else if n.stack_tag.len() > 0 && j < w.displayed.len() {
        StoreView {
            displayed: w.displayed.update(
                j as int,
                NotificationView { id: w.displayed[j as int].id, ..n },
            ),
            ..w
        }
    } else if k < w.displayed.len() {
        StoreView {
            displayed: w.displayed.update(
                k as int,
                NotificationView {
                    duplicate_count: one_more(w.displayed[k as int].duplicate_count),
                    expires_at: n.expires_at,
                    ..w.displayed[k as int]
                },
            ),
            ..w
        }
    } else if !eligible(w.pause_level)(n) || w.displayed.len() >= w.limit {
        StoreView { waiting: w.waiting.push(n), ..w }
    } else {
        StoreView { displayed: put(w.displayed, n), ..w }
    }
}

/// The state after a notification arrives.
pub open spec fn upserted(v: StoreView, n: NotificationView, now: u64) -> StoreView {
    arrived(expired_state(v, now), n)
}

/// The history after some notifications are retained one after the other.
pub open spec fn all_retained(
    history: Seq<NotificationView>,
    s: Seq<NotificationView>,
    history_length: nat,
) -> Seq<NotificationView>
    decreases s.len(),
{
    if s.len() == 0 {
        history
    } else {
        retained(all_retained(history, s.drop_last(), history_length), s.last(), history_length)
    }
}

/// The state after everything displayed is dismissed.
pub open spec fn dismissed_state(v: StoreView) -> StoreView {
    promoted(
        StoreView {
            displayed: Seq::empty(),
            history: all_retained(v.history, v.displayed, v.history_length),
            ..v
        },
    )
}

/// Whether a sequence holds a notification with an identifier.
pub open spec fn holds_id(s: Seq<NotificationView>, id: u32) -> bool {
    first_index(s, with_id(id)) < s.len()
}

/// The sequence without its first notification with an identifier.
pub open spec fn without_first(s: Seq<NotificationView>, id: u32) -> Seq<NotificationView> {
    if holds_id(s, id) {
        s.remove(first_index(s, with_id(id)) as int)
    } else {
        s
    }
}

/// The state without any notification of an identifier.
pub open spec fn cleared_of(v: StoreView, id: u32) -> StoreView {
    StoreView {
        displayed: v.displayed.filter(without_id(id)),
        waiting: v.waiting.filter(without_id(id)),
        history: v.history.filter(without_id(id)),
        ..v
    }
}

/// The state after an identifier is deleted wherever it is, without being
/// retained; what waits moves up where a place became free.
pub open spec fn removed_state(v: StoreView, id: u32) -> StoreView {
    if holds_id(v.displayed, id) {
        promoted(cleared_of(v, id))
    } else {
        cleared_of(v, id)
    }
}

/// The index in the history of what is to be shown again.
pub open spec fn popping(v: StoreView, id: Option<u32>) -> nat {
    match id {
        Some(id) => first_index(v.history, with_id(id)),
        None => 0,
    }
}

/// A retained notification as it is shown again: without its actions and its
/// timeout, and as a popup.
pub open spec fn revived(n: NotificationView) -> NotificationView {
    NotificationView { actions: Seq::empty(), expires_at: None, skip_popup: false, ..n }
}

/// The state after an event.
pub open spec fn after_event(v: StoreView, event: NotificationEvent, now: u64) -> StoreView {
    match event {
        NotificationEvent::Upsert(n) => upserted(v, n@, now),
        NotificationEvent::Close(id) => closed_state(v, id),
        NotificationEvent::Remove(id) => removed_state(v, id),
        NotificationEvent::ClearAll => StoreView {
            displayed: Seq::empty(),
            waiting: Seq::empty(),
            history: Seq::empty(),
            ..v
        },
        NotificationEvent::Refresh => expired_state(v, now),
    }
}

/// The displayed notifications, the most urgent first and else by identifier.
pub open spec fn by_urgency(s: Seq<NotificationView>) -> Seq<NotificationView> {
    s.filter(urgent(Urgency::Critical)) + s.filter(urgent(Urgency::Normal)) + s.filter(
        urgent(Urgency::Low),
    )
}

/// Whether a notification is more urgent than another.
pub open spec fn more_urgent(a: NotificationView, b: NotificationView) -> bool {
    match (a.urgency, b.urgency) {
        (Urgency::Critical, Urgency::Normal) => true,
        (Urgency::Critical, Urgency::Low) => true,
        (Urgency::Normal, Urgency::Low) => true,
        _ => false,
    }
}

/// Whether notifications come the most urgent first, and by ascending identifier
/// within an urgency.
pub open spec fn presented(s: Seq<NotificationView>) -> bool {
    forall|i: int, j: int|
        0 <= i < j < s.len() ==> more_urgent(s[i], s[j]) || (s[i].urgency == s[j].urgency
            && s[i].id < s[j].id)
}

/// The action that invoking a notification means: its default action, or its
/// only one.
pub open spec fn chosen_action(actions: Seq<ActionView>) -> Option<Seq<char>> {
    let i = first_index(actions, |a: ActionView| a.key == "default"@);
    if i < actions.len() {
        Some(actions[i as int].key)
    } else if actions.len() == 1 {
        Some(actions[0].key)
    } else {
        None
    }
}

/// Displayed notifications, notifications that wait, and the history.
pub struct NotificationStore {
    displayed: Vec<Notification>,
    waiting: Vec<Notification>,
    history: Vec<Notification>,
    config: NotificationConfig,
    pause_level: u8,
}

impl View for NotificationStore {
    type V = StoreView;

    closed spec fn view(&self) -> StoreView {
        StoreView {
            displayed: notes(self.displayed@),
            waiting: notes(self.waiting@),
            history: notes(self.history@),
            limit: self.config.notification_limit as nat,
            history_length: self.config.history_length as nat,
            pause_level: self.pause_level,
        }
    }
}

/// The index of the first notification with an identifier, or the length.
fn index_of_id(s: &Vec<Notification>, id: u32) -> (r: usize)
    ensures
        r == first_index(notes(s@), with_id(id)),
        r <= s@.len(),
{
    let mut i: usize = 0;
    while i < s.len() && s[i].id != id
        invariant
            i <= s.len(),
            forall|j: int| 0 <= j < i ==> notes(s@)[j].id != id,
        decreases s.len() - i,
    {
        i += 1;
    }
    proof {
        assert(i < s.len() ==> notes(s@)[i as int].id == id);
        lemma_first_index(notes(s@), with_id(id), i as nat);
    }
    i
}

/// The index of the first notification that may be displayed, or the length.
fn index_of_eligible(s: &Vec<Notification>, pause_level: u8) -> (r: usize)
    ensures
        r == first_index(notes(s@), eligible(pause_level)),
        r <= s@.len(),
{
    let mut i: usize = 0;
    while i < s.len() && !(!s[i].skip_popup && s[i].override_pause_level >= pause_level)
        invariant
            i <= s.len(),
            forall|j: int| 0 <= j < i ==> !eligible(pause_level)(#[trigger] notes(s@)[j]),
        decreases s.len() - i,
    {
        i += 1;
    }
    proof {
        assert(i < s.len() ==> notes(s@)[i as int] == s@[i as int]@);
        lemma_first_index(notes(s@), eligible(pause_level), i as nat);
    }
    i
}

/// The index of the first notification of an application and a stack tag.
fn index_of_stack(s: &Vec<Notification>, n: &Notification) -> (r: usize)
    ensures
        r == first_index(notes(s@), stacked_with(n@)),
        r <= s@.len(),
{
    let mut i: usize = 0;
    while i < s.len() && !(s[i].app_name == n.app_name && s[i].stack_tag == n.stack_tag)
        invariant
            i <= s.len(),
            forall|j: int| 0 <= j < i ==> !stacked_with(n@)(#[trigger] notes(s@)[j]),
        decreases s.len() - i,
    {
        i += 1;
    }
    proof {
        assert(i < s.len() ==> notes(s@)[i as int] == s@[i as int]@);
        lemma_first_index(notes(s@), stacked_with(n@), i as nat);
    }
    i
}

/// The index of the first notification that says the same.
fn index_of_repeated(s: &Vec<Notification>, n: &Notification) -> (r: usize)
    ensures
        r == first_index(notes(s@), repeated_by(n@)),
        r <= s@.len(),
{
    let mut i: usize = 0;
    while i < s.len() && !(s[i].app_name == n.app_name && s[i].summary == n.summary && s[i].body
        == n.body && s[i].app_icon == n.app_icon && s[i].urgency == n.urgency)
        invariant
            i <= s.len(),
            forall|j: int| 0 <= j < i ==> !repeated_by(n@)(#[trigger] notes(s@)[j]),
        decreases s.len() - i,
    {
        i += 1;
    }
    proof {
        assert(i < s.len() ==> notes(s@)[i as int] == s@[i as int]@);
        lemma_first_index(notes(s@), repeated_by(n@), i as nat);
    }
    i
}

/// A copy of some notifications.
fn clone_notes(s: &Vec<Notification>) -> (r: Vec<Notification>)
    ensures
        notes(r@) == notes(s@),
{
    let mut out: Vec<Notification> = Vec::new();
    append_notes(&mut out, s);
    proof {
        assert(notes(out@) =~= notes(s@));
    }
    out
}

/// Appends a copy of some notifications.
fn append_notes(out: &mut Vec<Notification>, s: &Vec<Notification>)
    ensures
        notes(final(out)@) == notes(old(out)@) + notes(s@),
{
    let mut i: usize = 0;
    proof {
        assert(notes(out@) =~= notes(old(out)@) + notes(s@).take(0));
    }
    while i < s.len()
        invariant
            i <= s.len(),
            notes(out@) == notes(old(out)@) + notes(s@).take(i as int),
        decreases s.len() - i,
    {
        let ghost before = out@;
        let copy = s[i].clone();
        out.push(copy);
        proof {
            assert(notes(out@) =~= notes(before).push(copy@));
            assert(notes(s@).take(i + 1) =~= notes(s@).take(i as int).push(notes(s@)[i as int]));
            assert(notes(out@) =~= notes(old(out)@) + notes(s@).take(i + 1));
        }
        i += 1;
    }
    proof {
        assert(notes(s@).take(i as int) =~= notes(s@));
    }
}

/// Deletes the notifications with an identifier.
fn drop_id(s: &mut Vec<Notification>, id: u32)
    ensures
        notes(final(s)@) == notes(old(s)@).filter(without_id(id)),
{
    let ghost h = notes(s@);
    let ghost p = without_id(id);
    let ghost mut k: int = 0;
    let mut i: usize = 0;
    proof {
        assert(h.take(0).filter(p) =~= Seq::empty()) by {
            reveal(Seq::filter);
        }
        assert(notes(s@) =~= h.take(0).filter(p) + h.skip(0));
    }
    while i < s.len()
        invariant
            0 <= k <= h.len(),
            i == h.take(k).filter(p).len(),
            p == without_id(id),
            notes(s@) == h.take(k).filter(p) + h.skip(k),
        decreases h.len() - k,
    {
        let ghost before = s@;
        proof {
            assert(k < h.len());
            assert(notes(s@)[i as int] == h[k]);
            lemma_filter_step(h, p, k);
        }
        if s[i].id == id {
            s.remove(i);
            proof {
                assert(notes(s@) =~= notes(before).remove(i as int));
                assert(notes(s@) =~= h.take(k + 1).filter(p) + h.skip(k + 1));
            }
        } else {
            proof {
                assert(notes(s@) =~= h.take(k + 1).filter(p) + h.skip(k + 1));
            }
            i += 1;
        }
        proof {
            k = k + 1;
        }
    }
    proof {
        assert(h.take(k).filter(p).len() == notes(s@).len());
        assert(h.skip(k).len() == 0);
        assert(h.take(k) =~= h);
        assert(notes(s@) =~= h.filter(p));
    }
}

/// Puts a notification among the displayed ones.
fn put_note(s: &mut Vec<Notification>, n: Notification)
    ensures
        notes(final(s)@) == put(notes(old(s)@), n@),
{
    let mut i: usize = 0;
    while i < s.len() && s[i].id < n.id
        invariant
            i <= s.len(),
            s@ == old(s)@,
            forall|j: int| 0 <= j < i ==> !not_below(n.id)(#[trigger] notes(s@)[j]),
        decreases s.len() - i,
    {
        i += 1;
    }
    let ghost before = s@;
    proof {
        assert(i < s.len() ==> notes(s@)[i as int] == s@[i as int]@);
        lemma_first_index(notes(s@), not_below(n.id), i as nat);
    }
    if i < s.len() && s[i].id == n.id {
        s[i] = n;
        proof {
            assert(notes(s@) =~= notes(before).update(i as int, n@));
        }
    } else {
        s.insert(i, n);
        proof {
            assert(notes(s@) =~= notes(before).insert(i as int, n@));
        }
    }
}

impl Default for NotificationStore {
    fn default() -> (r: Self)
        ensures
            r@ == (StoreView {
                displayed: Seq::empty(),
                waiting: Seq::empty(),
                history: Seq::empty(),
                limit: 20,
                history_length: 20,
                pause_level: 0,
            }),
            r.rules().len() == 0,
            r.valid(),
    {
        NotificationStore::new(NotificationConfig::default())
    }
}

impl NotificationStore {
    /// Whether the store is sound: displayed identifiers ascend, the history holds
    /// no identifier twice, and nothing waits that could be displayed.
    pub open spec fn valid(&self) -> bool {
        sound(self@)
    }

    /// The settings.
    pub closed spec fn settings(&self) -> NotificationConfig {
        self.config
    }

    /// The configured rules.
    pub open spec fn rules(&self) -> Seq<NotificationRuleConfig> {
        self.settings().rules@
    }

    /// A store without notifications.
    pub fn new(config: NotificationConfig) -> (r: Self)
        ensures
            r@ == (StoreView {
                displayed: Seq::empty(),
                waiting: Seq::empty(),
                history: Seq::empty(),
                limit: config.notification_limit as nat,
                history_length: config.history_length as nat,
                pause_level: config.pause_level,
            }),
            r.settings() == config,
            r.rules() == config.rules@,
            r.valid(),
    {
        let pause_level = config.pause_level;
        let r = NotificationStore {
            displayed: Vec::new(),
            waiting: Vec::new(),
            history: Vec::new(),
            config,
            pause_level,
        };
        proof {
            assert(notes(r.displayed@) =~= Seq::empty());
            assert(notes(r.waiting@) =~= Seq::empty());
            assert(notes(r.history@) =~= Seq::empty());
        }
        r
    }

    /// Applies an event.
    pub fn apply(&mut self, event: NotificationEvent, now: u64)
        requires
            old(self).valid(),
        ensures
            final(self).valid(),
            final(self)@ == after_event(old(self)@, event, now),
            final(self).settings() == old(self).settings(),
    {
        match event {
            NotificationEvent::Upsert(notification) => self.upsert(notification, now),
            NotificationEvent::Close(id) => {
                self.close(id, CloseReason::DismissedByUser);
            },
            NotificationEvent::Remove(id) => {
                self.remove(id);
            },
            NotificationEvent::ClearAll => self.clear_all(),
            NotificationEvent::Refresh => {
                self.expire(now);
            },
        }
    }

    /// Takes in a notification.
    pub fn upsert(&mut self, notification: Notification, now: u64)
        requires
            old(self).valid(),
        ensures
            final(self).valid(),
            final(self)@ == upserted(old(self)@, notification@, now),
            final(self).settings() == old(self).settings(),
    {
        let mut notification = notification;
        proof {
            lemma_upserted(self@, notification@, now);
        }
        self.expire(now);
        let ghost w = self@;
        let ghost n = notification@;
        let i: usize = index_of_id(&self.displayed, notification.id);
        if i < self.displayed.len() {
            let ghost before = self.displayed@;
            notification.duplicate_count = self.displayed[i].duplicate_count;
            self.displayed[i] = notification;
            proof {
                assert(notes(self.displayed@) =~= notes(before).update(i as int, notification@));
                assert(self@ =~= arrived(w, n));
            }
            return;
        }
        if !notification.stack_tag.as_str().is_empty() {
            let j: usize = index_of_stack(&self.displayed, &notification);
            if j < self.displayed.len() {
                let ghost before = self.displayed@;
                notification.id = self.displayed[j].id;
                self.displayed[j] = notification;
                proof {
                    assert(notes(self.displayed@) =~= notes(before).update(j as int, notification@));
                    assert(self@ =~= arrived(w, n));
                }
                return;
            }
        }
        let k: usize = index_of_repeated(&self.displayed, &notification);
        if k < self.displayed.len() {
            let ghost before = self.displayed@;
            let count: u32 = self.displayed[k].duplicate_count.saturating_add(1);
            self.displayed[k].duplicate_count = count;
            self.displayed[k].expires_at = notification.expires_at;
            proof {
                assert(notes(self.displayed@) =~= notes(before).update(
                    k as int,
                    self.displayed@[k as int]@,
                ));
                assert(self@ =~= arrived(w, n));
            }
            return;
        }
        if notification.skip_popup || notification.override_pause_level < self.pause_level {
            self.wait(notification);
        } else if self.displayed.len() < self.config.notification_limit {
            put_note(&mut self.displayed, notification);
        } else {
            self.wait(notification);
        }
        proof {
            assert(self@ =~= arrived(w, n));
        }
    }

    /// Lets a notification wait.
    fn wait(&mut self, notification: Notification)
        ensures
            final(self)@ == (StoreView { waiting: old(self)@.waiting.push(notification@), ..old(self)@ }),
            final(self).settings() == old(self).settings(),
    {
        let ghost before = self.waiting@;
        self.waiting.push(notification);
        proof {
            assert(notes(self.waiting@) =~= notes(before).push(notification@));
        }
    }

    /// Closes a notification and retains it in the history.
    pub fn close(&mut self, id: u32, _reason: CloseReason) -> (r: Option<Notification>)
        requires
            old(self).valid(),
        ensures
            final(self).valid(),
            final(self)@ == closed_state(old(self)@, id),
            final(self).settings() == old(self).settings(),
            match r {
                Some(n) => closing(old(self)@, id) == Some(n@),
                None => closing(old(self)@, id) is None,
            },
    {
        let ghost v = self@;
        proof {
            lemma_closed(v, id);
        }
        let notification: Notification;
        let i: usize = index_of_id(&self.displayed, id);
        if i < self.displayed.len() {
            let ghost before = self.displayed@;
            notification = self.displayed.remove(i);
            proof {
                assert(notes(self.displayed@) =~= notes(before).remove(i as int));
            }
        } else {
            let j: usize = index_of_id(&self.waiting, id);
            if j < self.waiting.len() {
                let ghost before = self.waiting@;
                notification = self.waiting.remove(j);
                proof {
                    assert(notes(self.waiting@) =~= notes(before).remove(j as int));
                }
            } else {
                return None;
            }
        }
        proof {
            assert(self@ =~= taken(v, id));
            assert(closing(v, id) == Some(notification@));
        }
        self.push_history(notification.clone());
        self.promote_waiting();
        Some(notification)
    }

    /// Dismisses everything displayed.
    pub fn clear(&mut self)
        requires
            old(self).valid(),
        ensures
            final(self).valid(),
            final(self)@ == dismissed_state(old(self)@),
            final(self).settings() == old(self).settings(),
    {
        let ghost v = self@;
        proof {
            lemma_dismissed(v);
        }
        let mut gone: Vec<Notification> = Vec::new();
        gone.append(&mut self.displayed);
        let ghost all = gone@;
        proof {
            assert(notes(gone@) =~= v.displayed);
            assert(notes(self.displayed@) =~= Seq::empty());
            assert(v.displayed.take(0) =~= Seq::empty());
        }
        let ghost mut k: int = 0;
        while gone.len() > 0
            invariant
                0 <= k <= all.len(),
                gone@ == all.skip(k),
                notes(all) == v.displayed,
                self@ == (StoreView {
                    displayed: Seq::empty(),
                    history: all_retained(v.history, v.displayed.take(k), v.history_length),
                    ..v
                }),
                self.settings() == old(self).settings(),
            decreases gone.len(),
        {
            let ghost h = self@.history;
            let notification = gone.remove(0);
            proof {
                assert(notification == all[k]);
                assert(gone@ =~= all.skip(k + 1));
                assert(v.displayed[k] == notification@);
                assert(v.displayed.take(k + 1).drop_last() =~= v.displayed.take(k));
            }
            self.push_history(notification);
            proof {
                k = k + 1;
            }
        }
        proof {
            assert(v.displayed.take(k) =~= v.displayed);
        }
        self.promote_waiting();
    }

    /// Deletes a notification from every tier, without retaining it.
    pub fn remove(&mut self, id: u32) -> (r: bool)
        requires
            old(self).valid(),
        ensures
            final(self).valid(),
            final(self)@ == removed_state(old(self)@, id),
            final(self).settings() == old(self).settings(),
            r == (holds_id(old(self)@.displayed, id) || holds_id(old(self)@.waiting, id)
                || holds_id(old(self)@.history, id)),
            !holds_id(final(self)@.displayed, id),
            !holds_id(final(self)@.waiting, id),
            !holds_id(final(self)@.history, id),
    {
        let ghost v = self@;
        proof {
            lemma_removed(v, id);
        }
        let displayed = index_of_id(&self.displayed, id) < self.displayed.len();
        let waiting = index_of_id(&self.waiting, id) < self.waiting.len();
        let retained = index_of_id(&self.history, id) < self.history.len();
        drop_id(&mut self.displayed, id);
        drop_id(&mut self.waiting, id);
        drop_id(&mut self.history, id);
        proof {
            assert(self@ =~= cleared_of(v, id));
        }
        if displayed {
            self.promote_waiting();
        }
        displayed || waiting || retained
    }

    /// Empties the notification centre, its history included.
    pub fn clear_all(&mut self)
        requires
            old(self).valid(),
        ensures
            final(self).valid(),
            final(self)@ == (StoreView {
                displayed: Seq::empty(),
                waiting: Seq::empty(),
                history: Seq::empty(),
                ..old(self)@
            }),
            final(self).settings() == old(self).settings(),
    {
        self.displayed.clear();
        self.waiting.clear();
        self.history.clear();
        proof {
            assert(notes(self.displayed@) =~= Seq::empty());
            assert(notes(self.waiting@) =~= Seq::empty());
            assert(notes(self.history@) =~= Seq::empty());
        }
    }

    /// Empties the history.
    pub fn clear_history(&mut self)
        requires
            old(self).valid(),
        ensures
            final(self).valid(),
            final(self)@ == (StoreView { history: Seq::empty(), ..old(self)@ }),
            final(self).settings() == old(self).settings(),
    {
        self.history.clear();
        proof {
            assert(notes(self.history@) =~= Seq::empty());
        }
    }

    /// Closes what is due and returns its identifiers.
    pub fn expire(&mut self, now: u64) -> (r: Vec<u32>)
        requires
            old(self).valid(),
        ensures
            final(self).valid(),
            final(self)@ == expired_state(old(self)@, now),
            final(self).settings() == old(self).settings(),
            r@ == due(old(self)@, now),
            forall|i: int, j: int| 0 <= i < j < r@.len() ==> r@[i] < r@[j],
    {
        let ghost v = self@;
        proof {
            lemma_expired(v, now);
            lemma_due_ascends(v, now);
        }
        let mut ids: Vec<u32> = Vec::new();
        let mut i: usize = 0;
        proof {
            assert(v.displayed.take(0).filter(timed_out(now)) =~= Seq::empty()) by {
                reveal(Seq::filter);
            }
        }
        while i < self.displayed.len()
            invariant
                i <= self.displayed.len(),
                *self == *old(self),
                self@ == v,
                ids@ == ids_of(v.displayed.take(i as int).filter(timed_out(now))),
            decreases self.displayed.len() - i,
        {
            let ghost before = ids@;
            proof {
                lemma_filter_step(v.displayed, timed_out(now), i as int);
            }
            if self.displayed[i].is_expired(now) {
                ids.push(self.displayed[i].id);
                proof {
                    assert(ids@ =~= ids_of(v.displayed.take(i + 1).filter(timed_out(now))));
                }
            }
            i += 1;
        }
        proof {
            assert(v.displayed.take(i as int) =~= v.displayed);
            assert(ids@ == due(v, now));
            assert(ids@.take(0) =~= Seq::empty());
        }
        let mut k: usize = 0;
        while k < ids.len()
            invariant
                k <= ids.len(),
                self.valid(),
                self@ == closed_all(v, ids@.take(k as int)),
                self.settings() == old(self).settings(),
            decreases ids.len() - k,
        {
            proof {
                assert(ids@.take(k + 1).drop_last() =~= ids@.take(k as int));
            }
            self.close(ids[k], CloseReason::Expired);
            k += 1;
        }
        proof {
            assert(ids@.take(k as int) =~= ids@);
        }
        ids
    }

    /// Moves up waiting notifications as far as there are places.
    fn promote_waiting(&mut self)
        ensures
            final(self)@ == promoted(old(self)@),
            final(self).settings() == old(self).settings(),
    {
        loop
            invariant
                promoted(self@) == promoted(old(self)@),
                self.settings() == old(self).settings(),
            decreases self.waiting.len(),
        {
            if self.displayed.len() >= self.config.notification_limit {
                return;
            }
            let i: usize = index_of_eligible(&self.waiting, self.pause_level);
            if i >= self.waiting.len() {
                return;
            }
            let ghost v = self@;
            let ghost before = self.waiting@;
            let notification = self.waiting.remove(i);
            put_note(&mut self.displayed, notification);
            proof {
                assert(notes(self.waiting@) =~= notes(before).remove(i as int));
                assert(self@ =~= StoreView {
                    displayed: put(v.displayed, v.waiting[i as int]),
                    waiting: v.waiting.remove(i as int),
                    ..v
                });
            }
        }
    }

    /// Retains a notification in the history.
    fn push_history(&mut self, notification: Notification)
        ensures
            final(self)@ == (StoreView {
                history: retained(old(self)@.history, notification@, old(self)@.history_length),
                ..old(self)@
            }),
            final(self).settings() == old(self).settings(),
    {
        if notification.history_ignore || self.config.history_length == 0 {
            return;
        }
        let ghost h = self@.history;
        drop_id(&mut self.history, notification.id);
        let ghost kept = self.history@;
        self.history.insert(0, notification);
        proof {
            assert(notes(self.history@) =~= seq![notification@] + notes(kept));
        }
        let ghost all = self.history@;
        self.history.truncate(self.config.history_length);
        proof {
            assert(notes(self.history@) =~= retained(h, notification@, self@.history_length));
        }
    }

    /// Sets the pause level, at most a hundred.
    pub fn set_pause_level(&mut self, level: u8)
        requires
            old(self).valid(),
        ensures
            final(self).valid(),
            final(self)@ == promoted(
                StoreView {
                    pause_level: if level < 100 {
                        level
                    } else {
                        100
                    },
                    ..old(self)@
                },
            ),
            final(self).settings() == old(self).settings(),
    {
        let ghost v = self@;
        self.pause_level = if level < 100 {
            level
        } else {
            100
        };
        proof {
            lemma_reconfigured(v, self@);
        }
        self.promote_waiting();
    }

    /// The pause level.
    pub fn pause_level(&self) -> (r: u8)
        ensures
            r == self@.pause_level,
    {
        self.pause_level
    }

    /// How many notifications there are.
    pub fn count(&self) -> (r: usize)
        requires
            self@.displayed.len() + self@.waiting.len() + self@.history.len() <= usize::MAX,
        ensures
            r == self@.displayed.len() + self@.waiting.len() + self@.history.len(),
    {
        self.displayed.len() + self.waiting.len() + self.history.len()
    }

    /// How many notifications are displayed.
    pub fn displayed_count(&self) -> (r: usize)
        ensures
            r == self@.displayed.len(),
    {
        self.displayed.len()
    }

    /// How many notifications wait.
    pub fn waiting_count(&self) -> (r: usize)
        ensures
            r == self@.waiting.len(),
    {
        self.waiting.len()
    }

    /// How many notifications the history retains.
    pub fn history_count(&self) -> (r: usize)
        ensures
            r == self@.history.len(),
    {
        self.history.len()
    }

    /// All notifications: the displayed ones, those that wait, the history.
    pub fn snapshot(&self) -> (r: Vec<Notification>)
        ensures
            notes(r@) == self@.displayed + self@.waiting + self@.history,
    {
        let mut out = clone_notes(&self.displayed);
        append_notes(&mut out, &self.waiting);
        append_notes(&mut out, &self.history);
        out
    }

    /// The displayed notifications, the most urgent first.
    pub fn displayed_snapshot(&self) -> (r: Vec<Notification>)
        requires
            self.valid(),
        ensures
            notes(r@) == by_urgency(self@.displayed),
            presented(notes(r@)),
    {
        proof {
            lemma_presented(self@.displayed);
        }
        let mut out: Vec<Notification> = Vec::new();
        proof {
            assert(notes(out@) =~= Seq::empty());
        }
        self.append_urgent(&mut out, Urgency::Critical);
        self.append_urgent(&mut out, Urgency::Normal);
        self.append_urgent(&mut out, Urgency::Low);
        proof {
            assert(notes(out@) =~= by_urgency(self@.displayed));
        }
        out
    }

    /// Appends the displayed notifications of an urgency.
    fn append_urgent(&self, out: &mut Vec<Notification>, urgency: Urgency)
        ensures
            notes(final(out)@) == notes(old(out)@) + self@.displayed.filter(urgent(urgency)),
    {
        let ghost s = self@.displayed;
        let ghost p = urgent(urgency);
        let mut i: usize = 0;
        proof {
            assert(s.take(0).filter(p) =~= Seq::empty()) by {
                reveal(Seq::filter);
            }
            assert(notes(out@) =~= notes(old(out)@) + s.take(0).filter(p));
        }
        while i < self.displayed.len()
            invariant
                i <= self.displayed.len(),
                s == self@.displayed,
                p == urgent(urgency),
                notes(out@) == notes(old(out)@) + s.take(i as int).filter(p),
            decreases self.displayed.len() - i,
        {
            proof {
                lemma_filter_step(s, p, i as int);
            }
            if self.displayed[i].urgency == urgency {
                let ghost before = out@;
                let copy = self.displayed[i].clone();
                out.push(copy);
                proof {
                    assert(notes(out@) =~= notes(before).push(copy@));
                    assert(notes(out@) =~= notes(old(out)@) + s.take(i + 1).filter(p));
                }
            }
            i += 1;
        }
        proof {
            assert(s.take(i as int) =~= s);
        }
    }

    /// The history.
    pub fn history_snapshot(&self) -> (r: Vec<Notification>)
        ensures
            notes(r@) == self@.history,
    {
        clone_notes(&self.history)
    }

    /// The rules.
    pub fn rules_snapshot(&self) -> (r: Vec<NotificationRuleConfig>)
        ensures
            r@ == self.rules(),
    {
        clone_rules(&self.config.rules)
    }

    /// Shows a retained notification again: the one with the identifier, or the
    /// latest.
    pub fn pop_history(&mut self, id: Option<u32>, now: u64) -> (r: Option<Notification>)
        requires
            old(self).valid(),
        ensures
            final(self).valid(),
            final(self).settings() == old(self).settings(),
            ({
                let v = old(self)@;
                let i = popping(v, id);
                if i < v.history.len() {
                    &&& r matches Some(n) && n@ == revived(v.history[i as int])
                    &&& final(self)@ == upserted(
                        StoreView { history: v.history.remove(i as int), ..v },
                        revived(v.history[i as int]),
                        now,
                    )
                } else {
                    r is None && final(self)@ == v
                }
            }),
    {
        let ghost v = self@;
        let index: usize = match id {
            Some(id) => index_of_id(&self.history, id),
            None => 0,
        };
        if index >= self.history.len() {
            return None;
        }
        let ghost before = self.history@;
        let mut notification = self.history.remove(index);
        proof {
            assert(notes(self.history@) =~= notes(before).remove(index as int));
            assert(self@ =~= StoreView { history: v.history.remove(index as int), ..v });
            lemma_history_without(v, index as int);
        }
        notification.actions = Vec::new();
        notification.expires_at = None;
        notification.skip_popup = false;
        proof {
            assert(notification@.actions =~= Seq::empty());
            assert(notification@ == revived(v.history[index as int]));
        }
        self.upsert(notification.clone(), now);
        Some(notification)
    }

    /// Deletes a notification from the history.
    pub fn remove_history(&mut self, id: u32) -> (r: bool)
        requires
            old(self).valid(),
        ensures
            final(self).valid(),
            final(self)@ == (StoreView {
                history: without_first(old(self)@.history, id),
                ..old(self)@
            }),
            final(self).settings() == old(self).settings(),
            r == holds_id(old(self)@.history, id),
    {
        proof {
            lemma_history_removed(self@, id);
        }
        let i: usize = index_of_id(&self.history, id);
        if i < self.history.len() {
            let ghost before = self.history@;
            self.history.remove(i);
            proof {
                assert(notes(self.history@) =~= notes(before).remove(i as int));
            }
            true
        } else {
            false
        }
    }

    /// Takes over new settings.
    pub fn reload(&mut self, config: NotificationConfig)
        requires
            old(self).valid(),
        ensures
            final(self).valid(),
            final(self)@ == promoted(
                StoreView {
                    limit: config.notification_limit as nat,
                    history_length: config.history_length as nat,
                    pause_level: config.pause_level,
                    ..old(self)@
                },
            ),
            final(self).settings() == config,
            final(self).rules() == config.rules@,
    {
        let ghost v = self@;
        self.pause_level = config.pause_level;
        self.config = config;
        proof {
            lemma_reconfigured(v, self@);
        }
        self.promote_waiting();
    }

    /// The settings.
    pub fn config(&self) -> (r: &NotificationConfig)
        ensures
            *r == self.settings(),
            r.notification_limit == self@.limit,
            r.history_length == self@.history_length,
    {
        &self.config
    }

    /// Enables, disables or toggles the first rule of a name.
    pub fn rule_enable(&mut self, name: &str, state: i32)
        requires
            old(self).valid(),
        ensures
            final(self).valid(),
            final(self)@ == old(self)@,
            final(self).settings() == (NotificationConfig {
                rules: final(self).settings().rules,
                ..old(self).settings()
            }),
            ({
                let rules = old(self).rules();
                let i = first_index(rules, |r: NotificationRuleConfig| r.name@ == name@);
                if i < rules.len() {
                    final(self).rules() == rules.update(
                        i as int,
                        NotificationRuleConfig {
                            enabled: if state == 0 {
                                false
                            } else if state == 1 {
                                true
                            } else {
                                !rules[i as int].enabled
                            },
                            ..rules[i as int]
                        },
                    )
                } else {
                    final(self).rules() == rules
                }
            }),
    {
        let ghost rules = self.rules();
        let ghost p = |r: NotificationRuleConfig| r.name@ == name@;
        let mut i: usize = 0;
        while i < self.config.rules.len() && !same(self.config.rules[i].name.as_str(), name)
            invariant
                i <= self.config.rules.len(),
                *self == *old(self),
                rules == self.config.rules@,
                p == (|r: NotificationRuleConfig| r.name@ == name@),
                forall|j: int| 0 <= j < i ==> !p(#[trigger] rules[j]),
            decreases self.config.rules.len() - i,
        {
            i += 1;
        }
        proof {
            lemma_first_index(rules, p, i as nat);
        }
        if i < self.config.rules.len() {
            let enabled = self.config.rules[i].enabled;
            self.config.rules[i].enabled = if state == 0 {
                false
            } else if state == 1 {
                true
            } else {
                !enabled
            };
        }
    }

    /// The identifier of the displayed notification that closing the last one
    /// means: the most urgent.
    pub fn last_displayed(&self) -> (r: Option<u32>)
        requires
            self.valid(),
        ensures
            r == if self@.displayed.len() == 0 {
                None::<u32>
            } else {
                Some(by_urgency(self@.displayed)[0].id)
            },
    {
        let snapshot = self.displayed_snapshot();
        proof {
            lemma_by_urgency_len(self@.displayed);
            assert(snapshot@.len() == notes(snapshot@).len());
        }
        if snapshot.len() == 0 {
            None
        } else {
            proof {
                assert(notes(snapshot@)[0] == snapshot@[0]@);
            }
            Some(snapshot[0].id)
        }
    }

    /// What invoking the displayed notification at a position means: its
    /// identifier and the key of the action.
    pub fn invoked_action(&self, position: u32) -> (r: Option<(u32, String)>)
        requires
            self.valid(),
        ensures
            ({
                let s = by_urgency(self@.displayed);
                if position < s.len() && chosen_action(s[position as int].actions) is Some {
                    r matches Some((id, key)) && id == s[position as int].id && Some(key@)
                        == chosen_action(s[position as int].actions)
                } else {
                    r is None
                }
            }),
    {
        let snapshot = self.displayed_snapshot();
        proof {
            assert(snapshot@.len() == notes(snapshot@).len());
        }
        if position as usize >= snapshot.len() {
            return None;
        }
        let notification = &snapshot[position as usize];
        let actions = &notification.actions;
        let ghost av = notification@.actions;
        let ghost p = |a: ActionView| a.key == "default"@;
        proof {
            assert(notes(snapshot@)[position as int] == notification@);
        }
        let mut i: usize = 0;
        while i < actions.len() && !same(actions[i].key.as_str(), "default")
            invariant
                i <= actions.len(),
                av == crate::modules::notifications::action_views(actions@),
                p == (|a: ActionView| a.key == "default"@),
                forall|j: int| 0 <= j < i ==> !p(#[trigger] av[j]),
            decreases actions.len() - i,
        {
            i += 1;
        }
        proof {
            assert(i < actions.len() ==> av[i as int] == actions@[i as int]@);
            lemma_first_index(av, p, i as nat);
        }
        if i < actions.len() {
            return Some((notification.id, actions[i].key.clone()));
        }
        if actions.len() == 1 {
            return Some((notification.id, actions[0].key.clone()));
        }
        None
    }
}

/// The limits of a store are those of its settings.
pub proof fn law_limits_are_settings(store: &NotificationStore)
    ensures
        store@.limit == store.settings().notification_limit,
        store@.history_length == store.settings().history_length,
{
}

/// Each notification has one of the urgencies, so none is lost by the order.
pub proof fn lemma_by_urgency_len(s: Seq<NotificationView>)
    ensures
        by_urgency(s).len() == s.len(),
    decreases s.len(),
{
    reveal(Seq::filter);
    if s.len() > 0 {
        lemma_by_urgency_len(s.drop_last());
    }
}

} // verus!
