//! The notification daemon: how a request becomes a notification, and the store
//! that keeps notifications displayed, waiting or retained in the history.
//!
//! Points in time are nanoseconds on the caller's monotonic clock.

use vstd::prelude::*;
use vstd::string::*;

use crate::config::{NotificationConfig, NotificationRuleConfig};
use crate::seqs::{find_first, lemma_first_index};
use crate::text::{
    ascii_lowercase, ascii_lowercase_text, contains_text, ends_with, opt_view, same, split_once,
    split_text_once, starts_with, text_contains, text_ends_with, text_starts_with, views,
};

verus! {

/// The bus name under which the daemon is reached.
pub const NOTIFICATION_BUS_NAME: &'static str = "org.freedesktop.Notifications";

/// The object path under which the daemon is reached.
pub const NOTIFICATION_OBJECT_PATH: &'static str = "/org/freedesktop/Notifications";

/// How urgent a notification is.
#[derive(Clone, Copy, Debug, PartialEq, Eq, PartialOrd, Ord, Structural)]
pub enum Urgency {
    Low,
    Normal,
    Critical,
}

/// A hint of a request, as the conversions of its value to the types that the
/// daemon reads came out.
#[derive(Debug)]
pub struct Hint {
    pub name: String,
    pub byte: Option<u8>,
    pub integer: Option<i32>,
    pub flag: Option<bool>,
    pub text: Option<String>,
}

/// The predicate that holds of the hints of a name.
pub open spec fn of_name(name: Seq<char>) -> spec_fn(Hint) -> bool {
    |h: Hint| h.name@ == name
}

/// The hint of a name.
pub open spec fn hint_named(hints: Seq<Hint>, name: Seq<char>) -> Option<Hint> {
    find_first(hints, of_name(name))
}

/// The hint of a name.
fn find_hint<'a>(hints: &'a Vec<Hint>, name: &str) -> (r: Option<&'a Hint>)
    ensures
        match r {
            Some(h) => hint_named(hints@, name@) == Some(*h),
            None => hint_named(hints@, name@) is None,
        },
{
    let ghost p = of_name(name@);
    let mut i: usize = 0;
    while i < hints.len()
        invariant
            i <= hints.len(),
            p == of_name(name@),
            forall|j: int| 0 <= j < i ==> !p(#[trigger] hints@[j]),
        decreases hints.len() - i,
    {
        if same(hints[i].name.as_str(), name) {
            proof {
                lemma_first_index(hints@, p, i as nat);
            }
            return Some(&hints[i]);
        }
        i += 1;
    }
    proof {
        lemma_first_index(hints@, p, i as nat);
    }
    None
}

/// The urgency that the hints ask for: normal without a hint that can be read.
pub open spec fn hinted_urgency(hints: Seq<Hint>) -> Urgency {
    match hint_named(hints, "urgency"@) {
        Some(h) => match h.byte {
            Some(value) => if value == 0 {
                Urgency::Low
            } else if value >= 2 {
                Urgency::Critical
            } else {
                Urgency::Normal
            },
            None => Urgency::Normal,
        },
        None => Urgency::Normal,
    }
}

/// The name of an urgency.
pub open spec fn urgency_name(urgency: Urgency) -> Seq<char> {
    match urgency {
        Urgency::Low => "low"@,
        Urgency::Normal => "normal"@,
        Urgency::Critical => "critical"@,
    }
}

impl Urgency {
    /// The urgency that the hints ask for.
    pub fn from_hint(hints: &Vec<Hint>) -> (r: Self)
        ensures
            r == hinted_urgency(hints@),
    {
        match find_hint(hints, "urgency") {
            Some(hint) => match hint.byte {
                Some(value) => if value == 0 {
                    Urgency::Low
                } else if value >= 2 {
                    Urgency::Critical
                } else {
                    Urgency::Normal
                },
                None => Urgency::Normal,
            },
            None => Urgency::Normal,
        }
    }

    /// The name of the urgency.
    pub fn as_str(self) -> (r: &'static str)
        ensures
            r@ == urgency_name(self),
    {
        match self {
            Urgency::Low => "low",
            Urgency::Normal => "normal",
            Urgency::Critical => "critical",
        }
    }
}

/// An action that a notification offers.
#[derive(Debug)]
pub struct NotificationAction {
    pub key: String,
    pub label: String,
}

/// The contents of an action.
pub struct ActionView {
    pub key: Seq<char>,
    pub label: Seq<char>,
}

impl View for NotificationAction {
    type V = ActionView;

    open spec fn view(&self) -> ActionView {
        ActionView { key: self.key@, label: self.label@ }
    }
}

impl Clone for NotificationAction {
    fn clone(&self) -> (r: Self)
        ensures
            r == *self,
    {
        NotificationAction { key: self.key.clone(), label: self.label.clone() }
    }
}

/// The contents of some actions.
pub open spec fn action_views(actions: Seq<NotificationAction>) -> Seq<ActionView> {
    actions.map_values(|a: NotificationAction| a@)
}

/// A copy of some actions.
fn clone_actions(actions: &Vec<NotificationAction>) -> (r: Vec<NotificationAction>)
    ensures
        r@ == actions@,
{
    let mut out: Vec<NotificationAction> = Vec::new();
    let mut i: usize = 0;
    while i < actions.len()
        invariant
            i <= actions.len(),
            out@ == actions@.take(i as int),
        decreases actions.len() - i,
    {
        out.push(actions[i].clone());
        i += 1;
    }
    proof {
        assert(actions@.take(i as int) =~= actions@);
    }
    out
}

/// A notification.
#[derive(Debug)]
pub struct Notification {
    pub id: u32,
    pub app_name: String,
    pub summary: String,
    pub body: String,
    pub app_icon: String,
    pub category: String,
    pub desktop_entry: String,
    pub actions: Vec<NotificationAction>,
    pub urgency: Urgency,
    pub progress: Option<u8>,
    pub stack_tag: String,
    pub transient: bool,
    pub duplicate_count: u32,
    pub history_ignore: bool,
    pub skip_popup: bool,
    pub override_pause_level: u8,
    pub expires_at: Option<u128>,
}

/// The contents of a notification.
pub struct NotificationView {
    pub id: u32,
    pub app_name: Seq<char>,
    pub summary: Seq<char>,
    pub body: Seq<char>,
    pub app_icon: Seq<char>,
    pub category: Seq<char>,
    pub desktop_entry: Seq<char>,
    pub actions: Seq<ActionView>,
    pub urgency: Urgency,
    pub progress: Option<u8>,
    pub stack_tag: Seq<char>,
    pub transient: bool,
    pub duplicate_count: u32,
    pub history_ignore: bool,
    pub skip_popup: bool,
    pub override_pause_level: u8,
    pub expires_at: Option<u128>,
}

impl View for Notification {
    type V = NotificationView;

    open spec fn view(&self) -> NotificationView {
        NotificationView {
            id: self.id,
            app_name: self.app_name@,
            summary: self.summary@,
            body: self.body@,
            app_icon: self.app_icon@,
            category: self.category@,
            desktop_entry: self.desktop_entry@,
            actions: action_views(self.actions@),
            urgency: self.urgency,
            progress: self.progress,
            stack_tag: self.stack_tag@,
            transient: self.transient,
            duplicate_count: self.duplicate_count,
            history_ignore: self.history_ignore,
            skip_popup: self.skip_popup,
            override_pause_level: self.override_pause_level,
            expires_at: self.expires_at,
        }
    }
}

impl Clone for Notification {
    fn clone(&self) -> (r: Self)
        ensures
            r@ == self@,
    {
        Notification {
            id: self.id,
            app_name: self.app_name.clone(),
            summary: self.summary.clone(),
            body: self.body.clone(),
            app_icon: self.app_icon.clone(),
            category: self.category.clone(),
            desktop_entry: self.desktop_entry.clone(),
            actions: clone_actions(&self.actions),
            urgency: self.urgency,
            progress: self.progress,
            stack_tag: self.stack_tag.clone(),
            transient: self.transient,
            duplicate_count: self.duplicate_count,
            history_ignore: self.history_ignore,
            skip_popup: self.skip_popup,
            override_pause_level: self.override_pause_level,
            expires_at: self.expires_at,
        }
    }
}

/// Whether a notification's time has come.
pub open spec fn expired(n: NotificationView, now: u64) -> bool {
    match n.expires_at {
        Some(at) => at <= now,
        None => false,
    }
}

/// A request to show a notification.
#[derive(Debug)]
pub struct NotificationRequest {
    pub app_name: String,
    pub app_icon: String,
    pub summary: String,
    pub body: String,
    pub actions: Vec<String>,
    pub hints: Vec<Hint>,
    pub expire_timeout: i32,
}

/// Why a notification is closed.
#[derive(Clone, Copy, Debug, PartialEq, Eq, Structural)]
pub enum CloseReason {
    Expired,
    DismissedByUser,
    ClosedByClient,
}

impl CloseReason {
    /// The number of the reason in the notification protocol.
    pub fn code(self) -> (r: u32)
        ensures
            r == match self {
                CloseReason::Expired => 1u32,
                CloseReason::DismissedByUser => 2u32,
                CloseReason::ClosedByClient => 3u32,
            },
    {
        match self {
            CloseReason::Expired => 1,
            CloseReason::DismissedByUser => 2,
            CloseReason::ClosedByClient => 3,
        }
    }
}

/// Something that happens to the store.
#[derive(Debug)]
pub enum NotificationEvent {
    Upsert(Notification),
    Close(u32),
    Remove(u32),
    ClearAll,
    Refresh,
}

/// The text of a hint, or nothing.
pub open spec fn hinted_text(hints: Seq<Hint>, name: Seq<char>) -> Seq<char> {
    match hint_named(hints, name) {
        Some(h) => match h.text {
            Some(text) => text@,
            None => Seq::empty(),
        },
        None => Seq::empty(),
    }
}

/// The text of a hint, or nothing.
pub fn string_hint(hints: &Vec<Hint>, name: &str) -> (r: String)
    ensures
        r@ == hinted_text(hints@, name@),
{
    match find_hint(hints, name) {
        Some(hint) => match &hint.text {
            Some(text) => text.clone(),
            None => String::new(),
        },
        None => String::new(),
    }
}

/// Whether a hint is set.
pub open spec fn hinted_flag(hints: Seq<Hint>, name: Seq<char>) -> bool {
    match hint_named(hints, name) {
        Some(h) => h.flag == Some(true),
        None => false,
    }
}

/// Whether a hint is set.
pub fn bool_hint(hints: &Vec<Hint>, name: &str) -> (r: bool)
    ensures
        r == hinted_flag(hints@, name@),
{
    match find_hint(hints, name) {
        Some(hint) => match hint.flag {
            Some(flag) => flag,
            None => false,
        },
        None => false,
    }
}

/// The hint that holds the progress: the first of three names that is there.
pub open spec fn progress_source(hints: Seq<Hint>) -> Option<Hint> {
    match hint_named(hints, "value"@) {
        Some(h) => Some(h),
        None => match hint_named(hints, "x-dunst-progress"@) {
            Some(h) => Some(h),
            None => hint_named(hints, "x-canonical-progress"@),
        },
    }
}

/// The progress in percent, at most a hundred, where its hint holds a byte.
pub open spec fn hinted_progress(hints: Seq<Hint>) -> Option<u8> {
    match progress_source(hints) {
        Some(h) => match h.integer {
            Some(value) => if 0 <= value <= 100 {
                Some(value as u8)
            } else if 100 < value <= 255 {
                Some(100u8)
            } else {
                None
            },
            None => None,
        },
        None => None,
    }
}

/// The progress that the hints give.
pub fn progress_hint(hints: &Vec<Hint>) -> (r: Option<u8>)
    ensures
        r == hinted_progress(hints@),
{
    let mut source = find_hint(hints, "value");
    if source.is_none() {
        source = find_hint(hints, "x-dunst-progress");
        if source.is_none() {
            source = find_hint(hints, "x-canonical-progress");
        }
    }
    match source {
        Some(hint) => match hint.integer {
            Some(value) => if 0 <= value && value <= 100 {
                Some(value as u8)
            } else if 100 < value && value <= 255 {
                Some(100)
            } else {
                None
            },
            None => None,
        },
        None => None,
    }
}

/// The text of a hint, where there is such a hint and it holds text.
pub open spec fn text_of_hint(hints: Seq<Hint>, name: Seq<char>) -> Option<Seq<char>> {
    match hint_named(hints, name) {
        Some(h) => opt_view(h.text),
        None => None,
    }
}

/// The stack tag: the text of the first of four names that holds text.
pub open spec fn hinted_stack_tag(hints: Seq<Hint>) -> Seq<char> {
    match text_of_hint(hints, "x-dunst-stack-tag"@) {
        Some(t) => t,
        None => match text_of_hint(hints, "x-canonical-private-synchronous"@) {
            Some(t) => t,
            None => match text_of_hint(hints, "private-synchronous"@) {
                Some(t) => t,
                None => match text_of_hint(hints, "synchronous"@) {
                    Some(t) => t,
                    None => Seq::empty(),
                },
            },
        },
    }
}

/// The text of a hint, where there is such a hint and it holds text.
fn text_hint(hints: &Vec<Hint>, name: &str) -> (r: Option<String>)
    ensures
        opt_view(r) == text_of_hint(hints@, name@),
{
    match find_hint(hints, name) {
        Some(hint) => match &hint.text {
            Some(text) => Some(text.clone()),
            None => None,
        },
        None => None,
    }
}

/// The stack tag that the hints give.
pub fn stack_tag_hint(hints: &Vec<Hint>) -> (r: String)
    ensures
        r@ == hinted_stack_tag(hints@),
{
    if let Some(text) = text_hint(hints, "x-dunst-stack-tag") {
        return text;
    }
    if let Some(text) = text_hint(hints, "x-canonical-private-synchronous") {
        return text;
    }
    if let Some(text) = text_hint(hints, "private-synchronous") {
        return text;
    }
    if let Some(text) = text_hint(hints, "synchronous") {
        return text;
    }
    String::new()
}

/// Whether an action asks never to be shown again.
pub open spec fn suppresses(key: Seq<char>, label: Seq<char>) -> bool {
    let k = ascii_lowercase(key);
    let l = ascii_lowercase(label);
    ||| contains_text(l, "今後表示しない"@)
    ||| contains_text(l, "don't show again"@)
    ||| contains_text(l, "do not show again"@)
    ||| contains_text(k, "dont-show"@)
    ||| contains_text(k, "do-not-show"@)
    ||| contains_text(k, "suppress"@)
}

/// Whether an action asks never to be shown again.
pub fn is_suppress_action(key: &str, label: &str) -> (r: bool)
    ensures
        r == suppresses(key@, label@),
{
    let key = ascii_lowercase_text(key);
    let label = ascii_lowercase_text(label);
    text_contains(label.as_str(), "今後表示しない") || text_contains(
        label.as_str(),
        "don't show again",
    ) || text_contains(label.as_str(), "do not show again") || text_contains(
        key.as_str(),
        "dont-show",
    ) || text_contains(key.as_str(), "do-not-show") || text_contains(key.as_str(), "suppress")
}

/// The actions among the first `n` pairs of a list that are presented; a last
/// item without a partner is no action.
pub open spec fn presented_actions(items: Seq<Seq<char>>, n: nat) -> Seq<ActionView>
    decreases n,
{
    if n == 0 {
        Seq::empty()
    } else {
        let before = presented_actions(items, (n - 1) as nat);
        let key = items[2 * (n - 1)];
        let label = items[2 * (n - 1) + 1];
        if suppresses(key, label) {
            before
        } else {
            before.push(ActionView { key, label })
        }
    }
}

/// The actions that a request presents.
pub fn request_actions(items: &Vec<String>) -> (r: Vec<NotificationAction>)
    ensures
        action_views(r@) == presented_actions(views(items@), (items@.len() / 2) as nat),
{
    let mut out: Vec<NotificationAction> = Vec::new();
    let mut n: usize = 0;
    while n < items.len() / 2
        invariant
            n <= items.len() / 2,
            action_views(out@) == presented_actions(views(items@), n as nat),
        decreases items.len() / 2 - n,
    {
        let key = &items[2 * n];
        let label = &items[2 * n + 1];
        let ghost before = out@;
        if !is_suppress_action(key.as_str(), label.as_str()) {
            out.push(NotificationAction { key: key.clone(), label: label.clone() });
            proof {
                assert(action_views(out@) =~= action_views(before).push(
                    ActionView { key: key@, label: label@ },
                ));
            }
        }
        n += 1;
    }
    out
}

/// The pause level up to which a notification of an urgency is still shown.
pub open spec fn default_level(urgency: Urgency) -> u8 {
    match urgency {
        Urgency::Low => 0,
        Urgency::Normal => 30,
        Urgency::Critical => 60,
    }
}

/// The pause level up to which a notification of an urgency is still shown.
pub fn default_override_pause_level(urgency: Urgency) -> (r: u8)
    ensures
        r == default_level(urgency),
{
    match urgency {
        Urgency::Low => 0,
        Urgency::Normal => 30,
        Urgency::Critical => 60,
    }
}

/// The point in time a number of seconds from now; none for zero seconds.
pub open spec fn after_seconds(now: u64, seconds: u64) -> Option<u128> {
    if seconds > 0 {
        Some((now + seconds * 1_000_000_000) as u128)
    } else {
        None
    }
}

/// The configured timeout of an urgency.
pub open spec fn configured_timeout(urgency: Urgency, config: NotificationConfig) -> u64 {
    match urgency {
        Urgency::Low => config.low_timeout_seconds,
        Urgency::Normal => config.normal_timeout_seconds,
        Urgency::Critical => config.critical_timeout_seconds,
    }
}

/// When a requested timeout runs out: milliseconds from now, never for zero,
/// and as configured for the urgency where it is negative.
pub open spec fn requested_expiry(
    timeout: i32,
    urgency: Urgency,
    config: NotificationConfig,
    now: u64,
) -> Option<u128> {
    if timeout > 0 {
        Some((now + timeout * 1_000_000) as u128)
    } else if timeout == 0 {
        None
    } else {
        after_seconds(now, configured_timeout(urgency, config))
    }
}

/// The point in time a number of seconds from now; none for zero seconds.
fn seconds_from(now: u64, seconds: u64) -> (r: Option<u128>)
    ensures
        r == after_seconds(now, seconds),
{
    if seconds > 0 {
        Some(now as u128 + seconds as u128 * 1_000_000_000)
    } else {
        None
    }
}

/// When a requested timeout runs out.
pub fn timeout_from_request(
    timeout: i32,
    urgency: Urgency,
    config: &NotificationConfig,
    now: u64,
) -> (r: Option<u128>)
    ensures
        r == requested_expiry(timeout, urgency, *config, now),
{
    if timeout >= 0 {
        if timeout > 0 {
            return Some(now as u128 + timeout as u128 * 1_000_000);
        }
        return None;
    }
    let seconds: u64 = match urgency {
        Urgency::Low => config.low_timeout_seconds,
        Urgency::Normal => config.normal_timeout_seconds,
        Urgency::Critical => config.critical_timeout_seconds,
    };
    seconds_from(now, seconds)
}

/// Whether an optional pattern matches: without one always; one star stands
/// for any text between what precedes and what follows it.
pub open spec fn pattern_matches(pattern: Option<Seq<char>>, value: Seq<char>) -> bool {
    match pattern {
        None => true,
        Some(p) => match split_once(p, '*') {
            Some((prefix, suffix)) => starts_with(value, prefix) && ends_with(value, suffix),
            None => value == p,
        },
    }
}

/// Whether an optional pattern matches.
pub fn matches_optional(pattern: &Option<String>, value: &str) -> (r: bool)
    ensures
        r == pattern_matches(opt_view(*pattern), value@),
{
    match pattern {
        None => true,
        Some(pattern) => match split_text_once(pattern.as_str(), '*') {
            Some((prefix, suffix)) => text_starts_with(value, prefix.as_str()) && text_ends_with(
                value,
                suffix.as_str(),
            ),
            None => same(value, pattern.as_str()),
        },
    }
}

/// Whether a rule applies to a notification.
pub open spec fn rule_applies(n: NotificationView, rule: NotificationRuleConfig) -> bool {
    &&& rule.enabled
    &&& pattern_matches(opt_view(rule.app_name), n.app_name)
    &&& pattern_matches(opt_view(rule.summary), n.summary)
    &&& pattern_matches(opt_view(rule.category), n.category)
    &&& pattern_matches(opt_view(rule.desktop_entry), n.desktop_entry)
    &&& match rule.urgency {
        Some(u) => ascii_lowercase(u@) == ascii_lowercase(urgency_name(n.urgency)),
        None => true,
    }
}

/// Whether a rule applies to a notification.
pub fn rule_matches(notification: &Notification, rule: &NotificationRuleConfig) -> (r: bool)
    ensures
        r == rule_applies(notification@, *rule),
{
    if !(rule.enabled && matches_optional(&rule.app_name, notification.app_name.as_str())
        && matches_optional(&rule.summary, notification.summary.as_str()) && matches_optional(
        &rule.category,
        notification.category.as_str(),
    ) && matches_optional(&rule.desktop_entry, notification.desktop_entry.as_str())) {
        return false;
    }
    match &rule.urgency {
        Some(urgency) => {
            let wanted = ascii_lowercase_text(urgency.as_str());
            let actual = ascii_lowercase_text(notification.urgency.as_str());
            same(wanted.as_str(), actual.as_str())
        },
        None => true,
    }
}

/// The notification as one rule leaves it.
pub open spec fn ruled_once(n: NotificationView, rule: NotificationRuleConfig, now: u64) -> NotificationView {
    if !rule_applies(n, rule) {
        n
    } else {
        NotificationView {
            expires_at: match rule.timeout_seconds {
                Some(seconds) => after_seconds(now, seconds),
                None => n.expires_at,
            },
            override_pause_level: match rule.override_pause_level {
                Some(level) => if level < 100 {
                    level
                } else {
                    100
                },
                None => n.override_pause_level,
            },
            skip_popup: match rule.skip_popup {
                Some(skip) => skip,
                None => n.skip_popup,
            },
            history_ignore: match rule.history_ignore {
                Some(ignore) => ignore,
                None => n.history_ignore,
            },
            stack_tag: match rule.stack_tag {
                Some(tag) => tag@,
                None => n.stack_tag,
            },
            ..n
        }
    }
}

/// The notification as the rules leave it, one after the other.
pub open spec fn ruled(n: NotificationView, rules: Seq<NotificationRuleConfig>, now: u64) -> NotificationView
    decreases rules.len(),
{
    if rules.len() == 0 {
        n
    } else {
        ruled_once(ruled(n, rules.drop_last(), now), rules.last(), now)
    }
}

/// Lets the rules change a notification, one after the other.
pub fn apply_rules(notification: &mut Notification, rules: &Vec<NotificationRuleConfig>, now: u64)
    ensures
        final(notification)@ == ruled(old(notification)@, rules@, now),
{
    let mut i: usize = 0;
    while i < rules.len()
        invariant
            i <= rules.len(),
            notification@ == ruled(old(notification)@, rules@.take(i as int), now),
        decreases rules.len() - i,
    {
        let ghost before = notification@;
        proof {
            assert(rules@.take(i + 1).drop_last() =~= rules@.take(i as int));
        }
        let rule = &rules[i];
        if rule_matches(notification, rule) {
            if let Some(timeout) = rule.timeout_seconds {
                notification.expires_at = seconds_from(now, timeout);
            }
            if let Some(level) = rule.override_pause_level {
                notification.override_pause_level = if level < 100 {
                    level
                } else {
                    100
                };
            }
            if let Some(skip_popup) = rule.skip_popup {
                notification.skip_popup = skip_popup;
            }
            if let Some(history_ignore) = rule.history_ignore {
                notification.history_ignore = history_ignore;
            }
            if let Some(stack_tag) = &rule.stack_tag {
                notification.stack_tag = stack_tag.clone();
            }
        }
        proof {
            assert(notification@ == ruled_once(before, *rule, now));
        }
        i += 1;
    }
    proof {
        assert(rules@.take(i as int) =~= rules@);
    }
}

/// The icon that a request names: its own, or the one of its image hint.
pub open spec fn named_icon(request: NotificationRequest) -> Seq<char> {
    if request.app_icon@.len() == 0 {
        hinted_text(request.hints@, "image-path"@)
    } else {
        request.app_icon@
    }
}

/// The icon that a request names.
pub fn requested_icon(request: &NotificationRequest) -> (r: String)
    ensures
        r@ == named_icon(*request),
{
    if request.app_icon.as_str().is_empty() {
        string_hint(&request.hints, "image-path")
    } else {
        request.app_icon.clone()
    }
}

/// The notification of a request, before the rules.
pub open spec fn plain_notification(
    request: NotificationRequest,
    id: u32,
    config: NotificationConfig,
    app_icon: Seq<char>,
    now: u64,
) -> NotificationView {
    let urgency = hinted_urgency(request.hints@);
    NotificationView {
        id,
        app_name: request.app_name@,
        summary: request.summary@,
        body: request.body@,
        app_icon,
        category: hinted_text(request.hints@, "category"@),
        desktop_entry: hinted_text(request.hints@, "desktop-entry"@),
        actions: presented_actions(views(request.actions@), (request.actions@.len() / 2) as nat),
        urgency,
        progress: hinted_progress(request.hints@),
        stack_tag: hinted_stack_tag(request.hints@),
        transient: hinted_flag(request.hints@, "transient"@),
        duplicate_count: 1,
        history_ignore: false,
        skip_popup: false,
        override_pause_level: default_level(urgency),
        expires_at: requested_expiry(request.expire_timeout, urgency, config, now),
    }
}

impl Notification {
    /// The notification that a request asks for, with the icon that was found
    /// for it, as the configured rules leave it.
    pub fn from_request(
        request: NotificationRequest,
        id: u32,
        config: &NotificationConfig,
        app_icon: String,
        now: u64,
    ) -> (r: Self)
        ensures
            r@ == ruled(plain_notification(request, id, *config, app_icon@, now), config.rules@, now),
    {
        let urgency = Urgency::from_hint(&request.hints);
        let ghost plain = plain_notification(request, id, *config, app_icon@, now);
        let category = string_hint(&request.hints, "category");
        let desktop_entry = string_hint(&request.hints, "desktop-entry");
        let actions = request_actions(&request.actions);
        let progress = progress_hint(&request.hints);
        let stack_tag = stack_tag_hint(&request.hints);
        let transient = bool_hint(&request.hints, "transient");
        let expires_at = timeout_from_request(request.expire_timeout, urgency, config, now);
        let mut notification = Notification {
            id,
            app_name: request.app_name,
            summary: request.summary,
            body: request.body,
            app_icon,
            category,
            desktop_entry,
            actions,
            urgency,
            progress,
            stack_tag,
            transient,
            duplicate_count: 1,
            history_ignore: false,
            skip_popup: false,
            override_pause_level: default_override_pause_level(urgency),
            expires_at,
        };
        assert(notification@ == plain);
        apply_rules(&mut notification, &config.rules, now);
        notification
    }

    /// Whether the notification's time has come.
    pub fn is_expired(&self, now: u64) -> (r: bool)
        ensures
            r == expired(self@, now),
    {
        match self.expires_at {
            Some(expires_at) => expires_at <= now as u128,
            None => false,
        }
    }
}

} // verus!
