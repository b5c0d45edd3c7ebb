//! What holds of requests to show a notification, and of the rules for them.

use vstd::prelude::*;

use crate::config::{NotificationConfig, NotificationRuleConfig};
use crate::modules::notifications::{
    default_level, expired, hint_named, hinted_flag, hinted_progress, hinted_stack_tag,
    hinted_text, hinted_urgency, named_icon, of_name, pattern_matches, plain_notification,
    presented_actions, requested_expiry, rule_applies, ruled, ruled_once, suppresses, Hint,
    NotificationRequest, NotificationView, Urgency,
};
use crate::seqs::lemma_first_index;
use crate::text::{
    ascii_lowercase, contains_text, ends_with, occurs_at, starts_with, views,
};
use crate::text_laws::law_split_once;

verus! {

/// Whether a hint is the first of its name.
pub open spec fn first_named(hints: Seq<Hint>, name: Seq<char>, at: int) -> bool {
    &&& 0 <= at < hints.len()
    &&& hints[at].name@ == name
    &&& forall|j: int| 0 <= j < at ==> (#[trigger] hints[j]).name@ != name
}

/// Whether there is no hint of a name.
pub open spec fn none_named(hints: Seq<Hint>, name: Seq<char>) -> bool {
    forall|j: int| 0 <= j < hints.len() ==> (#[trigger] hints[j]).name@ != name
}

proof fn lemma_first_named(hints: Seq<Hint>, name: Seq<char>, at: int)
    requires
        first_named(hints, name, at),
    ensures
        hint_named(hints, name) == Some(hints[at]),
{
    lemma_first_index(hints, of_name(name), at as nat);
}

proof fn lemma_none_named(hints: Seq<Hint>, name: Seq<char>)
    requires
        none_named(hints, name),
    ensures
        hint_named(hints, name) is None,
{
    lemma_first_index(hints, of_name(name), hints.len());
}

/// The first hint of a name is the one that counts; without one there is no text
/// and no flag.
pub proof fn law_first_hint_counts(hints: Seq<Hint>, name: Seq<char>, at: int)
    ensures
        first_named(hints, name, at) && hints[at].text is Some ==> hinted_text(hints, name)
            == hints[at].text->0@,
        first_named(hints, name, at) ==> hinted_flag(hints, name) == (hints[at].flag == Some(true)),
        none_named(hints, name) ==> hinted_text(hints, name).len() == 0 && !hinted_flag(
            hints,
            name,
        ),
{
    if first_named(hints, name, at) {
        lemma_first_named(hints, name, at);
    }
    if none_named(hints, name) {
        lemma_none_named(hints, name);
    }
}

/// The urgency is what the byte of its hint says: zero is low, one is normal, and
/// anything more is critical; without such a byte it is normal.
pub proof fn law_urgency_of_byte(hints: Seq<Hint>, at: int)
    ensures
        first_named(hints, "urgency"@, at) && hints[at].byte == Some(0u8) ==> hinted_urgency(hints)
            == Urgency::Low,
        first_named(hints, "urgency"@, at) && hints[at].byte == Some(1u8) ==> hinted_urgency(hints)
            == Urgency::Normal,
        first_named(hints, "urgency"@, at) && hints[at].byte is Some && hints[at].byte->0 > 1
            ==> hinted_urgency(hints) == Urgency::Critical,
        first_named(hints, "urgency"@, at) && hints[at].byte is None ==> hinted_urgency(hints)
            == Urgency::Normal,
        none_named(hints, "urgency"@) ==> hinted_urgency(hints) == Urgency::Normal,
{
    if first_named(hints, "urgency"@, at) {
        lemma_first_named(hints, "urgency"@, at);
    }
    if none_named(hints, "urgency"@) {
        lemma_none_named(hints, "urgency"@);
    }
}

/// The progress is the number of its hint, cut off at a hundred.
pub proof fn law_progress_of_number(hints: Seq<Hint>, at: int)
    ensures
        hinted_progress(hints) is Some ==> hinted_progress(hints)->0 <= 100,
        first_named(hints, "value"@, at) && hints[at].integer is Some && 0 <= hints[at].integer->0
            <= 100 ==> hinted_progress(hints) == Some(hints[at].integer->0 as u8),
        first_named(hints, "value"@, at) && hints[at].integer is Some && 100
            <= hints[at].integer->0 <= 255 ==> hinted_progress(hints) == Some(100u8),
        first_named(hints, "value"@, at) && hints[at].integer is Some && hints[at].integer->0 < 0
            ==> hinted_progress(hints) is None,
        none_named(hints, "value"@) && first_named(hints, "x-dunst-progress"@, at)
            && hints[at].integer is Some && 0 <= hints[at].integer->0 <= 100 ==> hinted_progress(
            hints,
        ) == Some(hints[at].integer->0 as u8),
        none_named(hints, "value"@) && none_named(hints, "x-dunst-progress"@) && none_named(
            hints,
            "x-canonical-progress"@,
        ) ==> hinted_progress(hints) is None,
{
    if first_named(hints, "value"@, at) {
        lemma_first_named(hints, "value"@, at);
    }
    if none_named(hints, "value"@) {
        lemma_none_named(hints, "value"@);
        if first_named(hints, "x-dunst-progress"@, at) {
            lemma_first_named(hints, "x-dunst-progress"@, at);
        }
        if none_named(hints, "x-dunst-progress"@) {
            lemma_none_named(hints, "x-dunst-progress"@);
            if none_named(hints, "x-canonical-progress"@) {
                lemma_none_named(hints, "x-canonical-progress"@);
            }
        }
    }
}

/// The stack tag is the text of its own hint before that of any other name.
pub proof fn law_stack_tag_of_hint(hints: Seq<Hint>, at: int)
    ensures
        first_named(hints, "x-dunst-stack-tag"@, at) && hints[at].text is Some
            ==> hinted_stack_tag(hints) == hints[at].text->0@,
        none_named(hints, "x-dunst-stack-tag"@) && first_named(
            hints,
            "x-canonical-private-synchronous"@,
            at,
        ) && hints[at].text is Some ==> hinted_stack_tag(hints) == hints[at].text->0@,
        none_named(hints, "x-dunst-stack-tag"@) && none_named(
            hints,
            "x-canonical-private-synchronous"@,
        ) && none_named(hints, "private-synchronous"@) && none_named(hints, "synchronous"@)
            ==> hinted_stack_tag(hints).len() == 0,
{
    if first_named(hints, "x-dunst-stack-tag"@, at) {
        lemma_first_named(hints, "x-dunst-stack-tag"@, at);
    }
    if none_named(hints, "x-dunst-stack-tag"@) {
        lemma_none_named(hints, "x-dunst-stack-tag"@);
        if first_named(hints, "x-canonical-private-synchronous"@, at) {
            lemma_first_named(hints, "x-canonical-private-synchronous"@, at);
        }
        if none_named(hints, "x-canonical-private-synchronous"@) && none_named(
            hints,
            "private-synchronous"@,
        ) && none_named(hints, "synchronous"@) {
            lemma_none_named(hints, "x-canonical-private-synchronous"@);
            lemma_none_named(hints, "private-synchronous"@);
            lemma_none_named(hints, "synchronous"@);
        }
    }
}

/// An action whose label or key asks never to be shown again is left out, in
/// whatever case that is written and whatever stands around it.
pub proof fn law_suppressing_words(before: Seq<char>, after: Seq<char>, other: Seq<char>)
    ensures
        suppresses(before + "dont-show"@ + after, other),
        suppresses(before + "do-not-show"@ + after, other),
        suppresses(before + "suppress"@ + after, other),
        suppresses(other, before + "don't show again"@ + after),
        suppresses(other, before + "do not show again"@ + after),
        suppresses(other, before + "今後表示しない"@ + after),
        suppresses(ascii_lowercase(before), ascii_lowercase(other)) == suppresses(before, other),
{
    reveal_strlit("dont-show");
    reveal_strlit("do-not-show");
    reveal_strlit("suppress");
    reveal_strlit("don't show again");
    reveal_strlit("do not show again");
    reveal_strlit("今後表示しない");
    lemma_lower_occurs(before, "dont-show"@, after);
    lemma_lower_occurs(before, "do-not-show"@, after);
    lemma_lower_occurs(before, "suppress"@, after);
    lemma_lower_occurs(before, "don't show again"@, after);
    lemma_lower_occurs(before, "do not show again"@, after);
    lemma_lower_occurs(before, "今後表示しない"@, after);
    assert(ascii_lowercase(ascii_lowercase(before)) =~= ascii_lowercase(before));
    assert(ascii_lowercase(ascii_lowercase(other)) =~= ascii_lowercase(other));
}

proof fn lemma_lower_occurs(before: Seq<char>, word: Seq<char>, after: Seq<char>)
    requires
        forall|i: int| 0 <= i < word.len() ==> !('A' <= #[trigger] word[i] <= 'Z'),
    ensures
        contains_text(ascii_lowercase(before + word + after), word),
{
    let s = ascii_lowercase(before + word + after);
    let n = before.len() as int;
    assert forall|i: int| 0 <= i < word.len() implies s.subrange(n, n + word.len())[i]
        == word[i] by {
        assert((before + word + after)[n + i] == word[i]);
    }
    assert(s.subrange(n, n + word.len()) =~= word);
    assert(occurs_at(s, word, n));
}

/// The presented actions are the pairs of a key and a label that do not ask never
/// to be shown again, in the order of the request. Which pair each one is is
/// returned.
pub proof fn law_actions_are_pairs(items: Seq<Seq<char>>, n: nat) -> (origin: Seq<int>)
    requires
        2 * n <= items.len(),
    ensures
        origin.len() == presented_actions(items, n).len(),
        forall|k: int|
            0 <= k < origin.len() ==> 0 <= #[trigger] origin[k] < n && presented_actions(
                items,
                n,
            )[k].key == items[2 * origin[k]] && presented_actions(items, n)[k].label == items[2
                * origin[k] + 1],
        forall|j: int, k: int|
            0 <= j < k < origin.len() ==> #[trigger] origin[j] < #[trigger] origin[k],
        forall|i: int| #![trigger items[2 * i]]
            0 <= i < n ==> (origin.contains(i) <==> !suppresses(items[2 * i], items[2 * i + 1])),
    decreases n,
{
    if n == 0 {
        Seq::empty()
    } else {
        let m = (n - 1) as nat;
        let before = law_actions_are_pairs(items, m);
        let gone = suppresses(items[2 * m as int], items[2 * m as int + 1]);
        let origin = if gone {
            before
        } else {
            before.push(m as int)
        };
        assert forall|i: int| #![trigger items[2 * i]] 0 <= i < n implies (origin.contains(i)
            <==> !suppresses(items[2 * i], items[2 * i + 1])) by {
            if before.contains(i) {
                let k = choose|k: int| 0 <= k < before.len() && before[k] == i;
                assert(origin[k] == i);
                assert(before[k] < m);
            }
            if origin.contains(i) && i < m {
                let k = choose|k: int| 0 <= k < origin.len() && origin[k] == i;
                assert(before[k] == i);
            }
            if !gone && i == m {
                assert(origin[before.len() as int] == i);
            }
        }
        origin
    }
}

/// A more urgent notification is shown at pause levels at which a less urgent one
/// is not.
pub proof fn law_levels_follow_urgency()
    ensures
        default_level(Urgency::Low) == 0,
        default_level(Urgency::Low) < default_level(Urgency::Normal),
        default_level(Urgency::Normal) < default_level(Urgency::Critical),
        default_level(Urgency::Critical) < 100,
        default_level(Urgency::Normal) == 30,
        default_level(Urgency::Critical) == 60,
{
}

/// A requested timeout counts milliseconds from now, and zero means never. A
/// negative one leaves it to the settings of the urgency, in seconds, where zero
/// means never too.
pub proof fn law_requested_time(
    timeout: i32,
    urgency: Urgency,
    config: NotificationConfig,
    now: u64,
)
    ensures
        timeout > 0 ==> requested_expiry(timeout, urgency, config, now) is Some
            && requested_expiry(timeout, urgency, config, now)->0 - now == timeout * 1_000_000,
        timeout == 0 ==> requested_expiry(timeout, urgency, config, now) is None,
        timeout < 0 ==> {
            let seconds = match urgency {
                Urgency::Low => config.low_timeout_seconds,
                Urgency::Normal => config.normal_timeout_seconds,
                Urgency::Critical => config.critical_timeout_seconds,
            };
            &&& seconds == 0 ==> requested_expiry(timeout, urgency, config, now) is None
            &&& seconds > 0 ==> requested_expiry(timeout, urgency, config, now) is Some
                && requested_expiry(timeout, urgency, config, now)->0 - now == seconds
                * 1_000_000_000
        },
{
}

/// A notification runs out at its time and not before it, and one without a time
/// never does.
pub proof fn law_runs_out_at_its_time(n: NotificationView, now: u64)
    ensures
        n.expires_at is None ==> !expired(n, now),
        n.expires_at is Some ==> (expired(n, now) <==> n.expires_at->0 <= now),
{
}

/// A pattern without a star matches its own text alone. One with a star matches
/// what begins and ends as it does, whatever stands between.
pub proof fn law_patterns(a: Seq<char>, b: Seq<char>, x: Seq<char>)
    requires
        !a.contains('*'),
    ensures
        pattern_matches(None, x),
        pattern_matches(Some(a), x) <==> x == a,
        pattern_matches(Some(a + seq!['*'] + b), a + x + b),
        pattern_matches(Some(a + seq!['*'] + b), x) <==> a.is_prefix_of(x) && b.is_suffix_of(x),
{
    law_split_once(a, '*', a, b);
    let p = a + seq!['*'] + b;
    law_split_once(p, '*', a, b);
    let y = a + x + b;
    assert(y.take(a.len() as int) =~= a);
    assert(y.skip(y.len() - b.len()) =~= b);
    assert(starts_with(x, a) == a.is_prefix_of(x)) by {
        if a.len() <= x.len() {
            assert(x.take(a.len() as int) =~= x.subrange(0, a.len() as int));
        }
    }
    assert(ends_with(x, b) == b.is_suffix_of(x)) by {
        if b.len() <= x.len() {
            assert(x.skip(x.len() - b.len()) =~= x.subrange(x.len() - b.len(), x.len() as int));
        }
    }
}

/// A rule that is switched off applies to nothing. One that is on applies exactly
/// where every text that it names is the notification's own, and so is its urgency.
pub proof fn law_rule_names_what_it_applies_to(n: NotificationView, rule: NotificationRuleConfig)
    requires
        rule.app_name is Some ==> !rule.app_name->0@.contains('*'),
        rule.summary is Some ==> !rule.summary->0@.contains('*'),
        rule.category is Some ==> !rule.category->0@.contains('*'),
        rule.desktop_entry is Some ==> !rule.desktop_entry->0@.contains('*'),
    ensures
        rule_applies(n, rule) <==> {
            &&& rule.enabled
            &&& rule.app_name is Some ==> n.app_name == rule.app_name->0@
            &&& rule.summary is Some ==> n.summary == rule.summary->0@
            &&& rule.category is Some ==> n.category == rule.category->0@
            &&& rule.desktop_entry is Some ==> n.desktop_entry == rule.desktop_entry->0@
            &&& rule.urgency is Some ==> ascii_lowercase(rule.urgency->0@) == (match n.urgency {
                Urgency::Low => "low"@,
                Urgency::Normal => "normal"@,
                Urgency::Critical => "critical"@,
            })
        },
{
    reveal_strlit("low");
    reveal_strlit("normal");
    reveal_strlit("critical");
    assert(ascii_lowercase("low"@) =~= "low"@);
    assert(ascii_lowercase("normal"@) =~= "normal"@);
    assert(ascii_lowercase("critical"@) =~= "critical"@);
    let e = Seq::<char>::empty();
    if rule.app_name is Some {
        law_patterns(rule.app_name->0@, e, n.app_name);
    }
    if rule.summary is Some {
        law_patterns(rule.summary->0@, e, n.summary);
    }
    if rule.category is Some {
        law_patterns(rule.category->0@, e, n.category);
    }
    if rule.desktop_entry is Some {
        law_patterns(rule.desktop_entry->0@, e, n.desktop_entry);
    }
}

/// Rules change how a notification is presented, never what it says, and one that
/// does not apply changes nothing.
pub proof fn law_rule_changes_presentation(
    n: NotificationView,
    rule: NotificationRuleConfig,
    now: u64,
)
    ensures
        !rule_applies(n, rule) ==> ruled_once(n, rule, now) == n,
        rule_applies(n, rule) ==> {
            let r = ruled_once(n, rule, now);
            &&& rule.timeout_seconds is None ==> r.expires_at == n.expires_at
            &&& rule.timeout_seconds == Some(0u64) ==> r.expires_at is None
            &&& rule.timeout_seconds is Some && rule.timeout_seconds->0 > 0 ==> r.expires_at is Some
                && r.expires_at->0 - now == rule.timeout_seconds->0 * 1_000_000_000
            &&& rule.override_pause_level is Some && rule.override_pause_level->0 <= 100
                ==> r.override_pause_level == rule.override_pause_level->0
            &&& rule.override_pause_level is Some && rule.override_pause_level->0 > 100
                ==> r.override_pause_level == 100
            &&& rule.override_pause_level is None ==> r.override_pause_level
                == n.override_pause_level
            &&& r.skip_popup == (if rule.skip_popup is Some {
                rule.skip_popup->0
            } else {
                n.skip_popup
            })
            &&& r.history_ignore == (if rule.history_ignore is Some {
                rule.history_ignore->0
            } else {
                n.history_ignore
            })
            &&& r.stack_tag == (if rule.stack_tag is Some {
                rule.stack_tag->0@
            } else {
                n.stack_tag
            })
        },
{
}

/// Rules leave what a notification says and who it is alone.
pub proof fn law_rules_keep_message(
    n: NotificationView,
    rules: Seq<NotificationRuleConfig>,
    now: u64,
)
    ensures
        ({
            let r = ruled(n, rules, now);
            &&& r.id == n.id && r.app_name == n.app_name && r.summary == n.summary
            &&& r.body == n.body && r.app_icon == n.app_icon && r.category == n.category
            &&& r.desktop_entry == n.desktop_entry && r.actions == n.actions
            &&& r.urgency == n.urgency && r.progress == n.progress && r.transient == n.transient
            &&& r.duplicate_count == n.duplicate_count
        }),
    decreases rules.len(),
{
    if rules.len() > 0 {
        law_rules_keep_message(n, rules.drop_last(), now);
    }
}

/// Rules work one after the other.
pub proof fn law_rules_in_order(
    n: NotificationView,
    first: Seq<NotificationRuleConfig>,
    then: Seq<NotificationRuleConfig>,
    now: u64,
)
    ensures
        ruled(n, first + then, now) == ruled(ruled(n, first, now), then, now),
    decreases then.len(),
{
    if then.len() == 0 {
        assert(first + then =~= first);
    } else {
        law_rules_in_order(n, first, then.drop_last(), now);
        assert((first + then).drop_last() =~= first + then.drop_last());
        assert((first + then).last() == then.last());
    }
}

/// A notification says what was requested, is counted once, is retained and pops
/// up unless a rule says otherwise.
pub proof fn law_request_is_shown(
    request: NotificationRequest,
    id: u32,
    config: NotificationConfig,
    app_icon: Seq<char>,
    now: u64,
)
    ensures
        ({
            let n = plain_notification(request, id, config, app_icon, now);
            let r = ruled(n, config.rules@, now);
            &&& r.id == id
            &&& r.app_name == request.app_name@
            &&& r.summary == request.summary@
            &&& r.body == request.body@
            &&& r.app_icon == app_icon
            &&& r.duplicate_count == 1
            &&& r.urgency == hinted_urgency(request.hints@)
            &&& r.category == hinted_text(request.hints@, "category"@)
            &&& r.desktop_entry == hinted_text(request.hints@, "desktop-entry"@)
            &&& r.transient == hinted_flag(request.hints@, "transient"@)
            &&& r.progress == hinted_progress(request.hints@)
            &&& !n.history_ignore && !n.skip_popup
            &&& n.override_pause_level == default_level(n.urgency)
            &&& n.stack_tag == hinted_stack_tag(request.hints@)
            &&& r.actions == presented_actions(
                views(request.actions@),
                (request.actions@.len() / 2) as nat,
            )
            &&& n.expires_at == requested_expiry(request.expire_timeout, n.urgency, config, now)
        }),
        request.app_icon@.len() > 0 ==> named_icon(request) == request.app_icon@,
        request.app_icon@.len() == 0 ==> named_icon(request) == hinted_text(
            request.hints@,
            "image-path"@,
        ),
{
    let n = plain_notification(request, id, config, app_icon, now);
    law_rules_keep_message(n, config.rules@, now);
}

} // verus!
