use bah::config::{NotificationConfig, NotificationRuleConfig};
use bah::modules::notification_control::{
    assign_id, count_text, desktop_entry_names, desktop_icon_name, get_capabilities, icon_file_names,
    notification_fields, parse_control, parse_id, paused_after, paused_level,
    resolve_notification_icon, rule_fields, ControlCommand, CountKind, FieldValue, IconLookup,
    PausedChange,
};
use bah::modules::notification_store::NotificationStore;
use bah::modules::notifications::{
    apply_rules, bool_hint, default_override_pause_level, is_suppress_action, matches_optional,
    progress_hint, request_actions, requested_icon, rule_matches, stack_tag_hint, string_hint,
    timeout_from_request, CloseReason, Hint, Notification, NotificationEvent, NotificationRequest,
    Urgency,
};

const SECOND: u64 = 1_000_000_000;

fn notification(id: u32) -> Notification {
    Notification {
        id,
        app_name: "test".into(),
        summary: format!("summary-{id}"),
        body: String::new(),
        app_icon: String::new(),
        category: String::new(),
        desktop_entry: String::new(),
        actions: Vec::new(),
        urgency: Urgency::Normal,
        progress: None,
        stack_tag: String::new(),
        transient: false,
        duplicate_count: 1,
        history_ignore: false,
        skip_popup: false,
        override_pause_level: 30,
        expires_at: None,
    }
}

fn hint(name: &str) -> Hint {
    Hint {
        name: name.into(),
        byte: None,
        integer: None,
        flag: None,
        text: None,
    }
}

fn arguments(items: &[&str]) -> Vec<String> {
    items.iter().map(|item| item.to_string()).collect()
}

#[test]
fn replacements_preserve_the_notification_count() {
    let mut store = NotificationStore::default();
    store.apply(NotificationEvent::Upsert(notification(7)), 0);
    let mut replacement = notification(7);
    replacement.summary = "new".into();
    store.apply(NotificationEvent::Upsert(replacement), 0);
    assert_eq!(store.displayed_count(), 1);
    assert_eq!(store.snapshot()[0].summary, "new");
}

#[test]
fn excess_notifications_wait_until_a_slot_opens() {
    let mut store = NotificationStore::new(NotificationConfig {
        notification_limit: 1,
        ..NotificationConfig::default()
    });
    store.upsert(notification(1), 0);
    store.upsert(notification(2), 0);
    assert_eq!(store.displayed_count(), 1);
    assert_eq!(store.waiting_count(), 1);
    store.close(1, CloseReason::DismissedByUser);
    assert_eq!(store.displayed_count(), 1);
    assert_eq!(store.waiting_count(), 0);
}

#[test]
fn duplicate_notifications_are_coalesced_with_a_count() {
    let mut store = NotificationStore::default();
    let mut first = notification(1);
    first.summary = "same".into();
    let mut second = notification(2);
    second.summary = "same".into();
    store.upsert(first, 0);
    store.upsert(second, 0);
    assert_eq!(store.displayed_count(), 1);
    assert_eq!(store.displayed_snapshot()[0].duplicate_count, 2);
}

#[test]
fn pause_level_queues_then_releases_eligible_notifications() {
    let mut store = NotificationStore::default();
    store.set_pause_level(100);
    store.upsert(notification(1), 0);
    assert_eq!(store.waiting_count(), 1);
    store.set_pause_level(0);
    assert_eq!(store.displayed_count(), 1);
    assert_eq!(store.waiting_count(), 0);
}

#[test]
fn remove_and_clear_all_delete_retained_history() {
    let mut store = NotificationStore::default();
    store.upsert(notification(1), 0);
    store.close(1, CloseReason::DismissedByUser);
    assert_eq!(store.history_count(), 1);
    assert!(store.remove(1));
    assert_eq!(store.history_count(), 0);
    store.upsert(notification(2), 0);
    store.close(2, CloseReason::DismissedByUser);
    store.clear_all();
    assert_eq!(store.count(), 0);
}

#[test]
fn suppression_actions_are_not_presented() {
    assert!(is_suppress_action("dont-show-again", "今後表示しない"));
    assert!(is_suppress_action("", "Don't show again"));
    assert!(!is_suppress_action("open", "Open"));
}

#[test]
fn expired_notifications_move_to_history() {
    let mut store = NotificationStore::default();
    let mut fleeting = notification(1);
    fleeting.expires_at = Some(5 * SECOND as u128);
    store.upsert(fleeting, 0);
    store.upsert(notification(2), 0);
    assert!(store.expire(4 * SECOND).is_empty());
    assert_eq!(store.expire(6 * SECOND), vec![1]);
    assert_eq!(store.displayed_count(), 1);
    assert_eq!(store.history_snapshot()[0].id, 1);
}

#[test]
fn ignored_notifications_leave_no_history() {
    let mut store = NotificationStore::default();
    let mut ignored = notification(1);
    ignored.history_ignore = true;
    store.upsert(ignored, 0);
    assert!(store.close(1, CloseReason::Expired).is_some());
    assert_eq!(store.history_count(), 0);
    assert!(store.close(1, CloseReason::Expired).is_none());
}

#[test]
fn history_is_limited_and_can_be_shown_again() {
    let mut store = NotificationStore::new(NotificationConfig {
        history_length: 2,
        ..NotificationConfig::default()
    });
    for id in 1..4u32 {
        store.upsert(notification(id), 0);
        store.close(id, CloseReason::DismissedByUser);
    }
    assert_eq!(store.history_count(), 2);
    assert!(store.pop_history(Some(1), 0).is_none());
    let shown = store.pop_history(None, 0).expect("a closed notification");
    assert_eq!(shown.id, 3);
    assert_eq!(store.history_count(), 1);
    assert!(store.remove_history(2));
    assert!(!store.remove_history(2));
}

#[test]
fn rules_are_switched_by_name() {
    let mut config = NotificationConfig::default();
    config.rules.push(NotificationRuleConfig {
        name: "quiet".into(),
        ..NotificationRuleConfig::default()
    });
    let mut store = NotificationStore::new(config);
    store.rule_enable("quiet", 0);
    assert!(!store.rules_snapshot()[0].enabled);
    store.rule_enable("quiet", 2);
    assert!(store.rules_snapshot()[0].enabled);
    store.rule_enable("quiet", 1);
    assert!(store.rules_snapshot()[0].enabled);
}

#[test]
fn urgency_comes_from_its_hint() {
    assert_eq!(Urgency::from_hint(&vec![]), Urgency::Normal);
    let mut low = hint("urgency");
    low.byte = Some(0);
    let mut critical = hint("urgency");
    critical.byte = Some(2);
    let mut higher = hint("urgency");
    higher.byte = Some(9);
    let unknown = hint("urgency");
    assert_eq!(Urgency::from_hint(&vec![low]), Urgency::Low);
    assert_eq!(Urgency::from_hint(&vec![critical]), Urgency::Critical);
    assert_eq!(Urgency::from_hint(&vec![higher]), Urgency::Critical);
    assert_eq!(Urgency::from_hint(&vec![unknown]), Urgency::Normal);
    assert_eq!(Urgency::Critical.as_str(), "critical");
}

#[test]
fn hints_are_read_by_name() {
    let mut category = hint("category");
    category.text = Some("email".into());
    let mut transient = hint("transient");
    transient.flag = Some(true);
    let mut value = hint("value");
    value.integer = Some(140);
    let hints = vec![category, transient, value];
    assert_eq!(string_hint(&hints, "category"), "email");
    assert_eq!(string_hint(&hints, "missing"), "");
    assert!(bool_hint(&hints, "transient"));
    assert!(!bool_hint(&hints, "missing"));
    assert_eq!(progress_hint(&hints), Some(100));
    assert_eq!(stack_tag_hint(&hints), "");
}

#[test]
fn timeouts_follow_request_and_urgency() {
    let config = NotificationConfig::default();
    assert_eq!(timeout_from_request(0, Urgency::Normal, &config, 7), None);
    assert_eq!(
        timeout_from_request(1500, Urgency::Normal, &config, 7),
        Some(7 + 1_500_000_000)
    );
    assert_eq!(
        timeout_from_request(-1, Urgency::Low, &config, 7),
        Some(7 + 10 * SECOND as u128)
    );
    assert_eq!(timeout_from_request(-1, Urgency::Critical, &config, 7), None);
}

#[test]
fn urgent_notifications_get_through_higher_levels() {
    assert!(
        default_override_pause_level(Urgency::Low) < default_override_pause_level(Urgency::Normal)
    );
    assert!(
        default_override_pause_level(Urgency::Normal)
            < default_override_pause_level(Urgency::Critical)
    );
}

#[test]
fn rules_change_what_they_match() {
    let rule = NotificationRuleConfig {
        name: "mail".into(),
        app_name: Some("test".into()),
        urgency: Some("NORMAL".into()),
        timeout_seconds: Some(3),
        skip_popup: Some(true),
        stack_tag: Some("mail".into()),
        ..NotificationRuleConfig::default()
    };
    let mut matched = notification(1);
    assert!(rule_matches(&matched, &rule));
    apply_rules(&mut matched, &vec![rule.clone()], SECOND);
    assert!(matched.skip_popup);
    assert_eq!(matched.stack_tag, "mail");
    assert_eq!(matched.expires_at, Some(4 * SECOND as u128));
    let mut other = notification(2);
    other.app_name = "else".into();
    assert!(!rule_matches(&other, &rule));
    apply_rules(&mut other, &vec![rule], SECOND);
    assert!(!other.skip_popup);
    assert!(matches_optional(&None, "anything"));
}

#[test]
fn requests_become_notifications() {
    let mut icon = hint("image-path");
    icon.text = Some("/icon.png".into());
    let request = NotificationRequest {
        app_name: "mail".into(),
        app_icon: "mail-icon".into(),
        summary: "New".into(),
        body: "Body".into(),
        actions: arguments(&["default", "Open", "dont-show", "Never"]),
        hints: vec![icon],
        expire_timeout: 2000,
    };
    let asked = requested_icon(&request);
    let made = Notification::from_request(
        request,
        4,
        &NotificationConfig::default(),
        asked.clone(),
        SECOND,
    );
    assert_eq!(made.id, 4);
    assert_eq!(made.app_icon, asked);
    assert_eq!(made.actions.len(), 1);
    assert_eq!(made.actions[0].label, "Open");
    assert_eq!(made.expires_at, Some(3 * SECOND as u128));
    assert!(!made.is_expired(SECOND));
    assert!(made.is_expired(4 * SECOND));
    assert_eq!(request_actions(&arguments(&["lone"])).len(), 0);
}

#[test]
fn control_commands_are_parsed() {
    assert!(matches!(
        parse_control(&arguments(&["close-all"])),
        Ok(ControlCommand::CloseAll)
    ));
    assert!(matches!(
        parse_control(&arguments(&["close", "12"])),
        Ok(ControlCommand::Close(12))
    ));
    assert!(matches!(
        parse_control(&arguments(&["count", "history"])),
        Ok(ControlCommand::Count(CountKind::History))
    ));
    assert!(matches!(
        parse_control(&arguments(&["set-paused", "toggle"])),
        Ok(ControlCommand::SetPaused(PausedChange::Toggle))
    ));
    assert!(parse_control(&arguments(&["unheard-of"])).is_err());
    assert_eq!(parse_id("17"), Ok(17));
    assert!(parse_id("minus").is_err());
}

#[test]
fn pausing_is_a_level() {
    assert!(paused_after(PausedChange::Toggle, false));
    assert!(!paused_after(PausedChange::Toggle, true));
    assert!(!paused_after(PausedChange::Off, true));
    assert_eq!(paused_level(true), 100);
    assert_eq!(paused_level(false), 0);
}

#[test]
fn counts_are_printed() {
    assert_eq!(count_text(CountKind::Displayed, 1, 2, 3), "1");
    assert_eq!(count_text(CountKind::Waiting, 1, 2, 3), "2");
    assert_eq!(count_text(CountKind::History, 1, 2, 3), "3");
    assert!(count_text(CountKind::All, 1, 2, 3).contains("3"));
}

#[test]
fn the_service_tells_what_it_can() {
    let capabilities = get_capabilities();
    assert!(capabilities.iter().any(|name| name == "body"));
    assert!(capabilities.iter().any(|name| name == "actions"));
}

#[test]
fn notifications_and_rules_are_listed_by_field() {
    let fields = notification_fields(&notification(5));
    let id = fields.iter().find(|field| field.key == "id").unwrap();
    assert!(matches!(id.value, FieldValue::Number(5)));
    let rule = NotificationRuleConfig {
        name: "mail".into(),
        ..NotificationRuleConfig::default()
    };
    let fields = rule_fields(&rule);
    let name = fields.iter().find(|field| field.key == "name").unwrap();
    assert!(matches!(&name.value, FieldValue::Text(text) if text == "mail"));
}

#[test]
fn icons_are_looked_up_in_turn() {
    let nothing = IconLookup {
        requested_is_file: false,
        requested_file: None,
        desktop_entry: None,
        desktop_is_file: false,
        desktop_file: None,
    };
    assert_eq!(resolve_notification_icon("mail".into(), nothing), "mail");
    let found = IconLookup {
        requested_is_file: false,
        requested_file: Some("/icons/mail.png".into()),
        desktop_entry: None,
        desktop_is_file: false,
        desktop_file: None,
    };
    assert_eq!(
        resolve_notification_icon("mail".into(), found),
        "/icons/mail.png"
    );
    assert_eq!(
        desktop_icon_name("[Desktop Entry]\nIcon=mail\n"),
        Some("mail".to_string())
    );
    assert!(icon_file_names("mail", false).contains(&"mail.png".to_string()));
    assert!(desktop_entry_names("mail", "Mail").contains(&"mail.desktop".to_string()));
}

#[test]
fn identifiers_are_kept_or_assigned() {
    assert_eq!(assign_id(9, 3), (9, 3));
    let (assigned, next) = assign_id(0, 3);
    assert_eq!(assigned, 3);
    assert_eq!(next, 4);
}

#[test]
fn reasons_have_their_codes() {
    assert_eq!(CloseReason::Expired.code(), 1);
    assert_eq!(CloseReason::DismissedByUser.code(), 2);
    assert_eq!(CloseReason::ClosedByClient.code(), 3);
}

#[test]
fn the_last_notification_offers_its_actions() {
    let mut store = NotificationStore::default();
    assert_eq!(store.last_displayed(), None);
    store.upsert(notification(1), 0);
    assert_eq!(store.last_displayed(), Some(1));
    assert_eq!(store.invoked_action(0), None);
    store.clear();
    assert_eq!(store.displayed_count(), 0);
    store.clear_history();
    assert_eq!(store.count(), 0);
}

#[test]
fn deleting_leaves_no_copy_in_any_tier() {
    let mut store = NotificationStore::new(NotificationConfig {
        notification_limit: 1,
        ..NotificationConfig::default()
    });
    store.upsert(notification(1), 0);
    store.close(1, CloseReason::DismissedByUser);
    store.upsert(notification(1), 0);
    store.upsert(notification(2), 0);
    let mut again = notification(3);
    again.id = 2;
    store.upsert(again, 0);
    assert_eq!(store.displayed_count(), 1);
    assert_eq!(store.waiting_count(), 2);
    assert_eq!(store.history_count(), 1);

    assert!(store.remove(1));
    assert_eq!(store.history_count(), 0);
    assert_eq!(store.displayed_snapshot()[0].id, 2);
    assert_eq!(store.waiting_count(), 1);

    assert!(store.remove(2));
    assert_eq!(store.count(), 0);
    assert!(!store.remove(2));
}

#[test]
fn deleting_through_an_event_reaches_the_history() {
    let mut store = NotificationStore::default();
    store.upsert(notification(1), 0);
    store.close(1, CloseReason::DismissedByUser);
    store.upsert(notification(1), 0);
    store.apply(NotificationEvent::Remove(1), 0);
    assert!(store.snapshot().is_empty());
    assert!(store.pop_history(Some(1), 0).is_none());
}

#[test]
fn notifications_come_out_by_urgency_and_identifier() {
    let mut store = NotificationStore::default();
    for (id, urgency) in [
        (5, Urgency::Low),
        (4, Urgency::Critical),
        (3, Urgency::Normal),
        (2, Urgency::Critical),
    ] {
        let mut arriving = notification(id);
        arriving.urgency = urgency;
        arriving.expires_at = Some(SECOND as u128);
        store.upsert(arriving, 0);
    }
    let shown: Vec<u32> = store.displayed_snapshot().iter().map(|n| n.id).collect();
    assert_eq!(shown, vec![2, 4, 3, 5]);
    assert_eq!(store.expire(2 * SECOND), vec![2, 3, 4, 5]);
}

#[test]
fn switching_a_rule_keeps_the_other_settings() {
    let mut store = NotificationStore::new(NotificationConfig {
        low_timeout_seconds: 7,
        rules: vec![NotificationRuleConfig {
            name: "quiet".into(),
            ..NotificationRuleConfig::default()
        }],
        ..NotificationConfig::default()
    });
    let before = store.config().clone();
    store.rule_enable("quiet", 0);
    let after = store.config();
    assert!(!after.rules[0].enabled);
    assert_eq!(after.low_timeout_seconds, 7);
    assert_eq!(after.normal_timeout_seconds, before.normal_timeout_seconds);
    assert_eq!(after.critical_timeout_seconds, before.critical_timeout_seconds);
    assert_eq!(after.notification_limit, before.notification_limit);
    assert_eq!(after.history_length, before.history_length);
    assert_eq!(after.pause_level, before.pause_level);
    assert_eq!(after.enabled, before.enabled);
}
