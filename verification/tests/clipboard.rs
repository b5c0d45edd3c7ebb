use bah::clipboard::{
    accumulated_size, content_id, is_plain_text_alias, is_text, is_transient_mime_type,
    load_entries, mime_priority, normalized_mime_types, offered_mime_types, payload_file_name,
    AddPlan, ClipboardConfig, ClipboardData, ClipboardEntry, ClipboardHistory, ClipboardPayload,
    LoadedEntry,
};

fn data(mime_type: &str, bytes: &[u8]) -> ClipboardData {
    ClipboardData {
        mime_type: mime_type.into(),
        bytes: bytes.to_vec(),
    }
}

fn entry(id: &str, size: u64) -> ClipboardEntry {
    ClipboardEntry {
        id: id.into(),
        created_at: 0,
        payloads: vec![ClipboardPayload {
            mime_type: "text/plain".into(),
            file_name: "0".into(),
            size,
        }],
        total_size: size,
    }
}

fn limits(max_entries: usize, max_total_bytes: u64) -> ClipboardConfig {
    ClipboardConfig {
        max_entries,
        max_entry_bytes: 8,
        max_total_bytes,
    }
}

#[test]
fn content_identity_includes_mime_and_bytes() {
    assert_ne!(
        content_id(&vec![data("text/plain", b"same")]),
        content_id(&vec![data("text/html", b"same")])
    );
}

#[test]
fn content_identity_is_a_digest() {
    assert_eq!(
        content_id(&vec![data("text/plain", b"same")]),
        "c99347a8686a70934baa215fc3feb3a90fb591bd512aa6343f021be374f8bba5"
    );
    assert_eq!(
        content_id(&vec![data("text/plain", b"hello"), data("image/png", b"\x89PNG")]),
        "b923946f2b9692ebaba16b1f8d6feb74dc4027b56d46f8d3eb24dcfb4beaad93"
    );
}

#[test]
fn image_is_preferred_for_paste() {
    let entry = ClipboardEntry {
        id: "x".into(),
        created_at: 0,
        total_size: 2,
        payloads: vec![
            ClipboardPayload {
                mime_type: "image/png".into(),
                file_name: "0".into(),
                size: 1,
            },
            ClipboardPayload {
                mime_type: "text/plain".into(),
                file_name: "1".into(),
                size: 1,
            },
        ],
    };
    assert_eq!(entry.preferred_payload().unwrap().mime_type, "image/png");
    assert!(is_text("text/plain;charset=utf-8"));
    assert!(mime_priority("text/plain") < mime_priority("image/png"));
}

#[test]
fn normalizes_equivalent_text_targets_and_discards_pid_targets() {
    assert_eq!(
        normalized_mime_types(vec![
            "pid/2413".into(),
            "UTF8_STRING".into(),
            "TEXT".into(),
            "text/plain".into(),
            "text/plain;charset=utf-8".into(),
            "image/png".into(),
        ]),
        vec!["text/plain;charset=utf-8", "image/png"]
    );
}

#[test]
fn normalizing_again_changes_nothing() {
    let once = normalized_mime_types(vec![
        "text/html".into(),
        "UTF8_STRING".into(),
        "image/png".into(),
        "TEXT".into(),
    ]);
    assert_eq!(normalized_mime_types(once.clone()), once);
}

#[test]
fn listed_types_are_offered() {
    assert_eq!(
        offered_mime_types("image/png\ntext/plain\nTEXT\n"),
        vec!["text/plain", "image/png"]
    );
    assert!(offered_mime_types("").is_empty());
    assert!(is_transient_mime_type("pid/1"));
    assert!(is_plain_text_alias("UTF8_STRING"));
    assert!(!is_plain_text_alias("text/html"));
}

#[test]
fn entries_that_are_too_large_are_ignored() {
    let history = ClipboardHistory::new(limits(2, 100), vec![]);
    assert!(matches!(history.plan_add(&vec![]), AddPlan::Ignore));
    assert!(matches!(
        history.plan_add(&vec![data("text/plain", b"123456789")]),
        AddPlan::Ignore
    ));
    assert_eq!(accumulated_size(5, 3, 8), Some(8));
    assert_eq!(accumulated_size(5, 4, 8), None);
}

#[test]
fn new_content_is_stored_and_known_content_is_promoted() {
    let same = vec![data("text/plain", b"same")];
    let id = content_id(&same);
    let mut history = ClipboardHistory::new(limits(3, 100), vec![]);
    match history.plan_add(&same) {
        AddPlan::Store {
            id: planned,
            payloads,
            total_size,
        } => {
            assert_eq!(planned, id);
            assert_eq!(total_size, 4);
            assert_eq!(payloads[0].file_name, payload_file_name(0));
        }
        _ => panic!("new content was not stored"),
    }
    assert!(history.insert(entry(&id, 4)).is_empty());
    assert!(matches!(history.plan_add(&same), AddPlan::Ignore));
    history.insert(entry("newer", 1));
    assert!(matches!(history.plan_add(&same), AddPlan::Promote(1)));
    history.promote(1);
    assert_eq!(history.entries()[0].id, id);
}

#[test]
fn the_oldest_entries_leave_first() {
    let mut history = ClipboardHistory::new(limits(2, 10), vec![]);
    history.insert(entry("a", 4));
    history.insert(entry("b", 4));
    let removed = history.insert(entry("c", 4));
    assert_eq!(removed.len(), 1);
    assert_eq!(removed[0].id, "a");
    let removed = history.insert(entry("d", 8));
    assert_eq!(removed.len(), 2);
    assert_eq!(history.entries().len(), 1);
    assert_eq!(history.clear().len(), 1);
    assert!(history.entries().is_empty());
}

#[test]
fn stored_entries_are_kept_once() {
    let stored = vec![
        LoadedEntry {
            entry: entry("a", 1),
            complete: true,
            plain_text: Some(b"text".to_vec()),
        },
        LoadedEntry {
            entry: entry("b", 1),
            complete: false,
            plain_text: None,
        },
        LoadedEntry {
            entry: entry("c", 1),
            complete: true,
            plain_text: Some(b"text".to_vec()),
        },
    ];
    let kept = load_entries(stored);
    assert_eq!(kept.len(), 1);
    assert_eq!(kept[0].id, "a");
}

#[test]
fn entries_show_their_richest_type() {
    let entry = ClipboardEntry {
        id: "x".into(),
        created_at: 0,
        total_size: 1,
        payloads: vec![ClipboardPayload {
            mime_type: "text/html".into(),
            file_name: "0".into(),
            size: 1,
        }],
    };
    assert!(entry.image_payload().is_none());
    assert_eq!(entry.text_payload().unwrap().mime_type, "text/html");
    assert_eq!(entry.display_mime_type(), "text/html");
}
