use opencode_gpui::json::JsonValue;
use opencode_gpui::model::{Message, MessageRecord, Part, Role};
use opencode_gpui::timeline_actions::{action_at, user_text, MessageAction};
use opencode_gpui::timeline_overlay::{
    extract_entries, preferred_entry_index, rendered_message_index, TimelinePicker,
};

fn user_message(id: &str, created: u64, texts: &[(&str, bool, bool)]) -> MessageRecord {
    let parts = texts
        .iter()
        .enumerate()
        .map(|(index, (text, synthetic, ignored))| Part {
            id: format!("part-{id}-{index}"),
            session_id: "session".into(),
            message_id: id.into(),
            kind: "text".into(),
            data: vec![
                ("text".into(), JsonValue::String((*text).into())),
                ("synthetic".into(), JsonValue::Bool(*synthetic)),
                ("ignored".into(), JsonValue::Bool(*ignored)),
            ],
        })
        .collect();
    MessageRecord {
        info: Message {
            id: id.into(),
            session_id: "session".into(),
            role: Role::User,
            created,
        },
        parts,
    }
}

fn assistant_message() -> MessageRecord {
    MessageRecord {
        info: Message {
            id: "assistant".into(),
            session_id: "session".into(),
            role: Role::Assistant,
            created: 1,
        },
        parts: Vec::new(),
    }
}

#[test]
fn extracts_real_user_text_newest_first_and_flattens_it() {
    let messages = vec![
        user_message(
            "old",
            1_000,
            &[("generated", true, false), ("old\nprompt", false, false)],
        ),
        assistant_message(),
        user_message("ignored", 2_000, &[("hidden", false, true)]),
        user_message("new", 3_000, &[("new prompt", false, false)]),
    ];

    let entries = extract_entries(&messages, "");

    assert_eq!(
        entries
            .iter()
            .map(|entry| entry.message_id.as_str())
            .collect::<Vec<_>>(),
        ["new", "old"]
    );
    assert_eq!(entries[1].title, "old prompt");
}

#[test]
fn timeline_filter_is_case_insensitive() {
    let messages = vec![
        user_message("one", 1, &[("Fix Parser", false, false)]),
        user_message("two", 2, &[("write tests", false, false)]),
    ];

    let entries = extract_entries(&messages, "parser");

    assert_eq!(entries.len(), 1);
    assert_eq!(entries[0].message_id, "one");
}

#[test]
fn message_action_routing_matches_upstream_order() {
    assert_eq!(action_at(0), Some(MessageAction::Revert));
    assert_eq!(action_at(1), Some(MessageAction::Copy));
    assert_eq!(action_at(2), Some(MessageAction::Fork));
    assert_eq!(action_at(3), None);
}

#[test]
fn full_history_refresh_preserves_selected_message_id() {
    let initial = extract_entries(
        &vec![user_message("selected", 2, &[("selected", false, false)])],
        "",
    );
    let refreshed = extract_entries(
        &vec![
            user_message("older", 1, &[("older", false, false)]),
            user_message("selected", 2, &[("selected", false, false)]),
            user_message("newer", 3, &[("newer", false, false)]),
        ],
        "",
    );

    let index = preferred_entry_index(&refreshed, Some(&initial[0].message_id));

    assert_eq!(refreshed[index].message_id, "selected");
}

#[test]
fn preview_mapping_uses_the_bounded_rendered_timeline() {
    let rendered = vec![
        user_message("loaded", 2, &[("loaded", false, false)]),
        assistant_message(),
    ];

    assert_eq!(rendered_message_index(&rendered, "loaded"), Some(0));
    assert_eq!(rendered_message_index(&rendered, "old-unloaded"), None);
}

#[test]
fn missing_or_absent_selection_prefers_the_first_entry() {
    let entries = extract_entries(
        &vec![
            user_message("a", 1, &[("a", false, false)]),
            user_message("b", 2, &[("b", false, false)]),
        ],
        "",
    );
    assert_eq!(preferred_entry_index(&entries, None), 0);
    assert_eq!(preferred_entry_index(&entries, Some("gone")), 0);
    assert_eq!(preferred_entry_index(&entries, Some("a")), 1);
}

#[test]
fn query_is_trimmed_before_matching() {
    let messages = vec![user_message("one", 1, &[("Fix Parser", false, false)])];
    assert_eq!(extract_entries(&messages, "  PARSER ").len(), 1);
    assert!(extract_entries(&messages, "lexer").is_empty());
}

#[test]
fn action_titles_and_descriptions() {
    assert_eq!(MessageAction::Revert.title(), "Revert");
    assert_eq!(MessageAction::Copy.title(), "Copy");
    assert_eq!(MessageAction::Fork.title(), "Fork");
    assert_eq!(MessageAction::Revert.description(), "undo messages and file changes");
    assert_eq!(MessageAction::Copy.description(), "message text to clipboard");
    assert_eq!(MessageAction::Fork.description(), "create a new session");
}

#[test]
fn user_text_joins_real_text_parts_only() {
    let message = user_message(
        "m",
        1,
        &[("one ", false, false), ("generated", true, false), ("two", false, true)],
    );
    assert_eq!(user_text(&message), "one two");
}

#[test]
fn picker_keeps_the_picked_message_when_the_full_history_arrives() {
    let mut picker = TimelinePicker::new();
    picker.open("session", vec![user_message("selected", 2, &[("selected prompt", false, false)])]);
    assert_eq!(picker.message.as_deref(), Some("selected"));
    assert!(picker.wants_history("session", true));
    assert!(!picker.wants_history("session", false));
    assert!(!picker.wants_history("other", true));
    picker.replace_history(
        vec![
            user_message("older", 1, &[("older prompt", false, false)]),
            user_message("selected", 2, &[("selected prompt", false, false)]),
            user_message("newer", 3, &[("newer prompt", false, false)]),
        ],
        true,
        true,
    );
    assert_eq!(picker.entries.len(), 3);
    assert_eq!(picker.message.as_deref(), Some("selected"));
    assert_eq!(picker.selection, 1);
    picker.refresh("old");
    assert_eq!(picker.entries.len(), 1);
    assert_eq!(picker.message.as_deref(), Some("older"));
    picker.refresh("nothing like it");
    assert_eq!(picker.message, None);
    assert_eq!(picker.preview(), None);
    picker.refresh("");
    picker.selection = 2;
    assert_eq!(picker.preview().as_deref(), Some("older"));
    assert_eq!(picker.message.as_deref(), Some("older"));
}
