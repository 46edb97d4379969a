use opencode_gpui::format::{format_number, relative_time, session_title};
use opencode_gpui::interaction::{shell_switch, toggle_expansion, Expansion, PromptMode};
use opencode_gpui::event::SessionStatus;
use opencode_gpui::json::{JsonNumber, JsonValue};
use opencode_gpui::model::Part;
use opencode_gpui::part_format::{
    display_path, is_tool_part, kind_color, lines, output_preview, part_label, part_marker,
    patch_files, patch_path, produces_diff, session_tone, strip_inline_markers, tool_icon, tool_name,
    tool_output, tool_summary, ColorRole,
};

fn value(v: &serde_json::Value) -> JsonValue {
    match v {
        serde_json::Value::Null => JsonValue::Null,
        serde_json::Value::Bool(b) => JsonValue::Bool(*b),
        serde_json::Value::Number(n) => JsonValue::Number(JsonNumber {
            unsigned: n.as_u64(),
            text: n.to_string(),
        }),
        serde_json::Value::String(s) => JsonValue::String(s.clone()),
        serde_json::Value::Array(items) => JsonValue::Array(items.iter().map(value).collect()),
        serde_json::Value::Object(fields) => JsonValue::Object(
            fields.iter().map(|(k, v)| (k.clone(), value(v))).collect(),
        ),
    }
}

fn tool_part(data: &str) -> Part {
    let parsed: serde_json::Value = serde_json::from_str(data).unwrap();
    let fields = match value(&parsed) {
        JsonValue::Object(fields) => fields,
        _ => panic!("part data must be an object"),
    };
    Part {
        id: "p".into(),
        session_id: "s".into(),
        message_id: "m".into(),
        kind: "tool".into(),
        data: fields,
    }
}

#[test]
fn tool_summaries_by_tool() {
    let bash = tool_part(r#"{"tool":"bash","state":{"status":"running","input":{"command":"ls -la"}}}"#);
    assert_eq!(tool_summary(&bash, "/w"), "ls -la  running");
    let pending = tool_part(r#"{"tool":"bash","state":{}}"#);
    assert_eq!(tool_summary(&pending, "/w"), "writing command...");
    let read = tool_part(r#"{"tool":"read","state":{"input":{"filePath":"/w/src/main.rs"}}}"#);
    assert_eq!(tool_summary(&read, "/w"), "read src/main.rs");
    let grep = tool_part(
        r#"{"tool":"grep","state":{"status":"completed","input":{"pattern":"todo"},"metadata":{"matches":1}}}"#,
    );
    assert_eq!(tool_summary(&grep, "/w"), "grep \"todo\" in /w  1 match");
    let glob = tool_part(r#"{"tool":"glob","state":{"status":"error","input":{"pattern":"*.rs"},"metadata":{"count":12}}}"#);
    assert_eq!(tool_summary(&glob, "/w"), "glob \"*.rs\"  12 files  failed");
    let other = tool_part(r#"{"tool":"webfetch","state":{"title":"fetching docs"}}"#);
    assert_eq!(tool_summary(&other, "/w"), "fetching docs");
    let untitled = tool_part(r#"{"tool":"webfetch","state":{}}"#);
    assert_eq!(tool_summary(&untitled, "/w"), "webfetch");
}

#[test]
fn patch_summaries_name_the_changed_files() {
    let listed = tool_part(
        r#"{"tool":"apply_patch","state":{"metadata":{"files":[{"relativePath":"a.rs"},{"relativePath":"b.rs"},{"relativePath":"c.rs"}]}}}"#,
    );
    assert_eq!(tool_summary(&listed, "/w"), "patched a.rs +2 files");
    assert_eq!(
        patch_files(&listed),
        Some(vec!["a.rs".to_owned(), "b.rs".to_owned(), "c.rs".to_owned()])
    );
    let from_text = tool_part(
        r#"{"tool":"patch","state":{"input":{"patchText":"*** Begin Patch\r\n*** Update File: /w/x.rs\n@@\n*** Add File: y.rs\n*** End Patch\n"}}}"#,
    );
    assert_eq!(tool_summary(&from_text, "/w"), "patched x.rs, y.rs");
    assert_eq!(patch_files(&from_text), None);
    let empty = tool_part(r#"{"tool":"patch","state":{"input":{}}}"#);
    assert_eq!(tool_summary(&empty, "/w"), "preparing patch...");
    let one = tool_part(r#"{"tool":"patch","state":{"metadata":{"files":[{"relativePath":"only.rs"}],"diff":"+x"}}}"#);
    assert_eq!(tool_summary(&one, "/w"), "patched only.rs");
    assert!(produces_diff(&one));
    assert!(!produces_diff(&empty));
}

#[test]
fn part_labels_markers_and_colours() {
    let running = tool_part(r#"{"tool":"read","state":{"status":"pending"}}"#);
    assert!(is_tool_part(&running));
    assert_eq!(tool_name(&running), "read");
    assert_eq!(part_label(&running), "→");
    assert_eq!(part_marker(&running), ("●", ColorRole::Green));
    let failed = tool_part(r#"{"tool":"edit","state":{"status":"failed"}}"#);
    assert_eq!(part_marker(&failed), ("!", ColorRole::Red));
    let mut reasoning = tool_part(r#"{}"#);
    reasoning.kind = "reasoning".into();
    assert!(!is_tool_part(&reasoning));
    assert_eq!(part_label(&reasoning), "thought");
    assert_eq!(part_marker(&reasoning), ("›", ColorRole::Reasoning));
    assert_eq!(kind_color("patch"), ColorRole::Cyan);
    assert_eq!(kind_color("agent"), ColorRole::Blue);
    assert_eq!(kind_color("text"), ColorRole::TextMuted);
    assert_eq!(tool_icon("task"), "@");
    assert_eq!(tool_icon("unknown"), "·");
}

#[test]
fn paths_markers_and_lines() {
    assert_eq!(display_path("/w/src/a.rs", "/w"), "src/a.rs");
    assert_eq!(display_path("/wx/a.rs", "/w"), "/wx/a.rs");
    assert_eq!(display_path("/w", "/w"), "/w");
    assert_eq!(strip_inline_markers("  **bold**  "), "bold");
    assert_eq!(strip_inline_markers("**"), "**");
    assert_eq!(strip_inline_markers(" plain "), "plain");
    assert_eq!(patch_path("*** Delete File: gone.rs"), Some("gone.rs".to_owned()));
    assert_eq!(patch_path("*** End Patch"), None);
    assert_eq!(lines("a\r\nb\n\nc\r"), vec!["a", "b", "", "c\r"]);
    assert!(lines("").is_empty());
    assert_eq!(lines("x\n"), vec!["x"]);
}

#[test]
fn tool_output_previews() {
    let with_output = tool_part(r#"{"tool":"bash","state":{"output":"  1\n2\n3\n4\n5\n6\n7\n8  "}}"#);
    let output = tool_output(&with_output);
    assert_eq!(output.as_deref(), Some("1\n2\n3\n4\n5\n6\n7\n8"));
    let preview = output_preview("bash", output.as_deref()).unwrap();
    assert_eq!(preview.text, "1\n2\n3\n4\n5\n6");
    assert_eq!(preview.hidden_lines, 2);
    assert!(output_preview("read", Some("x")).is_none());
    assert!(output_preview("bash", None).is_none());
    let from_metadata = tool_part(r#"{"tool":"task","state":{"metadata":{"output":"done"}}}"#);
    assert_eq!(tool_output(&from_metadata).as_deref(), Some("done"));
    let blank = tool_part(r#"{"tool":"bash","state":{"output":"   "}}"#);
    assert_eq!(tool_output(&blank), None);
}

#[test]
fn numbers_and_ages() {
    assert_eq!(format_number(0), "0");
    assert_eq!(format_number(999), "999");
    assert_eq!(format_number(1000), "1,000");
    assert_eq!(format_number(1234567), "1,234,567");
    assert_eq!(relative_time(10_000, 20_000), "now");
    assert_eq!(relative_time(59_999, 0), "now");
    assert_eq!(relative_time(120_000, 0), "2m");
    assert_eq!(relative_time(7_200_000, 0), "2h");
    assert_eq!(relative_time(172_800_000, 0), "2d");
    assert_eq!(relative_time(5_184_000_000, 0), "2mo");
}

#[test]
fn shell_mode_and_part_expansion() {
    assert_eq!(shell_switch(PromptMode::Normal, "!ls"), Some("ls".to_owned()));
    assert_eq!(shell_switch(PromptMode::Normal, "ls"), None);
    assert_eq!(shell_switch(PromptMode::Shell, "!ls"), None);
    let closed = Expansion {
        expanded: false,
        collapsed: false,
    };
    let opened = toggle_expansion(closed, false);
    assert_eq!(opened, Expansion { expanded: true, collapsed: false });
    assert_eq!(toggle_expansion(opened, false), closed);
    let by_default = toggle_expansion(closed, true);
    assert_eq!(by_default, Expansion { expanded: false, collapsed: true });
    assert_eq!(toggle_expansion(by_default, true), Expansion { expanded: true, collapsed: false });
}

#[test]
fn blank_session_titles_read_untitled() {
    assert_eq!(session_title(" \t"), "Untitled session");
    assert_eq!(session_title(""), "Untitled session");
    assert_eq!(session_title(" Fix parser "), " Fix parser ");
}

#[test]
fn session_bars_show_work_and_retries() {
    assert!(matches!(session_tone(Some(&SessionStatus::Busy)), ColorRole::Green));
    let retry = SessionStatus::Retry { attempt: 2, message: "rate limited".into(), next: 9 };
    assert!(matches!(session_tone(Some(&retry)), ColorRole::Yellow));
    assert!(matches!(session_tone(Some(&SessionStatus::Idle)), ColorRole::Border));
    assert!(matches!(session_tone(None), ColorRole::Border));
}
