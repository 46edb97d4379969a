use opencode_gpui::assoc::StrMap;
use opencode_gpui::json::{JsonNumber, JsonValue};
use opencode_gpui::plugins::{plugin_display, plugin_path_name};
use opencode_gpui::part_format::ColorRole;
use opencode_gpui::status_dialog::{
    mcp_tone, mcp_operation, mcp_status_label, McpOperation, McpStatus, StatusDialogState, StatusSnapshot,
    StatusTarget, ToggleOutcome,
};

fn snapshot() -> StatusSnapshot {
    StatusSnapshot {
        mcp: StrMap::new(),
        lsp: Vec::new(),
        formatters: Vec::new(),
        plugins: Vec::new(),
    }
}

fn snapshot_with(names: &[&str]) -> StatusSnapshot {
    let mut snapshot = snapshot();
    for name in names {
        snapshot.mcp.insert((*name).to_owned(), McpStatus::Connected);
    }
    snapshot
}

fn plugin_value(value: &serde_json::Value) -> JsonValue {
    match value {
        serde_json::Value::Null => JsonValue::Null,
        serde_json::Value::Bool(b) => JsonValue::Bool(*b),
        serde_json::Value::Number(n) => JsonValue::Number(JsonNumber {
            unsigned: n.as_u64(),
            text: n.to_string(),
        }),
        serde_json::Value::String(s) => JsonValue::String(s.clone()),
        serde_json::Value::Array(items) => {
            JsonValue::Array(items.iter().map(plugin_value).collect())
        }
        serde_json::Value::Object(fields) => JsonValue::Object(
            fields
                .iter()
                .map(|(key, value)| (key.clone(), plugin_value(value)))
                .collect(),
        ),
    }
}

/// Shows a plugin entry given as JSON text, as the status dialog does.
fn show(text: &str) -> opencode_gpui::plugins::PluginDisplay {
    let value: serde_json::Value = serde_json::from_str(text).unwrap();
    plugin_display(&plugin_value(&value))
}

#[test]
fn plugin_entries_have_readable_package_and_file_labels() {
    let package = show(r#""@scope/plugin@1.2.3""#);
    assert_eq!(package.name, "@scope/plugin");
    assert_eq!(package.version.as_deref(), Some("1.2.3"));

    let bare = show(r#""opencode-gpt-imagegen""#);
    assert_eq!(bare.name, "opencode-gpt-imagegen");
    assert_eq!(bare.version, None);

    let configured = show(r#"["opencode-goal-plugin", {"maxTurns": 1000}]"#);
    assert_eq!(configured.name, "opencode-goal-plugin");
    assert_eq!(configured.version, None);

    let file = show(r#"["file:///work/my-plugin/index.ts", {"enabled": true}]"#);
    assert_eq!(file.name, "my-plugin");
    assert_eq!(file.path.as_deref(), Some("/work/my-plugin/index.ts"));

    let unknown = show(r#"{"future": true}"#);
    assert_eq!(unknown.name, "unrecognized plugin");
}

#[test]
fn plugin_objects_and_paths() {
    let object = show(r#"{"path": "./plugins/lint.ts", "version": "2"}"#);
    assert_eq!(object.name, "lint");
    assert_eq!(object.version.as_deref(), Some("2"));
    assert_eq!(object.path.as_deref(), Some("./plugins/lint.ts"));

    let named = show(r#"{"name": "custom", "version": "0.1"}"#);
    assert_eq!(named.name, "custom");
    assert_eq!(named.path, None);

    let unknown = show(r#"42"#);
    assert_eq!(unknown.path.as_deref(), Some("42"));
    assert_eq!(plugin_path_name("/opt/tools/index.js"), "tools");
    assert_eq!(plugin_path_name("/opt/tools/fmt.js"), "fmt");
}

#[test]
fn every_mcp_status_has_a_useful_rendering_label() {
    let cases = [
        (McpStatus::Connected, "Connected"),
        (McpStatus::Disabled, "Disabled in configuration"),
        (
            McpStatus::Failed {
                error: "boom".into(),
            },
            "boom",
        ),
        (
            McpStatus::NeedsAuth,
            "Needs authentication (run: opencode mcp auth github)",
        ),
        (
            McpStatus::NeedsClientRegistration {
                error: "register first".into(),
            },
            "register first",
        ),
        (
            McpStatus::Unknown {
                status: "warming".into(),
                detail: Some("retrying".into()),
            },
            "warming: retrying",
        ),
    ];
    for (status, expected) in cases {
        assert_eq!(mcp_status_label("github", &status), expected);
    }
}

#[test]
fn only_connected_mcp_servers_toggle_toward_disconnect() {
    let statuses = [
        (McpStatus::Connected, McpOperation::Disconnect),
        (McpStatus::Disabled, McpOperation::Connect),
        (
            McpStatus::Failed {
                error: "failed".into(),
            },
            McpOperation::Connect,
        ),
        (McpStatus::NeedsAuth, McpOperation::Connect),
        (
            McpStatus::NeedsClientRegistration {
                error: "register".into(),
            },
            McpOperation::Connect,
        ),
        (
            McpStatus::Unknown {
                status: "warming".into(),
                detail: None,
            },
            McpOperation::Connect,
        ),
    ];
    for (status, expected) in statuses {
        assert_eq!(mcp_operation(&status), expected);
    }
}

#[test]
fn snapshot_application_sorts_names_and_preserves_selection() {
    let target = StatusTarget {
        directory: "/work".into(),
        session_id: None,
    };
    let mut state = StatusDialogState::new();
    let generation = state.begin(target.clone());
    assert!(state.apply(
        &target,
        generation,
        Ok(snapshot_with(&["zeta", "alpha", "middle"]))
    ));
    assert_eq!(state.mcp_names, ["alpha", "middle", "zeta"]);
    assert!(state.move_selection(-1));
    assert_eq!(state.selected, 2);
    assert!(state.move_selection(1));
    assert_eq!(state.selected, 0);
    state.selected = 1;
    let generation = state.begin(target.clone());
    assert!(state.apply(
        &target,
        generation,
        Ok(snapshot_with(&["middle", "beta", "alpha"]))
    ));
    assert_eq!(state.mcp_names, ["alpha", "beta", "middle"]);
    assert_eq!(state.mcp_names[state.selected], "middle");
}

#[test]
fn pending_operation_blocks_duplicate_activation() {
    let mut state = StatusDialogState::new();
    let generation = state
        .start_operation("github".into(), McpOperation::Connect)
        .unwrap();
    assert!(state
        .start_operation("other".into(), McpOperation::Disconnect)
        .is_none());
    state.reset_for_open();
    assert!(!state.operation_is_current(generation, "github"));
}

#[test]
fn stale_status_generations_and_targets_are_ignored() {
    let first = StatusTarget {
        directory: "/one".into(),
        session_id: Some("session-one".into()),
    };
    let second = StatusTarget {
        directory: "/two".into(),
        session_id: Some("session-two".into()),
    };
    let mut state = StatusDialogState::new();
    let old_generation = state.begin(first.clone());
    let generation = state.begin(second.clone());
    assert!(!state.apply(&first, old_generation, Ok(snapshot())));
    assert!(state.snapshot.is_none());
    assert!(state.apply(&second, generation, Ok(snapshot())));
    assert!(state.snapshot.is_some());
}

#[test]
fn same_answer_twice_changes_nothing_the_second_time() {
    let target = StatusTarget {
        directory: "/w".into(),
        session_id: None,
    };
    let mut state = StatusDialogState::new();
    let generation = state.begin(target.clone());
    assert!(state.apply(&target, generation, Ok(snapshot_with(&["a"]))));
    let generation = state.begin(target.clone());
    assert!(!state.apply(&target, generation, Ok(snapshot_with(&["a"]))));
    let generation = state.begin(target.clone());
    assert!(state.apply(&target, generation, Err("down".into())));
    assert_eq!(state.error.as_deref(), Some("down"));
    let generation = state.begin(target.clone());
    assert!(state.error.is_none());
    assert!(state.apply(&target, generation, Err("down".into())));
}

#[test]
fn failed_toggle_reports_and_frees_the_slot() {
    let mut state = StatusDialogState::new();
    let generation = state
        .start_operation("github".into(), McpOperation::Connect)
        .unwrap();
    assert!(state.operation_is_current(generation, "github"));
    assert!(!state.fail_operation(generation + 1, "nope".into()));
    assert!(state.fail_operation(generation, "nope".into()));
    assert_eq!(state.action_error.as_deref(), Some("nope"));
    assert!(state
        .start_operation("github".into(), McpOperation::Disconnect)
        .is_some());
}

#[test]
fn refresh_answer_ends_the_toggle() {
    let target = StatusTarget {
        directory: "/w".into(),
        session_id: None,
    };
    let mut state = StatusDialogState::new();
    let toggle = state
        .start_operation("a".into(), McpOperation::Connect)
        .unwrap();
    let generation = state.begin(target.clone());
    state.set_operation_refresh(toggle, generation);
    assert!(state.apply(&target, generation, Ok(snapshot_with(&["a"]))));
    assert!(state.pending.is_none());
}

#[test]
fn selection_wraps_and_select_ignores_rows_out_of_range() {
    let target = StatusTarget {
        directory: "/w".into(),
        session_id: None,
    };
    let mut state = StatusDialogState::new();
    assert!(!state.move_selection(1));
    let generation = state.begin(target.clone());
    state.apply(&target, generation, Ok(snapshot_with(&["a", "b", "c"])));
    assert!(state.move_selection(-1));
    assert_eq!(state.selected, 2);
    assert!(state.move_selection(-1));
    assert!(state.move_selection(1));
    assert_eq!(state.selected, 2);
    state.select(7);
    assert_eq!(state.selected, 2);
    state.select(0);
    assert_eq!(state.selected, 0);
    assert_eq!(McpOperation::Connect.verb(), "connect");
    assert_eq!(McpOperation::Disconnect.verb(), "disconnect");
}

#[test]
fn toggling_the_selected_server() {
    let target = StatusTarget {
        directory: "/w".into(),
        session_id: None,
    };
    let mut state = StatusDialogState::new();
    assert!(state.toggle_selected(Some(target.clone())).is_none());
    let generation = state.begin(target.clone());
    state.apply(&target, generation, Ok(snapshot_with(&["github"])));
    assert!(state.toggle_selected(None).is_none());
    assert!(state.pending.is_none());
    let (name, operation, toggle, started_for) = state.toggle_selected(Some(target.clone())).unwrap();
    assert_eq!(name, "github");
    assert_eq!(operation, McpOperation::Disconnect);
    assert_eq!(started_for.directory, "/w");
    assert!(state.toggle_selected(Some(target.clone())).is_none());
    let shown = Some(&target);
    assert_eq!(state.finish_toggle(&started_for, shown, toggle + 1, "github", Ok(true)), ToggleOutcome::Ignored);
    assert_eq!(state.finish_toggle(&started_for, shown, toggle, "github", Ok(true)), ToggleOutcome::Refresh);
    assert_eq!(state.finish_toggle(&started_for, shown, toggle, "github", Ok(false)), ToggleOutcome::Failed);
    assert_eq!(
        state.action_error.as_deref(),
        Some("Could not disconnect github: OpenCode returned false. Retry the toggle.")
    );
    let (_, _, again, started_for) = state.toggle_selected(Some(target.clone())).unwrap();
    assert_eq!(
        state.finish_toggle(&started_for, shown, again, "github", Err("timeout".into())),
        ToggleOutcome::Failed
    );
    assert_eq!(
        state.action_error.as_deref(),
        Some("Could not disconnect github: timeout. Retry the toggle.")
    );
}

#[test]
fn a_toggle_answer_for_a_target_no_longer_shown_is_ignored() {
    let target = StatusTarget { directory: "/w".into(), session_id: Some("one".into()) };
    let moved_on = StatusTarget { directory: "/w".into(), session_id: Some("two".into()) };
    let mut state = StatusDialogState::new();
    let generation = state.begin(target.clone());
    state.apply(&target, generation, Ok(snapshot_with(&["github"])));
    let (_, _, toggle, started_for) = state.toggle_selected(Some(target.clone())).unwrap();
    assert_eq!(
        state.finish_toggle(&started_for, Some(&moved_on), toggle, "github", Err("timeout".into())),
        ToggleOutcome::Ignored
    );
    assert_eq!(state.finish_toggle(&started_for, None, toggle, "github", Ok(false)), ToggleOutcome::Ignored);
    assert!(state.pending.is_some());
    assert!(state.action_error.is_none());
    assert_eq!(state.finish_toggle(&started_for, Some(&target), toggle, "github", Ok(true)), ToggleOutcome::Refresh);
}

#[test]
fn mcp_statuses_have_their_colours() {
    assert!(matches!(mcp_tone(&McpStatus::Connected), ColorRole::Green));
    assert!(matches!(mcp_tone(&McpStatus::Disabled), ColorRole::TextMuted));
    assert!(matches!(mcp_tone(&McpStatus::NeedsAuth), ColorRole::Yellow));
    assert!(matches!(mcp_tone(&McpStatus::Failed { error: "boom".into() }), ColorRole::Red));
}

#[test]
fn status_target_names_the_tab_and_its_session() {
    let mut tab = opencode_gpui::workspace::DirectoryTimeline::new("/work".into());
    let target = tab.status_target();
    assert_eq!(target.directory, "/work");
    assert_eq!(target.session_id, None);
    tab.timeline = opencode_gpui::timeline::TimelineState::Loading {
        session_id: "ses".into(),
        title: "t".into(),
    };
    assert_eq!(tab.status_target().session_id.as_deref(), Some("ses"));
}

#[test]
fn unrecognized_plugin_entries_show_their_compact_json() {
    let entry = show(r#"{ "future": [1, "a\"b\u0001", null, false], "z": {} }"#);
    assert_eq!(entry.name, "unrecognized plugin");
    assert_eq!(entry.path.as_deref(), Some(r#"{"future":[1,"a\"b\u0001",null,false],"z":{}}"#));
    let value: serde_json::Value =
        serde_json::from_str(r#"{ "future": [1, "a\"b\u0001", null, false], "z": {} }"#).unwrap();
    assert_eq!(entry.path.as_deref(), Some(value.to_string().as_str()));
}

#[test]
fn applying_the_same_snapshot_again_keeps_names_and_selection() {
    let target = StatusTarget { directory: "/work".into(), session_id: None };
    let mut state = StatusDialogState::new();
    let first = state.begin(target.clone());
    assert!(state.apply(&target, first, Ok(snapshot_with(&["zeta", "alpha", "middle"]))));
    state.select(2);
    let names = state.mcp_names.clone();
    let second = state.begin(target.clone());
    assert!(!state.apply(&target, second, Ok(snapshot_with(&["zeta", "alpha", "middle"]))));
    assert_eq!(state.mcp_names, names);
    assert_eq!(state.selected, 2);
    assert!(state.error.is_none());
}
