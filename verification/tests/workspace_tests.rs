use opencode_gpui::assoc::StrMap;
use opencode_gpui::entrances::PartSelection;
use opencode_gpui::event::SessionStatus;
use opencode_gpui::json::JsonValue;
use opencode_gpui::layout::{current_layout, layout_from, stored_layout, LayoutFile, WorkspaceLayout};
use opencode_gpui::model::{Message, MessageRecord, Part, Role, Session};
use opencode_gpui::timeline::{TimelineState, MESSAGE_PAGE};
use opencode_gpui::workspace::{DirectoryTimeline, WorkspaceState};

fn session_in(id: &str, directory: &str, updated: u64) -> Session {
    Session {
        id: id.into(),
        directory: directory.into(),
        parent_id: None,
        title: id.into(),
        updated,
    }
}

fn record(id: &str, session_id: &str, text: &str) -> MessageRecord {
    MessageRecord {
        info: Message {
            id: id.into(),
            session_id: session_id.into(),
            role: Role::User,
            created: 1,
        },
        parts: vec![Part {
            id: format!("part-{id}"),
            session_id: session_id.into(),
            message_id: id.into(),
            kind: "text".into(),
            data: vec![("text".into(), JsonValue::String(text.into()))],
        }],
    }
}

fn workspace_with(directories: &[&str], sessions: Vec<Session>) -> WorkspaceState {
    let tabs = directories
        .iter()
        .map(|d| DirectoryTimeline::new((*d).into()))
        .collect();
    let mut workspace = WorkspaceState::new(tabs);
    workspace.sessions = Some(sessions);
    workspace
}

#[test]
fn directory_tabs_scope_sessions_without_losing_global_discovery() {
    let workspace = workspace_with(
        &["/work/a"],
        vec![
            session_in("a-old", "/work/a", 1),
            session_in("b", "/work/b", 3),
            session_in("a-new", "/work/a", 2),
        ],
    );
    assert_eq!(workspace.directory_session_count("/work/a"), 2);
    assert_eq!(workspace.directory_session_count("/work/b"), 1);
    assert_eq!(workspace.directory_session_count("/work/c"), 0);
}

#[test]
fn session_navigation_wraps_within_the_directory() {
    let mut child = session_in("child", "/w", 9);
    child.parent_id = Some("one".into());
    let workspace = workspace_with(
        &["/w"],
        vec![
            session_in("one", "/w", 3),
            child,
            session_in("elsewhere", "/x", 2),
            session_in("two", "/w", 1),
        ],
    );
    assert_eq!(workspace.session_after("/w", Some("one"), 1).unwrap().id, "two");
    assert_eq!(workspace.session_after("/w", Some("two"), 1).unwrap().id, "one");
    assert_eq!(workspace.session_after("/w", Some("one"), -1).unwrap().id, "two");
    assert_eq!(workspace.session_after("/w", None, 1).unwrap().id, "two");
    assert_eq!(workspace.session_after("/w", Some("child"), -1).unwrap().id, "two");
    assert!(workspace.session_after("/empty", None, 1).is_none());
}

#[test]
fn busy_directories_lists_each_active_directory_once() {
    let mut workspace = workspace_with(
        &["/a"],
        vec![
            session_in("s1", "/a", 1),
            session_in("s2", "/a", 2),
            session_in("s3", "/b", 3),
            session_in("s4", "/c", 4),
        ],
    );
    workspace.statuses.insert("s1".into(), SessionStatus::Busy);
    workspace.statuses.insert(
        "s2".into(),
        SessionStatus::Retry {
            attempt: 1,
            message: "later".into(),
            next: 5,
        },
    );
    workspace.statuses.insert("s3".into(), SessionStatus::Idle);
    assert_eq!(workspace.busy_directories(), vec!["/a".to_owned()]);
}

#[test]
fn session_loads_and_stale_answers_are_ignored() {
    let mut workspace = workspace_with(&["/w"], Vec::new());
    assert!(workspace.begin_session_load("/w", "s1", "First"));
    assert!(!workspace.begin_session_load("/w", "s1", "First"));
    assert!(!workspace.begin_session_load("/nowhere", "s1", "First"));
    assert!(matches!(workspace.tabs[0].timeline, TimelineState::Loading { .. }));
    assert!(workspace.begin_session_load("/w", "s2", "Second"));
    assert!(!workspace.finish_session_load("/w", "s1", "First", Ok(Vec::new())));
    assert!(workspace.finish_session_load("/w", "s2", "Second", Ok(vec![record("m", "s2", "hi")])));
    assert!(workspace.tabs[0].history_exhausted);
    match &workspace.tabs[0].timeline {
        TimelineState::Ready { title, messages, .. } => {
            assert_eq!(title, "Second");
            assert_eq!(messages.len(), 1);
        }
        _ => panic!("timeline should be ready"),
    }
    assert_eq!(workspace.tabs[0].message_limit, MESSAGE_PAGE);
    assert!(workspace.begin_session_load("/w", "s3", "Third"));
    assert!(workspace.finish_session_load("/w", "s3", "Third", Err("offline".into())));
    assert!(matches!(workspace.tabs[0].timeline, TimelineState::Failed { .. }));
}

#[test]
fn idle_refresh_updates_the_cache_and_the_shown_timeline() {
    let mut workspace = workspace_with(&["/w"], Vec::new());
    assert_eq!(workspace.idle_refresh_limit("/w", "s"), None);
    workspace.tabs[0].timeline = TimelineState::Ready {
        session_id: "s".into(),
        title: "t".into(),
        messages: vec![record("m", "s", "old")],
    };
    assert_eq!(workspace.idle_refresh_limit("/w", "s"), Some(MESSAGE_PAGE));
    assert_eq!(workspace.idle_refresh_limit("/other", "s"), None);
    assert!(!workspace.apply_idle_refresh("/w", "s", vec![record("m", "s", "old")]));
    assert!(workspace.apply_idle_refresh("/w", "s", vec![record("m", "s", "new")]));
    assert_eq!(workspace.cache.get("s").unwrap()[0].parts[0].text(), Some("new"));
    workspace.cache.replace("hidden", &[]);
    assert_eq!(workspace.idle_refresh_limit("/w", "hidden"), Some(MESSAGE_PAGE));
    assert!(!workspace.apply_idle_refresh("/w", "hidden", vec![record("h", "hidden", "x")]));
    assert_eq!(workspace.cache.get("hidden").unwrap().len(), 1);
    assert!(!workspace.apply_idle_refresh("/w", "unknown", vec![record("u", "unknown", "x")]));
    assert!(workspace.cache.get("unknown").is_none());
}

#[test]
fn workspace_layout_round_trips_through_its_file() {
    let workspace = workspace_with(&["/work/one", "/work/two"], Vec::new());
    let layout = current_layout(&workspace.tabs, Some("/work/one"));
    assert_eq!(layout.directories, vec!["/work/one".to_owned(), "/work/two".to_owned()]);
    let restored = layout_from(Some(stored_layout(layout)));
    assert_eq!(
        restored,
        Some(WorkspaceLayout {
            directories: vec!["/work/one".into(), "/work/two".into()],
            active_directory: Some("/work/one".into()),
        })
    );
    assert_eq!(
        layout_from(Some(LayoutFile {
            version: 7,
            layout: WorkspaceLayout {
                directories: Vec::new(),
                active_directory: None,
            },
        })),
        None
    );
    assert_eq!(layout_from(None), None);
}

#[test]
fn known_directories_come_most_recent_first() {
    let workspace = workspace_with(
        &["/work/open", "/work/a"],
        vec![
            session_in("a-old", "/work/a", 10),
            session_in("b", "/work/b", 30),
            session_in("a-new", "/work/a", 20),
        ],
    );
    let mut history = StrMap::new();
    history.insert("/work/remembered".to_string(), 25);
    history.insert("/work/a".to_string(), 5);
    history.insert("/work/open".to_string(), 1);
    assert_eq!(
        workspace.known_directories(&history),
        ["/work/b", "/work/remembered", "/work/a", "/work/open"]
    );
    let empty = WorkspaceState::new(Vec::new());
    assert!(empty.known_directories(&StrMap::new()).is_empty());
}

#[test]
fn cached_sessions_open_at_once_whatever_their_status() {
    let mut workspace = workspace_with(&["/workspace"], Vec::new());
    for id in ["busy", "idle"] {
        workspace.cache.replace(id, &[record(id, id, "cached text")]);
    }
    workspace.statuses.insert("busy".into(), SessionStatus::Busy);
    workspace.statuses.insert("idle".into(), SessionStatus::Idle);
    assert!(workspace.begin_session_load("/workspace", "busy", "busy"));
    assert!(matches!(&workspace.tabs[0].timeline, TimelineState::Ready { session_id, .. } if session_id == "busy"));
    assert!(workspace.begin_session_load("/workspace", "idle", "idle"));
    assert!(matches!(&workspace.tabs[0].timeline, TimelineState::Ready { messages, .. } if messages.len() == 1));
    assert!(workspace.finish_session_load("/workspace", "idle", "idle", Ok(vec![
        record("a", "idle", "one"),
        record("b", "idle", "two"),
    ])));
    assert!(matches!(&workspace.tabs[0].timeline, TimelineState::Ready { messages, .. } if messages.len() == 2));
}

#[test]
fn another_tab_preloads_without_touching_the_first() {
    let mut workspace = workspace_with(&["/work/a", "/work/b"], Vec::new());
    assert!(workspace.begin_session_load("/work/b", "session-b", "background"));
    assert_eq!(workspace.tabs[0].directory, "/work/a");
    assert!(matches!(workspace.tabs[0].timeline, TimelineState::Empty));
    assert!(matches!(&workspace.tabs[1].timeline, TimelineState::Loading { session_id, .. } if session_id == "session-b"));
}

#[test]
fn optimistic_message_survives_switching_away_and_back() {
    let mut workspace = workspace_with(&["/workspace"], Vec::new());
    workspace.cache.replace("other", &[record("o", "other", "other text")]);
    workspace.cache.push_optimistic("active", record("local", "active", "keep me"));
    assert!(workspace.begin_session_load("/workspace", "other", "other"));
    assert!(workspace.begin_session_load("/workspace", "active", "active"));
    match &workspace.tabs[0].timeline {
        TimelineState::Ready { messages, .. } => {
            assert_eq!(messages.len(), 1);
            assert_eq!(messages[0].parts[0].text(), Some("keep me"));
        }
        _ => panic!("the optimistic session opens from the cache"),
    }
}

#[test]
fn selecting_another_session_resets_the_inspector_and_the_interrupt() {
    let mut workspace = workspace_with(&["/workspace"], Vec::new());
    workspace.cache.replace("target", &[record("cached", "target", "hello")]);
    workspace.interrupt_session = Some("other".into());
    let part = || PartSelection { message_id: "m".into(), part_id: "p".into() };
    workspace.tabs[0].selected_part = Some(part());
    workspace.tabs[0].expanded_parts = vec![part()];
    workspace.tabs[0].collapsed_parts = vec![part()];
    assert!(workspace.begin_session_load("/workspace", "target", "cached"));
    assert!(matches!(&workspace.tabs[0].timeline, TimelineState::Ready { session_id, .. } if session_id == "target"));
    assert!(workspace.interrupt_session.is_none());
    assert!(workspace.tabs[0].selected_part.is_none());
    assert!(workspace.tabs[0].expanded_parts.is_empty());
    assert!(workspace.tabs[0].collapsed_parts.is_empty());
}

#[test]
fn sustained_workspace_switching_stays_sub_millisecond() {
    let mut ui = opencode_gpui::workspace_ui::WorkspaceUi::new(true);
    ui.focus_editor = false;
    let mut samples = Vec::with_capacity(10_000);
    let mut latest = None;
    for iteration in 0..10_000usize {
        let started = std::time::Instant::now();
        if let Some(generation) = ui.switch_directory(iteration % 2, 2) {
            latest = Some(generation);
        }
        samples.push(started.elapsed());
    }
    samples.sort_unstable();
    let p99 = samples[samples.len() * 99 / 100];
    assert!(ui.pending_switch.is_some());
    assert_eq!(ui.pending_switch, latest);
    assert_eq!(ui.active_tab, 1);
    assert!(!ui.focus_editor);
    assert!(p99 < std::time::Duration::from_millis(1), "workspace switching p99 {p99:?} exceeded 1 ms");

    let latest = latest.unwrap();
    assert!(!ui.finish_switch(latest.wrapping_sub(1)));
    assert!(!ui.focus_editor);
    assert!(ui.finish_switch(latest));
    assert!(ui.focus_editor);
    assert!(ui.pending_switch.is_none());
    assert!(!ui.finish_switch(latest));
}

#[test]
fn switching_at_once_focuses_and_drops_a_waiting_switch() {
    let mut ui = opencode_gpui::workspace_ui::WorkspaceUi::new(true);
    let waiting = ui.switch_directory(1, 3).unwrap();
    assert!(!ui.focus_editor);
    ui.switch_directory_immediately(2, 3);
    assert_eq!(ui.active_tab, 2);
    assert!(ui.focus_editor);
    assert!(!ui.finish_switch(waiting));
    assert_eq!(ui.switch_directory(2, 3), None);
}
