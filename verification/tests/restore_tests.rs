use opencode_gpui::entrances::{part_visible, Entrances, PartSelection};
use opencode_gpui::event::Event;
use opencode_gpui::json::JsonValue;
use opencode_gpui::layout::WorkspaceLayout;
use opencode_gpui::message_actions::selected_message;
use opencode_gpui::model::{Message, MessageRecord, Part, Role, Session};
use opencode_gpui::restore::{restore_plan, surviving_directories, RestorePlan};
use opencode_gpui::session_list::{add_shown_session, hydration_choice, HydrationChoice};
use opencode_gpui::timeline::TimelineState;
use opencode_gpui::workspace::{DirectoryTimeline, WorkspaceState};

fn session(id: &str, directory: &str, parent: Option<&str>, updated: u64) -> Session {
    Session {
        id: id.into(),
        directory: directory.into(),
        parent_id: parent.map(str::to_owned),
        title: id.into(),
        updated,
    }
}

fn part(id: &str, message_id: &str, kind: &str) -> Part {
    Part {
        id: id.into(),
        session_id: "ses".into(),
        message_id: message_id.into(),
        kind: kind.into(),
        data: Vec::new(),
    }
}

fn layout(directories: &[&str], active: Option<&str>) -> WorkspaceLayout {
    WorkspaceLayout {
        directories: directories.iter().map(|d| d.to_string()).collect(),
        active_directory: active.map(str::to_owned),
    }
}

fn ids(sessions: &Option<Vec<Session>>) -> Vec<String> {
    sessions.as_ref().unwrap().iter().map(|s| s.id.clone()).collect()
}

#[test]
fn restoring_prefers_the_given_directory_then_the_saved_layout() {
    assert!(matches!(restore_plan(true, Some("/w".into()), None), RestorePlan::Keep));
    assert!(matches!(
        restore_plan(false, Some("/w".into()), Some(layout(&["/a"], None))),
        RestorePlan::Open(d) if d == "/w"
    ));
    assert!(matches!(restore_plan(false, None, None), RestorePlan::OpenBootstrap));
    assert!(matches!(restore_plan(false, None, Some(layout(&[], None))), RestorePlan::PickDirectory));
    assert!(matches!(
        restore_plan(false, None, Some(layout(&["/a"], Some("/a")))),
        RestorePlan::Validate(l) if l.directories == ["/a"]
    ));
}

#[test]
fn surviving_directories_drop_missing_and_duplicate_paths() {
    let saved = layout(&["/a", "/link-to-a", "/gone", "/b"], Some("/link-to-a"));
    let canonical = vec![
        Some("/real/a".to_string()),
        Some("/real/a".to_string()),
        None,
        Some("/real/b".to_string()),
    ];
    let (directories, active) = surviving_directories(&saved, &canonical);
    assert_eq!(directories, ["/real/a", "/real/b"]);
    assert_eq!(active.as_deref(), Some("/real/a"));
    let gone = layout(&["/gone"], Some("/gone"));
    let (directories, active) = surviving_directories(&gone, &vec![None]);
    assert!(directories.is_empty());
    assert_eq!(active, None);
}

#[test]
fn merging_a_directory_replaces_its_sessions_by_recency() {
    let mut workspace = WorkspaceState::new(Vec::new());
    workspace.sessions = Some(vec![
        session("a-new", "/a", None, 40),
        session("b", "/b", None, 30),
        session("a-old", "/a", None, 10),
    ]);
    workspace.merge_directory_sessions(
        "/a",
        vec![session("a-1", "/a", None, 35), session("a-2", "/a", None, 5)],
    );
    assert_eq!(ids(&workspace.sessions), ["a-1", "b", "a-2"]);
    assert_eq!(workspace.bootstrap_directory().as_deref(), Some("/a"));
}

#[test]
fn bootstrap_directory_is_that_of_the_first_root_session() {
    let mut workspace = WorkspaceState::new(Vec::new());
    assert_eq!(workspace.bootstrap_directory(), None);
    workspace.sessions = Some(vec![session("child", "/c", Some("p"), 9), session("root", "/r", None, 1)]);
    assert_eq!(workspace.bootstrap_directory().as_deref(), Some("/r"));
}

#[test]
fn hydration_shows_the_first_root_or_creates_one() {
    let listed = vec![session("child", "/a", Some("root"), 3), session("root", "/a", None, 2)];
    assert!(matches!(hydration_choice(&listed, false), HydrationChoice::Select(s) if s.id == "root"));
    let only_children = vec![session("child", "/a", Some("root"), 3)];
    assert!(matches!(hydration_choice(&only_children, true), HydrationChoice::Create));
    assert!(matches!(hydration_choice(&only_children, false), HydrationChoice::Nothing));
    let created = session("new", "/a", None, 9);
    let with_new = add_shown_session(only_children, Some(&created));
    assert_eq!(with_new.len(), 2);
    let again = add_shown_session(with_new, Some(&created));
    assert_eq!(again.len(), 2);
}

#[test]
fn entering_parts_are_new_visible_parts_of_the_shown_session() {
    let mut tab = DirectoryTimeline::new("/w".into());
    tab.timeline = TimelineState::Ready {
        session_id: "ses".into(),
        title: "t".into(),
        messages: vec![MessageRecord {
            info: Message { id: "m1".into(), session_id: "ses".into(), role: Role::User, created: 1 },
            parts: vec![part("known", "m1", "text")],
        }],
    };
    let workspace = WorkspaceState::new(vec![tab]);
    let mut other = part("other", "m1", "text");
    other.session_id = "elsewhere".into();
    let mut generated = part("generated", "m1", "text");
    generated.data = vec![("synthetic".into(), JsonValue::Bool(true))];
    let events = vec![
        Event::MessagePartUpdated { part: part("known", "m1", "text"), delta: None },
        Event::MessagePartUpdated { part: part("fresh", "m1", "tool"), delta: None },
        Event::MessagePartUpdated { part: part("marker", "m1", "step-start"), delta: None },
        Event::MessagePartUpdated { part: other, delta: None },
        Event::MessagePartUpdated { part: generated, delta: None },
        Event::MessagePartUpdated { part: part("reply", "m2", "text"), delta: None },
    ];
    let entering = workspace.entering_parts(&events, "/w");
    let names: Vec<(String, String)> =
        entering.iter().map(|s| (s.message_id.clone(), s.part_id.clone())).collect();
    assert_eq!(
        names,
        [("m1".to_string(), "fresh".to_string()), ("m2".to_string(), "reply".to_string())]
    );
    assert!(workspace.entering_parts(&events, "/other").is_empty());
    assert!(!part_visible(&part("p", "m", "patch")));
    assert!(part_visible(&part("p", "m", "reasoning")));
}

#[test]
fn entrances_animate_once_and_end() {
    let selection = |m: &str, p: &str| PartSelection { message_id: m.into(), part_id: p.into() };
    let mut entrances = Entrances::new();
    assert!(entrances.mark(vec![selection("m", "a")], false).is_empty());
    assert!(entrances.parts.is_empty());
    let fresh = entrances.mark(vec![selection("m", "a"), selection("m", "b"), selection("m", "a")], true);
    assert_eq!(fresh.len(), 2);
    let again = entrances.mark(vec![selection("m", "a")], true);
    assert!(again.is_empty());
    entrances.finish(&fresh);
    assert!(entrances.parts.is_empty());
}

fn record(id: &str) -> MessageRecord {
    MessageRecord {
        info: Message { id: id.into(), session_id: "ses".into(), role: Role::User, created: 1 },
        parts: Vec::new(),
    }
}

fn shown_ids(workspace: &WorkspaceState) -> Vec<String> {
    match &workspace.tabs[0].timeline {
        TimelineState::Ready { messages, .. } => messages.iter().map(|m| m.info.id.clone()).collect(),
        _ => panic!("a shown timeline"),
    }
}

#[test]
fn reverting_drops_the_message_and_those_after_it() {
    let mut tab = DirectoryTimeline::new("/w".into());
    tab.timeline = TimelineState::Ready {
        session_id: "ses".into(),
        title: "t".into(),
        messages: vec![record("a"), record("b"), record("c")],
    };
    let mut workspace = WorkspaceState::new(vec![tab]);
    workspace.drop_reverted_messages("/w", "unknown");
    assert_eq!(shown_ids(&workspace), ["a", "b", "c"]);
    workspace.drop_reverted_messages("/w", "b");
    assert_eq!(shown_ids(&workspace), ["a"]);
    workspace.show_action_error("/w", "revert failed".into());
    assert_eq!(workspace.tabs[0].prompt_error.as_deref(), Some("revert failed"));
    workspace.show_action_error("/other", "ignored".into());
    assert_eq!(workspace.tabs[0].prompt_error.as_deref(), Some("revert failed"));
}

#[test]
fn selected_message_is_found_by_id() {
    let history = vec![record("a"), record("b")];
    assert_eq!(selected_message(&history, "b").map(|m| m.info.id.as_str()), Some("b"));
    assert!(selected_message(&history, "z").is_none());
}

#[test]
fn a_tab_opens_on_its_first_root_session_unless_it_shows_one() {
    let mut workspace = WorkspaceState::new(vec![DirectoryTimeline::new("/a".into())]);
    assert!(workspace.default_session("/a").is_none());
    workspace.sessions = Some(vec![
        session("b-root", "/b", None, 9),
        session("a-child", "/a", Some("a-root"), 8),
        session("a-root", "/a", None, 7),
        session("a-later", "/a", None, 6),
    ]);
    assert_eq!(workspace.default_session("/a").map(|s| s.id), Some("a-root".to_string()));
    assert_eq!(workspace.default_session("/c").map(|s| s.id), None);
    workspace.tabs[0].timeline = TimelineState::Loading { session_id: "a-later".into(), title: "t".into() };
    assert!(workspace.default_session("/a").is_none());
}
