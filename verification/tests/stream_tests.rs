use opencode_gpui::event::{Event, Payload, SessionStatus};
use opencode_gpui::json::{JsonNumber, JsonValue};
use opencode_gpui::model::{Message, MessageRecord, Part, Role, Session};
use opencode_gpui::timeline::{TimelineState, MESSAGE_PAGE};
use opencode_gpui::workspace::{DirectoryTimeline, WorkspaceState};

fn json_value(value: &serde_json::Value) -> JsonValue {
    match value {
        serde_json::Value::Null => JsonValue::Null,
        serde_json::Value::Bool(b) => JsonValue::Bool(*b),
        serde_json::Value::Number(n) => JsonValue::Number(JsonNumber {
            unsigned: n.as_u64(),
            text: n.to_string(),
        }),
        serde_json::Value::String(s) => JsonValue::String(s.clone()),
        serde_json::Value::Array(items) => JsonValue::Array(items.iter().map(json_value).collect()),
        serde_json::Value::Object(fields) => JsonValue::Object(
            fields
                .iter()
                .map(|(key, value)| (key.clone(), json_value(value)))
                .collect(),
        ),
    }
}

fn payload(kind: &str, properties: &str) -> Payload {
    Payload {
        kind: kind.to_owned(),
        properties: json_value(&serde_json::from_str(properties).unwrap()),
    }
}

fn message(text: &str) -> Message {
    match payload("message.updated", &format!(r#"{{"info":{text}}}"#)).into_event() {
        Event::MessageUpdated(message) => message,
        other => panic!("not a message: {other:?}"),
    }
}

fn part(text: &str) -> Part {
    match payload("message.part.updated", &format!(r#"{{"part":{text}}}"#)).into_event() {
        Event::MessagePartUpdated { part, .. } => part,
        other => panic!("not a part: {other:?}"),
    }
}

fn session_in(id: &str, directory: &str, updated: u64) -> Session {
    Session {
        id: id.into(),
        directory: directory.into(),
        parent_id: None,
        title: id.into(),
        updated,
    }
}

fn message_record(id: &str, session_id: &str, created: u64) -> MessageRecord {
    MessageRecord {
        info: Message {
            id: id.into(),
            session_id: session_id.into(),
            role: Role::User,
            created,
        },
        parts: vec![Part {
            id: format!("part-{id}"),
            session_id: session_id.into(),
            message_id: id.into(),
            kind: "text".into(),
            data: vec![("text".into(), JsonValue::String(format!("message {created}")))],
        }],
    }
}

fn ready_workspace(session_id: &str, messages: Vec<MessageRecord>) -> WorkspaceState {
    let mut tab = DirectoryTimeline::new("/workspace".into());
    tab.timeline = TimelineState::Ready {
        session_id: session_id.into(),
        title: "session".into(),
        messages,
    };
    let mut workspace = WorkspaceState::new(vec![tab]);
    workspace.sessions = Some(Vec::new());
    workspace
}

fn ready_messages(workspace: &WorkspaceState) -> &Vec<MessageRecord> {
    match &workspace.tabs[0].timeline {
        TimelineState::Ready { messages, .. } => messages,
        _ => panic!("timeline should remain loaded"),
    }
}

const USER_MESSAGE: &str = r#"{"id":"msg_1","sessionID":"ses_1","role":"user","time":{"created":1},"agent":"build","model":{"providerID":"openai","modelID":"test"}}"#;
const FIRST_PART: &str =
    r#"{"id":"part_1","sessionID":"ses_1","messageID":"msg_1","type":"text","text":"hel"}"#;

#[test]
fn stream_tests_streamed_deltas_append_when_events_do_not_include_full_text() {
    let mut workspace = ready_workspace("ses_1", Vec::new());
    workspace.apply_events(
        vec![
            Event::MessageUpdated(message(USER_MESSAGE)),
            Event::MessagePartUpdated {
                part: part(FIRST_PART),
                delta: Some("hel".into()),
            },
            Event::MessagePartDelta {
                session_id: "ses_1".into(),
                message_id: "msg_1".into(),
                part_id: "part_1".into(),
                field: "text".into(),
                delta: "lo".into(),
            },
        ],
        None,
    );
    assert_eq!(ready_messages(&workspace)[0].parts[0].text(), Some("hello"));
}

#[test]
fn preserves_deltas_that_arrive_before_their_part_and_message() {
    let assistant = message(
        r#"{"id":"msg_1","sessionID":"ses_1","role":"assistant","time":{"created":1},"parentID":"msg_0","modelID":"test","providerID":"openai","mode":"build","agent":"build","path":{"cwd":"/workspace","root":"/workspace"},"cost":0,"tokens":{"input":0,"output":0,"reasoning":0,"cache":{"read":0,"write":0}}}"#,
    );
    let empty = part(r#"{"id":"part_1","sessionID":"ses_1","messageID":"msg_1","type":"text","text":""}"#);
    let mut workspace = ready_workspace("ses_1", Vec::new());
    workspace.apply_events(
        vec![
            Event::MessagePartDelta {
                session_id: "ses_1".into(),
                message_id: "msg_1".into(),
                part_id: "part_1".into(),
                field: "text".into(),
                delta: "hello".into(),
            },
            Event::MessagePartUpdated {
                part: empty,
                delta: None,
            },
            Event::MessageUpdated(assistant),
        ],
        None,
    );
    assert_eq!(ready_messages(&workspace)[0].parts[0].text(), Some("hello"));
}

#[test]
fn unselected_cached_session_keeps_events_isolated() {
    let selected = message_record("selected", "selected", 1);
    let mut workspace = ready_workspace("selected", vec![selected.clone()]);
    workspace.cache.replace("cached", &[]);
    let record = message_record("streamed", "cached", 2);
    let streamed = record.parts[0].clone();
    workspace.apply_events(
        vec![
            Event::MessagePartDelta {
                session_id: "cached".into(),
                message_id: "streamed".into(),
                part_id: streamed.id.clone(),
                field: "text".into(),
                delta: " live".into(),
            },
            Event::MessagePartUpdated {
                part: streamed,
                delta: None,
            },
            Event::MessageUpdated(record.info),
        ],
        None,
    );
    assert_eq!(ready_messages(&workspace), &vec![selected]);
    let cached = workspace.cache.get("cached").unwrap();
    assert_eq!(cached[0].parts[0].text(), Some("message 2 live"));

    workspace.apply_events(
        vec![Event::MessagePartRemoved {
            session_id: "cached".into(),
            message_id: "streamed".into(),
            part_id: "part-streamed".into(),
        }],
        None,
    );
    assert!(workspace.cache.get("cached").unwrap()[0].parts.is_empty());
    workspace.apply_events(
        vec![Event::MessageRemoved {
            session_id: "cached".into(),
            message_id: "streamed".into(),
        }],
        None,
    );
    assert!(workspace.cache.get("cached").unwrap().is_empty());
}

#[test]
fn session_cache_keeps_only_latest_message_page() {
    let mut workspace = WorkspaceState::new(vec![DirectoryTimeline::new("/workspace".into())]);
    workspace.cache.replace("cached", &[]);
    for index in 0..(MESSAGE_PAGE + 4) {
        workspace.apply_events(
            vec![Event::MessageUpdated(
                message_record(&format!("message-{index}"), "cached", index as u64).info,
            )],
            None,
        );
    }
    let cached = workspace.cache.get("cached").unwrap();
    assert_eq!(cached.len(), MESSAGE_PAGE);
    assert_eq!(cached[0].info.id, "message-4");
    assert_eq!(cached[MESSAGE_PAGE - 1].info.id, "message-19");
}

#[test]
fn reduces_session_updates_without_losing_sort_order() {
    let mut workspace = WorkspaceState::new(Vec::new());
    workspace.sessions = Some(vec![
        session_in("a", "/workspace", 1),
        session_in("b", "/workspace", 2),
    ]);
    workspace.apply_events(
        vec![
            Event::SessionUpdated(session_in("a", "/workspace", 3)),
            Event::SessionStatus {
                session_id: "a".into(),
                status: SessionStatus::Busy,
            },
        ],
        None,
    );
    let sessions = workspace.sessions.as_ref().expect("server should remain ready");
    assert_eq!(
        sessions.iter().map(|session| session.id.as_str()).collect::<Vec<_>>(),
        ["a", "b"]
    );
    assert_eq!(workspace.statuses.get("a"), Some(&SessionStatus::Busy));
}

#[test]
fn reduces_streamed_message_parts_in_place() {
    let complete =
        part(r#"{"id":"part_1","sessionID":"ses_1","messageID":"msg_1","type":"text","text":"hello"}"#);
    let mut workspace = ready_workspace("ses_1", Vec::new());
    workspace.apply_events(
        vec![
            Event::MessageUpdated(message(USER_MESSAGE)),
            Event::MessagePartUpdated {
                part: part(FIRST_PART),
                delta: Some("hel".into()),
            },
            Event::MessagePartUpdated {
                part: complete,
                delta: Some("lo".into()),
            },
        ],
        None,
    );
    let messages = ready_messages(&workspace);
    assert_eq!(messages.len(), 1);
    assert_eq!(messages[0].parts.len(), 1);
    assert_eq!(messages[0].parts[0].text(), Some("hello"));
}

#[test]
fn tests_streamed_deltas_append_when_events_do_not_include_full_text() {
    let mut workspace = ready_workspace("ses_1", Vec::new());
    workspace.apply_events(
        vec![
            Event::MessageUpdated(message(USER_MESSAGE)),
            Event::MessagePartUpdated {
                part: part(FIRST_PART),
                delta: Some("hel".into()),
            },
            Event::MessagePartDelta {
                session_id: "ses_1".into(),
                message_id: "msg_1".into(),
                part_id: "part_1".into(),
                field: "text".into(),
                delta: "lo".into(),
            },
        ],
        None,
    );
    assert_eq!(ready_messages(&workspace)[0].parts[0].text(), Some("hello"));
}

#[test]
fn events_for_an_unshown_session_leave_the_tabs_alone() {
    let mut workspace = ready_workspace("ses_1", Vec::new());
    workspace.apply_events(
        vec![Event::MessagePartDelta {
            session_id: "other".into(),
            message_id: "msg_9".into(),
            part_id: "part_9".into(),
            field: "text".into(),
            delta: "ignored".into(),
        }],
        None,
    );
    assert!(ready_messages(&workspace).is_empty());
}

#[test]
fn deleting_the_shown_session_empties_its_tab() {
    let mut workspace = ready_workspace("gone", vec![message_record("m", "gone", 1)]);
    workspace.sessions = Some(vec![session_in("gone", "/workspace", 1)]);
    workspace.apply_events(vec![Event::SessionDeleted(session_in("gone", "/workspace", 1))], None);
    assert!(workspace.sessions.as_ref().unwrap().is_empty());
    assert!(matches!(workspace.tabs[0].timeline, TimelineState::Empty));
}

#[test]
fn created_and_updated_sessions_keep_one_entry_each() {
    let mut workspace = WorkspaceState::new(Vec::new());
    workspace.sessions = Some(Vec::new());
    workspace.apply_events(
        vec![
            Event::SessionCreated(session_in("a", "/workspace", 1)),
            Event::SessionCreated(session_in("b", "/workspace", 2)),
            Event::SessionUpdated(session_in("a", "/workspace", 5)),
            Event::SessionUpdated(session_in("c", "/workspace", 3)),
            Event::SessionDeleted(session_in("b", "/workspace", 2)),
            Event::SessionUpdated(session_in("a", "/workspace", 4)),
        ],
        None,
    );
    let sessions = workspace.sessions.as_ref().expect("server should remain ready");
    assert_eq!(
        sessions.iter().map(|session| (session.id.as_str(), session.updated)).collect::<Vec<_>>(),
        [("a", 4), ("c", 3)]
    );
}
