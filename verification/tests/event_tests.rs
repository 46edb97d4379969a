use opencode_gpui::event::{event_kind, Event, EventKind, Payload, SessionStatus};
use opencode_gpui::json::{JsonNumber, JsonValue};
use opencode_gpui::model::Role;

fn to_json(value: &serde_json::Value) -> JsonValue {
    match value {
        serde_json::Value::Null => JsonValue::Null,
        serde_json::Value::Bool(b) => JsonValue::Bool(*b),
        serde_json::Value::Number(n) => JsonValue::Number(JsonNumber {
            unsigned: n.as_u64(),
            text: n.to_string(),
        }),
        serde_json::Value::String(s) => JsonValue::String(s.clone()),
        serde_json::Value::Array(items) => JsonValue::Array(items.iter().map(to_json).collect()),
        serde_json::Value::Object(fields) => JsonValue::Object(
            fields
                .iter()
                .map(|(key, value)| (key.clone(), to_json(value)))
                .collect(),
        ),
    }
}

/// Reads a stream payload as the server writes it: its type and properties.
fn payload_from(text: &str) -> Payload {
    let value: serde_json::Value = serde_json::from_str(text).unwrap();
    Payload {
        kind: value["type"].as_str().unwrap().to_owned(),
        properties: to_json(&value["properties"]),
    }
}

#[test]
fn parses_session_status() {
    let payload = payload_from(
        r#"{"type":"session.status","properties":{"sessionID":"ses_1","status":{"type":"busy"}}}"#,
    );

    assert_eq!(
        payload.into_event(),
        Event::SessionStatus {
            session_id: "ses_1".into(),
            status: SessionStatus::Busy
        }
    );
}

#[test]
fn preserves_unknown_and_malformed_events() {
    let unknown = payload_from(r#"{"type":"future.event","properties":{"answer":42}}"#);
    let malformed = payload_from(r#"{"type":"session.status","properties":{"answer":42}}"#);

    assert!(matches!(unknown.into_event(), Event::Unknown(_)));
    assert!(matches!(malformed.into_event(), Event::Unknown(_)));
}

#[test]
fn parses_streamed_part_delta() {
    let payload = payload_from(
        r#"{"type":"message.part.delta","properties":{"sessionID":"ses_1","messageID":"msg_1","partID":"prt_1","field":"text","delta":"hello"}}"#,
    );
    assert_eq!(
        payload.into_event(),
        Event::MessagePartDelta {
            session_id: "ses_1".into(),
            message_id: "msg_1".into(),
            part_id: "prt_1".into(),
            field: "text".into(),
            delta: "hello".into(),
        }
    );
}

#[test]
fn unknown_events_keep_their_payload() {
    let payload = payload_from(r#"{"type":"future.event","properties":{"answer":42}}"#);
    match payload.into_event() {
        Event::Unknown(kept) => {
            assert_eq!(kept.kind, "future.event");
            assert_eq!(kept, payload_from(r#"{"type":"future.event","properties":{"answer":42}}"#));
        }
        other => panic!("expected an unknown event, got {other:?}"),
    }
}

#[test]
fn reads_retry_status_with_its_fields() {
    let payload = payload_from(
        r#"{"type":"session.status","properties":{"sessionID":"s","status":{"type":"retry","attempt":2,"message":"rate limited","next":1700}}}"#,
    );
    assert_eq!(
        payload.into_event(),
        Event::SessionStatus {
            session_id: "s".into(),
            status: SessionStatus::Retry {
                attempt: 2,
                message: "rate limited".into(),
                next: 1700
            }
        }
    );
    let incomplete = payload_from(
        r#"{"type":"session.status","properties":{"sessionID":"s","status":{"type":"retry","attempt":2}}}"#,
    );
    assert!(matches!(incomplete.into_event(), Event::Unknown(_)));
}

#[test]
fn reads_sessions_messages_and_parts() {
    let created = payload_from(
        r#"{"type":"session.created","properties":{"info":{"id":"s1","directory":"/w","parentID":null,"title":"hi","time":{"created":1,"updated":5}}}}"#,
    );
    match created.into_event() {
        Event::SessionCreated(session) => {
            assert_eq!(session.id, "s1");
            assert_eq!(session.directory, "/w");
            assert_eq!(session.parent_id, None);
            assert_eq!(session.updated, 5);
        }
        other => panic!("expected a session, got {other:?}"),
    }
    let message = payload_from(
        r#"{"type":"message.updated","properties":{"info":{"id":"m","sessionID":"s1","role":"assistant","time":{"created":9}}}}"#,
    );
    match message.into_event() {
        Event::MessageUpdated(m) => {
            assert_eq!(m.role, Role::Assistant);
            assert_eq!(m.created, 9);
        }
        other => panic!("expected a message, got {other:?}"),
    }
    let part = payload_from(
        r#"{"type":"message.part.updated","properties":{"part":{"id":"p","sessionID":"s1","messageID":"m","type":"text","text":"x"},"delta":"x"}}"#,
    );
    match part.into_event() {
        Event::MessagePartUpdated { part, delta } => {
            assert_eq!(part.kind, "text");
            assert_eq!(part.text(), Some("x"));
            assert_eq!(part.data.len(), 1);
            assert_eq!(delta.as_deref(), Some("x"));
        }
        other => panic!("expected a part, got {other:?}"),
    }
}

#[test]
fn reads_removals_and_idle() {
    assert_eq!(
        payload_from(r#"{"type":"session.idle","properties":{"sessionID":"s"}}"#).into_event(),
        Event::SessionIdle { session_id: "s".into() }
    );
    assert_eq!(
        payload_from(r#"{"type":"message.removed","properties":{"sessionID":"s","messageID":"m"}}"#)
            .into_event(),
        Event::MessageRemoved {
            session_id: "s".into(),
            message_id: "m".into()
        }
    );
    assert_eq!(
        payload_from(
            r#"{"type":"message.part.removed","properties":{"sessionID":"s","messageID":"m","partID":"p"}}"#
        )
        .into_event(),
        Event::MessagePartRemoved {
            session_id: "s".into(),
            message_id: "m".into(),
            part_id: "p".into()
        }
    );
    assert_eq!(
        payload_from(r#"{"type":"server.connected","properties":{}}"#).into_event(),
        Event::ServerConnected
    );
}

#[test]
fn every_stream_type_names_its_kind() {
    assert_eq!(event_kind("message.part.delta"), Some(EventKind::MessagePartDelta));
    assert_eq!(event_kind("session.idle"), Some(EventKind::SessionIdle));
    assert_eq!(event_kind("session"), None);
}

#[test]
fn status_activity() {
    assert!(!SessionStatus::Idle.is_active());
    assert!(SessionStatus::Busy.is_active());
    assert!(SessionStatus::Busy.is_busy());
    let retry = SessionStatus::Retry {
        attempt: 1,
        message: String::new(),
        next: 0,
    };
    assert!(retry.is_active());
    assert!(!retry.is_busy());
}

#[test]
fn properties_given_as_a_list_of_field_values_read_as_the_record() {
    let idle = payload_from(r#"{"type":"session.idle","properties":["ses_1"]}"#);
    assert_eq!(idle.into_event(), Event::SessionIdle { session_id: "ses_1".into() });

    let delta = payload_from(
        r#"{"type":"message.part.delta","properties":["ses_1","msg_1","prt_1","text","lo"]}"#,
    );
    assert_eq!(
        delta.into_event(),
        Event::MessagePartDelta {
            session_id: "ses_1".into(),
            message_id: "msg_1".into(),
            part_id: "prt_1".into(),
            field: "text".into(),
            delta: "lo".into(),
        }
    );

    let removed = payload_from(r#"{"type":"message.removed","properties":["ses_1","msg_1"]}"#);
    assert_eq!(
        removed.into_event(),
        Event::MessageRemoved { session_id: "ses_1".into(), message_id: "msg_1".into() }
    );

    let short = payload_from(r#"{"type":"message.removed","properties":["ses_1"]}"#);
    assert!(matches!(short.into_event(), Event::Unknown(_)));
    let long = payload_from(r#"{"type":"session.idle","properties":["ses_1","extra"]}"#);
    assert!(matches!(long.into_event(), Event::Unknown(_)));
}
