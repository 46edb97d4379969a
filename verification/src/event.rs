use vstd::prelude::*;

use crate::json::{lemma_field_agrees, lemma_fields_view, lemma_view_get, fields_view, JsonModel, JsonValue};
use crate::model::{Message, MessageView, Part, PartView, Role, Session, SessionView};

verus! {

/// What the server reports a session to be doing.
#[derive(Debug, PartialEq)]
pub enum SessionStatus {
    Idle,
    Busy,
    Retry { attempt: u64, message: String, next: u64 },
}

impl SessionStatus {
    /// A session counts as active while it works or waits to retry.
    pub open spec fn spec_is_active(&self) -> bool {
        !(self is Idle)
    }

    pub fn is_active(&self) -> (r: bool)
        ensures
            r == self.spec_is_active(),
    {
        match self {
            SessionStatus::Idle => false,
            _ => true,
        }
    }

    pub fn is_busy(&self) -> (r: bool)
        ensures
            r == (*self is Busy),
    {
        match self {
            SessionStatus::Busy => true,
            _ => false,
        }
    }
}

impl Clone for SessionStatus {
    fn clone(&self) -> (r: Self)
        ensures
            r == *self,
    {
        match self {
            SessionStatus::Idle => SessionStatus::Idle,
            SessionStatus::Busy => SessionStatus::Busy,
            SessionStatus::Retry { attempt, message, next } => SessionStatus::Retry {
                attempt: *attempt,
                message: message.clone(),
                next: *next,
            },
        }
    }
}

/// An event as it arrives on the server's event stream: its type and its
/// properties, not yet read.
#[derive(Debug, PartialEq)]
pub struct Payload {
    pub kind: String,
    pub properties: JsonValue,
}

/// The events of the server that the client acts on.
#[derive(Debug, PartialEq)]
pub enum Event {
    ServerConnected,
    SessionCreated(Session),
    SessionUpdated(Session),
    SessionDeleted(Session),
    SessionStatus { session_id: String, status: SessionStatus },
    SessionIdle { session_id: String },
    MessageUpdated(Message),
    MessageRemoved { session_id: String, message_id: String },
    MessagePartUpdated { part: Part, delta: Option<String> },
    MessagePartDelta {
        session_id: String,
        message_id: String,
        part_id: String,
        field: String,
        delta: String,
    },
    MessagePartRemoved { session_id: String, message_id: String, part_id: String },
    Unknown(Payload),
}

pub enum EventView {
    ServerConnected,
    SessionCreated(SessionView),
    SessionUpdated(SessionView),
    SessionDeleted(SessionView),
    SessionStatus { session_id: Seq<char>, status: SessionStatus },
    SessionIdle { session_id: Seq<char> },
    MessageUpdated(MessageView),
    MessageRemoved { session_id: Seq<char>, message_id: Seq<char> },
    MessagePartUpdated { part: PartView, delta: Option<Seq<char>> },
    MessagePartDelta {
        session_id: Seq<char>,
        message_id: Seq<char>,
        part_id: Seq<char>,
        field: Seq<char>,
        delta: Seq<char>,
    },
    MessagePartRemoved { session_id: Seq<char>, message_id: Seq<char>, part_id: Seq<char> },
    Unknown { kind: Seq<char>, properties: JsonModel },
}

impl View for Event {
    type V = EventView;

    open spec fn view(&self) -> EventView {
        match self {
            Event::ServerConnected => EventView::ServerConnected,
            Event::SessionCreated(s) => EventView::SessionCreated(s@),
            Event::SessionUpdated(s) => EventView::SessionUpdated(s@),
            Event::SessionDeleted(s) => EventView::SessionDeleted(s@),
            Event::SessionStatus { session_id, status } => EventView::SessionStatus {
                session_id: session_id@,
                status: *status,
            },
            Event::SessionIdle { session_id } => EventView::SessionIdle { session_id: session_id@ },
            Event::MessageUpdated(m) => EventView::MessageUpdated(m@),
            Event::MessageRemoved { session_id, message_id } => EventView::MessageRemoved {
                session_id: session_id@,
                message_id: message_id@,
            },
            Event::MessagePartUpdated { part, delta } => EventView::MessagePartUpdated {
                part: part@,
                delta: match delta {
                    Some(d) => Some(d@),
                    None => None,
                },
            },
            Event::MessagePartDelta { session_id, message_id, part_id, field, delta } =>
                EventView::MessagePartDelta {
                session_id: session_id@,
                message_id: message_id@,
                part_id: part_id@,
                field: field@,
                delta: delta@,
            },
            Event::MessagePartRemoved { session_id, message_id, part_id } =>
                EventView::MessagePartRemoved {
                session_id: session_id@,
                message_id: message_id@,
                part_id: part_id@,
            },
            Event::Unknown(p) => EventView::Unknown { kind: p.kind@, properties: p.properties@ },
        }
    }
}

/// The event types of the stream, as the properties must be read for each.
#[derive(PartialEq, Eq, Structural, Clone, Copy, Debug)]
pub enum EventKind {
    ServerConnected,
    SessionCreated,
    SessionUpdated,
    SessionDeleted,
    SessionStatus,
    SessionIdle,
    MessageUpdated,
    MessageRemoved,
    MessagePartUpdated,
    MessagePartDelta,
    MessagePartRemoved,
}

/// The type name the stream uses for each kind of event.
pub open spec fn kind_name(kind: EventKind) -> Seq<char> {
    match kind {
        EventKind::ServerConnected => "server.connected"@,
        EventKind::SessionCreated => "session.created"@,
        EventKind::SessionUpdated => "session.updated"@,
        EventKind::SessionDeleted => "session.deleted"@,
        EventKind::SessionStatus => "session.status"@,
        EventKind::SessionIdle => "session.idle"@,
        EventKind::MessageUpdated => "message.updated"@,
        EventKind::MessageRemoved => "message.removed"@,
        EventKind::MessagePartUpdated => "message.part.updated"@,
        EventKind::MessagePartDelta => "message.part.delta"@,
        EventKind::MessagePartRemoved => "message.part.removed"@,
    }
}

/// Each kind of event has a type name of its own.
pub proof fn lemma_kind_names_distinct(a: EventKind, b: EventKind)
    ensures
        kind_name(a) == kind_name(b) ==> a == b,
{
    reveal_strlit("server.connected");
    reveal_strlit("session.created");
    reveal_strlit("session.updated");
    reveal_strlit("session.deleted");
    reveal_strlit("session.status");
    reveal_strlit("session.idle");
    reveal_strlit("message.updated");
    reveal_strlit("message.removed");
    reveal_strlit("message.part.updated");
    reveal_strlit("message.part.delta");
    reveal_strlit("message.part.removed");
    if kind_name(a) == kind_name(b) && a != b {
        let x = kind_name(a);
        let y = kind_name(b);
        assert(x.len() == y.len());
        assert(x[0] == y[0]);
        assert(x[1] == y[1]);
        assert(x[2] == y[2]);
        assert(x[3] == y[3]);
        assert(x[8] == y[8]);
        assert(x[9] == y[9]);
        assert(x[13] == y[13]);
        assert(x.len() > 14 ==> x[14] == y[14]);
    }
}

/// The kind of event a type name names, if any.
pub open spec fn kind_of(kind: Seq<char>) -> Option<EventKind> {
    if exists|k: EventKind| kind_name(k) == kind {
        Some(choose|k: EventKind| kind_name(k) == kind)
    } else {
        None
    }
}

/// The kind of event a stream type names; nothing for a type this client
/// does not know, which it keeps as an unknown event.
pub fn event_kind(kind: &str) -> (r: Option<EventKind>)
    ensures
        r == kind_of(kind@),
        match r {
            Some(k) => kind_name(k) == kind@,
            None => forall|k: EventKind| kind_name(k) != kind@,
    },
{
    let names: [(&str, EventKind); 11] = [
        ("server.connected", EventKind::ServerConnected),
        ("session.created", EventKind::SessionCreated),
        ("session.updated", EventKind::SessionUpdated),
        ("session.deleted", EventKind::SessionDeleted),
        ("session.status", EventKind::SessionStatus),
        ("session.idle", EventKind::SessionIdle),
        ("message.updated", EventKind::MessageUpdated),
        ("message.removed", EventKind::MessageRemoved),
        ("message.part.updated", EventKind::MessagePartUpdated),
        ("message.part.delta", EventKind::MessagePartDelta),
        ("message.part.removed", EventKind::MessagePartRemoved),
    ];
    let mut i: usize = 0;
    while i < 11
        invariant
            i <= 11,
            forall|j: int| 0 <= j < 11 ==> kind_name((#[trigger] names@[j]).1) == names@[j].0@,
            forall|j: int| 0 <= j < i ==> names@[j].0@ != kind@,
        decreases 11 - i,
    {
        if crate::assoc::str_eq(names[i].0, kind) {
            proof {
                let k = names@[i as int].1;
                let c = choose|c: EventKind| kind_name(c) == kind@;
                lemma_kind_names_distinct(k, c);
            }
            return Some(names[i].1);
        }
        i += 1;
    }
    assert forall|k: EventKind| kind_name(k) != kind@ by {
        let j: int = match k {
            EventKind::ServerConnected => 0,
            EventKind::SessionCreated => 1,
            EventKind::SessionUpdated => 2,
            EventKind::SessionDeleted => 3,
            EventKind::SessionStatus => 4,
            EventKind::SessionIdle => 5,
            EventKind::MessageUpdated => 6,
            EventKind::MessageRemoved => 7,
            EventKind::MessagePartUpdated => 8,
            EventKind::MessagePartDelta => 9,
            EventKind::MessagePartRemoved => 10,
        };
        assert(names@[j].1 == k);
    }
    None
}

/// The string field `key` of an object.
pub open spec fn str_at(v: JsonModel, key: Seq<char>) -> Option<Seq<char>> {
    match v.get(key) {
        Some(x) => x.as_str(),
        None => None,
    }
}

/// The unsigned integer field `key` of an object.
pub open spec fn u64_at(v: JsonModel, key: Seq<char>) -> Option<u64> {
    match v.get(key) {
        Some(x) => x.as_u64(),
        None => None,
    }
}

/// An optional string field: absent or null is `Some(None)`, a string is
/// `Some(Some(..))`, anything else does not read (`None`).
pub open spec fn opt_str_at(v: JsonModel, key: Seq<char>) -> Option<Option<Seq<char>>> {
    match v.get(key) {
        None => Some(None),
        Some(JsonModel::Null) => Some(None),
        Some(JsonModel::String(s)) => Some(Some(s)),
        Some(_) => None,
    }
}

/// The object under `key`, read as the value it holds.
pub open spec fn at(v: JsonModel, key: Seq<char>) -> Option<JsonModel> {
    v.get(key)
}

/// Whether a JSON value reads as a session status: tagged by `type`, with the
/// retry's attempt, message and next time.
pub open spec fn status_readable(m: JsonModel) -> bool {
    ||| str_at(m, "type"@) == Some("idle"@)
    ||| str_at(m, "type"@) == Some("busy"@)
    ||| str_at(m, "type"@) == Some("retry"@) && u64_at(m, "attempt"@) is Some && str_at(
        m,
        "message"@,
    ) is Some && u64_at(m, "next"@) is Some
}

/// Whether `status` is what the JSON value says.
pub open spec fn status_is(status: SessionStatus, m: JsonModel) -> bool {
    match status {
        SessionStatus::Idle => str_at(m, "type"@) == Some("idle"@),
        SessionStatus::Busy => str_at(m, "type"@) == Some("busy"@),
        SessionStatus::Retry { attempt, message, next } => str_at(m, "type"@) == Some("retry"@)
            && u64_at(m, "attempt"@) == Some(attempt) && str_at(m, "message"@) == Some(message@)
            && u64_at(m, "next"@) == Some(next),
    }
}

/// A session as the server describes it.
pub open spec fn session_of(m: JsonModel) -> Option<SessionView> {
    match (str_at(m, "id"@), str_at(m, "directory"@), opt_str_at(m, "parentID"@), str_at(m, "title"@)) {
        (Some(id), Some(directory), Some(parent_id), Some(title)) => match at(m, "time"@) {
            Some(time) => match u64_at(time, "updated"@) {
                Some(updated) => Some(SessionView { id, directory, parent_id, title, updated }),
                None => None,
            },
            None => None,
        },
        _ => None,
    }
}

/// Who wrote a message, by the name the server gives the role.
pub open spec fn role_of(name: Seq<char>) -> Option<Role> {
    if name == "user"@ {
        Some(Role::User)
    } else if name == "assistant"@ {
        Some(Role::Assistant)
    } else {
        None
    }
}

/// A message as the server describes it.
pub open spec fn message_of(m: JsonModel) -> Option<MessageView> {
    match (str_at(m, "id"@), str_at(m, "sessionID"@), str_at(m, "role"@)) {
        (Some(id), Some(session_id), Some(role)) => match (role_of(role), at(m, "time"@)) {
            (Some(role), Some(time)) => match u64_at(time, "created"@) {
                Some(created) => Some(MessageView { id, session_id, role, created }),
                None => None,
            },
            _ => None,
        },
        _ => None,
    }
}

/// Whether a field is one of those that identify a part.
pub open spec fn is_part_key(key: Seq<char>) -> bool {
    key == "id"@ || key == "sessionID"@ || key == "messageID"@ || key == "type"@
}

/// A part as the server describes it: its identity, and every other field as
/// its data.
pub open spec fn part_of(m: JsonModel) -> Option<PartView> {
    match m {
        JsonModel::Object(fields) => match (
            str_at(m, "id"@),
            str_at(m, "sessionID"@),
            str_at(m, "messageID"@),
            str_at(m, "type"@),
        ) {
            (Some(id), Some(session_id), Some(message_id), Some(kind)) => Some(
                PartView {
                    id,
                    session_id,
                    message_id,
                    kind,
                    data: fields.filter(|f: (Seq<char>, JsonModel)| !is_part_key(f.0)),
                },
            ),
            _ => None,
        },
        _ => None,
    }
}

/// The event kept as it came, for a type this client does not know or
/// properties it cannot read.
pub open spec fn unknown(kind: Seq<char>, properties: JsonModel) -> EventView {
    EventView::Unknown { kind, properties }
}

/// The session under `info`.
pub open spec fn info_session(properties: JsonModel) -> Option<SessionView> {
    match at(properties, "info"@) {
        Some(info) => session_of(info),
        None => None,
    }
}

/// The names of the fields that an event of kind `k` reads from its
/// properties, in their order.
pub open spec fn property_names(k: EventKind) -> Seq<Seq<char>> {
    match k {
        EventKind::ServerConnected => Seq::empty(),
        EventKind::SessionStatus => seq!["sessionID"@, "status"@],
        EventKind::SessionIdle => seq!["sessionID"@],
        EventKind::MessageRemoved => seq!["sessionID"@, "messageID"@],
        EventKind::MessagePartUpdated => seq!["part"@, "delta"@],
        EventKind::MessagePartDelta => seq!["sessionID"@, "messageID"@, "partID"@, "field"@, "delta"@],
        EventKind::MessagePartRemoved => seq!["sessionID"@, "messageID"@, "partID"@],
        _ => seq!["info"@],
    }
}

/// The properties of an event of kind `k` as a record: given as a list with
/// one value per field, in the fields' order, the values take the fields'
/// names (a record may be written either way in JSON); otherwise they are
/// as they came.
pub open spec fn as_record(k: EventKind, properties: JsonModel) -> JsonModel {
    match properties {
        JsonModel::Array(items) => if items.len() == property_names(k).len() {
            JsonModel::Object(
                Seq::new(items.len(), |i: int| (property_names(k)[i], items[i])),
            )
        } else {
            properties
        },
        _ => properties,
    }
}

/// Whether `event` is what the properties of an event of known kind `k` (type
/// name `kind`) say, its properties taken as a record (`as_record`);
/// properties that do not read leave the event unknown, as they came.
pub open spec fn read_as(k: EventKind, kind: Seq<char>, properties: JsonModel, event: EventView) -> bool {
    let record = as_record(k, properties);
    match k {
        EventKind::ServerConnected => event == EventView::ServerConnected,
        EventKind::SessionCreated => event == match info_session(record) {
            Some(s) => EventView::SessionCreated(s),
            None => unknown(kind, properties),
        },
        EventKind::SessionUpdated => event == match info_session(record) {
            Some(s) => EventView::SessionUpdated(s),
            None => unknown(kind, properties),
        },
        EventKind::SessionDeleted => event == match info_session(record) {
            Some(s) => EventView::SessionDeleted(s),
            None => unknown(kind, properties),
        },
        EventKind::SessionStatus => match (
            str_at(record, "sessionID"@),
            at(record, "status"@),
        ) {
            (Some(id), Some(status)) => if status_readable(status) {
                match event {
                    EventView::SessionStatus { session_id, status: s } => session_id == id
                        && status_is(s, status),
                    _ => false,
                }
            } else {
                event == unknown(kind, properties)
            },
            _ => event == unknown(kind, properties),
        },
        EventKind::SessionIdle => event == match str_at(record, "sessionID"@) {
            Some(id) => EventView::SessionIdle { session_id: id },
            None => unknown(kind, properties),
        },
        EventKind::MessageUpdated => event == match at(record, "info"@) {
            Some(info) => match message_of(info) {
                Some(m) => EventView::MessageUpdated(m),
                None => unknown(kind, properties),
            },
            None => unknown(kind, properties),
        },
        EventKind::MessageRemoved => event == match (
            str_at(record, "sessionID"@),
            str_at(record, "messageID"@),
        ) {
            (Some(session_id), Some(message_id)) => EventView::MessageRemoved {
                session_id,
                message_id,
            },
            _ => unknown(kind, properties),
        },
        EventKind::MessagePartUpdated => event == match (
            at(record, "part"@),
            opt_str_at(record, "delta"@),
        ) {
            (Some(part), Some(delta)) => match part_of(part) {
                Some(p) => EventView::MessagePartUpdated { part: p, delta },
                None => unknown(kind, properties),
            },
            _ => unknown(kind, properties),
        },
        EventKind::MessagePartDelta => event == match (
            str_at(record, "sessionID"@),
            str_at(record, "messageID"@),
            str_at(record, "partID"@),
            str_at(record, "field"@),
            str_at(record, "delta"@),
        ) {
            (Some(session_id), Some(message_id), Some(part_id), Some(field), Some(delta)) =>
                EventView::MessagePartDelta { session_id, message_id, part_id, field, delta },
            _ => unknown(kind, properties),
        },
        EventKind::MessagePartRemoved => event == match (
            str_at(record, "sessionID"@),
            str_at(record, "messageID"@),
            str_at(record, "partID"@),
        ) {
            (Some(session_id), Some(message_id), Some(part_id)) => EventView::MessagePartRemoved {
                session_id,
                message_id,
                part_id,
            },
            _ => unknown(kind, properties),
        },
    }
}

/// Whether `event` is what an event of type `kind` with `properties` says.
/// This determines the event: each known type reads its properties, and
/// anything else is kept as an unknown event.
pub open spec fn decodes_to(kind: Seq<char>, properties: JsonModel, event: EventView) -> bool {
    match kind_of(kind) {
        None => event == unknown(kind, properties),
        Some(k) => read_as(k, kind, properties, event),
    }
}

fn str_field_of(v: &JsonValue, key: &str) -> (r: Option<String>)
    ensures
        match r {
            Some(s) => str_at(v@, key@) == Some(s@),
            None => str_at(v@, key@) is None,
        },
{
    proof {
        lemma_view_get(*v, key@);
    }
    match v.get(key) {
        Some(x) => match x.as_str() {
            Some(s) => Some(s.to_owned()),
            None => None,
        },
        None => None,
    }
}

fn u64_field_of(v: &JsonValue, key: &str) -> (r: Option<u64>)
    ensures
        r == u64_at(v@, key@),
{
    proof {
        lemma_view_get(*v, key@);
    }
    match v.get(key) {
        Some(x) => x.as_u64(),
        None => None,
    }
}

fn opt_str_field_of(v: &JsonValue, key: &str) -> (r: Option<Option<String>>)
    ensures
        match r {
            Some(Some(s)) => opt_str_at(v@, key@) == Some(Some(s@)),
            Some(None) => opt_str_at(v@, key@) == Some(None::<Seq<char>>),
            None => opt_str_at(v@, key@) is None,
        },
{
    proof {
        lemma_view_get(*v, key@);
    }
    match v.get(key) {
        None => Some(None),
        Some(JsonValue::Null) => Some(None),
        Some(JsonValue::String(s)) => Some(Some(s.clone())),
        Some(_) => None,
    }
}

fn field_of<'a>(v: &'a JsonValue, key: &str) -> (r: Option<&'a JsonValue>)
    ensures
        match r {
            Some(x) => at(v@, key@) == Some(x@),
            None => at(v@, key@) is None,
        },
{
    proof {
        lemma_view_get(*v, key@);
    }
    v.get(key)
}

fn read_status(v: &JsonValue) -> (r: Option<SessionStatus>)
    ensures
        match r {
            Some(status) => status_readable(v@) && status_is(status, v@),
            None => !status_readable(v@),
        },
{
    let kind = match str_field_of(v, "type") {
        Some(k) => k,
        None => return None,
    };
    if crate::assoc::str_eq(kind.as_str(), "idle") {
        Some(SessionStatus::Idle)
    } else if crate::assoc::str_eq(kind.as_str(), "busy") {
        Some(SessionStatus::Busy)
    } else if crate::assoc::str_eq(kind.as_str(), "retry") {
        match (u64_field_of(v, "attempt"), str_field_of(v, "message"), u64_field_of(v, "next")) {
            (Some(attempt), Some(message), Some(next)) => Some(
                SessionStatus::Retry { attempt, message, next },
            ),
            _ => None,
        }
    } else {
        None
    }
}

fn read_session(v: &JsonValue) -> (r: Option<Session>)
    ensures
        match r {
            Some(s) => session_of(v@) == Some(s@),
            None => session_of(v@) is None,
        },
{
    let id = str_field_of(v, "id");
    let directory = str_field_of(v, "directory");
    let parent_id = opt_str_field_of(v, "parentID");
    let title = str_field_of(v, "title");
    match (id, directory, parent_id, title) {
        (Some(id), Some(directory), Some(parent_id), Some(title)) => match field_of(v, "time") {
            Some(time) => match u64_field_of(time, "updated") {
                Some(updated) => Some(Session { id, directory, parent_id, title, updated }),
                None => None,
            },
            None => None,
        },
        _ => None,
    }
}

fn read_message(v: &JsonValue) -> (r: Option<Message>)
    ensures
        match r {
            Some(m) => message_of(v@) == Some(m@),
            None => message_of(v@) is None,
        },
{
    let id = str_field_of(v, "id");
    let session_id = str_field_of(v, "sessionID");
    let role_name = str_field_of(v, "role");
    match (id, session_id, role_name) {
        (Some(id), Some(session_id), Some(role_name)) => {
            let role = if crate::assoc::str_eq(role_name.as_str(), "user") {
                Some(Role::User)
            } else if crate::assoc::str_eq(role_name.as_str(), "assistant") {
                Some(Role::Assistant)
            } else {
                None
            };
            match (role, field_of(v, "time")) {
                (Some(role), Some(time)) => match u64_field_of(time, "created") {
                    Some(created) => Some(Message { id, session_id, role, created }),
                    None => None,
                },
                _ => None,
            }
        },
        _ => None,
    }
}

fn is_part_key_exec(key: &str) -> (r: bool)
    ensures
        r == is_part_key(key@),
{
    crate::assoc::str_eq(key, "id") || crate::assoc::str_eq(key, "sessionID")
        || crate::assoc::str_eq(key, "messageID") || crate::assoc::str_eq(key, "type")
}

fn read_part(v: &JsonValue) -> (r: Option<Part>)
    ensures
        match r {
            Some(p) => part_of(v@) == Some(p@),
            None => part_of(v@) is None,
        },
{
    let entries = match v {
        JsonValue::Object(entries) => entries,
        _ => return None,
    };
    let id = str_field_of(v, "id");
    let session_id = str_field_of(v, "sessionID");
    let message_id = str_field_of(v, "messageID");
    let kind = str_field_of(v, "type");
    match (id, session_id, message_id, kind) {
        (Some(id), Some(session_id), Some(message_id), Some(kind)) => {
            let ghost pred = |f: (Seq<char>, JsonModel)| !is_part_key(f.0);
            let ghost all = fields_view(entries@);
            proof {
                lemma_fields_view(entries@);
            }
            let mut data: Vec<(String, JsonValue)> = Vec::new();
            let mut i: usize = 0;
            assert(fields_view(data@) =~= Seq::<(Seq<char>, JsonModel)>::empty());
            while i < entries.len()
                invariant
                    i <= entries@.len(),
                    all == fields_view(entries@),
                    all.len() == entries@.len(),
                    forall|j: int| 0 <= j < entries@.len() ==> #[trigger] all[j] == (entries@[j].0@, entries@[j].1@),
                    pred == (|f: (Seq<char>, JsonModel)| !is_part_key(f.0)),
                    fields_view(data@) == all.take(i as int).filter(pred),
                decreases entries@.len() - i,
            {
                let ghost before = data@;
                proof {
                    crate::seqs::lemma_filter_push(all.take(i as int), all[i as int], pred);
                    assert(all.take(i + 1) =~= all.take(i as int).push(all[i as int]));
                }
                if !is_part_key_exec(entries[i].0.as_str()) {
                    let entry = (entries[i].0.clone(), entries[i].1.clone());
                    data.push(entry);
                    assert(data@.drop_last() =~= before);
                }
                i += 1;
            }
            assert(all.take(entries@.len() as int) =~= all);
            Some(Part { id, session_id, message_id, kind, data })
        },
        _ => None,
    }
}

fn read_info_session(properties: &JsonValue) -> (r: Option<Session>)
    ensures
        match r {
            Some(s) => info_session(properties@) == Some(s@),
            None => info_session(properties@) is None,
        },
{
    match field_of(properties, "info") {
        Some(info) => read_session(info),
        None => None,
    }
}

fn property_names_of(k: EventKind) -> (r: Vec<String>)
    ensures
        crate::text::strings_view(r@) == property_names(k),
{
    proof {
        reveal_strlit("sessionID");
        reveal_strlit("status");
        reveal_strlit("messageID");
        reveal_strlit("part");
        reveal_strlit("delta");
        reveal_strlit("partID");
        reveal_strlit("field");
        reveal_strlit("info");
    }
    let names: Vec<&str> = match k {
        EventKind::ServerConnected => vec![],
        EventKind::SessionStatus => vec!["sessionID", "status"],
        EventKind::SessionIdle => vec!["sessionID"],
        EventKind::MessageRemoved => vec!["sessionID", "messageID"],
        EventKind::MessagePartUpdated => vec!["part", "delta"],
        EventKind::MessagePartDelta => vec!["sessionID", "messageID", "partID", "field", "delta"],
        EventKind::MessagePartRemoved => vec!["sessionID", "messageID", "partID"],
        _ => vec!["info"],
    };
    let ghost expected = property_names(k);
    assert(names@.len() == expected.len());
    assert(forall|i: int| 0 <= i < names@.len() ==> #[trigger] names@[i]@ == expected[i]);
    let mut out: Vec<String> = Vec::new();
    let mut i: usize = 0;
    while i < names.len()
        invariant
            i <= names@.len(),
            names@.len() == expected.len(),
            forall|j: int| 0 <= j < names@.len() ==> #[trigger] names@[j]@ == expected[j],
            out@.len() == i,
            crate::text::strings_view(out@) == expected.take(i as int),
        decreases names@.len() - i,
    {
        let ghost prev = out@;
        out.push(names[i].to_owned());
        proof {
            assert forall|j: int| 0 <= j <= i implies #[trigger] crate::text::strings_view(out@)[j]
                == expected[j] by {
                if j < i {
                    assert(out@[j] == prev[j]);
                    assert(crate::text::strings_view(prev)[j] == expected.take(i as int)[j]);
                }
            }
            assert(crate::text::strings_view(out@) =~= expected.take(i + 1));
        }
        i += 1;
    }
    proof {
        assert(expected.take(names@.len() as int) =~= expected);
    }
    out
}

/// The properties as a record when they came as a list of field values
/// (`as_record`); none when they are to be read as they came.
fn record_of(k: EventKind, properties: &JsonValue) -> (r: Option<JsonValue>)
    ensures
        match r {
            Some(record) => record@ == as_record(k, properties@),
            None => as_record(k, properties@) == properties@,
        },
{
    let items = match properties {
        JsonValue::Array(items) => items,
        _ => return None,
    };
    proof {
        crate::json::lemma_items_view(items@);
    }
    let names = property_names_of(k);
    if items.len() != names.len() {
        return None;
    }
    let mut fields: Vec<(String, JsonValue)> = Vec::new();
    let mut i: usize = 0;
    while i < items.len()
        invariant
            i <= items@.len(),
            items@.len() == names@.len(),
            *properties == JsonValue::Array(*items),
            crate::text::strings_view(names@) == property_names(k),
            fields@.len() == i,
            forall|j: int|
                0 <= j < i ==> (#[trigger] fields@[j]).0@ == property_names(k)[j] && fields@[j].1@
                    == items@[j]@,
        decreases items@.len() - i,
    {
        assert(crate::text::strings_view(names@)[i as int] == names@[i as int]@);
        fields.push((names[i].clone(), items[i].clone()));
        i += 1;
    }
    let record = JsonValue::Object(fields);
    proof {
        lemma_fields_view(fields@);
        crate::json::lemma_items_view(items@);
        assert(fields_view(fields@) =~= Seq::new(
            items@.len(),
            |j: int| (property_names(k)[j], crate::json::items_view(items@)[j]),
        ));
    }
    Some(record)
}

impl Payload {
    fn read_event(&self, k: EventKind) -> (r: Option<Event>)
        ensures
            match r {
                Some(e) => read_as(k, self.kind@, self.properties@, e@),
                None => read_as(k, self.kind@, self.properties@, unknown(self.kind@, self.properties@)),
            },
    {
        let converted = record_of(k, &self.properties);
        let properties = match &converted {
            Some(record) => record,
            None => &self.properties,
        };
        assert(properties@ == as_record(k, self.properties@));
        match k {
            EventKind::ServerConnected => Some(Event::ServerConnected),
            EventKind::SessionCreated => match read_info_session(properties) {
                Some(s) => Some(Event::SessionCreated(s)),
                None => None,
            },
            EventKind::SessionUpdated => match read_info_session(properties) {
                Some(s) => Some(Event::SessionUpdated(s)),
                None => None,
            },
            EventKind::SessionDeleted => match read_info_session(properties) {
                Some(s) => Some(Event::SessionDeleted(s)),
                None => None,
            },
            EventKind::SessionStatus => match (
                str_field_of(properties, "sessionID"),
                field_of(properties, "status"),
            ) {
                (Some(session_id), Some(status)) => match read_status(status) {
                    Some(status) => Some(Event::SessionStatus { session_id, status }),
                    None => None,
                },
                _ => None,
            },
            EventKind::SessionIdle => match str_field_of(properties, "sessionID") {
                Some(session_id) => Some(Event::SessionIdle { session_id }),
                None => None,
            },
            EventKind::MessageUpdated => match field_of(properties, "info") {
                Some(info) => match read_message(info) {
                    Some(m) => Some(Event::MessageUpdated(m)),
                    None => None,
                },
                None => None,
            },
            EventKind::MessageRemoved => match (
                str_field_of(properties, "sessionID"),
                str_field_of(properties, "messageID"),
            ) {
                (Some(session_id), Some(message_id)) => Some(
                    Event::MessageRemoved { session_id, message_id },
                ),
                _ => None,
            },
            EventKind::MessagePartUpdated => match (
                field_of(properties, "part"),
                opt_str_field_of(properties, "delta"),
            ) {
                (Some(part), Some(delta)) => match read_part(part) {
                    Some(part) => Some(Event::MessagePartUpdated { part, delta }),
                    None => None,
                },
                _ => None,
            },
            EventKind::MessagePartDelta => match (
                str_field_of(properties, "sessionID"),
                str_field_of(properties, "messageID"),
                str_field_of(properties, "partID"),
                str_field_of(properties, "field"),
                str_field_of(properties, "delta"),
            ) {
                (Some(session_id), Some(message_id), Some(part_id), Some(field), Some(delta)) => Some(
                    Event::MessagePartDelta { session_id, message_id, part_id, field, delta },
                ),
                _ => None,
            },
            EventKind::MessagePartRemoved => match (
                str_field_of(properties, "sessionID"),
                str_field_of(properties, "messageID"),
                str_field_of(properties, "partID"),
            ) {
                (Some(session_id), Some(message_id), Some(part_id)) => Some(
                    Event::MessagePartRemoved { session_id, message_id, part_id },
                ),
                _ => None,
            },
        }
    }

    /// Reads the event that the payload describes: a known type with
    /// readable properties gives that event, anything else an unknown event
    /// that keeps the payload.
    pub fn into_event(self) -> (r: Event)
        ensures
            decodes_to(self.kind@, self.properties@, r@),
    {
        let k = match event_kind(self.kind.as_str()) {
            Some(k) => k,
            None => return Event::Unknown(self),
        };
        match self.read_event(k) {
            Some(e) => e,
            None => Event::Unknown(self),
        }
    }
}

proof fn lemma_kind_of_name(k: EventKind)
    ensures
        kind_of(kind_name(k)) == Some(k),
{
    let c = choose|c: EventKind| kind_name(c) == kind_name(k);
    lemma_kind_names_distinct(k, c);
}

/// Each event type reads its own fields from a record of properties: an idle
/// event the session it names; a removed message its session and message; a
/// streamed delta its session, message, part, field and text; a removed part
/// its session, message and part; a type this client does not know is kept
/// whole as an unknown event.
pub proof fn law_events_read_their_fields(
    fields: Seq<(Seq<char>, JsonModel)>,
    e: EventView,
    kind: Seq<char>,
    s: Seq<char>,
    m: Seq<char>,
    p: Seq<char>,
    f: Seq<char>,
    d: Seq<char>,
)
    ensures
        ({
            let props = JsonModel::Object(fields);
            &&& str_at(props, "sessionID"@) == Some(s) ==> (decodes_to(
                kind_name(EventKind::SessionIdle),
                props,
                e,
            ) <==> e == EventView::SessionIdle { session_id: s })
            &&& str_at(props, "sessionID"@) == Some(s) && str_at(props, "messageID"@) == Some(m)
                ==> (decodes_to(kind_name(EventKind::MessageRemoved), props, e) <==> e
                == EventView::MessageRemoved { session_id: s, message_id: m })
            &&& str_at(props, "sessionID"@) == Some(s) && str_at(props, "messageID"@) == Some(m)
                && str_at(props, "partID"@) == Some(p) && str_at(props, "field"@) == Some(f)
                && str_at(props, "delta"@) == Some(d) ==> (decodes_to(
                kind_name(EventKind::MessagePartDelta),
                props,
                e,
            ) <==> e == EventView::MessagePartDelta {
                session_id: s,
                message_id: m,
                part_id: p,
                field: f,
                delta: d,
            })
            &&& str_at(props, "sessionID"@) == Some(s) && str_at(props, "messageID"@) == Some(m)
                && str_at(props, "partID"@) == Some(p) ==> (decodes_to(
                kind_name(EventKind::MessagePartRemoved),
                props,
                e,
            ) <==> e == EventView::MessagePartRemoved { session_id: s, message_id: m, part_id: p })
            &&& (forall|k: EventKind| kind_name(k) != kind) ==> (decodes_to(kind, props, e) <==> e
                == unknown(kind, props))
        }),
{
    lemma_kind_of_name(EventKind::SessionIdle);
    lemma_kind_of_name(EventKind::MessageRemoved);
    lemma_kind_of_name(EventKind::MessagePartDelta);
    lemma_kind_of_name(EventKind::MessagePartRemoved);
}

} // verus!
