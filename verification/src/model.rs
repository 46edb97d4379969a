use vstd::prelude::*;

use crate::json::{
    fields_view, lemma_field_agrees, lemma_fields_view, object_get, str_field, JsonModel, JsonValue,
};

verus! {

/// The key under which a part keeps its text.
pub open spec fn text_key() -> Seq<char> {
    seq!['t', 'e', 'x', 't']
}

/// One piece of a message: text, a tool call, a file, a reasoning step...
/// Everything beyond its identity is kept as the server sent it.
#[derive(Debug, PartialEq)]
pub struct Part {
    pub id: String,
    pub session_id: String,
    pub message_id: String,
    pub kind: String,
    pub data: Vec<(String, JsonValue)>,
}

pub struct PartView {
    pub id: Seq<char>,
    pub session_id: Seq<char>,
    pub message_id: Seq<char>,
    pub kind: Seq<char>,
    pub data: Seq<(Seq<char>, JsonModel)>,
}

impl View for Part {
    type V = PartView;

    open spec fn view(&self) -> PartView {
        PartView {
            id: self.id@,
            session_id: self.session_id@,
            message_id: self.message_id@,
            kind: self.kind@,
            data: fields_view(self.data@),
        }
    }
}

impl PartView {
    /// The part's text, when it has one.
    pub open spec fn text(self) -> Option<Seq<char>> {
        str_field(self.data, text_key())
    }

    /// The part's text, or nothing written yet.
    pub open spec fn text_or_empty(self) -> Seq<char> {
        match self.text() {
            Some(t) => t,
            None => Seq::empty(),
        }
    }
}

impl Part {
    /// The string field `key` of the part's data.
    pub fn str_field(&self, key: &str) -> (r: Option<&str>)
        ensures
            match r {
                Some(s) => str_field(self@.data, key@) == Some(s@),
                None => str_field(self@.data, key@).is_none(),
            },
    {
        proof {
            lemma_field_agrees(self.data@, key@);
        }
        match object_get(&self.data, key) {
            Some(value) => value.as_str(),
            None => None,
        }
    }

    /// The boolean field `key` of the part's data, `false` when absent.
    pub fn flag(&self, key: &str) -> (r: bool)
        ensures
            r == crate::json::flag_field(self@.data, key@),
    {
        proof {
            lemma_field_agrees(self.data@, key@);
        }
        match object_get(&self.data, key) {
            Some(value) => match value.as_bool() {
                Some(b) => b,
                None => false,
            },
            None => false,
        }
    }

    pub fn text(&self) -> (r: Option<&str>)
        ensures
            match r {
                Some(s) => self@.text() == Some(s@),
                None => self@.text().is_none(),
            },
    {
        let key = "text";
        proof {
            reveal_strlit("text");
            assert(key@ =~= text_key());
        }
        self.str_field(key)
    }
}

impl Clone for Part {
    fn clone(&self) -> (r: Self)
        ensures
            r@ == self@,
    {
        let mut data: Vec<(String, JsonValue)> = Vec::new();
        let mut i: usize = 0;
        while i < self.data.len()
            invariant
                i <= self.data@.len(),
                data@.len() == i,
                forall|j: int|
                    0 <= j < i ==> (#[trigger] data@[j]).0@ == self.data@[j].0@ && data@[j].1@
                        == self.data@[j].1@,
            decreases self.data@.len() - i,
        {
            data.push((self.data[i].0.clone(), self.data[i].1.clone()));
            i += 1;
        }
        proof {
            lemma_fields_view(data@);
            lemma_fields_view(self.data@);
            assert(fields_view(data@) =~= fields_view(self.data@));
        }
        Part {
            id: self.id.clone(),
            session_id: self.session_id.clone(),
            message_id: self.message_id.clone(),
            kind: self.kind.clone(),
            data,
        }
    }
}

/// The views of a list of parts.
pub open spec fn parts_view(parts: Seq<Part>) -> Seq<PartView> {
    parts.map_values(|p: Part| p@)
}

/// Who wrote a message.
#[derive(PartialEq, Eq, Structural, Clone, Copy, Debug)]
pub enum Role {
    User,
    Assistant,
}

/// What the timeline needs to know of a message.
#[derive(Debug, PartialEq)]
pub struct Message {
    pub id: String,
    pub session_id: String,
    pub role: Role,
    pub created: u64,
}

pub struct MessageView {
    pub id: Seq<char>,
    pub session_id: Seq<char>,
    pub role: Role,
    pub created: u64,
}

impl View for Message {
    type V = MessageView;

    open spec fn view(&self) -> MessageView {
        MessageView {
            id: self.id@,
            session_id: self.session_id@,
            role: self.role,
            created: self.created,
        }
    }
}

impl Clone for Message {
    fn clone(&self) -> (r: Self)
        ensures
            r@ == self@,
    {
        Message {
            id: self.id.clone(),
            session_id: self.session_id.clone(),
            role: self.role,
            created: self.created,
        }
    }
}

/// A message with its parts, in the order the server lists them.
#[derive(Debug, PartialEq)]
pub struct MessageRecord {
    pub info: Message,
    pub parts: Vec<Part>,
}

pub struct MessageRecordView {
    pub info: MessageView,
    pub parts: Seq<PartView>,
}

impl View for MessageRecord {
    type V = MessageRecordView;

    open spec fn view(&self) -> MessageRecordView {
        MessageRecordView { info: self.info@, parts: parts_view(self.parts@) }
    }
}

/// Copies a list of parts.
pub fn clone_parts(parts: &Vec<Part>) -> (r: Vec<Part>)
    ensures
        parts_view(r@) == parts_view(parts@),
{
    let mut out: Vec<Part> = Vec::new();
    let mut i: usize = 0;
    while i < parts.len()
        invariant
            i <= parts@.len(),
            out@.len() == i,
            forall|j: int| 0 <= j < i ==> (#[trigger] out@[j])@ == parts@[j]@,
        decreases parts@.len() - i,
    {
        out.push(parts[i].clone());
        i += 1;
    }
    assert(parts_view(out@) =~= parts_view(parts@));
    out
}

impl Clone for MessageRecord {
    fn clone(&self) -> (r: Self)
        ensures
            r@ == self@,
    {
        MessageRecord { info: self.info.clone(), parts: clone_parts(&self.parts) }
    }
}

/// The views of a list of messages.
pub open spec fn records_view(records: Seq<MessageRecord>) -> Seq<MessageRecordView> {
    records.map_values(|m: MessageRecord| m@)
}

/// Copies a list of messages.
pub fn clone_records(records: &[MessageRecord]) -> (r: Vec<MessageRecord>)
    ensures
        records_view(r@) == records_view(records@),
{
    let mut out: Vec<MessageRecord> = Vec::new();
    let mut i: usize = 0;
    while i < records.len()
        invariant
            i <= records@.len(),
            out@.len() == i,
            forall|j: int| 0 <= j < i ==> (#[trigger] out@[j])@ == records@[j]@,
        decreases records@.len() - i,
    {
        out.push(records[i].clone());
        i += 1;
    }
    assert(records_view(out@) =~= records_view(records@));
    out
}

/// A conversation as listed by the server.
#[derive(Debug, PartialEq)]
pub struct Session {
    pub id: String,
    pub directory: String,
    pub parent_id: Option<String>,
    pub title: String,
    pub updated: u64,
}

pub struct SessionView {
    pub id: Seq<char>,
    pub directory: Seq<char>,
    pub parent_id: Option<Seq<char>>,
    pub title: Seq<char>,
    pub updated: u64,
}

impl View for Session {
    type V = SessionView;

    open spec fn view(&self) -> SessionView {
        SessionView {
            id: self.id@,
            directory: self.directory@,
            parent_id: match self.parent_id {
                Some(p) => Some(p@),
                None => None,
            },
            title: self.title@,
            updated: self.updated,
        }
    }
}

impl Clone for Session {
    fn clone(&self) -> (r: Self)
        ensures
            r@ == self@,
    {
        Session {
            id: self.id.clone(),
            directory: self.directory.clone(),
            parent_id: match &self.parent_id {
                Some(p) => Some(p.clone()),
                None => None,
            },
            title: self.title.clone(),
            updated: self.updated,
        }
    }
}

impl SessionView {
    /// A root session of `directory`: one the session list shows for it.
    pub open spec fn is_root_in(self, directory: Seq<char>) -> bool {
        self.parent_id.is_none() && self.directory == directory
    }
}

/// The views of a list of sessions.
pub open spec fn sessions_view(sessions: Seq<Session>) -> Seq<SessionView> {
    sessions.map_values(|s: Session| s@)
}

/// A piece of streamed text that arrived before the part it extends.
#[derive(Debug, PartialEq)]
pub struct PendingDelta {
    pub part_id: String,
    pub field: String,
    pub delta: String,
}

pub struct PendingDeltaView {
    pub part_id: Seq<char>,
    pub field: Seq<char>,
    pub delta: Seq<char>,
}

impl View for PendingDelta {
    type V = PendingDeltaView;

    open spec fn view(&self) -> PendingDeltaView {
        PendingDeltaView { part_id: self.part_id@, field: self.field@, delta: self.delta@ }
    }
}

impl Clone for PendingDelta {
    fn clone(&self) -> (r: Self)
        ensures
            r@ == self@,
    {
        PendingDelta {
            part_id: self.part_id.clone(),
            field: self.field.clone(),
            delta: self.delta.clone(),
        }
    }
}

/// The views of a list of pending deltas.
pub open spec fn deltas_view(deltas: Seq<PendingDelta>) -> Seq<PendingDeltaView> {
    deltas.map_values(|d: PendingDelta| d@)
}

/// Whether two lists of fields are the same, field by field.
pub fn fields_eq(a: &Vec<(String, JsonValue)>, b: &Vec<(String, JsonValue)>) -> (r: bool)
    ensures
        r == (fields_view(a@) == fields_view(b@)),
{
    proof {
        lemma_fields_view(a@);
        lemma_fields_view(b@);
    }
    if a.len() != b.len() {
        return false;
    }
    let mut i: usize = 0;
    while i < a.len()
        invariant
            i <= a@.len(),
            a@.len() == b@.len(),
            fields_view(a@).len() == a@.len(),
            fields_view(b@).len() == b@.len(),
            forall|k: int| 0 <= k < a@.len() ==> #[trigger] fields_view(a@)[k] == (a@[k].0@, a@[k].1@),
            forall|k: int| 0 <= k < b@.len() ==> #[trigger] fields_view(b@)[k] == (b@[k].0@, b@[k].1@),
            forall|k: int| 0 <= k < i ==> #[trigger] fields_view(a@)[k] == fields_view(b@)[k],
        decreases a@.len() - i,
    {
        if !crate::assoc::str_eq(a[i].0.as_str(), b[i].0.as_str()) || !crate::json::json_eq(&a[i].1, &b[i].1) {
            assert(fields_view(a@)[i as int] != fields_view(b@)[i as int]);
            return false;
        }
        i += 1;
    }
    assert(fields_view(a@) =~= fields_view(b@));
    true
}

/// Whether two parts are the same.
pub fn part_eq(a: &Part, b: &Part) -> (r: bool)
    ensures
        r == (a@ == b@),
{
    crate::assoc::str_eq(a.id.as_str(), b.id.as_str()) && crate::assoc::str_eq(
        a.session_id.as_str(),
        b.session_id.as_str(),
    ) && crate::assoc::str_eq(a.message_id.as_str(), b.message_id.as_str())
        && crate::assoc::str_eq(a.kind.as_str(), b.kind.as_str()) && fields_eq(&a.data, &b.data)
}

/// Whether two messages are the same, parts included.
pub fn record_eq(a: &MessageRecord, b: &MessageRecord) -> (r: bool)
    ensures
        r == (a@ == b@),
{
    let same_info = crate::assoc::str_eq(a.info.id.as_str(), b.info.id.as_str())
        && crate::assoc::str_eq(a.info.session_id.as_str(), b.info.session_id.as_str())
        && a.info.role == b.info.role && a.info.created == b.info.created;
    if !same_info {
        return false;
    }
    if a.parts.len() != b.parts.len() {
        assert(a@.parts.len() != b@.parts.len());
        return false;
    }
    let mut i: usize = 0;
    while i < a.parts.len()
        invariant
            i <= a.parts@.len(),
            a.parts@.len() == b.parts@.len(),
            forall|k: int| 0 <= k < i ==> #[trigger] a.parts@[k]@ == b.parts@[k]@,
        decreases a.parts@.len() - i,
    {
        if !part_eq(&a.parts[i], &b.parts[i]) {
            assert(a@.parts[i as int] != b@.parts[i as int]);
            return false;
        }
        i += 1;
    }
    assert(a@.parts =~= b@.parts);
    true
}

/// Whether two lists of messages are the same.
pub fn records_eq(a: &Vec<MessageRecord>, b: &Vec<MessageRecord>) -> (r: bool)
    ensures
        r == (records_view(a@) == records_view(b@)),
{
    if a.len() != b.len() {
        assert(records_view(a@).len() != records_view(b@).len());
        return false;
    }
    let mut i: usize = 0;
    while i < a.len()
        invariant
            i <= a@.len(),
            a@.len() == b@.len(),
            forall|k: int| 0 <= k < i ==> #[trigger] a@[k]@ == b@[k]@,
        decreases a@.len() - i,
    {
        if !record_eq(&a[i], &b[i]) {
            assert(records_view(a@)[i as int] != records_view(b@)[i as int]);
            return false;
        }
        i += 1;
    }
    assert(records_view(a@) =~= records_view(b@));
    true
}

} // verus!
