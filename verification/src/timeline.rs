use vstd::prelude::*;

use crate::model::{
    clone_parts, deltas_view, parts_view, records_view, Message, MessageRecord, MessageRecordView,
    MessageView, Part, PartView, PendingDelta, PendingDeltaView,
};
use crate::part_merge::{
    append_part_field, appended, find_part, has_part_id, merge_part, merged_parts, part_index,
};
use crate::seqs::{first_index, lemma_filter_push, lemma_first_index, lemma_first_index_at};

verus! {

/// How many of a session's latest messages a timeline loads at a time.
pub const MESSAGE_PAGE: usize = 16;

/// What a directory's timeline shows.
pub enum TimelineState {
    Empty,
    Loading { session_id: String, title: String },
    Ready { session_id: String, title: String, messages: Vec<MessageRecord> },
    Failed { session_id: String, title: String, error: String },
}

pub enum TimelineView {
    Empty,
    Loading { session_id: Seq<char>, title: Seq<char> },
    Ready { session_id: Seq<char>, title: Seq<char>, messages: Seq<MessageRecordView> },
    Failed { session_id: Seq<char>, title: Seq<char>, error: Seq<char> },
}

impl View for TimelineState {
    type V = TimelineView;

    open spec fn view(&self) -> TimelineView {
        match self {
            TimelineState::Empty => TimelineView::Empty,
            TimelineState::Loading { session_id, title } => TimelineView::Loading {
                session_id: session_id@,
                title: title@,
            },
            TimelineState::Ready { session_id, title, messages } => TimelineView::Ready {
                session_id: session_id@,
                title: title@,
                messages: records_view(messages@),
            },
            TimelineState::Failed { session_id, title, error } => TimelineView::Failed {
                session_id: session_id@,
                title: title@,
                error: error@,
            },
        }
    }
}

impl TimelineView {
    /// The session the timeline belongs to, unless it is empty.
    pub open spec fn session_id(self) -> Option<Seq<char>> {
        match self {
            TimelineView::Empty => None,
            TimelineView::Loading { session_id, .. } => Some(session_id),
            TimelineView::Ready { session_id, .. } => Some(session_id),
            TimelineView::Failed { session_id, .. } => Some(session_id),
        }
    }

    pub open spec fn title(self) -> Option<Seq<char>> {
        match self {
            TimelineView::Empty => None,
            TimelineView::Loading { title, .. } => Some(title),
            TimelineView::Ready { title, .. } => Some(title),
            TimelineView::Failed { title, .. } => Some(title),
        }
    }

    /// Whether the timeline shows the loaded messages of `session_id`.
    pub open spec fn is_ready_for(self, session_id: Seq<char>) -> bool {
        self matches TimelineView::Ready { session_id: s, .. } && s == session_id
    }

    /// The timeline with its messages replaced (only a ready timeline has any).
    pub open spec fn with_messages(self, messages: Seq<MessageRecordView>) -> TimelineView {
        match self {
            TimelineView::Ready { session_id, title, .. } => TimelineView::Ready {
                session_id,
                title,
                messages,
            },
            other => other,
        }
    }

    pub open spec fn messages(self) -> Seq<MessageRecordView> {
        match self {
            TimelineView::Ready { messages, .. } => messages,
            _ => Seq::empty(),
        }
    }
}

impl TimelineState {
    pub fn session_id(&self) -> (r: Option<&str>)
        ensures
            match r {
                Some(s) => self@.session_id() == Some(s@),
                None => self@.session_id().is_none(),
            },
    {
        match self {
            TimelineState::Empty => None,
            TimelineState::Loading { session_id, .. } => Some(session_id.as_str()),
            TimelineState::Ready { session_id, .. } => Some(session_id.as_str()),
            TimelineState::Failed { session_id, .. } => Some(session_id.as_str()),
        }
    }

    pub fn title(&self) -> (r: Option<&str>)
        ensures
            match r {
                Some(s) => self@.title() == Some(s@),
                None => self@.title().is_none(),
            },
    {
        match self {
            TimelineState::Empty => None,
            TimelineState::Loading { title, .. } => Some(title.as_str()),
            TimelineState::Ready { title, .. } => Some(title.as_str()),
            TimelineState::Failed { title, .. } => Some(title.as_str()),
        }
    }
}

impl TimelineState {
    /// Folds an updated message into a loaded timeline.
    pub fn apply_message(&mut self, info: &Message, pending: &[Part])
        ensures
            final(self)@ == old(self)@.with_messages(
                with_message(old(self)@.messages(), info@, parts_view(pending@)),
            ),
    {
        match self {
            TimelineState::Ready { messages, .. } => {
                apply_message(messages, info, pending);
            },
            _ => {},
        }
    }

    /// Folds an updated part into a loaded timeline; returns whether its
    /// message is there.
    pub fn apply_part(&mut self, part: &Part, delta: Option<&str>, pending: &[PendingDelta]) -> (found: bool)
        ensures
            found == (message_index(old(self)@.messages(), part@.message_id) < old(self)@.messages().len()),
            final(self)@ == old(self)@.with_messages(
                with_part(
                    old(self)@.messages(),
                    part@,
                    match delta {
                        Some(d) => Some(d@),
                        None => None,
                    },
                    deltas_view(pending@),
                ),
            ),
    {
        match self {
            TimelineState::Ready { messages, .. } => apply_part(messages, part, delta, pending),
            _ => {
                proof {
                    lemma_first_index(Seq::<MessageRecordView>::empty(), has_message_id(part@.message_id));
                }
                false
            },
        }
    }

    /// Appends a streamed delta to a part of a loaded timeline; returns
    /// whether the part is there.
    pub fn apply_delta(&mut self, message_id: &str, part_id: &str, field: &str, delta: &str) -> (found: bool)
        ensures
            found == has_part(old(self)@.messages(), message_id@, part_id@),
            final(self)@ == old(self)@.with_messages(
                with_delta(old(self)@.messages(), message_id@, part_id@, field@, delta@),
            ),
    {
        match self {
            TimelineState::Ready { messages, .. } => apply_delta(messages, message_id, part_id, field, delta),
            _ => {
                proof {
                    lemma_first_index(Seq::<MessageRecordView>::empty(), has_message_id(message_id@));
                }
                false
            },
        }
    }

    pub fn remove_message(&mut self, message_id: &str)
        ensures
            final(self)@ == old(self)@.with_messages(without_message(old(self)@.messages(), message_id@)),
    {
        match self {
            TimelineState::Ready { messages, .. } => remove_message_from(messages, message_id),
            _ => {},
        }
    }

    pub fn remove_part(&mut self, message_id: &str, part_id: &str)
        ensures
            final(self)@ == old(self)@.with_messages(without_part(old(self)@.messages(), message_id@, part_id@)),
    {
        match self {
            TimelineState::Ready { messages, .. } => remove_part_from(messages, message_id, part_id),
            _ => {},
        }
    }
}

/// Selects the message with the given id.
pub open spec fn has_message_id(id: Seq<char>) -> spec_fn(MessageRecordView) -> bool {
    |m: MessageRecordView| m.info.id == id
}

/// Keeps the messages other than `id`.
pub open spec fn other_message(id: Seq<char>) -> spec_fn(MessageRecordView) -> bool {
    |m: MessageRecordView| m.info.id != id
}

/// Keeps the parts other than `id`.
pub open spec fn other_part(id: Seq<char>) -> spec_fn(PartView) -> bool {
    |p: PartView| p.id != id
}

/// Position of message `id`, or the number of messages.
pub open spec fn message_index(messages: Seq<MessageRecordView>, id: Seq<char>) -> int {
    first_index(messages, has_message_id(id))
}

/// Parts merged one after the other, as updates without a delta.
pub open spec fn merge_all(parts: Seq<PartView>, incoming: Seq<PartView>) -> Seq<PartView>
    decreases incoming.len(),
{
    if incoming.len() == 0 {
        parts
    } else {
        merged_parts(merge_all(parts, incoming.drop_last()), incoming.last(), None)
    }
}

/// The messages after an update of message `info`, bringing the parts that
/// arrived before it: a known message takes the new info and the parts are
/// merged into its own; a new message goes last with those parts.
pub open spec fn with_message(
    messages: Seq<MessageRecordView>,
    info: MessageView,
    pending: Seq<PartView>,
) -> Seq<MessageRecordView> {
    let i = message_index(messages, info.id);
    if i < messages.len() {
        messages.update(i, MessageRecordView { info, parts: merge_all(messages[i].parts, pending) })
    } else {
        messages.push(MessageRecordView { info, parts: pending })
    }
}

/// A part with the streamed deltas for it appended, in their order.
pub open spec fn apply_deltas(part: PartView, deltas: Seq<PendingDeltaView>) -> PartView
    decreases deltas.len(),
{
    if deltas.len() == 0 {
        part
    } else {
        let before = apply_deltas(part, deltas.drop_last());
        let d = deltas.last();
        if d.part_id == part.id {
            appended(before, d.field, d.delta)
        } else {
            before
        }
    }
}

/// The parts after an update of `part`, with the deltas that waited for it.
pub open spec fn parts_with_part(
    parts: Seq<PartView>,
    part: PartView,
    delta: Option<Seq<char>>,
    pending: Seq<PendingDeltaView>,
) -> Seq<PartView> {
    let merged = merged_parts(parts, part, delta);
    let k = part_index(merged, part.id);
    if k < merged.len() {
        merged.update(k, apply_deltas(merged[k], pending))
    } else {
        merged
    }
}

/// The messages after an update of `part`; unchanged when its message is unknown.
pub open spec fn with_part(
    messages: Seq<MessageRecordView>,
    part: PartView,
    delta: Option<Seq<char>>,
    pending: Seq<PendingDeltaView>,
) -> Seq<MessageRecordView> {
    let j = message_index(messages, part.message_id);
    if j < messages.len() {
        messages.update(
            j,
            MessageRecordView {
                parts: parts_with_part(messages[j].parts, part, delta, pending),
                ..messages[j]
            },
        )
    } else {
        messages
    }
}

/// Whether the messages hold part `part_id` of message `message_id`.
pub open spec fn has_part(
    messages: Seq<MessageRecordView>,
    message_id: Seq<char>,
    part_id: Seq<char>,
) -> bool {
    let j = message_index(messages, message_id);
    j < messages.len() && part_index(messages[j].parts, part_id) < messages[j].parts.len()
}

/// The messages after a streamed delta to field `field` of a part; unchanged
/// when the part is unknown.
pub open spec fn with_delta(
    messages: Seq<MessageRecordView>,
    message_id: Seq<char>,
    part_id: Seq<char>,
    field: Seq<char>,
    delta: Seq<char>,
) -> Seq<MessageRecordView> {
    if has_part(messages, message_id, part_id) {
        let j = message_index(messages, message_id);
        let parts = messages[j].parts;
        let k = part_index(parts, part_id);
        messages.update(
            j,
            MessageRecordView { parts: parts.update(k, appended(parts[k], field, delta)), ..messages[j] },
        )
    } else {
        messages
    }
}

/// The messages without part `part_id` of message `message_id`.
pub open spec fn without_part(
    messages: Seq<MessageRecordView>,
    message_id: Seq<char>,
    part_id: Seq<char>,
) -> Seq<MessageRecordView> {
    let j = message_index(messages, message_id);
    if j < messages.len() {
        messages.update(
            j,
            MessageRecordView { parts: messages[j].parts.filter(other_part(part_id)), ..messages[j] },
        )
    } else {
        messages
    }
}

/// The messages without message `message_id`.
pub open spec fn without_message(messages: Seq<MessageRecordView>, message_id: Seq<char>) -> Seq<
    MessageRecordView,
> {
    messages.filter(other_message(message_id))
}

/// The latest page of messages.
pub open spec fn last_page(messages: Seq<MessageRecordView>) -> Seq<MessageRecordView> {
    if messages.len() > MESSAGE_PAGE {
        messages.subrange(messages.len() - MESSAGE_PAGE, messages.len() as int)
    } else {
        messages
    }
}

/// Finds message `id`.
pub fn find_message(messages: &Vec<MessageRecord>, id: &str) -> (r: usize)
    ensures
        r == message_index(records_view(messages@), id@),
{
    let mut i: usize = 0;
    while i < messages.len()
        invariant
            i <= messages@.len(),
            forall|j: int| 0 <= j < i ==> messages@[j].info.id@ != id@,
        decreases messages@.len() - i,
    {
        if crate::assoc::str_eq(messages[i].info.id.as_str(), id) {
            proof {
                lemma_first_index_at(records_view(messages@), has_message_id(id@), i as int);
            }
            return i;
        }
        i += 1;
    }
    proof {
        lemma_first_index_at(records_view(messages@), has_message_id(id@), i as int);
    }
    i
}

/// Merges parts one after the other.
fn merge_parts_into(parts: &mut Vec<Part>, incoming: &[Part])
    ensures
        parts_view(final(parts)@) == merge_all(parts_view(old(parts)@), parts_view(incoming@)),
{
    let ghost start = parts_view(parts@);
    let mut i: usize = 0;
    while i < incoming.len()
        invariant
            i <= incoming@.len(),
            parts_view(parts@) == merge_all(start, parts_view(incoming@).take(i as int)),
        decreases incoming@.len() - i,
    {
        proof {
            assert(parts_view(incoming@).take(i + 1).drop_last() =~= parts_view(incoming@).take(
                i as int,
            ));
        }
        merge_part(parts, incoming[i].clone(), None);
        i += 1;
    }
    assert(parts_view(incoming@).take(incoming@.len() as int) =~= parts_view(incoming@));
}

/// Folds an updated message into a list of messages.
pub fn apply_message(messages: &mut Vec<MessageRecord>, info: &Message, pending: &[Part])
    ensures
        records_view(final(messages)@) == with_message(
            records_view(old(messages)@),
            info@,
            parts_view(pending@),
        ),
{
    let i = find_message(messages, info.id.as_str());
    proof {
        lemma_first_index(records_view(messages@), has_message_id(info@.id));
    }
    let ghost before = records_view(messages@);
    if i < messages.len() {
        let record = &mut messages[i];
        record.info = info.clone();
        merge_parts_into(&mut record.parts, pending);
        assert(records_view(messages@) =~= with_message(before, info@, parts_view(pending@)));
    } else {
        let parts = clone_slice_parts(pending);
        messages.push(MessageRecord { info: info.clone(), parts });
        assert(records_view(messages@) =~= with_message(before, info@, parts_view(pending@)));
    }
}

/// Appends to a part the streamed deltas that are meant for it.
pub fn apply_pending(part: &mut Part, pending: &[PendingDelta])
    ensures
        final(part)@ == apply_deltas(old(part)@, deltas_view(pending@)),
{
    let ghost start = part@;
    let mut i: usize = 0;
    while i < pending.len()
        invariant
            i <= pending@.len(),
            part@.id == start.id,
            part@ == apply_deltas(start, deltas_view(pending@).take(i as int)),
        decreases pending@.len() - i,
    {
        proof {
            assert(deltas_view(pending@).take(i + 1).drop_last() =~= deltas_view(pending@).take(
                i as int,
            ));
        }
        if crate::assoc::str_eq(pending[i].part_id.as_str(), part.id.as_str()) {
            append_part_field(part, pending[i].field.as_str(), pending[i].delta.as_str());
        }
        i += 1;
    }
    assert(deltas_view(pending@).take(pending@.len() as int) =~= deltas_view(pending@));
}

/// Folds an updated part, and the deltas that waited for it, into its
/// message; returns whether the message was found.
pub fn apply_part(
    messages: &mut Vec<MessageRecord>,
    part: &Part,
    delta: Option<&str>,
    pending: &[PendingDelta],
) -> (found: bool)
    ensures
        found == (message_index(records_view(old(messages)@), part@.message_id) < old(
            messages,
        )@.len()),
        records_view(final(messages)@) == with_part(
            records_view(old(messages)@),
            part@,
            match delta {
                Some(d) => Some(d@),
                None => None,
            },
            deltas_view(pending@),
        ),
{
    let j = find_message(messages, part.message_id.as_str());
    proof {
        lemma_first_index(records_view(messages@), has_message_id(part@.message_id));
    }
    if j >= messages.len() {
        return false;
    }
    let ghost before = records_view(messages@);
    let record = &mut messages[j];
    merge_part(&mut record.parts, part.clone(), delta);
    let k = find_part(&record.parts, part.id.as_str());
    if k < record.parts.len() {
        let ghost merged = parts_view(record.parts@);
        apply_pending(&mut record.parts[k], pending);
        assert(parts_view(record.parts@) =~= merged.update(
            k as int,
            apply_deltas(merged[k as int], deltas_view(pending@)),
        ));
    }
    proof {
        let dv = match delta {
            Some(d) => Some(d@),
            None => None,
        };
        assert(records_view(messages@) =~= with_part(before, part@, dv, deltas_view(pending@)));
    }
    true
}

/// Appends a streamed delta to a known part; returns whether the part was found.
pub fn apply_delta(
    messages: &mut Vec<MessageRecord>,
    message_id: &str,
    part_id: &str,
    field: &str,
    delta: &str,
) -> (found: bool)
    ensures
        found == has_part(records_view(old(messages)@), message_id@, part_id@),
        records_view(final(messages)@) == with_delta(
            records_view(old(messages)@),
            message_id@,
            part_id@,
            field@,
            delta@,
        ),
{
    let j = find_message(messages, message_id);
    proof {
        lemma_first_index(records_view(messages@), has_message_id(message_id@));
    }
    if j >= messages.len() {
        return false;
    }
    let k = find_part(&messages[j].parts, part_id);
    proof {
        lemma_first_index(parts_view(messages@[j as int].parts@), has_part_id(part_id@));
    }
    if k >= messages[j].parts.len() {
        return false;
    }
    let ghost before = records_view(messages@);
    let ghost parts_before = parts_view(messages@[j as int].parts@);
    assert(has_part(before, message_id@, part_id@));
    let record = &mut messages[j];
    append_part_field(&mut record.parts[k], field, delta);
    assert(parts_view(record.parts@) =~= parts_before.update(
        k as int,
        appended(parts_before[k as int], field@, delta@),
    ));
    assert(records_view(messages@) =~= with_delta(before, message_id@, part_id@, field@, delta@));
    true
}

/// Removes part `part_id` of message `message_id`.
pub fn remove_part_from(messages: &mut Vec<MessageRecord>, message_id: &str, part_id: &str)
    ensures
        records_view(final(messages)@) == without_part(
            records_view(old(messages)@),
            message_id@,
            part_id@,
        ),
{
    let j = find_message(messages, message_id);
    proof {
        lemma_first_index(records_view(messages@), has_message_id(message_id@));
    }
    if j >= messages.len() {
        return;
    }
    let ghost before = records_view(messages@);
    let record = &mut messages[j];
    let ghost pred = other_part(part_id@);
    let mut kept: Vec<Part> = Vec::new();
    let mut i: usize = 0;
    while i < record.parts.len()
        invariant
            i <= record.parts@.len(),
            pred == other_part(part_id@),
            parts_view(kept@) == parts_view(record.parts@).take(i as int).filter(pred),
        decreases record.parts@.len() - i,
    {
        proof {
            assert(parts_view(record.parts@).take(i + 1) =~= parts_view(record.parts@).take(
                i as int,
            ).push(record.parts@[i as int]@));
            lemma_filter_push(
                parts_view(record.parts@).take(i as int),
                record.parts@[i as int]@,
                pred,
            );
        }
        if !crate::assoc::str_eq(record.parts[i].id.as_str(), part_id) {
            kept.push(record.parts[i].clone());
            assert(parts_view(kept@) =~= parts_view(record.parts@).take(i as int).filter(
                pred,
            ).push(record.parts@[i as int]@));
        }
        i += 1;
    }
    assert(parts_view(record.parts@).take(record.parts@.len() as int) =~= parts_view(
        record.parts@,
    ));
    record.parts = kept;
    assert(records_view(messages@) =~= without_part(before, message_id@, part_id@));
}

/// Removes message `message_id`.
pub fn remove_message_from(messages: &mut Vec<MessageRecord>, message_id: &str)
    ensures
        records_view(final(messages)@) == without_message(records_view(old(messages)@), message_id@),
{
    let ghost pred = other_message(message_id@);
    let mut kept: Vec<MessageRecord> = Vec::new();
    let mut i: usize = 0;
    while i < messages.len()
        invariant
            i <= messages@.len(),
            pred == other_message(message_id@),
            records_view(kept@) == records_view(messages@).take(i as int).filter(pred),
        decreases messages@.len() - i,
    {
        proof {
            assert(records_view(messages@).take(i + 1) =~= records_view(messages@).take(
                i as int,
            ).push(messages@[i as int]@));
            lemma_filter_push(records_view(messages@).take(i as int), messages@[i as int]@, pred);
        }
        if !crate::assoc::str_eq(messages[i].info.id.as_str(), message_id) {
            kept.push(messages[i].clone());
            assert(records_view(kept@) =~= records_view(messages@).take(i as int).filter(
                pred,
            ).push(messages@[i as int]@));
        }
        i += 1;
    }
    assert(records_view(messages@).take(messages@.len() as int) =~= records_view(messages@));
    *messages = kept;
}

/// Keeps only the latest page of messages.
pub fn trim_to_page(messages: &mut Vec<MessageRecord>)
    ensures
        records_view(final(messages)@) == last_page(records_view(old(messages)@)),
{
    if messages.len() > MESSAGE_PAGE {
        let excess = messages.len() - MESSAGE_PAGE;
        let ghost before = messages@;
        let tail = messages.split_off(excess);
        *messages = tail;
        assert(records_view(messages@) =~= last_page(records_view(before)));
    }
}

/// Copies the messages from index `start` on.
pub fn clone_records_tail(records: &[MessageRecord], start: usize) -> (r: Vec<MessageRecord>)
    requires
        start <= records@.len(),
    ensures
        records_view(r@) == records_view(records@).subrange(start as int, records@.len() as int),
{
    let mut out: Vec<MessageRecord> = Vec::new();
    let mut i: usize = start;
    while i < records.len()
        invariant
            start <= i <= records@.len(),
            out@.len() == i - start,
            forall|j: int| 0 <= j < i - start ==> (#[trigger] out@[j])@ == records@[start + j]@,
        decreases records@.len() - i,
    {
        out.push(records[i].clone());
        i += 1;
    }
    assert(records_view(out@) =~= records_view(records@).subrange(
        start as int,
        records@.len() as int,
    ));
    out
}

/// Copies a slice of parts.
pub fn clone_slice_parts(parts: &[Part]) -> (r: Vec<Part>)
    ensures
        parts_view(r@) == parts_view(parts@),
{
    let mut out: Vec<Part> = Vec::new();
    let mut i: usize = 0;
    while i < parts.len()
        invariant
            i <= parts@.len(),
            out@.len() == i,
            forall|j: int| 0 <= j < i ==> (#[trigger] out@[j])@ == parts@[j]@,
        decreases parts@.len() - i,
    {
        out.push(parts[i].clone());
        i += 1;
    }
    assert(parts_view(out@) =~= parts_view(parts@));
    out
}

} // verus!
