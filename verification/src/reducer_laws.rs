//! What the event reducer promises across events.
use vstd::prelude::*;

use crate::event::EventView;
use crate::json::{lemma_model_with_field, str_field, JsonModel};
use crate::model::{text_key, MessageRecordView, MessageView, PartView, SessionView};
use crate::part_merge::{
    appended, has_part_id, merged_parts, part_index, with_string_field, with_text,
};
use crate::seqs::{lemma_first_index, lemma_first_index_at};
use crate::timeline::{
    has_part, last_page, message_index, with_delta, with_message, with_part, without_message,
    without_part, MESSAGE_PAGE, has_message_id, other_message, other_part,
};
use crate::timeline_cache::cached_with_message;
use crate::workspace::{
    delta_step, shows, step, TabView, WorkspaceView,
};

verus! {

/// Appending a delta to a field makes the field its old text followed by the
/// delta, and leaves the other fields as they were.
pub proof fn law_append_concatenates(p: PartView, field: Seq<char>, delta: Seq<char>, other: Seq<char>)
    ensures
        str_field(appended(p, field, delta).data, field) == Some(
            match str_field(p.data, field) {
                Some(s) => s,
                None => Seq::empty(),
            } + delta,
        ),
        other != field ==> str_field(appended(p, field, delta).data, other) == str_field(p.data, other),
        appended(p, field, delta).id == p.id,
{
    let current = match str_field(p.data, field) {
        Some(s) => s,
        None => Seq::empty(),
    };
    lemma_model_with_field(p.data, field, JsonModel::String(current + delta), other);
}

/// Updating a part that is already there replaces it in place: the number of
/// parts stays, and the part shows the incoming text, or, when a delta came
/// with text that does not extend what was shown, what was shown followed by
/// the delta.
pub proof fn law_known_part_updates_in_place(parts: Seq<PartView>, incoming: PartView, delta: Option<Seq<char>>)
    requires
        part_index(parts, incoming.id) < parts.len(),
    ensures
        merged_parts(parts, incoming, delta).len() == parts.len(),
        merged_parts(parts, incoming, delta)[part_index(parts, incoming.id)].id == incoming.id,
        merged_parts(parts, incoming, delta)[part_index(parts, incoming.id)].text_or_empty() == (
        match delta {
            Some(d) => if parts[part_index(parts, incoming.id)].text_or_empty().is_prefix_of(
                incoming.text_or_empty(),
            ) {
                incoming.text_or_empty()
            } else {
                parts[part_index(parts, incoming.id)].text_or_empty() + d
            },
            None => incoming.text_or_empty(),
        }),
{
    lemma_first_index(parts, has_part_id(incoming.id));
    let i = part_index(parts, incoming.id);
    let current = parts[i].text_or_empty();
    if let Some(d) = delta {
        lemma_model_with_field(incoming.data, text_key(), JsonModel::String(current + d), text_key());
    }
}

/// Updating a known part (the first part with the incoming id, at `i`)
/// without a delta, or with one whose text the incoming text already
/// extends, puts the incoming part in its place whole, every field of its
/// data with it, and leaves every other part as it was.
pub proof fn law_known_part_replaced_wholly(
    parts: Seq<PartView>,
    incoming: PartView,
    i: int,
    delta: Option<Seq<char>>,
)
    requires
        0 <= i < parts.len(),
        parts[i].id == incoming.id,
        forall|j: int| 0 <= j < i ==> parts[j].id != incoming.id,
        delta is None || parts[i].text_or_empty().is_prefix_of(incoming.text_or_empty()),
    ensures
        merged_parts(parts, incoming, delta) == parts.update(i, incoming),
        merged_parts(parts, incoming, delta)[i] == incoming,
{
    lemma_first_index_at(parts, has_part_id(incoming.id), i);
}

/// Updating a known part with a delta whose text the incoming text does not
/// extend keeps the incoming part, with its text made what was shown
/// followed by the delta; every other field of the incoming data comes
/// through, and the other parts stay.
pub proof fn law_known_part_with_stale_text_keeps_incoming_fields(
    parts: Seq<PartView>,
    incoming: PartView,
    i: int,
    d: Seq<char>,
    other: Seq<char>,
)
    requires
        0 <= i < parts.len(),
        parts[i].id == incoming.id,
        forall|j: int| 0 <= j < i ==> parts[j].id != incoming.id,
        !parts[i].text_or_empty().is_prefix_of(incoming.text_or_empty()),
        other != text_key(),
    ensures
        merged_parts(parts, incoming, Some(d)).len() == parts.len(),
        forall|j: int| 0 <= j < parts.len() && j != i ==> merged_parts(parts, incoming, Some(d))[j]
            == parts[j],
        merged_parts(parts, incoming, Some(d))[i].text() == Some(parts[i].text_or_empty() + d),
        crate::json::model_field(merged_parts(parts, incoming, Some(d))[i].data, other)
            == crate::json::model_field(incoming.data, other),
        merged_parts(parts, incoming, Some(d))[i].id == incoming.id,
        merged_parts(parts, incoming, Some(d))[i].kind == incoming.kind,
        merged_parts(parts, incoming, Some(d))[i].session_id == incoming.session_id,
        merged_parts(parts, incoming, Some(d))[i].message_id == incoming.message_id,
{
    lemma_first_index_at(parts, has_part_id(incoming.id), i);
    let current = parts[i].text_or_empty();
    lemma_model_with_field(incoming.data, text_key(), JsonModel::String(current + d), other);
}

/// A part seen for the first time goes last; when it has no text yet, the
/// delta it came with becomes its text.
pub proof fn law_new_part_takes_its_delta(parts: Seq<PartView>, incoming: PartView, d: Seq<char>)
    requires
        part_index(parts, incoming.id) == parts.len(),
        incoming.text_or_empty().len() == 0,
    ensures
        merged_parts(parts, incoming, Some(d)).last().id == incoming.id,
        merged_parts(parts, incoming, Some(d)).last().text() == Some(d),
{
    lemma_model_with_field(incoming.data, text_key(), JsonModel::String(d), text_key());
}

/// A streamed delta for a part that a tab shows extends that part's field in
/// that tab.
pub proof fn law_delta_extends_shown_part(
    w: WorkspaceView,
    i: int,
    session_id: Seq<char>,
    message_id: Seq<char>,
    part_id: Seq<char>,
    field: Seq<char>,
    delta: Seq<char>,
    directory: Option<Seq<char>>,
)
    requires
        0 <= i < w.tabs.len(),
        shows(w.tabs[i], directory, session_id),
        has_part(w.tabs[i].timeline.messages(), message_id, part_id),
    ensures
        ({
            let before = w.tabs[i].timeline.messages();
            let after = delta_step(w, session_id, message_id, part_id, field, delta, directory).tabs[i].timeline.messages();
            let j = message_index(before, message_id);
            let k = part_index(before[j].parts, part_id);
            &&& after.len() == before.len()
            &&& after[j].parts.len() == before[j].parts.len()
            &&& after[j].parts[k] == appended(before[j].parts[k], field, delta)
            &&& str_field(after[j].parts[k].data, field) == Some(
                match str_field(before[j].parts[k].data, field) {
                    Some(s) => s,
                    None => Seq::empty(),
                } + delta,
            )
        }),
{
    let before = w.tabs[i].timeline.messages();
    lemma_first_index(before, has_message_id(message_id));
    let j = message_index(before, message_id);
    lemma_first_index(before[j].parts, has_part_id(part_id));
    let k = part_index(before[j].parts, part_id);
    law_append_concatenates(before[j].parts[k], field, delta, field);
}

/// Whether an event concerns the timeline of a session, and which.
pub open spec fn event_session(e: EventView) -> Option<Seq<char>> {
    match e {
        EventView::MessageUpdated(info) => Some(info.session_id),
        EventView::MessageRemoved { session_id, .. } => Some(session_id),
        EventView::MessagePartUpdated { part, .. } => Some(part.session_id),
        EventView::MessagePartDelta { session_id, .. } => Some(session_id),
        EventView::MessagePartRemoved { session_id, .. } => Some(session_id),
        _ => None,
    }
}

/// Events about the timeline of a session that no tab shows leave every tab
/// as it was: a session kept only in the cache stays isolated.
pub proof fn law_unshown_session_leaves_tabs(w: WorkspaceView, e: EventView, directory: Option<Seq<char>>)
    requires
        event_session(e) is Some,
        forall|i: int| 0 <= i < w.tabs.len() ==> !shows(#[trigger] w.tabs[i], directory, event_session(e)->0),
    ensures
        step(w, e, directory).tabs == w.tabs,
{
    assert(step(w, e, directory).tabs =~= w.tabs);
}

/// Whether every cached session holds at most one page of messages.
pub open spec fn cache_pages_bounded(cache: Map<Seq<char>, Seq<MessageRecordView>>) -> bool {
    forall|k: Seq<char>| #[trigger] cache.contains_key(k) ==> cache[k].len() <= MESSAGE_PAGE
}

proof fn lemma_filter_not_longer<T>(s: Seq<T>, pred: spec_fn(T) -> bool)
    ensures
        s.filter(pred).len() <= s.len(),
{
    s.lemma_filter_len(pred);
}

/// The cache never grows beyond one page per session, whatever the events.
pub proof fn law_cache_pages_stay_bounded(w: WorkspaceView, e: EventView, directory: Option<Seq<char>>)
    requires
        cache_pages_bounded(w.cache),
    ensures
        cache_pages_bounded(step(w, e, directory).cache),
{
    let after = step(w, e, directory).cache;
    assert forall|k: Seq<char>| #[trigger] after.contains_key(k) implies after[k].len() <= MESSAGE_PAGE by {
        assert(w.cache.contains_key(k));
        let msgs = w.cache[k];
        match e {
            EventView::MessageUpdated(info) => {
                if k == info.session_id {
                    lemma_first_index(msgs, has_message_id(info.id));
                }
            },
            EventView::MessageRemoved { session_id, message_id } => {
                if k == session_id {
                    lemma_filter_not_longer(msgs, crate::timeline::other_message(message_id));
                }
            },
            EventView::MessagePartUpdated { part, delta } => {
                if k == part.session_id {
                    lemma_first_index(msgs, has_message_id(part.message_id));
                }
            },
            EventView::MessagePartDelta { session_id, message_id, part_id, field, delta } => {
                if k == session_id {
                    lemma_first_index(msgs, has_message_id(message_id));
                }
            },
            EventView::MessagePartRemoved { session_id, message_id, part_id } => {
                if k == session_id {
                    lemma_first_index(msgs, has_message_id(message_id));
                }
            },
            _ => {},
        }
    }
}

/// An updated message that the timeline holds (the first with its id, at
/// `i`) takes the new information in place, keeping its parts when no
/// pending ones come; every other message stays. A message not yet held goes
/// last, with the pending parts.
pub proof fn law_message_update_in_place_or_last(
    messages: Seq<MessageRecordView>,
    info: MessageView,
    pending: Seq<PartView>,
    i: int,
)
    ensures
        0 <= i < messages.len() && messages[i].info.id == info.id && (forall|j: int|
            0 <= j < i ==> messages[j].info.id != info.id) ==> {
            &&& with_message(messages, info, pending).len() == messages.len()
            &&& with_message(messages, info, pending)[i].info == info
            &&& pending.len() == 0 ==> with_message(messages, info, pending)[i].parts
                == messages[i].parts
            &&& forall|j: int|
                0 <= j < messages.len() && j != i ==> with_message(messages, info, pending)[j]
                    == messages[j]
        },
        (forall|j: int| 0 <= j < messages.len() ==> messages[j].info.id != info.id) ==> with_message(
            messages,
            info,
            pending,
        ) == messages.push(MessageRecordView { info, parts: pending }),
{
    if 0 <= i < messages.len() && messages[i].info.id == info.id && (forall|j: int|
        0 <= j < i ==> messages[j].info.id != info.id) {
        lemma_first_index_at(messages, has_message_id(info.id), i);
    }
    if forall|j: int| 0 <= j < messages.len() ==> messages[j].info.id != info.id {
        lemma_first_index_at(messages, has_message_id(info.id), messages.len() as int);
    }
}

/// A removed message leaves the timeline, with every message of that id,
/// and every other message stays, in order.
pub proof fn law_removed_message_leaves(messages: Seq<MessageRecordView>, id: Seq<char>)
    ensures
        forall|k: int|
            0 <= k < without_message(messages, id).len() ==> without_message(messages, id)[k].info.id
                != id,
        forall|j: int|
            0 <= j < messages.len() && messages[j].info.id != id ==> without_message(
                messages,
                id,
            ).contains(messages[j]),
        without_message(messages, id).len() <= messages.len(),
{
    assert forall|k: int| 0 <= k < without_message(messages, id).len() implies without_message(
        messages,
        id,
    )[k].info.id != id by {
        messages.lemma_filter_pred(other_message(id), k);
    }
    assert forall|j: int| 0 <= j < messages.len() && messages[j].info.id != id implies without_message(
        messages,
        id,
    ).contains(messages[j]) by {
        messages.lemma_filter_contains(other_message(id), j);
    }
    messages.lemma_filter_len(other_message(id));
}

/// A removed part leaves its message (the first with the message id, at
/// `j`): no part of that id remains there, the message keeps its
/// information, and the other messages stay.
pub proof fn law_removed_part_leaves(
    messages: Seq<MessageRecordView>,
    message_id: Seq<char>,
    part_id: Seq<char>,
    j: int,
)
    requires
        0 <= j < messages.len(),
        messages[j].info.id == message_id,
        forall|k: int| 0 <= k < j ==> messages[k].info.id != message_id,
    ensures
        without_part(messages, message_id, part_id).len() == messages.len(),
        without_part(messages, message_id, part_id)[j].info == messages[j].info,
        forall|k: int|
            0 <= k < without_part(messages, message_id, part_id)[j].parts.len() ==> without_part(
                messages,
                message_id,
                part_id,
            )[j].parts[k].id != part_id,
        forall|k: int|
            0 <= k < messages.len() && k != j ==> without_part(messages, message_id, part_id)[k]
                == messages[k],
{
    lemma_first_index_at(messages, has_message_id(message_id), j);
    let parts = messages[j].parts;
    assert forall|k: int| 0 <= k < parts.filter(other_part(part_id)).len() implies parts.filter(
        other_part(part_id),
    )[k].id != part_id by {
        parts.lemma_filter_pred(other_part(part_id), k);
    }
}

/// A deleted session leaves the list, its status is forgotten, each tab that
/// showed it shows nothing any more, and every other tab stays as it was;
/// the other sessions stay listed.
pub proof fn law_deleted_session_is_gone(w: WorkspaceView, s: SessionView)
    ensures
        ({
            let after = crate::workspace::delete_step(w, s);
            &&& !after.statuses.contains_key(s.id)
            &&& after.tabs.len() == w.tabs.len()
            &&& forall|i: int|
                0 <= i < w.tabs.len() ==> #[trigger] after.tabs[i] == (if w.tabs[i].timeline.session_id()
                    == Some(s.id) {
                    TabView { timeline: crate::timeline::TimelineView::Empty, ..w.tabs[i] }
                } else {
                    w.tabs[i]
                })
            &&& w.sessions is None ==> after.sessions is None
            &&& w.sessions matches Some(list) ==> after.sessions matches Some(rest) && (forall|k: int|
                0 <= k < rest.len() ==> rest[k].id != s.id) && (forall|k: int|
                0 <= k < list.len() && list[k].id != s.id ==> rest.contains(list[k]))
        }),
{
    if let Some(list) = w.sessions {
        let pred = crate::workspace::other_session(s.id);
        assert forall|k: int| 0 <= k < list.filter(pred).len() implies list.filter(pred)[k].id != s.id by {
            list.lemma_filter_pred(pred, k);
        }
        assert forall|k: int| 0 <= k < list.len() && list[k].id != s.id implies list.filter(pred).contains(
            list[k],
        ) by {
            list.lemma_filter_contains(pred, k);
        }
    }
}

/// A status is recorded for its session; a session that turns busy clears
/// the prompt error of each tab that shows it, and leaves the rest of every
/// tab; any other status leaves the tabs alone.
pub proof fn law_status_is_recorded(w: WorkspaceView, id: Seq<char>, status: crate::event::SessionStatus)
    ensures
        ({
            let after = crate::workspace::status_step(w, id, status);
            &&& after.statuses.contains_key(id) && after.statuses[id] == status
            &&& forall|k: Seq<char>| k != id ==> after.statuses.contains_key(k) == w.statuses.contains_key(k)
            &&& after.tabs.len() == w.tabs.len()
            &&& forall|i: int|
                0 <= i < w.tabs.len() ==> #[trigger] after.tabs[i] == (if status is Busy
                    && w.tabs[i].timeline.session_id() == Some(id) {
                    TabView { prompt_error: None, ..w.tabs[i] }
                } else {
                    w.tabs[i]
                })
            &&& after.sessions == w.sessions
        }),
{
}

/// A message the cache does not hold yet goes last in it, and the cache
/// keeps only the latest page: the messages before it are the latest ones it
/// held, so the cache never drops the newest message for an older one.
pub proof fn law_cache_takes_new_message_last(
    messages: Seq<MessageRecordView>,
    info: MessageView,
    pending: Seq<PartView>,
)
    requires
        forall|j: int| 0 <= j < messages.len() ==> messages[j].info.id != info.id,
    ensures
        ({
            let c = cached_with_message(messages, info, pending);
            &&& c.len() == (if messages.len() + 1 > MESSAGE_PAGE {
                MESSAGE_PAGE as int
            } else {
                messages.len() + 1int
            })
            &&& c.last() == (MessageRecordView { info, parts: pending })
            &&& forall|j: int|
                0 <= j < c.len() - 1 ==> c[j] == messages[messages.len() - (c.len() - 1) + j]
        }),
{
    lemma_first_index_at(messages, has_message_id(info.id), messages.len() as int);
    law_message_update_in_place_or_last(messages, info, pending, 0);
}

} // verus!
