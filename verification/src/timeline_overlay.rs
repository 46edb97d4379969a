use vstd::prelude::*;

use crate::json::flag_field;
use crate::model::{parts_view, records_view, MessageRecord, MessageRecordView, PartView, Role};
use crate::seqs::{first_index, lemma_first_index, lemma_first_index_at};
use crate::text::{contains, contains_seq, lowercase, replace_char, replace_char_spec, to_lowercase, trim, trimmed};
use crate::timeline::{find_message, message_index};

verus! {

/// A prompt of the user, as the timeline picker lists it.
#[derive(Debug, PartialEq)]
pub struct TimelineEntry {
    pub message_id: String,
    pub title: String,
    pub created: u64,
}

pub struct TimelineEntryView {
    pub message_id: Seq<char>,
    pub title: Seq<char>,
    pub created: u64,
}

impl View for TimelineEntry {
    type V = TimelineEntryView;

    open spec fn view(&self) -> TimelineEntryView {
        TimelineEntryView { message_id: self.message_id@, title: self.title@, created: self.created }
    }
}

pub open spec fn entries_view(entries: Seq<TimelineEntry>) -> Seq<TimelineEntryView> {
    entries.map_values(|e: TimelineEntry| e@)
}

/// A part that holds what the user typed: text, neither added by the client
/// nor ignored.
pub open spec fn is_prompt_part(part: PartView) -> bool {
    part.kind == "text"@ && !flag_field(part.data, "synthetic"@) && !flag_field(
        part.data,
        "ignored"@,
    )
}

/// The picker's entry for a message: a user message, titled by the text of
/// its first prompt part on one line, and kept when its title, lowered, holds
/// the query (already trimmed and lowered).
pub open spec fn entry_of(message: MessageRecordView, query: Seq<char>) -> Option<TimelineEntryView> {
    if message.info.role != Role::User {
        None
    } else {
        let i = first_index(message.parts, |p: PartView| is_prompt_part(p));
        if i >= message.parts.len() {
            None
        } else {
            match message.parts[i].text() {
                None => None,
                Some(text) => {
                    let title = replace_char_spec(text, '\n', ' ');
                    if query.len() == 0 || contains_seq(lowercase(title), query) {
                        Some(
                            TimelineEntryView {
                                message_id: message.info.id,
                                title,
                                created: message.info.created,
                            },
                        )
                    } else {
                        None
                    }
                },
            }
        }
    }
}

/// The picker's entries for the messages, newest message first.
pub open spec fn entries_of(messages: Seq<MessageRecordView>, query: Seq<char>) -> Seq<TimelineEntryView>
    decreases messages.len(),
{
    if messages.len() == 0 {
        Seq::empty()
    } else {
        let rest = entries_of(messages.drop_first(), query);
        match entry_of(messages[0], query) {
            Some(e) => rest.push(e),
            None => rest,
        }
    }
}

fn first_prompt_part(parts: &Vec<crate::model::Part>) -> (r: usize)
    ensures
        r == first_index(parts_view(parts@), |p: PartView| is_prompt_part(p)),
{
    let ghost pred = |p: PartView| is_prompt_part(p);
    let mut i: usize = 0;
    while i < parts.len()
        invariant
            i <= parts@.len(),
            pred == (|p: PartView| is_prompt_part(p)),
            forall|j: int| 0 <= j < i ==> !pred(#[trigger] parts_view(parts@)[j]),
        decreases parts@.len() - i,
    {
        let part = &parts[i];
        if crate::assoc::str_eq(part.kind.as_str(), "text") && !part.flag("synthetic") && !part.flag(
            "ignored",
        ) {
            proof {
                lemma_first_index_at(parts_view(parts@), pred, i as int);
            }
            return i;
        }
        assert(!pred(parts_view(parts@)[i as int]));
        i += 1;
    }
    proof {
        lemma_first_index_at(parts_view(parts@), pred, i as int);
    }
    i
}

fn entry_for(message: &MessageRecord, query: &str) -> (r: Option<TimelineEntry>)
    ensures
        match r {
            Some(e) => entry_of(message@, query@) == Some(e@),
            None => entry_of(message@, query@).is_none(),
        },
{
    if message.info.role != Role::User {
        return None;
    }
    let i = first_prompt_part(&message.parts);
    if i >= message.parts.len() {
        return None;
    }
    match message.parts[i].text() {
        None => None,
        Some(text) => {
            let title = replace_char(text, '\n', ' ');
            let lowered = to_lowercase(title.as_str());
            if query.is_empty() || contains(lowered.as_str(), query) {
                Some(
                    TimelineEntry {
                        message_id: message.info.id.clone(),
                        title,
                        created: message.info.created,
                    },
                )
            } else {
                None
            }
        },
    }
}

/// The timeline picker's entries for a query: the user's prompts, newest
/// first, whose one-line title holds the query (trimmed, case ignored).
pub fn extract_entries(messages: &Vec<MessageRecord>, query: &str) -> (r: Vec<TimelineEntry>)
    ensures
        entries_view(r@) == entries_of(records_view(messages@), lowercase(trimmed(query@))),
{
    let trimmed_query = trim(query);
    let needle = to_lowercase(trimmed_query.as_str());
    let ghost all = records_view(messages@);
    let mut out: Vec<TimelineEntry> = Vec::new();
    let mut i: usize = messages.len();
    assert(all.subrange(i as int, all.len() as int) =~= Seq::empty());
    assert(entries_view(out@) =~= Seq::empty());
    while i > 0
        invariant
            i <= messages@.len(),
            all == records_view(messages@),
            needle@ == lowercase(trimmed(query@)),
            entries_view(out@) == entries_of(all.subrange(i as int, all.len() as int), needle@),
        decreases i,
    {
        i -= 1;
        let ghost before = out@;
        let ghost tail = all.subrange(i as int, all.len() as int);
        assert(tail.drop_first() =~= all.subrange(i + 1, all.len() as int));
        assert(tail[0] == messages@[i as int]@);
        match entry_for(&messages[i], needle.as_str()) {
            Some(e) => {
                out.push(e);
                assert(entries_view(out@) =~= entries_view(before).push(e@));
            },
            None => {},
        }
    }
    assert(all.subrange(0, all.len() as int) =~= all);
    out
}

/// Whether an entry is that of message `id`.
pub open spec fn has_entry_id(id: Seq<char>) -> spec_fn(TimelineEntryView) -> bool {
    |e: TimelineEntryView| e.message_id == id
}

/// Position of the entry of message `id` among the entries, or the first
/// entry when it is not there or no message is given.
pub open spec fn preferred_index(entries: Seq<TimelineEntryView>, id: Option<Seq<char>>) -> int {
    match id {
        Some(id) => {
            let i = first_index(entries, has_entry_id(id));
            if i < entries.len() {
                i
            } else {
                0
            }
        },
        None => 0,
    }
}

pub fn preferred_entry_index(entries: &Vec<TimelineEntry>, message_id: Option<&str>) -> (r: usize)
    ensures
        r == preferred_index(entries_view(entries@), crate::workspace::opt_view(message_id)),
{
    match message_id {
        None => 0,
        Some(id) => {
            let ghost pred = has_entry_id(id@);
            let mut i: usize = 0;
            while i < entries.len()
                invariant
                    i <= entries@.len(),
                    pred == has_entry_id(id@),
                    message_id == Some(id),
                    forall|j: int| 0 <= j < i ==> !pred(#[trigger] entries_view(entries@)[j]),
                decreases entries@.len() - i,
            {
                if crate::assoc::str_eq(entries[i].message_id.as_str(), id) {
                    proof {
                        assert(entries_view(entries@)[i as int] == entries@[i as int]@);
                        assert(pred(entries_view(entries@)[i as int]));
                        lemma_first_index_at(entries_view(entries@), pred, i as int);
                    }
                    return i;
                }
                i += 1;
            }
            proof {
                lemma_first_index_at(entries_view(entries@), pred, i as int);
            }
            0
        },
    }
}

/// Position of message `id` in the rendered timeline, if it is loaded there.
pub fn rendered_message_index(messages: &Vec<MessageRecord>, message_id: &str) -> (r: Option<usize>)
    ensures
        match r {
            Some(i) => i == message_index(records_view(messages@), message_id@) && i
                < messages@.len(),
            None => message_index(records_view(messages@), message_id@) >= messages@.len(),
        },
{
    let i = find_message(messages, message_id);
    if i < messages.len() {
        Some(i)
    } else {
        None
    }
}

/// The timeline picker: the session history it lists, the query, the
/// entries that match it, the message picked, and the row selected.
pub struct TimelinePicker {
    pub history: Vec<MessageRecord>,
    pub history_session: Option<String>,
    pub query: String,
    pub entries: Vec<TimelineEntry>,
    pub message: Option<String>,
    pub selection: usize,
}

pub struct TimelinePickerView {
    pub history: Seq<MessageRecordView>,
    pub history_session: Option<Seq<char>>,
    pub query: Seq<char>,
    pub entries: Seq<TimelineEntryView>,
    pub message: Option<Seq<char>>,
    pub selection: usize,
}

impl View for TimelinePicker {
    type V = TimelinePickerView;

    open spec fn view(&self) -> TimelinePickerView {
        TimelinePickerView {
            history: records_view(self.history@),
            history_session: crate::text::opt_chars(self.history_session),
            query: self.query@,
            entries: entries_view(self.entries@),
            message: crate::text::opt_chars(self.message),
            selection: self.selection,
        }
    }
}

/// The id of the entry at `i`, if there is one.
pub open spec fn entry_id_at(entries: Seq<TimelineEntryView>, i: int) -> Option<Seq<char>> {
    if 0 <= i < entries.len() {
        Some(entries[i].message_id)
    } else {
        None
    }
}

/// The picker after the query changed: the entries that match, the first
/// one picked and selected.
pub open spec fn refreshed(p: TimelinePickerView, query: Seq<char>) -> TimelinePickerView {
    let entries = entries_of(p.history, lowercase(trimmed(query)));
    TimelinePickerView { query, entries, message: entry_id_at(entries, 0), selection: 0, ..p }
}

/// The picker opened on a session's loaded messages, with an empty query.
pub open spec fn picker_opened(p: TimelinePickerView, session_id: Seq<char>, messages: Seq<MessageRecordView>) -> TimelinePickerView {
    refreshed(
        TimelinePickerView { history: messages, history_session: Some(session_id), ..p },
        Seq::empty(),
    )
}

/// The picker after the full history arrived: the same query over it, and
/// the picked message kept when asked and still listed (else the first);
/// the selected row follows only while the picker is open.
pub open spec fn history_replaced(
    p: TimelinePickerView,
    messages: Seq<MessageRecordView>,
    preserve: bool,
    open: bool,
) -> TimelinePickerView {
    let entries = entries_of(messages, lowercase(trimmed(p.query)));
    let selected = preferred_index(entries, if preserve { p.message } else { None });
    TimelinePickerView {
        history: messages,
        entries,
        message: entry_id_at(entries, selected),
        selection: if open { selected as usize } else { p.selection },
        ..p
    }
}

impl TimelinePicker {
    pub fn new() -> (r: TimelinePicker)
        ensures
            r@.history.len() == 0,
            r@.history_session is None,
            r@.query.len() == 0,
            r@.entries.len() == 0,
            r@.message is None,
            r@.selection == 0,
    {
        TimelinePicker {
            history: Vec::new(),
            history_session: None,
            query: String::new(),
            entries: Vec::new(),
            message: None,
            selection: 0,
        }
    }

    fn first_entry_id(entries: &Vec<TimelineEntry>, i: usize) -> (r: Option<String>)
        ensures
            crate::text::opt_chars(r) == entry_id_at(entries_view(entries@), i as int),
    {
        if i < entries.len() {
            Some(entries[i].message_id.clone())
        } else {
            None
        }
    }

    /// Lists the entries that match a new query.
    pub fn refresh(&mut self, query: &str)
        ensures
            final(self)@ == refreshed(old(self)@, query@),
    {
        self.query = query.to_owned();
        self.entries = extract_entries(&self.history, query);
        self.selection = 0;
        self.message = Self::first_entry_id(&self.entries, 0);
    }

    /// Opens the picker on the messages the tab shows of a session.
    pub fn open(&mut self, session_id: &str, messages: Vec<MessageRecord>)
        ensures
            final(self)@ == picker_opened(old(self)@, session_id@, records_view(messages@)),
    {
        self.history = messages;
        self.history_session = Some(session_id.to_owned());
        proof {
            reveal_strlit("");
            assert(""@ =~= Seq::<char>::empty());
        }
        self.refresh("");
    }

    /// Whether a full history loaded for `session_id` is still wanted: the
    /// active tab shows that session (`shown`) and the picker lists it.
    pub fn wants_history(&self, session_id: &str, shown: bool) -> (r: bool)
        ensures
            r == (shown && self@.history_session == Some(session_id@)),
    {
        shown && match &self.history_session {
            Some(current) => crate::assoc::str_eq(current.as_str(), session_id),
            None => false,
        }
    }

    /// Lists a session's full history in place of what the picker had.
    pub fn replace_history(&mut self, messages: Vec<MessageRecord>, preserve: bool, open: bool)
        ensures
            final(self)@ == history_replaced(old(self)@, records_view(messages@), preserve, open),
    {
        self.history = messages;
        self.entries = extract_entries(&self.history, self.query.as_str());
        let selected = match (&self.message, preserve) {
            (Some(id), true) => preferred_entry_index(&self.entries, Some(id.as_str())),
            _ => preferred_entry_index(&self.entries, None),
        };
        self.message = Self::first_entry_id(&self.entries, selected);
        if open {
            self.selection = selected;
        }
    }

    /// Picks the message of the selected row and returns its id, if the row
    /// exists.
    pub fn preview(&mut self) -> (r: Option<String>)
        ensures
            crate::text::opt_chars(r) == entry_id_at(old(self)@.entries, old(self)@.selection as int),
            final(self)@ == (match r {
                Some(id) => TimelinePickerView { message: Some(id@), ..old(self)@ },
                None => old(self)@,
            }),
    {
        let picked = Self::first_entry_id(&self.entries, self.selection);
        match &picked {
            Some(id) => {
                self.message = Some(id.clone());
            },
            None => {},
        }
        picked
    }
}

/// When the full history of the session arrives, the message the user had
/// picked stays picked as long as the query still lists it.
pub proof fn law_history_refresh_keeps_the_pick(
    p: TimelinePickerView,
    messages: Seq<MessageRecordView>,
    open: bool,
    i: int,
)
    requires
        p.message is Some,
        0 <= i < entries_of(messages, lowercase(trimmed(p.query))).len(),
        entries_of(messages, lowercase(trimmed(p.query)))[i].message_id == p.message->0,
    ensures
        history_replaced(p, messages, true, open).message == p.message,
{
    let entries = entries_of(messages, lowercase(trimmed(p.query)));
    let id = p.message->0;
    lemma_first_index(entries, has_entry_id(id));
    if first_index(entries, has_entry_id(id)) > i {
        assert(!has_entry_id(id)(entries[i]));
    }
}

} // verus!
