use vstd::prelude::*;

use crate::assoc::StrMap;
use crate::entrances::{selections_view, PartSelection};
use crate::event::{Event, EventView, SessionStatus};
use crate::model::{
    deltas_view, parts_view, Message, MessageView, Part, PartView, PendingDelta, PendingDeltaView,
    Session, SessionView, sessions_view,
};
use crate::part_merge::has_part_id;
use crate::seqs::{first_index, lemma_filter_push, lemma_first_index, lemma_first_index_at};
use crate::timeline::{
    apply_delta, apply_message, apply_part, has_part, message_index, parts_with_part,
    remove_message_from, remove_part_from, with_delta, with_message, with_part, without_message,
    without_part, TimelineState, TimelineView,
};
use crate::timeline_cache::{cached_with_message, TimelineCache};

verus! {

/// The timeline shown for one open directory.
pub struct DirectoryTimeline {
    pub directory: String,
    pub timeline: TimelineState,
    pub prompt_error: Option<String>,
    /// How many of the latest messages the timeline loads.
    pub message_limit: usize,
    pub history_loading: bool,
    /// Whether the timeline holds the session's oldest message.
    pub history_exhausted: bool,
    /// Whether the timeline keeps its newest message in view.
    pub follow_tail: bool,
    /// The part the inspector shows, if any.
    pub selected_part: Option<PartSelection>,
    /// Parts the user opened, and parts the user closed that open by default.
    pub expanded_parts: Vec<PartSelection>,
    pub collapsed_parts: Vec<PartSelection>,
}

#[verifier::ext_equal]
pub struct TabView {
    pub directory: Seq<char>,
    pub timeline: TimelineView,
    pub prompt_error: Option<Seq<char>>,
    pub message_limit: usize,
    pub history_loading: bool,
    pub history_exhausted: bool,
    pub follow_tail: bool,
    pub selected_part: Option<(Seq<char>, Seq<char>)>,
    pub expanded_parts: Seq<(Seq<char>, Seq<char>)>,
    pub collapsed_parts: Seq<(Seq<char>, Seq<char>)>,
}

impl View for DirectoryTimeline {
    type V = TabView;

    open spec fn view(&self) -> TabView {
        TabView {
            directory: self.directory@,
            timeline: self.timeline@,
            prompt_error: match self.prompt_error {
                Some(e) => Some(e@),
                None => None,
            },
            message_limit: self.message_limit,
            history_loading: self.history_loading,
            history_exhausted: self.history_exhausted,
            follow_tail: self.follow_tail,
            selected_part: match self.selected_part {
                Some(p) => Some(p@),
                None => None,
            },
            expanded_parts: selections_view(self.expanded_parts@),
            collapsed_parts: selections_view(self.collapsed_parts@),
        }
    }
}

/// The tab of a directory just opened: nothing shown yet.
pub open spec fn empty_tab(directory: Seq<char>) -> TabView {
    TabView {
        directory,
        timeline: TimelineView::Empty,
        prompt_error: None,
        message_limit: crate::timeline::MESSAGE_PAGE,
        history_loading: false,
        history_exhausted: false,
        follow_tail: true,
        selected_part: None,
        expanded_parts: Seq::empty(),
        collapsed_parts: Seq::empty(),
    }
}

impl DirectoryTimeline {
    /// The tab of a directory just opened: nothing shown yet.
    pub fn new(directory: String) -> (r: Self)
        ensures
            r@ == empty_tab(directory@),
    {
        let r = DirectoryTimeline {
            directory,
            timeline: TimelineState::Empty,
            prompt_error: None,
            message_limit: crate::timeline::MESSAGE_PAGE,
            history_loading: false,
            history_exhausted: false,
            follow_tail: true,
            selected_part: None,
            expanded_parts: Vec::new(),
            collapsed_parts: Vec::new(),
        };
        assert(r@ =~= empty_tab(r.directory@));
        r
    }
}

pub open spec fn tabs_view(tabs: Seq<DirectoryTimeline>) -> Seq<TabView> {
    tabs.map_values(|t: DirectoryTimeline| t@)
}

/// What the client knows of the server's sessions and their timelines: the
/// state that the event stream updates.
pub struct WorkspaceState {
    /// The sessions, once the server has listed them.
    pub sessions: Option<Vec<Session>>,
    pub statuses: StrMap<SessionStatus>,
    pub tabs: Vec<DirectoryTimeline>,
    /// Parts that arrived before their message, by message id.
    pub pending_parts: StrMap<Vec<Part>>,
    /// Deltas that arrived before their part, by message id.
    pub pending_deltas: StrMap<Vec<PendingDelta>>,
    pub cache: TimelineCache,
    /// The session whose response the user asked to interrupt, awaiting a
    /// second press.
    pub interrupt_session: Option<String>,
}

pub struct WorkspaceView {
    pub sessions: Option<Seq<SessionView>>,
    pub statuses: Map<Seq<char>, SessionStatus>,
    pub tabs: Seq<TabView>,
    pub pending_parts: Map<Seq<char>, Seq<PartView>>,
    pub pending_deltas: Map<Seq<char>, Seq<PendingDeltaView>>,
    pub cache: Map<Seq<char>, Seq<crate::model::MessageRecordView>>,
    pub interrupt: Option<Seq<char>>,
}

impl View for WorkspaceState {
    type V = WorkspaceView;

    open spec fn view(&self) -> WorkspaceView {
        WorkspaceView {
            sessions: match self.sessions {
                Some(s) => Some(sessions_view(s@)),
                None => None,
            },
            statuses: self.statuses@,
            tabs: tabs_view(self.tabs@),
            pending_parts: self.pending_parts@.map_values(|v: Vec<Part>| parts_view(v@)),
            pending_deltas: self.pending_deltas@.map_values(
                |v: Vec<PendingDelta>| deltas_view(v@),
            ),
            cache: self.cache@,
            interrupt: match self.interrupt_session {
                Some(s) => Some(s@),
                None => None,
            },
        }
    }
}

/// Whether an event for `directory` (all directories when none is given)
/// concerns a tab.
pub open spec fn in_scope(tab: TabView, directory: Option<Seq<char>>) -> bool {
    match directory {
        Some(d) => tab.directory == d,
        None => true,
    }
}

/// Whether a tab shows the loaded timeline of `session_id`, for an event
/// scoped to `directory`.
pub open spec fn shows(tab: TabView, directory: Option<Seq<char>>, session_id: Seq<char>) -> bool {
    in_scope(tab, directory) && tab.timeline.is_ready_for(session_id)
}

/// The tab with its messages transformed, when it shows `session_id`.
pub open spec fn tab_with_messages(tab: TabView, messages: Seq<crate::model::MessageRecordView>) -> TabView {
    TabView { timeline: tab.timeline.with_messages(messages), ..tab }
}

pub open spec fn entry_or_empty<V>(m: Map<Seq<char>, Seq<V>>, key: Seq<char>) -> Seq<V> {
    if m.contains_key(key) {
        m[key]
    } else {
        Seq::empty()
    }
}

// ---------------------------------------------------------------------------
// Message updates

pub open spec fn message_tab(tab: TabView, directory: Option<Seq<char>>, info: MessageView, pending: Seq<PartView>) -> TabView {
    if shows(tab, directory, info.session_id) {
        tab_with_messages(tab, with_message(tab.timeline.messages(), info, pending))
    } else {
        tab
    }
}

/// An updated message takes the parts that waited for it, in every tab that
/// shows its session and in the cache.
pub open spec fn message_step(w: WorkspaceView, info: MessageView, directory: Option<Seq<char>>) -> WorkspaceView {
    let pending = entry_or_empty(w.pending_parts, info.id);
    WorkspaceView {
        pending_parts: w.pending_parts.remove(info.id),
        tabs: w.tabs.map_values(|t: TabView| message_tab(t, directory, info, pending)),
        cache: if w.cache.contains_key(info.session_id) {
            w.cache.insert(info.session_id, cached_with_message(w.cache[info.session_id], info, pending))
        } else {
            w.cache
        },
        ..w
    }
}

// ---------------------------------------------------------------------------
// Removals

pub open spec fn removal_tab(tab: TabView, directory: Option<Seq<char>>, session_id: Seq<char>, message_id: Seq<char>) -> TabView {
    if shows(tab, directory, session_id) {
        tab_with_messages(tab, without_message(tab.timeline.messages(), message_id))
    } else {
        tab
    }
}

pub open spec fn remove_message_step(w: WorkspaceView, session_id: Seq<char>, message_id: Seq<char>, directory: Option<Seq<char>>) -> WorkspaceView {
    WorkspaceView {
        tabs: w.tabs.map_values(|t: TabView| removal_tab(t, directory, session_id, message_id)),
        cache: if w.cache.contains_key(session_id) {
            w.cache.insert(session_id, without_message(w.cache[session_id], message_id))
        } else {
            w.cache
        },
        ..w
    }
}

pub open spec fn part_removal_tab(tab: TabView, directory: Option<Seq<char>>, session_id: Seq<char>, message_id: Seq<char>, part_id: Seq<char>) -> TabView {
    if shows(tab, directory, session_id) {
        tab_with_messages(tab, without_part(tab.timeline.messages(), message_id, part_id))
    } else {
        tab
    }
}

pub open spec fn remove_part_step(w: WorkspaceView, session_id: Seq<char>, message_id: Seq<char>, part_id: Seq<char>, directory: Option<Seq<char>>) -> WorkspaceView {
    WorkspaceView {
        tabs: w.tabs.map_values(|t: TabView| part_removal_tab(t, directory, session_id, message_id, part_id)),
        cache: if w.cache.contains_key(session_id) {
            w.cache.insert(session_id, without_part(w.cache[session_id], message_id, part_id))
        } else {
            w.cache
        },
        ..w
    }
}

// ---------------------------------------------------------------------------
// Part updates

/// Keeps the deltas that are not for part `id`.
pub open spec fn other_delta(id: Seq<char>) -> spec_fn(PendingDeltaView) -> bool {
    |d: PendingDeltaView| d.part_id != id
}

pub open spec fn part_tab(tab: TabView, directory: Option<Seq<char>>, part: PartView, delta: Option<Seq<char>>, pending: Seq<PendingDeltaView>) -> TabView {
    if shows(tab, directory, part.session_id) {
        tab_with_messages(tab, with_part(tab.timeline.messages(), part, delta, pending))
    } else {
        tab
    }
}

/// Whether some tab shows the session of the part's message.
pub open spec fn part_session_shown(w: WorkspaceView, directory: Option<Seq<char>>, session_id: Seq<char>) -> bool {
    exists|i: int| 0 <= i < w.tabs.len() && shows(#[trigger] w.tabs[i], directory, session_id)
}

/// Whether some tab shows message `message_id` of the session.
pub open spec fn message_shown(w: WorkspaceView, directory: Option<Seq<char>>, session_id: Seq<char>, message_id: Seq<char>) -> bool {
    exists|i: int|
        0 <= i < w.tabs.len() && shows(#[trigger] w.tabs[i], directory, session_id)
            && message_index(w.tabs[i].timeline.messages(), message_id) < w.tabs[i].timeline.messages().len()
}

/// Whether some tab shows part `part_id` of message `message_id` of the session.
pub open spec fn part_shown(w: WorkspaceView, directory: Option<Seq<char>>, session_id: Seq<char>, message_id: Seq<char>, part_id: Seq<char>) -> bool {
    exists|i: int|
        0 <= i < w.tabs.len() && shows(#[trigger] w.tabs[i], directory, session_id)
            && has_part(w.tabs[i].timeline.messages(), message_id, part_id)
}

/// An updated part goes into its message wherever its session is shown or
/// cached, with the deltas that waited for it. When its session is known but
/// its message is not yet, it waits for the message. The deltas for it are
/// used up once its session is known.
pub open spec fn part_step(w: WorkspaceView, part: PartView, delta: Option<Seq<char>>, directory: Option<Seq<char>>) -> WorkspaceView {
    let mid = part.message_id;
    let sid = part.session_id;
    let pending = entry_or_empty(w.pending_deltas, mid);
    let cached = w.cache.contains_key(sid);
    let matched_session = part_session_shown(w, directory, sid) || cached;
    let matched_message = message_shown(w, directory, sid, mid) || (cached
        && message_index(w.cache[sid], mid) < w.cache[sid].len());
    let remaining = if matched_session {
        pending.filter(other_delta(part.id))
    } else {
        pending
    };
    WorkspaceView {
        tabs: w.tabs.map_values(|t: TabView| part_tab(t, directory, part, delta, pending)),
        cache: if cached {
            w.cache.insert(sid, with_part(w.cache[sid], part, delta, pending))
        } else {
            w.cache
        },
        pending_parts: if matched_session && !matched_message {
            w.pending_parts.insert(mid, parts_with_part(entry_or_empty(w.pending_parts, mid), part, delta, pending))
        } else {
            w.pending_parts
        },
        pending_deltas: if remaining.len() > 0 {
            w.pending_deltas.insert(mid, remaining)
        } else {
            w.pending_deltas.remove(mid)
        },
        ..w
    }
}

// ---------------------------------------------------------------------------
// Streamed deltas

pub open spec fn delta_tab(tab: TabView, directory: Option<Seq<char>>, session_id: Seq<char>, message_id: Seq<char>, part_id: Seq<char>, field: Seq<char>, delta: Seq<char>) -> TabView {
    if shows(tab, directory, session_id) {
        tab_with_messages(tab, with_delta(tab.timeline.messages(), message_id, part_id, field, delta))
    } else {
        tab
    }
}

/// A streamed delta extends its part wherever the part is shown or cached;
/// when its session is known but the part is not yet, it waits for the part.
pub open spec fn delta_step(w: WorkspaceView, session_id: Seq<char>, message_id: Seq<char>, part_id: Seq<char>, field: Seq<char>, delta: Seq<char>, directory: Option<Seq<char>>) -> WorkspaceView {
    let cached = w.cache.contains_key(session_id);
    let matched_session = part_session_shown(w, directory, session_id) || cached;
    let applied = part_shown(w, directory, session_id, message_id, part_id) || (cached && has_part(w.cache[session_id], message_id, part_id));
    WorkspaceView {
        tabs: w.tabs.map_values(|t: TabView| delta_tab(t, directory, session_id, message_id, part_id, field, delta)),
        cache: if cached {
            w.cache.insert(session_id, with_delta(w.cache[session_id], message_id, part_id, field, delta))
        } else {
            w.cache
        },
        pending_deltas: if matched_session && !applied {
            w.pending_deltas.insert(
                message_id,
                entry_or_empty(w.pending_deltas, message_id).push(PendingDeltaView { part_id, field, delta }),
            )
        } else {
            w.pending_deltas
        },
        ..w
    }
}

// ---------------------------------------------------------------------------
// Sessions

/// Keeps the sessions other than `id`.
pub open spec fn other_session(id: Seq<char>) -> spec_fn(SessionView) -> bool {
    |s: SessionView| s.id != id
}

/// Selects the sessions updated before `updated`.
pub open spec fn older_than(updated: u64) -> spec_fn(SessionView) -> bool {
    |s: SessionView| s.updated < updated
}

/// The sessions with `session` placed before the first one updated earlier
/// than it: a list kept newest first stays so.
pub open spec fn insert_by_recency(sessions: Seq<SessionView>, session: SessionView) -> Seq<SessionView> {
    sessions.insert(first_index(sessions, older_than(session.updated)), session)
}

/// The sessions after `session` was created or updated: its old entry goes,
/// and it takes its place by recency.
pub open spec fn upserted(sessions: Seq<SessionView>, session: SessionView) -> Seq<SessionView> {
    insert_by_recency(sessions.filter(other_session(session.id)), session)
}

pub open spec fn upsert_step(w: WorkspaceView, session: SessionView) -> WorkspaceView {
    match w.sessions {
        Some(list) => WorkspaceView { sessions: Some(upserted(list, session)), ..w },
        None => w,
    }
}

pub open spec fn deleted_tab(tab: TabView, session_id: Seq<char>) -> TabView {
    if tab.timeline.session_id() == Some(session_id) {
        TabView { timeline: TimelineView::Empty, ..tab }
    } else {
        tab
    }
}

/// A deleted session leaves the list, its status is forgotten and the tabs
/// that showed it show nothing.
pub open spec fn delete_step(w: WorkspaceView, session: SessionView) -> WorkspaceView {
    WorkspaceView {
        sessions: match w.sessions {
            Some(list) => Some(list.filter(other_session(session.id))),
            None => None,
        },
        statuses: w.statuses.remove(session.id),
        tabs: w.tabs.map_values(|t: TabView| deleted_tab(t, session.id)),
        ..w
    }
}

pub open spec fn busy_tab(tab: TabView, session_id: Seq<char>) -> TabView {
    if tab.timeline.session_id() == Some(session_id) {
        TabView { prompt_error: None, ..tab }
    } else {
        tab
    }
}

/// A status is recorded; a session that turns busy clears the prompt error of
/// the tabs that show it.
pub open spec fn status_step(w: WorkspaceView, session_id: Seq<char>, status: SessionStatus) -> WorkspaceView {
    WorkspaceView {
        statuses: w.statuses.insert(session_id, status),
        tabs: if status is Busy {
            w.tabs.map_values(|t: TabView| busy_tab(t, session_id))
        } else {
            w.tabs
        },
        ..w
    }
}

/// The state after one event, for events received for `directory` (all
/// directories when none is given).
pub open spec fn step(w: WorkspaceView, event: EventView, directory: Option<Seq<char>>) -> WorkspaceView {
    match event {
        EventView::ServerConnected => w,
        EventView::Unknown { .. } => w,
        EventView::SessionCreated(s) => upsert_step(w, s),
        EventView::SessionUpdated(s) => upsert_step(w, s),
        EventView::SessionDeleted(s) => delete_step(w, s),
        EventView::SessionStatus { session_id, status } => status_step(w, session_id, status),
        EventView::SessionIdle { session_id } => status_step(w, session_id, SessionStatus::Idle),
        EventView::MessageUpdated(info) => message_step(w, info, directory),
        EventView::MessageRemoved { session_id, message_id } => remove_message_step(w, session_id, message_id, directory),
        EventView::MessagePartUpdated { part, delta } => part_step(w, part, delta, directory),
        EventView::MessagePartDelta { session_id, message_id, part_id, field, delta } =>
            delta_step(w, session_id, message_id, part_id, field, delta, directory),
        EventView::MessagePartRemoved { session_id, message_id, part_id } =>
            remove_part_step(w, session_id, message_id, part_id, directory),
    }
}

/// The state after a batch of events, applied in order.
pub open spec fn steps(w: WorkspaceView, events: Seq<EventView>, directory: Option<Seq<char>>) -> WorkspaceView
    decreases events.len(),
{
    if events.len() == 0 {
        w
    } else {
        step(steps(w, events.drop_last(), directory), events.last(), directory)
    }
}

pub open spec fn opt_view(o: Option<&str>) -> Option<Seq<char>> {
    match o {
        Some(s) => Some(s@),
        None => None,
    }
}

/// Whether a tab shows the loaded timeline of `session_id`, for an event
/// scoped to `directory`.
pub fn tab_shows(tab: &DirectoryTimeline, directory: Option<&str>, session_id: &str) -> (r: bool)
    ensures
        r == shows(tab@, opt_view(directory), session_id@),
{
    if let Some(d) = directory {
        if !crate::assoc::str_eq(tab.directory.as_str(), d) {
            return false;
        }
    }
    match &tab.timeline {
        TimelineState::Ready { session_id: s, .. } => crate::assoc::str_eq(s.as_str(), session_id),
        _ => false,
    }
}

impl WorkspaceState {
    /// A workspace whose server has not answered yet.
    pub fn new(tabs: Vec<DirectoryTimeline>) -> (r: Self)
        ensures
            r@.sessions.is_none(),
            r@.statuses == Map::<Seq<char>, SessionStatus>::empty(),
            r@.tabs == tabs_view(tabs@),
            r@.pending_parts == Map::<Seq<char>, Seq<PartView>>::empty(),
            r@.pending_deltas == Map::<Seq<char>, Seq<PendingDeltaView>>::empty(),
            r@.cache == Map::<Seq<char>, Seq<crate::model::MessageRecordView>>::empty(),
            r@.interrupt is None,
    {
        let r = WorkspaceState {
            sessions: None,
            statuses: StrMap::new(),
            tabs,
            pending_parts: StrMap::new(),
            pending_deltas: StrMap::new(),
            cache: TimelineCache::new(),
            interrupt_session: None,
        };
        assert(r@.pending_parts =~= Map::<Seq<char>, Seq<PartView>>::empty());
        assert(r@.pending_deltas =~= Map::<Seq<char>, Seq<PendingDeltaView>>::empty());
        r
    }

    fn update_message(&mut self, info: &Message, directory: Option<&str>)
        ensures
            final(self)@ == message_step(old(self)@, info@, opt_view(directory)),
    {
        let ghost w = self@;
        let ghost dir = opt_view(directory);
        let pending = match self.pending_parts.remove(info.id.as_str()) {
            Some(v) => v,
            None => Vec::new(),
        };
        assert(parts_view(pending@) =~= entry_or_empty(w.pending_parts, info@.id));
        let ghost after_remove = self@;
        let mut i: usize = 0;
        while i < self.tabs.len()
            invariant
                i <= self.tabs@.len(),
                dir == opt_view(directory),
                self.tabs@.len() == w.tabs.len(),
                forall|j: int| 0 <= j < i ==> (#[trigger] self.tabs@[j])@ == message_tab(w.tabs[j], dir, info@, parts_view(pending@)),
                forall|j: int| i <= j < self.tabs@.len() ==> (#[trigger] self.tabs@[j])@ == w.tabs[j],
                self.sessions == old(self).sessions,
                self.statuses@ == after_remove.statuses,
                self.pending_parts@ == old(self).pending_parts@.remove(info@.id),
                self.pending_deltas@ == old(self).pending_deltas@,
                self.cache@ == w.cache,
                self@.interrupt == w.interrupt,
            decreases self.tabs@.len() - i,
        {
            let ghost before = self.tabs@[i as int]@;
            if tab_shows(&self.tabs[i], directory, info.session_id.as_str()) {
                self.tabs[i].timeline.apply_message(info, pending.as_slice());
            }
            assert(self.tabs@[i as int]@ == message_tab(before, dir, info@, parts_view(pending@)));
            i += 1;
        }
        self.cache.update_message(info, pending.as_slice());
        assert(self@.tabs =~= w.tabs.map_values(|t: TabView| message_tab(t, dir, info@, parts_view(pending@))));
        assert(self@.pending_parts =~= w.pending_parts.remove(info@.id));
        assert(self@ == message_step(w, info@, dir));
    }

    fn remove_message(&mut self, session_id: &str, message_id: &str, directory: Option<&str>)
        ensures
            final(self)@ == remove_message_step(old(self)@, session_id@, message_id@, opt_view(directory)),
    {
        let ghost w = self@;
        let ghost dir = opt_view(directory);
        let mut i: usize = 0;
        while i < self.tabs.len()
            invariant
                i <= self.tabs@.len(),
                dir == opt_view(directory),
                self.tabs@.len() == w.tabs.len(),
                forall|j: int| 0 <= j < i ==> (#[trigger] self.tabs@[j])@ == removal_tab(w.tabs[j], dir, session_id@, message_id@),
                forall|j: int| i <= j < self.tabs@.len() ==> (#[trigger] self.tabs@[j])@ == w.tabs[j],
                self.sessions == old(self).sessions,
                self.statuses@ == w.statuses,
                self.pending_parts@ == old(self).pending_parts@,
                self.pending_deltas@ == old(self).pending_deltas@,
                self.cache@ == w.cache,
                self@.interrupt == w.interrupt,
            decreases self.tabs@.len() - i,
        {
            let ghost before = self.tabs@[i as int]@;
            if tab_shows(&self.tabs[i], directory, session_id) {
                self.tabs[i].timeline.remove_message(message_id);
            }
            assert(self.tabs@[i as int]@ == removal_tab(before, dir, session_id@, message_id@));
            i += 1;
        }
        self.cache.remove_message(session_id, message_id);
        assert(self@.tabs =~= w.tabs.map_values(|t: TabView| removal_tab(t, dir, session_id@, message_id@)));
        assert(self@ == remove_message_step(w, session_id@, message_id@, dir));
    }

    fn remove_part(&mut self, session_id: &str, message_id: &str, part_id: &str, directory: Option<&str>)
        ensures
            final(self)@ == remove_part_step(old(self)@, session_id@, message_id@, part_id@, opt_view(directory)),
    {
        let ghost w = self@;
        let ghost dir = opt_view(directory);
        let mut i: usize = 0;
        while i < self.tabs.len()
            invariant
                i <= self.tabs@.len(),
                dir == opt_view(directory),
                self.tabs@.len() == w.tabs.len(),
                forall|j: int| 0 <= j < i ==> (#[trigger] self.tabs@[j])@ == part_removal_tab(w.tabs[j], dir, session_id@, message_id@, part_id@),
                forall|j: int| i <= j < self.tabs@.len() ==> (#[trigger] self.tabs@[j])@ == w.tabs[j],
                self.sessions == old(self).sessions,
                self.statuses@ == w.statuses,
                self.pending_parts@ == old(self).pending_parts@,
                self.pending_deltas@ == old(self).pending_deltas@,
                self.cache@ == w.cache,
                self@.interrupt == w.interrupt,
            decreases self.tabs@.len() - i,
        {
            let ghost before = self.tabs@[i as int]@;
            if tab_shows(&self.tabs[i], directory, session_id) {
                self.tabs[i].timeline.remove_part(message_id, part_id);
            }
            assert(self.tabs@[i as int]@ == part_removal_tab(before, dir, session_id@, message_id@, part_id@));
            i += 1;
        }
        self.cache.remove_part(session_id, message_id, part_id);
        assert(self@.tabs =~= w.tabs.map_values(|t: TabView| part_removal_tab(t, dir, session_id@, message_id@, part_id@)));
        assert(self@ == remove_part_step(w, session_id@, message_id@, part_id@, dir));
    }

    fn update_part(&mut self, part: Part, delta: Option<&str>, directory: Option<&str>)
        ensures
            final(self)@ == part_step(old(self)@, part@, opt_view(delta), opt_view(directory)),
    {
        let ghost w = self@;
        let ghost dir = opt_view(directory);
        let ghost dv = opt_view(delta);
        let ghost sid = part@.session_id;
        let ghost mid = part@.message_id;
        let pending = match self.pending_deltas.remove(part.message_id.as_str()) {
            Some(v) => v,
            None => Vec::new(),
        };
        assert(deltas_view(pending@) =~= entry_or_empty(w.pending_deltas, mid));
        let mut matched_session = false;
        let mut matched_message = false;
        let mut i: usize = 0;
        while i < self.tabs.len()
            invariant
                i <= self.tabs@.len(),
                dir == opt_view(directory),
                dv == opt_view(delta),
                sid == part@.session_id,
                mid == part@.message_id,
                self.tabs@.len() == w.tabs.len(),
                forall|j: int| 0 <= j < i ==> (#[trigger] self.tabs@[j])@ == part_tab(w.tabs[j], dir, part@, dv, deltas_view(pending@)),
                forall|j: int| i <= j < self.tabs@.len() ==> (#[trigger] self.tabs@[j])@ == w.tabs[j],
                matched_session == exists|j: int| 0 <= j < i && shows(#[trigger] w.tabs[j], dir, sid),
                matched_message == exists|j: int|
                    0 <= j < i && shows(#[trigger] w.tabs[j], dir, sid)
                        && message_index(w.tabs[j].timeline.messages(), mid) < w.tabs[j].timeline.messages().len(),
                self.sessions == old(self).sessions,
                self.statuses@ == w.statuses,
                self.pending_parts@ == old(self).pending_parts@,
                self.pending_deltas@ == old(self).pending_deltas@.remove(mid),
                self.cache@ == w.cache,
                self@.interrupt == w.interrupt,
            decreases self.tabs@.len() - i,
        {
            let ghost before = self.tabs@[i as int]@;
            if tab_shows(&self.tabs[i], directory, part.session_id.as_str()) {
                matched_session = true;
                let found = self.tabs[i].timeline.apply_part(&part, delta, pending.as_slice());
                if found {
                    matched_message = true;
                }
            }
            assert(self.tabs@[i as int]@ == part_tab(before, dir, part@, dv, deltas_view(pending@)));
            i += 1;
        }
        assert(matched_session == part_session_shown(w, dir, sid));
        assert(matched_message == message_shown(w, dir, sid, mid));
        let (cached_session, cached_message) = self.cache.update_part(&part, delta, pending.as_slice());
        let session_known = matched_session || cached_session;
        let message_known = matched_message || cached_message;
        if session_known && !message_known {
            let mut parts = match self.pending_parts.remove(part.message_id.as_str()) {
                Some(v) => v,
                None => Vec::new(),
            };
            assert(parts_view(parts@) =~= entry_or_empty(w.pending_parts, mid));
            let ghost start = parts_view(parts@);
            crate::part_merge::merge_part(&mut parts, part.clone(), delta);
            let k = crate::part_merge::find_part(&parts, part.id.as_str());
            if k < parts.len() {
                let ghost merged = parts_view(parts@);
                crate::timeline::apply_pending(&mut parts[k], pending.as_slice());
                assert(parts_view(parts@) =~= merged.update(
                    k as int,
                    crate::timeline::apply_deltas(merged[k as int], deltas_view(pending@)),
                ));
            }
            assert(parts_view(parts@) == parts_with_part(start, part@, dv, deltas_view(pending@)));
            self.pending_parts.insert(part.message_id.clone(), parts);
        }
        let ghost pending_view = deltas_view(pending@);
        let remaining = if session_known {
            let ghost pred = other_delta(part@.id);
            let mut kept: Vec<PendingDelta> = Vec::new();
            let mut j: usize = 0;
            while j < pending.len()
                invariant
                    j <= pending@.len(),
                    pred == other_delta(part@.id),
                    deltas_view(kept@) == deltas_view(pending@).take(j as int).filter(pred),
                decreases pending@.len() - j,
            {
                proof {
                    assert(deltas_view(pending@).take(j + 1) =~= deltas_view(pending@).take(j as int).push(pending@[j as int]@));
                    lemma_filter_push(deltas_view(pending@).take(j as int), pending@[j as int]@, pred);
                }
                if !crate::assoc::str_eq(pending[j].part_id.as_str(), part.id.as_str()) {
                    kept.push(pending[j].clone());
                    assert(deltas_view(kept@) =~= deltas_view(pending@).take(j as int).filter(pred).push(pending@[j as int]@));
                }
                j += 1;
            }
            assert(deltas_view(pending@).take(pending@.len() as int) =~= deltas_view(pending@));
            kept
        } else {
            pending
        };
        if remaining.len() > 0 {
            self.pending_deltas.insert(part.message_id.clone(), remaining);
        }
        proof {
            assert(self@.tabs =~= w.tabs.map_values(|t: TabView| part_tab(t, dir, part@, dv, pending_view)));
            assert(self@.pending_deltas =~= part_step(w, part@, dv, dir).pending_deltas);
            assert(self@.pending_parts =~= part_step(w, part@, dv, dir).pending_parts);
            assert(self@ == part_step(w, part@, dv, dir));
        }
    }

    fn upsert_session(&mut self, session: Session)
        ensures
            final(self)@ == upsert_step(old(self)@, session@),
    {
        let ghost w = self@;
        let Some(list) = &self.sessions else {
            return;
        };
        let ghost pred = other_session(session@.id);
        let mut kept: Vec<Session> = Vec::new();
        let mut i: usize = 0;
        while i < list.len()
            invariant
                i <= list@.len(),
                pred == other_session(session@.id),
                sessions_view(kept@) == sessions_view(list@).take(i as int).filter(pred),
            decreases list@.len() - i,
        {
            proof {
                assert(sessions_view(list@).take(i + 1) =~= sessions_view(list@).take(i as int).push(list@[i as int]@));
                lemma_filter_push(sessions_view(list@).take(i as int), list@[i as int]@, pred);
            }
            if !crate::assoc::str_eq(list[i].id.as_str(), session.id.as_str()) {
                kept.push(list[i].clone());
                assert(sessions_view(kept@) =~= sessions_view(list@).take(i as int).filter(pred).push(list@[i as int]@));
            }
            i += 1;
        }
        assert(sessions_view(list@).take(list@.len() as int) =~= sessions_view(list@));
        let ghost older = older_than(session@.updated);
        let mut k: usize = 0;
        while k < kept.len() && !(kept[k].updated < session.updated)
            invariant
                k <= kept@.len(),
                older == older_than(session@.updated),
                forall|j: int| 0 <= j < k ==> !older(#[trigger] sessions_view(kept@)[j]),
            decreases kept@.len() - k,
        {
            k += 1;
        }
        proof {
            lemma_first_index_at(sessions_view(kept@), older, k as int);
        }
        let ghost kept_view = sessions_view(kept@);
        kept.insert(k, session);
        assert(sessions_view(kept@) =~= kept_view.insert(k as int, kept@[k as int]@));
        self.sessions = Some(kept);
    }

    fn delete_session(&mut self, session: &Session)
        ensures
            final(self)@ == delete_step(old(self)@, session@),
    {
        let ghost w = self@;
        if let Some(list) = &self.sessions {
            let ghost pred = other_session(session@.id);
            let mut kept: Vec<Session> = Vec::new();
            let mut i: usize = 0;
            while i < list.len()
                invariant
                    i <= list@.len(),
                    pred == other_session(session@.id),
                    sessions_view(kept@) == sessions_view(list@).take(i as int).filter(pred),
                decreases list@.len() - i,
            {
                proof {
                    assert(sessions_view(list@).take(i + 1) =~= sessions_view(list@).take(i as int).push(list@[i as int]@));
                    lemma_filter_push(sessions_view(list@).take(i as int), list@[i as int]@, pred);
                }
                if !crate::assoc::str_eq(list[i].id.as_str(), session.id.as_str()) {
                    kept.push(list[i].clone());
                    assert(sessions_view(kept@) =~= sessions_view(list@).take(i as int).filter(pred).push(list@[i as int]@));
                }
                i += 1;
            }
            assert(sessions_view(list@).take(list@.len() as int) =~= sessions_view(list@));
            self.sessions = Some(kept);
        }
        let _ = self.statuses.remove(session.id.as_str());
        let mut i: usize = 0;
        while i < self.tabs.len()
            invariant
                i <= self.tabs@.len(),
                self.tabs@.len() == w.tabs.len(),
                forall|j: int| 0 <= j < i ==> (#[trigger] self.tabs@[j])@ == deleted_tab(w.tabs[j], session@.id),
                forall|j: int| i <= j < self.tabs@.len() ==> (#[trigger] self.tabs@[j])@ == w.tabs[j],
                self@.sessions == delete_step(w, session@).sessions,
                self.statuses@ == w.statuses.remove(session@.id),
                self.pending_parts@ == old(self).pending_parts@,
                self.pending_deltas@ == old(self).pending_deltas@,
                self.cache@ == w.cache,
                self@.interrupt == w.interrupt,
            decreases self.tabs@.len() - i,
        {
            let same = match self.tabs[i].timeline.session_id() {
                Some(id) => crate::assoc::str_eq(id, session.id.as_str()),
                None => false,
            };
            if same {
                self.tabs[i].timeline = TimelineState::Empty;
            }
            i += 1;
        }
        assert(self@.tabs =~= w.tabs.map_values(|t: TabView| deleted_tab(t, session@.id)));
        assert(self@ == delete_step(w, session@));
    }

    fn set_status(&mut self, session_id: String, status: SessionStatus)
        ensures
            final(self)@ == status_step(old(self)@, session_id@, status),
    {
        let ghost w = self@;
        if status.is_busy() {
            let mut i: usize = 0;
            while i < self.tabs.len()
                invariant
                    i <= self.tabs@.len(),
                    self.tabs@.len() == w.tabs.len(),
                    forall|j: int| 0 <= j < i ==> (#[trigger] self.tabs@[j])@ == busy_tab(w.tabs[j], session_id@),
                    forall|j: int| i <= j < self.tabs@.len() ==> (#[trigger] self.tabs@[j])@ == w.tabs[j],
                    self.sessions == old(self).sessions,
                    self.statuses@ == w.statuses,
                    self.pending_parts@ == old(self).pending_parts@,
                    self.pending_deltas@ == old(self).pending_deltas@,
                    self.cache@ == w.cache,
                    self@.interrupt == w.interrupt,
                decreases self.tabs@.len() - i,
            {
                let same = match self.tabs[i].timeline.session_id() {
                    Some(id) => crate::assoc::str_eq(id, session_id.as_str()),
                    None => false,
                };
                if same {
                    self.tabs[i].prompt_error = None;
                }
                i += 1;
            }
            assert(self@.tabs =~= w.tabs.map_values(|t: TabView| busy_tab(t, session_id@)));
        }
        self.statuses.insert(session_id, status);
        assert(self@ == status_step(w, session_id@, status));
    }

    /// Applies one event of the server's stream, received for `directory`
    /// (for every directory when none is given).
    pub fn apply_event(&mut self, event: Event, directory: Option<&str>)
        ensures
            final(self)@ == step(old(self)@, event@, opt_view(directory)),
    {
        match event {
            Event::ServerConnected => {},
            Event::Unknown(_) => {},
            Event::SessionCreated(session) => self.upsert_session(session),
            Event::SessionUpdated(session) => self.upsert_session(session),
            Event::SessionDeleted(session) => self.delete_session(&session),
            Event::SessionStatus { session_id, status } => self.set_status(session_id, status),
            Event::SessionIdle { session_id } => self.set_status(session_id, SessionStatus::Idle),
            Event::MessageUpdated(info) => self.update_message(&info, directory),
            Event::MessageRemoved { session_id, message_id } => self.remove_message(
                session_id.as_str(),
                message_id.as_str(),
                directory,
            ),
            Event::MessagePartUpdated { part, delta } => {
                match delta {
                    Some(d) => self.update_part(part, Some(d.as_str()), directory),
                    None => self.update_part(part, None, directory),
                }
            },
            Event::MessagePartDelta { session_id, message_id, part_id, field, delta } => self.update_part_delta(
                session_id.as_str(),
                message_id.as_str(),
                part_id.as_str(),
                field.as_str(),
                delta,
                directory,
            ),
            Event::MessagePartRemoved { session_id, message_id, part_id } => self.remove_part(
                session_id.as_str(),
                message_id.as_str(),
                part_id.as_str(),
                directory,
            ),
        }
    }

    /// Applies a batch of events in order.
    pub fn apply_events(&mut self, events: Vec<Event>, directory: Option<&str>)
        ensures
            final(self)@ == steps(old(self)@, events@.map_values(|e: Event| e@), opt_view(directory)),
    {
        let ghost all = events@.map_values(|e: Event| e@);
        let ghost start = self@;
        let mut events = events;
        let ghost incoming = events@;
        let total = events.len();
        let mut applied: usize = 0;
        while events.len() > 0
            invariant
                all == incoming.map_values(|e: Event| e@),
                events@.len() + applied == incoming.len(),
                incoming.len() == total,
                events@ == incoming.subrange(applied as int, incoming.len() as int),
                self@ == steps(start, all.take(applied as int), opt_view(directory)),
            decreases events@.len(),
        {
            let event = events.remove(0);
            proof {
                assert(all.take(applied + 1).drop_last() =~= all.take(applied as int));
                assert(event == incoming[applied as int]);
            }
            self.apply_event(event, directory);
            applied += 1;
            assert(events@ =~= incoming.subrange(applied as int, incoming.len() as int));
        }
        assert(all.take(all.len() as int) =~= all);
    }

    fn update_part_delta(
        &mut self,
        session_id: &str,
        message_id: &str,
        part_id: &str,
        field: &str,
        delta: String,
        directory: Option<&str>,
    )
        ensures
            final(self)@ == delta_step(old(self)@, session_id@, message_id@, part_id@, field@, delta@, opt_view(directory)),
    {
        let ghost w = self@;
        let ghost dir = opt_view(directory);
        let mut matched_session = false;
        let mut applied = false;
        let mut i: usize = 0;
        while i < self.tabs.len()
            invariant
                i <= self.tabs@.len(),
                dir == opt_view(directory),
                self.tabs@.len() == w.tabs.len(),
                forall|j: int| 0 <= j < i ==> (#[trigger] self.tabs@[j])@ == delta_tab(w.tabs[j], dir, session_id@, message_id@, part_id@, field@, delta@),
                forall|j: int| i <= j < self.tabs@.len() ==> (#[trigger] self.tabs@[j])@ == w.tabs[j],
                matched_session == exists|j: int| 0 <= j < i && shows(#[trigger] w.tabs[j], dir, session_id@),
                applied == exists|j: int|
                    0 <= j < i && shows(#[trigger] w.tabs[j], dir, session_id@)
                        && has_part(w.tabs[j].timeline.messages(), message_id@, part_id@),
                self.sessions == old(self).sessions,
                self.statuses@ == w.statuses,
                self.pending_parts@ == old(self).pending_parts@,
                self.pending_deltas@ == old(self).pending_deltas@,
                self.cache@ == w.cache,
                self@.interrupt == w.interrupt,
            decreases self.tabs@.len() - i,
        {
            let ghost before = self.tabs@[i as int]@;
            if tab_shows(&self.tabs[i], directory, session_id) {
                matched_session = true;
                if self.tabs[i].timeline.apply_delta(message_id, part_id, field, delta.as_str()) {
                    applied = true;
                }
            }
            assert(self.tabs@[i as int]@ == delta_tab(before, dir, session_id@, message_id@, part_id@, field@, delta@));
            i += 1;
        }
        assert(matched_session == part_session_shown(w, dir, session_id@));
        assert(applied == part_shown(w, dir, session_id@, message_id@, part_id@));
        let (cached_session, cached_part) = self.cache.update_delta(session_id, message_id, part_id, field, delta.as_str());
        if (matched_session || cached_session) && !(applied || cached_part) {
            let mut deltas = match self.pending_deltas.remove(message_id) {
                Some(v) => v,
                None => Vec::new(),
            };
            assert(deltas_view(deltas@) =~= entry_or_empty(w.pending_deltas, message_id@));
            let ghost start = deltas_view(deltas@);
            deltas.push(PendingDelta {
                part_id: String::from_str(part_id),
                field: String::from_str(field),
                delta,
            });
            assert(deltas_view(deltas@) =~= start.push(PendingDeltaView { part_id: part_id@, field: field@, delta: deltas@.last().delta@ }));
            self.pending_deltas.insert(String::from_str(message_id), deltas);
        }
        proof {
            assert(self@.tabs =~= w.tabs.map_values(|t: TabView| delta_tab(t, dir, session_id@, message_id@, part_id@, field@, delta@)));
            assert(self@.pending_deltas =~= delta_step(w, session_id@, message_id@, part_id@, field@, delta@, dir).pending_deltas);
            assert(self@ == delta_step(w, session_id@, message_id@, part_id@, field@, delta@, dir));
        }
    }
}

} // verus!
