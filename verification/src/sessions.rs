use vstd::prelude::*;

use crate::assoc::str_eq;
use crate::text::strings_view;
use crate::event::SessionStatus;
use crate::model::{sessions_view, MessageRecord, Session, SessionView};
use crate::seqs::{first_index, lemma_filter_push, lemma_first_index_at, wrap_index};
use crate::timeline::{TimelineState, TimelineView, MESSAGE_PAGE};
use crate::workspace::{tabs_view, TabView, WorkspaceState, WorkspaceView};

verus! {

/// Selects the root sessions of a directory.
pub open spec fn root_in(directory: Seq<char>) -> spec_fn(SessionView) -> bool {
    |s: SessionView| s.is_root_in(directory)
}

/// The root sessions of a directory, in list order.
pub open spec fn roots_of(w: WorkspaceView, directory: Seq<char>) -> Seq<SessionView> {
    match w.sessions {
        Some(list) => list.filter(root_in(directory)),
        None => Seq::empty(),
    }
}

/// Selects the session with the given id.
pub open spec fn has_session_id(id: Seq<char>) -> spec_fn(SessionView) -> bool {
    |s: SessionView| s.id == id
}

/// The root session of `directory` that is `delta` places after the selected
/// one (the first when none is selected or it is not a root), wrapping around;
/// none when the directory has no root session.
pub open spec fn session_after_of(
    w: WorkspaceView,
    directory: Seq<char>,
    selected: Option<Seq<char>>,
    delta: int,
) -> Option<SessionView> {
    let roots = roots_of(w, directory);
    if roots.len() == 0 {
        None
    } else {
        let current = match selected {
            Some(id) => {
                let i = first_index(roots, has_session_id(id));
                if i < roots.len() {
                    i
                } else {
                    0
                }
            },
            None => 0,
        };
        Some(roots[(current + delta) % (roots.len() as int)])
    }
}

/// Whether the status of a session says it works or waits to retry.
pub open spec fn active_in(w: WorkspaceView, session: SessionView) -> bool {
    w.statuses.contains_key(session.id) && w.statuses[session.id].spec_is_active()
}

/// Whether one of the first `n` sessions of the list belongs to `directory`
/// and is active.
pub open spec fn busy_among(w: WorkspaceView, list: Seq<SessionView>, n: int, directory: Seq<char>) -> bool {
    exists|k: int| 0 <= k < n && #[trigger] list[k].directory == directory && active_in(w, list[k])
}

proof fn lemma_busy_among_step(w: WorkspaceView, list: Seq<SessionView>, i: int, directory: Seq<char>)
    requires
        0 <= i < list.len(),
    ensures
        busy_among(w, list, i + 1, directory) == (busy_among(w, list, i, directory) || (
        list[i].directory == directory && active_in(w, list[i]))),
{
    if busy_among(w, list, i + 1, directory) {
        let k = choose|k: int| 0 <= k < i + 1 && #[trigger] list[k].directory == directory && active_in(w, list[k]);
        if k < i {
            assert(busy_among(w, list, i, directory));
        }
    }
    if busy_among(w, list, i, directory) {
        let k = choose|k: int| 0 <= k < i && #[trigger] list[k].directory == directory && active_in(w, list[k]);
        assert(0 <= k < i + 1 && list[k].directory == directory && active_in(w, list[k]));
    }
    if list[i].directory == directory && active_in(w, list[i]) {
        assert(0 <= i < i + 1 && list[i].directory == directory && active_in(w, list[i]));
    }
}

/// Whether a session of `directory` works or waits to retry.
pub open spec fn has_busy_session(w: WorkspaceView, directory: Seq<char>) -> bool {
    match w.sessions {
        Some(list) => busy_among(w, list, list.len() as int, directory),
        None => false,
    }
}

/// The first tab of a directory, or the number of tabs.
pub open spec fn tab_index(tabs: Seq<TabView>, directory: Seq<char>) -> int {
    first_index(tabs, |t: TabView| t.directory == directory)
}

/// The workspace with tab `i` replaced.
pub open spec fn with_tab(w: WorkspaceView, i: int, tab: TabView) -> WorkspaceView {
    WorkspaceView { tabs: w.tabs.update(i, tab), ..w }
}

/// A tab that opens session `session_id`: from its cached latest page,
/// shown at once, when the cache holds it, else loading; either way from its
/// latest page, following its tail, with the inspector closed and no part
/// opened or closed by hand.
pub open spec fn loading_tab(
    tab: TabView,
    session_id: Seq<char>,
    title: Seq<char>,
    cache: Map<Seq<char>, Seq<crate::model::MessageRecordView>>,
) -> TabView {
    TabView {
        timeline: if cache.contains_key(session_id) {
            TimelineView::Ready { session_id, title, messages: cache[session_id] }
        } else {
            TimelineView::Loading { session_id, title }
        },
        message_limit: MESSAGE_PAGE,
        history_loading: false,
        history_exhausted: false,
        follow_tail: true,
        selected_part: None,
        expanded_parts: Seq::empty(),
        collapsed_parts: Seq::empty(),
        ..tab
    }
}

/// The workspace once the tab of `directory` opened session `session_id`:
/// that tab opens it, and a pending interrupt is dropped.
pub open spec fn session_opened(w: WorkspaceView, i: int, session_id: Seq<char>, title: Seq<char>) -> WorkspaceView {
    WorkspaceView {
        interrupt: None,
        ..with_tab(w, i, loading_tab(w.tabs[i], session_id, title, w.cache))
    }
}

pub(crate) fn find_tab(tabs: &Vec<crate::workspace::DirectoryTimeline>, directory: &str) -> (r: usize)
    ensures
        r == tab_index(tabs_view(tabs@), directory@),
        r <= tabs@.len(),
{
    let ghost pred = |t: TabView| t.directory == directory@;
    let mut i: usize = 0;
    while i < tabs.len()
        invariant
            i <= tabs@.len(),
            pred == (|t: TabView| t.directory == directory@),
            forall|j: int| 0 <= j < i ==> !pred(#[trigger] tabs_view(tabs@)[j]),
        decreases tabs@.len() - i,
    {
        if str_eq(tabs[i].directory.as_str(), directory) {
            proof {
                assert(pred(tabs_view(tabs@)[i as int]));
                lemma_first_index_at(tabs_view(tabs@), pred, i as int);
            }
            return i;
        }
        assert(!pred(tabs_view(tabs@)[i as int]));
        i += 1;
    }
    proof {
        lemma_first_index_at(tabs_view(tabs@), pred, i as int);
    }
    i
}

impl WorkspaceState {
    /// The number of root sessions of a directory.
    pub fn directory_session_count(&self, directory: &str) -> (r: usize)
        ensures
            r == roots_of(self@, directory@).len(),
    {
        match &self.sessions {
            None => 0,
            Some(list) => {
                let ghost pred = root_in(directory@);
                let mut count: usize = 0;
                let mut i: usize = 0;
                while i < list.len()
                    invariant
                        i <= list@.len(),
                        pred == root_in(directory@),
                        count == sessions_view(list@).take(i as int).filter(pred).len(),
                        count <= i,
                    decreases list@.len() - i,
                {
                    proof {
                        lemma_filter_push(sessions_view(list@).take(i as int), list@[i as int]@, pred);
                        assert(sessions_view(list@).take(i + 1) =~= sessions_view(list@).take(
                            i as int,
                        ).push(list@[i as int]@));
                    }
                    if list[i].parent_id.is_none() && str_eq(list[i].directory.as_str(), directory) {
                        count += 1;
                    }
                    i += 1;
                }
                assert(sessions_view(list@).take(list@.len() as int) =~= sessions_view(list@));
                count
            },
        }
    }

    /// The root session `delta` places from the selected one in a
    /// directory's session list, wrapping around.
    pub fn session_after(&self, directory: &str, selected: Option<&str>, delta: isize) -> (r: Option<Session>)
        requires
            roots_of(self@, directory@).len() <= isize::MAX,
            roots_of(self@, directory@).len() + delta <= isize::MAX + 1,
        ensures
            match r {
                Some(s) => session_after_of(self@, directory@, crate::workspace::opt_view(selected), delta as int) == Some(s@),
                None => session_after_of(self@, directory@, crate::workspace::opt_view(selected), delta as int) is None,
            },
    {
        let list = match &self.sessions {
            Some(list) => list,
            None => return None,
        };
        let ghost pred = root_in(directory@);
        let mut roots: Vec<usize> = Vec::new();
        let mut i: usize = 0;
        while i < list.len()
            invariant
                i <= list@.len(),
                pred == root_in(directory@),
                roots@.len() == sessions_view(list@).take(i as int).filter(pred).len(),
                forall|k: int| 0 <= k < roots@.len() ==> #[trigger] roots@[k] < i && sessions_view(list@).take(i as int).filter(pred)[k] == list@[roots@[k] as int]@,
            decreases list@.len() - i,
        {
            let ghost before = roots@;
            proof {
                lemma_filter_push(sessions_view(list@).take(i as int), list@[i as int]@, pred);
                assert(sessions_view(list@).take(i + 1) =~= sessions_view(list@).take(i as int).push(
                    list@[i as int]@,
                ));
            }
            if list[i].parent_id.is_none() && str_eq(list[i].directory.as_str(), directory) {
                roots.push(i);
            }
            i += 1;
        }
        assert(sessions_view(list@).take(list@.len() as int) =~= sessions_view(list@));
        let ghost all_roots = sessions_view(list@).filter(pred);
        assert(all_roots == roots_of(self@, directory@));
        assert forall|k: int| 0 <= k < roots@.len() implies #[trigger] roots@[k] < list@.len() && all_roots[k] == list@[roots@[k] as int]@ by {
            assert(roots@[k] < i);
        }
        let n = roots.len();
        if n == 0 {
            return None;
        }
        let mut current: usize = 0;
        match selected {
            Some(id) => {
                let ghost wanted = has_session_id(id@);
                let mut j: usize = 0;
                while j < n
                    invariant
                        j <= n,
                        n == roots@.len(),
                        n == all_roots.len(),
                        wanted == has_session_id(id@),
                        forall|k: int| 0 <= k < n ==> #[trigger] roots@[k] < list@.len() && all_roots[k] == list@[roots@[k] as int]@,
                        forall|k: int| 0 <= k < j ==> !wanted(#[trigger] all_roots[k]),
                    ensures
                        j <= n,
                        j < n ==> wanted(all_roots[j as int]),
                        forall|k: int| 0 <= k < j ==> !wanted(#[trigger] all_roots[k]),
                    decreases n - j,
                {
                    if str_eq(list[roots[j]].id.as_str(), id) {
                        assert(wanted(all_roots[j as int]));
                        break;
                    }
                    assert(!wanted(all_roots[j as int]));
                    j += 1;
                }
                proof {
                    lemma_first_index_at(all_roots, wanted, j as int);
                }
                if j < n {
                    current = j;
                }
            },
            None => {},
        }
        let next = wrap_index(current, delta, n);
        assert(all_roots[next as int] == list@[roots@[next as int] as int]@);
        Some(list[roots[next]].clone())
    }

    /// The directories with a session that works or waits to retry, each
    /// once.
    pub fn busy_directories(&self) -> (r: Vec<String>)
        ensures
            forall|d: Seq<char>| #[trigger] strings_view(r@).contains(d) <==> has_busy_session(self@, d),
            strings_view(r@).no_duplicates(),
    {
        let mut out: Vec<String> = Vec::new();
        let list = match &self.sessions {
            Some(list) => list,
            None => {
                assert(strings_view(out@) =~= Seq::<Seq<char>>::empty());
                return out;
            },
        };
        let mut i: usize = 0;
        while i < list.len()
            invariant
                i <= list@.len(),
                self.sessions == Some(*list),
                forall|d: Seq<char>| #[trigger] strings_view(out@).contains(d) <==> busy_among(self@, sessions_view(list@), i as int, d),
                strings_view(out@).no_duplicates(),
            decreases list@.len() - i,
        {
            let ghost before = strings_view(out@);
            let session = &list[i];
            let active = match self.statuses.get(session.id.as_str()) {
                Some(status) => status.is_active(),
                None => false,
            };
            assert(sessions_view(list@)[i as int] == session@);
            if active {
                let mut seen = false;
                let mut k: usize = 0;
                while k < out.len()
                    invariant
                        k <= out@.len(),
                        seen == exists|m: int| 0 <= m < k && out@[m]@ == session.directory@,
                    decreases out@.len() - k,
                {
                    if str_eq(out[k].as_str(), session.directory.as_str()) {
                        seen = true;
                    }
                    k += 1;
                }
                if !seen {
                    out.push(session.directory.clone());
                    proof {
                        assert(strings_view(out@) =~= before.push(session.directory@));
                        assert forall|m: int| 0 <= m < before.len() implies before[m] != session.directory@ by {
                            assert(before[m] == out@[m]@);
                        }
                    }
                } else {
                    proof {
                        let m = choose|m: int| 0 <= m < out@.len() && out@[m]@ == session.directory@;
                        assert(before[m] == session.directory@);
                    }
                }
            }
            proof {
                let after = strings_view(out@);
                let dir = session.directory@;
                assert(active == active_in(self@, sessions_view(list@)[i as int]));
                assert forall|d: Seq<char>| #[trigger] after.contains(d) <==> busy_among(self@, sessions_view(list@), i + 1, d) by {
                    lemma_busy_among_step(self@, sessions_view(list@), i as int, d);
                    if active {
                        if before.contains(dir) {
                            assert(after == before);
                        } else {
                            assert(after == before.push(dir));
                            assert(after[after.len() - 1] == dir);
                            if after.contains(d) && d != dir {
                                let m = choose|m: int| 0 <= m < after.len() && after[m] == d;
                                assert(m < before.len());
                                assert(before[m] == d);
                            }
                            if before.contains(d) {
                                let m = choose|m: int| 0 <= m < before.len() && before[m] == d;
                                assert(after[m] == d);
                            }
                        }
                    } else {
                        assert(after == before);
                    }
                }
            }
            i += 1;
        }
        assert(self@.sessions == Some(sessions_view(list@)));
        out
    }

    /// Starts loading session `session_id` in the tab of `directory`: the tab
    /// shows its cached latest page at once when there is one, else shows it
    /// as loading, its inspector closed; a pending interrupt is dropped. The
    /// caller loads the latest page either way. Returns false, changing
    /// nothing, when there is no such tab or it already shows that session.
    pub fn begin_session_load(&mut self, directory: &str, session_id: &str, title: &str) -> (r: bool)
        ensures
            ({
                let i = tab_index(old(self)@.tabs, directory@);
                if i < old(self)@.tabs.len() && old(self)@.tabs[i].timeline.session_id() != Some(session_id@) {
                    r && final(self)@ == session_opened(old(self)@, i, session_id@, title@)
                } else {
                    !r && final(self)@ == old(self)@
                }
            }),
    {
        let i = find_tab(&self.tabs, directory);
        if i >= self.tabs.len() {
            return false;
        }
        let shows = match self.tabs[i].timeline.session_id() {
            Some(current) => str_eq(current, session_id),
            None => false,
        };
        if shows {
            return false;
        }
        let timeline = match self.cache.get(session_id) {
            Some(cached) => TimelineState::Ready {
                session_id: session_id.to_owned(),
                title: title.to_owned(),
                messages: crate::model::clone_records(cached.as_slice()),
            },
            None => TimelineState::Loading { session_id: session_id.to_owned(), title: title.to_owned() },
        };
        let ghost before = self.tabs@;
        let tab = &mut self.tabs[i];
        tab.timeline = timeline;
        tab.message_limit = MESSAGE_PAGE;
        tab.history_loading = false;
        tab.history_exhausted = false;
        tab.follow_tail = true;
        tab.selected_part = None;
        tab.expanded_parts = Vec::new();
        tab.collapsed_parts = Vec::new();
        assert(self.tabs@[i as int]@ =~= loading_tab(tabs_view(before)[i as int], session_id@, title@, self@.cache));
        assert(tabs_view(self.tabs@) =~= tabs_view(before).update(i as int, loading_tab(tabs_view(before)[i as int], session_id@, title@, self@.cache)));
        self.interrupt_session = None;
        true
    }

    /// Takes the answer to the load of session `session_id` in the tab of
    /// `directory`: its messages (the tab knows its history is complete when
    /// fewer than a page came) or why it failed. An answer for a tab that has
    /// moved on is ignored (false).
    pub fn finish_session_load(
        &mut self,
        directory: &str,
        session_id: &str,
        title: &str,
        result: Result<Vec<MessageRecord>, String>,
    ) -> (r: bool)
        ensures
            ({
                let i = tab_index(old(self)@.tabs, directory@);
                if i < old(self)@.tabs.len() && old(self)@.tabs[i].timeline.session_id() == Some(session_id@) {
                    r && final(self)@ == with_tab(old(self)@, i, match result {
                        Ok(messages) => TabView {
                            timeline: TimelineView::Ready {
                                session_id: session_id@,
                                title: title@,
                                messages: crate::model::records_view(messages@),
                            },
                            history_exhausted: messages@.len() < MESSAGE_PAGE,
                            ..old(self)@.tabs[i]
                        },
                        Err(error) => TabView {
                            timeline: TimelineView::Failed {
                                session_id: session_id@,
                                title: title@,
                                error: error@,
                            },
                            ..old(self)@.tabs[i]
                        },
                    })
                } else {
                    !r && final(self)@ == old(self)@
                }
            }),
    {
        let i = find_tab(&self.tabs, directory);
        if i >= self.tabs.len() {
            return false;
        }
        let shows = match self.tabs[i].timeline.session_id() {
            Some(current) => str_eq(current, session_id),
            None => false,
        };
        if !shows {
            return false;
        }
        let ghost before = self.tabs@;
        let ghost result_view = match &result {
            Ok(messages) => Ok(crate::model::records_view(messages@)),
            Err(error) => Err(error@),
        };
        let tab = &mut self.tabs[i];
        match result {
            Ok(messages) => {
                tab.history_exhausted = messages.len() < MESSAGE_PAGE;
                tab.timeline = TimelineState::Ready {
                    session_id: session_id.to_owned(),
                    title: title.to_owned(),
                    messages,
                };
            },
            Err(error) => {
                tab.timeline = TimelineState::Failed {
                    session_id: session_id.to_owned(),
                    title: title.to_owned(),
                    error,
                };
            },
        }
        assert(tabs_view(self.tabs@) =~= tabs_view(before).update(i as int, tabs_view(self.tabs@)[i as int]));
        true
    }
}

/// Whether a tab belongs to `directory` and shows session `session_id`.
pub open spec fn shows_session(directory: Seq<char>, session_id: Seq<char>) -> spec_fn(TabView) -> bool {
    |t: TabView| t.directory == directory && t.timeline.session_id() == Some(session_id)
}

/// How many messages a refresh of session `session_id` after it went idle
/// reads for the tab of `directory`: the tab's limit when it shows the
/// session, a page when the session is cached; none when neither, or when
/// there is no such tab.
pub open spec fn idle_limit_of(w: WorkspaceView, directory: Seq<char>, session_id: Seq<char>) -> Option<usize> {
    let i = tab_index(w.tabs, directory);
    if i < w.tabs.len() {
        if w.tabs[i].timeline.session_id() == Some(session_id) {
            Some(w.tabs[i].message_limit)
        } else if w.cache.contains_key(session_id) {
            Some(MESSAGE_PAGE)
        } else {
            None
        }
    } else {
        None
    }
}

/// The workspace after the messages of session `session_id`, read again
/// after it went idle, arrived for `directory`: the cache takes them, and the
/// tab that shows the session shows them. Nothing changes when no tab of the
/// directory is left, or when the session is neither shown there nor cached.
pub open spec fn idle_refreshed(
    w: WorkspaceView,
    directory: Seq<char>,
    session_id: Seq<char>,
    messages: Seq<crate::model::MessageRecordView>,
) -> WorkspaceView {
    let has_tab = tab_index(w.tabs, directory) < w.tabs.len();
    let shown = first_index(w.tabs, shows_session(directory, session_id));
    if !has_tab || (shown >= w.tabs.len() && !w.cache.contains_key(session_id)) {
        w
    } else {
        let cached = WorkspaceView {
            cache: w.cache.insert(session_id, crate::timeline::last_page(messages)),
            ..w
        };
        if shown < w.tabs.len() && w.tabs[shown].timeline is Ready {
            with_tab(cached, shown, crate::workspace::tab_with_messages(w.tabs[shown], messages))
        } else {
            cached
        }
    }
}

/// Whether the refresh changed what a tab shows.
pub open spec fn idle_refresh_shows_change(
    w: WorkspaceView,
    directory: Seq<char>,
    session_id: Seq<char>,
    messages: Seq<crate::model::MessageRecordView>,
) -> bool {
    let shown = first_index(w.tabs, shows_session(directory, session_id));
    shown < w.tabs.len() && match w.tabs[shown].timeline {
        TimelineView::Ready { messages: current, .. } => current != messages,
        _ => false,
    }
}

fn find_shown_tab(tabs: &Vec<crate::workspace::DirectoryTimeline>, directory: &str, session_id: &str) -> (r: usize)
    ensures
        r == first_index(tabs_view(tabs@), shows_session(directory@, session_id@)),
        r <= tabs@.len(),
{
    let ghost pred = shows_session(directory@, session_id@);
    let mut i: usize = 0;
    while i < tabs.len()
        invariant
            i <= tabs@.len(),
            pred == shows_session(directory@, session_id@),
            forall|j: int| 0 <= j < i ==> !pred(#[trigger] tabs_view(tabs@)[j]),
        decreases tabs@.len() - i,
    {
        let shows = str_eq(tabs[i].directory.as_str(), directory) && match tabs[i].timeline.session_id() {
            Some(current) => str_eq(current, session_id),
            None => false,
        };
        if shows {
            proof {
                assert(pred(tabs_view(tabs@)[i as int]));
                lemma_first_index_at(tabs_view(tabs@), pred, i as int);
            }
            return i;
        }
        assert(!pred(tabs_view(tabs@)[i as int]));
        i += 1;
    }
    proof {
        lemma_first_index_at(tabs_view(tabs@), pred, i as int);
    }
    i
}

impl WorkspaceState {
    /// How many messages to read again for session `session_id` of
    /// `directory` once it went idle, if it is to be read at all.
    pub fn idle_refresh_limit(&self, directory: &str, session_id: &str) -> (r: Option<usize>)
        ensures
            r == idle_limit_of(self@, directory@, session_id@),
    {
        let i = find_tab(&self.tabs, directory);
        if i >= self.tabs.len() {
            return None;
        }
        let shows = match self.tabs[i].timeline.session_id() {
            Some(current) => str_eq(current, session_id),
            None => false,
        };
        if shows {
            Some(self.tabs[i].message_limit)
        } else if self.cache.contains(session_id) {
            Some(MESSAGE_PAGE)
        } else {
            None
        }
    }

    /// Takes the messages of session `session_id`, read again after it went
    /// idle; returns whether what a tab shows changed.
    pub fn apply_idle_refresh(&mut self, directory: &str, session_id: &str, messages: Vec<MessageRecord>) -> (changed: bool)
        ensures
            final(self)@ == idle_refreshed(old(self)@, directory@, session_id@, crate::model::records_view(messages@)),
            changed == idle_refresh_shows_change(old(self)@, directory@, session_id@, crate::model::records_view(messages@)),
    {
        let ghost mv = crate::model::records_view(messages@);
        let has_tab = find_tab(&self.tabs, directory) < self.tabs.len();
        let shown = find_shown_tab(&self.tabs, directory, session_id);
        if !has_tab || (shown >= self.tabs.len() && !self.cache.contains(session_id)) {
            proof {
                if shown < self.tabs.len() {
                    crate::seqs::lemma_first_index(tabs_view(self.tabs@), shows_session(directory@, session_id@));
                    crate::seqs::lemma_first_index(tabs_view(self.tabs@), |t: TabView| t.directory == directory@);
                    let d = |t: TabView| t.directory == directory@;
                    assert(d(tabs_view(self.tabs@)[shown as int]));
                }
            }
            return false;
        }
        self.cache.replace(session_id, messages.as_slice());
        if shown >= self.tabs.len() {
            return false;
        }
        let ghost before = self.tabs@;
        let ready = match &self.tabs[shown].timeline {
            TimelineState::Ready { messages: current, .. } => Some(crate::model::records_eq(current, &messages)),
            _ => None,
        };
        match ready {
            Some(same) => {
                let tab = &mut self.tabs[shown];
                match &mut tab.timeline {
                    TimelineState::Ready { messages: current, .. } => {
                        *current = messages;
                    },
                    _ => {},
                }
                assert(tabs_view(self.tabs@) =~= tabs_view(before).update(shown as int, crate::workspace::tab_with_messages(tabs_view(before)[shown as int], mv)));
                !same
            },
            None => false,
        }
    }
}

/// Stepping from a root session of a directory moves through its root
/// sessions in list order, wrapping around: `delta` places on from the
/// `i`-th is the `(i + delta) mod n`-th; one step forward from any but the
/// last is the next one and from the last the first, one step back from any
/// but the first is the one before and from the first the last; with none
/// selected the steps count from the first.
pub proof fn law_session_after_steps_in_list_order(
    w: WorkspaceView,
    directory: Seq<char>,
    i: int,
    delta: int,
)
    requires
        0 <= i < roots_of(w, directory).len(),
        forall|j: int|
            0 <= j < i ==> roots_of(w, directory)[j].id != roots_of(w, directory)[i].id,
    ensures
        ({
            let roots = roots_of(w, directory);
            let n = roots.len() as int;
            let id = roots[i].id;
            &&& session_after_of(w, directory, Some(id), delta) == Some(roots[(i + delta) % n])
            &&& i + 1 < n ==> session_after_of(w, directory, Some(id), 1) == Some(roots[i + 1])
            &&& i + 1 == n ==> session_after_of(w, directory, Some(id), 1) == Some(roots[0])
            &&& i > 0 ==> session_after_of(w, directory, Some(id), -1) == Some(roots[i - 1])
            &&& i == 0 ==> session_after_of(w, directory, Some(id), -1) == Some(roots[n - 1])
            &&& session_after_of(w, directory, None, delta) == Some(roots[delta % n])
        }),
{
    let roots = roots_of(w, directory);
    let n = roots.len() as int;
    lemma_first_index_at(roots, has_session_id(roots[i].id), i);
    if i + 1 < n {
        vstd::arithmetic::div_mod::lemma_small_mod((i + 1) as nat, n as nat);
    } else {
        vstd::arithmetic::div_mod::lemma_mod_self_0(n);
    }
    if i > 0 {
        vstd::arithmetic::div_mod::lemma_small_mod((i - 1) as nat, n as nat);
    } else {
        vstd::arithmetic::div_mod::lemma_mod_sub_multiples_vanish(n - 1, n);
        vstd::arithmetic::div_mod::lemma_small_mod((n - 1) as nat, n as nat);
        assert((0 + -1) % n == n - 1);
    }
}

} // verus!
