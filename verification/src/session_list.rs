use vstd::prelude::*;

use crate::assoc::str_eq;
use crate::model::{sessions_view, Session, SessionView};
use crate::seqs::{first_index, lemma_filter_push, lemma_first_index, lemma_first_index_at};
use crate::sessions::{find_tab, root_in, roots_of, tab_index};
use crate::timeline::TimelineView;
use crate::event::EventView;
use crate::workspace::{
    tabs_view, insert_by_recency, older_than, other_session, step, steps, upsert_step, upserted,
    WorkspaceState, WorkspaceView,
};

verus! {

/// The list shows the most recently updated sessions first.
pub open spec fn newest_first(s: Seq<SessionView>) -> bool {
    forall|i: int, j: int| 0 <= i < j < s.len() ==> s[i].updated >= s[j].updated
}

/// Keeps the sessions of other directories than `directory`.
pub open spec fn outside(directory: Seq<char>) -> spec_fn(SessionView) -> bool {
    |s: SessionView| s.directory != directory
}

/// The sessions with each of `incoming` placed by recency, in turn.
pub open spec fn placed_by_recency(sessions: Seq<SessionView>, incoming: Seq<SessionView>) -> Seq<SessionView>
    decreases incoming.len(),
{
    if incoming.len() == 0 {
        sessions
    } else {
        insert_by_recency(placed_by_recency(sessions, incoming.drop_last()), incoming.last())
    }
}

/// The session list after a directory's sessions were listed afresh: its
/// old sessions go, and the listed ones take their places by recency.
pub open spec fn merged_step(w: WorkspaceView, directory: Seq<char>, incoming: Seq<SessionView>) -> WorkspaceView {
    match w.sessions {
        Some(list) => WorkspaceView {
            sessions: Some(placed_by_recency(list.filter(outside(directory)), incoming)),
            ..w
        },
        None => w,
    }
}

/// The first root session of the list, whose directory opens when nothing
/// else is to be restored.
pub open spec fn first_root(sessions: Seq<SessionView>) -> int {
    first_index(sessions, any_root())
}

/// Selects the sessions that no other session started.
pub open spec fn any_root() -> spec_fn(SessionView) -> bool {
    |s: SessionView| s.parent_id is None
}

proof fn lemma_filter_keeps_newest_first(s: Seq<SessionView>, pred: spec_fn(SessionView) -> bool)
    requires
        newest_first(s),
    ensures
        newest_first(s.filter(pred)),
        forall|i: int| 0 <= i < s.filter(pred).len() ==> s.contains(#[trigger] s.filter(pred)[i]),
    decreases s.len(),
{
    if s.len() > 0 {
        let init = s.drop_last();
        assert(init.push(s.last()) =~= s);
        lemma_filter_keeps_newest_first(init, pred);
        lemma_filter_push(init, s.last(), pred);
        let f = init.filter(pred);
        assert forall|i: int| 0 <= i < f.len() implies (#[trigger] f[i]).updated >= s.last().updated by {
            let k = choose|k: int| 0 <= k < init.len() && init[k] == f[i];
            assert(s[k] == init[k]);
        }
        assert forall|i: int| 0 <= i < s.filter(pred).len() implies s.contains(#[trigger] s.filter(pred)[i]) by {
            if i < f.len() {
                let k = choose|k: int| 0 <= k < init.len() && init[k] == f[i];
                assert(s[k] == init[k]);
            } else {
                assert(s[s.len() - 1] == s.last());
            }
        }
    }
}

proof fn lemma_insert_keeps_newest_first(s: Seq<SessionView>, x: SessionView)
    requires
        newest_first(s),
    ensures
        newest_first(insert_by_recency(s, x)),
{
    let pred = older_than(x.updated);
    lemma_first_index(s, pred);
    let k = first_index(s, pred);
    let r = s.insert(k, x);
    assert forall|i: int, j: int| 0 <= i < j < r.len() implies r[i].updated >= r[j].updated by {
        if i < k {
            assert(!pred(s[i]));
        }
        if j > k && i >= k {
            assert(pred(s[k]));
        }
    }
}

proof fn lemma_placed_keeps_newest_first(s: Seq<SessionView>, incoming: Seq<SessionView>)
    requires
        newest_first(s),
    ensures
        newest_first(placed_by_recency(s, incoming)),
    decreases incoming.len(),
{
    if incoming.len() > 0 {
        lemma_placed_keeps_newest_first(s, incoming.drop_last());
        lemma_insert_keeps_newest_first(placed_by_recency(s, incoming.drop_last()), incoming.last());
    }
}

/// A created or updated session takes its place by recency: a list kept
/// newest first stays so.
pub proof fn law_upsert_keeps_newest_first(w: WorkspaceView, session: SessionView)
    requires
        w.sessions matches Some(list) && newest_first(list),
    ensures
        upsert_step(w, session).sessions matches Some(list) && newest_first(list),
{
    let list = w.sessions->0;
    lemma_filter_keeps_newest_first(list, other_session(session.id));
    lemma_insert_keeps_newest_first(list.filter(other_session(session.id)), session);
}

/// No two sessions of the list share an id.
pub open spec fn unique_ids(s: Seq<SessionView>) -> bool {
    forall|i: int, j: int| 0 <= i < j < s.len() ==> s[i].id != s[j].id
}

proof fn lemma_filter_keeps_unique(s: Seq<SessionView>, pred: spec_fn(SessionView) -> bool)
    requires
        unique_ids(s),
    ensures
        unique_ids(s.filter(pred)),
        forall|i: int| 0 <= i < s.filter(pred).len() ==> s.contains(#[trigger] s.filter(pred)[i]),
    decreases s.len(),
{
    if s.len() > 0 {
        let init = s.drop_last();
        assert(init.push(s.last()) =~= s);
        lemma_filter_keeps_unique(init, pred);
        lemma_filter_push(init, s.last(), pred);
        let f = init.filter(pred);
        assert forall|i: int| 0 <= i < f.len() implies (#[trigger] f[i]).id != s.last().id by {
            let k = choose|k: int| 0 <= k < init.len() && init[k] == f[i];
            assert(s[k] == init[k]);
        }
        assert forall|i: int| 0 <= i < s.filter(pred).len() implies s.contains(#[trigger] s.filter(pred)[i]) by {
            if i < f.len() {
                let k = choose|k: int| 0 <= k < init.len() && init[k] == f[i];
                assert(s[k] == init[k]);
            } else {
                assert(s[s.len() - 1] == s.last());
            }
        }
    }
}

proof fn lemma_upserted_unique(s: Seq<SessionView>, x: SessionView)
    requires
        unique_ids(s),
    ensures
        unique_ids(upserted(s, x)),
        upserted(s, x).contains(x),
{
    let pred = other_session(x.id);
    lemma_filter_keeps_unique(s, pred);
    let f = s.filter(pred);
    assert forall|i: int| 0 <= i < f.len() implies (#[trigger] f[i]).id != x.id by {
        s.lemma_filter_pred(pred, i);
    }
    lemma_first_index(f, older_than(x.updated));
    let k = first_index(f, older_than(x.updated));
    let r = f.insert(k, x);
    assert forall|i: int, j: int| 0 <= i < j < r.len() implies r[i].id != r[j].id by {
        if i < k && j == k {
            assert(r[i] == f[i]);
        } else if i == k {
            assert(r[j] == f[j - 1]);
        }
    }
    assert(r[k] == x);
}

proof fn lemma_step_keeps_session_list(w: WorkspaceView, e: EventView, directory: Option<Seq<char>>)
    requires
        w.sessions matches Some(list) && newest_first(list) && unique_ids(list),
    ensures
        step(w, e, directory).sessions matches Some(list) && newest_first(list) && unique_ids(list),
{
    let list = w.sessions->0;
    match e {
        EventView::SessionCreated(s) => {
            law_upsert_keeps_newest_first(w, s);
            lemma_upserted_unique(list, s);
        },
        EventView::SessionUpdated(s) => {
            law_upsert_keeps_newest_first(w, s);
            lemma_upserted_unique(list, s);
        },
        EventView::SessionDeleted(s) => {
            lemma_filter_keeps_newest_first(list, other_session(s.id));
            lemma_filter_keeps_unique(list, other_session(s.id));
        },
        _ => {},
    }
}

/// Whatever events come, a session list kept newest first with one entry per
/// session stays so.
pub proof fn law_events_keep_sessions_ordered_and_unique(
    w: WorkspaceView,
    events: Seq<EventView>,
    directory: Option<Seq<char>>,
)
    requires
        w.sessions matches Some(list) && newest_first(list) && unique_ids(list),
    ensures
        steps(w, events, directory).sessions matches Some(list) && newest_first(list) && unique_ids(
            list,
        ),
    decreases events.len(),
{
    if events.len() > 0 {
        law_events_keep_sessions_ordered_and_unique(w, events.drop_last(), directory);
        lemma_step_keeps_session_list(steps(w, events.drop_last(), directory), events.last(), directory);
    }
}

/// After a session is created or updated, the list holds it, and it is the
/// only session with its id.
pub proof fn law_upsert_leaves_one_entry(w: WorkspaceView, session: SessionView)
    requires
        w.sessions matches Some(list) && unique_ids(list),
    ensures
        upsert_step(w, session).sessions matches Some(list) && unique_ids(list) && list.contains(
            session,
        ) && forall|i: int| 0 <= i < list.len() && list[i].id == session.id ==> list[i] == session,
{
    lemma_upserted_unique(w.sessions->0, session);
    let list = upserted(w.sessions->0, session);
    let k = choose|k: int| 0 <= k < list.len() && list[k] == session;
    assert forall|i: int| 0 <= i < list.len() && list[i].id == session.id implies list[i] == session by {
        if i != k {
            assert(list[i].id != list[k].id);
        }
    }
}

/// Listing a directory's sessions afresh keeps a list newest first, and
/// leaves the sessions of other directories in it.
pub proof fn law_merge_keeps_newest_first(w: WorkspaceView, directory: Seq<char>, incoming: Seq<SessionView>)
    requires
        w.sessions matches Some(list) && newest_first(list),
    ensures
        merged_step(w, directory, incoming).sessions matches Some(list) && newest_first(list),
{
    let list = w.sessions->0;
    lemma_filter_keeps_newest_first(list, outside(directory));
    lemma_placed_keeps_newest_first(list.filter(outside(directory)), incoming);
}

fn place_by_recency(list: &mut Vec<Session>, session: Session)
    ensures
        sessions_view(final(list)@) == insert_by_recency(sessions_view(old(list)@), session@),
{
    let ghost older = older_than(session@.updated);
    let mut k: usize = 0;
    while k < list.len() && !(list[k].updated < session.updated)
        invariant
            k <= list@.len(),
            older == older_than(session@.updated),
            forall|j: int| 0 <= j < k ==> !older(#[trigger] sessions_view(list@)[j]),
        decreases list@.len() - k,
    {
        k += 1;
    }
    proof {
        lemma_first_index_at(sessions_view(list@), older, k as int);
    }
    let ghost before = sessions_view(list@);
    list.insert(k, session);
    assert(sessions_view(list@) =~= before.insert(k as int, list@[k as int]@));
}

impl WorkspaceState {
    /// Replaces a directory's sessions with those the server listed for it.
    pub fn merge_directory_sessions(&mut self, directory: &str, incoming: Vec<Session>)
        ensures
            final(self)@ == merged_step(old(self)@, directory@, sessions_view(incoming@)),
    {
        let Some(list) = &self.sessions else {
            return;
        };
        let ghost pred = outside(directory@);
        let mut kept: Vec<Session> = Vec::new();
        let mut i: usize = 0;
        while i < list.len()
            invariant
                i <= list@.len(),
                pred == outside(directory@),
                sessions_view(kept@) == sessions_view(list@).take(i as int).filter(pred),
            decreases list@.len() - i,
        {
            proof {
                assert(sessions_view(list@).take(i + 1) =~= sessions_view(list@).take(i as int).push(list@[i as int]@));
                lemma_filter_push(sessions_view(list@).take(i as int), list@[i as int]@, pred);
            }
            if !str_eq(list[i].directory.as_str(), directory) {
                kept.push(list[i].clone());
                assert(sessions_view(kept@) =~= sessions_view(list@).take(i as int).filter(pred).push(
                    list@[i as int]@,
                ));
            }
            i += 1;
        }
        assert(sessions_view(list@).take(list@.len() as int) =~= sessions_view(list@));
        let ghost start = sessions_view(kept@);
        let mut j: usize = 0;
        while j < incoming.len()
            invariant
                j <= incoming@.len(),
                sessions_view(kept@) == placed_by_recency(start, sessions_view(incoming@).take(j as int)),
            decreases incoming@.len() - j,
        {
            proof {
                assert(sessions_view(incoming@).take(j + 1).drop_last() =~= sessions_view(incoming@).take(j as int));
            }
            place_by_recency(&mut kept, incoming[j].clone());
            j += 1;
        }
        assert(sessions_view(incoming@).take(incoming@.len() as int) =~= sessions_view(incoming@));
        self.sessions = Some(kept);
    }

    /// The directory of the first root session, if the sessions are known
    /// and there is one.
    pub fn bootstrap_directory(&self) -> (r: Option<String>)
        ensures
            match r {
                Some(d) => self@.sessions matches Some(list) && first_root(list) < list.len()
                    && d@ == list[first_root(list)].directory,
                None => self@.sessions matches Some(list) ==> first_root(list) == list.len(),
            },
    {
        let Some(list) = &self.sessions else {
            return None;
        };
        let ghost pred = any_root();
        let mut i: usize = 0;
        while i < list.len()
            invariant
                i <= list@.len(),
                pred == any_root(),
                self@.sessions == Some(sessions_view(list@)),
                forall|j: int| 0 <= j < i ==> !pred(#[trigger] sessions_view(list@)[j]),
            decreases list@.len() - i,
        {
            if list[i].parent_id.is_none() {
                proof {
                    assert(pred(sessions_view(list@)[i as int]));
                    lemma_first_index_at(sessions_view(list@), pred, i as int);
                }
                let d = list[i].directory.clone();
                assert(d@ == sessions_view(list@)[i as int].directory);
                return Some(d);
            }
            assert(!pred(sessions_view(list@)[i as int]));
            i += 1;
        }
        proof {
            lemma_first_index_at(sessions_view(list@), pred, i as int);
        }
        None
    }
}

/// What opening a directory does once its sessions are listed.
pub enum HydrationChoice {
    /// Show this session, the first root one listed.
    Select(Session),
    /// Nothing to show: create a session for the directory and show it.
    Create,
    /// Nothing to show and nothing to create.
    Nothing,
}

/// The session that a freshly listed directory shows: its first root
/// session, else a new one when the user asked to create one.
pub fn hydration_choice(sessions: &Vec<Session>, create_if_empty: bool) -> (r: HydrationChoice)
    ensures
        match r {
            HydrationChoice::Select(s) => first_root(sessions_view(sessions@)) < sessions@.len()
                && s@ == sessions_view(sessions@)[first_root(sessions_view(sessions@))],
            HydrationChoice::Create => first_root(sessions_view(sessions@)) == sessions@.len()
                && create_if_empty,
            HydrationChoice::Nothing => first_root(sessions_view(sessions@)) == sessions@.len()
                && !create_if_empty,
        },
{
    let ghost pred = any_root();
    let mut i: usize = 0;
    while i < sessions.len()
        invariant
            i <= sessions@.len(),
            pred == any_root(),
            forall|j: int| 0 <= j < i ==> !pred(#[trigger] sessions_view(sessions@)[j]),
        decreases sessions@.len() - i,
    {
        if sessions[i].parent_id.is_none() {
            proof {
                assert(pred(sessions_view(sessions@)[i as int]));
                lemma_first_index_at(sessions_view(sessions@), pred, i as int);
            }
            return HydrationChoice::Select(sessions[i].clone());
        }
        assert(!pred(sessions_view(sessions@)[i as int]));
        i += 1;
    }
    proof {
        lemma_first_index_at(sessions_view(sessions@), pred, i as int);
    }
    if create_if_empty {
        HydrationChoice::Create
    } else {
        HydrationChoice::Nothing
    }
}

/// The listed sessions with the shown one added when the list lacks it
/// (a session created just now).
pub open spec fn with_shown(sessions: Seq<SessionView>, shown: Option<SessionView>) -> Seq<SessionView> {
    match shown {
        Some(s) => if exists|i: int| 0 <= i < sessions.len() && sessions[i].id == s.id {
            sessions
        } else {
            sessions.push(s)
        },
        None => sessions,
    }
}

pub fn add_shown_session(sessions: Vec<Session>, shown: Option<&Session>) -> (r: Vec<Session>)
    ensures
        sessions_view(r@) == with_shown(sessions_view(sessions@), match shown {
            Some(s) => Some(s@),
            None => None,
        }),
{
    let Some(session) = shown else {
        return sessions;
    };
    let mut i: usize = 0;
    while i < sessions.len()
        invariant
            i <= sessions@.len(),
            shown == Some(session),
            forall|j: int| 0 <= j < i ==> sessions_view(sessions@)[j].id != session@.id,
        decreases sessions@.len() - i,
    {
        if str_eq(sessions[i].id.as_str(), session.id.as_str()) {
            assert(sessions_view(sessions@)[i as int].id == session@.id);
            return sessions;
        }
        i += 1;
    }
    assert(!(exists|j: int| 0 <= j < sessions@.len() && sessions_view(sessions@)[j].id == session@.id));
    let mut out = sessions;
    let ghost before = sessions_view(out@);
    out.push(session.clone());
    assert(sessions_view(out@) =~= before.push(session@));
    out
}

/// The session a directory's tab opens on by itself: the directory's first
/// root session, unless the tab already shows or loads one.
pub open spec fn default_session_of(w: WorkspaceView, directory: Seq<char>) -> Option<SessionView> {
    let i = tab_index(w.tabs, directory);
    if i < w.tabs.len() && !(w.tabs[i].timeline is Empty) {
        None
    } else if roots_of(w, directory).len() > 0 {
        Some(roots_of(w, directory)[0])
    } else {
        None
    }
}

impl WorkspaceState {
    pub fn default_session(&self, directory: &str) -> (r: Option<Session>)
        ensures
            match r {
                Some(s) => default_session_of(self@, directory@) == Some(s@),
                None => default_session_of(self@, directory@) is None,
            },
    {
        let t = find_tab(&self.tabs, directory);
        if t < self.tabs.len() {
            let empty = match &self.tabs[t].timeline {
                crate::timeline::TimelineState::Empty => true,
                _ => false,
            };
            if !empty {
                return None;
            }
        }
        let Some(list) = &self.sessions else {
            return None;
        };
        let ghost pred = root_in(directory@);
        let mut i: usize = 0;
        while i < list.len()
            invariant
                i <= list@.len(),
                pred == root_in(directory@),
                self@.sessions == Some(sessions_view(list@)),
                !(tab_index(self@.tabs, directory@) < self@.tabs.len() && !(self@.tabs[tab_index(
                    self@.tabs,
                    directory@,
                )].timeline is Empty)),
                sessions_view(list@).take(i as int).filter(pred).len() == 0,
            decreases list@.len() - i,
        {
            proof {
                assert(sessions_view(list@).take(i + 1) =~= sessions_view(list@).take(i as int).push(list@[i as int]@));
                lemma_filter_push(sessions_view(list@).take(i as int), list@[i as int]@, pred);
            }
            if list[i].parent_id.is_none() && str_eq(list[i].directory.as_str(), directory) {
                proof {
                    let all = sessions_view(list@);
                    assert(all =~= all.take(i + 1) + all.skip(i + 1));
                    Seq::filter_distributes_over_add(all.take(i + 1), all.skip(i + 1), pred);
                    assert(all.take(i + 1).filter(pred) =~= seq![list@[i as int]@]);
                    assert(all.filter(pred)[0] == list@[i as int]@);
                }
                return Some(list[i].clone());
            }
            i += 1;
        }
        proof {
            assert(sessions_view(list@).take(list@.len() as int) =~= sessions_view(list@));
        }
        None
    }
}

} // verus!
