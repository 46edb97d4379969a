use vstd::prelude::*;

use crate::assoc::{entries_map, lemma_entries_map_domain, lemma_entries_map_value, StrMap};
use crate::model::{sessions_view, SessionView};
use crate::workspace::{tabs_view, TabView, WorkspaceState, WorkspaceView};

verus! {

/// The recency map with each open directory added, at time 0 where it has
/// no time yet.
pub open spec fn with_tab_directories(m: Map<Seq<char>, u64>, tabs: Seq<TabView>) -> Map<Seq<char>, u64>
    decreases tabs.len(),
{
    if tabs.len() == 0 {
        m
    } else {
        let before = with_tab_directories(m, tabs.drop_last());
        let d = tabs.last().directory;
        if before.contains_key(d) {
            before
        } else {
            before.insert(d, 0)
        }
    }
}

/// The recency map with each session's directory raised to the session's
/// last update.
pub open spec fn with_session_times(m: Map<Seq<char>, u64>, sessions: Seq<SessionView>) -> Map<Seq<char>, u64>
    decreases sessions.len(),
{
    if sessions.len() == 0 {
        m
    } else {
        let before = with_session_times(m, sessions.drop_last());
        let s = sessions.last();
        before.insert(
            s.directory,
            if before.contains_key(s.directory) && before[s.directory] > s.updated {
                before[s.directory]
            } else {
                s.updated
            },
        )
    }
}

/// When each known directory was last used: the remembered times, the
/// open directories, and the latest update of each directory's sessions.
pub open spec fn directory_recency(history: Map<Seq<char>, u64>, w: WorkspaceView) -> Map<Seq<char>, u64> {
    with_session_times(
        with_tab_directories(history, w.tabs),
        match w.sessions {
            Some(list) => list,
            None => Seq::empty(),
        },
    )
}

/// `order` lists each directory of `recency` once, most recent first.
pub open spec fn by_recency(order: Seq<Seq<char>>, recency: Map<Seq<char>, u64>) -> bool {
    &&& forall|i: int, j: int|
        0 <= i < j < order.len() ==> order[i] != order[j] && recency[order[i]] >= recency[order[j]]
    &&& forall|i: int| 0 <= i < order.len() ==> recency.contains_key(#[trigger] order[i])
    &&& forall|k: Seq<char>| recency.contains_key(k) ==> exists|i: int| 0 <= i < order.len() && order[i] == k
}

fn copy_map(source: &StrMap<u64>) -> (r: StrMap<u64>)
    ensures
        r@ == source@,
{
    let n = source.len();
    let mut out: StrMap<u64> = StrMap::new();
    let mut i: usize = 0;
    while i < n
        invariant
            i <= n,
            n == source.entry_seq().len(),
            source@ == entries_map(source.entry_seq()),
            out@ == entries_map(source.entry_seq().take(i as int)),
        decreases n - i,
    {
        let entry = source.entry_at(i);
        out.insert(entry.0.clone(), entry.1);
        proof {
            assert(source.entry_seq().take(i + 1).drop_last() =~= source.entry_seq().take(i as int));
        }
        i += 1;
    }
    assert(source.entry_seq().take(n as int) =~= source.entry_seq());
    out
}

/// Hands out the keys of the map, the largest value first.
fn drain_by_value(map: StrMap<u64>) -> (r: Vec<String>)
    ensures
        by_recency(r@.map_values(|s: String| s@), map@),
{
    let ghost all = map@;
    let mut rest = map;
    let mut out: Vec<String> = Vec::new();
    loop
        invariant
            forall|k: Seq<char>| #[trigger] rest@.contains_key(k) ==> all.contains_key(k) && rest@[k] == all[k],
            forall|k: Seq<char>| #[trigger] all.contains_key(k) ==> rest@.contains_key(k) || exists|i: int|
                0 <= i < out@.len() && out@[i]@ == k,
            forall|i: int| 0 <= i < out@.len() ==> all.contains_key(#[trigger] out@[i]@) && !rest@.contains_key(
                out@[i]@,
            ),
            forall|i: int, j: int|
                0 <= i < j < out@.len() ==> out@[i]@ != out@[j]@ && all[out@[i]@] >= all[out@[j]@],
            forall|i: int, k: Seq<char>|
                0 <= i < out@.len() && rest@.contains_key(k) ==> all[#[trigger] out@[i]@] >= #[trigger] rest@[k],
        ensures
            forall|k: Seq<char>| !rest@.contains_key(k),
        decreases rest.entry_seq().len(),
    {
        let n = rest.len();
        if n == 0 {
            proof {
                assert forall|k: Seq<char>| !rest@.contains_key(k) by {
                    lemma_entries_map_domain(rest.entry_seq(), k);
                }
            }
            break;
        }
        let mut best: usize = 0;
        let mut j: usize = 1;
        while j < n
            invariant
                0 < n == rest.entry_seq().len(),
                best < n,
                1 <= j <= n,
                forall|i: int| 0 <= i < j ==> (#[trigger] rest.entry_seq()[i]).1 <= rest.entry_seq()[best as int].1,
            decreases n - j,
        {
            if rest.entry_at(j).1 > rest.entry_at(best).1 {
                best = j;
            }
            j += 1;
        }
        let key = rest.entry_at(best).0.clone();
        let ghost top = rest.entry_seq()[best as int].1;
        proof {
            lemma_entries_map_value(rest.entry_seq(), best as int);
            assert forall|k: Seq<char>| #[trigger] rest@.contains_key(k) implies rest@[k] <= top by {
                lemma_entries_map_domain(rest.entry_seq(), k);
                let i = choose|i: int| 0 <= i < rest.entry_seq().len() && rest.entry_seq()[i].0@ == k;
                lemma_entries_map_value(rest.entry_seq(), i);
            }
        }
        let ghost before = rest@;
        let ghost out_before = out@;
        rest.remove(key.as_str());
        out.push(key);
        proof {
            assert forall|k: Seq<char>| #[trigger] all.contains_key(k) implies rest@.contains_key(k) || exists|i: int|
                0 <= i < out@.len() && out@[i]@ == k by {
                if !rest@.contains_key(k) {
                    if before.contains_key(k) {
                        assert(out@[out@.len() - 1]@ == k);
                    } else {
                        let i = choose|i: int| 0 <= i < out_before.len() && out_before[i]@ == k;
                        assert(out@[i]@ == k);
                    }
                }
            }
        }
    }
    proof {
        let order = out@.map_values(|s: String| s@);
        assert forall|k: Seq<char>| all.contains_key(k) implies exists|i: int| 0 <= i < order.len() && order[i] == k by {
            let i = choose|i: int| 0 <= i < out@.len() && out@[i]@ == k;
            assert(order[i] == k);
        }
    }
    out
}

impl WorkspaceState {
    /// The directories the user has worked in, most recently used first:
    /// those remembered in `history`, the open ones and those of known
    /// sessions (directories used at the same time come in no fixed order).
    pub fn known_directories(&self, history: &StrMap<u64>) -> (r: Vec<String>)
        ensures
            by_recency(r@.map_values(|s: String| s@), directory_recency(history@, self@)),
    {
        let mut recency = copy_map(history);
        let mut i: usize = 0;
        while i < self.tabs.len()
            invariant
                i <= self.tabs@.len(),
                recency@ == with_tab_directories(history@, tabs_view(self.tabs@).take(i as int)),
            decreases self.tabs@.len() - i,
        {
            proof {
                assert(tabs_view(self.tabs@).take(i + 1).drop_last() =~= tabs_view(self.tabs@).take(i as int));
            }
            if !recency.contains_key(self.tabs[i].directory.as_str()) {
                recency.insert(self.tabs[i].directory.clone(), 0);
            }
            i += 1;
        }
        assert(tabs_view(self.tabs@).take(self.tabs@.len() as int) =~= tabs_view(self.tabs@));
        match &self.sessions {
            Some(list) => {
                let mut k: usize = 0;
                while k < list.len()
                    invariant
                        k <= list@.len(),
                        recency@ == with_session_times(
                            with_tab_directories(history@, tabs_view(self.tabs@)),
                            sessions_view(list@).take(k as int),
                        ),
                    decreases list@.len() - k,
                {
                    proof {
                        assert(sessions_view(list@).take(k + 1).drop_last() =~= sessions_view(list@).take(k as int));
                    }
                    let session = &list[k];
                    let updated = match recency.get(session.directory.as_str()) {
                        Some(known) => if *known > session.updated {
                            *known
                        } else {
                            session.updated
                        },
                        None => session.updated,
                    };
                    recency.insert(session.directory.clone(), updated);
                    k += 1;
                }
                assert(sessions_view(list@).take(list@.len() as int) =~= sessions_view(list@));
            },
            None => {},
        }
        drain_by_value(recency)
    }
}

proof fn lemma_tab_directories(m: Map<Seq<char>, u64>, tabs: Seq<TabView>)
    ensures
        forall|k: Seq<char>| #[trigger] m.contains_key(k) ==> with_tab_directories(m, tabs).contains_key(k)
            && with_tab_directories(m, tabs)[k] == m[k],
        forall|i: int|
            0 <= i < tabs.len() ==> with_tab_directories(m, tabs).contains_key(#[trigger] tabs[i].directory),
    decreases tabs.len(),
{
    if tabs.len() > 0 {
        lemma_tab_directories(m, tabs.drop_last());
        let before = with_tab_directories(m, tabs.drop_last());
        assert forall|k: Seq<char>| m.contains_key(k) implies with_tab_directories(m, tabs).contains_key(k)
            && with_tab_directories(m, tabs)[k] == m[k] by {
            assert(before.contains_key(k) && before[k] == m[k]);
        }
        assert forall|i: int| 0 <= i < tabs.len() implies with_tab_directories(m, tabs).contains_key(
            #[trigger] tabs[i].directory,
        ) by {
            if i < tabs.len() - 1 {
                assert(tabs.drop_last()[i] == tabs[i]);
            }
        }
    }
}

proof fn lemma_session_times(m: Map<Seq<char>, u64>, sessions: Seq<SessionView>)
    ensures
        forall|k: Seq<char>| #[trigger] m.contains_key(k) ==> with_session_times(m, sessions).contains_key(k)
            && with_session_times(m, sessions)[k] >= m[k],
        forall|i: int|
            0 <= i < sessions.len() ==> with_session_times(m, sessions).contains_key(
                #[trigger] sessions[i].directory,
            ) && with_session_times(m, sessions)[sessions[i].directory] >= sessions[i].updated,
    decreases sessions.len(),
{
    if sessions.len() > 0 {
        let init = sessions.drop_last();
        lemma_session_times(m, init);
        let before = with_session_times(m, init);
        assert forall|k: Seq<char>| m.contains_key(k) implies with_session_times(m, sessions).contains_key(k)
            && with_session_times(m, sessions)[k] >= m[k] by {
            assert(before.contains_key(k) && before[k] >= m[k]);
        }
        assert forall|i: int| 0 <= i < sessions.len() implies with_session_times(m, sessions).contains_key(
            #[trigger] sessions[i].directory,
        ) && with_session_times(m, sessions)[sessions[i].directory] >= sessions[i].updated by {
            if i < sessions.len() - 1 {
                assert(init[i] == sessions[i]);
            }
        }
    }
}

/// Every remembered directory, every open directory and every session's
/// directory is known; a directory counts as used no earlier than it was
/// remembered, nor than any of its sessions was last updated.
pub proof fn law_recency_knows_every_directory(history: Map<Seq<char>, u64>, w: WorkspaceView)
    ensures
        forall|k: Seq<char>| history.contains_key(k) ==> directory_recency(history, w).contains_key(k)
            && directory_recency(history, w)[k] >= history[k],
        forall|i: int|
            0 <= i < w.tabs.len() ==> directory_recency(history, w).contains_key(
                #[trigger] w.tabs[i].directory,
            ),
        w.sessions matches Some(list) ==> forall|i: int|
            0 <= i < list.len() ==> directory_recency(history, w).contains_key(
                #[trigger] list[i].directory,
            ) && directory_recency(history, w)[list[i].directory] >= list[i].updated,
{
    lemma_tab_directories(history, w.tabs);
    let sessions = match w.sessions {
        Some(list) => list,
        None => Seq::empty(),
    };
    let tabbed = with_tab_directories(history, w.tabs);
    lemma_session_times(tabbed, sessions);
    assert forall|k: Seq<char>| history.contains_key(k) implies directory_recency(history, w).contains_key(k)
        && directory_recency(history, w)[k] >= history[k] by {
        assert(tabbed.contains_key(k) && tabbed[k] == history[k]);
    }
    assert forall|i: int| 0 <= i < w.tabs.len() implies directory_recency(history, w).contains_key(
        #[trigger] w.tabs[i].directory,
    ) by {
        assert(tabbed.contains_key(w.tabs[i].directory));
    }
}

} // verus!
