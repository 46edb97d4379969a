use vstd::prelude::*;

use crate::assoc::str_eq;
use crate::event::{Event, EventView};
use crate::json::flag_field;
use crate::model::{MessageRecord, MessageRecordView, Part, PartView};
use crate::seqs::lemma_filter_push;
use crate::sessions::{find_tab, tab_index};
use crate::timeline::{TimelineState, TimelineView};
use crate::workspace::{WorkspaceState, WorkspaceView};

verus! {

/// A part of a message, named by the message's id and the part's.
pub struct PartSelection {
    pub message_id: String,
    pub part_id: String,
}

impl View for PartSelection {
    type V = (Seq<char>, Seq<char>);

    open spec fn view(&self) -> (Seq<char>, Seq<char>) {
        (self.message_id@, self.part_id@)
    }
}

pub open spec fn selections_view(s: Seq<PartSelection>) -> Seq<(Seq<char>, Seq<char>)> {
    s.map_values(|p: PartSelection| p@)
}

/// Whether the timeline draws the part: step markers, snapshots,
/// compactions, patches and generated text are not drawn.
pub open spec fn part_visible_of(p: PartView) -> bool {
    !(p.kind == "step-start"@ || p.kind == "step-finish"@ || p.kind == "snapshot"@ || p.kind
        == "compaction"@ || p.kind == "patch"@ || (p.kind == "text"@ && flag_field(
        p.data,
        "synthetic"@,
    )))
}

pub fn part_visible(part: &Part) -> (r: bool)
    ensures
        r == part_visible_of(part@),
{
    proof {
        reveal_strlit("step-start");
        reveal_strlit("step-finish");
        reveal_strlit("snapshot");
        reveal_strlit("compaction");
        reveal_strlit("patch");
        reveal_strlit("text");
        reveal_strlit("synthetic");
    }
    let kind = part.kind.as_str();
    let hidden_kind = str_eq(kind, "step-start") || str_eq(kind, "step-finish") || str_eq(kind, "snapshot")
        || str_eq(kind, "compaction") || str_eq(kind, "patch");
    !(hidden_kind || (str_eq(kind, "text") && part.flag("synthetic")))
}

/// Whether the timeline's messages already hold the part.
pub open spec fn holds_part(messages: Seq<MessageRecordView>, p: PartView) -> bool {
    exists|i: int, j: int|
        0 <= i < messages.len() && 0 <= j < messages[i].parts.len() && messages[i].info.id
            == p.message_id && #[trigger] messages[i].parts[j].id == p.id
}

/// Selects the updates of visible parts of `session_id` that the timeline
/// does not show yet.
pub open spec fn enters(session_id: Seq<char>, messages: Seq<MessageRecordView>) -> spec_fn(EventView) -> bool {
    |e: EventView|
        match e {
            EventView::MessagePartUpdated { part, .. } => part.session_id == session_id
                && part_visible_of(part) && !holds_part(messages, part),
            _ => false,
        }
}

pub open spec fn entered_part(e: EventView) -> (Seq<char>, Seq<char>) {
    match e {
        EventView::MessagePartUpdated { part, .. } => (part.message_id, part.id),
        _ => (Seq::empty(), Seq::empty()),
    }
}

/// The parts that a batch of events for `directory` brings into the
/// directory's shown timeline for the first time, in event order.
pub open spec fn entering_of(w: WorkspaceView, events: Seq<EventView>, directory: Seq<char>) -> Seq<(Seq<char>, Seq<char>)> {
    let i = tab_index(w.tabs, directory);
    if i < w.tabs.len() {
        match w.tabs[i].timeline {
            TimelineView::Ready { session_id, messages, .. } => events.filter(enters(session_id, messages)).map_values(
                |e: EventView| entered_part(e),
            ),
            _ => Seq::empty(),
        }
    } else {
        Seq::empty()
    }
}

fn holds(messages: &Vec<MessageRecord>, part: &Part) -> (r: bool)
    ensures
        r == holds_part(messages@.map_values(|m: MessageRecord| m@), part@),
{
    let ghost ms = messages@.map_values(|m: MessageRecord| m@);
    let mut i: usize = 0;
    while i < messages.len()
        invariant
            i <= messages@.len(),
            ms == messages@.map_values(|m: MessageRecord| m@),
            forall|a: int, b: int|
                0 <= a < i && 0 <= b < ms[a].parts.len() ==> !(ms[a].info.id == part@.message_id
                    && #[trigger] ms[a].parts[b].id == part@.id),
        decreases messages@.len() - i,
    {
        if str_eq(messages[i].info.id.as_str(), part.message_id.as_str()) {
            let parts = &messages[i].parts;
            let mut j: usize = 0;
            while j < parts.len()
                invariant
                    i < messages@.len(),
                    parts == &messages@[i as int].parts,
                    ms == messages@.map_values(|m: MessageRecord| m@),
                    ms[i as int].info.id == part@.message_id,
                    j <= parts@.len(),
                    forall|b: int| 0 <= b < j ==> !(#[trigger] ms[i as int].parts[b].id == part@.id),
                decreases parts@.len() - j,
            {
                if str_eq(parts[j].id.as_str(), part.id.as_str()) {
                    assert(ms[i as int].parts[j as int].id == part@.id);
                    return true;
                }
                j += 1;
            }
        }
        i += 1;
    }
    false
}

impl WorkspaceState {
    /// The parts that `events` bring into the timeline that the tab of
    /// `directory` shows, and that the timeline lets enter with motion.
    pub fn entering_parts(&self, events: &Vec<Event>, directory: &str) -> (r: Vec<PartSelection>)
        ensures
            selections_view(r@) == entering_of(self@, events@.map_values(|e: Event| e@), directory@),
    {
        let t = find_tab(&self.tabs, directory);
        if t >= self.tabs.len() {
            return Vec::new();
        }
        let TimelineState::Ready { session_id, messages, .. } = &self.tabs[t].timeline else {
            return Vec::new();
        };
        let ghost evs = events@.map_values(|e: Event| e@);
        let ghost pred = enters(session_id@, messages@.map_values(|m: MessageRecord| m@));
        let ghost f = |e: EventView| entered_part(e);
        let mut out: Vec<PartSelection> = Vec::new();
        let mut i: usize = 0;
        while i < events.len()
            invariant
                i <= events@.len(),
                evs == events@.map_values(|e: Event| e@),
                pred == enters(session_id@, messages@.map_values(|m: MessageRecord| m@)),
                f == (|e: EventView| entered_part(e)),
                selections_view(out@) == evs.take(i as int).filter(pred).map_values(f),
            decreases events@.len() - i,
        {
            proof {
                assert(evs.take(i + 1) =~= evs.take(i as int).push(evs[i as int]));
                lemma_filter_push(evs.take(i as int), evs[i as int], pred);
            }
            let ghost before = selections_view(out@);
            if let Event::MessagePartUpdated { part, .. } = &events[i] {
                if str_eq(part.session_id.as_str(), session_id.as_str()) && part_visible(part) && !holds(
                    messages,
                    part,
                ) {
                    out.push(PartSelection { message_id: part.message_id.clone(), part_id: part.id.clone() });
                    assert(selections_view(out@) =~= before.push(f(evs[i as int])));
                    assert(evs.take(i as int).filter(pred).push(evs[i as int]).map_values(f) =~= before.push(
                        f(evs[i as int]),
                    ));
                }
            }
            i += 1;
        }
        assert(evs.take(events@.len() as int) =~= evs);
        out
    }
}

/// The parts whose entrance is being animated.
pub struct Entrances {
    pub parts: Vec<PartSelection>,
}

impl View for Entrances {
    type V = Set<(Seq<char>, Seq<char>)>;

    open spec fn view(&self) -> Set<(Seq<char>, Seq<char>)> {
        selections_view(self.parts@).to_set()
    }
}

fn position_of(parts: &Vec<PartSelection>, selection: &PartSelection) -> (r: Option<usize>)
    ensures
        match r {
            Some(i) => i < parts@.len() && parts@[i as int]@ == selection@,
            None => !selections_view(parts@).contains(selection@),
        },
{
    let mut i: usize = 0;
    while i < parts.len()
        invariant
            i <= parts@.len(),
            forall|j: int| 0 <= j < i ==> selections_view(parts@)[j] != selection@,
        decreases parts@.len() - i,
    {
        if str_eq(parts[i].message_id.as_str(), selection.message_id.as_str()) && str_eq(
            parts[i].part_id.as_str(),
            selection.part_id.as_str(),
        ) {
            return Some(i);
        }
        i += 1;
    }
    None
}

impl Entrances {
    pub fn new() -> (r: Entrances)
        ensures
            r@ == Set::<(Seq<char>, Seq<char>)>::empty(),
    {
        let r = Entrances { parts: Vec::new() };
        assert(r@ =~= Set::<(Seq<char>, Seq<char>)>::empty());
        r
    }

    /// Starts animating the given parts, when motion is on; returns those
    /// not animating already, whose animation the caller ends later.
    pub fn mark(&mut self, selections: Vec<PartSelection>, animate: bool) -> (r: Vec<PartSelection>)
        ensures
            !animate ==> r@.len() == 0 && final(self)@ == old(self)@,
            animate ==> final(self)@ == old(self)@.union(selections_view(selections@).to_set()),
            forall|i: int| 0 <= i < r@.len() ==> !old(self)@.contains(#[trigger] r@[i]@),
            forall|i: int| 0 <= i < r@.len() ==> selections_view(selections@).contains(#[trigger] r@[i]@),
            forall|i: int, j: int| 0 <= i < j < r@.len() ==> r@[i]@ != r@[j]@,
            animate ==> forall|i: int|
                0 <= i < selections@.len() && !old(self)@.contains(#[trigger] selections@[i]@) ==> exists|j: int|
                    0 <= j < r@.len() && r@[j]@ == selections@[i]@,
    {
        let mut fresh: Vec<PartSelection> = Vec::new();
        if !animate {
            return fresh;
        }
        let ghost start = self@;
        let ghost all = selections_view(selections@);
        let mut i: usize = 0;
        while i < selections.len()
            invariant
                i <= selections@.len(),
                start == old(self)@,
                all == selections_view(selections@),
                self@ == start.union(all.take(i as int).to_set()),
                forall|k: int| 0 <= k < fresh@.len() ==> !start.contains(#[trigger] fresh@[k]@),
                forall|k: int| 0 <= k < fresh@.len() ==> self@.contains(#[trigger] fresh@[k]@),
                forall|k: int| 0 <= k < fresh@.len() ==> all.take(i as int).contains(#[trigger] fresh@[k]@),
                forall|k: int, m: int| 0 <= k < m < fresh@.len() ==> fresh@[k]@ != fresh@[m]@,
                forall|k: int|
                    0 <= k < i && !start.contains(#[trigger] selections@[k]@) ==> exists|j: int|
                        0 <= j < fresh@.len() && fresh@[j]@ == selections@[k]@,
            decreases selections@.len() - i,
        {
            let s = &selections[i];
            let ghost before = self@;
            let ghost fresh_before = fresh@;
            proof {
                assert(all.take(i + 1) =~= all.take(i as int).push(s@));
                all.take(i as int).lemma_push_to_set_commute(s@);
            }
            match position_of(&self.parts, s) {
                Some(k) => {
                    proof {
                        assert(selections_view(self.parts@)[k as int] == s@);
                        assert(selections_view(self.parts@).contains(s@));
                        assert(before.contains(s@));
                        assert(self@ =~= start.union(all.take(i + 1).to_set()));
                        if !start.contains(s@) {
                            let k = choose|k: int| 0 <= k < i && all.take(i as int)[k] == s@;
                            assert(selections@[k]@ == s@);
                            assert(!start.contains(selections@[k]@));
                        }
                    }
                },
                None => {
                    let ghost parts_before = selections_view(self.parts@);
                    self.parts.push(PartSelection { message_id: s.message_id.clone(), part_id: s.part_id.clone() });
                    fresh.push(PartSelection { message_id: s.message_id.clone(), part_id: s.part_id.clone() });
                    proof {
                        assert(selections_view(self.parts@) =~= parts_before.push(s@));
                        parts_before.lemma_push_to_set_commute(s@);
                        assert(self@ =~= before.insert(s@));
                        assert(!before.contains(s@));
                        assert(self@ =~= start.union(all.take(i + 1).to_set()));
                        assert(!start.contains(s@));
                        assert(fresh@[fresh@.len() - 1]@ == s@);
                        assert forall|k: int| 0 <= k < fresh@.len() implies all.take(i + 1).contains(
                            #[trigger] fresh@[k]@,
                        ) by {
                            if k < fresh@.len() - 1 {
                                assert(fresh@[k] == fresh_before[k]);
                                let m = choose|m: int| 0 <= m < i && all.take(i as int)[m] == fresh_before[k]@;
                                assert(all.take(i + 1)[m] == fresh@[k]@);
                            } else {
                                assert(all.take(i + 1)[i as int] == s@);
                            }
                        }
                        assert forall|k: int| 0 <= k < fresh@.len() implies self@.contains(#[trigger] fresh@[k]@) by {
                            if k < fresh@.len() - 1 {
                                assert(fresh@[k] == fresh_before[k]);
                                assert(before.contains(fresh_before[k]@));
                            }
                        }
                        assert forall|k: int, m: int| 0 <= k < m < fresh@.len() implies fresh@[k]@ != fresh@[m]@ by {
                            if m < fresh@.len() - 1 {
                                assert(fresh@[k] == fresh_before[k]);
                                assert(fresh@[m] == fresh_before[m]);
                            } else {
                                assert(fresh@[k] == fresh_before[k]);
                                assert(before.contains(fresh_before[k]@));
                            }
                        }
                        assert forall|k: int|
                            0 <= k < i + 1 && !start.contains(#[trigger] selections@[k]@) implies exists|j: int|
                                0 <= j < fresh@.len() && fresh@[j]@ == selections@[k]@ by {
                            if k < i {
                                let j = choose|j: int| 0 <= j < fresh_before.len() && fresh_before[j]@ == selections@[k]@;
                                assert(fresh@[j] == fresh_before[j]);
                            } else {
                                assert(fresh@[fresh@.len() - 1]@ == selections@[k]@);
                            }
                        }
                    }
                },
            }
            i += 1;
        }
        proof {
            assert(all.take(selections@.len() as int) =~= all);
        }
        fresh
    }
    /// Ends the animation of the given parts.
    pub fn finish(&mut self, selections: &Vec<PartSelection>)
        ensures
            final(self)@ == old(self)@.difference(selections_view(selections@).to_set()),
    {
        let ghost gone = selections_view(selections@).to_set();
        let ghost all = selections_view(self.parts@);
        let mut kept: Vec<PartSelection> = Vec::new();
        let mut i: usize = 0;
        while i < self.parts.len()
            invariant
                i <= self.parts@.len(),
                all == selections_view(self.parts@),
                gone == selections_view(selections@).to_set(),
                selections_view(kept@).to_set() == all.take(i as int).to_set().difference(gone),
            decreases self.parts@.len() - i,
        {
            let p = &self.parts[i];
            let ghost kept_before = selections_view(kept@);
            proof {
                assert(all.take(i + 1) =~= all.take(i as int).push(p@));
                all.take(i as int).lemma_push_to_set_commute(p@);
            }
            match position_of(selections, p) {
                Some(k) => {
                    proof {
                        assert(selections_view(selections@)[k as int] == p@);
                        assert(gone.contains(p@));
                        assert(selections_view(kept@).to_set() =~= all.take(i + 1).to_set().difference(gone));
                    }
                },
                None => {
                    kept.push(PartSelection { message_id: p.message_id.clone(), part_id: p.part_id.clone() });
                    proof {
                        assert(selections_view(kept@) =~= kept_before.push(p@));
                        kept_before.lemma_push_to_set_commute(p@);
                        assert(!gone.contains(p@));
                        assert(selections_view(kept@).to_set() =~= all.take(i + 1).to_set().difference(gone));
                    }
                },
            }
            i += 1;
        }
        proof {
            assert(all.take(self.parts@.len() as int) =~= all);
        }
        self.parts = kept;
    }
}

/// Animating parts and then ending their animation leaves the set of
/// animating parts as it was, for parts that were not animating before.
pub proof fn law_finished_entrances_leave_nothing_behind(
    before: Set<(Seq<char>, Seq<char>)>,
    marked: Seq<(Seq<char>, Seq<char>)>,
)
    requires
        forall|i: int| 0 <= i < marked.len() ==> !before.contains(#[trigger] marked[i]),
    ensures
        before.union(marked.to_set()).difference(marked.to_set()) == before,
{
    assert(before.union(marked.to_set()).difference(marked.to_set()) =~= before);
}

} // verus!
