use vstd::prelude::*;

use crate::assoc::str_eq;
use crate::model::{records_view, MessageRecord, MessageRecordView};
use crate::seqs::{first_index, lemma_first_index_at};
use crate::sessions::{find_tab, tab_index, with_tab};
use crate::timeline::{TimelineState, TimelineView};
use crate::workspace::{tabs_view, TabView, WorkspaceState, WorkspaceView};

verus! {

/// Selects the message with the given id.
pub open spec fn message_with_id(id: Seq<char>) -> spec_fn(MessageRecordView) -> bool {
    |m: MessageRecordView| m.info.id == id
}

/// Where the message with the given id is in the list, or its length.
pub open spec fn message_position(messages: Seq<MessageRecordView>, id: Seq<char>) -> int {
    first_index(messages, message_with_id(id))
}

/// The message with the given id in the list, if any.
pub fn selected_message<'a>(history: &'a Vec<MessageRecord>, message_id: &str) -> (r: Option<&'a MessageRecord>)
    ensures
        match r {
            Some(m) => message_position(records_view(history@), message_id@) < history@.len() && m@
                == records_view(history@)[message_position(records_view(history@), message_id@)],
            None => message_position(records_view(history@), message_id@) == history@.len(),
        },
{
    let i = position_of_message(history, message_id);
    if i < history.len() {
        Some(&history[i])
    } else {
        None
    }
}

fn position_of_message(messages: &Vec<MessageRecord>, message_id: &str) -> (r: usize)
    ensures
        r == message_position(records_view(messages@), message_id@),
        r <= messages@.len(),
{
    let ghost pred = message_with_id(message_id@);
    let mut i: usize = 0;
    while i < messages.len()
        invariant
            i <= messages@.len(),
            pred == message_with_id(message_id@),
            forall|j: int| 0 <= j < i ==> !pred(#[trigger] records_view(messages@)[j]),
        decreases messages@.len() - i,
    {
        if str_eq(messages[i].info.id.as_str(), message_id) {
            proof {
                assert(pred(records_view(messages@)[i as int]));
                lemma_first_index_at(records_view(messages@), pred, i as int);
            }
            return i;
        }
        assert(!pred(records_view(messages@)[i as int]));
        i += 1;
    }
    proof {
        lemma_first_index_at(records_view(messages@), pred, i as int);
    }
    i
}

/// A tab after its session was reverted to before a message: a shown
/// timeline drops that message and everything after it.
pub open spec fn reverted_tab(tab: TabView, message_id: Seq<char>) -> TabView {
    match tab.timeline {
        TimelineView::Ready { session_id, title, messages } => {
            let k = message_position(messages, message_id);
            if k < messages.len() {
                TabView {
                    timeline: TimelineView::Ready { session_id, title, messages: messages.take(k) },
                    ..tab
                }
            } else {
                tab
            }
        },
        _ => tab,
    }
}

pub open spec fn reverted_in(w: WorkspaceView, directory: Seq<char>, message_id: Seq<char>) -> WorkspaceView {
    let i = tab_index(w.tabs, directory);
    if i < w.tabs.len() {
        with_tab(w, i, reverted_tab(w.tabs[i], message_id))
    } else {
        w
    }
}

/// A tab showing why a message action failed.
pub open spec fn failed_tab(tab: TabView, error: Seq<char>) -> TabView {
    TabView { prompt_error: Some(error), ..tab }
}

pub open spec fn action_failed_in(w: WorkspaceView, directory: Seq<char>, error: Seq<char>) -> WorkspaceView {
    let i = tab_index(w.tabs, directory);
    if i < w.tabs.len() {
        with_tab(w, i, failed_tab(w.tabs[i], error))
    } else {
        w
    }
}

impl WorkspaceState {
    /// After the server reverted the session to before `message_id`, the tab
    /// of `directory` stops showing that message and those after it.
    pub fn drop_reverted_messages(&mut self, directory: &str, message_id: &str)
        ensures
            final(self)@ == reverted_in(old(self)@, directory@, message_id@),
    {
        let i = find_tab(&self.tabs, directory);
        if i >= self.tabs.len() {
            return;
        }
        let ghost before = self.tabs@;
        let tab = &mut self.tabs[i];
        if let TimelineState::Ready { messages, .. } = &mut tab.timeline {
            let k = position_of_message(messages, message_id);
            if k < messages.len() {
                let ghost whole = records_view(messages@);
                messages.truncate(k);
                assert(records_view(messages@) =~= whole.take(k as int));
            }
        }
        assert(tabs_view(self.tabs@) =~= tabs_view(before).update(
            i as int,
            reverted_tab(tabs_view(before)[i as int], message_id@),
        ));
    }

    /// Shows why a message action failed in the tab of `directory`.
    pub fn show_action_error(&mut self, directory: &str, error: String)
        ensures
            final(self)@ == action_failed_in(old(self)@, directory@, error@),
    {
        let i = find_tab(&self.tabs, directory);
        if i >= self.tabs.len() {
            return;
        }
        let ghost before = self.tabs@;
        self.tabs[i].prompt_error = Some(error);
        assert(tabs_view(self.tabs@) =~= tabs_view(before).update(
            i as int,
            failed_tab(tabs_view(before)[i as int], error@),
        ));
    }
}

/// Reverting a shown session to before a message (the first with its id, at
/// `k`) keeps exactly the messages before it, in order, and drops that
/// message and all after it; nothing else of the tab changes. A timeline
/// that does not hold the message stays as it was.
pub proof fn law_revert_keeps_what_came_before(
    tab: TabView,
    session_id: Seq<char>,
    title: Seq<char>,
    messages: Seq<MessageRecordView>,
    message_id: Seq<char>,
    k: int,
)
    requires
        tab.timeline == (TimelineView::Ready { session_id, title, messages }),
    ensures
        0 <= k < messages.len() && messages[k].info.id == message_id && (forall|j: int|
            0 <= j < k ==> messages[j].info.id != message_id) ==> reverted_tab(tab, message_id)
            == (TabView {
            timeline: TimelineView::Ready { session_id, title, messages: messages.take(k) },
            ..tab
        }) && messages.take(k).len() == k && (forall|j: int|
            0 <= j < k ==> messages.take(k)[j] == messages[j]),
        (forall|j: int| 0 <= j < messages.len() ==> messages[j].info.id != message_id)
            ==> reverted_tab(tab, message_id) == tab,
{
    if 0 <= k < messages.len() && messages[k].info.id == message_id && (forall|j: int|
        0 <= j < k ==> messages[j].info.id != message_id) {
        lemma_first_index_at(messages, message_with_id(message_id), k);
    }
    if forall|j: int| 0 <= j < messages.len() ==> messages[j].info.id != message_id {
        lemma_first_index_at(messages, message_with_id(message_id), messages.len() as int);
    }
}

/// A tab that shows no loaded timeline stays as it was when its session is
/// reverted.
pub proof fn law_revert_leaves_unloaded_tabs(tab: TabView, message_id: Seq<char>)
    requires
        !(tab.timeline is Ready),
    ensures
        reverted_tab(tab, message_id) == tab,
{
}

} // verus!
