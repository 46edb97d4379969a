use vstd::prelude::*;

use crate::assoc::str_eq;
use crate::sessions::has_busy_session;
use crate::text::strings_view;
use crate::workspace::{tabs_view, WorkspaceState};

verus! {

/// One tab of the directory tab bar.
pub struct TabBarTab {
    pub label: String,
    pub busy: bool,
}

pub struct TabBarTabView {
    pub label: Seq<char>,
    pub busy: bool,
}

impl View for TabBarTab {
    type V = TabBarTabView;

    open spec fn view(&self) -> TabBarTabView {
        TabBarTabView { label: self.label@, busy: self.busy }
    }
}

pub open spec fn bar_tabs_view(tabs: Seq<TabBarTab>) -> Seq<TabBarTabView> {
    tabs.map_values(|t: TabBarTab| t@)
}

/// What the tab bar shows: the tabs, the active one, and whether the active
/// directory's server is being reached again.
pub struct TabBar {
    pub tabs: Vec<TabBarTab>,
    pub active: usize,
    pub reconnecting: bool,
}

fn same_tabs(a: &Vec<TabBarTab>, b: &Vec<TabBarTab>) -> (r: bool)
    ensures
        r == (bar_tabs_view(a@) == bar_tabs_view(b@)),
{
    if a.len() != b.len() {
        assert(bar_tabs_view(a@).len() != bar_tabs_view(b@).len());
        return false;
    }
    let mut i: usize = 0;
    while i < a.len()
        invariant
            i <= a@.len(),
            a@.len() == b@.len(),
            forall|j: int| 0 <= j < i ==> bar_tabs_view(a@)[j] == bar_tabs_view(b@)[j],
        decreases a@.len() - i,
    {
        if a[i].busy != b[i].busy || !str_eq(a[i].label.as_str(), b[i].label.as_str()) {
            assert(bar_tabs_view(a@)[i as int] != bar_tabs_view(b@)[i as int]);
            return false;
        }
        i += 1;
    }
    assert(bar_tabs_view(a@) =~= bar_tabs_view(b@));
    true
}

impl TabBar {
    pub fn new() -> (r: TabBar)
        ensures
            r.tabs@.len() == 0,
            r.active == 0,
            !r.reconnecting,
    {
        TabBar { tabs: Vec::new(), active: 0, reconnecting: false }
    }

    /// Activates a tab; returns whether that changed what the bar shows.
    pub fn set_active(&mut self, active: usize) -> (changed: bool)
        ensures
            changed == (old(self).active != active),
            final(self).active == active,
            bar_tabs_view(final(self).tabs@) == bar_tabs_view(old(self).tabs@),
            final(self).reconnecting == old(self).reconnecting,
    {
        if self.active != active {
            self.active = active;
            true
        } else {
            false
        }
    }

    /// Shows the given tabs; returns whether anything changed, and so
    /// whether the bar is to be drawn again.
    pub fn reconcile(&mut self, tabs: Vec<TabBarTab>, active: usize, reconnecting: bool) -> (changed: bool)
        ensures
            changed == !(bar_tabs_view(old(self).tabs@) == bar_tabs_view(tabs@) && old(self).active == active
                && old(self).reconnecting == reconnecting),
            bar_tabs_view(final(self).tabs@) == bar_tabs_view(tabs@),
            final(self).active == active,
            final(self).reconnecting == reconnecting,
    {
        if same_tabs(&self.tabs, &tabs) && self.active == active && self.reconnecting == reconnecting {
            return false;
        }
        self.tabs = tabs;
        self.active = active;
        self.reconnecting = reconnecting;
        true
    }
}

impl WorkspaceState {
    /// For each open tab, whether one of its directory's sessions works or
    /// waits to retry.
    pub fn tab_busy(&self) -> (r: Vec<bool>)
        ensures
            r@.len() == self@.tabs.len(),
            forall|i: int| 0 <= i < r@.len() ==> r@[i] == has_busy_session(self@, #[trigger] self@.tabs[i].directory),
    {
        let busy = self.busy_directories();
        let mut out: Vec<bool> = Vec::new();
        let mut i: usize = 0;
        while i < self.tabs.len()
            invariant
                i <= self.tabs@.len(),
                out@.len() == i,
                forall|d: Seq<char>| #[trigger] strings_view(busy@).contains(d) <==> has_busy_session(self@, d),
                forall|j: int| 0 <= j < i ==> out@[j] == has_busy_session(self@, #[trigger] self@.tabs[j].directory),
            decreases self.tabs@.len() - i,
        {
            let directory = self.tabs[i].directory.as_str();
            let mut found = false;
            let mut k: usize = 0;
            while k < busy.len()
                invariant
                    k <= busy@.len(),
                    found == exists|m: int| 0 <= m < k && strings_view(busy@)[m] == directory@,
                decreases busy@.len() - k,
            {
                let same = str_eq(busy[k].as_str(), directory);
                proof {
                    assert(strings_view(busy@)[k as int] == busy@[k as int]@);
                    if !same {
                        assert forall|m: int| 0 <= m < k + 1 && strings_view(busy@)[m] == directory@ implies 0 <= m < k
                            && strings_view(busy@)[m] == directory@ by {}
                    }
                }
                if same {
                    found = true;
                }
                k += 1;
            }
            proof {
                assert(tabs_view(self.tabs@)[i as int].directory == directory@);
                if found {
                    let m = choose|m: int| 0 <= m < busy@.len() && strings_view(busy@)[m] == directory@;
                    assert(strings_view(busy@).contains(directory@));
                } else {
                    assert(!strings_view(busy@).contains(directory@));
                }
            }
            out.push(found);
            i += 1;
        }
        out
    }
}

} // verus!
