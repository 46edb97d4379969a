use vstd::prelude::*;

use crate::commands::{action_of, Command, CommandAction, SelectionKind};
use crate::selection::{accepted, items_view, ComposerSelection, SelectionItem, SelectionItemView};
use crate::workspace::{DirectoryTimeline, WorkspaceState};

verus! {

/// The overlay drawn over the workspace, if any.
#[derive(PartialEq, Eq, Structural, Clone, Copy, Debug)]
pub enum Overlay {
    Closed,
    Command,
    Directory,
    Selection(SelectionKind),
    Timeline,
    MessageActions,
    Status,
    Debug,
}

/// The window's own state around the open tabs: the overlay, the session
/// pane, the diff preference, the command palette's query, where focus goes
/// on the next frame, and the active tab.
pub struct WorkspaceUi {
    pub overlay: Overlay,
    pub sessions_open: bool,
    pub expand_diffs: bool,
    pub command_query: String,
    /// Focus the prompt editor on the next frame.
    pub focus_editor: bool,
    /// Focus the overlay's query field on the next frame.
    pub focus_overlay: bool,
    pub active_tab: usize,
    /// The tab switch whose follow-up (focusing the prompt and saving the
    /// layout) waits for its short delay to run out, by its generation.
    pub pending_switch: Option<u64>,
    /// The generation of the latest delayed tab switch.
    pub switch_generation: u64,
}

pub struct WorkspaceUiView {
    pub overlay: Overlay,
    pub sessions_open: bool,
    pub expand_diffs: bool,
    pub command_query: Seq<char>,
    pub focus_editor: bool,
    pub focus_overlay: bool,
    pub active_tab: usize,
    pub pending_switch: Option<u64>,
    pub switch_generation: u64,
}

impl View for WorkspaceUi {
    type V = WorkspaceUiView;

    open spec fn view(&self) -> WorkspaceUiView {
        WorkspaceUiView {
            overlay: self.overlay,
            sessions_open: self.sessions_open,
            expand_diffs: self.expand_diffs,
            command_query: self.command_query@,
            focus_editor: self.focus_editor,
            focus_overlay: self.focus_overlay,
            active_tab: self.active_tab,
            pending_switch: self.pending_switch,
            switch_generation: self.switch_generation,
        }
    }
}

/// The next generation: counters wrap around.
pub open spec fn next_switch(g: u64) -> u64 {
    if g == u64::MAX {
        0
    } else {
        (g + 1) as u64
    }
}

/// Switching to tab `index` of `tabs` at once (from the tab bar, or when a
/// directory opens): the tab becomes active, focus goes to the prompt, and a
/// delayed switch still waiting is dropped. Nothing happens for a tab that
/// does not exist or is active already.
pub open spec fn switched(u: WorkspaceUiView, index: usize, tabs: usize) -> WorkspaceUiView {
    if index >= tabs || index == u.active_tab {
        u
    } else {
        WorkspaceUiView { active_tab: index, focus_editor: true, pending_switch: None, ..u }
    }
}

/// Switching to tab `index` of `tabs` with the follow-up put off (when
/// stepping through tabs): the tab becomes active, focus stays as it is, and
/// the switch waits, under a new generation, for its follow-up.
pub open spec fn switch_started(u: WorkspaceUiView, index: usize, tabs: usize) -> WorkspaceUiView {
    if index >= tabs || index == u.active_tab {
        u
    } else {
        WorkspaceUiView {
            active_tab: index,
            switch_generation: next_switch(u.switch_generation),
            pending_switch: Some(next_switch(u.switch_generation)),
            ..u
        }
    }
}

/// The window once the delay of switch `generation` ran out: when that
/// switch is the one waiting, focus goes to the prompt and nothing waits any
/// more; a later switch, or one done at once, made it stale.
pub open spec fn switch_finished(u: WorkspaceUiView, generation: u64) -> WorkspaceUiView {
    if u.pending_switch == Some(generation) {
        WorkspaceUiView { focus_editor: true, pending_switch: None, ..u }
    } else {
        u
    }
}

/// The window after running `command` with `tabs` tabs open: the overlay
/// closes and the palette's query empties, then the command does its part
/// (opening an overlay, toggling the session pane or the diff preference,
/// switching tabs); when no overlay is left open, focus goes to the prompt.
pub open spec fn after_command(u: WorkspaceUiView, command: Command, tabs: usize, has_session: bool) -> WorkspaceUiView {
    let base = WorkspaceUiView { overlay: Overlay::Closed, command_query: Seq::empty(), ..u };
    let done = match action_of(command, u.active_tab, tabs, has_session) {
        CommandAction::OpenDirectoryPicker => WorkspaceUiView {
            overlay: Overlay::Directory,
            focus_overlay: true,
            ..base
        },
        CommandAction::ToggleSessions => WorkspaceUiView { sessions_open: !u.sessions_open, ..base },
        CommandAction::ToggleDiffExpansion => WorkspaceUiView { expand_diffs: !u.expand_diffs, ..base },
        CommandAction::SwitchDirectory(i) => switch_started(base, i, tabs),
        CommandAction::FocusComposer => WorkspaceUiView { focus_editor: true, ..base },
        CommandAction::OpenSelection(kind) => WorkspaceUiView {
            overlay: Overlay::Selection(kind),
            focus_overlay: true,
            ..base
        },
        CommandAction::OpenStatusDialog => WorkspaceUiView {
            overlay: Overlay::Status,
            focus_overlay: true,
            ..base
        },
        CommandAction::OpenDebugDialog => WorkspaceUiView {
            overlay: Overlay::Debug,
            focus_overlay: true,
            ..base
        },
        _ => base,
    };
    if done.overlay == Overlay::Closed {
        WorkspaceUiView { focus_editor: true, ..done }
    } else {
        done
    }
}


impl WorkspaceUi {
    pub fn new(expand_diffs: bool) -> (r: WorkspaceUi)
        ensures
            r@ == (WorkspaceUiView {
                overlay: Overlay::Closed,
                sessions_open: true,
                expand_diffs,
                command_query: Seq::empty(),
                focus_editor: false,
                focus_overlay: false,
                active_tab: 0,
                pending_switch: None,
                switch_generation: 0,
            }),
    {
        WorkspaceUi {
            overlay: Overlay::Closed,
            sessions_open: true,
            expand_diffs,
            command_query: String::new(),
            focus_editor: false,
            focus_overlay: false,
            active_tab: 0,
            pending_switch: None,
            switch_generation: 0,
        }
    }

    /// Makes tab `index` of `tabs` the active one at once, focusing the
    /// prompt; the caller saves the layout.
    pub fn switch_directory_immediately(&mut self, index: usize, tabs: usize)
        ensures
            final(self)@ == switched(old(self)@, index, tabs),
    {
        if index >= tabs || index == self.active_tab {
            return;
        }
        self.pending_switch = None;
        self.active_tab = index;
        self.focus_editor = true;
    }

    /// Makes tab `index` of `tabs` the active one and puts off the rest:
    /// returns the generation of the switch, for which the caller runs
    /// `finish_switch` once the short delay ran out; none when nothing
    /// changed.
    pub fn switch_directory(&mut self, index: usize, tabs: usize) -> (r: Option<u64>)
        ensures
            final(self)@ == switch_started(old(self)@, index, tabs),
            r == (if index < tabs && index != old(self)@.active_tab {
                Some(next_switch(old(self)@.switch_generation))
            } else {
                None
            }),
    {
        if index >= tabs || index == self.active_tab {
            return None;
        }
        self.active_tab = index;
        self.switch_generation = self.switch_generation.wrapping_add(1);
        self.pending_switch = Some(self.switch_generation);
        Some(self.switch_generation)
    }

    /// Runs the follow-up of delayed switch `generation`: when it is the one
    /// waiting, focus goes to the prompt and it returns true, and the caller
    /// saves the layout; otherwise nothing changes.
    pub fn finish_switch(&mut self, generation: u64) -> (r: bool)
        ensures
            r == (old(self)@.pending_switch == Some(generation)),
            final(self)@ == switch_finished(old(self)@, generation),
    {
        let current = match self.pending_switch {
            Some(g) => g == generation,
            None => false,
        };
        if current {
            self.focus_editor = true;
            self.pending_switch = None;
        }
        current
    }

    /// Runs a palette command: returns what it asks of the rest of the
    /// client (creating or moving sessions, aborting, loading history,
    /// closing tabs or the inspector), and makes its own changes. Stepping
    /// to another tab is a delayed switch: its generation is then the one in
    /// `pending_switch`.
    pub fn run_command(&mut self, command: Command, tabs: usize, has_session: bool) -> (r: CommandAction)
        requires
            command == Command::NextWorkspace ==> tabs > 0 && old(self).active_tab < usize::MAX,
            command == Command::PreviousWorkspace ==> tabs > 0,
        ensures
            r == action_of(command, old(self).active_tab, tabs, has_session),
            final(self)@ == after_command(old(self)@, command, tabs, has_session),
    {
        let action = crate::commands::command_action(command, self.active_tab, tabs, has_session);
        self.overlay = Overlay::Closed;
        self.command_query = String::new();
        match action {
            CommandAction::OpenDirectoryPicker => {
                self.overlay = Overlay::Directory;
                self.focus_overlay = true;
            },
            CommandAction::ToggleSessions => self.sessions_open = !self.sessions_open,
            CommandAction::ToggleDiffExpansion => self.expand_diffs = !self.expand_diffs,
            CommandAction::SwitchDirectory(i) => {
                let _ = self.switch_directory(i, tabs);
            },
            CommandAction::FocusComposer => self.focus_editor = true,
            CommandAction::OpenSelection(kind) => {
                self.overlay = Overlay::Selection(kind);
                self.focus_overlay = true;
            },
            CommandAction::OpenStatusDialog => {
                self.overlay = Overlay::Status;
                self.focus_overlay = true;
            },
            CommandAction::OpenDebugDialog => {
                self.overlay = Overlay::Debug;
                self.focus_overlay = true;
            },
            _ => {},
        }
        if self.overlay == Overlay::Closed {
            self.focus_editor = true;
        }
        action
    }

    /// Takes row `index` of the picker's rows into the active tab's
    /// selection (`selection`, when a tab is open): the picker closes, its
    /// rows and the query empty, and focus goes to the prompt. Returns
    /// false, changing nothing, for a row that does not exist or without an
    /// open tab.
    pub fn accept_selection(
        &mut self,
        rows: &mut Vec<SelectionItem>,
        selection: &mut ComposerSelection,
        has_tab: bool,
        index: usize,
    ) -> (r: bool)
        ensures
            r == (index < old(rows)@.len() && has_tab),
            r ==> final(selection)@ == accepted(old(selection)@, old(rows)@[index as int]@)
                && final(self)@ == (WorkspaceUiView {
                overlay: Overlay::Closed,
                command_query: Seq::empty(),
                focus_editor: true,
                ..old(self)@
            }) && final(rows)@.len() == 0,
            !r ==> final(self)@ == old(self)@ && items_view(final(rows)@) == items_view(old(rows)@)
                && final(selection)@ == old(selection)@,
    {
        if index >= rows.len() || !has_tab {
            return false;
        }
        let item = rows.remove(index);
        selection.accept(item);
        self.overlay = Overlay::Closed;
        *rows = Vec::new();
        self.command_query = String::new();
        self.focus_editor = true;
        true
    }
}

/// Opens a workspace directory: an open one becomes the active tab; a new
/// one gets a tab at the end, which becomes active. Returns whether the tab
/// is new, and so whether its sessions are to be listed (which then shows
/// its latest root session).
pub fn open_directory(state: &mut WorkspaceState, ui: &mut WorkspaceUi, directory: String) -> (r: bool)
    requires
        old(state).tabs@.len() < usize::MAX,
    ensures
        ({
            let i = crate::sessions::tab_index(old(state)@.tabs, directory@);
            if i < old(state)@.tabs.len() {
                !r && final(state)@ == old(state)@ && final(ui)@ == switched(
                    old(ui)@,
                    i as usize,
                    old(state)@.tabs.len() as usize,
                )
            } else {
                r && final(state)@ == crate::workspace::WorkspaceView {
                    tabs: old(state)@.tabs.push(crate::workspace::empty_tab(directory@)),
                    ..old(state)@
                } && final(ui)@ == switched(
                    old(ui)@,
                    old(state)@.tabs.len() as usize,
                    (old(state)@.tabs.len() + 1) as usize,
                )
            }
        }),
{
    let i = crate::sessions::find_tab(&state.tabs, directory.as_str());
    let n = state.tabs.len();
    if i < n {
        ui.switch_directory_immediately(i, n);
        return false;
    }
    let ghost before = crate::workspace::tabs_view(state.tabs@);
    state.tabs.push(DirectoryTimeline::new(directory));
    assert(crate::workspace::tabs_view(state.tabs@) =~= before.push(crate::workspace::empty_tab(directory@)));
    ui.switch_directory_immediately(n, n + 1);
    true
}

/// Running a command empties the palette's query; toggling the session
/// pane or the diff preference flips it, so doing it twice gives it back;
/// opening the directory picker or a dialog shows that overlay with its
/// field focused; any command that leaves no overlay focuses the prompt.
pub proof fn law_commands_change_the_window(u: WorkspaceUiView, tabs: usize, has_session: bool, command: Command)
    ensures
        after_command(u, command, tabs, has_session).command_query.len() == 0,
        after_command(u, Command::ToggleSessions, tabs, has_session).sessions_open == !u.sessions_open,
        after_command(after_command(u, Command::ToggleSessions, tabs, has_session), Command::ToggleSessions, tabs, has_session).sessions_open == u.sessions_open,
        after_command(u, Command::ToggleDiffExpansion, tabs, has_session).expand_diffs == !u.expand_diffs,
        after_command(u, Command::OpenDirectory, tabs, has_session).overlay == Overlay::Directory,
        after_command(u, Command::OpenDirectory, tabs, has_session).focus_overlay,
        after_command(u, Command::Status, tabs, has_session).overlay == Overlay::Status,
        after_command(u, Command::Debug, tabs, has_session).overlay == Overlay::Debug,
        after_command(u, command, tabs, has_session).overlay == Overlay::Closed ==> after_command(
            u,
            command,
            tabs,
            has_session,
        ).focus_editor,
{
}

/// A delayed switch activates the tab and leaves focus where it was; once
/// its delay ran out, it focuses the prompt, unless a later switch took its
/// place; a switch done at once focuses the prompt and leaves nothing
/// waiting.
pub proof fn law_delayed_switch_focuses_later(u: WorkspaceUiView, index: usize, tabs: usize)
    requires
        index < tabs,
        index != u.active_tab,
    ensures
        switch_started(u, index, tabs).active_tab == index,
        switch_started(u, index, tabs).focus_editor == u.focus_editor,
        switch_finished(switch_started(u, index, tabs), next_switch(u.switch_generation)).focus_editor,
        switch_finished(switch_started(u, index, tabs), next_switch(u.switch_generation)).pending_switch is None,
        switch_finished(switch_started(u, index, tabs), u.switch_generation) == switch_started(u, index, tabs),
        switched(u, index, tabs).active_tab == index,
        switched(u, index, tabs).focus_editor,
        switched(u, index, tabs).pending_switch is None,
{
    assert(next_switch(u.switch_generation) != u.switch_generation);
}

} // verus!
