use vstd::prelude::*;

use crate::seqs::lemma_filter_push;
use crate::text::{contains, contains_seq, lowercase, to_lowercase, trim, trimmed};

verus! {

/// A command of the command palette.
#[derive(PartialEq, Eq, Structural, Clone, Copy, Debug)]
pub enum Command {
    OpenDirectory,
    NewSession,
    ToggleSessions,
    NextSession,
    PreviousSession,
    AbortSession,
    LoadOlder,
    CloseInspector,
    NextWorkspace,
    PreviousWorkspace,
    CloseWorkspace,
    FocusComposer,
    SelectAgent,
    SelectModel,
    SelectVariant,
    ToggleDiffExpansion,
    Status,
    Debug,
}

/// Every command, in the order the palette lists them.
pub open spec fn all_commands() -> Seq<Command> {
    seq![
        Command::OpenDirectory,
        Command::NewSession,
        Command::ToggleSessions,
        Command::NextSession,
        Command::PreviousSession,
        Command::AbortSession,
        Command::LoadOlder,
        Command::CloseInspector,
        Command::NextWorkspace,
        Command::PreviousWorkspace,
        Command::CloseWorkspace,
        Command::FocusComposer,
        Command::SelectAgent,
        Command::SelectModel,
        Command::SelectVariant,
        Command::ToggleDiffExpansion,
        Command::Status,
        Command::Debug,
    ]
}

pub open spec fn label_of(command: Command) -> Seq<char> {
    match command {
        Command::OpenDirectory => "open directory"@,
        Command::NewSession => "new session"@,
        Command::ToggleSessions => "toggle session history"@,
        Command::NextSession => "next session"@,
        Command::PreviousSession => "previous session"@,
        Command::AbortSession => "abort active response"@,
        Command::LoadOlder => "load older messages"@,
        Command::CloseInspector => "close inspector"@,
        Command::NextWorkspace => "next workspace"@,
        Command::PreviousWorkspace => "previous workspace"@,
        Command::CloseWorkspace => "close workspace"@,
        Command::FocusComposer => "focus composer"@,
        Command::SelectAgent => "select agent"@,
        Command::SelectModel => "select model"@,
        Command::SelectVariant => "select model variant"@,
        Command::ToggleDiffExpansion => "toggle automatic diff expansion"@,
        Command::Status => "show server status"@,
        Command::Debug => "show debug information"@,
    }
}

pub open spec fn category_of(command: Command) -> Seq<char> {
    match command {
        Command::OpenDirectory
        | Command::NextWorkspace
        | Command::PreviousWorkspace
        | Command::CloseWorkspace => "workspace"@,
        Command::FocusComposer
        | Command::SelectAgent
        | Command::SelectModel
        | Command::SelectVariant => "prompt"@,
        Command::CloseInspector
        | Command::ToggleDiffExpansion
        | Command::Status
        | Command::Debug => "view"@,
        Command::NewSession
        | Command::ToggleSessions
        | Command::NextSession
        | Command::PreviousSession
        | Command::AbortSession
        | Command::LoadOlder => "session"@,
    }
}

pub open spec fn hint_of(command: Command) -> Seq<char> {
    match command {
        Command::OpenDirectory => "ctrl+t"@,
        Command::NewSession => "ctrl+n"@,
        Command::ToggleSessions => "ctrl+b"@,
        Command::NextSession => "alt+down"@,
        Command::PreviousSession => "alt+up"@,
        Command::NextWorkspace => "ctrl+tab"@,
        Command::PreviousWorkspace => "ctrl+shift+tab"@,
        Command::CloseWorkspace => "ctrl+w"@,
        _ => ""@,
    }
}

impl Command {
    /// Every command, in the order the palette lists them.
    pub fn all() -> (r: [Command; 18])
        ensures
            r@ == all_commands(),
    {
        let r = [
            Command::OpenDirectory,
            Command::NewSession,
            Command::ToggleSessions,
            Command::NextSession,
            Command::PreviousSession,
            Command::AbortSession,
            Command::LoadOlder,
            Command::CloseInspector,
            Command::NextWorkspace,
            Command::PreviousWorkspace,
            Command::CloseWorkspace,
            Command::FocusComposer,
            Command::SelectAgent,
            Command::SelectModel,
            Command::SelectVariant,
            Command::ToggleDiffExpansion,
            Command::Status,
            Command::Debug,
        ];
        assert(r@ =~= all_commands());
        r
    }

    pub fn label(self) -> (r: &'static str)
        ensures
            r@ == label_of(self),
    {
        match self {
            Command::OpenDirectory => "open directory",
            Command::NewSession => "new session",
            Command::ToggleSessions => "toggle session history",
            Command::NextSession => "next session",
            Command::PreviousSession => "previous session",
            Command::AbortSession => "abort active response",
            Command::LoadOlder => "load older messages",
            Command::CloseInspector => "close inspector",
            Command::NextWorkspace => "next workspace",
            Command::PreviousWorkspace => "previous workspace",
            Command::CloseWorkspace => "close workspace",
            Command::FocusComposer => "focus composer",
            Command::SelectAgent => "select agent",
            Command::SelectModel => "select model",
            Command::SelectVariant => "select model variant",
            Command::ToggleDiffExpansion => "toggle automatic diff expansion",
            Command::Status => "show server status",
            Command::Debug => "show debug information",
        }
    }

    pub fn category(self) -> (r: &'static str)
        ensures
            r@ == category_of(self),
    {
        match self {
            Command::OpenDirectory
            | Command::NextWorkspace
            | Command::PreviousWorkspace
            | Command::CloseWorkspace => "workspace",
            Command::FocusComposer
            | Command::SelectAgent
            | Command::SelectModel
            | Command::SelectVariant => "prompt",
            Command::CloseInspector
            | Command::ToggleDiffExpansion
            | Command::Status
            | Command::Debug => "view",
            Command::NewSession
            | Command::ToggleSessions
            | Command::NextSession
            | Command::PreviousSession
            | Command::AbortSession
            | Command::LoadOlder => "session",
        }
    }

    pub fn hint(self) -> (r: &'static str)
        ensures
            r@ == hint_of(self),
    {
        match self {
            Command::OpenDirectory => "ctrl+t",
            Command::NewSession => "ctrl+n",
            Command::ToggleSessions => "ctrl+b",
            Command::NextSession => "alt+down",
            Command::PreviousSession => "alt+up",
            Command::NextWorkspace => "ctrl+tab",
            Command::PreviousWorkspace => "ctrl+shift+tab",
            Command::CloseWorkspace => "ctrl+w",
            _ => "",
        }
    }
}

/// What the palette needs to know of the workspace to offer a command.
pub struct CommandContext {
    /// Whether a workspace directory is open.
    pub has_tab: bool,
    pub tab_count: usize,
    /// Root sessions listed for the active directory.
    pub directory_sessions: usize,
    /// Whether the active session is working or waiting to retry.
    pub session_active: bool,
    pub timeline_ready: bool,
    pub history_exhausted: bool,
    pub history_loading: bool,
    pub inspector_open: bool,
    /// Whether the catalog is loaded and the chosen model has variants.
    pub variants_available: bool,
}

/// Whether the palette offers the command in the given context.
pub open spec fn available_in(command: Command, context: CommandContext) -> bool {
    if !context.has_tab {
        command == Command::OpenDirectory
    } else {
        match command {
            Command::NextWorkspace | Command::PreviousWorkspace => context.tab_count > 1,
            Command::NextSession | Command::PreviousSession => context.directory_sessions > 1,
            Command::AbortSession => context.session_active,
            Command::LoadOlder => context.timeline_ready && !context.history_exhausted
                && !context.history_loading,
            Command::CloseInspector => context.inspector_open,
            Command::SelectVariant => context.variants_available,
            _ => true,
        }
    }
}

/// Whether a command matches an already lowered and trimmed query.
pub open spec fn command_matches(command: Command, query: Seq<char>) -> bool {
    query.len() == 0 || contains_seq(label_of(command), query) || contains_seq(
        category_of(command),
        query,
    )
}

/// The commands the palette lists for a query: the available ones whose label
/// or category holds the query, trimmed and lowered.
pub open spec fn offered(context: CommandContext, query: Seq<char>) -> Seq<Command> {
    all_commands().filter(
        |c: Command| available_in(c, context) && command_matches(c, lowercase(trimmed(query))),
    )
}

impl CommandContext {
    pub fn available(&self, command: Command) -> (r: bool)
        ensures
            r == available_in(command, *self),
    {
        if !self.has_tab {
            return command == Command::OpenDirectory;
        }
        match command {
            Command::NextWorkspace | Command::PreviousWorkspace => self.tab_count > 1,
            Command::NextSession | Command::PreviousSession => self.directory_sessions > 1,
            Command::AbortSession => self.session_active,
            Command::LoadOlder => self.timeline_ready && !self.history_exhausted
                && !self.history_loading,
            Command::CloseInspector => self.inspector_open,
            Command::SelectVariant => self.variants_available,
            _ => true,
        }
    }

    /// The commands the palette lists for `query`, in palette order.
    pub fn filtered_commands(&self, query: &str) -> (r: Vec<Command>)
        ensures
            r@ == offered(*self, query@),
    {
        let trimmed_query = trim(query);
        let needle = to_lowercase(trimmed_query.as_str());
        let all = Command::all();
        let ghost pred = |c: Command|
            available_in(c, *self) && command_matches(c, lowercase(trimmed(query@)));
        let mut out: Vec<Command> = Vec::new();
        let mut i: usize = 0;
        while i < 18
            invariant
                i <= 18,
                all@ == all_commands(),
                needle@ == lowercase(trimmed(query@)),
                pred == (|c: Command|
                    available_in(c, *self) && command_matches(c, lowercase(trimmed(query@)))),
                out@ == all_commands().take(i as int).filter(pred),
            decreases 18 - i,
        {
            let command = all[i];
            let keep = self.available(command) && (needle.as_str().is_empty() || contains(
                command.label(),
                needle.as_str(),
            ) || contains(command.category(), needle.as_str()));
            proof {
                lemma_filter_push(all_commands().take(i as int), command, pred);
                assert(all_commands().take(i + 1) =~= all_commands().take(i as int).push(command));
            }
            if keep {
                out.push(command);
            }
            i += 1;
        }
        assert(all_commands().take(18) =~= all_commands());
        out
    }
}

/// The pickers a command can open.
#[derive(PartialEq, Eq, Structural, Clone, Copy, Debug)]
pub enum SelectionKind {
    Agent,
    Model,
    Variant,
}

/// What running a command does.
#[derive(PartialEq, Eq, Structural, Clone, Copy, Debug)]
pub enum CommandAction {
    OpenDirectoryPicker,
    CreateSession,
    ToggleSessions,
    /// Select the session this many places along the directory's list.
    MoveSession(isize),
    /// Abort the response of the active session.
    AbortSession,
    LoadOlder,
    CloseInspector,
    /// Switch to the workspace tab at this position.
    SwitchDirectory(usize),
    /// Close the workspace tab at this position.
    CloseDirectory(usize),
    FocusComposer,
    OpenSelection(SelectionKind),
    ToggleDiffExpansion,
    OpenStatusDialog,
    OpenDebugDialog,
    /// Nothing to do (no session to abort).
    Nothing,
}

/// What running `command` does with tab `active` of `tabs` open, whose
/// timeline shows a session when `has_session` holds.
pub open spec fn action_of(command: Command, active: usize, tabs: usize, has_session: bool) -> CommandAction {
    match command {
        Command::OpenDirectory => CommandAction::OpenDirectoryPicker,
        Command::NewSession => CommandAction::CreateSession,
        Command::ToggleSessions => CommandAction::ToggleSessions,
        Command::NextSession => CommandAction::MoveSession(1isize),
        Command::PreviousSession => CommandAction::MoveSession(-1isize),
        Command::AbortSession => if has_session {
            CommandAction::AbortSession
        } else {
            CommandAction::Nothing
        },
        Command::LoadOlder => CommandAction::LoadOlder,
        Command::CloseInspector => CommandAction::CloseInspector,
        Command::NextWorkspace => CommandAction::SwitchDirectory(((active + 1) % (tabs as int)) as usize),
        Command::PreviousWorkspace => CommandAction::SwitchDirectory(
            if active > 0 {
                (active - 1) as usize
            } else {
                (tabs - 1) as usize
            },
        ),
        Command::CloseWorkspace => CommandAction::CloseDirectory(active),
        Command::FocusComposer => CommandAction::FocusComposer,
        Command::SelectAgent => CommandAction::OpenSelection(SelectionKind::Agent),
        Command::SelectModel => CommandAction::OpenSelection(SelectionKind::Model),
        Command::SelectVariant => CommandAction::OpenSelection(SelectionKind::Variant),
        Command::ToggleDiffExpansion => CommandAction::ToggleDiffExpansion,
        Command::Status => CommandAction::OpenStatusDialog,
        Command::Debug => CommandAction::OpenDebugDialog,
    }
}

/// What running a command does; switching workspaces needs an open tab.
pub fn command_action(command: Command, active: usize, tabs: usize, has_session: bool) -> (r: CommandAction)
    requires
        command == Command::NextWorkspace ==> tabs > 0 && active < usize::MAX,
        command == Command::PreviousWorkspace ==> tabs > 0,
    ensures
        r == action_of(command, active, tabs, has_session),
{
    match command {
        Command::OpenDirectory => CommandAction::OpenDirectoryPicker,
        Command::NewSession => CommandAction::CreateSession,
        Command::ToggleSessions => CommandAction::ToggleSessions,
        Command::NextSession => CommandAction::MoveSession(1),
        Command::PreviousSession => CommandAction::MoveSession(-1),
        Command::AbortSession => if has_session {
            CommandAction::AbortSession
        } else {
            CommandAction::Nothing
        },
        Command::LoadOlder => CommandAction::LoadOlder,
        Command::CloseInspector => CommandAction::CloseInspector,
        Command::NextWorkspace => CommandAction::SwitchDirectory((active + 1) % tabs),
        Command::PreviousWorkspace => CommandAction::SwitchDirectory(
            if active > 0 {
                active - 1
            } else {
                tabs - 1
            },
        ),
        Command::CloseWorkspace => CommandAction::CloseDirectory(active),
        Command::FocusComposer => CommandAction::FocusComposer,
        Command::SelectAgent => CommandAction::OpenSelection(SelectionKind::Agent),
        Command::SelectModel => CommandAction::OpenSelection(SelectionKind::Model),
        Command::SelectVariant => CommandAction::OpenSelection(SelectionKind::Variant),
        Command::ToggleDiffExpansion => CommandAction::ToggleDiffExpansion,
        Command::Status => CommandAction::OpenStatusDialog,
        Command::Debug => CommandAction::OpenDebugDialog,
    }
}

/// Switching to the next workspace tab and then to the previous one comes
/// back to the same tab.
pub proof fn law_next_then_previous_workspace_returns(active: usize, tabs: usize)
    requires
        active < tabs,
    ensures
        match action_of(Command::NextWorkspace, active, tabs, false) {
            CommandAction::SwitchDirectory(next) => action_of(Command::PreviousWorkspace, next, tabs, false)
                == CommandAction::SwitchDirectory(active),
            _ => false,
        },
{
    if active + 1 < tabs {
        vstd::arithmetic::div_mod::lemma_small_mod((active + 1) as nat, tabs as nat);
    } else {
        vstd::arithmetic::div_mod::lemma_mod_self_0(tabs as int);
    }
}

/// When the palette offers a command: with no directory open, only opening
/// one; with one open, stepping between workspaces needs two tabs, stepping
/// between sessions two root sessions, aborting a session that works or
/// waits to retry, loading older messages a ready timeline with more history
/// not already loading, closing the inspector an open inspector, and picking
/// a variant a model that has variants; every other command is always there.
pub proof fn law_command_availability(c: CommandContext)
    ensures
        forall|command: Command|
            !c.has_tab ==> (available_in(command, c) <==> command == Command::OpenDirectory),
        available_in(Command::AbortSession, c) == (c.has_tab && c.session_active),
        available_in(Command::NextWorkspace, c) == (c.has_tab && c.tab_count > 1),
        available_in(Command::PreviousWorkspace, c) == (c.has_tab && c.tab_count > 1),
        available_in(Command::NextSession, c) == (c.has_tab && c.directory_sessions > 1),
        available_in(Command::PreviousSession, c) == (c.has_tab && c.directory_sessions > 1),
        available_in(Command::LoadOlder, c) == (c.has_tab && c.timeline_ready
            && !c.history_exhausted && !c.history_loading),
        available_in(Command::CloseInspector, c) == (c.has_tab && c.inspector_open),
        available_in(Command::SelectVariant, c) == (c.has_tab && c.variants_available),
        available_in(Command::OpenDirectory, c),
        c.has_tab ==> available_in(Command::NewSession, c) && available_in(Command::ToggleSessions, c)
            && available_in(Command::CloseWorkspace, c) && available_in(Command::FocusComposer, c)
            && available_in(Command::SelectAgent, c) && available_in(Command::SelectModel, c)
            && available_in(Command::ToggleDiffExpansion, c) && available_in(Command::Status, c)
            && available_in(Command::Debug, c),
{
}

/// The palette lists aborting the active response exactly when a directory
/// is open, its session works or waits to retry, and the query (trimmed and
/// lowered) matches the command.
pub proof fn law_abort_offered_while_session_active(c: CommandContext, query: Seq<char>)
    ensures
        offered(c, query).contains(Command::AbortSession) <==> (c.has_tab && c.session_active
            && command_matches(Command::AbortSession, lowercase(trimmed(query)))),
{
    let pred = |x: Command| available_in(x, c) && command_matches(x, lowercase(trimmed(query)));
    let all = all_commands();
    assert(all[5] == Command::AbortSession);
    if pred(Command::AbortSession) {
        all.lemma_filter_contains(pred, 5);
    }
    if offered(c, query).contains(Command::AbortSession) {
        let k = choose|k: int| 0 <= k < all.filter(pred).len() && all.filter(pred)[k]
            == Command::AbortSession;
        all.lemma_filter_pred(pred, k);
    }
}

/// The next workspace is the tab after the active one, the first after the
/// last; the previous one the tab before it, the last before the first. The
/// next session is one place on and the previous one place back; aborting
/// asks for it only while a session is shown; closing the workspace closes
/// the active tab; the pickers open the picker of their kind.
pub proof fn law_commands_step_the_right_way(active: usize, tabs: usize, has_session: bool)
    requires
        active < tabs,
    ensures
        active + 1 < tabs ==> action_of(Command::NextWorkspace, active, tabs, has_session)
            == CommandAction::SwitchDirectory((active + 1) as usize),
        active + 1 == tabs ==> action_of(Command::NextWorkspace, active, tabs, has_session)
            == CommandAction::SwitchDirectory(0),
        active > 0 ==> action_of(Command::PreviousWorkspace, active, tabs, has_session)
            == CommandAction::SwitchDirectory((active - 1) as usize),
        active == 0 ==> action_of(Command::PreviousWorkspace, active, tabs, has_session)
            == CommandAction::SwitchDirectory((tabs - 1) as usize),
        action_of(Command::NextSession, active, tabs, has_session) == CommandAction::MoveSession(
            1isize,
        ),
        action_of(Command::PreviousSession, active, tabs, has_session) == CommandAction::MoveSession(
            -1isize,
        ),
        (action_of(Command::AbortSession, active, tabs, has_session) == CommandAction::AbortSession)
            == has_session,
        action_of(Command::CloseWorkspace, active, tabs, has_session) == CommandAction::CloseDirectory(
            active,
        ),
        action_of(Command::SelectAgent, active, tabs, has_session) == CommandAction::OpenSelection(
            SelectionKind::Agent,
        ),
        action_of(Command::SelectModel, active, tabs, has_session) == CommandAction::OpenSelection(
            SelectionKind::Model,
        ),
        action_of(Command::SelectVariant, active, tabs, has_session) == CommandAction::OpenSelection(
            SelectionKind::Variant,
        ),
{
    if active + 1 < tabs {
        vstd::arithmetic::div_mod::lemma_small_mod((active + 1) as nat, tabs as nat);
    } else {
        vstd::arithmetic::div_mod::lemma_mod_self_0(tabs as int);
    }
}

} // verus!
