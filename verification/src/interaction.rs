use vstd::prelude::*;

use crate::editor::TextEditor;

verus! {

/// Whether the prompt sends a message or runs a shell command.
#[derive(PartialEq, Eq, Structural, Clone, Copy, Debug)]
pub enum PromptMode {
    Normal,
    Shell,
}

/// The command the prompt switches to shell mode with: its text after a
/// leading `!`, when it is in normal mode.
pub open spec fn shell_switch_of(mode: PromptMode, text: Seq<char>) -> Option<Seq<char>> {
    if mode == PromptMode::Normal && text.len() > 0 && text[0] == '!' {
        Some(text.drop_first())
    } else {
        None
    }
}

pub fn shell_switch(mode: PromptMode, text: &str) -> (r: Option<String>)
    ensures
        crate::text::opt_chars(r) == shell_switch_of(mode, text@),
{
    if mode != PromptMode::Normal {
        return None;
    }
    let chars = crate::text::chars_of(text);
    if chars.len() == 0 || chars[0] != '!' {
        return None;
    }
    let mut rest: Vec<char> = Vec::new();
    let mut i: usize = 1;
    while i < chars.len()
        invariant
            1 <= i <= chars@.len(),
            chars@ == text@,
            rest@ == chars@.subrange(1, i as int),
        decreases chars@.len() - i,
    {
        rest.push(chars[i]);
        assert(chars@.subrange(1, i + 1) =~= chars@.subrange(1, i as int).push(chars@[i as int]));
        i += 1;
    }
    assert(chars@.subrange(1, chars@.len() as int) =~= text@.drop_first());
    Some(crate::text::string_of(&rest))
}

/// Where a part stands in the timeline's two sets: opened by the user, and
/// closed by the user although it opens by default.
#[derive(PartialEq, Eq, Structural, Clone, Copy, Debug)]
pub struct Expansion {
    pub expanded: bool,
    pub collapsed: bool,
}

/// Whether a part shows its details: opened by the user, or open by default
/// (a diff, when diffs expand) and not closed.
pub open spec fn shows_details(e: Expansion, default_expanded: bool) -> bool {
    e.expanded || (default_expanded && !e.collapsed)
}

/// The sets after the user toggles a part.
pub open spec fn toggled(e: Expansion, default_expanded: bool) -> Expansion {
    if shows_details(e, default_expanded) {
        Expansion {
            expanded: false,
            collapsed: if default_expanded {
                true
            } else {
                e.collapsed
            },
        }
    } else {
        Expansion { expanded: true, collapsed: false }
    }
}

pub fn toggle_expansion(e: Expansion, default_expanded: bool) -> (r: Expansion)
    ensures
        r == toggled(e, default_expanded),
{
    if e.expanded || (default_expanded && !e.collapsed) {
        Expansion { expanded: false, collapsed: if default_expanded { true } else { e.collapsed } }
    } else {
        Expansion { expanded: true, collapsed: false }
    }
}

/// Each toggle flips whether the part shows its details.
pub proof fn law_toggle_flips_details(e: Expansion, default_expanded: bool)
    ensures
        shows_details(toggled(e, default_expanded), default_expanded) == !shows_details(
            e,
            default_expanded,
        ),
{
}

/// What submitting a shell command does.
pub enum ShellSubmission {
    /// Refuse it, show the reason, and put the command back in the prompt.
    Refuse(String),
    /// A blank command: nothing happens.
    Ignore,
    /// Run the command in this session.
    Run(String),
}

/// Decides a shell submission: attachments and a missing session refuse it
/// (in that order), a blank command is ignored.
pub fn shell_submission(has_attachments: bool, command: &str, session_id: Option<&str>) -> (r: ShellSubmission)
    ensures
        has_attachments ==> (r matches ShellSubmission::Refuse(m) && m@
            == "shell mode does not accept attachments"@),
        !has_attachments && crate::text::trimmed(command@).len() == 0 ==> r is Ignore,
        !has_attachments && crate::text::trimmed(command@).len() > 0 ==> match session_id {
            Some(id) => r matches ShellSubmission::Run(s) && s@ == id@,
            None => r matches ShellSubmission::Refuse(m) && m@ == "no active session"@,
        },
{
    proof {
        reveal_strlit("shell mode does not accept attachments");
        reveal_strlit("no active session");
    }
    if has_attachments {
        return ShellSubmission::Refuse("shell mode does not accept attachments".to_owned());
    }
    let trimmed = crate::text::trim(command);
    if trimmed.as_str().is_empty() {
        return ShellSubmission::Ignore;
    }
    match session_id {
        Some(id) => ShellSubmission::Run(id.to_owned()),
        None => ShellSubmission::Refuse("no active session".to_owned()),
    }
}

/// Submits a shell command typed in a prompt. A refused command shows the
/// reason and goes back into the prompt; a blank one changes nothing; one that
/// runs clears the shown error and gives the session to run it in.
pub fn submit_shell(
    editor: &mut TextEditor,
    prompt_error: &mut Option<String>,
    has_attachments: bool,
    command: String,
    session_id: Option<&str>,
) -> (r: Option<String>)
    ensures
        has_attachments ==> r is None && final(editor)@ == old(editor)@.restored(command@)
            && (*final(prompt_error) matches Some(m) && m@
            == "shell mode does not accept attachments"@),
        !has_attachments && crate::text::trimmed(command@).len() == 0 ==> r is None
            && final(editor)@ == old(editor)@ && *final(prompt_error) == *old(prompt_error),
        !has_attachments && crate::text::trimmed(command@).len() > 0 ==> match session_id {
            Some(id) => (r matches Some(s) && s@ == id@) && final(editor)@ == old(editor)@
                && *final(prompt_error) is None,
            None => r is None && final(editor)@ == old(editor)@.restored(command@)
                && (*final(prompt_error) matches Some(m) && m@ == "no active session"@),
        },
{
    match shell_submission(has_attachments, command.as_str(), session_id) {
        ShellSubmission::Refuse(message) => {
            *prompt_error = Some(message);
            editor.restore_text(command.as_str());
            None
        },
        ShellSubmission::Ignore => None,
        ShellSubmission::Run(id) => {
            *prompt_error = None;
            Some(id)
        },
    }
}

} // verus!
