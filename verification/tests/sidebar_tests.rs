use opencode_gpui::event::SessionStatus;
use opencode_gpui::editor::TextEditor;
use opencode_gpui::interaction::{shell_submission, submit_shell, ShellSubmission};
use opencode_gpui::json::JsonValue;
use opencode_gpui::model::{Part, Session};
use opencode_gpui::sidebar::{SidebarPane, SidebarState};
use opencode_gpui::tab_bar::{TabBar, TabBarTab};
use opencode_gpui::timeline_actions::{file_attachment, is_image_mime, restored_file};
use opencode_gpui::workspace::{DirectoryTimeline, WorkspaceState};

#[test]
fn empty_shell_submission_with_an_attachment_reports_the_rejection() {
    assert!(matches!(
        shell_submission(true, "", Some("one")),
        ShellSubmission::Refuse(message) if message == "shell mode does not accept attachments"
    ));
    let mut editor = TextEditor::new("prompt");
    let mut prompt_error = None;
    assert_eq!(submit_shell(&mut editor, &mut prompt_error, true, String::new(), Some("one")), None);
    assert_eq!(prompt_error.as_deref(), Some("shell mode does not accept attachments"));
    assert_eq!(editor.text(), "");
}

#[test]
fn a_refused_shell_command_goes_back_into_the_prompt() {
    let mut editor = TextEditor::new("prompt");
    let mut prompt_error = Some("old".to_owned());
    assert_eq!(submit_shell(&mut editor, &mut prompt_error, false, "ls -la".into(), None), None);
    assert_eq!(prompt_error.as_deref(), Some("no active session"));
    assert_eq!(editor.text(), "ls -la");
    assert_eq!(editor.selected_range, 6..6);

    let mut prompt_error = Some("old".to_owned());
    assert_eq!(submit_shell(&mut editor, &mut prompt_error, false, "   ".into(), None), None);
    assert_eq!(prompt_error.as_deref(), Some("old"));

    let mut running = TextEditor::new("prompt");
    assert_eq!(
        submit_shell(&mut running, &mut prompt_error, false, "ls".into(), Some("one")),
        Some("one".to_owned())
    );
    assert_eq!(prompt_error, None);
    assert_eq!(running.text(), "");
}

#[test]
fn shell_submissions_run_in_the_shown_session() {
    assert!(matches!(shell_submission(false, "  \n", Some("one")), ShellSubmission::Ignore));
    assert!(matches!(
        shell_submission(false, "ls", None),
        ShellSubmission::Refuse(message) if message == "no active session"
    ));
    assert!(matches!(shell_submission(false, " ls ", Some("one")), ShellSubmission::Run(id) if id == "one"));
}

#[test]
fn sidebar_takes_only_the_latest_answer() {
    let mut pane: SidebarPane<u32> = SidebarPane::new();
    let (first, changed) = pane.begin(false);
    assert!(changed);
    assert!(matches!(pane.state, SidebarState::Loading));
    let (second, _) = pane.begin(false);
    assert!(!pane.finish(first, true, Ok(1), false, false));
    assert!(matches!(pane.state, SidebarState::Loading));
    assert!(!pane.finish(second, false, Ok(1), false, false));
    assert!(pane.finish(second, true, Ok(2), false, false));
    assert!(matches!(pane.state, SidebarState::Ready(2)));
}

#[test]
fn sidebar_refresh_keeps_the_snapshot_when_it_fails() {
    let mut pane: SidebarPane<u32> = SidebarPane::new();
    let (g, _) = pane.begin(false);
    pane.finish(g, true, Ok(7), false, false);
    let (g, changed) = pane.begin(true);
    assert!(!changed);
    assert!(pane.finish(g, true, Err("offline".into()), true, false));
    assert!(matches!(pane.state, SidebarState::Ready(7)));
    assert_eq!(pane.error.as_deref(), Some("context refresh failed: offline"));
    let (g, _) = pane.begin(true);
    assert!(pane.finish(g, true, Ok(7), true, true));
    assert_eq!(pane.error, None);
    let (g, _) = pane.begin(true);
    assert!(!pane.finish(g, true, Ok(7), true, true));
    let (g, changed) = pane.begin(false);
    assert!(changed);
    assert!(pane.finish(g, true, Err("gone".into()), false, false));
    assert!(matches!(&pane.state, SidebarState::Failed(e) if e == "gone"));
}

fn file_part(data: Vec<(&str, &str)>) -> Part {
    Part {
        id: "p".into(),
        session_id: "s".into(),
        message_id: "m".into(),
        kind: "file".into(),
        data: data
            .into_iter()
            .map(|(k, v)| (k.to_string(), JsonValue::String(v.into())))
            .collect(),
    }
}

#[test]
fn restored_prompts_attach_workspace_files() {
    let part = file_part(vec![("url", "file:///work/src/main.rs"), ("mime", "text/plain")]);
    let attachment = file_attachment(&part).unwrap();
    assert_eq!(attachment.filename, "attachment");
    assert!(!is_image_mime(&attachment.mime));
    assert_eq!(restored_file("/work", &attachment.url).as_deref(), Some("src/main.rs"));
    assert_eq!(restored_file("/elsewhere", &attachment.url), None);
    assert_eq!(restored_file("/work", "https://example.com/a.rs"), None);
    let image = file_part(vec![("url", "data:image/png;base64,AQID"), ("mime", "image/png"), ("filename", "a.png")]);
    let attachment = file_attachment(&image).unwrap();
    assert!(is_image_mime(&attachment.mime));
    assert_eq!(attachment.filename, "a.png");
    assert!(file_attachment(&file_part(vec![("mime", "text/plain")])).is_none());
}

#[test]
fn tab_bar_redraws_only_on_change() {
    let tab = |label: &str, busy: bool| TabBarTab { label: label.into(), busy };
    let mut bar = TabBar::new();
    assert!(bar.reconcile(vec![tab("a", false), tab("b", true)], 1, false));
    assert!(!bar.reconcile(vec![tab("a", false), tab("b", true)], 1, false));
    assert!(bar.reconcile(vec![tab("a", true), tab("b", true)], 1, false));
    assert!(bar.reconcile(vec![tab("a", true), tab("b", true)], 1, true));
    assert!(!bar.set_active(1));
    assert!(bar.set_active(0));
    assert_eq!(bar.active, 0);
}

#[test]
fn tabs_are_busy_while_a_session_of_theirs_works() {
    let session = |id: &str, directory: &str| Session {
        id: id.into(),
        directory: directory.into(),
        parent_id: None,
        title: id.into(),
        updated: 1,
    };
    let mut workspace = WorkspaceState::new(vec![
        DirectoryTimeline::new("/a".into()),
        DirectoryTimeline::new("/b".into()),
        DirectoryTimeline::new("/c".into()),
    ]);
    workspace.sessions = Some(vec![session("a1", "/a"), session("b1", "/b"), session("c1", "/c")]);
    workspace.statuses.insert("a1".into(), SessionStatus::Busy);
    workspace.statuses.insert("b1".into(), SessionStatus::Idle);
    workspace.statuses.insert(
        "c1".into(),
        SessionStatus::Retry { attempt: 1, message: "later".into(), next: 5 },
    );
    assert_eq!(workspace.tab_busy(), [true, false, true]);
}
