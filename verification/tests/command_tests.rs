use opencode_gpui::commands::{command_action, Command, CommandAction, CommandContext, SelectionKind};
use opencode_gpui::selection_filter::matches_query;
use opencode_gpui::settings::{enabled, load, stored, Settings, SettingsFile};
use opencode_gpui::selection::{ComposerSelection, ModelRef, SelectionItem};
use opencode_gpui::workspace::{DirectoryTimeline, WorkspaceState};
use opencode_gpui::workspace_ui::{open_directory, Overlay, WorkspaceUi};

fn context() -> CommandContext {
    CommandContext {
        has_tab: true,
        tab_count: 1,
        directory_sessions: 1,
        session_active: false,
        timeline_ready: true,
        history_exhausted: false,
        history_loading: false,
        inspector_open: false,
        variants_available: false,
    }
}

#[test]
fn palette_lists_available_commands_in_order() {
    let commands = context().filtered_commands("");
    assert_eq!(
        commands,
        vec![
            Command::OpenDirectory,
            Command::NewSession,
            Command::ToggleSessions,
            Command::LoadOlder,
            Command::CloseWorkspace,
            Command::FocusComposer,
            Command::SelectAgent,
            Command::SelectModel,
            Command::ToggleDiffExpansion,
            Command::Status,
            Command::Debug,
        ]
    );
}

#[test]
fn palette_query_matches_label_or_category_ignoring_case_and_space() {
    let mut ctx = context();
    ctx.tab_count = 2;
    assert_eq!(
        ctx.filtered_commands("  WORKSPACE "),
        vec![
            Command::OpenDirectory,
            Command::NextWorkspace,
            Command::PreviousWorkspace,
            Command::CloseWorkspace,
        ]
    );
    assert_eq!(ctx.filtered_commands("diff"), vec![Command::ToggleDiffExpansion]);
    assert!(ctx.filtered_commands("nothing like it").is_empty());
}

#[test]
fn without_a_directory_only_opening_one_is_offered() {
    let mut ctx = context();
    ctx.has_tab = false;
    assert_eq!(ctx.filtered_commands(""), vec![Command::OpenDirectory]);
    assert!(!ctx.available(Command::NewSession));
}

#[test]
fn command_labels_categories_and_hints() {
    assert_eq!(Command::AbortSession.label(), "abort active response");
    assert_eq!(Command::SelectVariant.category(), "prompt");
    assert_eq!(Command::CloseInspector.category(), "view");
    assert_eq!(Command::LoadOlder.category(), "session");
    assert_eq!(Command::PreviousWorkspace.hint(), "ctrl+shift+tab");
    assert_eq!(Command::SelectModel.hint(), "");
    assert_eq!(Command::all().len(), 18);
}

#[test]
fn selection_query_matches_any_value_lowered() {
    assert!(matches_query(&["Gamma", "Acme Labs"], ""));
    assert!(matches_query(&["Gamma", "Acme Labs"], "acme"));
    assert!(!matches_query(&["Gamma", "Acme Labs"], "Acme"));
    assert!(!matches_query(&[], "x"));
}

#[test]
fn settings_load_only_the_current_version() {
    let custom = Settings {
        expand_diffs: false,
        animate_trace_entries: true,
    };
    assert_eq!(load(Some(stored(custom))), custom);
    assert_eq!(
        load(Some(SettingsFile {
            version: 2,
            settings: custom
        })),
        Settings::default()
    );
    assert_eq!(load(None), Settings::default());
    assert!(Settings::default().expand_diffs);
    assert!(enabled());
}

#[test]
fn command_actions() {
    assert_eq!(command_action(Command::NextWorkspace, 2, 3, false), CommandAction::SwitchDirectory(0));
    assert_eq!(command_action(Command::PreviousWorkspace, 0, 3, false), CommandAction::SwitchDirectory(2));
    assert_eq!(command_action(Command::PreviousWorkspace, 2, 3, false), CommandAction::SwitchDirectory(1));
    assert_eq!(command_action(Command::AbortSession, 0, 1, false), CommandAction::Nothing);
    assert_eq!(command_action(Command::AbortSession, 0, 1, true), CommandAction::AbortSession);
    assert_eq!(command_action(Command::PreviousSession, 0, 1, true), CommandAction::MoveSession(-1));
    assert_eq!(command_action(Command::SelectVariant, 0, 1, true), CommandAction::OpenSelection(SelectionKind::Variant));
    assert_eq!(command_action(Command::CloseWorkspace, 1, 2, true), CommandAction::CloseDirectory(1));
}

#[test]
fn palette_offers_status_and_debug_with_a_directory_open() {
    let commands = context().filtered_commands("");
    assert!(commands.contains(&Command::Status));
    assert!(commands.contains(&Command::Debug));
    assert_eq!(context().filtered_commands("status"), vec![Command::Status]);
    assert_eq!(command_action(Command::Debug, 0, 1, false), CommandAction::OpenDebugDialog);
}

#[test]
fn running_commands_changes_the_window() {
    let mut ui = WorkspaceUi::new(true);
    ui.command_query = "tog".into();
    ui.overlay = Overlay::Command;
    assert_eq!(ui.run_command(Command::ToggleSessions, 1, false), CommandAction::ToggleSessions);
    assert!(!ui.sessions_open);
    assert_eq!(ui.overlay, Overlay::Closed);
    assert!(ui.command_query.is_empty());
    assert!(ui.focus_editor);
    ui.focus_editor = false;
    ui.run_command(Command::ToggleDiffExpansion, 1, false);
    assert!(!ui.expand_diffs);
    assert!(ui.focus_editor);
    ui.focus_editor = false;
    ui.run_command(Command::OpenDirectory, 1, false);
    assert_eq!(ui.overlay, Overlay::Directory);
    assert!(ui.focus_overlay);
    assert!(!ui.focus_editor);
    ui.run_command(Command::Status, 1, false);
    assert_eq!(ui.overlay, Overlay::Status);
    assert_eq!(ui.run_command(Command::NextWorkspace, 3, false), CommandAction::SwitchDirectory(1));
    assert_eq!(ui.active_tab, 1);
    ui.run_command(Command::PreviousWorkspace, 3, false);
    ui.run_command(Command::PreviousWorkspace, 3, false);
    assert_eq!(ui.active_tab, 2);
    ui.run_command(Command::SelectModel, 3, false);
    assert_eq!(ui.overlay, Overlay::Selection(SelectionKind::Model));
}

fn model_item(id: &str) -> SelectionItem {
    SelectionItem::Model {
        reference: ModelRef { provider_id: "provider".into(), model_id: id.into() },
        name: id.into(),
        provider: "Provider".into(),
    }
}

#[test]
fn accepting_a_picker_row_closes_the_picker() {
    let mut ui = WorkspaceUi::new(true);
    ui.overlay = Overlay::Selection(SelectionKind::Model);
    let mut selection = ComposerSelection { agent: None, model: None, variant: Some("old".into()), explicit: false };
    let mut rows = vec![model_item("first"), model_item("second")];
    assert!(!ui.accept_selection(&mut rows, &mut selection, true, 2));
    assert_eq!(rows.len(), 2);
    assert_eq!(ui.overlay, Overlay::Selection(SelectionKind::Model));
    assert!(!ui.accept_selection(&mut rows, &mut selection, false, 1));
    assert!(ui.accept_selection(&mut rows, &mut selection, true, 1));
    assert_eq!(selection.model.as_ref().unwrap().model_id, "second");
    assert_eq!(selection.variant, None);
    assert!(selection.explicit);
    assert_eq!(ui.overlay, Overlay::Closed);
    assert!(rows.is_empty());
    assert!(ui.focus_editor);
}

#[test]
fn opening_a_directory_switches_to_its_tab() {
    let mut state = WorkspaceState::new(vec![DirectoryTimeline::new("/a".into())]);
    let mut ui = WorkspaceUi::new(true);
    assert!(open_directory(&mut state, &mut ui, "/b".into()));
    assert_eq!(state.tabs.len(), 2);
    assert_eq!(ui.active_tab, 1);
    assert!(!open_directory(&mut state, &mut ui, "/a".into()));
    assert_eq!(state.tabs.len(), 2);
    assert_eq!(ui.active_tab, 0);
}

#[test]
fn slash_and_palette_share_status_and_debug_identity() {
    let empty_tab = CommandContext {
        has_tab: true,
        tab_count: 1,
        directory_sessions: 0,
        session_active: false,
        timeline_ready: false,
        history_exhausted: false,
        history_loading: false,
        inspector_open: false,
        variants_available: false,
    };
    let commands = empty_tab.filtered_commands("");
    assert!(commands.contains(&Command::Status));
    assert!(commands.contains(&Command::Debug));
}
