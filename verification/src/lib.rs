//! Verified core of a desktop client for an OpenCode server: the reducer that
//! folds streamed server events into session timelines, the dialogs' state
//! machines, the prompt editor's selection logic and the markdown block builder.

pub mod event;
pub mod assoc;
pub mod json;
pub mod json_text;
pub mod model;
pub mod text;
pub mod seqs;
pub mod part_merge;
pub mod timeline;
pub mod timeline_cache;
pub mod workspace;
pub mod sessions;
pub mod reducer_laws;
pub mod status_dialog;
pub mod status_laws;
pub mod markdown;
pub mod markdown_parse;
pub mod commands;
pub mod editor;
pub mod plugins;
pub mod part_format;
pub mod format;
pub mod interaction;
pub mod layout;
pub mod timeline_actions;
pub mod settings;
pub mod selection_filter;
pub mod selection;
pub mod directories;
pub mod session_list;
pub mod restore;
pub mod entrances;
pub mod sidebar;
pub mod message_actions;
pub mod tab_bar;
pub mod startup;
pub mod workspace_ui;
pub mod timeline_overlay;
