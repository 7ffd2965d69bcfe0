//! Editor, completion and dialog state machines of the icode terminal client.
use vstd::prelude::*;

pub mod text;
pub mod listing;
pub mod sorting;
pub mod keys;
pub mod frecency;
pub mod input;
pub mod file_picker;
pub mod autocomplete;
pub mod dialog_question;
pub mod command_palette;
pub mod dialog_mcp;
pub mod dialog_plugins;
pub mod dialog_skills;
pub mod dialog_theme_list;
pub mod dialog_help;
pub mod dialog_share;
pub mod messages;
pub mod dialog_fork;
pub mod dialog_timeline;
pub mod dialog_export_options;
pub mod dialog_message_actions;
pub mod dialog_context_viz;
pub mod dialog_prompt_stash;
pub mod session_files;
pub mod dialog_sessions;
pub mod dialog_session_branching;
pub mod dialog_workspaces;
pub mod debug_panel;
pub mod providers;
pub mod event_loop;
pub mod home_screen;
pub mod agent_picker;
pub mod connect;
pub mod permission;
pub mod kitty;
pub mod context_suggestions;
pub mod completion;
pub mod keybinds;
pub mod app_state;
pub mod plugin_slots;
pub mod external_editor;
pub mod dialog_view;

verus! {

} // verus!
