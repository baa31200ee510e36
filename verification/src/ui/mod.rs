//! State and rules behind the settings window and the action editor; the
//! drawing itself lives with the application.

pub mod action_editor;
pub mod context_menu_actions;
pub mod settings;
pub mod widgets;
