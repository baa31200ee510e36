//! Verified core of the tiez-slim clipboard manager: action matching and
//! execution policy, application exclusion lists, locale selection, the IPC
//! protocol's error model and request routing, hotkey parsing and settings
//! state.

pub mod text;
pub mod cli;
pub mod actions;
pub mod blacklist;
pub mod i18n;
pub mod ipc;
pub mod platform;
pub mod ui;
