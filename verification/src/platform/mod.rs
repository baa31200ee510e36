//! Platform integration: the data exchanged with the desktop (hotkeys, paste
//! methods, application choices, capabilities) and the portable fallback
//! used where no desktop integration is available.

use crate::text::str_eq;
use vstd::prelude::*;

pub mod windows;

verus! {

/// Human-readable descriptions of what the platform layer supports.
#[derive(Clone, Debug)]
pub struct PlatformCapabilities {
    pub active_window: String,
    pub window_management: String,
    pub global_hotkey: String,
    pub tray: String,
    pub rich_clipboard: String,
}

/// The configured global hotkeys (the main hotkeys one combo per line).
#[derive(Clone, Debug)]
pub struct HotkeyConfig {
    pub main_hotkeys: String,
    pub sequential_hotkey: String,
    pub rich_paste_hotkey: String,
    pub search_hotkey: String,
    pub private_mode_hotkey: String,
    pub snippet_picker_hotkey: String,
}

/// Which modifier keys are held.
#[derive(Clone, Copy, Debug, PartialEq, Eq)]
pub struct KeyboardModifiers {
    pub ctrl: bool,
    pub shift: bool,
    pub alt: bool,
    pub super_key: bool,
}

impl Default for KeyboardModifiers {
    fn default() -> (m: Self)
        ensures
            !m.ctrl && !m.shift && !m.alt && !m.super_key,
    {
        KeyboardModifiers { ctrl: false, shift: false, alt: false, super_key: false }
    }
}

/// How a paste is simulated.
#[derive(Clone, Copy, Debug, PartialEq, Eq)]
pub enum PasteMethod {
    Auto,
    ShiftInsert,
    CtrlV,
    TypeText,
}

impl PasteMethod {
    /// The method a setting value names: `shift_insert`, `ctrl_v`,
    /// `type_text`, and `Auto` for anything else.
    pub open spec fn from_str_spec(value: Seq<char>) -> PasteMethod {
        if value == "shift_insert"@ {
            PasteMethod::ShiftInsert
        } else if value == "ctrl_v"@ {
            PasteMethod::CtrlV
        } else if value == "type_text"@ {
            PasteMethod::TypeText
        } else {
            PasteMethod::Auto
        }
    }

    /// Parses a persisted paste-method setting.
    pub fn from_str(value: &str) -> (m: Self)
        ensures
            m == Self::from_str_spec(value@),
    {
        if str_eq(value, "shift_insert") {
            PasteMethod::ShiftInsert
        } else if str_eq(value, "ctrl_v") {
            PasteMethod::CtrlV
        } else if str_eq(value, "type_text") {
            PasteMethod::TypeText
        } else {
            PasteMethod::Auto
        }
    }
}

/// An application offered for opening a kind of content.
#[derive(Debug, PartialEq, Eq)]
pub struct AppChoice {
    pub name: String,
    pub command: String,
    pub is_default: bool,
}

impl Clone for AppChoice {
    fn clone(&self) -> (r: AppChoice)
        ensures
            r == *self,
    {
        AppChoice { name: self.name.clone(), command: self.command.clone(), is_default: self.is_default }
    }
}

/// Stops the tray icon when asked to: holds the action that removes it,
/// until it has run.
pub struct TrayHandle<F: FnOnce() + Send> {
    stop: Option<F>,
}

impl<F: FnOnce() + Send> TrayHandle<F> {
    /// A handle whose `stop` runs `stop`.
    pub fn new(stop: F) -> (h: Self)
        ensures
            h.stop_action() == Some(stop),
    {
        TrayHandle { stop: Some(stop) }
    }

    /// The action `stop` will run, if any.
    pub closed spec fn stop_action(&self) -> Option<F> {
        self.stop
    }

    /// Runs the stop action once, consuming the handle.
    pub fn stop(self)
        requires
            self.stop_action() matches Some(f) ==> call_requires(f, ()),
        ensures
            self.stop_action() matches Some(f) ==> call_ensures(f, (), ()),
    {
        let mut h = self;
        match h.stop.take() {
            Some(f) => f(),
            None => {},
        }
    }
}

/// What a global hotkey does.
#[derive(Clone, Copy, Debug, PartialEq, Eq, Structural)]
pub enum HotkeyAction {
    ToggleWindow,
    SequentialPaste,
    RichPaste,
    FocusSearch,
    TogglePrivateMode,
    SnippetPicker,
}

// ---------------------------------------------------------------------------
// Portable fallback
// ---------------------------------------------------------------------------

/// Process-wide setup; nothing to do without desktop integration.
pub fn initialize_process() {
}

/// The system's locale name; unknown without desktop integration.
pub fn system_locale_name() -> (r: Option<String>)
    ensures
        r is None,
{
    None
}

/// Whether the desktop uses a dark theme; unknown without desktop
/// integration.
pub fn system_dark_mode() -> (r: Option<bool>)
    ensures
        r is None,
{
    None
}

/// The name of the application in the foreground: `Unknown`.
pub fn active_app_name() -> (r: String)
    ensures
        r@ == "Unknown"@,
{
    "Unknown".to_owned()
}

/// The held modifiers: none are reported.
pub fn current_keyboard_modifiers() -> (m: KeyboardModifiers)
    ensures
        !m.ctrl && !m.shift && !m.alt && !m.super_key,
{
    KeyboardModifiers { ctrl: false, shift: false, alt: false, super_key: false }
}

/// Every hotkey combination is accepted.
pub fn validate_hotkey(_combo: &str) -> (r: Result<(), String>)
    ensures
        r is Ok,
{
    Ok(())
}

/// Start at login is never enabled.
pub fn autostart_enabled() -> (r: Result<bool, String>)
    ensures
        r == Ok::<bool, String>(false),
{
    Ok(false)
}

/// No applications are discovered for any content type.
pub fn discover_apps_for_mime(_mime: &str) -> (r: Vec<AppChoice>)
    ensures
        r@.len() == 0,
{
    Vec::new()
}

/// The window class of the focused window: unknown.
pub fn active_window_class() -> (r: Option<String>)
    ensures
        r is None,
{
    None
}

/// Law: `shift_insert`, `ctrl_v` and `type_text` select their own methods;
/// any other value, such as `auto` or an empty one, selects `Auto`.
pub proof fn lemma_paste_method_names()
    ensures
        PasteMethod::from_str_spec("shift_insert"@) == PasteMethod::ShiftInsert,
        PasteMethod::from_str_spec("ctrl_v"@) == PasteMethod::CtrlV,
        PasteMethod::from_str_spec("type_text"@) == PasteMethod::TypeText,
        PasteMethod::from_str_spec("auto"@) == PasteMethod::Auto,
        PasteMethod::from_str_spec(Seq::empty()) == PasteMethod::Auto,
{
    reveal_strlit("shift_insert");
    assert("shift_insert"@ =~= seq!['s', 'h', 'i', 'f', 't', '_', 'i', 'n', 's', 'e', 'r', 't']);
    reveal_strlit("ctrl_v");
    assert("ctrl_v"@ =~= seq!['c', 't', 'r', 'l', '_', 'v']);
    reveal_strlit("type_text");
    assert("type_text"@ =~= seq!['t', 'y', 'p', 'e', '_', 't', 'e', 'x', 't']);
    reveal_strlit("auto");
    assert("auto"@ =~= seq!['a', 'u', 't', 'o']);
}

} // verus!
