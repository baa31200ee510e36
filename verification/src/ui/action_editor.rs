//! The action editor dialog's state: opening it for a new or an existing
//! action, and turning its fields back into an action.

use crate::actions::{Action, ActionKind};
use crate::text::{chars_of, str_eq, string_from_chars, trim, trim_seq};
use vstd::prelude::*;

verus! {

/// What the dialog hands back when it closes.
#[derive(Debug, Clone)]
pub enum EditorResult {
    /// Save this action (its id is that of the edited action, or 0 for a new one).
    Save(Action),
    /// Delete the action with this id.
    Delete(u64),
    /// Close without changes.
    Cancel,
}

/// The fields of the action editor dialog.
#[derive(Debug, Clone)]
pub struct ActionEditor {
    pub is_open: bool,
    pub editing_id: Option<u64>,
    pub name: String,
    pub pattern: String,
    pub command: String,
    pub icon: String,
    pub kind: String,
    pub auto_trigger: bool,
    pub auto_trigger_primary: bool,
    pub toolbar_button: bool,
    pub enabled: bool,
    pub sort_order: i32,
    pub test_pattern_text: String,
    pub test_pattern_result: String,
    pub test_pattern_open: bool,
}

impl Default for ActionEditor {
    fn default() -> (e: ActionEditor)
        ensures
            !e.is_open,
            e.editing_id is None,
            e.name@.len() == 0,
            e.pattern@.len() == 0,
            e.command@.len() == 0,
            e.icon@.len() == 0,
            e.kind@.len() == 0,
            !e.auto_trigger,
            !e.auto_trigger_primary,
            !e.toolbar_button,
            !e.enabled,
            e.sort_order == 0,
            e.test_pattern_text@.len() == 0,
            e.test_pattern_result@.len() == 0,
            !e.test_pattern_open,
    {
        ActionEditor {
            is_open: false,
            editing_id: None,
            name: String::new(),
            pattern: String::new(),
            command: String::new(),
            icon: String::new(),
            kind: String::new(),
            auto_trigger: false,
            auto_trigger_primary: false,
            toolbar_button: false,
            enabled: false,
            sort_order: 0,
            test_pattern_text: String::new(),
            test_pattern_result: String::new(),
            test_pattern_open: false,
        }
    }
}

/// The editor's label for an action kind: the kind's name in lower case.
pub open spec fn kind_label(k: ActionKind) -> Seq<char> {
    match k {
        ActionKind::Open => "open"@,
        ActionKind::OpenWith => "openwith"@,
        ActionKind::Copy => "copy"@,
        ActionKind::ShellCommand => "shellcommand"@,
    }
}

/// The action kind saved for an editor label; anything unrecognised saves as
/// a shell command.
pub open spec fn kind_of_label(label: Seq<char>) -> ActionKind {
    if label == "open"@ {
        ActionKind::Open
    } else if label == "open_with"@ {
        ActionKind::OpenWith
    } else if label == "copy"@ {
        ActionKind::Copy
    } else {
        ActionKind::ShellCommand
    }
}

/// See [`kind_label`].
pub fn kind_label_of(k: ActionKind) -> (r: &'static str)
    ensures
        r@ == kind_label(k),
{
    match k {
        ActionKind::Open => "open",
        ActionKind::OpenWith => "openwith",
        ActionKind::Copy => "copy",
        ActionKind::ShellCommand => "shellcommand",
    }
}

/// See [`kind_of_label`].
pub fn kind_from_label(label: &str) -> (k: ActionKind)
    ensures
        k == kind_of_label(label@),
{
    if str_eq(label, "open") {
        ActionKind::Open
    } else if str_eq(label, "open_with") {
        ActionKind::OpenWith
    } else if str_eq(label, "copy") {
        ActionKind::Copy
    } else {
        ActionKind::ShellCommand
    }
}

fn trimmed(s: &str) -> (r: Vec<char>)
    ensures
        r@ == trim_seq(s@),
{
    let cs = chars_of(s);
    trim(cs.as_slice())
}

impl ActionEditor {
    /// The fields a user edits are unchanged between `self` and `other`
    /// (everything but `is_open`, `editing_id` and the action fields).
    pub open spec fn keeps_test_fields(self, other: ActionEditor) -> bool {
        &&& self.test_pattern_text == other.test_pattern_text
        &&& self.test_pattern_result == other.test_pattern_result
        &&& self.test_pattern_open == other.test_pattern_open
    }

    /// `self` shows action `a` for editing.
    pub open spec fn shows(self, a: Action) -> bool {
        &&& self.is_open
        &&& self.editing_id == Some(a.id)
        &&& self.name@ == a.name@
        &&& self.pattern@ == a.pattern@
        &&& self.command@ == a.command@
        &&& self.icon@ == a.icon@
        &&& self.kind@ == kind_label(a.kind)
        &&& self.auto_trigger == a.auto_trigger
        &&& self.auto_trigger_primary == a.auto_trigger_primary
        &&& self.toolbar_button == a.toolbar_button
        &&& self.enabled == a.enabled
        &&& self.sort_order == a.sort_order
    }

    /// Saving is refused: the name, pattern or command is blank.
    pub open spec fn is_blank(self) -> bool {
        ||| trim_seq(self.name@).len() == 0
        ||| trim_seq(self.pattern@).len() == 0
        ||| trim_seq(self.command@).len() == 0
    }

    /// `a` is the action saved from these fields: name, pattern and command
    /// trimmed, the kind read from its label, the id of the edited action (0
    /// for a new one), everything else as shown.
    pub open spec fn saves_as(self, a: Action) -> bool {
        &&& a.id == (match self.editing_id {
            Some(id) => id,
            None => 0,
        })
        &&& a.name@ == trim_seq(self.name@)
        &&& a.pattern@ == trim_seq(self.pattern@)
        &&& a.command@ == trim_seq(self.command@)
        &&& a.icon@ == self.icon@
        &&& a.kind == kind_of_label(self.kind@)
        &&& a.auto_trigger == self.auto_trigger
        &&& a.auto_trigger_primary == self.auto_trigger_primary
        &&& a.toolbar_button == self.toolbar_button
        &&& a.enabled == self.enabled
        &&& a.sort_order == self.sort_order
    }

    /// Opens the dialog on a blank new shell-command action.
    pub fn open_new(&mut self)
        ensures
            final(self).is_open,
            final(self).editing_id is None,
            final(self).name@.len() == 0,
            final(self).pattern@.len() == 0,
            final(self).command@.len() == 0,
            final(self).icon@.len() == 0,
            final(self).kind@ == "shell_command"@,
            !final(self).auto_trigger,
            !final(self).auto_trigger_primary,
            !final(self).toolbar_button,
            final(self).enabled,
            final(self).sort_order == 0,
            final(self).keeps_test_fields(*old(self)),
    {
        self.is_open = true;
        self.editing_id = None;
        self.name = String::new();
        self.pattern = String::new();
        self.command = String::new();
        self.icon = String::new();
        self.kind = "shell_command".to_owned();
        self.auto_trigger = false;
        self.auto_trigger_primary = false;
        self.toolbar_button = false;
        self.enabled = true;
        self.sort_order = 0;
    }

    /// Opens the dialog on an existing action.
    pub fn open_edit(&mut self, action: &Action)
        ensures
            final(self).shows(*action),
            final(self).keeps_test_fields(*old(self)),
    {
        self.is_open = true;
        self.editing_id = Some(action.id);
        self.name = action.name.clone();
        self.pattern = action.pattern.clone();
        self.command = action.command.clone();
        self.icon = action.icon.clone();
        self.kind = kind_label_of(action.kind).to_owned();
        self.auto_trigger = action.auto_trigger;
        self.auto_trigger_primary = action.auto_trigger_primary;
        self.toolbar_button = action.toolbar_button;
        self.enabled = action.enabled;
        self.sort_order = action.sort_order;
    }

    /// Closes the dialog, keeping its fields.
    pub fn close(&mut self)
        ensures
            *final(self) == (ActionEditor { is_open: false, ..*old(self) }),
    {
        self.is_open = false;
    }

    /// The action these fields save as, or `None` when the name, pattern or
    /// command is blank.
    pub fn build_action(&self) -> (r: Option<Action>)
        ensures
            r is None <==> self.is_blank(),
            r matches Some(a) ==> self.saves_as(a),
    {
        let name = trimmed(self.name.as_str());
        let pattern = trimmed(self.pattern.as_str());
        let command = trimmed(self.command.as_str());
        if name.len() == 0 || pattern.len() == 0 || command.len() == 0 {
            return None;
        }
        let name = string_from_chars(name.as_slice());
        let pattern = string_from_chars(pattern.as_slice());
        let command = string_from_chars(command.as_slice());
        let mut action = Action::new(name.as_str(), pattern.as_str(), command.as_str());
        action.kind = kind_from_label(self.kind.as_str());
        action.icon = self.icon.clone();
        action.enabled = self.enabled;
        action.auto_trigger = self.auto_trigger;
        action.auto_trigger_primary = self.auto_trigger_primary;
        action.toolbar_button = self.toolbar_button;
        action.sort_order = self.sort_order;
        if let Some(id) = self.editing_id {
            action.id = id;
        }
        Some(action)
    }

    /// The Save button: the saved action, closing the dialog; `None`, with
    /// the dialog left open, when the fields are blank. A closed dialog
    /// yields nothing and stays as it is.
    pub fn submit(&mut self) -> (r: Option<EditorResult>)
        ensures
            !old(self).is_open ==> r is None,
            r is None <==> (!old(self).is_open || old(self).is_blank()),
            r is None ==> *final(self) == *old(self),
            r matches Some(res) ==> (res matches EditorResult::Save(a) && old(self).saves_as(a)),
            r is Some ==> *final(self) == (ActionEditor { is_open: false, ..*old(self) }),
    {
        if !self.is_open {
            return None;
        }
        match self.build_action() {
            Some(a) => {
                self.close();
                Some(EditorResult::Save(a))
            },
            None => None,
        }
    }

    /// The Delete button, offered only while editing an existing action:
    /// deletes it and closes the dialog. A closed dialog yields nothing and
    /// stays as it is.
    pub fn delete(&mut self) -> (r: Option<EditorResult>)
        ensures
            !old(self).is_open ==> r is None && *final(self) == *old(self),
            old(self).is_open ==> match old(self).editing_id {
                Some(id) => r == Some(EditorResult::Delete(id))
                    && *final(self) == (ActionEditor { is_open: false, ..*old(self) }),
                None => r is None && *final(self) == *old(self),
            },
    {
        if !self.is_open {
            return None;
        }
        match self.editing_id {
            Some(id) => {
                self.close();
                Some(EditorResult::Delete(id))
            },
            None => None,
        }
    }

    /// The Cancel button: closes the dialog without changes.
    pub fn cancel(&mut self) -> (r: EditorResult)
        ensures
            r == EditorResult::Cancel,
            *final(self) == (ActionEditor { is_open: false, ..*old(self) }),
    {
        self.close();
        EditorResult::Cancel
    }
}

/// Law: the editor labels name their kinds: `open`, `openwith`, `copy` and
/// `shellcommand` are shown; `open`, `open_with` and `copy` save as their
/// kinds, and anything else, `shell_command` included, as a shell command.
pub proof fn lemma_kind_labels()
    ensures
        kind_label(ActionKind::Open) == "open"@,
        kind_label(ActionKind::OpenWith) == "openwith"@,
        kind_label(ActionKind::Copy) == "copy"@,
        kind_label(ActionKind::ShellCommand) == "shellcommand"@,
        kind_of_label("open"@) == ActionKind::Open,
        kind_of_label("open_with"@) == ActionKind::OpenWith,
        kind_of_label("copy"@) == ActionKind::Copy,
        kind_of_label("shell_command"@) == ActionKind::ShellCommand,
        kind_of_label("openwith"@) == ActionKind::ShellCommand,
{
    reveal_strlit("open");
    assert("open"@ =~= seq!['o', 'p', 'e', 'n']);
    reveal_strlit("open_with");
    assert("open_with"@ =~= seq!['o', 'p', 'e', 'n', '_', 'w', 'i', 't', 'h']);
    reveal_strlit("copy");
    assert("copy"@ =~= seq!['c', 'o', 'p', 'y']);
    reveal_strlit("shell_command");
    assert("shell_command"@ =~= seq!['s', 'h', 'e', 'l', 'l', '_', 'c', 'o', 'm', 'm', 'a', 'n', 'd']);
    reveal_strlit("openwith");
    assert("openwith"@ =~= seq!['o', 'p', 'e', 'n', 'w', 'i', 't', 'h']);
}

/// Law: editing an action and saving it unchanged gives the same action back,
/// provided its name, pattern and command carry no surrounding white space
/// and are not empty, and its kind is not `OpenWith` (whose label,
/// "openwith", reads back as a shell command).
pub proof fn lemma_edit_then_save_round_trips(e: ActionEditor, a: Action, saved: Action)
    requires
        e.shows(a),
        a.kind != ActionKind::OpenWith,
        trim_seq(a.name@) == a.name@ && a.name@.len() > 0,
        trim_seq(a.pattern@) == a.pattern@ && a.pattern@.len() > 0,
        trim_seq(a.command@) == a.command@ && a.command@.len() > 0,
    ensures
        !e.is_blank(),
        e.saves_as(saved) ==> {
            &&& saved.id == a.id
            &&& saved.name@ == a.name@
            &&& saved.pattern@ == a.pattern@
            &&& saved.command@ == a.command@
            &&& saved.icon@ == a.icon@
            &&& saved.kind == a.kind
            &&& saved.auto_trigger == a.auto_trigger
            &&& saved.auto_trigger_primary == a.auto_trigger_primary
            &&& saved.toolbar_button == a.toolbar_button
            &&& saved.enabled == a.enabled
            &&& saved.sort_order == a.sort_order
        },
{
    reveal_strlit("open");
    reveal_strlit("openwith");
    reveal_strlit("open_with");
    reveal_strlit("copy");
    reveal_strlit("shellcommand");
    match a.kind {
        ActionKind::Copy => {
            assert("copy"@[0] != "open"@[0]);
        },
        ActionKind::ShellCommand => {
            assert("shellcommand"@.len() != "open"@.len());
            assert("shellcommand"@.len() != "open_with"@.len());
            assert("shellcommand"@.len() != "copy"@.len());
        },
        _ => {},
    }
    assert(kind_of_label(kind_label(a.kind)) == a.kind);
}

} // verus!
