//! Clipboard actions: their definition, pattern matching and execution policy.

use vstd::prelude::*;

pub mod executor;
pub mod matcher;
pub mod patterns;

verus! {

/// How an action acts on the clipboard text.
#[derive(Clone, Copy, Debug, PartialEq, Eq)]
pub enum ActionKind {
    /// Open the text with the desktop's default handler.
    Open,
    /// Run the command line (after placeholder expansion) as a program.
    OpenWith,
    /// Copy (not supported by the executor).
    Copy,
    /// Run the command (after placeholder expansion) through `sh -c`.
    ShellCommand,
}

/// A user-defined action triggered by clipboard text matching its pattern.
#[derive(Debug)]
pub struct Action {
    pub id: u64,
    pub name: String,
    pub pattern: String,
    pub command: String,
    pub icon: String,
    pub kind: ActionKind,
    pub auto_trigger: bool,
    pub auto_trigger_primary: bool,
    pub toolbar_button: bool,
    pub enabled: bool,
    pub sort_order: i32,
}

impl Clone for Action {
    fn clone(&self) -> (r: Action)
        ensures
            r == *self,
    {
        Action {
            id: self.id,
            name: self.name.clone(),
            pattern: self.pattern.clone(),
            command: self.command.clone(),
            icon: self.icon.clone(),
            kind: self.kind,
            auto_trigger: self.auto_trigger,
            auto_trigger_primary: self.auto_trigger_primary,
            toolbar_button: self.toolbar_button,
            enabled: self.enabled,
            sort_order: self.sort_order,
        }
    }
}

/// The filter of `s.push(x)` is the filter of `s`, extended by `x` when it
/// passes.
pub proof fn lemma_filter_push<A>(s: Seq<A>, x: A, p: spec_fn(A) -> bool)
    ensures
        s.push(x).filter(p) == (if p(x) {
            s.filter(p).push(x)
        } else {
            s.filter(p)
        }),
{
    reveal(Seq::filter);
    assert(s.push(x).drop_last() =~= s);
}

impl Action {
    /// A new enabled shell-command action with the given name, pattern and
    /// command, no icon, no automatic triggers, id 0 and sort order 0.
    pub fn new(name: &str, pattern: &str, command: &str) -> (a: Action)
        ensures
            a.name@ == name@,
            a.pattern@ == pattern@,
            a.command@ == command@,
            a.icon@ == Seq::<char>::empty(),
            a.kind == ActionKind::ShellCommand,
            a.id == 0,
            !a.auto_trigger,
            !a.auto_trigger_primary,
            !a.toolbar_button,
            a.enabled,
            a.sort_order == 0,
    {
        Action {
            id: 0,
            name: name.to_owned(),
            pattern: pattern.to_owned(),
            command: command.to_owned(),
            icon: String::new(),
            kind: ActionKind::ShellCommand,
            auto_trigger: false,
            auto_trigger_primary: false,
            toolbar_button: false,
            enabled: true,
            sort_order: 0,
        }
    }
}

} // verus!
