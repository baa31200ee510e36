//! The actions offered in a history entry's context menu.

use crate::actions::Action;
use crate::text::{chars_of, string_from_chars};
use vstd::prelude::*;

verus! {

/// The menu label of an action: its name, after its icon when it has one.
pub open spec fn action_menu_label_spec(a: Action) -> Seq<char> {
    if a.icon@.len() == 0 {
        a.name@
    } else {
        a.icon@ + seq![' '] + a.name@
    }
}

/// See [`action_menu_label_spec`].
pub fn action_menu_label(action: &Action) -> (r: String)
    ensures
        r@ == action_menu_label_spec(*action),
{
    let icon = chars_of(action.icon.as_str());
    if icon.len() == 0 {
        return action.name.clone();
    }
    let mut out = icon;
    out.push(' ');
    let name = chars_of(action.name.as_str());
    let ghost base = out@;
    let mut i: usize = 0;
    while i < name.len()
        invariant
            i <= name@.len(),
            out@ == base + name@.subrange(0, i as int),
        decreases name@.len() - i,
    {
        out.push(name[i]);
        i = i + 1;
        assert(out@ =~= base + name@.subrange(0, i as int));
    }
    assert(name@.subrange(0, name@.len() as int) =~= name@);
    string_from_chars(out.as_slice())
}

} // verus!
