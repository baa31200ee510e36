//! Styles of the custom widgets.

use vstd::prelude::*;

verus! {

/// The colour scheme of a button.
#[derive(Clone, Copy, Debug, PartialEq, Eq, Structural)]
pub enum MacosButtonStyle {
    Normal,
    Primary,
    Danger,
}

} // verus!
