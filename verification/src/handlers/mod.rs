//! Key dispatch: the keybind table, and what closing an overlay leads to.

use vstd::prelude::*;

use crate::overlay::main_menu::MainMenuState;
use crate::overlay::{ActiveModal, ReturnTarget};

pub mod keybinds;
pub mod normal;

verus! {

/// What closing the active overlay leads to.
#[derive(Debug, Clone, Copy, PartialEq, Eq, Structural)]
pub enum CloseOutcome {
    /// Back to the main menu, with the selection it had when the
    /// overlay was opened from it.
    ToMain(MainMenuState),
    /// Closed all the way; `was_filter` tells whether the filter prompt
    /// (drawn inside the process widget) closed, rather than a centred
    /// modal.
    ToNone { was_filter: bool },
}

/// Where an overlay returns when closed: help and options carry their
/// own target, every other overlay returns to normal mode.
pub open spec fn close_target(active: ActiveModal) -> ReturnTarget {
    match active {
        ActiveModal::Help(s) => s.return_to,
        ActiveModal::Options(s) => s.return_spec(),
        _ => ReturnTarget::Normal,
    }
}

/// What closing `active` leads to.
pub fn close_outcome(active: &ActiveModal) -> (r: CloseOutcome)
    ensures
        r == (match close_target(*active) {
            ReturnTarget::Main(saved) => CloseOutcome::ToMain(saved),
            ReturnTarget::Normal => CloseOutcome::ToNone { was_filter: *active is Filter },
        }),
{
    let return_to = match active {
        ActiveModal::Help(s) => s.return_to,
        ActiveModal::Options(s) => s.return_to(),
        _ => ReturnTarget::Normal,
    };
    match return_to {
        ReturnTarget::Main(saved) => CloseOutcome::ToMain(saved),
        ReturnTarget::Normal => CloseOutcome::ToNone {
            was_filter: match active {
                ActiveModal::Filter(_) => true,
                _ => false,
            },
        },
    }
}

} // verus!
