//! The modal layer: which overlay is open, with its state.

pub mod filter;
pub mod help;
pub mod main_menu;
pub mod options;

use vstd::prelude::*;

verus! {

/// The open overlay and its state (`Closed` when none is open).
#[derive(Debug, Clone)]
pub enum ActiveModal {
    Closed,
    Main(main_menu::MainMenuState),
    Help(help::HelpState),
    Options(options::OptionsState),
    Filter(filter::FilterState),
}

impl Default for ActiveModal {
    fn default() -> (r: Self)
        ensures
            r is Closed,
    {
        ActiveModal::Closed
    }
}

/// Which overlay is open, with the options overlay split by whether an
/// inline edit is active (key bindings are matched against this).
#[derive(Debug, Clone, Copy, PartialEq, Eq, Hash, Structural)]
pub enum OverlayKind {
    Closed,
    Main,
    Help,
    Options,
    OptionsEdit,
    Filter,
}

/// Where an overlay returns when it closes: normal mode, or the main
/// menu with the selection it had.
#[derive(Debug, Clone, Copy, PartialEq, Eq, Hash, Structural)]
pub enum ReturnTarget {
    Normal,
    Main(main_menu::MainMenuState),
}

/// The dispatch kind of an overlay.
pub open spec fn modal_kind(m: ActiveModal) -> OverlayKind {
    match m {
        ActiveModal::Closed => OverlayKind::Closed,
        ActiveModal::Main(_) => OverlayKind::Main,
        ActiveModal::Help(_) => OverlayKind::Help,
        ActiveModal::Options(s) => if s.editing() { OverlayKind::OptionsEdit } else { OverlayKind::Options },
        ActiveModal::Filter(_) => OverlayKind::Filter,
    }
}

impl ActiveModal {
    /// The kind key bindings are matched against.
    pub fn kind(&self) -> (r: OverlayKind)
        ensures
            r == modal_kind(*self),
    {
        match self {
            ActiveModal::Closed => OverlayKind::Closed,
            ActiveModal::Main(_) => OverlayKind::Main,
            ActiveModal::Help(_) => OverlayKind::Help,
            ActiveModal::Options(s) => if s.is_editing() { OverlayKind::OptionsEdit } else { OverlayKind::Options },
            ActiveModal::Filter(_) => OverlayKind::Filter,
        }
    }

    /// Whether the overlay dims the widgets beneath it: the centred
    /// modals (main menu, help, options) do; the filter prompt, drawn
    /// inside the process widget, does not.
    pub fn dims_underlay(&self) -> (r: bool)
        ensures
            r == (*self is Main || *self is Help || *self is Options),
    {
        match self {
            ActiveModal::Main(_) | ActiveModal::Help(_) | ActiveModal::Options(_) => true,
            _ => false,
        }
    }
}

} // verus!
