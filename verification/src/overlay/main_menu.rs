//! The main menu's state: three actions and a wrapping selection.

use vstd::prelude::*;

verus! {

/// Main menu items, in display order.
#[derive(Debug, Clone, Copy, PartialEq, Eq, Hash, Structural)]
pub enum MainMenuItem {
    Options,
    Help,
    Quit,
}

/// Position of an item in display order.
pub open spec fn item_index(m: MainMenuItem) -> nat {
    match m {
        MainMenuItem::Options => 0,
        MainMenuItem::Help => 1,
        MainMenuItem::Quit => 2,
    }
}

/// The item at position `i` (`i < 3`).
pub open spec fn item_at(i: nat) -> MainMenuItem {
    if i == 0 { MainMenuItem::Options } else if i == 1 { MainMenuItem::Help } else { MainMenuItem::Quit }
}

impl MainMenuItem {
    /// Every item in display order; the first is selected on open.
    pub fn all() -> (r: [MainMenuItem; 3])
        ensures
            r@ == seq![MainMenuItem::Options, MainMenuItem::Help, MainMenuItem::Quit],
    {
        [MainMenuItem::Options, MainMenuItem::Help, MainMenuItem::Quit]
    }

    /// Position in display order.
    pub fn index(self) -> (r: usize)
        ensures
            r == item_index(self),
    {
        match self {
            MainMenuItem::Options => 0,
            MainMenuItem::Help => 1,
            MainMenuItem::Quit => 2,
        }
    }
}

/// State of the main menu: the selected item.
#[derive(Debug, Clone, Copy, PartialEq, Eq, Hash, Structural)]
pub struct MainMenuState {
    selected: MainMenuItem,
}

/// The item after `m`, wrapping from the last to the first.
pub open spec fn next_item(m: MainMenuItem) -> MainMenuItem {
    item_at((item_index(m) + 1) % 3)
}

/// The item before `m`, wrapping from the first to the last.
pub open spec fn prev_item(m: MainMenuItem) -> MainMenuItem {
    if item_index(m) == 0 { item_at(2) } else { item_at((item_index(m) - 1) as nat) }
}

impl MainMenuState {
    pub closed spec fn selection(&self) -> MainMenuItem {
        self.selected
    }

    /// A menu with the first item selected.
    pub fn new() -> (r: Self)
        ensures
            r.selection() == MainMenuItem::Options,
    {
        MainMenuState { selected: MainMenuItem::Options }
    }

    /// The selected item.
    pub fn selected(&self) -> (r: MainMenuItem)
        ensures
            r == self.selection(),
    {
        self.selected
    }

    /// Selects the next item, wrapping from the last to the first.
    pub fn select_next(&mut self)
        ensures
            final(self).selection() == next_item(old(self).selection()),
    {
        let items = MainMenuItem::all();
        let next_index = (self.selected.index() + 1) % 3;
        self.selected = items[next_index];
    }

    /// Selects the previous item, wrapping from the first to the last.
    pub fn select_prev(&mut self)
        ensures
            final(self).selection() == prev_item(old(self).selection()),
    {
        let items = MainMenuItem::all();
        let i = self.selected.index();
        let prev_index = if i == 0 { 2 } else { i - 1 };
        self.selected = items[prev_index];
    }
}

impl Default for MainMenuState {
    fn default() -> (r: Self)
        ensures
            r.selection() == MainMenuItem::Options,
    {
        Self::new()
    }
}

/// Moving the selection down and back up, or up and back down, returns
/// to the same item; three moves down visit every item and return.
pub proof fn lemma_menu_selection_cycle(m: MainMenuItem)
    ensures
        prev_item(next_item(m)) == m,
        next_item(prev_item(m)) == m,
        next_item(next_item(next_item(m))) == m,
        next_item(m) != m,
{
}

} // verus!
