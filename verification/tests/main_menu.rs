use rtop::overlay::main_menu::{MainMenuItem, MainMenuState};

#[test]
fn new_selects_first_item() {
    let s = MainMenuState::new();
    assert_eq!(s.selected(), MainMenuItem::Options);
}

#[test]
fn select_next_walks_then_wraps() {
    let mut s = MainMenuState::new();
    s.select_next();
    assert_eq!(s.selected(), MainMenuItem::Help);
    s.select_next();
    assert_eq!(s.selected(), MainMenuItem::Quit);
    s.select_next();
    assert_eq!(s.selected(), MainMenuItem::Options, "must wrap");
}

#[test]
fn select_prev_walks_then_wraps() {
    let mut s = MainMenuState::new();
    s.select_prev();
    assert_eq!(s.selected(), MainMenuItem::Quit, "must wrap from first");
    s.select_prev();
    assert_eq!(s.selected(), MainMenuItem::Help);
}

#[test]
fn index_round_trips_through_all() {
    for (i, item) in MainMenuItem::all().iter().enumerate() {
        assert_eq!(item.index(), i);
    }
}
