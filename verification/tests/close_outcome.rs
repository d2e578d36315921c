use rtop::handlers::{close_outcome, CloseOutcome};
use rtop::overlay::filter::FilterState;
use rtop::overlay::help::HelpState;
use rtop::overlay::main_menu::{MainMenuItem, MainMenuState};
use rtop::overlay::options::OptionsState;
use rtop::overlay::{ActiveModal, ReturnTarget};

#[test]
fn close_help_with_main_return_target_restores_saved_selection() {
    let mut saved = MainMenuState::new();
    saved.select_next(); // Options -> Help
    assert_eq!(saved.selected(), MainMenuItem::Help);
     let active = ActiveModal::Help(HelpState::new(ReturnTarget::Main(saved)));
    assert_eq!(close_outcome(&active), CloseOutcome::ToMain(saved));
}

#[test]
fn close_options_with_main_return_target_restores_saved_selection() {
    let mut saved = MainMenuState::new();
    saved.select_next();
    saved.select_next(); // Options -> Help -> Quit
    assert_eq!(saved.selected(), MainMenuItem::Quit);
     let active = ActiveModal::Options(OptionsState::new(ReturnTarget::Main(saved)));
    assert_eq!(close_outcome(&active), CloseOutcome::ToMain(saved));
}

#[test]
fn close_help_with_normal_return_target_closes_all_the_way() {
    let active = ActiveModal::Help(HelpState::new(ReturnTarget::Normal));
    assert_eq!(
        close_outcome(&active),
        CloseOutcome::ToNone { was_filter: false }
    );
}

#[test]
fn close_options_with_normal_return_target_closes_all_the_way() {
    let active = ActiveModal::Options(OptionsState::new(ReturnTarget::Normal));
    assert_eq!(
        close_outcome(&active),
        CloseOutcome::ToNone { was_filter: false }
    );
}

#[test]
fn close_main_closes_all_the_way() {
    let active = ActiveModal::Main(MainMenuState::new());
    assert_eq!(
        close_outcome(&active),
        CloseOutcome::ToNone { was_filter: false }
    );
}

#[test]
fn close_filter_marks_was_filter_true() {
    let active = ActiveModal::Filter(FilterState);
    assert_eq!(
        close_outcome(&active),
        CloseOutcome::ToNone { was_filter: true }
    );
}
