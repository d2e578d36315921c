use rtop::overlay::options::edit::OptionEditState;
use rtop::config::{BoolKey, ConfigKey, EnumKey, IntKey, StringKey};
use rtop::overlay::options::edit::EditKind;
use rtop::overlay::options::render::{opt_kind, OptKind};
use rtop::overlay::options::{
    cycle_choice, enter_step, is_view_key, option_step, post_change_effects, render, ChangeEffects, CommitOutcome,
    EnterStep, OptionStep, OptionsState,
};
use rtop::overlay::ReturnTarget;

#[test]
fn new_starts_at_origin_with_no_edit() {
    let s = OptionsState::new(ReturnTarget::Normal);
    assert_eq!(s.cat(), 0);
    assert_eq!(s.page(), 0);
    assert_eq!(s.selected(), 0);
    assert_eq!(s.return_to(), ReturnTarget::Normal);
    assert!(!s.is_editing());
    assert!(s.edit().is_none());
}

#[test]
fn cat_next_wraps_through_count() {
    let mut s = OptionsState::new(ReturnTarget::Normal);
    s.cat_next(3);
    assert_eq!(s.cat(), 1);
    s.cat_next(3);
    assert_eq!(s.cat(), 2);
    s.cat_next(3);
    assert_eq!(s.cat(), 0, "must wrap");
}

#[test]
fn cat_prev_wraps_through_count() {
    let mut s = OptionsState::new(ReturnTarget::Normal);
    s.cat_prev(3);
    assert_eq!(s.cat(), 2);
    s.cat_prev(3);
    assert_eq!(s.cat(), 1);
}

#[test]
fn cat_navigation_resets_page_and_selected() {
    let mut s = OptionsState::new(ReturnTarget::Normal);
    s.set_page(2);
    s.set_selected(5);
    s.cat_next(3);
    assert_eq!(s.page(), 0);
    assert_eq!(s.selected(), 0);
}

#[test]
fn set_cat_returns_true_only_when_cat_changes() {
    let mut s = OptionsState::new(ReturnTarget::Normal);
    s.set_selected(3);
    assert!(!s.set_cat(0, 3));
    assert_eq!(s.selected(), 3);
    assert!(s.set_cat(2, 3));
    assert_eq!(s.cat(), 2);
    assert_eq!(s.selected(), 0);
}

#[test]
fn enter_and_exit_edit_round_trip() {
    let mut s = OptionsState::new(ReturnTarget::Normal);
    s.enter_edit(OptionEditState::placeholder());
    assert!(s.is_editing());
    let returned = s.exit_edit();
    assert!(returned.is_some());
    assert!(!s.is_editing());
}

#[test]
fn edit_mut_allows_mutation_through_options_state() {
    let mut s = OptionsState::new(ReturnTarget::Normal);
    s.enter_edit(OptionEditState::placeholder());
    s.edit_mut().expect("just entered").insert_char('x');
    assert_eq!(s.edit().expect("still editing").buffer(), "x");
}

#[test]
fn category_index_for_hotkey_resolves_each_declared_letter() {
    for (expected_idx, cat_def) in render::categories().iter().enumerate() {
        let resolved = render::category_index_for_hotkey(cat_def.hotkey);
        assert_eq!(
            resolved,
            Some(expected_idx),
            "hotkey {:?} for {:?} did not resolve to its index",
            cat_def.hotkey,
            cat_def.name,
        );
    }
}

#[test]
fn category_index_for_hotkey_returns_none_for_unbound_letter() {
    // Defensive: pick a letter no category claims.
    let bound: Vec<char> = render::categories().iter().map(|c| c.hotkey).collect();
    let unbound = ('a'..='z')
        .find(|c| !bound.contains(c))
        .expect("not all letters can be bound");
    assert!(render::category_index_for_hotkey(unbound).is_none());
}

#[test]
fn set_cat_with_each_hotkey_jumps_to_the_matching_category() {
    // Pin the end-to-end behaviour the handler implements:
    // `category_index_for_hotkey(letter)` then `set_cat`
    // moves the OptionsState to the matching index.
    for (expected_idx, cat_def) in render::categories().iter().enumerate() {
        let mut s = OptionsState::new(ReturnTarget::Normal);
        // Move somewhere else first so the assertion below
        // requires the jump to actually have happened.
        s.set_cat(
            (expected_idx + 1) % render::categories().len(),
            render::categories().len(),
        );
        let idx =
            render::category_index_for_hotkey(cat_def.hotkey).expect("hotkey is declared");
        s.set_cat(idx, render::categories().len());
        assert_eq!(s.cat(), expected_idx);
    }
}

fn effects(
    reload_theme: bool,
    relayout: bool,
    update_log_level: bool,
    refresh_intervals: bool,
    sync_view: bool,
    proc_data_changed: bool,
) -> ChangeEffects {
    ChangeEffects { reload_theme, relayout, update_log_level, refresh_intervals, sync_view, proc_data_changed }
}

#[test]
fn theme_change_reloads_theme_and_relays_out() {
    assert_eq!(
        post_change_effects(ConfigKey::String(StringKey::ColorTheme)),
        effects(true, true, false, false, false, false)
    );
    assert_eq!(
        post_change_effects(ConfigKey::Bool(BoolKey::ThemeBackground)),
        effects(false, true, false, false, false, false)
    );
}

#[test]
fn view_toggles_sync_view_and_process_list() {
    assert_eq!(
        post_change_effects(ConfigKey::Bool(BoolKey::ProcTree)),
        effects(false, false, false, false, true, true)
    );
    assert_eq!(
        post_change_effects(ConfigKey::Bool(BoolKey::NetAuto)),
        effects(false, false, false, false, true, false)
    );
    assert!(is_view_key(ConfigKey::Enum(EnumKey::ProcSorting)));
    assert!(!is_view_key(ConfigKey::Bool(BoolKey::ProcColors)));
}

#[test]
fn interval_and_log_level_changes_reach_their_owners() {
    assert_eq!(
        post_change_effects(ConfigKey::Int(IntKey::NetUpdateMs)),
        effects(false, false, false, true, false, false)
    );
    assert_eq!(
        post_change_effects(ConfigKey::Enum(EnumKey::LogLevel)),
        effects(false, false, true, false, false, false)
    );
}

#[test]
fn statusbar_options_relay_out_and_others_do_nothing() {
    assert_eq!(
        post_change_effects(ConfigKey::String(StringKey::StatusbarClockFormat)),
        effects(false, true, false, false, false, false)
    );
    assert_eq!(
        post_change_effects(ConfigKey::Bool(BoolKey::RoundedCorners)),
        effects(false, false, false, false, false, false)
    );
}

fn options_at(page: usize, selected: usize) -> OptionsState {
    let mut s = OptionsState::new(ReturnTarget::Normal);
    s.set_page(page);
    s.set_selected(selected);
    s
}

#[test]
fn select_down_past_last_row_moves_to_next_page() {
    // General holds eleven options; at height 20 a page shows four.
    let mut s = options_at(0, 3);
    s.select_down(20);
    assert_eq!((s.page(), s.selected()), (1, 0));
    s.select_up(20);
    assert_eq!((s.page(), s.selected()), (0, 3));
}

#[test]
fn select_up_from_first_row_wraps_to_last_page() {
    let mut s = options_at(0, 0);
    s.select_up(20);
    assert_eq!((s.page(), s.selected()), (2, 2));
    s.select_down(20);
    assert_eq!((s.page(), s.selected()), (0, 0));
}

#[test]
fn select_within_a_page_moves_one_row() {
    let mut s = options_at(1, 1);
    s.select_down(20);
    assert_eq!((s.page(), s.selected()), (1, 2));
    s.select_up(20);
    s.select_up(20);
    assert_eq!((s.page(), s.selected()), (1, 0));
}

#[test]
fn page_keys_wrap_and_reset_row() {
    let mut s = options_at(2, 1);
    assert!(s.page_down(20));
    assert_eq!((s.page(), s.selected()), (0, 0));
    assert!(s.page_up(20));
    assert_eq!((s.page(), s.selected()), (2, 0));
}

#[test]
fn page_keys_do_nothing_on_a_single_page() {
    let mut s = OptionsState::new(ReturnTarget::Normal);
    s.cat_next(8);
    s.set_selected(2);
    assert!(!s.page_down(40));
    assert!(!s.page_up(40));
    assert_eq!((s.cat(), s.page(), s.selected()), (1, 0, 2));
    // Past the last row of the only page the row wraps to the top.
    let mut t = OptionsState::new(ReturnTarget::Normal);
    t.cat_next(8);
    t.set_selected(6);
    t.select_down(40);
    assert_eq!((t.page(), t.selected()), (0, 0));
}

fn editing(key: ConfigKey, kind: EditKind, text: &str) -> OptionsState {
    let mut s = OptionsState::new(ReturnTarget::Normal);
    s.enter_edit(OptionEditState::new(key, kind, text.to_string()));
    s
}

#[test]
fn commit_rejection_keeps_editor_with_message() {
    let mut s = editing(ConfigKey::Int(IntKey::NetUpdateMs), EditKind::Integer, "12x");
    let out = s.commit(Err("not a number"), true);
    assert!(matches!(out, CommitOutcome::Rejected("not a number")));
    let e = s.edit().expect("editor stays open");
    assert_eq!(e.error(), Some("not a number"));
    assert_eq!(e.buffer(), "12x");
}

#[test]
fn commit_success_closes_editor_with_effects() {
    let mut s = editing(ConfigKey::Int(IntKey::NetUpdateMs), EditKind::Integer, "1500");
    match s.commit(Ok(()), true) {
        CommitOutcome::Committed(fx) => assert_eq!(fx, effects(false, false, false, true, false, false)),
        other => panic!("unexpected {other:?}"),
    }
    assert!(!s.is_editing());
}

#[test]
fn commit_store_failures_have_fixed_messages() {
    let mut s = editing(ConfigKey::String(StringKey::ColorTheme), EditKind::Text, "nord");
    assert!(matches!(s.commit(Ok(()), false), CommitOutcome::Rejected("could not save value")));
    let mut s = editing(ConfigKey::Enum(EnumKey::LogLevel), EditKind::Text, "loud");
    assert!(matches!(s.commit(Ok(()), false), CommitOutcome::Rejected("invalid value")));
    let mut s = editing(ConfigKey::Bool(BoolKey::VimKeys), EditKind::Text, "x");
    assert!(matches!(s.commit(Ok(()), true), CommitOutcome::Rejected("not a string-typed option")));
    let mut s = editing(ConfigKey::String(StringKey::ColorTheme), EditKind::Text, "nord");
    match s.commit(Ok(()), true) {
        CommitOutcome::Committed(fx) => assert_eq!(fx, effects(true, true, false, false, false, false)),
        other => panic!("unexpected {other:?}"),
    }
}

#[test]
fn commit_without_editor_or_on_mismatched_kind_is_ignored() {
    let mut s = OptionsState::new(ReturnTarget::Normal);
    assert!(matches!(s.commit(Ok(()), true), CommitOutcome::Ignored));
    let mut s = editing(ConfigKey::Bool(BoolKey::VimKeys), EditKind::Integer, "1");
    assert!(matches!(s.commit(Ok(()), true), CommitOutcome::Ignored));
    assert!(s.is_editing());
}

#[test]
fn option_kinds_follow_value_types() {
    assert_eq!(opt_kind(ConfigKey::Bool(BoolKey::VimKeys)), OptKind::Bool);
    assert_eq!(opt_kind(ConfigKey::Int(IntKey::UpdateMs)), OptKind::Int);
    assert_eq!(opt_kind(ConfigKey::Enum(EnumKey::LogLevel)), OptKind::Browsable);
    assert_eq!(opt_kind(ConfigKey::String(StringKey::ColorTheme)), OptKind::Browsable);
    assert_eq!(opt_kind(ConfigKey::String(StringKey::StatusbarClockFormat)), OptKind::StringVal);
}

#[test]
fn enter_edits_typed_values_and_steps_the_rest() {
    assert_eq!(
        enter_step(ConfigKey::Int(IntKey::UpdateMs)),
        EnterStep::Edit(ConfigKey::Int(IntKey::UpdateMs), EditKind::Integer)
    );
    assert_eq!(
        enter_step(ConfigKey::String(StringKey::CustomLayout)),
        EnterStep::Edit(ConfigKey::String(StringKey::CustomLayout), EditKind::Text)
    );
    assert_eq!(enter_step(ConfigKey::Bool(BoolKey::VimKeys)), EnterStep::Step(ConfigKey::Bool(BoolKey::VimKeys)));
    assert_eq!(
        enter_step(ConfigKey::String(StringKey::ColorTheme)),
        EnterStep::Step(ConfigKey::String(StringKey::ColorTheme))
    );
}

#[test]
fn arrow_steps_by_kind() {
    assert_eq!(option_step(ConfigKey::Bool(BoolKey::VimKeys), -1), OptionStep::Toggle(BoolKey::VimKeys));
    assert_eq!(option_step(ConfigKey::Int(IntKey::UpdateMs), -1), OptionStep::StepInt(IntKey::UpdateMs, -1));
    assert_eq!(
        option_step(ConfigKey::Enum(EnumKey::LogLevel), 1),
        OptionStep::Cycle(ConfigKey::Enum(EnumKey::LogLevel), false)
    );
    assert_eq!(
        option_step(ConfigKey::Enum(EnumKey::LogLevel), -1),
        OptionStep::Cycle(ConfigKey::Enum(EnumKey::LogLevel), true)
    );
    assert_eq!(option_step(ConfigKey::String(StringKey::CustomLayout), 1), OptionStep::Nothing);
}

#[test]
fn browsing_choices_wraps_and_starts_from_first_when_unknown() {
    let choices: Vec<String> = ["error", "warn", "info", "debug"].iter().map(|s| s.to_string()).collect();
    assert_eq!(cycle_choice(&choices, "warn", false).as_deref(), Some("info"));
    assert_eq!(cycle_choice(&choices, "error", true).as_deref(), Some("debug"));
    assert_eq!(cycle_choice(&choices, "debug", false).as_deref(), Some("error"));
    assert_eq!(cycle_choice(&choices, "trace", false).as_deref(), Some("warn"));
    assert_eq!(cycle_choice(&Vec::new(), "warn", false), None);
}

#[test]
fn select_by_hotkey_jumps_and_resets_position() {
    let mut s = OptionsState::new(ReturnTarget::Normal);
    s.set_page(2);
    s.set_selected(3);
    assert!(s.select_by_hotkey('m'));
    assert_eq!(s.cat(), 3);
    assert_eq!(s.page(), 0);
    assert_eq!(s.selected(), 0);
    s.set_selected(1);
    assert!(!s.select_by_hotkey('m'), "same category is no change");
    assert_eq!(s.selected(), 1);
    assert!(!s.select_by_hotkey('x'), "not a hotkey");
    assert_eq!(s.cat(), 3);
    assert!(s.select_by_hotkey('d'));
    assert_eq!(s.cat(), 7);
}
