use std::collections::HashMap;
use rtop::handlers::keybinds::{
    bindings, disarms_terminate, dispatch, fallback_for, find_binding, is_nav_key, prehooks, Action, Binding, Dispatch,
    Fallback, HelpEntry, KeySpec, Prehook, Route,
};
use rtop::input::Key;
use rtop::overlay::OverlayKind;

const ALL_STATES: &[OverlayKind] = &[
    OverlayKind::Closed,
    OverlayKind::Main,
    OverlayKind::Help,
    OverlayKind::Options,
    OverlayKind::OptionsEdit,
    OverlayKind::Filter,
];

#[derive(Clone, Copy, Debug, PartialEq, Eq, Hash)]
enum VimCondition {
    Always,
    VimOnly,
}

fn key_specs(binding: &Binding) -> impl Iterator<Item = (Key, VimCondition)> + '_ {
    binding.keys.iter().map(|spec| match *spec {
        KeySpec::Always(k) => (k, VimCondition::Always),
        KeySpec::VimOnly(k) => (k, VimCondition::VimOnly),
    })
}

#[test]
fn no_duplicate_state_key_bindings() {
    let mut seen: HashMap<(OverlayKind, Key, VimCondition), usize> = HashMap::new();
    for (idx, binding) in bindings().iter().enumerate() {
        for state in &binding.states {
            for (key, vim) in key_specs(binding) {
                let entry = (*state, key, vim);
                if let Some(prev) = seen.insert(entry, idx) {
                    panic!(
                        "duplicate binding for {:?} key={:?} vim={:?}: indices {} and {}",
                        state, key, vim, prev, idx
                    );
                }
            }
        }
    }
}

#[test]
fn text_states_have_no_printable_bindings() {
    for binding in &bindings() {
        let touches_text_state = binding
            .states
            .iter()
            .any(|s| matches!(s, OverlayKind::Filter | OverlayKind::OptionsEdit));
        if !touches_text_state {
            continue;
        }
        for (key, _) in key_specs(binding) {
            let printable = matches!(key, Key::Char(_) | Key::Space);
            assert!(
                !printable,
                "binding for {:?} in a text-input state would steal typed input \
                 from the dispatcher's fallback_typed_char",
                key,
            );
        }
    }
}

#[test]
fn every_binding_targets_at_least_one_state() {
    for (idx, binding) in bindings().iter().enumerate() {
        assert!(
            !binding.states.is_empty(),
            "binding #{} has empty `states` — it would never fire",
            idx,
        );
        for state in &binding.states {
            assert!(
                ALL_STATES.contains(state),
                "binding #{} references unknown state {:?}",
                idx,
                state,
            );
        }
    }
}

#[test]
fn every_binding_has_at_least_one_trigger() {
    for (idx, binding) in bindings().iter().enumerate() {
        assert!(
            !binding.keys.is_empty(),
            "binding #{} has empty `keys` — it would never fire",
            idx,
        );
    }
}

#[test]
fn help_entries_are_non_empty() {
    for (idx, binding) in bindings().iter().enumerate() {
        let Some(HelpEntry {
            category,
            keys,
            description,
        }) = binding.help
        else {
            continue;
        };
        assert!(
            !category.is_empty(),
            "binding #{} has empty help.category",
            idx,
        );
        assert!(!keys.is_empty(), "binding #{} has empty help.keys", idx);
        assert!(
            !description.is_empty(),
            "binding #{} has empty help.description",
            idx,
        );
    }
}

#[test]
fn prehooks_target_at_least_one_state() {
    for (idx, prehook) in prehooks().iter().enumerate() {
        let Prehook { states, .. } = prehook;
        assert!(
            !states.is_empty(),
            "prehook #{} has empty `states` — it would never fire",
            idx,
        );
    }
}

#[test]
fn matches_respects_vim_flag() {
    let binding = Binding {
        keys: vec![KeySpec::VimOnly(Key::Char('j'))],
        states: vec![OverlayKind::Closed],
        help: None,
        action: Action::NormalNavDown,
    };
    assert!(binding.matches(&Key::Char('j'), OverlayKind::Closed, true));
    assert!(!binding.matches(&Key::Char('j'), OverlayKind::Closed, false));
}

#[test]
fn matches_respects_state_filter() {
    let binding = Binding {
        keys: vec![KeySpec::Always(Key::Char('q'))],
        states: vec![OverlayKind::Help],
        help: None,
        action: Action::NormalQuit,
    };
    assert!(binding.matches(&Key::Char('q'), OverlayKind::Help, false));
    assert!(!binding.matches(&Key::Char('q'), OverlayKind::Closed, false));
}

#[test]
fn find_binding_takes_first_match_for_state() {
    let table = bindings();
    let quit = find_binding(&table, &Key::Char('q'), OverlayKind::Closed, false).expect("q is bound");
    assert_eq!(table[quit].action, Action::NormalQuit);
    let in_main = find_binding(&table, &Key::Char('q'), OverlayKind::Main, false).expect("q in main");
    assert_eq!(table[in_main].action, Action::MainMenuQuit);
    let in_options = find_binding(&table, &Key::Char('q'), OverlayKind::Options, false).expect("q in options");
    assert_eq!(table[in_options].action, Action::OptionsQuit);
}

#[test]
fn find_binding_gates_vim_triggers() {
    let table = bindings();
    assert_eq!(find_binding(&table, &Key::Char('j'), OverlayKind::Closed, false), None);
    let down = find_binding(&table, &Key::Char('j'), OverlayKind::Closed, true).expect("vim j");
    assert_eq!(table[down].action, Action::NormalNavDown);
}

#[test]
fn find_binding_leaves_typed_text_to_fallback() {
    let table = bindings();
    assert_eq!(find_binding(&table, &Key::Char('x'), OverlayKind::Filter, true), None);
    assert_eq!(fallback_for(OverlayKind::Filter), Some(Fallback::FilterTyped));
    assert_eq!(fallback_for(OverlayKind::OptionsEdit), Some(Fallback::OptionsEditTyped));
    assert_eq!(fallback_for(OverlayKind::Closed), None);
    let esc = find_binding(&table, &Key::Escape, OverlayKind::Filter, false).expect("esc cancels");
    assert_eq!(table[esc].action, Action::FilterCancel);
}

#[test]
fn prehook_key_classes() {
    assert!(!disarms_terminate(&Key::Char('t')));
    assert!(!disarms_terminate(&Key::Char('T')));
    assert!(disarms_terminate(&Key::Char('x')));
    assert!(is_nav_key(&Key::Up));
    assert!(is_nav_key(&Key::Char('k')));
    assert!(is_nav_key(&Key::CtrlD));
    assert!(!is_nav_key(&Key::Char('x')));
    assert!(!is_nav_key(&Key::Enter));
}

#[test]
fn table_has_one_entry_per_declared_binding() {
    let table = bindings();
    assert_eq!(table.len(), 74);
    assert_eq!(table.iter().filter(|b| b.help.is_some()).count(), 28);
}

fn route_action(table: &Vec<Binding>, d: Dispatch) -> Option<Action> {
    match d.route {
        Route::Binding(i) => Some(table[i].action),
        _ => None,
    }
}

#[test]
fn dispatch_disarms_on_any_key_but_terminate() {
    let table = bindings();
    let d = dispatch(&table, &Key::Down, OverlayKind::Closed, false, true, true);
    assert_eq!(d, Dispatch { route: Route::Disarmed, unfollow: false });
    let d = dispatch(&table, &Key::Char('t'), OverlayKind::Closed, false, true, false);
    assert_eq!(route_action(&table, d), Some(Action::NormalTerminate));
    // Hooks run only with no overlay open.
    let d = dispatch(&table, &Key::Down, OverlayKind::Main, false, true, true);
    assert_eq!(route_action(&table, d), Some(Action::MainMenuSelectNext));
    assert!(!d.unfollow);
}

#[test]
fn dispatch_navigation_stops_following_and_still_moves() {
    let table = bindings();
    let d = dispatch(&table, &Key::Down, OverlayKind::Closed, false, false, true);
    assert!(d.unfollow);
    assert_eq!(route_action(&table, d), Some(Action::NormalNavDown));
    let d = dispatch(&table, &Key::Char('q'), OverlayKind::Closed, false, false, true);
    assert!(!d.unfollow);
}

#[test]
fn dispatch_falls_back_only_in_text_overlays() {
    let table = bindings();
    let d = dispatch(&table, &Key::Char('z'), OverlayKind::Filter, false, false, false);
    assert_eq!(d.route, Route::Fallback(Fallback::FilterTyped));
    let d = dispatch(&table, &Key::Char('z'), OverlayKind::OptionsEdit, false, false, false);
    assert_eq!(d.route, Route::Fallback(Fallback::OptionsEditTyped));
    let d = dispatch(&table, &Key::F(9), OverlayKind::Help, false, false, false);
    assert_eq!(d.route, Route::Unhandled);
}

#[test]
fn binding_table_letter_set_equals_categories_hotkey_set() {
    let mut bound: Vec<char> = Vec::new();
    for binding in bindings() {
        if binding.action != Action::OptionsCatSelectHotkey {
            continue;
        }
        assert!(
            binding.states.contains(&OverlayKind::Options),
            "hotkey-action binding must be scoped to OPTIONS state",
        );
        for spec in &binding.keys {
            match *spec {
                KeySpec::Always(Key::Char(c)) => bound.push(c),
                KeySpec::Always(_) | KeySpec::VimOnly(_) => {
                    panic!("hotkey-action binding must only carry Always(Char(_)) keys")
                }
            }
        }
    }
    let mut declared: Vec<char> = rtop::overlay::options::render::categories().iter().map(|c| c.hotkey).collect();
    bound.sort();
    declared.sort();
    assert_eq!(bound, declared, "binding `keys` slice must match CATEGORIES hotkeys exactly");
}
