use rtop::domain::widget_kind::WidgetKind;
use rtop::domain::widget_set::WidgetSet;
use rtop::overlay::filter::{edit_filter, FilterEdit};
use rtop::handlers::normal::{
    arm_step, arm_step_redraws, armed_after, cycle_gpu_iface, cycle_index, cycle_net_iface, navigate,
    restore_widgets, step_update_rate, toggle_widget_for_key, toggled_follow, ArmStep, Armed,
    ProcCursor, ProcNav,
};

#[test]
fn update_rate_steps_by_tenths_then_seconds() {
    assert_eq!(step_update_rate(2000, 1), 2100);
    assert_eq!(step_update_rate(2100, 1), 3100);
    assert_eq!(step_update_rate(2100, -1), 1100);
    assert_eq!(step_update_rate(1000, -1), 900);
}

#[test]
fn update_rate_is_clamped() {
    assert_eq!(step_update_rate(100, -1), 100);
    assert_eq!(step_update_rate(150, -1), 100);
    assert_eq!(step_update_rate(86_400_000, 1), 86_400_000);
    assert_eq!(step_update_rate(86_399_500, 1), 86_400_000);
}

fn at(selected: usize) -> ProcCursor {
    ProcCursor { selected, start: 7 }
}

#[test]
fn nav_up_and_down_move_one_row_within_the_list() {
    assert_eq!(navigate(ProcNav::Down, at(5), 50, 30), (ProcCursor { selected: 6, start: 7 }, true));
    assert_eq!(navigate(ProcNav::Up, at(5), 50, 30), (ProcCursor { selected: 4, start: 7 }, true));
    assert_eq!(navigate(ProcNav::Up, at(0), 50, 30), (at(0), false));
    assert_eq!(navigate(ProcNav::Down, at(49), 50, 30), (at(49), false));
}

#[test]
fn nav_pages_move_by_height_less_chrome() {
    // Height 30 leaves a page of 20 rows.
    assert_eq!(navigate(ProcNav::PageDown, at(5), 50, 30).0.selected, 25);
    assert_eq!(navigate(ProcNav::PageDown, at(40), 50, 30).0.selected, 49);
    assert_eq!(navigate(ProcNav::HalfPageDown, at(5), 50, 30).0.selected, 15);
    assert_eq!(navigate(ProcNav::PageUp, at(5), 50, 30).0.selected, 0);
    assert_eq!(navigate(ProcNav::HalfPageUp, at(25), 50, 30).0.selected, 15);
    // A terminal of ten rows or fewer has no page to move by.
    assert_eq!(navigate(ProcNav::PageDown, at(5), 50, 8), (at(5), true));
}

#[test]
fn nav_home_and_end() {
    assert_eq!(navigate(ProcNav::Home, at(30), 50, 30), (ProcCursor { selected: 0, start: 0 }, true));
    assert_eq!(navigate(ProcNav::End, at(3), 50, 30), (ProcCursor { selected: 49, start: 7 }, true));
    assert_eq!(navigate(ProcNav::End, at(0), 0, 30), (ProcCursor { selected: 0, start: 7 }, true));
}

#[test]
fn cycle_index_wraps_both_ways() {
    assert_eq!(cycle_index(0, 3, true), 2);
    assert_eq!(cycle_index(2, 3, false), 0);
    assert_eq!(cycle_index(1, 3, false), 2);
    assert_eq!(cycle_index(cycle_index(1, 3, false), 3, true), 1);
}

fn names(list: &[&str]) -> Vec<String> {
    list.iter().map(|s| s.to_string()).collect()
}

#[test]
fn net_iface_cycles_from_the_selected_one() {
    let n = names(&["eth0", "wlan0", "lo"]);
    assert_eq!(cycle_net_iface(&n, "wlan0", 1).as_deref(), Some("lo"));
    assert_eq!(cycle_net_iface(&n, "wlan0", -1).as_deref(), Some("eth0"));
    assert_eq!(cycle_net_iface(&n, "lo", 1).as_deref(), Some("eth0"));
    // An unknown selection stands on the first interface.
    assert_eq!(cycle_net_iface(&n, "ppp0", -1).as_deref(), Some("lo"));
    assert_eq!(cycle_net_iface(&n, "ppp0", 1).as_deref(), Some("wlan0"));
    assert_eq!(cycle_net_iface(&Vec::new(), "eth0", 1), None);
}

#[test]
fn gpu_cycle_skips_empty_slots() {
    let slots = vec![None, Some("gpu-a".to_string()), None, Some("gpu-b".to_string())];
    assert_eq!(cycle_gpu_iface(&slots, "gpu-b", 1).as_deref(), Some("gpu-a"));
    assert_eq!(cycle_gpu_iface(&slots, "gpu-a", 1).as_deref(), Some("gpu-b"));
    assert_eq!(cycle_gpu_iface(&slots, "gpu-a", -1).as_deref(), Some("gpu-b"));
    assert_eq!(cycle_gpu_iface(&vec![None, None], "gpu-a", 1), None);
}

#[test]
fn terminate_needs_two_presses() {
    let first = arm_step(None, false, false, Some(42), false);
    assert_eq!(first, ArmStep::Arm(42));
    let armed = armed_after(first, None, false);
    assert_eq!(armed, Some(Armed { pid: 42, kill: false }));
    let second = arm_step(armed, false, false, Some(42), false);
    assert_eq!(second, ArmStep::Fire(42));
    assert_eq!(armed_after(second, armed, false), None);
    assert!(arm_step_redraws(first) && arm_step_redraws(second));
}

#[test]
fn exited_processes_are_never_signalled() {
    let armed = Some(Armed { pid: 9, kill: true });
    let step = arm_step(armed, true, true, Some(9), true);
    assert_eq!(step, ArmStep::DisarmExited);
    assert_eq!(armed_after(step, armed, true), None);
    let refused = arm_step(None, true, false, Some(9), true);
    assert_eq!(refused, ArmStep::RefuseExited);
    assert!(!arm_step_redraws(refused));
    assert_eq!(armed_after(refused, None, true), None);
}

#[test]
fn the_other_key_rearms_instead_of_confirming() {
    let armed = Some(Armed { pid: 9, kill: true });
    let step = arm_step(armed, false, false, Some(11), false);
    assert_eq!(step, ArmStep::Arm(11));
    assert_eq!(armed_after(step, armed, false), Some(Armed { pid: 11, kill: false }));
    let idle = arm_step(armed, false, false, None, false);
    assert_eq!(idle, ArmStep::Idle);
    assert_eq!(armed_after(idle, armed, false), armed);
}

#[test]
fn follow_toggles_per_process() {
    assert_eq!(toggled_follow(0, 7), 7);
    assert_eq!(toggled_follow(7, 7), 0);
    assert_eq!(toggled_follow(3, 7), 7);
}

#[test]
fn number_keys_pick_widgets() {
    assert_eq!(toggle_widget_for_key('1'), Some(WidgetKind::Cpu));
    assert_eq!(toggle_widget_for_key('2'), Some(WidgetKind::Mem));
    assert_eq!(toggle_widget_for_key('3'), Some(WidgetKind::Net));
    assert_eq!(toggle_widget_for_key('4'), Some(WidgetKind::Proc));
    assert_eq!(toggle_widget_for_key('5'), Some(WidgetKind::Disk));
    assert_eq!(toggle_widget_for_key('6'), Some(WidgetKind::Gpu));
    assert_eq!(toggle_widget_for_key('7'), None);
    assert_eq!(toggle_widget_for_key('0'), None);
    for k in WidgetKind::all() {
        if let Some(c) = k.toggle_key() {
            assert_eq!(toggle_widget_for_key(c), Some(k));
        }
    }
}

#[test]
fn restore_widgets_reports_change() {
    let mut hidden = WidgetSet::new();
    assert!(!restore_widgets(&mut hidden));
    hidden.insert(WidgetKind::Net);
    hidden.insert(WidgetKind::Gpu);
    assert!(restore_widgets(&mut hidden));
    assert!(hidden.is_empty());
}

#[test]
fn filter_prompt_edits_apply_in_order() {
    let t = edit_filter("", FilterEdit::Typed('c'));
    let t = edit_filter(&t, FilterEdit::Typed('h'));
    let t = edit_filter(&t, FilterEdit::Typed('é'));
    assert_eq!(t, "ché");
    let t = edit_filter(&t, FilterEdit::Backspace);
    assert_eq!(t, "ch");
    assert_eq!(edit_filter("", FilterEdit::Backspace), "");
    assert_eq!(edit_filter("chrome", FilterEdit::Clear), "");
}
