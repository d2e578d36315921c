use rtop::domain::widget_kind::{PerWidget, WidgetKind, WidgetSizing};

#[test]
fn sizing_classifies_preferred_widgets() {
    assert_eq!(WidgetKind::Cpu.sizing(), WidgetSizing::Preferred);
    assert_eq!(WidgetKind::Mem.sizing(), WidgetSizing::Preferred);
    assert_eq!(WidgetKind::Disk.sizing(), WidgetSizing::Preferred);
    assert_eq!(WidgetKind::Gpu.sizing(), WidgetSizing::Preferred);
    assert_eq!(WidgetKind::Statusbar.sizing(), WidgetSizing::Preferred);
}

#[test]
fn sizing_classifies_net_and_proc_as_fill() {
    assert_eq!(WidgetKind::Net.sizing(), WidgetSizing::Fill);
    assert_eq!(WidgetKind::Proc.sizing(), WidgetSizing::Fill);
}

#[test]
fn sizing_is_const_callable() {
    let _proc: WidgetSizing = WidgetKind::Proc.sizing();
    let _cpu: WidgetSizing = WidgetKind::Cpu.sizing();
    let _gpu: WidgetSizing = WidgetKind::Gpu.sizing();
    let _sb: WidgetSizing = WidgetKind::Statusbar.sizing();
}

#[test]
fn toggle_keys_cover_six_base_widgets_only() {
    assert_eq!(WidgetKind::Cpu.toggle_key(), Some('1'));
    assert_eq!(WidgetKind::Mem.toggle_key(), Some('2'));
    assert_eq!(WidgetKind::Net.toggle_key(), Some('3'));
    assert_eq!(WidgetKind::Proc.toggle_key(), Some('4'));
    assert_eq!(WidgetKind::Disk.toggle_key(), Some('5'));
    assert_eq!(WidgetKind::Gpu.toggle_key(), Some('6'));
    // Statusbar is reachable only via the options-menu `statusbar`
    // tab; it intentionally has no number-key keybind.
    assert_eq!(WidgetKind::Statusbar.toggle_key(), None);
}

#[test]
fn all_iterator_lists_seven_widgets_in_canonical_order() {
    let kinds: Vec<WidgetKind> = WidgetKind::all().into_iter().collect();
    assert_eq!(
        kinds,
        vec![
            WidgetKind::Cpu,
            WidgetKind::Mem,
            WidgetKind::Net,
            WidgetKind::Proc,
            WidgetKind::Disk,
            WidgetKind::Gpu,
            WidgetKind::Statusbar,
        ]
    );
}

#[test]
fn display_round_trips_for_every_variant() {
    for variant in WidgetKind::all() {
        let s = variant.to_string();
        assert_eq!(s.parse::<WidgetKind>().unwrap(), variant);
    }
}

#[test]
fn from_str_rejects_unknown_names() {
    assert!("foo".parse::<WidgetKind>().is_err());
    assert!("Cpu".parse::<WidgetKind>().is_err()); // case-sensitive
    assert!("".parse::<WidgetKind>().is_err());
    // Pre-refactor, `gpu0`..`gpu7` were valid widget names.
    // Cycling-GPU collapses them to a single `gpu` — the
    // indexed forms must now reject.
    assert!("gpu0".parse::<WidgetKind>().is_err());
    assert!("gpu1".parse::<WidgetKind>().is_err());
}

#[test]
fn per_widget_default_is_default_for_every_slot() {
    let p = PerWidget::<bool>::default();
    for kind in WidgetKind::all() {
        assert!(!*p.get(kind));
    }
}

#[test]
fn per_widget_slots_are_independent() {
    let mut p = PerWidget::<u32>::default();
    for (i, kind) in WidgetKind::all().into_iter().enumerate() {
        *p.get_mut(kind) = i as u32 + 1;
    }
    assert_eq!(*p.get(WidgetKind::Cpu), 1);
    assert_eq!(*p.get(WidgetKind::Mem), 2);
    assert_eq!(*p.get(WidgetKind::Net), 3);
    assert_eq!(*p.get(WidgetKind::Proc), 4);
    assert_eq!(*p.get(WidgetKind::Disk), 5);
    assert_eq!(*p.get(WidgetKind::Gpu), 6);
    assert_eq!(*p.get(WidgetKind::Statusbar), 7);
}
