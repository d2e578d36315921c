use rtop::domain::layout_spec::Slot;
use rtop::domain::preset::{default_custom_layout, with_statusbar, ActivePreset, BuiltinPreset};
use rtop::domain::widget_kind::WidgetKind;

#[test]
fn names_round_trip_via_from_name() {
    for &preset in &BuiltinPreset::all() {
        assert_eq!(BuiltinPreset::from_name(preset.name()), Some(preset));
    }
}

#[test]
fn from_name_rejects_unknown() {
    assert_eq!(BuiltinPreset::from_name("nope"), None);
    assert_eq!(BuiltinPreset::from_name(""), None);
    // Names are case-sensitive — the canonical form is lowercase.
    assert_eq!(BuiltinPreset::from_name("All"), None);
}

fn collect_widgets(slot: &Slot) -> Vec<WidgetKind> {
    let mut out = Vec::new();
    let mut stack: Vec<&Slot> = vec![slot];
    while let Some(s) = stack.pop() {
        match s {
            Slot::Widget(kind) => out.push(*kind),
            Slot::VStack(children) => stack.extend(children.iter().rev()),
            Slot::HStack(children) => stack.extend(children.iter().map(|c| &c.slot).rev()),
        }
    }
    out
}

#[test]
fn layout_spec_validates_for_every_builtin() {
    // Each builtin's static tree must satisfy the global
    // invariants Slot::validate checks (no duplicate widget
    // kinds). This catches future regressions where someone
    // accidentally lists a widget twice in a hand-written tree.
    for &preset in &BuiltinPreset::all() {
        preset.layout_spec().validate().unwrap_or_else(|e| {
            panic!("{}: layout_spec failed validation: {e:?}", preset.name())
        });
    }
}

#[test]
fn layout_spec_no_duplicate_widget_in_any_builtin() {
    for &preset in &BuiltinPreset::all() {
        let widgets = collect_widgets(&preset.layout_spec());
        let mut seen = std::collections::HashSet::new();
        for kind in &widgets {
            assert!(
                seen.insert(*kind),
                "{}: widget {kind:?} appears twice",
                preset.name(),
            );
        }
    }
}

#[test]
fn layout_spec_round_trips_through_dsl() {
    // Every builtin tree must be expressible in the DSL — its
    // canonical Display form must parse back to the same tree.
    for &preset in &BuiltinPreset::all() {
        let original = preset.layout_spec();
        let dsl = original.to_string();
        let parsed: Slot = dsl
            .parse()
            .unwrap_or_else(|e| panic!("{}: DSL did not round-trip: {e:?}", preset.name()));
        assert_eq!(
            parsed,
            original,
            "{}: DSL round-trip altered tree",
            preset.name()
        );
    }
}

#[test]
fn builtin_all_layout_spec_is_cpu_top_two_column_body() {
    let spec = BuiltinPreset::All.layout_spec();
    let Slot::VStack(children) = &spec else {
        panic!("`all` should be a VStack at the root, got {spec:?}");
    };
    // Cpu, two-column body, statusbar.
    assert_eq!(children.len(), 3);
    assert!(matches!(children[0], Slot::Widget(WidgetKind::Cpu)));
    let Slot::HStack(hstack) = &children[1] else {
        panic!("`all` body should be an HStack, got {:?}", children[1]);
    };
    assert_eq!(hstack.len(), 2);
    // Right column is always proc.
    assert!(matches!(hstack[1].slot, Slot::Widget(WidgetKind::Proc)));
    // Left column is a VStack containing the singleton GPU + mem + net + disk.
    let Slot::VStack(left) = &hstack[0].slot else {
        panic!("`all` left column should be a VStack");
    };
    assert_eq!(
        left,
        &vec![
            Slot::Widget(WidgetKind::Gpu),
            Slot::Widget(WidgetKind::Mem),
            Slot::Widget(WidgetKind::Net),
            Slot::Widget(WidgetKind::Disk),
        ]
    );
    // Statusbar is the last leaf.
    assert!(matches!(children[2], Slot::Widget(WidgetKind::Statusbar)));
}

#[test]
fn builtin_cpu_proc_layout_spec_is_two_widget_vstack() {
    let spec = BuiltinPreset::CpuProc.layout_spec();
    assert_eq!(
        spec,
        Slot::VStack(vec![
            Slot::Widget(WidgetKind::Cpu),
            Slot::Widget(WidgetKind::Proc),
            Slot::Widget(WidgetKind::Statusbar),
        ])
    );
}

#[test]
fn builtin_mem_proc_and_disk_proc_stack_widget_then_proc() {
    assert_eq!(
        BuiltinPreset::MemProc.layout_spec(),
        Slot::VStack(vec![
            Slot::Widget(WidgetKind::Mem),
            Slot::Widget(WidgetKind::Proc),
            Slot::Widget(WidgetKind::Statusbar),
        ])
    );
    assert_eq!(
        BuiltinPreset::DiskProc.layout_spec(),
        Slot::VStack(vec![
            Slot::Widget(WidgetKind::Disk),
            Slot::Widget(WidgetKind::Proc),
            Slot::Widget(WidgetKind::Statusbar),
        ])
    );
}

#[test]
fn builtin_cpu_net_proc_layout_spec_is_cpu_then_two_column_net_proc() {
    let spec = BuiltinPreset::CpuNetProc.layout_spec();
    let Slot::VStack(children) = &spec else {
        panic!("`cpu+net+proc` should be a VStack");
    };
    // Cpu, two-column body, statusbar.
    assert_eq!(children.len(), 3);
    assert!(matches!(children[0], Slot::Widget(WidgetKind::Cpu)));
    let Slot::HStack(hstack) = &children[1] else {
        panic!("`cpu+net+proc` body should be an HStack");
    };
    assert_eq!(hstack.len(), 2);
    assert!(matches!(hstack[0].slot, Slot::Widget(WidgetKind::Net)));
    assert!(matches!(hstack[1].slot, Slot::Widget(WidgetKind::Proc)));
    assert!(matches!(children[2], Slot::Widget(WidgetKind::Statusbar)));
}

#[test]
fn builtin_cpu_gpu_proc_layout_spec_is_single_column() {
    let spec = BuiltinPreset::CpuGpuProc.layout_spec();
    // CPU + singleton GPU + proc + statusbar, all in one column.
    assert_eq!(
        spec,
        Slot::VStack(vec![
            Slot::Widget(WidgetKind::Cpu),
            Slot::Widget(WidgetKind::Gpu),
            Slot::Widget(WidgetKind::Proc),
            Slot::Widget(WidgetKind::Statusbar),
        ])
    );
}

#[test]
fn builtin_cpu_net_mem_disk_layout_spec_is_single_column_in_visual_order() {
    let spec = BuiltinPreset::CpuNetMemDisk.layout_spec();
    // The preset name encodes the visual order top-to-bottom;
    // the statusbar lands at the bottom.
    assert_eq!(
        spec,
        Slot::VStack(vec![
            Slot::Widget(WidgetKind::Cpu),
            Slot::Widget(WidgetKind::Net),
            Slot::Widget(WidgetKind::Mem),
            Slot::Widget(WidgetKind::Disk),
            Slot::Widget(WidgetKind::Statusbar),
        ])
    );
}

#[test]
fn active_preset_default_is_all_builtin() {
    // First-launch cursor lands on the `all` builtin so the
    // user's first `p` press visibly cycles to a different
    // preset, and the cursor name matches the visible layout.
    assert_eq!(
        ActivePreset::default(),
        ActivePreset::Builtin(BuiltinPreset::All)
    );
}

#[test]
fn active_preset_name_round_trips_through_from_name() {
    for &b in &BuiltinPreset::all() {
        let active = ActivePreset::Builtin(b);
        assert_eq!(ActivePreset::from_name(active.name()), Some(active));
    }
    assert_eq!(
        ActivePreset::from_name(ActivePreset::Custom.name()),
        Some(ActivePreset::Custom)
    );
}

#[test]
fn active_preset_from_name_rejects_unknown() {
    assert_eq!(ActivePreset::from_name("nope"), None);
    assert_eq!(ActivePreset::from_name(""), None);
    assert_eq!(ActivePreset::from_name("Custom"), None); // case-sensitive
}

#[test]
fn active_preset_next_walks_full_cycle_then_wraps() {
    let mut order: Vec<ActivePreset> = BuiltinPreset::all()
        .iter()
        .map(|&b| ActivePreset::Builtin(b))
        .collect();
    order.push(ActivePreset::Custom);
    assert_eq!(order.len(), ActivePreset::CYCLE_LEN);
     let mut cursor = order[0];
    for &expected_next in order.iter().cycle().skip(1).take(order.len()) {
        cursor = cursor.next();
        assert_eq!(cursor, expected_next);
    }
    assert_eq!(cursor, order[0]);
}

#[test]
fn active_preset_prev_walks_full_cycle_then_wraps() {
    let mut forward: Vec<ActivePreset> = BuiltinPreset::all()
        .iter()
        .map(|&b| ActivePreset::Builtin(b))
        .collect();
    forward.push(ActivePreset::Custom);
    let order: Vec<ActivePreset> = forward.iter().rev().copied().collect();
    assert_eq!(order.len(), ActivePreset::CYCLE_LEN);
     let mut cursor = order[0];
    for &expected_prev in order.iter().cycle().skip(1).take(order.len()) {
        cursor = cursor.prev();
        assert_eq!(cursor, expected_prev);
    }
    assert_eq!(cursor, order[0]);
}

#[test]
fn default_custom_layout_is_all_preset_tree() {
    assert_eq!(default_custom_layout(), BuiltinPreset::All.layout_spec());
}

#[test]
fn every_builtin_preset_contains_statusbar_widget() {
    for &preset in &BuiltinPreset::all() {
        assert!(
            preset.layout_spec().contains(WidgetKind::Statusbar),
            "{}: layout_spec must contain WidgetKind::Statusbar",
            preset.name(),
        );
    }
}

#[test]
fn default_custom_layout_contains_statusbar_widget() {
    assert!(default_custom_layout().contains(WidgetKind::Statusbar));
}

#[test]
fn statusbar_is_last_leaf_of_outer_vstack_for_every_builtin() {
    for &preset in &BuiltinPreset::all() {
        let spec = preset.layout_spec();
        match spec {
            Slot::VStack(children) => {
                let last = children
                    .last()
                    .unwrap_or_else(|| panic!("{}: VStack has no children", preset.name()));
                assert_eq!(
                    last,
                    &Slot::Widget(WidgetKind::Statusbar),
                    "{}: statusbar must be last child of outer VStack",
                    preset.name(),
                );
            }
            other => panic!(
                "{}: outer slot is {other:?}, expected VStack so the statusbar lands on the bottom row",
                preset.name(),
            ),
        }
    }
}

#[test]
fn with_statusbar_appends_to_existing_vstack_without_nesting() {
    let inner = Slot::VStack(vec![
        Slot::Widget(WidgetKind::Cpu),
        Slot::Widget(WidgetKind::Proc),
    ]);
    let wrapped = with_statusbar(inner);
    match wrapped {
        Slot::VStack(children) => {
            assert_eq!(children.len(), 3);
            assert_eq!(children[0], Slot::Widget(WidgetKind::Cpu));
            assert_eq!(children[1], Slot::Widget(WidgetKind::Proc));
            assert_eq!(children[2], Slot::Widget(WidgetKind::Statusbar));
        }
        other => panic!("expected VStack, got {other:?}"),
    }
}

#[test]
fn all_constant_lists_every_variant() {
    assert_eq!(BuiltinPreset::all().len(), BuiltinPreset::COUNT);
    let mut names: Vec<&str> = BuiltinPreset::all().iter().map(|p| p.name()).collect();
    names.sort_unstable();
    let mut deduped = names.clone();
    deduped.dedup();
    assert_eq!(names, deduped, "preset names must be unique");
}

#[test]
fn with_statusbar_wraps_non_vstack_root_in_new_vstack() {
    let leaf = Slot::Widget(WidgetKind::Cpu);
    let wrapped = with_statusbar(leaf.clone());
    assert_eq!(wrapped, Slot::VStack(vec![leaf, Slot::Widget(WidgetKind::Statusbar)]),);
}
