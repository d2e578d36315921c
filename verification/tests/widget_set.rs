use rtop::domain::widget_kind::WidgetKind;
use rtop::domain::widget_set::WidgetSet;

#[test]
fn new_set_is_empty() {
    let set = WidgetSet::new();
    assert!(set.is_empty());
    for kind in [
        WidgetKind::Cpu,
        WidgetKind::Mem,
        WidgetKind::Net,
        WidgetKind::Proc,
        WidgetKind::Disk,
    ] {
        assert!(!set.contains(kind));
    }
    assert!(!set.contains(WidgetKind::Gpu));
}

#[test]
fn insert_marks_present_and_reports_change() {
    let mut set = WidgetSet::new();
    assert!(set.insert(WidgetKind::Cpu));
    assert!(set.contains(WidgetKind::Cpu));
    assert!(!set.is_empty());
    // Re-insert reports unchanged.
    assert!(!set.insert(WidgetKind::Cpu));
}

#[test]
fn toggle_flips_and_returns_new_state() {
    let mut set = WidgetSet::new();
    assert!(set.toggle(WidgetKind::Net));
    assert!(set.contains(WidgetKind::Net));
    assert!(!set.toggle(WidgetKind::Net));
    assert!(!set.contains(WidgetKind::Net));
}

#[test]
fn clear_drops_every_member() {
    let mut set = WidgetSet::new();
    set.insert(WidgetKind::Cpu);
    set.insert(WidgetKind::Gpu);
    assert!(!set.is_empty());
    set.clear();
    assert!(set.is_empty());
    assert!(!set.contains(WidgetKind::Cpu));
    assert!(!set.contains(WidgetKind::Gpu));
}

#[test]
fn iter_yields_members_in_canonical_order() {
    let mut set = WidgetSet::new();
    // Insert in non-canonical order to verify iter sorts.
    set.insert(WidgetKind::Gpu);
    set.insert(WidgetKind::Cpu);
    set.insert(WidgetKind::Disk);
    let kinds: Vec<_> = set.iter().into_iter().collect();
    assert_eq!(
        kinds,
        vec![
            WidgetKind::Cpu,
            WidgetKind::Disk,
            WidgetKind::Gpu,
        ]
    );
}

#[test]
fn iter_on_empty_set_yields_nothing() {
    let set = WidgetSet::new();
    assert_eq!(set.iter().len(), 0);
}


#[test]
fn extend_from_unions_members() {
    let mut a = WidgetSet::new();
    a.insert(WidgetKind::Cpu);
    a.insert(WidgetKind::Mem);
     let mut b = WidgetSet::new();
    b.insert(WidgetKind::Mem);
    b.insert(WidgetKind::Net);
     a.extend_from(&b);
    let kinds: Vec<_> = a.iter().into_iter().collect();
    assert_eq!(
        kinds,
        vec![WidgetKind::Cpu, WidgetKind::Mem, WidgetKind::Net]
    );
}

#[test]
fn equality_ignores_insertion_order() {
    let mut a = WidgetSet::new();
    a.insert(WidgetKind::Cpu);
    a.insert(WidgetKind::Net);
    let mut b = WidgetSet::new();
    b.insert(WidgetKind::Net);
    b.insert(WidgetKind::Cpu);
    assert_eq!(a, b);
}

#[test]
fn toggling_twice_restores_the_set() {
    let mut set = WidgetSet::new();
    set.insert(WidgetKind::Mem);
    let before = set;
    set.toggle(WidgetKind::Disk);
    set.toggle(WidgetKind::Disk);
    assert_eq!(set, before);
    set.toggle(WidgetKind::Mem);
    set.toggle(WidgetKind::Mem);
    assert_eq!(set, before);
}
