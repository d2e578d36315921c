use std::sync::mpsc;

use rtop::event::{AppEvent, PerSubsystem, SubsystemKind};
use rtop::input::Key;

const TEST_GPU_COUNT: u8 = 4;

#[test]
fn events_roundtrip_through_channel() {
    let (tx, rx) = mpsc::channel();
     tx.send(AppEvent::Key(Key::Char('q'))).unwrap();
    tx.send(AppEvent::Resize).unwrap();
    tx.send(AppEvent::SubsystemReady(SubsystemKind::Cpu))
        .unwrap();
    tx.send(AppEvent::SubsystemReady(SubsystemKind::Proc))
        .unwrap();
     assert!(matches!(
        rx.recv().unwrap(),
        AppEvent::Key(Key::Char('q'))
    ));
    assert!(matches!(rx.recv().unwrap(), AppEvent::Resize));
    assert!(matches!(
        rx.recv().unwrap(),
        AppEvent::SubsystemReady(SubsystemKind::Cpu)
    ));
    assert!(matches!(
        rx.recv().unwrap(),
        AppEvent::SubsystemReady(SubsystemKind::Proc)
    ));
}

#[test]
fn try_recv_drains_queued_events() {
    let (tx, rx) = mpsc::channel();
     tx.send(AppEvent::Key(Key::Up)).unwrap();
    tx.send(AppEvent::Key(Key::Down)).unwrap();
    tx.send(AppEvent::SubsystemReady(SubsystemKind::Cpu))
        .unwrap();
     let first = rx.recv().unwrap();
    let rest: Vec<_> = std::iter::from_fn(|| rx.try_recv().ok()).collect();
     assert!(matches!(first, AppEvent::Key(Key::Up)));
    assert_eq!(rest.len(), 2);
}

#[test]
fn app_event_is_copy() {
    let event = AppEvent::SubsystemReady(SubsystemKind::Cpu);
    let copy = event;
    assert_eq!(event, copy);
}

#[test]
fn all_for_lists_every_variant_once_in_canonical_order() {
    let all: Vec<SubsystemKind> = SubsystemKind::all_for(TEST_GPU_COUNT).into_iter().collect();
    assert_eq!(all.len(), TEST_GPU_COUNT as usize + 6);
    assert_eq!(all[0], SubsystemKind::Cpu);
    assert_eq!(all[1], SubsystemKind::Mem);
    assert_eq!(all[2], SubsystemKind::Disk);
    assert_eq!(all[3], SubsystemKind::Net);
    for n in 0..TEST_GPU_COUNT {
        assert_eq!(all[4 + n as usize], SubsystemKind::Gpu(n));
    }
    assert_eq!(all[4 + TEST_GPU_COUNT as usize], SubsystemKind::Proc);
    assert_eq!(all[5 + TEST_GPU_COUNT as usize], SubsystemKind::Statusbar);
}

#[test]
fn all_for_zero_gpus_skips_gpu_variants() {
    let all: Vec<SubsystemKind> = SubsystemKind::all_for(0).into_iter().collect();
    assert_eq!(all.len(), 6);
    assert!(!all.iter().any(|k| matches!(k, SubsystemKind::Gpu(_))));
}

#[test]
fn per_subsystem_with_default_initialises_every_slot() {
    let p = PerSubsystem::<bool>::with_default(TEST_GPU_COUNT);
    for kind in SubsystemKind::all_for(TEST_GPU_COUNT) {
        assert!(!*p.get(kind));
    }
}

#[test]
fn per_subsystem_reset_clears_all_slots_in_place() {
    let mut p = PerSubsystem::<bool>::with_default(TEST_GPU_COUNT);
    for kind in SubsystemKind::all_for(TEST_GPU_COUNT) {
        *p.get_mut(kind) = true;
    }
    p.reset();
    for kind in SubsystemKind::all_for(TEST_GPU_COUNT) {
        assert!(!*p.get(kind), "{kind:?} must be reset to default");
    }
}

#[test]
fn per_subsystem_get_mut_writes_to_named_slot() {
    let mut p = PerSubsystem::<bool>::with_default(TEST_GPU_COUNT);
    for kind in SubsystemKind::all_for(TEST_GPU_COUNT) {
        assert!(!*p.get(kind));
        *p.get_mut(kind) = true;
        assert!(*p.get(kind));
    }
}

#[test]
fn per_subsystem_gpu_slots_are_independent() {
    let mut p = PerSubsystem::<u32>::filled(0, TEST_GPU_COUNT);
    for n in 0..TEST_GPU_COUNT {
        *p.get_mut(SubsystemKind::Gpu(n)) = 100 + n as u32;
    }
    for n in 0..TEST_GPU_COUNT {
        assert_eq!(*p.get(SubsystemKind::Gpu(n)), 100 + n as u32);
    }
}

#[test]
fn subsystem_kind_display_matches_tracing_targets() {
    assert_eq!(SubsystemKind::Cpu.to_string(), "cpu");
    assert_eq!(SubsystemKind::Mem.to_string(), "memory");
    assert_eq!(SubsystemKind::Disk.to_string(), "disk");
    assert_eq!(SubsystemKind::Net.to_string(), "network");
    assert_eq!(SubsystemKind::Proc.to_string(), "process");
    assert_eq!(SubsystemKind::Statusbar.to_string(), "statusbar");
    for n in [0_u8, 1, 7, 31, 255] {
        assert_eq!(SubsystemKind::Gpu(n).to_string(), format!("gpu{n}"));
    }
}

#[test]
fn sender_clone_allows_multiple_producers() {
    let (tx, rx) = mpsc::channel();
    let tx2 = tx.clone();

    tx.send(AppEvent::Key(Key::Char('a'))).unwrap();
    tx2.send(AppEvent::SubsystemReady(SubsystemKind::Mem))
        .unwrap();

    assert!(matches!(
        rx.recv().unwrap(),
        AppEvent::Key(Key::Char('a'))
    ));
    assert!(matches!(
        rx.recv().unwrap(),
        AppEvent::SubsystemReady(SubsystemKind::Mem)
    ));
}

#[test]
fn per_subsystem_new_assigns_each_slot_in_canonical_order() {
    let gpu_values: Vec<&str> = (0..TEST_GPU_COUNT as usize)
        .map(|i| match i {
            0 => "gpu0",
            1 => "gpu1",
            2 => "gpu2",
            3 => "gpu3",
            _ => unreachable!("TEST_GPU_COUNT is 4"),
        })
        .collect();
    let p = PerSubsystem::new(
        "cpu",
        "mem",
        "disk",
        "net",
        gpu_values.clone(),
        "process",
        "statusbar",
    );
    assert_eq!(*p.get(SubsystemKind::Cpu), "cpu");
    assert_eq!(*p.get(SubsystemKind::Mem), "mem");
    assert_eq!(*p.get(SubsystemKind::Disk), "disk");
    assert_eq!(*p.get(SubsystemKind::Net), "net");
    for n in 0..TEST_GPU_COUNT {
        assert_eq!(*p.get(SubsystemKind::Gpu(n)), gpu_values[n as usize]);
    }
    assert_eq!(*p.get(SubsystemKind::Proc), "process");
    assert_eq!(*p.get(SubsystemKind::Statusbar), "statusbar");
}
