use rtop::config::MAX_GPUS;
use rtop::domain::box_kind::{BoxKind, BoxList};

#[test]
fn display_round_trips_for_static_variants() {
    for variant in [
        BoxKind::Cpu,
        BoxKind::Mem,
        BoxKind::Net,
        BoxKind::Proc,
        BoxKind::Disk,
    ] {
        let s = variant.to_string();
        assert_eq!(s.parse::<BoxKind>().unwrap(), variant);
    }
}

#[test]
fn display_round_trips_for_gpu_variants() {
    for n in 0..MAX_GPUS {
        let v = BoxKind::Gpu(n as u8);
        let s = v.to_string();
        assert_eq!(s, format!("gpu{n}"));
        assert_eq!(s.parse::<BoxKind>().unwrap(), v);
    }
}

#[test]
fn from_str_rejects_unknown_static_name() {
    assert!("foo".parse::<BoxKind>().is_err());
    assert!("Cpu".parse::<BoxKind>().is_err()); // case-sensitive
    assert!("".parse::<BoxKind>().is_err());
}

#[test]
fn from_str_rejects_gpu_index_out_of_range() {
    let max = MAX_GPUS;
    assert!(format!("gpu{max}").parse::<BoxKind>().is_err());
    assert!("gpu99".parse::<BoxKind>().is_err());
}

#[test]
fn from_str_rejects_gpu_with_no_digits() {
    assert!("gpu".parse::<BoxKind>().is_err());
    assert!("gpux".parse::<BoxKind>().is_err());
}

#[test]
fn gpu_constructor_enforces_max() {
    assert!(BoxKind::gpu(0).is_some());
    assert_eq!(
        BoxKind::gpu(MAX_GPUS - 1),
        Some(BoxKind::Gpu(MAX_GPUS as u8 - 1))
    );
    assert_eq!(BoxKind::gpu(MAX_GPUS), None);
}

#[test]
fn box_list_remove_kind_returns_false_when_absent() {
    let mut list = BoxList::from_kinds([BoxKind::Cpu]);
    assert!(!list.remove_kind(BoxKind::Mem));
    assert!(list.remove_kind(BoxKind::Cpu));
    assert!(list.as_slice().is_empty());
}
