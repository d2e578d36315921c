use rtop::domain::memory::MemInfo;

#[test]
fn mem_info_default_has_zero_stats() {
    let mem = MemInfo::default();
    assert_eq!(mem.stats.used, 0);
    assert_eq!(mem.stats.available, 0);
    assert_eq!(mem.stats.cached, 0);
    assert_eq!(mem.stats.free, 0);
    assert_eq!(mem.stats.swap_total, 0);
    assert_eq!(mem.stats.swap_used, 0);
    assert_eq!(mem.stats.swap_free, 0);
}

#[test]
fn mem_info_default_has_empty_percent() {
    let mem = MemInfo::default();
    assert!(mem.percent.used.is_empty());
    assert!(mem.percent.available.is_empty());
    assert!(mem.percent.cached.is_empty());
    assert!(mem.percent.free.is_empty());
    assert!(mem.percent.swap_used.is_empty());
    assert!(mem.percent.swap_free.is_empty());
}
