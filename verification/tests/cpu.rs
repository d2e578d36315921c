use rtop::domain::config_enums::CpuGraphSource;
use rtop::domain::cpu::CpuPercent;

#[test]
fn cpu_percent_series_returns_correct_field() {
    let mut pct = CpuPercent::default();
    pct.total.push_back(42);
    pct.user.push_back(10);
    pct.system.push_back(20);
    pct.idle.push_back(30);
     assert_eq!(pct.series(CpuGraphSource::Total).back(), Some(&42));
    assert_eq!(pct.series(CpuGraphSource::User).back(), Some(&10));
    assert_eq!(pct.series(CpuGraphSource::System).back(), Some(&20));
    // Auto resolves to total — same series as Total.
    assert_eq!(pct.series(CpuGraphSource::Auto).back(), Some(&42));
}
