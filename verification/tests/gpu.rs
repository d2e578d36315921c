use rtop::domain::gpu::GpuInfo;

#[test]
fn gpu_info_default_has_empty_percent() {
    let gpu = GpuInfo::default();
    assert!(gpu.gpu_percent.utilization.is_empty());
    assert!(gpu.gpu_percent.vram.is_empty());
    assert!(gpu.gpu_percent.power.is_empty());
}

fn make_gpu(util: i64, temp: i64, clock: u32, mem_used: u64) -> GpuInfo {
    let mut g = GpuInfo::default();
    g.gpu_percent.utilization.push_back(util);
    g.temp.push_back(temp);
    g.gpu_clock_speed = clock;
    g.mem_used = mem_used;
    g
}

#[test]
fn render_fingerprint_changes_when_displayed_value_changes() {
    let a = make_gpu(50, 60, 1500, 1024 * 1024);
    let b = make_gpu(51, 60, 1500, 1024 * 1024);
    assert_ne!(
        a.render_fingerprint(),
        b.render_fingerprint(),
        "utilization change must shift the fingerprint",
    );
}

#[test]
fn render_fingerprint_stable_for_equal_displayed_values() {
    let a = make_gpu(50, 60, 1500, 1024 * 1024);
    let b = make_gpu(50, 60, 1500, 1024 * 1024);
    assert_eq!(a.render_fingerprint(), b.render_fingerprint());
}

#[test]
fn render_fingerprint_ignores_stale_history_window() {
    // Today's gpu_widget renders only `.back()` of every
    // history. Two snapshots whose latest samples are identical
    // but whose history windows differ MUST hash equal — the
    // user would see no visual difference.
    let mut a = make_gpu(50, 60, 1500, 1024 * 1024);
    a.gpu_percent.utilization.push_front(10);
    a.gpu_percent.utilization.push_front(20);
    let b = make_gpu(50, 60, 1500, 1024 * 1024);
    assert_eq!(
        a.render_fingerprint(),
        b.render_fingerprint(),
        "history-window roll must NOT shift the fingerprint",
    );
}

#[test]
fn render_fingerprint_includes_temperature_changes() {
    let a = make_gpu(50, 60, 1500, 1024 * 1024);
    let b = make_gpu(50, 65, 1500, 1024 * 1024);
    assert_ne!(a.render_fingerprint(), b.render_fingerprint());
}

#[test]
fn render_fingerprint_includes_mem_used_changes() {
    let a = make_gpu(50, 60, 1500, 1024 * 1024);
    let b = make_gpu(50, 60, 1500, 2 * 1024 * 1024);
    assert_ne!(a.render_fingerprint(), b.render_fingerprint());
}
