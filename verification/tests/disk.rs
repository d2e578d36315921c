use rtop::domain::disk::{DiskData, DiskInfo, DisksFilter};

#[test]
fn disk_info_percentages_valid_range() {
    let disk = DiskInfo {
        total: 1_000_000,
        used: 600_000,
        used_percent: 60,
        ..Default::default()
    };
    assert!((0..=100).contains(&disk.used_percent));
}

#[test]
fn disk_info_perf_defaults_are_empty() {
    let disk = DiskInfo::default();
    assert_eq!(disk.read_bytes_per_sec, 0);
    assert_eq!(disk.write_bytes_per_sec, 0);
    assert_eq!(disk.busy_percent, 0);
    assert!(disk.read_history.is_empty());
    assert!(disk.write_history.is_empty());
}

#[test]
fn disk_data_default_is_empty() {
    let data = DiskData::default();
    assert!(data.disks.is_empty());
}

fn disk(name: &str) -> DiskInfo {
    DiskInfo {
        name: name.to_string(),
        ..Default::default()
    }
}

fn entries(raw: &[&str]) -> Vec<String> {
    raw.iter().map(|s| (*s).to_string()).collect()
}

#[test]
fn disks_filter_empty_input_matches_all() {
    let f = DisksFilter::parse(&[]);
    assert!(f.is_empty());
    assert!(f.matches("C:"));
    assert!(f.matches("D:"));
    assert!(f.invalid().is_empty());
}

#[test]
fn disks_filter_include_single_drive() {
    let f = DisksFilter::parse(&entries(&["C:"]));
    assert!(!f.is_empty());
    assert!(f.matches("C:"));
    assert!(!f.matches("D:"));
    assert!(f.invalid().is_empty());
}

#[test]
fn disks_filter_include_multiple_drives() {
    let f = DisksFilter::parse(&entries(&["C:", "D:", "E:"]));
    assert!(f.matches("C:"));
    assert!(f.matches("D:"));
    assert!(f.matches("E:"));
    assert!(!f.matches("F:"));
}

#[test]
fn disks_filter_exclude_single_drive() {
    let f = DisksFilter::parse(&entries(&["!C:"]));
    assert!(!f.is_empty());
    assert!(!f.matches("C:"));
    assert!(f.matches("D:"));
    assert!(f.matches("Z:"));
}

#[test]
fn disks_filter_exclude_multiple_drives() {
    let f = DisksFilter::parse(&entries(&["!C:", "!D:"]));
    assert!(!f.matches("C:"));
    assert!(!f.matches("D:"));
    assert!(f.matches("E:"));
}

#[test]
fn disks_filter_exclude_takes_precedence_over_include() {
    let f = DisksFilter::parse(&entries(&["C:", "D:", "!D:"]));
    assert!(f.matches("C:"));
    assert!(!f.matches("D:"));
    // E: is not in include so it's still rejected.
    assert!(!f.matches("E:"));
}

#[test]
fn disks_filter_normalises_case() {
    let f = DisksFilter::parse(&entries(&["c:", "d:"]));
    assert!(f.matches("C:"));
    assert!(f.matches("D:"));
    assert!(!f.matches("E:"));
     let f2 = DisksFilter::parse(&entries(&["C:"]));
    assert!(f2.matches("c:"));
}

#[test]
fn disks_filter_rejects_letter_without_trailing_colon() {
    // The trailing `:` is mandatory — it's the Windows convention
    // for drive identifiers and matches what rtop displays on
    // screen. Bare letters are captured as invalid entries so the
    // user sees a warning at config load time.
    let f = DisksFilter::parse(&entries(&["C", "D", "!a", "!B"]));
    assert!(f.is_empty());
    assert_eq!(
        f.invalid(),
        &[
            "C".to_string(),
            "D".to_string(),
            "!a".to_string(),
            "!B".to_string(),
        ]
    );
}

#[test]
fn disks_filter_invalid_entries_captured_and_dropped() {
    let f = DisksFilter::parse(&entries(&[
        "C:",
        "abc",
        "3",
        "D:",
        "!!",
        "C::",
        "C:\\Users",
    ]));
    assert!(f.matches("C:"));
    assert!(f.matches("D:"));
    assert!(!f.matches("E:"));
    assert_eq!(
        f.invalid(),
        &[
            "abc".to_string(),
            "3".to_string(),
            "!!".to_string(),
            "C::".to_string(),
            "C:\\Users".to_string(),
        ]
    );
}

#[test]
fn disks_filter_lone_bang_is_invalid() {
    let f = DisksFilter::parse(&entries(&["!"]));
    assert!(f.is_empty());
    assert_eq!(f.invalid(), &["!".to_string()]);
}

#[test]
fn disks_filter_apply_preserves_input_order_not_filter_order() {
    let disks = vec![disk("C:"), disk("D:"), disk("E:")];
    // Filter order: E:, then C:. Input order is C:, D:, E:.
    let f = DisksFilter::parse(&entries(&["E:", "C:"]));
    let kept = f.apply(&disks);
    assert_eq!(kept.len(), 2);
    assert_eq!(kept[0].name, "C:");
    assert_eq!(kept[1].name, "E:");
}

#[test]
fn disks_filter_apply_with_empty_filter_yields_all() {
    let disks = vec![disk("C:"), disk("D:"), disk("E:")];
    let f = DisksFilter::parse(&[]);
    let kept = f.apply(&disks);
    assert_eq!(kept.len(), 3);
}

#[test]
fn disks_filter_apply_exclude_only_removes_listed() {
    let disks = vec![disk("C:"), disk("D:"), disk("E:")];
    let f = DisksFilter::parse(&entries(&["!D:"]));
    let kept = f.apply(&disks);
    assert_eq!(kept.len(), 2);
    assert_eq!(kept[0].name, "C:");
    assert_eq!(kept[1].name, "E:");
}

#[test]
fn disks_filter_includes_absent_drives_yields_only_present() {
    // The filter lists more drives than physically exist. The
    // result is sized to the present-and-matching set: no ghost
    // rows for the absent drives.
    let disks = vec![disk("C:"), disk("D:")];
    let f = DisksFilter::parse(&entries(&["C:", "D:", "E:", "F:", "G:", "H:", "I:"]));
    let kept = f.apply(&disks);
    assert_eq!(kept.len(), 2);
    assert_eq!(kept[0].name, "C:");
    assert_eq!(kept[1].name, "D:");
    // No invalid entries in this filter.
    assert!(f.invalid().is_empty());
}
