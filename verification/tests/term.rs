use rtop::term::{mv, Terminal, SYNC_END, SYNC_START};

#[test]
fn resize_to_reports_only_real_changes() {
    let mut t = Terminal { width: 80, height: 24, sync_enabled: false };
    assert!(!t.resize_to(80, 24));
    assert!(t.resize_to(100, 24));
    assert_eq!(t.size(), (100, 24));
    assert!(t.resize_to(100, 30));
    assert_eq!(t.size(), (100, 30));
}

#[test]
fn synced_frame_wraps_only_when_enabled() {
    let mut t = Terminal { width: 80, height: 24, sync_enabled: false };
    assert_eq!(t.synced_frame("abc"), "abc");
    t.set_sync(true);
    assert_eq!(t.synced_frame("abc"), format!("{SYNC_START}abc{SYNC_END}"));
}

#[test]
fn mv_is_row_then_column() {
    assert_eq!(mv(5, 10), "\x1b[10;5H");
}
