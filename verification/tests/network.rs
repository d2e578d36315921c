use rtop::domain::network::{NetInfo, NetStat};

#[test]
fn net_stat_default_zeroed() {
    let stat = NetStat::default();
    assert_eq!(stat.speed, 0);
    assert_eq!(stat.top, 0);
    assert_eq!(stat.last, 0);
    assert_eq!(stat.total, 0);
}

#[test]
fn net_info_default_has_empty_bandwidth() {
    let info = NetInfo::default();
    assert!(info.bandwidth.download.is_empty());
    assert!(info.bandwidth.upload.is_empty());
    assert_eq!(info.stat.download.speed, 0);
    assert_eq!(info.stat.upload.speed, 0);
}
