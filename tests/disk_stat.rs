use job_recorder::disk_stat::DiskStat;

#[test]
fn byte_counts_from_blocks() {
    let s = DiskStat::new(10, 100, 4096).unwrap();
    assert_eq!(s.available, 40_960);
    assert_eq!(s.total, 409_600);
    assert_eq!(s.used, 368_640);
}

#[test]
fn full_and_empty_file_systems() {
    let full = DiskStat::new(0, 100, 512).unwrap();
    assert_eq!((full.available, full.total, full.used), (0, 51_200, 51_200));
    let empty = DiskStat::new(100, 100, 512).unwrap();
    assert_eq!(empty.used, 0);
}

#[test]
fn overflowing_counts_give_none() {
    assert!(DiskStat::new(u64::MAX, u64::MAX, 2).is_none());
    assert!(DiskStat::new(1, u64::MAX, 2).is_none());
    assert!(DiskStat::new(u64::MAX, 1, 1).is_none());
}
