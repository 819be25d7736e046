use mirror_backup::{should_copy_file, Timestamp, Verdict};

fn at(secs: i64, nanos: u32) -> Option<Timestamp> {
    Some(Timestamp { secs, nanos })
}

#[test]
fn missing_destination_is_copied() {
    assert_eq!(should_copy_file(false, at(10, 0), at(20, 0)), Verdict::Copy);
    assert_eq!(should_copy_file(false, None, None), Verdict::Copy);
}

#[test]
fn unreadable_times_fail_open() {
    assert_eq!(should_copy_file(true, None, at(5, 0)), Verdict::Copy);
    assert_eq!(should_copy_file(true, at(5, 0), None), Verdict::Copy);
    assert_eq!(should_copy_file(true, None, None), Verdict::Copy);
}

#[test]
fn newer_source_is_copied() {
    assert_eq!(should_copy_file(true, at(101, 0), at(100, 0)), Verdict::Copy);
    assert_eq!(should_copy_file(true, at(100, 2), at(100, 1)), Verdict::Copy);
}

#[test]
fn equal_or_older_source_is_skipped() {
    assert_eq!(should_copy_file(true, at(100, 5), at(100, 5)), Verdict::Skip);
    assert_eq!(should_copy_file(true, at(99, 999_999_999), at(100, 0)), Verdict::Skip);
    assert_eq!(should_copy_file(true, at(-3, 0), at(-2, 500)), Verdict::Skip);
}

#[test]
fn extreme_times_compare_without_overflow() {
    assert_eq!(should_copy_file(true, at(i64::MAX, 999_999_999), at(i64::MIN, 0)), Verdict::Copy);
    assert_eq!(should_copy_file(true, at(i64::MIN, 0), at(i64::MAX, 0)), Verdict::Skip);
}

#[test]
fn timestamp_order_is_by_instant() {
    let a = Timestamp { secs: 7, nanos: 1 };
    let b = Timestamp { secs: 7, nanos: 0 };
    assert!(a.is_after(&b));
    assert!(!b.is_after(&a));
    assert!(!a.is_after(&a));
}
