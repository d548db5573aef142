use keystroke::timestamp::Timestamp;

fn at(secs: i64, nanos: u32) -> Timestamp {
    Timestamp::from_parts(secs, nanos).unwrap()
}

#[test]
fn ordering() {
    assert!(at(1, 0).before(&at(2, 0)));
    assert!(at(1, 5).before(&at(1, 6)));
    assert!(!at(1, 6).before(&at(1, 6)));
    assert!(!at(2, 0).before(&at(1, 999_999_999)));
    assert!(at(-1, 999_999_999).before(&Timestamp::unix_epoch()));
    assert!(Timestamp::from_parts(0, 1_000_000_000).is_none());
}

#[test]
fn second_arithmetic() {
    assert_eq!(at(10, 3).checked_add_secs(5), Some(at(15, 3)));
    assert_eq!(at(i64::MAX - 1, 0).checked_add_secs(2), None);
    assert_eq!(at(-5, 0).checked_add_secs(u64::MAX), None);
    assert_eq!(at(-10, 0).checked_add_secs(i64::MAX as u64 + 5), Some(at(i64::MAX - 5, 0)));
    assert_eq!(at(10, 3).checked_sub_secs(60), Some(at(-50, 3)));
    assert_eq!(at(i64::MIN + 1, 0).checked_sub_secs(2), None);
    assert_eq!(at(0, 0).checked_sub_secs(i64::MAX as u64 + 1), Some(at(i64::MIN, 0)));
    assert_eq!(at(7, 1).add_secs(3600), at(3607, 1));
    assert_eq!(Timestamp::from_unix_secs(1_700_000_000), Some(at(1_700_000_000, 0)));
    assert_eq!(Timestamp::from_unix_secs(u64::MAX), None);
}

#[test]
fn offsets_from_the_epoch() {
    assert_eq!(Timestamp::from_epoch_offset(false, 5, 10), Some(at(5, 10)));
    assert_eq!(Timestamp::from_epoch_offset(true, 5, 0), Some(at(-5, 0)));
    assert_eq!(Timestamp::from_epoch_offset(true, 5, 250), Some(at(-6, 999_999_750)));
    assert_eq!(Timestamp::from_epoch_offset(false, u64::MAX, 0), None);
    assert_eq!(Timestamp::from_epoch_offset(true, i64::MAX as u64 + 1, 0), Some(at(i64::MIN, 0)));
    assert_eq!(Timestamp::from_epoch_offset(true, i64::MAX as u64 + 1, 1), None);
    assert_eq!(Timestamp::from_epoch_offset(false, 1, 1_000_000_000), None);
    let t = at(12, 34);
    assert_eq!((t.secs(), t.subsec_nanos()), (12, 34));
}
