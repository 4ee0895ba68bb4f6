use workday::{Day, Timestamp};

#[test]
fn valid_days_are_accepted() {
    let d = Day::from_ymd(2022, 7, 1).unwrap();
    assert_eq!((d.year, d.month, d.day), (2022, 7, 1));
    assert!(Day::from_ymd(2024, 2, 29).is_some());
    assert!(Day::from_ymd(2000, 2, 29).is_some());
    assert!(Day::from_ymd(2022, 12, 31).is_some());
    assert!(Day::from_ymd(-4, 2, 29).is_some());
}

#[test]
fn invalid_days_are_refused() {
    assert_eq!(Day::from_ymd(2023, 2, 29), None);
    assert_eq!(Day::from_ymd(1900, 2, 29), None);
    assert_eq!(Day::from_ymd(2022, 4, 31), None);
    assert_eq!(Day::from_ymd(2022, 13, 1), None);
    assert_eq!(Day::from_ymd(2022, 0, 1), None);
    assert_eq!(Day::from_ymd(2022, 7, 0), None);
}

#[test]
fn timestamps_keep_their_seconds() {
    assert_eq!(Timestamp::from_secs(1656662400).secs(), 1656662400);
    assert_eq!(Timestamp::from_secs(-5).secs, -5);
}
