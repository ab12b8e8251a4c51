use download_stats::date::{days_in_month, is_leap_year, Date};

#[test]
fn leap_years_follow_the_gregorian_rule() {
    assert!(is_leap_year(2020));
    assert!(is_leap_year(2000));
    assert!(!is_leap_year(1900));
    assert!(!is_leap_year(2021));
    assert!(is_leap_year(0));
    assert!(is_leap_year(-4));
    assert!(!is_leap_year(-100));
    assert!(is_leap_year(-400));
    assert!(!is_leap_year(i32::MAX));
    assert!(is_leap_year(i32::MIN));
}

#[test]
fn months_have_their_lengths() {
    let lengths = [31, 28, 31, 30, 31, 30, 31, 31, 30, 31, 30, 31];
    for month in 1..=12u32 {
        assert_eq!(days_in_month(2021, month), lengths[(month - 1) as usize]);
    }
    assert_eq!(days_in_month(2020, 2), 29);
    assert_eq!(days_in_month(1900, 2), 28);
    assert_eq!(days_in_month(2021, 0), 0);
    assert_eq!(days_in_month(2021, 13), 0);
}

#[test]
fn a_date_keeps_its_parts() {
    let date = Date::new(2020, 1, 1).unwrap();
    assert_eq!(date.year(), 2020);
    assert_eq!(date.month(), 1);
    assert_eq!(date.day(), 1);
    assert_eq!(Date::new(2020, 1, 1), Some(date));
}

#[test]
fn days_off_the_calendar_are_no_dates() {
    assert!(Date::new(2021, 2, 29).is_none());
    assert!(Date::new(2020, 2, 29).is_some());
    assert!(Date::new(2020, 2, 30).is_none());
    assert!(Date::new(2020, 0, 1).is_none());
    assert!(Date::new(2020, 13, 1).is_none());
    assert!(Date::new(2020, 1, 0).is_none());
    assert!(Date::new(2020, 1, 32).is_none());
    assert!(Date::new(2020, 4, 31).is_none());
    assert!(Date::new(2020, 12, 31).is_some());
}

#[test]
fn dates_agree_with_chrono() {
    for year in [-401, -400, -1, 0, 1, 1899, 1900, 1999, 2000, 2020, 2021, 2100, 2400] {
        for month in 0..=13u32 {
            for day in 0..=32u32 {
                let ours = Date::new(year, month, day).is_some();
                let theirs = chrono::NaiveDate::from_ymd_opt(year, month, day).is_some();
                assert_eq!(ours, theirs, "{}-{}-{}", year, month, day);
            }
        }
    }
}

#[test]
fn earlier_days_come_before_later_ones() {
    let a = Date::new(2019, 12, 31).unwrap();
    let b = Date::new(2020, 1, 1).unwrap();
    let c = Date::new(2020, 1, 2).unwrap();
    let d = Date::new(2020, 2, 1).unwrap();
    assert!(a.is_before(&b));
    assert!(b.is_before(&c));
    assert!(c.is_before(&d));
    assert!(a.is_before(&d));
    assert!(!b.is_before(&a));
    assert!(!d.is_before(&c));
    assert!(!b.is_before(&b));
    assert!(Date::new(-1, 12, 31).unwrap().is_before(&Date::new(0, 1, 1).unwrap()));
}
