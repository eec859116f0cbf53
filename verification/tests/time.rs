use plant_paladin::time::{leap_year, month_length, Timestamp, MAX_YEAR, MIN_YEAR};

fn at(year: i32, month: u32, day: u32, hour: u32, minute: u32, second: u32) -> Timestamp {
    Timestamp::new(year, month, day, hour, minute, second, 0).unwrap()
}

#[test]
fn new_keeps_the_fields() {
    let t = Timestamp::new(2024, 2, 29, 23, 59, 58, 123_456_789).unwrap();
    assert_eq!(t.year(), 2024);
    assert_eq!(t.month(), 2);
    assert_eq!(t.day(), 29);
    assert_eq!(t.hour(), 23);
    assert_eq!(t.minute(), 59);
    assert_eq!(t.second(), 58);
    assert_eq!(t.nanosecond(), 123_456_789);
}

#[test]
fn new_refuses_days_that_do_not_exist() {
    assert!(Timestamp::new(2023, 2, 29, 0, 0, 0, 0).is_none());
    assert!(Timestamp::new(2023, 4, 31, 0, 0, 0, 0).is_none());
    assert!(Timestamp::new(1900, 2, 29, 0, 0, 0, 0).is_none());
    assert!(Timestamp::new(2000, 2, 29, 0, 0, 0, 0).is_some());
    assert!(Timestamp::new(2023, 0, 1, 0, 0, 0, 0).is_none());
    assert!(Timestamp::new(2023, 13, 1, 0, 0, 0, 0).is_none());
    assert!(Timestamp::new(2023, 1, 0, 0, 0, 0, 0).is_none());
    assert!(Timestamp::new(2023, 1, 32, 0, 0, 0, 0).is_none());
    assert!(Timestamp::new(-4, 2, 29, 0, 0, 0, 0).is_some());
}

#[test]
fn new_refuses_years_out_of_range() {
    assert!(Timestamp::new(MAX_YEAR, 12, 31, 23, 59, 59, 0).is_some());
    assert!(Timestamp::new(MAX_YEAR + 1, 1, 1, 0, 0, 0, 0).is_none());
    assert!(Timestamp::new(MIN_YEAR, 1, 1, 0, 0, 0, 0).is_some());
    assert!(Timestamp::new(MIN_YEAR - 1, 12, 31, 0, 0, 0, 0).is_none());
}

#[test]
fn new_refuses_times_that_do_not_exist() {
    assert!(Timestamp::new(2023, 1, 1, 24, 0, 0, 0).is_none());
    assert!(Timestamp::new(2023, 1, 1, 0, 60, 0, 0).is_none());
    assert!(Timestamp::new(2023, 1, 1, 0, 0, 60, 0).is_none());
    assert!(Timestamp::new(2023, 1, 1, 0, 0, 0, 2_000_000_000).is_none());
    assert!(Timestamp::new(2023, 1, 1, 0, 0, 58, 1_000_000_000).is_none());
    assert!(Timestamp::new(2023, 1, 1, 0, 0, 59, 1_999_999_999).is_some());
    assert!(Timestamp::new(2023, 1, 1, 23, 59, 59, 999_999_999).is_some());
}

#[test]
fn the_library_accepts_what_chrono_accepts() {
    let years = [MIN_YEAR - 1, MIN_YEAR, -401, -400, -100, -4, -1, 0, 1, 4, 100, 1900, 2000, 2023, 2024, MAX_YEAR, MAX_YEAR + 1];
    for year in years {
        for month in 0..14u32 {
            for day in 0..33u32 {
                let ours = Timestamp::new(year, month, day, 12, 0, 0, 0).is_some();
                let theirs = chrono::NaiveDate::from_ymd_opt(year, month, day).is_some();
                assert_eq!(ours, theirs, "{year}-{month}-{day}");
            }
        }
    }
    for second in [0u32, 58, 59, 60] {
        for nano in [0u32, 999_999_999, 1_000_000_000, 1_999_999_999, 2_000_000_000] {
            let ours = Timestamp::new(2024, 6, 30, 23, 59, second, nano).is_some();
            let theirs = chrono::NaiveTime::from_hms_nano_opt(23, 59, second, nano).is_some();
            assert_eq!(ours, theirs, "{second} {nano}");
        }
    }
}

#[test]
fn leap_years_follow_the_gregorian_rule() {
    assert!(leap_year(2024));
    assert!(!leap_year(2023));
    assert!(!leap_year(1900));
    assert!(leap_year(2000));
    assert!(leap_year(0));
    assert!(leap_year(-4));
    assert!(!leap_year(-100));
    assert!(leap_year(-400));
}

#[test]
fn months_have_their_lengths() {
    let lengths = [31, 28, 31, 30, 31, 30, 31, 31, 30, 31, 30, 31];
    for month in 1..=12u32 {
        assert_eq!(month_length(2023, month), lengths[month as usize - 1]);
    }
    assert_eq!(month_length(2024, 2), 29);
}

#[test]
fn never_watered_is_the_start_of_1900() {
    let never = Timestamp::never_watered();
    assert_eq!(never, at(1900, 1, 1, 0, 0, 0));
}

#[test]
fn days_since_counts_whole_days() {
    let start = at(2024, 1, 1, 0, 0, 0);
    assert_eq!(at(2024, 1, 1, 0, 0, 0).days_since(&start), 0);
    assert_eq!(at(2024, 1, 1, 23, 59, 59).days_since(&start), 0);
    assert_eq!(at(2024, 1, 2, 0, 0, 0).days_since(&start), 1);
    assert_eq!(at(2024, 1, 3, 0, 0, 0).days_since(&start), 2);
    assert_eq!(at(2024, 1, 3, 23, 59, 59).days_since(&start), 2);
    assert_eq!(at(2024, 3, 1, 0, 0, 0).days_since(&start), 60);
    assert_eq!(at(2025, 1, 1, 0, 0, 0).days_since(&start), 366);
}

#[test]
fn days_since_goes_by_elapsed_time_not_by_calendar_day() {
    let evening = at(2024, 5, 1, 23, 0, 0);
    assert_eq!(at(2024, 5, 2, 1, 0, 0).days_since(&evening), 0);
    assert_eq!(at(2024, 5, 2, 22, 59, 59).days_since(&evening), 0);
    assert_eq!(at(2024, 5, 2, 23, 0, 0).days_since(&evening), 1);
}

#[test]
fn days_since_is_negative_for_a_later_moment() {
    let start = at(2024, 1, 10, 12, 0, 0);
    assert_eq!(at(2024, 1, 10, 0, 0, 0).days_since(&start), 0);
    assert_eq!(at(2024, 1, 9, 12, 0, 1).days_since(&start), 0);
    assert_eq!(at(2024, 1, 9, 12, 0, 0).days_since(&start), -1);
    assert_eq!(at(2024, 1, 1, 12, 0, 0).days_since(&start), -9);
}

#[test]
fn days_since_counts_nanoseconds() {
    let start = Timestamp::new(2024, 1, 1, 0, 0, 0, 1).unwrap();
    assert_eq!(at(2024, 1, 2, 0, 0, 0).days_since(&start), 0);
    assert_eq!(Timestamp::new(2024, 1, 2, 0, 0, 0, 1).unwrap().days_since(&start), 1);
}

#[test]
fn days_since_never_watered() {
    let never = Timestamp::never_watered();
    assert_eq!(at(1900, 1, 4, 0, 0, 0).days_since(&never), 3);
    assert_eq!(at(2024, 1, 1, 0, 0, 0).days_since(&never), 45290);
}

#[test]
fn days_since_agrees_with_chrono() {
    let a = chrono::NaiveDate::from_ymd_opt(2031, 7, 19).unwrap().and_hms_nano_opt(4, 5, 6, 7).unwrap();
    let b = chrono::NaiveDate::from_ymd_opt(1987, 11, 2).unwrap().and_hms_nano_opt(21, 22, 23, 24).unwrap();
    let ours_a = Timestamp::new(2031, 7, 19, 4, 5, 6, 7).unwrap();
    let ours_b = Timestamp::new(1987, 11, 2, 21, 22, 23, 24).unwrap();
    assert_eq!(ours_a.days_since(&ours_b), (a - b).num_days());
    assert_eq!(ours_b.days_since(&ours_a), (b - a).num_days());
    assert_eq!(ours_a.days_since(&ours_b), 15964);
}

#[test]
fn days_since_spans_the_whole_range() {
    let first = at(MIN_YEAR, 1, 1, 0, 0, 0);
    let last = at(MAX_YEAR, 12, 31, 23, 59, 59);
    assert_eq!(last.days_since(&first), 191_491_528);
    assert_eq!(first.days_since(&last), -191_491_528);
}
