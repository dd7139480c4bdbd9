use ratings_core::period::{Date, Period};

fn d(year: i32, month: u8, day: u8) -> Date {
    Date { year, month, day }
}

#[test]
fn period_of_each_month() {
    assert_eq!(Period::from_date(d(2024, 1, 15)), Period::Q1);
    assert_eq!(Period::from_date(d(2024, 2, 1)), Period::Q1);
    assert_eq!(Period::from_date(d(2024, 3, 31)), Period::Q1);
    assert_eq!(Period::from_date(d(2024, 4, 1)), Period::Q2);
    assert_eq!(Period::from_date(d(2024, 6, 30)), Period::Q2);
    assert_eq!(Period::from_date(d(2024, 7, 1)), Period::Q3);
    assert_eq!(Period::from_date(d(2024, 9, 30)), Period::Q3);
    assert_eq!(Period::from_date(d(2024, 10, 1)), Period::Q4);
    assert_eq!(Period::from_date(d(2024, 12, 31)), Period::Q4);
}

#[test]
fn month_ranges() {
    assert_eq!(Period::Q1.to_month_range(), (1, 3));
    assert_eq!(Period::Q2.to_month_range(), (4, 6));
    assert_eq!(Period::Q3.to_month_range(), (7, 9));
    assert_eq!(Period::Q4.to_month_range(), (10, 12));
}

#[test]
fn date_range_exact_values() {
    let (s, e) = Period::Q1.to_date_range(2024).unwrap();
    assert_eq!(s, d(2024, 1, 1));
    assert_eq!(e, d(2024, 3, 31));
    let (s, e) = Period::Q2.to_date_range(2024).unwrap();
    assert_eq!(s, d(2024, 4, 1));
    assert_eq!(e, d(2024, 6, 30));
    let (s, e) = Period::Q3.to_date_range(2024).unwrap();
    assert_eq!(s, d(2024, 7, 1));
    assert_eq!(e, d(2024, 9, 30));
}

#[test]
fn q4_range_ends_december_31_same_year() {
    let (s, e) = Period::Q4.to_date_range(2023).unwrap();
    assert_eq!(s, d(2023, 10, 1));
    assert_eq!(e, d(2023, 12, 31));
    assert_eq!(e.year, 2023);
}

#[test]
fn date_validation() {
    assert!(Date::new(2024, 2, 29).is_some());
    assert!(Date::new(2023, 2, 29).is_none());
    assert!(Date::new(1900, 2, 29).is_none());
    assert!(Date::new(2000, 2, 29).is_some());
    assert!(Date::new(2024, 13, 1).is_none());
    assert!(Date::new(2024, 0, 10).is_none());
    assert!(Date::new(2024, 4, 31).is_none());
    assert!(Date::new(2024, 4, 0).is_none());
    assert_eq!(Date::new(2024, 4, 30), Some(d(2024, 4, 30)));
}

#[test]
fn period_monotonic_in_month() {
    let mut last = 0u8;
    for month in 1..=12u8 {
        let p = Period::from_date(d(2024, month, 1));
        let ord = p.ordinal_index();
        assert!(ord >= last);
        assert!(ord <= 3);
        last = ord;
    }
}

#[test]
fn date_range_round_trip() {
    for month in 1..=12u8 {
        let date = d(2022, month, 15);
        let p = Period::from_date(date);
        let (s, e) = p.to_date_range(2022).unwrap();
        assert!(s.le(date) && date.le(e));
        // A date of another year never falls inside this year's range.
        let other = d(2023, month, 15);
        assert!(!(s.le(other) && other.le(e)));
    }
}

#[test]
fn period_info_composes() {
    let (year, period, (s, e)) = Period::period_info(d(2024, 11, 3));
    assert_eq!(year, 2024);
    assert_eq!(period, Period::Q4);
    assert_eq!(s, d(2024, 10, 1));
    assert_eq!(e, d(2024, 12, 31));
}

#[test]
fn date_order_is_lexicographic() {
    assert!(d(2023, 12, 31).le(d(2024, 1, 1)));
    assert!(d(2024, 1, 31).le(d(2024, 2, 1)));
    assert!(d(2024, 2, 1).le(d(2024, 2, 1)));
    assert!(!d(2024, 2, 2).le(d(2024, 2, 1)));
}

#[test]
fn current_period_info_is_consistent() {
    let (year, period, range) = Period::current_period_info();
    let expected = period.to_date_range(year).unwrap();
    assert_eq!(range, expected);
}
