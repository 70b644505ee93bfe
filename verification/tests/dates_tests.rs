use neocal::dates::{
    current_date, date_string, from_day_number, range_bounds, to_day_number, CivilDate, DateRange,
};

fn d(year: u32, month: u8, day: u8) -> CivilDate {
    CivilDate { year, month, day }
}

#[test]
fn day_number_round_trip() {
    let samples = [
        (1u32, 1u8, 1u8),
        (4, 2, 29),
        (100, 3, 1),
        (999, 12, 31),
        (1000, 1, 1),
        (1970, 1, 1),
        (2000, 2, 29),
        (2020, 12, 28),
        (2021, 1, 1),
        (2024, 1, 1),
        (2024, 12, 31),
        (2026, 10, 11),
    ];
    for &(y, m, dd) in samples.iter() {
        let z = to_day_number(&d(y, m, dd));
        let back = from_day_number(z);
        assert_eq!(back, d(y, m, dd));
    }
}

#[test]
fn day_number_matches_chrono() {
    // chrono counts 0001-01-01 as day 1 of the common era; this library
    // counts it as day 0.
    let samples = [(1973u32, 11u8, 29u8), (2024, 2, 29), (2021, 1, 1), (2400, 3, 1)];
    for &(y, m, dd) in samples.iter() {
        let nd = chrono::NaiveDate::from_ymd_opt(y as i32, m as u32, dd as u32).unwrap();
        let ce = chrono::Datelike::num_days_from_ce(&nd) as u64;
        assert_eq!(to_day_number(&d(y, m, dd)), ce - 1);
    }
}

#[test]
fn week_monday_matches_chrono_iso_week() {
    // Walk a few years of dates and compare the computed week start with
    // chrono's ISO week reckoning.
    let mut nd = chrono::NaiveDate::from_ymd_opt(2019, 12, 1).unwrap();
    let end = chrono::NaiveDate::from_ymd_opt(2022, 2, 1).unwrap();
    while nd < end {
        let today = d(
            chrono::Datelike::year(&nd) as u32,
            chrono::Datelike::month(&nd) as u8,
            chrono::Datelike::day(&nd) as u8,
        );
        let b = range_bounds(&today, DateRange::CurrentWeek);
        let iso = chrono::Datelike::iso_week(&nd);
        let mon = chrono::NaiveDate::from_isoywd_opt(iso.year(), iso.week(), chrono::Weekday::Mon)
            .unwrap();
        let sun = chrono::NaiveDate::from_isoywd_opt(iso.year(), iso.week(), chrono::Weekday::Sun)
            .unwrap();
        assert_eq!(date_string(&b.start), mon.format("%Y-%m-%d").to_string());
        assert_eq!(date_string(&b.end), sun.format("%Y-%m-%d").to_string());
        nd = nd.succ_opt().unwrap();
    }
}

#[test]
fn current_week_straddles_year_boundary() {
    // 2021-01-01 is a Friday inside ISO week 53 of 2020: the week's Monday
    // falls in the prior calendar year.
    let b = range_bounds(&d(2021, 1, 1), DateRange::CurrentWeek);
    assert_eq!(b.start, d(2020, 12, 28));
    assert_eq!(b.end, d(2021, 1, 3));
    assert_eq!(b.time_min, "2020-12-28T00:00:00.000Z");
    assert_eq!(b.time_max, "2021-01-03T23:59:59.000Z");
}

#[test]
fn zero_weeks_ahead_equals_current_week() {
    let today = d(2024, 7, 17);
    let week = range_bounds(&today, DateRange::CurrentWeek);
    let zero = range_bounds(&today, DateRange::NWeeksAhead(0));
    assert_eq!(zero.start, week.start);
    assert_eq!(zero.end, week.end);
    assert_eq!(zero.time_min, week.time_min);
    assert_eq!(zero.time_max, week.time_max);
}

#[test]
fn today_bounds_are_midnight_to_end_of_day() {
    let b = range_bounds(&d(2024, 3, 10), DateRange::Today);
    assert_eq!(b.time_min, "2024-03-10T00:00:00.000Z");
    assert_eq!(b.time_max, "2024-03-10T23:59:59.000Z");
}

#[test]
fn tomorrow_crosses_the_year_end() {
    let b = range_bounds(&d(2023, 12, 31), DateRange::Tomorrow);
    assert_eq!(b.start, d(2024, 1, 1));
    assert_eq!(b.end, d(2024, 1, 1));
    assert_eq!(b.time_min, "2024-01-01T00:00:00.000Z");
    assert_eq!(b.time_max, "2024-01-01T23:59:59.000Z");
}

#[test]
fn weeks_ahead_ends_on_a_later_sunday() {
    // 2024-01-03 is a Wednesday; its week runs 2024-01-01 to 2024-01-07.
    let b = range_bounds(&d(2024, 1, 3), DateRange::NWeeksAhead(2));
    assert_eq!(b.start, d(2024, 1, 1));
    assert_eq!(b.end, d(2024, 1, 21));
}

#[test]
fn range_start_never_exceeds_end() {
    let today = d(2024, 11, 30);
    let ranges = [
        DateRange::Today,
        DateRange::Tomorrow,
        DateRange::CurrentWeek,
        DateRange::NWeeksAhead(0),
        DateRange::NWeeksAhead(1),
        DateRange::NWeeksAhead(52),
    ];
    for r in ranges.iter() {
        let b = range_bounds(&today, *r);
        assert!(to_day_number(&b.start) <= to_day_number(&b.end));
    }
}

#[test]
fn day_zero_is_the_first_of_year_one() {
    assert_eq!(from_day_number(0), d(1, 1, 1));
    assert_eq!(to_day_number(&d(1, 1, 1)), 0);
}

#[test]
fn date_string_zero_pads() {
    assert_eq!(date_string(&d(5, 1, 7)), "0005-01-07");
    assert_eq!(date_string(&d(999, 12, 31)), "0999-12-31");
    assert_eq!(date_string(&d(2024, 10, 3)), "2024-10-03");
}

#[test]
fn clock_yields_todays_date() {
    let today = current_date().expect("the clock should give a usable date");
    let now = chrono::offset::Local::now();
    // Tolerate a date change between the two clock reads.
    let a = chrono::NaiveDate::from_ymd_opt(
        today.year as i32,
        today.month as u32,
        today.day as u32,
    )
    .unwrap();
    let b = chrono::Datelike::num_days_from_ce(&now);
    let diff = (chrono::Datelike::num_days_from_ce(&a) - b).abs();
    assert!(diff <= 1);
}
