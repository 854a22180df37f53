use smoital::date::SmoitalDate;
use smoital::schedule::{EquatorialSchedule, HeuristicSchedule, SmonthSchedule};
use smoital::year::SmoitalYear;

#[test]
fn converts_between_day_indices_and_dates() {
    let schedule = EquatorialSchedule::new();
    let year = SmoitalYear::new(2090, schedule);

    let first_day = year.date_from_day(0);
    assert_eq!(
        first_day,
        SmoitalDate {
            year: 2090,
            smonth: 0,
            day: 1
        }
    );

    let smol_date = SmoitalDate {
        year: 2090,
        smonth: 6,
        day: 37,
    };
    assert_eq!(year.day_of_year(&smol_date), Some(252));
    assert_eq!(year.date_from_day(252), smol_date);

    // Invalid day (beyond the Smonth length) should return None.
    let invalid_day = SmoitalDate {
        year: 2090,
        smonth: 0,
        day: 40,
    };
    assert_eq!(year.day_of_year(&invalid_day), None);
}

#[test]
fn timezone_offsets_can_be_queried_with_dates() {
    let year = SmoitalYear::new(2030, EquatorialSchedule::new());

    let start_of_year = SmoitalDate {
        year: 2030,
        smonth: 0,
        day: 1,
    };
    let smol_date = SmoitalDate {
        year: 2030,
        smonth: 6,
        day: 37,
    };

    assert_eq!(
        year.timezone_offset_for_date(&start_of_year)
            .unwrap()
            .local_minus_utc(),
        12 * 3600
    );
    assert_eq!(
        year.timezone_offset_for_date(&smol_date)
            .unwrap()
            .local_minus_utc(),
        -12 * 3600
    );

    // Date belonging to another year should be rejected.
    let wrong_year = SmoitalDate {
        year: 2029,
        smonth: 0,
        day: 1,
    };
    assert!(year.timezone_offset_for_date(&wrong_year).is_none());
}

#[test]
fn day_indices_round_trip_through_dates() {
    let equatorial = SmoitalYear::new(2090, EquatorialSchedule::new());
    let heuristic = SmoitalYear::new(2090, HeuristicSchedule::new(2090, 0));
    for day in 0..2000u32 {
        let date = equatorial.date_from_day(day);
        assert_eq!(date.year, 2090);
        assert_eq!(equatorial.day_of_year(&date), Some(day));
        let date = heuristic.date_from_day(day);
        assert_eq!(date, SmoitalDate { year: 2090, smonth: day / 36, day: day % 36 + 1 });
        assert_eq!(heuristic.day_of_year(&date), Some(day));
    }
}

#[test]
fn dates_round_trip_through_day_indices() {
    let year = SmoitalYear::new(-7, EquatorialSchedule::new());
    let mut expected_index: u32 = 0;
    for smonth in 0..19u32 {
        let len = year.schedule().get_smonth_length(smonth);
        for day in 1..=len {
            let date = SmoitalDate { year: -7, smonth, day };
            assert_eq!(year.day_of_year(&date), Some(expected_index));
            assert_eq!(year.date_from_day(expected_index), date);
            expected_index += 1;
        }
    }
    // 19 smonths, 7 of them long: more than the 668 days of a year.
    assert_eq!(expected_index, 19 * 36 + 7);
}

#[test]
fn day_of_year_rejects_dates_outside_the_year() {
    let year = SmoitalYear::new(2090, EquatorialSchedule::new());
    // Day zero.
    assert_eq!(year.day_of_year(&SmoitalDate { year: 2090, smonth: 3, day: 0 }), None);
    // Day 37 of a standard smonth.
    assert_eq!(year.day_of_year(&SmoitalDate { year: 2090, smonth: 8, day: 37 }), None);
    // Day 38 of a long smonth.
    assert_eq!(year.day_of_year(&SmoitalDate { year: 2090, smonth: 7, day: 38 }), None);
    // Another year.
    assert_eq!(year.day_of_year(&SmoitalDate { year: 2091, smonth: 0, day: 1 }), None);
    assert_eq!(year.day_of_year(&SmoitalDate { year: -2090, smonth: 0, day: 1 }), None);
    // The last day of each kind of smonth is accepted.
    assert_eq!(year.day_of_year(&SmoitalDate { year: 2090, smonth: 8, day: 36 }), Some(325));
    assert_eq!(year.day_of_year(&SmoitalDate { year: 2090, smonth: 7, day: 37 }), Some(289));
}

#[test]
fn timezone_offset_for_date_rejects_what_day_of_year_rejects() {
    let year = SmoitalYear::new(2030, EquatorialSchedule::new());
    assert!(year
        .timezone_offset_for_date(&SmoitalDate { year: 2030, smonth: 0, day: 0 })
        .is_none());
    assert!(year
        .timezone_offset_for_date(&SmoitalDate { year: 2030, smonth: 0, day: 37 })
        .is_none());
    assert!(year
        .timezone_offset_for_date(&SmoitalDate { year: 2031, smonth: 6, day: 37 })
        .is_none());
    assert_eq!(
        year.timezone_offset_for_date(&SmoitalDate { year: 2030, smonth: 6, day: 36 })
            .unwrap()
            .local_minus_utc(),
        -680 * 60
    );
}

#[test]
fn timezone_offset_for_day_asks_the_schedule() {
    let year = SmoitalYear::new(2030, HeuristicSchedule::new(2030, 0));
    for day in 0..668u32 {
        assert_eq!(
            year.timezone_offset_for_day(day).local_minus_utc(),
            year.schedule().get_timezone_offset(day).local_minus_utc()
        );
    }
    assert_eq!(year.timezone_offset_for_day(215).local_minus_utc(), 40 * 60);
    assert_eq!(year.timezone_offset_for_day(216).local_minus_utc(), -12 * 3600);
}

#[test]
fn heuristic_year_has_only_standard_smonths() {
    let year = SmoitalYear::new(2030, HeuristicSchedule::new(2030, 0));
    assert_eq!(year.year, 2030);
    assert_eq!(year.day_of_year(&SmoitalDate { year: 2030, smonth: 6, day: 36 }), Some(251));
    assert_eq!(year.day_of_year(&SmoitalDate { year: 2030, smonth: 6, day: 37 }), None);
    // Day 216 is a Smol day of the heuristic, whatever its date.
    assert_eq!(
        year.timezone_offset_for_date(&SmoitalDate { year: 2030, smonth: 6, day: 1 })
            .unwrap()
            .local_minus_utc(),
        -12 * 3600
    );
}

#[test]
fn date_from_day_reaches_the_largest_day_index() {
    let year = SmoitalYear::new(1, HeuristicSchedule::new(1, 0));
    let date = year.date_from_day(u32::MAX);
    assert_eq!(date, SmoitalDate { year: 1, smonth: u32::MAX / 36, day: u32::MAX % 36 + 1 });
}
