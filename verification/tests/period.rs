use finance::expenses::period::{
    month_bounds_ms, week_bounds_ms, year_bounds_ms, DAY_MS, MAX_CALENDAR_YEAR, MIN_CALENDAR_YEAR,
};

#[test]
fn month_window_runs_to_the_next_month() {
    assert_eq!(month_bounds_ms(2024, 2), Some((1_706_745_600_000, 1_709_251_200_000)));
    assert_eq!(month_bounds_ms(2023, 12), Some((1_701_388_800_000, 1_704_067_200_000)));
    assert_eq!(month_bounds_ms(2024, 0), None);
    assert_eq!(month_bounds_ms(2024, 13), None);
    assert_eq!(month_bounds_ms(MAX_CALENDAR_YEAR, 12), None);
    assert!(month_bounds_ms(MAX_CALENDAR_YEAR, 11).is_some());
    assert!(month_bounds_ms(MIN_CALENDAR_YEAR, 1).is_some());
    assert_eq!(month_bounds_ms(MIN_CALENDAR_YEAR - 1, 1), None);
}

#[test]
fn year_window_is_january_to_january() {
    assert_eq!(year_bounds_ms(2024), Some((1_704_067_200_000, 1_735_689_600_000)));
    assert_eq!(year_bounds_ms(MAX_CALENDAR_YEAR), None);
    assert_eq!(year_bounds_ms(i32::MAX), None);
}

#[test]
fn week_window_is_seven_days_from_new_year_plus_whole_weeks() {
    let jan1 = 1_704_067_200_000;
    assert_eq!(week_bounds_ms(2024, 1), Some((jan1, jan1 + 7 * DAY_MS)));
    assert_eq!(week_bounds_ms(2024, 0), Some((jan1, jan1 + 7 * DAY_MS)));
    assert_eq!(week_bounds_ms(2024, 3), Some((1_705_276_800_000, 1_705_276_800_000 + 7 * DAY_MS)));
    assert_eq!(week_bounds_ms(2024, u32::MAX), None);
    assert_eq!(week_bounds_ms(300_000, 1), None);
}
