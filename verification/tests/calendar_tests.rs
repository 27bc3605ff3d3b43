use codex_savings_core::calendar::{
    current_cycle_start, cycle_month_dirs, cycle_scan_month_dirs, days_between, is_leap_year,
    last_day_of_month, next_cycle_start, next_month, ordinal_day, previous_month, DateKey,
};
use codex_savings_core::timestamp::{parse_timestamp_part, utc_time_from_timestamp};

fn date(year: u16, month: u16, day: u16) -> DateKey {
    DateKey { year, month, day }
}

fn month_dir(year: u16, month: u16) -> String {
    format!("C:\\codex\\sessions\\{:04}\\{:02}", year, month)
}

fn check_uses_today_on_cycle_day() {
    assert_eq!(current_cycle_start(date(2026, 5, 24), 24), date(2026, 5, 24));
}

fn check_scan_includes_previous_month() {
    let dirs: Vec<String> = cycle_scan_month_dirs(date(2026, 5, 24), date(2026, 5, 26))
        .into_iter()
        .map(|(year, month)| month_dir(year, month))
        .collect();
    assert_eq!(dirs.len(), 2);
    assert!(dirs[0].ends_with("sessions\\2026\\04"));
    assert!(dirs[1].ends_with("sessions\\2026\\05"));
}

fn check_rolls_to_previous_month() {
    assert_eq!(current_cycle_start(date(2026, 5, 1), 15), date(2026, 4, 15));
}

fn check_clamps_long_month_day() {
    assert_eq!(current_cycle_start(date(2026, 3, 1), 31), date(2026, 2, 28));
}

fn check_keeps_anchor_after_short_month() {
    assert_eq!(next_cycle_start(date(2026, 2, 28), 31), date(2026, 3, 31));
}

fn check_clamps_leap_february() {
    assert_eq!(next_cycle_start(date(2028, 1, 31), 31), date(2028, 2, 29));
}

fn check_days_between() {
    assert_eq!(days_between(date(2026, 2, 28), date(2026, 3, 31)), 31);
}

#[test]
fn lib_current_cycle_start_uses_today_on_cycle_day() {
    check_uses_today_on_cycle_day();
}

#[test]
fn main_current_cycle_start_uses_today_on_cycle_day() {
    check_uses_today_on_cycle_day();
}

#[test]
fn lib_cycle_scan_month_dirs_includes_previous_month() {
    check_scan_includes_previous_month();
}

#[test]
fn main_cycle_scan_month_dirs_includes_previous_month() {
    check_scan_includes_previous_month();
}

#[test]
fn lib_current_cycle_start_rolls_to_previous_month() {
    check_rolls_to_previous_month();
}

#[test]
fn main_current_cycle_start_rolls_to_previous_month() {
    check_rolls_to_previous_month();
}

#[test]
fn lib_current_cycle_start_clamps_long_month_day() {
    check_clamps_long_month_day();
}

#[test]
fn main_current_cycle_start_clamps_long_month_day() {
    check_clamps_long_month_day();
}

#[test]
fn lib_next_cycle_start_keeps_monthly_anchor_after_short_month() {
    check_keeps_anchor_after_short_month();
}

#[test]
fn main_next_cycle_start_keeps_monthly_anchor_after_short_month() {
    check_keeps_anchor_after_short_month();
}

#[test]
fn lib_next_cycle_start_clamps_leap_year_february() {
    check_clamps_leap_february();
}

#[test]
fn main_next_cycle_start_clamps_leap_year_february() {
    check_clamps_leap_february();
}

#[test]
fn lib_days_between_handles_month_boundaries() {
    check_days_between();
}

#[test]
fn main_days_between_handles_month_boundaries() {
    check_days_between();
}

#[test]
fn month_steps_wrap_the_year() {
    assert_eq!(next_month(2026, 12), (2027, 1));
    assert_eq!(next_month(2026, 5), (2026, 6));
    assert_eq!(previous_month(2026, 1), (2025, 12));
    assert_eq!(previous_month(0, 1), (0, 12));
    assert_eq!(previous_month(previous_month(2026, 3).0, previous_month(2026, 3).1), (2026, 1));
    let (y, m) = next_month(2025, 12);
    assert_eq!(previous_month(y, m), (2025, 12));
}

#[test]
fn leap_years_follow_the_gregorian_rule() {
    assert!(is_leap_year(2024));
    assert!(!is_leap_year(2026));
    assert!(!is_leap_year(1900));
    assert!(is_leap_year(2000));
    assert_eq!(last_day_of_month(2024, 2), 29);
    assert_eq!(last_day_of_month(2026, 2), 28);
    assert_eq!(last_day_of_month(2026, 4), 30);
    assert_eq!(last_day_of_month(2026, 12), 31);
    assert_eq!(last_day_of_month(2026, 13), 31);
}

#[test]
fn cycle_day_is_clamped_into_the_month_range() {
    assert_eq!(current_cycle_start(date(2026, 5, 10), 0), date(2026, 5, 1));
    assert_eq!(current_cycle_start(date(2026, 5, 10), 99), date(2026, 4, 30));
    assert_eq!(next_cycle_start(date(2026, 12, 20), 15), date(2027, 1, 15));
}

#[test]
fn each_day_moves_the_ordinal_by_one() {
    assert_eq!(ordinal_day(date(1, 1, 1)), 1);
    assert_eq!(ordinal_day(date(2024, 3, 1)) - ordinal_day(date(2024, 2, 29)), 1);
    assert_eq!(days_between(date(2025, 12, 31), date(2026, 1, 1)), 1);
    assert_eq!(days_between(date(2026, 3, 31), date(2026, 2, 28)), -31);
}

#[test]
fn the_cycle_brackets_today() {
    for day in 1..=31u16 {
        let today = date(2026, 3, 17);
        let start = current_cycle_start(today, day);
        let next = next_cycle_start(today, day);
        assert!(start <= today && today < next);
        assert!(days_between(today, next) > 0);
    }
}

#[test]
fn the_month_walk_stops_after_fourteen_months() {
    let dirs = cycle_month_dirs(date(2024, 1, 1), date(2026, 5, 1));
    assert_eq!(dirs.len(), 14);
    assert_eq!(dirs[0], (2024, 1));
    assert_eq!(dirs[13], (2025, 2));
    let short = cycle_month_dirs(date(2025, 11, 1), date(2026, 2, 1));
    assert_eq!(short, vec![(2025, 11), (2025, 12), (2026, 1), (2026, 2)]);
}

#[test]
fn timestamp_parts_read_only_digits() {
    let bytes = b"2026-05-24T12:00:00.000Z";
    assert_eq!(parse_timestamp_part(bytes, 0, 4), Some(2026));
    assert_eq!(parse_timestamp_part(bytes, 5, 7), Some(5));
    assert_eq!(parse_timestamp_part(bytes, 3, 6), None);
    assert_eq!(parse_timestamp_part(bytes, 20, 30), None);
    assert_eq!(parse_timestamp_part(bytes, 4, 4), Some(0));
}

#[test]
fn timestamps_need_a_real_date_and_time() {
    let t = utc_time_from_timestamp(b"2026-05-24T12:34:56.789Z").unwrap();
    assert_eq!((t.year, t.month, t.day, t.hour, t.minute, t.second), (2026, 5, 24, 12, 34, 56));
    assert!(utc_time_from_timestamp(b"2026-02-30T12:00:00.000Z").is_none());
    assert!(utc_time_from_timestamp(b"2026-05-24T24:00:00.000Z").is_none());
    assert!(utc_time_from_timestamp(b"2026-05-24T12:00:00.000").is_none());
    assert!(utc_time_from_timestamp(b"2026-05-24 12:00:00.000Z").is_none());
    assert!(utc_time_from_timestamp(b"2026-05-24T12:00:0Z").is_none());
    assert!(utc_time_from_timestamp(b"2026-05-24T12:00:00Z").is_some());
}
