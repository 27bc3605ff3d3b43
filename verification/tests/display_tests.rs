use codex_savings_core::calendar::DateKey;
use codex_savings_core::display::{compact, compact_with, cycle_days_header_text, format_date, plan_name, t, truncate_chars, Lang};
use codex_savings_core::config::plan_by_id;
use codex_savings_core::snapshot::clock_text;

fn expected_compact(value: u64, million_places: usize) -> String {
    if value >= 1_000_000 {
        format!("{:.*}M", million_places, value as f64 / 1_000_000.0)
    } else if value >= 1_000 {
        format!("{:.1}K", value as f64 / 1_000.0)
    } else {
        value.to_string()
    }
}

fn sample_values() -> Vec<u64> {
    let mut values: Vec<u64> = (0..3000).collect();
    values.extend((999_000..1_101_000).step_by(50));
    values.extend([
        1_050_000, 1_150_000, 1_250_000, 1_350_000, 2_500_000, 9_950_000, 9_999_999, 999_950,
        999_949, 12_345, 12_350, 12_450, 1_005_000, 1_015_000, 1_025_000,
        (1 << 53) - 1, 1 << 53, (1 << 53) + 1, (1 << 53) + 3, u64::MAX, u64::MAX - 1,
        u64::MAX / 3, 10_000_000_000_000_000_000,
    ]);
    let mut x: u64 = 0x2545_f491_4f6c_dd1d;
    for _ in 0..20_000 {
        x ^= x << 13;
        x ^= x >> 7;
        x ^= x << 17;
        values.push(x >> (x % 64));
    }
    values
}

#[test]
fn compact_matches_float_formatting() {
    for value in sample_values() {
        assert_eq!(compact(value), expected_compact(value, 1), "value {}", value);
        assert_eq!(compact_with(value, 2), expected_compact(value, 2), "value {}", value);
    }
}

#[test]
fn compact_shows_units() {
    assert_eq!(compact(999), "999");
    assert_eq!(compact(1_000), "1.0K");
    assert_eq!(compact(1_250_000), "1.2M");
    assert_eq!(compact(116_457), "116.5K");
    assert_eq!(compact_with(1_234_567, 2), "1.23M");
}

#[test]
fn tooltip_truncation_keeps_char_boundary() {
    assert_eq!(truncate_chars("abcdef", 3), "abc");
    assert_eq!(truncate_chars("ahorro", 20), "ahorro");
}

#[test]
fn truncation_counts_characters_not_bytes() {
    assert_eq!(truncate_chars("días", 2), "dí");
    assert_eq!(truncate_chars("", 5), "");
}

#[test]
fn dates_print_with_padding() {
    assert_eq!(format_date(DateKey { year: 2026, month: 4, day: 30 }), "2026-04-30");
    assert_eq!(format_date(DateKey { year: 7, month: 1, day: 2 }), "0007-01-02");
    assert_eq!(format_date(DateKey { year: 12345, month: 123, day: 5 }), "12345-123-05");
}

#[test]
fn day_counts_in_both_languages() {
    assert_eq!(cycle_days_header_text(Lang::En, 1), "1 day left");
    assert_eq!(cycle_days_header_text(Lang::Es, 1), "1 día restante");
    assert_eq!(cycle_days_header_text(Lang::En, 20), "20 days left");
    assert_eq!(cycle_days_header_text(Lang::Es, 0), "0 días restantes");
    assert_eq!(cycle_days_header_text(Lang::En, -4), "0 days left");
}

#[test]
fn translations_pick_the_language() {
    assert_eq!(t(Lang::Es, "Today", "Hoy"), "Hoy");
    assert_eq!(t(Lang::En, "Today", "Hoy"), "Today");
    let custom = plan_by_id("custom").unwrap();
    assert_eq!(plan_name(&custom, Lang::Es), "Personalizado");
    assert_eq!(plan_name(&custom, Lang::En), "Custom");
}

#[test]
fn clock_times_are_padded() {
    assert_eq!(clock_text(9, 5), "09:05");
    assert_eq!(clock_text(23, 59), "23:59");
}
