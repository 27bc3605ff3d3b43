use codex_savings_core::calendar::DateKey;
use codex_savings_core::json::JsonValue;
use codex_savings_core::scan::{CurrentTally, PeriodTally, SessionScan};
use codex_savings_core::session::{parse_session_line, service_tier_from_event, SessionLine};
use codex_savings_core::usage::{Period, ServiceTier, Usage, COST_UNITS_PER_USD};

fn usd(units: u128) -> f64 {
    units as f64 / COST_UNITS_PER_USD as f64
}

fn usage_object(input: u64, cached: u64, output: u64, reasoning: u64, total: u64) -> String {
    format!(
        "{{\"input_tokens\":{},\"cached_input_tokens\":{},\"output_tokens\":{},\"reasoning_output_tokens\":{},\"total_tokens\":{}}}",
        input, cached, output, reasoning, total
    )
}

fn usage_line(input: u64, cached: u64, output: u64, reasoning: u64, total: u64) -> String {
    format!(
        "{{\"type\":\"event_msg\",\"payload\":{{\"type\":\"token_count\",\"info\":{{\"total_token_usage\":{}}}}}}}",
        usage_object(input, cached, output, reasoning, total)
    )
}

fn usage_line_at(timestamp: &str, input: u64, cached: u64, output: u64, reasoning: u64, total: u64) -> String {
    format!(
        "{{\"timestamp\":\"{}\",\"type\":\"event_msg\",\"payload\":{{\"type\":\"token_count\",\"info\":{{\"total_token_usage\":{}}}}}}}",
        timestamp,
        usage_object(input, cached, output, reasoning, total)
    )
}

fn usage_line_with_last_at(timestamp: &str, total: Usage, last: Usage) -> String {
    format!(
        "{{\"timestamp\":\"{}\",\"type\":\"event_msg\",\"payload\":{{\"type\":\"token_count\",\"info\":{{\"total_token_usage\":{},\"last_token_usage\":{}}}}}}}",
        timestamp,
        usage_object(total.input, total.cached, total.output, total.reasoning, total.total),
        usage_object(last.input, last.cached, last.output, last.reasoning, last.total)
    )
}

fn direct_usage_line(input: u64, cached: u64, output: u64, reasoning: u64, total: u64) -> String {
    format!(
        "{{\"type\":\"token_count\",\"total_token_usage\":{}}}",
        usage_object(input, cached, output, reasoning, total)
    )
}

fn turn_context_line(model: &str) -> String {
    format!("{{\"type\":\"turn_context\",\"payload\":{{\"model\":\"{}\"}}}}", model)
}

fn tier_usage_line(tier: &str) -> String {
    format!(
        "{{\"type\":\"event_msg\",\"payload\":{{\"type\":\"token_count\",\"info\":{{\"service_tier\":\"{}\",\"total_token_usage\":{}}}}}}}",
        tier,
        usage_object(1_000_000, 0, 0, 0, 1_000_000)
    )
}

fn usage(input: u64, total: u64) -> Usage {
    Usage { input, cached: 0, cache_write: 0, output: 0, reasoning: 0, total }
}

/// The UTC date of a record; the tests use midday timestamps, whose local
/// date is the same in the usual time zones.
fn event_date(line: &SessionLine) -> Option<DateKey> {
    match line {
        SessionLine::Record(record) => {
            record.timestamp.map(|t| DateKey { year: t.year, month: t.month, day: t.day })
        }
        _ => None,
    }
}

/// Reads the lines of a session file as the scan reads them, each with its
/// line feed but the last.
fn lines_of(contents: &str) -> Vec<Vec<u8>> {
    let mut lines: Vec<Vec<u8>> = Vec::new();
    let mut current = Vec::new();
    for byte in contents.bytes() {
        current.push(byte);
        if byte == b'\n' {
            lines.push(std::mem::take(&mut current));
        }
    }
    if !current.is_empty() {
        lines.push(current);
    }
    lines
}

fn session_period(
    contents: &str,
    model: &str,
    tier: ServiceTier,
    range: Option<(DateKey, DateKey)>,
) -> (Option<Period>, Vec<String>) {
    let mut scan = SessionScan::new(model.to_string(), tier, range.is_some(), None);
    let mut tally = PeriodTally::new(range);
    for line in lines_of(contents) {
        let parsed = parse_session_line(&line);
        let date = event_date(&parsed);
        if let Some(delta) = scan.observe(parsed, date) {
            assert!(tally.fits(&delta));
            tally.record(&delta);
        }
    }
    tally.finish()
}

fn session_current(
    contents: &str,
    model: &str,
    tier: ServiceTier,
    cycle_start: DateKey,
    today: DateKey,
) -> (Option<Period>, Option<Period>, Vec<String>) {
    let mut scan = SessionScan::new(model.to_string(), tier, true, None);
    let mut tally = CurrentTally::new(cycle_start, today);
    for line in lines_of(contents) {
        let parsed = parse_session_line(&line);
        let date = event_date(&parsed);
        if let Some(delta) = scan.observe(parsed, date) {
            assert!(tally.fits(&delta));
            tally.record(&delta);
        }
    }
    tally.finish()
}

fn day(year: u16, month: u16, day: u16) -> DateKey {
    DateKey { year, month, day }
}

fn check_dedupes() {
    let contents = [
        usage_line(100, 20, 10, 4, 110),
        usage_line(100, 20, 10, 4, 110),
        usage_line(150, 50, 20, 9, 170),
    ]
    .join("\n");
    let (period, unknown) = session_period(&contents, "gpt-5.5", ServiceTier::Standard, None);
    let period = period.unwrap();
    assert_eq!(period.calls, 2);
    assert_eq!(period.sessions, 1);
    assert_eq!(period.usage.input, 150);
    assert_eq!(period.usage.cached, 50);
    assert_eq!(period.usage.output, 20);
    assert_eq!(period.usage.reasoning, 9);
    assert_eq!(period.usage.total, 170);
    assert!(usd(period.cost) > 0.0);
    assert!(unknown.is_empty());
}

fn check_counter_reset() {
    let contents = [usage_line(100, 10, 10, 2, 110), usage_line(8, 0, 2, 1, 10)].join("\n");
    let (period, _) = session_period(&contents, "gpt-5.5", ServiceTier::Standard, None);
    let period = period.unwrap();
    assert_eq!(period.calls, 2);
    assert_eq!(period.usage.input, 108);
    assert_eq!(period.usage.output, 12);
    assert_eq!(period.usage.total, 120);
}

fn check_direct_shape() {
    let (period, _) =
        session_period(&direct_usage_line(40, 5, 10, 3, 50), "gpt-5.5", ServiceTier::Standard, None);
    let period = period.unwrap();
    assert_eq!(period.calls, 1);
    assert_eq!(period.usage.input, 40);
    assert_eq!(period.usage.cached, 5);
    assert_eq!(period.usage.output, 10);
    assert_eq!(period.usage.total, 50);
}

fn check_turn_models() {
    let contents = [
        turn_context_line("gpt-5.6-sol"),
        usage_line(100_000, 0, 0, 0, 100_000),
        turn_context_line("gpt-5.6-luna"),
        usage_line(200_000, 0, 0, 0, 200_000),
    ]
    .join("\n");
    let (period, unknown) = session_period(&contents, "gpt-5.5", ServiceTier::Standard, None);
    assert_eq!(usd(period.unwrap().cost), 0.6);
    assert!(unknown.is_empty());
}

fn check_non_billable() {
    let line = "{\"type\":\"token_count\",\"total_token_usage\":{\"input_tokens\":0,\"cached_input_tokens\":0,\"output_tokens\":0,\"reasoning_output_tokens\":0,\"total_tokens\":116457}}";
    let (period, unknown) = session_period(line, "gpt-5.6-sol", ServiceTier::Standard, None);
    assert!(period.is_none());
    assert!(unknown.is_empty());
}

fn check_event_tier_before_default() {
    let (period, unknown) = session_period(&tier_usage_line("fast"), "gpt-5.5", ServiceTier::Standard, None);
    assert_eq!(usd(period.unwrap().cost), 25.0);
    assert!(unknown.is_empty());
}

fn check_standard_event_before_fast_default() {
    let (period, unknown) = session_period(&tier_usage_line("standard"), "gpt-5.5", ServiceTier::Fast, None);
    assert_eq!(usd(period.unwrap().cost), 10.0);
    assert!(unknown.is_empty());
}

fn check_between_counts_inside_cycle() {
    let contents = [
        usage_line_at("2026-05-23T12:00:00.000Z", 1_000_000, 0, 0, 0, 1_000_000),
        usage_line_at("2026-05-24T12:00:00.000Z", 1_500_000, 0, 0, 0, 1_500_000),
    ]
    .join("\n");
    let range = Some((day(2026, 5, 24), day(2026, 5, 24)));
    let (period, unknown) = session_period(&contents, "gpt-5.5", ServiceTier::Standard, range);
    let period = period.unwrap();
    assert_eq!(period.calls, 1);
    assert_eq!(period.usage.input, 500_000);
    assert_eq!(usd(period.cost), 5.0);
    assert!(unknown.is_empty());
}

fn check_current_one_pass() {
    let contents = [
        usage_line_at("2026-07-08T12:00:00.000Z", 100, 0, 0, 0, 100),
        usage_line_at("2026-07-09T12:00:00.000Z", 200, 0, 0, 0, 200),
    ]
    .join("\n");
    let (cycle, today, unknown) =
        session_current(&contents, "gpt-5.6-sol", ServiceTier::Standard, day(2026, 7, 6), day(2026, 7, 9));
    assert_eq!(cycle.unwrap().usage.input, 200);
    assert_eq!(today.unwrap().usage.input, 100);
    assert!(unknown.is_empty());
}

fn check_last_usage_for_first_in_range() {
    let contents = usage_line_with_last_at(
        "2026-05-24T12:00:00.000Z",
        usage(1_500_000, 1_500_000),
        usage(500_000, 500_000),
    );
    let range = Some((day(2026, 5, 24), day(2026, 5, 24)));
    let (period, unknown) = session_period(&contents, "gpt-5.5", ServiceTier::Standard, range);
    let period = period.unwrap();
    assert_eq!(period.calls, 1);
    assert_eq!(period.usage.input, 500_000);
    assert_eq!(usd(period.cost), 5.0);
    assert!(unknown.is_empty());
}

fn check_speed_alias() {
    let info = JsonValue::Object(vec![("speed".to_string(), JsonValue::Str("fast".to_string()))]);
    let payload = JsonValue::Object(vec![("info".to_string(), info)]);
    let value = JsonValue::Object(vec![("payload".to_string(), payload)]);
    assert_eq!(service_tier_from_event(&value), Some(ServiceTier::Fast));
}

#[test]
fn lib_parse_session_dedupes_repeated_cumulative_usage() {
    check_dedupes();
}

#[test]
fn main_parse_session_dedupes_repeated_cumulative_usage() {
    check_dedupes();
}

#[test]
fn lib_parse_session_counts_counter_reset_as_new_total() {
    check_counter_reset();
}

#[test]
fn main_parse_session_counts_counter_reset_as_new_total() {
    check_counter_reset();
}

#[test]
fn lib_parse_session_accepts_direct_codex_cli_usage_shape() {
    check_direct_shape();
}

#[test]
fn main_parse_session_accepts_direct_codex_cli_usage_shape() {
    check_direct_shape();
}

#[test]
fn lib_parse_session_prices_each_turn_with_its_recorded_model() {
    check_turn_models();
}

#[test]
fn main_parse_session_prices_each_turn_with_its_recorded_model() {
    check_turn_models();
}

#[test]
fn lib_parse_session_ignores_non_billable_total_only_events() {
    check_non_billable();
}

#[test]
fn main_parse_session_ignores_non_billable_total_only_events() {
    check_non_billable();
}

#[test]
fn lib_parse_session_uses_event_service_tier_before_default() {
    check_event_tier_before_default();
}

#[test]
fn main_parse_session_uses_event_service_tier_before_default() {
    check_event_tier_before_default();
}

#[test]
fn lib_parse_session_uses_standard_event_before_fast_default() {
    check_standard_event_before_fast_default();
}

#[test]
fn main_parse_session_uses_standard_event_before_fast_default() {
    check_standard_event_before_fast_default();
}

#[test]
fn lib_parse_session_between_counts_only_events_inside_cycle() {
    check_between_counts_inside_cycle();
}

#[test]
fn main_parse_session_between_counts_only_events_inside_cycle() {
    check_between_counts_inside_cycle();
}

#[test]
fn lib_parse_session_current_builds_cycle_and_today_in_one_pass() {
    check_current_one_pass();
}

#[test]
fn main_parse_session_current_builds_cycle_and_today_in_one_pass() {
    check_current_one_pass();
}

#[test]
fn lib_parse_session_between_uses_last_usage_for_first_observed_in_range() {
    check_last_usage_for_first_in_range();
}

#[test]
fn main_parse_session_between_uses_last_usage_for_first_observed_in_range() {
    check_last_usage_for_first_in_range();
}

#[test]
fn lib_service_tier_from_event_reads_speed_alias() {
    check_speed_alias();
}

#[test]
fn main_service_tier_from_event_reads_speed_alias() {
    check_speed_alias();
}

#[test]
fn unknown_models_are_noted_once() {
    let contents = [
        turn_context_line("o9-preview"),
        usage_line(10, 0, 0, 0, 10),
        usage_line(20, 0, 0, 0, 20),
    ]
    .join("\n");
    let (period, unknown) = session_period(&contents, "gpt-5.5", ServiceTier::Standard, None);
    let period = period.unwrap();
    assert_eq!(period.calls, 2);
    assert_eq!(period.cost, 0);
    assert_eq!(unknown, vec!["o9-preview".to_string()]);
}

#[test]
fn lines_that_are_not_events_are_skipped() {
    assert!(matches!(parse_session_line(b"not json \"total_token_usage\""), SessionLine::Skip));
    assert!(matches!(parse_session_line(b"{\"type\":\"other\"}"), SessionLine::Skip));
    assert!(matches!(parse_session_line(&[0xff, 0xfe, b'"']), SessionLine::Skip));
    assert!(matches!(
        parse_session_line(b"{\"type\":\"turn_context\",\"payload\":{\"cwd\":\"x\"}}"),
        SessionLine::TurnContext { model: None }
    ));
}

#[test]
fn events_outside_the_cycle_count_only_where_they_fall() {
    let contents = [
        usage_line_at("2026-07-01T12:00:00.000Z", 100, 0, 0, 0, 100),
        usage_line_at("2026-07-07T12:00:00.000Z", 300, 0, 0, 0, 300),
        usage_line(400, 0, 0, 0, 400),
    ]
    .join("\n");
    let (cycle, today, _) =
        session_current(&contents, "gpt-5.6-sol", ServiceTier::Standard, day(2026, 7, 6), day(2026, 7, 9));
    // The first event predates the cycle; the undated one has no date at all.
    assert_eq!(cycle.unwrap().usage.input, 200);
    assert!(today.is_none());
}

#[test]
fn current_pass_matches_two_range_passes() {
    let contents = [
        usage_line_at("2026-07-04T12:00:00.000Z", 50, 0, 10, 0, 60),
        usage_line_at("2026-07-07T12:00:00.000Z", 150, 10, 30, 0, 180),
        usage_line_at("2026-07-09T12:00:00.000Z", 400, 20, 80, 5, 480),
        usage_line_at("2026-07-09T13:00:00.000Z", 900, 20, 100, 5, 1000),
    ]
    .join("\n");
    let cycle_start = day(2026, 7, 6);
    let today = day(2026, 7, 9);
    let (cycle, day_period, _) =
        session_current(&contents, "gpt-5.5", ServiceTier::Standard, cycle_start, today);
    let (cycle_range, _) =
        session_period(&contents, "gpt-5.5", ServiceTier::Standard, Some((cycle_start, today)));
    let (today_range, _) =
        session_period(&contents, "gpt-5.5", ServiceTier::Standard, Some((today, today)));
    assert_eq!(cycle, cycle_range);
    assert_eq!(day_period, today_range);
    assert_eq!(cycle.unwrap().calls, 3);
    assert_eq!(day_period.unwrap().calls, 2);
}

#[test]
fn billed_totals_add_up_to_the_last_record() {
    let contents = [
        usage_line(100, 0, 20, 0, 120),
        usage_line(100, 0, 20, 0, 120),
        usage_line(250, 40, 70, 10, 320),
        usage_line(600, 40, 90, 30, 690),
    ]
    .join("\n");
    let (period, _) = session_period(&contents, "gpt-5.5", ServiceTier::Standard, None);
    let period = period.unwrap();
    assert_eq!(period.calls, 3);
    assert_eq!(period.usage.total, 690);
    assert_eq!(period.usage.input, 600);
    assert_eq!(period.usage.output, 90);
}

#[test]
fn billed_totals_add_up_when_no_record_grows_only_its_total() {
    // The parser takes a record's total as its input plus its output, so
    // no record read from a log grows in its total alone.
    let contents = [
        usage_line(100, 10, 20, 0, 200),
        usage_line(300, 50, 60, 5, 600),
        usage_line(300, 50, 90, 5, 1000),
    ]
    .join("\n");
    let (period, _) = session_period(&contents, "gpt-5.5", ServiceTier::Standard, None);
    let period = period.unwrap();
    assert_eq!(period.calls, 3);
    assert_eq!(period.usage.total, 390);
}
