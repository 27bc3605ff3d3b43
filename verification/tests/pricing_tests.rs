use codex_savings_core::pricing::{cost, fast_multiplier_for_model_prefix, price_entry_for_model, Price};
use codex_savings_core::usage::{ServiceTier, Usage, COST_UNITS_PER_USD};

fn dollars(thousandths: u32) -> f64 {
    thousandths as f64 / 1000.0
}

fn usd(units: u128) -> f64 {
    units as f64 / COST_UNITS_PER_USD as f64
}

fn price_for_model(model: &str) -> Option<Price> {
    price_entry_for_model(model).map(|(_, price)| price)
}

fn usage(input: u64, cached: u64, cache_write: u64, output: u64, reasoning: u64, total: u64) -> Usage {
    Usage { input, cached, cache_write, output, reasoning, total }
}

fn check_longest_prefix() {
    let price = price_for_model("gpt-5.4-mini-2026-04-28").unwrap();
    assert_eq!(dollars(price.input), 0.75);
    assert_eq!(dollars(price.output), 4.5);

    let terra = price_for_model("gpt-5.6-terra-2026-07-01").unwrap();
    assert_eq!(dollars(terra.input), 2.5);
    assert_eq!(dollars(terra.cached), 0.25);
    assert_eq!(dollars(terra.output), 15.0);
}

fn check_cache_writes_and_long_context() {
    let short = usage(100_000, 0, 0, 0, 0, 100_000);
    assert_eq!(usd(cost(short, "gpt-5.6-luna", ServiceTier::Standard).unwrap()), 0.1);

    let cache_write = usage(100_000, 0, 100_000, 0, 0, 0);
    assert_eq!(usd(cost(cache_write, "gpt-5.6-sol", ServiceTier::Standard).unwrap()), 0.625);

    let long = usage(272_001, 0, 0, 100_000, 0, 372_001);
    assert_eq!(usd(cost(long, "gpt-5.6-terra", ServiceTier::Standard).unwrap()), 3.610005);
}

fn check_fast_tier() {
    let u = usage(1_000_000, 0, 0, 0, 0, 1_000_000);
    assert_eq!(usd(cost(u, "gpt-5.5", ServiceTier::Standard).unwrap()), 10.0);
    assert_eq!(usd(cost(u, "gpt-5.5", ServiceTier::Fast).unwrap()), 25.0);
    assert_eq!(usd(cost(u, "gpt-5.4", ServiceTier::Fast).unwrap()), 10.0);
    assert_eq!(usd(cost(u, "gpt-5.4-mini", ServiceTier::Fast).unwrap()), 0.75);
}

fn check_delta() {
    let current = usage(12, 2, 0, 5, 1, 17);
    let previous = usage(10, 3, 0, 1, 2, 14);
    let delta = current.delta(previous);
    assert_eq!(delta.input, 2);
    assert_eq!(delta.cached, 0);
    assert_eq!(delta.output, 4);
    assert_eq!(delta.reasoning, 0);
    assert_eq!(delta.total, 3);
}

#[test]
fn lib_price_uses_longest_matching_model_prefix() {
    check_longest_prefix();
}

#[test]
fn main_price_uses_longest_matching_model_prefix() {
    check_longest_prefix();
}

#[test]
fn lib_gpt_5_6_prices_cache_writes_and_long_context() {
    check_cache_writes_and_long_context();
}

#[test]
fn main_gpt_5_6_prices_cache_writes_and_long_context() {
    check_cache_writes_and_long_context();
}

#[test]
fn lib_fast_tier_multiplies_supported_models_only() {
    check_fast_tier();
}

#[test]
fn main_fast_tier_multiplies_supported_models_only() {
    check_fast_tier();
}

#[test]
fn lib_usage_delta_saturates_per_field() {
    check_delta();
}

#[test]
fn main_usage_delta_saturates_per_field() {
    check_delta();
}

#[test]
fn unknown_model_has_no_price() {
    assert!(price_entry_for_model("llama-3").is_none());
    assert!(cost(usage(10, 0, 0, 0, 0, 10), "o3", ServiceTier::Standard).is_none());
}

#[test]
fn price_entry_reports_the_matching_prefix() {
    let (prefix, _) = price_entry_for_model("gpt-5.1-codex-max-high").unwrap();
    assert_eq!(prefix, "gpt-5.1-codex-max");
    let (prefix, _) = price_entry_for_model("gpt-5-mini").unwrap();
    assert_eq!(prefix, "gpt-5");
}

#[test]
fn fast_multipliers_are_keyed_by_prefix() {
    assert_eq!(fast_multiplier_for_model_prefix("gpt-5.5"), Some(25));
    assert_eq!(fast_multiplier_for_model_prefix("gpt-5.4"), Some(20));
    assert_eq!(fast_multiplier_for_model_prefix("gpt-5.4-mini"), None);
}

#[test]
fn reasoning_tokens_are_not_billed_again() {
    let plain = usage(1000, 100, 0, 500, 0, 1500);
    let reasoning = usage(1000, 100, 0, 500, 400, 1500);
    assert_eq!(
        cost(plain, "gpt-5.5", ServiceTier::Standard),
        cost(reasoning, "gpt-5.5", ServiceTier::Standard)
    );
}

#[test]
fn cached_tokens_are_taken_out_of_input() {
    // 200k input of which 80k cached at gpt-5.5: 120k * 5.00 + 80k * 0.50 per 1M.
    let u = usage(200_000, 80_000, 0, 0, 0, 200_000);
    assert_eq!(usd(cost(u, "gpt-5.5", ServiceTier::Standard).unwrap()), 0.64);
    // Above 272k input the long-context rates of gpt-5.5 double input and cached.
    let long = usage(1_000_000, 400_000, 0, 0, 0, 1_000_000);
    assert_eq!(usd(cost(long, "gpt-5.5", ServiceTier::Standard).unwrap()), 6.4);
}

#[test]
fn fast_mode_scales_every_rate_but_cache_writes() {
    let u = usage(100_000, 20_000, 0, 10_000, 0, 110_000);
    let standard = cost(u, "gpt-5.4", ServiceTier::Standard).unwrap();
    let fast = cost(u, "gpt-5.4", ServiceTier::Fast).unwrap();
    assert_eq!(fast * 10, standard * 20);
}

#[test]
fn overlapping_cached_and_written_tokens_leave_no_uncached_input() {
    let u = usage(100, 80, 50, 0, 0, 100);
    // input - cached - cache_write saturates at zero.
    let expected = 80 * 500 * 10 * 10 + 50 * 5000 * 10 * 10;
    assert_eq!(cost(u, "gpt-5.5", ServiceTier::Standard), Some(expected));
}
