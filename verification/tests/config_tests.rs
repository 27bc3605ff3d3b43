use codex_savings_core::calendar::DateKey;
use codex_savings_core::config::{
    config_document, config_from_ffi_json, config_from_ffi_value, config_from_json, config_from_text, current_plan, cycle_preview,
    plan_by_id, plan_usd_bits, plans, service_tier_from_toml, with_cycle_day, with_language,
    with_plan, Config, CREDIT_RATES,
};
use codex_savings_core::display::{format_date, lang_for_setting, Lang};
use codex_savings_core::json::{JsonNumber, JsonValue};
use codex_savings_core::snapshot::{all_time_session_model, default_tier, fallback_model, Snapshot};
use codex_savings_core::usage::ServiceTier;

const ENGLISH_US: u16 = 0x0409;

fn usd(bits: u64) -> f64 {
    f64::from_bits(bits)
}

fn stored(text: &str) -> Config {
    config_from_text(text)
}

fn check_parses_plan_override_and_language() -> Config {
    let config = stored(
        r#"{"plan": "pro_20x", "monthly_usd_override": 199.0, "language": "es", "cycle_day": 15}"#,
    );
    assert_eq!(current_plan(&config).id, "pro_20x");
    assert_eq!(usd(plan_usd_bits(&config)), 199.0);
    assert_eq!(config.cycle_day, 15);
    config
}

fn check_rejects_unknown_values() {
    let config = stored(
        r#"{"plan": "unknown", "monthly_usd_override": -1.0, "language": "fr", "cycle_day": 40}"#,
    );
    assert_eq!(current_plan(&config).id, "plus");
    assert_eq!(usd(plan_usd_bits(&config)), 20.0);
    assert_eq!(config.language, "auto");
    assert_eq!(config.cycle_day, 1);
}

fn check_official_plan_ranges() {
    let plus = plan_by_id("plus").unwrap();
    let pro = plan_by_id("pro_20x").unwrap();
    assert!(plus.limits_en.contains("Sol 15-90"));
    assert!(pro.limits_en.contains("Sol 300-1800"));
    assert!(CREDIT_RATES.contains("Terra 62.5/6.25/375"));
}

fn check_reads_fast_setting() {
    let contents = r#"
            model = "gpt-5.5"
            service_tier = "fast"
            [features]
            fast_mode = true
        "#;
    assert_eq!(service_tier_from_toml(contents), Some(ServiceTier::Fast));
}

fn check_requires_fast_feature_flag() {
    assert_eq!(service_tier_from_toml("service_tier = \"fast\""), Some(ServiceTier::Standard));
}

#[test]
fn lib_config_parses_plan_override_and_language() {
    check_parses_plan_override_and_language();
}

#[test]
fn main_config_parses_plan_override_and_language() {
    let config = check_parses_plan_override_and_language();
    assert_eq!(lang_for_setting(&config.language, ENGLISH_US), Lang::Es);
}

#[test]
fn lib_config_rejects_unknown_values() {
    check_rejects_unknown_values();
}

#[test]
fn main_config_rejects_unknown_values() {
    check_rejects_unknown_values();
}

#[test]
fn lib_official_plan_ranges_are_available_locally() {
    check_official_plan_ranges();
}

#[test]
fn main_official_plan_ranges_are_available_locally() {
    check_official_plan_ranges();
}

#[test]
fn lib_service_tier_from_toml_reads_fast_setting() {
    check_reads_fast_setting();
}

#[test]
fn main_service_tier_from_toml_reads_fast_setting() {
    check_reads_fast_setting();
}

#[test]
fn lib_service_tier_from_toml_requires_fast_feature_flag() {
    check_requires_fast_feature_flag();
}

#[test]
fn main_service_tier_from_toml_requires_fast_feature_flag() {
    check_requires_fast_feature_flag();
}

#[test]
fn lib_all_time_is_on_demand_by_default() {
    assert!(Snapshot::default().all_time.is_none());
}

#[test]
fn main_all_time_is_on_demand_by_default() {
    assert!(Snapshot::default().all_time.is_none());
}

#[test]
fn ffi_rejects_invalid_json() {
    assert_eq!(config_from_ffi_json("{").err().unwrap().0, "invalid_json");
}

#[test]
fn ffi_rejects_unknown_plans() {
    assert_eq!(
        config_from_ffi_json(r#"{"plan":"unknown","language":"en","cycleDay":1}"#)
            .err()
            .unwrap()
            .0,
        "invalid_plan"
    );
}

#[test]
fn ffi_rejects_out_of_range_values() {
    assert_eq!(
        config_from_ffi_json(
            r#"{"plan":"custom","monthlyUsdOverride":1000000.01,"language":"en","cycleDay":31}"#
        )
        .err()
        .unwrap()
        .0,
        "invalid_amount"
    );
}

#[test]
fn ffi_rejects_invalid_cycle_days() {
    assert_eq!(
        config_from_ffi_json(
            r#"{"plan":"plus","monthlyUsdOverride":null,"language":"en","cycleDay":32}"#
        )
        .err()
        .unwrap()
        .0,
        "invalid_cycle_day"
    );
}

#[test]
fn cycle_preview_uses_the_rust_month_clamping_rules() {
    let config = Config { cycle_day: 31, ..Config::default() };
    let preview = cycle_preview(&config, DateKey { year: 2026, month: 4, day: 10 });
    assert_eq!(format_date(preview.cycle_next), "2026-04-30");
    assert_eq!(preview.days_until_reset, 20);
}

#[test]
fn ffi_reports_each_error_code() {
    let code = |text: &str| config_from_ffi_json(text).err().map(|e| e.0);
    assert_eq!(code("[1, 2]"), Some("invalid_settings"));
    assert_eq!(code(r#"{"plan":"plus","language":"fr","cycleDay":1}"#), Some("invalid_language"));
    assert_eq!(code(r#"{"plan":"plus","language":"en","cycleDay":"1"}"#), Some("invalid_cycle_day"));
    assert_eq!(code(r#"{"plan":"plus","language":"en","cycleDay":0}"#), Some("invalid_cycle_day"));
    assert_eq!(
        code(r#"{"plan":"plus","language":"en","cycleDay":3,"monthlyUsdOverride":"12"}"#),
        Some("invalid_amount")
    );
    assert_eq!(
        code(r#"{"plan":"plus","language":"en","cycleDay":3,"monthlyUsdOverride":-5}"#),
        Some("invalid_amount")
    );
    assert_eq!(code(r#"{"plan":"custom","language":"en","cycleDay":3}"#), Some("invalid_amount"));
    let message = config_from_ffi_json(r#"{"plan":"custom","language":"en","cycleDay":3}"#)
        .err()
        .unwrap()
        .1;
    assert_eq!(message, "A custom plan requires a monthly amount.");
}

#[test]
fn ffi_accepts_valid_settings() {
    let config = config_from_ffi_json(
        r#"{"plan":"custom","monthlyUsdOverride":1000000,"language":"es","cycleDay":28}"#,
    )
    .unwrap();
    assert_eq!(config.plan, "custom");
    assert_eq!(usd(config.monthly_usd_override_bits.unwrap()), 1_000_000.0);
    assert_eq!(config.language, "es");
    assert_eq!(config.cycle_day, 28);
    let zero = config_from_ffi_json(
        r#"{"plan":"plus","monthlyUsdOverride":-0.0,"language":"auto","cycleDay":1}"#,
    )
    .unwrap();
    assert_eq!(usd(zero.monthly_usd_override_bits.unwrap()), 0.0);
    let plain = config_from_ffi_json(r#"{"plan":"go","language":"en","cycleDay":5}"#).unwrap();
    assert!(plain.monthly_usd_override_bits.is_none());
}

#[test]
fn settings_text_falls_back_to_defaults() {
    let config = config_from_text("not json");
    assert_eq!(config.plan, "plus");
    assert_eq!(config.language, "auto");
    assert_eq!(config.cycle_day, 1);
    assert!(config.monthly_usd_override_bits.is_none());
    let partial = config_from_text(r#"{"plan": "go"}"#);
    assert_eq!(partial.plan, "go");
    assert_eq!(usd(plan_usd_bits(&partial)), 8.0);
}

#[test]
fn choosing_a_plan_sets_or_drops_the_override() {
    let config = stored(r#"{"plan": "pro_5x", "language": "en", "cycle_day": 3}"#);
    let custom = with_plan(&config, "custom").unwrap();
    assert_eq!(custom.plan, "custom");
    assert_eq!(usd(custom.monthly_usd_override_bits.unwrap()), 100.0);
    let free = stored(r#"{"plan": "free"}"#);
    let custom_from_free = with_plan(&free, "custom").unwrap();
    assert_eq!(usd(custom_from_free.monthly_usd_override_bits.unwrap()), 20.0);
    let back = with_plan(&custom, "plus").unwrap();
    assert!(back.monthly_usd_override_bits.is_none());
    assert_eq!(back.cycle_day, 3);
    assert!(with_plan(&config, "team").is_none());
}

#[test]
fn renewal_day_and_language_edits() {
    let config = Config::default();
    assert_eq!(with_cycle_day(&config, 0).cycle_day, 1);
    assert_eq!(with_cycle_day(&config, 45).cycle_day, 31);
    assert_eq!(with_cycle_day(&config, 12).cycle_day, 12);
    assert_eq!(with_language(&config, "es").unwrap().language, "es");
    assert!(with_language(&config, "fr").is_none());
}

#[test]
fn the_plan_table_is_complete() {
    let ids: Vec<&str> = plans().iter().map(|p| p.id).collect();
    assert_eq!(
        ids,
        vec!["free", "go", "plus", "pro_5x", "pro_20x", "business", "enterprise_edu", "api_key", "custom"]
    );
    let prices: Vec<f64> = plans().iter().map(|p| usd(p.usd_bits)).collect();
    assert_eq!(prices, vec![0.0, 8.0, 20.0, 100.0, 200.0, 20.0, 0.0, 0.0, 0.0]);
}

#[test]
fn toml_sections_and_comments() {
    let text = "service_tier = \"fast\" # fast please\n[features]\nfast_mode = TRUE\n[other]\nfast_mode = false\n";
    assert_eq!(service_tier_from_toml(text), Some(ServiceTier::Fast));
    let outside = "fast_mode = true\nservice_tier = 'fast'\n";
    assert_eq!(service_tier_from_toml(outside), Some(ServiceTier::Standard));
    assert_eq!(service_tier_from_toml("# service_tier = \"fast\"\n"), None);
    assert_eq!(service_tier_from_toml("service_tier = \"turbo\"\r\n"), None);
    assert_eq!(service_tier_from_toml("service_tier=standard\r\n"), Some(ServiceTier::Standard));
}

#[test]
fn the_default_tier_prefers_the_environment() {
    assert_eq!(default_tier(Some("fast"), Some("service_tier = \"standard\"")), ServiceTier::Fast);
    assert_eq!(default_tier(Some("bogus"), Some("service_tier = \"standard\"")), ServiceTier::Standard);
    assert_eq!(
        default_tier(None, Some("service_tier = \"fast\"\n[features]\nfast_mode = true")),
        ServiceTier::Fast
    );
    assert_eq!(default_tier(None, None), ServiceTier::Standard);
}

#[test]
fn the_language_setting_or_the_system_language() {
    assert_eq!(lang_for_setting("en", 0x0c0a), Lang::En);
    assert_eq!(lang_for_setting("auto", 0x0c0a), Lang::Es);
    assert_eq!(lang_for_setting("auto", ENGLISH_US), Lang::En);
}

#[test]
fn stored_settings_read_from_a_parsed_document() {
    let number = |n: u64| {
        JsonValue::Number(JsonNumber {
            as_u64: Some(n),
            as_i64: Some(n as i64),
            f64_bits: (n as f64).to_bits(),
        })
    };
    let document = JsonValue::Object(vec![
        ("plan".to_string(), JsonValue::Str("go".to_string())),
        ("language".to_string(), JsonValue::Str("es".to_string())),
        ("cycle_day".to_string(), number(28)),
    ]);
    let config = config_from_json(document);
    assert_eq!(config.plan, "go");
    assert_eq!(config.language, "es");
    assert_eq!(config.cycle_day, 28);
    assert_eq!(config.monthly_usd_override_bits, None);
}

#[test]
fn settings_document_reads_back() {
    let configs = [
        Config { plan: "pro_20x".to_string(), monthly_usd_override_bits: Some(199.0f64.to_bits()), language: "es".to_string(), cycle_day: 15 },
        Config { plan: "custom".to_string(), monthly_usd_override_bits: Some(42.0f64.to_bits()), language: "auto".to_string(), cycle_day: 31 },
        Config { plan: "go".to_string(), monthly_usd_override_bits: None, language: "en".to_string(), cycle_day: 1 },
    ];
    for config in configs {
        let back = config_from_ffi_value(Some(config_document(&config))).unwrap();
        assert_eq!(back.plan, config.plan);
        assert_eq!(back.monthly_usd_override_bits, config.monthly_usd_override_bits);
        assert_eq!(back.language, config.language);
        assert_eq!(back.cycle_day, config.cycle_day);
    }
}

#[test]
fn settings_document_day_is_a_whole_number() {
    for day in [0u16, 1, 2, 3, 15, 28, 31, 1000, 65535] {
        let config = Config { plan: "plus".to_string(), monthly_usd_override_bits: None, language: "auto".to_string(), cycle_day: day };
        let JsonValue::Object(members) = config_document(&config) else { panic!("not an object") };
        assert_eq!(members[0].0, "cycleDay");
        let JsonValue::Number(n) = &members[0].1 else { panic!("not a number") };
        assert_eq!(n.as_u64, Some(day as u64));
        assert_eq!(n.f64_bits, (day as f64).to_bits());
        assert!(matches!(members[2].1, JsonValue::Null));
    }
}

#[test]
fn fallback_model_is_the_setting_or_gpt_5_5() {
    assert_eq!(fallback_model(Some("gpt-5.4".to_string())), "gpt-5.4");
    assert_eq!(fallback_model(None), "gpt-5.5");
    assert_eq!(all_time_session_model(None, None), ("gpt-5.5".to_string(), true));
    assert_eq!(all_time_session_model(None, Some("gpt-5.4".to_string())), ("gpt-5.4".to_string(), false));
    assert_eq!(all_time_session_model(Some("m".to_string()), None), ("m".to_string(), false));
}
