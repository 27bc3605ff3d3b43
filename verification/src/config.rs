//! Plans and user settings: the plan table, reading settings from their JSON
//! document, validating the settings that the desktop shell sends, and the
//! pricing tier that Codex's own `config.toml` selects.
//!
//! Dollar amounts are `f64` values in the settings document; this module
//! carries them as their IEEE 754 bit patterns and decides only what the
//! bit patterns settle exactly (sign, finiteness, order against constants).

use vstd::prelude::*;
use crate::calendar::{DateKey, days_between, next_cycle_start, next_cycle_start_defined, spec_next_cycle_start, spec_ordinal_day};
use crate::json::{JsonNumber, JsonValue, member_lookup, as_str, as_u64, get, json_as_str, json_as_u64, json_from_slice, json_get, parse_json};
use crate::text::{CharClass, ascii_lower, ascii_lowercase, chars_equal, chars_of, find_char, first_index_of, slice_chars, trim, trim_chars};
use crate::usage::{ServiceTier, spec_tier_from_text};
use vstd::string::StringSliceAdditionalSpecFns;

verus! {

broadcast use vstd::string::group_string_axioms;

/// A ChatGPT/Codex plan with its monthly price and its usage limits.
#[derive(Clone, Copy, Debug)]
pub struct Plan {
    pub id: &'static str,
    pub en: &'static str,
    pub es: &'static str,
    /// The monthly price in US dollars, as the bits of an `f64`.
    pub usd_bits: u64,
    pub limits_en: &'static str,
    pub limits_es: &'static str,
}

/// Bits of the `f64` 0.0.
pub const ZERO_USD_BITS: u64 = 0;

/// Bits of the `f64` 8.0.
pub const EIGHT_USD_BITS: u64 = 0x4020_0000_0000_0000;

/// Bits of the `f64` 20.0.
pub const TWENTY_USD_BITS: u64 = 0x4034_0000_0000_0000;

/// Bits of the `f64` 100.0.
pub const HUNDRED_USD_BITS: u64 = 0x4059_0000_0000_0000;

/// Bits of the `f64` 200.0.
pub const TWO_HUNDRED_USD_BITS: u64 = 0x4069_0000_0000_0000;

/// Bits of the `f64` 1,000,000.0, the largest custom amount.
pub const MAX_AMOUNT_BITS: u64 = 0x412e_8480_0000_0000;

/// Bits of the `f64` -0.0.
pub const NEGATIVE_ZERO_BITS: u64 = 0x8000_0000_0000_0000;

/// The smallest bit pattern of an infinity or NaN with the sign bit clear.
pub const POSITIVE_NON_FINITE_BITS: u64 = 0x7ff0_0000_0000_0000;

/// The credit rates per million tokens, as the interface lists them.
pub const CREDIT_RATES: &'static str = "Credits/1M: Sol 125/12.5/750; Terra 62.5/6.25/375; Luna 25/2.5/150; fast 5.5 x2.5, 5.4 x2";

/// The plans, in menu order.
pub open spec fn plan_table() -> Seq<Plan> {
    seq![
        Plan { id: "free", en: "Free", es: "Gratis", usd_bits: ZERO_USD_BITS, limits_en: "Quick tasks; see dashboard", limits_es: "Tareas rapidas; ver panel" },
        Plan { id: "go", en: "Go", es: "Go", usd_bits: EIGHT_USD_BITS, limits_en: "Lightweight tasks; see dashboard", limits_es: "Tareas ligeras; ver panel" },
        Plan { id: "plus", en: "Plus", es: "Plus", usd_bits: TWENTY_USD_BITS, limits_en: "5h: Sol 15-90, Terra 20-110, Luna 50-280", limits_es: "5h: Sol 15-90, Terra 20-110, Luna 50-280" },
        Plan { id: "pro_5x", en: "Pro 5x", es: "Pro 5x", usd_bits: HUNDRED_USD_BITS, limits_en: "5h: Sol 75-450, Terra 100-550, Luna 250-1400", limits_es: "5h: Sol 75-450, Terra 100-550, Luna 250-1400" },
        Plan { id: "pro_20x", en: "Pro 20x", es: "Pro 20x", usd_bits: TWO_HUNDRED_USD_BITS, limits_en: "5h: Sol 300-1800, Terra 400-2200, Luna 1000-5600", limits_es: "5h: Sol 300-1800, Terra 400-2200, Luna 1000-5600" },
        Plan { id: "business", en: "Business", es: "Business", usd_bits: TWENTY_USD_BITS, limits_en: "$20/user annual; Plus-like limits", limits_es: "$20/usuario anual; limites tipo Plus" },
        Plan { id: "enterprise_edu", en: "Enterprise/Edu", es: "Enterprise/Edu", usd_bits: ZERO_USD_BITS, limits_en: "Credits or Plus-like seats", limits_es: "Creditos o asientos tipo Plus" },
        Plan { id: "api_key", en: "API Key", es: "Clave API", usd_bits: ZERO_USD_BITS, limits_en: "Usage-based API pricing", limits_es: "Precio API por uso" },
        Plan { id: "custom", en: "Custom", es: "Personalizado", usd_bits: ZERO_USD_BITS, limits_en: "Manual monthly amount", limits_es: "Monto mensual manual" },
    ]
}

/// The plans, in menu order.
pub fn plans() -> (r: Vec<Plan>)
    ensures
        r@ == plan_table(),
{
    let r = vec![
        Plan { id: "free", en: "Free", es: "Gratis", usd_bits: ZERO_USD_BITS, limits_en: "Quick tasks; see dashboard", limits_es: "Tareas rapidas; ver panel" },
        Plan { id: "go", en: "Go", es: "Go", usd_bits: EIGHT_USD_BITS, limits_en: "Lightweight tasks; see dashboard", limits_es: "Tareas ligeras; ver panel" },
        Plan { id: "plus", en: "Plus", es: "Plus", usd_bits: TWENTY_USD_BITS, limits_en: "5h: Sol 15-90, Terra 20-110, Luna 50-280", limits_es: "5h: Sol 15-90, Terra 20-110, Luna 50-280" },
        Plan { id: "pro_5x", en: "Pro 5x", es: "Pro 5x", usd_bits: HUNDRED_USD_BITS, limits_en: "5h: Sol 75-450, Terra 100-550, Luna 250-1400", limits_es: "5h: Sol 75-450, Terra 100-550, Luna 250-1400" },
        Plan { id: "pro_20x", en: "Pro 20x", es: "Pro 20x", usd_bits: TWO_HUNDRED_USD_BITS, limits_en: "5h: Sol 300-1800, Terra 400-2200, Luna 1000-5600", limits_es: "5h: Sol 300-1800, Terra 400-2200, Luna 1000-5600" },
        Plan { id: "business", en: "Business", es: "Business", usd_bits: TWENTY_USD_BITS, limits_en: "$20/user annual; Plus-like limits", limits_es: "$20/usuario anual; limites tipo Plus" },
        Plan { id: "enterprise_edu", en: "Enterprise/Edu", es: "Enterprise/Edu", usd_bits: ZERO_USD_BITS, limits_en: "Credits or Plus-like seats", limits_es: "Creditos o asientos tipo Plus" },
        Plan { id: "api_key", en: "API Key", es: "Clave API", usd_bits: ZERO_USD_BITS, limits_en: "Usage-based API pricing", limits_es: "Precio API por uso" },
        Plan { id: "custom", en: "Custom", es: "Personalizado", usd_bits: ZERO_USD_BITS, limits_en: "Manual monthly amount", limits_es: "Monto mensual manual" },
    ];
    assert(r@ =~= plan_table());
    r
}

/// The index of the plan listed before any other with `id`, if any.
pub open spec fn plan_index(table: Seq<Plan>, id: Seq<char>) -> Option<int>
    decreases table.len(),
{
    if table.len() == 0 {
        None
    } else if table[0].id@ == id {
        Some(0)
    } else {
        match plan_index(table.drop_first(), id) {
            Some(i) => Some(i + 1),
            None => None,
        }
    }
}

proof fn lemma_plan_index(table: Seq<Plan>, id: Seq<char>, i: int)
    requires
        0 <= i <= table.len(),
        forall|j: int| 0 <= j < i ==> (#[trigger] table[j]).id@ != id,
    ensures
        i < table.len() && table[i].id@ == id ==> plan_index(table, id) == Some(i),
        i == table.len() ==> plan_index(table, id) is None,
    decreases i,
{
    if i > 0 {
        assert forall|j: int| 0 <= j < i - 1 implies (#[trigger] table.drop_first()[j]).id@ != id by {
            assert(table.drop_first()[j] == table[j + 1]);
        }
        lemma_plan_index(table.drop_first(), id, i - 1);
    }
}

/// `plus` is the third plan of the table.
pub proof fn lemma_plus_is_a_plan()
    ensures
        plan_index(plan_table(), "plus"@) == Some(2int),
{
    let t = plan_table();
    reveal_strlit("plus");
    reveal_strlit("free");
    reveal_strlit("go");
    assert(t[0].id@[0] != "plus"@[0]);
    assert(t[1].id@.len() != "plus"@.len());
    assert(t[2].id@ == "plus"@);
    assert(t.drop_first()[0] == t[1]);
    assert(t.drop_first().drop_first()[0] == t[2]);
    reveal_with_fuel(plan_index, 3);
}

/// The plan with `id`.
pub open spec fn spec_plan_by_id(id: Seq<char>) -> Option<Plan> {
    match plan_index(plan_table(), id) {
        Some(i) => Some(plan_table()[i]),
        None => None,
    }
}

/// `id` names a plan.
pub open spec fn is_plan_id(id: Seq<char>) -> bool {
    plan_index(plan_table(), id) is Some
}

/// The position in the plan table of the plan with `id`, if there is one.
pub fn plan_position(id: &str) -> (r: Option<usize>)
    ensures
        match plan_index(plan_table(), id@) {
            Some(i) => r == Some(i as usize),
            None => r is None,
        },
{
    let table = plans();
    let wanted = chars_of(id);
    let mut i: usize = 0;
    while i < table.len()
        invariant
            i <= table.len(),
            table@ == plan_table(),
            wanted@ == id@,
            forall|j: int| 0 <= j < i ==> (#[trigger] table@[j]).id@ != id@,
        decreases table.len() - i,
    {
        let name = chars_of(table[i].id);
        if chars_equal(&name, &wanted) {
            proof {
                lemma_plan_index(plan_table(), id@, i as int);
            }
            return Some(i);
        }
        i = i + 1;
    }
    proof {
        lemma_plan_index(plan_table(), id@, i as int);
    }
    None
}

/// The plan with `id`, if there is one.
pub fn plan_by_id(id: &str) -> (r: Option<Plan>)
    ensures
        r == spec_plan_by_id(id@),
{
    let table = plans();
    let wanted = chars_of(id);
    let mut i: usize = 0;
    while i < table.len()
        invariant
            i <= table.len(),
            table@ == plan_table(),
            wanted@ == id@,
            forall|j: int| 0 <= j < i ==> (#[trigger] table@[j]).id@ != id@,
        decreases table.len() - i,
    {
        let name = chars_of(table[i].id);
        if chars_equal(&name, &wanted) {
            proof {
                lemma_plan_index(plan_table(), id@, i as int);
            }
            return Some(table[i]);
        }
        i = i + 1;
    }
    proof {
        lemma_plan_index(plan_table(), id@, i as int);
    }
    None
}

/// A language setting that the app knows: `auto`, `en` or `es`.
pub open spec fn is_supported_language(language: Seq<char>) -> bool {
    language == "auto"@ || language == "en"@ || language == "es"@
}

/// Whether `language` is `auto`, `en` or `es`.
pub fn supported_language(language: &str) -> (r: bool)
    ensures
        r == is_supported_language(language@),
{
    let text = chars_of(language);
    chars_equal(&text, &chars_of("auto")) || chars_equal(&text, &chars_of("en")) || chars_equal(
        &text,
        &chars_of("es"),
    )
}

/// The bits of an `f64` that is finite and not below zero (`-0.0` counts as
/// zero).
pub open spec fn is_finite_nonnegative(bits: u64) -> bool {
    bits < POSITIVE_NON_FINITE_BITS || bits == NEGATIVE_ZERO_BITS
}

/// The bits of an `f64` from 0 through 1,000,000 (`-0.0` counts as zero).
pub open spec fn is_amount_in_range(bits: u64) -> bool {
    bits <= MAX_AMOUNT_BITS || bits == NEGATIVE_ZERO_BITS
}

/// The user's settings.
#[derive(Clone, Debug)]
pub struct Config {
    /// The id of the selected plan.
    pub plan: String,
    /// A monthly amount that replaces the plan's price, as the bits of an
    /// `f64` in US dollars.
    pub monthly_usd_override_bits: Option<u64>,
    /// `auto`, `en` or `es`.
    pub language: String,
    /// The day of the month on which the plan renews.
    pub cycle_day: u16,
}

/// Settings that the app itself could have written: a known plan, a known
/// language, a renewal day from 1 through 31 and an amount that is finite
/// and not negative.
pub open spec fn config_is_valid(config: Config) -> bool {
    &&& is_plan_id(config.plan@)
    &&& is_supported_language(config.language@)
    &&& 1 <= config.cycle_day <= 31
    &&& config.monthly_usd_override_bits matches Some(bits) ==> is_finite_nonnegative(bits)
}

impl Config {
    /// The settings of a first start: Plus, no override, automatic language,
    /// renewal on the first of the month.
    pub open spec fn is_default(self) -> bool {
        &&& self.plan@ == "plus"@
        &&& self.monthly_usd_override_bits is None
        &&& self.language@ == "auto"@
        &&& self.cycle_day == 1
    }
}

impl Default for Config {
    fn default() -> (r: Config)
        ensures
            r.is_default(),
    {
        Config {
            plan: "plus".to_owned(),
            monthly_usd_override_bits: None,
            language: "auto".to_owned(),
            cycle_day: 1,
        }
    }
}

/// The `f64` that a JSON value holds, as bits: `serde_json` reads any JSON
/// number as an `f64`.
pub open spec fn json_f64_bits(value: JsonValue) -> Option<u64> {
    match value {
        JsonValue::Number(n) => Some(n.f64_bits),
        _ => None,
    }
}

/// The `f64` that a JSON value holds, as bits.
pub fn as_f64_bits(value: &JsonValue) -> (r: Option<u64>)
    ensures
        r == json_f64_bits(*value),
{
    match value {
        JsonValue::Number(n) => Some(n.f64_bits),
        _ => None,
    }
}

/// The text of member `key` when it is a string that `accept` admits.
pub open spec fn accepted_text(value: JsonValue, key: Seq<char>, accept: spec_fn(Seq<char>) -> bool) -> Option<Seq<char>> {
    match json_get(value, key) {
        Some(member) => match json_as_str(member) {
            Some(text) => if accept(text) {
                Some(text)
            } else {
                None
            },
            None => None,
        },
        None => None,
    }
}

/// Member `key` when it is an integer from 1 through 31.
pub open spec fn accepted_day(value: JsonValue, key: Seq<char>) -> Option<u16> {
    match json_get(value, key) {
        Some(member) => match json_as_u64(member) {
            Some(day) => if 1 <= day <= 31 {
                Some(day as u16)
            } else {
                None
            },
            None => None,
        },
        None => None,
    }
}

/// The settings that a stored settings document gives: each field that is
/// missing or not acceptable takes its default.
pub open spec fn spec_config_from_json(value: JsonValue) -> (Seq<char>, Option<u64>, Seq<char>, u16) {
    let plan = match accepted_text(value, "plan"@, |t: Seq<char>| is_plan_id(t)) {
        Some(t) => t,
        None => "plus"@,
    };
    let language = match accepted_text(value, "language"@, |t: Seq<char>| is_supported_language(t)) {
        Some(t) => t,
        None => "auto"@,
    };
    let amount = match json_get(value, "monthly_usd_override"@) {
        Some(member) => match json_f64_bits(member) {
            Some(bits) => if is_finite_nonnegative(bits) {
                Some(bits)
            } else {
                None
            },
            None => None,
        },
        None => None,
    };
    let day = match accepted_day(value, "cycle_day"@) {
        Some(d) => d,
        None => 1u16,
    };
    (plan, amount, language, day)
}

/// The settings of a stored settings document.  A field that is missing or
/// not acceptable (an unknown plan or language, an amount that is negative
/// or not finite, a day outside 1..=31) takes its default.
pub fn config_from_json(value: JsonValue) -> (r: Config)
    ensures
        (r.plan@, r.monthly_usd_override_bits, r.language@, r.cycle_day) == spec_config_from_json(
            value,
        ),
        config_is_valid(r),
{
    let plan = match get(&value, "plan") {
        Some(member) => match as_str(member) {
            Some(id) => if plan_by_id(id).is_some() {
                id.to_owned()
            } else {
                "plus".to_owned()
            },
            None => "plus".to_owned(),
        },
        None => "plus".to_owned(),
    };
    let language = match get(&value, "language") {
        Some(member) => match as_str(member) {
            Some(text) => if supported_language(text) {
                text.to_owned()
            } else {
                "auto".to_owned()
            },
            None => "auto".to_owned(),
        },
        None => "auto".to_owned(),
    };
    let monthly_usd_override_bits = match get(&value, "monthly_usd_override") {
        Some(member) => match as_f64_bits(member) {
            Some(bits) => if bits < POSITIVE_NON_FINITE_BITS || bits == NEGATIVE_ZERO_BITS {
                Some(bits)
            } else {
                None
            },
            None => None,
        },
        None => None,
    };
    let cycle_day = match get(&value, "cycle_day") {
        Some(member) => match as_u64(member) {
            Some(day) => if 1 <= day && day <= 31 {
                day as u16
            } else {
                1
            },
            None => 1,
        },
        None => 1,
    };
    proof {
        lemma_plus_is_a_plan();
    }
    Config { plan, monthly_usd_override_bits, language, cycle_day }
}

/// The settings stored in `text`, or the default settings when `text` is
/// not one JSON document.
pub open spec fn spec_config_from_text(text: &str) -> (Seq<char>, Option<u64>, Seq<char>, u16) {
    match json_from_slice(text.spec_bytes()) {
        Some(value) => spec_config_from_json(value),
        None => ("plus"@, None, "auto"@, 1u16),
    }
}

/// The settings stored in the text of a settings file: those of its JSON
/// document, or the defaults when it holds none.
pub fn config_from_text(text: &str) -> (r: Config)
    ensures
        (r.plan@, r.monthly_usd_override_bits, r.language@, r.cycle_day) == spec_config_from_text(
            text,
        ),
        config_is_valid(r),
{
    match parse_json(text.as_bytes()) {
        Some(value) => config_from_json(value),
        None => {
            proof {
                lemma_plus_is_a_plan();
            }
            Config::default()
        },
    }
}

/// An error of the settings interface: a code and a message for people.
pub type FfiError = (&'static str, String);

/// What settings sent by the desktop shell give: the settings, or the code
/// and message of the first field that is wrong.  `parsed` is the JSON
/// document read from the request, `None` when it held none.
pub open spec fn spec_config_from_ffi(parsed: Option<JsonValue>) -> Result<
    (Seq<char>, Option<u64>, Seq<char>, u16),
    (Seq<char>, Seq<char>),
> {
    match parsed {
        None => Err(("invalid_json"@, "Settings must be valid JSON."@)),
        Some(value) => if !(value is Object) {
            Err(("invalid_settings"@, "Settings must be a JSON object."@))
        } else {
            match accepted_text(value, "plan"@, |t: Seq<char>| is_plan_id(t)) {
                None => Err(("invalid_plan"@, "Choose a supported plan."@)),
                Some(plan) => match accepted_text(
                    value,
                    "language"@,
                    |t: Seq<char>| is_supported_language(t),
                ) {
                    None => Err(("invalid_language"@, "Language must be auto, en, or es."@)),
                    Some(language) => match accepted_day(value, "cycleDay"@) {
                        None => Err(
                            ("invalid_cycle_day"@, "Cycle day must be an integer from 1 to 31."@),
                        ),
                        Some(day) => {
                            let amount: Result<Option<u64>, ()> = match json_get(
                                value,
                                "monthlyUsdOverride"@,
                            ) {
                                None => Ok(None),
                                Some(JsonValue::Null) => Ok(None),
                                Some(member) => match json_f64_bits(member) {
                                    Some(bits) => if is_amount_in_range(bits) {
                                        Ok(Some(bits))
                                    } else {
                                        Err(())
                                    },
                                    None => Err(()),
                                },
                            };
                            match amount {
                                Err(_) => Err(
                                    (
                                        "invalid_amount"@,
                                        "Custom amount must be between 0 and 1,000,000 USD."@,
                                    ),
                                ),
                                Ok(amount) => if plan == "custom"@ && amount is None {
                                    Err(("invalid_amount"@, "A custom plan requires a monthly amount."@))
                                } else {
                                    Ok((plan, amount, language, day))
                                },
                            }
                        },
                    },
                },
            }
        },
    }
}

/// The settings, or the error, that a settings request holding the JSON
/// document `parsed` gives (`None` when the request held no JSON).  A plan
/// must be known, the language `auto`, `en` or `es`, `cycleDay` an integer
/// from 1 through 31, and `monthlyUsdOverride` absent, null or a number from
/// 0 through 1,000,000; the custom plan needs an amount.
pub fn config_from_ffi_value(parsed: Option<JsonValue>) -> (r: Result<Config, FfiError>)
    ensures
        match r {
            Ok(c) => spec_config_from_ffi(parsed) == Ok::<
                (Seq<char>, Option<u64>, Seq<char>, u16),
                (Seq<char>, Seq<char>),
            >((c.plan@, c.monthly_usd_override_bits, c.language@, c.cycle_day)),
            Err(e) => spec_config_from_ffi(parsed) == Err::<
                (Seq<char>, Option<u64>, Seq<char>, u16),
                (Seq<char>, Seq<char>),
            >((e.0@, e.1@)),
        },
{
    let value = match parsed {
        None => {
            return Err(("invalid_json", "Settings must be valid JSON.".to_owned()));
        },
        Some(value) => value,
    };
    if !matches!(value, JsonValue::Object(_)) {
        return Err(("invalid_settings", "Settings must be a JSON object.".to_owned()));
    }
    let plan = match get(&value, "plan") {
        Some(member) => match as_str(member) {
            Some(id) => if plan_by_id(id).is_some() {
                Some(id)
            } else {
                None
            },
            None => None,
        },
        None => None,
    };
    let plan = match plan {
        Some(id) => id,
        None => {
            return Err(("invalid_plan", "Choose a supported plan.".to_owned()));
        },
    };
    let language = match get(&value, "language") {
        Some(member) => match as_str(member) {
            Some(text) => if supported_language(text) {
                Some(text)
            } else {
                None
            },
            None => None,
        },
        None => None,
    };
    let language = match language {
        Some(text) => text,
        None => {
            return Err(("invalid_language", "Language must be auto, en, or es.".to_owned()));
        },
    };
    let day = match get(&value, "cycleDay") {
        Some(member) => match as_u64(member) {
            Some(day) => if 1 <= day && day <= 31 {
                Some(day as u16)
            } else {
                None
            },
            None => None,
        },
        None => None,
    };
    let cycle_day = match day {
        Some(d) => d,
        None => {
            return Err(
                ("invalid_cycle_day", "Cycle day must be an integer from 1 to 31.".to_owned()),
            );
        },
    };
    let amount = match get(&value, "monthlyUsdOverride") {
        None => None,
        Some(JsonValue::Null) => None,
        Some(member) => match as_f64_bits(member) {
            Some(bits) => if bits <= MAX_AMOUNT_BITS || bits == NEGATIVE_ZERO_BITS {
                Some(bits)
            } else {
                return Err(
                    (
                        "invalid_amount",
                        "Custom amount must be between 0 and 1,000,000 USD.".to_owned(),
                    ),
                );
            },
            None => {
                return Err(
                    (
                        "invalid_amount",
                        "Custom amount must be between 0 and 1,000,000 USD.".to_owned(),
                    ),
                );
            },
        },
    };
    let custom = chars_equal(&chars_of(plan), &chars_of("custom"));
    if custom && amount.is_none() {
        return Err(("invalid_amount", "A custom plan requires a monthly amount.".to_owned()));
    }
    Ok(
        Config {
            plan: plan.to_owned(),
            monthly_usd_override_bits: amount,
            language: language.to_owned(),
            cycle_day,
        },
    )
}

/// The settings, or the error, that the settings request `input` gives;
/// the request is read as JSON with `serde_json`.
pub fn config_from_ffi_json(input: &str) -> (r: Result<Config, FfiError>)
    ensures
        match r {
            Ok(c) => spec_config_from_ffi(json_from_slice(input.spec_bytes())) == Ok::<
                (Seq<char>, Option<u64>, Seq<char>, u16),
                (Seq<char>, Seq<char>),
            >((c.plan@, c.monthly_usd_override_bits, c.language@, c.cycle_day)),
            Err(e) => spec_config_from_ffi(json_from_slice(input.spec_bytes())) == Err::<
                (Seq<char>, Option<u64>, Seq<char>, u16),
                (Seq<char>, Seq<char>),
            >((e.0@, e.1@)),
        },
{
    config_from_ffi_value(parse_json(input.as_bytes()))
}

/// The highest power of two at most `n`, found by doubling from `p`.
pub open spec fn top_power(n: nat, p: nat) -> nat
    decreases n - p,
{
    if 1 <= p && p * 2 <= n {
        top_power(n, p * 2)
    } else {
        p
    }
}

/// The exponent of `top_power(n, p)`, counted from `e` at `p`.
pub open spec fn top_exponent(n: nat, p: nat, e: nat) -> nat
    decreases n - p,
{
    if 1 <= p && p * 2 <= n {
        top_exponent(n, p * 2, e + 1)
    } else {
        e
    }
}

/// `2^52`, the weight of the lowest exponent bit of an `f64`.
pub open spec fn f64_exponent_unit() -> nat {
    0x10_0000_0000_0000
}

/// The bits of the `f64` equal to the whole number `n`, for `n < 2^53`:
/// all zero for zero; else, with `2^e` the highest power of two at most
/// `n`, the biased exponent `1023 + e` and the fraction `n - 2^e` shifted
/// to the top of the 52 fraction bits.
pub open spec fn whole_f64_bits(n: nat) -> nat {
    if n == 0 {
        0
    } else {
        let p = top_power(n, 1);
        (1023 + top_exponent(n, 1, 0)) * f64_exponent_unit() + ((n - p) as nat) * (f64_exponent_unit() / p)
    }
}

/// The bits of `n as f64`.
fn whole_number_f64_bits(n: u16) -> (r: u64)
    ensures
        r == whole_f64_bits(n as nat),
{
    if n == 0 {
        return 0;
    }
    let wide = n as u64;
    let mut p: u64 = 1;
    let mut e: u64 = 0;
    proof {
        vstd::arithmetic::power2::lemma2_to64();
    }
    while p * 2 <= wide
        invariant
            1 <= p <= wide,
            wide == n,
            1 <= n,
            p == vstd::arithmetic::power2::pow2(e as nat),
            e < 16,
            top_power(n as nat, p as nat) == top_power(n as nat, 1),
            top_exponent(n as nat, p as nat, e as nat) == top_exponent(n as nat, 1, 0),
        decreases wide - p,
    {
        proof {
            vstd::arithmetic::power2::lemma_pow2_unfold((e + 1) as nat);
            vstd::arithmetic::power2::lemma2_to64();
            if e + 1 >= 16 {
                vstd::arithmetic::power2::lemma_pow2_strictly_increases(15, (e + 1) as nat);
            }
        }
        p = p * 2;
        e = e + 1;
    }
    let unit: u64 = 0x10_0000_0000_0000;
    let step: u64 = unit / p;
    let below: u64 = wide - p;
    assert(below * step <= unit) by (nonlinear_arith)
        requires
            below < p,
            1 <= p,
            step == unit / p,
            unit == 0x10_0000_0000_0000u64,
    ;
    (1023 + e) * unit + below * step
}

/// Whether `doc` is the settings document of the desktop interface for
/// `config`: an object with the members `cycleDay`, `language`,
/// `monthlyUsdOverride` and `plan`, in that order (the key order of the
/// JSON map that writes it).  The day is an integer; the amount is the
/// `f64` of the setting, or null.
pub open spec fn is_config_document(doc: JsonValue, config: Config) -> bool {
    match doc {
        JsonValue::Object(members) => {
            &&& members@.len() == 4
            &&& members@[0].0@ == "cycleDay"@
            &&& members@[0].1 == JsonValue::Number(
                JsonNumber {
                    as_u64: Some(config.cycle_day as u64),
                    as_i64: Some(config.cycle_day as i64),
                    f64_bits: whole_f64_bits(config.cycle_day as nat) as u64,
                },
            )
            &&& members@[1].0@ == "language"@
            &&& json_as_str(members@[1].1) == Some(config.language@)
            &&& members@[2].0@ == "monthlyUsdOverride"@
            &&& members@[2].1 == match config.monthly_usd_override_bits {
                None => JsonValue::Null,
                Some(bits) => JsonValue::Number(JsonNumber { as_u64: None, as_i64: None, f64_bits: bits }),
            }
            &&& members@[3].0@ == "plan"@
            &&& json_as_str(members@[3].1) == Some(config.plan@)
        },
        _ => false,
    }
}

/// The settings document that the desktop interface is sent for `config`.
pub fn config_document(config: &Config) -> (r: JsonValue)
    ensures
        is_config_document(r, *config),
{
    let day = JsonValue::Number(
        JsonNumber {
            as_u64: Some(config.cycle_day as u64),
            as_i64: Some(config.cycle_day as i64),
            f64_bits: whole_number_f64_bits(config.cycle_day),
        },
    );
    let amount = match config.monthly_usd_override_bits {
        None => JsonValue::Null,
        Some(bits) => JsonValue::Number(JsonNumber { as_u64: None, as_i64: None, f64_bits: bits }),
    };
    let members = vec![
        ("cycleDay".to_owned(), day),
        ("language".to_owned(), JsonValue::Str(config.language.clone())),
        ("monthlyUsdOverride".to_owned(), amount),
        ("plan".to_owned(), JsonValue::Str(config.plan.clone())),
    ];
    JsonValue::Object(members)
}

/// The settings document of accepted settings reads back, through the
/// settings interface, as the same settings.  Accepted settings have a
/// known plan, the language `auto`, `en` or `es`, a cycle day from 1
/// through 31, an amount from 0 through 1,000,000 USD when they have one,
/// and an amount when the plan is custom.
pub proof fn lemma_settings_document_reads_back(doc: JsonValue, config: Config)
    requires
        is_config_document(doc, config),
        is_plan_id(config.plan@),
        is_supported_language(config.language@),
        1 <= config.cycle_day <= 31,
        config.monthly_usd_override_bits matches Some(bits) ==> is_amount_in_range(bits),
        config.plan@ == "custom"@ ==> config.monthly_usd_override_bits is Some,
    ensures
        spec_config_from_ffi(Some(doc)) == Ok::<
            (Seq<char>, Option<u64>, Seq<char>, u16),
            (Seq<char>, Seq<char>),
        >((config.plan@, config.monthly_usd_override_bits, config.language@, config.cycle_day)),
{
    reveal_strlit("cycleDay");
    reveal_strlit("language");
    reveal_strlit("monthlyUsdOverride");
    reveal_strlit("plan");
    let members = match doc {
        JsonValue::Object(m) => m@,
        _ => Seq::empty(),
    };
    let rest1 = members.drop_first();
    let rest2 = rest1.drop_first();
    let rest3 = rest2.drop_first();
    assert("cycleDay"@ != "language"@) by {
        assert("cycleDay"@[0] != "language"@[0]);
    }
    assert("language"@.len() != "monthlyUsdOverride"@.len());
    assert("language"@.len() != "plan"@.len());
    assert(rest1[0] == members[1]);
    assert(rest2[0] == members[2]);
    assert(rest3[0] == members[3]);
    assert(member_lookup(members, "cycleDay"@) == Some(members[0].1));
    assert(member_lookup(rest1, "language"@) == Some(members[1].1));
    assert(member_lookup(members, "language"@) == Some(members[1].1));
    assert(member_lookup(rest2, "monthlyUsdOverride"@) == Some(members[2].1));
    assert(member_lookup(rest1, "monthlyUsdOverride"@) == Some(members[2].1));
    assert(member_lookup(members, "monthlyUsdOverride"@) == Some(members[2].1));
    assert(member_lookup(rest3, "plan"@) == Some(members[3].1));
    assert(member_lookup(rest2, "plan"@) == Some(members[3].1));
    assert(member_lookup(rest1, "plan"@) == Some(members[3].1));
    assert(member_lookup(members, "plan"@) == Some(members[3].1));
}

/// The selected plan, or Plus when the setting names none.
pub open spec fn spec_current_plan(config: Config) -> Plan {
    match spec_plan_by_id(config.plan@) {
        Some(plan) => plan,
        None => plan_table()[2],
    }
}

/// The selected plan, or Plus when the setting names none.
pub fn current_plan(config: &Config) -> (r: Plan)
    ensures
        r == spec_current_plan(*config),
{
    match plan_by_id(config.plan.as_str()) {
        Some(plan) => plan,
        None => {
            let table = plans();
            table[2]
        },
    }
}

/// The monthly amount that the usage is compared with: the override when
/// there is one, else the plan's price (as `f64` bits).
pub open spec fn spec_plan_usd_bits(config: Config) -> u64 {
    match config.monthly_usd_override_bits {
        Some(bits) => bits,
        None => spec_current_plan(config).usd_bits,
    }
}

/// The monthly amount that the usage is compared with, as `f64` bits.
pub fn plan_usd_bits(config: &Config) -> (r: u64)
    ensures
        r == spec_plan_usd_bits(*config),
{
    match config.monthly_usd_override_bits {
        Some(bits) => bits,
        None => current_plan(config).usd_bits,
    }
}

/// `f64::max(x, 20.0)` on the bits of `x`: 20 for NaN, for any negative
/// value and for anything up to 20, else `x` itself.
pub open spec fn spec_at_least_twenty(bits: u64) -> u64 {
    if bits >= NEGATIVE_ZERO_BITS || bits > POSITIVE_NON_FINITE_BITS || bits <= TWENTY_USD_BITS {
        TWENTY_USD_BITS
    } else {
        bits
    }
}

/// `f64::max(x, 20.0)` on the bits of `x`.
pub fn at_least_twenty(bits: u64) -> (r: u64)
    ensures
        r == spec_at_least_twenty(bits),
{
    if bits >= NEGATIVE_ZERO_BITS || bits > POSITIVE_NON_FINITE_BITS || bits <= TWENTY_USD_BITS {
        TWENTY_USD_BITS
    } else {
        bits
    }
}

/// The settings after choosing plan `id` from the menu, or `None` when `id`
/// names no plan.  Choosing the custom plan keeps the current override, or
/// starts from the current monthly amount (at least 20 dollars); any other
/// plan drops the override.
pub fn with_plan(config: &Config, id: &str) -> (r: Option<Config>)
    ensures
        r is Some <==> is_plan_id(id@),
        r matches Some(c) ==> {
            &&& c.plan@ == id@
            &&& c.language@ == config.language@
            &&& c.cycle_day == config.cycle_day
            &&& c.monthly_usd_override_bits == if id@ == "custom"@ {
                Some(
                    match config.monthly_usd_override_bits {
                        Some(bits) => bits,
                        None => spec_at_least_twenty(spec_plan_usd_bits(*config)),
                    },
                )
            } else {
                None
            }
        },
{
    if plan_by_id(id).is_none() {
        return None;
    }
    let current_amount = plan_usd_bits(config);
    let amount = if chars_equal(&chars_of(id), &chars_of("custom")) {
        Some(
            match config.monthly_usd_override_bits {
                Some(bits) => bits,
                None => at_least_twenty(current_amount),
            },
        )
    } else {
        None
    };
    Some(
        Config {
            plan: id.to_owned(),
            monthly_usd_override_bits: amount,
            language: config.language.clone(),
            cycle_day: config.cycle_day,
        },
    )
}

/// The settings after choosing renewal day `day`, brought into 1..=31.
pub fn with_cycle_day(config: &Config, day: u16) -> (r: Config)
    ensures
        r.plan@ == config.plan@,
        r.monthly_usd_override_bits == config.monthly_usd_override_bits,
        r.language@ == config.language@,
        r.cycle_day == if day < 1 {
            1
        } else if day > 31 {
            31
        } else {
            day
        },
{
    Config {
        plan: config.plan.clone(),
        monthly_usd_override_bits: config.monthly_usd_override_bits,
        language: config.language.clone(),
        cycle_day: if day < 1 {
            1
        } else if day > 31 {
            31
        } else {
            day
        },
    }
}

/// The settings after choosing language `language`, or `None` when it is not
/// `auto`, `en` or `es`.
pub fn with_language(config: &Config, language: &str) -> (r: Option<Config>)
    ensures
        r is Some <==> is_supported_language(language@),
        r matches Some(c) ==> {
            &&& c.plan@ == config.plan@
            &&& c.monthly_usd_override_bits == config.monthly_usd_override_bits
            &&& c.language@ == language@
            &&& c.cycle_day == config.cycle_day
        },
{
    if !supported_language(language) {
        return None;
    }
    Some(
        Config {
            plan: config.plan.clone(),
            monthly_usd_override_bits: config.monthly_usd_override_bits,
            language: language.to_owned(),
            cycle_day: config.cycle_day,
        },
    )
}

/// What the lines of a Codex `config.toml` read so far say about the
/// pricing tier.
#[derive(Clone, Copy, Debug)]
pub struct TierScan {
    /// The tier of the last `service_tier` line.
    pub tier: Option<ServiceTier>,
    /// The last section header was `[features]`.
    pub in_features: bool,
    /// The last `fast_mode` line of the `[features]` section said `true`.
    pub fast_mode: bool,
}

/// Nothing read yet.
pub open spec fn tier_scan_start() -> TierScan {
    TierScan { tier: None, in_features: false, fast_mode: false }
}

/// A line up to its first `#`.
pub open spec fn before_hash(line: Seq<char>) -> Seq<char> {
    match first_index_of(line, '#') {
        Some(k) => line.subrange(0, k),
        None => line,
    }
}

/// What one line changes: a section header sets whether the features
/// section is open; `service_tier = ...` sets the tier; inside the features
/// section, `fast_mode = ...` sets whether Fast mode is on (`true` in any
/// ASCII case).  Comments after `#` and surrounding whitespace are ignored.
pub open spec fn tier_step(scan: TierScan, line: Seq<char>) -> TierScan {
    let text = trim(before_hash(line), CharClass::Whitespace);
    if text.len() > 0 && text[0] == '[' {
        TierScan { tier: scan.tier, in_features: text == "[features]"@, fast_mode: scan.fast_mode }
    } else {
        match first_index_of(text, '=') {
            None => scan,
            Some(k) => {
                let key = trim(text.subrange(0, k), CharClass::Whitespace);
                let value = text.subrange(k + 1, text.len() as int);
                if key == "service_tier"@ {
                    TierScan {
                        tier: spec_tier_from_text(value),
                        in_features: scan.in_features,
                        fast_mode: scan.fast_mode,
                    }
                } else if key == "fast_mode"@ && scan.in_features {
                    TierScan {
                        tier: scan.tier,
                        in_features: scan.in_features,
                        fast_mode: ascii_lower(trim(value, CharClass::Whitespace)) == "true"@,
                    }
                } else {
                    scan
                }
            },
        }
    }
}

/// The lines of `s` that end in a line feed, read in order, and the text
/// after the last line feed, not read yet.
pub open spec fn toml_scan(s: Seq<char>) -> (TierScan, Seq<char>)
    decreases s.len(),
{
    if s.len() == 0 {
        (tier_scan_start(), Seq::empty())
    } else {
        let (scan, line) = toml_scan(s.drop_last());
        if s.last() == '\n' {
            (tier_step(scan, line), Seq::empty())
        } else {
            (scan, line.push(s.last()))
        }
    }
}

/// The pricing tier that a Codex `config.toml` selects: the last
/// `service_tier` setting, except that Fast counts only when the
/// `[features]` section turns `fast_mode` on (else it is Standard).  A
/// line ending of `\r\n` reads as `\n`: the `\r` is trimmed as whitespace.
pub open spec fn spec_service_tier_from_toml(contents: Seq<char>) -> Option<ServiceTier> {
    let (scan, line) = toml_scan(contents);
    let last = tier_step(scan, line);
    if last.tier == Some(ServiceTier::Fast) && !last.fast_mode {
        Some(ServiceTier::Standard)
    } else {
        last.tier
    }
}

fn tier_line(scan: TierScan, line: &Vec<char>) -> (r: TierScan)
    ensures
        r == tier_step(scan, line@),
{
    let before = match find_char(line, '#') {
        Some(k) => slice_chars(line, 0, k),
        None => slice_chars(line, 0, line.len()),
    };
    assert(before@ == before_hash(line@)) by {
        assert(line@.subrange(0, line@.len() as int) =~= line@);
    }
    let text = trim_chars(&before, CharClass::Whitespace);
    if text.len() > 0 && text[0] == '[' {
        return TierScan {
            tier: scan.tier,
            in_features: chars_equal(&text, &chars_of("[features]")),
            fast_mode: scan.fast_mode,
        };
    }
    match find_char(&text, '=') {
        None => scan,
        Some(k) => {
            let key = trim_chars(&slice_chars(&text, 0, k), CharClass::Whitespace);
            let value = slice_chars(&text, k + 1, text.len());
            if chars_equal(&key, &chars_of("service_tier")) {
                TierScan {
                    tier: ServiceTier::from_chars(&value),
                    in_features: scan.in_features,
                    fast_mode: scan.fast_mode,
                }
            } else if chars_equal(&key, &chars_of("fast_mode")) && scan.in_features {
                let word = ascii_lowercase(&trim_chars(&value, CharClass::Whitespace));
                TierScan {
                    tier: scan.tier,
                    in_features: scan.in_features,
                    fast_mode: chars_equal(&word, &chars_of("true")),
                }
            } else {
                scan
            }
        },
    }
}

/// The pricing tier that the text of a Codex `config.toml` selects, if any.
pub fn service_tier_from_toml(contents: &str) -> (r: Option<ServiceTier>)
    ensures
        r == spec_service_tier_from_toml(contents@),
{
    let chars = chars_of(contents);
    let mut scan = TierScan { tier: None, in_features: false, fast_mode: false };
    let mut line: Vec<char> = Vec::new();
    let mut i: usize = 0;
    assert(chars@.take(0) =~= Seq::<char>::empty());
    while i < chars.len()
        invariant
            i <= chars.len(),
            chars@ == contents@,
            (scan, line@) == toml_scan(chars@.take(i as int)),
        decreases chars.len() - i,
    {
        let c = chars[i];
        assert(chars@.take(i + 1).drop_last() =~= chars@.take(i as int));
        if c == '\n' {
            scan = tier_line(scan, &line);
            line = Vec::new();
        } else {
            line.push(c);
        }
        i = i + 1;
    }
    assert(chars@.take(i as int) =~= chars@);
    let last = tier_line(scan, &line);
    match last.tier {
        Some(ServiceTier::Fast) => if last.fast_mode {
            Some(ServiceTier::Fast)
        } else {
            Some(ServiceTier::Standard)
        },
        other => other,
    }
}

/// When the plan renews next, and in how many days.
#[derive(Clone, Copy, Debug, PartialEq, Eq, Structural)]
pub struct CyclePreview {
    pub cycle_next: DateKey,
    /// Days from today to the renewal, never below zero.
    pub days_until_reset: i32,
}

/// The next renewal of a plan that renews on `cycle_day`, seen on `today`,
/// and the days until then (at least 0).
pub open spec fn spec_cycle_preview(cycle_day: u16, today: DateKey) -> CyclePreview {
    let next = spec_next_cycle_start(today, cycle_day as int);
    let days = spec_ordinal_day(next) - spec_ordinal_day(today);
    CyclePreview {
        cycle_next: next,
        days_until_reset: if days > 0 {
            days as i32
        } else {
            0
        },
    }
}

/// The next renewal under `config`, seen on `today`, and the days until
/// then, without saving anything.
pub fn cycle_preview(config: &Config, today: DateKey) -> (r: CyclePreview)
    requires
        next_cycle_start_defined(today, config.cycle_day as int),
    ensures
        r == spec_cycle_preview(config.cycle_day, today),
{
    let next = next_cycle_start(today, config.cycle_day);
    let days = days_between(today, next);
    CyclePreview {
        cycle_next: next,
        days_until_reset: if days > 0 {
            days
        } else {
            0
        },
    }
}

/// Settings that the settings interface accepts are valid: a known plan, a
/// supported language, a renewal day from 1 through 31, an amount from 0
/// through 1,000,000 when one is given, and an amount whenever the plan is
/// custom.
pub proof fn lemma_accepted_settings_are_valid(parsed: Option<JsonValue>)
    ensures
        spec_config_from_ffi(parsed) matches Ok(c) ==> {
            &&& is_plan_id(c.0)
            &&& is_supported_language(c.2)
            &&& 1 <= c.3 <= 31
            &&& c.1 matches Some(bits) ==> is_amount_in_range(bits) && is_finite_nonnegative(bits)
            &&& c.0 == "custom"@ ==> c.1 is Some
        },
{
}

/// Stored settings always read back as valid settings, whatever the
/// document holds.
pub proof fn lemma_stored_settings_are_valid(value: JsonValue)
    ensures
        is_plan_id(spec_config_from_json(value).0),
        is_supported_language(spec_config_from_json(value).2),
        1 <= spec_config_from_json(value).3 <= 31,
        spec_config_from_json(value).1 matches Some(bits) ==> is_finite_nonnegative(bits),
{
    lemma_plus_is_a_plan();
}

} // verus!
