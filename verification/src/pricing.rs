//! Built-in model prices and the API-equivalent cost of a usage record.
//!
//! Prices are kept in thousandths of a US dollar per million tokens and
//! multipliers in tenths, so every price in the table and every cost is an
//! exact integer number of cost units (see `COST_UNITS_PER_USD`).

use vstd::prelude::*;
use crate::text::{chars_of, has_prefix, starts_with_chars};
use crate::usage::{ServiceTier, Usage};

verus! {

/// Prices of one model in thousandths of a US dollar per million tokens.
#[derive(Clone, Copy, Debug, PartialEq, Eq, Structural)]
pub struct Price {
    pub input: u32,
    pub cached: u32,
    pub cache_write: u32,
    pub output: u32,
    /// Input above the long-context threshold costs more.
    pub long_context: bool,
}

/// A price whose cache writes cost as much as input and that has no
/// long-context surcharge.
pub open spec fn spec_price(input: u32, cached: u32, output: u32) -> Price {
    Price { input, cached, cache_write: input, output, long_context: false }
}

/// A price with its own cache-write rate and a long-context surcharge.
pub open spec fn spec_contextual_price(input: u32, cached: u32, cache_write: u32, output: u32) -> Price {
    Price { input, cached, cache_write, output, long_context: true }
}

/// A price whose cache writes cost as much as input and that has no
/// long-context surcharge.
pub fn price(input: u32, cached: u32, output: u32) -> (r: Price)
    ensures
        r == spec_price(input, cached, output),
{
    Price { input, cached, cache_write: input, output, long_context: false }
}

/// A price with its own cache-write rate and a long-context surcharge.
pub fn contextual_price(input: u32, cached: u32, cache_write: u32, output: u32) -> (r: Price)
    ensures
        r == spec_contextual_price(input, cached, cache_write, output),
{
    Price { input, cached, cache_write, output, long_context: true }
}

/// The built-in prices, keyed by model-name prefix.
pub open spec fn price_table() -> Seq<(Seq<char>, Price)> {
    seq![
        ("gpt-5.6-sol"@, spec_contextual_price(5000, 500, 6250, 30000)),
        ("gpt-5.6-terra"@, spec_contextual_price(2500, 250, 3125, 15000)),
        ("gpt-5.6-luna"@, spec_contextual_price(1000, 100, 1250, 6000)),
        ("gpt-5.6"@, spec_contextual_price(5000, 500, 6250, 30000)),
        ("gpt-5.5"@, spec_contextual_price(5000, 500, 5000, 30000)),
        ("gpt-5.4-mini"@, spec_price(750, 75, 4500)),
        ("gpt-5.4-nano"@, spec_price(200, 20, 1250)),
        ("gpt-5.4"@, spec_contextual_price(2500, 250, 2500, 15000)),
        ("gpt-5.3-codex"@, spec_price(1750, 175, 14000)),
        ("gpt-5.2-codex"@, spec_price(1750, 175, 14000)),
        ("gpt-5.1-codex-max"@, spec_price(1250, 125, 10000)),
        ("gpt-5.1-codex"@, spec_price(1250, 125, 10000)),
        ("gpt-5.1"@, spec_price(1250, 125, 10000)),
        ("gpt-5"@, spec_price(1250, 125, 10000)),
    ]
}

/// The built-in prices, keyed by model-name prefix.
pub fn price_list() -> (r: Vec<(&'static str, Price)>)
    ensures
        r@.len() == price_table().len(),
        forall|i: int|
            0 <= i < r@.len() ==> (#[trigger] r@[i]).0@ == price_table()[i].0 && r@[i].1
                == price_table()[i].1,
{
    let r = vec![
        ("gpt-5.6-sol", contextual_price(5000, 500, 6250, 30000)),
        ("gpt-5.6-terra", contextual_price(2500, 250, 3125, 15000)),
        ("gpt-5.6-luna", contextual_price(1000, 100, 1250, 6000)),
        ("gpt-5.6", contextual_price(5000, 500, 6250, 30000)),
        ("gpt-5.5", contextual_price(5000, 500, 5000, 30000)),
        ("gpt-5.4-mini", price(750, 75, 4500)),
        ("gpt-5.4-nano", price(200, 20, 1250)),
        ("gpt-5.4", contextual_price(2500, 250, 2500, 15000)),
        ("gpt-5.3-codex", price(1750, 175, 14000)),
        ("gpt-5.2-codex", price(1750, 175, 14000)),
        ("gpt-5.1-codex-max", price(1250, 125, 10000)),
        ("gpt-5.1-codex", price(1250, 125, 10000)),
        ("gpt-5.1", price(1250, 125, 10000)),
        ("gpt-5", price(1250, 125, 10000)),
    ];
    assert(r@.len() == price_table().len());
    r
}

proof fn lemma_table_bounds()
    ensures
        forall|i: int|
            0 <= i < price_table().len() ==> (#[trigger] price_table()[i]).1.input <= 30000
                && price_table()[i].1.cached <= 30000 && price_table()[i].1.cache_write <= 30000
                && price_table()[i].1.output <= 30000,
{
}

/// Among the first `count` table entries whose prefix begins `model`, the
/// position of one with the longest prefix, the later one on a tie.
pub open spec fn best_match(model: Seq<char>, count: int) -> Option<int>
    decreases count,
{
    if count <= 0 {
        None
    } else {
        let earlier = best_match(model, count - 1);
        let entry = price_table()[count - 1];
        if has_prefix(model, entry.0) && (earlier is None || entry.0.len()
            >= price_table()[earlier.unwrap()].0.len()) {
            Some(count - 1)
        } else {
            earlier
        }
    }
}

/// The table entry whose prefix is the longest one that begins `model`.
pub open spec fn spec_price_entry(model: Seq<char>) -> Option<(Seq<char>, Price)> {
    match best_match(model, price_table().len() as int) {
        Some(i) => Some(price_table()[i]),
        None => None,
    }
}

proof fn lemma_best_match(model: Seq<char>, count: int)
    requires
        0 <= count <= price_table().len(),
    ensures
        best_match(model, count) matches Some(i) ==> {
            &&& 0 <= i < count
            &&& has_prefix(model, price_table()[i].0)
            &&& forall|j: int|
                0 <= j < count && has_prefix(model, #[trigger] price_table()[j].0)
                    ==> price_table()[j].0.len() <= price_table()[i].0.len()
        },
        best_match(model, count) is None ==> forall|j: int|
            0 <= j < count ==> !has_prefix(model, #[trigger] price_table()[j].0),
    decreases count,
{
    if count > 0 {
        lemma_best_match(model, count - 1);
    }
}

/// The price of a model is the one of the longest table prefix that begins
/// its name, and a model that no prefix begins has no price.
pub proof fn lemma_price_uses_longest_prefix(model: Seq<char>)
    ensures
        spec_price_entry(model) matches Some(entry) ==> {
            &&& has_prefix(model, entry.0)
            &&& exists|i: int| 0 <= i < price_table().len() && price_table()[i] == entry
            &&& forall|j: int|
                0 <= j < price_table().len() && has_prefix(model, #[trigger] price_table()[j].0)
                    ==> price_table()[j].0.len() <= entry.0.len()
        },
        spec_price_entry(model) is None <==> forall|j: int|
            0 <= j < price_table().len() ==> !has_prefix(model, #[trigger] price_table()[j].0),
{
    lemma_best_match(model, price_table().len() as int);
    if let Some(i) = best_match(model, price_table().len() as int) {
        assert(0 <= i < price_table().len() && price_table()[i] == price_table()[i]);
    }
}

/// A number that tells the table prefixes apart: the length and the
/// characters at positions 6 and 8.
spec fn prefix_code(s: Seq<char>) -> int {
    s.len() * 1000000 + (if s.len() > 6 { s[6] as int } else { 0 }) * 1000 + (if s.len() > 8 {
        s[8] as int
    } else {
        0
    })
}

/// No two table entries share a prefix.
proof fn lemma_table_prefixes_distinct()
    ensures
        forall|i: int, j: int|
            0 <= i < price_table().len() && 0 <= j < price_table().len() && i != j
                ==> (#[trigger] price_table()[i]).0 != (#[trigger] price_table()[j]).0,
{
    reveal_strlit("gpt-5.6-sol");
    reveal_strlit("gpt-5.6-terra");
    reveal_strlit("gpt-5.6-luna");
    reveal_strlit("gpt-5.6");
    reveal_strlit("gpt-5.5");
    reveal_strlit("gpt-5.4-mini");
    reveal_strlit("gpt-5.4-nano");
    reveal_strlit("gpt-5.4");
    reveal_strlit("gpt-5.3-codex");
    reveal_strlit("gpt-5.2-codex");
    reveal_strlit("gpt-5.1-codex-max");
    reveal_strlit("gpt-5.1-codex");
    reveal_strlit("gpt-5.1");
    reveal_strlit("gpt-5");
    assert(prefix_code(price_table()[0].0) == 11054115) by {
        assert(price_table()[0].0 == "gpt-5.6-sol"@);
    }
    assert(prefix_code(price_table()[1].0) == 13054116) by {
        assert(price_table()[1].0 == "gpt-5.6-terra"@);
    }
    assert(prefix_code(price_table()[2].0) == 12054108) by {
        assert(price_table()[2].0 == "gpt-5.6-luna"@);
    }
    assert(prefix_code(price_table()[3].0) == 7054000) by {
        assert(price_table()[3].0 == "gpt-5.6"@);
    }
    assert(prefix_code(price_table()[4].0) == 7053000) by {
        assert(price_table()[4].0 == "gpt-5.5"@);
    }
    assert(prefix_code(price_table()[5].0) == 12052109) by {
        assert(price_table()[5].0 == "gpt-5.4-mini"@);
    }
    assert(prefix_code(price_table()[6].0) == 12052110) by {
        assert(price_table()[6].0 == "gpt-5.4-nano"@);
    }
    assert(prefix_code(price_table()[7].0) == 7052000) by {
        assert(price_table()[7].0 == "gpt-5.4"@);
    }
    assert(prefix_code(price_table()[8].0) == 13051099) by {
        assert(price_table()[8].0 == "gpt-5.3-codex"@);
    }
    assert(prefix_code(price_table()[9].0) == 13050099) by {
        assert(price_table()[9].0 == "gpt-5.2-codex"@);
    }
    assert(prefix_code(price_table()[10].0) == 17049099) by {
        assert(price_table()[10].0 == "gpt-5.1-codex-max"@);
    }
    assert(prefix_code(price_table()[11].0) == 13049099) by {
        assert(price_table()[11].0 == "gpt-5.1-codex"@);
    }
    assert(prefix_code(price_table()[12].0) == 7049000) by {
        assert(price_table()[12].0 == "gpt-5.1"@);
    }
    assert(prefix_code(price_table()[13].0) == 5000000) by {
        assert(price_table()[13].0 == "gpt-5"@);
    }
    assert forall|i: int, j: int|
        0 <= i < price_table().len() && 0 <= j < price_table().len() && i != j implies (#[trigger] price_table()[i]).0
            != (#[trigger] price_table()[j]).0 by {
        assert(prefix_code(price_table()[i].0) != prefix_code(price_table()[j].0)) by {
            if i == 0 {} else if i == 1 {} else if i == 2 {} else if i == 3 {} else if i == 4 {} else if i == 5 {} else if i == 6 {} else if i == 7 {} else if i == 8 {} else if i == 9 {} else if i == 10 {} else if i == 11 {} else if i == 12 {} else {}
            if j == 0 {} else if j == 1 {} else if j == 2 {} else if j == 3 {} else if j == 4 {} else if j == 5 {} else if j == 6 {} else if j == 7 {} else if j == 8 {} else if j == 9 {} else if j == 10 {} else if j == 11 {} else if j == 12 {} else {}
        }
    }
}

/// A model named exactly as a table prefix is priced by that prefix's own
/// entry: no other prefix is as long and also begins the name.
pub proof fn lemma_prefix_prices_itself(i: int)
    requires
        0 <= i < price_table().len(),
    ensures
        spec_price_entry(price_table()[i].0) == Some(price_table()[i]),
{
    let model = price_table()[i].0;
    lemma_price_uses_longest_prefix(model);
    lemma_table_prefixes_distinct();
    assert(model.subrange(0, model.len() as int) =~= model);
    assert(has_prefix(model, price_table()[i].0));
    let entry = spec_price_entry(model).unwrap();
    assert(entry.0.len() >= model.len());
    assert(entry.0 =~= model);
    let j = choose|j: int| 0 <= j < price_table().len() && price_table()[j] == entry;
    assert(price_table()[j].0 == price_table()[i].0);
}

/// The built-in prices, per million tokens, in thousandths of a US dollar:
/// input, cached input, cache write and output, and whether long context
/// raises them.  Each is what a model named by its prefix pays.
pub proof fn lemma_built_in_prices()
    ensures
        spec_price_entry("gpt-5.6-sol"@).unwrap().1 == (Price { input: 5000, cached: 500, cache_write: 6250, output: 30000, long_context: true }),
        spec_price_entry("gpt-5.6-terra"@).unwrap().1 == (Price { input: 2500, cached: 250, cache_write: 3125, output: 15000, long_context: true }),
        spec_price_entry("gpt-5.6-luna"@).unwrap().1 == (Price { input: 1000, cached: 100, cache_write: 1250, output: 6000, long_context: true }),
        spec_price_entry("gpt-5.6"@).unwrap().1 == (Price { input: 5000, cached: 500, cache_write: 6250, output: 30000, long_context: true }),
        spec_price_entry("gpt-5.5"@).unwrap().1 == (Price { input: 5000, cached: 500, cache_write: 5000, output: 30000, long_context: true }),
        spec_price_entry("gpt-5.4-mini"@).unwrap().1 == (Price { input: 750, cached: 75, cache_write: 750, output: 4500, long_context: false }),
        spec_price_entry("gpt-5.4-nano"@).unwrap().1 == (Price { input: 200, cached: 20, cache_write: 200, output: 1250, long_context: false }),
        spec_price_entry("gpt-5.4"@).unwrap().1 == (Price { input: 2500, cached: 250, cache_write: 2500, output: 15000, long_context: true }),
        spec_price_entry("gpt-5.3-codex"@).unwrap().1 == (Price { input: 1750, cached: 175, cache_write: 1750, output: 14000, long_context: false }),
        spec_price_entry("gpt-5.2-codex"@).unwrap().1 == (Price { input: 1750, cached: 175, cache_write: 1750, output: 14000, long_context: false }),
        spec_price_entry("gpt-5.1-codex-max"@).unwrap().1 == (Price { input: 1250, cached: 125, cache_write: 1250, output: 10000, long_context: false }),
        spec_price_entry("gpt-5.1-codex"@).unwrap().1 == (Price { input: 1250, cached: 125, cache_write: 1250, output: 10000, long_context: false }),
        spec_price_entry("gpt-5.1"@).unwrap().1 == (Price { input: 1250, cached: 125, cache_write: 1250, output: 10000, long_context: false }),
        spec_price_entry("gpt-5"@).unwrap().1 == (Price { input: 1250, cached: 125, cache_write: 1250, output: 10000, long_context: false }),
{
    lemma_prefix_prices_itself(0);
    lemma_prefix_prices_itself(1);
    lemma_prefix_prices_itself(2);
    lemma_prefix_prices_itself(3);
    lemma_prefix_prices_itself(4);
    lemma_prefix_prices_itself(5);
    lemma_prefix_prices_itself(6);
    lemma_prefix_prices_itself(7);
    lemma_prefix_prices_itself(8);
    lemma_prefix_prices_itself(9);
    lemma_prefix_prices_itself(10);
    lemma_prefix_prices_itself(11);
    lemma_prefix_prices_itself(12);
    lemma_prefix_prices_itself(13);
}

/// The table entry, prefix and price, for `model`: the one whose prefix is
/// the longest that begins the model's name.
pub fn price_entry_for_model(model: &str) -> (r: Option<(&'static str, Price)>)
    ensures
        match spec_price_entry(model@) {
            Some(entry) => r matches Some(found) && found.0@ == entry.0 && found.1 == entry.1,
            None => r is None,
        },
{
    let name = chars_of(model);
    let table = price_list();
    let mut best: Option<usize> = None;
    let mut best_len: usize = 0;
    let mut k: usize = 0;
    while k < table.len()
        invariant
            k <= table.len() == price_table().len(),
            name@ == model@,
            forall|i: int|
                0 <= i < table@.len() ==> (#[trigger] table@[i]).0@ == price_table()[i].0
                    && table@[i].1 == price_table()[i].1,
            match best_match(model@, k as int) {
                Some(i) => 0 <= i < k && best == Some(i as usize) && best_len == price_table()[i].0.len(),
                None => best is None,
            },
        decreases table.len() - k,
    {
        proof {
            lemma_best_match(model@, k as int);
        }
        let prefix = chars_of(table[k].0);
        if starts_with_chars(&name, &prefix) && (best.is_none() || prefix.len() >= best_len) {
            best = Some(k);
            best_len = prefix.len();
        }
        k = k + 1;
    }
    match best {
        Some(i) => Some(table[i]),
        None => None,
    }
}

/// The Fast-mode multiplier, in tenths, of the models that have one, keyed
/// by the table prefix that priced the model.
pub open spec fn spec_fast_multiplier(prefix: Seq<char>) -> Option<u32> {
    if prefix == "gpt-5.5"@ {
        Some(25)
    } else if prefix == "gpt-5.4"@ {
        Some(20)
    } else {
        None
    }
}

/// The Fast-mode multiplier, in tenths, for a table prefix: x2.5 for
/// `gpt-5.5`, x2 for `gpt-5.4`, none for the others.
pub fn fast_multiplier_for_model_prefix(prefix: &str) -> (r: Option<u32>)
    ensures
        r == spec_fast_multiplier(prefix@),
{
    let name = chars_of(prefix);
    if crate::text::chars_equal(&name, &chars_of("gpt-5.5")) {
        Some(25)
    } else if crate::text::chars_equal(&name, &chars_of("gpt-5.4")) {
        Some(20)
    } else {
        None
    }
}

/// Input tokens above this count put a long-context model on its higher
/// rates.
pub const LONG_CONTEXT_THRESHOLD: u64 = 272_000;

/// The cost of `usage` in cost units, or `None` when no built-in price
/// applies to `model`.  Fast mode multiplies the input, cached-input and
/// output rates of the models that have a multiplier; long context doubles
/// the input, cached-input and cache-write rates and raises the output rate
/// by half.  Cached and cache-write tokens are taken out of input before
/// the input rate applies.
pub open spec fn spec_cost(usage: Usage, model: Seq<char>, tier: ServiceTier) -> Option<int> {
    match spec_price_entry(model) {
        None => None,
        Some(entry) => {
            let price = entry.1;
            let fast: int = if tier == ServiceTier::Fast {
                match spec_fast_multiplier(entry.0) {
                    Some(m) => m as int,
                    None => 10,
                }
            } else {
                10
            };
            let long = price.long_context && usage.input > LONG_CONTEXT_THRESHOLD;
            let doubled: int = if long {
                20
            } else {
                10
            };
            let output_step: int = if long {
                15
            } else {
                10
            };
            let uncached: int = if usage.input >= usage.cached + usage.cache_write {
                usage.input - usage.cached - usage.cache_write
            } else {
                0
            };
            Some(uncached * (price.input * fast * doubled) + usage.cached * (price.cached * fast
                * doubled) + usage.cache_write * (price.cache_write * 10 * doubled) + usage.output
                * (price.output * fast * output_step))
        },
    }
}

proof fn lemma_term_bound(tokens: u64, rate: int)
    requires
        0 <= rate <= 30000 * 25 * 20,
    ensures
        0 <= tokens * rate <= 0x1_0000_0000_0000_0000 * 30000 * 25 * 20,
{
    assert(0 <= tokens * rate <= 0x1_0000_0000_0000_0000 * 30000 * 25 * 20) by (nonlinear_arith)
        requires
            0 <= rate <= 30000 * 25 * 20,
            0 <= tokens < 0x1_0000_0000_0000_0000,
    ;
}

/// The cost of `usage` in cost units at the built-in price of `model`, or
/// `None` when no built-in price applies (the model then counts as unknown).
pub fn cost(usage: Usage, model: &str, tier: ServiceTier) -> (r: Option<u128>)
    ensures
        match spec_cost(usage, model@, tier) {
            Some(c) => r == Some(c as u128),
            None => r is None,
        },
{
    let (prefix, price) = match price_entry_for_model(model) {
        Some(entry) => entry,
        None => return None,
    };
    let mut fast: u128 = 10;
    if tier == ServiceTier::Fast {
        if let Some(m) = fast_multiplier_for_model_prefix(prefix) {
            fast = m as u128;
        }
    }
    let long = price.long_context && usage.input > LONG_CONTEXT_THRESHOLD;
    let doubled: u128 = if long {
        20
    } else {
        10
    };
    let output_step: u128 = if long {
        15
    } else {
        10
    };
    let uncached = usage.input.saturating_sub(usage.cached).saturating_sub(usage.cache_write);
    proof {
        lemma_price_uses_longest_prefix(model@);
        lemma_table_bounds();
        let i = choose|i: int| 0 <= i < price_table().len() && price_table()[i] == spec_price_entry(model@).unwrap();
        assert(price_table()[i].1 == price);
        assert(fast <= 25);
    }
    let base_input = price.input as u128;
    let base_cached = price.cached as u128;
    let base_write = price.cache_write as u128;
    let base_output = price.output as u128;
    proof {
        assert(base_input * fast * doubled <= 30000 * 25 * 20) by (nonlinear_arith)
            requires base_input <= 30000, fast <= 25, doubled <= 20;
        assert(base_cached * fast * doubled <= 30000 * 25 * 20) by (nonlinear_arith)
            requires base_cached <= 30000, fast <= 25, doubled <= 20;
        assert(base_write * 10 * doubled <= 30000 * 25 * 20) by (nonlinear_arith)
            requires base_write <= 30000, doubled <= 20;
        assert(base_output * fast * output_step <= 30000 * 25 * 20) by (nonlinear_arith)
            requires base_output <= 30000, fast <= 25, output_step <= 15;
        assert(base_input * fast <= 30000 * 25) by (nonlinear_arith)
            requires base_input <= 30000, fast <= 25;
        assert(base_cached * fast <= 30000 * 25) by (nonlinear_arith)
            requires base_cached <= 30000, fast <= 25;
        assert(base_output * fast <= 30000 * 25) by (nonlinear_arith)
            requires base_output <= 30000, fast <= 25;
    }
    let input_rate = base_input * fast * doubled;
    let cached_rate = base_cached * fast * doubled;
    let write_rate = base_write * 10 * doubled;
    let output_rate = base_output * fast * output_step;
    proof {
        lemma_term_bound(uncached, input_rate as int);
        lemma_term_bound(usage.cached, cached_rate as int);
        lemma_term_bound(usage.cache_write, write_rate as int);
        lemma_term_bound(usage.output, output_rate as int);
    }
    let total = uncached as u128 * input_rate + usage.cached as u128 * cached_rate
        + usage.cache_write as u128 * write_rate + usage.output as u128 * output_rate;
    Some(total)
}

/// Reasoning tokens are not billed again: two usages that differ only in
/// their reasoning and total counts cost the same.
pub proof fn lemma_cost_ignores_reasoning(a: Usage, b: Usage, model: Seq<char>, tier: ServiceTier)
    requires
        a.input == b.input,
        a.cached == b.cached,
        a.cache_write == b.cache_write,
        a.output == b.output,
    ensures
        spec_cost(a, model, tier) == spec_cost(b, model, tier),
{
}

/// Fast mode changes nothing for a model without a Fast multiplier.
pub proof fn lemma_fast_mode_needs_a_multiplier(usage: Usage, model: Seq<char>)
    requires
        spec_price_entry(model) matches Some(entry) ==> spec_fast_multiplier(entry.0) is None,
    ensures
        spec_cost(usage, model, ServiceTier::Fast) == spec_cost(usage, model, ServiceTier::Standard),
{
}

/// Fast mode is a price multiplier, not extra tokens: without cache writes
/// (whose rate it leaves alone), the Fast cost of a model with a multiplier
/// is the Standard cost times that multiplier (in tenths).
pub proof fn lemma_fast_mode_multiplies_cost(usage: Usage, model: Seq<char>)
    requires
        usage.cache_write == 0,
        spec_price_entry(model) matches Some(entry) && spec_fast_multiplier(entry.0) is Some,
    ensures
        spec_cost(usage, model, ServiceTier::Fast).unwrap() * 10 == spec_cost(
            usage,
            model,
            ServiceTier::Standard,
        ).unwrap() * spec_fast_multiplier(spec_price_entry(model).unwrap().0).unwrap(),
{
    let entry = spec_price_entry(model).unwrap();
    let price = entry.1;
    let m = spec_fast_multiplier(entry.0).unwrap() as int;
    let long = price.long_context && usage.input > LONG_CONTEXT_THRESHOLD;
    let d: int = if long {
        20
    } else {
        10
    };
    let o: int = if long {
        15
    } else {
        10
    };
    let u: int = if usage.input >= usage.cached + usage.cache_write {
        usage.input - usage.cached - usage.cache_write
    } else {
        0
    };
    let c = usage.cached as int;
    let out = usage.output as int;
    let pi = price.input as int;
    let pc = price.cached as int;
    let po = price.output as int;
    lemma_scaled_term(u, pi, m, d);
    lemma_scaled_term(c, pc, m, d);
    lemma_scaled_term(out, po, m, o);
    assert(0 * (price.cache_write * 10 * d) == 0);
}

/// The Fast-mode factor, in tenths, that `tier` puts on the input, cached
/// and output rates of `model`.
pub open spec fn tier_factor(model: Seq<char>, tier: ServiceTier) -> int {
    if tier == ServiceTier::Fast && spec_fast_multiplier(spec_price_entry(model).unwrap().0) is Some {
        spec_fast_multiplier(spec_price_entry(model).unwrap().0).unwrap() as int
    } else {
        10
    }
}

/// Whether `usage` puts a long-context model on its higher rates.
pub open spec fn on_long_context(usage: Usage, model: Seq<char>) -> bool {
    spec_price_entry(model).unwrap().1.long_context && usage.input > LONG_CONTEXT_THRESHOLD
}

/// What each token costs, in cost units: a usage `b` that has `k` more
/// tokens of one kind than `a`, and is on the same side of the long-context
/// threshold, costs `k` times that kind's table rate more.  One table unit
/// (a thousandth of a dollar per million tokens) is 100 cost units per
/// token.  Uncached input, cached input and output take the Fast factor;
/// cache writes never do.  On long context, input, cached input and cache
/// writes cost twice their rate and output one and a half times.
pub proof fn lemma_cost_per_token(a: Usage, b: Usage, model: Seq<char>, tier: ServiceTier, k: int)
    requires
        spec_price_entry(model) is Some,
        0 <= k,
        on_long_context(a, model) == on_long_context(b, model),
        a.reasoning == b.reasoning,
    ensures
        ({
            let p = spec_price_entry(model).unwrap().1;
            let f = tier_factor(model, tier);
            let long = on_long_context(a, model);
            let diff = spec_cost(b, model, tier).unwrap() - spec_cost(a, model, tier).unwrap();
            &&& (b.output == a.output + k && b.input == a.input && b.cached == a.cached
                && b.cache_write == a.cache_write) ==> diff == k * p.output * f * (if long {
                15int
            } else {
                10int
            })
            &&& (b.cache_write == a.cache_write + k && b.input == a.input + k && b.cached == a.cached
                && b.output == a.output) ==> diff == k * p.cache_write * 10 * (if long {
                20int
            } else {
                10int
            })
            &&& (b.cached == a.cached + k && b.input == a.input + k && b.cache_write == a.cache_write
                && b.output == a.output) ==> diff == k * p.cached * f * (if long {
                20int
            } else {
                10int
            })
            &&& (b.input == a.input + k && a.input >= a.cached + a.cache_write && b.cached == a.cached
                && b.cache_write == a.cache_write && b.output == a.output) ==> diff == k * p.input * f * (
            if long {
                20int
            } else {
                10int
            })
        }),
{
    let p = spec_price_entry(model).unwrap().1;
    let f = tier_factor(model, tier);
    let long = on_long_context(a, model);
    let d: int = if long { 20 } else { 10 };
    let o: int = if long { 15 } else { 10 };
    let ua: int = if a.input >= a.cached + a.cache_write { a.input - a.cached - a.cache_write } else { 0 };
    let ub: int = if b.input >= b.cached + b.cache_write { b.input - b.cached - b.cache_write } else { 0 };
    assert(spec_cost(a, model, tier) == Some(ua * (p.input * f * d) + a.cached * (p.cached * f * d)
        + a.cache_write * (p.cache_write * 10 * d) + a.output * (p.output * f * o)));
    assert(spec_cost(b, model, tier) == Some(ub * (p.input * f * d) + b.cached * (p.cached * f * d)
        + b.cache_write * (p.cache_write * 10 * d) + b.output * (p.output * f * o)));
    lemma_extra_tokens(a.output as int, k, p.output * f * o);
    lemma_extra_tokens(a.cache_write as int, k, p.cache_write * 10 * d);
    lemma_extra_tokens(a.cached as int, k, p.cached * f * d);
    lemma_extra_tokens(ua, k, p.input * f * d);
    assert(k * (p.output * f * o) == k * p.output * f * o) by (nonlinear_arith);
    assert(k * (p.cache_write * 10 * d) == k * p.cache_write * 10 * d) by (nonlinear_arith);
    assert(k * (p.cached * f * d) == k * p.cached * f * d) by (nonlinear_arith);
    assert(k * (p.input * f * d) == k * p.input * f * d) by (nonlinear_arith);
}

proof fn lemma_extra_tokens(x: int, k: int, rate: int)
    ensures
        (x + k) * rate - x * rate == k * rate,
{
    assert((x + k) * rate - x * rate == k * rate) by (nonlinear_arith);
}

proof fn lemma_scaled_term(x: int, p: int, m: int, d: int)
    ensures
        x * (p * m * d) * 10 == x * (p * 10 * d) * m,
{
    assert(x * (p * m * d) * 10 == x * (p * 10 * d) * m) by (nonlinear_arith);
}

} // verus!
