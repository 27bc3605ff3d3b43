//! The texts that the diagnostic output and the tray show: dates, compact
//! token counts, day counts, and the two languages of the interface.

use vstd::prelude::*;
use vstd::arithmetic::power2::pow2;
use crate::calendar::DateKey;
use crate::config::Plan;
use crate::text::{chars_equal, chars_of, string_from_chars};

verus! {

broadcast use vstd::string::group_string_axioms;

/// The decimal digit of `d` (0..=9).
pub open spec fn digit_char(d: nat) -> char {
    if d == 0 {
        '0'
    } else if d == 1 {
        '1'
    } else if d == 2 {
        '2'
    } else if d == 3 {
        '3'
    } else if d == 4 {
        '4'
    } else if d == 5 {
        '5'
    } else if d == 6 {
        '6'
    } else if d == 7 {
        '7'
    } else if d == 8 {
        '8'
    } else {
        '9'
    }
}

/// The decimal numeral of `n`, without leading zeros.
pub open spec fn decimal(n: nat) -> Seq<char>
    decreases n,
{
    if n < 10 {
        seq![digit_char(n)]
    } else {
        decimal(n / 10).push(digit_char(n % 10))
    }
}

/// The decimal numeral of `n`, with zeros in front up to `width` digits.
pub open spec fn padded(n: nat, width: nat) -> Seq<char> {
    let digits = decimal(n);
    if digits.len() < width {
        Seq::new((width - digits.len()) as nat, |i: int| '0') + digits
    } else {
        digits
    }
}

fn digit(d: u128) -> (r: char)
    requires
        d < 10,
    ensures
        r == digit_char(d as nat),
{
    if d == 0 {
        '0'
    } else if d == 1 {
        '1'
    } else if d == 2 {
        '2'
    } else if d == 3 {
        '3'
    } else if d == 4 {
        '4'
    } else if d == 5 {
        '5'
    } else if d == 6 {
        '6'
    } else if d == 7 {
        '7'
    } else if d == 8 {
        '8'
    } else {
        '9'
    }
}

/// Appends the decimal numeral of `n` to `out`.
pub fn push_decimal(out: &mut Vec<char>, n: u128)
    ensures
        final(out)@ == old(out)@ + decimal(n as nat),
    decreases n,
{
    if n >= 10 {
        push_decimal(out, n / 10);
    }
    out.push(digit(n % 10));
    proof {
        if n >= 10 {
            assert(decimal(n as nat) == decimal((n / 10) as nat).push(digit_char((n % 10) as nat)));
        } else {
            assert(n % 10 == n);
        }
    }
}

/// Appends the decimal numeral of `n`, padded with zeros to `width` digits.
pub fn push_padded(out: &mut Vec<char>, n: u128, width: usize)
    ensures
        final(out)@ == old(out)@ + padded(n as nat, width as nat),
{
    let mut digits: Vec<char> = Vec::new();
    push_decimal(&mut digits, n);
    assert(digits@ =~= decimal(n as nat));
    let ghost start = out@;
    if digits.len() < width {
        let zeros = width - digits.len();
        let mut i: usize = 0;
        while i < zeros
            invariant
                i <= zeros,
                out@ == start + Seq::new(i as nat, |j: int| '0'),
            decreases zeros - i,
        {
            out.push('0');
            i = i + 1;
            assert(out@ =~= start + Seq::new(i as nat, |j: int| '0'));
        }
    }
    let ghost middle = out@;
    let mut k: usize = 0;
    while k < digits.len()
        invariant
            k <= digits.len(),
            out@ == middle + digits@.take(k as int),
        decreases digits.len() - k,
    {
        out.push(digits[k]);
        k = k + 1;
        assert(out@ =~= middle + digits@.take(k as int));
    }
    assert(digits@.take(k as int) =~= digits@);
    assert(out@ =~= old(out)@ + padded(n as nat, width as nat));
}

/// A date as `YYYY-MM-DD`, each part padded with zeros.
pub open spec fn spec_format_date(date: DateKey) -> Seq<char> {
    padded(date.year as nat, 4) + seq!['-'] + padded(date.month as nat, 2) + seq!['-'] + padded(
        date.day as nat,
        2,
    )
}

/// A date as `YYYY-MM-DD`, each part padded with zeros.
pub fn format_date(date: DateKey) -> (r: String)
    ensures
        r@ == spec_format_date(date),
{
    let mut out: Vec<char> = Vec::new();
    push_padded(&mut out, date.year as u128, 4);
    out.push('-');
    push_padded(&mut out, date.month as u128, 2);
    out.push('-');
    push_padded(&mut out, date.day as u128, 2);
    assert(out@ =~= spec_format_date(date));
    string_from_chars(out.as_slice())
}

/// `n / d` rounded to the nearest integer, ties to the even one.
pub open spec fn rne(n: nat, d: nat) -> nat {
    let q = n / d;
    let r = n % d;
    if 2 * r < d {
        q
    } else if 2 * r > d {
        q + 1
    } else if q % 2 == 0 {
        q
    } else {
        q + 1
    }
}

/// `n / d` rounded to the nearest integer, ties to the even one.
pub fn round_half_even(n: u128, d: u128) -> (r: u128)
    requires
        d > 0,
        n < u128::MAX,
    ensures
        r == rne(n as nat, d as nat),
        r <= n / d + 1,
{
    let q = n / d;
    let rem = n % d;
    assert(q <= n);
    if rem < d - rem {
        q
    } else if rem > d - rem {
        q + 1
    } else if q % 2 == 0 {
        q
    } else {
        q + 1
    }
}

/// The smallest `e` from `from` up to 11 with `v < 2^(53 + e)`.
pub open spec fn int_binade(v: nat, from: nat) -> nat
    decreases 11 - from,
{
    if from >= 11 || v < pow2(53 + from) {
        from
    } else {
        int_binade(v, from + 1)
    }
}

/// The value of `v as f64` for `v < 2^64`: `v` itself below `2^53`, else `v`
/// rounded to 53 significant bits, ties to an even significand.
pub open spec fn u64_as_f64(v: nat) -> nat {
    let e = int_binade(v, 0);
    if e == 0 {
        v
    } else {
        rne(v, pow2(e)) * pow2(e)
    }
}

/// The smallest `e` from `from` up to 11 with `n < d * 2^(53 + e)`.
pub open spec fn quotient_binade(n: nat, d: nat, from: int) -> int
    decreases 11 - from,
{
    if from >= 11 || n < d * pow2((53 + from) as nat) {
        from
    } else {
        quotient_binade(n, d, from + 1)
    }
}

/// The `f64` nearest to `n / d` (ties to an even significand), for
/// `1 <= n / d < 2^64`, as a fraction: numerator and denominator.
pub open spec fn nearest_f64(n: nat, d: nat) -> (nat, nat) {
    let e = quotient_binade(n, d, -52);
    if e < 0 {
        (rne(n * pow2((-e) as nat), d), pow2((-e) as nat))
    } else {
        (rne(n, d * pow2(e as nat)) * pow2(e as nat), 1)
    }
}

/// `10^p` for the precisions used here.
pub open spec fn ten_to(p: nat) -> nat
    decreases p,
{
    if p == 0 {
        1
    } else {
        10 * ten_to((p - 1) as nat)
    }
}

/// `v as f64 / unit`, computed in `f64`, then rounded to `places` decimals
/// (ties to even), as an integer count of `10^-places`.
pub open spec fn scaled_count(v: nat, unit: nat, places: nat) -> nat {
    let (num, den) = nearest_f64(u64_as_f64(v), unit);
    rne(num * ten_to(places), den)
}

/// A count of `10^-places` as a decimal numeral with `places` decimals.
pub open spec fn fixed_point(count: nat, places: nat) -> Seq<char> {
    decimal(count / ten_to(places)) + seq!['.'] + padded(count % ten_to(places), places)
}

proof fn lemma_pow2_step(k: nat)
    ensures
        pow2(k + 1) == 2 * pow2(k),
        pow2(k) > 0,
{
    vstd::arithmetic::power2::lemma_pow2_unfold(k + 1);
    vstd::arithmetic::power2::lemma_pow2_pos(k);
}

proof fn lemma_pow2_le(a: nat, b: nat)
    requires
        a <= b,
    ensures
        pow2(a) <= pow2(b),
{
    if a < b {
        vstd::arithmetic::power2::lemma_pow2_strictly_increases(a, b);
    }
}

fn u64_f64_value(v: u64) -> (r: u128)
    ensures
        r == u64_as_f64(v as nat),
        r <= 0x1_0000_0000_0000_0800,
{
    proof {
        vstd::arithmetic::power2::lemma2_to64();
        vstd::arithmetic::power2::lemma2_to64_rest();
    }
    let mut e: u32 = 0;
    let mut limit: u128 = 0x20_0000_0000_0000;
    let mut scale: u128 = 1;
    while e < 11 && !((v as u128) < limit)
        invariant
            e <= 11,
            limit == pow2((53 + e) as nat),
            scale == pow2(e as nat),
            limit <= 0x1_0000_0000_0000_0000,
            scale <= 0x800,
            int_binade(v as nat, 0) == int_binade(v as nat, e as nat),
            pow2(53) == 0x20_0000_0000_0000,
            pow2(64) == 0x1_0000_0000_0000_0000,
            pow2(11) == 0x800,
        decreases 11 - e,
    {
        proof {
            lemma_pow2_step((53 + e) as nat);
            lemma_pow2_step(e as nat);
            lemma_pow2_le((53 + e + 1) as nat, 64);
            lemma_pow2_le((e + 1) as nat, 11);
        }
        e = e + 1;
        limit = limit * 2;
        scale = scale * 2;
    }
    assert(int_binade(v as nat, 0) == e);
    if e == 0 {
        v as u128
    } else {
        let q = round_half_even(v as u128, scale);
        assert(q * scale <= (v as u128 / scale + 1) * scale) by (nonlinear_arith)
            requires
                q <= v as u128 / scale + 1,
                scale > 0,
        ;
        assert((v as u128 / scale + 1) * scale <= v as u128 + scale) by (nonlinear_arith)
            requires
                scale > 0,
        ;
        q * scale
    }
}

fn nearest_f64_parts(n: u128, d: u128) -> (r: (u128, u128))
    requires
        1 <= d <= 1_000_000,
        n <= 0x1_0000_0000_0000_0800,
    ensures
        r.0 == nearest_f64(n as nat, d as nat).0,
        r.1 == nearest_f64(n as nat, d as nat).1,
        r.0 <= 0x2_0000_0000_0000_0000,
        r.1 >= 1,
{
    proof {
        vstd::arithmetic::power2::lemma2_to64();
        vstd::arithmetic::power2::lemma2_to64_rest();
    }
    let mut e: i32 = -52;
    let mut limit: u128 = 2;
    assert(d * limit <= 0x10_0000 * 0x1_0000_0000_0000_0000) by (nonlinear_arith)
        requires
            d <= 1_000_000,
            limit == 2,
    ;
    while e < 11 && !(n < d * limit)
        invariant
            -52 <= e <= 11,
            limit == pow2((53 + e) as nat),
            limit <= 0x1_0000_0000_0000_0000,
            d * limit <= 0x10_0000 * 0x1_0000_0000_0000_0000,
            1 <= d <= 1_000_000,
            quotient_binade(n as nat, d as nat, -52) == quotient_binade(n as nat, d as nat, e as int),
            pow2(64) == 0x1_0000_0000_0000_0000,
            pow2(1) == 2,
        decreases 11 - e,
    {
        proof {
            lemma_pow2_step((53 + e) as nat);
            lemma_pow2_le((53 + e + 1) as nat, 64);
        }
        e = e + 1;
        limit = limit * 2;
        assert(d * limit <= 0x10_0000 * 0x1_0000_0000_0000_0000) by (nonlinear_arith)
            requires
                d <= 1_000_000,
                limit <= 0x1_0000_0000_0000_0000,
        ;
    }
    assert(quotient_binade(n as nat, d as nat, -52) == e as int);
    if e < 0 {
        let k: u32 = (0 - e) as u32;
        let mut scale: u128 = 1;
        let mut i: u32 = 0;
        while i < k
            invariant
                i <= k <= 52,
                scale == pow2(i as nat),
                scale <= 0x10_0000_0000_0000,
                pow2(52) == 0x10_0000_0000_0000,
            decreases k - i,
        {
            proof {
                lemma_pow2_step(i as nat);
                lemma_pow2_le((i + 1) as nat, 52);
            }
            scale = scale * 2;
            i = i + 1;
        }
        assert(n * scale <= 0x1_0000_0000_0000_0800 * 0x10_0000_0000_0000) by (nonlinear_arith)
            requires
                n <= 0x1_0000_0000_0000_0800,
                scale <= 0x10_0000_0000_0000,
        ;
        proof {
            vstd::arithmetic::power2::lemma_pow2_adds((53 + e) as nat, k as nat);
            assert(n < d * limit);
            assert(n * scale < d * limit * scale) by (nonlinear_arith)
                requires
                    n < d * limit,
                    scale > 0,
            ;
            assert(limit * scale == pow2(53));
            assert(d * limit * scale == d * pow2(53)) by (nonlinear_arith)
                requires
                    limit * scale == pow2(53),
            ;
            assert((n as int * scale as int) / (d as int) < pow2(53)) by (nonlinear_arith)
                requires
                    n * scale < d * pow2(53),
                    d > 0,
            ;
        }
        let m = round_half_even(n * scale, d);
        (m, scale)
    } else {
        let k: u32 = e as u32;
        let mut scale: u128 = 1;
        let mut i: u32 = 0;
        while i < k
            invariant
                i <= k <= 11,
                scale == pow2(i as nat),
                1 <= scale <= 0x800,
                pow2(11) == 0x800,
            decreases k - i,
        {
            proof {
                lemma_pow2_step(i as nat);
                lemma_pow2_le((i + 1) as nat, 11);
            }
            scale = scale * 2;
            i = i + 1;
        }
        assert(d * scale <= 1_000_000 * 0x800 && d * scale > 0) by (nonlinear_arith)
            requires
                1 <= d <= 1_000_000,
                1 <= scale <= 0x800,
        ;
        let m = round_half_even(n, d * scale);
        let ghost q: int = (n as int) / (d as int * scale as int);
        assert(m * scale <= (q + 1) * scale) by (nonlinear_arith)
            requires
                m <= q + 1,
                scale > 0,
        ;
        assert((q + 1) * scale <= n + scale) by (nonlinear_arith)
            requires
                scale > 0,
                d >= 1,
                q == (n as int) / (d as int * scale as int),
                n >= 0,
        ;
        (m * scale, 1)
    }
}

fn ten_pow(places: u32) -> (r: u128)
    requires
        places <= 2,
    ensures
        r == ten_to(places as nat),
        1 <= r <= 100,
{
    reveal_with_fuel(ten_to, 3);
    if places == 0 {
        1
    } else if places == 1 {
        10
    } else {
        100
    }
}

fn scaled_count_of(v: u64, unit: u128, places: u32) -> (r: u128)
    requires
        unit == 1000 || unit == 1_000_000,
        places <= 2,
    ensures
        r == scaled_count(v as nat, unit as nat, places as nat),
{
    let x = u64_f64_value(v);
    let (num, den) = nearest_f64_parts(x, unit);
    let p10 = ten_pow(places);
    assert(num * p10 <= 0x2_0000_0000_0000_0000 * 100) by (nonlinear_arith)
        requires
            num <= 0x2_0000_0000_0000_0000,
            p10 <= 100,
    ;
    round_half_even(num * p10, den)
}

/// A token count as the interface shows it: below a thousand as it is;
/// below a million in thousands with one decimal and `K`; else in millions
/// with `million_places` decimals and `M`.  The quotient and its rounding
/// are those of `f64`: the count is converted to `f64`, divided in `f64`,
/// and the quotient is printed rounded to the nearest decimal, ties to even.
pub open spec fn spec_compact(v: nat, million_places: nat) -> Seq<char> {
    if v >= 1_000_000 {
        fixed_point(scaled_count(v, 1_000_000, million_places), million_places) + seq!['M']
    } else if v >= 1000 {
        fixed_point(scaled_count(v, 1000, 1), 1) + seq!['K']
    } else {
        decimal(v)
    }
}

/// A token count in thousands or millions with `million_places` decimals
/// for millions (1 or 2).
pub fn compact_with(value: u64, million_places: u32) -> (r: String)
    requires
        1 <= million_places <= 2,
    ensures
        r@ == spec_compact(value as nat, million_places as nat),
{
    let mut out: Vec<char> = Vec::new();
    if value >= 1000 {
        let (unit, places, suffix) = if value >= 1_000_000 {
            (1_000_000u128, million_places, 'M')
        } else {
            (1000u128, 1u32, 'K')
        };
        let count = scaled_count_of(value, unit, places);
        let p10 = ten_pow(places);
        push_decimal(&mut out, count / p10);
        out.push('.');
        push_padded(&mut out, count % p10, places as usize);
        out.push(suffix);
    } else {
        push_decimal(&mut out, value as u128);
    }
    assert(out@ =~= spec_compact(value as nat, million_places as nat));
    string_from_chars(out.as_slice())
}

/// A token count in thousands (`K`) or millions (`M`) with one decimal, as
/// the diagnostic output prints it.
pub fn compact(value: u64) -> (r: String)
    ensures
        r@ == spec_compact(value as nat, 1),
{
    compact_with(value, 1)
}

/// The language of the interface.
#[derive(Clone, Copy, Debug, PartialEq, Eq, Structural)]
pub enum Lang {
    En,
    Es,
}

/// The Windows primary language id of Spanish.
pub const SPANISH_PRIMARY_LANGUAGE: u16 = 0x000a;

/// The language that a setting selects: `en` and `es` name one; anything
/// else follows the user's Windows interface language `ui_language` (a
/// LANGID), Spanish when its primary language is Spanish, else English.
pub open spec fn spec_lang_for_setting(language: Seq<char>, ui_language: u16) -> Lang {
    if language == "en"@ {
        Lang::En
    } else if language == "es"@ {
        Lang::Es
    } else if ui_language & 0x03ff == SPANISH_PRIMARY_LANGUAGE {
        Lang::Es
    } else {
        Lang::En
    }
}

/// The language that the setting `language` selects, given the Windows
/// interface language `ui_language`.
pub fn lang_for_setting(language: &str, ui_language: u16) -> (r: Lang)
    ensures
        r == spec_lang_for_setting(language@, ui_language),
{
    let text = chars_of(language);
    if chars_equal(&text, &chars_of("en")) {
        Lang::En
    } else if chars_equal(&text, &chars_of("es")) {
        Lang::Es
    } else if ui_language & 0x03ff == SPANISH_PRIMARY_LANGUAGE {
        Lang::Es
    } else {
        Lang::En
    }
}

/// `en` and `es` choose their language whatever Windows uses; any other
/// setting follows the primary language of the Windows interface language
/// (the low ten bits of the LANGID): Spanish, of any region, for primary
/// language 10, English for every other.
pub proof fn lemma_language_follows_setting_then_primary_language(language: Seq<char>, ui_language: u16)
    ensures
        language == "en"@ ==> spec_lang_for_setting(language, ui_language) == Lang::En,
        language == "es"@ ==> spec_lang_for_setting(language, ui_language) == Lang::Es,
        language != "en"@ && language != "es"@ ==> spec_lang_for_setting(language, ui_language) == if ui_language % 1024 == 10 {
            Lang::Es
        } else {
            Lang::En
        },
{
    reveal_strlit("en");
    reveal_strlit("es");
    assert("en"@ != "es"@) by {
        assert("en"@[1] != "es"@[1]);
    }
    assert(ui_language & 0x03ff == ui_language % 1024) by (bit_vector);
}

/// Two interface languages with the same primary language (the same low ten
/// bits, such as Spanish of Spain and of Mexico) select the same language.
pub proof fn lemma_language_ignores_region(language: Seq<char>, a: u16, b: u16)
    requires
        a % 1024 == b % 1024,
    ensures
        spec_lang_for_setting(language, a) == spec_lang_for_setting(language, b),
{
    lemma_language_follows_setting_then_primary_language(language, a);
    lemma_language_follows_setting_then_primary_language(language, b);
}

/// The text for `lang` of a pair of translations.
pub fn t(lang: Lang, en: &'static str, es: &'static str) -> (r: &'static str)
    ensures
        r == if lang == Lang::Es {
            es
        } else {
            en
        },
{
    if lang == Lang::Es {
        es
    } else {
        en
    }
}

/// The plan's name in `lang`.
pub fn plan_name(plan: &Plan, lang: Lang) -> (r: &'static str)
    ensures
        r == if lang == Lang::Es {
            plan.es
        } else {
            plan.en
        },
{
    t(lang, plan.en, plan.es)
}

/// The plan's usage limits in `lang`.
pub fn plan_limit(plan: &Plan, lang: Lang) -> (r: &'static str)
    ensures
        r == if lang == Lang::Es {
            plan.limits_es
        } else {
            plan.limits_en
        },
{
    t(lang, plan.limits_en, plan.limits_es)
}

/// At most the first `max` characters of `value`.
pub fn truncate_chars(value: &str, max: usize) -> (r: String)
    ensures
        r@ == value@.take(if max < value@.len() {
            max as int
        } else {
            value@.len() as int
        }),
{
    let chars = chars_of(value);
    let n = if max < chars.len() {
        max
    } else {
        chars.len()
    };
    let mut out: Vec<char> = Vec::new();
    let mut i: usize = 0;
    while i < n
        invariant
            i <= n <= chars.len(),
            chars@ == value@,
            out@ == chars@.take(i as int),
        decreases n - i,
    {
        out.push(chars[i]);
        i = i + 1;
        assert(out@ =~= chars@.take(i as int));
    }
    string_from_chars(out.as_slice())
}

/// The header that counts the days to the next renewal: `1 day left`, or
/// the count (at least 0) and `days left`, in `lang`.
pub open spec fn spec_cycle_days_header_text(lang: Lang, days_left: i32) -> Seq<char> {
    if days_left == 1 {
        if lang == Lang::Es {
            "1 día restante"@
        } else {
            "1 day left"@
        }
    } else {
        decimal(if days_left < 0 {
            0nat
        } else {
            days_left as nat
        }) + seq![' '] + if lang == Lang::Es {
            "días restantes"@
        } else {
            "days left"@
        }
    }
}

/// The header that counts the days to the next renewal.
pub fn cycle_days_header_text(lang: Lang, days_left: i32) -> (r: String)
    ensures
        r@ == spec_cycle_days_header_text(lang, days_left),
{
    if days_left == 1 {
        return t(lang, "1 day left", "1 día restante").to_owned();
    }
    let mut out: Vec<char> = Vec::new();
    let count: u128 = if days_left < 0 {
        0
    } else {
        days_left as u128
    };
    push_decimal(&mut out, count);
    out.push(' ');
    let words = chars_of(t(lang, "days left", "días restantes"));
    let ghost start = out@;
    let mut i: usize = 0;
    while i < words.len()
        invariant
            i <= words.len(),
            out@ == start + words@.take(i as int),
        decreases words.len() - i,
    {
        out.push(words[i]);
        i = i + 1;
        assert(out@ =~= start + words@.take(i as int));
    }
    assert(words@.take(i as int) =~= words@);
    assert(out@ =~= spec_cycle_days_header_text(lang, days_left));
    string_from_chars(out.as_slice())
}

proof fn lemma_decimal_len(n: nat, k: nat)
    requires
        k >= 1,
        n < ten_to(k),
    ensures
        1 <= decimal(n).len() <= k,
    decreases k,
{
    if n >= 10 {
        assert(k >= 2) by {
            if k == 1 {
                reveal_with_fuel(ten_to, 2);
            }
        }
        assert(n / 10 < ten_to((k - 1) as nat));
        lemma_decimal_len(n / 10, (k - 1) as nat);
    }
}

/// A date with a year below 10000 and month and day below 100 prints as
/// `YYYY-MM-DD`: ten characters with dashes at positions 4 and 7.
pub proof fn lemma_format_date_shape(date: DateKey)
    requires
        date.year < 10000,
        date.month < 100,
        date.day < 100,
    ensures
        spec_format_date(date).len() == 10,
        spec_format_date(date)[4] == '-',
        spec_format_date(date)[7] == '-',
{
    reveal_with_fuel(ten_to, 5);
    lemma_decimal_len(date.year as nat, 4);
    lemma_decimal_len(date.month as nat, 2);
    lemma_decimal_len(date.day as nat, 2);
    assert(padded(date.year as nat, 4).len() == 4);
    assert(padded(date.month as nat, 2).len() == 2);
    assert(padded(date.day as nat, 2).len() == 2);
}

} // verus!
