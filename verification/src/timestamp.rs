//! Parsing of the UTC timestamps that Codex writes on session events, such as
//! `2026-05-24T12:00:00.000Z`.

use vstd::prelude::*;
use crate::calendar::{last_day_of_month, spec_last_day_of_month};

verus! {

/// An ASCII decimal digit.
pub open spec fn is_digit(byte: u8) -> bool {
    48 <= byte <= 57
}

/// The decimal value of the digits in `s`, read left to right.
pub open spec fn digits_value(s: Seq<u8>) -> int
    decreases s.len(),
{
    if s.len() == 0 {
        0
    } else {
        digits_value(s.drop_last()) * 10 + (s.last() - 48)
    }
}

/// Every byte of `s` is a decimal digit.
pub open spec fn all_digits(s: Seq<u8>) -> bool {
    forall|i: int| 0 <= i < s.len() ==> is_digit(#[trigger] s[i])
}

/// The longest prefix of `s` made of decimal digits.
pub open spec fn digit_prefix(s: Seq<u8>) -> Seq<u8>
    decreases s.len(),
{
    if s.len() == 0 || !is_digit(s[0]) {
        seq![]
    } else {
        seq![s[0]] + digit_prefix(s.drop_first())
    }
}

/// What `parse_timestamp_part` returns: `None` for a range outside `bytes` or
/// one that holds a byte that is not a digit, else the range's decimal value.
pub open spec fn spec_timestamp_part(bytes: Seq<u8>, start: int, end: int) -> Option<u16> {
    if start > end || end > bytes.len() {
        None
    } else if all_digits(bytes.subrange(start, end)) {
        Some(digits_value(bytes.subrange(start, end)) as u16)
    } else {
        None
    }
}

proof fn lemma_digits_value_push(s: Seq<u8>, b: u8)
    ensures
        digits_value(s.push(b)) == digits_value(s) * 10 + (b - 48),
{
    assert(s.push(b).drop_last() =~= s);
}

proof fn lemma_digits_value_nonneg(s: Seq<u8>)
    requires
        all_digits(s),
    ensures
        digits_value(s) >= 0,
    decreases s.len(),
{
    if s.len() > 0 {
        assert(all_digits(s.drop_last()));
        lemma_digits_value_nonneg(s.drop_last());
    }
}

proof fn lemma_digits_value_prefix_bound(s: Seq<u8>, i: int)
    requires
        all_digits(s),
        0 <= i <= s.len(),
    ensures
        digits_value(s.subrange(0, i)) <= digits_value(s),
    decreases s.len() - i,
{
    if i < s.len() {
        lemma_digits_value_prefix_bound(s, i + 1);
        assert(s.subrange(0, i + 1).drop_last() =~= s.subrange(0, i));
        assert(all_digits(s.subrange(0, i)));
        lemma_digits_value_nonneg(s.subrange(0, i));
        assert(is_digit(s[i]));
        assert(s.subrange(0, i + 1).last() == s[i]);
    } else {
        assert(s.subrange(0, i) =~= s);
    }
}

/// The digit bytes of a range that `parse_timestamp_part` reads fit in `u16`
/// while it accumulates them.
pub open spec fn timestamp_part_fits(bytes: Seq<u8>, start: int, end: int) -> bool {
    start <= end <= bytes.len() ==> digits_value(digit_prefix(bytes.subrange(start, end)))
        <= u16::MAX
}

proof fn lemma_digit_prefix_of_digits(s: Seq<u8>, i: int)
    requires
        0 <= i <= s.len(),
        all_digits(s.subrange(0, i)),
    ensures
        i < s.len() && is_digit(s[i]) ==> digit_prefix(s).len() > i,
        i == s.len() || !is_digit(s[i]) ==> digit_prefix(s) =~= s.subrange(0, i),
        digit_prefix(s).len() >= i,
        digit_prefix(s).subrange(0, i) =~= s.subrange(0, i),
        all_digits(digit_prefix(s)),
        digit_prefix(s).len() <= s.len(),
        digit_prefix(s) =~= s.subrange(0, digit_prefix(s).len() as int),
    decreases i,
{
    lemma_digit_prefix_shape(s);
    if i > 0 {
        assert(s.drop_first().subrange(0, i - 1) =~= s.subrange(0, i).drop_first());
        lemma_digit_prefix_of_digits(s.drop_first(), i - 1);
        assert(is_digit(s.subrange(0, i)[0]));
    } else {
        if s.len() > 0 && is_digit(s[0]) {
        }
    }
}

proof fn lemma_digit_prefix_shape(s: Seq<u8>)
    ensures
        all_digits(digit_prefix(s)),
        digit_prefix(s).len() <= s.len(),
        digit_prefix(s) =~= s.subrange(0, digit_prefix(s).len() as int),
        digit_prefix(s).len() < s.len() ==> !is_digit(s[digit_prefix(s).len() as int]),
    decreases s.len(),
{
    if s.len() > 0 && is_digit(s[0]) {
        lemma_digit_prefix_shape(s.drop_first());
        assert forall|i: int| 0 <= i < digit_prefix(s).len() implies is_digit(
            #[trigger] digit_prefix(s)[i],
        ) by {
            if i > 0 {
                assert(digit_prefix(s)[i] == digit_prefix(s.drop_first())[i - 1]);
            }
        }
    }
}

/// Reads `bytes[start..end]` as a decimal number: `None` when the range lies
/// outside `bytes` or holds a byte that is not an ASCII digit.
pub fn parse_timestamp_part(bytes: &[u8], start: usize, end: usize) -> (r: Option<u16>)
    requires
        timestamp_part_fits(bytes@, start as int, end as int),
    ensures
        r == spec_timestamp_part(bytes@, start as int, end as int),
{
    if start > end || end > bytes.len() {
        return None;
    }
    let ghost span = bytes@.subrange(start as int, end as int);
    proof {
        lemma_digit_prefix_shape(span);
    }
    let mut value: u16 = 0;
    let mut i = start;
    while i < end
        invariant
            start <= i <= end <= bytes.len(),
            span == bytes@.subrange(start as int, end as int),
            all_digits(span.subrange(0, i - start)),
            value == digits_value(span.subrange(0, i - start)),
            digits_value(digit_prefix(span)) <= u16::MAX,
            all_digits(digit_prefix(span)),
            digit_prefix(span) =~= span.subrange(0, digit_prefix(span).len() as int),
            digit_prefix(span).len() < span.len() ==> !is_digit(
                span[digit_prefix(span).len() as int],
            ),
        decreases end - i,
    {
        let byte = bytes[i];
        if !(byte >= 48 && byte <= 57) {
            proof {
                assert(span[i - start] == byte);
            }
            return None;
        }
        proof {
            lemma_digit_prefix_of_digits(span, i - start);
            assert(span.subrange(0, i - start + 1) =~= span.subrange(0, i - start).push(byte));
            lemma_digits_value_push(span.subrange(0, i - start), byte);
            assert(digit_prefix(span).subrange(0, i - start + 1) =~= span.subrange(
                0,
                i - start + 1,
            ));
            lemma_digits_value_prefix_bound(digit_prefix(span), i - start + 1);
            assert(all_digits(span.subrange(0, i - start + 1)));
        }
        value = value * 10 + (byte - 48) as u16;
        i = i + 1;
    }
    assert(span.subrange(0, i - start) =~= span);
    Some(value)
}

/// A UTC date and time of day, as read from a timestamp.
#[derive(Clone, Copy, Debug, PartialEq, Eq, Structural)]
pub struct UtcTime {
    pub year: u16,
    pub month: u16,
    pub day: u16,
    pub hour: u16,
    pub minute: u16,
    pub second: u16,
}

/// The UTC time that a timestamp's bytes hold: `YYYY-MM-DDThh:mm:ss`, any
/// further bytes, and a final `Z`, with a real calendar date and time of day.
pub open spec fn spec_utc_time(bytes: Seq<u8>) -> Option<UtcTime> {
    if bytes.len() < 20 || bytes[4] != 45 || bytes[7] != 45 || bytes[10] != 84 || bytes[13] != 58
        || bytes[16] != 58 || bytes.last() != 90 {
        None
    } else {
        match (
            spec_timestamp_part(bytes, 0, 4),
            spec_timestamp_part(bytes, 5, 7),
            spec_timestamp_part(bytes, 8, 10),
            spec_timestamp_part(bytes, 11, 13),
            spec_timestamp_part(bytes, 14, 16),
            spec_timestamp_part(bytes, 17, 19),
        ) {
            (Some(year), Some(month), Some(day), Some(hour), Some(minute), Some(second)) => {
                if 1 <= month <= 12 && 1 <= day <= spec_last_day_of_month(year as int, month as int)
                    && hour <= 23 && minute <= 59 && second <= 59 {
                    Some(UtcTime { year, month, day, hour, minute, second })
                } else {
                    None
                }
            },
            _ => None,
        }
    }
}

proof fn lemma_short_part_fits(bytes: Seq<u8>, start: int, end: int)
    requires
        0 <= start <= end <= bytes.len(),
        end - start <= 4,
    ensures
        timestamp_part_fits(bytes, start, end),
{
    let span = bytes.subrange(start, end);
    lemma_digit_prefix_shape(span);
    let p = digit_prefix(span);
    lemma_digits_value_bound(p);
    lemma_pow10_monotone(p.len(), 4);
    reveal_with_fuel(pow10, 5);
}

proof fn lemma_pow10_monotone(a: nat, b: nat)
    requires
        a <= b,
    ensures
        1 <= pow10(a) <= pow10(b),
    decreases b,
{
    if b > 0 {
        if a < b {
            lemma_pow10_monotone(a, (b - 1) as nat);
        } else {
            lemma_pow10_monotone((a - 1) as nat, (b - 1) as nat);
        }
    }
}

proof fn lemma_digits_value_bound(s: Seq<u8>)
    requires
        all_digits(s),
    ensures
        0 <= digits_value(s) < pow10(s.len()),
    decreases s.len(),
{
    if s.len() > 0 {
        assert(all_digits(s.drop_last()));
        lemma_digits_value_bound(s.drop_last());
        assert(is_digit(s[s.len() - 1]));
    }
}

/// Ten to the power `n`.
pub open spec fn pow10(n: nat) -> int
    decreases n,
{
    if n == 0 {
        1
    } else {
        10 * pow10((n - 1) as nat)
    }
}

/// Reads the UTC time of a timestamp such as `2026-05-24T12:00:00.000Z`, from
/// its UTF-8 bytes.  Fractional seconds are ignored; the date must exist and
/// the time of day must be a real one.
pub fn utc_time_from_timestamp(bytes: &[u8]) -> (r: Option<UtcTime>)
    ensures
        r == spec_utc_time(bytes@),
{
    if bytes.len() < 20 || bytes[4] != 45 || bytes[7] != 45 || bytes[10] != 84 || bytes[13] != 58
        || bytes[16] != 58 || bytes[bytes.len() - 1] != 90 {
        return None;
    }
    proof {
        lemma_short_part_fits(bytes@, 0, 4);
        lemma_short_part_fits(bytes@, 5, 7);
        lemma_short_part_fits(bytes@, 8, 10);
        lemma_short_part_fits(bytes@, 11, 13);
        lemma_short_part_fits(bytes@, 14, 16);
        lemma_short_part_fits(bytes@, 17, 19);
    }
    let year = match parse_timestamp_part(bytes, 0, 4) {
        Some(v) => v,
        None => return None,
    };
    let month = match parse_timestamp_part(bytes, 5, 7) {
        Some(v) => v,
        None => return None,
    };
    let day = match parse_timestamp_part(bytes, 8, 10) {
        Some(v) => v,
        None => return None,
    };
    let hour = match parse_timestamp_part(bytes, 11, 13) {
        Some(v) => v,
        None => return None,
    };
    let minute = match parse_timestamp_part(bytes, 14, 16) {
        Some(v) => v,
        None => return None,
    };
    let second = match parse_timestamp_part(bytes, 17, 19) {
        Some(v) => v,
        None => return None,
    };
    if !(1 <= month && month <= 12) || day == 0 || day > last_day_of_month(year, month) || hour > 23
        || minute > 59 || second > 59 {
        return None;
    }
    Some(UtcTime { year, month, day, hour, minute, second })
}

} // verus!
