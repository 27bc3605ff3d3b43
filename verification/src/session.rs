//! Reading Codex session logs: what each JSON line says, and the token
//! deltas that a session bills.
//!
//! Codex writes cumulative `total_token_usage` records.  A session bills only
//! what each record adds to the one before, so repeated records count once;
//! a record whose total drops below the previous one starts a new count.

use vstd::prelude::*;
use crate::json::{JsonValue, as_str, as_u64, get, get_path, json_as_str, json_as_u64, json_from_slice, json_get, json_path, parse_json};
use crate::text::{bytes_contain, contains_bytes};
use crate::timestamp::{UtcTime, spec_utc_time, utc_time_from_timestamp};
use crate::usage::{ServiceTier, Usage, spec_tier_from_text};

verus! {

/// A JSON member read as a non-negative integer, zero when it is missing or
/// is something else.
pub open spec fn member_u64_or_zero(value: JsonValue, key: Seq<char>) -> u64 {
    match json_get(value, key) {
        Some(member) => match json_as_u64(member) {
            Some(n) => n,
            None => 0,
        },
        None => 0,
    }
}

/// The token counts of a usage object: `None` unless it has an
/// `input_tokens` member; other counts missing or not integers count zero;
/// the total is input plus output, capped at `u64::MAX`.
pub open spec fn spec_usage_from_json(value: JsonValue) -> Option<Usage> {
    match json_get(value, "input_tokens"@) {
        None => None,
        Some(member) => {
            let input = match json_as_u64(member) {
                Some(n) => n,
                None => 0,
            };
            let output = member_u64_or_zero(value, "output_tokens"@);
            Some(
                Usage {
                    input,
                    cached: member_u64_or_zero(value, "cached_input_tokens"@),
                    cache_write: member_u64_or_zero(value, "cache_write_tokens"@),
                    output,
                    reasoning: member_u64_or_zero(value, "reasoning_output_tokens"@),
                    total: if input + output <= u64::MAX {
                        (input + output) as u64
                    } else {
                        u64::MAX
                    },
                },
            )
        },
    }
}

fn member_or_zero(value: &JsonValue, key: &str) -> (r: u64)
    ensures
        r == member_u64_or_zero(*value, key@),
{
    match get(value, key) {
        Some(member) => match as_u64(member) {
            Some(n) => n,
            None => 0,
        },
        None => 0,
    }
}

/// A usage object is read when it has an `input_tokens` member, and then
/// each count is the integer value of its own member (`input_tokens`,
/// `cached_input_tokens`, `cache_write_tokens`, `output_tokens`,
/// `reasoning_output_tokens`), zero when that member is missing or not an
/// integer; the total is input plus output, capped at `u64::MAX`.
pub proof fn lemma_usage_counts_are_its_members(value: JsonValue)
    ensures
        spec_usage_from_json(value) is Some <==> json_get(value, "input_tokens"@) is Some,
        spec_usage_from_json(value) matches Some(u) ==> {
            &&& json_get(value, "input_tokens"@) matches Some(m) ==> (json_as_u64(m) matches Some(n) ==> u.input == n)
            &&& json_get(value, "cached_input_tokens"@) matches Some(m) ==> (json_as_u64(m) matches Some(n) ==> u.cached == n)
            &&& json_get(value, "cache_write_tokens"@) matches Some(m) ==> (json_as_u64(m) matches Some(n) ==> u.cache_write == n)
            &&& json_get(value, "output_tokens"@) matches Some(m) ==> (json_as_u64(m) matches Some(n) ==> u.output == n)
            &&& json_get(value, "reasoning_output_tokens"@) matches Some(m) ==> (json_as_u64(m) matches Some(n) ==> u.reasoning == n)
            &&& json_get(value, "input_tokens"@) matches Some(m) ==> (json_as_u64(m) is None ==> u.input == 0)
            &&& (json_get(value, "cached_input_tokens"@) matches Some(m) ==> json_as_u64(m) is None) ==> u.cached == 0
            &&& (json_get(value, "cache_write_tokens"@) matches Some(m) ==> json_as_u64(m) is None) ==> u.cache_write == 0
            &&& (json_get(value, "output_tokens"@) matches Some(m) ==> json_as_u64(m) is None) ==> u.output == 0
            &&& (json_get(value, "reasoning_output_tokens"@) matches Some(m) ==> json_as_u64(m) is None) ==> u.reasoning == 0
            &&& u.total as int == if u.input + u.output <= u64::MAX { u.input + u.output } else { u64::MAX as int }
        },
{
}

/// The token counts of a usage object such as
/// `{"input_tokens": 40, "cached_input_tokens": 5, "output_tokens": 10}`.
pub fn usage_from_json(value: &JsonValue) -> (r: Option<Usage>)
    ensures
        r == spec_usage_from_json(*value),
{
    let input = match get(value, "input_tokens") {
        None => return None,
        Some(member) => match as_u64(member) {
            Some(n) => n,
            None => 0,
        },
    };
    let output = member_or_zero(value, "output_tokens");
    Some(
        Usage {
            input,
            cached: member_or_zero(value, "cached_input_tokens"),
            cache_write: member_or_zero(value, "cache_write_tokens"),
            output,
            reasoning: member_or_zero(value, "reasoning_output_tokens"),
            total: input.saturating_add(output),
        },
    )
}

/// The places where an event may hold a usage object named `leaf`, in the
/// order they are tried.
pub open spec fn usage_paths(leaf: Seq<char>) -> Seq<Seq<Seq<char>>> {
    seq![
        seq!["payload"@, "info"@, leaf],
        seq!["payload"@, leaf],
        seq!["info"@, leaf],
        seq![leaf],
    ]
}

/// The usage at the first of `paths` that holds a usage object.
pub open spec fn first_usage(value: JsonValue, paths: Seq<Seq<Seq<char>>>) -> Option<Usage>
    decreases paths.len(),
{
    if paths.len() == 0 {
        None
    } else {
        let here = match json_path(value, paths[0]) {
            Some(found) => spec_usage_from_json(found),
            None => None,
        };
        match here {
            Some(u) => Some(u),
            None => first_usage(value, paths.drop_first()),
        }
    }
}

fn usage_at(value: &JsonValue, path: &[&str]) -> (r: Option<Usage>)
    ensures
        r == match json_path(*value, path@.map_values(|k: &str| k@)) {
            Some(found) => spec_usage_from_json(found),
            None => None,
        },
{
    match get_path(value, path) {
        Some(found) => usage_from_json(found),
        None => None,
    }
}

/// The cumulative usage of an event: `total_token_usage` under
/// `payload.info`, `payload`, `info` or the event itself, the first that is
/// a usage object.
pub fn usage_from_event(value: &JsonValue) -> (r: Option<Usage>)
    ensures
        r == first_usage(*value, usage_paths("total_token_usage"@)),
{
    usage_named(value, "total_token_usage")
}

/// The usage of the event's own turn: `last_token_usage` under the same
/// places as the cumulative usage.
pub fn last_usage_from_event(value: &JsonValue) -> (r: Option<Usage>)
    ensures
        r == first_usage(*value, usage_paths("last_token_usage"@)),
{
    usage_named(value, "last_token_usage")
}

fn usage_named(value: &JsonValue, leaf: &str) -> (r: Option<Usage>)
    ensures
        r == first_usage(*value, usage_paths(leaf@)),
{
    let ghost paths = usage_paths(leaf@);
    proof {
        reveal_with_fuel(first_usage, 5);
        assert(paths.drop_first().drop_first().drop_first().drop_first() =~= Seq::<Seq<Seq<char>>>::empty());
    }
    let p0 = ["payload", "info", leaf];
    assert(p0@.map_values(|k: &str| k@) =~= paths[0]);
    if let Some(u) = usage_at(value, &p0) {
        return Some(u);
    }
    let p1 = ["payload", leaf];
    assert(p1@.map_values(|k: &str| k@) =~= paths[1]);
    if let Some(u) = usage_at(value, &p1) {
        return Some(u);
    }
    let p2 = ["info", leaf];
    assert(p2@.map_values(|k: &str| k@) =~= paths[2]);
    if let Some(u) = usage_at(value, &p2) {
        return Some(u);
    }
    let p3 = [leaf];
    assert(p3@.map_values(|k: &str| k@) =~= paths[3]);
    usage_at(value, &p3)
}

/// The places where an event may name its pricing tier, in the order they
/// are tried: `service_tier` first, then `speed`.
pub open spec fn tier_paths() -> Seq<Seq<Seq<char>>> {
    usage_paths("service_tier"@) + usage_paths("speed"@)
}

/// The tier at the first of `paths` that holds a known tier name.
pub open spec fn first_tier(value: JsonValue, paths: Seq<Seq<Seq<char>>>) -> Option<ServiceTier>
    decreases paths.len(),
{
    if paths.len() == 0 {
        None
    } else {
        let here = match json_path(value, paths[0]) {
            Some(found) => match json_as_str(found) {
                Some(text) => spec_tier_from_text(text),
                None => None,
            },
            None => None,
        };
        match here {
            Some(tier) => Some(tier),
            None => first_tier(value, paths.drop_first()),
        }
    }
}

fn tier_at(value: &JsonValue, path: &[&str]) -> (r: Option<ServiceTier>)
    ensures
        r == match json_path(*value, path@.map_values(|k: &str| k@)) {
            Some(found) => match json_as_str(found) {
                Some(text) => spec_tier_from_text(text),
                None => None,
            },
            None => None,
        },
{
    match get_path(value, path) {
        Some(found) => match as_str(found) {
            Some(text) => ServiceTier::from_str(text),
            None => None,
        },
        None => None,
    }
}

fn tier_named(value: &JsonValue, leaf: &str) -> (r: Option<ServiceTier>)
    ensures
        r == first_tier(*value, usage_paths(leaf@)),
{
    let ghost paths = usage_paths(leaf@);
    proof {
        reveal_with_fuel(first_tier, 5);
        assert(paths.drop_first().drop_first().drop_first().drop_first() =~= Seq::<Seq<Seq<char>>>::empty());
    }
    let p0 = ["payload", "info", leaf];
    assert(p0@.map_values(|k: &str| k@) =~= paths[0]);
    if let Some(t) = tier_at(value, &p0) {
        return Some(t);
    }
    let p1 = ["payload", leaf];
    assert(p1@.map_values(|k: &str| k@) =~= paths[1]);
    if let Some(t) = tier_at(value, &p1) {
        return Some(t);
    }
    let p2 = ["info", leaf];
    assert(p2@.map_values(|k: &str| k@) =~= paths[2]);
    if let Some(t) = tier_at(value, &p2) {
        return Some(t);
    }
    let p3 = [leaf];
    assert(p3@.map_values(|k: &str| k@) =~= paths[3]);
    tier_at(value, &p3)
}

proof fn lemma_first_tier_concat(value: JsonValue, a: Seq<Seq<Seq<char>>>, b: Seq<Seq<Seq<char>>>)
    ensures
        first_tier(value, a + b) == match first_tier(value, a) {
            Some(t) => Some(t),
            None => first_tier(value, b),
        },
    decreases a.len(),
{
    if a.len() > 0 {
        assert((a + b).drop_first() =~= a.drop_first() + b);
        lemma_first_tier_concat(value, a.drop_first(), b);
    } else {
        assert(a + b =~= b);
    }
}

/// The pricing tier that an event records, from `service_tier` or, failing
/// that, `speed`, under `payload.info`, `payload`, `info` or the event
/// itself.
pub fn service_tier_from_event(value: &JsonValue) -> (r: Option<ServiceTier>)
    ensures
        r == first_tier(*value, tier_paths()),
{
    proof {
        lemma_first_tier_concat(*value, usage_paths("service_tier"@), usage_paths("speed"@));
    }
    match tier_named(value, "service_tier") {
        Some(t) => Some(t),
        None => tier_named(value, "speed"),
    }
}

/// The model that a turn-context event names: `payload.model` when the
/// payload has one, else a top-level `model`; only a string counts.
pub open spec fn spec_model_from_event(value: JsonValue) -> Option<String> {
    let found = match json_path(value, seq!["payload"@, "model"@]) {
        Some(m) => Some(m),
        None => json_get(value, "model"@),
    };
    match found {
        Some(JsonValue::Str(s)) => Some(s),
        _ => None,
    }
}

/// The model that a turn-context event names.
pub fn model_from_event(value: &JsonValue) -> (r: Option<String>)
    ensures
        r == spec_model_from_event(*value),
{
    let path = ["payload", "model"];
    assert(path@.map_values(|k: &str| k@) =~= seq!["payload"@, "model"@]);
    let found = match get_path(value, &path) {
        Some(m) => Some(m),
        None => get(value, "model"),
    };
    match found {
        Some(JsonValue::Str(s)) => Some(s.clone()),
        _ => None,
    }
}

/// The UTC time in an event's `timestamp` string, when it is a valid one.
pub open spec fn spec_event_time(value: JsonValue) -> Option<UtcTime> {
    match json_get(value, "timestamp"@) {
        Some(JsonValue::Str(s)) => spec_utc_time(vstd::utf8::encode_utf8(s@)),
        _ => None,
    }
}

/// The UTC time in an event's `timestamp` string, when it is a valid one.
pub fn event_time(value: &JsonValue) -> (r: Option<UtcTime>)
    ensures
        r == spec_event_time(*value),
{
    match get(value, "timestamp") {
        Some(JsonValue::Str(s)) => utc_time_from_timestamp(s.as_str().as_bytes()),
        _ => None,
    }
}

/// What a usage event records.
#[derive(Clone, Copy, Debug, PartialEq, Eq, Structural)]
pub struct UsageRecord {
    /// The cumulative counts of the session so far.
    pub total: Usage,
    /// The counts of this turn alone, when recorded.
    pub last: Option<Usage>,
    /// The pricing tier, when recorded.
    pub tier: Option<ServiceTier>,
    /// The event's UTC time, when recorded and valid.
    pub timestamp: Option<UtcTime>,
}

/// What one line of a session log means to the accounting.
#[derive(Debug)]
pub enum SessionLine {
    /// Nothing to account for.
    Skip,
    /// A new turn starts; it names its model when the event holds one.
    TurnContext { model: Option<String> },
    /// A usage record.
    Record(UsageRecord),
}

/// The bytes that mark a line holding a usage record.
pub open spec fn usage_marker() -> Seq<u8> {
    seq![34u8, 116, 111, 116, 97, 108, 95, 116, 111, 107, 101, 110, 95, 117, 115, 97, 103, 101, 34]
}

/// The bytes that mark a line holding a turn context.
pub open spec fn context_marker() -> Seq<u8> {
    seq![34u8, 116, 117, 114, 110, 95, 99, 111, 110, 116, 101, 120, 116, 34]
}

/// What a session event means, given whether its line holds the turn
/// context marker: a turn context only updates the model (even when it also
/// holds usage); otherwise the event counts when one of its usage objects is
/// found.
pub open spec fn spec_session_event(value: JsonValue, has_context: bool) -> SessionLine {
    if has_context {
        SessionLine::TurnContext { model: spec_model_from_event(value) }
    } else {
        match first_usage(value, usage_paths("total_token_usage"@)) {
            Some(total) => SessionLine::Record(
                UsageRecord {
                    total,
                    last: first_usage(value, usage_paths("last_token_usage"@)),
                    tier: first_tier(value, tier_paths()),
                    timestamp: spec_event_time(value),
                },
            ),
            None => SessionLine::Skip,
        }
    }
}

/// What a line of a session log means.  A line that is not UTF-8, that holds
/// neither `"total_token_usage"` nor `"turn_context"`, or that is not JSON is
/// skipped; else its event is read as `spec_session_event` says.
pub open spec fn spec_session_line(line: Seq<u8>) -> SessionLine {
    let has_usage = contains_bytes(line, usage_marker());
    let has_context = contains_bytes(line, context_marker());
    if !vstd::utf8::valid_utf8(line) || !(has_usage || has_context) {
        SessionLine::Skip
    } else {
        match json_from_slice(line) {
            None => SessionLine::Skip,
            Some(value) => spec_session_event(value, has_context),
        }
    }
}

/// What a session event means (see `spec_session_event`).
pub fn session_event(value: &JsonValue, has_context: bool) -> (r: SessionLine)
    ensures
        r == spec_session_event(*value, has_context),
{
    if has_context {
        return SessionLine::TurnContext { model: model_from_event(value) };
    }
    match usage_from_event(value) {
        Some(total) => SessionLine::Record(
            UsageRecord {
                total,
                last: last_usage_from_event(value),
                tier: service_tier_from_event(value),
                timestamp: event_time(value),
            },
        ),
        None => SessionLine::Skip,
    }
}

/// Whether `bytes` are valid UTF-8, as `std::str::from_utf8` decides.
#[verifier::external_body]
pub(crate) fn is_utf8(bytes: &[u8]) -> (r: bool)
    ensures
        r == vstd::utf8::valid_utf8(bytes@),
{
    std::str::from_utf8(bytes).is_ok()
}

/// Reads one line of a session log (with or without its line ending).
pub fn parse_session_line(line: &[u8]) -> (r: SessionLine)
    ensures
        r == spec_session_line(line@),
{
    let usage_mark: [u8; 19] = [34, 116, 111, 116, 97, 108, 95, 116, 111, 107, 101, 110, 95, 117, 115, 97, 103, 101, 34];
    let context_mark: [u8; 14] = [34, 116, 117, 114, 110, 95, 99, 111, 110, 116, 101, 120, 116, 34];
    assert(usage_mark@ =~= usage_marker());
    assert(context_mark@ =~= context_marker());
    if !is_utf8(line) {
        return SessionLine::Skip;
    }
    let has_usage = bytes_contain(line, &usage_mark);
    let has_context = bytes_contain(line, &context_mark);
    if !(has_usage || has_context) {
        return SessionLine::Skip;
    }
    let value = match parse_json(line) {
        Some(v) => v,
        None => return SessionLine::Skip,
    };
    session_event(&value, has_context)
}

} // verus!
