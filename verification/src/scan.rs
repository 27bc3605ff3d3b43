//! The token deltas that a session bills, and the periods they add up to.

use vstd::prelude::*;
use crate::calendar::DateKey;
use crate::pricing::{cost, spec_cost};
use crate::session::{SessionLine, UsageRecord};
use crate::usage::{Period, ServiceTier, Usage};

verus! {

/// What a usage record adds to the cumulative counts seen before it: the
/// growth of each field, or the whole record when its total dropped, which
/// means that the counters started over.
pub open spec fn record_delta(previous: Usage, total: Usage) -> Usage {
    if total.total < previous.total {
        total
    } else {
        total.minus(previous)
    }
}

/// A delta that a session bills: its tokens, the local date of its event
/// (when the scan is dated), its tier and the model that priced its turn.
#[derive(Debug)]
pub struct BilledDelta {
    pub usage: Usage,
    pub date: Option<DateKey>,
    pub tier: ServiceTier,
    pub model: String,
}

/// The state of a pass over one session log.
#[derive(Debug)]
pub struct SessionScan {
    /// The cumulative counts of the last usage record.
    pub previous: Usage,
    /// The model of the current turn.
    pub model: String,
    /// Whether deltas carry a date; a dated scan also bills the first
    /// billable record by its own turn's usage when the record has one.
    pub dated: bool,
    /// The tier of records that do not name one.
    pub default_tier: ServiceTier,
    /// The date of events without a valid timestamp (the session's folder
    /// date).
    pub fallback_date: Option<DateKey>,
}

impl SessionScan {
    /// A pass that starts with no counts, on the session's model.
    pub fn new(model: String, default_tier: ServiceTier, dated: bool, fallback_date: Option<DateKey>) -> (r: SessionScan)
        ensures
            r.previous == Usage::spec_zero(),
            r.model == model,
            r.dated == dated,
            r.default_tier == default_tier,
            r.fallback_date == fallback_date,
    {
        SessionScan { previous: Usage::zero(), model, dated, default_tier, fallback_date }
    }

    /// The usage that `record` bills after the records seen so far.
    pub open spec fn billed_usage(self, record: UsageRecord) -> Usage {
        let delta = record_delta(self.previous, record.total);
        if self.dated && !self.previous.is_billable() {
            match record.last {
                Some(turn) => if turn.is_billable() {
                    turn
                } else {
                    delta
                },
                None => delta,
            }
        } else {
            delta
        }
    }

    /// The date that a billed delta carries: none in an undated pass, else
    /// the event's local date or, failing that, the fallback date.
    pub open spec fn delta_date(self, event_date: Option<DateKey>) -> Option<DateKey> {
        if self.dated {
            match event_date {
                Some(d) => Some(d),
                None => self.fallback_date,
            }
        } else {
            None
        }
    }

    /// Takes the next line of the log.  `event_date` is the local date of the
    /// line's timestamp, when it has a valid one.  A turn context switches the
    /// model; a usage record returns the delta it bills, if that delta has a
    /// billable token.
    pub fn observe(&mut self, line: SessionLine, event_date: Option<DateKey>) -> (r: Option<BilledDelta>)
        ensures
            final(self).dated == old(self).dated,
            final(self).default_tier == old(self).default_tier,
            final(self).fallback_date == old(self).fallback_date,
            match line {
                SessionLine::Skip => r is None && final(self).previous == old(self).previous
                    && final(self).model == old(self).model,
                SessionLine::TurnContext { model } => r is None && final(self).previous == old(self).previous
                    && final(self).model == match model {
                        Some(m) => m,
                        None => old(self).model,
                    },
                SessionLine::Record(record) => {
                    &&& final(self).previous == record.total
                    &&& final(self).model == old(self).model
                    &&& if old(self).billed_usage(record).is_billable() {
                        r matches Some(d) && d.usage == old(self).billed_usage(record) && d.date
                            == old(self).delta_date(event_date) && d.tier == match record.tier {
                            Some(t) => t,
                            None => old(self).default_tier,
                        } && d.model == old(self).model
                    } else {
                        r is None
                    }
                },
            },
    {
        match line {
            SessionLine::Skip => None,
            SessionLine::TurnContext { model } => {
                if let Some(m) = model {
                    self.model = m;
                }
                None
            },
            SessionLine::Record(record) => {
                let had_previous = self.previous.any();
                let mut delta = if record.total.total < self.previous.total {
                    record.total
                } else {
                    record.total.delta(self.previous)
                };
                self.previous = record.total;
                if self.dated && !had_previous {
                    if let Some(turn) = record.last {
                        if turn.any() {
                            delta = turn;
                        }
                    }
                }
                if delta.any() {
                    let date = if self.dated {
                        match event_date {
                            Some(d) => Some(d),
                            None => self.fallback_date,
                        }
                    } else {
                        None
                    };
                    let tier = match record.tier {
                        Some(t) => t,
                        None => self.default_tier,
                    };
                    Some(BilledDelta { usage: delta, date, tier, model: self.model.clone() })
                } else {
                    None
                }
            },
        }
    }
}

/// In a dated pass a billed delta carries the local date of its own event
/// whenever the event has a valid timestamp; the folder date of the session
/// stands in only for an event without one.  An undated pass dates nothing.
pub proof fn lemma_deltas_are_dated_by_their_event(scan: SessionScan, event_date: Option<DateKey>, folder_date: Option<DateKey>)
    requires
        scan.fallback_date == folder_date,
    ensures
        scan.dated ==> match event_date {
            Some(d) => scan.delta_date(event_date) == Some(d),
            None => scan.delta_date(event_date) == folder_date,
        },
        !scan.dated ==> scan.delta_date(event_date) is None,
{
}

/// Every count of `a` is at most the same count of `b`.
pub open spec fn grows_to(a: Usage, b: Usage) -> bool {
    &&& a.input <= b.input
    &&& a.cached <= b.cached
    &&& a.cache_write <= b.cache_write
    &&& a.output <= b.output
    &&& a.reasoning <= b.reasoning
    &&& a.total <= b.total
}

/// Each record of `totals` grows from the one before it, the first from
/// `start`.
pub open spec fn cumulative_from(start: Usage, totals: Seq<Usage>) -> bool {
    forall|i: int|
        0 <= i < totals.len() ==> grows_to(if i == 0 { start } else { totals[i - 1] }, #[trigger] totals[i])
}

/// The sum of the deltas that an undated pass bills for the usage records
/// `totals`, after cumulative counts `previous`.
pub open spec fn billed_sum(previous: Usage, totals: Seq<Usage>) -> Usage
    decreases totals.len(),
{
    if totals.len() == 0 {
        Usage::spec_zero()
    } else {
        let delta = record_delta(previous, totals[0]);
        let rest = billed_sum(totals[0], totals.drop_first());
        if delta.is_billable() {
            delta.plus(rest)
        } else {
            rest
        }
    }
}

/// When cumulative records only grow, the deltas that a pass bills add up,
/// in every billable count, to what the last record adds to the starting
/// counts: nothing is counted twice and nothing is lost.
pub proof fn lemma_billed_deltas_telescope(start: Usage, totals: Seq<Usage>)
    requires
        totals.len() > 0,
        cumulative_from(start, totals),
    ensures
        billed_sum(start, totals).input == totals.last().input - start.input,
        billed_sum(start, totals).cached == totals.last().cached - start.cached,
        billed_sum(start, totals).cache_write == totals.last().cache_write - start.cache_write,
        billed_sum(start, totals).output == totals.last().output - start.output,
        billed_sum(start, totals).reasoning == totals.last().reasoning - start.reasoning,
    decreases totals.len(),
{
    let first = totals[0];
    assert(grows_to(start, first));
    let rest = totals.drop_first();
    let delta = record_delta(start, first);
    assert(delta == first.minus(start));
    assert(delta.input == first.input - start.input);
    assert(delta.cached == first.cached - start.cached);
    assert(billed_sum(start, totals) == if delta.is_billable() {
        delta.plus(billed_sum(first, rest))
    } else {
        billed_sum(first, rest)
    });
    if rest.len() > 0 {
        assert forall|i: int| 0 <= i < rest.len() implies grows_to(
            if i == 0 { first } else { rest[i - 1] },
            #[trigger] rest[i],
        ) by {
            assert(rest[i] == totals[i + 1]);
            assert(grows_to(if i + 1 == 0 { start } else { totals[i] }, totals[i + 1]));
        }
        lemma_billed_deltas_telescope(first, rest);
        assert(rest.last() == totals.last());
    } else {
        assert(totals.last() == first);
    }
}

/// `b` grows from `a` in its total alone: every billable count is the same.
pub open spec fn grows_only_in_total(a: Usage, b: Usage) -> bool {
    &&& b.input == a.input
    &&& b.cached == a.cached
    &&& b.cache_write == a.cache_write
    &&& b.output == a.output
    &&& b.reasoning == a.reasoning
    &&& b.total > a.total
}

/// No record of `totals` grows from the one before it (the first from
/// `start`) in its total alone.
pub open spec fn no_total_only_growth(start: Usage, totals: Seq<Usage>) -> bool {
    forall|i: int|
        0 <= i < totals.len() ==> !grows_only_in_total(
            if i == 0 { start } else { totals[i - 1] },
            #[trigger] totals[i],
        )
}

/// When cumulative records only grow, and none grows in its total alone,
/// the billed deltas also add up, in the total, to what the last record adds
/// to the starting counts.  (A record that grows only its total bills
/// nothing, so its growth is not counted.)
pub proof fn lemma_billed_total_telescopes(start: Usage, totals: Seq<Usage>)
    requires
        totals.len() > 0,
        cumulative_from(start, totals),
        no_total_only_growth(start, totals),
    ensures
        billed_sum(start, totals).total == totals.last().total - start.total,
    decreases totals.len(),
{
    let first = totals[0];
    assert(grows_to(start, first));
    assert(!grows_only_in_total(start, first));
    let rest = totals.drop_first();
    let delta = record_delta(start, first);
    assert(delta == first.minus(start));
    assert(billed_sum(start, totals) == if delta.is_billable() {
        delta.plus(billed_sum(first, rest))
    } else {
        billed_sum(first, rest)
    });
    if rest.len() > 0 {
        assert forall|i: int| 0 <= i < rest.len() implies grows_to(
            if i == 0 { first } else { rest[i - 1] },
            #[trigger] rest[i],
        ) by {
            assert(rest[i] == totals[i + 1]);
            assert(grows_to(if i + 1 == 0 { start } else { totals[i] }, totals[i + 1]));
        }
        assert forall|i: int| 0 <= i < rest.len() implies !grows_only_in_total(
            if i == 0 { first } else { rest[i - 1] },
            #[trigger] rest[i],
        ) by {
            assert(rest[i] == totals[i + 1]);
            assert(!grows_only_in_total(if i + 1 == 0 { start } else { totals[i] }, totals[i + 1]));
        }
        lemma_billed_total_telescopes(first, rest);
        assert(rest.last() == totals.last());
    } else {
        assert(totals.last() == first);
    }
}

/// A record that repeats the cumulative counts of the one before it bills
/// nothing, once those counts are billable.
pub proof fn lemma_repeated_record_bills_nothing(scan: SessionScan, record: UsageRecord)
    requires
        record.total == scan.previous,
        scan.previous.is_billable(),
    ensures
        !scan.billed_usage(record).is_billable(),
{
}

/// A record whose total is below the previous one starts the counts over and
/// bills all of its own counts (past the first record of a dated pass).
pub proof fn lemma_counter_reset_bills_whole_record(scan: SessionScan, record: UsageRecord)
    requires
        record.total.total < scan.previous.total,
        !scan.dated || scan.previous.is_billable(),
    ensures
        scan.billed_usage(record) == record.total,
{
}

/// In an undated pass each usage record bills what it adds to the record
/// before it (its whole counts after a counter reset), the deltas that
/// `billed_sum` adds up.
pub proof fn lemma_undated_pass_bills_record_deltas(scan: SessionScan, record: UsageRecord)
    requires
        !scan.dated,
    ensures
        scan.billed_usage(record) == record_delta(scan.previous, record.total),
{
}

/// The texts of `names`, as a set.
pub open spec fn name_set(names: Seq<String>) -> Set<Seq<char>> {
    Set::new(|text: Seq<char>| exists|i: int| 0 <= i < names.len() && (#[trigger] names[i])@ == text)
}

/// No two of `names` hold the same text.
pub open spec fn distinct_names(names: Seq<String>) -> bool {
    forall|i: int, j: int| 0 <= i < j < names.len() ==> (#[trigger] names[i])@ != (#[trigger] names[j])@
}

/// Adds `name` to the set of distinct names `names`, unless it is already
/// there.
pub fn note_name(names: &mut Vec<String>, name: &str)
    ensures
        distinct_names(old(names)@) ==> distinct_names(final(names)@),
        name_set(final(names)@) == name_set(old(names)@).insert(name@),
        old(names)@.len() <= final(names)@.len(),
{
    let wanted = crate::text::chars_of(name);
    let mut i: usize = 0;
    while i < names.len()
        invariant
            i <= names.len(),
            wanted@ == name@,
            names@ == old(names)@,
            forall|j: int| 0 <= j < i ==> (#[trigger] names@[j])@ != name@,
        decreases names.len() - i,
    {
        let current = crate::text::chars_of(names[i].as_str());
        if crate::text::chars_equal(&current, &wanted) {
            assert(name_set(names@).contains(name@));
            assert(name_set(names@).insert(name@) =~= name_set(names@));
            return;
        }
        i = i + 1;
    }
    let ghost before = names@;
    names.push(crate::text::string_from_chars(wanted.as_slice()));
    assert(names@[before.len() as int]@ == name@);
    assert forall|t: Seq<char>| #[trigger] name_set(names@).contains(t) == name_set(before).insert(name@).contains(t) by {
        if name_set(before).contains(t) {
            let k = choose|k: int| 0 <= k < before.len() && (#[trigger] before[k])@ == t;
            assert(names@[k] == before[k]);
        }
        if name_set(names@).contains(t) {
            let k = choose|k: int| 0 <= k < names@.len() && (#[trigger] names@[k])@ == t;
            if k < before.len() {
                assert(names@[k] == before[k]);
            }
        }
    }
    assert(name_set(names@) =~= name_set(before).insert(name@));
    proof {
        if distinct_names(before) {
            assert forall|a: int, b: int| 0 <= a < b < names@.len() implies (#[trigger] names@[a])@
                != (#[trigger] names@[b])@ by {
                if b < before.len() {
                    assert(names@[a] == before[a] && names@[b] == before[b]);
                } else {
                    assert(names@[a] == before[a]);
                }
            }
        }
    }
}

/// What `delta` costs in cost units at the built-in price of its model;
/// zero for a model without a price.
pub open spec fn charge(delta: &BilledDelta) -> int {
    match spec_cost(delta.usage, delta.model@, delta.tier) {
        Some(c) => c,
        None => 0,
    }
}

/// The period that one billed delta adds: its tokens, its cost and one call.
pub open spec fn delta_period(delta: &BilledDelta) -> Period {
    Period { usage: delta.usage, cost: charge(delta) as u128, calls: 1, sessions: 0 }
}

/// A period of one session with nothing billed yet.
pub open spec fn session_period() -> Period {
    Period { usage: Usage::spec_zero(), cost: 0, calls: 0, sessions: 1 }
}

fn session_start() -> (r: Period)
    ensures
        r == session_period(),
{
    Period { usage: Usage::zero(), cost: 0, calls: 0, sessions: 1 }
}

/// `date` lies in the inclusive range, when there is one.
pub open spec fn in_range(range: Option<(DateKey, DateKey)>, date: Option<DateKey>) -> bool {
    match range {
        None => true,
        Some((start, end)) => match date {
            Some(d) => start.not_after(d) && d.not_after(end),
            None => false,
        },
    }
}

/// A range tally's period after `delta`: the delta counts when its date
/// lies in the range.
pub open spec fn range_step(period: Period, range: Option<(DateKey, DateKey)>, delta: BilledDelta) -> Period {
    if in_range(range, delta.date) {
        period.plus(delta_period(&delta))
    } else {
        period
    }
}

/// The period that a range tally reaches from `period` over `deltas`, taken
/// in order.
pub open spec fn range_fold(period: Period, range: Option<(DateKey, DateKey)>, deltas: Seq<BilledDelta>) -> Period
    decreases deltas.len(),
{
    if deltas.len() == 0 {
        period
    } else {
        range_step(range_fold(period, range, deltas.drop_last()), range, deltas.last())
    }
}

/// The period of one session: its billed deltas, or only those dated within
/// a range of days.
#[derive(Debug)]
pub struct PeriodTally {
    pub period: Period,
    pub range: Option<(DateKey, DateKey)>,
    /// Models met in range that have no built-in price, each once.
    pub unknown: Vec<String>,
}

impl PeriodTally {
    /// A tally of one session with nothing billed yet.
    pub fn new(range: Option<(DateKey, DateKey)>) -> (r: PeriodTally)
        ensures
            r.period == session_period(),
            r.range == range,
            r.unknown@.len() == 0,
    {
        PeriodTally { period: session_start(), range, unknown: Vec::new() }
    }

    /// Taking `delta` keeps every count within its type.
    pub open spec fn can_take(self, delta: &BilledDelta) -> bool {
        in_range(self.range, delta.date) ==> self.period.can_add(delta_period(delta))
    }

    /// Whether taking `delta` keeps every count within its type.
    pub fn fits(&self, delta: &BilledDelta) -> (r: bool)
        ensures
            r == self.can_take(delta),
    {
        let inside = match self.range {
            None => true,
            Some((start, end)) => match delta.date {
                Some(d) => start.is_not_after(&d) && d.is_not_after(&end),
                None => false,
            },
        };
        if !inside {
            return true;
        }
        let c = match cost(delta.usage, delta.model.as_str(), delta.tier) {
            Some(c) => c,
            None => 0,
        };
        self.period.fits_with(&Period { usage: delta.usage, cost: c, calls: 1, sessions: 0 })
    }

    /// Adds a billed delta when its date lies in the range: its tokens, its
    /// cost and one call; a model without a price adds nothing to the cost
    /// and is noted as unknown.
    pub fn record(&mut self, delta: &BilledDelta)
        requires
            old(self).can_take(delta),
        ensures
            final(self).range == old(self).range,
            final(self).period == range_step(old(self).period, old(self).range, *delta),
            distinct_names(old(self).unknown@) ==> distinct_names(final(self).unknown@),
            if in_range(old(self).range, delta.date) {
                &&& final(self).period == old(self).period.plus(delta_period(delta))
                &&& name_set(final(self).unknown@) == if spec_cost(delta.usage, delta.model@, delta.tier) is Some {
                    name_set(old(self).unknown@)
                } else {
                    name_set(old(self).unknown@).insert(delta.model@)
                }
            } else {
                final(self).period == old(self).period && final(self).unknown@ == old(self).unknown@
            },
    {
        let inside = match self.range {
            None => true,
            Some((start, end)) => match delta.date {
                Some(d) => start.is_not_after(&d) && d.is_not_after(&end),
                None => false,
            },
        };
        if !inside {
            return;
        }
        let c = match cost(delta.usage, delta.model.as_str(), delta.tier) {
            Some(c) => c,
            None => {
                note_name(&mut self.unknown, delta.model.as_str());
                0
            },
        };
        self.period.add(Period { usage: delta.usage, cost: c, calls: 1, sessions: 0 });
    }

    /// The session's period, when it billed at least one call, and the
    /// models without a price that it met.
    pub fn finish(self) -> (r: (Option<Period>, Vec<String>))
        ensures
            r.0 == if self.period.calls > 0 {
                Some(self.period)
            } else {
                None
            },
            r.1 == self.unknown,
    {
        let period = if self.period.calls > 0 {
            Some(self.period)
        } else {
            None
        };
        (period, self.unknown)
    }
}

/// The current cycle and today's share of one session, built in one pass.
#[derive(Debug)]
pub struct CurrentTally {
    pub cycle: Period,
    pub day: Period,
    pub cycle_start: DateKey,
    pub today: DateKey,
    /// Models met on dated deltas that have no built-in price, each once.
    pub unknown: Vec<String>,
}

impl CurrentTally {
    /// A tally of one session for the cycle from `cycle_start` to `today`.
    pub fn new(cycle_start: DateKey, today: DateKey) -> (r: CurrentTally)
        ensures
            r.cycle == session_period(),
            r.day == session_period(),
            r.cycle_start == cycle_start,
            r.today == today,
            r.unknown@.len() == 0,
    {
        CurrentTally { cycle: session_start(), day: session_start(), cycle_start, today, unknown: Vec::new() }
    }

    /// A dated delta falls in the cycle.
    pub open spec fn in_cycle(self, date: DateKey) -> bool {
        self.cycle_start.not_after(date) && date.not_after(self.today)
    }

    /// The cycle's period after `delta`: it counts when dated within the
    /// cycle.
    pub open spec fn cycle_after(self, delta: &BilledDelta) -> Period {
        if delta.date matches Some(d) && self.in_cycle(d) {
            self.cycle.plus(delta_period(delta))
        } else {
            self.cycle
        }
    }

    /// Today's period after `delta`: it counts when dated today.
    pub open spec fn day_after(self, delta: &BilledDelta) -> Period {
        if delta.date == Some(self.today) {
            self.day.plus(delta_period(delta))
        } else {
            self.day
        }
    }

    /// Taking `delta` keeps every count within its type.
    pub open spec fn can_take(self, delta: &BilledDelta) -> bool {
        delta.date matches Some(d) ==> {
            &&& self.in_cycle(d) ==> self.cycle.can_add(delta_period(delta))
            &&& d == self.today ==> self.day.can_add(delta_period(delta))
        }
    }

    /// Whether taking `delta` keeps every count within its type.
    pub fn fits(&self, delta: &BilledDelta) -> (r: bool)
        ensures
            r == self.can_take(delta),
    {
        let d = match delta.date {
            Some(d) => d,
            None => return true,
        };
        let c = match cost(delta.usage, delta.model.as_str(), delta.tier) {
            Some(c) => c,
            None => 0,
        };
        let part = Period { usage: delta.usage, cost: c, calls: 1, sessions: 0 };
        let cycle_ok = !(self.cycle_start.is_not_after(&d) && d.is_not_after(&self.today))
            || self.cycle.fits_with(&part);
        let day_ok = !(d == self.today) || self.day.fits_with(&part);
        cycle_ok && day_ok
    }

    /// Adds a dated delta to the cycle when its date lies from the cycle
    /// start through today, and to today's period when it is dated today.
    /// The delta is priced once for both; a dated delta of a model without a
    /// price notes the model as unknown, inside the cycle or not.  An undated
    /// delta counts nowhere.
    pub fn record(&mut self, delta: &BilledDelta)
        requires
            old(self).can_take(delta),
        ensures
            final(self).cycle_start == old(self).cycle_start,
            final(self).today == old(self).today,
            distinct_names(old(self).unknown@) ==> distinct_names(final(self).unknown@),
            final(self).cycle == old(self).cycle_after(delta),
            final(self).day == old(self).day_after(delta),
            delta.date is None ==> final(self).unknown@ == old(self).unknown@,
            delta.date is Some ==> name_set(final(self).unknown@) == if spec_cost(
                delta.usage,
                delta.model@,
                delta.tier,
            ) is Some {
                name_set(old(self).unknown@)
            } else {
                name_set(old(self).unknown@).insert(delta.model@)
            },
    {
        let d = match delta.date {
            Some(d) => d,
            None => return,
        };
        let c = match cost(delta.usage, delta.model.as_str(), delta.tier) {
            Some(c) => c,
            None => {
                note_name(&mut self.unknown, delta.model.as_str());
                0
            },
        };
        let part = Period { usage: delta.usage, cost: c, calls: 1, sessions: 0 };
        if self.cycle_start.is_not_after(&d) && d.is_not_after(&self.today) {
            self.cycle.add(part);
        }
        if d == self.today {
            self.day.add(part);
        }
    }

    /// The session's cycle and today periods, each when it billed at least
    /// one call, and the models without a price that it met.
    pub fn finish(self) -> (r: (Option<Period>, Option<Period>, Vec<String>))
        ensures
            r.0 == if self.cycle.calls > 0 {
                Some(self.cycle)
            } else {
                None
            },
            r.1 == if self.day.calls > 0 {
                Some(self.day)
            } else {
                None
            },
            r.2 == self.unknown,
    {
        let cycle = if self.cycle.calls > 0 {
            Some(self.cycle)
        } else {
            None
        };
        let day = if self.day.calls > 0 {
            Some(self.day)
        } else {
            None
        };
        (cycle, day, self.unknown)
    }
}

/// The current tally that `tally` reaches over `deltas`, taken in order.
pub open spec fn current_fold(tally: CurrentTally, deltas: Seq<BilledDelta>) -> CurrentTally
    decreases deltas.len(),
{
    if deltas.len() == 0 {
        tally
    } else {
        let before = current_fold(tally, deltas.drop_last());
        CurrentTally {
            cycle: before.cycle_after(&deltas.last()),
            day: before.day_after(&deltas.last()),
            cycle_start: before.cycle_start,
            today: before.today,
            unknown: before.unknown,
        }
    }
}

/// One pass of the current tally gives the same figures as two passes of
/// range tallies: for the cycle, a tally over the days from the cycle start
/// through today; for today, a tally over today alone.
pub proof fn lemma_current_tally_is_two_range_tallies(tally: CurrentTally, deltas: Seq<BilledDelta>)
    ensures
        current_fold(tally, deltas).cycle == range_fold(
            tally.cycle,
            Some((tally.cycle_start, tally.today)),
            deltas,
        ),
        current_fold(tally, deltas).day == range_fold(tally.day, Some((tally.today, tally.today)), deltas),
        current_fold(tally, deltas).cycle_start == tally.cycle_start,
        current_fold(tally, deltas).today == tally.today,
    decreases deltas.len(),
{
    if deltas.len() > 0 {
        lemma_current_tally_is_two_range_tallies(tally, deltas.drop_last());
    }
}

/// Every count of `a` is at most the same count of `b`.
pub open spec fn period_within(a: Period, b: Period) -> bool {
    &&& grows_to(a.usage, b.usage)
    &&& a.cost <= b.cost
    &&& a.calls <= b.calls
    &&& a.sessions <= b.sessions
}

/// While today lies in the cycle, today's figures stay within the cycle's:
/// recording a delta keeps every count of today at most the cycle's.
pub proof fn lemma_today_within_cycle(tally: CurrentTally, delta: &BilledDelta)
    requires
        tally.can_take(delta),
        tally.in_cycle(tally.today),
        period_within(tally.day, tally.cycle),
    ensures
        period_within(tally.day_after(delta), tally.cycle_after(delta)),
{
}

/// A new session tally starts with today's figures within the cycle's.
pub proof fn lemma_new_tally_starts_within()
    ensures
        period_within(session_period(), session_period()),
{
}

} // verus!
