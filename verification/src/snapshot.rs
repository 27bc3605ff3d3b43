//! The figures that a scan reports, and the choices a scan makes between
//! the sources of a setting: which pricing tier applies by default and which
//! model prices a session.

use vstd::prelude::*;
use crate::calendar::{
    DateKey, current_cycle_start, days_between, next_cycle_start, next_cycle_start_defined,
    spec_current_cycle_start, spec_next_cycle_start, spec_ordinal_day,
};
use crate::config::Config;
use crate::config::{service_tier_from_toml, spec_service_tier_from_toml};
use crate::display::{padded, push_padded};
use crate::scan::{distinct_names, name_set, note_name};
use crate::order::{sort_texts, string_views, text_order};
use crate::text::string_from_chars;
use crate::usage::{Period, ServiceTier, spec_tier_from_text};

verus! {

/// The pricing tier of records that do not name one: the tier named by the
/// `CODEX_SAVINGS_SERVICE_TIER` setting when it names one, else the tier
/// that Codex's `config.toml` selects, else Standard.  Each argument is the
/// text of its source, when that source could be read.
pub open spec fn spec_default_tier(env_value: Option<Seq<char>>, config_toml: Option<Seq<char>>) -> ServiceTier {
    match (match env_value {
        Some(text) => spec_tier_from_text(text),
        None => None,
    }) {
        Some(tier) => tier,
        None => match (match config_toml {
            Some(text) => spec_service_tier_from_toml(text),
            None => None,
        }) {
            Some(tier) => tier,
            None => ServiceTier::Standard,
        },
    }
}

/// The pricing tier of records that do not name one (see
/// `spec_default_tier`).
pub fn default_tier(env_value: Option<&str>, config_toml: Option<&str>) -> (r: ServiceTier)
    ensures
        r == spec_default_tier(
            match env_value {
                Some(t) => Some(t@),
                None => None,
            },
            match config_toml {
                Some(t) => Some(t@),
                None => None,
            },
        ),
{
    let from_env = match env_value {
        Some(text) => ServiceTier::from_str(text),
        None => None,
    };
    match from_env {
        Some(tier) => tier,
        None => {
            let from_file = match config_toml {
                Some(text) => service_tier_from_toml(text),
                None => None,
            };
            match from_file {
                Some(tier) => tier,
                None => ServiceTier::Standard,
            }
        },
    }
}

/// The fallback model of the scans: the `CODEX_SAVINGS_MODEL` setting when
/// it is set, else `gpt-5.5`.
pub fn fallback_model(env_model: Option<String>) -> (r: String)
    ensures
        match env_model {
            Some(m) => r == m,
            None => r@ == "gpt-5.5"@,
        },
{
    match env_model {
        Some(m) => m,
        None => "gpt-5.5".to_owned(),
    }
}

/// The model that prices a session's turns until a turn names its own, and
/// whether it was assumed.  In the current-cycle scan the session's model
/// comes from the state database; without one, the fallback (see
/// `fallback_model`) is used and counted as assumed.
pub fn cycle_session_model(database_model: Option<String>, fallback: &str) -> (r: (String, bool))
    ensures
        match database_model {
            Some(m) => r.0 == m && !r.1,
            None => r.0@ == fallback@ && r.1,
        },
{
    match database_model {
        Some(m) => (m, false),
        None => (fallback.to_owned(), true),
    }
}

/// The model that prices a session in the all-time scan: the state
/// database's, else the `CODEX_SAVINGS_MODEL` setting, else `gpt-5.5`,
/// which alone counts as assumed.
pub fn all_time_session_model(database_model: Option<String>, env_model: Option<String>) -> (r: (
    String,
    bool,
))
    ensures
        match database_model {
            Some(m) => r.0 == m && !r.1,
            None => match env_model {
                Some(m) => r.0 == m && !r.1,
                None => r.0@ == "gpt-5.5"@ && r.1,
            },
        },
{
    match database_model {
        Some(m) => (m, false),
        None => match env_model {
            Some(m) => (m, false),
            None => ("gpt-5.5".to_owned(), true),
        },
    }
}

/// A clock time as `HH:MM`.
pub fn clock_text(hour: u16, minute: u16) -> (r: String)
    ensures
        r@ == padded(hour as nat, 2) + seq![':'] + padded(minute as nat, 2),
{
    let mut out: Vec<char> = Vec::new();
    push_padded(&mut out, hour as u128, 2);
    out.push(':');
    push_padded(&mut out, minute as u128, 2);
    assert(out@ =~= padded(hour as nat, 2) + seq![':'] + padded(minute as nat, 2));
    string_from_chars(out.as_slice())
}

/// What a scan reports.
#[derive(Clone, Debug)]
pub struct Snapshot {
    /// The current billing cycle so far.
    pub month: Period,
    pub today: Period,
    /// All history; computed only when asked for.
    pub all_time: Option<Period>,
    pub config: Config,
    /// The local time of the scan, `HH:MM`.
    pub updated: String,
    /// The local time of the all-time scan, `HH:MM`.
    pub all_time_updated: String,
    pub service_tier: ServiceTier,
    pub cycle_start: DateKey,
    pub cycle_next: DateKey,
    /// Days until the next cycle starts, at least 0.
    pub cycle_days_left: i32,
    /// Models without a built-in price, each once.
    pub unknown_models: Vec<String>,
    /// Sessions priced with a model that no record named.
    pub assumed_models: u32,
    pub error: Option<String>,
}

impl Snapshot {
    /// The figures of a scan that has not run: nothing counted, no
    /// all-time total, default settings.
    pub open spec fn is_empty_report(self) -> bool {
        &&& self.month == Period::spec_empty()
        &&& self.today == Period::spec_empty()
        &&& self.all_time is None
        &&& self.config.is_default()
        &&& self.unknown_models@.len() == 0
        &&& self.assumed_models == 0
        &&& self.error is None
    }

    /// `other` reports the same settings, cycle, tier, times and error.
    pub open spec fn same_header(self, other: Snapshot) -> bool {
        &&& self.config == other.config
        &&& self.updated == other.updated
        &&& self.service_tier == other.service_tier
        &&& self.cycle_start == other.cycle_start
        &&& self.cycle_next == other.cycle_next
        &&& self.cycle_days_left == other.cycle_days_left
        &&& self.error == other.error
    }

    /// A scan of the cycle that contains `today`, under `config`, before any
    /// session is counted.
    pub fn for_cycle(config: Config, today: DateKey, service_tier: ServiceTier, updated: String) -> (r: Snapshot)
        requires
            next_cycle_start_defined(today, config.cycle_day as int),
        ensures
            r.month == Period::spec_empty(),
            r.today == Period::spec_empty(),
            r.all_time is None,
            r.config == config,
            r.updated == updated,
            r.service_tier == service_tier,
            r.cycle_start == spec_current_cycle_start(today, config.cycle_day as int),
            r.cycle_next == spec_next_cycle_start(today, config.cycle_day as int),
            r.cycle_days_left == if spec_ordinal_day(r.cycle_next) > spec_ordinal_day(today) {
                spec_ordinal_day(r.cycle_next) - spec_ordinal_day(today)
            } else {
                0
            },
            r.unknown_models@.len() == 0,
            r.assumed_models == 0,
            r.error is None,
            r.all_time_updated@.len() == 0,
    {
        let cycle_start = current_cycle_start(today, config.cycle_day);
        let cycle_next = next_cycle_start(today, config.cycle_day);
        let days = days_between(today, cycle_next);
        Snapshot {
            month: Period::empty(),
            today: Period::empty(),
            all_time: None,
            config,
            updated,
            all_time_updated: String::new(),
            service_tier,
            cycle_start,
            cycle_next,
            cycle_days_left: if days > 0 {
                days
            } else {
                0
            },
            unknown_models: Vec::new(),
            assumed_models: 0,
            error: None,
        }
    }

    /// Adding a session's cycle and today periods keeps every count within
    /// its type.
    pub open spec fn can_add_session(self, cycle: Option<Period>, day: Option<Period>) -> bool {
        &&& cycle matches Some(c) ==> self.month.can_add(c)
        &&& day matches Some(d) ==> self.today.can_add(d)
    }

    /// Whether adding a session's periods keeps every count within its type.
    pub fn fits_session(&self, cycle: &Option<Period>, day: &Option<Period>) -> (r: bool)
        ensures
            r == self.can_add_session(*cycle, *day),
    {
        let month_ok = match cycle {
            Some(c) => self.month.fits_with(c),
            None => true,
        };
        let day_ok = match day {
            Some(d) => self.today.fits_with(d),
            None => true,
        };
        month_ok && day_ok
    }

    /// Adds a session's share of the cycle and of today.
    pub fn add_session(&mut self, cycle: Option<Period>, day: Option<Period>)
        requires
            old(self).can_add_session(cycle, day),
        ensures
            final(self).same_header(*old(self)),
            final(self).month == match cycle {
                Some(c) => old(self).month.plus(c),
                None => old(self).month,
            },
            final(self).today == match day {
                Some(d) => old(self).today.plus(d),
                None => old(self).today,
            },
            final(self).all_time == old(self).all_time,
            final(self).unknown_models == old(self).unknown_models,
            final(self).assumed_models == old(self).assumed_models,
    {
        if let Some(c) = cycle {
            self.month.add(c);
        }
        if let Some(d) = day {
            self.today.add(d);
        }
    }

    /// Counts a session priced with an assumed model.
    pub fn count_assumed_model(&mut self)
        requires
            old(self).assumed_models < u32::MAX,
        ensures
            final(self).same_header(*old(self)),
            final(self).assumed_models == old(self).assumed_models + 1,
            final(self).month == old(self).month,
            final(self).today == old(self).today,
            final(self).all_time == old(self).all_time,
            final(self).unknown_models == old(self).unknown_models,
    {
        self.assumed_models = self.assumed_models + 1;
    }

    /// Notes models without a built-in price, each once.
    pub fn note_unknown_models(&mut self, models: &Vec<String>)
        ensures
            final(self).same_header(*old(self)),
            distinct_names(old(self).unknown_models@) ==> distinct_names(final(self).unknown_models@),
            name_set(final(self).unknown_models@) == name_set(old(self).unknown_models@).union(
                name_set(models@),
            ),
            final(self).month == old(self).month,
            final(self).today == old(self).today,
            final(self).all_time == old(self).all_time,
            final(self).assumed_models == old(self).assumed_models,
    {
        let mut i: usize = 0;
        while i < models.len()
            invariant
                i <= models.len(),
                self.same_header(*old(self)),
                distinct_names(old(self).unknown_models@) ==> distinct_names(self.unknown_models@),
                name_set(self.unknown_models@) == name_set(old(self).unknown_models@).union(
                    name_set(models@.take(i as int)),
                ),
                self.month == old(self).month,
                self.today == old(self).today,
                self.all_time == old(self).all_time,
                self.assumed_models == old(self).assumed_models,
            decreases models.len() - i,
        {
            note_name(&mut self.unknown_models, models[i].as_str());
            proof {
                let before = models@.take(i as int);
                let after = models@.take(i + 1);
                assert(after =~= before.push(models@[i as int]));
                assert(name_set(after) =~= name_set(before).insert(models@[i as int]@)) by {
                    assert forall|t: Seq<char>| #[trigger] name_set(after).contains(t) == name_set(before).insert(
                        models@[i as int]@,
                    ).contains(t) by {
                        if name_set(after).contains(t) {
                            let k = choose|k: int| 0 <= k < after.len() && (#[trigger] after[k])@ == t;
                            if k < before.len() {
                                assert(before[k] == after[k]);
                            }
                        }
                        if name_set(before).contains(t) {
                            let k = choose|k: int| 0 <= k < before.len() && (#[trigger] before[k])@ == t;
                            assert(after[k] == before[k]);
                        }
                        if t == models@[i as int]@ {
                            assert(after[i as int] == models@[i as int]);
                        }
                    }
                }
                assert(name_set(self.unknown_models@) =~= name_set(old(self).unknown_models@).union(
                    name_set(after),
                ));
            }
            i = i + 1;
        }
        assert(models@.take(i as int) =~= models@);
    }
}

impl Snapshot {
    /// Puts the unknown models in text order.
    pub fn sort_unknown_models(&mut self)
        ensures
            final(self).same_header(*old(self)),
            string_views(final(self).unknown_models@) == string_views(old(self).unknown_models@).sort_by(
                text_order(),
            ),
            final(self).month == old(self).month,
            final(self).today == old(self).today,
            final(self).all_time == old(self).all_time,
            final(self).assumed_models == old(self).assumed_models,
    {
        self.unknown_models = sort_texts(&self.unknown_models);
    }

    /// Records the all-time total and when it was computed.
    pub fn set_all_time(&mut self, period: Period, updated: String)
        ensures
            final(self).same_header(*old(self)),
            final(self).all_time == Some(period),
            final(self).all_time_updated == updated,
            final(self).month == old(self).month,
            final(self).today == old(self).today,
            final(self).unknown_models == old(self).unknown_models,
            final(self).assumed_models == old(self).assumed_models,
    {
        self.all_time = Some(period);
        self.all_time_updated = updated;
    }
}

impl Default for Snapshot {
    fn default() -> (r: Snapshot)
        ensures
            r.is_empty_report(),
    {
        Snapshot {
            month: Period::empty(),
            today: Period::empty(),
            all_time: None,
            config: Config::default(),
            updated: String::new(),
            all_time_updated: String::new(),
            service_tier: ServiceTier::Standard,
            cycle_start: DateKey { year: 0, month: 0, day: 0 },
            cycle_next: DateKey { year: 0, month: 0, day: 0 },
            cycle_days_left: 0,
            unknown_models: Vec::new(),
            assumed_models: 0,
            error: None,
        }
    }
}

/// A file's modification time as a signed offset from the Unix epoch.
#[derive(Clone, Copy, Debug, PartialEq, Eq, Structural)]
pub struct FileTime {
    pub after_epoch: bool,
    pub secs: u64,
    pub nanos: u32,
}

/// What changes when a session file is written: its length and, when the
/// system reports it, its modification time.
#[derive(Clone, Copy, Debug, PartialEq, Eq, Structural)]
pub struct FileStamp {
    pub len: u64,
    pub modified: Option<FileTime>,
}

/// The current-cycle figures of one session file, kept between scans.
#[derive(Clone, Debug)]
pub struct SessionCacheEntry {
    pub stamp: FileStamp,
    pub cycle_start: DateKey,
    pub today: DateKey,
    pub fallback_model: String,
    pub service_tier: ServiceTier,
    pub cycle: Option<Period>,
    pub day: Option<Period>,
    pub unknown_models: Vec<String>,
}

impl SessionCacheEntry {
    /// The entry answers a scan of a file with `stamp` for the cycle from
    /// `cycle_start` to `today`, with fallback model `model` and default
    /// tier `tier`: every one of them is the same as when it was made.
    pub open spec fn answers(
        self,
        stamp: FileStamp,
        cycle_start: DateKey,
        today: DateKey,
        model: Seq<char>,
        tier: ServiceTier,
    ) -> bool {
        &&& self.stamp == stamp
        &&& self.cycle_start == cycle_start
        &&& self.today == today
        &&& self.fallback_model@ == model
        &&& self.service_tier == tier
    }

    /// Whether the entry can stand for a new read of the file.
    pub fn is_fresh(
        &self,
        stamp: &FileStamp,
        cycle_start: DateKey,
        today: DateKey,
        model: &str,
        tier: ServiceTier,
    ) -> (r: bool)
        ensures
            r == self.answers(*stamp, cycle_start, today, model@, tier),
    {
        *stamp == self.stamp && self.cycle_start == cycle_start && self.today == today
            && crate::text::chars_equal(
            &crate::text::chars_of(self.fallback_model.as_str()),
            &crate::text::chars_of(model),
        ) && self.service_tier == tier
    }
}

} // verus!
