//! Token counts, pricing tiers and the totals of a reporting period.

use vstd::prelude::*;
use crate::text::{CharClass, ascii_lower, ascii_lowercase, chars_equal, chars_of, trim, trim_chars};

verus! {

/// Token counts of one usage record or of a sum of them.
#[derive(Clone, Copy, Debug, PartialEq, Eq, Structural)]
pub struct Usage {
    pub input: u64,
    pub cached: u64,
    pub cache_write: u64,
    pub output: u64,
    pub reasoning: u64,
    pub total: u64,
}

impl Usage {
    /// No tokens at all.
    pub open spec fn spec_zero() -> Usage {
        Usage { input: 0, cached: 0, cache_write: 0, output: 0, reasoning: 0, total: 0 }
    }

    /// No tokens at all.
    pub fn zero() -> (r: Usage)
        ensures
            r == Usage::spec_zero(),
    {
        Usage { input: 0, cached: 0, cache_write: 0, output: 0, reasoning: 0, total: 0 }
    }

    /// Adding `other` field by field stays within `u64`.
    pub open spec fn can_add(self, other: Usage) -> bool {
        &&& self.input + other.input <= u64::MAX
        &&& self.cached + other.cached <= u64::MAX
        &&& self.cache_write + other.cache_write <= u64::MAX
        &&& self.output + other.output <= u64::MAX
        &&& self.reasoning + other.reasoning <= u64::MAX
        &&& self.total + other.total <= u64::MAX
    }

    /// The field-by-field sum.
    pub open spec fn plus(self, other: Usage) -> Usage {
        Usage {
            input: (self.input + other.input) as u64,
            cached: (self.cached + other.cached) as u64,
            cache_write: (self.cache_write + other.cache_write) as u64,
            output: (self.output + other.output) as u64,
            reasoning: (self.reasoning + other.reasoning) as u64,
            total: (self.total + other.total) as u64,
        }
    }

    /// Whether `other` can be added without a field leaving `u64`.
    pub fn fits_with(&self, other: &Usage) -> (r: bool)
        ensures
            r == self.can_add(*other),
    {
        self.input <= u64::MAX - other.input && self.cached <= u64::MAX - other.cached
            && self.cache_write <= u64::MAX - other.cache_write && self.output <= u64::MAX
            - other.output && self.reasoning <= u64::MAX - other.reasoning && self.total
            <= u64::MAX - other.total
    }

    /// Adds `other` field by field.
    pub fn add(&mut self, other: Usage)
        requires
            old(self).can_add(other),
        ensures
            *final(self) == old(self).plus(other),
    {
        self.input = self.input + other.input;
        self.cached = self.cached + other.cached;
        self.cache_write = self.cache_write + other.cache_write;
        self.output = self.output + other.output;
        self.reasoning = self.reasoning + other.reasoning;
        self.total = self.total + other.total;
    }

    /// What each field grew by since `previous`; a field that shrank counts
    /// zero.
    pub open spec fn minus(self, previous: Usage) -> Usage {
        Usage {
            input: if self.input >= previous.input {
                (self.input - previous.input) as u64
            } else {
                0
            },
            cached: if self.cached >= previous.cached {
                (self.cached - previous.cached) as u64
            } else {
                0
            },
            cache_write: if self.cache_write >= previous.cache_write {
                (self.cache_write - previous.cache_write) as u64
            } else {
                0
            },
            output: if self.output >= previous.output {
                (self.output - previous.output) as u64
            } else {
                0
            },
            reasoning: if self.reasoning >= previous.reasoning {
                (self.reasoning - previous.reasoning) as u64
            } else {
                0
            },
            total: if self.total >= previous.total {
                (self.total - previous.total) as u64
            } else {
                0
            },
        }
    }

    /// What each field grew by since `previous`, field by field and never
    /// below zero.
    pub fn delta(self, previous: Usage) -> (r: Usage)
        ensures
            r == self.minus(previous),
    {
        Usage {
            input: self.input.saturating_sub(previous.input),
            cached: self.cached.saturating_sub(previous.cached),
            cache_write: self.cache_write.saturating_sub(previous.cache_write),
            output: self.output.saturating_sub(previous.output),
            reasoning: self.reasoning.saturating_sub(previous.reasoning),
            total: self.total.saturating_sub(previous.total),
        }
    }

    /// Some billable field (all but the total) is not zero.
    pub open spec fn is_billable(self) -> bool {
        self.input + self.cached + self.cache_write + self.output + self.reasoning > 0
    }

    /// Whether some billable field (all but the total) is not zero.
    pub fn any(self) -> (r: bool)
        ensures
            r == self.is_billable(),
    {
        self.input as u128 + self.cached as u128 + self.cache_write as u128 + self.output as u128
            + self.reasoning as u128 > 0
    }
}

/// The pricing tier of a usage record.
#[derive(Clone, Copy, Debug, PartialEq, Eq, Structural)]
pub enum ServiceTier {
    Standard,
    Fast,
}

/// The tier that a setting's text names: surrounding whitespace and then
/// surrounding quotation marks are dropped, case is ignored for ASCII
/// letters, and only `standard` and `fast` are known.
pub open spec fn spec_tier_from_text(value: Seq<char>) -> Option<ServiceTier> {
    let word = ascii_lower(trim(trim(value, CharClass::Whitespace), CharClass::Quote));
    if word == "standard"@ {
        Some(ServiceTier::Standard)
    } else if word == "fast"@ {
        Some(ServiceTier::Fast)
    } else {
        None
    }
}

impl ServiceTier {
    /// Reads a tier name such as `fast`, ` "Standard" ` or `'FAST'`.
    pub fn from_str(value: &str) -> (r: Option<ServiceTier>)
        ensures
            r == spec_tier_from_text(value@),
    {
        ServiceTier::from_chars(&chars_of(value))
    }

    /// Reads a tier name given as characters.
    pub fn from_chars(chars: &Vec<char>) -> (r: Option<ServiceTier>)
        ensures
            r == spec_tier_from_text(chars@),
    {
        let trimmed = trim_chars(chars, CharClass::Whitespace);
        let unquoted = trim_chars(&trimmed, CharClass::Quote);
        let word = ascii_lowercase(&unquoted);
        if chars_equal(&word, &chars_of("standard")) {
            Some(ServiceTier::Standard)
        } else if chars_equal(&word, &chars_of("fast")) {
            Some(ServiceTier::Fast)
        } else {
            None
        }
    }

    /// The tier's name as the diagnostic output shows it.
    pub fn label(self) -> (r: &'static str)
        ensures
            self == ServiceTier::Standard ==> r@ == "standard"@,
            self == ServiceTier::Fast ==> r@ == "fast"@,
    {
        match self {
            ServiceTier::Standard => "standard",
            ServiceTier::Fast => "fast",
        }
    }
}

/// One hundred billion cost units make one US dollar.  Prices and
/// multipliers are exact in this unit, so costs add up without rounding.
pub const COST_UNITS_PER_USD: u128 = 100_000_000_000;

/// The usage, cost and counts of a reporting period.
#[derive(Clone, Copy, Debug, PartialEq, Eq, Structural)]
pub struct Period {
    pub usage: Usage,
    /// Cost in units of `1 / COST_UNITS_PER_USD` US dollars.
    pub cost: u128,
    pub calls: u32,
    pub sessions: u32,
}

impl Period {
    /// Nothing recorded.
    pub open spec fn spec_empty() -> Period {
        Period { usage: Usage::spec_zero(), cost: 0, calls: 0, sessions: 0 }
    }

    /// Nothing recorded.
    pub fn empty() -> (r: Period)
        ensures
            r == Period::spec_empty(),
    {
        Period { usage: Usage::zero(), cost: 0, calls: 0, sessions: 0 }
    }

    /// Adding `other` stays within every field's type.
    pub open spec fn can_add(self, other: Period) -> bool {
        &&& self.usage.can_add(other.usage)
        &&& self.cost + other.cost <= u128::MAX
        &&& self.calls + other.calls <= u32::MAX
        &&& self.sessions + other.sessions <= u32::MAX
    }

    /// The field-by-field sum.
    pub open spec fn plus(self, other: Period) -> Period {
        Period {
            usage: self.usage.plus(other.usage),
            cost: (self.cost + other.cost) as u128,
            calls: (self.calls + other.calls) as u32,
            sessions: (self.sessions + other.sessions) as u32,
        }
    }

    /// Whether `other` can be added without a field leaving its type.
    pub fn fits_with(&self, other: &Period) -> (r: bool)
        ensures
            r == self.can_add(*other),
    {
        self.usage.fits_with(&other.usage) && self.cost <= u128::MAX - other.cost && self.calls
            <= u32::MAX - other.calls && self.sessions <= u32::MAX - other.sessions
    }

    /// Adds the usage, cost, calls and sessions of `other`.
    pub fn add(&mut self, other: Period)
        requires
            old(self).can_add(other),
        ensures
            *final(self) == old(self).plus(other),
    {
        self.usage.add(other.usage);
        self.cost = self.cost + other.cost;
        self.calls = self.calls + other.calls;
        self.sessions = self.sessions + other.sessions;
    }
}

} // verus!
