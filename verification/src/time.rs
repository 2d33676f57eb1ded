//! Wall-clock instants and time budgets, as plain seconds and nanoseconds.

use vstd::prelude::*;

verus! {

/// Nanoseconds in one second.
pub const NANOS_PER_SEC: u32 = 1_000_000_000;

/// An instant in UTC: whole seconds since the Unix epoch and the nanoseconds
/// past that second.
#[derive(Clone, Copy, Debug, PartialEq, Eq, Structural)]
pub struct Timestamp {
    pub secs: i64,
    pub nanos: u32,
}

/// A span of time that a round or a submission may take.
#[derive(Clone, Copy, Debug, PartialEq, Eq, Structural)]
pub struct TimeBudget {
    pub secs: u64,
    pub nanos: u32,
}

impl Timestamp {
    /// The nanoseconds stay below one second.
    pub open spec fn wf(self) -> bool {
        self.nanos < NANOS_PER_SEC
    }

    /// Nanoseconds since the Unix epoch.
    pub open spec fn total_nanos(self) -> int {
        self.secs * 1_000_000_000 + self.nanos
    }

    pub fn is_well_formed(&self) -> (ok: bool)
        ensures
            ok == self.wf(),
    {
        self.nanos < NANOS_PER_SEC
    }

    /// `self` is at or after `other`. For well-formed instants this is the
    /// order of their nanoseconds since the epoch.
    pub open spec fn at_or_after(self, other: Timestamp) -> bool {
        self.secs > other.secs || (self.secs == other.secs && self.nanos >= other.nanos)
    }

    /// Whether `self` is at or after `other`.
    pub fn reached(&self, other: &Timestamp) -> (reached: bool)
        ensures
            reached == self.at_or_after(*other),
            self.wf() && other.wf() ==> reached == (self.total_nanos() >= other.total_nanos()),
    {
        self.secs > other.secs || (self.secs == other.secs && self.nanos >= other.nanos)
    }
}

impl TimeBudget {
    /// The nanoseconds stay below one second.
    pub open spec fn wf(self) -> bool {
        self.nanos < NANOS_PER_SEC
    }

    /// The length of the span in nanoseconds.
    pub open spec fn total_nanos(self) -> int {
        self.secs * 1_000_000_000 + self.nanos
    }

    pub fn is_well_formed(&self) -> (ok: bool)
        ensures
            ok == self.wf(),
    {
        self.nanos < NANOS_PER_SEC
    }
}

/// The instant that chrono computes for `start` plus `budget`, or `None`
/// where chrono cannot represent the start, the span or their sum.
pub uninterp spec fn deadline_after(start: Timestamp, budget: TimeBudget) -> Option<Timestamp>;

/// The last second of the year 9999.
pub const END_OF_9999: i64 = 253_402_300_799;

/// The most seconds that a span of chrono can have: the seconds of
/// `i64::MAX` milliseconds.
pub const MAX_SPAN_SECS: u64 = 9_223_372_036_854_775;

/// The most nanoseconds that a span of [`MAX_SPAN_SECS`] seconds can have
/// beside them.
pub const MAX_SPAN_NANOS: u32 = 807_000_000;

/// The start lies between the epoch and the end of the year 9999, and the
/// budget is no longer than that stretch. Every such deadline can be
/// computed: chrono reaches far beyond the year 20000.
pub open spec fn in_common_range(start: Timestamp, budget: TimeBudget) -> bool {
    0 <= start.secs <= END_OF_9999 && budget.secs <= END_OF_9999
}

/// The budget is longer than any span of chrono. No deadline can be
/// computed for it.
pub open spec fn beyond_any_span(budget: TimeBudget) -> bool {
    budget.secs > MAX_SPAN_SECS || (budget.secs == MAX_SPAN_SECS && budget.nanos > MAX_SPAN_NANOS)
}

/// Reads the clock through `chrono::Utc::now`. Nothing is claimed of the
/// instant but that its nanoseconds stay below one second, which is how
/// chrono builds it from the system time.
#[verifier::external_body]
pub(crate) fn utc_now() -> (now: Timestamp)
    ensures
        now.wf(),
{
    let now = chrono::Utc::now();
    Timestamp { secs: now.timestamp(), nanos: now.timestamp_subsec_nanos() }
}

/// Adds a budget to an instant with `chrono::DateTime::checked_add_signed`,
/// after `chrono::DateTime::from_timestamp` and `chrono::TimeDelta::from_std`
/// have taken the two arguments over. The result is named by
/// [`deadline_after`]. Where there is one, it is the exact sum. There is
/// one for every start and budget in the common range: chrono holds every
/// instant of the years -262143 to 262142. There is none for a budget
/// above `TimeDelta::MAX`, which `from_std` refuses.
#[verifier::external_body]
pub(crate) fn add_budget(start: Timestamp, budget: TimeBudget) -> (end: Option<Timestamp>)
    requires
        start.wf(),
        budget.wf(),
    ensures
        end == deadline_after(start, budget),
        end matches Some(t) ==> t.wf() && t.total_nanos() == start.total_nanos()
            + budget.total_nanos(),
        in_common_range(start, budget) ==> end is Some,
        beyond_any_span(budget) ==> end is None,
{
    let begin = chrono::DateTime::from_timestamp(start.secs, start.nanos)?;
    let budget = std::time::Duration::new(budget.secs, budget.nanos);
    let span = chrono::TimeDelta::from_std(budget).ok()?;
    let end = begin.checked_add_signed(span)?;
    Some(Timestamp { secs: end.timestamp(), nanos: end.timestamp_subsec_nanos() })
}

/// The deadline of a span that starts at `start`: `None` where an argument
/// is malformed or the sum cannot be represented.
pub open spec fn spec_deadline(start: Timestamp, budget: TimeBudget) -> Option<Timestamp> {
    if start.wf() && budget.wf() {
        deadline_after(start, budget)
    } else {
        None
    }
}

/// Computes the absolute deadline of a span that starts at `start`.
pub fn deadline(start: Timestamp, budget: TimeBudget) -> (end: Option<Timestamp>)
    ensures
        end == spec_deadline(start, budget),
        end matches Some(t) ==> t.wf() && t.total_nanos() == start.total_nanos()
            + budget.total_nanos(),
        !start.wf() || !budget.wf() || beyond_any_span(budget) ==> end is None,
        start.wf() && budget.wf() && in_common_range(start, budget) ==> end is Some,
{
    if start.is_well_formed() && budget.is_well_formed() {
        add_budget(start, budget)
    } else {
        None
    }
}

} // verus!
