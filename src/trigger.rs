use crate::date::{CurrentDate, Date};
use vstd::prelude::*;

verus! {

/// Something that decides, on each record, whether the current file must be
/// left for a new one.
pub trait RollingTrigger {
    /// Reports whether a boundary was crossed since the last call, given
    /// today's date.
    fn trigger(&mut self, today: &Date) -> bool;
}

/// One check of a day trigger: whether `day` differs from the last day seen,
/// and the day it remembers afterwards.
pub open spec fn check_step(last_day: u32, day: u32) -> (bool, u32) {
    (day != last_day, day)
}

/// The answers of a run of checks on the days `days`, starting from a
/// trigger that last saw `last_day`.
pub open spec fn check_outcomes(last_day: u32, days: Seq<u32>) -> Seq<bool>
    decreases days.len(),
{
    if days.len() == 0 {
        seq![]
    } else {
        let (fired, next) = check_step(last_day, days[0]);
        seq![fired] + check_outcomes(next, days.skip(1))
    }
}

/// Fires when the day of month differs from the one it last saw.
#[derive(Debug)]
pub struct DateTrigger {
    last_day: u32,
}

impl DateTrigger {
    /// The day of month this trigger last saw.
    pub closed spec fn last_day(&self) -> u32 {
        self.last_day
    }

    /// A trigger that starts on today's day, as the date source gives it;
    /// None where the date source could not read the date.
    pub fn new<D: CurrentDate>() -> (r: Option<DateTrigger>)
        ensures
            r matches Some(t) ==> 1 <= t.last_day() <= 31,
    {
        match D::current_date() {
            Some(today) => Some(DateTrigger::starting_on(today.day)),
            None => None,
        }
    }

    /// A trigger that starts on the given day of month.
    pub fn starting_on(day: u32) -> (r: DateTrigger)
        ensures
            r.last_day() == day,
    {
        DateTrigger { last_day: day }
    }

    /// The day of month this trigger last saw.
    pub fn day(&self) -> (r: u32)
        ensures
            r == self.last_day(),
    {
        self.last_day
    }

    /// Compares `day` with the last day seen and remembers `day`; answers
    /// whether they differed.
    pub fn check_day(&mut self, day: u32) -> (fired: bool)
        ensures
            (fired, final(self).last_day()) == check_step(old(self).last_day(), day),
    {
        let fired = day != self.last_day;
        if fired {
            self.last_day = day;
        }
        fired
    }
}

impl RollingTrigger for DateTrigger {
    fn trigger(&mut self, today: &Date) -> (fired: bool)
        ensures
            (fired, final(self).last_day()) == check_step(old(self).last_day(), today.day),
    {
        self.check_day(today.day)
    }
}

/// With the date source held still, only the first check can fire, and it
/// fires exactly when the day differs from the one the trigger started on;
/// every later check answers false.
pub proof fn lemma_constant_source_fires_at_most_once(start: u32, days: Seq<u32>)
    requires
        days.len() > 0,
        forall|i: int| 0 <= i < days.len() ==> #[trigger] days[i] == days[0],
    ensures
        check_outcomes(start, days).len() == days.len(),
        check_outcomes(start, days)[0] == (days[0] != start),
        forall|i: int| 1 <= i < days.len() ==> !check_outcomes(start, days)[i],
    decreases days.len(),
{
    lemma_outcomes_len(start, days);
    let rest = days.skip(1);
    if rest.len() > 0 {
        lemma_constant_source_fires_at_most_once(days[0], rest);
        assert(rest[0] == days[0]);
    }
    assert forall|i: int| 1 <= i < days.len() implies !check_outcomes(start, days)[i] by {
        assert(check_outcomes(start, days)[i] == check_outcomes(days[0], rest)[i - 1]);
    }
}

proof fn lemma_outcomes_len(start: u32, days: Seq<u32>)
    ensures
        check_outcomes(start, days).len() == days.len(),
    decreases days.len(),
{
    if days.len() > 0 {
        lemma_outcomes_len(days[0], days.skip(1));
    }
}

/// The answer of a check, and of the one after it, read off a run of checks:
/// check `k` answers whether day `k` differs from day `k - 1` (or, for the
/// first, from the starting day).
pub proof fn lemma_outcome_at(start: u32, days: Seq<u32>, k: int)
    requires
        0 <= k < days.len(),
    ensures
        check_outcomes(start, days).len() == days.len(),
        check_outcomes(start, days)[k] == (days[k] != (if k == 0 { start } else { days[k - 1] })),
    decreases days.len(),
{
    lemma_outcomes_len(start, days);
    if k > 0 {
        lemma_outcome_at(days[0], days.skip(1), k - 1);
        if k > 1 {
            assert(days.skip(1)[k - 2] == days[k - 1]);
        }
    }
}

/// When the day advances by one between checks `n` and `n + 1`, check
/// `n + 1` fires, and a check right after it on the same day does not.
pub proof fn lemma_advance_fires_once(start: u32, days: Seq<u32>, n: int)
    requires
        0 <= n,
        n + 2 < days.len(),
        days[n + 1] == days[n] + 1,
        days[n + 2] == days[n + 1],
    ensures
        check_outcomes(start, days)[n + 1],
        !check_outcomes(start, days)[n + 2],
{
    lemma_outcome_at(start, days, n + 1);
    lemma_outcome_at(start, days, n + 2);
}

} // verus!
