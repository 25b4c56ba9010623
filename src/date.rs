use chrono::Datelike;
use vstd::prelude::*;

verus! {

/// A calendar date as the logic reads it: year, month (from 1) and day of
/// month (from 1).
#[derive(Clone, Copy, Debug, PartialEq, Eq, Structural)]
pub struct Date {
    pub year: i32,
    pub month: u32,
    pub day: u32,
}

impl Date {
    /// A date whose month and day lie in their calendar ranges.
    pub open spec fn wf(&self) -> bool {
        1 <= self.month <= 12 && 1 <= self.day <= 31
    }

    pub fn new(year: i32, month: u32, day: u32) -> (r: Date)
        ensures
            r == (Date { year, month, day }),
    {
        Date { year, month, day }
    }
}

#[verifier::external_type_specification]
#[verifier::external_body]
pub struct ExSystemTime(std::time::SystemTime);

#[verifier::external_type_specification]
#[verifier::external_body]
pub struct ExSystemTimeError(std::time::SystemTimeError);

/// Relies on `SystemTime::now`: the system clock's current reading.
pub assume_specification[ std::time::SystemTime::now ]() -> std::time::SystemTime;

/// Relies on `SystemTime::duration_since`: an error where `earlier` is later
/// than `self`, which the caller handles.
pub assume_specification[ std::time::SystemTime::duration_since ](
    t: &std::time::SystemTime,
    earlier: std::time::SystemTime,
) -> Result<core::time::Duration, std::time::SystemTimeError>;

/// Relies on `Duration::as_secs`: the whole seconds of a duration.
pub assume_specification[ core::time::Duration::as_secs ](d: &core::time::Duration) -> u64;

/// Relies on `SystemTime::UNIX_EPOCH`, the start of 1970 in UTC.
#[verifier::external_body]
fn unix_epoch() -> std::time::SystemTime {
    std::time::SystemTime::UNIX_EPOCH
}

/// Relies on chrono's `DateTime::from_timestamp` (None where the seconds
/// fall outside chrono's range), `DateTime::date_naive` and `Datelike`,
/// whose month and day are counted from 1 and lie in 1..=12 and 1..=31.
#[verifier::external_body]
fn utc_date_at(secs: i64) -> (r: Option<Date>)
    ensures
        r matches Some(d) ==> d.wf(),
{
    match chrono::DateTime::from_timestamp(secs, 0) {
        Some(t) => {
            let d = t.date_naive();
            Some(Date { year: d.year(), month: d.month(), day: d.day() })
        },
        None => None,
    }
}

/// Today's date in UTC, read from the system clock; None where the clock
/// reads before 1970 or outside the range of dates that can be held.
pub fn system_today() -> (r: Option<Date>)
    ensures
        r matches Some(d) ==> d.wf(),
{
    let now = std::time::SystemTime::now();
    match now.duration_since(unix_epoch()) {
        Ok(elapsed) => {
            let secs = elapsed.as_secs();
            if secs <= i64::MAX as u64 {
                utc_date_at(secs as i64)
            } else {
                None
            }
        },
        Err(_) => None,
    }
}

/// A source of "today". The default reads the system clock (UTC); a test
/// double returns chosen values so that day changes can be simulated.
/// None says that the date could not be read.
pub trait CurrentDate {
    fn current_date() -> (r: Option<Date>)
        ensures
            r matches Some(d) ==> d.wf(),
    {
        system_today()
    }

    /// Year, month, day.
    fn ymd(date: &Date) -> (r: (i32, u32, u32))
        ensures
            r == (date.year, date.month, date.day),
    {
        (date.year, date.month, date.day)
    }
}

/// The date source that reads the system clock.
#[derive(Debug)]
pub struct SystemDate;

impl CurrentDate for SystemDate {
    fn current_date() -> (r: Option<Date>) {
        system_today()
    }
}

} // verus!
