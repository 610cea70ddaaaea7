//! The engine's only two views of the wall clock.
//!
//! Time cannot be pinned by a contract, so every function that needs an
//! instant either takes it as an argument, or calls one of these wrappers
//! and states only what holds of every possible reading.

use vstd::prelude::*;
use chrono::Datelike;
use chrono::Timelike;

verus! {

/// A calendar instant broken into plain fields, as milestone names use it.
#[derive(Clone, Copy, PartialEq, Eq, Structural)]
pub struct DateParts {
    pub year: i32,
    pub month: u32,
    pub day: u32,
    pub hour: u32,
    pub minute: u32,
    pub second: u32,
}

impl DateParts {
    /// The field ranges the calendar guarantees, with the year limited to
    /// four digits as milestone names require.
    pub open spec fn wf(self) -> bool {
        &&& 0 <= self.year <= 9999
        &&& 1 <= self.month <= 12
        &&& 1 <= self.day <= 31
        &&& self.hour <= 23
        &&& self.minute <= 59
        &&& self.second <= 59
    }
}

/// Relies on chrono::Utc::now with the Datelike and Timelike accessors,
/// whose documentation bounds every field below the year: months run 1-12,
/// days 1-31, hours 0-23, minutes and seconds 0-59.
#[verifier::external_body]
pub(crate) fn current_date_parts() -> (r: DateParts)
    ensures
        1 <= r.month <= 12,
        1 <= r.day <= 31,
        r.hour <= 23,
        r.minute <= 59,
        r.second <= 59,
{
    let t = chrono::Utc::now();
    DateParts {
        year: t.year(),
        month: t.month(),
        day: t.day(),
        hour: t.hour(),
        minute: t.minute(),
        second: t.second(),
    }
}

/// Relies on chrono::Utc::now, chrono::TimeDelta::days and
/// DateTime::to_rfc3339: the RFC 3339 rendering of the instant `days` days
/// before now. The bound on `days` keeps the subtraction inside the range
/// the calendar supports, where neither call panics.
#[verifier::external_body]
pub(crate) fn rfc3339_days_before(days: u32) -> (r: String)
    requires
        days <= 100_000,
{
    (chrono::Utc::now() - chrono::TimeDelta::days(days as i64)).to_rfc3339()
}

} // verus!
