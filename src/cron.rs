//! The cron clock: parsing of cron expressions and the successive instants
//! that a schedule yields, as supplied by `cron_clock`.
use vstd::prelude::*;
use cron_clock::{Schedule, ScheduleIteratorOwned};
use cron_clock::Utc;
use vstd::string::StringSliceAdditionalSpecFns;
use crate::expression::cron_text_allowed;
use std::str::FromStr;

verus! {

#[verifier::external_type_specification]
#[verifier::external_body]
pub struct ExSchedule(cron_clock::Schedule);

/// The upcoming instants of a schedule, in UTC, held in a private field: the
/// iterator's type has a parameter bound by `cron_clock`'s `TimeZone`, which
/// cannot be declared here. A clock is only made by `upcoming_utc`, from a
/// schedule that `parse_schedule` gave.
#[verifier::external_body]
pub struct CronClock {
    upcoming: ScheduleIteratorOwned<Utc>,
}

/// Whether `cron_clock` accepts the text as a cron expression.
pub uninterp spec fn cron_accepts(expression: Seq<char>) -> bool;

/// Relies on `<cron_clock::Schedule as FromStr>::from_str`: it parses the
/// expression, and whether it succeeds depends on the text alone. A step of
/// zero makes it panic (`step_by(0)`), so such text is left out. Text whose
/// year field leaves out a year is left out too: an iterator over such a
/// schedule, started on 29 February, can panic in `next` when it moves on
/// to a year without that day.
#[verifier::external_body]
pub(crate) fn parse_schedule(expression: &str) -> (r: Option<Schedule>)
    requires
        cron_text_allowed(expression.spec_bytes()),
    ensures
        r.is_some() == cron_accepts(expression@),
{
    Schedule::from_str(expression).ok()
}

/// Relies on `cron_clock::Schedule::upcoming_owned`: an owned iterator over
/// the instants of the schedule that follow the current time, in UTC.
#[verifier::external_body]
pub(crate) fn upcoming_utc(schedule: Schedule) -> (r: CronClock) {
    CronClock { upcoming: schedule.upcoming_owned(Utc) }
}

/// Relies on `Iterator::next` of `cron_clock::ScheduleIteratorOwned`, with
/// the instant read as epoch seconds (`DateTime::timestamp`): the next
/// instant of the schedule, or `None` once the schedule has none left.
/// What comes back depends on the time at which the iterator was made. The
/// schedule's year field takes every year (see `parse_schedule`), so the
/// search never starts in a year that it skips.
#[verifier::external_body]
pub(crate) fn next_timestamp(clock: &mut CronClock) -> (r: Option<i64>) {
    match clock.upcoming.next() {
        Some(instant) => Some(instant.timestamp()),
        None => None,
    }
}

} // verus!
