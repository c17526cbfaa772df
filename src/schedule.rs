use vstd::prelude::*;

verus! {

/// The earliest instant, in seconds since the Unix epoch, that schedules handle.
pub const MIN_INSTANT: i64 = -8_000_000_000_000;

/// The latest instant, in seconds since the Unix epoch, that schedules handle
/// (about the year 255,000, well inside what calendar dates can represent).
pub const MAX_INSTANT: i64 = 8_000_000_000_000;

/// Whether `t` lies in the range of instants that schedules handle.
pub open spec fn in_range(t: i64) -> bool {
    MIN_INSTANT <= t <= MAX_INSTANT
}

/// Represents a schedule for scheduled tasks. Instants are seconds since the
/// Unix epoch, in UTC.
#[derive(Clone, Debug)]
pub enum Scheduled {
    /// A cron pattern for a periodic task, for example `"0/20 * * * * * *"`
    CronPattern(String),
    /// An instant at which a task is executed once
    ScheduleOnce(i64),
}

/// The error types that can occur while working with schedules.
#[derive(Debug)]
pub enum CronError {
    /// A problem occurred while parsing the cron expression.
    LibraryError(cron::error::Error),
    /// No schedule is provided for the task.
    TaskNotSchedulableError,
    /// The next execution can not be determined from the schedule.
    NoTimestampsError,
}

#[verifier::external_type_specification]
#[verifier::external_body]
pub struct ExCronParseError(cron::error::Error);

/// Whether the cron crate accepts `expr` as a cron expression.
pub uninterp spec fn cron_accepts(expr: Seq<char>) -> bool;

/// The next instant strictly after `t` for the cron expression `expr`, as the
/// cron crate computes it; the crate searches only the years 1970 to 2100, so
/// outside them it may find none where the expression would match.
pub uninterp spec fn cron_next(expr: Seq<char>, t: int) -> Option<int>;

/// Relies on `cron::Schedule::from_str`, which parses the expression (it
/// accepts or refuses by its text alone), and on `Schedule::after(..).next()`,
/// which yields the first matching instant strictly after `t`, or nothing.
/// `chrono::DateTime::from_timestamp` and `DateTime::timestamp` convert
/// between seconds and UTC dates; every instant in range has a date.
#[verifier::external_body]
fn cron_next_after(expr: &str, t: i64) -> (r: Result<Option<i64>, cron::error::Error>)
    requires
        in_range(t),
    ensures
        r is Ok <==> cron_accepts(expr@),
        r matches Ok(None) ==> cron_next(expr@, t as int) is None,
        r matches Ok(Some(n)) ==> n > t && cron_next(expr@, t as int) == Some(n as int),
{
    let schedule = <cron::Schedule as std::str::FromStr>::from_str(expr)?;
    match chrono::DateTime::from_timestamp(t, 0) {
        Some(after) => Ok(schedule.after(&after).next().map(|n| n.timestamp())),
        None => Ok(None),
    }
}

/// What resolving a one-shot schedule at `now` gives.
pub open spec fn once_outcome(at: i64, now: i64) -> Option<i64> {
    if at > now {
        Some(at)
    } else {
        None
    }
}

/// Resolves a one-shot schedule: `at` if it is strictly in the future,
/// else `NoTimestampsError`.
pub fn resolve_once(at: i64, now: i64) -> (r: Result<i64, CronError>)
    ensures
        r matches Ok(v) ==> once_outcome(at, now) == Some(v),
        once_outcome(at, now) is None <==> (r matches Err(CronError::NoTimestampsError)),
        at > now ==> (r matches Ok(v) && v == at),
        at <= now ==> r matches Err(CronError::NoTimestampsError),
{
    if at > now {
        Ok(at)
    } else {
        Err(CronError::NoTimestampsError)
    }
}

/// Turns what the cron expression yielded into the resolver's outcome: a
/// parse failure is a `LibraryError`, no further match is `NoTimestampsError`.
pub fn cron_outcome(found: Result<Option<i64>, cron::error::Error>) -> (r: Result<i64, CronError>)
    ensures
        found is Err ==> r matches Err(CronError::LibraryError(_)),
        found matches Ok(None) ==> r matches Err(CronError::NoTimestampsError),
        found matches Ok(Some(n)) ==> (r matches Ok(v) && v == n),
{
    match found {
        Err(e) => Err(CronError::LibraryError(e)),
        Ok(None) => Err(CronError::NoTimestampsError),
        Ok(Some(n)) => Ok(n),
    }
}

/// Computes the next execution instant of `schedule`, strictly after `now`.
pub fn resolve(schedule: &Option<Scheduled>, now: i64) -> (r: Result<i64, CronError>)
    requires
        in_range(now),
    ensures
        schedule is None ==> r matches Err(CronError::TaskNotSchedulableError),
        schedule matches Some(Scheduled::ScheduleOnce(at)) ==> {
            &&& at > now ==> (r matches Ok(v) && v == at)
            &&& at <= now ==> (r matches Err(CronError::NoTimestampsError))
        },
        schedule matches Some(Scheduled::CronPattern(expr)) ==> {
            &&& !cron_accepts(expr@) <==> (r matches Err(CronError::LibraryError(_)))
            &&& cron_accepts(expr@) && cron_next(expr@, now as int) is None <==> (r matches Err(
                CronError::NoTimestampsError,
            ))
            &&& cron_accepts(expr@) && cron_next(expr@, now as int) is Some ==> (r matches Ok(v)
                && v > now && cron_next(expr@, now as int) == Some(v as int))
            &&& r is Ok ==> cron_accepts(expr@) && cron_next(expr@, now as int) is Some
        },
{
    match schedule {
        None => Err(CronError::TaskNotSchedulableError),
        Some(Scheduled::ScheduleOnce(at)) => resolve_once(*at, now),
        Some(Scheduled::CronPattern(expr)) => cron_outcome(cron_next_after(expr.as_str(), now)),
    }
}

} // verus!
