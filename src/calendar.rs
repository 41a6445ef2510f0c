//! Calendar granularities and the step between two adjacent axis ticks.

use chrono::{DateTime, Datelike, Months, NaiveDate, NaiveDateTime, NaiveTime};
use vstd::prelude::*;

verus! {

/// Earliest supported timestamp: 0001-01-01T00:00:00.
pub const MIN_STAMP: i64 = -62135596800;

/// Latest supported timestamp: 9999-12-31T23:59:59.
pub const MAX_STAMP: i64 = 253402300799;

pub const SECS_PER_HOUR: i64 = 3600;

pub const SECS_PER_DAY: i64 = 86400;

/// A timestamp inside the supported calendar range.
pub open spec fn in_range(t: int) -> bool {
    MIN_STAMP <= t <= MAX_STAMP
}

/// The time unit that one axis bucket stands for.
#[derive(Clone, Copy, PartialEq, Eq, Debug, Structural)]
pub enum ViewMode {
    Day,
    HalfDay,
    Hour,
    Month,
    QuarterDay,
    QuarterYear,
    Week,
    Year,
}

/// Length in seconds of a fixed-duration step (zero for calendar-month steps).
pub open spec fn fixed_step(m: ViewMode) -> int {
    match m {
        ViewMode::Hour => 3600,
        ViewMode::QuarterDay => 21600,
        ViewMode::HalfDay => 43200,
        ViewMode::Day => 86400,
        ViewMode::Week => 604800,
        _ => 0,
    }
}

/// Number of calendar months in a step (zero for fixed-duration steps).
pub open spec fn month_step(m: ViewMode) -> int {
    match m {
        ViewMode::Month => 1,
        ViewMode::QuarterYear => 3,
        ViewMode::Year => 12,
        _ => 0,
    }
}

pub open spec fn is_calendar_mode(m: ViewMode) -> bool {
    month_step(m) > 0
}

/// What chrono gives for `t` shifted `n` calendar months forward.
pub uninterp spec fn months_after(t: i64, n: u32) -> Option<i64>;

/// What chrono gives for `t` shifted `n` calendar months backward.
pub uninterp spec fn months_before(t: i64, n: u32) -> Option<i64>;

/// Calendar year of a timestamp.
pub uninterp spec fn year_of(t: i64) -> i32;

/// Calendar month (1 to 12) of a timestamp.
pub uninterp spec fn month_of(t: i64) -> u32;

/// Day of the month (1 to 31) of a timestamp.
pub uninterp spec fn day_of(t: i64) -> u32;

/// ISO 8601 week number (1 to 53) of a timestamp.
pub uninterp spec fn iso_week_of(t: i64) -> u32;

/// Midnight starting the given calendar date, when that date exists.
pub uninterp spec fn midnight_of(y: i32, m: u32, d: u32) -> Option<i64>;

/// Relies on chrono's `NaiveDateTime::checked_add_months`: the same wall-clock
/// time `n` months later (day clamped to the month's end), `None` when out of
/// chrono's range.
#[verifier::external_body]
fn add_months(t: i64, n: u32) -> (r: Option<i64>)
    requires
        in_range(t as int),
    ensures
        r == months_after(t, n),
{
    let d = DateTime::from_timestamp(t, 0).unwrap().naive_utc();
    match d.checked_add_months(Months::new(n)) {
        Some(v) => Some(v.and_utc().timestamp()),
        None => None,
    }
}

/// Relies on chrono's `NaiveDateTime::checked_sub_months`: the same wall-clock
/// time `n` months earlier (day clamped to the month's end), `None` when out of
/// chrono's range.
#[verifier::external_body]
fn sub_months(t: i64, n: u32) -> (r: Option<i64>)
    requires
        in_range(t as int),
    ensures
        r == months_before(t, n),
{
    let d = DateTime::from_timestamp(t, 0).unwrap().naive_utc();
    match d.checked_sub_months(Months::new(n)) {
        Some(v) => Some(v.and_utc().timestamp()),
        None => None,
    }
}

/// Relies on chrono's `Datelike::year` for the timestamp's date.
#[verifier::external_body]
pub(crate) fn year(t: i64) -> (r: i32)
    requires
        in_range(t as int),
    ensures
        r == year_of(t),
{
    DateTime::from_timestamp(t, 0).unwrap().naive_utc().year()
}

/// Relies on chrono's `Datelike::month`, documented to range from 1 to 12.
#[verifier::external_body]
pub(crate) fn month(t: i64) -> (r: u32)
    requires
        in_range(t as int),
    ensures
        r == month_of(t),
        1 <= r <= 12,
{
    DateTime::from_timestamp(t, 0).unwrap().naive_utc().month()
}

/// Relies on chrono's `Datelike::day`, documented to range from 1 to 31.
#[verifier::external_body]
pub(crate) fn day(t: i64) -> (r: u32)
    requires
        in_range(t as int),
    ensures
        r == day_of(t),
        1 <= r <= 31,
{
    DateTime::from_timestamp(t, 0).unwrap().naive_utc().day()
}

/// Relies on chrono's `IsoWeek::week` (of `Datelike::iso_week`), documented to
/// range from 1 to 53.
#[verifier::external_body]
pub(crate) fn iso_week(t: i64) -> (r: u32)
    requires
        in_range(t as int),
    ensures
        r == iso_week_of(t),
        1 <= r <= 53,
{
    DateTime::from_timestamp(t, 0).unwrap().naive_utc().iso_week().week()
}

/// Relies on chrono's `NaiveDate::from_ymd_opt`: the date, or `None` when it
/// does not exist; the result is its midnight.
#[verifier::external_body]
fn midnight(y: i32, m: u32, d: u32) -> (r: Option<i64>)
    ensures
        r == midnight_of(y, m, d),
{
    match NaiveDate::from_ymd_opt(y, m, d) {
        Some(v) => Some(v.and_time(NaiveTime::MIN).and_utc().timestamp()),
        None => None,
    }
}

/// One step from `t`, forward or backward, as the mode prescribes; `None` when
/// the result leaves the supported range.
pub open spec fn step_spec(m: ViewMode, t: i64, forward: bool) -> Option<i64> {
    let r = if is_calendar_mode(m) {
        if forward {
            months_after(t, month_step(m) as u32)
        } else {
            months_before(t, month_step(m) as u32)
        }
    } else {
        let v = if forward { t + fixed_step(m) } else { t - fixed_step(m) };
        if in_range(v) { Some(v as i64) } else { None }
    };
    match r {
        Some(v) => if in_range(v as int) { Some(v) } else { None },
        None => None,
    }
}

/// Floor of `t` to a multiple of `unit` seconds.
pub open spec fn floor_to(t: int, unit: int) -> int {
    t - t % unit
}

/// Candidate bucket boundary at or before `t`, before it is checked.
pub open spec fn snap_candidate(m: ViewMode, t: i64) -> Option<i64> {
    match m {
        ViewMode::Hour => Some(floor_to(t as int, 3600) as i64),
        ViewMode::QuarterDay => Some(floor_to(t as int, 21600) as i64),
        ViewMode::HalfDay => Some(floor_to(t as int, 43200) as i64),
        ViewMode::Day => Some(floor_to(t as int, 86400) as i64),
        // 1970-01-05 was a Monday: weeks start on Mondays.
        ViewMode::Week => Some((floor_to(t - 345600, 604800) + 345600) as i64),
        ViewMode::Month => midnight_of(year_of(t), month_of(t), 1),
        ViewMode::QuarterYear => midnight_of(
            year_of(t),
            ((month_of(t) - 1) / 3 * 3 + 1) as u32,
            1,
        ),
        ViewMode::Year => midnight_of(year_of(t), 1, 1),
    }
}

/// The bucket boundary at or before `t`; `t` itself where no such boundary is
/// known.
pub open spec fn snap_spec(m: ViewMode, t: i64) -> i64 {
    match snap_candidate(m, t) {
        Some(v) => if in_range(v as int) && v <= t { v } else { t },
        None => t,
    }
}

impl Default for ViewMode {
    fn default() -> (r: ViewMode)
        ensures
            r == ViewMode::Month,
    {
        ViewMode::Month
    }
}

impl ViewMode {
    /// Fixed step length in seconds of this mode, zero for calendar-month modes.
    pub fn step_seconds(&self) -> (r: i64)
        ensures
            r == fixed_step(*self),
    {
        match self {
            ViewMode::Hour => 3600,
            ViewMode::QuarterDay => 21600,
            ViewMode::HalfDay => 43200,
            ViewMode::Day => 86400,
            ViewMode::Week => 604800,
            _ => 0,
        }
    }

    /// Calendar months in one step of this mode, zero for fixed-duration modes.
    pub fn step_months(&self) -> (r: u32)
        ensures
            r == month_step(*self),
    {
        match self {
            ViewMode::Month => 1,
            ViewMode::QuarterYear => 3,
            ViewMode::Year => 12,
            _ => 0,
        }
    }

    /// The timestamp one step after (`add`) or before `date_time`.
    pub fn get_mod_date(&self, date_time: i64, add: bool) -> (r: Option<i64>)
        requires
            in_range(date_time as int),
        ensures
            r == step_spec(*self, date_time, add),
    {
        let months = self.step_months();
        let r = if months > 0 {
            if add {
                add_months(date_time, months)
            } else {
                sub_months(date_time, months)
            }
        } else {
            let s = self.step_seconds();
            let v = if add { date_time + s } else { date_time - s };
            if MIN_STAMP <= v && v <= MAX_STAMP {
                Some(v)
            } else {
                None
            }
        };
        match r {
            Some(v) => if MIN_STAMP <= v && v <= MAX_STAMP {
                Some(v)
            } else {
                None
            },
            None => None,
        }
    }

    /// The bucket boundary at or before `t` for this mode.
    pub fn snap(&self, t: i64) -> (r: i64)
        requires
            in_range(t as int),
        ensures
            r == snap_spec(*self, t),
            in_range(r as int),
            r <= t,
    {
        let cand = match self {
            ViewMode::Hour => Some(t - t.checked_rem_euclid(3600).unwrap()),
            ViewMode::QuarterDay => Some(t - t.checked_rem_euclid(21600).unwrap()),
            ViewMode::HalfDay => Some(t - t.checked_rem_euclid(43200).unwrap()),
            ViewMode::Day => Some(t - t.checked_rem_euclid(86400).unwrap()),
            ViewMode::Week => {
                let s = t - 345600;
                Some(s - s.checked_rem_euclid(604800).unwrap() + 345600)
            },
            ViewMode::Month => midnight(year(t), month(t), 1),
            ViewMode::QuarterYear => {
                let mo = month(t);
                midnight(year(t), (mo - 1) / 3 * 3 + 1, 1)
            },
            ViewMode::Year => midnight(year(t), 1, 1),
        };
        match cand {
            Some(v) => if MIN_STAMP <= v && v <= t {
                v
            } else {
                t
            },
            None => t,
        }
    }
}

/// For fixed-duration modes a step back undoes a step forward.
pub proof fn lemma_fixed_step_inverse(m: ViewMode, t: i64)
    requires
        !is_calendar_mode(m),
        in_range(t as int),
        step_spec(m, t, true) is Some,
    ensures
        step_spec(m, step_spec(m, t, true).unwrap(), false) == Some(t),
{
}

/// What chrono reads from `text` in the layout `format`, as a timestamp.
pub uninterp spec fn parsed_stamp(text: Seq<char>, format: Seq<char>) -> Option<i64>;

/// Relies on chrono's `NaiveDateTime::parse_from_str`: the date and time
/// `text` spells in `format`, `None` where it spells none.
#[verifier::external_body]
fn parse_naive(text: &str, format: &str) -> (r: Option<i64>)
    ensures
        r == parsed_stamp(text@, format@),
{
    match NaiveDateTime::parse_from_str(text, format) {
        Ok(d) => Some(d.and_utc().timestamp()),
        Err(_) => None,
    }
}

/// The timestamp a task's start or end text gives in `format`: `None` where
/// the text is missing, cannot be read, or lies outside the supported range.
pub fn read_stamp(text: &Option<String>, format: &String) -> (r: Option<i64>)
    ensures
        r == match text {
            Some(s) => match parsed_stamp(s@, format@) {
                Some(v) => if in_range(v as int) { Some(v) } else { None },
                None => None,
            },
            None => None,
        },
        r matches Some(v) ==> in_range(v as int),
{
    match text {
        Some(s) => match parse_naive(s.as_str(), format.as_str()) {
            Some(v) => if MIN_STAMP <= v && v <= MAX_STAMP {
                Some(v)
            } else {
                None
            },
            None => None,
        },
        None => None,
    }
}

} // verus!
