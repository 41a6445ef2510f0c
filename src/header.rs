//! The two-tier calendar header: one label per bucket below, one tick and
//! label per group of buckets above.

use crate::axis::axis_well_formed;
use crate::calendar::{day, day_of, in_range, iso_week, iso_week_of, month, month_of, year, year_of, ViewMode};
use crate::coords::canvas_fits;
use vstd::prelude::*;

verus! {

/// What a header entry shows.
#[derive(Clone, Copy, PartialEq, Eq, Debug, Structural)]
pub enum HeaderLabel {
    /// Hour of the day, 0 to 23.
    Hour(u32),
    /// Day of the month.
    Day(u32),
    /// ISO week number.
    Week(u32),
    /// Month, 1 to 12.
    Month(u32),
    /// Quarter of the year, 1 to 4.
    Quarter(u32),
    Year(i32),
    /// A calendar date: year, month, day.
    Date(i32, u32, u32),
    /// A month of a year: year, month.
    YearMonth(i32, u32),
}

/// A label at a horizontal position; in the upper tier also a tick at
/// `tick_x`.
#[derive(Clone, Copy, PartialEq, Eq, Debug, Structural)]
pub struct HeaderEntry {
    pub tick_x: i64,
    pub x: i64,
    pub label: HeaderLabel,
}

/// Both tiers of the header.
#[derive(Clone, Debug)]
pub struct Header {
    pub upper: Vec<HeaderEntry>,
    pub lower: Vec<HeaderEntry>,
}

/// Hour of the day of a timestamp.
pub open spec fn hour_of(t: int) -> int {
    (t % 86400) / 3600
}

/// Days since the epoch of a timestamp.
pub open spec fn day_number(t: int) -> int {
    t / 86400
}

pub open spec fn is_hourly(m: ViewMode) -> bool {
    m == ViewMode::Hour || m == ViewMode::QuarterDay || m == ViewMode::HalfDay
}

pub open spec fn is_daily(m: ViewMode) -> bool {
    m == ViewMode::Day || m == ViewMode::Week
}

/// Label of the bucket that starts at `t`.
pub open spec fn lower_label(m: ViewMode, t: i64) -> HeaderLabel {
    match m {
        ViewMode::Day => HeaderLabel::Day(day_of(t)),
        ViewMode::Week => HeaderLabel::Week(iso_week_of(t)),
        ViewMode::Month => HeaderLabel::Month(month_of(t)),
        ViewMode::QuarterYear => HeaderLabel::Quarter(((month_of(t) + 2) / 3) as u32),
        ViewMode::Year => HeaderLabel::Year(year_of(t)),
        _ => HeaderLabel::Hour(hour_of(t as int) as u32),
    }
}

/// The group a tick falls into: its date for hourly modes, its month for
/// daily and weekly modes, its year otherwise.
pub open spec fn group_key(m: ViewMode, t: i64) -> (int, int) {
    if is_hourly(m) {
        (day_number(t as int), 0)
    } else if is_daily(m) {
        (year_of(t) as int, month_of(t) as int)
    } else {
        (year_of(t) as int, 0)
    }
}

/// Label of the group that starts at `t`.
pub open spec fn upper_label(m: ViewMode, t: i64) -> HeaderLabel {
    if is_hourly(m) {
        HeaderLabel::Date(year_of(t), month_of(t), day_of(t))
    } else if is_daily(m) {
        HeaderLabel::YearMonth(year_of(t), month_of(t))
    } else {
        HeaderLabel::Year(year_of(t))
    }
}

/// Bucket `i` is the first of its group.
pub open spec fn starts_group(ax: Seq<i64>, m: ViewMode, i: int) -> bool {
    i == 0 || group_key(m, ax[i]) != group_key(m, ax[i - 1])
}

/// First bucket at or after `j` that starts a group, or the bucket count.
pub open spec fn run_end(ax: Seq<i64>, m: ViewMode, j: int) -> int
    decreases ax.len() - 1 - j,
{
    if j >= ax.len() - 1 || j < 0 || starts_group(ax, m, j) {
        j
    } else {
        run_end(ax, m, j + 1)
    }
}

/// Entries, in order, of the upper tier for the first `n` buckets.
pub open spec fn upper_upto(ax: Seq<i64>, m: ViewMode, w: int, n: int) -> Seq<HeaderEntry>
    decreases n,
{
    if n <= 0 {
        Seq::empty()
    } else if starts_group(ax, m, n - 1) {
        let i = n - 1;
        let e = run_end(ax, m, i + 1);
        upper_upto(ax, m, w, n - 1).push(
            HeaderEntry {
                tick_x: (i * w) as i64,
                x: (i * w + ((e - i) * w) / 2) as i64,
                label: upper_label(m, ax[i]),
            },
        )
    } else {
        upper_upto(ax, m, w, n - 1)
    }
}

/// Entry of the lower tier for bucket `i`.
pub open spec fn lower_entry(ax: Seq<i64>, m: ViewMode, w: int, i: int) -> HeaderEntry {
    HeaderEntry { tick_x: (i * w) as i64, x: (i * w + w / 2) as i64, label: lower_label(m, ax[i]) }
}

/// All ticks of the axis are in the supported range.
pub open spec fn ticks_in_range(ax: Seq<i64>) -> bool {
    forall|i: int| 0 <= i < ax.len() ==> in_range(#[trigger] ax[i] as int)
}

fn hour_of_day(t: i64) -> (r: u32)
    ensures
        r == hour_of(t as int),
{
    (t.checked_rem_euclid(86400).unwrap() / 3600) as u32
}

fn group_of(mode: ViewMode, t: i64) -> (r: (i64, i64))
    requires
        in_range(t as int),
    ensures
        r.0 == group_key(mode, t).0,
        r.1 == group_key(mode, t).1,
{
    match mode {
        ViewMode::Hour | ViewMode::QuarterDay | ViewMode::HalfDay => (
            t.checked_div_euclid(86400).unwrap(),
            0,
        ),
        ViewMode::Day | ViewMode::Week => (year(t) as i64, month(t) as i64),
        _ => (year(t) as i64, 0),
    }
}

fn is_group_start(dates: &Vec<i64>, mode: ViewMode, i: usize) -> (r: bool)
    requires
        ticks_in_range(dates@),
        i < dates@.len(),
    ensures
        r == starts_group(dates@, mode, i as int),
{
    if i == 0 {
        return true;
    }
    let a = group_of(mode, dates[i]);
    let b = group_of(mode, dates[i - 1]);
    a.0 != b.0 || a.1 != b.1
}

/// Label of the bucket that starts at `t`.
pub fn bucket_label(mode: ViewMode, t: i64) -> (r: HeaderLabel)
    requires
        in_range(t as int),
    ensures
        r == lower_label(mode, t),
{
    match mode {
        ViewMode::Day => HeaderLabel::Day(day(t)),
        ViewMode::Week => HeaderLabel::Week(iso_week(t)),
        ViewMode::Month => HeaderLabel::Month(month(t)),
        ViewMode::QuarterYear => HeaderLabel::Quarter((month(t) + 2) / 3),
        ViewMode::Year => HeaderLabel::Year(year(t)),
        _ => HeaderLabel::Hour(hour_of_day(t)),
    }
}

/// Label of the group that starts at `t`.
pub fn group_label(mode: ViewMode, t: i64) -> (r: HeaderLabel)
    requires
        in_range(t as int),
    ensures
        r == upper_label(mode, t),
{
    match mode {
        ViewMode::Hour | ViewMode::QuarterDay | ViewMode::HalfDay => HeaderLabel::Date(
            year(t),
            month(t),
            day(t),
        ),
        ViewMode::Day | ViewMode::Week => HeaderLabel::YearMonth(year(t), month(t)),
        _ => HeaderLabel::Year(year(t)),
    }
}

proof fn lemma_run_end_bounds(ax: Seq<i64>, m: ViewMode, j: int)
    requires
        0 <= j <= ax.len() - 1,
    ensures
        j <= run_end(ax, m, j) <= ax.len() - 1,
    decreases ax.len() - 1 - j,
{
    if !(j >= ax.len() - 1 || starts_group(ax, m, j)) {
        lemma_run_end_bounds(ax, m, j + 1);
    }
}

/// The header of the axis `dates`: below, one entry per bucket, centred in
/// its column; above, one entry per group of buckets (a date, a month or a
/// year, by mode), its tick at the group's left edge and its label at the
/// group's centre.
pub fn build_header(dates: &Vec<i64>, mode: ViewMode, column_width: u32) -> (r: Header)
    requires
        axis_well_formed(dates@),
        ticks_in_range(dates@),
        canvas_fits(dates@, column_width as int),
    ensures
        r.lower@.len() == dates@.len() - 1,
        forall|i: int|
            0 <= i < r.lower@.len() ==> #[trigger] r.lower@[i] == lower_entry(
                dates@,
                mode,
                column_width as int,
                i,
            ),
        r.upper@ == upper_upto(dates@, mode, column_width as int, dates@.len() - 1),
{
    let nb = dates.len() - 1;
    let w = column_width as i64;
    let mut lower: Vec<HeaderEntry> = Vec::new();
    let mut upper: Vec<HeaderEntry> = Vec::new();
    let mut i: usize = 0;
    while i < nb
        invariant
            nb == dates@.len() - 1,
            w == column_width,
            axis_well_formed(dates@),
            ticks_in_range(dates@),
            canvas_fits(dates@, column_width as int),
            i <= nb,
            lower@.len() == i,
            forall|k: int|
                0 <= k < i ==> #[trigger] lower@[k] == lower_entry(
                    dates@,
                    mode,
                    column_width as int,
                    k,
                ),
            upper@ == upper_upto(dates@, mode, column_width as int, i as int),
        decreases nb - i,
    {
        proof {
            assert(i * w + w <= nb * w) by (nonlinear_arith)
                requires
                    i < nb,
                    w >= 0,
            ;
            assert(nb * w <= (nb + 1) * w) by (nonlinear_arith)
                requires
                    w >= 0,
            ;
            assert(0 <= i * w) by (nonlinear_arith)
                requires
                    w >= 0,
            ;
        }
        let left = (i as i64) * w;
        let label = bucket_label(mode, dates[i]);
        lower.push(HeaderEntry { tick_x: left, x: left + w / 2, label });
        if is_group_start(dates, mode, i) {
            let mut e: usize = i + 1;
            while e < nb && !is_group_start(dates, mode, e)
                invariant
                    nb == dates@.len() - 1,
                    ticks_in_range(dates@),
                    i < e <= nb,
                    run_end(dates@, mode, i + 1) == run_end(dates@, mode, e as int),
                decreases nb - e,
            {
                e = e + 1;
            }
            proof {
                assert(run_end(dates@, mode, e as int) == e);
                assert((e - i) * w <= (nb - i) * w) by (nonlinear_arith)
                    requires
                        e <= nb,
                        w >= 0,
                ;
                assert(i * w + (nb - i) * w == nb * w) by (nonlinear_arith);
                assert(0 <= (e - i) * w) by (nonlinear_arith)
                    requires
                        i < e,
                        w >= 0,
                ;
            }
            let x = left + (((e - i) as i64) * w) / 2;
            upper.push(HeaderEntry { tick_x: left, x, label: group_label(mode, dates[i]) });
        }
        i = i + 1;
    }
    Header { upper, lower }
}

} // verus!
