//! The whole layout of a chart, from a task list to bars, arrows and header.

use crate::arrows::{arrow_matches, bar_bounded, bars_routable, build_arrows, edges_upto, Arrow, COORD_LIMIT};
use crate::axis::{
    axis_spec, axis_well_formed, build_axis, chain, lemma_axis_monotone, lemma_span_bounds_in_range,
    span_of, stamps_in_range, stuck,
};
use crate::bars::{
    bar_matches, build_bar_tasks, build_result, lemma_progress_within_bar, task_on_axis, BarTask,
};
use crate::relations::task_invalid;
use crate::shapes::shapes_drawable;
use crate::calendar::{in_range, ViewMode, MAX_STAMP, MIN_STAMP};
use crate::config::{config_valid, LayoutConfig};
use crate::coords::{grid_lines, today_column, today_in, Grid};
use crate::header::{build_header, lower_entry, ticks_in_range, upper_upto, Header};
use crate::relations::dependents_upto;
use crate::task::{GanttError, Task};
use vstd::prelude::*;

verus! {

/// A laid-out chart.
#[derive(Clone, Debug)]
pub struct Chart {
    /// Axis ticks.
    pub dates: Vec<i64>,
    pub bars: Vec<BarTask>,
    pub arrows: Vec<Arrow>,
    pub header: Header,
    /// Width in pixels of the drawing: one column per tick.
    pub svg_width: i64,
    pub grid: Grid,
    /// Column whose bucket holds today.
    pub today: Option<usize>,
}

/// The chart is small enough to lay out: its canvas, in both directions,
/// stays below the coordinate limit.
pub open spec fn chart_fits(ax_len: int, n_tasks: int, c: LayoutConfig) -> bool {
    &&& ax_len <= COORD_LIMIT
    &&& n_tasks <= COORD_LIMIT
    &&& ax_len * c.column_width <= COORD_LIMIT
    &&& n_tasks * c.row_height <= COORD_LIMIT
}

fn stamps_checked(tasks: &Vec<Task>) -> (r: bool)
    ensures
        r == stamps_in_range(tasks@),
{
    let mut k: usize = 0;
    while k < tasks.len()
        invariant
            k <= tasks@.len(),
            forall|j: int| 0 <= j < k ==> (match (#[trigger] tasks@[j]).start {
                Some(s) => in_range(s as int),
                None => true,
            }) && (match tasks@[j].end {
                Some(e) => in_range(e as int),
                None => true,
            }),
        decreases tasks@.len() - k,
    {
        match tasks[k].start {
            Some(s) => if s < MIN_STAMP || s > MAX_STAMP {
                assert(!(match tasks@[k as int].start { Some(s) => in_range(s as int), None => true }));
                return false;
            },
            None => {},
        }
        match tasks[k].end {
            Some(e) => if e < MIN_STAMP || e > MAX_STAMP {
                assert(!(match tasks@[k as int].end { Some(e) => in_range(e as int), None => true }));
                return false;
            },
            None => {},
        }
        k = k + 1;
    }
    true
}

proof fn lemma_ticks_in_range(ax: Seq<i64>, m: ViewMode, start: i64)
    requires
        chain(ax, m, start),
        in_range(start as int),
    ensures
        ticks_in_range(ax),
{
    assert forall|i: int| 0 <= i < ax.len() implies in_range(#[trigger] ax[i] as int) by {
        if i > 0 {
            assert(crate::calendar::step_spec(m, ax[i - 1], true) == Some(ax[i]));
        }
    }
}

proof fn lemma_dependents_below(ts: Seq<Task>, k: int, n: int)
    requires
        0 <= n <= ts.len(),
    ensures
        forall|m: int|
            0 <= m < dependents_upto(ts, k, n).len() ==> (#[trigger] dependents_upto(ts, k, n)[m])
                < n,
    decreases n,
{
    if n > 0 {
        lemma_dependents_below(ts, k, n - 1);
        let prev = dependents_upto(ts, k, n - 1);
        let cur = dependents_upto(ts, k, n);
        assert forall|m: int| 0 <= m < cur.len() implies (#[trigger] cur[m]) < n by {
            if m < prev.len() {
                assert(cur[m] == prev[m]);
            }
        }
    }
}

proof fn lemma_bars_routable(ts: Seq<Task>, ax: Seq<i64>, c: LayoutConfig, bs: Seq<BarTask>)
    requires
        axis_well_formed(ax),
        chart_fits(ax.len() as int, ts.len() as int, c),
        config_valid(c),
        bs.len() == ts.len(),
        forall|k: int| 0 <= k < ts.len() ==> #[trigger] task_on_axis(ts, ax, k),
        forall|k: int| 0 <= k < ts.len() ==> !task_invalid(ts, k),
        forall|k: int| 0 <= k < ts.len() ==> bar_matches(ts, ax, c, k, #[trigger] bs[k]),
    ensures
        bars_routable(bs),
        forall|k: int| 0 <= k < bs.len() ==> bar_drawable(#[trigger] bs[k]),
{
    let w = c.column_width as int;
    let rh = c.row_height as int;
    assert((ax.len() - 1) * w <= ax.len() * w) by (nonlinear_arith)
        requires
            w >= 0,
    ;
    assert forall|i: int| 0 <= i < bs.len() implies bar_bounded(#[trigger] bs[i]) && forall|m: int|
        0 <= m < bs[i].bar_children@.len() ==> (#[trigger] bs[i].bar_children@[m]) < bs.len() by {
        assert(bar_matches(ts, ax, c, i, bs[i]));
        assert(task_on_axis(ts, ax, i));
        crate::coords::lemma_x_monotone(ax, ax[0] as int, ts[i].start.unwrap() as int, w);
        crate::coords::lemma_x_monotone(ax, ts[i].start.unwrap() as int, ax.last() as int, w);
        crate::coords::lemma_x_monotone(ax, ax[0] as int, ts[i].end.unwrap() as int, w);
        crate::coords::lemma_x_monotone(ax, ts[i].end.unwrap() as int, ax.last() as int, w);
        crate::coords::lemma_tick_position(ax, 0, w);
        crate::coords::lemma_tick_position(ax, ax.len() - 1, w);
        assert(0 * w == 0) by (nonlinear_arith);
        assert(0 <= rh * c.bar_fill <= rh * 100) by (nonlinear_arith)
            requires
                0 <= c.bar_fill <= 100,
                rh >= 0,
        ;
        assert(0 <= i * rh && i * rh + rh <= ts.len() * rh) by (nonlinear_arith)
            requires
                0 <= i < ts.len(),
                rh >= 0,
        ;
        lemma_dependents_below(ts, i, ts.len() as int);
    }
    assert forall|i: int| 0 <= i < bs.len() implies bar_drawable(#[trigger] bs[i]) by {
        assert(bar_matches(ts, ax, c, i, bs[i]));
        assert(task_on_axis(ts, ax, i));
        assert(bar_bounded(bs[i]));
        lemma_progress_within_bar(ts, ax, c, i, bs[i]);
        assert(0 <= rh * c.bar_fill <= rh * 100) by (nonlinear_arith)
            requires
                0 <= c.bar_fill <= 100,
                rh >= 0,
        ;
    }
}

/// A bar the shape builder and the label placement accept: bounded, with
/// its start at or before its end.
pub open spec fn bar_drawable(b: BarTask) -> bool {
    shapes_drawable(b) && b.x_1 <= b.x_2
}

/// The parts of chart `ch` that follow its axis: bars, arrows, header and
/// width, as the builders give them; every bar can be drawn.
pub open spec fn chart_on_axis(ts: Seq<Task>, mode: ViewMode, now: i64, c: LayoutConfig, ch: Chart) -> bool {
    let w = c.column_width as int;
    &&& build_result(ts, ch.dates@, c, Ok(ch.bars))
    &&& forall|k: int| 0 <= k < ch.bars@.len() ==> bar_drawable(#[trigger] ch.bars@[k])
    &&& ch.arrows@.len() == edges_upto(ch.bars@, ch.bars@.len() as int).len()
    &&& forall|i: int|
        0 <= i < ch.arrows@.len() ==> arrow_matches(
            ch.bars@,
            c,
            edges_upto(ch.bars@, ch.bars@.len() as int)[i],
            #[trigger] ch.arrows@[i],
        )
    &&& ch.header.upper@ == upper_upto(ch.dates@, mode, w, ch.dates@.len() - 1)
    &&& ch.header.lower@.len() == ch.dates@.len() - 1
    &&& forall|i: int|
        0 <= i < ch.header.lower@.len() ==> #[trigger] ch.header.lower@[i] == lower_entry(
            ch.dates@,
            mode,
            w,
            i,
        )
    &&& ch.svg_width == ch.dates@.len() * w
    &&& ch.grid.row_tops@.len() == ts.len()
    &&& forall|i: int| 0 <= i < ts.len() ==> #[trigger] ch.grid.row_tops@[i] == i * c.row_height
    &&& ch.grid.tick_xs@.len() == ch.dates@.len()
    &&& forall|i: int| 0 <= i < ch.dates@.len() ==> #[trigger] ch.grid.tick_xs@[i] == i * w
    &&& (ch.today matches Some(i) ==> today_in(ch.dates@, i as int, now as int))
    &&& (ch.today is None ==> forall|i: int| 0 <= i < ch.dates@.len() - 1 ==> !today_in(ch.dates@, i, now as int))
}

/// Why a layout may fail with `e`: a timestamp outside the supported range
/// or an axis that cannot be built (both `OutOfRange`), an axis too large for
/// the canvas (`OutOfRange`), or a failure of the bar build on that axis.
pub open spec fn layout_failure(ts: Seq<Task>, mode: ViewMode, today: i64, c: LayoutConfig, e: GanttError) -> bool {
    let lo = span_of(ts, today).0;
    let hi = span_of(ts, today).1;
    ||| e is OutOfRange && (!stamps_in_range(ts) || !in_range(today as int))
    ||| e is OutOfRange && exists|ax: Seq<i64>| stuck(ax, mode, lo, hi)
    ||| e is OutOfRange && exists|ax: Seq<i64>|
        axis_spec(ax, mode, lo, hi) && !chart_fits(ax.len() as int, ts.len() as int, c)
    ||| exists|ax: Seq<i64>|
        axis_spec(ax, mode, lo, hi) && chart_fits(ax.len() as int, ts.len() as int, c)
            && build_result(ts, ax, c, Err(e))
}

fn canvas_ok(n_ticks: usize, n_tasks: usize, config: &LayoutConfig) -> (r: bool)
    ensures
        r == chart_fits(n_ticks as int, n_tasks as int, *config),
{
    let w = config.column_width as u128;
    let rh = config.row_height as u128;
    proof {
        assert(n_ticks * w <= 0x1_0000_0000_0000_0000 * 0x1_0000_0000) by (nonlinear_arith)
            requires
                n_ticks <= 0x1_0000_0000_0000_0000,
                w <= 0x1_0000_0000,
        ;
        assert(n_tasks * rh <= 0x1_0000_0000_0000_0000 * 0x1_0000_0000) by (nonlinear_arith)
            requires
                n_tasks <= 0x1_0000_0000_0000_0000,
                rh <= 0x1_0000_0000,
        ;
    }
    let limit = COORD_LIMIT as u128;
    n_ticks as u128 <= limit && n_tasks as u128 <= limit && n_ticks as u128 * w <= limit
        && n_tasks as u128 * rh <= limit
}

/// Bars, arrows and header of `tasks` on the axis `dates`.
fn layout_on_axis(tasks: &Vec<Task>, dates: Vec<i64>, mode: ViewMode, now: i64, config: &LayoutConfig) -> (r: Result<
    Chart,
    GanttError,
>)
    requires
        config_valid(*config),
        axis_well_formed(dates@),
        ticks_in_range(dates@),
        chart_fits(dates@.len() as int, tasks@.len() as int, *config),
    ensures
        r matches Ok(ch) ==> ch.dates@ == dates@ && chart_on_axis(tasks@, mode, now, *config, ch),
        r matches Err(e) ==> build_result(tasks@, dates@, *config, Err(e)),
{
    let bars = match build_bar_tasks(tasks, &dates, config) {
        Ok(b) => b,
        Err(e) => return Err(e),
    };
    proof {
        assert forall|k: int| 0 <= k < tasks@.len() implies #[trigger] task_on_axis(tasks@, dates@, k) by {
            if !task_on_axis(tasks@, dates@, k) {
                assert(exists|j: int| 0 <= j < tasks@.len() && !task_on_axis(tasks@, dates@, j));
            }
        }
        assert forall|k: int| 0 <= k < tasks@.len() implies !task_invalid(tasks@, k) by {
            if task_invalid(tasks@, k) {
                assert(exists|j: int| 0 <= j < tasks@.len() && task_invalid(tasks@, j));
            }
        }
        lemma_bars_routable(tasks@, dates@, *config, bars@);
    }
    let arrows = build_arrows(&bars, config);
    let header = build_header(&dates, mode, config.column_width);
    let svg_width = dates.len() as i64 * config.column_width as i64;
    let grid = grid_lines(tasks.len(), dates.len(), config.row_height, config.column_width);
    let today = today_column(&dates, now);
    Ok(Chart { dates, bars, arrows, header, svg_width, grid, today })
}

/// Lay out a whole chart: the axis of `tasks` for `mode` (with `today`
/// standing in for a missing bound), the bars on it, the arrows between them
/// and the header above them; `today` also marks its column. Fails with
/// `OutOfRange` on a timestamp outside the supported range, an axis that cannot be built, or a canvas too large;
/// otherwise as the bar build does.
pub fn layout_chart(tasks: &Vec<Task>, mode: ViewMode, today: i64, config: &LayoutConfig) -> (r: Result<
    Chart,
    GanttError,
>)
    requires
        config_valid(*config),
    ensures
        !stamps_in_range(tasks@) || !in_range(today as int) ==> r matches Err(
            GanttError::OutOfRange,
        ),
        r matches Ok(ch) ==> axis_spec(
            ch.dates@,
            mode,
            span_of(tasks@, today).0,
            span_of(tasks@, today).1,
        ) && chart_on_axis(tasks@, mode, today, *config, ch),
        r matches Err(e) ==> layout_failure(tasks@, mode, today, *config, e),
{
    if today < MIN_STAMP || today > MAX_STAMP || !stamps_checked(tasks) {
        return Err(GanttError::OutOfRange);
    }
    let dates = match build_axis(tasks, mode, today) {
        Ok(d) => d,
        Err(e) => return Err(e),
    };
    if !canvas_ok(dates.len(), tasks.len(), config) {
        assert(axis_spec(dates@, mode, span_of(tasks@, today).0, span_of(tasks@, today).1));
        return Err(GanttError::OutOfRange);
    }
    let ghost lo = span_of(tasks@, today).0;
    let ghost hi = span_of(tasks@, today).1;
    proof {
        lemma_span_bounds_in_range(tasks@, today);
        lemma_axis_monotone(dates@, mode, lo, hi);
        lemma_ticks_in_range(dates@, mode, lo);
    }
    let ghost ax = dates@;
    let r = layout_on_axis(tasks, dates, mode, today, config);
    proof {
        if r is Err {
            let e = r->Err_0;
            assert(axis_spec(ax, mode, lo, hi) && chart_fits(ax.len() as int, tasks@.len() as int, *config) && build_result(tasks@, ax, *config, Err(e)));
        }
    }
    r
}

} // verus!
