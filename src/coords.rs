//! Mapping timestamps to horizontal pixel positions along an axis.

use crate::axis::axis_well_formed;
use crate::task::GanttError;
use vstd::arithmetic::div_mod::{
    lemma_div_by_multiple, lemma_div_denominator, lemma_div_is_ordered, lemma_div_pos_is_pos,
    lemma_fundamental_div_mod, lemma_mod_bound,
};
use vstd::arithmetic::mul::{lemma_mul_inequality, lemma_mul_is_commutative};
use vstd::prelude::*;

verus! {

/// `t` lies in bucket `i`: at or after its left tick, before its right tick.
pub open spec fn in_bucket(ax: Seq<i64>, i: int, t: int) -> bool {
    0 <= i < ax.len() - 1 && ax[i] <= t < ax[i + 1]
}

/// The bucket that holds `t`.
pub open spec fn bucket_of(ax: Seq<i64>, t: int) -> int {
    choose|i: int| in_bucket(ax, i, t)
}

/// Linear interpolation inside bucket `i`, rounded down to a whole pixel.
pub open spec fn interp(ax: Seq<i64>, i: int, t: int, w: int) -> int {
    i * w + ((t - ax[i]) * w) / (ax[i + 1] - ax[i])
}

/// `t` lies between the first and the last tick.
pub open spec fn on_axis(ax: Seq<i64>, t: int) -> bool {
    ax[0] <= t <= ax.last()
}

/// Pixel position of `t` on an axis with columns `w` pixels wide; the last
/// tick maps to the right edge of the last bucket.
pub open spec fn x_of(ax: Seq<i64>, t: int, w: int) -> int {
    if t == ax.last() {
        (ax.len() - 1) * w
    } else {
        interp(ax, bucket_of(ax, t), t, w)
    }
}

/// The canvas of an axis with columns `w` wide fits in an `i64`.
pub open spec fn canvas_fits(ax: Seq<i64>, w: int) -> bool {
    ax.len() <= i64::MAX && ax.len() * w <= i64::MAX
}

proof fn lemma_bucket_unique(ax: Seq<i64>, i: int, j: int, t: int)
    requires
        axis_well_formed(ax),
        in_bucket(ax, i, t),
        in_bucket(ax, j, t),
    ensures
        i == j,
{
    if i < j {
        if i + 1 < j {
            assert(ax[i + 1] < ax[j]);
        }
    } else if j < i {
        if j + 1 < i {
            assert(ax[j + 1] < ax[i]);
        }
    }
}

/// Where a bucket that holds `t` is known, `bucket_of` is that bucket.
proof fn lemma_bucket_of(ax: Seq<i64>, i: int, t: int)
    requires
        axis_well_formed(ax),
        in_bucket(ax, i, t),
    ensures
        bucket_of(ax, t) == i,
{
    let b = bucket_of(ax, t);
    assert(in_bucket(ax, b, t));
    lemma_bucket_unique(ax, i, b, t);
}

/// The part of a column covered by `d` of `big` seconds lies in `0..w`.
proof fn lemma_fraction_bounds(d: int, big: int, w: int)
    requires
        0 <= d < big,
        0 <= w,
    ensures
        0 <= (d * w) / big,
        w > 0 ==> (d * w) / big < w,
        (d * w) / big <= w,
{
    assert(0 <= d * w) by (nonlinear_arith)
        requires
            0 <= d,
            0 <= w,
    ;
    lemma_div_pos_is_pos(d * w, big);
    if w > 0 {
        let q = (d * w) / big;
        lemma_fundamental_div_mod(d * w, big);
        lemma_mod_bound(d * w, big);
        if q >= w {
            assert(big * q >= big * w) by (nonlinear_arith)
                requires
                    q >= w,
                    big > 0,
            ;
            assert(big * w > d * w) by (nonlinear_arith)
                requires
                    d < big,
                    w > 0,
            ;
        }
    }
}

/// Any point inside bucket `i` maps into column `i`.
proof fn lemma_interp_in_column(ax: Seq<i64>, i: int, t: int, w: int)
    requires
        axis_well_formed(ax),
        in_bucket(ax, i, t),
        0 <= w,
    ensures
        i * w <= interp(ax, i, t, w) <= (i + 1) * w,
{
    lemma_fraction_bounds(t - ax[i], ax[i + 1] - ax[i], w);
    assert((i + 1) * w == i * w + w) by (nonlinear_arith);
}

/// Each tick maps to the left edge of its column, exactly.
pub proof fn lemma_tick_position(ax: Seq<i64>, i: int, w: int)
    requires
        axis_well_formed(ax),
        0 <= i < ax.len(),
        0 <= w,
    ensures
        x_of(ax, ax[i] as int, w) == i * w,
{
    if i < ax.len() - 1 {
        assert(ax[i] < ax.last());
        lemma_bucket_of(ax, i, ax[i] as int);
        assert(0int * w == 0) by (nonlinear_arith);
        assert(((ax[i] - ax[i]) * w) / (ax[i + 1] - ax[i]) == 0);
    }
}

/// The midpoint of a bucket of even length maps to the middle of its column
/// (rounded down to a whole pixel).
pub proof fn lemma_midpoint_position(ax: Seq<i64>, i: int, w: int)
    requires
        axis_well_formed(ax),
        0 <= i < ax.len() - 1,
        (ax[i + 1] - ax[i]) % 2 == 0,
        0 <= w,
    ensures
        x_of(ax, ax[i] + (ax[i + 1] - ax[i]) / 2, w) == i * w + w / 2,
{
    let big = ax[i + 1] - ax[i];
    let h = big / 2;
    let t = ax[i] + h;
    assert(big == 2 * h);
    assert(0 < h < big);
    lemma_bucket_of(ax, i, t);
    assert(t != ax.last()) by {
        if i + 1 < ax.len() - 1 {
            assert(ax[i + 1] < ax.last());
        }
    }
    assert(h * w == w * h) by (nonlinear_arith);
    lemma_div_denominator(h * w, h, 2);
    lemma_mul_is_commutative(h, 2);
    lemma_div_by_multiple(w, h);
}

/// For any bucket, its midpoint (rounded down to a whole second) maps at or
/// left of the exact middle `i * w + w / 2` of its column, and less than one
/// pixel plus `w / (2 * D)` left of it, where `D` is the bucket's length:
/// `2 * (x - i * w) <= w` and `2 * (x - i * w + 1) > w - w / D`.
pub proof fn lemma_midpoint_within_pixel(ax: Seq<i64>, i: int, w: int)
    requires
        axis_well_formed(ax),
        0 <= i < ax.len() - 1,
        0 <= w,
    ensures
        ({
            let big = ax[i + 1] - ax[i];
            let x = x_of(ax, ax[i] + big / 2, w);
            &&& 2 * big * (x - i * w) <= w * big
            &&& 2 * big * (x - i * w + 1) > (big - 1) * w
        }),
{
    let big = ax[i + 1] - ax[i];
    let h = big / 2;
    let t = ax[i] + h;
    assert(0 <= h < big);
    lemma_bucket_of(ax, i, t);
    assert(t != ax.last()) by {
        if i + 1 < ax.len() - 1 {
            assert(ax[i + 1] < ax.last());
        }
    }
    let q = (h * w) / big;
    lemma_fundamental_div_mod(h * w, big);
    lemma_mod_bound(h * w, big);
    let r = (h * w) % big;
    assert(h * w == big * q + r);
    assert(2 * h <= big && 2 * h >= big - 1);
    assert(2 * big * q <= w * big) by (nonlinear_arith)
        requires
            h * w == big * q + r,
            0 <= r,
            2 * h <= big,
            0 <= w,
    ;
    assert(2 * big * (q + 1) > (big - 1) * w) by (nonlinear_arith)
        requires
            h * w == big * q + r,
            r < big,
            2 * h >= big - 1,
            0 <= w,
    ;
}

/// Later timestamps never map further left.
pub proof fn lemma_x_monotone(ax: Seq<i64>, t1: int, t2: int, w: int)
    requires
        axis_well_formed(ax),
        on_axis(ax, t1),
        on_axis(ax, t2),
        t1 <= t2,
        0 <= w,
    ensures
        x_of(ax, t1, w) <= x_of(ax, t2, w),
{
    let n = ax.len();
    if t1 == t2 {
    } else {
        // t1 is before the last tick, so it lies in some bucket.
        let i = find_bucket(ax, t1);
        lemma_bucket_of(ax, i, t1);
        lemma_interp_in_column(ax, i, t1, w);
        if t2 == ax.last() {
            assert(i + 1 <= n - 1);
            lemma_mul_inequality(i + 1, n - 1, w);
        } else {
            let j = find_bucket(ax, t2);
            lemma_bucket_of(ax, j, t2);
            lemma_interp_in_column(ax, j, t2, w);
            if i == j {
                let big = ax[i + 1] - ax[i];
                assert((t1 - ax[i]) * w <= (t2 - ax[i]) * w) by (nonlinear_arith)
                    requires
                        t1 <= t2,
                        0 <= w,
                ;
                lemma_div_is_ordered((t1 - ax[i]) * w, (t2 - ax[i]) * w, big);
            } else {
                assert(i < j) by {
                    if j < i {
                        if j + 1 < i {
                            assert(ax[j + 1] < ax[i]);
                        }
                    }
                }
                lemma_mul_inequality(i + 1, j, w);
            }
        }
    }
}

/// A bucket that holds a point before the last tick.
proof fn find_bucket(ax: Seq<i64>, t: int) -> (i: int)
    requires
        axis_well_formed(ax),
        ax[0] <= t < ax.last(),
    ensures
        in_bucket(ax, i, t),
{
    find_bucket_from(ax, t, 0)
}

proof fn find_bucket_from(ax: Seq<i64>, t: int, k: int) -> (i: int)
    requires
        axis_well_formed(ax),
        0 <= k < ax.len() - 1,
        ax[k] <= t < ax.last(),
    ensures
        in_bucket(ax, i, t),
    decreases ax.len() - k,
{
    if t < ax[k + 1] {
        k
    } else {
        find_bucket_from(ax, t, k + 1)
    }
}

/// Pixel position of `x_date` on the axis `dates` with columns
/// `column_width` wide: linear inside its bucket, measured by that bucket's
/// own length.
pub fn task_x_coordinate(x_date: i64, dates: &Vec<i64>, column_width: u32) -> (r: Result<
    i64,
    GanttError,
>)
    requires
        axis_well_formed(dates@),
        canvas_fits(dates@, column_width as int),
    ensures
        on_axis(dates@, x_date as int) ==> (r matches Ok(x) && x == x_of(
            dates@,
            x_date as int,
            column_width as int,
        )),
        on_axis(dates@, x_date as int) ==> 0 <= x_of(dates@, x_date as int, column_width as int)
            <= (dates@.len() - 1) * column_width,
        !on_axis(dates@, x_date as int) ==> r matches Err(GanttError::OutOfRange),
{
    let n = dates.len();
    let w = column_width as i64;
    proof {
        assert(0 <= (n - 1) * w <= n * w) by (nonlinear_arith)
            requires
                n >= 2,
                w >= 0,
        ;
    }
    if x_date < dates[0] || x_date > dates[n - 1] {
        return Err(GanttError::OutOfRange);
    }
    if x_date == dates[n - 1] {
        return Ok(((n - 1) as i64) * w);
    }
    let mut i: usize = 0;
    while dates[i + 1] <= x_date
        invariant
            axis_well_formed(dates@),
            n == dates@.len(),
            0 <= i < n - 1,
            dates@[i as int] <= x_date < dates@[n - 1],
        decreases n - i,
    {
        assert(i + 1 < n - 1) by {
            if i + 1 == n - 1 {
                assert(dates@[i + 1] == dates@[n - 1]);
            }
        }
        i = i + 1;
    }
    let a = dates[i];
    let b = dates[i + 1];
    let d = (x_date as i128 - a as i128) as u128;
    let big = (b as i128 - a as i128) as u128;
    proof {
        assert(d * column_width <= 0x1_0000_0000_0000_0000 * 0x1_0000_0000) by (nonlinear_arith)
            requires
                0 <= d <= 0x1_0000_0000_0000_0000,
                0 <= column_width <= 0x1_0000_0000,
        ;
    }
    let frac = (d * column_width as u128) / big;
    proof {
        lemma_bucket_of(dates@, i as int, x_date as int);
        lemma_interp_in_column(dates@, i as int, x_date as int, column_width as int);
        lemma_mul_inequality(i as int + 1, n - 1, w as int);
        lemma_mul_inequality(i as int, n - 1, w as int);
    }
    Ok((i as i64) * w + frac as i64)
}

/// Column `i` is the one to highlight as today: its bucket starts before
/// `now` and ends at or after it.
pub open spec fn today_in(ax: Seq<i64>, i: int, now: int) -> bool {
    0 <= i < ax.len() - 1 && ax[i] < now <= ax[i + 1]
}

/// The column to highlight as today, if `now` falls on the axis after its
/// first tick.
pub fn today_column(dates: &Vec<i64>, now: i64) -> (r: Option<usize>)
    requires
        axis_well_formed(dates@),
    ensures
        r matches Some(i) ==> today_in(dates@, i as int, now as int),
        r is None ==> forall|i: int| 0 <= i < dates@.len() - 1 ==> !today_in(dates@, i, now as int),
{
    let mut i: usize = 0;
    while i < dates.len() - 1
        invariant
            axis_well_formed(dates@),
            i < dates@.len(),
            forall|j: int| 0 <= j < i ==> !today_in(dates@, j, now as int),
        decreases dates@.len() - i,
    {
        if dates[i] < now && now <= dates[i + 1] {
            return Some(i);
        }
        i = i + 1;
    }
    None
}

/// Horizontal grid lines and vertical ticks of the chart body.
#[derive(Clone, Debug)]
pub struct Grid {
    /// Top of each row.
    pub row_tops: Vec<i64>,
    /// Left edge of each column, one per axis tick.
    pub tick_xs: Vec<i64>,
}

/// Rows `row_height` high, one per task, and a tick at the left edge of
/// each column `column_width` wide, one per axis tick.
pub fn grid_lines(n_rows: usize, n_ticks: usize, row_height: u32, column_width: u32) -> (r: Grid)
    requires
        n_rows <= i64::MAX,
        n_ticks <= i64::MAX,
        n_rows * row_height <= i64::MAX,
        n_ticks * column_width <= i64::MAX,
    ensures
        r.row_tops@.len() == n_rows,
        forall|i: int| 0 <= i < n_rows ==> #[trigger] r.row_tops@[i] == i * row_height,
        r.tick_xs@.len() == n_ticks,
        forall|i: int| 0 <= i < n_ticks ==> #[trigger] r.tick_xs@[i] == i * column_width,
{
    let mut row_tops: Vec<i64> = Vec::new();
    let mut i: usize = 0;
    while i < n_rows
        invariant
            i <= n_rows,
            n_rows <= i64::MAX,
            n_rows * row_height <= i64::MAX,
            row_tops@.len() == i,
            forall|k: int| 0 <= k < i ==> #[trigger] row_tops@[k] == k * row_height,
        decreases n_rows - i,
    {
        proof {
            assert(0 <= i * row_height <= n_rows * row_height) by (nonlinear_arith)
                requires
                    i < n_rows,
            ;
        }
        row_tops.push((i as i64) * (row_height as i64));
        i = i + 1;
    }
    let mut tick_xs: Vec<i64> = Vec::new();
    let mut j: usize = 0;
    while j < n_ticks
        invariant
            j <= n_ticks,
            n_ticks <= i64::MAX,
            n_ticks * column_width <= i64::MAX,
            tick_xs@.len() == j,
            forall|k: int| 0 <= k < j ==> #[trigger] tick_xs@[k] == k * column_width,
        decreases n_ticks - j,
    {
        proof {
            assert(0 <= j * column_width <= n_ticks * column_width) by (nonlinear_arith)
                requires
                    j < n_ticks,
            ;
        }
        tick_xs.push((j as i64) * (column_width as i64));
        j = j + 1;
    }
    Grid { row_tops, tick_xs }
}

} // verus!
