//! The time axis: bucket boundaries from the earliest start to the latest end.

use crate::calendar::{in_range, snap_spec, step_spec, ViewMode};
use crate::task::{GanttError, Task};
use vstd::prelude::*;

verus! {

/// Ticks that start at the snapped `start` and go on one step at a time,
/// each strictly after the one before.
pub open spec fn chain(ax: Seq<i64>, m: ViewMode, start: i64) -> bool {
    &&& ax.len() >= 1
    &&& ax[0] == snap_spec(m, start)
    &&& forall|i: int|
        0 <= i < ax.len() - 1 ==> step_spec(m, #[trigger] ax[i], true) == Some(ax[i + 1]) && ax[i]
            < ax[i + 1]
}

/// The axis for `start`..`end`: a chain of at least two ticks that stops at
/// the first tick after the first one that reaches `end`.
pub open spec fn axis_spec(ax: Seq<i64>, m: ViewMode, start: i64, end: i64) -> bool {
    &&& chain(ax, m, start)
    &&& ax.len() >= 2
    &&& ax.last() >= end
    &&& forall|i: int| 1 <= i < ax.len() - 1 ==> #[trigger] ax[i] < end
}

/// A chain that still has to grow but whose next step leaves the supported
/// range or does not move forward.
pub open spec fn stuck(ax: Seq<i64>, m: ViewMode, start: i64, end: i64) -> bool {
    &&& chain(ax, m, start)
    &&& forall|i: int| 1 <= i < ax.len() ==> #[trigger] ax[i] < end
    &&& match step_spec(m, ax.last(), true) {
        Some(v) => v <= ax.last(),
        None => true,
    }
}

/// Strictly increasing, with at least one bucket.
pub open spec fn axis_well_formed(ax: Seq<i64>) -> bool {
    &&& ax.len() >= 2
    &&& forall|i: int, j: int| 0 <= i < j < ax.len() ==> ax[i] < ax[j]
}

/// Earliest start among the first `n` tasks that have one.
pub open spec fn earliest_start(ts: Seq<Task>, n: int) -> Option<i64>
    decreases n,
{
    if n <= 0 {
        None
    } else {
        let prev = earliest_start(ts, n - 1);
        match ts[n - 1].start {
            Some(s) => match prev {
                Some(p) => if s < p { Some(s) } else { Some(p) },
                None => Some(s),
            },
            None => prev,
        }
    }
}

/// Latest end among the first `n` tasks that have one.
pub open spec fn latest_end(ts: Seq<Task>, n: int) -> Option<i64>
    decreases n,
{
    if n <= 0 {
        None
    } else {
        let prev = latest_end(ts, n - 1);
        match ts[n - 1].end {
            Some(e) => match prev {
                Some(p) => if e > p { Some(e) } else { Some(p) },
                None => Some(e),
            },
            None => prev,
        }
    }
}

/// Every timestamp that a task gives lies in the supported range.
pub open spec fn stamps_in_range(ts: Seq<Task>) -> bool {
    forall|k: int|
        0 <= k < ts.len() ==> (match (#[trigger] ts[k]).start {
            Some(s) => in_range(s as int),
            None => true,
        }) && (match ts[k].end {
            Some(e) => in_range(e as int),
            None => true,
        })
}

/// The span the axis of `ts` covers: `today` stands in for a missing bound.
pub open spec fn span_of(ts: Seq<Task>, today: i64) -> (i64, i64) {
    let lo = match earliest_start(ts, ts.len() as int) {
        Some(s) => s,
        None => today,
    };
    let hi = match latest_end(ts, ts.len() as int) {
        Some(e) => e,
        None => today,
    };
    (lo, hi)
}

/// Any two ticks of an axis are in order, and adjacent ones one step apart.
pub proof fn lemma_axis_monotone(ax: Seq<i64>, m: ViewMode, start: i64, end: i64)
    requires
        axis_spec(ax, m, start, end),
    ensures
        axis_well_formed(ax),
        forall|i: int|
            0 <= i < ax.len() - 1 ==> step_spec(m, #[trigger] ax[i], true) == Some(ax[i + 1]),
{
    assert forall|i: int, j: int| 0 <= i < j < ax.len() implies ax[i] < ax[j] by {
        lemma_chain_increasing(ax, m, start, i, j);
    }
}

proof fn lemma_chain_increasing(ax: Seq<i64>, m: ViewMode, start: i64, i: int, j: int)
    requires
        chain(ax, m, start),
        0 <= i < j < ax.len(),
    ensures
        ax[i] < ax[j],
    decreases j - i,
{
    assert(ax[j - 1] < ax[j]);
    if i < j - 1 {
        lemma_chain_increasing(ax, m, start, i, j - 1);
    }
}

proof fn lemma_chains_agree(a: Seq<i64>, b: Seq<i64>, m: ViewMode, start: i64, i: int)
    requires
        chain(a, m, start),
        chain(b, m, start),
        0 <= i < a.len(),
        i < b.len(),
    ensures
        a[i] == b[i],
    decreases i,
{
    if i > 0 {
        lemma_chains_agree(a, b, m, start, i - 1);
        assert(step_spec(m, a[i - 1], true) == Some(a[i]));
        assert(step_spec(m, b[i - 1], true) == Some(b[i]));
    }
}

/// Where an axis exists for a span, no chain for it is stuck.
proof fn lemma_axis_excludes_stuck(a: Seq<i64>, s: Seq<i64>, m: ViewMode, start: i64, end: i64)
    requires
        axis_spec(a, m, start, end),
    ensures
        !stuck(s, m, start, end),
{
    if stuck(s, m, start, end) {
        let n = s.len();
        if n <= a.len() - 1 {
            lemma_chains_agree(a, s, m, start, n - 1);
            assert(step_spec(m, a[n - 1], true) == Some(a[n as int]));
        } else {
            lemma_chains_agree(a, s, m, start, a.len() - 1);
            assert(s[a.len() - 1] < end);
        }
    }
}

/// Ticks from the bucket boundary at or before `start` to the first one at or
/// after `end`, one step apart, at least two of them.
pub fn seed_dates(start: i64, end: i64, mode: ViewMode) -> (r: Result<Vec<i64>, GanttError>)
    requires
        in_range(start as int),
        in_range(end as int),
    ensures
        match r {
            Ok(ax) => axis_spec(ax@, mode, start, end),
            Err(e) => e is OutOfRange && exists|ax: Seq<i64>| stuck(ax, mode, start, end),
        },
        r is Ok <==> !exists|ax: Seq<i64>| stuck(ax, mode, start, end),
{
    let mut dates: Vec<i64> = Vec::new();
    let first = mode.snap(start);
    dates.push(first);
    let mut current = first;
    let next = match mode.get_mod_date(current, true) {
        Some(v) => v,
        None => {
            assert(stuck(dates@, mode, start, end));
            return Err(GanttError::OutOfRange);
        },
    };
    if next <= current {
        assert(stuck(dates@, mode, start, end));
        return Err(GanttError::OutOfRange);
    }
    dates.push(next);
    current = next;
    assert(chain(dates@, mode, start));
    while current < end
        invariant
            chain(dates@, mode, start),
            dates@.len() >= 2,
            current == dates@.last(),
            in_range(current as int),
            forall|i: int| 1 <= i < dates@.len() - 1 ==> #[trigger] dates@[i] < end,
        decreases (if current < end { end - current } else { 0 }),
    {
        let next = match mode.get_mod_date(current, true) {
            Some(v) => v,
            None => {
                assert(stuck(dates@, mode, start, end));
                return Err(GanttError::OutOfRange);
            },
        };
        if next <= current {
            assert(stuck(dates@, mode, start, end));
            return Err(GanttError::OutOfRange);
        }
        let ghost before = dates@;
        dates.push(next);
        assert(forall|i: int| 0 <= i < before.len() ==> dates@[i] == before[i]);
        current = next;
    }
    proof {
        if exists|ax: Seq<i64>| stuck(ax, mode, start, end) {
            let s = choose|ax: Seq<i64>| stuck(ax, mode, start, end);
            lemma_axis_excludes_stuck(dates@, s, mode, start, end);
        }
    }
    Ok(dates)
}

/// Earliest start and latest end over the tasks; `today` stands in for a
/// missing bound, so an empty list gives a span of one instant.
pub fn task_span(tasks: &Vec<Task>, today: i64) -> (r: (i64, i64))
    ensures
        r == span_of(tasks@, today),
{
    let mut lo: Option<i64> = None;
    let mut hi: Option<i64> = None;
    let mut k: usize = 0;
    while k < tasks.len()
        invariant
            k <= tasks@.len(),
            lo == earliest_start(tasks@, k as int),
            hi == latest_end(tasks@, k as int),
        decreases tasks@.len() - k,
    {
        let t = &tasks[k];
        match t.start {
            Some(s) => match lo {
                Some(p) => if s < p {
                    lo = Some(s);
                },
                None => lo = Some(s),
            },
            None => {},
        }
        match t.end {
            Some(e) => match hi {
                Some(p) => if e > p {
                    hi = Some(e);
                },
                None => hi = Some(e),
            },
            None => {},
        }
        k = k + 1;
    }
    let a = match lo {
        Some(s) => s,
        None => today,
    };
    let b = match hi {
        Some(e) => e,
        None => today,
    };
    (a, b)
}

proof fn lemma_span_in_range(ts: Seq<Task>, n: int)
    requires
        stamps_in_range(ts),
        0 <= n <= ts.len(),
    ensures
        match earliest_start(ts, n) {
            Some(s) => in_range(s as int),
            None => true,
        },
        match latest_end(ts, n) {
            Some(e) => in_range(e as int),
            None => true,
        },
    decreases n,
{
    if n > 0 {
        lemma_span_in_range(ts, n - 1);
        assert(ts[n - 1] == ts[n - 1]);
    }
}

/// The axis for a task list: from the earliest start to the latest end, with
/// `today` standing in for a missing bound.
pub fn build_axis(tasks: &Vec<Task>, mode: ViewMode, today: i64) -> (r: Result<
    Vec<i64>,
    GanttError,
>)
    requires
        stamps_in_range(tasks@),
        in_range(today as int),
    ensures
        match r {
            Ok(ax) => axis_spec(ax@, mode, span_of(tasks@, today).0, span_of(tasks@, today).1),
            Err(e) => e is OutOfRange && exists|ax: Seq<i64>|
                stuck(ax, mode, span_of(tasks@, today).0, span_of(tasks@, today).1),
        },
        r is Ok <==> !exists|ax: Seq<i64>|
            stuck(ax, mode, span_of(tasks@, today).0, span_of(tasks@, today).1),
{
    proof {
        lemma_span_in_range(tasks@, tasks@.len() as int);
    }
    let (lo, hi) = task_span(tasks, today);
    seed_dates(lo, hi, mode)
}

/// Both ends of the span of a task list lie in the supported range.
pub proof fn lemma_span_bounds_in_range(ts: Seq<Task>, today: i64)
    requires
        stamps_in_range(ts),
        in_range(today as int),
    ensures
        in_range(span_of(ts, today).0 as int),
        in_range(span_of(ts, today).1 as int),
{
    lemma_span_in_range(ts, ts.len() as int);
}

} // verus!
