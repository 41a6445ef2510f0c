//! Per-task geometry and the bar-task model with its relations.

use crate::axis::axis_well_formed;
use crate::config::{config_valid, BarTaskStyles, LayoutConfig};
use crate::coords::{canvas_fits, lemma_x_monotone, on_axis, task_x_coordinate, x_of};
use crate::relations::{
    children, children_of, collect_dangling, collect_invalid, dangling_ids, dependents,
    dependents_of, invalid_ids, task_dangling, task_invalid,
};
use crate::task::{internal_of, GanttError, Task, TaskType, TaskTypeInternal};
use vstd::prelude::*;

verus! {

/// The render-ready form of one task.
#[derive(Clone, Debug)]
pub struct BarTask {
    /// Row of the task, its position in the input list.
    pub index: usize,
    pub id: String,
    pub name: String,
    pub x_1: i64,
    pub x_2: i64,
    pub y: i64,
    pub height: i64,
    pub progress_x: i64,
    pub progress_width: i64,
    pub bar_corner_radius: u32,
    pub handle_width: u32,
    pub type_internal: TaskTypeInternal,
    pub styles: BarTaskStyles,
    /// Whether this is the task the configuration selects.
    pub is_selected: bool,
    /// Rows of the tasks that depend on this one, in list order.
    pub bar_children: Vec<usize>,
    /// Rows of the tasks this project contains, in list order.
    pub project_children: Vec<usize>,
}

/// Height of a bar: the configured share of the row.
pub open spec fn bar_height(c: LayoutConfig) -> int {
    (c.row_height * c.bar_fill) / 100
}

/// Top of the bar in row `k`, centred in its row.
pub open spec fn bar_y(c: LayoutConfig, k: int) -> int {
    k * c.row_height + (c.row_height - bar_height(c)) / 2
}

/// Width of the progress part of a bar from `x1` to `x2`.
pub open spec fn progress_span(x1: int, x2: int, progress: int) -> int {
    ((x2 - x1) * progress) / 100
}

/// The colour the task's own styles give, else the palette's.
pub open spec fn pick(own: Option<String>, dflt: String) -> Seq<char> {
    match own {
        Some(s) => s@,
        None => dflt@,
    }
}

/// The palette for a kind of task.
pub open spec fn palette_for(c: LayoutConfig, t: TaskType) -> BarTaskStyles {
    match t {
        TaskType::Project => c.project_styles,
        TaskType::Milestone => c.milestone_styles,
        TaskType::Task => c.bar_styles,
    }
}

/// The resolved colours of task `t`.
pub open spec fn styles_match(s: BarTaskStyles, t: Task, c: LayoutConfig) -> bool {
    let p = palette_for(c, t.type_);
    match t.styles {
        Some(o) => {
            &&& s.background_color@ == pick(o.background_color, p.background_color)
            &&& s.background_selected_color@ == pick(
                o.background_selected_color,
                p.background_selected_color,
            )
            &&& s.progress_color@ == pick(o.progress_color, p.progress_color)
            &&& s.progress_selected_color@ == pick(
                o.progress_selected_color,
                p.progress_selected_color,
            )
        },
        None => {
            &&& s.background_color@ == p.background_color@
            &&& s.background_selected_color@ == p.background_selected_color@
            &&& s.progress_color@ == p.progress_color@
            &&& s.progress_selected_color@ == p.progress_selected_color@
        },
    }
}

/// `t` is the task the configuration selects.
pub open spec fn selected(c: LayoutConfig, t: Task) -> bool {
    c.selected_task_id is Some && c.selected_task_id.unwrap()@ == t.id@
}

/// Bar `b` is the geometry and look of task `k`, apart from its relations.
pub open spec fn bar_geometry(ts: Seq<Task>, ax: Seq<i64>, c: LayoutConfig, k: int, b: BarTask) -> bool {
    let t = ts[k];
    let w = c.column_width as int;
    &&& b.index == k
    &&& b.id@ == t.id@
    &&& b.name@ == t.name@
    &&& b.x_1 == x_of(ax, t.start.unwrap() as int, w)
    &&& b.x_2 == x_of(ax, t.end.unwrap() as int, w)
    &&& b.height == bar_height(c)
    &&& b.y == bar_y(c, k)
    &&& b.progress_x == b.x_1
    &&& b.progress_width == progress_span(b.x_1 as int, b.x_2 as int, t.progress as int)
    &&& b.bar_corner_radius == c.bar_corner_radius
    &&& b.handle_width == c.handle_width
    &&& b.type_internal == internal_of(t.type_)
    &&& styles_match(b.styles, t, c)
    &&& b.is_selected == selected(c, t)
}

/// Bar `b` is task `k` of the list, relations included.
pub open spec fn bar_matches(ts: Seq<Task>, ax: Seq<i64>, c: LayoutConfig, k: int, b: BarTask) -> bool {
    &&& bar_geometry(ts, ax, c, k, b)
    &&& b.bar_children@ == dependents_of(ts, k)
    &&& b.project_children@ == children_of(ts, k)
}

/// Both ends of task `k` lie on the axis.
pub open spec fn task_on_axis(ts: Seq<Task>, ax: Seq<i64>, k: int) -> bool {
    on_axis(ax, ts[k].start.unwrap() as int) && on_axis(ax, ts[k].end.unwrap() as int)
}

/// The rows of a chart of `n` tasks fit in an `i64`.
pub open spec fn rows_fit(n: int, c: LayoutConfig) -> bool {
    n <= i64::MAX && n * c.row_height <= i64::MAX
}

/// What a build of the bar tasks gives: one validation failure listing every
/// invalid task and every task with a dangling reference, where there is any;
/// else `OutOfRange` where a task lies off the axis; else one bar per task.
pub open spec fn build_result(
    ts: Seq<Task>,
    ax: Seq<i64>,
    c: LayoutConfig,
    r: Result<Vec<BarTask>, GanttError>,
) -> bool {
    if (exists|k: int| 0 <= k < ts.len() && task_invalid(ts, k)) || (exists|k: int|
        0 <= k < ts.len() && task_dangling(ts, k)) {
        (r matches Err(GanttError::InvalidInput { invalid_tasks, dangling_references })
            && invalid_tasks@.map_values(|s: String| s@) == invalid_ids(ts, ts.len() as int)
            && dangling_references@.map_values(|s: String| s@) == dangling_ids(
            ts,
            ts.len() as int,
        ))
    } else if exists|k: int| 0 <= k < ts.len() && !task_on_axis(ts, ax, k) {
        r matches Err(GanttError::OutOfRange)
    } else {
        (r matches Ok(bars) && bars@.len() == ts.len() && forall|k: int|
            0 <= k < ts.len() ==> bar_matches(ts, ax, c, k, #[trigger] bars@[k]))
    }
}

fn pick_color(own: &Option<String>, dflt: &String) -> (r: String)
    ensures
        r@ == pick(*own, *dflt),
{
    match own {
        Some(s) => s.clone(),
        None => dflt.clone(),
    }
}

/// The colours of `task`: its own where it gives them, else the palette of
/// its kind.
pub fn resolve_styles(task: &Task, config: &LayoutConfig) -> (r: BarTaskStyles)
    ensures
        styles_match(r, *task, *config),
{
    let p = match task.type_ {
        TaskType::Project => &config.project_styles,
        TaskType::Milestone => &config.milestone_styles,
        TaskType::Task => &config.bar_styles,
    };
    match &task.styles {
        Some(o) => BarTaskStyles {
            background_color: pick_color(&o.background_color, &p.background_color),
            background_selected_color: pick_color(
                &o.background_selected_color,
                &p.background_selected_color,
            ),
            progress_color: pick_color(&o.progress_color, &p.progress_color),
            progress_selected_color: pick_color(
                &o.progress_selected_color,
                &p.progress_selected_color,
            ),
        },
        None => BarTaskStyles {
            background_color: p.background_color.clone(),
            background_selected_color: p.background_selected_color.clone(),
            progress_color: p.progress_color.clone(),
            progress_selected_color: p.progress_selected_color.clone(),
        },
    }
}

/// Geometry and look of task `i` in row `i`; its relations are left empty.
pub fn bar_task(tasks: &Vec<Task>, i: usize, dates: &Vec<i64>, config: &LayoutConfig) -> (r: Result<
    BarTask,
    GanttError,
>)
    requires
        i < tasks@.len(),
        !task_invalid(tasks@, i as int),
        axis_well_formed(dates@),
        canvas_fits(dates@, config.column_width as int),
        config_valid(*config),
        rows_fit(tasks@.len() as int, *config),
    ensures
        task_on_axis(tasks@, dates@, i as int) ==> (r matches Ok(b) && bar_geometry(
            tasks@,
            dates@,
            *config,
            i as int,
            b,
        ) && b.bar_children@.len() == 0 && b.project_children@.len() == 0),
        !task_on_axis(tasks@, dates@, i as int) ==> r matches Err(GanttError::OutOfRange),
{
    let task = &tasks[i];
    let start = task.start.unwrap();
    let end = task.end.unwrap();
    let x_1 = match task_x_coordinate(start, dates, config.column_width) {
        Ok(x) => x,
        Err(_) => return Err(GanttError::OutOfRange),
    };
    let x_2 = match task_x_coordinate(end, dates, config.column_width) {
        Ok(x) => x,
        Err(_) => return Err(GanttError::OutOfRange),
    };
    proof {
        lemma_x_monotone(dates@, start as int, end as int, config.column_width as int);
    }
    let rh = config.row_height as i64;
    proof {
        assert(0 <= rh * config.bar_fill <= rh * 100) by (nonlinear_arith)
            requires
                config.bar_fill <= 100,
                rh >= 0,
        ;
    }
    let height = (rh * config.bar_fill as i64) / 100;
    proof {
        assert(i * rh <= (tasks@.len() - 1) * rh) by (nonlinear_arith)
            requires
                i <= tasks@.len() - 1,
                rh >= 0,
        ;
        assert((tasks@.len() - 1) * rh + rh == tasks@.len() * rh) by (nonlinear_arith);
    }
    let y = (i as i64) * rh + (rh - height) / 2;
    let span = x_2 as i128 - x_1 as i128;
    proof {
        assert(0 <= span * task.progress <= span * 100) by (nonlinear_arith)
            requires
                0 <= span,
                task.progress <= 100,
        ;
    }
    let progress_width = ((span * task.progress as i128) / 100) as i64;
    let is_selected = match &config.selected_task_id {
        Some(s) => *s == task.id,
        None => false,
    };
    Ok(
        BarTask {
            index: i,
            id: task.id.clone(),
            name: task.name.clone(),
            x_1,
            x_2,
            y,
            height,
            progress_x: x_1,
            progress_width,
            bar_corner_radius: config.bar_corner_radius,
            handle_width: config.handle_width,
            type_internal: task.type_.get_internal(),
            styles: resolve_styles(task, config),
            is_selected,
            bar_children: Vec::new(),
            project_children: Vec::new(),
        },
    )
}

/// The bar tasks of a task list on the axis `dates`: one per task, in list
/// order, each with the rows of its dependents and, for a project, of its
/// children.
pub fn build_bar_tasks(tasks: &Vec<Task>, dates: &Vec<i64>, config: &LayoutConfig) -> (r: Result<
    Vec<BarTask>,
    GanttError,
>)
    requires
        axis_well_formed(dates@),
        canvas_fits(dates@, config.column_width as int),
        config_valid(*config),
        rows_fit(tasks@.len() as int, *config),
    ensures
        build_result(tasks@, dates@, *config, r),
{
    let invalid = collect_invalid(tasks);
    let dangling = collect_dangling(tasks);
    if invalid.len() > 0 || dangling.len() > 0 {
        proof {
            if invalid@.len() > 0 {
                lemma_some_invalid(tasks@, tasks@.len() as int);
            } else {
                lemma_some_dangling(tasks@, tasks@.len() as int);
            }
        }
        return Err(GanttError::InvalidInput { invalid_tasks: invalid, dangling_references: dangling });
    }
    proof {
        lemma_none_invalid(tasks@, tasks@.len() as int);
        lemma_none_dangling(tasks@, tasks@.len() as int);
    }
    let mut bars: Vec<BarTask> = Vec::new();
    let mut k: usize = 0;
    while k < tasks.len()
        invariant
            k <= tasks@.len(),
            bars@.len() == k,
            axis_well_formed(dates@),
            canvas_fits(dates@, config.column_width as int),
            config_valid(*config),
            rows_fit(tasks@.len() as int, *config),
            forall|j: int| 0 <= j < tasks@.len() ==> !task_invalid(tasks@, j),
            forall|j: int| 0 <= j < tasks@.len() ==> !task_dangling(tasks@, j),
            forall|j: int| 0 <= j < k ==> task_on_axis(tasks@, dates@, j),
            forall|j: int| 0 <= j < k ==> bar_matches(tasks@, dates@, *config, j, #[trigger] bars@[j]),
        decreases tasks@.len() - k,
    {
        let mut b = match bar_task(tasks, k, dates, config) {
            Ok(b) => b,
            Err(e) => {
                assert(!task_on_axis(tasks@, dates@, k as int));
                return Err(e);
            },
        };
        b.bar_children = dependents(tasks, k);
        b.project_children = children(tasks, k);
        bars.push(b);
        k = k + 1;
    }
    Ok(bars)
}

proof fn lemma_none_invalid(ts: Seq<Task>, n: int)
    requires
        0 <= n <= ts.len(),
        invalid_ids(ts, n).len() == 0,
    ensures
        forall|k: int| 0 <= k < n ==> !task_invalid(ts, k),
    decreases n,
{
    if n > 0 {
        if task_invalid(ts, n - 1) {
            assert(invalid_ids(ts, n).len() == invalid_ids(ts, n - 1).len() + 1);
        }
        lemma_none_invalid(ts, n - 1);
    }
}

proof fn lemma_some_invalid(ts: Seq<Task>, n: int)
    requires
        0 <= n <= ts.len(),
        invalid_ids(ts, n).len() > 0,
    ensures
        exists|k: int| 0 <= k < n && task_invalid(ts, k),
    decreases n,
{
    if n > 0 && !task_invalid(ts, n - 1) {
        lemma_some_invalid(ts, n - 1);
    }
}

proof fn lemma_none_dangling(ts: Seq<Task>, n: int)
    requires
        0 <= n <= ts.len(),
        dangling_ids(ts, n).len() == 0,
    ensures
        forall|k: int| 0 <= k < n ==> !task_dangling(ts, k),
    decreases n,
{
    if n > 0 {
        if task_dangling(ts, n - 1) {
            assert(dangling_ids(ts, n).len() == dangling_ids(ts, n - 1).len() + 1);
        }
        lemma_none_dangling(ts, n - 1);
    }
}

proof fn lemma_some_dangling(ts: Seq<Task>, n: int)
    requires
        0 <= n <= ts.len(),
        dangling_ids(ts, n).len() > 0,
    ensures
        exists|k: int| 0 <= k < n && task_dangling(ts, k),
    decreases n,
{
    if n > 0 && !task_dangling(ts, n - 1) {
        lemma_some_dangling(ts, n - 1);
    }
}

/// Two bars carry the same values, strings and row lists compared by content.
pub open spec fn same_bar(a: BarTask, b: BarTask) -> bool {
    &&& a.index == b.index
    &&& a.id@ == b.id@
    &&& a.name@ == b.name@
    &&& a.x_1 == b.x_1
    &&& a.x_2 == b.x_2
    &&& a.y == b.y
    &&& a.height == b.height
    &&& a.progress_x == b.progress_x
    &&& a.progress_width == b.progress_width
    &&& a.bar_corner_radius == b.bar_corner_radius
    &&& a.handle_width == b.handle_width
    &&& a.type_internal == b.type_internal
    &&& a.styles.background_color@ == b.styles.background_color@
    &&& a.styles.background_selected_color@ == b.styles.background_selected_color@
    &&& a.styles.progress_color@ == b.styles.progress_color@
    &&& a.styles.progress_selected_color@ == b.styles.progress_selected_color@
    &&& a.is_selected == b.is_selected
    &&& a.bar_children@ == b.bar_children@
    &&& a.project_children@ == b.project_children@
}

/// Two outcomes of a build agree: the same error with the same ids, or bars
/// that carry the same values.
pub open spec fn same_outcome(r1: Result<Vec<BarTask>, GanttError>, r2: Result<Vec<BarTask>, GanttError>) -> bool {
    match (r1, r2) {
        (Ok(a), Ok(b)) => a@.len() == b@.len() && forall|k: int|
            0 <= k < a@.len() ==> same_bar(#[trigger] a@[k], b@[k]),
        (
            Err(GanttError::InvalidInput { invalid_tasks: a1, dangling_references: d1 }),
            Err(GanttError::InvalidInput { invalid_tasks: a2, dangling_references: d2 }),
        ) => a1@.map_values(|s: String| s@) == a2@.map_values(|s: String| s@) && d1@.map_values(
            |s: String| s@,
        ) == d2@.map_values(|s: String| s@),
        (Err(GanttError::OutOfRange), Err(GanttError::OutOfRange)) => true,
        _ => false,
    }
}

/// Building the bar tasks twice from the same inputs gives the same result:
/// the build keeps no state of its own.
pub proof fn lemma_build_deterministic(
    ts: Seq<Task>,
    ax: Seq<i64>,
    c: LayoutConfig,
    r1: Result<Vec<BarTask>, GanttError>,
    r2: Result<Vec<BarTask>, GanttError>,
)
    requires
        build_result(ts, ax, c, r1),
        build_result(ts, ax, c, r2),
    ensures
        same_outcome(r1, r2),
{
    if !(exists|k: int| 0 <= k < ts.len() && task_invalid(ts, k)) && !(exists|k: int|
        0 <= k < ts.len() && task_dangling(ts, k)) && !(exists|k: int|
        0 <= k < ts.len() && !task_on_axis(ts, ax, k)) {
        let a = r1->Ok_0;
        let b = r2->Ok_0;
        assert forall|k: int| 0 <= k < a@.len() implies same_bar(#[trigger] a@[k], b@[k]) by {
            assert(bar_matches(ts, ax, c, k, a@[k]));
            assert(bar_matches(ts, ax, c, k, b@[k]));
        }
    }
}

/// The progress part of a bar lies inside the bar: for a valid task on the
/// axis, `0 <= progress_width <= x_2 - x_1`.
pub proof fn lemma_progress_within_bar(ts: Seq<Task>, ax: Seq<i64>, c: LayoutConfig, k: int, b: BarTask)
    requires
        0 <= k < ts.len(),
        axis_well_formed(ax),
        !task_invalid(ts, k),
        task_on_axis(ts, ax, k),
        bar_geometry(ts, ax, c, k, b),
    ensures
        0 <= b.progress_width <= b.x_2 - b.x_1,
{
    let t = ts[k];
    lemma_x_monotone(ax, t.start.unwrap() as int, t.end.unwrap() as int, c.column_width as int);
    lemma_progress_span_bounds(b.x_1 as int, b.x_2 as int, t.progress as int);
}

/// For a progress from 0 to 100, the progress width lies between zero and the
/// bar's width.
pub proof fn lemma_progress_span_bounds(x1: int, x2: int, progress: int)
    requires
        x1 <= x2,
        0 <= progress <= 100,
    ensures
        0 <= progress_span(x1, x2, progress) <= x2 - x1,
{
    let span = x2 - x1;
    assert(0 <= span * progress <= span * 100) by (nonlinear_arith)
        requires
            0 <= span,
            0 <= progress <= 100,
    ;
    assert((span * 100) / 100 == span) by (nonlinear_arith);
    vstd::arithmetic::div_mod::lemma_div_is_ordered(span * progress, span * 100, 100);
    vstd::arithmetic::div_mod::lemma_div_pos_is_pos(span * progress, 100);
}

} // verus!
