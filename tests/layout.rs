use chrono::NaiveDate;
use gantt::arrows::{build_arrows, route_arrow, PathCommand, Point};
use gantt::axis::{build_axis, seed_dates, task_span};
use gantt::bars::{bar_task, build_bar_tasks, resolve_styles, BarTask};
use gantt::calendar::{read_stamp, ViewMode};
use gantt::chart::layout_chart;
use gantt::config::{BarTaskStyles, LayoutConfig};
use gantt::coords::{grid_lines, task_x_coordinate, today_column};
use gantt::header::{build_header, HeaderLabel};
use gantt::relations::{children, dependents, lists_dependency};
use gantt::shapes::{label_anchor, Paint, Shape};
use gantt::task::{GanttError, Task, TaskStyles, TaskType, TaskTypeInternal};

const DAY: i64 = 86400;

fn at(y: i32, m: u32, d: u32, h: u32) -> i64 {
    NaiveDate::from_ymd_opt(y, m, d)
        .unwrap()
        .and_hms_opt(h, 0, 0)
        .unwrap()
        .and_utc()
        .timestamp()
}

fn task(id: &str, start: i64, end: i64, deps: &[&str]) -> Task {
    Task {
        id: id.to_string(),
        name: format!("Task {}", id),
        start: Some(start),
        end: Some(end),
        progress: 50,
        type_: TaskType::Task,
        project: None,
        dependencies: deps.iter().map(|d| d.to_string()).collect(),
        display_order: None,
        hide_children: false,
        is_disabled: false,
        styles: None,
    }
}

fn bar(index: usize, x_1: i64, x_2: i64, y: i64) -> BarTask {
    BarTask {
        index,
        id: format!("b{}", index),
        name: String::new(),
        x_1,
        x_2,
        y,
        height: 30,
        progress_x: x_1,
        progress_width: 0,
        bar_corner_radius: 3,
        handle_width: 8,
        type_internal: TaskTypeInternal::Task,
        styles: BarTaskStyles::default_colors(),
        is_selected: false,
        bar_children: Vec::new(),
        project_children: Vec::new(),
    }
}

#[test]
fn month_axis_scenario() {
    let tasks = vec![
        task("a", at(2023, 4, 1, 0), at(2023, 6, 20, 0), &[]),
        task("b", at(2023, 5, 20, 0), at(2023, 6, 1, 0), &[]),
    ];
    let axis = build_axis(&tasks, ViewMode::Month, at(2020, 1, 1, 0)).unwrap();
    assert_eq!(
        axis,
        vec![at(2023, 4, 1, 0), at(2023, 5, 1, 0), at(2023, 6, 1, 0), at(2023, 7, 1, 0)]
    );
    // 19 of May's 31 days into bucket 1, with columns 30 wide.
    let x = task_x_coordinate(at(2023, 5, 20, 0), &axis, 30).unwrap();
    assert_eq!(x, 30 + (19 * 30) / 31);
    assert!(x > 30 && x < 60);
}

#[test]
fn month_axis_snaps_to_first_of_month() {
    let axis = seed_dates(at(2023, 4, 20, 1) + 2799, at(2023, 6, 20, 1), ViewMode::Month).unwrap();
    assert_eq!(
        axis,
        vec![at(2023, 4, 1, 0), at(2023, 5, 1, 0), at(2023, 6, 1, 0), at(2023, 7, 1, 0)]
    );
}

#[test]
fn axis_steps_are_exact_for_fixed_modes() {
    let start = at(2023, 4, 5, 13) + 1234;
    let end = at(2023, 4, 30, 2);
    for (mode, step) in [
        (ViewMode::Hour, 3600),
        (ViewMode::QuarterDay, 6 * 3600),
        (ViewMode::HalfDay, 12 * 3600),
        (ViewMode::Day, DAY),
        (ViewMode::Week, 7 * DAY),
    ] {
        let axis = seed_dates(start, end, mode).unwrap();
        assert!(axis.len() >= 2);
        assert!(axis[0] <= start);
        assert!(*axis.last().unwrap() >= end);
        assert!(axis[axis.len() - 2] < end);
        for i in 0..axis.len() - 1 {
            assert_eq!(axis[i + 1] - axis[i], step);
        }
    }
}

#[test]
fn week_axis_starts_on_monday() {
    // 2023-04-05 is a Wednesday; the Monday before is 2023-04-03.
    let axis = seed_dates(at(2023, 4, 5, 10), at(2023, 4, 20, 0), ViewMode::Week).unwrap();
    assert_eq!(axis, vec![at(2023, 4, 3, 0), at(2023, 4, 10, 0), at(2023, 4, 17, 0), at(2023, 4, 24, 0)]);
}

#[test]
fn quarter_and_year_axes() {
    let q = seed_dates(at(2023, 5, 20, 0), at(2023, 11, 2, 0), ViewMode::QuarterYear).unwrap();
    assert_eq!(q, vec![at(2023, 4, 1, 0), at(2023, 7, 1, 0), at(2023, 10, 1, 0), at(2024, 1, 1, 0)]);
    let y = seed_dates(at(2023, 5, 20, 0), at(2024, 2, 2, 0), ViewMode::Year).unwrap();
    assert_eq!(y, vec![at(2023, 1, 1, 0), at(2024, 1, 1, 0), at(2025, 1, 1, 0)]);
}

#[test]
fn single_instant_gives_one_bucket() {
    let t = at(2023, 4, 1, 0);
    let axis = seed_dates(t, t, ViewMode::Day).unwrap();
    assert_eq!(axis, vec![t, t + DAY]);
}

#[test]
fn empty_task_list_uses_today() {
    let today = at(2023, 8, 15, 9);
    assert_eq!(task_span(&Vec::new(), today), (today, today));
    let axis = build_axis(&Vec::new(), ViewMode::Day, today).unwrap();
    assert_eq!(axis, vec![at(2023, 8, 15, 0), at(2023, 8, 16, 0)]);
}

#[test]
fn task_span_takes_extremes() {
    let tasks = vec![
        task("a", 500, 900, &[]),
        task("b", 100, 700, &[]),
        task("c", 300, 1200, &[]),
    ];
    assert_eq!(task_span(&tasks, 0), (100, 1200));
}

#[test]
fn get_mod_date_steps() {
    let t = at(2023, 1, 31, 5);
    assert_eq!(ViewMode::Month.get_mod_date(t, true), Some(at(2023, 2, 28, 5)));
    assert_eq!(ViewMode::Month.get_mod_date(t, false), Some(at(2022, 12, 31, 5)));
    assert_eq!(ViewMode::QuarterYear.get_mod_date(t, true), Some(at(2023, 4, 30, 5)));
    assert_eq!(ViewMode::Year.get_mod_date(at(2024, 2, 29, 0), true), Some(at(2025, 2, 28, 0)));
    assert_eq!(ViewMode::Hour.get_mod_date(t, true), Some(t + 3600));
    assert_eq!(ViewMode::Week.get_mod_date(t, false), Some(t - 7 * DAY));
    assert_eq!(ViewMode::HalfDay.get_mod_date(t, true), Some(t + 12 * 3600));
    assert_eq!(ViewMode::default(), ViewMode::Month);
}

#[test]
fn get_mod_date_round_trip_fixed_and_early_days() {
    let t = at(2023, 3, 14, 7);
    for mode in [
        ViewMode::Hour,
        ViewMode::QuarterDay,
        ViewMode::HalfDay,
        ViewMode::Day,
        ViewMode::Week,
        ViewMode::Month,
        ViewMode::QuarterYear,
        ViewMode::Year,
    ] {
        let fwd = mode.get_mod_date(t, true).unwrap();
        assert!(fwd > t);
        assert_eq!(mode.get_mod_date(fwd, false), Some(t));
    }
}

#[test]
fn snap_per_mode() {
    let t = at(2023, 5, 17, 15) + 1799;
    assert_eq!(ViewMode::Hour.snap(t), at(2023, 5, 17, 15));
    assert_eq!(ViewMode::QuarterDay.snap(t), at(2023, 5, 17, 12));
    assert_eq!(ViewMode::HalfDay.snap(t), at(2023, 5, 17, 12));
    assert_eq!(ViewMode::Day.snap(t), at(2023, 5, 17, 0));
    assert_eq!(ViewMode::Week.snap(t), at(2023, 5, 15, 0));
    assert_eq!(ViewMode::Month.snap(t), at(2023, 5, 1, 0));
    assert_eq!(ViewMode::QuarterYear.snap(t), at(2023, 4, 1, 0));
    assert_eq!(ViewMode::Year.snap(t), at(2023, 1, 1, 0));
}

#[test]
fn ticks_map_to_column_edges() {
    let axis = seed_dates(at(2023, 1, 10, 0), at(2023, 9, 10, 0), ViewMode::Month).unwrap();
    for (i, t) in axis.iter().enumerate() {
        assert_eq!(task_x_coordinate(*t, &axis, 40).unwrap(), i as i64 * 40);
    }
}

#[test]
fn midpoint_maps_to_column_middle() {
    let axis = seed_dates(at(2023, 1, 10, 0), at(2023, 9, 10, 0), ViewMode::Month).unwrap();
    for i in 0..axis.len() - 1 {
        let mid = axis[i] + (axis[i + 1] - axis[i]) / 2;
        assert_eq!(task_x_coordinate(mid, &axis, 40).unwrap(), i as i64 * 40 + 20);
        assert_eq!(task_x_coordinate(mid, &axis, 41).unwrap(), i as i64 * 41 + 20);
    }
}

#[test]
fn midpoint_of_odd_bucket_within_a_pixel() {
    let axis = vec![0, 3, 10];
    // Bucket 0 is 3 seconds long; its midpoint 1 maps to 3, below 5 by
    // less than one pixel plus 10 / 6.
    let x = task_x_coordinate(1, &axis, 10).unwrap();
    assert_eq!(x, 3);
    assert!(2 * 3 * x <= 10 * 3);
    assert!(2 * 3 * (x + 1) > 2 * 10);
}

#[test]
fn coordinate_out_of_range() {
    let axis = vec![0, 100, 200];
    assert!(matches!(task_x_coordinate(-1, &axis, 10), Err(GanttError::OutOfRange)));
    assert!(matches!(task_x_coordinate(201, &axis, 10), Err(GanttError::OutOfRange)));
    assert_eq!(task_x_coordinate(200, &axis, 10).unwrap(), 20);
    assert_eq!(task_x_coordinate(150, &axis, 10).unwrap(), 15);
    assert_eq!(task_x_coordinate(33, &axis, 10).unwrap(), 3);
}

#[test]
fn coordinate_uses_each_bucket_length() {
    let axis = vec![0, 10, 110];
    assert_eq!(task_x_coordinate(5, &axis, 20).unwrap(), 10);
    assert_eq!(task_x_coordinate(60, &axis, 20).unwrap(), 30);
}

fn small_config() -> LayoutConfig {
    let mut c = LayoutConfig::default();
    c.column_width = 100;
    c.row_height = 50;
    c.bar_fill = 60;
    c
}

#[test]
fn bar_geometry_exact() {
    let tasks = vec![task("a", 0, 100, &[]), task("b", 50, 200, &[])];
    let axis = vec![0, 100, 200];
    let c = small_config();
    let b = bar_task(&tasks, 1, &axis, &c).unwrap();
    assert_eq!(b.index, 1);
    assert_eq!((b.x_1, b.x_2), (50, 200));
    assert_eq!(b.height, 30);
    assert_eq!(b.y, 50 + 10);
    assert_eq!(b.progress_x, 50);
    assert_eq!(b.progress_width, 75);
    assert_eq!(b.bar_corner_radius, 3);
    assert_eq!(b.handle_width, 8);
    assert_eq!(b.type_internal, TaskTypeInternal::Task);
    assert_eq!(b.id, "b");
}

#[test]
fn progress_stays_inside_bar() {
    let axis = vec![0, 100, 200];
    let c = small_config();
    for p in [0u32, 1, 33, 99, 100] {
        let mut t = task("a", 10, 187, &[]);
        t.progress = p;
        let b = bar_task(&vec![t], 0, &axis, &c).unwrap();
        assert!(b.progress_width >= 0);
        assert!(b.progress_width <= b.x_2 - b.x_1);
        assert_eq!(b.progress_width, (b.x_2 - b.x_1) * p as i64 / 100);
    }
}

#[test]
fn build_twice_is_identical() {
    let mut tasks = vec![
        task("p", 0, 200, &[]),
        task("a", 0, 100, &[]),
        task("b", 50, 200, &["a"]),
    ];
    tasks[0].type_ = TaskType::Project;
    tasks[1].project = Some("p".to_string());
    tasks[2].project = Some("p".to_string());
    let axis = vec![0, 100, 200];
    let c = small_config();
    let r1 = build_bar_tasks(&tasks, &axis, &c).unwrap();
    let r2 = build_bar_tasks(&tasks, &axis, &c).unwrap();
    assert_eq!(format!("{:?}", r1), format!("{:?}", r2));
    assert_eq!(r1[0].project_children, vec![1, 2]);
    assert_eq!(r1[1].bar_children, vec![2]);
    assert!(r1[2].bar_children.is_empty());
    assert!(r1[1].project_children.is_empty());
    assert_eq!(r1[0].type_internal, TaskTypeInternal::Project);
}

#[test]
fn dependents_in_list_order() {
    let tasks = vec![
        task("c", 0, 10, &["a"]),
        task("a", 0, 10, &[]),
        task("b", 0, 10, &["x", "a"]),
    ];
    assert_eq!(dependents(&tasks, 1), vec![0, 2]);
    assert!(dependents(&tasks, 0).is_empty());
    assert!(lists_dependency(&tasks[2], &"a".to_string()));
    assert!(!lists_dependency(&tasks[2], &"c".to_string()));
    assert!(children(&tasks, 1).is_empty());
}

#[test]
fn dependency_cycle_resolves_and_routes() {
    let tasks = vec![task("A", 0, 100, &["B"]), task("B", 100, 200, &["A"])];
    let axis = vec![0, 100, 200];
    let c = small_config();
    let bars = build_bar_tasks(&tasks, &axis, &c).unwrap();
    assert_eq!(bars[0].bar_children, vec![1]);
    assert_eq!(bars[1].bar_children, vec![0]);
    let arrows = build_arrows(&bars, &c);
    assert_eq!(arrows.len(), 2);
    assert_eq!((arrows[0].from, arrows[0].to), (0, 1));
    assert_eq!((arrows[1].from, arrows[1].to), (1, 0));
}

#[test]
fn invalid_tasks_are_listed() {
    let mut missing = task("m", 0, 10, &[]);
    missing.start = None;
    let mut late = task("l", 0, 10, &[]);
    late.progress = 101;
    let tasks = vec![
        task("ok", 0, 10, &[]),
        missing,
        task("rev", 20, 10, &[]),
        task("dup", 0, 10, &[]),
        late,
        task("dup", 0, 10, &[]),
    ];
    let axis = vec![0, 100];
    match build_bar_tasks(&tasks, &axis, &small_config()) {
        Err(GanttError::InvalidInput { invalid_tasks, dangling_references }) => {
            assert_eq!(invalid_tasks, vec!["m", "rev", "dup", "l", "dup"]);
            assert!(dangling_references.is_empty());
        }
        other => panic!("unexpected {:?}", other),
    }
}

#[test]
fn dangling_references_are_listed() {
    let mut child = task("c", 0, 10, &[]);
    child.project = Some("nowhere".to_string());
    let tasks = vec![task("a", 0, 10, &["zz"]), task("b", 0, 10, &["a"]), child];
    let axis = vec![0, 100];
    match build_bar_tasks(&tasks, &axis, &small_config()) {
        Err(GanttError::InvalidInput { invalid_tasks, dangling_references }) => {
            assert!(invalid_tasks.is_empty());
            assert_eq!(dangling_references, vec!["a", "c"]);
        }
        other => panic!("unexpected {:?}", other),
    }
}

#[test]
fn invalid_and_dangling_reported_together() {
    let mut missing = task("m", 0, 10, &[]);
    missing.start = None;
    let tasks = vec![task("ok", 0, 10, &[]), missing, task("d", 0, 10, &["unknown"])];
    let axis = vec![0, 100];
    match build_bar_tasks(&tasks, &axis, &small_config()) {
        Err(GanttError::InvalidInput { invalid_tasks, dangling_references }) => {
            assert_eq!(invalid_tasks, vec!["m"]);
            assert_eq!(dangling_references, vec!["d"]);
        }
        other => panic!("unexpected {:?}", other),
    }
}

#[test]
fn task_off_axis_is_out_of_range() {
    let tasks = vec![task("a", 0, 150, &[])];
    let axis = vec![0, 100];
    assert!(matches!(build_bar_tasks(&tasks, &axis, &small_config()), Err(GanttError::OutOfRange)));
}

#[test]
fn arrow_overlap_scenario() {
    let a = bar(0, 40, 100, 10);
    let b = bar(1, 80, 160, 60);
    let mut c = small_config();
    c.arrow_indent = 20;
    let arrow = route_arrow(&a, &b, 0, 1, &c);
    assert_eq!(
        arrow.path,
        vec![
            PathCommand::MoveTo(100, 25),
            PathCommand::HorizontalBy(20),
            PathCommand::VerticalBy(25),
            PathCommand::HorizontalTo(60),
            PathCommand::VerticalTo(75),
            PathCommand::HorizontalBy(20),
        ]
    );
    assert_eq!(arrow.head.tip, Point { x: 80, y: 75 });
    assert_eq!(arrow.head.upper, Point { x: 75, y: 70 });
    assert_eq!(arrow.head.lower, Point { x: 75, y: 80 });
}

#[test]
fn arrow_clear_lead_out() {
    let a = bar(2, 0, 100, 110);
    let b = bar(0, 200, 300, 10);
    let mut c = small_config();
    c.arrow_indent = 20;
    let arrow = route_arrow(&a, &b, 2, 0, &c);
    assert_eq!(
        arrow.path,
        vec![
            PathCommand::MoveTo(100, 125),
            PathCommand::HorizontalBy(20),
            PathCommand::VerticalBy(-25),
            PathCommand::VerticalTo(25),
            PathCommand::HorizontalBy(80),
        ]
    );
}

#[test]
fn arrows_follow_dependents_order() {
    let mut a = bar(0, 0, 50, 10);
    a.bar_children = vec![2, 1];
    let b = bar(1, 100, 150, 60);
    let mut c3 = bar(2, 120, 180, 110);
    c3.bar_children = vec![1];
    let arrows = build_arrows(&vec![a, b, c3], &small_config());
    let edges: Vec<(usize, usize)> = arrows.iter().map(|x| (x.from, x.to)).collect();
    assert_eq!(edges, vec![(0, 2), (0, 1), (2, 1)]);
}

#[test]
fn month_header_groups_by_year() {
    let axis = seed_dates(at(2023, 11, 5, 0), at(2024, 2, 5, 0), ViewMode::Month).unwrap();
    let h = build_header(&axis, ViewMode::Month, 30);
    let lower: Vec<HeaderLabel> = h.lower.iter().map(|e| e.label).collect();
    assert_eq!(
        lower,
        vec![HeaderLabel::Month(11), HeaderLabel::Month(12), HeaderLabel::Month(1), HeaderLabel::Month(2)]
    );
    assert_eq!(h.lower[2].x, 75);
    assert_eq!(h.lower[2].tick_x, 60);
    assert_eq!(h.upper.len(), 2);
    assert_eq!(h.upper[0].label, HeaderLabel::Year(2023));
    assert_eq!((h.upper[0].tick_x, h.upper[0].x), (0, 30));
    assert_eq!(h.upper[1].label, HeaderLabel::Year(2024));
    assert_eq!((h.upper[1].tick_x, h.upper[1].x), (60, 90));
}

#[test]
fn day_and_week_headers() {
    let axis = seed_dates(at(2023, 4, 29, 0), at(2023, 5, 2, 0), ViewMode::Day).unwrap();
    let h = build_header(&axis, ViewMode::Day, 10);
    let lower: Vec<HeaderLabel> = h.lower.iter().map(|e| e.label).collect();
    assert_eq!(lower, vec![HeaderLabel::Day(29), HeaderLabel::Day(30), HeaderLabel::Day(1)]);
    let upper: Vec<HeaderLabel> = h.upper.iter().map(|e| e.label).collect();
    assert_eq!(upper, vec![HeaderLabel::YearMonth(2023, 4), HeaderLabel::YearMonth(2023, 5)]);
    assert_eq!((h.upper[1].tick_x, h.upper[1].x), (20, 25));

    let axis = seed_dates(at(2023, 1, 2, 0), at(2023, 1, 10, 0), ViewMode::Week).unwrap();
    let h = build_header(&axis, ViewMode::Week, 10);
    let lower: Vec<HeaderLabel> = h.lower.iter().map(|e| e.label).collect();
    assert_eq!(lower, vec![HeaderLabel::Week(1), HeaderLabel::Week(2)]);
}

#[test]
fn hour_and_quarter_headers() {
    let axis = seed_dates(at(2023, 4, 1, 18), at(2023, 4, 2, 6), ViewMode::QuarterDay).unwrap();
    let h = build_header(&axis, ViewMode::QuarterDay, 10);
    let lower: Vec<HeaderLabel> = h.lower.iter().map(|e| e.label).collect();
    assert_eq!(lower, vec![HeaderLabel::Hour(18), HeaderLabel::Hour(0)]);
    let upper: Vec<HeaderLabel> = h.upper.iter().map(|e| e.label).collect();
    assert_eq!(upper, vec![HeaderLabel::Date(2023, 4, 1), HeaderLabel::Date(2023, 4, 2)]);

    let axis = seed_dates(at(2023, 2, 1, 0), at(2023, 12, 1, 0), ViewMode::QuarterYear).unwrap();
    let h = build_header(&axis, ViewMode::QuarterYear, 10);
    let lower: Vec<HeaderLabel> = h.lower.iter().map(|e| e.label).collect();
    assert_eq!(
        lower,
        vec![HeaderLabel::Quarter(1), HeaderLabel::Quarter(2), HeaderLabel::Quarter(3), HeaderLabel::Quarter(4)]
    );
    assert_eq!(h.upper.len(), 1);
    assert_eq!(h.upper[0].x, 20);
}

#[test]
fn styles_and_selection() {
    let mut c = small_config();
    c.project_styles.background_color = "#fac465".to_string();
    c.selected_task_id = Some("p".to_string());
    let mut p = task("p", 0, 100, &[]);
    p.type_ = TaskType::Project;
    p.styles = Some(TaskStyles {
        background_color: None,
        background_selected_color: None,
        progress_color: Some("#123456".to_string()),
        progress_selected_color: None,
    });
    let s = resolve_styles(&p, &c);
    assert_eq!(s.background_color, "#fac465");
    assert_eq!(s.progress_color, "#123456");
    assert_eq!(s.progress_selected_color, "#8282f5");
    let bars = build_bar_tasks(&vec![p, task("t", 0, 100, &[])], &vec![0, 100], &c).unwrap();
    assert!(bars[0].is_selected);
    assert!(!bars[1].is_selected);
    assert_eq!(bars[0].paint_color(Paint::Background), "#aeb8c2");
    assert_eq!(bars[1].paint_color(Paint::Background), "#b8c2cc");
    assert_eq!(bars[1].paint_color(Paint::Progress), "#a3a3ff");
}

#[test]
fn shape_fills_follow_selection() {
    let mut b = bar(0, 100, 200, 10);
    b.progress_width = 40;
    let plain = TaskTypeInternal::Task.get_task_item(&b);
    assert_eq!(plain.len(), 5);
    assert_eq!(plain[0].fill, "#b8c2cc");
    assert_eq!(plain[1].fill, "#a3a3ff");
    assert_eq!(plain[2].fill, "#aeb8c2");
    b.is_selected = true;
    let chosen = TaskTypeInternal::Task.get_task_item(&b);
    assert_eq!(chosen[0].fill, "#aeb8c2");
    assert_eq!(chosen[1].fill, "#8282f5");
    assert_eq!(chosen[1].shape, plain[1].shape);
}

#[test]
fn default_config_values() {
    let c = LayoutConfig::default();
    assert_eq!((c.column_width, c.row_height, c.bar_fill), (30, 50, 60));
    assert_eq!((c.bar_corner_radius, c.handle_width, c.arrow_indent, c.header_height), (3, 8, 20, 50));
    assert!(c.selected_task_id.is_none());
    assert_eq!(c.bar_styles.background_color, "#b8c2cc");
    assert_eq!(TaskType::Milestone.get_internal(), TaskTypeInternal::Milestone);
    assert_eq!(TaskType::Project.get_internal(), TaskTypeInternal::Project);
    assert_eq!(TaskTypeInternal::default(), TaskTypeInternal::Project);
}

#[test]
fn shapes_by_kind() {
    let mut b = bar(0, 100, 200, 10);
    b.progress_width = 40;
    b.type_internal = TaskTypeInternal::Project;
    let shapes = TaskTypeInternal::Project.outline(&b);
    assert_eq!(shapes.len(), 5);
    assert_eq!(
        shapes[3],
        Shape::Triangle {
            a: Point { x: 100, y: 24 },
            b: Point { x: 100, y: 40 },
            c: Point { x: 115, y: 24 },
            paint: Paint::Background,
        }
    );
    b.type_internal = TaskTypeInternal::Task;
    let shapes = TaskTypeInternal::Task.outline(&b);
    assert_eq!(
        shapes[4],
        Shape::Triangle {
            a: Point { x: 135, y: 40 },
            b: Point { x: 145, y: 40 },
            c: Point { x: 140, y: 31 },
            paint: Paint::Handle,
        }
    );
    b.type_internal = TaskTypeInternal::Milestone;
    let shapes = TaskTypeInternal::Milestone.outline(&b);
    assert_eq!(
        shapes,
        vec![Shape::Diamond { x: 100, y: 10, size: 30, radius: 3, pivot: Point { x: 110, y: 35 }, paint: Paint::Background }]
    );
    assert_eq!(label_anchor(&b), Point { x: 150, y: 25 });
}

#[test]
fn whole_chart_from_sample_tasks() {
    let mut project = task("ProjectSample", at(2023, 4, 20, 1), at(2023, 6, 20, 1), &[]);
    project.type_ = TaskType::Project;
    let mut idea = task("Task 0", at(2023, 4, 1, 1), at(2023, 4, 20, 1), &[]);
    idea.project = Some("ProjectSample".to_string());
    let mut research = task("Task 1", at(2023, 4, 20, 1), at(2023, 5, 20, 1), &["Task 0"]);
    research.project = Some("ProjectSample".to_string());
    let mut release = task("Task 6", at(2023, 4, 11, 1), at(2023, 4, 20, 1), &["Task 1"]);
    release.type_ = TaskType::Milestone;
    let tasks = vec![project, idea, research, release];
    let c = LayoutConfig::default();
    let chart = layout_chart(&tasks, ViewMode::Month, at(2000, 1, 1, 0), &c).unwrap();
    assert_eq!(chart.dates.len(), 4);
    assert_eq!(chart.svg_width, 120);
    assert_eq!(chart.bars.len(), 4);
    assert_eq!(chart.bars[0].project_children, vec![1, 2]);
    assert_eq!(chart.arrows.len(), 2);
    assert_eq!(chart.header.lower.len(), 3);
    assert_eq!(chart.header.upper.len(), 1);
    assert_eq!(chart.bars[3].type_internal, TaskTypeInternal::Milestone);
}

#[test]
fn whole_chart_rejects_bad_stamps() {
    let tasks = vec![task("a", i64::MIN, 0, &[])];
    let c = LayoutConfig::default();
    assert!(matches!(layout_chart(&tasks, ViewMode::Day, 0, &c), Err(GanttError::OutOfRange)));
    let empty: Vec<Task> = Vec::new();
    let chart = layout_chart(&empty, ViewMode::Day, at(2023, 1, 1, 12), &c).unwrap();
    assert_eq!(chart.dates, vec![at(2023, 1, 1, 0), at(2023, 1, 2, 0)]);
    assert!(chart.bars.is_empty());
}

#[test]
fn read_stamp_parses_and_rejects() {
    let fmt = "%Y-%m-%d %H:%M:%S".to_string();
    assert_eq!(read_stamp(&Some("2023-04-20 01:46:39".to_string()), &fmt), Some(at(2023, 4, 20, 1) + 46 * 60 + 39));
    assert_eq!(read_stamp(&Some("not a date".to_string()), &fmt), None);
    assert_eq!(read_stamp(&None, &fmt), None);
}

#[test]
fn today_column_and_grid() {
    let axis = vec![0, 100, 200];
    assert_eq!(today_column(&axis, 150), Some(1));
    assert_eq!(today_column(&axis, 100), Some(0));
    assert_eq!(today_column(&axis, 0), None);
    assert_eq!(today_column(&axis, 201), None);
    let g = grid_lines(3, 2, 50, 30);
    assert_eq!(g.row_tops, vec![0, 50, 100]);
    assert_eq!(g.tick_xs, vec![0, 30]);
}
