//! Primitive shapes that draw a bar, by kind of task.

use crate::arrows::{bar_bounded, Point};
use crate::bars::BarTask;
use crate::task::TaskTypeInternal;
use vstd::prelude::*;

verus! {

/// Which of the bar's colours a shape is filled with.
#[derive(Clone, Copy, PartialEq, Eq, Debug, Structural)]
pub enum Paint {
    Background,
    Progress,
    Handle,
}

/// A primitive shape.
#[derive(Clone, Copy, PartialEq, Eq, Debug, Structural)]
pub enum Shape {
    /// Rounded rectangle: left, top, width, height, corner radius.
    Rect { x: i64, y: i64, width: i64, height: i64, radius: u32, paint: Paint },
    /// Triangle through three points.
    Triangle { a: Point, b: Point, c: Point, paint: Paint },
    /// Square of side `size` at (`x`, `y`) turned 45 degrees about `pivot`.
    Diamond { x: i64, y: i64, size: i64, radius: u32, pivot: Point, paint: Paint },
}

/// Height of the progress handle: an equilateral triangle of side 10,
/// rounded to whole pixels.
pub const HANDLE_RISE: i64 = 9;

/// Leg of the corner triangles of a project bar.
pub const PROJECT_LEG: i64 = 15;

/// Shapes of a plain task: body, progress, two date handles and the
/// progress handle under the progress's right end.
pub open spec fn task_shapes(b: BarTask) -> Seq<Shape> {
    let px = b.progress_x + b.progress_width;
    let bottom = b.y + b.height;
    seq![
        Shape::Rect { x: b.x_1, y: b.y, width: (b.x_2 - b.x_1) as i64, height: b.height, radius: b.bar_corner_radius, paint: Paint::Background },
        Shape::Rect { x: b.progress_x, y: b.y, width: b.progress_width, height: b.height, radius: b.bar_corner_radius, paint: Paint::Progress },
        Shape::Rect { x: (b.x_1 + 1) as i64, y: (b.y + 1) as i64, width: b.handle_width as i64, height: b.height, radius: b.bar_corner_radius, paint: Paint::Handle },
        Shape::Rect { x: (b.x_2 - b.handle_width - 1) as i64, y: (b.y + 1) as i64, width: b.handle_width as i64, height: b.height, radius: b.bar_corner_radius, paint: Paint::Handle },
        Shape::Triangle {
            a: Point { x: (px - 5) as i64, y: bottom as i64 },
            b: Point { x: (px + 5) as i64, y: bottom as i64 },
            c: Point { x: px as i64, y: (bottom - HANDLE_RISE) as i64 },
            paint: Paint::Handle,
        },
    ]
}

/// Shapes of a project: body, progress, a half-height cap and two corner
/// triangles, one at each end.
pub open spec fn project_shapes(b: BarTask) -> Seq<Shape> {
    let mid = b.y + b.height / 2 - 1;
    let bottom = b.y + b.height;
    seq![
        Shape::Rect { x: b.x_1, y: b.y, width: (b.x_2 - b.x_1) as i64, height: b.height, radius: b.bar_corner_radius, paint: Paint::Background },
        Shape::Rect { x: b.progress_x, y: b.y, width: b.progress_width, height: b.height, radius: b.bar_corner_radius, paint: Paint::Progress },
        Shape::Rect { x: b.x_1, y: b.y, width: (b.x_2 - b.x_1) as i64, height: (b.height / 2) as i64, radius: b.bar_corner_radius, paint: Paint::Background },
        Shape::Triangle {
            a: Point { x: b.x_1, y: mid as i64 },
            b: Point { x: b.x_1, y: bottom as i64 },
            c: Point { x: (b.x_1 + PROJECT_LEG) as i64, y: mid as i64 },
            paint: Paint::Background,
        },
        Shape::Triangle {
            a: Point { x: b.x_2, y: mid as i64 },
            b: Point { x: b.x_2, y: bottom as i64 },
            c: Point { x: (b.x_2 - PROJECT_LEG) as i64, y: mid as i64 },
            paint: Paint::Background,
        },
    ]
}

/// Shape of a milestone: a square of the bar's height turned into a diamond
/// about a point 0.356 and 0.85 of its side from its corner.
pub open spec fn milestone_shapes(b: BarTask) -> Seq<Shape> {
    seq![
        Shape::Diamond {
            x: b.x_1,
            y: b.y,
            size: b.height,
            radius: b.bar_corner_radius,
            pivot: Point { x: (b.x_1 + (b.height * 356) / 1000) as i64, y: (b.y + (b.height * 85) / 100) as i64 },
            paint: Paint::Background,
        },
    ]
}

/// Shapes of a bar, by its kind.
pub open spec fn shapes_spec(b: BarTask) -> Seq<Shape> {
    match b.type_internal {
        TaskTypeInternal::Project => project_shapes(b),
        TaskTypeInternal::Milestone => milestone_shapes(b),
        _ => task_shapes(b),
    }
}

/// A bar whose progress part is bounded too.
pub open spec fn shapes_drawable(b: BarTask) -> bool {
    &&& bar_bounded(b)
    &&& 0 <= b.progress_x <= 0x1000_0000_0000_0000
    &&& 0 <= b.progress_width <= 0x1000_0000_0000_0000
    &&& b.height <= 0x1_0000_0000
}

/// The paint a shape is tagged with.
pub open spec fn paint_of(s: Shape) -> Paint {
    match s {
        Shape::Rect { paint, .. } => paint,
        Shape::Triangle { paint, .. } => paint,
        Shape::Diamond { paint, .. } => paint,
    }
}

/// The colour of paint `p` on bar `b`: background and progress take their
/// selected variants exactly when the bar is the selected task; handles take
/// the selected background colour.
pub open spec fn fill_spec(b: BarTask, p: Paint) -> Seq<char> {
    match p {
        Paint::Background => if b.is_selected {
            b.styles.background_selected_color@
        } else {
            b.styles.background_color@
        },
        Paint::Progress => if b.is_selected {
            b.styles.progress_selected_color@
        } else {
            b.styles.progress_color@
        },
        Paint::Handle => b.styles.background_selected_color@,
    }
}

/// A shape with the colour it is filled with.
#[derive(Clone, Debug)]
pub struct FilledShape {
    pub shape: Shape,
    pub fill: String,
}

impl TaskTypeInternal {
    /// The shapes that draw `task` as a bar of this kind, each with its fill.
    pub fn get_task_item(&self, task: &BarTask) -> (r: Vec<FilledShape>)
        requires
            shapes_drawable(*task),
            task.type_internal == *self,
        ensures
            r@.len() == shapes_spec(*task).len(),
            forall|i: int|
                0 <= i < r@.len() ==> (#[trigger] r@[i]).shape == shapes_spec(*task)[i]
                    && r@[i].fill@ == fill_spec(*task, paint_of(shapes_spec(*task)[i])),
    {
        let shapes = self.outline(task);
        let mut out: Vec<FilledShape> = Vec::new();
        let mut i: usize = 0;
        while i < shapes.len()
            invariant
                shapes@ == shapes_spec(*task),
                i <= shapes@.len(),
                out@.len() == i,
                forall|k: int|
                    0 <= k < i ==> (#[trigger] out@[k]).shape == shapes@[k] && out@[k].fill@
                        == fill_spec(*task, paint_of(shapes@[k])),
            decreases shapes@.len() - i,
        {
            let shape = shapes[i];
            let paint = match shape {
                Shape::Rect { paint, .. } => paint,
                Shape::Triangle { paint, .. } => paint,
                Shape::Diamond { paint, .. } => paint,
            };
            let fill = task.paint_color(paint);
            out.push(FilledShape { shape, fill });
            i = i + 1;
        }
        out
    }

    /// The outlines of the shapes that draw `task` as a bar of this kind.
    pub fn outline(&self, task: &BarTask) -> (r: Vec<Shape>)
        requires
            shapes_drawable(*task),
            task.type_internal == *self,
        ensures
            r@ == shapes_spec(*task),
    {
        let b = task;
        let mut out: Vec<Shape> = Vec::new();
        match self {
            TaskTypeInternal::Project => {
                let mid = b.y + b.height / 2 - 1;
                let bottom = b.y + b.height;
                out.push(Shape::Rect { x: b.x_1, y: b.y, width: b.x_2 - b.x_1, height: b.height, radius: b.bar_corner_radius, paint: Paint::Background });
                out.push(Shape::Rect { x: b.progress_x, y: b.y, width: b.progress_width, height: b.height, radius: b.bar_corner_radius, paint: Paint::Progress });
                out.push(Shape::Rect { x: b.x_1, y: b.y, width: b.x_2 - b.x_1, height: b.height / 2, radius: b.bar_corner_radius, paint: Paint::Background });
                out.push(Shape::Triangle {
                    a: Point { x: b.x_1, y: mid },
                    b: Point { x: b.x_1, y: bottom },
                    c: Point { x: b.x_1 + PROJECT_LEG, y: mid },
                    paint: Paint::Background,
                });
                out.push(Shape::Triangle {
                    a: Point { x: b.x_2, y: mid },
                    b: Point { x: b.x_2, y: bottom },
                    c: Point { x: b.x_2 - PROJECT_LEG, y: mid },
                    paint: Paint::Background,
                });
                assert(out@ =~= project_shapes(*b));
            },
            TaskTypeInternal::Milestone => {
                out.push(Shape::Diamond {
                    x: b.x_1,
                    y: b.y,
                    size: b.height,
                    radius: b.bar_corner_radius,
                    pivot: Point { x: b.x_1 + (b.height * 356) / 1000, y: b.y + (b.height * 85) / 100 },
                    paint: Paint::Background,
                });
                assert(out@ =~= milestone_shapes(*b));
            },
            _ => {
                let px = b.progress_x + b.progress_width;
                let bottom = b.y + b.height;
                let hw = b.handle_width as i64;
                out.push(Shape::Rect { x: b.x_1, y: b.y, width: b.x_2 - b.x_1, height: b.height, radius: b.bar_corner_radius, paint: Paint::Background });
                out.push(Shape::Rect { x: b.progress_x, y: b.y, width: b.progress_width, height: b.height, radius: b.bar_corner_radius, paint: Paint::Progress });
                out.push(Shape::Rect { x: b.x_1 + 1, y: b.y + 1, width: hw, height: b.height, radius: b.bar_corner_radius, paint: Paint::Handle });
                out.push(Shape::Rect { x: b.x_2 - hw - 1, y: b.y + 1, width: hw, height: b.height, radius: b.bar_corner_radius, paint: Paint::Handle });
                out.push(Shape::Triangle {
                    a: Point { x: px - 5, y: bottom },
                    b: Point { x: px + 5, y: bottom },
                    c: Point { x: px, y: bottom - HANDLE_RISE },
                    paint: Paint::Handle,
                });
                assert(out@ =~= task_shapes(*b));
            },
        }
        out
    }
}

/// Where the bar's name is written: centred on the bar.
pub fn label_anchor(task: &BarTask) -> (r: Point)
    requires
        bar_bounded(*task),
        task.x_1 <= task.x_2,
    ensures
        r.x == task.x_1 + (task.x_2 - task.x_1) / 2,
        r.y == task.y + task.height / 2,
{
    Point { x: task.x_1 + (task.x_2 - task.x_1) / 2, y: task.y + task.height / 2 }
}

impl BarTask {
    /// The colour a shape with paint `p` is filled with: the selected variant
    /// when this is the selected task.
    pub fn paint_color(&self, p: Paint) -> (r: String)
        ensures
            r@ == fill_spec(*self, p),
    {
        match p {
            Paint::Background => if self.is_selected {
                self.styles.background_selected_color.clone()
            } else {
                self.styles.background_color.clone()
            },
            Paint::Progress => if self.is_selected {
                self.styles.progress_selected_color.clone()
            } else {
                self.styles.progress_color.clone()
            },
            Paint::Handle => self.styles.background_selected_color.clone(),
        }
    }
}

} // verus!
