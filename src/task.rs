//! Input tasks, their kinds and style overrides, and the engine's errors.

use vstd::prelude::*;

verus! {

/// Kind of a task as given by the caller.
#[derive(Clone, Copy, PartialEq, Eq, Debug, Structural)]
pub enum TaskType {
    Milestone,
    Project,
    Task,
}

/// Kind of a task as drawn.
#[derive(Clone, Copy, PartialEq, Eq, Debug, Structural)]
pub enum TaskTypeInternal {
    Milestone,
    Project,
    Smalltask,
    Task,
}

pub open spec fn internal_of(t: TaskType) -> TaskTypeInternal {
    match t {
        TaskType::Milestone => TaskTypeInternal::Milestone,
        TaskType::Project => TaskTypeInternal::Project,
        TaskType::Task => TaskTypeInternal::Task,
    }
}

impl TaskType {
    pub fn get_internal(&self) -> (r: TaskTypeInternal)
        ensures
            r == internal_of(*self),
    {
        match self {
            TaskType::Milestone => TaskTypeInternal::Milestone,
            TaskType::Project => TaskTypeInternal::Project,
            TaskType::Task => TaskTypeInternal::Task,
        }
    }
}

impl Default for TaskTypeInternal {
    fn default() -> (r: TaskTypeInternal)
        ensures
            r == TaskTypeInternal::Project,
    {
        TaskTypeInternal::Project
    }
}

/// Per-task colour overrides; a missing colour falls back to the palette.
#[derive(Clone, Debug)]
pub struct TaskStyles {
    pub background_color: Option<String>,
    pub background_selected_color: Option<String>,
    pub progress_color: Option<String>,
    pub progress_selected_color: Option<String>,
}

/// One row of the chart, as given by the caller.
#[derive(Clone, Debug)]
pub struct Task {
    pub id: String,
    pub name: String,
    /// Start, in seconds since the epoch.
    pub start: Option<i64>,
    /// End, in seconds since the epoch.
    pub end: Option<i64>,
    /// Completion in percent, from 0 to 100.
    pub progress: u32,
    pub type_: TaskType,
    /// The project the task belongs to, named by its identifier.
    pub project: Option<String>,
    /// The tasks this one waits for, named by their identifiers.
    pub dependencies: Vec<String>,
    pub display_order: Option<u32>,
    pub hide_children: bool,
    pub is_disabled: bool,
    pub styles: Option<TaskStyles>,
}

/// Failures of the layout engine.
#[derive(Clone, Debug)]
pub enum GanttError {
    /// The task list failed validation. Both lists are in input order and
    /// together name every offending task: `invalid_tasks` those with a
    /// missing start or end, a start after the end, a progress above 100, or
    /// an id used twice; `dangling_references` those whose project or
    /// dependency ids name no task.
    InvalidInput { invalid_tasks: Vec<String>, dangling_references: Vec<String> },
    /// A timestamp outside the axis, or an axis that cannot be extended.
    OutOfRange,
}

} // verus!
