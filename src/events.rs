//! Kinds of user actions on a chart, for the component layer that handles
//! them.

use vstd::prelude::*;

verus! {

/// Which part of a bar a drag moves.
#[derive(Clone, Copy, PartialEq, Eq, Debug, Structural)]
pub enum BarMoveAction {
    End,
    Move,
    Progress,
    Start,
}

/// An action on the chart's content.
#[derive(Clone, Copy, PartialEq, Eq, Debug, Structural)]
pub enum GanttContentMoveAction {
    Empty,
    Click,
    Dblclick,
    Delete,
    End,
    Mouseenter,
    Mouseleave,
    Move,
    Progress,
    Select,
    Start,
}

} // verus!
