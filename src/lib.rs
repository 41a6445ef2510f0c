//! Layout engine for a Gantt timeline: time axis, coordinate mapping,
//! bar geometry, dependency resolution, arrow routing and header layout.
//!
//! Timestamps are whole seconds since 1970-01-01T00:00:00 (no time zone);
//! pixel positions are integers.

pub mod calendar;
pub mod task;
pub mod axis;
pub mod coords;
pub mod config;
pub mod relations;
pub mod bars;
pub mod arrows;
pub mod header;
pub mod shapes;
pub mod chart;
pub mod events;
