//! Flame graphs from collapsed call stacks.
//!
//! * `stacks`: the table of sample counts by call path.
//! * `frames`: the builder, which turns the table into frames, and `shape`:
//!   what holds of the frames of every table.
//! * `geometry`: where a frame stands on the chart.
//! * `view`: the interactive view, with hiding, zooming and searching, and
//!   `view_facts`: what holds of every view.
//! * `batch`: several graphs at once, and all of them combined.
//! * `page`, `text`, `color`, `template`: the HTML rendering.
//! * `args`: the command line.

pub mod args;
pub mod batch;
pub mod color;
pub mod frames;
pub mod geometry;
pub mod page;
pub mod shape;
pub mod stacks;
pub mod template;
pub mod text;
pub mod view;
pub mod view_facts;
