//! A navigable tree of the changes that a version-control tool reports: its
//! status report and diffs are parsed into files and hunks, a two-level
//! cursor moves over them, and the cursor's position becomes the command
//! that stages or unstages the selected file or hunk.

pub mod diff;
pub mod model;
pub mod render;
pub mod report;
pub mod text;
