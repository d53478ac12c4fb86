//! Core library of a screen-recording and clip-editing tool.
//!
//! The library covers the pure logic of the tool: normalizing capture
//! regions, the recording-session state machine, the clip/transition
//! repository, and the construction of the filter-graph description and
//! argument lists handed to the external encoder process. All I/O (process
//! spawning, files, audio devices, the UI shell) lives outside the library
//! and exchanges plain values with it.

pub mod types;
pub mod region;
pub mod numfmt;
pub mod escape;
pub mod keystroke;
pub mod filters;
pub mod cursor;
pub mod graph;
pub mod session;
pub mod plan;
pub mod capture;
pub mod progress;
pub mod thumbs;
pub mod project;
pub mod paths;
pub mod json;
