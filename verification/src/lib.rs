//! Comet: the verified core of a terminal system monitor.
//!
//! The library holds the decisions and formatting rules of the monitor:
//! tab navigation, key handling, process search, sorting and the process
//! tree, configuration parsing, the rolling history buffer, the companion
//! pet's mood machine, recording files with their calendar timestamps, the
//! readings of the system's text files and the texts of the panels.
//! Sampling the machine and drawing the screen live in the application
//! around it.
use vstd::prelude::*;

pub mod app;
pub mod calendar;
pub mod config;
pub mod history;
pub mod labels;
pub mod layout;
pub mod meter;
pub mod parse;
pub mod pet;
pub mod processes;
pub mod recorder;
pub mod signal;
pub mod sysfs;
pub mod telemetry;
pub mod tabs;
pub mod text;
pub mod theme;

verus! {

} // verus!
