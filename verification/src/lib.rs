//! Process-snapshot acquisition and caching for a terminal process monitor.
//!
//! The crate holds the decisions of the monitor as plain, verified functions:
//! how samples of the process table are merged into a cache, how bounded
//! histories are kept, when expensive metadata is looked up again and when a
//! full refresh is due. Reading the operating system, timers and the terminal
//! are left to the program that drives these functions.
//!
//! Times are milliseconds of a clock that the driver reads; shares and CPU
//! usage are hundredths of a percent; memory is in bytes.

pub mod collector;
pub mod commands;
pub mod display;
pub mod format;
pub mod guarantees;
pub mod history;
pub mod input;
pub mod metadata;
pub mod process;
pub mod scheduler;
pub mod sort;
pub mod status;
pub mod system;
pub mod text;
pub mod ui_state;
