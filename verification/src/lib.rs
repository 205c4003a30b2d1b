//! Engineering toolbench library: unit families, display and rounding
//! policies, the material table, the bushing workbench's choices and
//! reamer catalog parsing, and the text-search front end: its form and
//! settings, recent searches and presets, results, match highlighting,
//! statistics, command palette, command-line decisions and folder watcher.

pub mod units;
pub mod text;
pub mod config;
pub mod precision;
pub mod materials;
pub mod bushing;
pub mod theme;
pub mod reamers;
pub mod fields;
pub mod catalog;
pub mod history;
pub mod results;
pub mod preview;
pub mod stats;
pub mod panel;
pub mod palette;
pub mod state;
pub mod cli;
pub mod wizard;
pub mod watch;
pub mod shell;
