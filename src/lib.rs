//! Sorts the files of one directory into category sub-directories, chosen by
//! file extension from a rule table.
//!
//! The library holds the decisions: how a directory listing becomes entries,
//! which category an entry belongs to, the steps that move one entry and how
//! each answer of the file system is recorded in the run's report. The caller
//! performs the file-system work that each step asks for.

pub mod args;
pub mod error;
pub mod prelude;
pub mod handle_dir;
pub mod rules;
pub mod config;
pub mod report;
pub mod executor;
pub mod clean;
