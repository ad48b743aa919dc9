//! Core of a multiplexed "tail -f": follow every file in one directory whose
//! name matches a glob pattern, and hand each newly appended, fully
//! terminated line to an output sink.
//!
//! The crate holds the coordination logic only. Reading files, watching the
//! directory and rendering lines are left to the surrounding program; the
//! types here decide, from plain byte values, which files to adopt, which
//! bytes form complete lines, and how the per-file read offset moves.

pub mod cursor;
pub mod event;
pub mod lines;
pub mod pattern;
pub mod registry;
pub mod wake;
