//! Finds a desktop application's processes by name and terminates the
//! process tree rooted at its primary process, driven by a single-threaded
//! dispatcher of tray actions.
pub mod aumid;
pub mod constants;
pub mod dispatcher;
pub mod matcher;
pub mod notice;
pub mod pattern;
pub mod process;
pub mod termination;
pub mod text;
pub mod tree;
