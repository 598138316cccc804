//! Git overlays.
pub mod commit_log;
