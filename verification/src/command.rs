//! Messages exchanged with the background workers, and remembered state.
pub mod commit_log_runtime;
pub mod git;
pub mod registry;
pub mod recent_projects;
