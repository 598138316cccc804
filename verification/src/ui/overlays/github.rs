//! Pickers over GitHub pull requests and issues.
pub mod issue_picker;
pub mod list_keys;
pub mod pr_picker;
