//! Helpers shared by the pickers and popups.
pub mod file_browser;
pub mod filtering;
pub mod ranking;
