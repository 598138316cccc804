//! Overlays drawn above the editor.
pub mod command_helper;
pub mod editor;
pub mod explorer;
pub mod git;
pub mod github;
pub mod palette;
pub mod project;
