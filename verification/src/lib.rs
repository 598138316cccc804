//! Verified text, matching and picker logic of a modal terminal editor.
pub mod command;
pub mod config;
pub mod input;
pub mod std_calls;
pub mod strings;
pub mod syntax;
pub mod ui;
pub mod utf8;
