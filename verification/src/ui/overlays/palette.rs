//! The command palette and its pickers.
pub mod ordering;
pub mod picker;
pub mod workers;
pub mod state;
