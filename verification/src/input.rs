//! Input events and the actions components emit in response.
pub mod action;
pub mod chord;
pub mod key;
