//! Terminal user-interface logic.
pub mod framework;
pub mod overlays;
pub mod popup_layout;
pub mod shared;
pub mod text;
pub mod text_input;
