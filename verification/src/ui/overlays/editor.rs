//! Editor overlays.
pub mod markdown_link_hover;
