//! Project popups: recent projects, project root and save-as.
pub mod recent_picker;
pub mod root_picker;
pub mod save_as_popup;
