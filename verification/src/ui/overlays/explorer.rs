//! The file explorer sidebar.
pub mod sidebar;
