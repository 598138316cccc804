//! Building blocks shared by the components.
pub mod cell;
pub mod component;
pub mod compositor;
