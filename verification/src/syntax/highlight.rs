//! Highlighted spans of a line.
use vstd::prelude::*;

verus! {

/// A colored span within a line.
#[derive(Debug, Clone)]
pub struct HighlightSpan {
    /// Byte offset from the start of the line.
    pub start: usize,
    /// Byte offset from the start of the line (exclusive).
    pub end: usize,
    /// Capture name from the tree-sitter query (e.g. "keyword", "string").
    pub capture_name: String,
}

} // verus!
