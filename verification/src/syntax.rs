//! Syntax-related helpers: highlighted spans, indentation, themes and the
//! interface colours. Parsing buffers and computing their highlights and
//! indent levels is done with tree-sitter grammars, which this library does
//! not link; those parts are not part of this library.
pub mod highlight;
pub mod indent;
pub mod theme;
pub mod ui_colors;
