//! How a run of text is drawn: its colour and attributes.
use vstd::prelude::*;

verus! {

/// A terminal colour: one of the sixteen named ANSI colours, whose shade
/// the terminal's palette decides, or an exact RGB value.
#[derive(Debug, Clone, Copy, PartialEq, Eq)]
pub enum Color {
    Black,
    DarkGrey,
    Red,
    DarkRed,
    Green,
    DarkGreen,
    Yellow,
    DarkYellow,
    Blue,
    DarkBlue,
    Magenta,
    DarkMagenta,
    Cyan,
    DarkCyan,
    White,
    Grey,
    Rgb { r: u8, g: u8, b: u8 },
}

/// Colour and attributes of drawn text.
#[derive(Debug, Clone, Copy, PartialEq, Eq)]
pub struct CellStyle {
    pub fg: Option<Color>,
    pub bold: bool,
    pub dim: bool,
    pub reverse: bool,
}

impl CellStyle {
    /// The terminal's default colour, no attribute.
    pub open spec fn plain() -> CellStyle {
        CellStyle { fg: None, bold: false, dim: false, reverse: false }
    }

    /// Plain text.
    pub fn new() -> (s: CellStyle)
        ensures
            s == CellStyle::plain(),
    {
        CellStyle { fg: None, bold: false, dim: false, reverse: false }
    }

    /// Dimmed text.
    pub fn dimmed() -> (s: CellStyle)
        ensures
            s == (CellStyle { dim: true, ..CellStyle::plain() }),
    {
        CellStyle { fg: None, bold: false, dim: true, reverse: false }
    }

    /// Text in colour `c`.
    pub fn colored(c: Color) -> (s: CellStyle)
        ensures
            s == (CellStyle { fg: Some(c), ..CellStyle::plain() }),
    {
        CellStyle { fg: Some(c), bold: false, dim: false, reverse: false }
    }
}

} // verus!
