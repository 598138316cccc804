//! Pending key chords.
use vstd::prelude::*;

verus! {

/// Which multi-key chord, if any, is in progress.
#[derive(Debug, Clone, Copy, PartialEq, Eq)]
pub enum KeyState {
    Normal,
    Space,
    SpaceWindow,
    Goto,
    CtrlX,
    MacroRecord,
    MacroPlay,
}

} // verus!
