//! The key hints shown while a multi-key chord is pending.
use vstd::prelude::*;

use crate::input::chord::KeyState;
use crate::strings::owned;

verus! {

/// One hint: the key and what it does.
pub struct KeyBinding {
    pub key: String,
    pub description: String,
}

impl KeyBinding {
    /// A hint for `key`.
    pub fn new(key: &str, description: &str) -> (b: Self)
        ensures
            b.key@ == key@,
            b.description@ == description@,
    {
        KeyBinding { key: owned(key), description: owned(description) }
    }
}

/// Hints by their text: key and description.
pub open spec fn binding_views(v: Seq<KeyBinding>) -> Seq<(Seq<char>, Seq<char>)> {
    v.map_values(|b: KeyBinding| (b.key@, b.description@))
}

/// The title and the hints shown for each pending chord (none outside a
/// chord).
pub open spec fn help_for(state: KeyState) -> (Seq<char>, Seq<(Seq<char>, Seq<char>)>) {
    match state {
        KeyState::Space => (
            "SPC Commands"@,
            seq![
                ("e"@, "Toggle explorer"@),
                ("E"@, "Explorer popup"@),
                ("f"@, "File picker"@),
                ("b"@, "Buffer picker"@),
                ("j"@, "Jumplist picker"@),
                ("s"@, "Symbol picker"@),
                ("p"@, "Command palette"@),
                ("g"@, "Changed files sidebar"@),
                ("G"@, "Git view"@),
                ("l"@, "Commit log"@),
                ("d"@, "Compare branch"@),
            ],
        ),
        KeyState::SpaceWindow => (
            "SPC w Window Commands"@,
            seq![
                ("v"@, "Vertical split"@),
                ("s"@, "Horizontal split"@),
                ("h/j/k/l or arrows"@, "Move focus"@),
                ("w"@, "Focus next"@),
                ("q"@, "Close window"@),
                ("o"@, "Close other windows"@),
                ("H/J/K/L or S-arrows"@, "Swap window"@),
            ],
        ),
        KeyState::Goto => (
            "Goto Commands"@,
            seq![
                ("g"@, "File start"@),
                ("d"@, "Go definition"@),
                ("r"@, "Go references"@),
                ("e"@, "File end"@),
                ("h"@, "Line start"@),
                ("l"@, "Line end"@),
                ("p"@, "Previous buffer"@),
                ("n"@, "Next buffer"@),
            ],
        ),
        KeyState::CtrlX => (
            "Ctrl-X Commands"@,
            seq![
                ("C-s"@, "Save"@),
                ("C-c"@, "Quit"@),
            ],
        ),
        KeyState::MacroRecord => (
            "Record Macro"@,
            seq![
                ("a-z"@, "Select register"@),
            ],
        ),
        KeyState::MacroPlay => (
            "Play Macro"@,
            seq![
                ("a-z"@, "Select register"@),
            ],
        ),
        KeyState::Normal => (Seq::empty(), Seq::empty()),
    }
}

/// The hint popup for a pending chord.
pub struct CommandHelper {
    pub bindings: Vec<KeyBinding>,
    pub title: String,
}

impl CommandHelper {
    /// The hints for the chord `key_state` is waiting on.
    pub fn new(key_state: &KeyState) -> (h: Self)
        ensures
            h.title@ == help_for(*key_state).0,
            binding_views(h.bindings@) == help_for(*key_state).1,
    {
        let (title, bindings) = match key_state {
            KeyState::Space => {
                let mut b: Vec<KeyBinding> = Vec::new();
                b.push(KeyBinding::new("e", "Toggle explorer"));
                b.push(KeyBinding::new("E", "Explorer popup"));
                b.push(KeyBinding::new("f", "File picker"));
                b.push(KeyBinding::new("b", "Buffer picker"));
                b.push(KeyBinding::new("j", "Jumplist picker"));
                b.push(KeyBinding::new("s", "Symbol picker"));
                b.push(KeyBinding::new("p", "Command palette"));
                b.push(KeyBinding::new("g", "Changed files sidebar"));
                b.push(KeyBinding::new("G", "Git view"));
                b.push(KeyBinding::new("l", "Commit log"));
                b.push(KeyBinding::new("d", "Compare branch"));
                proof {
                    assert(binding_views(b@) =~= help_for(KeyState::Space).1);
                }
                (owned("SPC Commands"), b)
            },
            KeyState::SpaceWindow => {
                let mut b: Vec<KeyBinding> = Vec::new();
                b.push(KeyBinding::new("v", "Vertical split"));
                b.push(KeyBinding::new("s", "Horizontal split"));
                b.push(KeyBinding::new("h/j/k/l or arrows", "Move focus"));
                b.push(KeyBinding::new("w", "Focus next"));
                b.push(KeyBinding::new("q", "Close window"));
                b.push(KeyBinding::new("o", "Close other windows"));
                b.push(KeyBinding::new("H/J/K/L or S-arrows", "Swap window"));
                proof {
                    assert(binding_views(b@) =~= help_for(KeyState::SpaceWindow).1);
                }
                (owned("SPC w Window Commands"), b)
            },
            KeyState::Goto => {
                let mut b: Vec<KeyBinding> = Vec::new();
                b.push(KeyBinding::new("g", "File start"));
                b.push(KeyBinding::new("d", "Go definition"));
                b.push(KeyBinding::new("r", "Go references"));
                b.push(KeyBinding::new("e", "File end"));
                b.push(KeyBinding::new("h", "Line start"));
                b.push(KeyBinding::new("l", "Line end"));
                b.push(KeyBinding::new("p", "Previous buffer"));
                b.push(KeyBinding::new("n", "Next buffer"));
                proof {
                    assert(binding_views(b@) =~= help_for(KeyState::Goto).1);
                }
                (owned("Goto Commands"), b)
            },
            KeyState::CtrlX => {
                let mut b: Vec<KeyBinding> = Vec::new();
                b.push(KeyBinding::new("C-s", "Save"));
                b.push(KeyBinding::new("C-c", "Quit"));
                proof {
                    assert(binding_views(b@) =~= help_for(KeyState::CtrlX).1);
                }
                (owned("Ctrl-X Commands"), b)
            },
            KeyState::MacroRecord => {
                let mut b: Vec<KeyBinding> = Vec::new();
                b.push(KeyBinding::new("a-z", "Select register"));
                proof {
                    assert(binding_views(b@) =~= help_for(KeyState::MacroRecord).1);
                }
                (owned("Record Macro"), b)
            },
            KeyState::MacroPlay => {
                let mut b: Vec<KeyBinding> = Vec::new();
                b.push(KeyBinding::new("a-z", "Select register"));
                proof {
                    assert(binding_views(b@) =~= help_for(KeyState::MacroPlay).1);
                }
                (owned("Play Macro"), b)
            },
            KeyState::Normal => (String::new(), Vec::new()),
        };
        proof {
            assert(binding_views(bindings@) =~= help_for(*key_state).1);
        }
        CommandHelper { bindings, title }
    }
}

} // verus!
