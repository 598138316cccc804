//! The candidate list shown while completing a markdown link.
use vstd::prelude::*;

use crate::input::key::{KeyCode, KeyEvent, KeyModifiers};

verus! {

/// Most rows the hover shows at once.
pub const MAX_VISIBLE_ITEMS: usize = 8;

/// What the hover did with a key.
#[derive(Debug, Clone, PartialEq, Eq)]
pub enum HoverKeyResult {
    Ignored,
    Consumed,
    Close,
    Apply(String),
}

/// The selection after `key`, from selection `s` among `n` candidates: next or
/// previous cyclically for the navigation keys, unchanged otherwise.
pub open spec fn hover_selection_after(key: KeyEvent, s: int, n: int) -> int {
    let next = if n == 0 {
        s
    } else {
        (s + 1) % n
    };
    let prev = if n == 0 {
        s
    } else if s == 0 {
        n - 1
    } else {
        s - 1
    };
    if n == 0 {
        s
    } else if key.modifiers.control {
        if key.code == KeyCode::Char('n') {
            next
        } else if key.code == KeyCode::Char('p') {
            prev
        } else {
            s
        }
    } else {
        match key.code {
            KeyCode::Tab => if key.modifiers.shift {
                prev
            } else {
                next
            },
            KeyCode::BackTab | KeyCode::Up => prev,
            KeyCode::Down => next,
            _ => s,
        }
    }
}

/// `key` moves the selection: Ctrl-n/Ctrl-p, or Tab, BackTab, Up and Down
/// without Control.
pub open spec fn hover_navigates(key: KeyEvent) -> bool {
    if key.modifiers.control {
        key.code == KeyCode::Char('n') || key.code == KeyCode::Char('p')
    } else {
        key.code == KeyCode::Tab || key.code == KeyCode::BackTab || key.code == KeyCode::Up
            || key.code == KeyCode::Down
    }
}

/// Link candidates with one of them selected.
pub struct MarkdownLinkHover {
    candidates: Vec<String>,
    selected: usize,
}

impl MarkdownLinkHover {
    /// The selection lies inside the list, or is 0 when the list is empty.
    #[verifier::type_invariant]
    spec fn selection_in_range(self) -> bool {
        if self.candidates@.len() == 0 {
            self.selected == 0
        } else {
            self.selected < self.candidates@.len()
        }
    }

    /// The candidates.
    pub closed spec fn candidates(self) -> Seq<String> {
        self.candidates@
    }

    /// Index of the selected candidate.
    pub closed spec fn selected(self) -> int {
        self.selected as int
    }

    /// The selection lies inside the list, or is 0 when the list is empty;
    /// every hover keeps this, and each method states it of its receiver.
    pub open spec fn selection_ok(self) -> bool {
        &&& 0 <= self.selected()
        &&& self.candidates().len() == 0 ==> self.selected() == 0
        &&& self.candidates().len() > 0 ==> self.selected() < self.candidates().len()
    }

    /// A hover over `candidates` with the first one selected.
    pub fn new(candidates: Vec<String>) -> (h: Self)
        ensures
            h.candidates() == candidates@,
            h.selected() == 0,
            h.selection_ok(),
    {
        Self { candidates, selected: 0 }
    }

    /// Replaces the candidates; a selection past the end moves to the last one.
    pub fn set_candidates(&mut self, candidates: Vec<String>)
        ensures
            old(self).selection_ok(),
            final(self).selection_ok(),
            final(self).candidates() == candidates@,
            final(self).selected() == if old(self).selected() < candidates@.len() {
                old(self).selected()
            } else if candidates@.len() == 0 {
                0
            } else {
                candidates@.len() - 1
            },
    {
        proof {
            use_type_invariant(&*self);
        }
        let selected = if self.selected >= candidates.len() {
            if candidates.len() == 0 {
                0
            } else {
                candidates.len() - 1
            }
        } else {
            self.selected
        };
        *self = Self { candidates, selected };
    }

    /// Whether there is no candidate.
    pub fn is_empty(&self) -> (r: bool)
        ensures
            r == (self.candidates().len() == 0),
            self.selection_ok(),
    {
        proof {
            use_type_invariant(self);
        }
        self.candidates.len() == 0
    }

    /// Reacts to a key: Ctrl-n/Ctrl-p, Tab/Shift-Tab/BackTab and Down/Up move
    /// the selection cyclically, Enter applies the selected candidate, Esc
    /// closes; anything else falls through. With no candidate every key falls
    /// through.
    pub fn handle_key(&mut self, key: KeyEvent) -> (r: HoverKeyResult)
        ensures
            old(self).selection_ok(),
            final(self).selection_ok(),
            final(self).candidates() == old(self).candidates(),
            final(self).selected() == hover_selection_after(
                key,
                old(self).selected(),
                old(self).candidates().len() as int,
            ),
            r is Consumed <==> (old(self).candidates().len() > 0 && hover_navigates(key)),
            r is Apply <==> (old(self).candidates().len() > 0 && !key.modifiers.control
                && key.code == KeyCode::Enter),
            r is Close <==> (old(self).candidates().len() > 0 && !key.modifiers.control
                && key.code == KeyCode::Esc),
            r matches HoverKeyResult::Apply(c) ==> c@ == old(self).candidates()[old(
                self,
            ).selected()]@,
    {
        proof {
            use_type_invariant(&*self);
        }
        if self.candidates.len() == 0 {
            return HoverKeyResult::Ignored;
        }
        if key.modifiers.contains(KeyModifiers::control()) {
            return match key.code {
                KeyCode::Char('n') => {
                    self.select_next();
                    HoverKeyResult::Consumed
                },
                KeyCode::Char('p') => {
                    self.select_prev();
                    HoverKeyResult::Consumed
                },
                _ => HoverKeyResult::Ignored,
            };
        }
        match key.code {
            KeyCode::Tab => {
                if key.modifiers.contains(KeyModifiers::shift()) {
                    self.select_prev();
                } else {
                    self.select_next();
                }
                HoverKeyResult::Consumed
            },
            KeyCode::BackTab => {
                self.select_prev();
                HoverKeyResult::Consumed
            },
            KeyCode::Up => {
                self.select_prev();
                HoverKeyResult::Consumed
            },
            KeyCode::Down => {
                self.select_next();
                HoverKeyResult::Consumed
            },
            KeyCode::Enter => match self.selected_candidate() {
                Some(c) => HoverKeyResult::Apply(c),
                None => HoverKeyResult::Consumed,
            },
            KeyCode::Esc => HoverKeyResult::Close,
            _ => HoverKeyResult::Ignored,
        }
    }

    /// Selects the next candidate, wrapping to the first.
    fn select_next(&mut self)
        ensures
            final(self).candidates() == old(self).candidates(),
            final(self).selected() == if old(self).candidates().len() == 0 {
                old(self).selected()
            } else {
                (old(self).selected() + 1) % (old(self).candidates().len() as int)
            },
    {
        proof {
            use_type_invariant(&*self);
        }
        if self.candidates.len() == 0 {
            return;
        }
        self.selected = (self.selected + 1) % self.candidates.len();
    }

    /// Selects the previous candidate, wrapping to the last.
    fn select_prev(&mut self)
        ensures
            final(self).candidates() == old(self).candidates(),
            final(self).selected() == if old(self).candidates().len() == 0 {
                old(self).selected()
            } else if old(self).selected() == 0 {
                old(self).candidates().len() - 1
            } else {
                old(self).selected() - 1
            },
    {
        proof {
            use_type_invariant(&*self);
        }
        if self.candidates.len() == 0 {
            return;
        }
        self.selected = if self.selected == 0 {
            self.candidates.len() - 1
        } else {
            self.selected - 1
        };
    }

    /// The selected candidate, if any.
    pub fn selected_candidate(&self) -> (r: Option<String>)
        ensures
            r matches Some(c) ==> 0 <= self.selected() < self.candidates().len() && c@
                == self.candidates()[self.selected()]@,
            r is None <==> self.candidates().len() == 0,
            self.selection_ok(),
    {
        proof {
            use_type_invariant(self);
        }
        if self.selected < self.candidates.len() {
            Some(self.candidates[self.selected].clone())
        } else {
            None
        }
    }
}

} // verus!
