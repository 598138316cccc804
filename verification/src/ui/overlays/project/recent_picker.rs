//! The popup that switches to a recently opened project, filtered by an
//! fzf-style query.
use vstd::prelude::*;

use crate::command::recent_projects::RecentProjectEntry;
use crate::input::action::{Action, AppAction, ProjectAction, UiAction};
use crate::input::key::{KeyCode, KeyEvent, KeyEventKind, KeyModifiers};
use crate::strings::{all_whitespace, is_blank};
use crate::ui::framework::component::EventResult;
use crate::ui::shared::filtering::{fzf_score, fzf_style_match, MAX_MATCH_CHARS};
use crate::ui::shared::ranking::{key_views, rank_by_score_then_key, ranks_by_key, score_ints};
use crate::ui::text_input::{edit_changed, edit_result, InputEdit, TextInput};
use crate::utf8::str_chars;

verus! {

/// A listed project: its index among the entries and its score.
#[derive(Debug, Clone, Copy, PartialEq, Eq)]
pub struct RecentProjectCandidate {
    pub index: usize,
    pub score: i32,
}

/// What a key asks the popup to do.
#[derive(Debug, Clone, Copy, PartialEq, Eq)]
pub enum RecentOp {
    Close,
    SelectNext,
    SelectPrev,
    Edit(InputEdit),
    Submit,
    Ignore,
}

/// The operation a key selects: only key presses count. Ctrl-q/Ctrl-c and
/// Esc close; Ctrl-n/Ctrl-j/Down and Ctrl-p/Up move the selection; Ctrl-f,
/// Ctrl-b, Ctrl-a, Ctrl-e, the arrows, Ctrl-w, Ctrl-k and Backspace edit
/// the query; Enter switches; other characters (without Alt) are typed.
pub open spec fn recent_op(key: KeyEvent) -> RecentOp {
    if key.kind != KeyEventKind::Press {
        RecentOp::Ignore
    } else if key.modifiers.control {
        match key.code {
            KeyCode::Char('q') | KeyCode::Char('c') => RecentOp::Close,
            KeyCode::Char('n') | KeyCode::Char('j') | KeyCode::Down => RecentOp::SelectNext,
            KeyCode::Char('p') | KeyCode::Up => RecentOp::SelectPrev,
            KeyCode::Char('f') => RecentOp::Edit(InputEdit::Right),
            KeyCode::Char('b') => RecentOp::Edit(InputEdit::Left),
            KeyCode::Char('a') => RecentOp::Edit(InputEdit::Start),
            KeyCode::Char('e') => RecentOp::Edit(InputEdit::End),
            KeyCode::Char('w') => RecentOp::Edit(InputEdit::DeleteWord),
            KeyCode::Char('k') => RecentOp::Edit(InputEdit::DeleteToEnd),
            _ => RecentOp::Ignore,
        }
    } else {
        match key.code {
            KeyCode::Esc => RecentOp::Close,
            KeyCode::Up => RecentOp::SelectPrev,
            KeyCode::Down => RecentOp::SelectNext,
            KeyCode::Left => RecentOp::Edit(InputEdit::Left),
            KeyCode::Right => RecentOp::Edit(InputEdit::Right),
            KeyCode::Backspace => RecentOp::Edit(InputEdit::Backspace),
            KeyCode::Enter => RecentOp::Submit,
            KeyCode::Char(c) => if key.modifiers.alt {
                RecentOp::Ignore
            } else {
                RecentOp::Edit(InputEdit::Insert(c))
            },
            _ => RecentOp::Ignore,
        }
    }
}

/// The recent-projects popup.
pub struct RecentProjectPopup {
    pub input: TextInput,
    pub entries: Vec<RecentProjectEntry>,
    pub candidates: Vec<RecentProjectCandidate>,
    pub selected: usize,
}

impl RecentProjectPopup {
    /// Every path can be scored, the listed candidates name entries, and the
    /// selection is a listed row (0 when none is listed).
    pub open spec fn wf(self) -> bool {
        &&& self.input.wf()
        &&& Self::matchable(self.entries@)
        &&& forall|k: int| 0 <= k < self.candidates@.len() ==> #[trigger] self.candidates@[k].index < self.entries@.len()
        &&& if self.candidates@.len() == 0 {
            self.selected == 0
        } else {
            self.selected < self.candidates@.len()
        }
    }

    /// Every entry's path is short enough to be scored.
    pub open spec fn matchable(entries: Seq<RecentProjectEntry>) -> bool {
        forall|i: int| 0 <= i < entries.len() ==> (#[trigger] entries[i]).project_path@.len() <= MAX_MATCH_CHARS
    }

    /// Each entry's fzf-style score for the query `q`.
    pub open spec fn scores(entries: Seq<RecentProjectEntry>, q: Seq<char>) -> Seq<Option<int>> {
        Seq::new(entries.len(), |i: int| fzf_score(entries[i].project_path@, q))
    }

    /// Each entry's path.
    pub open spec fn paths(entries: Seq<RecentProjectEntry>) -> Seq<Seq<char>> {
        Seq::new(entries.len(), |i: int| entries[i].project_path@)
    }

    /// The candidates listed for the query `q`: every entry in order with
    /// score 0 for a blank query; otherwise the entries that match, best
    /// score first, then by path, each with its score.
    pub open spec fn listed_for(c: Seq<RecentProjectCandidate>, entries: Seq<RecentProjectEntry>, q: Seq<char>) -> bool {
        if all_whitespace(q) {
            &&& c.len() == entries.len()
            &&& forall|k: int| 0 <= k < c.len() ==> (#[trigger] c[k]).index == k && c[k].score == 0
        } else {
            &&& ranks_by_key(c.map_values(|x: RecentProjectCandidate| x.index), Self::scores(entries, q), Self::paths(entries))
            &&& forall|k: int| 0 <= k < c.len() ==> Self::scores(entries, q)[(#[trigger] c[k]).index as int] == Some(c[k].score as int)
        }
    }

    /// `n` is `o` after its list was rebuilt for the current query.
    pub open spec fn refreshed(o: Self, n: Self) -> bool {
        &&& n.input == o.input
        &&& n.entries == o.entries
        &&& Self::listed_for(n.candidates@, o.entries@, o.input.text@)
        &&& n.selected == if o.selected >= n.candidates@.len() {
            if n.candidates@.len() == 0 { 0 } else { n.candidates@.len() - 1 }
        } else {
            o.selected as int
        }
    }

    /// The selection after moving to the next (`down`) or previous row,
    /// cyclically.
    pub open spec fn cycled(sel: int, len: int, down: bool) -> int {
        if len == 0 {
            sel
        } else if down {
            (sel + 1) % len
        } else if sel == 0 {
            len - 1
        } else {
            sel - 1
        }
    }

    /// The path of the selected project, if any.
    pub open spec fn selected_path(self) -> Option<Seq<char>> {
        if self.selected < self.candidates@.len() && self.candidates@[self.selected as int].index < self.entries@.len() {
            Some(self.entries@[self.candidates@[self.selected as int].index as int].project_path@)
        } else {
            None
        }
    }

    /// `n` is the popup `o` after `op`, answered with `r`.
    pub open spec fn key_step(o: Self, op: RecentOp, n: Self, r: EventResult) -> bool {
        match op {
            RecentOp::Close => n == o && r == EventResult::Action(Action::Ui(UiAction::CloseRecentProjectPopup)),
            RecentOp::SelectNext | RecentOp::SelectPrev => {
                &&& n.input == o.input && n.entries == o.entries && n.candidates == o.candidates
                &&& n.selected == Self::cycled(o.selected as int, o.candidates@.len() as int, op is SelectNext)
                &&& r is Consumed
            },
            RecentOp::Edit(e) => {
                let (t, c) = edit_result(o.input.text@, o.input.cursor as int, e);
                &&& n.input.text@ == t && n.input.cursor == c
                &&& n.entries == o.entries
                &&& r is Consumed
                &&& if edit_changed(o.input.text@, o.input.cursor as int, e) {
                    &&& Self::listed_for(n.candidates@, o.entries@, t)
                    &&& n.selected == if o.selected >= n.candidates@.len() {
                        if n.candidates@.len() == 0 { 0 } else { n.candidates@.len() - 1 }
                    } else {
                        o.selected as int
                    }
                } else {
                    n.candidates == o.candidates && n.selected == o.selected
                }
            },
            RecentOp::Submit => n == o && match o.selected_path() {
                Some(p) => r matches EventResult::Action(Action::App(AppAction::Project(ProjectAction::SwitchToRecentProject(q)))) && q@ == p,
                None => r == EventResult::Action(Action::Ui(UiAction::CloseRecentProjectPopup)),
            },
            RecentOp::Ignore => n == o && r is Consumed,
        }
    }

    /// A popup over `entries`, listing them all, the first selected.
    pub fn new(entries: Vec<RecentProjectEntry>) -> (p: Self)
        requires
            Self::matchable(entries@),
        ensures
            p.wf(),
            p.input.text@.len() == 0,
            p.input.cursor == 0,
            p.entries@ == entries@,
            Self::listed_for(p.candidates@, entries@, Seq::empty()),
            p.selected == 0,
    {
        let mut popup = Self { input: TextInput::new(), entries, candidates: Vec::new(), selected: 0 };
        popup.refresh_candidates();
        popup
    }

    /// Each entry's score for `query`.
    fn entry_scores(entries: &Vec<RecentProjectEntry>, query: &str) -> (r: (Vec<Option<i64>>, Vec<Vec<char>>))
        requires
            Self::matchable(entries@),
        ensures
            r.0@.len() == entries@.len(),
            r.1@.len() == entries@.len(),
            forall|k: int| 0 <= k < r.0@.len() ==> (#[trigger] r.0@[k] matches Some(v) ==> i32::MIN <= v <= i32::MAX),
            score_ints(r.0@) == Self::scores(entries@, query@),
            key_views(r.1@) == Self::paths(entries@),
    {
        let mut scores: Vec<Option<i64>> = Vec::new();
        let mut keys: Vec<Vec<char>> = Vec::new();
        let mut i: usize = 0;
        while i < entries.len()
            invariant
                i <= entries@.len(),
                Self::matchable(entries@),
                scores@.len() == i,
                keys@.len() == i,
                forall|k: int| 0 <= k < i ==> (#[trigger] scores@[k] matches Some(v) ==> i32::MIN <= v <= i32::MAX),
                forall|k: int| 0 <= k < i ==> score_ints(scores@)[k] == Self::scores(entries@, query@)[k],
                forall|k: int| 0 <= k < i ==> (#[trigger] keys@[k])@ == entries@[k].project_path@,
            decreases entries@.len() - i,
        {
            proof {
                assert(entries@[i as int].project_path@.len() <= MAX_MATCH_CHARS);
            }
            let m = fzf_style_match(entries[i].project_path.as_str(), query);
            let score = match m {
                Some(m) => Some(m.0 as i64),
                None => None,
            };
            proof {
                let want = Self::scores(entries@, query@)[i as int];
                assert(want == fzf_score(entries@[i as int].project_path@, query@));
                match score {
                    Some(v) => assert(want == Some(v as int)),
                    None => assert(want is None),
                }
            }
            let ghost before = scores@;
            let ghost kbefore = keys@;
            scores.push(score);
            keys.push(str_chars(entries[i].project_path.as_str()));
            proof {
                assert forall|k: int| 0 <= k < i + 1 implies (#[trigger] scores@[k] matches Some(v) ==> i32::MIN <= v <= i32::MAX) by {
                    if k < i {
                        assert(scores@[k] == before[k]);
                    }
                }
                assert forall|k: int| 0 <= k < i + 1 implies score_ints(scores@)[k] == Self::scores(entries@, query@)[k] by {
                    if k < i {
                        assert(scores@[k] == before[k]);
                        assert(score_ints(before)[k] == Self::scores(entries@, query@)[k]);
                        assert(score_ints(scores@)[k] == score_ints(before)[k]);
                    } else {
                        assert(scores@[k] == score);
                    }
                }
                assert forall|k: int| 0 <= k < i + 1 implies (#[trigger] keys@[k])@ == entries@[k].project_path@ by {
                    if k < i {
                        assert(keys@[k] == kbefore[k]);
                    }
                }
            }
            i = i + 1;
        }
        proof {
            assert(score_ints(scores@) =~= Self::scores(entries@, query@));
            assert(key_views(keys@) =~= Self::paths(entries@));
        }
        (scores, keys)
    }

    /// Rebuilds the list for the current query and keeps the selection on a
    /// listed row.
    fn refresh_candidates(&mut self)
        requires
            Self::matchable(old(self).entries@),
            old(self).input.wf(),
        ensures
            final(self).wf(),
            Self::refreshed(*old(self), *final(self)),
    {
        let mut list: Vec<RecentProjectCandidate> = Vec::new();
        if is_blank(self.input.text.as_str()) {
            let mut i: usize = 0;
            while i < self.entries.len()
                invariant
                    i <= self.entries@.len(),
                    list@.len() == i,
                    forall|k: int| 0 <= k < i ==> (#[trigger] list@[k]).index == k && list@[k].score == 0,
                decreases self.entries@.len() - i,
            {
                list.push(RecentProjectCandidate { index: i, score: 0 });
                i = i + 1;
            }
        } else {
            let (scores, keys) = Self::entry_scores(&self.entries, self.input.text.as_str());
            let order = rank_by_score_then_key(&scores, &keys);
            let ghost s = score_ints(scores@);
            let mut k: usize = 0;
            while k < order.len()
                invariant
                    k <= order@.len(),
                    list@.len() == k,
                    s == score_ints(scores@),
                    scores@.len() == self.entries@.len(),
                    forall|j: int| 0 <= j < scores@.len() ==> (#[trigger] scores@[j] matches Some(v) ==> i32::MIN <= v <= i32::MAX),
                    forall|j: int| 0 <= j < order@.len() ==> #[trigger] order@[j] < s.len() && s[order@[j] as int] is Some,
                    forall|j: int| 0 <= j < k ==> (#[trigger] list@[j]).index == order@[j] && s[order@[j] as int] == Some(list@[j].score as int),
                decreases order@.len() - k,
            {
                let idx = order[k];
                let score: i32 = match scores[idx] {
                    Some(v) => v as i32,
                    None => 0,
                };
                proof {
                    assert(s[idx as int] is Some);
                }
                list.push(RecentProjectCandidate { index: idx, score });
                k = k + 1;
            }
            proof {
                assert(list@.map_values(|x: RecentProjectCandidate| x.index) =~= order@);
            }
        }
        self.candidates = list;
        if self.selected >= self.candidates.len() {
            self.selected = if self.candidates.len() == 0 {
                0
            } else {
                self.candidates.len() - 1
            };
        }
    }

    /// Selects the next row, wrapping to the first.
    fn select_next(&mut self)
        requires
            old(self).wf(),
        ensures
            final(self).wf(),
            Self::key_step(*old(self), RecentOp::SelectNext, *final(self), EventResult::Consumed),
    {
        if self.candidates.len() == 0 {
            return;
        }
        self.selected = (self.selected + 1) % self.candidates.len();
    }

    /// Selects the previous row, wrapping to the last.
    fn select_prev(&mut self)
        requires
            old(self).wf(),
        ensures
            final(self).wf(),
            Self::key_step(*old(self), RecentOp::SelectPrev, *final(self), EventResult::Consumed),
    {
        if self.candidates.len() == 0 {
            return;
        }
        self.selected = if self.selected == 0 {
            self.candidates.len() - 1
        } else {
            self.selected - 1
        };
    }

    /// The path of the selected project.
    fn selected_project_path(&self) -> (r: Option<String>)
        ensures
            match self.selected_path() {
                Some(p) => r is Some && r->0@ == p,
                None => r is None,
            },
    {
        if self.selected < self.candidates.len() {
            let idx = self.candidates[self.selected].index;
            if idx < self.entries.len() {
                return Some(self.entries[idx].project_path.clone());
            }
        }
        None
    }

    /// Applies an edit of the query, rebuilding the list when it changed.
    fn edit(&mut self, e: InputEdit)
        requires
            old(self).wf(),
        ensures
            final(self).wf(),
            Self::key_step(*old(self), RecentOp::Edit(e), *final(self), EventResult::Consumed),
    {
        if self.input.apply_edit(e) {
            self.refresh_candidates();
        }
    }

    /// Reacts to a key as `recent_op` and `key_step` say.
    pub fn handle_key(&mut self, key: KeyEvent) -> (r: EventResult)
        requires
            old(self).wf(),
        ensures
            final(self).wf(),
            Self::key_step(*old(self), recent_op(key), *final(self), r),
    {
        match key.kind {
            KeyEventKind::Press => {},
            _ => return EventResult::Consumed,
        }
        if key.modifiers.contains(KeyModifiers::control()) {
            return match key.code {
                KeyCode::Char('q') | KeyCode::Char('c') => EventResult::Action(
                    Action::Ui(UiAction::CloseRecentProjectPopup),
                ),
                KeyCode::Char('n') | KeyCode::Char('j') | KeyCode::Down => {
                    self.select_next();
                    EventResult::Consumed
                },
                KeyCode::Char('p') | KeyCode::Up => {
                    self.select_prev();
                    EventResult::Consumed
                },
                KeyCode::Char('f') => {
                    self.edit(InputEdit::Right);
                    EventResult::Consumed
                },
                KeyCode::Char('b') => {
                    self.edit(InputEdit::Left);
                    EventResult::Consumed
                },
                KeyCode::Char('a') => {
                    self.edit(InputEdit::Start);
                    EventResult::Consumed
                },
                KeyCode::Char('e') => {
                    self.edit(InputEdit::End);
                    EventResult::Consumed
                },
                KeyCode::Char('w') => {
                    self.edit(InputEdit::DeleteWord);
                    EventResult::Consumed
                },
                KeyCode::Char('k') => {
                    self.edit(InputEdit::DeleteToEnd);
                    EventResult::Consumed
                },
                _ => EventResult::Consumed,
            };
        }
        match key.code {
            KeyCode::Esc => EventResult::Action(Action::Ui(UiAction::CloseRecentProjectPopup)),
            KeyCode::Up => {
                self.select_prev();
                EventResult::Consumed
            },
            KeyCode::Down => {
                self.select_next();
                EventResult::Consumed
            },
            KeyCode::Left => {
                self.edit(InputEdit::Left);
                EventResult::Consumed
            },
            KeyCode::Right => {
                self.edit(InputEdit::Right);
                EventResult::Consumed
            },
            KeyCode::Backspace => {
                self.edit(InputEdit::Backspace);
                EventResult::Consumed
            },
            KeyCode::Enter => {
                match self.selected_project_path() {
                    Some(project_path) => EventResult::Action(
                        Action::App(AppAction::Project(ProjectAction::SwitchToRecentProject(project_path))),
                    ),
                    None => EventResult::Action(Action::Ui(UiAction::CloseRecentProjectPopup)),
                }
            },
            KeyCode::Char(c) => {
                if key.modifiers.contains(KeyModifiers::alt()) {
                    EventResult::Consumed
                } else {
                    self.edit(InputEdit::Insert(c));
                    EventResult::Consumed
                }
            },
            _ => EventResult::Consumed,
        }
    }
}

} // verus!
