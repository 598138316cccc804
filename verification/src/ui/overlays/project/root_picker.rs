//! The popup that changes the project root: an absolute path prompt with the
//! matching subdirectories of its parent listed below it. Reading the
//! directory and checking the chosen path are the application's part: the
//! popup says what it needs in `request` and takes the answers through
//! `apply_listing` and `apply_check`.
use vstd::prelude::*;

use crate::input::action::{Action, AppAction, ProjectAction, UiAction};
use crate::input::key::{KeyCode, KeyEvent, KeyEventKind, KeyModifiers};
use crate::std_calls::{
    lowercase_str, path_file_name, path_file_name_of, path_is_absolute, path_parent, path_parent_of,
    str_to_lowercase, string_push,
};
use crate::strings::{has_prefix, owned, starts_with, trim, trimmed};
use crate::ui::framework::component::EventResult;
use crate::ui::shared::filtering::{fuzzy_match, fuzzy_score, MAX_MATCH_CHARS};
use crate::ui::shared::ranking::{key_views, rank_by_score_then_key, ranks_by_key, score_ints};
use crate::ui::text_input::{edit_changed, edit_result, InputEdit, TextInput};
use crate::utf8::str_chars;

verus! {

/// Most candidates listed.
pub const MAX_CANDIDATES: usize = 200;

/// A subdirectory offered for completion.
#[derive(Debug, Clone, PartialEq, Eq)]
pub struct RootCandidate {
    pub path: String,
    pub name: String,
    pub score: i32,
}

/// A directory entry as the application read it.
#[derive(Debug, Clone, PartialEq, Eq)]
pub struct ListedEntry {
    pub name: String,
    pub path: String,
    pub is_dir: bool,
    pub is_file: bool,
}

/// What the popup needs from the file system.
#[derive(Debug, Clone, PartialEq, Eq)]
pub enum RootRequest {
    /// The entries of `parent`, to be matched against `query`.
    ListDirectory { parent: String, query: String },
    /// Whether `path` exists and is a directory, and its canonical form.
    CheckDirectory { path: String },
}

/// Where deleting the previous path segment starts: back over the slashes
/// before `i`, then back over the name before them.
pub open spec fn skip_back_slashes(t: Seq<char>, i: int) -> int
    decreases i,
{
    if i > 0 && i <= t.len() && t[i - 1] == '/' {
        skip_back_slashes(t, i - 1)
    } else {
        i
    }
}

/// Back over the characters other than `/` before `i`.
pub open spec fn skip_back_name(t: Seq<char>, i: int) -> int
    decreases i,
{
    if i > 0 && i <= t.len() && t[i - 1] != '/' {
        skip_back_name(t, i - 1)
    } else {
        i
    }
}

/// Start of the segment Ctrl-w deletes from cursor `c`.
pub open spec fn segment_start(t: Seq<char>, c: int) -> int {
    skip_back_name(t, skip_back_slashes(t, c))
}

proof fn lemma_skip_bounds(t: Seq<char>, i: int)
    requires
        0 <= i <= t.len(),
    ensures
        0 <= skip_back_slashes(t, i) <= i,
        0 <= skip_back_name(t, i) <= i,
    decreases i,
{
    if i > 0 {
        lemma_skip_bounds(t, i - 1);
    }
}

/// The parent directory and the name being typed, for an absolute path; a
/// path ending in `/` is itself the parent with an empty name.
pub open spec fn root_parent_and_query(input: Seq<char>) -> Option<(Seq<char>, Seq<char>)> {
    if input.len() == 0 || input[0] != '/' {
        None
    } else if input.last() == '/' {
        Some((input, Seq::empty()))
    } else {
        match path_parent_of(input) {
            None => None,
            Some(p) => Some(
                (
                    p,
                    match path_file_name_of(input) {
                        Some(n) => n,
                        None => Seq::empty(),
                    },
                ),
            ),
        }
    }
}

/// The listing request for `input`, if it names a parent directory.
pub open spec fn listing_request(input: Seq<char>) -> Option<(Seq<char>, Seq<char>)> {
    root_parent_and_query(input)
}

/// The score of a listed entry: 0 for an empty query, its fuzzy score
/// otherwise; `None` for an entry that is not listed (not a directory, a
/// hidden name, or no match).
pub open spec fn entry_score(e: ListedEntry, q: Seq<char>) -> Option<int> {
    if !e.is_dir || has_prefix(e.name@, "."@) {
        None
    } else if q.len() == 0 {
        Some(0)
    } else {
        fuzzy_score(e.name@, q)
    }
}

/// What a key asks the popup to do.
#[derive(Debug, Clone, Copy, PartialEq, Eq)]
pub enum RootOp {
    Close,
    SelectNext,
    SelectPrev,
    Edit(InputEdit),
    DeleteSegment,
    Complete,
    Submit,
    Ignore,
}

/// The operation a key selects: only presses count. Ctrl-q/Ctrl-c and Esc
/// close; Ctrl-n/Down and Ctrl-p/Up move the selection; Tab completes;
/// Ctrl-w deletes a path segment; Ctrl-f/b/a/e, the arrows, Ctrl-k and
/// Backspace edit; Enter submits; other characters (without Alt) are typed.
pub open spec fn root_op(key: KeyEvent) -> RootOp {
    if key.kind != KeyEventKind::Press {
        RootOp::Ignore
    } else if key.modifiers.control {
        match key.code {
            KeyCode::Char('q') | KeyCode::Char('c') => RootOp::Close,
            KeyCode::Char('n') | KeyCode::Down => RootOp::SelectNext,
            KeyCode::Char('p') | KeyCode::Up => RootOp::SelectPrev,
            KeyCode::Char('f') => RootOp::Edit(InputEdit::Right),
            KeyCode::Char('b') => RootOp::Edit(InputEdit::Left),
            KeyCode::Char('a') => RootOp::Edit(InputEdit::Start),
            KeyCode::Char('e') => RootOp::Edit(InputEdit::End),
            KeyCode::Char('w') => RootOp::DeleteSegment,
            KeyCode::Char('k') => RootOp::Edit(InputEdit::DeleteToEnd),
            _ => RootOp::Ignore,
        }
    } else {
        match key.code {
            KeyCode::Esc => RootOp::Close,
            KeyCode::Tab => RootOp::Complete,
            KeyCode::Up => RootOp::SelectPrev,
            KeyCode::Down => RootOp::SelectNext,
            KeyCode::Left => RootOp::Edit(InputEdit::Left),
            KeyCode::Right => RootOp::Edit(InputEdit::Right),
            KeyCode::Backspace => RootOp::Edit(InputEdit::Backspace),
            KeyCode::Enter => RootOp::Submit,
            KeyCode::Char(c) => if key.modifiers.alt {
                RootOp::Ignore
            } else {
                RootOp::Edit(InputEdit::Insert(c))
            },
            _ => RootOp::Ignore,
        }
    }
}

/// Whether a path, trimmed, passes the checks that need no file system: it
/// is not empty and it is absolute. The error says which failed.
pub open spec fn root_syntax_error(trimmed: Seq<char>) -> Option<Seq<char>> {
    if trimmed.len() == 0 {
        Some("Path is empty"@)
    } else if trimmed[0] != '/' {
        Some("Path must be absolute"@)
    } else {
        None
    }
}

/// The project-root popup.
pub struct ProjectRootPopup {
    pub input: TextInput,
    pub candidates: Vec<RootCandidate>,
    pub selected: usize,
    pub selection_active: bool,
    pub error_message: Option<String>,
    /// What the popup waits for from the file system.
    pub request: Option<RootRequest>,
}

impl ProjectRootPopup {
    /// The field's cursor is within its text, and the selection is a listed
    /// row (0 when none is listed).
    pub open spec fn wf(self) -> bool {
        &&& self.input.wf()
        &&& if self.candidates@.len() == 0 {
            self.selected == 0
        } else {
            self.selected < self.candidates@.len()
        }
    }

    /// `n` is `o` after its list was cleared and the listing for the current
    /// text requested.
    pub open spec fn refreshed(o: Self, n: Self) -> bool {
        &&& n.candidates@.len() == 0
        &&& n.selected == 0
        &&& match listing_request(o.input.text@) {
            None => n.request is None,
            Some((p, q)) => n.request matches Some(RootRequest::ListDirectory { parent, query }) && parent@ == p
                && query@ == q,
        }
    }

    /// `n` is `o` after the text became `t` with the cursor at `c` and the
    /// list was requested again, dropping any selection and error.
    pub open spec fn retyped(o: Self, n: Self, t: Seq<char>, c: int) -> bool {
        &&& n.input.text@ == t
        &&& n.input.cursor == c
        &&& !n.selection_active
        &&& n.error_message is None
        &&& n.candidates@.len() == 0
        &&& n.selected == 0
        &&& match listing_request(t) {
            None => n.request is None,
            Some((p, q)) => n.request matches Some(RootRequest::ListDirectory { parent, query }) && parent@ == p
                && query@ == q,
        }
    }

    /// A popup editing `current_root`, asking for its listing.
    pub fn new(current_root: String) -> (p: Self)
        ensures
            p.wf(),
            p.input.text@ == current_root@,
            p.input.cursor == current_root@.len(),
            !p.selection_active,
            p.error_message is None,
            Self::refreshed(p, p),
    {
        let mut popup = Self {
            input: TextInput::with_text(current_root.as_str()),
            candidates: Vec::new(),
            selected: 0,
            selection_active: false,
            error_message: None,
            request: None,
        };
        popup.refresh_candidates();
        popup
    }

    /// The parent directory and the typed name of an absolute path.
    pub fn parse_parent_and_query(input: &str) -> (r: Option<(String, String)>)
        ensures
            match root_parent_and_query(input@) {
                None => r is None,
                Some((p, q)) => r is Some && r.unwrap().0@ == p && r.unwrap().1@ == q,
            },
    {
        if input.is_empty() {
            return None;
        }
        if !path_is_absolute(input) {
            return None;
        }
        let chars = str_chars(input);
        if chars[chars.len() - 1] == '/' {
            return Some((owned(input), String::new()));
        }
        let parent = match path_parent(input) {
            Some(p) => p,
            None => return None,
        };
        let query = match path_file_name(input) {
            Some(n) => n,
            None => String::new(),
        };
        Some((parent, query))
    }

    /// Clears the list and asks for the listing of the typed path's parent.
    fn refresh_candidates(&mut self)
        ensures
            final(self).input == old(self).input,
            final(self).selection_active == old(self).selection_active,
            final(self).error_message == old(self).error_message,
            Self::refreshed(*old(self), *final(self)),
    {
        self.candidates = Vec::new();
        self.selected = 0;
        self.request = match Self::parse_parent_and_query(self.input.text.as_str()) {
            Some((parent, query)) => Some(RootRequest::ListDirectory { parent, query }),
            None => None,
        };
    }

    /// The entries ranked for the query `q`, best first, then by lowercase
    /// name, cut to `MAX_CANDIDATES`.
    pub open spec fn listed(c: Seq<RootCandidate>, entries: Seq<ListedEntry>, q: Seq<char>) -> bool {
        let scores = Seq::new(entries.len(), |i: int| entry_score(entries[i], q));
        let keys = Seq::new(entries.len(), |i: int| lowercase_str(entries[i].name@));
        exists|order: Seq<usize>|
            {
                &&& ranks_by_key(order, scores, keys)
                &&& c.len() == if order.len() > MAX_CANDIDATES { MAX_CANDIDATES as int } else { order.len() as int }
                &&& forall|k: int|
                    0 <= k < c.len() ==> (#[trigger] c[k]).path@ == entries[order[k] as int].path@ && c[k].name@
                        == entries[order[k] as int].name@ && scores[order[k] as int] == Some(c[k].score as int)
            }
    }

    /// Takes the directory listing the popup asked for: the subdirectories
    /// that are not hidden and match the typed name become the candidates.
    /// A listing nobody asked for is ignored.
    pub fn apply_listing(&mut self, entries: Vec<ListedEntry>)
        requires
            old(self).wf(),
            forall|i: int| 0 <= i < entries@.len() ==> (#[trigger] entries@[i]).name@.len() <= MAX_MATCH_CHARS,
        ensures
            final(self).wf(),
            final(self).input == old(self).input,
            final(self).selection_active == old(self).selection_active,
            final(self).error_message == old(self).error_message,
            match old(self).request {
                Some(RootRequest::ListDirectory { parent, query }) => {
                    &&& final(self).request is None
                    &&& final(self).selected == 0
                    &&& Self::listed(final(self).candidates@, entries@, query@)
                },
                _ => final(self).request == old(self).request && final(self).candidates == old(self).candidates
                    && final(self).selected == old(self).selected,
            },
    {
        let query = match &self.request {
            Some(RootRequest::ListDirectory { parent: _, query }) => query.clone(),
            _ => return,
        };
        let ghost q = query@;
        let mut scores: Vec<Option<i64>> = Vec::new();
        let mut keys: Vec<Vec<char>> = Vec::new();
        let mut i: usize = 0;
        while i < entries.len()
            invariant
                i <= entries@.len(),
                q == query@,
                forall|j: int| 0 <= j < entries@.len() ==> (#[trigger] entries@[j]).name@.len() <= MAX_MATCH_CHARS,
                scores@.len() == i,
                keys@.len() == i,
                forall|k: int| 0 <= k < i ==> (#[trigger] scores@[k] matches Some(v) ==> i32::MIN <= v <= i32::MAX),
                forall|k: int| 0 <= k < i ==> score_ints(scores@)[k] == entry_score(entries@[k], q),
                forall|k: int| 0 <= k < i ==> (#[trigger] keys@[k])@ == lowercase_str(entries@[k].name@),
            decreases entries@.len() - i,
        {
            let e = &entries[i];
            let score = if !e.is_dir || starts_with(e.name.as_str(), ".") {
                None
            } else if query.as_str().is_empty() {
                Some(0i64)
            } else {
                proof {
                    assert(entries@[i as int].name@.len() <= MAX_MATCH_CHARS);
                }
                match fuzzy_match(e.name.as_str(), query.as_str()) {
                    Some(m) => Some(m.0 as i64),
                    None => None,
                }
            };
            let ghost before = scores@;
            let ghost kbefore = keys@;
            scores.push(score);
            keys.push(str_chars(str_to_lowercase(e.name.as_str()).as_str()));
            proof {
                assert forall|k: int| 0 <= k < i + 1 implies (#[trigger] scores@[k] matches Some(v) ==> i32::MIN <= v <= i32::MAX) by {
                    if k < i {
                        assert(scores@[k] == before[k]);
                    }
                }
                assert forall|k: int| 0 <= k < i + 1 implies score_ints(scores@)[k] == entry_score(entries@[k], q) by {
                    if k < i {
                        assert(scores@[k] == before[k]);
                        assert(score_ints(scores@)[k] == score_ints(before)[k]);
                    } else {
                        assert(scores@[k] == score);
                    }
                }
                assert forall|k: int| 0 <= k < i + 1 implies (#[trigger] keys@[k])@ == lowercase_str(entries@[k].name@) by {
                    if k < i {
                        assert(keys@[k] == kbefore[k]);
                    }
                }
            }
            i = i + 1;
        }
        let order = rank_by_score_then_key(&scores, &keys);
        let ghost s = Seq::new(entries@.len(), |j: int| entry_score(entries@[j], q));
        let ghost ks = Seq::new(entries@.len(), |j: int| lowercase_str(entries@[j].name@));
        proof {
            assert(score_ints(scores@) =~= s);
            assert(key_views(keys@) =~= ks);
        }
        let limit = if order.len() > MAX_CANDIDATES {
            MAX_CANDIDATES
        } else {
            order.len()
        };
        let mut list: Vec<RootCandidate> = Vec::new();
        let mut k: usize = 0;
        while k < limit
            invariant
                k <= limit <= order@.len(),
                list@.len() == k,
                ranks_by_key(order@, s, ks),
                s.len() == entries@.len(),
                scores@.len() == entries@.len(),
                score_ints(scores@) == s,
                forall|j: int| 0 <= j < scores@.len() ==> (#[trigger] scores@[j] matches Some(v) ==> i32::MIN <= v <= i32::MAX),
                forall|j: int|
                    0 <= j < k ==> (#[trigger] list@[j]).path@ == entries@[order@[j] as int].path@ && list@[j].name@
                        == entries@[order@[j] as int].name@ && s[order@[j] as int] == Some(list@[j].score as int),
            decreases limit - k,
        {
            let idx = order[k];
            proof {
                assert(idx < s.len() && s[idx as int] is Some);
            }
            let score: i32 = match scores[idx] {
                Some(v) => v as i32,
                None => 0,
            };
            proof {
                assert(score_ints(scores@)[idx as int] == s[idx as int]);
            }
            list.push(
                RootCandidate { path: entries[idx].path.clone(), name: entries[idx].name.clone(), score },
            );
            k = k + 1;
        }
        self.candidates = list;
        self.selected = 0;
        self.request = None;
    }

    /// Selects the next candidate, wrapping, and marks the selection active.
    fn select_next(&mut self)
        requires
            old(self).wf(),
        ensures
            final(self).wf(),
            final(self).input == old(self).input,
            final(self).candidates == old(self).candidates,
            final(self).error_message == old(self).error_message,
            final(self).request == old(self).request,
            old(self).candidates@.len() == 0 ==> final(self).selected == old(self).selected
                && final(self).selection_active == old(self).selection_active,
            old(self).candidates@.len() > 0 ==> final(self).selected == (old(self).selected + 1)
                % (old(self).candidates@.len() as int) && final(self).selection_active,
    {
        if self.candidates.len() == 0 {
            return;
        }
        self.selection_active = true;
        self.selected = (self.selected + 1) % self.candidates.len();
    }

    /// Selects the previous candidate, wrapping, and marks the selection
    /// active.
    fn select_prev(&mut self)
        requires
            old(self).wf(),
        ensures
            final(self).wf(),
            final(self).input == old(self).input,
            final(self).candidates == old(self).candidates,
            final(self).error_message == old(self).error_message,
            final(self).request == old(self).request,
            old(self).candidates@.len() == 0 ==> final(self).selected == old(self).selected
                && final(self).selection_active == old(self).selection_active,
            old(self).candidates@.len() > 0 ==> final(self).selected == (if old(self).selected == 0 {
                old(self).candidates@.len() - 1
            } else {
                old(self).selected - 1
            }) && final(self).selection_active,
    {
        if self.candidates.len() == 0 {
            return;
        }
        self.selection_active = true;
        self.selected = if self.selected == 0 {
            self.candidates.len() - 1
        } else {
            self.selected - 1
        };
    }

    /// Deletes the path segment before the cursor (Ctrl-w): the slashes
    /// right before it, then the name before them.
    pub fn delete_prev_segment(&mut self)
        requires
            old(self).wf(),
        ensures
            final(self).wf(),
            ({
                let t = old(self).input.text@;
                let c = old(self).input.cursor as int;
                let start = segment_start(t, c);
                if start < c {
                    Self::retyped(*old(self), *final(self), t.take(start) + t.skip(c), start)
                } else {
                    *final(self) == *old(self)
                }
            }),
    {
        if self.input.cursor == 0 {
            return;
        }
        let chars = str_chars(self.input.text.as_str());
        let cur = self.input.cursor;
        let mut start = cur;
        while start > 0 && chars[start - 1] == '/'
            invariant
                start <= cur <= chars@.len(),
                skip_back_slashes(chars@, start as int) == skip_back_slashes(chars@, cur as int),
            decreases start,
        {
            start = start - 1;
        }
        let ghost mid = start;
        while start > 0 && chars[start - 1] != '/'
            invariant
                start <= mid <= cur <= chars@.len(),
                mid == skip_back_slashes(chars@, cur as int),
                skip_back_name(chars@, start as int) == skip_back_name(chars@, mid as int),
            decreases start,
        {
            start = start - 1;
        }
        proof {
            assert(chars@ == self.input.text@);
        }
        if start < cur {
            let mut kept: Vec<char> = Vec::new();
            let mut k: usize = 0;
            while k < start
                invariant
                    k <= start <= chars@.len(),
                    kept@ == chars@.take(k as int),
                decreases start - k,
            {
                kept.push(chars[k]);
                k = k + 1;
                proof {
                    assert(kept@ =~= chars@.take(k as int));
                }
            }
            let mut j = cur;
            while j < chars.len()
                invariant
                    cur <= j <= chars@.len(),
                    start <= cur,
                    kept@ == chars@.take(start as int) + chars@.subrange(cur as int, j as int),
                decreases chars@.len() - j,
            {
                kept.push(chars[j]);
                j = j + 1;
                proof {
                    assert(kept@ =~= chars@.take(start as int) + chars@.subrange(cur as int, j as int));
                }
            }
            proof {
                assert(chars@.subrange(cur as int, j as int) =~= chars@.skip(cur as int));
                assert(kept@.len() >= start);
            }
            self.input = TextInput { text: crate::strings::string_from_chars(&kept), cursor: start };
            self.selection_active = false;
            self.error_message = None;
            self.refresh_candidates();
        }
    }

    /// Completes the input to the selected candidate (the first one when
    /// nothing was selected), as a directory path ending in `/`.
    fn complete_selected(&mut self)
        requires
            old(self).wf(),
        ensures
            final(self).wf(),
            old(self).candidates@.len() == 0 ==> *final(self) == *old(self),
            old(self).candidates@.len() > 0 ==> {
                let idx = if old(self).selection_active { old(self).selected as int } else { 0 };
                let p = old(self).candidates@[idx].path@;
                let t = if p.len() > 0 && p.last() == '/' { p } else { p.push('/') };
                Self::retyped(*old(self), *final(self), t, t.len() as int)
            },
    {
        if self.candidates.len() == 0 {
            return;
        }
        let idx = if self.selection_active {
            self.selected
        } else {
            0
        };
        let mut completed = self.candidates[idx].path.clone();
        let chars = str_chars(completed.as_str());
        if chars.len() == 0 || chars[chars.len() - 1] != '/' {
            string_push(&mut completed, '/');
        }
        self.input.set_text(completed);
        self.selection_active = false;
        self.error_message = None;
        self.refresh_candidates();
    }

    /// The path Enter submits: the selected candidate's when one was chosen,
    /// the typed text otherwise.
    pub open spec fn submission(self) -> Seq<char> {
        if self.selection_active && self.selected < self.candidates@.len() {
            self.candidates@[self.selected as int].path@
        } else {
            self.input.text@
        }
    }

    /// The path Enter submits.
    fn selected_submission_path(&self) -> (r: String)
        ensures
            r@ == self.submission(),
    {
        if self.selection_active && self.selected < self.candidates.len() {
            return self.candidates[self.selected].path.clone();
        }
        self.input.text.clone()
    }

    /// `n` is the popup `o` after `op`, answered with `r`.
    pub open spec fn key_step(o: Self, op: RootOp, n: Self, r: EventResult) -> bool {
        match op {
            RootOp::Close => n == o && r == EventResult::Action(Action::Ui(UiAction::CloseProjectRootPopup)),
            RootOp::Ignore => n == o && r is Consumed,
            RootOp::SelectNext => {
                &&& r is Consumed
                &&& n.input == o.input && n.candidates == o.candidates && n.error_message == o.error_message
                &&& n.request == o.request
                &&& if o.candidates@.len() == 0 {
                    n.selected == o.selected && n.selection_active == o.selection_active
                } else {
                    n.selected == (o.selected + 1) % (o.candidates@.len() as int) && n.selection_active
                }
            },
            RootOp::SelectPrev => {
                &&& r is Consumed
                &&& n.input == o.input && n.candidates == o.candidates && n.error_message == o.error_message
                &&& n.request == o.request
                &&& if o.candidates@.len() == 0 {
                    n.selected == o.selected && n.selection_active == o.selection_active
                } else {
                    n.selected == (if o.selected == 0 { o.candidates@.len() - 1 } else { o.selected - 1 })
                        && n.selection_active
                }
            },
            RootOp::Edit(e) => {
                let (t, c) = edit_result(o.input.text@, o.input.cursor as int, e);
                &&& r is Consumed
                &&& if edit_changed(o.input.text@, o.input.cursor as int, e) {
                    Self::retyped(o, n, t, c)
                } else {
                    &&& n.input.text@ == t && n.input.cursor == c
                    &&& n.candidates == o.candidates && n.selected == o.selected
                    &&& n.selection_active == o.selection_active && n.error_message == o.error_message
                    &&& n.request == o.request
                }
            },
            RootOp::DeleteSegment => {
                let t = o.input.text@;
                let c = o.input.cursor as int;
                let start = segment_start(t, c);
                &&& r is Consumed
                &&& if start < c {
                    Self::retyped(o, n, t.take(start) + t.skip(c), start)
                } else {
                    n == o
                }
            },
            RootOp::Complete => {
                &&& r is Consumed
                &&& if o.candidates@.len() == 0 {
                    n == o
                } else {
                    let idx = if o.selection_active { o.selected as int } else { 0 };
                    let p = o.candidates@[idx].path@;
                    let t = if p.len() > 0 && p.last() == '/' { p } else { p.push('/') };
                    Self::retyped(o, n, t, t.len() as int)
                }
            },
            RootOp::Submit => {
                let target = o.submission();
                &&& r is Consumed
                &&& n.input == o.input && n.candidates == o.candidates && n.selected == o.selected
                &&& n.selection_active == o.selection_active
                &&& Self::submitted(o, n, target)
            },
        }
    }

    /// `n` is `o` after `target` was submitted: a path that is blank or not
    /// absolute once trimmed is refused with an error; otherwise the popup
    /// asks the file system about the trimmed path.
    pub open spec fn submitted(o: Self, n: Self, target: Seq<char>) -> bool {
        let t = trimmed(target);
        match root_syntax_error(t) {
            Some(msg) => n.request == o.request && (n.error_message matches Some(m) && m@ == msg),
            None => n.error_message == o.error_message && (n.request matches Some(
                RootRequest::CheckDirectory { path },
            ) && path@ == t),
        }
    }

    /// Takes the file system's answer about the submitted path: whether it
    /// exists and is a directory, and its canonical form. A directory
    /// becomes the new project root; otherwise the popup shows why not. An
    /// answer nobody asked for changes nothing.
    pub fn apply_check(&mut self, exists: bool, is_dir: bool, canonical: String) -> (r: EventResult)
        requires
            old(self).wf(),
        ensures
            final(self).wf(),
            final(self).input == old(self).input,
            final(self).candidates == old(self).candidates,
            final(self).selected == old(self).selected,
            final(self).selection_active == old(self).selection_active,
            match old(self).request {
                Some(RootRequest::CheckDirectory { path: _ }) => {
                    &&& final(self).request is None
                    &&& if !exists {
                        r is Consumed && (final(self).error_message matches Some(m) && m@ == "Path does not exist"@)
                    } else if !is_dir {
                        r is Consumed && (final(self).error_message matches Some(m) && m@
                            == "Path is not a directory"@)
                    } else {
                        final(self).error_message == old(self).error_message && r == EventResult::Action(
                            Action::App(AppAction::Project(ProjectAction::ChangeProjectRoot(canonical))),
                        )
                    }
                },
                _ => r is Consumed && final(self).request == old(self).request && final(self).error_message
                    == old(self).error_message,
            },
    {
        match &self.request {
            Some(RootRequest::CheckDirectory { path: _ }) => {},
            _ => return EventResult::Consumed,
        }
        self.request = None;
        if !exists {
            self.error_message = Some(owned("Path does not exist"));
            return EventResult::Consumed;
        }
        if !is_dir {
            self.error_message = Some(owned("Path is not a directory"));
            return EventResult::Consumed;
        }
        EventResult::Action(Action::App(AppAction::Project(ProjectAction::ChangeProjectRoot(canonical))))
    }

    /// Submits the selected candidate or the typed path.
    fn submit(&mut self)
        requires
            old(self).wf(),
        ensures
            final(self).wf(),
            final(self).input == old(self).input,
            final(self).candidates == old(self).candidates,
            final(self).selected == old(self).selected,
            final(self).selection_active == old(self).selection_active,
            Self::submitted(*old(self), *final(self), old(self).submission()),
    {
        let target = self.selected_submission_path();
        let t = trim(target.as_str());
        if t.as_str().is_empty() {
            self.error_message = Some(owned("Path is empty"));
        } else if !path_is_absolute(t.as_str()) {
            self.error_message = Some(owned("Path must be absolute"));
        } else {
            self.request = Some(RootRequest::CheckDirectory { path: t });
        }
    }

    /// Applies an edit of the text; a change drops the selection and the
    /// error and asks for the listing again.
    fn edit(&mut self, e: InputEdit)
        requires
            old(self).wf(),
        ensures
            final(self).wf(),
            Self::key_step(*old(self), RootOp::Edit(e), *final(self), EventResult::Consumed),
    {
        if self.input.apply_edit(e) {
            self.selection_active = false;
            self.error_message = None;
            self.refresh_candidates();
        }
    }

    /// Reacts to a key as `root_op` and `key_step` say.
    pub fn handle_key(&mut self, key: KeyEvent) -> (r: EventResult)
        requires
            old(self).wf(),
        ensures
            final(self).wf(),
            Self::key_step(*old(self), root_op(key), *final(self), r),
    {
        match key.kind {
            KeyEventKind::Press => {},
            _ => return EventResult::Consumed,
        }
        if key.modifiers.contains(KeyModifiers::control()) {
            return match key.code {
                KeyCode::Char('q') | KeyCode::Char('c') => EventResult::Action(
                    Action::Ui(UiAction::CloseProjectRootPopup),
                ),
                KeyCode::Char('n') | KeyCode::Down => {
                    self.select_next();
                    EventResult::Consumed
                },
                KeyCode::Char('p') | KeyCode::Up => {
                    self.select_prev();
                    EventResult::Consumed
                },
                KeyCode::Char('f') => {
                    self.edit(InputEdit::Right);
                    EventResult::Consumed
                },
                KeyCode::Char('b') => {
                    self.edit(InputEdit::Left);
                    EventResult::Consumed
                },
                KeyCode::Char('a') => {
                    self.edit(InputEdit::Start);
                    EventResult::Consumed
                },
                KeyCode::Char('e') => {
                    self.edit(InputEdit::End);
                    EventResult::Consumed
                },
                KeyCode::Char('w') => {
                    self.delete_prev_segment();
                    EventResult::Consumed
                },
                KeyCode::Char('k') => {
                    self.edit(InputEdit::DeleteToEnd);
                    EventResult::Consumed
                },
                _ => EventResult::Consumed,
            };
        }
        match key.code {
            KeyCode::Esc => EventResult::Action(Action::Ui(UiAction::CloseProjectRootPopup)),
            KeyCode::Tab => {
                self.complete_selected();
                EventResult::Consumed
            },
            KeyCode::Up => {
                self.select_prev();
                EventResult::Consumed
            },
            KeyCode::Down => {
                self.select_next();
                EventResult::Consumed
            },
            KeyCode::Left => {
                self.edit(InputEdit::Left);
                EventResult::Consumed
            },
            KeyCode::Right => {
                self.edit(InputEdit::Right);
                EventResult::Consumed
            },
            KeyCode::Backspace => {
                self.edit(InputEdit::Backspace);
                EventResult::Consumed
            },
            KeyCode::Enter => {
                self.submit();
                EventResult::Consumed
            },
            KeyCode::Char(c) => {
                if !key.modifiers.contains(KeyModifiers::alt()) {
                    self.edit(InputEdit::Insert(c));
                }
                EventResult::Consumed
            },
            _ => EventResult::Consumed,
        }
    }
}

} // verus!
