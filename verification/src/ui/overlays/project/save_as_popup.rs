//! The popup that asks where to save (or how to rename) the current buffer:
//! a path prompt, absolute or relative to the project root, with the
//! matching entries of its directory listed below it. Reading the directory
//! and checking the target are the application's part: the popup says what
//! it needs in `request` and takes the answers through `apply_listing` and
//! `apply_check`.
use vstd::prelude::*;

use crate::input::action::{Action, AppAction, BufferAction, UiAction};
use crate::input::key::{KeyCode, KeyEvent, KeyEventKind, KeyModifiers};
use crate::std_calls::{
    lowercase_str, path_file_name, path_file_name_of, path_is_absolute, path_join, path_join_of,
    path_parent, path_parent_of, str_to_lowercase, string_push,
};
use crate::strings::{
    has_prefix, owned, push_str, starts_with, str_eq, trim, trim_end_slashes, trim_trailing_slashes, trimmed,
};
use crate::ui::framework::component::EventResult;
use crate::ui::overlays::project::root_picker::{segment_start, skip_back_name, skip_back_slashes, ListedEntry};
use crate::ui::shared::filtering::{fuzzy_match, fuzzy_score, MAX_MATCH_CHARS};
use crate::ui::shared::ranking::{key_views, rank_by_score_then_key, ranks_by_key, score_ints};
use crate::ui::text_input::{edit_changed, edit_result, InputEdit, TextInput};
use crate::utf8::str_chars;

verus! {

/// Most candidates listed.
pub const MAX_CANDIDATES: usize = 200;

/// Whether the popup saves the buffer under a new name or renames its file.
#[derive(Debug, Clone, Copy, PartialEq, Eq)]
pub enum SaveAsMode {
    SaveAs,
    Rename,
}

/// An entry offered for completion.
#[derive(Debug, Clone, PartialEq, Eq)]
pub struct SaveCandidate {
    pub path: String,
    pub name: String,
    pub is_dir: bool,
    pub score: i32,
}

/// What the popup needs from the file system.
#[derive(Debug, Clone, PartialEq, Eq)]
pub enum SaveRequest {
    /// The entries of `parent`, to be matched against `query`; candidates
    /// are written as `prefix` followed by their name.
    ListDirectory { parent: String, query: String, prefix: String },
    /// Whether `target` is an existing directory; `path` is what was typed.
    CheckTarget { target: String, path: String },
}

/// The directory to list, the name being typed, whether the input is
/// absolute, and the prefix candidates are written with. An empty input
/// lists the project root; a path ending in `/` lists itself; otherwise the
/// path's parent is listed for its last component. Relative paths are taken
/// from the project root.
pub open spec fn save_parent_and_query(input: Seq<char>, root: Seq<char>) -> Option<(Seq<char>, Seq<char>, bool, Seq<char>)> {
    let name = match path_file_name_of(input) {
        Some(n) => n,
        None => Seq::empty(),
    };
    if input.len() == 0 {
        Some((root, Seq::empty(), false, Seq::empty()))
    } else if input[0] == '/' {
        if input.last() == '/' {
            let prefix = if input == "/"@ { "/"@ } else { trim_end_slashes(input).push('/') };
            Some((input, Seq::empty(), true, prefix))
        } else {
            match path_parent_of(input) {
                None => None,
                Some(p) => Some((p, name, true, if p == "/"@ { "/"@ } else { p.push('/') })),
            }
        }
    } else if input.last() == '/' {
        Some((path_join_of(root, input), Seq::empty(), false, input))
    } else {
        let rel = match path_parent_of(input) {
            Some(p) => p,
            None => Seq::empty(),
        };
        Some((path_join_of(root, rel), name, false, if rel.len() == 0 { Seq::empty() } else { rel.push('/') }))
    }
}

/// The rank of a listed entry: twice its score, plus one for a directory,
/// so that higher scores come first and directories before files at equal
/// score. Entries that are neither files nor directories, hidden names and
/// entries that do not match are not listed.
pub open spec fn save_entry_rank(e: ListedEntry, q: Seq<char>) -> Option<int> {
    let dir = if e.is_dir { 1int } else { 0int };
    if !(e.is_dir || e.is_file) || has_prefix(e.name@, "."@) {
        None
    } else if q.len() == 0 {
        Some(dir)
    } else {
        match fuzzy_score(e.name@, q) {
            Some(s) => Some(2 * s + dir),
            None => None,
        }
    }
}

/// What a key asks the popup to do.
#[derive(Debug, Clone, Copy, PartialEq, Eq)]
pub enum SaveOp {
    Close,
    SelectNext,
    SelectPrev,
    Edit(InputEdit),
    DeleteSegment,
    Complete,
    Submit,
    Ignore,
}

/// The operation a key selects (the same keys as the project-root popup).
pub open spec fn save_op(key: KeyEvent) -> SaveOp {
    if key.kind != KeyEventKind::Press {
        SaveOp::Ignore
    } else if key.modifiers.control {
        match key.code {
            KeyCode::Char('q') | KeyCode::Char('c') => SaveOp::Close,
            KeyCode::Char('n') | KeyCode::Down => SaveOp::SelectNext,
            KeyCode::Char('p') | KeyCode::Up => SaveOp::SelectPrev,
            KeyCode::Char('f') => SaveOp::Edit(InputEdit::Right),
            KeyCode::Char('b') => SaveOp::Edit(InputEdit::Left),
            KeyCode::Char('a') => SaveOp::Edit(InputEdit::Start),
            KeyCode::Char('e') => SaveOp::Edit(InputEdit::End),
            KeyCode::Char('w') => SaveOp::DeleteSegment,
            KeyCode::Char('k') => SaveOp::Edit(InputEdit::DeleteToEnd),
            _ => SaveOp::Ignore,
        }
    } else {
        match key.code {
            KeyCode::Esc => SaveOp::Close,
            KeyCode::Tab => SaveOp::Complete,
            KeyCode::Up => SaveOp::SelectPrev,
            KeyCode::Down => SaveOp::SelectNext,
            KeyCode::Left => SaveOp::Edit(InputEdit::Left),
            KeyCode::Right => SaveOp::Edit(InputEdit::Right),
            KeyCode::Backspace => SaveOp::Edit(InputEdit::Backspace),
            KeyCode::Enter => SaveOp::Submit,
            KeyCode::Char(c) => if key.modifiers.alt {
                SaveOp::Ignore
            } else {
                SaveOp::Edit(InputEdit::Insert(c))
            },
            _ => SaveOp::Ignore,
        }
    }
}

/// The error for a trimmed file path that fails the checks needing no file
/// system: empty, or naming a directory by its trailing `/`.
pub open spec fn save_syntax_error(t: Seq<char>) -> Option<Seq<char>> {
    if t.len() == 0 {
        Some("Path is empty"@)
    } else if t.last() == '/' {
        Some("Path must be a file path"@)
    } else {
        None
    }
}

/// The save-as / rename popup.
pub struct SaveAsPopup {
    pub mode: SaveAsMode,
    pub project_root: String,
    pub input: TextInput,
    pub candidates: Vec<SaveCandidate>,
    pub selected: usize,
    pub selection_active: bool,
    pub error_message: Option<String>,
    /// What the popup waits for from the file system.
    pub request: Option<SaveRequest>,
}

impl SaveAsPopup {
    /// The field's cursor is within its text, and the selection is a listed
    /// row (0 when none is listed).
    pub open spec fn wf(self) -> bool {
        &&& self.input.wf()
        &&& if self.candidates@.len() == 0 {
            self.selected == 0
        } else {
            self.selected < self.candidates@.len()
        }
    }

    /// `r` is the listing request for `text` under `root`.
    pub open spec fn requested_listing(r: Option<SaveRequest>, text: Seq<char>, root: Seq<char>) -> bool {
        match save_parent_and_query(text, root) {
            None => r is None,
            Some((p, q, _a, pre)) => r matches Some(SaveRequest::ListDirectory { parent, query, prefix })
                && parent@ == p && query@ == q && prefix@ == pre,
        }
    }

    /// `n` is `o` after the text became `t` with the cursor at `c` and the
    /// list was requested again, dropping any selection and error.
    pub open spec fn retyped(o: Self, n: Self, t: Seq<char>, c: int) -> bool {
        &&& n.mode == o.mode && n.project_root == o.project_root
        &&& n.input.text@ == t
        &&& n.input.cursor == c
        &&& !n.selection_active
        &&& n.error_message is None
        &&& n.candidates@.len() == 0
        &&& n.selected == 0
        &&& Self::requested_listing(n.request, t, o.project_root@)
    }

    /// A save-as popup with `default_path` typed in.
    pub fn new(default_path: String, project_root: String) -> (p: Self)
        ensures
            p.wf(),
            p.mode == SaveAsMode::SaveAs,
            p.project_root == project_root,
            p.input.text@ == default_path@,
            p.input.cursor == default_path@.len(),
            !p.selection_active && p.error_message is None,
            p.candidates@.len() == 0 && p.selected == 0,
            Self::requested_listing(p.request, default_path@, project_root@),
    {
        Self::with_mode(SaveAsMode::SaveAs, default_path, project_root)
    }

    /// A rename popup with `default_path` typed in.
    pub fn new_rename(default_path: String, project_root: String) -> (p: Self)
        ensures
            p.wf(),
            p.mode == SaveAsMode::Rename,
            p.project_root == project_root,
            p.input.text@ == default_path@,
            p.input.cursor == default_path@.len(),
            !p.selection_active && p.error_message is None,
            p.candidates@.len() == 0 && p.selected == 0,
            Self::requested_listing(p.request, default_path@, project_root@),
    {
        Self::with_mode(SaveAsMode::Rename, default_path, project_root)
    }

    /// A popup in `mode` with `default_path` typed in, asking for its listing.
    pub fn with_mode(mode: SaveAsMode, default_path: String, project_root: String) -> (p: Self)
        ensures
            p.wf(),
            p.mode == mode,
            p.project_root == project_root,
            p.input.text@ == default_path@,
            p.input.cursor == default_path@.len(),
            !p.selection_active && p.error_message is None,
            p.candidates@.len() == 0 && p.selected == 0,
            Self::requested_listing(p.request, default_path@, project_root@),
    {
        let mut popup = Self {
            mode,
            project_root,
            input: TextInput::with_text(default_path.as_str()),
            candidates: Vec::new(),
            selected: 0,
            selection_active: false,
            error_message: None,
            request: None,
        };
        popup.refresh_candidates();
        popup
    }

    /// The directory to list, the typed name, whether the input is absolute
    /// and the prefix candidates are written with.
    pub fn parse_parent_and_query(input: &str, project_root: &str) -> (r: Option<(String, String, bool, String)>)
        ensures
            match save_parent_and_query(input@, project_root@) {
                None => r is None,
                Some((p, q, a, pre)) => r is Some && r.unwrap().0@ == p && r.unwrap().1@ == q && r.unwrap().2
                    == a && r.unwrap().3@ == pre,
            },
    {
        if input.is_empty() {
            return Some((owned(project_root), String::new(), false, String::new()));
        }
        let chars = str_chars(input);
        let ends_with_slash = chars[chars.len() - 1] == '/';
        if path_is_absolute(input) {
            if ends_with_slash {
                let prefix = if str_eq(input, "/") {
                    owned("/")
                } else {
                    let mut p = trim_trailing_slashes(input);
                    string_push(&mut p, '/');
                    p
                };
                return Some((owned(input), String::new(), true, prefix));
            }
            let parent = match path_parent(input) {
                Some(p) => p,
                None => return None,
            };
            let query = match path_file_name(input) {
                Some(n) => n,
                None => String::new(),
            };
            let prefix = if str_eq(parent.as_str(), "/") {
                owned("/")
            } else {
                let mut p = parent.clone();
                string_push(&mut p, '/');
                p
            };
            return Some((parent, query, true, prefix));
        }
        if ends_with_slash {
            let parent = path_join(project_root, input);
            return Some((parent, String::new(), false, owned(input)));
        }
        let rel_parent = match path_parent(input) {
            Some(p) => p,
            None => String::new(),
        };
        let parent = path_join(project_root, rel_parent.as_str());
        let query = match path_file_name(input) {
            Some(n) => n,
            None => String::new(),
        };
        let parent_prefix = if rel_parent.as_str().is_empty() {
            String::new()
        } else {
            let mut p = rel_parent.clone();
            string_push(&mut p, '/');
            p
        };
        Some((parent, query, false, parent_prefix))
    }

    /// Clears the list and asks for the listing of the typed path's
    /// directory.
    fn refresh_candidates(&mut self)
        ensures
            final(self).mode == old(self).mode,
            final(self).project_root == old(self).project_root,
            final(self).input == old(self).input,
            final(self).selection_active == old(self).selection_active,
            final(self).error_message == old(self).error_message,
            final(self).candidates@.len() == 0,
            final(self).selected == 0,
            Self::requested_listing(final(self).request, old(self).input.text@, old(self).project_root@),
    {
        self.candidates = Vec::new();
        self.selected = 0;
        self.request = match Self::parse_parent_and_query(self.input.text.as_str(), self.project_root.as_str()) {
            Some((parent, query, _absolute, prefix)) => Some(SaveRequest::ListDirectory { parent, query, prefix }),
            None => None,
        };
    }

    /// The entries ranked for the query `q` (best score first, directories
    /// before files, then by lowercase name), cut to `MAX_CANDIDATES`, each
    /// written as `pre` followed by its name.
    pub open spec fn listed(c: Seq<SaveCandidate>, entries: Seq<ListedEntry>, q: Seq<char>, pre: Seq<char>) -> bool {
        let ranks = Seq::new(entries.len(), |i: int| save_entry_rank(entries[i], q));
        let keys = Seq::new(entries.len(), |i: int| lowercase_str(entries[i].name@));
        exists|order: Seq<usize>|
            {
                &&& ranks_by_key(order, ranks, keys)
                &&& c.len() == if order.len() > MAX_CANDIDATES { MAX_CANDIDATES as int } else { order.len() as int }
                &&& forall|k: int|
                    0 <= k < c.len() ==> {
                        let e = entries[order[k] as int];
                        &&& (#[trigger] c[k]).path@ == pre + e.name@
                        &&& c[k].name@ == e.name@
                        &&& c[k].is_dir == e.is_dir
                        &&& ranks[order[k] as int] == Some(2 * c[k].score + if e.is_dir { 1int } else { 0int })
                    }
            }
    }

    /// Takes the directory listing the popup asked for. A listing nobody
    /// asked for is ignored.
    pub fn apply_listing(&mut self, entries: Vec<ListedEntry>)
        requires
            old(self).wf(),
            forall|i: int| 0 <= i < entries@.len() ==> (#[trigger] entries@[i]).name@.len() <= MAX_MATCH_CHARS,
        ensures
            final(self).wf(),
            final(self).mode == old(self).mode,
            final(self).project_root == old(self).project_root,
            final(self).input == old(self).input,
            final(self).selection_active == old(self).selection_active,
            final(self).error_message == old(self).error_message,
            match old(self).request {
                Some(SaveRequest::ListDirectory { parent: _, query, prefix }) => {
                    &&& final(self).request is None
                    &&& final(self).selected == 0
                    &&& Self::listed(final(self).candidates@, entries@, query@, prefix@)
                },
                _ => final(self).request == old(self).request && final(self).candidates == old(self).candidates
                    && final(self).selected == old(self).selected,
            },
    {
        let (query, prefix) = match &self.request {
            Some(SaveRequest::ListDirectory { parent: _, query, prefix }) => (query.clone(), prefix.clone()),
            _ => return,
        };
        let ghost q = query@;
        let mut ranks: Vec<Option<i64>> = Vec::new();
        let mut keys: Vec<Vec<char>> = Vec::new();
        let mut i: usize = 0;
        while i < entries.len()
            invariant
                i <= entries@.len(),
                q == query@,
                forall|j: int| 0 <= j < entries@.len() ==> (#[trigger] entries@[j]).name@.len() <= MAX_MATCH_CHARS,
                ranks@.len() == i,
                keys@.len() == i,
                forall|k: int| 0 <= k < i ==> (#[trigger] ranks@[k] matches Some(v) ==> 2 * i32::MIN <= v <= 2 * i32::MAX + 1),
                forall|k: int| 0 <= k < i ==> score_ints(ranks@)[k] == save_entry_rank(entries@[k], q),
                forall|k: int| 0 <= k < i ==> (#[trigger] keys@[k])@ == lowercase_str(entries@[k].name@),
            decreases entries@.len() - i,
        {
            let e = &entries[i];
            let dir: i64 = if e.is_dir { 1 } else { 0 };
            let rank = if !(e.is_dir || e.is_file) || starts_with(e.name.as_str(), ".") {
                None
            } else if query.as_str().is_empty() {
                Some(dir)
            } else {
                proof {
                    assert(entries@[i as int].name@.len() <= MAX_MATCH_CHARS);
                }
                match fuzzy_match(e.name.as_str(), query.as_str()) {
                    Some(m) => Some(2 * (m.0 as i64) + dir),
                    None => None,
                }
            };
            let ghost before = ranks@;
            let ghost kbefore = keys@;
            ranks.push(rank);
            keys.push(str_chars(str_to_lowercase(e.name.as_str()).as_str()));
            proof {
                assert forall|k: int| 0 <= k < i + 1 implies (#[trigger] ranks@[k] matches Some(v) ==> 2 * i32::MIN <= v <= 2 * i32::MAX + 1) by {
                    if k < i {
                        assert(ranks@[k] == before[k]);
                    }
                }
                assert forall|k: int| 0 <= k < i + 1 implies score_ints(ranks@)[k] == save_entry_rank(entries@[k], q) by {
                    if k < i {
                        assert(ranks@[k] == before[k]);
                        assert(score_ints(ranks@)[k] == score_ints(before)[k]);
                    } else {
                        assert(ranks@[k] == rank);
                    }
                }
                assert forall|k: int| 0 <= k < i + 1 implies (#[trigger] keys@[k])@ == lowercase_str(entries@[k].name@) by {
                    if k < i {
                        assert(keys@[k] == kbefore[k]);
                    }
                }
            }
            i = i + 1;
        }
        let order = rank_by_score_then_key(&ranks, &keys);
        let ghost s = Seq::new(entries@.len(), |j: int| save_entry_rank(entries@[j], q));
        let ghost ks = Seq::new(entries@.len(), |j: int| lowercase_str(entries@[j].name@));
        proof {
            assert(score_ints(ranks@) =~= s);
            assert(key_views(keys@) =~= ks);
        }
        let limit = if order.len() > MAX_CANDIDATES {
            MAX_CANDIDATES
        } else {
            order.len()
        };
        let mut list: Vec<SaveCandidate> = Vec::new();
        let mut k: usize = 0;
        while k < limit
            invariant
                k <= limit <= order@.len(),
                list@.len() == k,
                ranks_by_key(order@, s, ks),
                s.len() == entries@.len(),
                ranks@.len() == entries@.len(),
                score_ints(ranks@) == s,
                q == query@,
                s == Seq::new(entries@.len(), |j: int| save_entry_rank(entries@[j], q)),
                forall|j: int| 0 <= j < ranks@.len() ==> (#[trigger] ranks@[j] matches Some(v) ==> 2 * i32::MIN <= v <= 2 * i32::MAX + 1),
                forall|j: int|
                    0 <= j < k ==> {
                        let e = entries@[order@[j] as int];
                        &&& (#[trigger] list@[j]).path@ == prefix@ + e.name@
                        &&& list@[j].name@ == e.name@
                        &&& list@[j].is_dir == e.is_dir
                        &&& s[order@[j] as int] == Some(2 * list@[j].score + if e.is_dir { 1int } else { 0int })
                    },
            decreases limit - k,
        {
            let idx = order[k];
            proof {
                assert(idx < s.len() && s[idx as int] is Some);
                assert(score_ints(ranks@)[idx as int] == s[idx as int]);
            }
            let rank = match ranks[idx] {
                Some(v) => v,
                None => 0,
            };
            let e = &entries[idx];
            let dir: i64 = if e.is_dir { 1 } else { 0 };
            proof {
                let st = save_entry_rank(entries@[idx as int], q);
                assert(score_ints(ranks@)[idx as int] is Some);
                assert(ranks@[idx as int] is Some);
                assert(ranks@[idx as int] == Some(rank));
                assert(score_ints(ranks@)[idx as int] == Some(rank as int));
                assert(s[idx as int] == st);
                assert(st == Some(rank as int));
                if q.len() == 0 {
                    assert(rank == dir);
                } else {
                    let fs = fuzzy_score(entries@[idx as int].name@, q);
                    assert(fs is Some);
                    assert(rank == 2 * fs->0 + dir);
                }
            }
            let score: i32 = ((rank - dir) / 2) as i32;
            let mut path = prefix.clone();
            push_str(&mut path, e.name.as_str());
            list.push(SaveCandidate { path, name: e.name.clone(), is_dir: e.is_dir, score });
            k = k + 1;
        }
        self.candidates = list;
        self.selected = 0;
        self.request = None;
    }

    /// Selects the next candidate, wrapping, and marks the selection active.
    fn select_next(&mut self)
        requires
            old(self).wf(),
        ensures
            final(self).wf(),
            Self::key_step(*old(self), SaveOp::SelectNext, *final(self), EventResult::Consumed),
    {
        if self.candidates.len() == 0 {
            return;
        }
        self.selection_active = true;
        self.selected = (self.selected + 1) % self.candidates.len();
    }

    /// Selects the previous candidate, wrapping, and marks the selection
    /// active.
    fn select_prev(&mut self)
        requires
            old(self).wf(),
        ensures
            final(self).wf(),
            Self::key_step(*old(self), SaveOp::SelectPrev, *final(self), EventResult::Consumed),
    {
        if self.candidates.len() == 0 {
            return;
        }
        self.selection_active = true;
        self.selected = if self.selected == 0 {
            self.candidates.len() - 1
        } else {
            self.selected - 1
        };
    }

    /// Deletes the path segment before the cursor (Ctrl-w).
    pub fn delete_prev_segment(&mut self)
        requires
            old(self).wf(),
        ensures
            final(self).wf(),
            Self::key_step(*old(self), SaveOp::DeleteSegment, *final(self), EventResult::Consumed),
    {
        if self.input.cursor == 0 {
            return;
        }
        let chars = str_chars(self.input.text.as_str());
        let cur = self.input.cursor;
        let mut start = cur;
        while start > 0 && chars[start - 1] == '/'
            invariant
                start <= cur <= chars@.len(),
                skip_back_slashes(chars@, start as int) == skip_back_slashes(chars@, cur as int),
            decreases start,
        {
            start = start - 1;
        }
        let ghost mid = start;
        while start > 0 && chars[start - 1] != '/'
            invariant
                start <= mid <= cur <= chars@.len(),
                mid == skip_back_slashes(chars@, cur as int),
                skip_back_name(chars@, start as int) == skip_back_name(chars@, mid as int),
            decreases start,
        {
            start = start - 1;
        }
        if start < cur {
            let mut kept: Vec<char> = Vec::new();
            let mut k: usize = 0;
            while k < start
                invariant
                    k <= start <= chars@.len(),
                    kept@ == chars@.take(k as int),
                decreases start - k,
            {
                kept.push(chars[k]);
                k = k + 1;
                proof {
                    assert(kept@ =~= chars@.take(k as int));
                }
            }
            let mut j = cur;
            while j < chars.len()
                invariant
                    cur <= j <= chars@.len(),
                    start <= cur,
                    kept@ == chars@.take(start as int) + chars@.subrange(cur as int, j as int),
                decreases chars@.len() - j,
            {
                kept.push(chars[j]);
                j = j + 1;
                proof {
                    assert(kept@ =~= chars@.take(start as int) + chars@.subrange(cur as int, j as int));
                }
            }
            proof {
                assert(chars@.subrange(cur as int, j as int) =~= chars@.skip(cur as int));
                assert(kept@.len() >= start);
            }
            self.input = TextInput { text: crate::strings::string_from_chars(&kept), cursor: start };
            self.selection_active = false;
            self.error_message = None;
            self.refresh_candidates();
        }
    }

    /// Completes the input to the selected candidate (the first one when
    /// nothing was selected); a directory gets a trailing `/`.
    fn complete_selected(&mut self)
        requires
            old(self).wf(),
        ensures
            final(self).wf(),
            Self::key_step(*old(self), SaveOp::Complete, *final(self), EventResult::Consumed),
    {
        if self.candidates.len() == 0 {
            return;
        }
        let idx = if self.selection_active {
            self.selected
        } else {
            0
        };
        let mut completed = self.candidates[idx].path.clone();
        let chars = str_chars(completed.as_str());
        if self.candidates[idx].is_dir && (chars.len() == 0 || chars[chars.len() - 1] != '/') {
            string_push(&mut completed, '/');
        }
        self.input.set_text(completed);
        self.selection_active = false;
        self.error_message = None;
        self.refresh_candidates();
    }

    /// The path Enter submits: the selected candidate's when one was chosen,
    /// the typed text otherwise.
    pub open spec fn submission(self) -> Seq<char> {
        if self.selection_active && self.selected < self.candidates@.len() {
            self.candidates@[self.selected as int].path@
        } else {
            self.input.text@
        }
    }

    /// The path Enter submits.
    fn selected_submission_path(&self) -> (r: String)
        ensures
            r@ == self.submission(),
    {
        if self.selection_active && self.selected < self.candidates.len() {
            return self.candidates[self.selected].path.clone();
        }
        self.input.text.clone()
    }

    /// Where `path` lies: itself when absolute, under the project root
    /// otherwise.
    pub fn resolve_target_path(&self, path: &str) -> (r: String)
        ensures
            r@ == if path@.len() > 0 && path@[0] == '/' {
                path@
            } else {
                path_join_of(self.project_root@, path@)
            },
    {
        if path_is_absolute(path) {
            owned(path)
        } else {
            path_join(self.project_root.as_str(), path)
        }
    }

    /// `n` is `o` after `target` was submitted: a trimmed path that is empty
    /// or ends in `/` is refused with an error; otherwise the popup asks the
    /// file system whether its resolved location is a directory.
    pub open spec fn submitted(o: Self, n: Self, target: Seq<char>) -> bool {
        let t = trimmed(target);
        match save_syntax_error(t) {
            Some(msg) => n.request == o.request && (n.error_message matches Some(m) && m@ == msg),
            None => n.error_message == o.error_message && (n.request matches Some(
                SaveRequest::CheckTarget { target: tg, path },
            ) && path@ == t && tg@ == (if t[0] == '/' { t } else { path_join_of(o.project_root@, t) })),
        }
    }

    /// Submits the selected candidate or the typed path.
    fn submit(&mut self)
        requires
            old(self).wf(),
        ensures
            final(self).wf(),
            final(self).mode == old(self).mode,
            final(self).project_root == old(self).project_root,
            final(self).input == old(self).input,
            final(self).candidates == old(self).candidates,
            final(self).selected == old(self).selected,
            final(self).selection_active == old(self).selection_active,
            Self::submitted(*old(self), *final(self), old(self).submission()),
    {
        let target = self.selected_submission_path();
        let t = trim(target.as_str());
        let chars = str_chars(t.as_str());
        if chars.len() == 0 {
            self.error_message = Some(owned("Path is empty"));
        } else if chars[chars.len() - 1] == '/' {
            self.error_message = Some(owned("Path must be a file path"));
        } else {
            let resolved = self.resolve_target_path(t.as_str());
            self.request = Some(SaveRequest::CheckTarget { target: resolved, path: t });
        }
    }

    /// Takes the file system's answer about the submitted target: an
    /// existing directory is refused; anything else is saved to (or renamed
    /// as) the typed path. An answer nobody asked for changes nothing.
    pub fn apply_check(&mut self, is_existing_dir: bool) -> (r: EventResult)
        requires
            old(self).wf(),
        ensures
            final(self).wf(),
            final(self).mode == old(self).mode,
            final(self).project_root == old(self).project_root,
            final(self).input == old(self).input,
            final(self).candidates == old(self).candidates,
            final(self).selected == old(self).selected,
            final(self).selection_active == old(self).selection_active,
            match old(self).request {
                Some(SaveRequest::CheckTarget { target: _, path }) => {
                    &&& final(self).request is None
                    &&& if is_existing_dir {
                        r is Consumed && (final(self).error_message matches Some(m) && m@ == "Path is a directory"@)
                    } else {
                        &&& final(self).error_message == old(self).error_message
                        &&& match old(self).mode {
                            SaveAsMode::SaveAs => r == EventResult::Action(
                                Action::App(AppAction::Buffer(BufferAction::SaveBufferAs(path))),
                            ),
                            SaveAsMode::Rename => r == EventResult::Action(
                                Action::App(AppAction::Buffer(BufferAction::RenameBufferFile(path))),
                            ),
                        }
                    }
                },
                _ => r is Consumed && final(self).request == old(self).request && final(self).error_message
                    == old(self).error_message,
            },
    {
        let path = match &self.request {
            Some(SaveRequest::CheckTarget { target: _, path }) => path.clone(),
            _ => return EventResult::Consumed,
        };
        self.request = None;
        if is_existing_dir {
            self.error_message = Some(owned("Path is a directory"));
            return EventResult::Consumed;
        }
        let buffer_action = match self.mode {
            SaveAsMode::SaveAs => BufferAction::SaveBufferAs(path),
            SaveAsMode::Rename => BufferAction::RenameBufferFile(path),
        };
        EventResult::Action(Action::App(AppAction::Buffer(buffer_action)))
    }

    /// `n` is the popup `o` after `op`, answered with `r`.
    pub open spec fn key_step(o: Self, op: SaveOp, n: Self, r: EventResult) -> bool {
        match op {
            SaveOp::Close => n == o && r == EventResult::Action(Action::Ui(UiAction::CloseSaveAsPopup)),
            SaveOp::Ignore => n == o && r is Consumed,
            SaveOp::SelectNext | SaveOp::SelectPrev => {
                let len = o.candidates@.len() as int;
                &&& r is Consumed
                &&& n.mode == o.mode && n.project_root == o.project_root
                &&& n.input == o.input && n.candidates == o.candidates && n.error_message == o.error_message
                &&& n.request == o.request
                &&& if len == 0 {
                    n.selected == o.selected && n.selection_active == o.selection_active
                } else {
                    &&& n.selection_active
                    &&& n.selected == if op is SelectNext {
                        (o.selected + 1) % len
                    } else if o.selected == 0 {
                        len - 1
                    } else {
                        o.selected - 1
                    }
                }
            },
            SaveOp::Edit(e) => {
                let (t, c) = edit_result(o.input.text@, o.input.cursor as int, e);
                &&& r is Consumed
                &&& if edit_changed(o.input.text@, o.input.cursor as int, e) {
                    Self::retyped(o, n, t, c)
                } else {
                    &&& n.mode == o.mode && n.project_root == o.project_root
                    &&& n.input.text@ == t && n.input.cursor == c
                    &&& n.candidates == o.candidates && n.selected == o.selected
                    &&& n.selection_active == o.selection_active && n.error_message == o.error_message
                    &&& n.request == o.request
                }
            },
            SaveOp::DeleteSegment => {
                let t = o.input.text@;
                let c = o.input.cursor as int;
                let start = segment_start(t, c);
                &&& r is Consumed
                &&& if start < c {
                    Self::retyped(o, n, t.take(start) + t.skip(c), start)
                } else {
                    n == o
                }
            },
            SaveOp::Complete => {
                &&& r is Consumed
                &&& if o.candidates@.len() == 0 {
                    n == o
                } else {
                    let idx = if o.selection_active { o.selected as int } else { 0 };
                    let cand = o.candidates@[idx];
                    let p = cand.path@;
                    let t = if cand.is_dir && !(p.len() > 0 && p.last() == '/') { p.push('/') } else { p };
                    Self::retyped(o, n, t, t.len() as int)
                }
            },
            SaveOp::Submit => {
                &&& r is Consumed
                &&& n.mode == o.mode && n.project_root == o.project_root
                &&& n.input == o.input && n.candidates == o.candidates && n.selected == o.selected
                &&& n.selection_active == o.selection_active
                &&& Self::submitted(o, n, o.submission())
            },
        }
    }

    /// Applies an edit of the text; a change drops the selection and the
    /// error and asks for the listing again.
    fn edit(&mut self, e: InputEdit)
        requires
            old(self).wf(),
        ensures
            final(self).wf(),
            Self::key_step(*old(self), SaveOp::Edit(e), *final(self), EventResult::Consumed),
    {
        if self.input.apply_edit(e) {
            self.selection_active = false;
            self.error_message = None;
            self.refresh_candidates();
        }
    }

    /// Reacts to a key as `save_op` and `key_step` say.
    pub fn handle_key(&mut self, key: KeyEvent) -> (r: EventResult)
        requires
            old(self).wf(),
        ensures
            final(self).wf(),
            Self::key_step(*old(self), save_op(key), *final(self), r),
    {
        match key.kind {
            KeyEventKind::Press => {},
            _ => return EventResult::Consumed,
        }
        if key.modifiers.contains(KeyModifiers::control()) {
            return match key.code {
                KeyCode::Char('q') | KeyCode::Char('c') => EventResult::Action(Action::Ui(UiAction::CloseSaveAsPopup)),
                KeyCode::Char('n') | KeyCode::Down => {
                    self.select_next();
                    EventResult::Consumed
                },
                KeyCode::Char('p') | KeyCode::Up => {
                    self.select_prev();
                    EventResult::Consumed
                },
                KeyCode::Char('f') => {
                    self.edit(InputEdit::Right);
                    EventResult::Consumed
                },
                KeyCode::Char('b') => {
                    self.edit(InputEdit::Left);
                    EventResult::Consumed
                },
                KeyCode::Char('a') => {
                    self.edit(InputEdit::Start);
                    EventResult::Consumed
                },
                KeyCode::Char('e') => {
                    self.edit(InputEdit::End);
                    EventResult::Consumed
                },
                KeyCode::Char('w') => {
                    self.delete_prev_segment();
                    EventResult::Consumed
                },
                KeyCode::Char('k') => {
                    self.edit(InputEdit::DeleteToEnd);
                    EventResult::Consumed
                },
                _ => EventResult::Consumed,
            };
        }
        match key.code {
            KeyCode::Esc => EventResult::Action(Action::Ui(UiAction::CloseSaveAsPopup)),
            KeyCode::Tab => {
                self.complete_selected();
                EventResult::Consumed
            },
            KeyCode::Up => {
                self.select_prev();
                EventResult::Consumed
            },
            KeyCode::Down => {
                self.select_next();
                EventResult::Consumed
            },
            KeyCode::Left => {
                self.edit(InputEdit::Left);
                EventResult::Consumed
            },
            KeyCode::Right => {
                self.edit(InputEdit::Right);
                EventResult::Consumed
            },
            KeyCode::Backspace => {
                self.edit(InputEdit::Backspace);
                EventResult::Consumed
            },
            KeyCode::Enter => {
                self.submit();
                EventResult::Consumed
            },
            KeyCode::Char(c) => {
                if !key.modifiers.contains(KeyModifiers::alt()) {
                    self.edit(InputEdit::Insert(c));
                }
                EventResult::Consumed
            },
            _ => EventResult::Consumed,
        }
    }

    /// The typed text.
    pub fn input(&self) -> (r: &str)
        ensures
            r@ == self.input.text@,
    {
        self.input.text.as_str()
    }
}

} // verus!
