//! The palette's state, its pickers and the previews they show.
use vstd::prelude::*;

use crate::command::git::GitFileStatus;
use crate::ui::overlays::palette::ordering::{
    cand_view, cand_views, law_sort_rows_in_order, law_sort_rows_permutes, ranked_view, ranked_views,
    row_before, sort_candidates, sort_rows, unranked, RankedRow,
    RowOrder, RowView,
};
use crate::ui::shared::ranking::chars_lt;
use crate::ui::shared::filtering::{
    fuzzy_match, fuzzy_score, fzf_score, fzf_style_match, ints, strict_match, token_fallback_result,
    MAX_MATCH_CHARS,
};
use crate::command::registry::{CommandEntry, CommandRegistry};
use crate::input::action::{
    Action, AppAction, BufferAction, IntegrationAction, NavigationAction, ProjectAction, UiAction,
};
use crate::input::key::{KeyCode, KeyEvent, KeyEventKind};
use crate::ui::framework::component::EventResult;
use crate::std_calls::{char_is_whitespace, is_unicode_whitespace};
use crate::strings::{
    trim_start_ws, decimal_chars, has_prefix, str_lines, text_lines, owned, push_str, str_eq, string_views, trim, trimmed, u64_to_decimal,
};
use crate::ui::overlays::palette::picker::{
    first_index_of, goto_target, numbered_parts, parse_goto_line, parse_usize, parsed_usize, BufferId, CandidateKind, GitBranchPickerEntry,
    JumpPickerEntry, PaletteMode, ReferencePickerEntry, ScoredCandidate, SmartCopyPickerEntry,
};
use crate::ui::overlays::palette::workers::{GlobalSearchBatch, GlobalSearchResultEntry};
use crate::ui::text_input::{without_prev_word, word_right, TextInput};
use crate::utf8::str_chars;

verus! {

/// A symbol of the active document, or a piece of code the smart-copy
/// picker offers.
pub struct SymbolEntry {
    pub label: String,
    pub line: usize,
    pub char_col: usize,
    pub preview_lines: Vec<String>,
    pub copy_text: Option<String>,
}

/// What Enter does on a symbol.
#[derive(Debug, Clone, Copy, PartialEq, Eq)]
pub enum SymbolSubmitBehavior {
    JumpToLocation,
    CopyToClipboard,
}

/// The entry each picker previewed last.
#[derive(Debug, Clone, Copy)]
pub struct LastPreviewed {
    pub buffer: Option<BufferId>,
    pub jump: Option<usize>,
    pub reference: Option<usize>,
    pub git_branch: Option<usize>,
    pub symbol: Option<usize>,
}

/// The command palette and its pickers.
///
/// The preview worker, the global-search worker and the file reads live
/// with the caller: the palette lists the paths it wants previewed in
/// `preview_requests` and `file_read_request`, and takes the answers back.
pub struct Palette {
    pub input: TextInput,
    pub mode: PaletteMode,
    pub candidates: Vec<ScoredCandidate>,
    pub selected: usize,
    pub scroll_offset: usize,
    pub preview_lines: Vec<String>,
    pub jump_target_preview_line: Option<usize>,
    pub jump_target_char_col: Option<usize>,
    pub last_previewed: LastPreviewed,
    /// Previews already read, by project-relative path.
    pub preview_cache: Vec<(String, Vec<String>)>,
    /// Paths handed to the preview worker.
    pub requested_paths: Vec<String>,
    /// Paths to hand to the preview worker now.
    pub preview_requests: Vec<String>,
    /// The selected file, when its preview must be read before it shows.
    pub file_read_request: Option<String>,
    pub has_preview_worker: bool,
    pub buffer_entries: Vec<(BufferId, String, Vec<String>)>,
    pub jump_entries: Vec<JumpPickerEntry>,
    pub reference_entries: Vec<ReferencePickerEntry>,
    pub git_branch_entries: Vec<GitBranchPickerEntry>,
    pub symbol_entries: Vec<SymbolEntry>,
    pub symbol_submit_behavior: SymbolSubmitBehavior,
    pub file_entries: Vec<String>,
    pub project_root: String,
    pub git_status_map: Vec<(String, GitFileStatus)>,
    /// The recently run command identifiers, most recent first.
    pub command_history: Option<Vec<String>>,
    pub global_search_entries: Vec<GlobalSearchResultEntry>,
    pub has_global_search_worker: bool,
    pub global_search_generation: u64,
    pub global_search_latest_applied: u64,
    pub global_search_dirty: bool,
    /// Counts the edits that restart the global-search debounce.
    pub global_search_edits: u64,
    pub active_doc_lines: Vec<String>,
    pub is_unified: bool,
    pub caller_label: Option<String>,
}

/// A copy of `v`.
pub fn clone_lines(v: &Vec<String>) -> (r: Vec<String>)
    ensures
        r@ == v@,
{
    let mut r: Vec<String> = Vec::new();
    let mut i: usize = 0;
    while i < v.len()
        invariant
            i <= v@.len(),
            r@ == v@.take(i as int),
        decreases v@.len() - i,
    {
        r.push(v[i].clone());
        proof {
            assert(r@ =~= v@.take(i + 1));
        }
        i = i + 1;
    }
    proof {
        assert(v@.take(v@.len() as int) =~= v@);
    }
    r
}

/// The kind of the selected row, if a row is selected.
pub open spec fn selected_kind(p: Palette) -> Option<CandidateKind> {
    if p.selected < p.candidates@.len() {
        Some(p.candidates@[p.selected as int].kind)
    } else {
        None
    }
}

/// What the preview shows, and which entries were previewed last.
#[verifier::ext_equal]
pub struct PreviewView {
    pub lines: Seq<Seq<char>>,
    pub target_line: Option<usize>,
    pub target_col: Option<usize>,
    pub last: LastPreviewed,
}

/// The palette's preview.
pub open spec fn preview_of(p: Palette) -> PreviewView {
    PreviewView {
        lines: string_views(p.preview_lines@),
        target_line: p.jump_target_preview_line,
        target_col: p.jump_target_char_col,
        last: p.last_previewed,
    }
}

/// Index of the first buffer entry with identifier `id`.
pub open spec fn first_buffer(e: Seq<(BufferId, String, Vec<String>)>, id: BufferId) -> Option<int>
    decreases e.len(),
{
    if e.len() == 0 {
        None
    } else {
        match first_buffer(e.drop_last(), id) {
            Some(k) => Some(k),
            None => if e.last().0 == id {
                Some(e.len() - 1)
            } else {
                None
            },
        }
    }
}

/// Index of the first jump entry with jump index `idx`.
pub open spec fn first_jump(e: Seq<JumpPickerEntry>, idx: usize) -> Option<int>
    decreases e.len(),
{
    if e.len() == 0 {
        None
    } else {
        match first_jump(e.drop_last(), idx) {
            Some(k) => Some(k),
            None => if e.last().jump_index == idx {
                Some(e.len() - 1)
            } else {
                None
            },
        }
    }
}

/// The buffer picker's preview of `p`, starting from the preview `cur`:
/// the selected buffer's lines, kept as they are when that buffer was
/// previewed last.
pub open spec fn buffer_previewed(p: Palette, cur: PreviewView) -> PreviewView {
    let cleared = PreviewView {
        lines: Seq::empty(),
        target_line: None,
        target_col: None,
        last: LastPreviewed { buffer: None, ..cur.last },
    };
    match selected_kind(p) {
        Some(CandidateKind::Buffer(id)) => if cur.last.buffer == Some(id) {
            PreviewView { target_line: None, target_col: None, ..cur }
        } else {
            match first_buffer(p.buffer_entries@, id) {
                Some(k) => PreviewView {
                    lines: string_views(p.buffer_entries@[k].2@),
                    target_line: None,
                    target_col: None,
                    last: LastPreviewed { buffer: Some(id), ..cur.last },
                },
                None => cleared,
            }
        },
        _ => cleared,
    }
}

/// The jump picker's preview of `p`, starting from `cur`: the selected
/// jump's lines and target, kept when that jump was previewed last.
pub open spec fn jump_previewed(p: Palette, cur: PreviewView) -> PreviewView {
    let cleared = PreviewView {
        lines: Seq::empty(),
        target_line: None,
        target_col: None,
        last: LastPreviewed { jump: None, ..cur.last },
    };
    match selected_kind(p) {
        Some(CandidateKind::Jump(idx)) => if cur.last.jump == Some(idx) {
            cur
        } else {
            match first_jump(p.jump_entries@, idx) {
                Some(k) => PreviewView {
                    lines: string_views(p.jump_entries@[k].preview_lines@),
                    target_line: p.jump_entries@[k].target_preview_line,
                    target_col: Some(p.jump_entries@[k].target_char_col),
                    last: LastPreviewed { jump: Some(idx), ..cur.last },
                },
                None => cleared,
            }
        },
        _ => cleared,
    }
}

/// The reference picker's preview of `p`, starting from `cur`.
pub open spec fn reference_previewed(p: Palette, cur: PreviewView) -> PreviewView {
    let cleared = PreviewView {
        lines: Seq::empty(),
        target_line: None,
        target_col: None,
        last: LastPreviewed { reference: None, ..cur.last },
    };
    match selected_kind(p) {
        Some(CandidateKind::Reference(idx)) => if cur.last.reference == Some(idx) {
            cur
        } else if idx < p.reference_entries@.len() {
            PreviewView {
                lines: string_views(p.reference_entries@[idx as int].preview_lines@),
                target_line: p.reference_entries@[idx as int].target_preview_line,
                target_col: Some(p.reference_entries@[idx as int].target_char_col),
                last: LastPreviewed { reference: Some(idx), ..cur.last },
            }
        } else {
            cleared
        },
        _ => cleared,
    }
}

/// The branch picker's preview of `p`, starting from `cur`.
pub open spec fn git_branch_previewed(p: Palette, cur: PreviewView) -> PreviewView {
    let cleared = PreviewView {
        lines: Seq::empty(),
        target_line: None,
        target_col: None,
        last: LastPreviewed { git_branch: None, ..cur.last },
    };
    match selected_kind(p) {
        Some(CandidateKind::GitBranch(idx)) => if cur.last.git_branch == Some(idx) {
            PreviewView { target_line: None, target_col: None, ..cur }
        } else if idx < p.git_branch_entries@.len() {
            PreviewView {
                lines: string_views(p.git_branch_entries@[idx as int].preview_lines@),
                target_line: None,
                target_col: None,
                last: LastPreviewed { git_branch: Some(idx), ..cur.last },
            }
        } else {
            cleared
        },
        _ => cleared,
    }
}

/// The preview line whose number is `line + 1`, if any: the first line
/// that splits into a number part, which trimmed parses as that number.
pub open spec fn numbered_line_index(lines: Seq<Seq<char>>, line: int) -> Option<int>
    decreases lines.len(),
{
    if lines.len() == 0 {
        None
    } else {
        match numbered_line_index(lines.drop_last(), line) {
            Some(k) => Some(k),
            None => match numbered_parts(lines.last()) {
                Some(parts) => if parsed_usize(trimmed(parts.0)) == Some((line + 1) as usize) && line + 1 <= usize::MAX {
                    Some(lines.len() - 1)
                } else {
                    None
                },
                None => None,
            },
        }
    }
}

/// The symbol picker's preview of `p`, starting from `cur`: the symbol's
/// lines, aimed at the line that carries its number.
pub open spec fn symbol_previewed(p: Palette, cur: PreviewView) -> PreviewView {
    let cleared = PreviewView {
        lines: Seq::empty(),
        target_line: None,
        target_col: None,
        last: LastPreviewed { symbol: None, ..cur.last },
    };
    match selected_kind(p) {
        Some(CandidateKind::Symbol(idx)) => if cur.last.symbol == Some(idx) {
            PreviewView { target_line: None, target_col: None, ..cur }
        } else if idx < p.symbol_entries@.len() {
            let e = p.symbol_entries@[idx as int];
            let lines = string_views(e.preview_lines@);
            PreviewView {
                lines: lines,
                target_line: match numbered_line_index(lines, e.line as int) {
                    Some(k) => Some(k as usize),
                    None => None,
                },
                target_col: Some(e.char_col),
                last: LastPreviewed { symbol: Some(idx), ..cur.last },
            }
        } else {
            cleared
        },
        _ => cleared,
    }
}

/// Everything but the preview is as it was.
pub open spec fn same_but_preview(a: Palette, b: Palette) -> bool {
    &&& b.input == a.input
    &&& b.mode == a.mode
    &&& b.candidates == a.candidates
    &&& b.selected == a.selected
    &&& b.scroll_offset == a.scroll_offset
    &&& b.preview_cache == a.preview_cache
    &&& b.requested_paths == a.requested_paths
    &&& b.preview_requests == a.preview_requests
    &&& b.file_read_request == a.file_read_request
    &&& b.has_preview_worker == a.has_preview_worker
    &&& b.buffer_entries == a.buffer_entries
    &&& b.jump_entries == a.jump_entries
    &&& b.reference_entries == a.reference_entries
    &&& b.git_branch_entries == a.git_branch_entries
    &&& b.symbol_entries == a.symbol_entries
    &&& b.symbol_submit_behavior == a.symbol_submit_behavior
    &&& b.file_entries == a.file_entries
    &&& b.project_root == a.project_root
    &&& b.git_status_map == a.git_status_map
    &&& b.command_history == a.command_history
    &&& b.global_search_entries == a.global_search_entries
    &&& b.has_global_search_worker == a.has_global_search_worker
    &&& b.global_search_generation == a.global_search_generation
    &&& b.global_search_latest_applied == a.global_search_latest_applied
    &&& b.global_search_dirty == a.global_search_dirty
    &&& b.global_search_edits == a.global_search_edits
    &&& b.active_doc_lines == a.active_doc_lines
    &&& b.is_unified == a.is_unified
    &&& b.caller_label == a.caller_label
}

/// The number part of a numbered preview line, if it has one.
fn numbered_prefix(line: &str) -> (r: Option<String>)
    ensures
        match numbered_parts(line@) {
            None => r is None,
            Some(p) => r is Some && r.unwrap()@ == p.0,
        },
{
    let chars = str_chars(line);
    let mut i: usize = 0;
    let mut prefix = String::new();
    while i < chars.len() && chars[i] != '|'
        invariant
            i <= chars@.len(),
            chars@ == line@,
            prefix@ == line@.take(i as int),
            forall|j: int| 0 <= j < i ==> line@[j] != '|',
        decreases chars@.len() - i,
    {
        crate::std_calls::string_push(&mut prefix, chars[i]);
        proof {
            assert(prefix@ =~= line@.take(i + 1));
        }
        i = i + 1;
    }
    if i == chars.len() {
        proof {
            assert(!(exists|k: int| 0 <= k < line@.len() && line@[k] == '|'));
        }
        return None;
    }
    proof {
        assert(line@[i as int] == '|');
        let k = choose|k: int| 0 <= k < line@.len() && line@[k] == '|' && forall|j: int| 0 <= j < k ==> line@[j] != '|';
        assert(k == i);
    }
    Some(prefix)
}

/// A row with no score, no matched positions and no preview.
pub open spec fn plain_row(item: (CandidateKind, Seq<char>)) -> RowView {
    RowView { kind: item.0, label: item.1, score: 0, preview: Seq::empty() }
}

/// Every item as a plain row.
pub open spec fn plain_rows(items: Seq<(CandidateKind, Seq<char>)>) -> Seq<RowView> {
    items.map_values(|it: (CandidateKind, Seq<char>)| plain_row(it))
}

/// The buffer picker's items: each buffer by its name.
pub open spec fn buffer_items(e: Seq<(BufferId, String, Vec<String>)>) -> Seq<(CandidateKind, Seq<char>)> {
    e.map_values(|b: (BufferId, String, Vec<String>)| (CandidateKind::Buffer(b.0), b.1@))
}

/// The jump picker's items: each jump by its label.
pub open spec fn jump_items(e: Seq<JumpPickerEntry>) -> Seq<(CandidateKind, Seq<char>)> {
    e.map_values(|j: JumpPickerEntry| (CandidateKind::Jump(j.jump_index), j.label@))
}

/// The reference picker's items, by position.
pub open spec fn reference_items(e: Seq<ReferencePickerEntry>) -> Seq<(CandidateKind, Seq<char>)> {
    Seq::new(e.len(), |i: int| (CandidateKind::Reference(i as usize), e[i].label@))
}

/// The branch picker's items, by position.
pub open spec fn git_branch_items(e: Seq<GitBranchPickerEntry>) -> Seq<(CandidateKind, Seq<char>)> {
    Seq::new(e.len(), |i: int| (CandidateKind::GitBranch(i as usize), e[i].label@))
}

/// The symbol picker's items, by position.
pub open spec fn symbol_items(e: Seq<SymbolEntry>) -> Seq<(CandidateKind, Seq<char>)> {
    Seq::new(e.len(), |i: int| (CandidateKind::Symbol(i as usize), e[i].label@))
}

/// The file finder's items, by position.
pub open spec fn file_items(e: Seq<String>) -> Seq<(CandidateKind, Seq<char>)> {
    Seq::new(e.len(), |i: int| (CandidateKind::File(i as usize), e[i]@))
}

/// No row carries matched positions.
pub open spec fn no_positions(v: Seq<ScoredCandidate>) -> bool {
    forall|i: int| 0 <= i < v.len() ==> (#[trigger] v[i]).match_positions@.len() == 0
}

/// Nothing has been previewed yet.
pub open spec fn nothing_previewed(l: LastPreviewed) -> bool {
    &&& l.buffer is None
    &&& l.jump is None
    &&& l.reference is None
    &&& l.git_branch is None
    &&& l.symbol is None
}

/// The preview a picker starts from.
pub open spec fn blank_preview() -> PreviewView {
    PreviewView {
        lines: Seq::empty(),
        target_line: None,
        target_col: None,
        last: LastPreviewed { buffer: None, jump: None, reference: None, git_branch: None, symbol: None },
    }
}

/// The state every standalone picker starts in, but for its own entries,
/// rows, selection and preview.
pub open spec fn picker_defaults(p: Palette) -> bool {
    &&& p.input.text@.len() == 0
    &&& p.input.cursor == 0
    &&& p.scroll_offset == 0
    &&& p.preview_cache@.len() == 0
    &&& p.requested_paths@.len() == 0
    &&& p.preview_requests@.len() == 0
    &&& p.file_read_request is None
    &&& !p.has_preview_worker
    &&& p.file_entries@.len() == 0
    &&& p.project_root@.len() == 0
    &&& p.git_status_map@.len() == 0
    &&& p.command_history is None
    &&& p.global_search_entries@.len() == 0
    &&& !p.has_global_search_worker
    &&& p.global_search_generation == 0
    &&& p.global_search_latest_applied == 0
    &&& !p.global_search_dirty
    &&& p.global_search_edits == 0
    &&& p.active_doc_lines@.len() == 0
    &&& !p.is_unified
}

/// A row that stands for `kind`, labelled `label`, with no score.
fn plain_candidate(kind: CandidateKind, label: String) -> (c: ScoredCandidate)
    ensures
        cand_view(c) == plain_row((kind, label@)),
        c.match_positions@.len() == 0,
{
    let c = ScoredCandidate { kind, label, score: 0, match_positions: Vec::new(), preview_lines: Vec::new() };
    proof {
        assert(string_views(c.preview_lines@) =~= Seq::<Seq<char>>::empty());
    }
    c
}

/// A copy of the path-to-status pairs.
fn clone_status_map(m: &Vec<(String, GitFileStatus)>) -> (r: Vec<(String, GitFileStatus)>)
    ensures
        r@ == m@,
{
    let mut r: Vec<(String, GitFileStatus)> = Vec::new();
    let mut i: usize = 0;
    while i < m.len()
        invariant
            i <= m@.len(),
            r@ == m@.take(i as int),
        decreases m@.len() - i,
    {
        r.push((m[i].0.clone(), m[i].1));
        proof {
            assert(r@ =~= m@.take(i + 1));
        }
        i = i + 1;
    }
    proof {
        assert(m@.take(m@.len() as int) =~= m@);
    }
    r
}

/// The entries' labels as plain rows, made by `f` from the entry indices.
fn plain_rows_of_labels(kinds: Vec<CandidateKind>, labels: Vec<String>) -> (r: Vec<ScoredCandidate>)
    requires
        kinds@.len() == labels@.len(),
    ensures
        cand_views(r@) == plain_rows(Seq::new(kinds@.len(), |i: int| (kinds@[i], labels@[i]@))),
        no_positions(r@),
{
    let ghost items = Seq::new(kinds@.len(), |i: int| (kinds@[i], labels@[i]@));
    let mut r: Vec<ScoredCandidate> = Vec::new();
    let mut ks = kinds;
    let mut ls = labels;
    let ghost k0 = ks@;
    let ghost l0 = ls@;
    while ks.len() > 0
        invariant
            ks@.len() == ls@.len(),
            r@.len() + ks@.len() == k0.len(),
            k0.len() == l0.len(),
            ks@ == k0.skip(r@.len() as int),
            ls@ == l0.skip(r@.len() as int),
            items == Seq::new(k0.len(), |i: int| (k0[i], l0[i]@)),
            cand_views(r@) == plain_rows(items.take(r@.len() as int)),
            no_positions(r@),
        decreases ks@.len(),
    {
        let ghost n = r@.len();
        let k = ks.remove(0);
        let l = ls.remove(0);
        proof {
            assert(k == k0[n as int]);
            assert(l == l0[n as int]);
        }
        let c = plain_candidate(k, l);
        let ghost before = r@;
        r.push(c);
        proof {
            assert(ks@ =~= k0.skip(r@.len() as int));
            assert(ls@ =~= l0.skip(r@.len() as int));
            assert(items[n as int] == (k, l@));
            assert(cand_views(r@) =~= cand_views(before).push(cand_view(c)));
            assert(plain_rows(items.take(n as int + 1)) =~= plain_rows(items.take(n as int)).push(plain_row(items[n as int])));
        }
    }
    proof {
        assert(items.take(r@.len() as int) =~= items);
    }
    r
}

impl Palette {
    /// Index of the first buffer entry with identifier `id`.
    fn find_buffer(&self, id: BufferId) -> (r: Option<usize>)
        ensures
            match r {
                None => first_buffer(self.buffer_entries@, id) is None,
                Some(i) => i < self.buffer_entries@.len() && first_buffer(self.buffer_entries@, id) == Some(i as int),
            },
    {
        let mut i: usize = 0;
        while i < self.buffer_entries.len()
            invariant
                i <= self.buffer_entries@.len(),
                first_buffer(self.buffer_entries@.take(i as int), id) is None,
            decreases self.buffer_entries@.len() - i,
        {
            proof {
                assert(self.buffer_entries@.take(i + 1).drop_last() =~= self.buffer_entries@.take(i as int));
            }
            if self.buffer_entries[i].0.0 == id.0 {
                proof {
                    assert(first_buffer(self.buffer_entries@.take(i + 1), id) == Some(i as int));
                    lemma_first_buffer_prefix(self.buffer_entries@, id, i + 1);
                }
                return Some(i);
            }
            i = i + 1;
        }
        proof {
            assert(self.buffer_entries@.take(i as int) =~= self.buffer_entries@);
        }
        None
    }

    /// Index of the first jump entry with jump index `idx`.
    fn find_jump(&self, idx: usize) -> (r: Option<usize>)
        ensures
            match r {
                None => first_jump(self.jump_entries@, idx) is None,
                Some(i) => i < self.jump_entries@.len() && first_jump(self.jump_entries@, idx) == Some(i as int),
            },
    {
        let mut i: usize = 0;
        while i < self.jump_entries.len()
            invariant
                i <= self.jump_entries@.len(),
                first_jump(self.jump_entries@.take(i as int), idx) is None,
            decreases self.jump_entries@.len() - i,
        {
            proof {
                assert(self.jump_entries@.take(i + 1).drop_last() =~= self.jump_entries@.take(i as int));
            }
            if self.jump_entries[i].jump_index == idx {
                proof {
                    assert(first_jump(self.jump_entries@.take(i + 1), idx) == Some(i as int));
                    lemma_first_jump_prefix(self.jump_entries@, idx, i + 1);
                }
                return Some(i);
            }
            i = i + 1;
        }
        proof {
            assert(self.jump_entries@.take(i as int) =~= self.jump_entries@);
        }
        None
    }

    /// The kind of the selected row, if a row is selected.
    fn selected_candidate_kind(&self) -> (r: Option<CandidateKind>)
        ensures
            r == selected_kind(*self),
    {
        if self.selected < self.candidates.len() {
            Some(self.candidates[self.selected].kind)
        } else {
            None
        }
    }

    /// Clears the preview and forgets the entry `forget` names.
    fn clear_preview(&mut self)
        ensures
            same_but_preview(*old(self), *final(self)),
            final(self).preview_lines@.len() == 0,
            final(self).jump_target_preview_line is None,
            final(self).jump_target_char_col is None,
            final(self).last_previewed == old(self).last_previewed,
    {
        self.preview_lines = Vec::new();
        self.jump_target_preview_line = None;
        self.jump_target_char_col = None;
    }

    /// Shows the selected buffer's lines.
    pub fn update_buffer_preview(&mut self)
        ensures
            same_but_preview(*old(self), *final(self)),
            preview_of(*final(self)) == buffer_previewed(*old(self), preview_of(*old(self))),
    {
        self.jump_target_preview_line = None;
        self.jump_target_char_col = None;
        let id = match self.selected_candidate_kind() {
            Some(CandidateKind::Buffer(id)) => id,
            _ => {
                self.clear_preview();
                self.last_previewed.buffer = None;
                return;
            },
        };
        let same = match self.last_previewed.buffer {
            Some(b) => b.0 == id.0,
            None => false,
        };
        if same {
            return;
        }
        match self.find_buffer(id) {
            Some(k) => {
                self.preview_lines = clone_lines(&self.buffer_entries[k].2);
                self.last_previewed.buffer = Some(id);
            },
            None => {
                self.clear_preview();
                self.last_previewed.buffer = None;
            },
        }
    }

    /// Shows the selected jump's lines and aims at its target.
    pub fn update_jump_preview(&mut self)
        ensures
            same_but_preview(*old(self), *final(self)),
            preview_of(*final(self)) == jump_previewed(*old(self), preview_of(*old(self))),
    {
        let idx = match self.selected_candidate_kind() {
            Some(CandidateKind::Jump(idx)) => idx,
            _ => {
                self.clear_preview();
                self.last_previewed.jump = None;
                return;
            },
        };
        let same = match self.last_previewed.jump {
            Some(j) => j == idx,
            None => false,
        };
        if same {
            return;
        }
        match self.find_jump(idx) {
            Some(k) => {
                self.preview_lines = clone_lines(&self.jump_entries[k].preview_lines);
                self.jump_target_preview_line = self.jump_entries[k].target_preview_line;
                self.jump_target_char_col = Some(self.jump_entries[k].target_char_col);
                self.last_previewed.jump = Some(idx);
            },
            None => {
                self.clear_preview();
                self.last_previewed.jump = None;
            },
        }
    }

    /// Shows the selected reference's lines and aims at its target.
    pub fn update_reference_preview(&mut self)
        ensures
            same_but_preview(*old(self), *final(self)),
            preview_of(*final(self)) == reference_previewed(*old(self), preview_of(*old(self))),
    {
        let idx = match self.selected_candidate_kind() {
            Some(CandidateKind::Reference(idx)) => idx,
            _ => {
                self.clear_preview();
                self.last_previewed.reference = None;
                return;
            },
        };
        let same = match self.last_previewed.reference {
            Some(j) => j == idx,
            None => false,
        };
        if same {
            return;
        }
        if idx < self.reference_entries.len() {
            self.preview_lines = clone_lines(&self.reference_entries[idx].preview_lines);
            self.jump_target_preview_line = self.reference_entries[idx].target_preview_line;
            self.jump_target_char_col = Some(self.reference_entries[idx].target_char_col);
            self.last_previewed.reference = Some(idx);
        } else {
            self.clear_preview();
            self.last_previewed.reference = None;
        }
    }

    /// Shows the selected branch's lines.
    pub fn update_git_branch_preview(&mut self)
        ensures
            same_but_preview(*old(self), *final(self)),
            preview_of(*final(self)) == git_branch_previewed(*old(self), preview_of(*old(self))),
    {
        self.jump_target_preview_line = None;
        self.jump_target_char_col = None;
        let idx = match self.selected_candidate_kind() {
            Some(CandidateKind::GitBranch(idx)) => idx,
            _ => {
                self.clear_preview();
                self.last_previewed.git_branch = None;
                return;
            },
        };
        let same = match self.last_previewed.git_branch {
            Some(j) => j == idx,
            None => false,
        };
        if same {
            return;
        }
        if idx < self.git_branch_entries.len() {
            self.preview_lines = clone_lines(&self.git_branch_entries[idx].preview_lines);
            self.last_previewed.git_branch = Some(idx);
        } else {
            self.clear_preview();
            self.last_previewed.git_branch = None;
        }
    }

    /// Shows the selected symbol's lines, aimed at the line with its number.
    pub fn update_symbol_preview(&mut self)
        ensures
            same_but_preview(*old(self), *final(self)),
            preview_of(*final(self)) == symbol_previewed(*old(self), preview_of(*old(self))),
    {
        self.jump_target_preview_line = None;
        self.jump_target_char_col = None;
        let idx = match self.selected_candidate_kind() {
            Some(CandidateKind::Symbol(idx)) => idx,
            _ => {
                self.clear_preview();
                self.last_previewed.symbol = None;
                return;
            },
        };
        let same = match self.last_previewed.symbol {
            Some(j) => j == idx,
            None => false,
        };
        if same {
            return;
        }
        if idx < self.symbol_entries.len() {
            let lines = clone_lines(&self.symbol_entries[idx].preview_lines);
            let target = numbered_line_of(&lines, self.symbol_entries[idx].line);
            self.preview_lines = lines;
            self.jump_target_preview_line = target;
            self.jump_target_char_col = Some(self.symbol_entries[idx].char_col);
            self.last_previewed.symbol = Some(idx);
        } else {
            self.clear_preview();
            self.last_previewed.symbol = None;
        }
    }
}

proof fn lemma_first_buffer_prefix(e: Seq<(BufferId, String, Vec<String>)>, id: BufferId, n: int)
    requires
        0 <= n <= e.len(),
        first_buffer(e.take(n), id) is Some,
    ensures
        first_buffer(e, id) == first_buffer(e.take(n), id),
    decreases e.len(),
{
    if e.len() > n {
        assert(e.drop_last().take(n) =~= e.take(n));
        lemma_first_buffer_prefix(e.drop_last(), id, n);
    } else {
        assert(e.take(n) =~= e);
    }
}

proof fn lemma_first_jump_prefix(e: Seq<JumpPickerEntry>, idx: usize, n: int)
    requires
        0 <= n <= e.len(),
        first_jump(e.take(n), idx) is Some,
    ensures
        first_jump(e, idx) == first_jump(e.take(n), idx),
    decreases e.len(),
{
    if e.len() > n {
        assert(e.drop_last().take(n) =~= e.take(n));
        lemma_first_jump_prefix(e.drop_last(), idx, n);
    } else {
        assert(e.take(n) =~= e);
    }
}

proof fn lemma_numbered_line_prefix(lines: Seq<Seq<char>>, line: int, n: int)
    requires
        0 <= n <= lines.len(),
        numbered_line_index(lines.take(n), line) is Some,
    ensures
        numbered_line_index(lines, line) == numbered_line_index(lines.take(n), line),
    decreases lines.len(),
{
    if lines.len() > n {
        assert(lines.drop_last().take(n) =~= lines.take(n));
        lemma_numbered_line_prefix(lines.drop_last(), line, n);
    } else {
        assert(lines.take(n) =~= lines);
    }
}

/// The index of the preview line numbered `line + 1`, if any.
fn numbered_line_of(lines: &Vec<String>, line: usize) -> (r: Option<usize>)
    ensures
        match numbered_line_index(string_views(lines@), line as int) {
            None => r is None,
            Some(k) => r == Some(k as usize),
        },
{
    let ghost v = string_views(lines@);
    let mut i: usize = 0;
    while i < lines.len()
        invariant
            i <= lines@.len(),
            v == string_views(lines@),
            numbered_line_index(v.take(i as int), line as int) is None,
        decreases lines@.len() - i,
    {
        proof {
            assert(v.take(i + 1).drop_last() =~= v.take(i as int));
            assert(v.take(i + 1).last() == lines@[i as int]@);
        }
        if let Some(prefix) = numbered_prefix(lines[i].as_str()) {
            let t = trim(prefix.as_str());
            if let Some(n) = parse_usize(t.as_str()) {
                if n > 0 && n - 1 == line {
                    proof {
                        assert(numbered_line_index(v.take(i + 1), line as int) == Some(i as int));
                        lemma_numbered_line_prefix(v, line as int, i + 1);
                    }
                    return Some(i);
                }
            }
        }
        i = i + 1;
    }
    proof {
        assert(v.take(i as int) =~= v);
    }
    None
}


/// Index of the first branch labelled as the current one (`"* "` first).
pub open spec fn current_branch(e: Seq<GitBranchPickerEntry>) -> Option<int>
    decreases e.len(),
{
    if e.len() == 0 {
        None
    } else {
        match current_branch(e.drop_last()) {
            Some(k) => Some(k),
            None => if has_prefix(e.last().label@, seq!['*', ' ']) {
                Some(e.len() - 1)
            } else {
                None
            },
        }
    }
}

proof fn lemma_current_branch_prefix(e: Seq<GitBranchPickerEntry>, n: int)
    requires
        0 <= n <= e.len(),
        current_branch(e.take(n)) is Some,
    ensures
        current_branch(e) == current_branch(e.take(n)),
    decreases e.len(),
{
    if e.len() > n {
        assert(e.drop_last().take(n) =~= e.take(n));
        lemma_current_branch_prefix(e.drop_last(), n);
    } else {
        assert(e.take(n) =~= e);
    }
}

/// The symbol entries of `(label, line, column, preview)` tuples, with
/// nothing to copy.
pub open spec fn symbols_of(t: Seq<(String, usize, usize, Vec<String>)>) -> Seq<SymbolEntry> {
    t.map_values(|x: (String, usize, usize, Vec<String>)| SymbolEntry {
        label: x.0,
        line: x.1,
        char_col: x.2,
        preview_lines: x.3,
        copy_text: None,
    })
}

/// The symbol entries of smart-copy entries, each with its text to copy.
pub open spec fn copies_of(t: Seq<SmartCopyPickerEntry>) -> Seq<SymbolEntry> {
    t.map_values(|x: SmartCopyPickerEntry| SymbolEntry {
        label: x.label,
        line: x.line,
        char_col: x.char_col,
        preview_lines: x.preview_lines,
        copy_text: Some(x.copy_text),
    })
}

/// Moves each tuple into a symbol entry.
fn symbol_entries_from(t: Vec<(String, usize, usize, Vec<String>)>) -> (r: Vec<SymbolEntry>)
    ensures
        r@ == symbols_of(t@),
{
    let ghost t0 = t@;
    let mut src = t;
    let mut r: Vec<SymbolEntry> = Vec::new();
    while src.len() > 0
        invariant
            r@.len() + src@.len() == t0.len(),
            src@ == t0.skip(r@.len() as int),
            r@ == symbols_of(t0.take(r@.len() as int)),
        decreases src@.len(),
    {
        let ghost n = r@.len();
        let x = src.remove(0);
        proof {
            assert(x == t0[n as int]);
        }
        r.push(SymbolEntry { label: x.0, line: x.1, char_col: x.2, preview_lines: x.3, copy_text: None });
        proof {
            assert(src@ =~= t0.skip(r@.len() as int));
            assert(r@ =~= symbols_of(t0.take(r@.len() as int)));
        }
    }
    proof {
        assert(t0.take(r@.len() as int) =~= t0);
    }
    r
}

/// Moves each smart-copy entry into a symbol entry.
fn copy_entries_from(t: Vec<SmartCopyPickerEntry>) -> (r: Vec<SymbolEntry>)
    ensures
        r@ == copies_of(t@),
{
    let ghost t0 = t@;
    let mut src = t;
    let mut r: Vec<SymbolEntry> = Vec::new();
    while src.len() > 0
        invariant
            r@.len() + src@.len() == t0.len(),
            src@ == t0.skip(r@.len() as int),
            r@ == copies_of(t0.take(r@.len() as int)),
        decreases src@.len(),
    {
        let ghost n = r@.len();
        let x = src.remove(0);
        proof {
            assert(x == t0[n as int]);
        }
        r.push(SymbolEntry {
            label: x.label,
            line: x.line,
            char_col: x.char_col,
            preview_lines: x.preview_lines,
            copy_text: Some(x.copy_text),
        });
        proof {
            assert(src@ =~= t0.skip(r@.len() as int));
            assert(r@ =~= copies_of(t0.take(r@.len() as int)));
        }
    }
    proof {
        assert(t0.take(r@.len() as int) =~= t0);
    }
    r
}

/// A palette in `mode` listing `candidates`, with `selected` chosen,
/// nothing previewed yet, and the standalone pickers' defaults.
fn blank_picker(mode: PaletteMode, candidates: Vec<ScoredCandidate>, selected: usize) -> (p: Palette)
    ensures
        picker_defaults(p),
        p.mode == mode,
        p.candidates == candidates,
        p.selected == selected,
        preview_of(p) == blank_preview(),
        p.buffer_entries@.len() == 0,
        p.jump_entries@.len() == 0,
        p.reference_entries@.len() == 0,
        p.git_branch_entries@.len() == 0,
        p.symbol_entries@.len() == 0,
        p.symbol_submit_behavior == SymbolSubmitBehavior::JumpToLocation,
        p.caller_label is None,
        p.input.wf(),
        p.preview_lines@.len() == 0,
{
    let p = Palette {
        input: TextInput::new(),
        mode,
        candidates,
        selected,
        scroll_offset: 0,
        preview_lines: Vec::new(),
        jump_target_preview_line: None,
        jump_target_char_col: None,
        last_previewed: LastPreviewed { buffer: None, jump: None, reference: None, git_branch: None, symbol: None },
        preview_cache: Vec::new(),
        requested_paths: Vec::new(),
        preview_requests: Vec::new(),
        file_read_request: None,
        has_preview_worker: false,
        buffer_entries: Vec::new(),
        jump_entries: Vec::new(),
        reference_entries: Vec::new(),
        git_branch_entries: Vec::new(),
        symbol_entries: Vec::new(),
        symbol_submit_behavior: SymbolSubmitBehavior::JumpToLocation,
        file_entries: Vec::new(),
        project_root: String::new(),
        git_status_map: Vec::new(),
        command_history: None,
        global_search_entries: Vec::new(),
        has_global_search_worker: false,
        global_search_generation: 0,
        global_search_latest_applied: 0,
        global_search_dirty: false,
        global_search_edits: 0,
        active_doc_lines: Vec::new(),
        is_unified: false,
        caller_label: None,
    };
    proof {
        assert(string_views(p.preview_lines@) =~= Seq::<Seq<char>>::empty());
    }
    p
}

impl Palette {
    /// The buffer picker: every open buffer by name, the first previewed.
    pub fn new_buffer_picker(entries: Vec<(BufferId, String, Vec<String>)>) -> (r: Palette)
        ensures
            picker_defaults(r),
            r.mode == PaletteMode::BufferPicker,
            r.buffer_entries@ == entries@,
            r.jump_entries@.len() == 0,
            r.reference_entries@.len() == 0,
            r.git_branch_entries@.len() == 0,
            r.symbol_entries@.len() == 0,
            r.symbol_submit_behavior == SymbolSubmitBehavior::JumpToLocation,
            r.caller_label is None,
            r.input.wf(),
            cand_views(r.candidates@) == plain_rows(buffer_items(entries@)),
            no_positions(r.candidates@),
            r.selected == 0,
            preview_of(r) == buffer_previewed(r, blank_preview()),
    {
        let mut kinds: Vec<CandidateKind> = Vec::new();
        let mut labels: Vec<String> = Vec::new();
        let mut i: usize = 0;
        while i < entries.len()
            invariant
                i <= entries@.len(),
                kinds@.len() == i,
                labels@.len() == i,
                forall|k: int| 0 <= k < i ==> kinds@[k] == CandidateKind::Buffer(#[trigger] entries@[k].0),
                forall|k: int| 0 <= k < i ==> (#[trigger] labels@[k])@ == entries@[k].1@,
            decreases entries@.len() - i,
        {
            kinds.push(CandidateKind::Buffer(entries[i].0));
            labels.push(entries[i].1.clone());
            i = i + 1;
        }
        proof {
            assert(Seq::new(kinds@.len(), |k: int| (kinds@[k], labels@[k]@)) =~= buffer_items(entries@));
        }
        let candidates = plain_rows_of_labels(kinds, labels);
        let mut p = blank_picker(PaletteMode::BufferPicker, candidates, 0);
        p.buffer_entries = entries;
        p.update_buffer_preview();
        p
    }

    /// The jump picker: every jump by label, the first previewed.
    pub fn new_jump_picker(entries: Vec<JumpPickerEntry>) -> (r: Palette)
        ensures
            picker_defaults(r),
            r.mode == PaletteMode::JumpPicker,
            r.jump_entries@ == entries@,
            r.buffer_entries@.len() == 0,
            r.reference_entries@.len() == 0,
            r.git_branch_entries@.len() == 0,
            r.symbol_entries@.len() == 0,
            r.symbol_submit_behavior == SymbolSubmitBehavior::JumpToLocation,
            r.caller_label is None,
            r.input.wf(),
            cand_views(r.candidates@) == plain_rows(jump_items(entries@)),
            no_positions(r.candidates@),
            r.selected == 0,
            preview_of(r) == jump_previewed(r, blank_preview()),
    {
        let mut kinds: Vec<CandidateKind> = Vec::new();
        let mut labels: Vec<String> = Vec::new();
        let mut i: usize = 0;
        while i < entries.len()
            invariant
                i <= entries@.len(),
                kinds@.len() == i,
                labels@.len() == i,
                forall|k: int| 0 <= k < i ==> kinds@[k] == CandidateKind::Jump(#[trigger] entries@[k].jump_index),
                forall|k: int| 0 <= k < i ==> (#[trigger] labels@[k])@ == entries@[k].label@,
            decreases entries@.len() - i,
        {
            kinds.push(CandidateKind::Jump(entries[i].jump_index));
            labels.push(entries[i].label.clone());
            i = i + 1;
        }
        proof {
            assert(Seq::new(kinds@.len(), |k: int| (kinds@[k], labels@[k]@)) =~= jump_items(entries@));
        }
        let candidates = plain_rows_of_labels(kinds, labels);
        let mut p = blank_picker(PaletteMode::JumpPicker, candidates, 0);
        p.jump_entries = entries;
        p.update_jump_preview();
        p
    }

    /// The reference picker: every reference by label, titled with the
    /// caller's label, the first previewed.
    pub fn new_reference_picker(caller_label: String, entries: Vec<ReferencePickerEntry>) -> (r: Palette)
        ensures
            picker_defaults(r),
            r.mode == PaletteMode::ReferencePicker,
            r.reference_entries@ == entries@,
            r.buffer_entries@.len() == 0,
            r.jump_entries@.len() == 0,
            r.git_branch_entries@.len() == 0,
            r.symbol_entries@.len() == 0,
            r.symbol_submit_behavior == SymbolSubmitBehavior::JumpToLocation,
            r.caller_label == Some(caller_label),
            r.input.wf(),
            cand_views(r.candidates@) == plain_rows(reference_items(entries@)),
            no_positions(r.candidates@),
            r.selected == 0,
            preview_of(r) == reference_previewed(r, blank_preview()),
    {
        let mut kinds: Vec<CandidateKind> = Vec::new();
        let mut labels: Vec<String> = Vec::new();
        let mut i: usize = 0;
        while i < entries.len()
            invariant
                i <= entries@.len(),
                kinds@.len() == i,
                labels@.len() == i,
                forall|k: int| 0 <= k < i ==> #[trigger] kinds@[k] == CandidateKind::Reference(k as usize),
                forall|k: int| 0 <= k < i ==> (#[trigger] labels@[k])@ == entries@[k].label@,
            decreases entries@.len() - i,
        {
            kinds.push(CandidateKind::Reference(i));
            labels.push(entries[i].label.clone());
            i = i + 1;
        }
        proof {
            assert(Seq::new(kinds@.len(), |k: int| (kinds@[k], labels@[k]@)) =~= reference_items(entries@));
        }
        let candidates = plain_rows_of_labels(kinds, labels);
        let mut p = blank_picker(PaletteMode::ReferencePicker, candidates, 0);
        p.reference_entries = entries;
        p.caller_label = Some(caller_label);
        p.update_reference_preview();
        p
    }

    /// The branch picker: every branch by label, the current one (labelled
    /// `"* "` first) selected and previewed.
    pub fn new_git_branch_picker(entries: Vec<GitBranchPickerEntry>) -> (r: Palette)
        ensures
            picker_defaults(r),
            r.mode == PaletteMode::GitBranchPicker,
            r.git_branch_entries@ == entries@,
            r.buffer_entries@.len() == 0,
            r.jump_entries@.len() == 0,
            r.reference_entries@.len() == 0,
            r.symbol_entries@.len() == 0,
            r.symbol_submit_behavior == SymbolSubmitBehavior::JumpToLocation,
            r.caller_label matches Some(l) && l@ == "Git Branches"@,
            r.input.wf(),
            cand_views(r.candidates@) == plain_rows(git_branch_items(entries@)),
            no_positions(r.candidates@),
            r.selected == match current_branch(entries@) {
                Some(k) => k as usize,
                None => 0,
            },
            preview_of(r) == git_branch_previewed(r, blank_preview()),
    {
        let star = owned("* ");
        proof {
            reveal_strlit("* ");
            assert(star@ =~= seq!['*', ' ']);
        }
        let mut selected: usize = 0;
        let mut found = false;
        let mut kinds: Vec<CandidateKind> = Vec::new();
        let mut labels: Vec<String> = Vec::new();
        let mut i: usize = 0;
        while i < entries.len()
            invariant
                i <= entries@.len(),
                kinds@.len() == i,
                labels@.len() == i,
                star@ == seq!['*', ' '],
                forall|k: int| 0 <= k < i ==> #[trigger] kinds@[k] == CandidateKind::GitBranch(k as usize),
                forall|k: int| 0 <= k < i ==> (#[trigger] labels@[k])@ == entries@[k].label@,
                found ==> current_branch(entries@.take(i as int)) == Some(selected as int),
                !found ==> current_branch(entries@.take(i as int)) is None && selected == 0,
            decreases entries@.len() - i,
        {
            proof {
                assert(entries@.take(i + 1).drop_last() =~= entries@.take(i as int));
            }
            if !found && crate::strings::starts_with(entries[i].label.as_str(), star.as_str()) {
                found = true;
                selected = i;
            }
            kinds.push(CandidateKind::GitBranch(i));
            labels.push(entries[i].label.clone());
            i = i + 1;
        }
        proof {
            assert(entries@.take(i as int) =~= entries@);
            assert(Seq::new(kinds@.len(), |k: int| (kinds@[k], labels@[k]@)) =~= git_branch_items(entries@));
        }
        let candidates = plain_rows_of_labels(kinds, labels);
        let mut p = blank_picker(PaletteMode::GitBranchPicker, candidates, selected);
        p.git_branch_entries = entries;
        p.caller_label = Some(owned("Git Branches"));
        proof {
            reveal_strlit("Git Branches");
        }
        p.update_git_branch_preview();
        p
    }

    /// The symbol picker: every symbol by label; Enter jumps to it.
    pub fn new_symbol_picker(entries: Vec<(String, usize, usize, Vec<String>)>) -> (r: Palette)
        ensures
            picker_defaults(r),
            r.mode == PaletteMode::SymbolPicker,
            r.symbol_entries@ == symbols_of(entries@),
            r.buffer_entries@.len() == 0,
            r.jump_entries@.len() == 0,
            r.reference_entries@.len() == 0,
            r.git_branch_entries@.len() == 0,
            r.symbol_submit_behavior == SymbolSubmitBehavior::JumpToLocation,
            r.caller_label is None,
            r.input.wf(),
            cand_views(r.candidates@) == plain_rows(symbol_items(symbols_of(entries@))),
            no_positions(r.candidates@),
            r.selected == 0,
            preview_of(r) == symbol_previewed(r, blank_preview()),
    {
        let symbols = symbol_entries_from(entries);
        Self::symbol_picker_of(symbols, SymbolSubmitBehavior::JumpToLocation)
    }

    /// The smart-copy picker: every piece of code by label; Enter copies it.
    pub fn new_smart_copy_picker(entries: Vec<SmartCopyPickerEntry>) -> (r: Palette)
        ensures
            picker_defaults(r),
            r.mode == PaletteMode::SymbolPicker,
            r.symbol_entries@ == copies_of(entries@),
            r.buffer_entries@.len() == 0,
            r.jump_entries@.len() == 0,
            r.reference_entries@.len() == 0,
            r.git_branch_entries@.len() == 0,
            r.symbol_submit_behavior == SymbolSubmitBehavior::CopyToClipboard,
            r.caller_label is None,
            r.input.wf(),
            cand_views(r.candidates@) == plain_rows(symbol_items(copies_of(entries@))),
            no_positions(r.candidates@),
            r.selected == 0,
            preview_of(r) == symbol_previewed(r, blank_preview()),
    {
        let symbols = copy_entries_from(entries);
        Self::symbol_picker_of(symbols, SymbolSubmitBehavior::CopyToClipboard)
    }

    /// A symbol picker over `symbols` whose Enter does `behavior`.
    fn symbol_picker_of(symbols: Vec<SymbolEntry>, behavior: SymbolSubmitBehavior) -> (r: Palette)
        ensures
            picker_defaults(r),
            r.mode == PaletteMode::SymbolPicker,
            r.symbol_entries@ == symbols@,
            r.buffer_entries@.len() == 0,
            r.jump_entries@.len() == 0,
            r.reference_entries@.len() == 0,
            r.git_branch_entries@.len() == 0,
            r.symbol_submit_behavior == behavior,
            r.caller_label is None,
            r.input.wf(),
            cand_views(r.candidates@) == plain_rows(symbol_items(symbols@)),
            no_positions(r.candidates@),
            r.selected == 0,
            preview_of(r) == symbol_previewed(r, blank_preview()),
    {
        let mut kinds: Vec<CandidateKind> = Vec::new();
        let mut labels: Vec<String> = Vec::new();
        let mut i: usize = 0;
        while i < symbols.len()
            invariant
                i <= symbols@.len(),
                kinds@.len() == i,
                labels@.len() == i,
                forall|k: int| 0 <= k < i ==> #[trigger] kinds@[k] == CandidateKind::Symbol(k as usize),
                forall|k: int| 0 <= k < i ==> (#[trigger] labels@[k])@ == symbols@[k].label@,
            decreases symbols@.len() - i,
        {
            kinds.push(CandidateKind::Symbol(i));
            labels.push(symbols[i].label.clone());
            i = i + 1;
        }
        proof {
            assert(Seq::new(kinds@.len(), |k: int| (kinds@[k], labels@[k]@)) =~= symbol_items(symbols@));
        }
        let candidates = plain_rows_of_labels(kinds, labels);
        let mut p = blank_picker(PaletteMode::SymbolPicker, candidates, 0);
        p.symbol_entries = symbols;
        p.symbol_submit_behavior = behavior;
        p.update_symbol_preview();
        p
    }
}


/// The score `label` gets for `query`: fzf-style or fuzzy.
pub open spec fn label_score(label: Seq<char>, query: Seq<char>, fzf: bool) -> Option<int> {
    if fzf {
        fzf_score(label, query)
    } else {
        fuzzy_score(label, query)
    }
}

/// `pos` are the positions the matcher reports for `label` and `query`
/// along with `score`.
pub open spec fn positions_ok(label: Seq<char>, query: Seq<char>, fzf: bool, score: i32, pos: Vec<usize>) -> bool {
    if query.len() == 0 {
        pos@.len() == 0
    } else if fzf {
        strict_match(true, label, query) == Some((score as int, ints(pos@)))
    } else {
        match strict_match(false, label, query) {
            Some(m) => (score as int, ints(pos@)) == m,
            None => token_fallback_result(label, query, Some((score, pos))),
        }
    }
}

/// Every row carries the positions the matcher reports for its label.
pub open spec fn positions_match(v: Seq<ScoredCandidate>, query: Seq<char>, fzf: bool) -> bool {
    forall|i: int| 0 <= i < v.len() ==> positions_ok((#[trigger] v[i]).label@, query, fzf, v[i].score, v[i].match_positions)
}

/// The rows whose labels `query` matches, in list order, each with its
/// score and no rank.
pub open spec fn matched_rows(rows: Seq<RowView>, query: Seq<char>, fzf: bool) -> Seq<RankedRow>
    decreases rows.len(),
{
    if rows.len() == 0 {
        Seq::empty()
    } else {
        let prev = matched_rows(rows.drop_last(), query, fzf);
        let r = rows.last();
        match label_score(r.label, query, fzf) {
            Some(sc) => prev.push(RankedRow { rank: None, row: RowView { score: sc, ..r } }),
            None => prev,
        }
    }
}

/// What a list shows for `query`: every row as it is when the query is
/// empty; otherwise the rows it matches, best score first, ties in list
/// order.
pub open spec fn listed(rows: Seq<RowView>, query: Seq<char>, fzf: bool) -> Seq<RowView> {
    if query.len() == 0 {
        rows
    } else {
        unranked(sort_rows(RowOrder::ScoreDescending, matched_rows(rows, query, fzf)))
    }
}

/// Every label is short enough to match.
pub open spec fn labels_fit(v: Seq<ScoredCandidate>) -> bool {
    forall|i: int| 0 <= i < v.len() ==> (#[trigger] v[i]).label@.len() <= MAX_MATCH_CHARS
}

/// The rows of `base` that `query` matches, scored, best first; all of
/// them, untouched, when the query is empty.
pub fn list_rows(
    base: Vec<ScoredCandidate>,
    query: &str,
    fzf: bool,
    Ghost(kind_ok): Ghost<spec_fn(CandidateKind) -> bool>,
) -> (r: Vec<ScoredCandidate>)
    requires
        labels_fit(base@),
        no_positions(base@),
        forall|i: int| 0 <= i < base@.len() ==> kind_ok(#[trigger] base@[i].kind),
    ensures
        cand_views(r@) == listed(cand_views(base@), query@, fzf),
        positions_match(r@, query@, fzf),
        forall|i: int| 0 <= i < r@.len() ==> kind_ok(#[trigger] r@[i].kind),
{
    if query.is_empty() {
        proof {
            assert(query@.len() == 0);
        }
        return base;
    }
    proof {
        assert(query@.len() > 0);
    }
    let ghost b0 = base@;
    let ghost keep = |c: ScoredCandidate| positions_ok(c.label@, query@, fzf, c.score, c.match_positions) && kind_ok(c.kind);
    let mut src = base;
    let mut rows: Vec<(Option<usize>, ScoredCandidate)> = Vec::new();
    let ghost mut n: int = 0;
    proof {
        assert(src@ =~= b0.skip(0));
        assert(cand_views(b0.take(0)) =~= Seq::<RowView>::empty());
    }
    while src.len() > 0
        invariant
            0 <= n <= b0.len(),
            src@ == b0.skip(n),
            labels_fit(b0),
            query@.len() > 0,
            ranked_views(rows@) == matched_rows(cand_views(b0.take(n)), query@, fzf),
            forall|i: int| 0 <= i < rows@.len() ==> keep(#[trigger] rows@[i].1),
            forall|i: int| 0 <= i < b0.len() ==> kind_ok(#[trigger] b0[i].kind),
            keep == (|c: ScoredCandidate| positions_ok(c.label@, query@, fzf, c.score, c.match_positions) && kind_ok(c.kind)),
        decreases src@.len(),
    {
        let c = src.remove(0);
        proof {
            assert(c == b0[n]);
            assert(kind_ok(c.kind));
            assert(cand_views(b0.take(n + 1)).drop_last() =~= cand_views(b0.take(n)));
            assert(cand_views(b0.take(n + 1)).last() == cand_view(c));
        }
        let m = if fzf {
            fzf_style_match(c.label.as_str(), query)
        } else {
            fuzzy_match(c.label.as_str(), query)
        };
        let ghost before = rows@;
        match m {
            Some((score, pos)) => {
                let scored = ScoredCandidate {
                    kind: c.kind,
                    label: c.label,
                    score,
                    match_positions: pos,
                    preview_lines: c.preview_lines,
                };
                proof {
                    assert(keep(scored));
                }
                rows.push((None, scored));
                proof {
                    assert(ranked_views(rows@) =~= ranked_views(before).push(ranked_view((None, scored))));
                    assert(ranked_view((None, scored)) == RankedRow {
                        rank: None,
                        row: RowView { score: score as int, ..cand_view(c) },
                    });
                }
            },
            None => {},
        }
        proof {
            n = n + 1;
            assert(src@ =~= b0.skip(n));
        }
    }
    proof {
        assert(b0.take(n) =~= b0);
    }
    sort_candidates(RowOrder::ScoreDescending, rows, Ghost(keep))
}

/// `sel` kept when it is a row of a list of `len` rows; the last row (or 0)
/// otherwise.
pub open spec fn clamped(sel: usize, len: nat) -> usize {
    if sel >= len {
        if len == 0 {
            0
        } else {
            (len - 1) as usize
        }
    } else {
        sel
    }
}

/// Only the rows and the selection changed.
pub open spec fn same_but_rows(a: Palette, b: Palette) -> bool {
    &&& b.input == a.input
    &&& b.mode == a.mode
    &&& b.scroll_offset == a.scroll_offset
    &&& b.preview_lines == a.preview_lines
    &&& b.jump_target_preview_line == a.jump_target_preview_line
    &&& b.jump_target_char_col == a.jump_target_char_col
    &&& b.last_previewed == a.last_previewed
    &&& b.preview_cache == a.preview_cache
    &&& b.requested_paths == a.requested_paths
    &&& b.preview_requests == a.preview_requests
    &&& b.file_read_request == a.file_read_request
    &&& b.has_preview_worker == a.has_preview_worker
    &&& b.buffer_entries == a.buffer_entries
    &&& b.jump_entries == a.jump_entries
    &&& b.reference_entries == a.reference_entries
    &&& b.git_branch_entries == a.git_branch_entries
    &&& b.symbol_entries == a.symbol_entries
    &&& b.symbol_submit_behavior == a.symbol_submit_behavior
    &&& b.file_entries == a.file_entries
    &&& b.project_root == a.project_root
    &&& b.git_status_map == a.git_status_map
    &&& b.command_history == a.command_history
    &&& b.global_search_entries == a.global_search_entries
    &&& b.has_global_search_worker == a.has_global_search_worker
    &&& b.global_search_generation == a.global_search_generation
    &&& b.global_search_latest_applied == a.global_search_latest_applied
    &&& b.global_search_dirty == a.global_search_dirty
    &&& b.global_search_edits == a.global_search_edits
    &&& b.active_doc_lines == a.active_doc_lines
    &&& b.is_unified == a.is_unified
    &&& b.caller_label == a.caller_label
}

/// Every entry label is short enough to match.
pub open spec fn entry_labels_fit(p: Palette) -> bool {
    &&& forall|i: int| 0 <= i < p.buffer_entries@.len() ==> (#[trigger] p.buffer_entries@[i]).1@.len() <= MAX_MATCH_CHARS
    &&& forall|i: int| 0 <= i < p.jump_entries@.len() ==> (#[trigger] p.jump_entries@[i]).label@.len() <= MAX_MATCH_CHARS
    &&& forall|i: int| 0 <= i < p.reference_entries@.len() ==> (#[trigger] p.reference_entries@[i]).label@.len() <= MAX_MATCH_CHARS
    &&& forall|i: int| 0 <= i < p.git_branch_entries@.len() ==> (#[trigger] p.git_branch_entries@[i]).label@.len() <= MAX_MATCH_CHARS
    &&& forall|i: int| 0 <= i < p.symbol_entries@.len() ==> (#[trigger] p.symbol_entries@[i]).label@.len() <= MAX_MATCH_CHARS
    &&& forall|i: int| 0 <= i < p.file_entries@.len() ==> (#[trigger] p.file_entries@[i])@.len() <= MAX_MATCH_CHARS
}

/// The files' rows for `query`: all of them when it is empty, otherwise
/// those it matches, best first.
pub fn filter_files(file_entries: &Vec<String>, query: &str) -> (r: Vec<ScoredCandidate>)
    requires
        forall|i: int| 0 <= i < file_entries@.len() ==> (#[trigger] file_entries@[i])@.len() <= MAX_MATCH_CHARS,
    ensures
        cand_views(r@) == listed(plain_rows(file_items(file_entries@)), query@, false),
        positions_match(r@, query@, false),
        forall|k: int| 0 <= k < r@.len() ==> ((#[trigger] r@[k]).kind matches CandidateKind::File(i) && i < file_entries@.len()),
{
    let mut kinds: Vec<CandidateKind> = Vec::new();
    let mut labels: Vec<String> = Vec::new();
    let mut i: usize = 0;
    while i < file_entries.len()
        invariant
            i <= file_entries@.len(),
            kinds@.len() == i,
            labels@.len() == i,
            forall|k: int| 0 <= k < i ==> #[trigger] kinds@[k] == CandidateKind::File(k as usize),
            forall|k: int| 0 <= k < i ==> (#[trigger] labels@[k])@ == file_entries@[k]@,
        decreases file_entries@.len() - i,
    {
        kinds.push(CandidateKind::File(i));
        labels.push(file_entries[i].clone());
        i = i + 1;
    }
    proof {
        assert(Seq::new(kinds@.len(), |k: int| (kinds@[k], labels@[k]@)) =~= file_items(file_entries@));
    }
    let base = plain_rows_of_labels(kinds, labels);
    let ghost n = file_entries@.len();
    proof {
        lemma_plain_labels_fit(base@, file_items(file_entries@));
        assert forall|k: int| 0 <= k < base@.len() implies ((#[trigger] base@[k]).kind matches CandidateKind::File(i) && i < n) by {
            assert(cand_views(base@).len() == base@.len());
            assert(cand_views(base@)[k] == plain_rows(file_items(file_entries@))[k]);
            assert(cand_views(base@)[k].kind == base@[k].kind);
            assert(plain_rows(file_items(file_entries@))[k].kind == CandidateKind::File(k as usize));
        }
    }
    list_rows(base, query, false, Ghost(|k: CandidateKind| (k matches CandidateKind::File(i) && i < n)))
}

/// Rows made plain from items with short labels have short labels.
proof fn lemma_plain_labels_fit(v: Seq<ScoredCandidate>, items: Seq<(CandidateKind, Seq<char>)>)
    requires
        cand_views(v) == plain_rows(items),
        forall|i: int| 0 <= i < items.len() ==> (#[trigger] items[i]).1.len() <= MAX_MATCH_CHARS,
    ensures
        labels_fit(v),
{
    assert(cand_views(v).len() == v.len());
    assert(plain_rows(items).len() == items.len());
    assert forall|i: int| 0 <= i < v.len() implies (#[trigger] v[i]).label@.len() <= MAX_MATCH_CHARS by {
        assert(cand_views(v)[i] == plain_rows(items)[i]);
        assert(cand_views(v)[i].label == v[i].label@);
        assert(plain_rows(items)[i].label == items[i].1);
    }
}


/// The buffers as plain rows.
fn buffer_rows(entries: &Vec<(BufferId, String, Vec<String>)>) -> (r: Vec<ScoredCandidate>)
    ensures
        cand_views(r@) == plain_rows(buffer_items(entries@)),
        no_positions(r@),
        (forall|i: int| 0 <= i < entries@.len() ==> (#[trigger] entries@[i]).1@.len() <= MAX_MATCH_CHARS) ==> labels_fit(r@),
{
    let mut kinds: Vec<CandidateKind> = Vec::new();
    let mut labels: Vec<String> = Vec::new();
    let mut i: usize = 0;
    while i < entries.len()
        invariant
            i <= entries@.len(),
            kinds@.len() == i,
            labels@.len() == i,
            forall|k: int| 0 <= k < i ==> kinds@[k] == CandidateKind::Buffer(#[trigger] entries@[k].0),
            forall|k: int| 0 <= k < i ==> (#[trigger] labels@[k])@ == entries@[k].1@,
        decreases entries@.len() - i,
    {
        kinds.push(CandidateKind::Buffer(entries[i].0));
        labels.push(entries[i].1.clone());
        i = i + 1;
    }
    proof {
        assert(Seq::new(kinds@.len(), |k: int| (kinds@[k], labels@[k]@)) =~= buffer_items(entries@));
    }
    let r = plain_rows_of_labels(kinds, labels);
    proof {
        if forall|i: int| 0 <= i < entries@.len() ==> (#[trigger] entries@[i]).1@.len() <= MAX_MATCH_CHARS {
            assert forall|i: int| 0 <= i < buffer_items(entries@).len() implies (#[trigger] buffer_items(entries@)[i]).1.len() <= MAX_MATCH_CHARS by {
                assert(buffer_items(entries@)[i].1 == entries@[i].1@);
            }
            lemma_plain_labels_fit(r@, buffer_items(entries@));
        }
    }
    r
}

/// The jumps as plain rows.
fn jump_rows(entries: &Vec<JumpPickerEntry>) -> (r: Vec<ScoredCandidate>)
    ensures
        cand_views(r@) == plain_rows(jump_items(entries@)),
        no_positions(r@),
        (forall|i: int| 0 <= i < entries@.len() ==> (#[trigger] entries@[i]).label@.len() <= MAX_MATCH_CHARS) ==> labels_fit(r@),
{
    let mut kinds: Vec<CandidateKind> = Vec::new();
    let mut labels: Vec<String> = Vec::new();
    let mut i: usize = 0;
    while i < entries.len()
        invariant
            i <= entries@.len(),
            kinds@.len() == i,
            labels@.len() == i,
            forall|k: int| 0 <= k < i ==> kinds@[k] == CandidateKind::Jump(#[trigger] entries@[k].jump_index),
            forall|k: int| 0 <= k < i ==> (#[trigger] labels@[k])@ == entries@[k].label@,
        decreases entries@.len() - i,
    {
        kinds.push(CandidateKind::Jump(entries[i].jump_index));
        labels.push(entries[i].label.clone());
        i = i + 1;
    }
    proof {
        assert(Seq::new(kinds@.len(), |k: int| (kinds@[k], labels@[k]@)) =~= jump_items(entries@));
    }
    let r = plain_rows_of_labels(kinds, labels);
    proof {
        if forall|i: int| 0 <= i < entries@.len() ==> (#[trigger] entries@[i]).label@.len() <= MAX_MATCH_CHARS {
            assert forall|i: int| 0 <= i < jump_items(entries@).len() implies (#[trigger] jump_items(entries@)[i]).1.len() <= MAX_MATCH_CHARS by {
                assert(jump_items(entries@)[i].1 == entries@[i].label@);
            }
            lemma_plain_labels_fit(r@, jump_items(entries@));
        }
    }
    r
}

/// The references as plain rows.
fn reference_rows(entries: &Vec<ReferencePickerEntry>) -> (r: Vec<ScoredCandidate>)
    ensures
        cand_views(r@) == plain_rows(reference_items(entries@)),
        no_positions(r@),
        (forall|i: int| 0 <= i < entries@.len() ==> (#[trigger] entries@[i]).label@.len() <= MAX_MATCH_CHARS) ==> labels_fit(r@),
{
    let mut kinds: Vec<CandidateKind> = Vec::new();
    let mut labels: Vec<String> = Vec::new();
    let mut i: usize = 0;
    while i < entries.len()
        invariant
            i <= entries@.len(),
            kinds@.len() == i,
            labels@.len() == i,
            forall|k: int| 0 <= k < i ==> #[trigger] kinds@[k] == CandidateKind::Reference(k as usize),
            forall|k: int| 0 <= k < i ==> (#[trigger] labels@[k])@ == entries@[k].label@,
        decreases entries@.len() - i,
    {
        kinds.push(CandidateKind::Reference(i));
        labels.push(entries[i].label.clone());
        i = i + 1;
    }
    proof {
        assert(Seq::new(kinds@.len(), |k: int| (kinds@[k], labels@[k]@)) =~= reference_items(entries@));
    }
    let r = plain_rows_of_labels(kinds, labels);
    proof {
        if forall|i: int| 0 <= i < entries@.len() ==> (#[trigger] entries@[i]).label@.len() <= MAX_MATCH_CHARS {
            assert forall|i: int| 0 <= i < reference_items(entries@).len() implies (#[trigger] reference_items(entries@)[i]).1.len() <= MAX_MATCH_CHARS by {
                assert(reference_items(entries@)[i].1 == entries@[i].label@);
            }
            lemma_plain_labels_fit(r@, reference_items(entries@));
        }
    }
    r
}

/// The branches as plain rows.
fn git_branch_rows(entries: &Vec<GitBranchPickerEntry>) -> (r: Vec<ScoredCandidate>)
    ensures
        cand_views(r@) == plain_rows(git_branch_items(entries@)),
        no_positions(r@),
        (forall|i: int| 0 <= i < entries@.len() ==> (#[trigger] entries@[i]).label@.len() <= MAX_MATCH_CHARS) ==> labels_fit(r@),
{
    let mut kinds: Vec<CandidateKind> = Vec::new();
    let mut labels: Vec<String> = Vec::new();
    let mut i: usize = 0;
    while i < entries.len()
        invariant
            i <= entries@.len(),
            kinds@.len() == i,
            labels@.len() == i,
            forall|k: int| 0 <= k < i ==> #[trigger] kinds@[k] == CandidateKind::GitBranch(k as usize),
            forall|k: int| 0 <= k < i ==> (#[trigger] labels@[k])@ == entries@[k].label@,
        decreases entries@.len() - i,
    {
        kinds.push(CandidateKind::GitBranch(i));
        labels.push(entries[i].label.clone());
        i = i + 1;
    }
    proof {
        assert(Seq::new(kinds@.len(), |k: int| (kinds@[k], labels@[k]@)) =~= git_branch_items(entries@));
    }
    let r = plain_rows_of_labels(kinds, labels);
    proof {
        if forall|i: int| 0 <= i < entries@.len() ==> (#[trigger] entries@[i]).label@.len() <= MAX_MATCH_CHARS {
            assert forall|i: int| 0 <= i < git_branch_items(entries@).len() implies (#[trigger] git_branch_items(entries@)[i]).1.len() <= MAX_MATCH_CHARS by {
                assert(git_branch_items(entries@)[i].1 == entries@[i].label@);
            }
            lemma_plain_labels_fit(r@, git_branch_items(entries@));
        }
    }
    r
}

/// The symbols as plain rows.
fn symbol_rows(entries: &Vec<SymbolEntry>) -> (r: Vec<ScoredCandidate>)
    ensures
        cand_views(r@) == plain_rows(symbol_items(entries@)),
        no_positions(r@),
        forall|k: int| 0 <= k < r@.len() ==> (#[trigger] r@[k]).kind is Symbol,
        (forall|i: int| 0 <= i < entries@.len() ==> (#[trigger] entries@[i]).label@.len() <= MAX_MATCH_CHARS) ==> labels_fit(r@),
{
    let mut kinds: Vec<CandidateKind> = Vec::new();
    let mut labels: Vec<String> = Vec::new();
    let mut i: usize = 0;
    while i < entries.len()
        invariant
            i <= entries@.len(),
            kinds@.len() == i,
            labels@.len() == i,
            forall|k: int| 0 <= k < i ==> #[trigger] kinds@[k] == CandidateKind::Symbol(k as usize),
            forall|k: int| 0 <= k < i ==> (#[trigger] labels@[k])@ == entries@[k].label@,
        decreases entries@.len() - i,
    {
        kinds.push(CandidateKind::Symbol(i));
        labels.push(entries[i].label.clone());
        i = i + 1;
    }
    proof {
        assert(Seq::new(kinds@.len(), |k: int| (kinds@[k], labels@[k]@)) =~= symbol_items(entries@));
    }
    let r = plain_rows_of_labels(kinds, labels);
    proof {
        assert forall|k: int| 0 <= k < r@.len() implies (#[trigger] r@[k]).kind is Symbol by {
            assert(cand_views(r@).len() == r@.len());
            assert(cand_views(r@)[k] == plain_rows(symbol_items(entries@))[k]);
            assert(cand_views(r@)[k].kind == r@[k].kind);
        }
        if forall|i: int| 0 <= i < entries@.len() ==> (#[trigger] entries@[i]).label@.len() <= MAX_MATCH_CHARS {
            assert forall|i: int| 0 <= i < symbol_items(entries@).len() implies (#[trigger] symbol_items(entries@)[i]).1.len() <= MAX_MATCH_CHARS by {
                assert(symbol_items(entries@)[i].1 == entries@[i].label@);
            }
            lemma_plain_labels_fit(r@, symbol_items(entries@));
        }
    }
    r
}

impl Palette {
    /// The input is well formed and every label is short enough to match.
    pub open spec fn wf(self) -> bool {
        self.input.wf() && entry_labels_fit(self)
    }

    /// Replaces the rows, keeping the selection on a row.
    fn set_rows(&mut self, rows: Vec<ScoredCandidate>)
        ensures
            same_but_rows(*old(self), *final(self)),
            final(self).candidates == rows,
            final(self).selected == clamped(old(self).selected, rows@.len()),
    {
        let n = rows.len();
        self.candidates = rows;
        if self.selected >= n {
            self.selected = if n == 0 { 0 } else { n - 1 };
        }
    }

    /// Lists the buffers the input matches, best first.
    pub fn filter_buffer_candidates(&mut self)
        requires
            old(self).wf(),
        ensures
            same_but_rows(*old(self), *final(self)),
            cand_views(final(self).candidates@) == listed(plain_rows(buffer_items(old(self).buffer_entries@)), old(self).input.text@, false),
            positions_match(final(self).candidates@, old(self).input.text@, false),
            final(self).selected == clamped(old(self).selected, final(self).candidates@.len()),
    {
        let base = buffer_rows(&self.buffer_entries);
        let rows = list_rows(base, self.input.text.as_str(), false, Ghost(|k: CandidateKind| true));
        self.set_rows(rows);
    }

    /// Lists the jumps the input matches, best first.
    pub fn filter_jump_candidates(&mut self)
        requires
            old(self).wf(),
        ensures
            same_but_rows(*old(self), *final(self)),
            cand_views(final(self).candidates@) == listed(plain_rows(jump_items(old(self).jump_entries@)), old(self).input.text@, true),
            positions_match(final(self).candidates@, old(self).input.text@, true),
            final(self).selected == clamped(old(self).selected, final(self).candidates@.len()),
    {
        let base = jump_rows(&self.jump_entries);
        let rows = list_rows(base, self.input.text.as_str(), true, Ghost(|k: CandidateKind| true));
        self.set_rows(rows);
    }

    /// Lists the references the input matches, best first.
    pub fn filter_reference_candidates(&mut self)
        requires
            old(self).wf(),
        ensures
            same_but_rows(*old(self), *final(self)),
            cand_views(final(self).candidates@) == listed(plain_rows(reference_items(old(self).reference_entries@)), old(self).input.text@, true),
            positions_match(final(self).candidates@, old(self).input.text@, true),
            final(self).selected == clamped(old(self).selected, final(self).candidates@.len()),
    {
        let base = reference_rows(&self.reference_entries);
        let rows = list_rows(base, self.input.text.as_str(), true, Ghost(|k: CandidateKind| true));
        self.set_rows(rows);
    }

    /// Lists the branches the input matches, best first.
    pub fn filter_git_branch_candidates(&mut self)
        requires
            old(self).wf(),
        ensures
            same_but_rows(*old(self), *final(self)),
            cand_views(final(self).candidates@) == listed(plain_rows(git_branch_items(old(self).git_branch_entries@)), old(self).input.text@, true),
            positions_match(final(self).candidates@, old(self).input.text@, true),
            final(self).selected == clamped(old(self).selected, final(self).candidates@.len()),
    {
        let base = git_branch_rows(&self.git_branch_entries);
        let rows = list_rows(base, self.input.text.as_str(), true, Ghost(|k: CandidateKind| true));
        self.set_rows(rows);
    }

    /// Lists the symbols `query` matches, best first.
    pub fn filter_symbol_candidates_with_query(&mut self, query: &str)
        requires
            old(self).wf(),
        ensures
            same_but_rows(*old(self), *final(self)),
            cand_views(final(self).candidates@) == listed(plain_rows(symbol_items(old(self).symbol_entries@)), query@, true),
            positions_match(final(self).candidates@, query@, true),
            final(self).selected == clamped(old(self).selected, final(self).candidates@.len()),
            forall|k: int| 0 <= k < final(self).candidates@.len() ==> (#[trigger] final(self).candidates@[k]).kind is Symbol,
    {
        let base = symbol_rows(&self.symbol_entries);
        let rows = list_rows(base, query, true, Ghost(|k: CandidateKind| k is Symbol));
        self.set_rows(rows);
    }

    /// Lists the symbols the input matches, best first.
    pub fn filter_symbol_candidates(&mut self)
        requires
            old(self).wf(),
        ensures
            same_but_rows(*old(self), *final(self)),
            cand_views(final(self).candidates@) == listed(plain_rows(symbol_items(old(self).symbol_entries@)), old(self).input.text@, true),
            positions_match(final(self).candidates@, old(self).input.text@, true),
            final(self).selected == clamped(old(self).selected, final(self).candidates@.len()),
    {
        let query = self.input.text.clone();
        self.filter_symbol_candidates_with_query(query.as_str());
    }
}


/// The two settings whose commands are labelled by their current value.
#[derive(Debug, Clone, Copy)]
pub struct DisplayToggles {
    pub debug: bool,
    pub show_line_number: bool,
}

/// The label a command shows: the toggles offer the opposite of their
/// current value; every other command shows its own label.
pub open spec fn display_label(e: CommandEntry, t: DisplayToggles) -> Seq<char> {
    if e.id@ == "config.toggle_debug"@ {
        if t.debug {
            "Hide Debug"@
        } else {
            "Show Debug"@
        }
    } else if e.id@ == "config.toggle_line_numbers"@ {
        if t.show_line_number {
            "Hide Line Number"@
        } else {
            "Show Line Number"@
        }
    } else {
        e.label@
    }
}

/// The label `entry` shows in the palette.
pub fn command_display_label(entry: &CommandEntry, toggles: &DisplayToggles) -> (r: String)
    ensures
        r@ == display_label(*entry, *toggles),
{
    if str_eq(entry.id.as_str(), "config.toggle_debug") {
        if toggles.debug {
            owned("Hide Debug")
        } else {
            owned("Show Debug")
        }
    } else if str_eq(entry.id.as_str(), "config.toggle_line_numbers") {
        if toggles.show_line_number {
            owned("Hide Line Number")
        } else {
            owned("Show Line Number")
        }
    } else {
        entry.label.clone()
    }
}

/// A command's preview: its label, its category when it has one and its
/// identifier; the version command adds the version text it copies.
pub open spec fn command_preview(e: CommandEntry, label: Seq<char>, version: Seq<char>) -> Seq<Seq<char>> {
    let head = seq!["Command: "@ + label] + match e.category {
        Some(c) => seq!["Category: "@ + c@],
        None => Seq::empty(),
    } + seq!["ID: "@ + e.id@];
    if e.id@ == "core.copy_gargo_version"@ {
        head + seq![
            ""@,
            "Version Preview:"@,
            version,
            "Gargo is a Rust terminal text editor with modal editing, multi-buffer, and Tree-sitter highlighting."@,
            "Executes: copy version info to system clipboard."@
        ]
    } else {
        head
    }
}

/// `a` followed by `b`, as a new string.
fn joined(a: &str, b: &str) -> (r: String)
    ensures
        r@ == a@ + b@,
{
    let mut r = owned(a);
    push_str(&mut r, b);
    r
}

/// The preview lines of `entry`, shown as `display_label`.
pub fn command_preview_lines(entry: &CommandEntry, display_label: &str, version_info: &str) -> (r: Vec<String>)
    ensures
        string_views(r@) == command_preview(*entry, display_label@, version_info@),
{
    let mut lines: Vec<String> = Vec::new();
    lines.push(joined("Command: ", display_label));
    match &entry.category {
        Some(c) => lines.push(joined("Category: ", c.as_str())),
        None => {},
    }
    lines.push(joined("ID: ", entry.id.as_str()));
    let ghost head = string_views(lines@);
    proof {
        assert(head =~= seq!["Command: "@ + display_label@] + match entry.category {
            Some(c) => seq!["Category: "@ + c@],
            None => Seq::<Seq<char>>::empty(),
        } + seq!["ID: "@ + entry.id@]);
    }
    if str_eq(entry.id.as_str(), "core.copy_gargo_version") {
        let ghost before = lines@;
        lines.push(String::new());
        lines.push(owned("Version Preview:"));
        lines.push(owned(version_info));
        lines.push(
            owned(
                "Gargo is a Rust terminal text editor with modal editing, multi-buffer, and Tree-sitter highlighting.",
            ),
        );
        lines.push(owned("Executes: copy version info to system clipboard."));
        proof {
            reveal_strlit("");
            assert(lines@[before.len() as int]@ =~= ""@);
            assert(string_views(lines@) =~= head + seq![
                ""@,
                "Version Preview:"@,
                version_info@,
                "Gargo is a Rust terminal text editor with modal editing, multi-buffer, and Tree-sitter highlighting."@,
                "Executes: copy version info to system clipboard."@
            ]);
        }
    }
    lines
}

/// The last position of `id` among the recently run identifiers.
pub open spec fn rank_in(recent: Seq<Seq<char>>, id: Seq<char>) -> Option<int>
    decreases recent.len(),
{
    if recent.len() == 0 {
        None
    } else if recent.last() == id {
        Some(recent.len() - 1)
    } else {
        rank_in(recent.drop_last(), id)
    }
}

/// The last position of `id` in `recent`.
fn rank_of(recent: &Vec<String>, id: &str) -> (r: Option<usize>)
    ensures
        match r {
            None => rank_in(string_views(recent@), id@) is None,
            Some(j) => rank_in(string_views(recent@), id@) == Some(j as int),
        },
{
    let ghost v = string_views(recent@);
    let mut r: Option<usize> = None;
    let mut i: usize = 0;
    while i < recent.len()
        invariant
            i <= recent@.len(),
            v == string_views(recent@),
            match r {
                None => rank_in(v.take(i as int), id@) is None,
                Some(j) => rank_in(v.take(i as int), id@) == Some(j as int),
            },
        decreases recent@.len() - i,
    {
        proof {
            assert(v.take(i + 1).drop_last() =~= v.take(i as int));
            assert(v.take(i + 1).last() == recent@[i as int]@);
        }
        if str_eq(recent[i].as_str(), id) {
            r = Some(i);
        }
        i = i + 1;
    }
    proof {
        assert(v.take(i as int) =~= v);
    }
    r
}

/// The registered commands as rows, in registration order.
pub open spec fn command_rows(e: Seq<CommandEntry>, version: Seq<char>, t: DisplayToggles) -> Seq<RowView> {
    Seq::new(
        e.len(),
        |i: int| RowView {
            kind: CandidateKind::Command(i as usize),
            label: display_label(e[i], t),
            score: 0,
            preview: command_preview(e[i], display_label(e[i], t), version),
        },
    )
}

/// The recently run identifiers, as character sequences.
pub open spec fn history_view(h: Option<&Vec<String>>) -> Option<Seq<Seq<char>>> {
    match h {
        Some(v) => Some(string_views(v@)),
        None => None,
    }
}

/// Each command row with the rank of its command in the history.
pub open spec fn command_ranks(e: Seq<CommandEntry>, history: Option<Seq<Seq<char>>>, rows: Seq<RowView>) -> Seq<RankedRow> {
    Seq::new(
        rows.len(),
        |i: int| RankedRow {
            rank: match history {
                Some(h) => rank_in(h, e[i].id@),
                None => None,
            },
            row: rows[i],
        },
    )
}

/// What the command list shows for `query`: with an empty query every
/// command, the recently run ones first (most recent first) and the others
/// by label; otherwise the commands the query matches, best first.
pub open spec fn listed_commands(
    e: Seq<CommandEntry>,
    version: Seq<char>,
    t: DisplayToggles,
    query: Seq<char>,
    history: Option<Seq<Seq<char>>>,
) -> Seq<RowView> {
    let rows = command_rows(e, version, t);
    if query.len() == 0 {
        unranked(sort_rows(RowOrder::RankThenLabel, command_ranks(e, history, rows)))
    } else {
        listed(rows, query, false)
    }
}

/// Every command label is short enough to match.
pub open spec fn commands_fit(e: Seq<CommandEntry>) -> bool {
    forall|i: int| 0 <= i < e.len() ==> (#[trigger] e[i]).label@.len() <= MAX_MATCH_CHARS
}

/// The commands' rows for `query`, in the order the palette lists them.
pub fn filter_commands(
    registry: &CommandRegistry,
    query: &str,
    history: Option<&Vec<String>>,
    toggles: &DisplayToggles,
) -> (r: Vec<ScoredCandidate>)
    requires
        commands_fit(registry.entries@),
    ensures
        cand_views(r@) == listed_commands(registry.entries@, registry.version_info@, *toggles, query@, history_view(history)),
        positions_match(r@, query@, false),
        forall|k: int| 0 <= k < r@.len() ==> (#[trigger] r@[k]).kind is Command,
{
    let entries = registry.commands();
    let ghost rows = command_rows(entries@, registry.version_info@, *toggles);
    let mut base: Vec<ScoredCandidate> = Vec::new();
    let mut i: usize = 0;
    proof {
        reveal_strlit("Hide Debug");
        reveal_strlit("Show Debug");
        reveal_strlit("Hide Line Number");
        reveal_strlit("Show Line Number");
    }
    while i < entries.len()
        invariant
            i <= entries@.len(),
            entries@ == registry.entries@,
            rows == command_rows(entries@, registry.version_info@, *toggles),
            commands_fit(entries@),
            cand_views(base@) == rows.take(i as int),
            no_positions(base@),
            labels_fit(base@),
            forall|k: int| 0 <= k < base@.len() ==> (#[trigger] base@[k]).kind is Command,
            "Hide Debug"@.len() <= MAX_MATCH_CHARS,
            "Show Debug"@.len() <= MAX_MATCH_CHARS,
            "Hide Line Number"@.len() <= MAX_MATCH_CHARS,
            "Show Line Number"@.len() <= MAX_MATCH_CHARS,
        decreases entries@.len() - i,
    {
        let label = command_display_label(&entries[i], toggles);
        let preview = command_preview_lines(&entries[i], label.as_str(), registry.version_info.as_str());
        let c = ScoredCandidate {
            kind: CandidateKind::Command(i),
            label,
            score: 0,
            match_positions: Vec::new(),
            preview_lines: preview,
        };
        let ghost before = base@;
        base.push(c);
        proof {
            assert(cand_views(base@) =~= cand_views(before).push(cand_view(c)));
            assert(rows.take(i + 1) =~= rows.take(i as int).push(rows[i as int]));
            assert(c.label@.len() <= MAX_MATCH_CHARS) by {
                assert(entries@[i as int].label@.len() <= MAX_MATCH_CHARS);
            }
        }
        i = i + 1;
    }
    proof {
        assert(rows.take(i as int) =~= rows);
    }
    if query.is_empty() {
        let mut ranked: Vec<(Option<usize>, ScoredCandidate)> = Vec::new();
        let ghost b0 = base@;
        let mut src = base;
        let ghost keep = |c: ScoredCandidate| c.match_positions@.len() == 0 && c.kind is Command;
        while src.len() > 0
            invariant
                ranked@.len() + src@.len() == b0.len(),
                src@ == b0.skip(ranked@.len() as int),
                b0.len() == entries@.len(),
                cand_views(b0) == rows,
                rows == command_rows(entries@, registry.version_info@, *toggles),
                ranked_views(ranked@) == command_ranks(entries@, history_view(history), rows).take(ranked@.len() as int),
                no_positions(b0),
                forall|k: int| 0 <= k < b0.len() ==> (#[trigger] b0[k]).kind is Command,
                forall|k: int| 0 <= k < ranked@.len() ==> keep(#[trigger] ranked@[k].1),
                keep == (|c: ScoredCandidate| c.match_positions@.len() == 0 && c.kind is Command),
            decreases src@.len(),
        {
            let k = ranked.len();
            let c = src.remove(0);
            proof {
                assert(c == b0[k as int]);
                assert(cand_views(b0)[k as int] == cand_view(c));
            }
            let rank = match history {
                Some(h) => rank_of(h, entries[k].id.as_str()),
                None => None,
            };
            let ghost before = ranked@;
            ranked.push((rank, c));
            proof {
                assert(ranked_views(ranked@) =~= ranked_views(before).push(ranked_view((rank, c))));
                let cr = command_ranks(entries@, history_view(history), rows);
                assert(cr.take(k + 1) =~= cr.take(k as int).push(cr[k as int]));
                assert(src@ =~= b0.skip(k + 1));
            }
        }
        proof {
            let cr = command_ranks(entries@, history_view(history), rows);
            assert(cr.take(ranked@.len() as int) =~= cr);
        }
        sort_candidates(RowOrder::RankThenLabel, ranked, Ghost(keep))
    } else {
        list_rows(base, query, false, Ghost(|k: CandidateKind| k is Command))
    }
}


/// `s` without its first character.
pub open spec fn after_first(s: Seq<char>) -> Seq<char> {
    if s.len() > 0 {
        s.skip(1)
    } else {
        s
    }
}

/// `decimal_chars(n)`, right-aligned in five columns.
pub open spec fn pad5(n: nat) -> Seq<char> {
    let d = decimal_chars(n);
    if d.len() < 5 {
        Seq::new((5 - d.len()) as nat, |i: int| ' ') + d
    } else {
        d
    }
}

/// A document line as the go-to-line preview shows it: its 1-based number
/// right-aligned in five columns, a bar, then the text.
pub open spec fn numbered_doc_line(n: nat, text: Seq<char>) -> Seq<char> {
    pad5(n) + " | "@ + text
}

/// The go-to-line preview of `p`, from `cur`: up to five lines before and
/// after the target line (the last line when the number is past the end),
/// aimed at the target; nothing when the input after its first character
/// is not a positive number or the document is empty.
pub open spec fn goto_previewed(p: Palette, cur: PreviewView) -> PreviewView {
    let none = PreviewView { lines: Seq::empty(), target_line: None, target_col: None, last: cur.last };
    let doc = p.active_doc_lines@;
    match parsed_usize(trimmed(after_first(p.input.text@))) {
        Some(n) => if n > 0 && doc.len() > 0 {
            let t = if n - 1 < doc.len() - 1 { n - 1 } else { doc.len() - 1 };
            let start = if t >= 5 { t - 5 } else { 0 };
            let end = if t + 6 < doc.len() { t + 6 } else { doc.len() as int };
            PreviewView {
                lines: Seq::new((end - start) as nat, |k: int| numbered_doc_line((start + k + 1) as nat, doc[start + k]@)),
                target_line: Some((t - start) as usize),
                target_col: Some(0),
                last: cur.last,
            }
        } else {
            none
        },
        None => none,
    }
}

/// `n` in decimal, right-aligned in five columns.
fn padded_number(n: usize) -> (r: String)
    ensures
        r@ == pad5(n as nat),
{
    let digits = u64_to_decimal(n as u64);
    let d = str_chars(digits.as_str());
    let mut r = String::new();
    if d.len() < 5 {
        let mut k: usize = 0;
        while k < 5 - d.len()
            invariant
                d@ == decimal_chars(n as nat),
                d@.len() < 5,
                k <= 5 - d@.len(),
                r@ == Seq::new(k as nat, |i: int| ' '),
            decreases 5 - d@.len() - k,
        {
            crate::std_calls::string_push(&mut r, ' ');
            k = k + 1;
            proof {
                assert(r@ =~= Seq::new(k as nat, |i: int| ' '));
            }
        }
    }
    push_str(&mut r, digits.as_str());
    proof {
        if d@.len() >= 5 {
            assert(r@ =~= decimal_chars(n as nat));
        }
    }
    r
}

/// The paths the preview cache holds, in order.
pub open spec fn cache_keys(c: Seq<(String, Vec<String>)>) -> Seq<Seq<char>> {
    c.map_values(|e: (String, Vec<String>)| e.0@)
}

/// Index of the first cached preview of `key`.
pub open spec fn cache_index(c: Seq<(String, Vec<String>)>, key: Seq<char>) -> Option<int>
    decreases c.len(),
{
    if c.len() == 0 {
        None
    } else {
        match cache_index(c.drop_last(), key) {
            Some(k) => Some(k),
            None => if c.last().0@ == key {
                Some(c.len() - 1)
            } else {
                None
            },
        }
    }
}

proof fn lemma_cache_index_prefix(c: Seq<(String, Vec<String>)>, key: Seq<char>, n: int)
    requires
        0 <= n <= c.len(),
        cache_index(c.take(n), key) is Some,
    ensures
        cache_index(c, key) == cache_index(c.take(n), key),
    decreases c.len(),
{
    if c.len() > n {
        assert(c.drop_last().take(n) =~= c.take(n));
        lemma_cache_index_prefix(c.drop_last(), key, n);
    } else {
        assert(c.take(n) =~= c);
    }
}

proof fn lemma_cache_index_none(c: Seq<(String, Vec<String>)>, key: Seq<char>)
    ensures
        cache_index(c, key) is None <==> !cache_keys(c).contains(key),
        cache_index(c, key) matches Some(k) ==> 0 <= k < c.len() && c[k].0@ == key,
    decreases c.len(),
{
    if c.len() > 0 {
        let d = c.drop_last();
        lemma_cache_index_none(d, key);
        assert(cache_keys(c) =~= cache_keys(d).push(c.last().0@));
        match cache_index(d, key) {
            Some(k) => {
                assert(d[k] == c[k]);
                assert(cache_keys(c)[k] == key);
            },
            None => {
                if c.last().0@ == key {
                    assert(cache_keys(c)[c.len() - 1] == key);
                } else {
                    if cache_keys(c).contains(key) {
                        let j = choose|j: int| 0 <= j < cache_keys(c).len() && cache_keys(c)[j] == key;
                        if j < c.len() - 1 {
                            assert(cache_keys(d)[j] == key);
                        }
                    }
                }
            },
        }
    }
}

/// The path of the file that row `k` of `cands` stands for, if it stands
/// for one of `files`.
pub open spec fn row_file(cands: Seq<ScoredCandidate>, files: Seq<String>, k: int) -> Option<Seq<char>> {
    match cands[k].kind {
        CandidateKind::File(i) => Some(files[i as int]@),
        _ => None,
    }
}

/// Every file row stands for one of the files.
pub open spec fn files_in_range(p: Palette) -> bool {
    forall|k: int| 0 <= k < p.candidates@.len() ==> match (#[trigger] p.candidates@[k]).kind {
        CandidateKind::File(i) => i < p.file_entries@.len(),
        _ => true,
    }
}

/// The paths of rows `k..end` to ask the worker for, given the cached
/// paths and the paths `req` already asked for: those neither cached nor
/// asked for, once each.
pub open spec fn paths_to_request(
    cands: Seq<ScoredCandidate>,
    files: Seq<String>,
    cached: Seq<Seq<char>>,
    k: int,
    end: int,
    req: Seq<Seq<char>>,
) -> Seq<Seq<char>>
    decreases end - k,
{
    if k >= end {
        Seq::empty()
    } else {
        match row_file(cands, files, k) {
            Some(rel) => if cached.contains(rel) || req.contains(rel) {
                paths_to_request(cands, files, cached, k + 1, end, req)
            } else {
                seq![rel] + paths_to_request(cands, files, cached, k + 1, end, req.push(rel))
            },
            None => paths_to_request(cands, files, cached, k + 1, end, req),
        }
    }
}

/// The files near the selection to preview in the background: the rows
/// from five before the selection to fifteen after it, when there is a
/// worker.
pub open spec fn nearby_paths(p: Palette) -> Seq<Seq<char>> {
    let n = p.candidates@.len();
    if !p.has_preview_worker || n == 0 {
        Seq::empty()
    } else {
        let start = if p.selected >= 5 { p.selected - 5 } else { 0 };
        let end = if p.selected + 15 < n { p.selected + 15 } else { n as int };
        paths_to_request(
            p.candidates@,
            p.file_entries@,
            cache_keys(p.preview_cache@),
            start,
            end,
            string_views(p.requested_paths@),
        )
    }
}

/// Only the preview and the preview requests changed.
pub open spec fn same_but_file_preview(a: Palette, b: Palette) -> bool {
    &&& b.input == a.input
    &&& b.mode == a.mode
    &&& b.candidates == a.candidates
    &&& b.selected == a.selected
    &&& b.scroll_offset == a.scroll_offset
    &&& b.has_preview_worker == a.has_preview_worker
    &&& b.buffer_entries == a.buffer_entries
    &&& b.jump_entries == a.jump_entries
    &&& b.reference_entries == a.reference_entries
    &&& b.git_branch_entries == a.git_branch_entries
    &&& b.symbol_entries == a.symbol_entries
    &&& b.symbol_submit_behavior == a.symbol_submit_behavior
    &&& b.file_entries == a.file_entries
    &&& b.project_root == a.project_root
    &&& b.git_status_map == a.git_status_map
    &&& b.command_history == a.command_history
    &&& b.global_search_entries == a.global_search_entries
    &&& b.has_global_search_worker == a.has_global_search_worker
    &&& b.global_search_generation == a.global_search_generation
    &&& b.global_search_latest_applied == a.global_search_latest_applied
    &&& b.global_search_dirty == a.global_search_dirty
    &&& b.global_search_edits == a.global_search_edits
    &&& b.active_doc_lines == a.active_doc_lines
    &&& b.is_unified == a.is_unified
    &&& b.caller_label == a.caller_label
}

/// `b` asked the worker for the nearby paths of `a`.
pub open spec fn scheduled(a: Palette, b: Palette) -> bool {
    &&& string_views(b.requested_paths@) == string_views(a.requested_paths@) + nearby_paths(a)
    &&& string_views(b.preview_requests@) == string_views(a.preview_requests@) + nearby_paths(a)
}

/// The selected row's file, if the selected row stands for a file.
pub open spec fn selected_file(p: Palette) -> Option<Seq<char>> {
    if p.selected < p.candidates@.len() {
        row_file(p.candidates@, p.file_entries@, p.selected as int)
    } else {
        None
    }
}

/// Nothing is marked as previewed.
pub open spec fn forgets_previews(b: Palette) -> bool {
    &&& nothing_previewed(b.last_previewed)
    &&& b.jump_target_preview_line is None
    &&& b.jump_target_char_col is None
}

/// What the file finder's preview does from `a` to `b`: the selected file's
/// cached lines, or a read of it when it is not cached; the nearby files are
/// asked for unless a read is pending.
pub open spec fn file_preview_step(a: Palette, b: Palette) -> bool {
    &&& same_but_file_preview(a, b)
    &&& b.preview_cache == a.preview_cache
    &&& forgets_previews(b)
    &&& match selected_file(a) {
        Some(rel) => match cache_index(a.preview_cache@, rel) {
            Some(k) => {
                &&& string_views(b.preview_lines@) == string_views(a.preview_cache@[k].1@)
                &&& scheduled(a, b)
                &&& b.file_read_request == a.file_read_request
            },
            None => {
                &&& b.preview_lines@.len() == 0
                &&& b.file_read_request matches Some(r) && r@ == rel
                &&& b.requested_paths == a.requested_paths
                &&& b.preview_requests == a.preview_requests
            },
        },
        None => {
            &&& b.preview_lines@.len() == 0
            &&& scheduled(a, b)
            &&& b.file_read_request == a.file_read_request
        },
    }
}

/// The preview of `p` for every mode but the file finder's.
pub open spec fn previewed(p: Palette) -> PreviewView {
    let cur = PreviewView { lines: Seq::empty(), target_line: None, target_col: None, last: p.last_previewed };
    match p.mode {
        PaletteMode::GotoLine => goto_previewed(p, cur),
        PaletteMode::BufferPicker => buffer_previewed(p, cur),
        PaletteMode::JumpPicker => jump_previewed(p, cur),
        PaletteMode::ReferencePicker => reference_previewed(p, cur),
        PaletteMode::GitBranchPicker => git_branch_previewed(p, cur),
        PaletteMode::SymbolPicker => symbol_previewed(p, cur),
        _ => PreviewView {
            lines: if p.selected < p.candidates@.len() {
                string_views(p.candidates@[p.selected as int].preview_lines@)
            } else {
                Seq::empty()
            },
            ..cur
        },
    }
}

/// What `update_preview` does from `a` to `b`.
pub open spec fn preview_step(a: Palette, b: Palette) -> bool {
    if a.mode == PaletteMode::FileFinder {
        file_preview_step(a, b)
    } else {
        same_but_preview(a, b) && preview_of(b) == previewed(a)
    }
}

impl Palette {
    /// Shows up to five document lines around the line the input names.
    fn update_goto_line_preview(&mut self)
        ensures
            same_but_preview(*old(self), *final(self)),
            preview_of(*final(self)) == goto_previewed(*old(self), preview_of(*old(self))),
    {
        self.clear_preview();
        let chars = str_chars(self.input.text.as_str());
        let mut rest = String::new();
        let mut i: usize = 1;
        proof {
            assert(chars@.skip(1).take(0) =~= Seq::<char>::empty());
        }
        while i < chars.len()
            invariant
                1 <= i,
                chars@ == old(self).input.text@,
                i <= chars@.len() || chars@.len() == 0,
                chars@.len() > 0 ==> rest@ == chars@.skip(1).take(i - 1),
                chars@.len() == 0 ==> rest@.len() == 0,
            decreases chars@.len() - i,
        {
            crate::std_calls::string_push(&mut rest, chars[i]);
            proof {
                assert(rest@ =~= chars@.skip(1).take(i as int));
            }
            i = i + 1;
        }
        proof {
            if chars@.len() > 0 {
                assert(chars@.skip(1).take(i - 1) =~= chars@.skip(1));
            }
            assert(rest@ =~= after_first(old(self).input.text@));
        }
        let arg = trim(rest.as_str());
        let n = match parse_usize(arg.as_str()) {
            Some(n) => n,
            None => return,
        };
        let total = self.active_doc_lines.len();
        if n == 0 || total == 0 {
            return;
        }
        let t = if n - 1 < total - 1 { n - 1 } else { total - 1 };
        let start = if t >= 5 { t - 5 } else { 0 };
        let end = if total - t > 6 { t + 6 } else { total };
        let ghost doc = self.active_doc_lines@;
        let mut lines: Vec<String> = Vec::new();
        let mut k = start;
        while k < end
            invariant
                start <= k <= end,
                end <= total,
                total == doc.len(),
                doc == self.active_doc_lines@,
                string_views(lines@) == Seq::new((k - start) as nat, |j: int| numbered_doc_line((start + j + 1) as nat, doc[start + j]@)),
            decreases end - k,
        {
            let mut line = padded_number(k + 1);
            push_str(&mut line, " | ");
            push_str(&mut line, self.active_doc_lines[k].as_str());
            let ghost before = lines@;
            proof {
                assert(line@ == numbered_doc_line((k + 1) as nat, doc[k as int]@));
            }
            lines.push(line);
            proof {
                let want = Seq::new((k + 1 - start) as nat, |j: int| numbered_doc_line((start + j + 1) as nat, doc[start + j]@));
                assert(string_views(lines@) =~= string_views(before).push(line@));
                assert(want =~= Seq::new((k - start) as nat, |j: int| numbered_doc_line((start + j + 1) as nat, doc[start + j]@)).push(line@));
                assert(string_views(lines@) =~= want);
            }
            k = k + 1;
        }
        self.preview_lines = lines;
        self.jump_target_preview_line = Some(t - start);
        self.jump_target_char_col = Some(0);
    }

    /// Index of the cached preview of `key`.
    fn find_cached(&self, key: &str) -> (r: Option<usize>)
        ensures
            match r {
                None => cache_index(self.preview_cache@, key@) is None,
                Some(i) => i < self.preview_cache@.len() && cache_index(self.preview_cache@, key@) == Some(i as int),
            },
    {
        let mut i: usize = 0;
        while i < self.preview_cache.len()
            invariant
                i <= self.preview_cache@.len(),
                cache_index(self.preview_cache@.take(i as int), key@) is None,
            decreases self.preview_cache@.len() - i,
        {
            proof {
                assert(self.preview_cache@.take(i + 1).drop_last() =~= self.preview_cache@.take(i as int));
            }
            if str_eq(self.preview_cache[i].0.as_str(), key) {
                proof {
                    assert(cache_index(self.preview_cache@.take(i + 1), key@) == Some(i as int));
                    lemma_cache_index_prefix(self.preview_cache@, key@, i + 1);
                }
                return Some(i);
            }
            i = i + 1;
        }
        proof {
            assert(self.preview_cache@.take(i as int) =~= self.preview_cache@);
        }
        None
    }

    /// Whether `key` was asked for already.
    fn requested(&self, key: &str) -> (r: bool)
        ensures
            r == string_views(self.requested_paths@).contains(key@),
    {
        let ghost v = string_views(self.requested_paths@);
        let mut i: usize = 0;
        while i < self.requested_paths.len()
            invariant
                i <= self.requested_paths@.len(),
                v == string_views(self.requested_paths@),
                forall|j: int| 0 <= j < i ==> v[j] != key@,
            decreases self.requested_paths@.len() - i,
        {
            if str_eq(self.requested_paths[i].as_str(), key) {
                proof {
                    assert(v[i as int] == key@);
                }
                return true;
            }
            i = i + 1;
        }
        false
    }

    /// Asks the worker for the files near the selection that are neither
    /// cached nor asked for yet.
    fn schedule_nearby_previews(&mut self)
        requires
            files_in_range(*old(self)),
        ensures
            same_but_file_preview(*old(self), *final(self)),
            final(self).preview_cache == old(self).preview_cache,
            final(self).preview_lines == old(self).preview_lines,
            final(self).jump_target_preview_line == old(self).jump_target_preview_line,
            final(self).jump_target_char_col == old(self).jump_target_char_col,
            final(self).last_previewed == old(self).last_previewed,
            final(self).file_read_request == old(self).file_read_request,
            scheduled(*old(self), *final(self)),
    {
        let n = self.candidates.len();
        let start = if self.selected >= 5 { self.selected - 5 } else { 0 };
        let end = if self.selected < n && n - self.selected > 15 { self.selected + 15 } else { n };
        if !self.has_preview_worker || n == 0 || start >= end {
            proof {
                if self.has_preview_worker && n > 0 {
                    assert(paths_to_request(
                        self.candidates@,
                        self.file_entries@,
                        cache_keys(self.preview_cache@),
                        start as int,
                        end as int,
                        string_views(self.requested_paths@),
                    ) =~= Seq::<Seq<char>>::empty());
                }
                assert(string_views(self.requested_paths@) =~= string_views(self.requested_paths@) + Seq::<Seq<char>>::empty());
                assert(string_views(self.preview_requests@) =~= string_views(self.preview_requests@) + Seq::<Seq<char>>::empty());
            }
            return;
        }
        let ghost p0 = *self;
        let ghost cands = p0.candidates@;
        let ghost files = p0.file_entries@;
        let ghost cached = cache_keys(p0.preview_cache@);
        let ghost req0 = string_views(self.requested_paths@);
        let ghost out0 = string_views(self.preview_requests@);
        let ghost mut added: Seq<Seq<char>> = Seq::empty();
        proof {
            assert(req0 + added =~= req0);
            assert(added + paths_to_request(cands, files, cached, start as int, end as int, req0 + added) =~= paths_to_request(cands, files, cached, start as int, end as int, req0));
            assert(nearby_paths(p0) == paths_to_request(cands, files, cached, start as int, end as int, req0));
            assert(string_views(self.requested_paths@) =~= req0 + added);
            assert(string_views(self.preview_requests@) =~= out0 + added);
        }
        let mut k = start;
        while k < end
            invariant
                start <= k <= end <= n,
                n == cands.len(),
                cands == p0.candidates@,
                files == p0.file_entries@,
                cached == cache_keys(p0.preview_cache@),
                files_in_range(p0),
                same_but_file_preview(p0, *self),
                self.preview_cache == p0.preview_cache,
                self.preview_lines == p0.preview_lines,
                self.jump_target_preview_line == p0.jump_target_preview_line,
                self.jump_target_char_col == p0.jump_target_char_col,
                self.last_previewed == p0.last_previewed,
                self.file_read_request == p0.file_read_request,
                string_views(self.requested_paths@) == req0 + added,
                string_views(self.preview_requests@) == out0 + added,
                added + paths_to_request(cands, files, cached, k as int, end as int, req0 + added)
                    == paths_to_request(cands, files, cached, start as int, end as int, req0),
            decreases end - k,
        {
            let kind = self.candidates[k].kind;
            match kind {
                CandidateKind::File(i) => {
                    proof {
                        assert(i < files.len());
                        assert(row_file(cands, files, k as int) == Some(files[i as int]@));
                    }
                    let rel = self.file_entries[i].clone();
                    let cached_at = self.find_cached(rel.as_str());
                    let asked = self.requested(rel.as_str());
                    proof {
                        lemma_cache_index_none(p0.preview_cache@, rel@);
                    }
                    if cached_at.is_none() && !asked {
                        let ghost a0 = added;
                        let ghost rv = rel@;
                        let ghost r1 = self.requested_paths@;
                        let ghost o1 = self.preview_requests@;
                        self.requested_paths.push(rel.clone());
                        self.preview_requests.push(rel);
                        proof {
                            added = added.push(rv);
                            assert(string_views(self.requested_paths@) =~= string_views(r1).push(rv));
                            assert(string_views(self.preview_requests@) =~= string_views(o1).push(rv));
                            assert(string_views(self.requested_paths@) =~= req0 + added);
                            assert(string_views(self.preview_requests@) =~= out0 + added);
                            assert((req0 + a0).push(rv) =~= req0 + added);
                            assert(added + paths_to_request(cands, files, cached, k + 1, end as int, req0 + added) =~= a0 + (seq![rv] + paths_to_request(cands, files, cached, k + 1, end as int, (req0 + a0).push(rv))));
                        }
                    }
                },
                _ => {
                    proof {
                        assert(row_file(cands, files, k as int) is None);
                    }
                },
            }
            k = k + 1;
        }
        proof {
            assert(paths_to_request(cands, files, cached, end as int, end as int, req0 + added) =~= Seq::<Seq<char>>::empty());
            assert(added + Seq::<Seq<char>>::empty() =~= added);
        }
    }

    /// Refreshes the preview for the selected row.
    pub fn update_preview(&mut self)
        requires
            files_in_range(*old(self)),
        ensures
            preview_step(*old(self), *final(self)),
    {
        let ghost a = *old(self);
        match self.mode {
            PaletteMode::FileFinder => {},
            _ => {
                self.clear_preview();
                let ghost mid = *self;
                proof {
                    assert(preview_of(mid) =~= PreviewView { lines: Seq::empty(), target_line: None, target_col: None, last: a.last_previewed });
                }
                match self.mode {
                    PaletteMode::GotoLine => self.update_goto_line_preview(),
                    PaletteMode::BufferPicker => self.update_buffer_preview(),
                    PaletteMode::JumpPicker => self.update_jump_preview(),
                    PaletteMode::ReferencePicker => self.update_reference_preview(),
                    PaletteMode::GitBranchPicker => self.update_git_branch_preview(),
                    PaletteMode::SymbolPicker => self.update_symbol_preview(),
                    _ => {
                        if self.selected < self.candidates.len() {
                            self.preview_lines = clone_lines(&self.candidates[self.selected].preview_lines);
                        }
                    },
                }
                proof {
                    assert(selected_kind(mid) == selected_kind(a));
                    assert(preview_of(*self) =~= previewed(a));
                }
                return;
            },
        }
        self.clear_preview();
        self.last_previewed = LastPreviewed { buffer: None, jump: None, reference: None, git_branch: None, symbol: None };
        let file = if self.selected < self.candidates.len() {
            match self.candidates[self.selected].kind {
                CandidateKind::File(i) => Some(self.file_entries[i].clone()),
                _ => None,
            }
        } else {
            None
        };
        proof {
            if file is Some {
                assert(selected_file(a) == Some(file->0@));
            } else {
                assert(selected_file(a) is None);
            }
            assert(nearby_paths(*self) == nearby_paths(a));
        }
        match file {
            Some(rel) => match self.find_cached(rel.as_str()) {
                Some(k) => {
                    self.preview_lines = clone_lines(&self.preview_cache[k].1);
                    self.schedule_nearby_previews();
                },
                None => {
                    self.file_read_request = Some(rel);
                },
            },
            None => {
                self.schedule_nearby_previews();
            },
        }
    }
}


/// The lowest position the cursor may take: just past a mode prefix in a
/// standalone picker, the start otherwise.
pub open spec fn min_cursor_of(p: Palette) -> int {
    let t = p.input.text@;
    if !p.is_unified && t.len() > 0 && (t[0] == '>' || t[0] == '@' || t[0] == ':') {
        1
    } else {
        0
    }
}

/// `c` brought into `[lo, hi]`.
pub open spec fn clamp_cursor(c: int, lo: int, hi: int) -> int {
    if c < lo {
        lo
    } else if c > hi {
        hi
    } else {
        c
    }
}

/// The cursor position `p`'s input clamps to.
pub open spec fn clamped_cursor(p: Palette) -> int {
    clamp_cursor(p.input.cursor as int, min_cursor_of(p), p.input.text@.len() as int)
}

/// `p` with its cursor clamped.
pub open spec fn with_clamped_cursor(p: Palette) -> Palette {
    Palette { input: TextInput { cursor: clamped_cursor(p) as usize, ..p.input }, ..p }
}

/// The mode the unified palette takes for the input `t`: commands after
/// `>`, symbols after `@`, a line number after `:`, files otherwise.
pub open spec fn mode_for(t: Seq<char>) -> PaletteMode {
    if t.len() > 0 && t[0] == '>' {
        PaletteMode::Command
    } else if t.len() > 0 && t[0] == '@' {
        PaletteMode::SymbolPicker
    } else if t.len() > 0 && t[0] == ':' {
        PaletteMode::GotoLine
    } else {
        PaletteMode::FileFinder
    }
}

/// The query the unified palette matches for the input `t`, and whether
/// it matches fzf-style.
pub open spec fn unified_query(t: Seq<char>) -> (Seq<char>, bool) {
    match mode_for(t) {
        PaletteMode::Command => (trim_start_ws(after_first(t)), false),
        PaletteMode::SymbolPicker => (after_first(t), true),
        PaletteMode::GotoLine => (Seq::empty(), false),
        _ => (t, false),
    }
}

/// The recently run identifiers, as character sequences.
pub open spec fn history_of(h: Option<Vec<String>>) -> Option<Seq<Seq<char>>> {
    match h {
        Some(v) => Some(string_views(v@)),
        None => None,
    }
}

/// What the unified palette lists for its input.
pub open spec fn unified_rows(p: Palette, reg: CommandRegistry, t: DisplayToggles) -> Seq<RowView> {
    let text = p.input.text@;
    match mode_for(text) {
        PaletteMode::Command => listed_commands(
            reg.entries@,
            reg.version_info@,
            t,
            trim_start_ws(after_first(text)),
            history_of(p.command_history),
        ),
        PaletteMode::SymbolPicker => listed(plain_rows(symbol_items(p.symbol_entries@)), after_first(text), true),
        PaletteMode::GotoLine => Seq::empty(),
        _ => listed(plain_rows(file_items(p.file_entries@)), text, false),
    }
}

/// What `update_candidates` does from `a` to `b`: the mode and the rows the
/// input calls for, the selection kept on a row, the cursor clamped, and the
/// preview of the new selection.
pub open spec fn candidates_step(a: Palette, reg: CommandRegistry, t: DisplayToggles, b: Palette) -> bool {
    let q = unified_query(a.input.text@);
    let mid = Palette {
        mode: mode_for(a.input.text@),
        candidates: b.candidates,
        selected: b.selected,
        ..with_clamped_cursor(a)
    };
    &&& cand_views(b.candidates@) == unified_rows(a, reg, t)
    &&& positions_match(b.candidates@, q.0, q.1)
    &&& b.selected == clamped(a.selected, b.candidates@.len())
    &&& files_in_range(mid)
    &&& preview_step(mid, b)
}

/// Everything but the input is as it was.
pub open spec fn same_but_input(a: Palette, b: Palette) -> bool {
    Palette { input: a.input, ..b } == a
}

/// `b` is `a` with an input of text `text` and cursor `cursor`.
pub open spec fn input_edit(a: Palette, text: Seq<char>, cursor: int, b: Palette) -> bool {
    &&& same_but_input(a, b)
    &&& b.input.text@ == text
    &&& b.input.cursor == cursor
}

/// `b` is a standalone picker's refresh of `c` for its own list: its rows
/// for `q`, the selection kept on a row, nothing else but the preview moved.
pub open spec fn picker_refresh(c: Palette, b: Palette, rows: Seq<RowView>, q: Seq<char>, fzf: bool) -> bool {
    &&& same_but_preview(Palette { candidates: b.candidates, selected: b.selected, ..c }, b)
    &&& cand_views(b.candidates@) == listed(rows, q, fzf)
    &&& positions_match(b.candidates@, q, fzf)
    &&& b.selected == clamped(c.selected, b.candidates@.len())
}

/// The next value of the edit counter.
pub open spec fn next_edit(n: u64) -> u64 {
    if n < u64::MAX {
        (n + 1) as u64
    } else {
        0
    }
}

/// What refreshing after an input edit does from `a` to `b`: the unified
/// palette re-lists for the new input; a standalone picker re-filters its
/// own list and re-previews; global search waits to search again.
pub open spec fn refresh_step(a: Palette, reg: CommandRegistry, t: DisplayToggles, b: Palette) -> bool {
    let c = with_clamped_cursor(a);
    let q = c.input.text@;
    if a.is_unified {
        candidates_step(c, reg, t, b)
    } else {
        match a.mode {
            PaletteMode::BufferPicker => picker_refresh(c, b, plain_rows(buffer_items(c.buffer_entries@)), q, false)
                && preview_of(b) == buffer_previewed(b, preview_of(c)),
            PaletteMode::JumpPicker => picker_refresh(c, b, plain_rows(jump_items(c.jump_entries@)), q, true)
                && preview_of(b) == jump_previewed(b, preview_of(c)),
            PaletteMode::ReferencePicker => picker_refresh(c, b, plain_rows(reference_items(c.reference_entries@)), q, true)
                && preview_of(b) == reference_previewed(b, preview_of(c)),
            PaletteMode::GitBranchPicker => picker_refresh(c, b, plain_rows(git_branch_items(c.git_branch_entries@)), q, true)
                && preview_of(b) == git_branch_previewed(b, preview_of(c)),
            PaletteMode::SymbolPicker => picker_refresh(c, b, plain_rows(symbol_items(c.symbol_entries@)), q, true)
                && preview_of(b) == symbol_previewed(b, preview_of(c)),
            PaletteMode::GlobalSearch => b == Palette {
                global_search_dirty: true,
                global_search_edits: next_edit(c.global_search_edits),
                ..c
            },
            _ => candidates_step(c, reg, t, b),
        }
    }
}

/// `b` is `a` after its input became `text` with the cursor at `cursor`,
/// refreshed when `changed`.
pub open spec fn edited(
    a: Palette,
    reg: CommandRegistry,
    t: DisplayToggles,
    text: Seq<char>,
    cursor: int,
    changed: bool,
    b: Palette,
) -> bool {
    if changed {
        &&& b.input.text@ == text
        &&& refresh_step(Palette { input: TextInput { text: b.input.text, cursor: cursor as usize }, ..a }, reg, t, b)
    } else {
        input_edit(a, text, cursor, b)
    }
}

/// `s` without its first character, as a new string.
fn after_first_string(s: &str) -> (r: String)
    ensures
        r@ == after_first(s@),
{
    let chars = str_chars(s);
    let mut r = String::new();
    let mut i: usize = 1;
    while i < chars.len()
        invariant
            1 <= i,
            chars@ == s@,
            chars@.len() > 0 ==> i <= chars@.len() && r@ == chars@.subrange(1, i as int),
            chars@.len() == 0 ==> r@.len() == 0,
        decreases chars@.len() - i,
    {
        crate::std_calls::string_push(&mut r, chars[i]);
        proof {
            assert(r@ =~= chars@.subrange(1, i + 1));
        }
        i = i + 1;
    }
    proof {
        if chars@.len() > 0 {
            assert(chars@.subrange(1, chars@.len() as int) =~= chars@.skip(1));
        } else {
            assert(r@ =~= s@);
        }
    }
    r
}

proof fn lemma_trim_start_at(s: Seq<char>, a: int)
    requires
        0 <= a <= s.len(),
        forall|i: int| 0 <= i < a ==> is_unicode_whitespace(#[trigger] s[i]),
        a == s.len() || !is_unicode_whitespace(s[a]),
    ensures
        trim_start_ws(s) == s.skip(a),
    decreases a,
{
    if a == 0 {
        assert(s.skip(0) =~= s);
    } else {
        assert forall|i: int| 0 <= i < a - 1 implies is_unicode_whitespace(#[trigger] s.skip(1)[i]) by {
            assert(s.skip(1)[i] == s[i + 1]);
        }
        if a < s.len() {
            assert(s.skip(1)[a - 1] == s[a]);
        }
        lemma_trim_start_at(s.skip(1), a - 1);
        assert(s.skip(1).skip(a - 1) =~= s.skip(a));
    }
}

/// `s` without its leading whitespace (`str::trim_start`).
fn trim_start_string(s: &str) -> (r: String)
    ensures
        r@ == trim_start_ws(s@),
{
    let chars = str_chars(s);
    let mut a: usize = 0;
    while a < chars.len() && char_is_whitespace(chars[a])
        invariant
            a <= chars@.len(),
            chars@ == s@,
            forall|i: int| 0 <= i < a ==> is_unicode_whitespace(#[trigger] chars@[i]),
        decreases chars@.len() - a,
    {
        a = a + 1;
    }
    proof {
        lemma_trim_start_at(s@, a as int);
    }
    let mut r = String::new();
    let mut i = a;
    while i < chars.len()
        invariant
            a <= i <= chars@.len(),
            chars@ == s@,
            r@ == chars@.subrange(a as int, i as int),
        decreases chars@.len() - i,
    {
        crate::std_calls::string_push(&mut r, chars[i]);
        proof {
            assert(r@ =~= chars@.subrange(a as int, i + 1));
        }
        i = i + 1;
    }
    proof {
        assert(chars@.subrange(a as int, chars@.len() as int) =~= s@.skip(a as int));
    }
    r
}

impl Palette {
    /// The lowest position the cursor may take.
    pub fn min_input_cursor(&self) -> (r: usize)
        ensures
            r == min_cursor_of(*self),
    {
        if self.is_unified {
            return 0;
        }
        let chars = str_chars(self.input.text.as_str());
        if chars.len() > 0 && (chars[0] == '>' || chars[0] == '@' || chars[0] == ':') {
            1
        } else {
            0
        }
    }

    /// Brings the cursor between the lowest position and the end.
    pub fn clamp_input_cursor(&mut self)
        ensures
            *final(self) == with_clamped_cursor(*old(self)),
    {
        let lo = self.min_input_cursor();
        let len = str_chars(self.input.text.as_str()).len();
        if self.input.cursor < lo {
            self.input.cursor = lo;
        } else if self.input.cursor > len {
            self.input.cursor = len;
        }
    }

    /// Re-lists for the input: the mode its first character calls for and
    /// that mode's rows, then the preview.
    pub fn update_candidates(&mut self, registry: &CommandRegistry, toggles: &DisplayToggles)
        requires
            old(self).wf(),
            commands_fit(registry.entries@),
        ensures
            final(self).wf(),
            candidates_step(*old(self), *registry, *toggles, *final(self)),
    {
        let ghost a = *old(self);
        let chars = str_chars(self.input.text.as_str());
        if chars.len() > 0 && chars[0] == '>' {
            self.mode = PaletteMode::Command;
            let rest = after_first_string(self.input.text.as_str());
            let q = trim_start_string(rest.as_str());
            let rows = match &self.command_history {
                Some(h) => filter_commands(registry, q.as_str(), Some(h), toggles),
                None => filter_commands(registry, q.as_str(), None, toggles),
            };
            self.set_rows(rows);
        } else if chars.len() > 0 && chars[0] == '@' {
            self.mode = PaletteMode::SymbolPicker;
            let q = after_first_string(self.input.text.as_str());
            self.filter_symbol_candidates_with_query(q.as_str());
        } else if chars.len() > 0 && chars[0] == ':' {
            self.mode = PaletteMode::GotoLine;
            self.set_rows(Vec::new());
            proof {
                assert(cand_views(self.candidates@) =~= Seq::<RowView>::empty());
            }
        } else {
            self.mode = PaletteMode::FileFinder;
            let rows = filter_files(&self.file_entries, self.input.text.as_str());
            self.set_rows(rows);
        }
        let n = self.candidates.len();
        if self.selected >= n {
            self.selected = if n == 0 { 0 } else { n - 1 };
        }
        self.clamp_input_cursor();
        proof {
            let mid = Palette {
                mode: mode_for(a.input.text@),
                candidates: self.candidates,
                selected: self.selected,
                ..with_clamped_cursor(a)
            };
            assert(*self == mid);
            assert forall|k: int| 0 <= k < self.candidates@.len() implies match (#[trigger] self.candidates@[k]).kind {
                CandidateKind::File(i) => i < self.file_entries@.len(),
                _ => true,
            } by {
            }
        }
        self.update_preview();
    }

    /// Refreshes the lists after the input changed.
    pub fn refresh_after_input_edit(&mut self, registry: &CommandRegistry, toggles: &DisplayToggles)
        requires
            old(self).wf(),
            commands_fit(registry.entries@),
        ensures
            final(self).wf(),
            refresh_step(*old(self), *registry, *toggles, *final(self)),
    {
        self.clamp_input_cursor();
        if self.is_unified {
            self.update_candidates(registry, toggles);
            return;
        }
        match self.mode {
            PaletteMode::BufferPicker => {
                self.filter_buffer_candidates();
                self.update_buffer_preview();
            },
            PaletteMode::JumpPicker => {
                self.filter_jump_candidates();
                self.update_jump_preview();
            },
            PaletteMode::ReferencePicker => {
                self.filter_reference_candidates();
                self.update_reference_preview();
            },
            PaletteMode::GitBranchPicker => {
                self.filter_git_branch_candidates();
                self.update_git_branch_preview();
            },
            PaletteMode::SymbolPicker => {
                self.filter_symbol_candidates();
                self.update_symbol_preview();
            },
            PaletteMode::GlobalSearch => {
                self.global_search_dirty = true;
                self.global_search_edits = if self.global_search_edits < u64::MAX {
                    self.global_search_edits + 1
                } else {
                    0
                };
            },
            _ => self.update_candidates(registry, toggles),
        }
    }

    /// Types `c` at the cursor and refreshes.
    pub fn on_char(&mut self, c: char, registry: &CommandRegistry, toggles: &DisplayToggles)
        requires
            old(self).wf(),
            commands_fit(registry.entries@),
        ensures
            final(self).wf(),
            edited(
                *old(self),
                *registry,
                *toggles,
                old(self).input.text@.take(clamped_cursor(*old(self))).push(c) + old(self).input.text@.skip(clamped_cursor(*old(self))),
                clamped_cursor(*old(self)) + 1,
                true,
                *final(self),
            ),
    {
        self.clamp_input_cursor();
        self.input.insert_char(c);
        self.refresh_after_input_edit(registry, toggles);
    }

    /// Inserts `text` at the cursor (a paste, or what an input method
    /// composed) and refreshes.
    pub fn insert_text(&mut self, text: &str, registry: &CommandRegistry, toggles: &DisplayToggles)
        requires
            old(self).wf(),
            commands_fit(registry.entries@),
        ensures
            final(self).wf(),
            edited(
                *old(self),
                *registry,
                *toggles,
                old(self).input.text@.take(clamped_cursor(*old(self))) + text@ + old(self).input.text@.skip(clamped_cursor(*old(self))),
                clamped_cursor(*old(self)) + text@.len(),
                true,
                *final(self),
            ),
    {
        self.clamp_input_cursor();
        self.input.insert_text(text);
        self.refresh_after_input_edit(registry, toggles);
    }

    /// Deletes the character before the cursor and refreshes, if there was one.
    pub fn on_backspace(&mut self, registry: &CommandRegistry, toggles: &DisplayToggles)
        requires
            old(self).wf(),
            commands_fit(registry.entries@),
        ensures
            final(self).wf(),
            ({
                let k = clamped_cursor(*old(self));
                let t = old(self).input.text@;
                if k > 0 {
                    edited(*old(self), *registry, *toggles, t.take(k - 1) + t.skip(k), k - 1, true, *final(self))
                } else {
                    edited(*old(self), *registry, *toggles, t, k, false, *final(self))
                }
            }),
    {
        self.clamp_input_cursor();
        if self.input.backspace() {
            self.refresh_after_input_edit(registry, toggles);
        }
    }

    /// Deletes the word before the cursor and refreshes, if there was one.
    pub fn on_delete_prev_word(&mut self, registry: &CommandRegistry, toggles: &DisplayToggles)
        requires
            old(self).wf(),
            commands_fit(registry.entries@),
        ensures
            final(self).wf(),
            ({
                let k = clamped_cursor(*old(self));
                let t = old(self).input.text@;
                let w = without_prev_word(t.take(k));
                edited(*old(self), *registry, *toggles, w + t.skip(k), w.len() as int, w.len() != k, *final(self))
            }),
    {
        self.clamp_input_cursor();
        if self.input.delete_prev_word() {
            self.refresh_after_input_edit(registry, toggles);
        }
    }

    /// Deletes everything after the cursor and refreshes, if there was anything.
    pub fn on_delete_to_end(&mut self, registry: &CommandRegistry, toggles: &DisplayToggles)
        requires
            old(self).wf(),
            commands_fit(registry.entries@),
        ensures
            final(self).wf(),
            ({
                let k = clamped_cursor(*old(self));
                let t = old(self).input.text@;
                edited(*old(self), *registry, *toggles, t.take(k), k, k < t.len(), *final(self))
            }),
    {
        self.clamp_input_cursor();
        if self.input.delete_to_end() {
            self.refresh_after_input_edit(registry, toggles);
        }
    }
}


/// The row after `sel`, wrapping to the first.
pub open spec fn next_index(sel: usize, n: nat) -> usize {
    if sel + 1 >= n {
        0
    } else {
        (sel + 1) as usize
    }
}

/// The row before `sel`, wrapping to the last.
pub open spec fn prev_index(sel: usize, n: nat) -> usize {
    if sel == 0 {
        (n - 1) as usize
    } else {
        (sel - 1) as usize
    }
}

/// `b` is `a` with row `sel` selected, previewed when the selection moved.
pub open spec fn select_step(a: Palette, sel: usize, b: Palette) -> bool {
    if sel == a.selected {
        b == a
    } else {
        preview_step(Palette { selected: sel, ..a }, b)
    }
}

/// What moving to the next row does from `a` to `b`.
pub open spec fn next_step(a: Palette, b: Palette) -> bool {
    if a.candidates@.len() == 0 {
        b == a
    } else {
        select_step(a, next_index(a.selected, a.candidates@.len()), b)
    }
}

/// What moving to the previous row does from `a` to `b`.
pub open spec fn prev_step(a: Palette, b: Palette) -> bool {
    if a.candidates@.len() == 0 {
        b == a
    } else {
        select_step(a, prev_index(a.selected, a.candidates@.len()), b)
    }
}

/// The first visible row that keeps row `sel` in a window of `visible`
/// rows starting at `scroll`.
pub open spec fn scroll_for(sel: usize, scroll: usize, visible: usize) -> usize {
    if visible == 0 {
        scroll
    } else if sel < scroll {
        sel
    } else if sel >= scroll + visible {
        (sel - visible + 1) as usize
    } else {
        scroll
    }
}

/// The palette closes.
pub open spec fn close_result() -> EventResult {
    EventResult::Action(Action::Ui(UiAction::ClosePalette))
}

/// What Enter answers in `p`: the selected row's action in the palette's
/// mode, or closing when no row of that mode's kind is selected.
pub open spec fn enter_result(p: Palette, r: EventResult) -> bool {
    match p.mode {
        PaletteMode::BufferPicker => match selected_kind(p) {
            Some(CandidateKind::Buffer(id)) => r == EventResult::Action(
                Action::App(AppAction::Buffer(BufferAction::SwitchBufferById(id))),
            ),
            _ => r == close_result(),
        },
        PaletteMode::JumpPicker => match selected_kind(p) {
            Some(CandidateKind::Jump(i)) => r == EventResult::Action(
                Action::App(AppAction::Navigation(NavigationAction::JumpToListIndex(i))),
            ),
            _ => r == close_result(),
        },
        PaletteMode::ReferencePicker => match selected_kind(p) {
            Some(CandidateKind::Reference(i)) => if i < p.reference_entries@.len() {
                let e = p.reference_entries@[i as int];
                r matches EventResult::Action(
                    Action::App(AppAction::Navigation(NavigationAction::OpenFileAtLspLocation { path, line, character_utf16 })),
                ) && path@ == e.path@ && line == e.line && character_utf16 == e.character_utf16
            } else {
                r == close_result()
            },
            _ => r == close_result(),
        },
        PaletteMode::GitBranchPicker => match selected_kind(p) {
            Some(CandidateKind::GitBranch(i)) => if i < p.git_branch_entries@.len() {
                r matches EventResult::Action(Action::App(AppAction::Project(ProjectAction::SwitchGitBranch(b))))
                    && b@ == p.git_branch_entries@[i as int].branch_name@
            } else {
                r == close_result()
            },
            _ => r == close_result(),
        },
        PaletteMode::SymbolPicker => match selected_kind(p) {
            Some(CandidateKind::Symbol(i)) => if i < p.symbol_entries@.len() {
                let e = p.symbol_entries@[i as int];
                match p.symbol_submit_behavior {
                    SymbolSubmitBehavior::JumpToLocation => r == EventResult::Action(
                        Action::App(AppAction::Navigation(NavigationAction::JumpToLineChar { line: e.line, char_col: e.char_col })),
                    ),
                    SymbolSubmitBehavior::CopyToClipboard => match e.copy_text {
                        Some(copy) => r matches EventResult::Action(
                            Action::App(AppAction::Integration(IntegrationAction::CopyToClipboard { text, description })),
                        ) && text@ == copy@ && description@ == "smart copy section"@,
                        None => r == close_result(),
                    },
                }
            } else {
                r == close_result()
            },
            _ => r == close_result(),
        },
        PaletteMode::FileFinder => match selected_file(p) {
            Some(f) => r matches EventResult::Action(Action::App(AppAction::Buffer(BufferAction::OpenProjectFile(path))))
                && path@ == f,
            None => r == close_result(),
        },
        PaletteMode::Command => match selected_kind(p) {
            Some(CandidateKind::Command(i)) => r == EventResult::Action(
                Action::App(AppAction::Navigation(NavigationAction::ExecutePaletteCommand(i))),
            ),
            _ => r == close_result(),
        },
        PaletteMode::GlobalSearch => match selected_kind(p) {
            Some(CandidateKind::SearchResult(i)) => if i < p.global_search_entries@.len() {
                let e = p.global_search_entries@[i as int];
                r matches EventResult::Action(
                    Action::App(AppAction::Buffer(BufferAction::OpenProjectFileAt { rel_path, line, char_col })),
                ) && rel_path@ == e.rel_path@ && line == e.line && char_col == e.char_col
            } else {
                r == close_result()
            },
            _ => r == close_result(),
        },
        PaletteMode::GotoLine => match goto_target(p.input.text@) {
            Some((l, c)) => r == EventResult::Action(
                Action::App(AppAction::Navigation(NavigationAction::JumpToLineChar { line: l as usize, char_col: c as usize })),
            ),
            None => r == close_result(),
        },
    }
}

/// The keys that, held with Control, the palette handles on their own.
pub open spec fn control_key(code: KeyCode) -> bool {
    match code {
        KeyCode::Char(c) => c == 'n' || c == 'j' || c == 'p' || c == 'f' || c == 'b' || c == 'a' || c == 'e'
            || c == 'w' || c == 'k' || c == 'c' || c == 'q',
        KeyCode::Left => true,
        KeyCode::Right => true,
        _ => false,
    }
}

/// What deleting back a character does from `a` to `b`.
pub open spec fn backspace_step(a: Palette, reg: CommandRegistry, t: DisplayToggles, b: Palette) -> bool {
    let k = clamped_cursor(a);
    let s = a.input.text@;
    if k > 0 {
        edited(a, reg, t, s.take(k - 1) + s.skip(k), k - 1, true, b)
    } else {
        edited(a, reg, t, s, k, false, b)
    }
}

/// What typing `c` does from `a` to `b`.
pub open spec fn char_step(a: Palette, reg: CommandRegistry, t: DisplayToggles, c: char, b: Palette) -> bool {
    let k = clamped_cursor(a);
    let s = a.input.text@;
    edited(a, reg, t, s.take(k).push(c) + s.skip(k), k + 1, true, b)
}

/// What deleting the previous word does from `a` to `b`.
pub open spec fn delete_word_step(a: Palette, reg: CommandRegistry, t: DisplayToggles, b: Palette) -> bool {
    let k = clamped_cursor(a);
    let s = a.input.text@;
    let w = without_prev_word(s.take(k));
    edited(a, reg, t, w + s.skip(k), w.len() as int, w.len() != k, b)
}

/// What deleting to the end does from `a` to `b`.
pub open spec fn delete_to_end_step(a: Palette, reg: CommandRegistry, t: DisplayToggles, b: Palette) -> bool {
    let k = clamped_cursor(a);
    let s = a.input.text@;
    edited(a, reg, t, s.take(k), k, k < s.len(), b)
}

/// What key `key` does from `a` to `b`, answering `r`.
pub open spec fn key_step(a: Palette, key: KeyEvent, reg: CommandRegistry, t: DisplayToggles, b: Palette, r: EventResult) -> bool {
    let k = clamped_cursor(a);
    let s = a.input.text@;
    let left = if k > 0 { k - 1 } else { 0 };
    let right = if k < s.len() { k + 1 } else { k };
    if key.kind != KeyEventKind::Press {
        b == a && r == EventResult::Consumed
    } else if key.modifiers.control && control_key(key.code) {
        match key.code {
            KeyCode::Left => r == EventResult::Consumed && input_edit(a, s, without_prev_word(s.take(k)).len() as int, b),
            KeyCode::Right => r == EventResult::Consumed && input_edit(a, s, word_right(s, k), b),
            KeyCode::Char(c) => if c == 'n' || c == 'j' {
                r == EventResult::Consumed && next_step(a, b)
            } else if c == 'p' {
                r == EventResult::Consumed && prev_step(a, b)
            } else if c == 'f' {
                r == EventResult::Consumed && input_edit(a, s, right, b)
            } else if c == 'b' {
                r == EventResult::Consumed && input_edit(a, s, left, b)
            } else if c == 'a' {
                r == EventResult::Consumed && input_edit(a, s, 0, b)
            } else if c == 'e' {
                r == EventResult::Consumed && input_edit(a, s, s.len() as int, b)
            } else if c == 'w' {
                r == EventResult::Consumed && delete_word_step(a, reg, t, b)
            } else if c == 'k' {
                r == EventResult::Consumed && delete_to_end_step(a, reg, t, b)
            } else {
                b == a && r == close_result()
            },
            _ => false,
        }
    } else {
        match key.code {
            KeyCode::Esc => b == a && r == close_result(),
            KeyCode::Down => r == EventResult::Consumed && next_step(a, b),
            KeyCode::Up => r == EventResult::Consumed && prev_step(a, b),
            KeyCode::Left => r == EventResult::Consumed && input_edit(a, s, left, b),
            KeyCode::Right => r == EventResult::Consumed && input_edit(a, s, right, b),
            KeyCode::Backspace => r == EventResult::Consumed && backspace_step(a, reg, t, b),
            KeyCode::Enter => b == a && enter_result(a, r),
            KeyCode::Char(c) => r == EventResult::Consumed && char_step(a, reg, t, c, b),
            _ => b == a && r == EventResult::Consumed,
        }
    }
}

impl Palette {
    /// Selects the next row, wrapping to the first, and previews it.
    pub fn select_next(&mut self)
        requires
            files_in_range(*old(self)),
        ensures
            next_step(*old(self), *final(self)),
    {
        let n = self.candidates.len();
        if n > 0 {
            let prev = self.selected;
            self.selected = if self.selected >= n - 1 { 0 } else { self.selected + 1 };
            if self.selected != prev {
                self.update_preview();
            }
        }
    }

    /// Selects the previous row, wrapping to the last, and previews it.
    pub fn select_prev(&mut self)
        requires
            files_in_range(*old(self)),
        ensures
            prev_step(*old(self), *final(self)),
    {
        let n = self.candidates.len();
        if n > 0 {
            let prev = self.selected;
            self.selected = if self.selected == 0 { n - 1 } else { self.selected - 1 };
            if self.selected != prev {
                self.update_preview();
            }
        }
    }

    /// Scrolls the list just enough that the selected row is among the
    /// `visible_count` rows shown.
    pub fn ensure_selection_visible(&mut self, visible_count: usize)
        ensures
            *final(self) == (Palette {
                scroll_offset: scroll_for(old(self).selected, old(self).scroll_offset, visible_count),
                ..*old(self)
            }),
    {
        if visible_count == 0 {
            return;
        }
        if self.selected < self.scroll_offset {
            self.scroll_offset = self.selected;
        } else if self.selected - self.scroll_offset >= visible_count {
            self.scroll_offset = self.selected - visible_count + 1;
        }
    }

    /// The command the selected row stands for.
    pub fn selected_command_index(&self) -> (r: Option<usize>)
        ensures
            r == match selected_kind(*self) {
                Some(CandidateKind::Command(i)) => Some(i),
                _ => None,
            },
    {
        match self.selected_candidate_kind() {
            Some(CandidateKind::Command(i)) => Some(i),
            _ => None,
        }
    }

    /// The buffer the selected row stands for.
    pub fn selected_buffer_id(&self) -> (r: Option<BufferId>)
        ensures
            r == match selected_kind(*self) {
                Some(CandidateKind::Buffer(id)) => Some(id),
                _ => None,
            },
    {
        match self.selected_candidate_kind() {
            Some(CandidateKind::Buffer(id)) => Some(id),
            _ => None,
        }
    }

    /// The jump the selected row stands for.
    pub fn selected_jump_index(&self) -> (r: Option<usize>)
        ensures
            r == match selected_kind(*self) {
                Some(CandidateKind::Jump(i)) => Some(i),
                _ => None,
            },
    {
        match self.selected_candidate_kind() {
            Some(CandidateKind::Jump(i)) => Some(i),
            _ => None,
        }
    }

    /// Where the selected reference is: its path, line and UTF-16 column.
    pub fn selected_reference_location(&self) -> (r: Option<(String, usize, usize)>)
        ensures
            match selected_kind(*self) {
                Some(CandidateKind::Reference(i)) => if i < self.reference_entries@.len() {
                    let e = self.reference_entries@[i as int];
                    r matches Some(x) && x.0@ == e.path@ && x.1 == e.line && x.2 == e.character_utf16
                } else {
                    r is None
                },
                _ => r is None,
            },
    {
        match self.selected_candidate_kind() {
            Some(CandidateKind::Reference(i)) => if i < self.reference_entries.len() {
                let e = &self.reference_entries[i];
                Some((e.path.clone(), e.line, e.character_utf16))
            } else {
                None
            },
            _ => None,
        }
    }

    /// The name of the selected branch.
    pub fn selected_git_branch(&self) -> (r: Option<String>)
        ensures
            match selected_kind(*self) {
                Some(CandidateKind::GitBranch(i)) => if i < self.git_branch_entries@.len() {
                    r matches Some(b) && b@ == self.git_branch_entries@[i as int].branch_name@
                } else {
                    r is None
                },
                _ => r is None,
            },
    {
        match self.selected_candidate_kind() {
            Some(CandidateKind::GitBranch(i)) => if i < self.git_branch_entries.len() {
                Some(self.git_branch_entries[i].branch_name.clone())
            } else {
                None
            },
            _ => None,
        }
    }

    /// The line and column of the selected symbol.
    pub fn selected_symbol_location(&self) -> (r: Option<(usize, usize)>)
        ensures
            r == match selected_kind(*self) {
                Some(CandidateKind::Symbol(i)) => if i < self.symbol_entries@.len() {
                    Some((self.symbol_entries@[i as int].line, self.symbol_entries@[i as int].char_col))
                } else {
                    None
                },
                _ => None,
            },
    {
        match self.selected_candidate_kind() {
            Some(CandidateKind::Symbol(i)) => if i < self.symbol_entries.len() {
                Some((self.symbol_entries[i].line, self.symbol_entries[i].char_col))
            } else {
                None
            },
            _ => None,
        }
    }

    /// The text the selected symbol copies, if it has one.
    pub fn selected_symbol_copy_text(&self) -> (r: Option<String>)
        ensures
            match selected_kind(*self) {
                Some(CandidateKind::Symbol(i)) => if i < self.symbol_entries@.len() {
                    match self.symbol_entries@[i as int].copy_text {
                        Some(t) => r matches Some(x) && x@ == t@,
                        None => r is None,
                    }
                } else {
                    r is None
                },
                _ => r is None,
            },
    {
        match self.selected_candidate_kind() {
            Some(CandidateKind::Symbol(i)) => if i < self.symbol_entries.len() {
                match &self.symbol_entries[i].copy_text {
                    Some(t) => Some(t.clone()),
                    None => None,
                }
            } else {
                None
            },
            _ => None,
        }
    }

    /// The index of the selected global-search match.
    pub fn selected_search_result(&self) -> (r: Option<usize>)
        ensures
            r == match selected_kind(*self) {
                Some(CandidateKind::SearchResult(i)) => if i < self.global_search_entries@.len() {
                    Some(i)
                } else {
                    None
                },
                _ => None,
            },
    {
        match self.selected_candidate_kind() {
            Some(CandidateKind::SearchResult(i)) => if i < self.global_search_entries.len() {
                Some(i)
            } else {
                None
            },
            _ => None,
        }
    }

    /// The path of the selected file.
    pub fn selected_file_path(&self) -> (r: Option<&str>)
        requires
            files_in_range(*self),
        ensures
            match selected_file(*self) {
                Some(f) => r matches Some(x) && x@ == f,
                None => r is None,
            },
    {
        if self.selected < self.candidates.len() {
            match self.candidates[self.selected].kind {
                CandidateKind::File(i) => Some(self.file_entries[i].as_str()),
                _ => None,
            }
        } else {
            None
        }
    }

    /// What Enter answers.
    fn enter(&self) -> (r: EventResult)
        requires
            files_in_range(*self),
        ensures
            enter_result(*self, r),
    {
        let close = EventResult::Action(Action::Ui(UiAction::ClosePalette));
        match self.mode {
            PaletteMode::BufferPicker => match self.selected_buffer_id() {
                Some(id) => EventResult::Action(Action::App(AppAction::Buffer(BufferAction::SwitchBufferById(id)))),
                None => close,
            },
            PaletteMode::JumpPicker => match self.selected_jump_index() {
                Some(i) => EventResult::Action(Action::App(AppAction::Navigation(NavigationAction::JumpToListIndex(i)))),
                None => close,
            },
            PaletteMode::ReferencePicker => match self.selected_reference_location() {
                Some((path, line, character_utf16)) => EventResult::Action(
                    Action::App(AppAction::Navigation(NavigationAction::OpenFileAtLspLocation { path, line, character_utf16 })),
                ),
                None => close,
            },
            PaletteMode::GitBranchPicker => match self.selected_git_branch() {
                Some(b) => EventResult::Action(Action::App(AppAction::Project(ProjectAction::SwitchGitBranch(b)))),
                None => close,
            },
            PaletteMode::SymbolPicker => match self.symbol_submit_behavior {
                SymbolSubmitBehavior::JumpToLocation => match self.selected_symbol_location() {
                    Some((line, char_col)) => EventResult::Action(
                        Action::App(AppAction::Navigation(NavigationAction::JumpToLineChar { line, char_col })),
                    ),
                    None => close,
                },
                SymbolSubmitBehavior::CopyToClipboard => match self.selected_symbol_copy_text() {
                    Some(text) => EventResult::Action(
                        Action::App(AppAction::Integration(IntegrationAction::CopyToClipboard {
                            text,
                            description: owned("smart copy section"),
                        })),
                    ),
                    None => close,
                },
            },
            PaletteMode::FileFinder => match self.selected_file_path() {
                Some(path) => EventResult::Action(Action::App(AppAction::Buffer(BufferAction::OpenProjectFile(owned(path))))),
                None => close,
            },
            PaletteMode::Command => match self.selected_command_index() {
                Some(i) => EventResult::Action(Action::App(AppAction::Navigation(NavigationAction::ExecutePaletteCommand(i)))),
                None => close,
            },
            PaletteMode::GlobalSearch => match self.selected_search_result() {
                Some(i) => {
                    let e = &self.global_search_entries[i];
                    EventResult::Action(
                        Action::App(AppAction::Buffer(BufferAction::OpenProjectFileAt {
                            rel_path: e.rel_path.clone(),
                            line: e.line,
                            char_col: e.char_col,
                        })),
                    )
                },
                None => close,
            },
            PaletteMode::GotoLine => match parse_goto_line(self.input.text.as_str()) {
                Some((line, char_col)) => EventResult::Action(
                    Action::App(AppAction::Navigation(NavigationAction::JumpToLineChar { line, char_col })),
                ),
                None => close,
            },
        }
    }

    /// Handles a key: navigation and editing keys act on the list and the
    /// input; Enter answers the selected row's action; Escape, Ctrl-c and
    /// Ctrl-q close the palette. Only key presses count.
    pub fn handle_key_event(&mut self, key: KeyEvent, registry: &CommandRegistry, toggles: &DisplayToggles) -> (r: EventResult)
        requires
            old(self).wf(),
            key.kind == KeyEventKind::Press ==> files_in_range(*old(self)),
            key.kind == KeyEventKind::Press ==> commands_fit(registry.entries@),
        ensures
            final(self).wf(),
            key_step(*old(self), key, *registry, *toggles, *final(self), r),
    {
        match key.kind {
            KeyEventKind::Press => {},
            _ => return EventResult::Consumed,
        }
        if key.modifiers.control {
            match key.code {
                KeyCode::Char('n') | KeyCode::Char('j') => {
                    self.select_next();
                    return EventResult::Consumed;
                },
                KeyCode::Char('p') => {
                    self.select_prev();
                    return EventResult::Consumed;
                },
                KeyCode::Left => {
                    self.clamp_input_cursor();
                    self.input.move_word_left();
                    return EventResult::Consumed;
                },
                KeyCode::Right => {
                    self.clamp_input_cursor();
                    self.input.move_word_right();
                    return EventResult::Consumed;
                },
                KeyCode::Char('f') => {
                    self.clamp_input_cursor();
                    self.input.move_right();
                    return EventResult::Consumed;
                },
                KeyCode::Char('b') => {
                    self.clamp_input_cursor();
                    self.input.move_left();
                    return EventResult::Consumed;
                },
                KeyCode::Char('a') => {
                    self.clamp_input_cursor();
                    self.input.move_start();
                    return EventResult::Consumed;
                },
                KeyCode::Char('e') => {
                    self.clamp_input_cursor();
                    self.input.move_end();
                    return EventResult::Consumed;
                },
                KeyCode::Char('w') => {
                    self.on_delete_prev_word(registry, toggles);
                    return EventResult::Consumed;
                },
                KeyCode::Char('k') => {
                    self.on_delete_to_end(registry, toggles);
                    return EventResult::Consumed;
                },
                KeyCode::Char('c') | KeyCode::Char('q') => {
                    return EventResult::Action(Action::Ui(UiAction::ClosePalette));
                },
                _ => {},
            }
        }
        match key.code {
            KeyCode::Esc => EventResult::Action(Action::Ui(UiAction::ClosePalette)),
            KeyCode::Down => {
                self.select_next();
                EventResult::Consumed
            },
            KeyCode::Up => {
                self.select_prev();
                EventResult::Consumed
            },
            KeyCode::Left => {
                self.clamp_input_cursor();
                self.input.move_left();
                EventResult::Consumed
            },
            KeyCode::Right => {
                self.clamp_input_cursor();
                self.input.move_right();
                EventResult::Consumed
            },
            KeyCode::Backspace => {
                self.on_backspace(registry, toggles);
                EventResult::Consumed
            },
            KeyCode::Enter => self.enter(),
            KeyCode::Char(c) => {
                self.on_char(c, registry, toggles);
                EventResult::Consumed
            },
            _ => EventResult::Consumed,
        }
    }

    /// Types `c` into the buffer picker's query and re-filters.
    pub fn on_char_buffer(&mut self, c: char)
        requires
            old(self).wf(),
        ensures
            final(self).wf(),
            ({
                let k = clamped_cursor(*old(self));
                let s = old(self).input.text@;
                let q = s.take(k).push(c) + s.skip(k);
                let mid = Palette { input: TextInput { text: final(self).input.text, cursor: (k + 1) as usize }, ..*old(self) };
                &&& final(self).input.text@ == q
                &&& picker_refresh(mid, *final(self), plain_rows(buffer_items(old(self).buffer_entries@)), q, false)
                &&& preview_of(*final(self)) == buffer_previewed(*final(self), preview_of(*old(self)))
            }),
    {
        self.clamp_input_cursor();
        self.input.insert_char(c);
        self.filter_buffer_candidates();
        self.update_buffer_preview();
    }

    /// Deletes back a character of the buffer picker's query and re-filters.
    pub fn on_backspace_buffer(&mut self)
        requires
            old(self).wf(),
        ensures
            final(self).wf(),
            ({
                let k = clamped_cursor(*old(self));
                let s = old(self).input.text@;
                let q = s.take(k - 1) + s.skip(k);
                let mid = Palette { input: TextInput { text: final(self).input.text, cursor: (k - 1) as usize }, ..*old(self) };
                if k > 0 {
                    &&& final(self).input.text@ == q
                    &&& picker_refresh(mid, *final(self), plain_rows(buffer_items(old(self).buffer_entries@)), q, false)
                    &&& preview_of(*final(self)) == buffer_previewed(*final(self), preview_of(*old(self)))
                } else {
                    input_edit(*old(self), s, k, *final(self))
                }
            }),
    {
        self.clamp_input_cursor();
        if self.input.backspace() {
            self.filter_buffer_candidates();
            self.update_buffer_preview();
        }
    }

    /// Types `c` into the jump picker's query and re-filters.
    pub fn on_char_jump(&mut self, c: char)
        requires
            old(self).wf(),
        ensures
            final(self).wf(),
            ({
                let k = clamped_cursor(*old(self));
                let s = old(self).input.text@;
                let q = s.take(k).push(c) + s.skip(k);
                let mid = Palette { input: TextInput { text: final(self).input.text, cursor: (k + 1) as usize }, ..*old(self) };
                &&& final(self).input.text@ == q
                &&& picker_refresh(mid, *final(self), plain_rows(jump_items(old(self).jump_entries@)), q, true)
                &&& preview_of(*final(self)) == jump_previewed(*final(self), preview_of(*old(self)))
            }),
    {
        self.clamp_input_cursor();
        self.input.insert_char(c);
        self.filter_jump_candidates();
        self.update_jump_preview();
    }

    /// Deletes back a character of the jump picker's query and re-filters.
    pub fn on_backspace_jump(&mut self)
        requires
            old(self).wf(),
        ensures
            final(self).wf(),
            ({
                let k = clamped_cursor(*old(self));
                let s = old(self).input.text@;
                let q = s.take(k - 1) + s.skip(k);
                let mid = Palette { input: TextInput { text: final(self).input.text, cursor: (k - 1) as usize }, ..*old(self) };
                if k > 0 {
                    &&& final(self).input.text@ == q
                    &&& picker_refresh(mid, *final(self), plain_rows(jump_items(old(self).jump_entries@)), q, true)
                    &&& preview_of(*final(self)) == jump_previewed(*final(self), preview_of(*old(self)))
                } else {
                    input_edit(*old(self), s, k, *final(self))
                }
            }),
    {
        self.clamp_input_cursor();
        if self.input.backspace() {
            self.filter_jump_candidates();
            self.update_jump_preview();
        }
    }
}


/// The part of `s` after its first `|`, or all of `s` when it has none.
pub open spec fn after_bar(s: Seq<char>) -> Seq<char> {
    match first_index_of(s, '|') {
        Some(k) => s.skip(k + 1),
        None => s,
    }
}

/// The code a match shows in its row: its second preview line after the
/// bar, or nothing.
pub open spec fn excerpt_of(e: GlobalSearchResultEntry) -> Seq<char> {
    if e.preview_lines@.len() > 1 {
        after_bar(e.preview_lines@[1]@)
    } else {
        Seq::empty()
    }
}

/// A match's row label: `path:line excerpt`, the line 1-based and the
/// excerpt trimmed.
pub open spec fn search_label(e: GlobalSearchResultEntry) -> Seq<char> {
    e.rel_path@ + ":"@ + decimal_chars((e.line + 1) as nat) + " "@ + trimmed(excerpt_of(e))
}

/// The matches as rows, in order.
pub open spec fn search_rows(es: Seq<GlobalSearchResultEntry>) -> Seq<RowView> {
    Seq::new(
        es.len(),
        |i: int| RowView {
            kind: CandidateKind::SearchResult(i as usize),
            label: search_label(es[i]),
            score: 0,
            preview: string_views(es[i].preview_lines@),
        },
    )
}

/// After the batches `bs`: the latest generation applied, the selection,
/// and the last batch applied, if any. A batch older than the latest
/// applied is skipped.
pub open spec fn pumped(latest: u64, sel: usize, bs: Seq<GlobalSearchBatch>) -> (u64, usize, Option<int>)
    decreases bs.len(),
{
    if bs.len() == 0 {
        (latest, sel, None)
    } else {
        let prev = pumped(latest, sel, bs.drop_last());
        let b = bs.last();
        if b.generation < prev.0 {
            prev
        } else {
            match b.error {
                Some(_) => (b.generation, 0, Some(bs.len() - 1)),
                None => (b.generation, clamped(prev.1, b.results@.len()), Some(bs.len() - 1)),
            }
        }
    }
}

/// Every match of the batches is on a line before the last `usize`.
pub open spec fn batch_lines_fit(bs: Seq<GlobalSearchBatch>) -> bool {
    forall|i: int, j: int|
        0 <= i < bs.len() && 0 <= j < bs[i].results@.len() ==> (#[trigger] bs[i].results@[j]).line < usize::MAX
}

/// What the global-search pump does from `a` to `b` with the batches `bs`,
/// answering the search request `r` (the query and its generation).
pub open spec fn pump_step(a: Palette, bs: Seq<GlobalSearchBatch>, elapsed: bool, b: Palette, r: Option<(String, u64)>) -> bool {
    if a.mode != PaletteMode::GlobalSearch || !a.has_global_search_worker {
        b == a && r is None
    } else {
        let pm = pumped(a.global_search_latest_applied, a.selected, bs);
        let send = a.global_search_dirty && elapsed;
        let g = if a.global_search_generation < u64::MAX { (a.global_search_generation + 1) as u64 } else { u64::MAX };
        &&& b.input == a.input
        &&& b.mode == a.mode
        &&& b.scroll_offset == a.scroll_offset
        &&& b.jump_target_preview_line == a.jump_target_preview_line
        &&& b.jump_target_char_col == a.jump_target_char_col
        &&& b.last_previewed == a.last_previewed
        &&& b.global_search_latest_applied == pm.0
        &&& b.selected == pm.1
        &&& match pm.2 {
            None => {
                &&& b.candidates == a.candidates
                &&& b.preview_lines == a.preview_lines
                &&& b.global_search_entries == a.global_search_entries
            },
            Some(k) => match bs[k].error {
                Some(err) => {
                    &&& b.global_search_entries@.len() == 0
                    &&& b.candidates@.len() == 0
                    &&& string_views(b.preview_lines@) == seq!["Global search error: "@ + err@]
                },
                None => {
                    &&& b.global_search_entries == bs[k].results
                    &&& cand_views(b.candidates@) == search_rows(bs[k].results@)
                    &&& no_positions(b.candidates@)
                    &&& string_views(b.preview_lines@) == if pm.1 < bs[k].results@.len() {
                        string_views(bs[k].results@[pm.1 as int].preview_lines@)
                    } else {
                        Seq::empty()
                    }
                },
            },
        }
        &&& b.global_search_dirty == (a.global_search_dirty && !send)
        &&& b.global_search_generation == if send { g } else { a.global_search_generation }
        &&& match r {
            Some(req) => send && req.0@ == a.input.text@ && req.1 == g,
            None => !send,
        }
        &&& (Palette {
            input: a.input,
            mode: a.mode,
            candidates: a.candidates,
            selected: a.selected,
            scroll_offset: a.scroll_offset,
            preview_lines: a.preview_lines,
            jump_target_preview_line: a.jump_target_preview_line,
            jump_target_char_col: a.jump_target_char_col,
            last_previewed: a.last_previewed,
            global_search_entries: a.global_search_entries,
            global_search_generation: a.global_search_generation,
            global_search_latest_applied: a.global_search_latest_applied,
            global_search_dirty: a.global_search_dirty,
            ..b
        }) == a
    }
}

/// The part of `s` after its first `|`, or all of `s`.
fn after_bar_string(s: &str) -> (r: String)
    ensures
        r@ == after_bar(s@),
{
    let chars = str_chars(s);
    let mut i: usize = 0;
    while i < chars.len() && chars[i] != '|'
        invariant
            i <= chars@.len(),
            chars@ == s@,
            forall|j: int| 0 <= j < i ==> s@[j] != '|',
        decreases chars@.len() - i,
    {
        i = i + 1;
    }
    if i == chars.len() {
        proof {
            assert(!(exists|k: int| 0 <= k < s@.len() && s@[k] == '|'));
        }
        return owned(s);
    }
    proof {
        let k = choose|k: int| 0 <= k < s@.len() && s@[k] == '|' && forall|j: int| 0 <= j < k ==> s@[j] != '|';
        assert(k == i);
    }
    let mut r = String::new();
    let mut j = i + 1;
    while j < chars.len()
        invariant
            i < j <= chars@.len(),
            chars@ == s@,
            r@ == chars@.subrange(i + 1, j as int),
        decreases chars@.len() - j,
    {
        crate::std_calls::string_push(&mut r, chars[j]);
        proof {
            assert(r@ =~= chars@.subrange(i + 1, j + 1));
        }
        j = j + 1;
    }
    proof {
        assert(chars@.subrange(i + 1, chars@.len() as int) =~= s@.skip(i + 1));
    }
    r
}

/// The row of match `e`, the `i`th.
fn search_row(e: &GlobalSearchResultEntry, i: usize) -> (c: ScoredCandidate)
    requires
        e.line < usize::MAX,
    ensures
        cand_view(c) == (RowView {
            kind: CandidateKind::SearchResult(i),
            label: search_label(*e),
            score: 0,
            preview: string_views(e.preview_lines@),
        }),
        c.match_positions@.len() == 0,
{
    let excerpt = if e.preview_lines.len() > 1 {
        after_bar_string(e.preview_lines[1].as_str())
    } else {
        String::new()
    };
    let mut label = e.rel_path.clone();
    push_str(&mut label, ":");
    push_str(&mut label, u64_to_decimal((e.line + 1) as u64).as_str());
    push_str(&mut label, " ");
    push_str(&mut label, trim(excerpt.as_str()).as_str());
    ScoredCandidate {
        kind: CandidateKind::SearchResult(i),
        label,
        score: 0,
        match_positions: Vec::new(),
        preview_lines: clone_lines(&e.preview_lines),
    }
}

impl Palette {
    /// Applies the global-search batches that came back, newest generation
    /// winning, and, once the input has rested (`debounce_elapsed`), returns
    /// the search to run next: the query and its generation.
    pub fn pump_global_search(&mut self, batches: Vec<GlobalSearchBatch>, debounce_elapsed: bool) -> (r: Option<(String, u64)>)
        requires
            batch_lines_fit(batches@),
        ensures
            pump_step(*old(self), batches@, debounce_elapsed, *final(self), r),
    {
        match self.mode {
            PaletteMode::GlobalSearch => {},
            _ => return None,
        }
        if !self.has_global_search_worker {
            return None;
        }
        let ghost a = *old(self);
        let ghost bs = batches@;
        let mut src = batches;
        let ghost mut n: int = 0;
        let ghost mut last: Option<int> = None;
        proof {
            assert(bs.take(0) =~= Seq::<GlobalSearchBatch>::empty());
        }
        while src.len() > 0
            invariant
                0 <= n <= bs.len(),
                src@ == bs.skip(n),
                batch_lines_fit(bs),
                a.mode == PaletteMode::GlobalSearch,
                pumped(a.global_search_latest_applied, a.selected, bs.take(n)) == (self.global_search_latest_applied, self.selected, last),
                match last {
                    None => {
                        &&& self.candidates == a.candidates
                        &&& self.preview_lines == a.preview_lines
                        &&& self.global_search_entries == a.global_search_entries
                    },
                    Some(k) => 0 <= k < n && match bs[k].error {
                        Some(err) => {
                            &&& self.global_search_entries@.len() == 0
                            &&& self.candidates@.len() == 0
                            &&& string_views(self.preview_lines@) == seq!["Global search error: "@ + err@]
                        },
                        None => {
                            &&& self.global_search_entries == bs[k].results
                            &&& cand_views(self.candidates@) == search_rows(bs[k].results@)
                            &&& no_positions(self.candidates@)
                            &&& string_views(self.preview_lines@) == if self.selected < bs[k].results@.len() {
                                string_views(bs[k].results@[self.selected as int].preview_lines@)
                            } else {
                                Seq::empty()
                            }
                        },
                    },
                },
                (Palette {
                    candidates: a.candidates,
                    selected: a.selected,
                    preview_lines: a.preview_lines,
                    global_search_entries: a.global_search_entries,
                    global_search_latest_applied: a.global_search_latest_applied,
                    ..*self
                }) == a,
            decreases src@.len(),
        {
            let batch = src.remove(0);
            proof {
                assert(batch == bs[n]);
                assert(bs.take(n + 1).drop_last() =~= bs.take(n));
                assert(bs.take(n + 1).last() == batch);
            }
            if batch.generation < self.global_search_latest_applied {
                proof {
                    n = n + 1;
                    assert(src@ =~= bs.skip(n));
                }
            } else {
                self.global_search_latest_applied = batch.generation;
                match batch.error {
                    Some(error) => {
                        self.global_search_entries = Vec::new();
                        self.candidates = Vec::new();
                        self.selected = 0;
                        let mut msg = owned("Global search error: ");
                        push_str(&mut msg, error.as_str());
                        let mut lines = Vec::new();
                        lines.push(msg);
                        self.preview_lines = lines;
                        proof {
                            assert(string_views(self.preview_lines@) =~= seq!["Global search error: "@ + error@]);
                        }
                    },
                    None => {
                        let results = batch.results;
                        let mut rows: Vec<ScoredCandidate> = Vec::new();
                        let mut i: usize = 0;
                        while i < results.len()
                            invariant
                                i <= results@.len(),
                                results == bs[n].results,
                                batch_lines_fit(bs),
                                0 <= n < bs.len(),
                                cand_views(rows@) == search_rows(results@).take(i as int),
                                no_positions(rows@),
                            decreases results@.len() - i,
                        {
                            proof {
                                assert(results@[i as int] == bs[n].results@[i as int]);
                            }
                            let c = search_row(&results[i], i);
                            let ghost before = rows@;
                            rows.push(c);
                            proof {
                                assert(cand_views(rows@) =~= cand_views(before).push(cand_view(c)));
                                assert(search_rows(results@).take(i + 1) =~= search_rows(results@).take(i as int).push(search_rows(results@)[i as int]));
                            }
                            i = i + 1;
                        }
                        proof {
                            assert(search_rows(results@).take(i as int) =~= search_rows(results@));
                        }
                        let len = rows.len();
                        if self.selected >= len {
                            self.selected = if len == 0 { 0 } else { len - 1 };
                        }
                        self.preview_lines = if self.selected < results.len() {
                            clone_lines(&results[self.selected].preview_lines)
                        } else {
                            Vec::new()
                        };
                        proof {
                            if !(self.selected < results@.len()) {
                                assert(string_views(self.preview_lines@) =~= Seq::<Seq<char>>::empty());
                            }
                        }
                        self.candidates = rows;
                        self.global_search_entries = results;
                    },
                }
                proof {
                    last = Some(n);
                    n = n + 1;
                    assert(src@ =~= bs.skip(n));
                }
            }
        }
        proof {
            assert(bs.take(n) =~= bs);
        }
        if !self.global_search_dirty || !debounce_elapsed {
            return None;
        }
        self.global_search_generation = if self.global_search_generation < u64::MAX {
            self.global_search_generation + 1
        } else {
            u64::MAX
        };
        self.global_search_dirty = false;
        Some((self.input.text.clone(), self.global_search_generation))
    }
}


/// The first 200 lines of `content`.
pub open spec fn preview_text_lines(content: Seq<char>) -> Seq<Seq<char>> {
    let l = text_lines(content);
    if l.len() > 200 {
        l.take(200)
    } else {
        l
    }
}

/// The cache with `lines` stored for `key`, in place of an earlier preview
/// of it.
pub open spec fn cache_put(c: Seq<(String, Vec<String>)>, key: String, lines: Vec<String>) -> Seq<(String, Vec<String>)> {
    match cache_index(c, key@) {
        Some(k) => c.update(k, (key, lines)),
        None => c.push((key, lines)),
    }
}

impl Palette {
    /// The unified palette: commands after `>` (its starting input), symbols
    /// after `@`, a line number after `:`, files otherwise. The caller runs a
    /// preview worker for it.
    pub fn new(
        files: Vec<String>,
        project_root: &str,
        git_status_map: &Vec<(String, GitFileStatus)>,
        command_history: Option<Vec<String>>,
        symbols: Vec<(String, usize, usize, Vec<String>)>,
        active_doc_lines: Vec<String>,
    ) -> (r: Palette)
        ensures
            r.input.wf(),
            r.input.text@ == ">"@,
            r.input.cursor == 1,
            r.mode == PaletteMode::Command,
            r.candidates@.len() == 0,
            r.selected == 0,
            r.scroll_offset == 0,
            r.preview_lines@.len() == 0,
            r.jump_target_preview_line is None,
            r.jump_target_char_col is None,
            nothing_previewed(r.last_previewed),
            r.preview_cache@.len() == 0,
            r.requested_paths@.len() == 0,
            r.preview_requests@.len() == 0,
            r.file_read_request is None,
            r.has_preview_worker,
            r.buffer_entries@.len() == 0,
            r.jump_entries@.len() == 0,
            r.reference_entries@.len() == 0,
            r.git_branch_entries@.len() == 0,
            r.symbol_entries@ == symbols_of(symbols@),
            r.symbol_submit_behavior == SymbolSubmitBehavior::JumpToLocation,
            r.file_entries == files,
            r.project_root@ == project_root@,
            r.git_status_map@ == git_status_map@,
            r.command_history == command_history,
            r.global_search_entries@.len() == 0,
            !r.has_global_search_worker,
            r.global_search_generation == 0,
            r.global_search_latest_applied == 0,
            !r.global_search_dirty,
            r.global_search_edits == 0,
            r.active_doc_lines == active_doc_lines,
            r.is_unified,
            r.caller_label is None,
    {
        let symbol_entries = symbol_entries_from(symbols);
        proof {
            reveal_strlit(">");
        }
        let mut p = blank_picker(PaletteMode::Command, Vec::new(), 0);
        p.input = TextInput::with_text(">");
        p.symbol_entries = symbol_entries;
        p.file_entries = files;
        p.project_root = owned(project_root);
        p.has_preview_worker = true;
        p.git_status_map = clone_status_map(git_status_map);
        p.command_history = command_history;
        p.active_doc_lines = active_doc_lines;
        p.is_unified = true;
        p
    }

    /// The global-search palette over `files`. The caller runs its search
    /// worker and starts the wait before the first search.
    pub fn new_global_search(
        files: Vec<String>,
        project_root: &str,
        git_status_map: &Vec<(String, GitFileStatus)>,
    ) -> (r: Palette)
        ensures
            r.input.wf(),
            r.input.text@.len() == 0,
            r.input.cursor == 0,
            r.mode == PaletteMode::GlobalSearch,
            r.candidates@.len() == 0,
            r.selected == 0,
            r.scroll_offset == 0,
            preview_of(r) == blank_preview(),
            r.preview_cache@.len() == 0,
            r.requested_paths@.len() == 0,
            r.preview_requests@.len() == 0,
            r.file_read_request is None,
            !r.has_preview_worker,
            r.buffer_entries@.len() == 0,
            r.jump_entries@.len() == 0,
            r.reference_entries@.len() == 0,
            r.git_branch_entries@.len() == 0,
            r.symbol_entries@.len() == 0,
            r.symbol_submit_behavior == SymbolSubmitBehavior::JumpToLocation,
            r.file_entries == files,
            r.project_root@ == project_root@,
            r.git_status_map@ == git_status_map@,
            r.command_history is None,
            r.global_search_entries@.len() == 0,
            r.has_global_search_worker,
            r.global_search_generation == 0,
            r.global_search_latest_applied == 0,
            r.global_search_dirty,
            r.global_search_edits == 0,
            r.active_doc_lines@.len() == 0,
            !r.is_unified,
            r.caller_label is None,
    {
        let mut p = blank_picker(PaletteMode::GlobalSearch, Vec::new(), 0);
        p.file_entries = files;
        p.project_root = owned(project_root);
        p.git_status_map = clone_status_map(git_status_map);
        p.has_global_search_worker = true;
        p.global_search_dirty = true;
        p
    }

    /// Replaces the path-to-status pairs.
    pub fn set_git_status_map(&mut self, git_status_map: &Vec<(String, GitFileStatus)>)
        ensures
            final(self).git_status_map@ == git_status_map@,
            *final(self) == (Palette { git_status_map: final(self).git_status_map, ..*old(self) }),
    {
        self.git_status_map = clone_status_map(git_status_map);
    }

    /// Replaces the input, the cursor at its end.
    pub fn set_input(&mut self, input: String)
        ensures
            final(self).input.wf(),
            final(self).input.text@ == input@,
            final(self).input.cursor == input@.len(),
            same_but_input(*old(self), *final(self)),
    {
        self.input.set_text(input);
    }

    /// Replaces the project's files and forgets the previews read so far.
    /// When a global-search worker runs, the search starts over and this
    /// answers `true`: the caller restarts the worker with the new files.
    pub fn set_file_entries(&mut self, files: Vec<String>) -> (restart: bool)
        ensures
            restart == old(self).has_global_search_worker,
            final(self).file_entries == files,
            final(self).requested_paths@.len() == 0,
            final(self).preview_cache@.len() == 0,
            restart ==> {
                &&& final(self).global_search_entries@.len() == 0
                &&& final(self).candidates@.len() == 0
                &&& final(self).selected == 0
                &&& final(self).preview_lines@.len() == 0
                &&& final(self).global_search_generation == 0
                &&& final(self).global_search_latest_applied == 0
                &&& final(self).global_search_dirty
                &&& final(self).global_search_edits == next_edit(old(self).global_search_edits)
                &&& (Palette {
                    file_entries: old(self).file_entries,
                    requested_paths: old(self).requested_paths,
                    preview_cache: old(self).preview_cache,
                    global_search_entries: old(self).global_search_entries,
                    candidates: old(self).candidates,
                    selected: old(self).selected,
                    preview_lines: old(self).preview_lines,
                    global_search_generation: old(self).global_search_generation,
                    global_search_latest_applied: old(self).global_search_latest_applied,
                    global_search_dirty: old(self).global_search_dirty,
                    global_search_edits: old(self).global_search_edits,
                    ..*final(self)
                }) == *old(self)
            },
            !restart ==> (Palette {
                file_entries: old(self).file_entries,
                requested_paths: old(self).requested_paths,
                preview_cache: old(self).preview_cache,
                ..*final(self)
            }) == *old(self),
    {
        self.file_entries = files;
        self.requested_paths = Vec::new();
        self.preview_cache = Vec::new();
        self.restart_global_search_worker()
    }

    /// Starts the global search over when a worker runs: no results, no
    /// generation applied yet, and a search due once the input rests.
    /// Answers whether a worker runs, for the caller to restart it.
    fn restart_global_search_worker(&mut self) -> (restart: bool)
        ensures
            restart == old(self).has_global_search_worker,
            !restart ==> *final(self) == *old(self),
            restart ==> {
                &&& final(self).global_search_entries@.len() == 0
                &&& final(self).candidates@.len() == 0
                &&& final(self).selected == 0
                &&& final(self).preview_lines@.len() == 0
                &&& final(self).global_search_generation == 0
                &&& final(self).global_search_latest_applied == 0
                &&& final(self).global_search_dirty
                &&& final(self).global_search_edits == next_edit(old(self).global_search_edits)
                &&& (Palette {
                    global_search_entries: old(self).global_search_entries,
                    candidates: old(self).candidates,
                    selected: old(self).selected,
                    preview_lines: old(self).preview_lines,
                    global_search_generation: old(self).global_search_generation,
                    global_search_latest_applied: old(self).global_search_latest_applied,
                    global_search_dirty: old(self).global_search_dirty,
                    global_search_edits: old(self).global_search_edits,
                    ..*final(self)
                }) == *old(self)
            },
    {
        if !self.has_global_search_worker {
            return false;
        }
        self.global_search_entries = Vec::new();
        self.candidates = Vec::new();
        self.selected = 0;
        self.preview_lines = Vec::new();
        self.global_search_generation = 0;
        self.global_search_latest_applied = 0;
        self.global_search_dirty = true;
        self.global_search_edits = if self.global_search_edits < u64::MAX {
            self.global_search_edits + 1
        } else {
            0
        };
        true
    }

    /// Replaces the branches; the branch picker re-filters and re-previews.
    pub fn set_git_branch_entries(&mut self, entries: Vec<GitBranchPickerEntry>)
        requires
            old(self).wf(),
            forall|i: int| 0 <= i < entries@.len() ==> (#[trigger] entries@[i]).label@.len() <= MAX_MATCH_CHARS,
        ensures
            final(self).wf(),
            final(self).git_branch_entries == entries,
            ({
                let a = Palette {
                    git_branch_entries: entries,
                    last_previewed: LastPreviewed { git_branch: None, ..old(self).last_previewed },
                    ..*old(self)
                };
                if old(self).mode == PaletteMode::GitBranchPicker {
                    &&& picker_refresh(a, *final(self), plain_rows(git_branch_items(entries@)), a.input.text@, true)
                    &&& preview_of(*final(self)) == git_branch_previewed(*final(self), preview_of(a))
                } else {
                    *final(self) == a
                }
            }),
    {
        self.git_branch_entries = entries;
        self.last_previewed.git_branch = None;
        if let PaletteMode::GitBranchPicker = self.mode {
            self.filter_git_branch_candidates();
            self.update_git_branch_preview();
        }
    }

    /// After the project's files changed: the unified palette re-lists;
    /// global search waits to search again.
    pub fn refresh_after_file_entries_update(&mut self, registry: &CommandRegistry, toggles: &DisplayToggles)
        requires
            old(self).wf(),
            commands_fit(registry.entries@),
        ensures
            final(self).wf(),
            if old(self).is_unified {
                candidates_step(*old(self), *registry, *toggles, *final(self))
            } else if old(self).mode == PaletteMode::GlobalSearch {
                *final(self) == (Palette {
                    global_search_dirty: true,
                    global_search_edits: next_edit(old(self).global_search_edits),
                    ..*old(self)
                })
            } else {
                *final(self) == *old(self)
            },
    {
        if self.is_unified {
            self.update_candidates(registry, toggles);
            return;
        }
        if let PaletteMode::GlobalSearch = self.mode {
            self.global_search_dirty = true;
            self.global_search_edits = if self.global_search_edits < u64::MAX {
                self.global_search_edits + 1
            } else {
                0
            };
        }
    }

    /// Stores a preview the worker read, in place of an earlier one.
    pub fn accept_preview_result(&mut self, rel_path: String, lines: Vec<String>)
        ensures
            final(self).preview_cache@ == cache_put(old(self).preview_cache@, rel_path, lines),
            *final(self) == (Palette { preview_cache: final(self).preview_cache, ..*old(self) }),
    {
        match self.find_cached(rel_path.as_str()) {
            Some(k) => {
                self.preview_cache.set(k, (rel_path, lines));
            },
            None => {
                self.preview_cache.push((rel_path, lines));
            },
        }
    }

    /// Shows the pending file's first 200 lines once read (`None` when it
    /// could not be read), caches them, and asks for the nearby files.
    pub fn finish_file_preview(&mut self, content: Option<String>)
        requires
            old(self).file_read_request is Some,
            files_in_range(*old(self)),
        ensures
            final(self).file_read_request is None,
            match content {
                Some(c) => {
                    &&& string_views(final(self).preview_lines@) == preview_text_lines(c@)
                    &&& exists|l: Vec<String>|
                        l@ == final(self).preview_lines@ && final(self).preview_cache@ == cache_put(
                            old(self).preview_cache@,
                            old(self).file_read_request->0,
                            l,
                        )
                },
                None => final(self).preview_lines == old(self).preview_lines && final(self).preview_cache
                    == old(self).preview_cache,
            },
            ({
                let a = Palette {
                    file_read_request: None,
                    preview_lines: final(self).preview_lines,
                    preview_cache: final(self).preview_cache,
                    ..*old(self)
                };
                &&& same_but_file_preview(a, *final(self))
                &&& final(self).last_previewed == a.last_previewed
                &&& final(self).jump_target_preview_line == a.jump_target_preview_line
                &&& final(self).jump_target_char_col == a.jump_target_char_col
                &&& scheduled(a, *final(self))
            }),
    {
        let rel = match self.file_read_request.take() {
            Some(r) => r,
            None => return,
        };
        match content {
            Some(c) => {
                let all = str_lines(c.as_str());
                let mut lines: Vec<String> = Vec::new();
                let mut i: usize = 0;
                while i < all.len() && i < 200
                    invariant
                        i <= all@.len(),
                        i <= 200,
                        lines@ == all@.take(i as int),
                    decreases all@.len() - i,
                {
                    lines.push(all[i].clone());
                    proof {
                        assert(lines@ =~= all@.take(i + 1));
                    }
                    i = i + 1;
                }
                proof {
                    if all@.len() <= 200 {
                        assert(all@.take(i as int) =~= all@);
                    }
                    assert(string_views(lines@) =~= preview_text_lines(c@));
                }
                self.preview_lines = clone_lines(&lines);
                let ghost l = lines;
                self.accept_preview_result(rel, lines);
                proof {
                    assert(l@ == self.preview_lines@);
                }
            },
            None => {},
        }
        self.schedule_nearby_previews();
    }
}


/// A non-empty query lists the rows best score first.
pub proof fn law_listed_best_first(rows: Seq<RowView>, query: Seq<char>, fzf: bool)
    requires
        query.len() > 0,
    ensures
        forall|i: int, j: int|
            0 <= i < j < listed(rows, query, fzf).len() ==> #[trigger] listed(rows, query, fzf)[i].score
                >= #[trigger] listed(rows, query, fzf)[j].score,
{
    let m = matched_rows(rows, query, fzf);
    let sorted = sort_rows(RowOrder::ScoreDescending, m);
    law_sort_rows_in_order(RowOrder::ScoreDescending, m);
    let l = listed(rows, query, fzf);
    assert(l == unranked(sorted));
    assert forall|i: int, j: int| 0 <= i < j < l.len() implies #[trigger] l[i].score >= #[trigger] l[j].score by {
        assert(!row_before(RowOrder::ScoreDescending, sorted[j], sorted[i]));
        assert(l[i] == sorted[i].row && l[j] == sorted[j].row);
    }
}

proof fn lemma_matched_scored(rows: Seq<RowView>, query: Seq<char>, fzf: bool)
    ensures
        forall|k: int| 0 <= k < matched_rows(rows, query, fzf).len() ==>
            label_score((#[trigger] matched_rows(rows, query, fzf)[k]).row.label, query, fzf)
                == Some(matched_rows(rows, query, fzf)[k].row.score),
    decreases rows.len(),
{
    if rows.len() > 0 {
        lemma_matched_scored(rows.drop_last(), query, fzf);
        let prev = matched_rows(rows.drop_last(), query, fzf);
        let m = matched_rows(rows, query, fzf);
        assert forall|k: int| 0 <= k < m.len() implies label_score((#[trigger] m[k]).row.label, query, fzf) == Some(m[k].row.score) by {
            if k < prev.len() {
                assert(m[k] == prev[k]);
            }
        }
    }
}

/// Every row a non-empty query lists carries the score its label gets for
/// that query: only matching rows are listed, with their own scores.
pub proof fn law_listed_rows_match(rows: Seq<RowView>, query: Seq<char>, fzf: bool)
    requires
        query.len() > 0,
    ensures
        forall|k: int| 0 <= k < listed(rows, query, fzf).len() ==>
            label_score((#[trigger] listed(rows, query, fzf)[k]).label, query, fzf) == Some(listed(rows, query, fzf)[k].score),
{
    broadcast use vstd::seq_lib::group_to_multiset_ensures;
    let m = matched_rows(rows, query, fzf);
    let sorted = sort_rows(RowOrder::ScoreDescending, m);
    law_sort_rows_permutes(RowOrder::ScoreDescending, m);
    lemma_matched_scored(rows, query, fzf);
    let l = listed(rows, query, fzf);
    assert forall|k: int| 0 <= k < l.len() implies label_score((#[trigger] l[k]).label, query, fzf) == Some(l[k].score) by {
        assert(l[k] == sorted[k].row);
        assert(sorted.to_multiset().count(sorted[k]) > 0);
        assert(m.contains(sorted[k]));
        let j = choose|j: int| 0 <= j < m.len() && m[j] == sorted[k];
        assert(label_score(m[j].row.label, query, fzf) == Some(m[j].row.score));
    }
}

/// Recently run commands come first, most recent first; the others follow
/// by label.
pub proof fn law_recent_first(s: Seq<RankedRow>)
    ensures
        forall|i: int, j: int| 0 <= i < j < sort_rows(RowOrder::RankThenLabel, s).len() ==> {
            let a = #[trigger] sort_rows(RowOrder::RankThenLabel, s)[i];
            let b = #[trigger] sort_rows(RowOrder::RankThenLabel, s)[j];
            &&& (b.rank is Some ==> a.rank is Some && a.rank->0 <= b.rank->0)
            &&& (a.rank is None && b.rank is None ==> !chars_lt(b.row.label, a.row.label))
        },
{
    law_sort_rows_in_order(RowOrder::RankThenLabel, s);
}

/// Moving down then up, or up then down, comes back to the same row.
pub proof fn law_next_prev_round_trip(sel: usize, n: nat)
    requires
        sel < n,
        n <= usize::MAX,
    ensures
        prev_index(next_index(sel, n), n) == sel,
        next_index(prev_index(sel, n), n) == sel,
{
}

/// A key that is not a press (the release of Enter that confirms an IME
/// composition, say) is consumed and changes nothing.
pub proof fn law_released_keys_change_nothing(
    a: Palette,
    key: KeyEvent,
    reg: CommandRegistry,
    t: DisplayToggles,
    b: Palette,
    r: EventResult,
)
    requires
        key.kind != KeyEventKind::Press,
        key_step(a, key, reg, t, b, r),
    ensures
        b == a,
        r == EventResult::Consumed,
{
}

/// `select_next` keeps the rows and selects the one after, the first after
/// the last (`(selected + 1) % n`); a following `select_prev` restores the
/// selection. With no rows both change nothing.
pub proof fn law_next_then_prev_restores(a: Palette, b: Palette, c: Palette)
    requires
        a.candidates@.len() == 0 || a.selected < a.candidates@.len(),
        next_step(a, b),
        prev_step(b, c),
    ensures
        b.candidates@ == a.candidates@,
        a.candidates@.len() == 0 ==> b == a && c == a,
        a.candidates@.len() > 0 ==> b.selected == (a.selected + 1) % (a.candidates@.len() as int),
        c.candidates@ == a.candidates@,
        c.selected == a.selected,
{
    let n = a.candidates@.len();
    if n > 0 {
        let s1 = next_index(a.selected, n);
        assert(b.selected == s1);
        assert(c.selected == prev_index(s1, n));
        assert(n == a.candidates.len());
        law_next_prev_round_trip(a.selected, n);
        let m = n as int;
        if a.selected + 1 < n {
            vstd::arithmetic::div_mod::lemma_small_mod((a.selected + 1) as nat, n);
            assert((a.selected + 1) % m == a.selected + 1);
        } else {
            assert(a.selected + 1 == m);
            vstd::arithmetic::div_mod::lemma_mod_self_0(m);
        }
    }
}

/// Batches older than the latest generation applied change nothing.
pub proof fn law_stale_batches_ignored(latest: u64, sel: usize, bs: Seq<GlobalSearchBatch>)
    requires
        forall|i: int| 0 <= i < bs.len() ==> (#[trigger] bs[i]).generation < latest,
    ensures
        pumped(latest, sel, bs) == (latest, sel, Option::<int>::None),
    decreases bs.len(),
{
    if bs.len() > 0 {
        law_stale_batches_ignored(latest, sel, bs.drop_last());
        assert(bs[bs.len() - 1].generation < latest);
    }
}

} // verus!
