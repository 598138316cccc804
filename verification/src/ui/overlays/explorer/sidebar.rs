//! The file explorer sidebar: the entries of one directory (or, in the
//! changed-files view, the paths git reports as changed), a selection, a
//! find prompt that jumps to the best match, a copy menu, and prompts to
//! rename, add and delete entries. Touching the file system is the
//! application's part: the sidebar says what it needs in `request` and takes
//! the answers through `apply_listing` and the `finish_` methods.
use vstd::prelude::*;

use crate::command::git::GitFileStatus;
use crate::input::action::{Action, AppAction, BufferAction, IntegrationAction, WorkspaceAction};
use crate::std_calls::{
    lowercase_str, path_components, path_components_of, path_file_name, path_file_name_of, path_join,
    path_join_of, path_parent, path_parent_of, path_strip_prefix, path_strip_prefix_of,
};
use crate::ui::text::{
    display_width, fit_len, fits, fits_in_usize, lemma_width_concat, str_width, truncate_to_width,
};
use crate::ui::framework::component::EventResult;
use crate::input::chord::KeyState;
use crate::input::key::{KeyCode, KeyEvent};
use crate::std_calls::{string_pop, string_push};
use crate::strings::{
    has_prefix, owned, push_str, starts_with, str_eq, trim, trim_end_slashes, trim_trailing_slashes,
    trimmed,
};
use crate::utf8::str_chars;
use crate::ui::text_input::{delete_prev_word_input, without_prev_word};
use crate::ui::overlays::project::root_picker::ListedEntry;
use crate::ui::shared::file_browser::{
    folded_name, gives_name, is_single_name, is_valid_single_name, lemma_sort_by_key_congruent,
    lemma_sort_by_key_permutes, lemma_sort_by_key_sorted, sort_by_key_stable,
    sort_by_name_case_insensitive,
};
use crate::ui::shared::filtering::{fuzzy_match, fuzzy_score, MAX_MATCH_CHARS};
use crate::ui::shared::ranking::chars_lt;

verus! {

/// One row of the sidebar.
#[derive(Debug, Clone, PartialEq, Eq)]
pub struct DirEntry {
    pub name: String,
    pub is_dir: bool,
    pub git_status: Option<GitFileStatus>,
}

/// Whether the sidebar lists a directory or the changed files.
#[derive(Debug, Clone, Copy, PartialEq, Eq)]
pub enum ExplorerMode {
    AllFiles,
    ChangedOnly,
}

/// Which row to select once the entries have been read again.
#[derive(Debug, Clone, PartialEq, Eq)]
pub enum Reselect {
    /// The first row.
    First,
    /// The row with this name, when there is one (the first row otherwise).
    Name(String),
    /// This row, or the last one when there are fewer.
    Index(usize),
}

/// What the sidebar needs from the file system.
#[derive(Debug, Clone, PartialEq, Eq)]
pub enum ExplorerRequest {
    /// The entries of `dir`, answered with `apply_listing`.
    ListDirectory { dir: String, reselect: Reselect },
    /// Renaming `from` to `to` unless `to` exists, answered with
    /// `finish_rename`.
    Rename { from: String, to: String, new_name: String },
    /// Creating `path` (a directory when `is_dir`, else an empty file) unless
    /// it exists, answered with `finish_add`.
    Create { path: String, name: String, is_dir: bool },
    /// Removing `path` (with its contents when `is_dir`), answered with
    /// `finish_delete`; `selected` is the row to keep selected afterwards.
    Delete { path: String, name: String, is_dir: bool, selected: usize },
}

/// How a rename or a creation went.
#[derive(Debug, Clone, PartialEq, Eq)]
pub enum FsOutcome {
    Done,
    /// The target already existed; nothing was changed.
    AlreadyExists,
    /// The file system refused, with its message.
    Failed(String),
}

/// The status `map` gives `path`: that of the last pair with this path, as
/// a map built by inserting the pairs in order holds it.
pub open spec fn status_of(map: Seq<(String, GitFileStatus)>, path: Seq<char>) -> Option<GitFileStatus>
    decreases map.len(),
{
    if map.len() == 0 {
        None
    } else if map.last().0@ == path {
        Some(map.last().1)
    } else {
        status_of(map.drop_last(), path)
    }
}

/// No path occurs twice in `map`.
pub open spec fn keys_unique(map: Seq<(String, GitFileStatus)>) -> bool {
    forall|i: int, j: int| 0 <= i < j < map.len() ==> (#[trigger] map[i]).0@ != (#[trigger] map[j]).0@
}

/// `path` below the project root `root`, or `path` itself when it lies
/// elsewhere.
pub open spec fn relative_to(path: Seq<char>, root: Seq<char>) -> Seq<char> {
    match path_strip_prefix_of(path, root) {
        Some(r) => r,
        None => path,
    }
}

/// A listed entry as a row: files get the status the map gives their path
/// below the project root; directories get none.
pub open spec fn shown_entry(e: ListedEntry, map: Seq<(String, GitFileStatus)>, root: Seq<char>) -> DirEntry {
    DirEntry {
        name: e.name,
        is_dir: e.is_dir,
        git_status: if e.is_dir {
            None
        } else {
            status_of(map, relative_to(e.path@, root))
        },
    }
}

/// The rows for the listed entries that are not hidden (their name does not
/// start with `.`) and are directories (`dirs`) or not, in listing order.
pub open spec fn listed_group(
    es: Seq<ListedEntry>,
    dirs: bool,
    map: Seq<(String, GitFileStatus)>,
    root: Seq<char>,
) -> Seq<DirEntry>
    decreases es.len(),
{
    if es.len() == 0 {
        Seq::empty()
    } else {
        let rest = listed_group(es.drop_last(), dirs, map, root);
        let e = es.last();
        if !has_prefix(e.name@, "."@) && e.is_dir == dirs {
            rest.push(shown_entry(e, map, root))
        } else {
            rest
        }
    }
}

/// A row's sort key: its name in lowercase.
pub open spec fn name_key() -> spec_fn(DirEntry) -> Seq<char> {
    |e: DirEntry| lowercase_str(e.name@)
}

/// The rows of a directory listing: directories, then files, each sorted
/// by lowercase name with ties kept in listing order.
pub open spec fn listing(es: Seq<ListedEntry>, map: Seq<(String, GitFileStatus)>, root: Seq<char>) -> Seq<DirEntry> {
    sort_by_key_stable(listed_group(es, true, map, root), name_key()) + sort_by_key_stable(
        listed_group(es, false, map, root),
        name_key(),
    )
}

/// The row for one changed path.
pub open spec fn changed_entry(p: (String, GitFileStatus)) -> DirEntry {
    DirEntry { name: p.0, is_dir: false, git_status: Some(p.1) }
}

/// The rows of the changed-files view: every changed path as a file with its
/// status, sorted by lowercase path.
pub open spec fn changed_entries(map: Seq<(String, GitFileStatus)>) -> Seq<DirEntry> {
    sort_by_key_stable(map.map_values(|p: (String, GitFileStatus)| changed_entry(p)), name_key())
}

/// The first row named `name`.
pub open spec fn name_index(entries: Seq<DirEntry>, name: Seq<char>) -> Option<int>
    decreases entries.len(),
{
    if entries.len() == 0 {
        None
    } else {
        match name_index(entries.drop_last(), name) {
            Some(i) => Some(i),
            None => if entries.last().name@ == name {
                Some(entries.len() - 1)
            } else {
                None
            },
        }
    }
}

/// Which row to select, as the specifications speak of it.
pub enum RowPick {
    First,
    Name(Seq<char>),
    Index(int),
}

/// The row choice `r` stands for.
pub open spec fn pick_of(r: Reselect) -> RowPick {
    match r {
        Reselect::First => RowPick::First,
        Reselect::Name(n) => RowPick::Name(n@),
        Reselect::Index(i) => RowPick::Index(i as int),
    }
}

/// The row selected after the entries were read again.
pub open spec fn reselected(entries: Seq<DirEntry>, pick: RowPick) -> int {
    match pick {
        RowPick::First => 0,
        RowPick::Name(n) => match name_index(entries, n) {
            Some(i) => i,
            None => 0,
        },
        RowPick::Index(i) => if entries.len() == 0 {
            0
        } else if i < entries.len() {
            i
        } else {
            entries.len() - 1
        },
    }
}

/// The file explorer sidebar.
pub struct Explorer {
    pub mode: ExplorerMode,
    pub current_dir: String,
    pub entries: Vec<DirEntry>,
    /// The rows shown, as indices into `entries`: every entry, in order.
    pub visible_entries: Vec<usize>,
    /// The selected row, an index into `visible_entries`.
    pub selected: usize,
    pub scroll_offset: usize,
    pub find_active: bool,
    pub find_input: String,
    pub copy_menu_active: bool,
    pub rename_active: bool,
    pub rename_input: String,
    pub add_active: bool,
    pub add_input: String,
    pub delete_confirm_active: bool,
    pub project_root: String,
    /// The changed paths below the project root, each with its status.
    pub git_status_map: Vec<(String, GitFileStatus)>,
    /// What the sidebar waits for from the file system.
    pub request: Option<ExplorerRequest>,
}

impl Explorer {
    /// Every entry is shown, in order; the selection is a shown row (0 when
    /// there is none); no changed path occurs twice; and names are short
    /// enough to be matched.
    pub open spec fn wf(self) -> bool {
        &&& self.visible_entries@.len() == self.entries@.len()
        &&& forall|i: int| 0 <= i < self.entries@.len() ==> #[trigger] self.visible_entries@[i] == i
        &&& if self.entries@.len() == 0 {
            self.selected == 0
        } else {
            self.selected < self.entries@.len()
        }
        &&& forall|i: int| 0 <= i < self.entries@.len() ==> (#[trigger] self.entries@[i]).name@.len() <= MAX_MATCH_CHARS
        &&& Self::map_ok(self.git_status_map@)
    }

    /// The map has no path twice and its paths are short enough to be
    /// matched.
    pub open spec fn map_ok(map: Seq<(String, GitFileStatus)>) -> bool {
        &&& keys_unique(map)
        &&& forall|i: int| 0 <= i < map.len() ==> (#[trigger] map[i]).0@.len() <= MAX_MATCH_CHARS
    }

    /// `n` keeps `o`'s mode, project root and map, and has every prompt and
    /// menu closed with empty inputs and the view scrolled to the top.
    pub open spec fn reset(o: Self, n: Self) -> bool {
        &&& n.mode == o.mode
        &&& n.project_root == o.project_root
        &&& n.git_status_map == o.git_status_map
        &&& n.scroll_offset == 0
        &&& !n.find_active && n.find_input@.len() == 0
        &&& !n.copy_menu_active
        &&& !n.rename_active && n.rename_input@.len() == 0
        &&& !n.add_active && n.add_input@.len() == 0
        &&& !n.delete_confirm_active
    }

    /// `n` is `o` with its entries read again for `dir`, selecting as `rs`
    /// says: the changed-files view reads the map at once; a directory is
    /// asked of the file system and holds no rows until the listing comes.
    pub open spec fn reloaded(o: Self, n: Self, dir: Seq<char>, rs: RowPick) -> bool {
        &&& Self::reset(o, n)
        &&& n.current_dir@ == dir
        &&& n.visible_entries@.len() == n.entries@.len()
        &&& if o.mode == ExplorerMode::ChangedOnly {
            &&& n.entries@ == changed_entries(o.git_status_map@)
            &&& n.selected == reselected(n.entries@, rs)
            &&& n.request is None
        } else {
            &&& n.entries@.len() == 0
            &&& n.selected == 0
            &&& n.request matches Some(ExplorerRequest::ListDirectory { dir: d, reselect: r }) && d@ == dir
                && pick_of(r) == rs
        }
    }
}

/// The status `map` gives `path`.
fn lookup_status(map: &Vec<(String, GitFileStatus)>, path: &str) -> (r: Option<GitFileStatus>)
    ensures
        r == status_of(map@, path@),
{
    let mut i: usize = map.len();
    proof {
        assert(map@.take(i as int) =~= map@);
    }
    while i > 0
        invariant
            i <= map@.len(),
            status_of(map@, path@) == status_of(map@.take(i as int), path@),
        decreases i,
    {
        let ghost t = map@.take(i as int);
        proof {
            assert(t.drop_last() =~= map@.take(i - 1));
            assert(t.last() == map@[i - 1]);
        }
        if str_eq(map[i - 1].0.as_str(), path) {
            return Some(map[i - 1].1);
        }
        i = i - 1;
    }
    None
}

/// A row's name.
fn entry_name(e: &DirEntry) -> (r: &str)
    ensures
        r@ == e.name@,
{
    e.name.as_str()
}

/// Sorts rows by lowercase name, keeping the order of names that fold alike.
fn sort_rows(rows: &mut Vec<DirEntry>)
    ensures
        final(rows)@ == sort_by_key_stable(old(rows)@, name_key()),
{
    let ghost before = rows@;
    sort_by_name_case_insensitive(rows, entry_name);
    proof {
        assert forall|i: int| 0 <= i < before.len() implies folded_name(entry_name)(before[i]) == name_key()(before[i]) by {
            assert(gives_name(entry_name, before[i]));
            let r = choose|r: &str| entry_name.ensures((&before[i],), r);
            assert(r@ == before[i].name@);
        }
        lemma_sort_by_key_congruent(before, folded_name(entry_name), name_key());
    }
}

/// The indices `0..n`.
fn all_rows(n: usize) -> (v: Vec<usize>)
    ensures
        v@.len() == n,
        forall|i: int| 0 <= i < n ==> #[trigger] v@[i] == i,
{
    let mut v: Vec<usize> = Vec::new();
    let mut i: usize = 0;
    while i < n
        invariant
            i <= n,
            v@.len() == i,
            forall|k: int| 0 <= k < i ==> #[trigger] v@[k] == k,
        decreases n - i,
    {
        v.push(i);
        i = i + 1;
    }
    v
}

/// The first row named `name` among the first `k` is the first overall.
proof fn lemma_name_index_prefix(entries: Seq<DirEntry>, name: Seq<char>, k: int)
    requires
        0 <= k <= entries.len(),
        name_index(entries.take(k), name) is Some,
    ensures
        name_index(entries, name) == name_index(entries.take(k), name),
    decreases entries.len(),
{
    if entries.len() > k {
        assert(entries.drop_last().take(k) =~= entries.take(k));
        lemma_name_index_prefix(entries.drop_last(), name, k);
    } else {
        assert(entries.take(k) =~= entries);
    }
}

/// The row found by name is a row with that name.
proof fn lemma_name_index_bound(entries: Seq<DirEntry>, name: Seq<char>)
    ensures
        name_index(entries, name) matches Some(i) ==> 0 <= i < entries.len() && entries[i].name@ == name,
    decreases entries.len(),
{
    if entries.len() > 0 {
        lemma_name_index_bound(entries.drop_last(), name);
    }
}

/// The row selected after a read is a row (0 when there is none).
proof fn lemma_name_index_range(entries: Seq<DirEntry>, pick: RowPick)
    requires
        pick matches RowPick::Index(i) ==> i >= 0,
    ensures
        0 <= reselected(entries, pick),
        entries.len() > 0 ==> reselected(entries, pick) < entries.len(),
        entries.len() == 0 ==> reselected(entries, pick) == 0,
{
    if let RowPick::Name(n) = pick {
        lemma_name_index_bound(entries, n);
    }
}

/// Every sorted row is one of the rows sorted.
proof fn lemma_sorted_rows_names(rows: Seq<DirEntry>)
    ensures
        forall|k: int| 0 <= k < rows.len() ==> exists|j: int| 0 <= j < rows.len() && rows[j] == #[trigger] sort_by_key_stable(rows, name_key())[k],
        sort_by_key_stable(rows, name_key()).len() == rows.len(),
{
    broadcast use vstd::seq_lib::group_to_multiset_ensures;
    let s = sort_by_key_stable(rows, name_key());
    lemma_sort_by_key_permutes(rows, name_key());
    assert forall|k: int| 0 <= k < rows.len() implies exists|j: int| 0 <= j < rows.len() && rows[j] == #[trigger] s[k] by {
        assert(s.to_multiset().count(s[k]) > 0);
        assert(rows.contains(s[k]));
    }
}

/// Listed rows keep the names of listed entries.
proof fn lemma_group_names(es: Seq<ListedEntry>, dirs: bool, map: Seq<(String, GitFileStatus)>, root: Seq<char>)
    requires
        forall|i: int| 0 <= i < es.len() ==> (#[trigger] es[i]).name@.len() <= MAX_MATCH_CHARS,
    ensures
        forall|k: int| 0 <= k < listed_group(es, dirs, map, root).len() ==> (#[trigger] listed_group(es, dirs, map, root)[k]).name@.len() <= MAX_MATCH_CHARS,
    decreases es.len(),
{
    if es.len() > 0 {
        let t = es.drop_last();
        assert forall|i: int| 0 <= i < t.len() implies (#[trigger] t[i]).name@.len() <= MAX_MATCH_CHARS by {
            assert(t[i] == es[i]);
        }
        lemma_group_names(t, dirs, map, root);
        assert(es[es.len() - 1].name@.len() <= MAX_MATCH_CHARS);
    }
}

/// The best match is a row.
proof fn lemma_best_row_bound(entries: Seq<DirEntry>, q: Seq<char>)
    ensures
        best_row(entries, q) matches Some((_, i)) ==> 0 <= i < entries.len(),
    decreases entries.len(),
{
    if entries.len() > 0 {
        lemma_best_row_bound(entries.drop_last(), q);
    }
}

/// `path` below `root`, or `path` itself when it lies elsewhere.
fn relative_path(path: &str, root: &str) -> (r: String)
    ensures
        r@ == relative_to(path@, root@),
{
    match path_strip_prefix(path, root) {
        Some(rel) => rel,
        None => owned(path),
    }
}

impl Explorer {
    /// Selects the first row named `name`; nothing changes when there is
    /// none.
    pub fn select_by_name(&mut self, name: &str)
        requires
            old(self).wf(),
        ensures
            final(self).wf(),
            final(self).selected == match name_index(old(self).entries@, name@) {
                Some(i) => i,
                None => old(self).selected as int,
            },
            *final(self) == (Explorer { selected: final(self).selected, ..*old(self) }),
    {
        let mut i: usize = 0;
        while i < self.visible_entries.len()
            invariant
                self.wf(),
                *self == *old(self),
                i <= self.entries@.len(),
                name_index(self.entries@.take(i as int), name@) is None,
            decreases self.entries@.len() - i,
        {
            let idx = self.visible_entries[i];
            proof {
                let t = self.entries@.take(i + 1);
                assert(t.drop_last() =~= self.entries@.take(i as int));
                assert(t.last() == self.entries@[i as int]);
            }
            if str_eq(self.entries[idx].name.as_str(), name) {
                proof {
                    lemma_name_index_prefix(self.entries@, name@, i as int + 1);
                }
                self.selected = i;
                return;
            }
            i = i + 1;
        }
        proof {
            assert(self.entries@.take(i as int) =~= self.entries@);
        }
    }

    /// Selects the row `rs` asks for, in freshly read entries.
    fn apply_reselect(&mut self, rs: &Reselect)
        requires
            old(self).wf(),
            old(self).selected == 0,
        ensures
            final(self).wf(),
            final(self).selected == reselected(old(self).entries@, pick_of(*rs)),
            *final(self) == (Explorer { selected: final(self).selected, ..*old(self) }),
    {
        proof {
            lemma_name_index_range(self.entries@, pick_of(*rs));
        }
        match rs {
            Reselect::First => {
                assert(reselected(self.entries@, pick_of(*rs)) == 0);
            },
            Reselect::Name(n) => {
                self.select_by_name(n.as_str());
            },
            Reselect::Index(i) => {
                let n = self.visible_entries.len();
                if n > 0 {
                    self.selected = if *i < n {
                        *i
                    } else {
                        n - 1
                    };
                }
            },
        }
    }

    /// Shows every changed path as a file row, sorted by lowercase path.
    fn read_changed_entries(&mut self)
        requires
            Self::map_ok(old(self).git_status_map@),
        ensures
            final(self).wf(),
            *final(self) == (Explorer {
                entries: final(self).entries,
                visible_entries: final(self).visible_entries,
                selected: 0,
                ..*old(self)
            }),
            final(self).entries@ == changed_entries(old(self).git_status_map@),
    {
        let ghost map = self.git_status_map@;
        let ghost rows = map.map_values(|p: (String, GitFileStatus)| changed_entry(p));
        let mut files: Vec<DirEntry> = Vec::new();
        let mut i: usize = 0;
        while i < self.git_status_map.len()
            invariant
                i <= map.len(),
                map == self.git_status_map@,
                rows == map.map_values(|p: (String, GitFileStatus)| changed_entry(p)),
                files@ == rows.take(i as int),
            decreases map.len() - i,
        {
            let p = &self.git_status_map[i];
            files.push(DirEntry { name: p.0.clone(), is_dir: false, git_status: Some(p.1) });
            proof {
                assert(files@ =~= rows.take(i + 1));
            }
            i = i + 1;
        }
        proof {
            assert(rows.take(i as int) =~= rows);
        }
        sort_rows(&mut files);
        proof {
            lemma_sorted_rows_names(rows);
            assert forall|k: int| 0 <= k < files@.len() implies (#[trigger] files@[k]).name@.len() <= MAX_MATCH_CHARS by {
                let j = choose|j: int| 0 <= j < rows.len() && rows[j] == files@[k];
                assert(rows[j] == changed_entry(map[j]));
            }
        }
        self.visible_entries = all_rows(files.len());
        self.entries = files;
        self.selected = 0;
    }
}

/// A copy of the changed paths.
fn copy_map(map: &Vec<(String, GitFileStatus)>) -> (r: Vec<(String, GitFileStatus)>)
    ensures
        r@ == map@,
{
    let mut r: Vec<(String, GitFileStatus)> = Vec::new();
    let mut i: usize = 0;
    while i < map.len()
        invariant
            i <= map@.len(),
            r@ == map@.take(i as int),
        decreases map@.len() - i,
    {
        r.push((map[i].0.clone(), map[i].1));
        proof {
            assert(r@ =~= map@.take(i + 1));
        }
        i = i + 1;
    }
    proof {
        assert(map@.take(i as int) =~= map@);
    }
    r
}

impl Explorer {
    /// A sidebar listing `dir`; it asks for the listing at once.
    pub fn new(dir: String, project_root: &str, git_status_map: &Vec<(String, GitFileStatus)>) -> (e: Self)
        requires
            Self::map_ok(git_status_map@),
        ensures
            e.wf(),
            e.mode == ExplorerMode::AllFiles,
            e.current_dir@ == dir@,
            e.project_root@ == project_root@,
            e.git_status_map@ == git_status_map@,
            Self::reloaded(e, e, dir@, RowPick::First),
    {
        Self::new_with_mode(dir, project_root, git_status_map, ExplorerMode::AllFiles)
    }

    /// A sidebar showing the changed paths, as files named by their path
    /// below the project root.
    pub fn new_changed_only(dir: String, project_root: &str, git_status_map: &Vec<(String, GitFileStatus)>) -> (e: Self)
        requires
            Self::map_ok(git_status_map@),
        ensures
            e.wf(),
            e.mode == ExplorerMode::ChangedOnly,
            e.current_dir@ == dir@,
            e.project_root@ == project_root@,
            e.git_status_map@ == git_status_map@,
            Self::reloaded(e, e, dir@, RowPick::First),
    {
        Self::new_with_mode(dir, project_root, git_status_map, ExplorerMode::ChangedOnly)
    }

    fn new_with_mode(
        dir: String,
        project_root: &str,
        git_status_map: &Vec<(String, GitFileStatus)>,
        mode: ExplorerMode,
    ) -> (e: Self)
        requires
            Self::map_ok(git_status_map@),
        ensures
            e.wf(),
            e.mode == mode,
            e.current_dir@ == dir@,
            e.project_root@ == project_root@,
            e.git_status_map@ == git_status_map@,
            Self::reloaded(e, e, dir@, RowPick::First),
    {
        let mut explorer = Self {
            mode,
            current_dir: dir,
            entries: Vec::new(),
            visible_entries: Vec::new(),
            selected: 0,
            scroll_offset: 0,
            find_active: false,
            find_input: String::new(),
            copy_menu_active: false,
            rename_active: false,
            rename_input: String::new(),
            add_active: false,
            add_input: String::new(),
            delete_confirm_active: false,
            project_root: owned(project_root),
            git_status_map: copy_map(git_status_map),
            request: None,
        };
        explorer.read_directory(Reselect::First);
        explorer
    }

    /// Whether the sidebar shows the changed files.
    pub fn is_changed_only(&self) -> (r: bool)
        ensures
            r == (self.mode == ExplorerMode::ChangedOnly),
    {
        match self.mode {
            ExplorerMode::ChangedOnly => true,
            ExplorerMode::AllFiles => false,
        }
    }

    /// Closes every prompt and reads the entries again, selecting as `rs`
    /// says once they are there.
    fn read_directory(&mut self, rs: Reselect)
        requires
            Self::map_ok(old(self).git_status_map@),
        ensures
            final(self).wf(),
            Self::reloaded(*old(self), *final(self), old(self).current_dir@, pick_of(rs)),
    {
        self.entries = Vec::new();
        self.visible_entries = Vec::new();
        self.selected = 0;
        self.scroll_offset = 0;
        self.find_active = false;
        self.find_input = String::new();
        self.copy_menu_active = false;
        self.rename_active = false;
        self.rename_input = String::new();
        self.add_active = false;
        self.add_input = String::new();
        self.delete_confirm_active = false;
        if self.is_changed_only() {
            self.read_changed_entries();
            self.apply_reselect(&rs);
            self.request = None;
        } else {
            self.request = Some(ExplorerRequest::ListDirectory { dir: self.current_dir.clone(), reselect: rs });
        }
    }

    /// Takes the listing of the directory the sidebar asked for: hidden
    /// entries are left out, directories come first, and each group is
    /// sorted by lowercase name. A listing nobody asked for is ignored.
    pub fn apply_listing(&mut self, listed: Vec<ListedEntry>)
        requires
            old(self).wf(),
            forall|i: int| 0 <= i < listed@.len() ==> (#[trigger] listed@[i]).name@.len() <= MAX_MATCH_CHARS,
        ensures
            final(self).wf(),
            match old(self).request {
                Some(ExplorerRequest::ListDirectory { dir: _, reselect }) => {
                    let es = listing(listed@, old(self).git_status_map@, old(self).project_root@);
                    &&& final(self).entries@ == es
                    &&& final(self).selected == reselected(es, pick_of(reselect))
                    &&& final(self).request is None
                    &&& *final(self) == (Explorer {
                        entries: final(self).entries,
                        visible_entries: final(self).visible_entries,
                        selected: final(self).selected,
                        request: None,
                        ..*old(self)
                    })
                },
                _ => *final(self) == *old(self),
            },
    {
        let rs = match self.request.take() {
            Some(ExplorerRequest::ListDirectory { dir: _, reselect }) => reselect,
            other => {
                self.request = other;
                return;
            },
        };
        let ghost map = self.git_status_map@;
        let ghost root = self.project_root@;
        let mut dirs: Vec<DirEntry> = Vec::new();
        let mut files: Vec<DirEntry> = Vec::new();
        let mut i: usize = 0;
        while i < listed.len()
            invariant
                i <= listed@.len(),
                map == self.git_status_map@,
                root == self.project_root@,
                dirs@ == listed_group(listed@.take(i as int), true, map, root),
                files@ == listed_group(listed@.take(i as int), false, map, root),
            decreases listed@.len() - i,
        {
            let e = &listed[i];
            proof {
                let t = listed@.take(i + 1);
                assert(t.drop_last() =~= listed@.take(i as int));
                assert(t.last() == listed@[i as int]);
            }
            if !starts_with(e.name.as_str(), ".") {
                let status = if e.is_dir {
                    None
                } else {
                    let rel = relative_path(e.path.as_str(), self.project_root.as_str());
                    lookup_status(&self.git_status_map, rel.as_str())
                };
                let row = DirEntry { name: e.name.clone(), is_dir: e.is_dir, git_status: status };
                if e.is_dir {
                    dirs.push(row);
                } else {
                    files.push(row);
                }
            }
            i = i + 1;
        }
        proof {
            assert(listed@.take(i as int) =~= listed@);
        }
        let ghost dg = dirs@;
        let ghost fg = files@;
        sort_rows(&mut dirs);
        sort_rows(&mut files);
        proof {
            lemma_group_names(listed@, true, map, root);
            lemma_group_names(listed@, false, map, root);
            lemma_sorted_rows_names(dg);
            lemma_sorted_rows_names(fg);
        }
        let ghost sd = dirs@;
        let ghost sf = files@;
        dirs.append(&mut files);
        proof {
            assert(dirs@ =~= sd + sf);
            assert forall|k: int| 0 <= k < dirs@.len() implies (#[trigger] dirs@[k]).name@.len() <= MAX_MATCH_CHARS by {
                if k < sd.len() {
                    let j = choose|j: int| 0 <= j < dg.len() && dg[j] == #[trigger] sd[k];
                } else {
                    let j = choose|j: int| 0 <= j < fg.len() && fg[j] == #[trigger] sf[k - sd.len()];
                }
            }
        }
        self.visible_entries = all_rows(dirs.len());
        self.entries = dirs;
        self.selected = 0;
        self.request = None;
        self.apply_reselect(&rs);
    }
}

/// The status a row named `name` in `cur` gets: none for a directory; for
/// a file, the one the map gives its path below the project root.
pub open spec fn entry_status(
    cur: Seq<char>,
    root: Seq<char>,
    map: Seq<(String, GitFileStatus)>,
    name: Seq<char>,
    is_dir: bool,
) -> Option<GitFileStatus> {
    if is_dir {
        None
    } else {
        status_of(map, relative_to(path_join_of(cur, name), root))
    }
}

/// `r` asks the application to show `text`.
pub open spec fn shows(r: EventResult, text: Seq<char>) -> bool {
    r matches EventResult::Action(Action::App(AppAction::Integration(IntegrationAction::ShowMessage(m)))) && m@
        == text
}

/// `r` asks the application to copy `text`, described as `description`.
pub open spec fn copies(r: EventResult, text: Seq<char>, description: Seq<char>) -> bool {
    r matches EventResult::Action(
        Action::App(AppAction::Integration(IntegrationAction::CopyToClipboard { text: t, description: d })),
    ) && t@ == text && d@ == description
}

/// `r` asks the application to open the file at `path`.
pub open spec fn opens(r: EventResult, path: Seq<char>) -> bool {
    r matches EventResult::Action(Action::App(AppAction::Buffer(BufferAction::OpenFileFromExplorer(p)))) && p@
        == path
}

/// The action that shows or hides the sidebar.
pub open spec fn toggle_result() -> EventResult {
    EventResult::Action(Action::App(AppAction::Workspace(WorkspaceAction::ToggleExplorer)))
}

impl Explorer {
    /// `o` with the selection one row further down, if there is one.
    pub open spec fn moved_down(o: Self) -> Self {
        Explorer {
            selected: if o.entries@.len() > 0 && o.selected + 1 < o.entries@.len() {
                (o.selected + 1) as usize
            } else {
                o.selected
            },
            ..o
        }
    }

    /// `o` with the selection one row further up, if there is one.
    pub open spec fn moved_up(o: Self) -> Self {
        Explorer {
            selected: if o.selected > 0 {
                (o.selected - 1) as usize
            } else {
                o.selected
            },
            ..o
        }
    }

    /// The path of the selected row.
    pub open spec fn selected_path(o: Self) -> Seq<char> {
        path_join_of(o.current_dir@, o.entries@[o.selected as int].name@)
    }

    /// `n` is `o` after going to the parent directory, selecting the
    /// directory it came from; nothing changes in the changed-files view or
    /// at the root.
    pub open spec fn went_parent(o: Self, n: Self) -> bool {
        if o.mode == ExplorerMode::ChangedOnly {
            n == o
        } else {
            match path_parent_of(o.current_dir@) {
                None => n == o,
                Some(p) => Self::reloaded(
                    o,
                    n,
                    p,
                    match path_file_name_of(o.current_dir@) {
                        Some(name) => RowPick::Name(name),
                        None => RowPick::First,
                    },
                ),
            }
        }
    }

    /// `n` and `r` are what entering the selected row gives: a directory is
    /// read; a file is asked to be opened.
    pub open spec fn entered(o: Self, n: Self, r: EventResult) -> bool {
        if o.entries@.len() == 0 {
            n == o && r is Consumed
        } else if o.entries@[o.selected as int].is_dir {
            Self::reloaded(o, n, Self::selected_path(o), RowPick::First) && r is Consumed
        } else {
            n == o && opens(r, Self::selected_path(o))
        }
    }

    /// The selected row's name, when there is a row.
    pub fn selected_name(&self) -> (r: Option<&str>)
        requires
            self.wf(),
        ensures
            self.entries@.len() == 0 ==> r is None,
            self.entries@.len() > 0 ==> (r matches Some(n) && n@ == self.entries@[self.selected as int].name@),
    {
        if self.visible_entries.len() == 0 {
            return None;
        }
        let idx = self.visible_entries[self.selected];
        Some(self.entries[idx].name.as_str())
    }

    /// The directory shown.
    pub fn current_dir(&self) -> (r: &str)
        ensures
            r@ == self.current_dir@,
    {
        self.current_dir.as_str()
    }

    /// The status of a row named `name` in the current directory.
    fn entry_git_status(&self, name: &str, is_dir: bool) -> (r: Option<GitFileStatus>)
        ensures
            r == entry_status(self.current_dir@, self.project_root@, self.git_status_map@, name@, is_dir),
    {
        if is_dir {
            return None;
        }
        let full = path_join(self.current_dir.as_str(), name);
        let rel = relative_path(full.as_str(), self.project_root.as_str());
        lookup_status(&self.git_status_map, rel.as_str())
    }

    /// Takes new statuses: the changed-files view is read again, keeping the
    /// selected path when it is still listed; a directory view updates the
    /// status of each row.
    pub fn set_git_status_map(&mut self, git_status_map: &Vec<(String, GitFileStatus)>)
        requires
            old(self).wf(),
            Self::map_ok(git_status_map@),
        ensures
            final(self).wf(),
            final(self).git_status_map@ == git_status_map@,
            old(self).mode == ExplorerMode::ChangedOnly ==> Self::reloaded(
                Explorer { git_status_map: final(self).git_status_map, ..*old(self) },
                *final(self),
                old(self).current_dir@,
                if old(self).entries@.len() > 0 {
                    RowPick::Name(old(self).entries@[old(self).selected as int].name@)
                } else {
                    RowPick::First
                },
            ),
            old(self).mode == ExplorerMode::AllFiles ==> {
                &&& final(self).entries@.len() == old(self).entries@.len()
                &&& forall|i: int|
                    0 <= i < old(self).entries@.len() ==> #[trigger] final(self).entries@[i] == (DirEntry {
                        git_status: entry_status(
                            old(self).current_dir@,
                            old(self).project_root@,
                            git_status_map@,
                            old(self).entries@[i].name@,
                            old(self).entries@[i].is_dir,
                        ),
                        ..old(self).entries@[i]
                    })
                &&& *final(self) == (Explorer {
                    git_status_map: final(self).git_status_map,
                    entries: final(self).entries,
                    ..*old(self)
                })
            },
    {
        self.git_status_map = copy_map(git_status_map);
        if self.is_changed_only() {
            let selected = if self.visible_entries.len() > 0 {
                let idx = self.visible_entries[self.selected];
                Reselect::Name(self.entries[idx].name.clone())
            } else {
                Reselect::First
            };
            self.read_directory(selected);
            return;
        }
        let mut rows: Vec<DirEntry> = Vec::new();
        let mut i: usize = 0;
        while i < self.entries.len()
            invariant
                i <= self.entries@.len(),
                rows@.len() == i,
                forall|k: int|
                    0 <= k < i ==> #[trigger] rows@[k] == (DirEntry {
                        git_status: entry_status(
                            self.current_dir@,
                            self.project_root@,
                            self.git_status_map@,
                            self.entries@[k].name@,
                            self.entries@[k].is_dir,
                        ),
                        ..self.entries@[k]
                    }),
            decreases self.entries@.len() - i,
        {
            let e = &self.entries[i];
            let status = self.entry_git_status(e.name.as_str(), e.is_dir);
            rows.push(DirEntry { name: e.name.clone(), is_dir: e.is_dir, git_status: status });
            i = i + 1;
        }
        self.entries = rows;
    }

    /// Moves the selection one row down, if there is one.
    fn move_down(&mut self)
        requires
            old(self).wf(),
        ensures
            final(self).wf(),
            *final(self) == Self::moved_down(*old(self)),
    {
        let n = self.visible_entries.len();
        if n > 0 && self.selected + 1 < n {
            self.selected = self.selected + 1;
        }
    }

    /// Moves the selection one row up, if there is one.
    fn move_up(&mut self)
        requires
            old(self).wf(),
        ensures
            final(self).wf(),
            *final(self) == Self::moved_up(*old(self)),
    {
        if self.selected > 0 {
            self.selected = self.selected - 1;
        }
    }

    /// Goes to the parent directory and selects the one it came from.
    fn go_parent(&mut self)
        requires
            old(self).wf(),
        ensures
            final(self).wf(),
            Self::went_parent(*old(self), *final(self)),
    {
        if self.is_changed_only() {
            return;
        }
        match path_parent(self.current_dir.as_str()) {
            Some(parent) => {
                let old_name = path_file_name(self.current_dir.as_str());
                self.current_dir = parent;
                match old_name {
                    Some(name) => self.read_directory(Reselect::Name(name)),
                    None => self.read_directory(Reselect::First),
                }
            },
            None => {},
        }
    }

    /// Opens the selected row: a directory is entered, a file is asked to
    /// be opened.
    fn enter_selected(&mut self) -> (r: EventResult)
        requires
            old(self).wf(),
        ensures
            final(self).wf(),
            Self::entered(*old(self), *final(self), r),
    {
        if self.visible_entries.is_empty() {
            return EventResult::Consumed;
        }
        let entry_idx = self.visible_entries[self.selected];
        let path = path_join(self.current_dir.as_str(), self.entries[entry_idx].name.as_str());
        if self.entries[entry_idx].is_dir {
            self.current_dir = path;
            self.read_directory(Reselect::First);
            EventResult::Consumed
        } else {
            EventResult::Action(Action::App(AppAction::Buffer(BufferAction::OpenFileFromExplorer(path))))
        }
    }

    /// Asks to copy the selected row's full path.
    fn copy_selected_full_path(&self) -> (r: EventResult)
        requires
            self.wf(),
        ensures
            self.entries@.len() == 0 ==> r is Consumed,
            self.entries@.len() > 0 ==> copies(r, Self::selected_path(*self), "path"@),
    {
        if self.visible_entries.is_empty() {
            return EventResult::Consumed;
        }
        let idx = self.visible_entries[self.selected];
        let text = path_join(self.current_dir.as_str(), self.entries[idx].name.as_str());
        EventResult::Action(
            Action::App(AppAction::Integration(IntegrationAction::CopyToClipboard { text, description: owned("path") })),
        )
    }

    /// Asks to copy the directory of the selected row: the row itself for a
    /// directory, the current directory for a file.
    fn copy_selected_dir_path(&self) -> (r: EventResult)
        requires
            self.wf(),
        ensures
            self.entries@.len() == 0 ==> r is Consumed,
            self.entries@.len() > 0 ==> copies(
                r,
                if self.entries@[self.selected as int].is_dir {
                    Self::selected_path(*self)
                } else {
                    self.current_dir@
                },
                "dir path"@,
            ),
    {
        if self.visible_entries.is_empty() {
            return EventResult::Consumed;
        }
        let idx = self.visible_entries[self.selected];
        let text = if self.entries[idx].is_dir {
            path_join(self.current_dir.as_str(), self.entries[idx].name.as_str())
        } else {
            self.current_dir.clone()
        };
        EventResult::Action(
            Action::App(
                AppAction::Integration(IntegrationAction::CopyToClipboard { text, description: owned("dir path") }),
            ),
        )
    }

    /// Asks to copy the selected row's name.
    fn copy_selected_name(&self) -> (r: EventResult)
        requires
            self.wf(),
        ensures
            self.entries@.len() == 0 ==> r is Consumed,
            self.entries@.len() > 0 ==> copies(r, self.entries@[self.selected as int].name@, "file name"@),
    {
        if self.visible_entries.is_empty() {
            return EventResult::Consumed;
        }
        let idx = self.visible_entries[self.selected];
        EventResult::Action(
            Action::App(
                AppAction::Integration(
                    IntegrationAction::CopyToClipboard {
                        text: self.entries[idx].name.clone(),
                        description: owned("file name"),
                    },
                ),
            ),
        )
    }
}

/// The best match for `q` among the rows: the highest fuzzy score, the
/// first row among equals, with its score.
pub open spec fn best_row(entries: Seq<DirEntry>, q: Seq<char>) -> Option<(int, int)>
    decreases entries.len(),
{
    if entries.len() == 0 {
        None
    } else {
        let prev = best_row(entries.drop_last(), q);
        match fuzzy_score(entries.last().name@, q) {
            None => prev,
            Some(sc) => match prev {
                Some((bs, _)) => if sc > bs {
                    Some((sc, entries.len() - 1))
                } else {
                    prev
                },
                None => Some((sc, entries.len() - 1)),
            },
        }
    }
}

/// `s` without its last character, when it has one.
pub open spec fn popped(s: Seq<char>) -> Seq<char> {
    if s.len() > 0 {
        s.drop_last()
    } else {
        s
    }
}

/// What a key does to a text prompt (rename or add).
#[derive(Debug, Clone, Copy, PartialEq, Eq)]
pub enum PromptOp {
    DeleteWord,
    Clear,
    Cancel,
    Submit,
    Backspace,
    Type(char),
    Consume,
}

/// Ctrl-w deletes a word and Ctrl-u/Ctrl-k clear; Esc cancels and Enter
/// submits; Backspace deletes a character; other characters (without Alt)
/// are typed; every other key is swallowed.
pub open spec fn prompt_op(key: KeyEvent) -> PromptOp {
    if key.modifiers.control {
        match key.code {
            KeyCode::Char('w') => PromptOp::DeleteWord,
            KeyCode::Char('u') | KeyCode::Char('k') => PromptOp::Clear,
            _ => PromptOp::Consume,
        }
    } else {
        match key.code {
            KeyCode::Esc => PromptOp::Cancel,
            KeyCode::Enter => PromptOp::Submit,
            KeyCode::Backspace => PromptOp::Backspace,
            KeyCode::Char(c) => if key.modifiers.alt {
                PromptOp::Consume
            } else {
                PromptOp::Type(c)
            },
            _ => PromptOp::Consume,
        }
    }
}

/// The text a prompt edit leaves.
pub open spec fn prompt_text(t: Seq<char>, op: PromptOp) -> Seq<char> {
    match op {
        PromptOp::DeleteWord => without_prev_word(t),
        PromptOp::Clear => Seq::empty(),
        PromptOp::Backspace => popped(t),
        PromptOp::Type(c) => t.push(c),
        _ => t,
    }
}

/// What a key does in the find prompt.
#[derive(Debug, Clone, Copy, PartialEq, Eq)]
pub enum FindOp {
    Down,
    Up,
    Enter,
    Parent,
    DeleteWord,
    Clear,
    Close,
    Accept,
    Backspace,
    Type(char),
    Consume,
}

/// Ctrl-n/Down and Ctrl-p/Up move, Ctrl-f/Right enter, Ctrl-b/Left go to
/// the parent, Ctrl-w deletes a word, Ctrl-k/Ctrl-u clear; Esc closes the
/// prompt, Enter keeps the selection; Backspace and typed characters
/// (without Alt) edit the query; every other key is swallowed.
pub open spec fn find_op(key: KeyEvent) -> FindOp {
    if key.modifiers.control {
        match key.code {
            KeyCode::Char('n') => FindOp::Down,
            KeyCode::Char('p') => FindOp::Up,
            KeyCode::Char('f') => FindOp::Enter,
            KeyCode::Char('b') => FindOp::Parent,
            KeyCode::Char('w') => FindOp::DeleteWord,
            KeyCode::Char('k') | KeyCode::Char('u') => FindOp::Clear,
            _ => FindOp::Consume,
        }
    } else {
        match key.code {
            KeyCode::Esc => FindOp::Close,
            KeyCode::Enter => FindOp::Accept,
            KeyCode::Backspace => FindOp::Backspace,
            KeyCode::Up => FindOp::Up,
            KeyCode::Down => FindOp::Down,
            KeyCode::Left => FindOp::Parent,
            KeyCode::Right => FindOp::Enter,
            KeyCode::Char(c) => if key.modifiers.alt {
                FindOp::Consume
            } else {
                FindOp::Type(c)
            },
            _ => FindOp::Consume,
        }
    }
}

/// What a key does while no prompt or menu is open.
#[derive(Debug, Clone, Copy, PartialEq, Eq)]
pub enum BrowseOp {
    Down,
    Up,
    Parent,
    Enter,
    Find,
    CopyMenu,
    Rename,
    Add,
    Delete,
    Close,
    Ignore,
    Consume,
}

/// With Ctrl: n/p move, f enters, b goes to the parent, anything else is
/// passed on. Without: j/Down and k/Up move, h/Left goes to the parent,
/// l/Right/Enter enter, `/` finds, c opens the copy menu, r renames, a
/// adds, d deletes, Esc closes the sidebar, Space is passed on (it starts a
/// chord), and every other key is swallowed.
pub open spec fn browse_op(key: KeyEvent) -> BrowseOp {
    if key.modifiers.control {
        match key.code {
            KeyCode::Char('n') => BrowseOp::Down,
            KeyCode::Char('p') => BrowseOp::Up,
            KeyCode::Char('f') => BrowseOp::Enter,
            KeyCode::Char('b') => BrowseOp::Parent,
            _ => BrowseOp::Ignore,
        }
    } else {
        match key.code {
            KeyCode::Char('j') | KeyCode::Down => BrowseOp::Down,
            KeyCode::Char('k') | KeyCode::Up => BrowseOp::Up,
            KeyCode::Char('h') | KeyCode::Left => BrowseOp::Parent,
            KeyCode::Char('l') | KeyCode::Right | KeyCode::Enter => BrowseOp::Enter,
            KeyCode::Char('/') => BrowseOp::Find,
            KeyCode::Char('c') => BrowseOp::CopyMenu,
            KeyCode::Char('r') => BrowseOp::Rename,
            KeyCode::Char('a') => BrowseOp::Add,
            KeyCode::Char('d') => BrowseOp::Delete,
            KeyCode::Esc => BrowseOp::Close,
            KeyCode::Char(' ') => BrowseOp::Ignore,
            _ => BrowseOp::Consume,
        }
    }
}

/// A message event.
fn message(text: String) -> (r: EventResult)
    ensures
        shows(r, text@),
{
    EventResult::Action(Action::App(AppAction::Integration(IntegrationAction::ShowMessage(text))))
}

/// `a` followed by `b`.
fn concat2(a: &str, b: &str) -> (r: String)
    ensures
        r@ == a@ + b@,
{
    let mut r = owned(a);
    push_str(&mut r, b);
    r
}

/// `a`, `b` and `c` one after the other.
fn concat3(a: &str, b: &str, c: &str) -> (r: String)
    ensures
        r@ == a@ + b@ + c@,
{
    let mut r = owned(a);
    push_str(&mut r, b);
    push_str(&mut r, c);
    r
}

/// Applies a prompt edit to `t`.
fn edit_prompt(t: &mut String, op: PromptOp)
    ensures
        final(t)@ == prompt_text(old(t)@, op),
{
    match op {
        PromptOp::DeleteWord => delete_prev_word_input(t),
        PromptOp::Clear => {
            *t = String::new();
        },
        PromptOp::Backspace => {
            string_pop(t);
        },
        PromptOp::Type(c) => string_push(t, c),
        _ => {},
    }
}

impl Explorer {
    /// `o` with the selection on the best match for the query, when the
    /// query is not empty and some row matches.
    pub open spec fn jumped(o: Self) -> Self {
        if o.find_input@.len() == 0 {
            o
        } else {
            match best_row(o.entries@, o.find_input@) {
                Some((_, i)) => Explorer { selected: i as usize, ..o },
                None => o,
            }
        }
    }

    /// `n` and `r` are what the find prompt makes of `op`.
    pub open spec fn find_step(o: Self, op: FindOp, n: Self, r: EventResult) -> bool {
        match op {
            FindOp::Down => n == Self::moved_down(o) && r is Consumed,
            FindOp::Up => n == Self::moved_up(o) && r is Consumed,
            FindOp::Enter => Self::entered(o, n, r),
            FindOp::Parent => Self::went_parent(o, n) && r is Consumed,
            FindOp::Close => {
                &&& r is Consumed
                &&& n.find_input@.len() == 0
                &&& n == (Explorer { find_active: false, find_input: n.find_input, ..o })
            },
            FindOp::Accept => n == (Explorer { find_active: false, ..o }) && r is Consumed,
            FindOp::Clear => {
                &&& r is Consumed
                &&& n.find_input@.len() == 0
                &&& n == (Explorer { find_input: n.find_input, ..o })
            },
            FindOp::DeleteWord | FindOp::Backspace | FindOp::Type(_) => {
                let t = match op {
                    FindOp::DeleteWord => without_prev_word(o.find_input@),
                    FindOp::Backspace => popped(o.find_input@),
                    FindOp::Type(c) => o.find_input@.push(c),
                    _ => o.find_input@,
                };
                &&& r is Consumed
                &&& n.find_input@ == t
                &&& n == Self::jumped(Explorer { find_input: n.find_input, ..o })
            },
            FindOp::Consume => n == o && r is Consumed,
        }
    }

    /// Moves the selection to the best match for the query.
    fn jump_to_best_match(&mut self)
        requires
            old(self).wf(),
        ensures
            final(self).wf(),
            *final(self) == Self::jumped(*old(self)),
    {
        if self.find_input.as_str().is_empty() {
            return;
        }
        let mut best: Option<(i32, usize)> = None;
        let mut i: usize = 0;
        while i < self.visible_entries.len()
            invariant
                self.wf(),
                *self == *old(self),
                self.find_input@.len() > 0,
                i <= self.entries@.len(),
                match best_row(self.entries@.take(i as int), self.find_input@) {
                    None => best is None,
                    Some((bs, bi)) => best matches Some(b) && b.0 == bs && b.1 == bi,
                },
            decreases self.entries@.len() - i,
        {
            let entry_idx = self.visible_entries[i];
            proof {
                let t = self.entries@.take(i + 1);
                assert(t.drop_last() =~= self.entries@.take(i as int));
                assert(t.last() == self.entries@[i as int]);
            }
            match fuzzy_match(self.entries[entry_idx].name.as_str(), self.find_input.as_str()) {
                Some(m) => {
                    let better = match best {
                        None => true,
                        Some(b) => m.0 > b.0,
                    };
                    if better {
                        best = Some((m.0, i));
                    }
                },
                None => {},
            }
            i = i + 1;
        }
        proof {
            assert(self.entries@.take(i as int) =~= self.entries@);
            lemma_best_row_bound(self.entries@, self.find_input@);
        }
        match best {
            Some(b) => {
                self.selected = b.1;
            },
            None => {},
        }
    }

    /// Handles a key in the find prompt.
    fn handle_find_key(&mut self, key: KeyEvent) -> (r: EventResult)
        requires
            old(self).wf(),
        ensures
            final(self).wf(),
            Self::find_step(*old(self), find_op(key), *final(self), r),
    {
        if key.modifiers.control {
            return match key.code {
                KeyCode::Char('n') => {
                    self.move_down();
                    EventResult::Consumed
                },
                KeyCode::Char('p') => {
                    self.move_up();
                    EventResult::Consumed
                },
                KeyCode::Char('f') => self.enter_selected(),
                KeyCode::Char('b') => {
                    self.go_parent();
                    EventResult::Consumed
                },
                KeyCode::Char('w') => {
                    delete_prev_word_input(&mut self.find_input);
                    self.jump_to_best_match();
                    EventResult::Consumed
                },
                KeyCode::Char('k') | KeyCode::Char('u') => {
                    self.find_input = String::new();
                    EventResult::Consumed
                },
                _ => EventResult::Consumed,
            };
        }
        match key.code {
            KeyCode::Esc => {
                self.find_active = false;
                self.find_input = String::new();
                EventResult::Consumed
            },
            KeyCode::Enter => {
                self.find_active = false;
                EventResult::Consumed
            },
            KeyCode::Backspace => {
                string_pop(&mut self.find_input);
                self.jump_to_best_match();
                EventResult::Consumed
            },
            KeyCode::Up => {
                self.move_up();
                EventResult::Consumed
            },
            KeyCode::Down => {
                self.move_down();
                EventResult::Consumed
            },
            KeyCode::Left => {
                self.go_parent();
                EventResult::Consumed
            },
            KeyCode::Right => self.enter_selected(),
            KeyCode::Char(c) => {
                if !key.modifiers.alt {
                    string_push(&mut self.find_input, c);
                    self.jump_to_best_match();
                }
                EventResult::Consumed
            },
            _ => EventResult::Consumed,
        }
    }
}

impl Explorer {
    /// `n` and `r` are what submitting a rename of the selected row gives:
    /// a trimmed new name that is a single valid name and differs from the
    /// old one is asked of the file system; otherwise a message says why
    /// not.
    pub open spec fn rename_submitted(o: Self, n: Self, r: EventResult) -> bool {
        if o.entries@.len() == 0 {
            n == o && shows(r, "Rename failed: no selection"@)
        } else {
            let src = o.entries@[o.selected as int].name@;
            let new_name = trimmed(o.rename_input@);
            if !is_single_name(new_name) {
                n == o && shows(r, "Rename failed: invalid name"@)
            } else if new_name == src {
                n == o && shows(r, "Rename skipped: unchanged"@)
            } else {
                &&& r is Consumed
                &&& n == (Explorer { request: n.request, ..o })
                &&& n.request matches Some(ExplorerRequest::Rename { from, to, new_name: nn }) && from@
                    == path_join_of(o.current_dir@, src) && to@ == path_join_of(o.current_dir@, new_name)
                    && nn@ == new_name
            }
        }
    }

    /// `n` and `r` are what submitting the add prompt gives: the trimmed
    /// text names a directory when it ends in `/`; its name, without the
    /// trailing slashes, must be a single valid name, and is then asked of
    /// the file system.
    pub open spec fn add_submitted(o: Self, n: Self, r: EventResult) -> bool {
        let raw = trimmed(o.add_input@);
        let is_dir = raw.len() > 0 && raw.last() == '/';
        let name = trim_end_slashes(raw);
        if !is_single_name(name) {
            n == o && shows(r, "Add failed: invalid name"@)
        } else {
            &&& r is Consumed
            &&& n == (Explorer { request: n.request, ..o })
            &&& n.request matches Some(ExplorerRequest::Create { path, name: nm, is_dir: d }) && path@
                == path_join_of(o.current_dir@, name) && nm@ == name && d == is_dir
        }
    }

    /// `n` and `r` are what confirming the deletion gives: the selected row
    /// is asked of the file system.
    pub open spec fn delete_submitted(o: Self, n: Self, r: EventResult) -> bool {
        if o.entries@.len() == 0 {
            n == o && shows(r, "Delete failed: no selection"@)
        } else {
            let e = o.entries@[o.selected as int];
            &&& r is Consumed
            &&& n == (Explorer { request: n.request, ..o })
            &&& n.request matches Some(ExplorerRequest::Delete { path, name, is_dir, selected }) && path@
                == path_join_of(o.current_dir@, e.name@) && name@ == e.name@ && is_dir == e.is_dir && selected
                == o.selected
        }
    }

    /// `n` and `r` are what the rename prompt makes of `op`.
    pub open spec fn rename_step(o: Self, op: PromptOp, n: Self, r: EventResult) -> bool {
        match op {
            PromptOp::Cancel => {
                &&& r is Consumed
                &&& n.rename_input@.len() == 0
                &&& n == (Explorer { rename_active: false, rename_input: n.rename_input, ..o })
            },
            PromptOp::Submit => Self::rename_submitted(Explorer { rename_active: false, ..o }, n, r),
            _ => {
                &&& r is Consumed
                &&& n.rename_input@ == prompt_text(o.rename_input@, op)
                &&& n == (Explorer { rename_input: n.rename_input, ..o })
            },
        }
    }

    /// `n` and `r` are what the add prompt makes of `op`.
    pub open spec fn add_step(o: Self, op: PromptOp, n: Self, r: EventResult) -> bool {
        match op {
            PromptOp::Cancel => {
                &&& r is Consumed
                &&& n.add_input@.len() == 0
                &&& n == (Explorer { add_active: false, add_input: n.add_input, ..o })
            },
            PromptOp::Submit => Self::add_submitted(Explorer { add_active: false, ..o }, n, r),
            _ => {
                &&& r is Consumed
                &&& n.add_input@ == prompt_text(o.add_input@, op)
                &&& n == (Explorer { add_input: n.add_input, ..o })
            },
        }
    }

    /// `n` and `r` are what the deletion question makes of `key`: `y`
    /// confirms, anything else aborts.
    pub open spec fn delete_step(o: Self, key: KeyEvent, n: Self, r: EventResult) -> bool {
        let closed = Explorer { delete_confirm_active: false, ..o };
        if key.code == KeyCode::Char('y') {
            Self::delete_submitted(closed, n, r)
        } else {
            n == closed && shows(r, "Delete aborted"@)
        }
    }

    /// `n` and `r` are what the copy menu makes of `key`: c copies the full
    /// path, d the directory, f the name; any key closes the menu.
    pub open spec fn copy_step(o: Self, key: KeyEvent, n: Self, r: EventResult) -> bool {
        let closed = Explorer { copy_menu_active: false, ..o };
        &&& n == closed
        &&& match key.code {
            KeyCode::Char('c') | KeyCode::Char('d') | KeyCode::Char('f') => if o.entries@.len() == 0 {
                r is Consumed
            } else if key.code == KeyCode::Char('c') {
                copies(r, Self::selected_path(o), "path"@)
            } else if key.code == KeyCode::Char('d') {
                copies(
                    r,
                    if o.entries@[o.selected as int].is_dir {
                        Self::selected_path(o)
                    } else {
                        o.current_dir@
                    },
                    "dir path"@,
                )
            } else {
                copies(r, o.entries@[o.selected as int].name@, "file name"@)
            },
            _ => r is Consumed,
        }
    }

    /// Submits the rename prompt.
    fn apply_rename(&mut self) -> (r: EventResult)
        requires
            old(self).wf(),
        ensures
            final(self).wf(),
            Self::rename_submitted(*old(self), *final(self), r),
    {
        if self.visible_entries.is_empty() {
            return message(owned("Rename failed: no selection"));
        }
        let idx = self.visible_entries[self.selected];
        let new_name = trim(self.rename_input.as_str());
        if !is_valid_single_name(new_name.as_str()) {
            return message(owned("Rename failed: invalid name"));
        }
        if str_eq(new_name.as_str(), self.entries[idx].name.as_str()) {
            return message(owned("Rename skipped: unchanged"));
        }
        let from = path_join(self.current_dir.as_str(), self.entries[idx].name.as_str());
        let to = path_join(self.current_dir.as_str(), new_name.as_str());
        self.request = Some(ExplorerRequest::Rename { from, to, new_name });
        EventResult::Consumed
    }

    /// Submits the add prompt.
    fn apply_add(&mut self) -> (r: EventResult)
        requires
            old(self).wf(),
        ensures
            final(self).wf(),
            Self::add_submitted(*old(self), *final(self), r),
    {
        let raw = trim(self.add_input.as_str());
        let chars = str_chars(raw.as_str());
        let is_dir = chars.len() > 0 && chars[chars.len() - 1] == '/';
        let name = trim_trailing_slashes(raw.as_str());
        if !is_valid_single_name(name.as_str()) {
            return message(owned("Add failed: invalid name"));
        }
        let path = path_join(self.current_dir.as_str(), name.as_str());
        self.request = Some(ExplorerRequest::Create { path, name, is_dir });
        EventResult::Consumed
    }

    /// Confirms the deletion of the selected row.
    fn apply_delete(&mut self) -> (r: EventResult)
        requires
            old(self).wf(),
        ensures
            final(self).wf(),
            Self::delete_submitted(*old(self), *final(self), r),
    {
        if self.visible_entries.is_empty() {
            return message(owned("Delete failed: no selection"));
        }
        let idx = self.visible_entries[self.selected];
        let name = self.entries[idx].name.clone();
        let path = path_join(self.current_dir.as_str(), name.as_str());
        self.request = Some(
            ExplorerRequest::Delete { path, name, is_dir: self.entries[idx].is_dir, selected: self.selected },
        );
        EventResult::Consumed
    }

    /// Handles a key in the rename prompt.
    fn handle_rename_key(&mut self, key: KeyEvent) -> (r: EventResult)
        requires
            old(self).wf(),
        ensures
            final(self).wf(),
            Self::rename_step(*old(self), prompt_op(key), *final(self), r),
    {
        let op = Self::read_prompt_op(key);
        match op {
            PromptOp::Cancel => {
                self.rename_active = false;
                self.rename_input = String::new();
                EventResult::Consumed
            },
            PromptOp::Submit => {
                self.rename_active = false;
                self.apply_rename()
            },
            _ => {
                edit_prompt(&mut self.rename_input, op);
                EventResult::Consumed
            },
        }
    }

    /// Handles a key in the add prompt.
    fn handle_add_key(&mut self, key: KeyEvent) -> (r: EventResult)
        requires
            old(self).wf(),
        ensures
            final(self).wf(),
            Self::add_step(*old(self), prompt_op(key), *final(self), r),
    {
        let op = Self::read_prompt_op(key);
        match op {
            PromptOp::Cancel => {
                self.add_active = false;
                self.add_input = String::new();
                EventResult::Consumed
            },
            PromptOp::Submit => {
                self.add_active = false;
                self.apply_add()
            },
            _ => {
                edit_prompt(&mut self.add_input, op);
                EventResult::Consumed
            },
        }
    }

    /// Handles the answer to the deletion question.
    fn handle_delete_confirm_key(&mut self, key: KeyEvent) -> (r: EventResult)
        requires
            old(self).wf(),
        ensures
            final(self).wf(),
            Self::delete_step(*old(self), key, *final(self), r),
    {
        self.delete_confirm_active = false;
        match key.code {
            KeyCode::Char('y') => self.apply_delete(),
            _ => message(owned("Delete aborted")),
        }
    }

    /// Handles a key in the copy menu.
    fn handle_copy_menu_key(&mut self, key: KeyEvent) -> (r: EventResult)
        requires
            old(self).wf(),
        ensures
            final(self).wf(),
            Self::copy_step(*old(self), key, *final(self), r),
    {
        self.copy_menu_active = false;
        match key.code {
            KeyCode::Char('c') => self.copy_selected_full_path(),
            KeyCode::Char('d') => self.copy_selected_dir_path(),
            KeyCode::Char('f') => self.copy_selected_name(),
            _ => EventResult::Consumed,
        }
    }

    /// The prompt operation a key selects.
    fn read_prompt_op(key: KeyEvent) -> (op: PromptOp)
        ensures
            op == prompt_op(key),
    {
        if key.modifiers.control {
            match key.code {
                KeyCode::Char('w') => PromptOp::DeleteWord,
                KeyCode::Char('u') | KeyCode::Char('k') => PromptOp::Clear,
                _ => PromptOp::Consume,
            }
        } else {
            match key.code {
                KeyCode::Esc => PromptOp::Cancel,
                KeyCode::Enter => PromptOp::Submit,
                KeyCode::Backspace => PromptOp::Backspace,
                KeyCode::Char(c) => if key.modifiers.alt {
                    PromptOp::Consume
                } else {
                    PromptOp::Type(c)
                },
                _ => PromptOp::Consume,
            }
        }
    }
}

impl Explorer {
    /// `n` and `r` are what the sidebar makes of how the rename it asked for
    /// went: once done, the entries are read again with the new name
    /// selected; otherwise a message says why not. An answer nobody asked
    /// for is ignored.
    pub open spec fn rename_finished(o: Self, outcome: FsOutcome, n: Self, r: EventResult) -> bool {
        match o.request {
            Some(ExplorerRequest::Rename { from: _, to: _, new_name }) => match outcome {
                FsOutcome::Done => Self::reloaded(o, n, o.current_dir@, RowPick::Name(new_name@)) && shows(
                    r,
                    "Renamed to "@ + new_name@,
                ),
                FsOutcome::AlreadyExists => n == (Explorer { request: None, ..o }) && shows(
                    r,
                    "Rename failed: '"@ + new_name@ + "' already exists"@,
                ),
                FsOutcome::Failed(e) => n == (Explorer { request: None, ..o }) && shows(r, "Rename failed: "@ + e@),
            },
            _ => n == o && r is Consumed,
        }
    }

    /// `n` and `r` are what the sidebar makes of how the creation it asked
    /// for went: once done, the entries are read again with the new entry
    /// selected.
    pub open spec fn add_finished(o: Self, outcome: FsOutcome, n: Self, r: EventResult) -> bool {
        match o.request {
            Some(ExplorerRequest::Create { path: _, name, is_dir }) => match outcome {
                FsOutcome::Done => Self::reloaded(o, n, o.current_dir@, RowPick::Name(name@)) && shows(
                    r,
                    "Created "@ + (if is_dir {
                        "directory"@
                    } else {
                        "file"@
                    }) + " "@ + name@,
                ),
                FsOutcome::AlreadyExists => n == (Explorer { request: None, ..o }) && shows(
                    r,
                    "Add failed: '"@ + name@ + "' already exists"@,
                ),
                FsOutcome::Failed(e) => n == (Explorer { request: None, ..o }) && shows(r, "Add failed: "@ + e@),
            },
            _ => n == o && r is Consumed,
        }
    }

    /// `n` and `r` are what the sidebar makes of how the deletion it asked
    /// for went (`error` is the file system's message when it failed): once
    /// done, the entries are read again keeping the selected row, or the
    /// last one when there are fewer.
    pub open spec fn delete_finished(o: Self, error: Option<String>, n: Self, r: EventResult) -> bool {
        match o.request {
            Some(ExplorerRequest::Delete { path: _, name, is_dir: _, selected }) => match error {
                None => Self::reloaded(o, n, o.current_dir@, RowPick::Index(selected as int)) && shows(
                    r,
                    "Deleted "@ + name@,
                ),
                Some(e) => n == (Explorer { request: None, ..o }) && shows(r, "Delete failed: "@ + e@),
            },
            _ => n == o && r is Consumed,
        }
    }

    /// Takes how the rename the sidebar asked for went.
    pub fn finish_rename(&mut self, outcome: FsOutcome) -> (r: EventResult)
        requires
            old(self).wf(),
        ensures
            final(self).wf(),
            Self::rename_finished(*old(self), outcome, *final(self), r),
    {
        let new_name = match self.request.take() {
            Some(ExplorerRequest::Rename { from: _, to: _, new_name }) => new_name,
            other => {
                self.request = other;
                return EventResult::Consumed;
            },
        };
        match outcome {
            FsOutcome::Done => {
                let text = concat2("Renamed to ", new_name.as_str());
                self.read_directory(Reselect::Name(new_name));
                message(text)
            },
            FsOutcome::AlreadyExists => message(concat3("Rename failed: '", new_name.as_str(), "' already exists")),
            FsOutcome::Failed(e) => message(concat2("Rename failed: ", e.as_str())),
        }
    }

    /// Takes how the creation the sidebar asked for went.
    pub fn finish_add(&mut self, outcome: FsOutcome) -> (r: EventResult)
        requires
            old(self).wf(),
        ensures
            final(self).wf(),
            Self::add_finished(*old(self), outcome, *final(self), r),
    {
        let (name, is_dir) = match self.request.take() {
            Some(ExplorerRequest::Create { path: _, name, is_dir }) => (name, is_dir),
            other => {
                self.request = other;
                return EventResult::Consumed;
            },
        };
        match outcome {
            FsOutcome::Done => {
                let kind = if is_dir {
                    "directory"
                } else {
                    "file"
                };
                let mut text = concat3("Created ", kind, " ");
                push_str(&mut text, name.as_str());
                self.read_directory(Reselect::Name(name));
                message(text)
            },
            FsOutcome::AlreadyExists => message(concat3("Add failed: '", name.as_str(), "' already exists")),
            FsOutcome::Failed(e) => message(concat2("Add failed: ", e.as_str())),
        }
    }

    /// Takes how the deletion the sidebar asked for went.
    pub fn finish_delete(&mut self, error: Option<String>) -> (r: EventResult)
        requires
            old(self).wf(),
        ensures
            final(self).wf(),
            Self::delete_finished(*old(self), error, *final(self), r),
    {
        let (name, selected) = match self.request.take() {
            Some(ExplorerRequest::Delete { path: _, name, is_dir: _, selected }) => (name, selected),
            other => {
                self.request = other;
                return EventResult::Consumed;
            },
        };
        match error {
            None => {
                let text = concat2("Deleted ", name.as_str());
                self.read_directory(Reselect::Index(selected));
                message(text)
            },
            Some(e) => message(concat2("Delete failed: ", e.as_str())),
        }
    }
}

impl Explorer {
    /// `n` and `r` are what `op` does while no prompt or menu is open.
    pub open spec fn browse_step(o: Self, op: BrowseOp, n: Self, r: EventResult) -> bool {
        match op {
            BrowseOp::Down => n == Self::moved_down(o) && r is Consumed,
            BrowseOp::Up => n == Self::moved_up(o) && r is Consumed,
            BrowseOp::Parent => Self::went_parent(o, n) && r is Consumed,
            BrowseOp::Enter => Self::entered(o, n, r),
            BrowseOp::Find => {
                &&& r is Consumed
                &&& n.find_input@.len() == 0
                &&& n == (Explorer { find_active: true, find_input: n.find_input, ..o })
            },
            BrowseOp::CopyMenu => n == (Explorer { copy_menu_active: true, ..o }) && r is Consumed,
            BrowseOp::Rename => {
                &&& r is Consumed
                &&& if o.entries@.len() == 0 {
                    n == o
                } else {
                    &&& n.rename_input@ == o.entries@[o.selected as int].name@
                    &&& n == (Explorer { rename_active: true, rename_input: n.rename_input, ..o })
                }
            },
            BrowseOp::Add => {
                &&& r is Consumed
                &&& n.add_input@.len() == 0
                &&& n == (Explorer { add_active: true, add_input: n.add_input, ..o })
            },
            BrowseOp::Delete => {
                &&& r is Consumed
                &&& if o.entries@.len() == 0 {
                    n == o
                } else {
                    n == (Explorer { delete_confirm_active: true, ..o })
                }
            },
            BrowseOp::Close => n == o && r == toggle_result(),
            BrowseOp::Ignore => n == o && r is Ignored,
            BrowseOp::Consume => n == o && r is Consumed,
        }
    }

    /// `n` and `r` are what a key does: nothing while a chord is pending;
    /// Ctrl-q closes the sidebar; otherwise the open menu or prompt (copy
    /// menu, rename, add, deletion question, find, in that order) takes the
    /// key, or the sidebar itself when none is open.
    pub open spec fn key_step(o: Self, key: KeyEvent, key_state: KeyState, n: Self, r: EventResult) -> bool {
        if key_state != KeyState::Normal {
            n == o && r is Ignored
        } else if key.modifiers.control && key.code == KeyCode::Char('q') {
            n == o && r == toggle_result()
        } else if o.copy_menu_active {
            Self::copy_step(o, key, n, r)
        } else if o.rename_active {
            Self::rename_step(o, prompt_op(key), n, r)
        } else if o.add_active {
            Self::add_step(o, prompt_op(key), n, r)
        } else if o.delete_confirm_active {
            Self::delete_step(o, key, n, r)
        } else if o.find_active {
            Self::find_step(o, find_op(key), n, r)
        } else {
            Self::browse_step(o, browse_op(key), n, r)
        }
    }

    /// Opens the rename prompt with the selected row's name.
    fn start_rename_prompt(&mut self) -> (r: EventResult)
        requires
            old(self).wf(),
        ensures
            final(self).wf(),
            Self::browse_step(*old(self), BrowseOp::Rename, *final(self), r),
    {
        if self.visible_entries.is_empty() {
            return EventResult::Consumed;
        }
        let idx = self.visible_entries[self.selected];
        self.rename_active = true;
        self.rename_input = self.entries[idx].name.clone();
        EventResult::Consumed
    }

    /// Opens the add prompt, empty.
    fn start_add_prompt(&mut self) -> (r: EventResult)
        requires
            old(self).wf(),
        ensures
            final(self).wf(),
            Self::browse_step(*old(self), BrowseOp::Add, *final(self), r),
    {
        self.add_active = true;
        self.add_input = String::new();
        EventResult::Consumed
    }

    /// Asks whether to delete the selected row.
    fn start_delete_confirm(&mut self) -> (r: EventResult)
        requires
            old(self).wf(),
        ensures
            final(self).wf(),
            Self::browse_step(*old(self), BrowseOp::Delete, *final(self), r),
    {
        if self.visible_entries.is_empty() {
            return EventResult::Consumed;
        }
        self.delete_confirm_active = true;
        EventResult::Consumed
    }

    /// Handles a key while no prompt or menu is open.
    fn handle_browse_key(&mut self, key: KeyEvent) -> (r: EventResult)
        requires
            old(self).wf(),
        ensures
            final(self).wf(),
            Self::browse_step(*old(self), browse_op(key), *final(self), r),
    {
        if key.modifiers.control {
            return match key.code {
                KeyCode::Char('n') => {
                    self.move_down();
                    EventResult::Consumed
                },
                KeyCode::Char('p') => {
                    self.move_up();
                    EventResult::Consumed
                },
                KeyCode::Char('f') => self.enter_selected(),
                KeyCode::Char('b') => {
                    self.go_parent();
                    EventResult::Consumed
                },
                _ => EventResult::Ignored,
            };
        }
        match key.code {
            KeyCode::Char('j') | KeyCode::Down => {
                self.move_down();
                EventResult::Consumed
            },
            KeyCode::Char('k') | KeyCode::Up => {
                self.move_up();
                EventResult::Consumed
            },
            KeyCode::Char('h') | KeyCode::Left => {
                self.go_parent();
                EventResult::Consumed
            },
            KeyCode::Char('l') | KeyCode::Right | KeyCode::Enter => self.enter_selected(),
            KeyCode::Char('/') => {
                self.find_active = true;
                self.find_input = String::new();
                EventResult::Consumed
            },
            KeyCode::Char('c') => {
                self.copy_menu_active = true;
                EventResult::Consumed
            },
            KeyCode::Char('r') => self.start_rename_prompt(),
            KeyCode::Char('a') => self.start_add_prompt(),
            KeyCode::Char('d') => self.start_delete_confirm(),
            KeyCode::Esc => EventResult::Action(Action::App(AppAction::Workspace(WorkspaceAction::ToggleExplorer))),
            KeyCode::Char(' ') => EventResult::Ignored,
            _ => EventResult::Consumed,
        }
    }

    /// Handles a key.
    pub fn handle_key(&mut self, key: KeyEvent, key_state: &KeyState) -> (r: EventResult)
        requires
            old(self).wf(),
        ensures
            final(self).wf(),
            Self::key_step(*old(self), key, *key_state, *final(self), r),
    {
        match key_state {
            KeyState::Normal => {},
            _ => return EventResult::Ignored,
        }
        if key.modifiers.control {
            if let KeyCode::Char('q') = key.code {
                return EventResult::Action(Action::App(AppAction::Workspace(WorkspaceAction::ToggleExplorer)));
            }
        }
        if self.copy_menu_active {
            return self.handle_copy_menu_key(key);
        }
        if self.rename_active {
            return self.handle_rename_key(key);
        }
        if self.add_active {
            return self.handle_add_key(key);
        }
        if self.delete_confirm_active {
            return self.handle_delete_confirm_key(key);
        }
        if self.find_active {
            return self.handle_find_key(key);
        }
        self.handle_browse_key(key)
    }
}

/// The header grown leftwards from position `i`: the component before it,
/// with a `/`, is put in front while the whole still fits in `max` columns.
pub open spec fn grow_header(comps: Seq<Seq<char>>, i: int, result: Seq<char>, max: nat) -> Seq<char>
    decreases i,
{
    if i <= 0 {
        result
    } else {
        let cand = comps[i - 1].push('/') + result;
        if str_width(cand) <= max {
            grow_header(comps, i - 1, cand, max)
        } else {
            result
        }
    }
}

/// The sidebar's header for a directory with components `comps`: `/` for
/// none; otherwise the last component with a `/`, preceded by as many
/// components (each with its `/`) as fit in `max` columns, and cut to `max`
/// columns when not even the last one fits.
pub open spec fn path_header(comps: Seq<Seq<char>>, max: nat) -> Seq<char> {
    if comps.len() == 0 {
        seq!['/']
    } else {
        let base = comps.last().push('/');
        let grown = if str_width(base) <= max {
            grow_header(comps, comps.len() - 1, base, max)
        } else {
            base
        };
        if str_width(grown) > max {
            grown.take(fit_len(grown, max) as int)
        } else {
            grown
        }
    }
}

/// The views of some strings.
pub open spec fn views(v: Seq<String>) -> Seq<Seq<char>> {
    v.map_values(|c: String| c@)
}

/// `s` followed by a `/`.
fn with_slash(s: &String) -> (r: String)
    ensures
        r@ == s@.push('/'),
{
    let mut r = s.clone();
    string_push(&mut r, '/');
    r
}

/// The header for the directory with the given components, in at most
/// `max_width` columns.
pub fn header_from_components(components: &Vec<String>, max_width: usize) -> (r: String)
    requires
        forall|i: int| 0 <= i < components@.len() ==> fits_in_usize((#[trigger] components@[i])@.push('/')),
    ensures
        r@ == path_header(views(components@), max_width as nat),
{
    let ghost comps = views(components@);
    let n = components.len();
    if n == 0 {
        let mut r = String::new();
        string_push(&mut r, '/');
        proof {
            assert(r@ =~= seq!['/']);
        }
        return r;
    }
    let mut result = with_slash(&components[n - 1]);
    proof {
        assert(comps.last() == components@[n - 1]@);
    }
    let ghost base = result@;
    let mut w = display_width(result.as_str());
    let mut i: usize = n - 1;
    if w <= max_width {
        while i > 0
            invariant
                0 <= i < n,
                n == components@.len(),
                comps == views(components@),
                forall|k: int| 0 <= k < components@.len() ==> fits_in_usize((#[trigger] components@[k])@.push('/')),
                w == str_width(result@),
                w <= max_width,
                grow_header(comps, n - 1, base, max_width as nat) == grow_header(
                    comps,
                    i as int,
                    result@,
                    max_width as nat,
                ),
            ensures
                w == str_width(result@),
                w <= max_width,
                grow_header(comps, n - 1, base, max_width as nat) == result@,
            decreases i,
        {
            let part = with_slash(&components[i - 1]);
            proof {
                assert(comps[i - 1] == components@[i - 1]@);
                assert(fits_in_usize(components@[i - 1]@.push('/')));
            }
            let pw = display_width(part.as_str());
            proof {
                lemma_width_concat(part@, result@);
            }
            if pw > max_width - w {
                proof {
                    assert(part@ + result@ == comps[i - 1].push('/') + result@);
                }
                break;
            }
            let mut cand = part;
            push_str(&mut cand, result.as_str());
            result = cand;
            w = pw + w;
            i = i - 1;
        }
    }
    proof {
        if base.len() > 0 && str_width(base) > max_width {
            assert(result@ == base);
        }
    }
    if w > max_width {
        proof {
            assert(fits_in_usize(components@[n - 1]@.push('/')));
        }
        let (cut, _) = truncate_to_width(result.as_str(), max_width);
        return owned(cut);
    }
    result
}

impl Explorer {
    /// The header for the current directory in at most `max_width` columns;
    /// `None` when one of its components, with a `/`, is too long for its
    /// width or length to fit in a `usize`.
    pub fn truncated_path_header(&self, max_width: usize) -> (r: Option<String>)
        ensures
            match r {
                Some(h) => h@ == path_header(path_components_of(self.current_dir@), max_width as nat),
                None => exists|i: int|
                    0 <= i < path_components_of(self.current_dir@).len() && !fits_in_usize(
                        (#[trigger] path_components_of(self.current_dir@)[i]).push('/'),
                    ),
            },
    {
        let comps = path_components(self.current_dir.as_str());
        let mut i: usize = 0;
        while i < comps.len()
            invariant
                i <= comps@.len(),
                views(comps@) == path_components_of(self.current_dir@),
                forall|k: int| 0 <= k < i ==> fits_in_usize((#[trigger] comps@[k])@.push('/')),
            decreases comps@.len() - i,
        {
            let part = with_slash(&comps[i]);
            if !fits(part.as_str()) {
                proof {
                    assert(views(comps@)[i as int] == comps@[i as int]@);
                }
                return None;
            }
            i = i + 1;
        }
        Some(header_from_components(&comps, max_width))
    }
}

impl Explorer {
    /// The line shown under the entries while a prompt or menu is open
    /// (empty when none is).
    pub open spec fn prompt_line(o: Self) -> Seq<char> {
        if o.find_active {
            "/"@ + o.find_input@
        } else if o.copy_menu_active {
            "copy: [c] path [d] dir [f] name"@
        } else if o.rename_active {
            "rename: "@ + o.rename_input@
        } else if o.add_active {
            "add: "@ + o.add_input@ + " (end with / for dir)"@
        } else if o.delete_confirm_active {
            "delete "@ + (if o.entries@.len() > 0 {
                o.entries@[o.selected as int].name@
            } else {
                "item"@
            }) + "? [y/N]"@
        } else {
            Seq::empty()
        }
    }

    /// The line shown under the entries while a prompt or menu is open.
    pub fn bottom_prompt(&self) -> (r: String)
        requires
            self.wf(),
        ensures
            r@ == Self::prompt_line(*self),
    {
        if self.find_active {
            concat2("/", self.find_input.as_str())
        } else if self.copy_menu_active {
            owned("copy: [c] path [d] dir [f] name")
        } else if self.rename_active {
            concat2("rename: ", self.rename_input.as_str())
        } else if self.add_active {
            concat3("add: ", self.add_input.as_str(), " (end with / for dir)")
        } else if self.delete_confirm_active {
            let label = match self.selected_name() {
                Some(n) => n,
                None => "item",
            };
            concat3("delete ", label, "? [y/N]")
        } else {
            String::new()
        }
    }

    /// Where the cursor of the find prompt goes while find is active: on
    /// the last row, after the prompt `/query`; `None` otherwise.
    pub fn find_cursor(&self, x: usize, height: usize) -> (r: Option<(u16, u16)>)
        requires
            self.find_active ==> x + str_width("/"@ + self.find_input@) <= usize::MAX,
        ensures
            !self.find_active ==> r is None,
            self.find_active ==> r == Some(
                (
                    (x + str_width("/"@ + self.find_input@)) as u16,
                    (if height > 0 {
                        height - 1
                    } else {
                        0
                    }) as u16,
                ),
            ),
    {
        if !self.find_active {
            return None;
        }
        let prompt = concat2("/", self.find_input.as_str());
        let row = if height > 0 {
            height - 1
        } else {
            0
        };
        let cursor_x = x + display_width(prompt.as_str());
        Some((cursor_x as u16, row as u16))
    }
}

/// Every row of a listed group comes from a listed entry that is not
/// hidden and is of the group's kind.
proof fn lemma_group_rows(es: Seq<ListedEntry>, dirs: bool, map: Seq<(String, GitFileStatus)>, root: Seq<char>)
    ensures
        forall|k: int|
            0 <= k < listed_group(es, dirs, map, root).len() ==> exists|i: int|
                0 <= i < es.len() && !has_prefix(es[i].name@, "."@) && es[i].is_dir == dirs && (
                #[trigger] listed_group(es, dirs, map, root)[k]) == shown_entry(es[i], map, root),
    decreases es.len(),
{
    if es.len() > 0 {
        let t = es.drop_last();
        lemma_group_rows(t, dirs, map, root);
        let g = listed_group(es, dirs, map, root);
        let gt = listed_group(t, dirs, map, root);
        assert forall|k: int| 0 <= k < g.len() implies exists|i: int|
            0 <= i < es.len() && !has_prefix(es[i].name@, "."@) && es[i].is_dir == dirs && (#[trigger] g[k])
                == shown_entry(es[i], map, root) by {
            if k < gt.len() {
                assert(g[k] == gt[k]);
                let i = choose|i: int|
                    0 <= i < t.len() && !has_prefix(t[i].name@, "."@) && t[i].is_dir == dirs && gt[k]
                        == shown_entry(t[i], map, root);
                assert(es[i] == t[i]);
            } else {
                assert(es[es.len() - 1] == es.last());
            }
        }
    }
}

/// What the sidebar lists for a directory: no hidden entry, every
/// directory before every file, each group in order of lowercase name, and
/// every row one of the listed entries.
pub proof fn law_listing_shape(es: Seq<ListedEntry>, map: Seq<(String, GitFileStatus)>, root: Seq<char>)
    ensures
        forall|k: int|
            0 <= k < listing(es, map, root).len() ==> exists|i: int|
                0 <= i < es.len() && !has_prefix(es[i].name@, "."@) && (#[trigger] listing(es, map, root)[k])
                    == shown_entry(es[i], map, root),
        forall|a: int, b: int|
            0 <= a < b < listing(es, map, root).len() && !(#[trigger] listing(es, map, root)[a]).is_dir
                ==> !(#[trigger] listing(es, map, root)[b]).is_dir,
        forall|a: int, b: int|
            0 <= a < b < listing(es, map, root).len() && (#[trigger] listing(es, map, root)[a]).is_dir == (
            #[trigger] listing(es, map, root)[b]).is_dir ==> !chars_lt(
                lowercase_str(listing(es, map, root)[b].name@),
                lowercase_str(listing(es, map, root)[a].name@),
            ),
{
    broadcast use vstd::seq_lib::group_to_multiset_ensures;
    let dg = listed_group(es, true, map, root);
    let fg = listed_group(es, false, map, root);
    let sd = sort_by_key_stable(dg, name_key());
    let sf = sort_by_key_stable(fg, name_key());
    let l = listing(es, map, root);
    lemma_group_rows(es, true, map, root);
    lemma_group_rows(es, false, map, root);
    lemma_sort_by_key_permutes(dg, name_key());
    lemma_sort_by_key_permutes(fg, name_key());
    lemma_sort_by_key_sorted(dg, name_key());
    lemma_sort_by_key_sorted(fg, name_key());
    assert(l == sd + sf);
    assert forall|k: int| 0 <= k < l.len() implies exists|i: int|
        0 <= i < es.len() && !has_prefix(es[i].name@, "."@) && (#[trigger] l[k]) == shown_entry(es[i], map, root)
        && l[k].is_dir == (k < sd.len()) by {
        if k < sd.len() {
            assert(l[k] == sd[k]);
            assert(sd.to_multiset().count(sd[k]) > 0);
            assert(dg.contains(sd[k]));
            let j = choose|j: int| 0 <= j < dg.len() && dg[j] == sd[k];
            let i = choose|i: int|
                0 <= i < es.len() && !has_prefix(es[i].name@, "."@) && es[i].is_dir == true && (#[trigger] dg[j])
                    == shown_entry(es[i], map, root);
        } else {
            assert(l[k] == sf[k - sd.len()]);
            assert(sf.to_multiset().count(sf[k - sd.len()]) > 0);
            assert(fg.contains(sf[k - sd.len()]));
            let j = choose|j: int| 0 <= j < fg.len() && fg[j] == sf[k - sd.len()];
            let i = choose|i: int|
                0 <= i < es.len() && !has_prefix(es[i].name@, "."@) && es[i].is_dir == false && (#[trigger] fg[j])
                    == shown_entry(es[i], map, root);
        }
    }
    assert forall|a: int, b: int|
        0 <= a < b < l.len() && !(#[trigger] l[a]).is_dir implies !(#[trigger] l[b]).is_dir by {
        assert(exists|i: int|
            0 <= i < es.len() && !has_prefix(es[i].name@, "."@) && l[a] == shown_entry(es[i], map, root) && l[a].is_dir
                == (a < sd.len()));
        assert(exists|i: int|
            0 <= i < es.len() && !has_prefix(es[i].name@, "."@) && l[b] == shown_entry(es[i], map, root) && l[b].is_dir
                == (b < sd.len()));
    }
    assert forall|a: int, b: int|
        0 <= a < b < l.len() && (#[trigger] l[a]).is_dir == (#[trigger] l[b]).is_dir implies !chars_lt(
        lowercase_str(l[b].name@),
        lowercase_str(l[a].name@),
    ) by {
        assert(exists|i: int|
            0 <= i < es.len() && !has_prefix(es[i].name@, "."@) && l[a] == shown_entry(es[i], map, root) && l[a].is_dir
                == (a < sd.len()));
        assert(exists|i: int|
            0 <= i < es.len() && !has_prefix(es[i].name@, "."@) && l[b] == shown_entry(es[i], map, root) && l[b].is_dir
                == (b < sd.len()));
        if b < sd.len() {
            assert(l[a] == sd[a] && l[b] == sd[b]);
            assert(!chars_lt(name_key()(sd[b]), name_key()(sd[a])));
        } else {
            assert(l[a] == sf[a - sd.len()] && l[b] == sf[b - sd.len()]);
            assert(!chars_lt(name_key()(sf[b - sd.len()]), name_key()(sf[a - sd.len()])));
        }
    }
}

/// The changed-files view lists each changed path once, as a file with its
/// status, in order of lowercase path.
pub proof fn law_changed_entries_shape(map: Seq<(String, GitFileStatus)>)
    ensures
        changed_entries(map).len() == map.len(),
        forall|k: int|
            0 <= k < changed_entries(map).len() ==> exists|i: int|
                0 <= i < map.len() && (#[trigger] changed_entries(map)[k]) == changed_entry(map[i]),
        forall|k: int|
            0 <= k < changed_entries(map).len() ==> !(#[trigger] changed_entries(map)[k]).is_dir
                && changed_entries(map)[k].git_status is Some,
        forall|a: int, b: int|
            0 <= a < b < changed_entries(map).len() ==> !chars_lt(
                lowercase_str((#[trigger] changed_entries(map)[b]).name@),
                lowercase_str((#[trigger] changed_entries(map)[a]).name@),
            ),
{
    broadcast use vstd::seq_lib::group_to_multiset_ensures;
    let rows = map.map_values(|p: (String, GitFileStatus)| changed_entry(p));
    let c = changed_entries(map);
    lemma_sort_by_key_permutes(rows, name_key());
    lemma_sort_by_key_sorted(rows, name_key());
    assert forall|k: int| 0 <= k < c.len() implies exists|i: int| 0 <= i < map.len() && (#[trigger] c[k]) == changed_entry(map[i]) by {
        assert(c.to_multiset().count(c[k]) > 0);
        assert(rows.contains(c[k]));
        let j = choose|j: int| 0 <= j < rows.len() && rows[j] == c[k];
        assert(rows[j] == changed_entry(map[j]));
    }
    assert forall|k: int| 0 <= k < c.len() implies !(#[trigger] c[k]).is_dir && c[k].git_status is Some by {
        assert(exists|i: int| 0 <= i < map.len() && c[k] == changed_entry(map[i]));
    }
    assert forall|a: int, b: int| 0 <= a < b < c.len() implies !chars_lt(
        lowercase_str((#[trigger] c[b]).name@),
        lowercase_str((#[trigger] c[a]).name@),
    ) by {
        assert(!chars_lt(name_key()(c[b]), name_key()(c[a])));
    }
}

/// The row selected after the entries are read again is one of them (the
/// first when there are none), whatever was asked for.
pub proof fn law_reselected_is_a_row(entries: Seq<DirEntry>, pick: RowPick)
    requires
        pick matches RowPick::Index(i) ==> i >= 0,
    ensures
        entries.len() == 0 ==> reselected(entries, pick) == 0,
        entries.len() > 0 ==> 0 <= reselected(entries, pick) < entries.len(),
{
    lemma_name_index_range(entries, pick);
}

/// Moving down and then up returns to the same row when there was a row
/// below.
pub proof fn law_down_then_up_returns(o: Explorer)
    requires
        o.selected + 1 < o.entries@.len(),
        o.entries@.len() <= usize::MAX,
    ensures
        Explorer::moved_up(Explorer::moved_down(o)) == o,
{
}

/// The find prompt never filters: whatever it does short of entering a row
/// or going to the parent keeps the rows as they were.
pub proof fn law_find_never_filters(o: Explorer, op: FindOp, n: Explorer, r: EventResult)
    requires
        Explorer::find_step(o, op, n, r),
        !(op is Enter),
        !(op is Parent),
    ensures
        n.entries == o.entries,
        n.visible_entries == o.visible_entries,
{
}

} // verus!
