//! The commit log: a paged list of commits with the selected commit's diff
//! beside it, a detail view, and a find prompt. Loading is done by a
//! background worker; the view queues its requests for the application to
//! hand over and takes the worker's reports through `apply_event`.
use vstd::prelude::*;

use crate::command::commit_log_runtime::{
    CommitDetail, CommitEntry, CommitFileEntry, CommitLogCommand, CommitLogEvent,
};
use crate::input::action::{Action, AppAction, IntegrationAction, UiAction, WorkspaceAction};
use crate::input::key::{KeyCode, KeyEvent, KeyModifiers, MouseEventKind};
use crate::std_calls::{lowercase_str, str_to_lowercase, string_pop, string_push};
use crate::strings::{contains_chars, decimal_chars, has_infix, has_prefix, owned, push_str, starts_with, str_eq, str_lines, string_views, text_lines, u64_to_decimal};
use crate::ui::framework::cell::{CellStyle, Color};
use crate::ui::framework::component::EventResult;
use crate::ui::overlays::github::list_keys::{append_lines, append_styled, is_copy, line_views, sat_add, sat_sub, scroll_to_show, scrolled_for, styled};
use crate::ui::text::{fit_len, fits_in_usize, str_width, truncate_to_width};
use crate::ui::text_input::{delete_prev_word_input, without_prev_word};
use crate::utf8::str_chars;

verus! {

/// Commits requested per page.
pub const PAGE_SIZE: usize = 100;

/// Narrowest popup, in columns, that shows the diff panel beside the list.
pub const DIFF_SPLIT_THRESHOLD: usize = 60;

/// Lines one mouse-wheel step scrolls.
pub const MOUSE_SCROLL_LINES: usize = 3;

/// Columns one horizontal scroll step moves.
pub const HORIZONTAL_SCROLL_COLS: usize = 8;

/// Rows from the end of the loaded commits at which the next page is asked for.
pub const PREFETCH_ROWS: usize = 20;

/// Whether the list or one commit's details fill the view.
#[derive(Debug, Clone, Copy, PartialEq, Eq)]
pub enum ViewMode {
    List,
    Detail,
}

/// What a key asks the commit log to do.
#[derive(Debug, Clone, Copy, PartialEq, Eq)]
pub enum CommitOp {
    Close,
    MoveDown,
    MoveUp,
    DiffDown,
    DiffUp,
    DiffRight,
    DiffLeft,
    StartFind,
    CopyHash,
    OpenSelected,
    Reload,
    FindCancel,
    FindAccept,
    QueryPop,
    QueryDeleteWord,
    QueryPush(char),
    DetailDown,
    DetailUp,
    DetailRight,
    DetailLeft,
    ExitDetail,
    Ignore,
}

/// The operation a key selects. Ctrl-q closes in every mode. The find prompt
/// edits its text. The detail view scrolls (Shift with left/right
/// sideways), copies the hash with y and goes back with Esc, q or
/// Backspace. The list moves with j/k or Ctrl-n/Ctrl-p, scrolls the diff
/// with Shift or Ctrl-Shift, and takes `/`, y, o/Enter, r, Esc and q.
pub open spec fn commit_op(find_active: bool, detail_mode: bool, key: KeyEvent) -> CommitOp {
    let ctrl = key.modifiers.control;
    let shift = key.modifiers.shift;
    if ctrl && key.code == KeyCode::Char('q') {
        CommitOp::Close
    } else if find_active {
        match key.code {
            KeyCode::Esc => CommitOp::FindCancel,
            KeyCode::Enter => CommitOp::FindAccept,
            KeyCode::Backspace => CommitOp::QueryPop,
            KeyCode::Char(c) => if ctrl && c == 'w' {
                CommitOp::QueryDeleteWord
            } else if ctrl {
                CommitOp::Ignore
            } else {
                CommitOp::QueryPush(c)
            },
            _ => CommitOp::Ignore,
        }
    } else if detail_mode {
        if shift {
            match key.code {
                KeyCode::Char('L') | KeyCode::Right => CommitOp::DetailRight,
                KeyCode::Char('H') | KeyCode::Left => CommitOp::DetailLeft,
                _ => CommitOp::Ignore,
            }
        } else {
            match key.code {
                KeyCode::Char('j') | KeyCode::Down => CommitOp::DetailDown,
                KeyCode::Char('k') | KeyCode::Up => CommitOp::DetailUp,
                KeyCode::Char('y') => CommitOp::CopyHash,
                KeyCode::Esc | KeyCode::Char('q') | KeyCode::Backspace => CommitOp::ExitDetail,
                _ => CommitOp::Ignore,
            }
        }
    } else if ctrl {
        match key.code {
            KeyCode::Char('n') => if shift {
                CommitOp::DiffDown
            } else {
                CommitOp::MoveDown
            },
            KeyCode::Char('p') => if shift {
                CommitOp::DiffUp
            } else {
                CommitOp::MoveUp
            },
            _ => CommitOp::Ignore,
        }
    } else if shift {
        match key.code {
            KeyCode::Char('J') | KeyCode::Down => CommitOp::DiffDown,
            KeyCode::Char('K') | KeyCode::Up => CommitOp::DiffUp,
            KeyCode::Char('L') | KeyCode::Right => CommitOp::DiffRight,
            KeyCode::Char('H') | KeyCode::Left => CommitOp::DiffLeft,
            _ => CommitOp::Ignore,
        }
    } else {
        match key.code {
            KeyCode::Char('j') | KeyCode::Down => CommitOp::MoveDown,
            KeyCode::Char('k') | KeyCode::Up => CommitOp::MoveUp,
            KeyCode::Char('/') => CommitOp::StartFind,
            KeyCode::Char('y') => CommitOp::CopyHash,
            KeyCode::Char('o') | KeyCode::Enter => CommitOp::OpenSelected,
            KeyCode::Char('r') => CommitOp::Reload,
            KeyCode::Esc | KeyCode::Char('q') => CommitOp::Close,
            _ => CommitOp::Ignore,
        }
    }
}

/// The colour of a diff line: additions green, removals red, hunk headers
/// cyan, file headers bold, everything else dimmed.
pub open spec fn diff_style(line: Seq<char>) -> CellStyle {
    if has_prefix(line, "+"@) {
        CellStyle { fg: Some(Color::Green), ..CellStyle::plain() }
    } else if has_prefix(line, "-"@) {
        CellStyle { fg: Some(Color::Red), ..CellStyle::plain() }
    } else if has_prefix(line, "@@"@) {
        CellStyle { fg: Some(Color::Cyan), ..CellStyle::plain() }
    } else if has_prefix(line, "diff "@) || has_prefix(line, "index "@) {
        CellStyle { bold: true, ..CellStyle::plain() }
    } else {
        CellStyle { dim: true, ..CellStyle::plain() }
    }
}

/// The colour of a changed file's status letter.
pub open spec fn status_color(status: char) -> Color {
    if status == 'A' {
        Color::Green
    } else if status == 'D' {
        Color::Red
    } else if status == 'M' {
        Color::Yellow
    } else if status == 'R' {
        Color::Cyan
    } else {
        Color::White
    }
}

/// A changed file's line is coloured like the diff lines of its kind: an
/// added file (`A`) like the added lines, those starting with `+`; a deleted
/// file (`D`) like the removed lines, those starting with `-`. The two
/// colours differ.
pub proof fn law_file_status_colours_follow_the_diff(f: CommitFileEntry, line: Seq<char>)
    ensures
        f.status == 'A' && line.len() > 0 && line[0] == '+' ==> file_line(f).1.fg == diff_style(line).fg,
        f.status == 'D' && line.len() > 0 && line[0] == '-' ==> file_line(f).1.fg == diff_style(line).fg,
        f.status == 'A' && line.len() > 0 && line[0] == '-' ==> file_line(f).1.fg != diff_style(line).fg,
        f.status == 'D' && line.len() > 0 && line[0] == '+' ==> file_line(f).1.fg != diff_style(line).fg,
{
    reveal_strlit("+");
    reveal_strlit("-");
    if line.len() > 0 {
        assert(line.take(1) =~= seq![line[0]]);
        if line[0] == '+' {
            assert(line.take("+"@.len() as int) =~= "+"@);
            assert(has_prefix(line, "+"@));
        }
        if line[0] == '-' {
            assert(line.take("-"@.len() as int) =~= "-"@);
            assert(has_prefix(line, "-"@));
            assert(line.take("+"@.len() as int)[0] == '-');
            assert(!has_prefix(line, "+"@));
        }
    }
}

/// The line listing one changed file.
pub open spec fn file_line(f: CommitFileEntry) -> (Seq<char>, CellStyle) {
    ("  "@ + seq![f.status] + " "@ + f.path@, CellStyle { fg: Some(status_color(f.status)), ..CellStyle::plain() })
}

/// The detail lines below the commit header once its details arrived:
/// author, date, message, the changed files and the diff.
pub open spec fn detail_body(d: CommitDetail) -> Seq<(Seq<char>, CellStyle)> {
    let bold = CellStyle { bold: true, ..CellStyle::plain() };
    let blank = (Seq::<char>::empty(), CellStyle::plain());
    let files = if d.files@.len() > 0 {
        seq![("Files changed ("@ + decimal_chars(d.files@.len()) + "):"@, bold)] + d.files@.map_values(
            |f: CommitFileEntry| file_line(f),
        ) + seq![blank]
    } else {
        Seq::empty()
    };
    seq![
        ("Author: "@ + d.author@ + " <"@ + d.author_email@ + ">"@, bold),
        ("Date:   "@ + d.date@, CellStyle { dim: true, ..CellStyle::plain() }),
        blank,
    ] + styled(text_lines(d.message@), CellStyle::plain()) + seq![blank] + files + string_views(
        d.diff_lines@,
    ).map_values(|l: Seq<char>| (l, diff_style(l)))
}

/// The commit log.
pub struct CommitLogView {
    pub project_root: String,
    pub branch: String,
    pub commits: Vec<CommitEntry>,
    pub selected: usize,
    pub scroll_offset: usize,
    pub view_mode: ViewMode,
    pub detail: Option<CommitDetail>,
    pub detail_scroll: usize,
    pub detail_horizontal_scroll: usize,
    pub diff_lines: Vec<String>,
    pub diff_scroll: usize,
    pub diff_horizontal_scroll: usize,
    pub diff_loading: bool,
    pub find_active: bool,
    pub find_input: String,
    /// Whether a worker takes the requests.
    pub has_runtime: bool,
    /// Requests for the worker, oldest first, not yet handed over.
    pub pending: Vec<CommitLogCommand>,
    pub loading: bool,
    pub has_more: bool,
    pub message: Option<String>,
}

impl CommitLogView {
    /// The selection is a loaded commit (0 while none is loaded).
    pub open spec fn wf(self) -> bool {
        if self.commits@.len() == 0 {
            self.selected == 0
        } else {
            self.selected < self.commits@.len()
        }
    }

    /// The request for the details of commit `sel`.
    pub open spec fn detail_command(self, sel: int) -> CommitLogCommand {
        CommitLogCommand::LoadDetail { project_root: self.project_root, hash: self.commits@[sel].full_hash }
    }

    /// The request for a page of commits after the first `skip`.
    pub open spec fn page_command(self, skip: int) -> CommitLogCommand {
        CommitLogCommand::LoadPage { project_root: self.project_root, skip: skip as usize, count: PAGE_SIZE }
    }

    /// `cmd` queued when a worker listens, nothing otherwise.
    pub open spec fn sent(self, cmd: CommitLogCommand) -> Seq<CommitLogCommand> {
        if self.has_runtime {
            seq![cmd]
        } else {
            Seq::empty()
        }
    }

    /// What no key and no report changes.
    pub open spec fn fixed(o: Self, n: Self) -> bool {
        &&& n.project_root == o.project_root
        &&& n.branch == o.branch
        &&& n.has_runtime == o.has_runtime
    }

    /// The list, its loading state and the queue are as they were.
    pub open spec fn list_same(o: Self, n: Self) -> bool {
        &&& n.commits == o.commits
        &&& n.selected == o.selected
        &&& n.scroll_offset == o.scroll_offset
        &&& n.message == o.message
        &&& n.loading == o.loading
        &&& n.has_more == o.has_more
        &&& n.pending == o.pending
    }

    /// The diff panel is as it was.
    pub open spec fn diff_same(o: Self, n: Self) -> bool {
        &&& n.diff_lines == o.diff_lines
        &&& n.diff_scroll == o.diff_scroll
        &&& n.diff_horizontal_scroll == o.diff_horizontal_scroll
        &&& n.diff_loading == o.diff_loading
    }

    /// The detail view is as it was.
    pub open spec fn detail_same(o: Self, n: Self) -> bool {
        &&& n.view_mode == o.view_mode
        &&& n.detail == o.detail
        &&& n.detail_scroll == o.detail_scroll
        &&& n.detail_horizontal_scroll == o.detail_horizontal_scroll
    }

    /// The find prompt is as it was.
    pub open spec fn find_same(o: Self, n: Self) -> bool {
        n.find_active == o.find_active && n.find_input == o.find_input
    }

    /// Nothing changed.
    pub open spec fn unchanged(o: Self, n: Self) -> bool {
        Self::fixed(o, n) && Self::list_same(o, n) && Self::diff_same(o, n) && Self::detail_same(o, n)
            && Self::find_same(o, n)
    }

    /// `n` is `o` after its diff panel was cleared and the selected
    /// commit's details requested, when a commit is selected; otherwise
    /// the panel and the queue are as they were. `loading` and the list are
    /// left to the caller.
    pub open spec fn diff_refreshed(o: Self, n: Self) -> bool {
        if o.selected < o.commits@.len() {
            &&& n.diff_lines@.len() == 0
            &&& n.diff_scroll == 0
            &&& n.diff_horizontal_scroll == 0
            &&& n.diff_loading == (o.diff_loading || o.has_runtime)
            &&& n.pending@ == o.pending@ + o.sent(o.detail_command(o.selected as int))
        } else {
            &&& n.diff_lines == o.diff_lines
            &&& n.diff_scroll == o.diff_scroll
            &&& n.diff_horizontal_scroll == o.diff_horizontal_scroll
            &&& n.diff_loading == o.diff_loading
            &&& n.pending == o.pending
        }
    }

    /// `n` is `o` with commit `sel` selected: its details requested and,
    /// when `may_page` holds, more commits exist, none is loading and `sel`
    /// is within `PREFETCH_ROWS` of the end, the next page requested.
    pub open spec fn moved_to(o: Self, n: Self, sel: int, may_page: bool) -> bool {
        let more = may_page && o.has_more && !o.loading && sel + PREFETCH_ROWS >= o.commits@.len();
        let page = if more {
            o.sent(o.page_command(o.commits@.len() as int))
        } else {
            Seq::empty()
        };
        &&& Self::fixed(o, n)
        &&& Self::detail_same(o, n)
        &&& Self::find_same(o, n)
        &&& n.commits == o.commits
        &&& n.scroll_offset == o.scroll_offset
        &&& n.message == o.message
        &&& n.has_more == o.has_more
        &&& n.selected == sel
        &&& n.diff_lines@.len() == 0
        &&& n.diff_scroll == 0
        &&& n.diff_horizontal_scroll == 0
        &&& n.diff_loading == (o.diff_loading || o.has_runtime)
        &&& n.loading == (o.loading || (more && o.has_runtime))
        &&& n.pending@ == o.pending@ + o.sent(o.detail_command(sel)) + page
    }

    /// `n` is `o` after the diff panel's scroll became `(v, h)`.
    pub open spec fn diff_scrolled(o: Self, n: Self, v: int, h: int) -> bool {
        &&& Self::fixed(o, n) && Self::list_same(o, n) && Self::detail_same(o, n) && Self::find_same(o, n)
        &&& n.diff_lines == o.diff_lines && n.diff_loading == o.diff_loading
        &&& n.diff_scroll == v && n.diff_horizontal_scroll == h
    }

    /// `n` is `o` after the detail view's scroll became `(v, h)`.
    pub open spec fn detail_scrolled(o: Self, n: Self, v: int, h: int) -> bool {
        &&& Self::fixed(o, n) && Self::list_same(o, n) && Self::diff_same(o, n) && Self::find_same(o, n)
        &&& n.view_mode == o.view_mode && n.detail == o.detail
        &&& n.detail_scroll == v && n.detail_horizontal_scroll == h
    }

    /// `n` is `o` after the find prompt became open or closed as `active`
    /// says, with the text `q`.
    pub open spec fn prompt_set(o: Self, n: Self, active: bool, q: Seq<char>) -> bool {
        &&& Self::fixed(o, n) && Self::list_same(o, n) && Self::diff_same(o, n) && Self::detail_same(o, n)
        &&& n.find_active == active && n.find_input@ == q
    }

    /// `n` is the view `o` after the operation `op`.
    pub open spec fn key_step(o: Self, op: CommitOp, n: Self) -> bool {
        let len = o.commits@.len() as int;
        let q = o.find_input@;
        match op {
            CommitOp::MoveDown => if o.selected + 1 < len {
                Self::moved_to(o, n, o.selected + 1, true)
            } else {
                Self::unchanged(o, n)
            },
            CommitOp::MoveUp => if o.selected > 0 {
                Self::moved_to(o, n, o.selected - 1, false)
            } else {
                Self::unchanged(o, n)
            },
            CommitOp::DiffDown => Self::diff_scrolled(o, n, sat_add(o.diff_scroll as int, 1), o.diff_horizontal_scroll as int),
            CommitOp::DiffUp => Self::diff_scrolled(o, n, sat_sub(o.diff_scroll as int, 1), o.diff_horizontal_scroll as int),
            CommitOp::DiffRight => Self::diff_scrolled(o, n, o.diff_scroll as int, sat_add(o.diff_horizontal_scroll as int, 8)),
            CommitOp::DiffLeft => Self::diff_scrolled(o, n, o.diff_scroll as int, sat_sub(o.diff_horizontal_scroll as int, 8)),
            CommitOp::DetailDown => Self::detail_scrolled(o, n, sat_add(o.detail_scroll as int, 1), o.detail_horizontal_scroll as int),
            CommitOp::DetailUp => Self::detail_scrolled(o, n, sat_sub(o.detail_scroll as int, 1), o.detail_horizontal_scroll as int),
            CommitOp::DetailRight => Self::detail_scrolled(o, n, o.detail_scroll as int, sat_add(o.detail_horizontal_scroll as int, 8)),
            CommitOp::DetailLeft => Self::detail_scrolled(o, n, o.detail_scroll as int, sat_sub(o.detail_horizontal_scroll as int, 8)),
            CommitOp::StartFind => Self::prompt_set(o, n, true, Seq::empty()),
            CommitOp::FindCancel => Self::prompt_set(o, n, false, Seq::empty()),
            CommitOp::FindAccept => Self::prompt_set(o, n, false, q),
            CommitOp::QueryPop => Self::prompt_set(o, n, o.find_active, if q.len() == 0 { q } else { q.drop_last() }),
            CommitOp::QueryDeleteWord => Self::prompt_set(o, n, o.find_active, without_prev_word(q)),
            CommitOp::QueryPush(c) => Self::prompt_set(o, n, o.find_active, q.push(c)),
            CommitOp::Reload => {
                &&& Self::fixed(o, n) && Self::detail_same(o, n) && Self::find_same(o, n)
                &&& n.commits@.len() == 0 && n.selected == 0 && n.scroll_offset == 0
                &&& n.diff_lines@.len() == 0
                &&& n.diff_scroll == o.diff_scroll && n.diff_horizontal_scroll == o.diff_horizontal_scroll
                &&& n.diff_loading == o.diff_loading && n.has_more == o.has_more
                &&& n.message is Some && n.message->0@ == "Loading commits..."@
                &&& n.loading == (o.loading || o.has_runtime)
                &&& n.pending@ == o.pending@ + o.sent(o.page_command(0))
            },
            CommitOp::ExitDetail => {
                &&& Self::fixed(o, n) && Self::find_same(o, n)
                &&& n.commits == o.commits && n.selected == o.selected && n.scroll_offset == o.scroll_offset
                &&& n.message == o.message && n.loading == o.loading && n.has_more == o.has_more
                &&& n.view_mode == ViewMode::List && n.detail is None
                &&& n.detail_scroll == o.detail_scroll && n.detail_horizontal_scroll == o.detail_horizontal_scroll
                &&& Self::diff_refreshed(o, n)
            },
            _ => Self::unchanged(o, n),
        }
    }

    /// What the view `o` answers to `op`: closing, opening the selected
    /// commit's diff or copying its full hash; anything else, and opening or
    /// copying with nothing selected, is consumed.
    pub open spec fn key_result(o: Self, op: CommitOp, r: EventResult) -> bool {
        let has = o.selected < o.commits@.len();
        match op {
            CommitOp::Close => r == EventResult::Action(Action::Ui(UiAction::CloseCommitLog)),
            CommitOp::OpenSelected => if has {
                r matches EventResult::Action(Action::App(AppAction::Workspace(WorkspaceAction::OpenCommitDiffView(h))))
                    && h@ == o.commits@[o.selected as int].full_hash@
            } else {
                r is Consumed
            },
            CommitOp::CopyHash => if has {
                is_copy(r, o.commits@[o.selected as int].full_hash@, "commit hash"@)
            } else {
                r is Consumed
            },
            _ => r is Consumed,
        }
    }

    /// `n` is the view `o` after the worker's report `e`. A page replaces
    /// the list (selecting the first commit) or extends it, ends loading,
    /// drops the loading notice and requests the selected commit's details.
    /// Details for the selected commit fill the detail view or the diff
    /// panel, whichever is shown. An error ends all loading and is shown.
    pub open spec fn event_step(o: Self, e: CommitLogEvent, n: Self) -> bool {
        &&& Self::fixed(o, n)
        &&& Self::find_same(o, n)
        &&& match e {
            CommitLogEvent::PageLoaded { commits, has_more, is_append } => {
                let all = if is_append { o.commits@ + commits@ } else { commits@ };
                let sel = if is_append { o.selected as int } else { 0 };
                let notice = o.message is Some && o.message->0@ == "Loading commits..."@;
                &&& Self::detail_same(o, n)
                &&& n.commits@ == all
                &&& n.selected == sel
                &&& n.scroll_offset == if is_append { o.scroll_offset as int } else { 0 }
                &&& n.message == if notice { None } else { o.message }
                &&& !n.loading
                &&& n.has_more == has_more
                &&& if sel < all.len() {
                    &&& n.diff_lines@.len() == 0
                    &&& n.diff_scroll == 0
                    &&& n.diff_horizontal_scroll == 0
                    &&& n.diff_loading == (o.diff_loading || o.has_runtime)
                    &&& n.pending@ == o.pending@ + o.sent(
                        CommitLogCommand::LoadDetail { project_root: o.project_root, hash: all[sel].full_hash },
                    )
                } else {
                    &&& n.diff_lines == o.diff_lines
                    &&& n.diff_scroll == o.diff_scroll
                    &&& n.diff_horizontal_scroll == o.diff_horizontal_scroll
                    &&& n.diff_loading == o.diff_loading
                    &&& n.pending == o.pending
                }
            },
            CommitLogEvent::DetailLoaded { hash, detail } => {
                let current = o.selected < o.commits@.len() && o.commits@[o.selected as int].full_hash@ == hash@;
                &&& Self::list_same(o, n)
                &&& !n.diff_loading
                &&& n.view_mode == o.view_mode
                &&& n.detail_scroll == o.detail_scroll
                &&& n.detail_horizontal_scroll == o.detail_horizontal_scroll
                &&& if o.view_mode == ViewMode::Detail {
                    &&& n.detail == if current { Some(detail) } else { o.detail }
                    &&& n.diff_lines == o.diff_lines
                    &&& n.diff_scroll == o.diff_scroll
                    &&& n.diff_horizontal_scroll == o.diff_horizontal_scroll
                } else {
                    &&& n.detail == o.detail
                    &&& if current {
                        &&& n.diff_lines == detail.diff_lines
                        &&& n.diff_scroll == 0
                        &&& n.diff_horizontal_scroll == 0
                    } else {
                        &&& n.diff_lines == o.diff_lines
                        &&& n.diff_scroll == o.diff_scroll
                        &&& n.diff_horizontal_scroll == o.diff_horizontal_scroll
                    }
                }
            },
            CommitLogEvent::Error { message } => {
                &&& Self::detail_same(o, n)
                &&& n.commits == o.commits && n.selected == o.selected && n.scroll_offset == o.scroll_offset
                &&& n.has_more == o.has_more && n.pending == o.pending
                &&& n.diff_lines == o.diff_lines && n.diff_scroll == o.diff_scroll
                &&& n.diff_horizontal_scroll == o.diff_horizontal_scroll
                &&& !n.loading && !n.diff_loading
                &&& n.message == Some(message)
            },
        }
    }

    /// A view of the log of `project_root` on `branch` (`???` when the
    /// branch could not be read), loading its first page; `has_runtime` says
    /// whether a worker takes requests.
    pub fn new(project_root: String, branch: Option<String>, has_runtime: bool) -> (v: Self)
        ensures
            v.wf(),
            v.project_root == project_root,
            v.branch@ == match branch {
                Some(b) => b@,
                None => "???"@,
            },
            v.has_runtime == has_runtime,
            v.commits@.len() == 0,
            v.selected == 0,
            v.scroll_offset == 0,
            v.view_mode == ViewMode::List,
            v.detail is None,
            v.detail_scroll == 0 && v.detail_horizontal_scroll == 0,
            v.diff_lines@.len() == 0,
            v.diff_scroll == 0 && v.diff_horizontal_scroll == 0,
            !v.diff_loading,
            !v.find_active && v.find_input@.len() == 0,
            v.loading,
            !v.has_more,
            v.message is Some && v.message->0@ == "Loading commits..."@,
            v.pending@ == v.sent(v.page_command(0)),
    {
        let branch = match branch {
            Some(b) => b,
            None => owned("???"),
        };
        let mut view = Self {
            project_root,
            branch,
            commits: Vec::new(),
            selected: 0,
            scroll_offset: 0,
            view_mode: ViewMode::List,
            detail: None,
            detail_scroll: 0,
            detail_horizontal_scroll: 0,
            diff_lines: Vec::new(),
            diff_scroll: 0,
            diff_horizontal_scroll: 0,
            diff_loading: false,
            find_active: false,
            find_input: String::new(),
            has_runtime,
            pending: Vec::new(),
            loading: true,
            has_more: false,
            message: Some(owned("Loading commits...")),
        };
        view.request_page(0);
        proof {
            assert(view.pending@ =~= view.sent(view.page_command(0)));
        }
        view
    }

    /// Hands over the queued requests, oldest first.
    pub fn take_commands(&mut self) -> (cmds: Vec<CommitLogCommand>)
        ensures
            cmds@ == old(self).pending@,
            final(self).pending@.len() == 0,
            Self::fixed(*old(self), *final(self)),
            Self::diff_same(*old(self), *final(self)),
            Self::detail_same(*old(self), *final(self)),
            Self::find_same(*old(self), *final(self)),
            final(self).commits == old(self).commits,
            final(self).selected == old(self).selected,
            final(self).scroll_offset == old(self).scroll_offset,
            final(self).message == old(self).message,
            final(self).loading == old(self).loading,
            final(self).has_more == old(self).has_more,
    {
        let mut cmds: Vec<CommitLogCommand> = Vec::new();
        cmds.append(&mut self.pending);
        cmds
    }

    /// Asks for a page of commits after the first `skip`.
    fn request_page(&mut self, skip: usize)
        ensures
            Self::fixed(*old(self), *final(self)),
            Self::diff_same(*old(self), *final(self)),
            Self::detail_same(*old(self), *final(self)),
            Self::find_same(*old(self), *final(self)),
            final(self).commits == old(self).commits,
            final(self).selected == old(self).selected,
            final(self).scroll_offset == old(self).scroll_offset,
            final(self).message == old(self).message,
            final(self).has_more == old(self).has_more,
            final(self).loading == (old(self).loading || old(self).has_runtime),
            final(self).pending@ == old(self).pending@ + old(self).sent(old(self).page_command(skip as int)),
    {
        if self.has_runtime {
            self.loading = true;
            self.pending.push(
                CommitLogCommand::LoadPage { project_root: self.project_root.clone(), skip, count: PAGE_SIZE },
            );
        }
        proof {
            assert(self.pending@ =~= old(self).pending@ + old(self).sent(old(self).page_command(skip as int)));
        }
    }

    /// Asks for the details of the commit `hash`.
    fn request_detail(&mut self, hash: String)
        ensures
            Self::fixed(*old(self), *final(self)),
            Self::detail_same(*old(self), *final(self)),
            Self::find_same(*old(self), *final(self)),
            final(self).commits == old(self).commits,
            final(self).selected == old(self).selected,
            final(self).scroll_offset == old(self).scroll_offset,
            final(self).message == old(self).message,
            final(self).loading == old(self).loading,
            final(self).has_more == old(self).has_more,
            final(self).diff_lines == old(self).diff_lines,
            final(self).diff_scroll == old(self).diff_scroll,
            final(self).diff_horizontal_scroll == old(self).diff_horizontal_scroll,
            final(self).diff_loading == (old(self).diff_loading || old(self).has_runtime),
            final(self).pending@ == old(self).pending@ + old(self).sent(
                CommitLogCommand::LoadDetail { project_root: old(self).project_root, hash },
            ),
    {
        if self.has_runtime {
            self.diff_loading = true;
            self.pending.push(CommitLogCommand::LoadDetail { project_root: self.project_root.clone(), hash });
        }
        proof {
            assert(self.pending@ =~= old(self).pending@ + old(self).sent(
                CommitLogCommand::LoadDetail { project_root: old(self).project_root, hash },
            ));
        }
    }

    /// Clears the diff panel and asks for the selected commit's details.
    fn request_selected_diff(&mut self)
        ensures
            Self::fixed(*old(self), *final(self)),
            Self::detail_same(*old(self), *final(self)),
            Self::find_same(*old(self), *final(self)),
            final(self).commits == old(self).commits,
            final(self).selected == old(self).selected,
            final(self).scroll_offset == old(self).scroll_offset,
            final(self).message == old(self).message,
            final(self).loading == old(self).loading,
            final(self).has_more == old(self).has_more,
            Self::diff_refreshed(*old(self), *final(self)),
    {
        if self.selected < self.commits.len() {
            let hash = self.commits[self.selected].full_hash.clone();
            self.diff_lines.clear();
            self.diff_scroll = 0;
            self.diff_horizontal_scroll = 0;
            self.request_detail(hash);
        }
    }

    /// Applies a report of the worker.
    pub fn apply_event(&mut self, event: CommitLogEvent)
        requires
            old(self).wf(),
        ensures
            final(self).wf(),
            Self::event_step(*old(self), event, *final(self)),
    {
        match event {
            CommitLogEvent::PageLoaded { commits, has_more, is_append } => {
                let ghost fresh = commits@;
                self.loading = false;
                self.has_more = has_more;
                if is_append {
                    let mut more = commits;
                    self.commits.append(&mut more);
                } else {
                    self.commits = commits;
                    self.selected = 0;
                    self.scroll_offset = 0;
                }
                let notice = match &self.message {
                    Some(m) => str_eq(m.as_str(), "Loading commits..."),
                    None => false,
                };
                if notice {
                    self.message = None;
                }
                self.request_selected_diff();
                proof {
                    if is_append {
                        assert(self.commits@ =~= old(self).commits@ + fresh);
                    }
                }
            },
            CommitLogEvent::DetailLoaded { hash, detail } => {
                self.diff_loading = false;
                let current = self.selected < self.commits.len() && self.commits[self.selected].full_hash
                    == hash;
                match self.view_mode {
                    ViewMode::Detail => {
                        if current {
                            self.detail = Some(detail);
                        }
                    },
                    ViewMode::List => {
                        if current {
                            self.diff_lines = detail.diff_lines;
                            self.diff_scroll = 0;
                            self.diff_horizontal_scroll = 0;
                        }
                    },
                }
            },
            CommitLogEvent::Error { message } => {
                self.loading = false;
                self.diff_loading = false;
                self.message = Some(message);
            },
        }
    }

    /// Selects the next commit, asking for the next page near the end.
    pub fn move_down(&mut self)
        requires
            old(self).wf(),
        ensures
            final(self).wf(),
            Self::key_step(*old(self), CommitOp::MoveDown, *final(self)),
    {
        let len = self.commits.len();
        if self.selected + 1 < len {
            self.selected = self.selected + 1;
            self.request_selected_diff();
            if self.has_more && !self.loading && self.selected >= self.commits.len().saturating_sub(PREFETCH_ROWS) {
                let skip = self.commits.len();
                self.request_page(skip);
            }
            proof {
                assert(final(self).pending@ =~= old(self).pending@ + old(self).sent(
                    old(self).detail_command(old(self).selected + 1),
                ) + if old(self).has_more && !old(self).loading && old(self).selected + 1 + PREFETCH_ROWS
                    >= old(self).commits@.len() {
                    old(self).sent(old(self).page_command(old(self).commits@.len() as int))
                } else {
                    Seq::empty()
                });
            }
        }
    }

    /// Selects the previous commit.
    pub fn move_up(&mut self)
        requires
            old(self).wf(),
        ensures
            final(self).wf(),
            Self::key_step(*old(self), CommitOp::MoveUp, *final(self)),
    {
        if self.selected > 0 {
            self.selected = self.selected - 1;
            self.request_selected_diff();
            proof {
                assert(final(self).pending@ =~= old(self).pending@ + old(self).sent(
                    old(self).detail_command(old(self).selected - 1),
                ) + Seq::<CommitLogCommand>::empty());
            }
        }
    }

    /// Moves the selection down `n` commits, stopping at the last one.
    fn move_down_lines(&mut self, n: usize)
        requires
            old(self).wf(),
        ensures
            final(self).wf(),
            ({
                let len = old(self).commits@.len() as int;
                let target = if old(self).selected + n < len - 1 {
                    old(self).selected + n
                } else if len == 0 {
                    0
                } else {
                    len - 1
                };
                if target != old(self).selected {
                    Self::moved_to(*old(self), *final(self), target, true)
                } else {
                    Self::unchanged(*old(self), *final(self))
                }
            }),
    {
        let max = self.commits.len().saturating_sub(1);
        let sum = self.selected.saturating_add(n);
        let new_sel = if sum < max {
            sum
        } else {
            max
        };
        if new_sel != self.selected {
            self.selected = new_sel;
            self.request_selected_diff();
            if self.has_more && !self.loading && self.selected >= self.commits.len().saturating_sub(PREFETCH_ROWS) {
                let skip = self.commits.len();
                self.request_page(skip);
            }
            proof {
                let o = *old(self);
                assert(final(self).pending@ =~= o.pending@ + o.sent(o.detail_command(new_sel as int))
                    + if o.has_more && !o.loading && new_sel + PREFETCH_ROWS >= o.commits@.len() {
                    o.sent(o.page_command(o.commits@.len() as int))
                } else {
                    Seq::empty()
                });
            }
        }
    }

    /// Moves the selection up `n` commits, stopping at the first one.
    fn move_up_lines(&mut self, n: usize)
        requires
            old(self).wf(),
        ensures
            final(self).wf(),
            ({
                let target = sat_sub(old(self).selected as int, n as int);
                if target != old(self).selected {
                    Self::moved_to(*old(self), *final(self), target, false)
                } else {
                    Self::unchanged(*old(self), *final(self))
                }
            }),
    {
        let new_sel = self.selected.saturating_sub(n);
        if new_sel != self.selected {
            self.selected = new_sel;
            self.request_selected_diff();
            proof {
                let o = *old(self);
                assert(final(self).pending@ =~= o.pending@ + o.sent(o.detail_command(new_sel as int))
                    + Seq::<CommitLogCommand>::empty());
            }
        }
    }

    fn scroll_diff_down(&mut self)
        ensures
            Self::key_step(*old(self), CommitOp::DiffDown, *final(self)),
    {
        self.diff_scroll = self.diff_scroll.saturating_add(1);
    }

    fn scroll_diff_up(&mut self)
        ensures
            Self::key_step(*old(self), CommitOp::DiffUp, *final(self)),
    {
        self.diff_scroll = self.diff_scroll.saturating_sub(1);
    }

    fn scroll_diff_right(&mut self)
        ensures
            Self::key_step(*old(self), CommitOp::DiffRight, *final(self)),
    {
        self.diff_horizontal_scroll = self.diff_horizontal_scroll.saturating_add(HORIZONTAL_SCROLL_COLS);
    }

    fn scroll_diff_left(&mut self)
        ensures
            Self::key_step(*old(self), CommitOp::DiffLeft, *final(self)),
    {
        self.diff_horizontal_scroll = self.diff_horizontal_scroll.saturating_sub(HORIZONTAL_SCROLL_COLS);
    }

    /// Keeps the diff scroll within the diff for `content_h` visible rows.
    fn clamp_diff_scroll(&mut self, content_h: usize)
        ensures
            ({
                let m = sat_sub(old(self).diff_lines@.len() as int, content_h as int);
                Self::diff_scrolled(
                    *old(self),
                    *final(self),
                    if old(self).diff_scroll > m { m } else { old(self).diff_scroll as int },
                    old(self).diff_horizontal_scroll as int,
                )
            }),
    {
        let max = self.diff_lines.len().saturating_sub(content_h);
        if self.diff_scroll > max {
            self.diff_scroll = max;
        }
    }

    fn detail_scroll_down(&mut self)
        ensures
            Self::key_step(*old(self), CommitOp::DetailDown, *final(self)),
    {
        self.detail_scroll = self.detail_scroll.saturating_add(1);
    }

    fn detail_scroll_up(&mut self)
        ensures
            Self::key_step(*old(self), CommitOp::DetailUp, *final(self)),
    {
        self.detail_scroll = self.detail_scroll.saturating_sub(1);
    }

    fn detail_scroll_right(&mut self)
        ensures
            Self::key_step(*old(self), CommitOp::DetailRight, *final(self)),
    {
        self.detail_horizontal_scroll = self.detail_horizontal_scroll.saturating_add(HORIZONTAL_SCROLL_COLS);
    }

    fn detail_scroll_left(&mut self)
        ensures
            Self::key_step(*old(self), CommitOp::DetailLeft, *final(self)),
    {
        self.detail_horizontal_scroll = self.detail_horizontal_scroll.saturating_sub(HORIZONTAL_SCROLL_COLS);
    }

    /// Leaves the detail view for the list and asks for the diff again.
    fn exit_detail(&mut self)
        requires
            old(self).wf(),
        ensures
            final(self).wf(),
            Self::key_step(*old(self), CommitOp::ExitDetail, *final(self)),
    {
        self.view_mode = ViewMode::List;
        self.detail = None;
        self.request_selected_diff();
    }

    /// Copying the selected commit's full hash, if a commit is selected.
    fn copy_selected_hash(&self) -> (r: Option<EventResult>)
        ensures
            match r {
                Some(e) => self.selected < self.commits@.len() && Self::key_result(*self, CommitOp::CopyHash, e),
                None => self.selected >= self.commits@.len(),
            },
    {
        if self.selected < self.commits.len() {
            Some(
                EventResult::Action(
                    Action::App(
                        AppAction::Integration(
                            IntegrationAction::CopyToClipboard {
                                text: self.commits[self.selected].full_hash.clone(),
                                description: owned("commit hash"),
                            },
                        ),
                    ),
                ),
            )
        } else {
            None
        }
    }

    /// The popup's size on a `cols` by `rows` screen: 80% of each, at least 3.
    pub fn popup_size(cols: usize, rows: usize) -> (r: (usize, usize))
        requires
            cols <= usize::MAX / 80,
            rows <= usize::MAX / 80,
        ensures
            r.0 == if cols * 80 / 100 > 3 { cols * 80 / 100 } else { 3 },
            r.1 == if rows * 80 / 100 > 3 { rows * 80 / 100 } else { 3 },
    {
        let w = cols * 80 / 100;
        let h = rows * 80 / 100;
        (if w > 3 { w } else { 3 }, if h > 3 { h } else { 3 })
    }

    /// Whether column `col` lies in the diff panel of a `cols`-wide screen.
    pub open spec fn in_diff_panel(cols: int, rows: int, col: int) -> bool {
        let w = if cols * 80 / 100 > 3 { cols * 80 / 100 } else { 3 };
        let offset_x = sat_sub(cols, w) / 2;
        w >= DIFF_SPLIT_THRESHOLD && col >= offset_x + (w - 2) / 2 + 2
    }

    /// The mouse wheel: in the detail view it scrolls the details; over the
    /// diff panel it scrolls the diff (no further than its end); over the
    /// list it moves the selection. Each step is `MOUSE_SCROLL_LINES`.
    pub fn handle_mouse_scroll(&mut self, kind: MouseEventKind, col: u16, _row: u16, cols: usize, rows: usize)
        requires
            old(self).wf(),
            cols <= usize::MAX / 80,
            rows <= usize::MAX / 80,
        ensures
            final(self).wf(),
            ({
                let o = *old(self);
                let n = *final(self);
                let d = MOUSE_SCROLL_LINES as int;
                let h = if rows * 80 / 100 > 3 { rows * 80 / 100 } else { 3 };
                let right = Self::in_diff_panel(cols as int, rows as int, col as int);
                let len = o.commits@.len() as int;
                let down_target = if o.selected + d < len - 1 {
                    o.selected + d
                } else if len == 0 {
                    0
                } else {
                    len - 1
                };
                let up_target = sat_sub(o.selected as int, d);
                let m = sat_sub(o.diff_lines@.len() as int, sat_sub(h, 2));
                let v = sat_add(o.diff_scroll as int, d);
                match kind {
                    MouseEventKind::ScrollDown => if o.view_mode == ViewMode::Detail {
                        Self::detail_scrolled(o, n, sat_add(o.detail_scroll as int, d), o.detail_horizontal_scroll as int)
                    } else if right {
                        Self::diff_scrolled(o, n, if v > m { m } else { v }, o.diff_horizontal_scroll as int)
                    } else if down_target != o.selected {
                        Self::moved_to(o, n, down_target, true)
                    } else {
                        Self::unchanged(o, n)
                    },
                    MouseEventKind::ScrollUp => if o.view_mode == ViewMode::Detail {
                        Self::detail_scrolled(o, n, sat_sub(o.detail_scroll as int, d), o.detail_horizontal_scroll as int)
                    } else if right {
                        Self::diff_scrolled(o, n, sat_sub(o.diff_scroll as int, d), o.diff_horizontal_scroll as int)
                    } else if up_target != o.selected {
                        Self::moved_to(o, n, up_target, false)
                    } else {
                        Self::unchanged(o, n)
                    },
                    _ => Self::unchanged(o, n),
                }
            }),
    {
        let delta = MOUSE_SCROLL_LINES;
        let (popup_w, popup_h) = Self::popup_size(cols, rows);
        let offset_x = cols.saturating_sub(popup_w) / 2;
        let in_right_panel = if popup_w >= DIFF_SPLIT_THRESHOLD {
            let gap: usize = 2;
            let left_w = (popup_w - gap) / 2;
            (col as usize) >= offset_x + left_w + gap
        } else {
            false
        };
        match kind {
            MouseEventKind::ScrollDown => {
                if let ViewMode::Detail = self.view_mode {
                    self.detail_scroll = self.detail_scroll.saturating_add(delta);
                } else if in_right_panel {
                    self.diff_scroll = self.diff_scroll.saturating_add(delta);
                    self.clamp_diff_scroll(popup_h.saturating_sub(2));
                } else {
                    self.move_down_lines(delta);
                }
            },
            MouseEventKind::ScrollUp => {
                if let ViewMode::Detail = self.view_mode {
                    self.detail_scroll = self.detail_scroll.saturating_sub(delta);
                } else if in_right_panel {
                    self.diff_scroll = self.diff_scroll.saturating_sub(delta);
                } else {
                    self.move_up_lines(delta);
                }
            },
            _ => {},
        }
    }

    /// A key while the find prompt is open.
    fn handle_find_key(&mut self, key: KeyEvent) -> (r: EventResult)
        requires
            old(self).find_active,
            !(key.modifiers.control && key.code == KeyCode::Char('q')),
        ensures
            Self::key_step(*old(self), commit_op(true, old(self).view_mode == ViewMode::Detail, key), *final(self)),
            Self::key_result(*old(self), commit_op(true, old(self).view_mode == ViewMode::Detail, key), r),
    {
        match key.code {
            KeyCode::Esc => {
                self.find_active = false;
                self.find_input = String::new();
                EventResult::Consumed
            },
            KeyCode::Enter => {
                self.find_active = false;
                EventResult::Consumed
            },
            KeyCode::Backspace => {
                string_pop(&mut self.find_input);
                EventResult::Consumed
            },
            KeyCode::Char(c) => {
                if key.modifiers.contains(KeyModifiers::control()) {
                    if c == 'w' {
                        delete_prev_word_input(&mut self.find_input);
                    }
                } else {
                    string_push(&mut self.find_input, c);
                }
                EventResult::Consumed
            },
            _ => EventResult::Consumed,
        }
    }

    /// A key while the detail view is shown.
    fn handle_detail_key(&mut self, key: KeyEvent) -> (r: EventResult)
        requires
            old(self).wf(),
            !old(self).find_active,
            old(self).view_mode == ViewMode::Detail,
            !(key.modifiers.control && key.code == KeyCode::Char('q')),
        ensures
            final(self).wf(),
            Self::key_step(*old(self), commit_op(false, true, key), *final(self)),
            Self::key_result(*old(self), commit_op(false, true, key), r),
    {
        if key.modifiers.contains(KeyModifiers::shift()) {
            return match key.code {
                KeyCode::Char('L') | KeyCode::Right => {
                    self.detail_scroll_right();
                    EventResult::Consumed
                },
                KeyCode::Char('H') | KeyCode::Left => {
                    self.detail_scroll_left();
                    EventResult::Consumed
                },
                _ => EventResult::Consumed,
            };
        }
        match key.code {
            KeyCode::Char('j') | KeyCode::Down => {
                self.detail_scroll_down();
                EventResult::Consumed
            },
            KeyCode::Char('k') | KeyCode::Up => {
                self.detail_scroll_up();
                EventResult::Consumed
            },
            KeyCode::Char('y') => match self.copy_selected_hash() {
                Some(e) => e,
                None => EventResult::Consumed,
            },
            KeyCode::Esc | KeyCode::Char('q') | KeyCode::Backspace => {
                self.exit_detail();
                EventResult::Consumed
            },
            _ => EventResult::Consumed,
        }
    }

    /// Reacts to a key: the operation `commit_op` selects for the current
    /// mode, applied as `key_step` says, answered as `key_result` says.
    pub fn handle_key(&mut self, key: KeyEvent) -> (r: EventResult)
        requires
            old(self).wf(),
        ensures
            final(self).wf(),
            Self::key_step(
                *old(self),
                commit_op(old(self).find_active, old(self).view_mode == ViewMode::Detail, key),
                *final(self),
            ),
            Self::key_result(
                *old(self),
                commit_op(old(self).find_active, old(self).view_mode == ViewMode::Detail, key),
                r,
            ),
    {
        if key.modifiers.contains(KeyModifiers::control()) {
            if let KeyCode::Char('q') = key.code {
                return EventResult::Action(Action::Ui(UiAction::CloseCommitLog));
            }
        }
        if self.find_active {
            return self.handle_find_key(key);
        }
        if let ViewMode::Detail = self.view_mode {
            return self.handle_detail_key(key);
        }
        let has_shift = key.modifiers.contains(KeyModifiers::shift());
        if key.modifiers.contains(KeyModifiers::control()) {
            return match key.code {
                KeyCode::Char('n') => {
                    if has_shift {
                        self.scroll_diff_down();
                    } else {
                        self.move_down();
                    }
                    EventResult::Consumed
                },
                KeyCode::Char('p') => {
                    if has_shift {
                        self.scroll_diff_up();
                    } else {
                        self.move_up();
                    }
                    EventResult::Consumed
                },
                _ => EventResult::Consumed,
            };
        }
        if has_shift {
            return match key.code {
                KeyCode::Char('J') | KeyCode::Down => {
                    self.scroll_diff_down();
                    EventResult::Consumed
                },
                KeyCode::Char('K') | KeyCode::Up => {
                    self.scroll_diff_up();
                    EventResult::Consumed
                },
                KeyCode::Char('L') | KeyCode::Right => {
                    self.scroll_diff_right();
                    EventResult::Consumed
                },
                KeyCode::Char('H') | KeyCode::Left => {
                    self.scroll_diff_left();
                    EventResult::Consumed
                },
                _ => EventResult::Consumed,
            };
        }
        match key.code {
            KeyCode::Char('j') | KeyCode::Down => {
                self.move_down();
                EventResult::Consumed
            },
            KeyCode::Char('k') | KeyCode::Up => {
                self.move_up();
                EventResult::Consumed
            },
            KeyCode::Char('/') => {
                self.find_active = true;
                self.find_input = String::new();
                EventResult::Consumed
            },
            KeyCode::Char('y') => match self.copy_selected_hash() {
                Some(e) => e,
                None => EventResult::Consumed,
            },
            KeyCode::Char('o') | KeyCode::Enter => {
                if self.selected < self.commits.len() {
                    let hash = self.commits[self.selected].full_hash.clone();
                    EventResult::Action(
                        Action::App(AppAction::Workspace(WorkspaceAction::OpenCommitDiffView(hash))),
                    )
                } else {
                    EventResult::Consumed
                }
            },
            KeyCode::Char('r') => {
                self.commits.clear();
                self.selected = 0;
                self.scroll_offset = 0;
                self.diff_lines.clear();
                self.message = Some(owned("Loading commits..."));
                self.request_page(0);
                EventResult::Consumed
            },
            KeyCode::Esc | KeyCode::Char('q') => EventResult::Action(Action::Ui(UiAction::CloseCommitLog)),
            _ => EventResult::Consumed,
        }
    }

    /// The lines of the detail view: the selected commit's header, then its
    /// details once they arrived (a loading notice until then). Empty when
    /// no commit is selected.
    pub open spec fn detail_lines(self) -> Seq<(Seq<char>, CellStyle)> {
        if self.selected < self.commits@.len() {
            seq![
                (
                    "Commit "@ + self.commits@[self.selected as int].full_hash@,
                    CellStyle { fg: Some(Color::Cyan), bold: true, ..CellStyle::plain() },
                ),
            ] + match self.detail {
                Some(d) => detail_body(d),
                None => seq![
                    (Seq::<char>::empty(), CellStyle::plain()),
                    ("Loading..."@, CellStyle { dim: true, ..CellStyle::plain() }),
                ],
            }
        } else {
            Seq::empty()
        }
    }

    /// The lines of the detail view.
    pub fn build_detail_lines(&self) -> (r: Vec<(String, CellStyle)>)
        ensures
            line_views(r@) == self.detail_lines(),
    {
        let mut lines: Vec<(String, CellStyle)> = Vec::new();
        if self.selected >= self.commits.len() {
            proof {
                assert(line_views(lines@) =~= self.detail_lines());
            }
            return lines;
        }
        let mut head = owned("Commit ");
        push_str(&mut head, self.commits[self.selected].full_hash.as_str());
        lines.push((head, CellStyle { fg: Some(Color::Cyan), bold: true, dim: false, reverse: false }));
        let ghost first = line_views(lines@);
        match &self.detail {
            Some(detail) => {
                let body = detail_body_lines(detail);
                let out = append_lines(lines, &body);
                proof {
                    assert(line_views(out@) =~= self.detail_lines());
                }
                out
            },
            None => {
                lines.push((String::new(), CellStyle::new()));
                lines.push((owned("Loading..."), CellStyle::dimmed()));
                proof {
                    assert(line_views(lines@) =~= self.detail_lines());
                }
                lines
            },
        }
    }
}

/// The style of a diff line.
pub fn diff_line_style(line: &str) -> (s: CellStyle)
    ensures
        s == diff_style(line@),
{
    if starts_with(line, "+") {
        CellStyle::colored(Color::Green)
    } else if starts_with(line, "-") {
        CellStyle::colored(Color::Red)
    } else if starts_with(line, "@@") {
        CellStyle::colored(Color::Cyan)
    } else if starts_with(line, "diff ") || starts_with(line, "index ") {
        CellStyle { fg: None, bold: true, dim: false, reverse: false }
    } else {
        CellStyle::dimmed()
    }
}

/// The colour of a changed file's status letter.
fn file_status_color(status: char) -> (c: Color)
    ensures
        c == status_color(status),
{
    if status == 'A' {
        Color::Green
    } else if status == 'D' {
        Color::Red
    } else if status == 'M' {
        Color::Yellow
    } else if status == 'R' {
        Color::Cyan
    } else {
        Color::White
    }
}

/// The lines listing the changed files.
fn file_lines(files: &Vec<CommitFileEntry>) -> (r: Vec<(String, CellStyle)>)
    ensures
        line_views(r@) == files@.map_values(|f: CommitFileEntry| file_line(f)),
{
    let mut out: Vec<(String, CellStyle)> = Vec::new();
    let mut i: usize = 0;
    while i < files.len()
        invariant
            i <= files@.len(),
            out@.len() == i,
            line_views(out@) == files@.take(i as int).map_values(|f: CommitFileEntry| file_line(f)),
        decreases files@.len() - i,
    {
        let f = &files[i];
        let mut text = owned("  ");
        string_push(&mut text, f.status);
        push_str(&mut text, " ");
        push_str(&mut text, f.path.as_str());
        proof {
            assert(text@ =~= "  "@ + seq![f.status] + " "@ + f.path@);
        }
        let ghost before = out@;
        out.push((text, CellStyle::colored(file_status_color(f.status))));
        i = i + 1;
        proof {
            let want = files@.take(i as int).map_values(|f: CommitFileEntry| file_line(f));
            assert forall|k: int| 0 <= k < i implies line_views(out@)[k] == want[k] by {
                if k < i - 1 {
                    assert(out@[k] == before[k]);
                    assert(line_views(before)[k] == files@.take(i - 1).map_values(
                        |f: CommitFileEntry| file_line(f),
                    )[k]);
                }
            }
            assert(line_views(out@) =~= want);
        }
    }
    proof {
        assert(files@.take(i as int) =~= files@);
    }
    out
}

/// The diff lines, each in its style.
fn diff_block(diff: &Vec<String>) -> (r: Vec<(String, CellStyle)>)
    ensures
        line_views(r@) == string_views(diff@).map_values(|l: Seq<char>| (l, diff_style(l))),
{
    let mut out: Vec<(String, CellStyle)> = Vec::new();
    let mut i: usize = 0;
    while i < diff.len()
        invariant
            i <= diff@.len(),
            out@.len() == i,
            line_views(out@) == string_views(diff@).take(i as int).map_values(|l: Seq<char>| (l, diff_style(l))),
        decreases diff@.len() - i,
    {
        let style = diff_line_style(diff[i].as_str());
        let ghost before = out@;
        out.push((diff[i].clone(), style));
        i = i + 1;
        proof {
            let want = string_views(diff@).take(i as int).map_values(|l: Seq<char>| (l, diff_style(l)));
            assert forall|k: int| 0 <= k < i implies line_views(out@)[k] == want[k] by {
                if k < i - 1 {
                    assert(out@[k] == before[k]);
                    assert(line_views(before)[k] == string_views(diff@).take(i - 1).map_values(
                        |l: Seq<char>| (l, diff_style(l)),
                    )[k]);
                }
            }
            assert(line_views(out@) =~= want);
        }
    }
    proof {
        assert(string_views(diff@).take(i as int) =~= string_views(diff@));
    }
    out
}

/// The detail lines below the commit header.
fn detail_body_lines(d: &CommitDetail) -> (r: Vec<(String, CellStyle)>)
    ensures
        line_views(r@) == detail_body(*d),
{
    let bold = CellStyle { fg: None, bold: true, dim: false, reverse: false };
    let mut lines: Vec<(String, CellStyle)> = Vec::new();
    let mut author = owned("Author: ");
    push_str(&mut author, d.author.as_str());
    push_str(&mut author, " <");
    push_str(&mut author, d.author_email.as_str());
    push_str(&mut author, ">");
    lines.push((author, bold));
    let mut date = owned("Date:   ");
    push_str(&mut date, d.date.as_str());
    lines.push((date, CellStyle::dimmed()));
    lines.push((String::new(), CellStyle::new()));
    let ghost head = line_views(lines@);
    proof {
        assert(head =~= seq![
            ("Author: "@ + d.author@ + " <"@ + d.author_email@ + ">"@, CellStyle { bold: true, ..CellStyle::plain() }),
            ("Date:   "@ + d.date@, CellStyle { dim: true, ..CellStyle::plain() }),
            (Seq::<char>::empty(), CellStyle::plain()),
        ]);
    }
    let message = str_lines(d.message.as_str());
    let mut lines = append_styled(lines, &message, CellStyle::new());
    let ghost before_blank = line_views(lines@);
    lines.push((String::new(), CellStyle::new()));
    let ghost before_files = line_views(lines@);
    proof {
        assert(before_files =~= before_blank + seq![(Seq::<char>::empty(), CellStyle::plain())]);
    }
    if d.files.len() > 0 {
        let mut heading = owned("Files changed (");
        let count = u64_to_decimal(d.files.len() as u64);
        push_str(&mut heading, count.as_str());
        push_str(&mut heading, "):");
        let ghost h = heading@;
        lines.push((heading, bold));
        let ghost with_heading = line_views(lines@);
        proof {
            assert(with_heading =~= before_files + seq![(h, bold)]);
        }
        let listed = file_lines(&d.files);
        lines = append_lines(lines, &listed);
        let ghost with_files = line_views(lines@);
        lines.push((String::new(), CellStyle::new()));
        proof {
            assert(line_views(lines@) =~= with_files + seq![(Seq::<char>::empty(), CellStyle::plain())]);
        }
    }
    let ghost after_files = line_views(lines@);
    let diff = diff_block(&d.diff_lines);
    let out = append_lines(lines, &diff);
    proof {
        let blank = (Seq::<char>::empty(), CellStyle::plain());
        let files = if d.files@.len() > 0 {
            seq![("Files changed ("@ + decimal_chars(d.files@.len()) + "):"@, bold)] + d.files@.map_values(
                |f: CommitFileEntry| file_line(f),
            ) + seq![blank]
        } else {
            Seq::empty()
        };
        assert(after_files =~= before_files + files);
        assert(line_views(out@) =~= detail_body(*d));
    }
    out
}

/// Commit `c` matches the lowercased query `q`: its lowercased message, its
/// short hash or its lowercased author contains `q`.
pub open spec fn commit_matches_query(c: CommitEntry, q: Seq<char>) -> bool {
    ||| has_infix(lowercase_str(c.message@), q)
    ||| has_infix(c.hash@, q)
    ||| has_infix(lowercase_str(c.author@), q)
}

/// Indices of the commits the find text keeps, in order: all of them while
/// the find text is empty, else those matching its lowercase form.
pub open spec fn commit_matches(cs: Seq<CommitEntry>, find: Seq<char>) -> Seq<usize>
    decreases cs.len(),
{
    if cs.len() == 0 {
        Seq::empty()
    } else {
        let prev = commit_matches(cs.drop_last(), find);
        if find.len() == 0 || commit_matches_query(cs.last(), lowercase_str(find)) {
            prev.push((cs.len() - 1) as usize)
        } else {
            prev
        }
    }
}

/// Where `x` first occurs in `s`.
pub open spec fn position_of(s: Seq<usize>, x: usize) -> Option<int>
    decreases s.len(),
{
    if s.len() == 0 {
        None
    } else {
        match position_of(s.drop_last(), x) {
            Some(p) => Some(p),
            None => if s.last() == x {
                Some(s.len() - 1)
            } else {
                None
            },
        }
    }
}

/// Columns the find prompt `/query` takes in a panel `w` wide.
pub open spec fn find_prompt_used(find: Seq<char>, w: usize) -> int {
    let prompt = "/"@ + find;
    str_width(prompt.take(fit_len(prompt, sat_sub(w as int, 2) as nat) as int)) as int
}

/// Indices of the commits the find text keeps, in order (see
/// `commit_matches`).
pub fn visible_commit_indices(commits: &Vec<CommitEntry>, find_input: &str) -> (r: Vec<usize>)
    ensures
        r@ == commit_matches(commits@, find_input@),
{
    let query = str_to_lowercase(find_input);
    let q = str_chars(query.as_str());
    let empty = str_chars(find_input).len() == 0;
    let mut r: Vec<usize> = Vec::new();
    let mut i: usize = 0;
    while i < commits.len()
        invariant
            i <= commits@.len(),
            q@ == lowercase_str(find_input@),
            empty == (find_input@.len() == 0),
            r@ == commit_matches(commits@.take(i as int), find_input@),
        decreases commits@.len() - i,
    {
        proof {
            assert(commits@.take(i + 1).drop_last() =~= commits@.take(i as int));
            assert(commits@.take(i + 1).last() == commits@[i as int]);
        }
        let keep = if empty {
            true
        } else {
            let c = &commits[i];
            let msg = str_to_lowercase(c.message.as_str());
            let author = str_to_lowercase(c.author.as_str());
            contains_chars(&str_chars(msg.as_str()), &q) || contains_chars(&str_chars(c.hash.as_str()), &q)
                || contains_chars(&str_chars(author.as_str()), &q)
        };
        if keep {
            r.push(i);
        }
        i = i + 1;
    }
    proof {
        assert(commits@.take(i as int) =~= commits@);
    }
    r
}

/// Where `x` first occurs in `s`.
fn find_position(s: &Vec<usize>, x: usize) -> (r: Option<usize>)
    ensures
        match position_of(s@, x) {
            Some(p) => r == Some(p as usize),
            None => r is None,
        },
{
    let mut i: usize = 0;
    while i < s.len()
        invariant
            i <= s@.len(),
            position_of(s@.take(i as int), x) is None,
        decreases s@.len() - i,
    {
        proof {
            assert(s@.take(i + 1).drop_last() =~= s@.take(i as int));
        }
        if s[i] == x {
            proof {
                lemma_position_extends(s@, x, i as int + 1);
            }
            return Some(i);
        }
        i = i + 1;
    }
    proof {
        assert(s@.take(i as int) =~= s@);
    }
    None
}

/// A first occurrence within a prefix is the first occurrence in the whole.
proof fn lemma_position_extends(s: Seq<usize>, x: usize, k: int)
    requires
        0 <= k <= s.len(),
        position_of(s.take(k), x) is Some,
    ensures
        position_of(s, x) == position_of(s.take(k), x),
    decreases s.len() - k,
{
    if k < s.len() {
        assert(s.take(k + 1).drop_last() =~= s.take(k));
        lemma_position_extends(s, x, k + 1);
    } else {
        assert(s.take(k) =~= s);
    }
}

impl CommitLogView {
    /// The selected commit's row among those the find text keeps; 0 when
    /// the find text hides it.
    pub open spec fn list_position(self) -> usize {
        match position_of(commit_matches(self.commits@, self.find_input@), self.selected) {
            Some(p) => p as usize,
            None => 0,
        }
    }

    /// Scrolls the list, `content_h` rows tall, just enough that the
    /// selected commit's row is shown.
    pub fn keep_selected_visible(&mut self, content_h: usize)
        requires
            (if old(self).list_position() < old(self).scroll_offset {
                old(self).list_position()
            } else {
                old(self).scroll_offset
            }) + content_h <= usize::MAX,
        ensures
            *final(self) == (CommitLogView {
                scroll_offset: scrolled_for(old(self).scroll_offset, old(self).list_position(), content_h),
                ..*old(self)
            }),
    {
        let visible = visible_commit_indices(&self.commits, self.find_input.as_str());
        let pos = match find_position(&visible, self.selected) {
            Some(p) => p,
            None => 0,
        };
        self.scroll_offset = scroll_to_show(self.scroll_offset, pos, content_h);
    }

    /// Where the terminal cursor goes while the find prompt is open, for the
    /// commit panel at column `x`, row `y`, `w` wide and `h` tall: after the
    /// prompt `/query` as much of it as fits, on the panel's second-last row.
    pub fn commit_find_cursor(&self, x: usize, y: usize, w: usize, h: usize) -> (r: Option<(u16, u16)>)
        requires
            self.find_active ==> fits_in_usize("/"@ + self.find_input@),
            self.find_active ==> x + 1 + find_prompt_used(self.find_input@, w) <= usize::MAX,
            self.find_active ==> y + sat_sub(h as int, 2) <= usize::MAX,
        ensures
            !self.find_active ==> r is None,
            self.find_active ==> r == Some(
                (
                    (x + 1 + find_prompt_used(self.find_input@, w)) as u16,
                    (y + sat_sub(h as int, 2)) as u16,
                ),
            ),
    {
        if !self.find_active {
            return None;
        }
        let inner_w = if w >= 2 {
            w - 2
        } else {
            0
        };
        let find_row = y + if h >= 2 {
            h - 2
        } else {
            0
        };
        let mut prompt = owned("/");
        push_str(&mut prompt, self.find_input.as_str());
        let (_, used) = truncate_to_width(prompt.as_str(), inner_w);
        let cursor_x = (x + 1 + used) as u16;
        let cursor_y = find_row as u16;
        Some((cursor_x, cursor_y))
    }
}

} // verus!