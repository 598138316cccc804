//! A picker over the repository's issues, with a find prompt, a copy menu
//! and a scrollable preview of the selected issue and its comments.
use vstd::prelude::*;

use crate::input::action::{Action, AppAction, IntegrationAction, UiAction};
use crate::input::key::{KeyCode, KeyEvent, KeyModifiers, MouseEventKind};
use crate::std_calls::{char_is_whitespace, is_unicode_whitespace, string_pop, string_push};
use crate::strings::{
    all_whitespace, is_blank,
    decimal_chars, join, join_seqs, owned, prefix_before, prefix_before_char, push_str, str_eq,
    str_lines, string_views, text_lines, u64_to_decimal,
};
use crate::ui::framework::cell::{CellStyle, Color};
use crate::ui::framework::component::EventResult;
use crate::ui::overlays::github::list_keys::{
    all_indices, scroll_to_show, scrolled_for, append_lines, append_styled, body_lines, clamp_selection, entry_haystack,
    entry_haystack_string, entry_score, filtered_for, identity, is_copy, line_views,
    max_line_overflow, max_overflow, max_preview_scroll, opt_ints, picker_op, query_after,
    rank_matches, sat_add, sat_sub, styled, vars_after, PickerOp, PickerVars,
    HORIZONTAL_SCROLL_COLS, MOUSE_SCROLL_LINES, PREVIEW_SPLIT_THRESHOLD,
};
use crate::ui::shared::filtering::{fuzzy_match, MAX_MATCH_CHARS};
use crate::ui::text::str_width;
use crate::ui::text_input::delete_prev_word_input;
use crate::utf8::str_chars;

verus! {

/// A comment on an issue.
#[derive(Debug, Clone, PartialEq, Eq)]
pub struct IssueCommentEntry {
    pub author: String,
    pub body: String,
    pub created_at: String,
}

/// An issue as listed by `gh issue list`, with the comments the listing
/// carried and the number of comments it reported.
#[derive(Debug, Clone)]
pub struct IssueEntry {
    pub number: u64,
    pub title: String,
    pub body: String,
    pub url: String,
    pub state: String,
    pub author: String,
    pub created_at: String,
    pub labels: Vec<String>,
    pub comments: Vec<IssueCommentEntry>,
    pub comment_count: usize,
}

/// The style of the header line for an issue in `state`: green when open,
/// red when closed (in either case), bold in every case.
pub open spec fn issue_state_style(state: Seq<char>) -> CellStyle {
    let color = if state == "OPEN"@ || state == "open"@ {
        Some(Color::Green)
    } else if state == "CLOSED"@ || state == "closed"@ {
        Some(Color::Red)
    } else {
        None
    };
    CellStyle { fg: color, bold: true, ..CellStyle::plain() }
}

/// The lines of one comment: its author and date, then its text, or a dimmed
/// `(empty comment)` when it holds only whitespace.
pub open spec fn comment_lines(c: IssueCommentEntry) -> Seq<(Seq<char>, CellStyle)> {
    seq![
        (
            "- @"@ + c.author@ + " ("@ + prefix_before(c.created_at@, 'T') + ")"@,
            CellStyle { fg: Some(Color::Yellow), ..CellStyle::plain() },
        ),
    ] + if all_whitespace(c.body@) {
        seq![("(empty comment)"@, CellStyle { dim: true, ..CellStyle::plain() })]
    } else {
        styled(text_lines(c.body@), CellStyle::plain())
    }
}

/// The comments one after another, a blank line between two comments.
pub open spec fn comments_block(cs: Seq<IssueCommentEntry>) -> Seq<(Seq<char>, CellStyle)>
    decreases cs.len(),
{
    if cs.len() == 0 {
        Seq::empty()
    } else {
        let prev = comments_block(cs.drop_last());
        let sep = if cs.len() > 1 {
            seq![(Seq::<char>::empty(), CellStyle::plain())]
        } else {
            Seq::empty()
        };
        prev + sep + comment_lines(cs.last())
    }
}

/// The part of the preview after the description: the comment count, then
/// the comments, or a note that there are none or that the listing left them
/// out.
pub open spec fn comments_section(e: IssueEntry) -> Seq<(Seq<char>, CellStyle)> {
    let heading = (
        "Comments ("@ + decimal_chars(e.comment_count as nat) + "):"@,
        CellStyle { fg: Some(Color::Cyan), bold: true, ..CellStyle::plain() },
    );
    let dim = CellStyle { dim: true, ..CellStyle::plain() };
    seq![(Seq::empty(), CellStyle::plain()), heading] + if e.comment_count == 0 {
        seq![("(no comments)"@, dim)]
    } else if e.comments@.len() == 0 {
        seq![("(comments unavailable in this listing)"@, dim)]
    } else {
        comments_block(e.comments@)
    }
}

/// The preview of an issue: state and author, labels when it has any,
/// creation date, title, description and comments.
pub open spec fn issue_preview(e: IssueEntry) -> Seq<(Seq<char>, CellStyle)> {
    let header = ("["@ + e.state@ + "] by "@ + e.author@, issue_state_style(e.state@));
    let labels = if e.labels@.len() > 0 {
        seq![
            (
                "Labels: "@ + join_seqs(string_views(e.labels@), ", "@),
                CellStyle { fg: Some(Color::Yellow), ..CellStyle::plain() },
            ),
        ]
    } else {
        Seq::empty()
    };
    let created = (
        "Created: "@ + prefix_before(e.created_at@, 'T'),
        CellStyle { dim: true, ..CellStyle::plain() },
    );
    let blank = (Seq::<char>::empty(), CellStyle::plain());
    seq![header] + labels + seq![
        created,
        blank,
        ("Title: "@ + e.title@, CellStyle { bold: true, ..CellStyle::plain() }),
        blank,
        ("Description:"@, CellStyle { fg: Some(Color::Cyan), ..CellStyle::plain() }),
    ] + styled(body_lines(e.body@), CellStyle::plain()) + comments_section(e)
}

/// The list of issues, the rows the find query keeps, and the state of
/// the prompt, the copy menu and the preview.
pub struct IssueListPicker {
    pub entries: Vec<IssueEntry>,
    pub filtered: Vec<usize>,
    pub selected: usize,
    pub scroll_offset: usize,
    pub find_active: bool,
    pub find_input: String,
    pub copy_menu_active: bool,
    pub preview_scroll: usize,
    pub preview_horizontal_scroll: usize,
    pub message: Option<String>,
}

impl IssueListPicker {
    /// Every entry can be matched against a query, every listed row names an
    /// entry, and the selection is a listed row (0 when none is listed).
    pub open spec fn wf(self) -> bool {
        &&& Self::matchable(self.entries@)
        &&& forall|k: int| 0 <= k < self.filtered@.len() ==> #[trigger] self.filtered@[k] < self.entries@.len()
        &&& if self.filtered@.len() == 0 {
            self.selected == 0
        } else {
            self.selected < self.filtered@.len()
        }
    }

    /// Every entry's find text is short enough to be scored.
    pub open spec fn matchable(entries: Seq<IssueEntry>) -> bool {
        forall|i: int|
            0 <= i < entries.len() ==> entry_haystack(
                #[trigger] entries[i].number,
                entries[i].title@,
            ).len() <= MAX_MATCH_CHARS
    }

    /// Each entry's score for the query `q`.
    pub open spec fn scores(entries: Seq<IssueEntry>, q: Seq<char>) -> Seq<Option<int>> {
        Seq::new(entries.len(), |i: int| entry_score(entries[i].number, entries[i].title@, q))
    }

    /// The cursor and prompt.
    pub open spec fn vars(self) -> PickerVars {
        (
            self.selected as int,
            self.find_active,
            self.find_input@,
            self.copy_menu_active,
            self.preview_scroll as int,
            self.preview_horizontal_scroll as int,
        )
    }

    /// The issue on the selected row, if there is one.
    pub open spec fn selected_issue(self) -> Option<IssueEntry> {
        if self.selected < self.filtered@.len() && self.filtered@[self.selected as int]
            < self.entries@.len() {
            Some(self.entries@[self.filtered@[self.selected as int] as int])
        } else {
            None
        }
    }

    /// The preview lines of the selected issue, or a dimmed notice.
    pub open spec fn preview(self) -> Seq<(Seq<char>, CellStyle)> {
        match self.selected_issue() {
            Some(e) => issue_preview(e),
            None => seq![("No issue selected"@, CellStyle { dim: true, ..CellStyle::plain() })],
        }
    }

    /// `n` is the picker `o` after the operation `op`: the entries stay; an
    /// operation that edits the query re-filters the list, keeps the selected
    /// row when it is still listed (else takes the last one) and resets the
    /// preview; any other operation changes the cursor and prompt only.
    pub open spec fn key_step(o: Self, op: PickerOp, n: Self) -> bool {
        &&& n.entries == o.entries
        &&& n.scroll_offset == o.scroll_offset
        &&& n.message == o.message
        &&& match query_after(o.find_input@, op) {
            None => n.filtered == o.filtered && n.vars() == vars_after(
                o.vars(),
                op,
                o.filtered@.len() as int,
            ),
            Some(q) => {
                &&& n.find_input@ == q
                &&& n.find_active == (o.find_active && !(op is FindCancel))
                &&& n.copy_menu_active == o.copy_menu_active
                &&& filtered_for(n.filtered@, o.entries@.len(), Self::scores(o.entries@, q), q)
                &&& n.selected == clamp_selection(o.selected as int, n.filtered@.len() as int)
                &&& n.preview_scroll == 0
                &&& n.preview_horizontal_scroll == 0
            },
        }
    }

    /// What the picker `o` answers to `op`: closing, opening the selected pull
    /// request's URL, or copying its URL, `#number` or title; anything else
    /// (and opening or copying with no row selected) is consumed.
    pub open spec fn key_result(o: Self, op: PickerOp, r: EventResult) -> bool {
        match op {
            PickerOp::Close => r == EventResult::Action(Action::Ui(UiAction::CloseIssueListPicker)),
            PickerOp::OpenSelected => match o.selected_issue() {
                Some(e) => r matches EventResult::Action(
                    Action::App(AppAction::Integration(IntegrationAction::OpenIssueUrl(u))),
                ) && u@ == e.url@,
                None => r is Consumed,
            },
            PickerOp::CopyUrl => match o.selected_issue() {
                Some(e) => is_copy(r, e.url@, "Issue URL"@),
                None => r is Consumed,
            },
            PickerOp::CopyNumber => match o.selected_issue() {
                Some(e) => is_copy(r, seq!['#'] + decimal_chars(e.number as nat), "Issue number"@),
                None => r is Consumed,
            },
            PickerOp::CopyTitle => match o.selected_issue() {
                Some(e) => is_copy(r, e.title@, "Issue title"@),
                None => r is Consumed,
            },
            _ => r is Consumed,
        }
    }

    /// A picker over `entries`, all listed in order, the first selected; with
    /// no entry it says so.
    pub fn new(entries: Vec<IssueEntry>) -> (p: Self)
        requires
            Self::matchable(entries@),
        ensures
            p.wf(),
            p.entries@ == entries@,
            p.filtered@ == identity(entries@.len()),
            p.selected == 0,
            p.scroll_offset == 0,
            !p.find_active,
            p.find_input@.len() == 0,
            !p.copy_menu_active,
            p.preview_scroll == 0,
            p.preview_horizontal_scroll == 0,
            entries@.len() == 0 ==> p.message is Some && p.message->0@ == "No issues found"@,
            entries@.len() > 0 ==> p.message is None,
    {
        let msg = if entries.len() == 0 {
            Some(owned("No issues found"))
        } else {
            None
        };
        let filtered = all_indices(entries.len());
        Self {
            entries,
            filtered,
            selected: 0,
            scroll_offset: 0,
            find_active: false,
            find_input: String::new(),
            copy_menu_active: false,
            preview_scroll: 0,
            preview_horizontal_scroll: 0,
            message: msg,
        }
    }

    /// The issue on the selected row.
    fn selected_entry(&self) -> (r: Option<&IssueEntry>)
        ensures
            match self.selected_issue() {
                Some(e) => r is Some && *r->0 == e,
                None => r is None,
            },
    {
        if self.selected < self.filtered.len() {
            let idx = self.filtered[self.selected];
            if idx < self.entries.len() {
                return Some(&self.entries[idx]);
            }
        }
        None
    }

    /// Each entry's score for `query`.
    fn entry_scores(entries: &Vec<IssueEntry>, query: &str) -> (r: Vec<Option<i32>>)
        requires
            Self::matchable(entries@),
        ensures
            opt_ints(r@) == Self::scores(entries@, query@),
    {
        let mut r: Vec<Option<i32>> = Vec::new();
        let mut i: usize = 0;
        while i < entries.len()
            invariant
                i <= entries@.len(),
                Self::matchable(entries@),
                r@.len() == i,
                opt_ints(r@) == Self::scores(entries@, query@).take(i as int),
            decreases entries@.len() - i,
        {
            let h = entry_haystack_string(entries[i].number, entries[i].title.as_str());
            proof {
                assert(entry_haystack(entries@[i as int].number, entries@[i as int].title@).len()
                    <= MAX_MATCH_CHARS);
            }
            let score = match fuzzy_match(h.as_str(), query) {
                Some(m) => Some(m.0),
                None => None,
            };
            let ghost before = r@;
            r.push(score);
            proof {
                let want = Self::scores(entries@, query@);
                assert(opt_ints(r@)[i as int] == want[i as int]);
                assert forall|k: int| 0 <= k < i implies opt_ints(r@)[k] == want[k] by {
                    assert(r@[k] == before[k]);
                    assert(opt_ints(before)[k] == want.take(i as int)[k]);
                }
                assert(opt_ints(r@) =~= want.take(i + 1));
            }
            i = i + 1;
        }
        proof {
            assert(Self::scores(entries@, query@).take(i as int) =~= Self::scores(
                entries@,
                query@,
            ));
        }
        r
    }

    /// Re-lists the entries for the current query and resets the preview.
    fn update_filtered(&mut self)
        requires
            old(self).wf(),
        ensures
            final(self).wf(),
            final(self).entries == old(self).entries,
            final(self).scroll_offset == old(self).scroll_offset,
            final(self).message == old(self).message,
            final(self).find_input == old(self).find_input,
            final(self).find_active == old(self).find_active,
            final(self).copy_menu_active == old(self).copy_menu_active,
            filtered_for(
                final(self).filtered@,
                old(self).entries@.len(),
                Self::scores(old(self).entries@, old(self).find_input@),
                old(self).find_input@,
            ),
            final(self).selected == clamp_selection(
                old(self).selected as int,
                final(self).filtered@.len() as int,
            ),
            final(self).preview_scroll == 0,
            final(self).preview_horizontal_scroll == 0,
    {
        if self.find_input.as_str().is_empty() {
            self.filtered = all_indices(self.entries.len());
        } else {
            let scores = Self::entry_scores(&self.entries, self.find_input.as_str());
            self.filtered = rank_matches(&scores);
        }
        if self.selected >= self.filtered.len() {
            self.selected = if self.filtered.len() == 0 {
                0
            } else {
                self.filtered.len() - 1
            };
        }
        self.preview_scroll = 0;
        self.preview_horizontal_scroll = 0;
    }

    /// Selects the next row, if there is one.
    fn move_down(&mut self)
        requires
            old(self).wf(),
        ensures
            final(self).wf(),
            Self::key_step(*old(self), PickerOp::MoveDown, *final(self)),
    {
        if self.filtered.len() == 0 {
            return;
        }
        if self.selected + 1 < self.filtered.len() {
            self.selected = self.selected + 1;
            self.preview_scroll = 0;
            self.preview_horizontal_scroll = 0;
        }
    }

    /// Selects the previous row, if there is one.
    fn move_up(&mut self)
        requires
            old(self).wf(),
        ensures
            final(self).wf(),
            Self::key_step(*old(self), PickerOp::MoveUp, *final(self)),
    {
        if self.selected > 0 {
            self.selected = self.selected - 1;
            self.preview_scroll = 0;
            self.preview_horizontal_scroll = 0;
        }
    }

    /// How far a preview of `preview_len` lines can scroll with `content_h`
    /// visible rows.
    pub fn preview_max_scroll(&self, preview_len: usize, content_h: usize) -> (r: usize)
        ensures
            r == max_preview_scroll(preview_len as int, content_h as int),
    {
        if content_h == 0 {
            0
        } else {
            preview_len.saturating_sub(content_h)
        }
    }

    /// Keeps the vertical preview scroll within the preview.
    pub fn clamp_preview_scroll(&mut self, preview_len: usize, content_h: usize)
        ensures
            final(self).preview_scroll == if old(self).preview_scroll > max_preview_scroll(
                preview_len as int,
                content_h as int,
            ) {
                max_preview_scroll(preview_len as int, content_h as int)
            } else {
                old(self).preview_scroll as int
            },
            final(self).entries == old(self).entries,
            final(self).filtered == old(self).filtered,
            final(self).selected == old(self).selected,
            final(self).scroll_offset == old(self).scroll_offset,
            final(self).find_active == old(self).find_active,
            final(self).find_input == old(self).find_input,
            final(self).copy_menu_active == old(self).copy_menu_active,
            final(self).preview_horizontal_scroll == old(self).preview_horizontal_scroll,
            final(self).message == old(self).message,
    {
        let max_scroll = self.preview_max_scroll(preview_len, content_h);
        if self.preview_scroll > max_scroll {
            self.preview_scroll = max_scroll;
        }
    }

    /// Scrolls the preview down `lines` lines, no further than its end.
    fn scroll_preview_down_lines(&mut self, lines: usize, content_h: usize)
        requires
            old(self).wf(),
        ensures
            final(self).wf(),
            final(self).preview_scroll == {
                let m = max_preview_scroll(old(self).preview().len() as int, content_h as int);
                let s = sat_add(old(self).preview_scroll as int, lines as int);
                if s < m {
                    s
                } else {
                    m
                }
            },
            final(self).entries == old(self).entries,
            final(self).filtered == old(self).filtered,
            final(self).selected == old(self).selected,
            final(self).scroll_offset == old(self).scroll_offset,
            final(self).find_active == old(self).find_active,
            final(self).find_input == old(self).find_input,
            final(self).copy_menu_active == old(self).copy_menu_active,
            final(self).preview_horizontal_scroll == old(self).preview_horizontal_scroll,
            final(self).message == old(self).message,
    {
        let preview_len = self.preview_lines().len();
        let max_scroll = self.preview_max_scroll(preview_len, content_h);
        let s = self.preview_scroll.saturating_add(lines);
        self.preview_scroll = if s < max_scroll {
            s
        } else {
            max_scroll
        };
    }

    /// Scrolls the preview up `lines` lines, no further than its top.
    fn scroll_preview_up_lines(&mut self, lines: usize)
        requires
            old(self).wf(),
        ensures
            final(self).wf(),
            final(self).preview_scroll == sat_sub(old(self).preview_scroll as int, lines as int),
            final(self).entries == old(self).entries,
            final(self).filtered == old(self).filtered,
            final(self).selected == old(self).selected,
            final(self).scroll_offset == old(self).scroll_offset,
            final(self).find_active == old(self).find_active,
            final(self).find_input == old(self).find_input,
            final(self).copy_menu_active == old(self).copy_menu_active,
            final(self).preview_horizontal_scroll == old(self).preview_horizontal_scroll,
            final(self).message == old(self).message,
    {
        self.preview_scroll = self.preview_scroll.saturating_sub(lines);
    }

    /// Scrolls the preview down a line.
    fn scroll_preview_down(&mut self)
        requires
            old(self).wf(),
        ensures
            final(self).wf(),
            Self::key_step(*old(self), PickerOp::ScrollDown, *final(self)),
    {
        self.preview_scroll = self.preview_scroll.saturating_add(1);
    }

    /// Scrolls the preview up a line.
    fn scroll_preview_up(&mut self)
        requires
            old(self).wf(),
        ensures
            final(self).wf(),
            Self::key_step(*old(self), PickerOp::ScrollUp, *final(self)),
    {
        self.scroll_preview_up_lines(1);
    }

    /// How far the preview can scroll right: the most any line is wider than
    /// `content_w` columns (0 when no column is visible).
    pub fn preview_max_horizontal_scroll(&self, preview: &[(String, CellStyle)], content_w: usize) -> (r:
        usize)
        requires
            forall|i: int| 0 <= i < preview@.len() ==> str_width(#[trigger] preview@[i].0@) <= usize::MAX,
        ensures
            r == if content_w == 0 {
                0
            } else {
                max_overflow(line_views(preview@), content_w as int)
            },
    {
        if content_w == 0 {
            return 0;
        }
        max_line_overflow(preview, content_w)
    }

    /// Keeps the horizontal preview scroll within the widest line.
    pub fn clamp_preview_horizontal_scroll(&mut self, preview: &[(String, CellStyle)], content_w: usize)
        requires
            forall|i: int| 0 <= i < preview@.len() ==> str_width(#[trigger] preview@[i].0@) <= usize::MAX,
        ensures
            ({
                let m = if content_w == 0 {
                    0
                } else {
                    max_overflow(line_views(preview@), content_w as int)
                };
                final(self).preview_horizontal_scroll == if old(self).preview_horizontal_scroll
                    > m {
                    m
                } else {
                    old(self).preview_horizontal_scroll as int
                }
            }),
            final(self).entries == old(self).entries,
            final(self).filtered == old(self).filtered,
            final(self).selected == old(self).selected,
            final(self).scroll_offset == old(self).scroll_offset,
            final(self).find_active == old(self).find_active,
            final(self).find_input == old(self).find_input,
            final(self).copy_menu_active == old(self).copy_menu_active,
            final(self).preview_scroll == old(self).preview_scroll,
            final(self).message == old(self).message,
    {
        let max_scroll = self.preview_max_horizontal_scroll(preview, content_w);
        if self.preview_horizontal_scroll > max_scroll {
            self.preview_horizontal_scroll = max_scroll;
        }
    }

    /// Scrolls the preview right by `HORIZONTAL_SCROLL_COLS` columns.
    fn scroll_preview_right(&mut self)
        requires
            old(self).wf(),
        ensures
            final(self).wf(),
            Self::key_step(*old(self), PickerOp::ScrollRight, *final(self)),
    {
        self.preview_horizontal_scroll = self.preview_horizontal_scroll.saturating_add(
            HORIZONTAL_SCROLL_COLS,
        );
    }

    /// Scrolls the preview left by `HORIZONTAL_SCROLL_COLS` columns.
    fn scroll_preview_left(&mut self)
        requires
            old(self).wf(),
        ensures
            final(self).wf(),
            Self::key_step(*old(self), PickerOp::ScrollLeft, *final(self)),
    {
        self.preview_horizontal_scroll = self.preview_horizontal_scroll.saturating_sub(
            HORIZONTAL_SCROLL_COLS,
        );
    }

    /// The popup's size on a `cols` by `rows` screen: 80% of each, at least 3.
    pub fn popup_size(cols: usize, rows: usize) -> (r: (usize, usize))
        requires
            cols <= usize::MAX / 80,
            rows <= usize::MAX / 80,
        ensures
            r.0 == if cols * 80 / 100 > 3 {
                cols * 80 / 100
            } else {
                3
            },
            r.1 == if rows * 80 / 100 > 3 {
                rows * 80 / 100
            } else {
                3
            },
    {
        let w = cols * 80 / 100;
        let h = rows * 80 / 100;
        (if w > 3 {
            w
        } else {
            3
        }, if h > 3 {
            h
        } else {
            3
        })
    }

    /// Rows the preview panel shows on a `cols` by `rows` screen, or `None`
    /// when the popup is too narrow to show it.
    pub fn preview_content_height_for_surface(cols: usize, rows: usize) -> (r: Option<usize>)
        requires
            cols <= usize::MAX / 80,
            rows <= usize::MAX / 80,
        ensures
            ({
                let w = if cols * 80 / 100 > 3 {
                    cols * 80 / 100
                } else {
                    3
                };
                let h = if rows * 80 / 100 > 3 {
                    rows * 80 / 100
                } else {
                    3
                };
                if w >= PREVIEW_SPLIT_THRESHOLD {
                    r == Some((h - 2) as usize)
                } else {
                    r is None
                }
            }),
    {
        let (popup_w, popup_h) = Self::popup_size(cols, rows);
        if popup_w >= PREVIEW_SPLIT_THRESHOLD {
            Some(popup_h - 2)
        } else {
            None
        }
    }

    /// The mouse wheel scrolls the preview by `MOUSE_SCROLL_LINES` lines when
    /// the preview panel is shown; other mouse events are ignored.
    pub fn handle_mouse_scroll(&mut self, kind: MouseEventKind, cols: usize, rows: usize) -> (r:
        EventResult)
        requires
            old(self).wf(),
            cols <= usize::MAX / 80,
            rows <= usize::MAX / 80,
        ensures
            final(self).wf(),
            final(self).entries == old(self).entries,
            final(self).filtered == old(self).filtered,
            final(self).selected == old(self).selected,
            final(self).scroll_offset == old(self).scroll_offset,
            final(self).find_active == old(self).find_active,
            final(self).find_input == old(self).find_input,
            final(self).copy_menu_active == old(self).copy_menu_active,
            final(self).preview_horizontal_scroll == old(self).preview_horizontal_scroll,
            final(self).message == old(self).message,
            ({
                let w = if cols * 80 / 100 > 3 {
                    cols * 80 / 100
                } else {
                    3
                };
                let h = if rows * 80 / 100 > 3 {
                    rows * 80 / 100
                } else {
                    3
                };
                let m = max_preview_scroll(old(self).preview().len() as int, h - 2);
                let down = sat_add(old(self).preview_scroll as int, MOUSE_SCROLL_LINES as int);
                if w >= PREVIEW_SPLIT_THRESHOLD && kind == MouseEventKind::ScrollDown {
                    &&& r is Consumed
                    &&& final(self).preview_scroll == if down < m {
                        down
                    } else {
                        m
                    }
                } else if w >= PREVIEW_SPLIT_THRESHOLD && kind == MouseEventKind::ScrollUp {
                    &&& r is Consumed
                    &&& final(self).preview_scroll == sat_sub(
                        old(self).preview_scroll as int,
                        MOUSE_SCROLL_LINES as int,
                    )
                } else {
                    &&& r is Ignored
                    &&& final(self).preview_scroll == old(self).preview_scroll
                }
            }),
    {
        let content_h = match Self::preview_content_height_for_surface(cols, rows) {
            Some(h) => h,
            None => return EventResult::Ignored,
        };
        match kind {
            MouseEventKind::ScrollDown => {
                self.scroll_preview_down_lines(MOUSE_SCROLL_LINES, content_h);
                EventResult::Consumed
            },
            MouseEventKind::ScrollUp => {
                self.scroll_preview_up_lines(MOUSE_SCROLL_LINES);
                EventResult::Consumed
            },
            _ => EventResult::Ignored,
        }
    }

    /// The style of the header line for `state`.
    fn state_style(state: &str) -> (s: CellStyle)
        ensures
            s == issue_state_style(state@),
    {
        let color = if str_eq(state, "OPEN") || str_eq(state, "open") {
            Some(Color::Green)
        } else if str_eq(state, "CLOSED") || str_eq(state, "closed") {
            Some(Color::Red)
        } else {
            None
        };
        CellStyle { fg: color, bold: true, dim: false, reverse: false }
    }

    /// The lines of one comment.
    fn comment_preview(c: &IssueCommentEntry) -> (r: Vec<(String, CellStyle)>)
        ensures
            line_views(r@) == comment_lines(*c),
    {
        let mut lines: Vec<(String, CellStyle)> = Vec::new();
        let mut head = owned("- @");
        push_str(&mut head, c.author.as_str());
        push_str(&mut head, " (");
        let date = prefix_before_char(c.created_at.as_str(), 'T');
        push_str(&mut head, date.as_str());
        push_str(&mut head, ")");
        lines.push((head, CellStyle::colored(Color::Yellow)));
        if is_blank(c.body.as_str()) {
            lines.push((owned("(empty comment)"), CellStyle::dimmed()));
            proof {
                assert(line_views(lines@) =~= comment_lines(*c));
            }
            lines
        } else {
            let ghost first = line_views(lines@);
            let body = str_lines(c.body.as_str());
            let out = append_styled(lines, &body, CellStyle::new());
            proof {
                assert(line_views(out@) =~= comment_lines(*c));
            }
            out
        }
    }

    /// `lines` followed by the comment section of `entry`.
    fn append_comments(lines: Vec<(String, CellStyle)>, entry: &IssueEntry) -> (r: Vec<
        (String, CellStyle),
    >)
        ensures
            line_views(r@) == line_views(lines@) + comments_section(*entry),
    {
        let mut out = lines;
        let ghost start = line_views(out@);
        out.push((String::new(), CellStyle::new()));
        let mut heading = owned("Comments (");
        let count = u64_to_decimal(entry.comment_count as u64);
        push_str(&mut heading, count.as_str());
        push_str(&mut heading, "):");
        out.push((heading, CellStyle { fg: Some(Color::Cyan), bold: true, dim: false, reverse: false }));
        let ghost head = line_views(out@);
        proof {
            assert(head =~= start + comments_section(*entry).take(2));
        }
        if entry.comment_count == 0 {
            out.push((owned("(no comments)"), CellStyle::dimmed()));
            proof {
                assert(line_views(out@) =~= start + comments_section(*entry));
            }
            return out;
        }
        if entry.comments.len() == 0 {
            out.push((owned("(comments unavailable in this listing)"), CellStyle::dimmed()));
            proof {
                assert(line_views(out@) =~= start + comments_section(*entry));
            }
            return out;
        }
        let mut idx: usize = 0;
        while idx < entry.comments.len()
            invariant
                idx <= entry.comments@.len(),
                line_views(out@) == head + comments_block(entry.comments@.take(idx as int)),
            decreases entry.comments@.len() - idx,
        {
            let ghost cs = entry.comments@.take(idx + 1);
            proof {
                assert(cs.drop_last() =~= entry.comments@.take(idx as int));
            }
            if idx > 0 {
                out.push((String::new(), CellStyle::new()));
            }
            let ghost mid = line_views(out@);
            proof {
                let sep = if cs.len() > 1 {
                    seq![(Seq::<char>::empty(), CellStyle::plain())]
                } else {
                    Seq::empty()
                };
                assert(mid =~= head + comments_block(cs.drop_last()) + sep);
                assert(cs.last() == entry.comments@[idx as int]);
            }
            let block = Self::comment_preview(&entry.comments[idx]);
            out = append_lines(out, &block);
            idx = idx + 1;
            proof {
                assert(line_views(out@) =~= head + comments_block(cs));
            }
        }
        proof {
            assert(entry.comments@.take(idx as int) =~= entry.comments@);
            assert(line_views(out@) =~= start + comments_section(*entry));
        }
        out
    }

    /// The preview lines of the selected issue.
    pub fn preview_lines(&self) -> (r: Vec<(String, CellStyle)>)
        ensures
            line_views(r@) == self.preview(),
    {
        let entry = match self.selected_entry() {
            Some(e) => e,
            None => {
                let mut v: Vec<(String, CellStyle)> = Vec::new();
                v.push((owned("No issue selected"), CellStyle::dimmed()));
                proof {
                    assert(line_views(v@) =~= self.preview());
                }
                return v;
            },
        };
        let mut lines: Vec<(String, CellStyle)> = Vec::new();
        let mut header = owned("[");
        push_str(&mut header, entry.state.as_str());
        push_str(&mut header, "] by ");
        push_str(&mut header, entry.author.as_str());
        lines.push((header, Self::state_style(entry.state.as_str())));
        let ghost before_labels = line_views(lines@);
        if entry.labels.len() > 0 {
            let mut labels = owned("Labels: ");
            let joined = join(&entry.labels, ", ");
            push_str(&mut labels, joined.as_str());
            lines.push((labels, CellStyle::colored(Color::Yellow)));
        }
        let ghost after_labels = line_views(lines@);
        let mut created = owned("Created: ");
        let date = prefix_before_char(entry.created_at.as_str(), 'T');
        push_str(&mut created, date.as_str());
        lines.push((created, CellStyle::dimmed()));
        lines.push((String::new(), CellStyle::new()));
        let mut title = owned("Title: ");
        push_str(&mut title, entry.title.as_str());
        lines.push((title, CellStyle { fg: None, bold: true, dim: false, reverse: false }));
        lines.push((String::new(), CellStyle::new()));
        lines.push((owned("Description:"), CellStyle::colored(Color::Cyan)));
        let ghost before_body = line_views(lines@);
        let body = if entry.body.as_str().is_empty() {
            str_lines("(no description)")
        } else {
            str_lines(entry.body.as_str())
        };
        let with_body = append_styled(lines, &body, CellStyle::new());
        let out = Self::append_comments(with_body, entry);
        proof {
            let e = self.selected_issue()->0;
            assert(*entry == e);
            let header = ("["@ + e.state@ + "] by "@ + e.author@, issue_state_style(e.state@));
            assert(before_labels =~= seq![header]);
            let labels = if e.labels@.len() > 0 {
                seq![
                    (
                        "Labels: "@ + join_seqs(string_views(e.labels@), ", "@),
                        CellStyle { fg: Some(Color::Yellow), ..CellStyle::plain() },
                    ),
                ]
            } else {
                Seq::empty()
            };
            assert(after_labels =~= seq![header] + labels);
            let created = (
                "Created: "@ + prefix_before(e.created_at@, 'T'),
                CellStyle { dim: true, ..CellStyle::plain() },
            );
            let blank = (Seq::<char>::empty(), CellStyle::plain());
            assert(before_body =~= seq![header] + labels + seq![
                created,
                blank,
                ("Title: "@ + e.title@, CellStyle { bold: true, ..CellStyle::plain() }),
                blank,
                ("Description:"@, CellStyle { fg: Some(Color::Cyan), ..CellStyle::plain() }),
            ]);
            assert(line_views(out@) =~= issue_preview(e));
        }
        out
    }

    /// Deletes the word before the end of the query.
    fn delete_prev_word(&mut self)
        ensures
            final(self).find_input@ == crate::ui::text_input::without_prev_word(
                old(self).find_input@,
            ),
            final(self).entries == old(self).entries,
            final(self).filtered == old(self).filtered,
            final(self).selected == old(self).selected,
            final(self).scroll_offset == old(self).scroll_offset,
            final(self).find_active == old(self).find_active,
            final(self).copy_menu_active == old(self).copy_menu_active,
            final(self).preview_scroll == old(self).preview_scroll,
            final(self).preview_horizontal_scroll == old(self).preview_horizontal_scroll,
            final(self).message == old(self).message,
    {
        delete_prev_word_input(&mut self.find_input);
    }

    /// A key while the find prompt is open.
    fn handle_find_key(&mut self, key: KeyEvent) -> (r: EventResult)
        requires
            old(self).wf(),
            old(self).find_active,
        ensures
            final(self).wf(),
            Self::key_step(*old(self), picker_op(true, old(self).copy_menu_active, key), *final(self)),
            Self::key_result(*old(self), picker_op(true, old(self).copy_menu_active, key), r),
    {
        if key.modifiers.contains(KeyModifiers::control()) {
            return match key.code {
                KeyCode::Char('q') => EventResult::Action(Action::Ui(UiAction::CloseIssueListPicker)),
                KeyCode::Char('n') => {
                    self.move_down();
                    EventResult::Consumed
                },
                KeyCode::Char('p') => {
                    self.move_up();
                    EventResult::Consumed
                },
                KeyCode::Char('f') => {
                    self.scroll_preview_down();
                    EventResult::Consumed
                },
                KeyCode::Char('b') => {
                    self.scroll_preview_up();
                    EventResult::Consumed
                },
                KeyCode::Char('w') => {
                    self.delete_prev_word();
                    self.update_filtered();
                    EventResult::Consumed
                },
                KeyCode::Char('k') | KeyCode::Char('u') => {
                    self.find_input = String::new();
                    self.update_filtered();
                    EventResult::Consumed
                },
                _ => EventResult::Consumed,
            };
        }
        match key.code {
            KeyCode::Esc => {
                self.find_active = false;
                self.find_input = String::new();
                self.update_filtered();
                EventResult::Consumed
            },
            KeyCode::Enter => {
                self.find_active = false;
                EventResult::Consumed
            },
            KeyCode::Backspace => {
                string_pop(&mut self.find_input);
                self.update_filtered();
                EventResult::Consumed
            },
            KeyCode::Up => {
                self.move_up();
                EventResult::Consumed
            },
            KeyCode::Down => {
                self.move_down();
                EventResult::Consumed
            },
            KeyCode::Char(c) => {
                if !key.modifiers.contains(KeyModifiers::alt()) {
                    string_push(&mut self.find_input, c);
                    self.update_filtered();
                }
                EventResult::Consumed
            },
            _ => EventResult::Consumed,
        }
    }

    /// A key while the copy menu is open: u, n or t copies the selected pull
    /// request's URL, number or title; every key closes the menu.
    fn handle_copy_menu_key(&mut self, key: KeyEvent) -> (r: EventResult)
        requires
            old(self).wf(),
            !old(self).find_active,
            old(self).copy_menu_active,
            !(key.modifiers.control && key.code == KeyCode::Char('q')),
        ensures
            final(self).wf(),
            Self::key_step(*old(self), picker_op(false, true, key), *final(self)),
            Self::key_result(*old(self), picker_op(false, true, key), r),
    {
        self.copy_menu_active = false;
        let entry = match self.selected_entry() {
            Some(e) => e,
            None => return EventResult::Consumed,
        };
        match key.code {
            KeyCode::Char('u') => EventResult::Action(
                Action::App(
                    AppAction::Integration(
                        IntegrationAction::CopyToClipboard {
                            text: entry.url.clone(),
                            description: owned("Issue URL"),
                        },
                    ),
                ),
            ),
            KeyCode::Char('n') => {
                let mut text = String::new();
                string_push(&mut text, '#');
                let digits = u64_to_decimal(entry.number);
                push_str(&mut text, digits.as_str());
                proof {
                    assert(text@ =~= seq!['#'] + decimal_chars(entry.number as nat));
                }
                EventResult::Action(
                    Action::App(
                        AppAction::Integration(
                            IntegrationAction::CopyToClipboard {
                                text,
                                description: owned("Issue number"),
                            },
                        ),
                    ),
                )
            },
            KeyCode::Char('t') => EventResult::Action(
                Action::App(
                    AppAction::Integration(
                        IntegrationAction::CopyToClipboard {
                            text: entry.title.clone(),
                            description: owned("Issue title"),
                        },
                    ),
                ),
            ),
            _ => EventResult::Consumed,
        }
    }

    /// Reacts to a key: the operation `picker_op` selects for the current mode,
    /// applied as `key_step` says, answered as `key_result` says.
    pub fn handle_key(&mut self, key: KeyEvent) -> (r: EventResult)
        requires
            old(self).wf(),
        ensures
            final(self).wf(),
            Self::key_step(
                *old(self),
                picker_op(old(self).find_active, old(self).copy_menu_active, key),
                *final(self),
            ),
            Self::key_result(
                *old(self),
                picker_op(old(self).find_active, old(self).copy_menu_active, key),
                r,
            ),
    {
        if key.modifiers.contains(KeyModifiers::control()) {
            if let KeyCode::Char('q') = key.code {
                return EventResult::Action(Action::Ui(UiAction::CloseIssueListPicker));
            }
        }
        if self.find_active {
            return self.handle_find_key(key);
        }
        if self.copy_menu_active {
            return self.handle_copy_menu_key(key);
        }
        let has_shift = key.modifiers.contains(KeyModifiers::shift());
        if key.modifiers.contains(KeyModifiers::control()) {
            return match key.code {
                KeyCode::Char('n') => {
                    if has_shift {
                        self.scroll_preview_down();
                    } else {
                        self.move_down();
                    }
                    EventResult::Consumed
                },
                KeyCode::Char('p') => {
                    if has_shift {
                        self.scroll_preview_up();
                    } else {
                        self.move_up();
                    }
                    EventResult::Consumed
                },
                _ => EventResult::Consumed,
            };
        }
        if has_shift {
            return match key.code {
                KeyCode::Char('J') | KeyCode::Down => {
                    self.scroll_preview_down();
                    EventResult::Consumed
                },
                KeyCode::Char('K') | KeyCode::Up => {
                    self.scroll_preview_up();
                    EventResult::Consumed
                },
                KeyCode::Char('L') | KeyCode::Right => {
                    self.scroll_preview_right();
                    EventResult::Consumed
                },
                KeyCode::Char('H') | KeyCode::Left => {
                    self.scroll_preview_left();
                    EventResult::Consumed
                },
                _ => EventResult::Consumed,
            };
        }
        match key.code {
            KeyCode::Char('j') | KeyCode::Down => {
                self.move_down();
                EventResult::Consumed
            },
            KeyCode::Char('k') | KeyCode::Up => {
                self.move_up();
                EventResult::Consumed
            },
            KeyCode::Char('/') => {
                self.find_active = true;
                self.find_input = String::new();
                EventResult::Consumed
            },
            KeyCode::Char('o') | KeyCode::Enter => {
                match self.selected_entry() {
                    Some(entry) => {
                        let url = entry.url.clone();
                        EventResult::Action(
                            Action::App(AppAction::Integration(IntegrationAction::OpenIssueUrl(url))),
                        )
                    },
                    None => EventResult::Consumed,
                }
            },
            KeyCode::Char('c') => {
                self.copy_menu_active = true;
                EventResult::Consumed
            },
            KeyCode::Esc | KeyCode::Char('q') => EventResult::Action(
                Action::Ui(UiAction::CloseIssueListPicker),
            ),
            _ => EventResult::Consumed,
        }
    }
}

/// One item of the `comments` field of gh's JSON, with what the picker
/// reads of it: each field is `None` when it is missing or not a string.
#[derive(Debug, Clone, PartialEq, Eq)]
pub struct RawComment {
    pub body: Option<String>,
    pub author_login: Option<String>,
    pub created_at: Option<String>,
}

/// The `comments` field of gh's JSON, in the shapes gh writes it: a list of
/// comments, a connection object (`totalCount` with `nodes` or `items`), or
/// a bare count. Counts are `None` when they are not unsigned integers.
#[derive(Debug, Clone, PartialEq, Eq)]
pub enum CommentsField {
    List(Vec<RawComment>),
    Connection { total_count: Option<u64>, nodes: Option<Vec<RawComment>>, items: Option<Vec<RawComment>> },
    Count(Option<u64>),
    Other,
}

/// The text of an optional field, empty when it is missing.
pub open spec fn text_or_empty(o: Option<String>) -> Seq<char> {
    match o {
        Some(s) => s@,
        None => Seq::empty(),
    }
}

/// The author, body and time of a raw comment (an unknown author is
/// `unknown`); `None` for an item with no body, no time and no author.
pub open spec fn comment_of(c: RawComment) -> Option<(Seq<char>, Seq<char>, Seq<char>)> {
    let body = text_or_empty(c.body);
    let author = match c.author_login {
        Some(a) => a@,
        None => "unknown"@,
    };
    let created = text_or_empty(c.created_at);
    if body.len() == 0 && created.len() == 0 && author == "unknown"@ {
        None
    } else {
        Some((author, body, created))
    }
}

/// The comments of a list of raw items, in order, without the empty ones.
pub open spec fn comments_of(items: Seq<RawComment>) -> Seq<(Seq<char>, Seq<char>, Seq<char>)>
    decreases items.len(),
{
    if items.len() == 0 {
        Seq::empty()
    } else {
        let prev = comments_of(items.drop_last());
        match comment_of(items.last()) {
            Some(c) => prev.push(c),
            None => prev,
        }
    }
}

/// The views of comments.
pub open spec fn comment_views(v: Seq<IssueCommentEntry>) -> Seq<(Seq<char>, Seq<char>, Seq<char>)> {
    v.map_values(|c: IssueCommentEntry| (c.author@, c.body@, c.created_at@))
}

/// A count that fits in a `usize`, or 0.
pub open spec fn count_or_zero(n: Option<u64>) -> int {
    match n {
        Some(v) => if v <= usize::MAX {
            v as int
        } else {
            0
        },
        None => 0,
    }
}

/// The comments a `comments` field holds and the number of comments it
/// reports: a list reports its length; a connection its `totalCount` when
/// that is positive, else the number of comments read from its `nodes` (or,
/// without them, its `items`); a bare count itself.
pub open spec fn issue_comments(f: CommentsField) -> (Seq<(Seq<char>, Seq<char>, Seq<char>)>, int) {
    match f {
        CommentsField::List(items) => (comments_of(items@), items@.len() as int),
        CommentsField::Connection { total_count, nodes, items } => {
            let comments = match nodes {
                Some(n) => comments_of(n@),
                None => match items {
                    Some(i) => comments_of(i@),
                    None => Seq::empty(),
                },
            };
            let total = count_or_zero(total_count);
            (comments, if total > 0 {
                total
            } else {
                comments.len() as int
            })
        },
        CommentsField::Count(n) => (Seq::empty(), count_or_zero(n)),
        CommentsField::Other => (Seq::empty(), 0),
    }
}

/// The comments of a list of raw items, without the empty ones.
pub fn comments_from_array(items: &Vec<RawComment>) -> (r: Vec<IssueCommentEntry>)
    ensures
        comment_views(r@) == comments_of(items@),
{
    let mut out: Vec<IssueCommentEntry> = Vec::new();
    let mut i: usize = 0;
    while i < items.len()
        invariant
            i <= items@.len(),
            comment_views(out@) == comments_of(items@.take(i as int)),
        decreases items@.len() - i,
    {
        let item = &items[i];
        let body = match &item.body {
            Some(b) => b.clone(),
            None => String::new(),
        };
        let author = match &item.author_login {
            Some(a) => a.clone(),
            None => owned("unknown"),
        };
        let created_at = match &item.created_at {
            Some(c) => c.clone(),
            None => String::new(),
        };
        let ghost before = out@;
        proof {
            let t = items@.take(i + 1);
            assert(t.drop_last() =~= items@.take(i as int));
            assert(t.last() == items@[i as int]);
        }
        if !(body.as_str().is_empty() && created_at.as_str().is_empty() && str_eq(author.as_str(), "unknown")) {
            out.push(IssueCommentEntry { author, body, created_at });
            proof {
                let added = out@[before.len() as int];
                assert(comment_views(out@) =~= comment_views(before).push(
                    (added.author@, added.body@, added.created_at@),
                ));
            }
        }
        i = i + 1;
    }
    proof {
        assert(items@.take(i as int) =~= items@);
    }
    out
}

/// A count as a `usize`, or 0 when it is missing or does not fit.
fn count_to_usize(n: Option<u64>) -> (r: usize)
    ensures
        r == count_or_zero(n),
{
    match n {
        Some(v) => if v as u128 <= usize::MAX as u128 {
            v as usize
        } else {
            0
        },
        None => 0,
    }
}

/// The comments a `comments` field holds and the number of comments it
/// reports.
pub fn parse_issue_comments(value: &CommentsField) -> (r: (Vec<IssueCommentEntry>, usize))
    ensures
        (comment_views(r.0@), r.1 as int) == issue_comments(*value),
{
    match value {
        CommentsField::List(items) => (comments_from_array(items), items.len()),
        CommentsField::Connection { total_count, nodes, items } => {
            let total = count_to_usize(*total_count);
            let comments = match nodes {
                Some(n) => comments_from_array(n),
                None => match items {
                    Some(it) => comments_from_array(it),
                    None => Vec::new(),
                },
            };
            proof {
                assert(comments@.len() == comment_views(comments@).len());
            }
            let count = if total > 0 {
                total
            } else {
                comments.len()
            };
            (comments, count)
        },
        CommentsField::Count(n) => {
            let v: Vec<IssueCommentEntry> = Vec::new();
            proof {
                assert(comment_views(v@) =~= Seq::<(Seq<char>, Seq<char>, Seq<char>)>::empty());
            }
            (v, count_to_usize(*n))
        },
        CommentsField::Other => {
            let v: Vec<IssueCommentEntry> = Vec::new();
            proof {
                assert(comment_views(v@) =~= Seq::<(Seq<char>, Seq<char>, Seq<char>)>::empty());
            }
            (v, 0)
        },
    }
}

impl IssueListPicker {
    /// Scrolls the list, `content_h` rows tall, just enough that the
    /// selected row is shown.
    pub fn keep_selected_visible(&mut self, content_h: usize)
        requires
            (if old(self).selected < old(self).scroll_offset {
                old(self).selected
            } else {
                old(self).scroll_offset
            }) + content_h <= usize::MAX,
        ensures
            *final(self) == (IssueListPicker {
                scroll_offset: scrolled_for(old(self).scroll_offset, old(self).selected, content_h),
                ..*old(self)
            }),
    {
        self.scroll_offset = scroll_to_show(self.scroll_offset, self.selected, content_h);
    }
}

} // verus!
