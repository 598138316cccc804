//! What the GitHub list pickers share: how keys map to operations, what an
//! operation does to the cursor and prompt, and how entries are filtered and
//! ranked against the find query.
use vstd::prelude::*;

use crate::input::action::{Action, AppAction, IntegrationAction};
use crate::input::key::{KeyCode, KeyEvent};
use crate::std_calls::string_push;
use crate::strings::{decimal_chars, push_str, string_views, text_lines, u64_to_decimal};
use crate::ui::framework::cell::CellStyle;
use crate::ui::framework::component::EventResult;
use crate::ui::shared::filtering::fuzzy_score;
use crate::ui::text::{display_width, str_width};
use crate::ui::text_input::without_prev_word;

verus! {

/// Narrowest popup, in columns, that shows the preview panel beside the list.
pub const PREVIEW_SPLIT_THRESHOLD: usize = 60;

/// Lines one mouse-wheel step scrolls the preview.
pub const MOUSE_SCROLL_LINES: usize = 3;

/// Columns one horizontal scroll step moves the preview.
pub const HORIZONTAL_SCROLL_COLS: usize = 8;

/// What a key asks a list picker to do.
#[derive(Debug, Clone, Copy, PartialEq, Eq)]
pub enum PickerOp {
    Close,
    MoveDown,
    MoveUp,
    ScrollDown,
    ScrollUp,
    ScrollRight,
    ScrollLeft,
    StartFind,
    OpenSelected,
    ShowCopyMenu,
    FindAccept,
    FindCancel,
    QueryPush(char),
    QueryPop,
    QueryDeleteWord,
    QueryClear,
    CopyUrl,
    CopyNumber,
    CopyTitle,
    DismissCopyMenu,
    Ignore,
}

/// The operation a key selects, given whether the find prompt or the copy
/// menu is open. Ctrl-q closes in every mode; the find prompt edits the query
/// and still navigates; the copy menu takes one key; otherwise j/k and the
/// arrows move, Shift with a direction scrolls the preview, `/` starts
/// finding, o or Enter opens, c shows the copy menu, Esc or q closes.
pub open spec fn picker_op(find_active: bool, copy_menu_active: bool, key: KeyEvent) -> PickerOp {
    let ctrl = key.modifiers.control;
    let shift = key.modifiers.shift;
    if ctrl && key.code == KeyCode::Char('q') {
        PickerOp::Close
    } else if find_active {
        if ctrl {
            match key.code {
                KeyCode::Char('n') => PickerOp::MoveDown,
                KeyCode::Char('p') => PickerOp::MoveUp,
                KeyCode::Char('f') => PickerOp::ScrollDown,
                KeyCode::Char('b') => PickerOp::ScrollUp,
                KeyCode::Char('w') => PickerOp::QueryDeleteWord,
                KeyCode::Char('k') | KeyCode::Char('u') => PickerOp::QueryClear,
                _ => PickerOp::Ignore,
            }
        } else {
            match key.code {
                KeyCode::Esc => PickerOp::FindCancel,
                KeyCode::Enter => PickerOp::FindAccept,
                KeyCode::Backspace => PickerOp::QueryPop,
                KeyCode::Up => PickerOp::MoveUp,
                KeyCode::Down => PickerOp::MoveDown,
                KeyCode::Char(c) => if key.modifiers.alt {
                    PickerOp::Ignore
                } else {
                    PickerOp::QueryPush(c)
                },
                _ => PickerOp::Ignore,
            }
        }
    } else if copy_menu_active {
        match key.code {
            KeyCode::Char('u') => PickerOp::CopyUrl,
            KeyCode::Char('n') => PickerOp::CopyNumber,
            KeyCode::Char('t') => PickerOp::CopyTitle,
            _ => PickerOp::DismissCopyMenu,
        }
    } else if ctrl {
        match key.code {
            KeyCode::Char('n') => if shift {
                PickerOp::ScrollDown
            } else {
                PickerOp::MoveDown
            },
            KeyCode::Char('p') => if shift {
                PickerOp::ScrollUp
            } else {
                PickerOp::MoveUp
            },
            _ => PickerOp::Ignore,
        }
    } else if shift {
        match key.code {
            KeyCode::Char('J') | KeyCode::Down => PickerOp::ScrollDown,
            KeyCode::Char('K') | KeyCode::Up => PickerOp::ScrollUp,
            KeyCode::Char('L') | KeyCode::Right => PickerOp::ScrollRight,
            KeyCode::Char('H') | KeyCode::Left => PickerOp::ScrollLeft,
            _ => PickerOp::Ignore,
        }
    } else {
        match key.code {
            KeyCode::Char('j') | KeyCode::Down => PickerOp::MoveDown,
            KeyCode::Char('k') | KeyCode::Up => PickerOp::MoveUp,
            KeyCode::Char('/') => PickerOp::StartFind,
            KeyCode::Char('o') | KeyCode::Enter => PickerOp::OpenSelected,
            KeyCode::Char('c') => PickerOp::ShowCopyMenu,
            KeyCode::Esc | KeyCode::Char('q') => PickerOp::Close,
            _ => PickerOp::Ignore,
        }
    }
}

/// `a + b`, saturating at `usize::MAX`.
pub open spec fn sat_add(a: int, b: int) -> int {
    if a + b > usize::MAX {
        usize::MAX as int
    } else {
        a + b
    }
}

/// `a - b`, saturating at zero.
pub open spec fn sat_sub(a: int, b: int) -> int {
    if a < b {
        0
    } else {
        a - b
    }
}

/// A picker's cursor and prompt: the selected row, whether the find prompt is
/// open, the query, whether the copy menu is open, and the preview's vertical
/// and horizontal scroll.
pub type PickerVars = (int, bool, Seq<char>, bool, int, int);

/// The cursor and prompt after `op`, for an operation that keeps the list as
/// it is; `len` is the number of listed entries. Moving resets the preview
/// scroll; a move past either end does nothing.
pub open spec fn vars_after(v: PickerVars, op: PickerOp, len: int) -> PickerVars {
    match op {
        PickerOp::MoveDown => if v.0 + 1 < len {
            (v.0 + 1, v.1, v.2, v.3, 0, 0)
        } else {
            v
        },
        PickerOp::MoveUp => if v.0 > 0 {
            (v.0 - 1, v.1, v.2, v.3, 0, 0)
        } else {
            v
        },
        PickerOp::ScrollDown => (v.0, v.1, v.2, v.3, sat_add(v.4, 1), v.5),
        PickerOp::ScrollUp => (v.0, v.1, v.2, v.3, sat_sub(v.4, 1), v.5),
        PickerOp::ScrollRight => (v.0, v.1, v.2, v.3, v.4, sat_add(v.5, 8)),
        PickerOp::ScrollLeft => (v.0, v.1, v.2, v.3, v.4, sat_sub(v.5, 8)),
        PickerOp::StartFind => (v.0, true, Seq::empty(), v.3, v.4, v.5),
        PickerOp::ShowCopyMenu => (v.0, v.1, v.2, true, v.4, v.5),
        PickerOp::FindAccept => (v.0, false, v.2, v.3, v.4, v.5),
        PickerOp::CopyUrl | PickerOp::CopyNumber | PickerOp::CopyTitle
        | PickerOp::DismissCopyMenu => (v.0, v.1, v.2, false, v.4, v.5),
        _ => v,
    }
}

/// The new query for an operation that edits it and re-filters the list;
/// `None` for every other operation.
pub open spec fn query_after(q: Seq<char>, op: PickerOp) -> Option<Seq<char>> {
    match op {
        PickerOp::FindCancel | PickerOp::QueryClear => Some(Seq::empty()),
        PickerOp::QueryPush(c) => Some(q.push(c)),
        PickerOp::QueryPop => Some(
            if q.len() == 0 {
                q
            } else {
                q.drop_last()
            },
        ),
        PickerOp::QueryDeleteWord => Some(without_prev_word(q)),
        _ => None,
    }
}

/// The selection kept after the list is replaced by one of `len` rows: the
/// last row when it was past the end (row 0 for an empty list).
pub open spec fn clamp_selection(sel: int, len: int) -> int {
    if sel >= len {
        if len == 0 {
            0
        } else {
            len - 1
        }
    } else {
        sel
    }
}

/// The text an entry is found by: `#`, its number, a space and its title.
pub open spec fn entry_haystack(number: u64, title: Seq<char>) -> Seq<char> {
    seq!['#'] + decimal_chars(number as nat) + seq![' '] + title
}

/// The score of an entry with this number and title for the query `q`.
pub open spec fn entry_score(number: u64, title: Seq<char>, q: Seq<char>) -> Option<int> {
    fuzzy_score(entry_haystack(number, title), q)
}

/// Entry `ia` with score `sa` is listed before entry `ib` with score `sb`:
/// higher scores first, equal scores in their original order.
pub open spec fn ranked_before(sa: int, ia: int, sb: int, ib: int) -> bool {
    sa > sb || (sa == sb && ia < ib)
}

/// `f` lists exactly the entries that have a score, best first, ties in
/// their original order.
pub open spec fn ranks(f: Seq<usize>, scores: Seq<Option<int>>) -> bool {
    &&& forall|k: int| 0 <= k < f.len() ==> #[trigger] f[k] < scores.len() && scores[f[k] as int] is Some
    &&& forall|i: int| 0 <= i < scores.len() && scores[i] is Some ==> f.contains(i as usize)
    &&& forall|a: int, b: int|
        0 <= a < b < f.len() ==> ranked_before(
            scores[f[a] as int]->0,
            f[a] as int,
            scores[f[b] as int]->0,
            f[b] as int,
        )
}

/// `0, 1, .., n - 1`.
pub open spec fn identity(n: nat) -> Seq<usize> {
    Seq::new(n, |i: int| i as usize)
}

/// The rows listed for the query `q` over `n` entries with these scores:
/// every entry in order for an empty query, the ranking otherwise.
pub open spec fn filtered_for(f: Seq<usize>, n: nat, scores: Seq<Option<int>>, q: Seq<char>) -> bool {
    if q.len() == 0 {
        f == identity(n)
    } else {
        ranks(f, scores)
    }
}

/// Scores as mathematical integers.
pub open spec fn opt_ints(v: Seq<Option<i32>>) -> Seq<Option<int>> {
    v.map_values(
        |o: Option<i32>|
            match o {
                Some(x) => Some(x as int),
                None => None,
            },
    )
}

/// `r` copies `text` to the clipboard, described as `desc`.
pub open spec fn is_copy(r: EventResult, text: Seq<char>, desc: Seq<char>) -> bool {
    r matches EventResult::Action(
        Action::App(AppAction::Integration(IntegrationAction::CopyToClipboard { text: t, description: d })),
    ) && t@ == text && d@ == desc
}

/// Preview lines by their text.
pub open spec fn line_views(v: Seq<(String, CellStyle)>) -> Seq<(Seq<char>, CellStyle)> {
    v.map_values(|p: (String, CellStyle)| (p.0@, p.1))
}

/// Each line of `lines` in the style `st`.
pub open spec fn styled(lines: Seq<Seq<char>>, st: CellStyle) -> Seq<(Seq<char>, CellStyle)> {
    lines.map_values(|l: Seq<char>| (l, st))
}

/// The lines a description shows: its own lines, or `(no description)`
/// when it is empty.
pub open spec fn body_lines(body: Seq<char>) -> Seq<Seq<char>> {
    if body.len() == 0 {
        text_lines("(no description)"@)
    } else {
        text_lines(body)
    }
}

/// The largest amount by which a line is wider than `w` columns (0 when
/// none is).
pub open spec fn max_overflow(lines: Seq<(Seq<char>, CellStyle)>, w: int) -> int
    decreases lines.len(),
{
    if lines.len() == 0 {
        0
    } else {
        let rest = max_overflow(lines.drop_last(), w);
        let here = sat_sub(str_width(lines.last().0) as int, w);
        if here > rest {
            here
        } else {
            rest
        }
    }
}

/// How far the preview can scroll down: its length less the visible rows
/// (0 when no row is visible).
pub open spec fn max_preview_scroll(len: int, h: int) -> int {
    if h == 0 {
        0
    } else {
        sat_sub(len, h)
    }
}

/// Appends each of `src` to `lines` in the style `st`.
pub fn append_styled(lines: Vec<(String, CellStyle)>, src: &Vec<String>, st: CellStyle) -> (r: Vec<
    (String, CellStyle),
>)
    ensures
        line_views(r@) == line_views(lines@) + styled(string_views(src@), st),
{
    let mut out = lines;
    let ghost start = line_views(out@);
    let mut i: usize = 0;
    while i < src.len()
        invariant
            i <= src@.len(),
            out@.len() == start.len() + i,
            forall|k: int| 0 <= k < start.len() ==> line_views(out@)[k] == start[k],
            forall|k: int|
                0 <= k < i ==> (#[trigger] out@[start.len() + k]).0@ == src@[k]@ && out@[start.len()
                    + k].1 == st,
        decreases src@.len() - i,
    {
        let ghost before = out@;
        out.push((src[i].clone(), st));
        proof {
            assert forall|k: int| 0 <= k < start.len() implies line_views(out@)[k] == start[k] by {
                assert(out@[k] == before[k]);
                assert(line_views(before)[k] == start[k]);
            }
            assert forall|k: int| 0 <= k < i + 1 implies (#[trigger] out@[start.len() + k]).0@
                == src@[k]@ && out@[start.len() + k].1 == st by {
                if k < i {
                    assert(out@[start.len() + k] == before[start.len() + k]);
                }
            }
        }
        i = i + 1;
    }
    proof {
        let want = line_views(lines@) + styled(string_views(src@), st);
        assert forall|k: int| 0 <= k < want.len() implies line_views(out@)[k] == want[k] by {
            if k >= start.len() {
                assert(out@[start.len() + (k - start.len())] == out@[k]);
            }
        }
        assert(line_views(out@) =~= want);
    }
    out
}

/// `lines` followed by `more`.
pub fn append_lines(lines: Vec<(String, CellStyle)>, more: &Vec<(String, CellStyle)>) -> (r: Vec<
    (String, CellStyle),
>)
    ensures
        line_views(r@) == line_views(lines@) + line_views(more@),
{
    let mut out = lines;
    let ghost start = line_views(out@);
    let mut i: usize = 0;
    while i < more.len()
        invariant
            i <= more@.len(),
            out@.len() == start.len() + i,
            forall|k: int| 0 <= k < start.len() ==> line_views(out@)[k] == start[k],
            forall|k: int|
                0 <= k < i ==> (#[trigger] out@[start.len() + k]).0@ == more@[k].0@ && out@[start.len()
                    + k].1 == more@[k].1,
        decreases more@.len() - i,
    {
        let ghost before = out@;
        out.push((more[i].0.clone(), more[i].1));
        proof {
            assert forall|k: int| 0 <= k < start.len() implies line_views(out@)[k] == start[k] by {
                assert(out@[k] == before[k]);
                assert(line_views(before)[k] == start[k]);
            }
            assert forall|k: int| 0 <= k < i + 1 implies (#[trigger] out@[start.len() + k]).0@
                == more@[k].0@ && out@[start.len() + k].1 == more@[k].1 by {
                if k < i {
                    assert(out@[start.len() + k] == before[start.len() + k]);
                }
            }
        }
        i = i + 1;
    }
    proof {
        let want = line_views(lines@) + line_views(more@);
        assert forall|k: int| 0 <= k < want.len() implies line_views(out@)[k] == want[k] by {
            if k >= start.len() {
                assert(out@[start.len() + (k - start.len())] == out@[k]);
            }
        }
        assert(line_views(out@) =~= want);
    }
    out
}

/// The widest overflow past `content_w` columns among the preview lines.
pub fn max_line_overflow(preview: &[(String, CellStyle)], content_w: usize) -> (r: usize)
    requires
        forall|i: int| 0 <= i < preview@.len() ==> str_width(#[trigger] preview@[i].0@) <= usize::MAX,
    ensures
        r == max_overflow(line_views(preview@), content_w as int),
{
    let mut best: usize = 0;
    let mut i: usize = 0;
    while i < preview.len()
        invariant
            i <= preview@.len(),
            forall|k: int| 0 <= k < preview@.len() ==> str_width(#[trigger] preview@[k].0@) <= usize::MAX,
            best == max_overflow(line_views(preview@).take(i as int), content_w as int),
        decreases preview@.len() - i,
    {
        let w = display_width(preview[i].0.as_str());
        let over = if w < content_w {
            0
        } else {
            w - content_w
        };
        proof {
            let t = line_views(preview@).take(i + 1);
            assert(t.drop_last() =~= line_views(preview@).take(i as int));
            assert(t.last() == (preview@[i as int].0@, preview@[i as int].1));
        }
        if over > best {
            best = over;
        }
        i = i + 1;
    }
    proof {
        assert(line_views(preview@).take(i as int) =~= line_views(preview@));
    }
    best
}

/// `0, 1, .., n - 1`.
pub fn all_indices(n: usize) -> (r: Vec<usize>)
    ensures
        r@ == identity(n as nat),
{
    let mut r: Vec<usize> = Vec::new();
    let mut i: usize = 0;
    while i < n
        invariant
            i <= n,
            r@ == identity(i as nat),
        decreases n - i,
    {
        r.push(i);
        i = i + 1;
        proof {
            assert(r@ =~= identity(i as nat));
        }
    }
    r
}

/// `#<number> <title>`, the text an entry is found by.
pub fn entry_haystack_string(number: u64, title: &str) -> (r: String)
    ensures
        r@ == entry_haystack(number, title@),
{
    let mut h = String::new();
    string_push(&mut h, '#');
    let digits = u64_to_decimal(number);
    push_str(&mut h, digits.as_str());
    string_push(&mut h, ' ');
    push_str(&mut h, title);
    proof {
        assert(h@ =~= entry_haystack(number, title@));
    }
    h
}

/// Whether a score is missing or at least `score`.
fn scores_at_least(t: Option<i32>, score: i32) -> (r: bool)
    ensures
        r == match t {
            Some(x) => x >= score,
            None => true,
        },
{
    match t {
        Some(x) => x >= score,
        None => true,
    }
}

/// Inserting entry `i` with score `score` at `p`, after every entry scoring
/// at least as much and before every entry scoring less, keeps a ranking of
/// the entries below `i` a ranking of the entries up to `i`.
proof fn lemma_insert_keeps_ranking(
    old_out: Seq<usize>,
    s: Seq<Option<int>>,
    p: int,
    i: int,
    score: int,
)
    requires
        0 <= p <= old_out.len(),
        0 <= i < s.len(),
        i <= usize::MAX,
        s[i] == Some(score),
        forall|k: int| 0 <= k < old_out.len() ==> #[trigger] old_out[k] < i && s[old_out[k] as int] is Some,
        forall|j: int| 0 <= j < i && s[j] is Some ==> old_out.contains(j as usize),
        forall|a: int, b: int|
            0 <= a < b < old_out.len() ==> ranked_before(
                s[old_out[a] as int]->0,
                old_out[a] as int,
                s[old_out[b] as int]->0,
                old_out[b] as int,
            ),
        forall|k: int| 0 <= k < p ==> s[old_out[k] as int]->0 >= score,
        forall|k: int| p <= k < old_out.len() ==> s[old_out[k] as int]->0 < score,
    ensures
        ({
            let out = old_out.insert(p, i as usize);
            &&& forall|k: int| 0 <= k < out.len() ==> #[trigger] out[k] < i + 1 && s[out[k] as int] is Some
            &&& forall|j: int| 0 <= j < i + 1 && s[j] is Some ==> out.contains(j as usize)
            &&& forall|a: int, b: int|
                0 <= a < b < out.len() ==> ranked_before(
                    s[out[a] as int]->0,
                    out[a] as int,
                    s[out[b] as int]->0,
                    out[b] as int,
                )
        }),
{
    let out = old_out.insert(p, i as usize);
    old_out.insert_ensures(p, i as usize);
    assert forall|k: int| 0 <= k < out.len() implies #[trigger] out[k] < i + 1 && s[out[k] as int] is Some by {
        if k < p {
            assert(out[k] == old_out[k]);
        } else if k > p {
            assert(out[k] == old_out[k - 1]);
        }
    }
    assert forall|j: int| 0 <= j < i + 1 && s[j] is Some implies out.contains(j as usize) by {
        if j == i {
            assert(out[p] == j as usize);
        } else {
            assert(old_out.contains(j as usize));
            let t = choose|t: int| 0 <= t < old_out.len() && old_out[t] == j as usize;
            if t < p {
                assert(out[t] == j as usize);
            } else {
                assert(out[t + 1] == j as usize);
            }
        }
    }
    assert forall|a: int, b: int| 0 <= a < b < out.len() implies ranked_before(
        s[out[a] as int]->0,
        out[a] as int,
        s[out[b] as int]->0,
        out[b] as int,
    ) by {
        if b < p {
            assert(out[a] == old_out[a] && out[b] == old_out[b]);
        } else if a > p {
            assert(out[a] == old_out[a - 1] && out[b] == old_out[b - 1]);
        } else if a < p && b > p {
            assert(out[a] == old_out[a] && out[b] == old_out[b - 1]);
        } else if a == p {
            assert(out[b] == old_out[b - 1]);
        } else {
            assert(out[a] == old_out[a]);
            assert(old_out[a] < i);
        }
    }
}

/// The entries that have a score, best first, ties in their original order
/// (a stable sort by descending score).
pub fn rank_matches(scores: &Vec<Option<i32>>) -> (f: Vec<usize>)
    ensures
        ranks(f@, opt_ints(scores@)),
{
    let ghost s = opt_ints(scores@);
    let mut out: Vec<usize> = Vec::new();
    let mut i: usize = 0;
    while i < scores.len()
        invariant
            i <= scores@.len(),
            s == opt_ints(scores@),
            s.len() == scores@.len(),
            forall|k: int| 0 <= k < out@.len() ==> #[trigger] out@[k] < i && s[out@[k] as int] is Some,
            forall|j: int| 0 <= j < i && s[j] is Some ==> out@.contains(j as usize),
            forall|a: int, b: int|
                0 <= a < b < out@.len() ==> ranked_before(
                    s[out@[a] as int]->0,
                    out@[a] as int,
                    s[out@[b] as int]->0,
                    out@[b] as int,
                ),
        decreases scores@.len() - i,
    {
        if let Some(score) = scores[i] {
            let mut p: usize = 0;
            while p < out.len() && scores_at_least(scores[out[p]], score)
                invariant
                    p <= out@.len(),
                    s == opt_ints(scores@),
                    s.len() == scores@.len(),
                    forall|k: int| 0 <= k < out@.len() ==> #[trigger] out@[k] < i && s[out@[k] as int] is Some,
                    forall|k: int| 0 <= k < p ==> s[out@[k] as int]->0 >= score,
                    i < scores@.len(),
                decreases out@.len() - p,
            {
                proof {
                    assert(out@[p as int] < i);
                }
                p = p + 1;
            }
            let ghost old_out = out@;
            proof {
                assert(s[i as int] == Some(score as int));
                if p < old_out.len() {
                    assert(old_out[p as int] < i);
                    assert(s[old_out[p as int] as int]->0 < score);
                }
                assert forall|k: int| p <= k < old_out.len() implies s[old_out[k] as int]->0
                    < score by {
                    if k > p {
                        assert(ranked_before(
                            s[old_out[p as int] as int]->0,
                            old_out[p as int] as int,
                            s[old_out[k] as int]->0,
                            old_out[k] as int,
                        ));
                    }
                }
            }
            out.insert(p, i);
            proof {
                lemma_insert_keeps_ranking(old_out, s, p as int, i as int, score as int);
            }
        } else {
            proof {
                assert(s[i as int] is None);
            }
        }
        i = i + 1;
    }
    out
}

/// The first row of a list `h` rows tall that shows row `pos`, moving from
/// `scroll` only as far as needed.
pub open spec fn scrolled_for(scroll: usize, pos: usize, h: usize) -> usize {
    let s1 = if pos < scroll {
        pos
    } else {
        scroll
    };
    if pos >= s1 + h {
        sat_sub(pos as int, sat_sub(h as int, 1)) as usize
    } else {
        s1
    }
}

/// The first row of a list `h` rows tall that shows row `pos`, moving from
/// `scroll` only as far as needed (see `scrolled_for`).
pub fn scroll_to_show(scroll: usize, pos: usize, h: usize) -> (r: usize)
    requires
        (if pos < scroll {
            pos
        } else {
            scroll
        }) + h <= usize::MAX,
    ensures
        r == scrolled_for(scroll, pos, h),
{
    let mut s = scroll;
    if pos < s {
        s = pos;
    }
    if pos >= s + h {
        let keep = if h >= 1 {
            h - 1
        } else {
            0
        };
        s = if pos >= keep {
            pos - keep
        } else {
            0
        };
    }
    s
}

} // verus!
