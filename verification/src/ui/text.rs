//! Display widths of terminal text: truncation, horizontal windows and soft
//! wrapping, measured in terminal columns.
use unicode_width::UnicodeWidthChar;
use vstd::prelude::*;

use crate::utf8::{
    byte_len, char_len_utf8, lemma_byte_len_take_mono, lemma_byte_len_take_step, str_chars,
    substr,
};

verus! {

/// Columns a tab occupies.
pub const TAB_DISPLAY_WIDTH: usize = 4;

/// What `UnicodeWidthChar::width` returns for a character: its column width,
/// or `None` for a control character.
pub uninterp spec fn unicode_char_width(c: char) -> Option<usize>;

/// `UnicodeWidthChar::width` of unicode-width. The crate's source answers
/// `None` below U+0020 and in U+007F..U+009F, `Some(1)` for U+0020..U+007E,
/// and a table value of at most 3 from U+00A0 on; the table itself is named
/// `unicode_char_width`.
#[verifier::external_body]
pub(crate) fn unicode_width(c: char) -> (r: Option<usize>)
    ensures
        r == unicode_char_width(c),
        (c as u32) < 0x20 ==> r is None,
        0x20 <= (c as u32) < 0x7f ==> r == Some(1usize),
        0x7f <= (c as u32) < 0xa0 ==> r is None,
        (c as u32) >= 0xa0 ==> (r is Some && r->0 <= 3),
{
    UnicodeWidthChar::width(c)
}

/// Column width of one character: a tab is `TAB_DISPLAY_WIDTH` wide, a
/// control character 0 wide.
pub open spec fn char_width(c: char) -> nat {
    if c == '\t' {
        TAB_DISPLAY_WIDTH as nat
    } else {
        match unicode_char_width(c) {
            Some(w) => w as nat,
            None => 0,
        }
    }
}

/// Column width of a character sequence: the sum of its characters' widths.
pub open spec fn str_width(s: Seq<char>) -> nat
    decreases s.len(),
{
    if s.len() == 0 {
        0
    } else {
        str_width(s.drop_last()) + char_width(s.last())
    }
}

/// Length of the longest prefix of `s` whose width is at most `max_width`.
/// Widths only grow as the prefix grows, so this is also where the first
/// character that would overflow `max_width` sits.
pub open spec fn fit_len(s: Seq<char>, max_width: nat) -> nat
    decreases s.len(),
{
    if str_width(s) <= max_width || s.len() == 0 {
        s.len()
    } else {
        fit_len(s.drop_last(), max_width)
    }
}

/// `i` is the first character position whose starting column is at least
/// `col` (or the length of `s` when there is none).
pub open spec fn is_start_index(s: Seq<char>, col: int, i: int) -> bool {
    &&& 0 <= i <= s.len()
    &&& forall|j: int| 0 <= j < i ==> (str_width(#[trigger] s.take(j)) as int) < col
    &&& i < s.len() ==> str_width(s.take(i)) >= col
}

/// The first character position whose starting column is at least `col`.
pub open spec fn start_index(s: Seq<char>, col: int) -> int {
    choose|i: int| is_start_index(s, col, i)
}

/// Character bounds `(start, end)` of the window that starts at display
/// column `col` and is at most `max_width` columns wide: characters that
/// begin before `col` (including a wide character straddling it) are skipped.
pub open spec fn slice_bounds(s: Seq<char>, col: int, max_width: nat) -> (int, int) {
    let si = start_index(s, col);
    if max_width == 0 || si == s.len() {
        (si, si)
    } else {
        (si, si + fit_len(s.skip(si), max_width))
    }
}

/// The columns a soft-wrapped row advances by: its width, but at least one.
pub open spec fn row_advance(used: nat) -> nat {
    if used == 0 {
        1
    } else {
        used
    }
}

/// Bounds of the soft-wrapped rows of `s` from display column `col` on: each
/// row is the window at the current column, and the next row starts where
/// this one ends (at least one column further); the last row reaches the end.
pub open spec fn wrap_from(s: Seq<char>, max_width: nat, col: int) -> Seq<(int, int)>
    decreases s.len() - start_index(s, col),
{
    let (si, ei) = slice_bounds(s, col, max_width);
    if ei >= s.len() {
        seq![(si, ei)]
    } else {
        let next: int = str_width(s.take(si)) + row_advance(str_width(s.subrange(si, ei))) as int;
        proof {
            lemma_wrap_progress(s, max_width, col);
        }
        seq![(si, ei)] + wrap_from(s, max_width, next)
    }
}

/// Bounds of every soft-wrapped row of `s` at width `max_width`.
pub open spec fn wrap_bounds(s: Seq<char>, max_width: nat) -> Seq<(int, int)> {
    if max_width == 0 {
        seq![slice_bounds(s, 0, 0)]
    } else {
        wrap_from(s, max_width, 0)
    }
}

/// Index of the first row of `rows` (from `k` on) whose column span reaches
/// `col`; the last row when none does.
pub open spec fn row_of_col_from(
    s: Seq<char>,
    rows: Seq<(int, int)>,
    max_width: nat,
    col: int,
    k: int,
) -> int
    decreases rows.len() - k,
{
    if k >= rows.len() {
        rows.len() - 1
    } else if col < str_width(s.take(rows[k].0)) + max_width {
        k
    } else {
        row_of_col_from(s, rows, max_width, col, k + 1)
    }
}

/// Number of decimal digits of `n` (1 for zero).
pub open spec fn decimal_digits(n: nat) -> nat
    decreases n,
{
    if n < 10 {
        1
    } else {
        1 + decimal_digits(n / 10)
    }
}

pub proof fn lemma_width_take_step(s: Seq<char>, i: int)
    requires
        0 <= i < s.len(),
    ensures
        str_width(s.take(i + 1)) == str_width(s.take(i)) + char_width(s[i]),
{
    assert(s.take(i + 1).drop_last() =~= s.take(i));
}

pub proof fn lemma_width_concat(a: Seq<char>, b: Seq<char>)
    ensures
        str_width(a + b) == str_width(a) + str_width(b),
    decreases b.len(),
{
    if b.len() == 0 {
        assert(a + b =~= a);
    } else {
        lemma_width_concat(a, b.drop_last());
        assert((a + b).drop_last() =~= a + b.drop_last());
    }
}

/// The display width of a text is the sum of its characters' widths: the
/// empty text is 0 wide, a tab `TAB_DISPLAY_WIDTH` wide, and the width of two
/// texts put together is the sum of their widths.
pub proof fn law_width_adds(a: Seq<char>, b: Seq<char>)
    ensures
        str_width(Seq::<char>::empty()) == 0,
        str_width(seq!['\t']) == TAB_DISPLAY_WIDTH,
        str_width(a + b) == str_width(a) + str_width(b),
{
    lemma_width_concat(a, b);
    assert(seq!['\t'].drop_last() =~= Seq::<char>::empty());
}

/// Widths of prefixes grow with the prefix, and a subrange is as wide as the
/// difference of the prefixes around it.
pub proof fn lemma_width_take(s: Seq<char>, i: int, j: int)
    requires
        0 <= i <= j <= s.len(),
    ensures
        str_width(s.take(i)) <= str_width(s.take(j)) <= str_width(s),
        str_width(s.subrange(i, j)) == str_width(s.take(j)) - str_width(s.take(i)),
        str_width(s.skip(i)) == str_width(s) - str_width(s.take(i)),
{
    assert(s.take(j) =~= s.take(i) + s.subrange(i, j));
    lemma_width_concat(s.take(i), s.subrange(i, j));
    assert(s =~= s.take(j) + s.skip(j));
    lemma_width_concat(s.take(j), s.skip(j));
    assert(s =~= s.take(i) + s.skip(i));
    lemma_width_concat(s.take(i), s.skip(i));
}

/// `fit_len` is the only prefix length that fits while the next one does not.
pub proof fn lemma_fit_len_props(s: Seq<char>, max_width: nat)
    ensures
        fit_len(s, max_width) <= s.len(),
        str_width(s.take(fit_len(s, max_width) as int)) <= max_width,
        fit_len(s, max_width) < s.len() ==> str_width(s.take(fit_len(s, max_width) as int + 1))
            > max_width,
    decreases s.len(),
{
    if str_width(s) <= max_width || s.len() == 0 {
        assert(s.take(s.len() as int) =~= s);
    } else {
        let t = s.drop_last();
        lemma_fit_len_props(t, max_width);
        let k = fit_len(t, max_width) as int;
        assert(s.take(k) =~= t.take(k));
        if k < t.len() {
            assert(s.take(k + 1) =~= t.take(k + 1));
        } else {
            assert(s.take(k + 1) =~= s);
        }
    }
}

/// Any prefix length that fits while the next one does not is `fit_len`.
pub proof fn lemma_fit_len_unique(s: Seq<char>, max_width: nat, k: int)
    requires
        0 <= k <= s.len(),
        str_width(s.take(k)) <= max_width,
        k == s.len() || str_width(s.take(k + 1)) > max_width,
    ensures
        fit_len(s, max_width) == k,
{
    lemma_fit_len_props(s, max_width);
    let f = fit_len(s, max_width) as int;
    if f < k {
        lemma_width_take(s, f + 1, k);
    } else if k < f {
        lemma_width_take(s, k + 1, f);
    }
}

/// The start index exists and is unique.
pub proof fn lemma_start_index(s: Seq<char>, col: int, i: int)
    requires
        is_start_index(s, col, i),
    ensures
        start_index(s, col) == i,
{
    let c = start_index(s, col);
    assert(is_start_index(s, col, c));
    if c < i {
        assert((str_width(s.take(c)) as int) < col);
    } else if i < c {
        assert((str_width(s.take(i)) as int) < col);
    }
}

pub proof fn lemma_start_index_exists(s: Seq<char>, col: int)
    ensures
        is_start_index(s, col, start_index(s, col)),
{
    let i = first_at_col(s, col, 0);
    lemma_first_at_col(s, col, 0);
    lemma_start_index(s, col, i);
}

spec fn first_at_col(s: Seq<char>, col: int, i: int) -> int
    decreases s.len() - i,
{
    if i >= s.len() {
        s.len() as int
    } else if str_width(s.take(i)) >= col {
        i
    } else {
        first_at_col(s, col, i + 1)
    }
}

proof fn lemma_first_at_col(s: Seq<char>, col: int, i: int)
    requires
        0 <= i <= s.len(),
        forall|j: int| 0 <= j < i ==> (str_width(#[trigger] s.take(j)) as int) < col,
    ensures
        is_start_index(s, col, first_at_col(s, col, i)),
    decreases s.len() - i,
{
    if i < s.len() && str_width(s.take(i)) < col {
        assert forall|j: int| 0 <= j < i + 1 implies (str_width(#[trigger] s.take(j)) as int)
            < col by {}
        lemma_first_at_col(s, col, i + 1);
    }
}

/// Each wrapped row that does not reach the end moves the start index on.
pub proof fn lemma_wrap_progress(s: Seq<char>, max_width: nat, col: int)
    ensures
        ({
            let (si, ei) = slice_bounds(s, col, max_width);
            let next: int = str_width(s.take(si)) + row_advance(str_width(s.subrange(si, ei))) as int;
            ei < s.len() ==> 0 <= start_index(s, col) < start_index(s, next) <= s.len()
        }),
{
    lemma_start_index_exists(s, col);
    let (si, ei) = slice_bounds(s, col, max_width);
    let next: int = str_width(s.take(si)) + row_advance(str_width(s.subrange(si, ei))) as int;
    if ei < s.len() {
        lemma_start_index_exists(s, next);
        let n2 = start_index(s, next);
        if n2 <= si {
            lemma_width_take(s, n2, si);
        }
    }
}

/// With a positive width, the next row never starts past the text's width.
pub proof fn lemma_wrap_next_bounded(s: Seq<char>, max_width: nat, col: int)
    requires
        max_width > 0,
    ensures
        ({
            let (si, ei) = slice_bounds(s, col, max_width);
            let next: int = str_width(s.take(si)) + row_advance(str_width(s.subrange(si, ei))) as int;
            &&& 0 <= si <= ei <= s.len()
            &&& ei < s.len() ==> next <= str_width(s)
        }),
{
    lemma_start_index_exists(s, col);
    let (si, ei) = slice_bounds(s, col, max_width);
    if si < s.len() {
        let t = s.skip(si);
        lemma_fit_len_props(t, max_width);
        let f = fit_len(t, max_width) as int;
        assert(t.take(f) =~= s.subrange(si, ei));
        if ei < s.len() {
            assert(t.take(f + 1) =~= s.subrange(si, ei + 1));
            lemma_width_take(s, si, ei + 1);
            lemma_width_take(s, si, ei);
        }
    }
}

/// The text's width and UTF-8 length both fit in a `usize`, so sums of
/// columns and byte offsets cannot overflow.
pub open spec fn fits_in_usize(s: Seq<char>) -> bool {
    str_width(s) <= usize::MAX && byte_len(s) <= usize::MAX
}

/// Column width of one character: `TAB_DISPLAY_WIDTH` for a tab, the
/// character's Unicode width otherwise, and 0 for control characters.
pub fn char_display_width(ch: char) -> (w: usize)
    ensures
        w == char_width(ch),
        w <= 4,
{
    if ch == '\t' {
        TAB_DISPLAY_WIDTH
    } else {
        match unicode_width(ch) {
            Some(w) => w,
            None => 0,
        }
    }
}

/// A run of a string that fits a column window.
#[derive(Debug, Clone, Copy, PartialEq, Eq)]
pub struct DisplayWindow<'a> {
    pub visible: &'a str,
    pub start_byte: usize,
    pub end_byte: usize,
    pub start_col: usize,
    pub used_width: usize,
}

/// `w` is the window of `s` covering characters `si..ei`: its text, its byte
/// offsets, its starting column and its width.
pub open spec fn window_at(s: &str, w: DisplayWindow<'_>, si: int, ei: int) -> bool {
    &&& 0 <= si <= ei <= s@.len()
    &&& w.visible@ == s@.subrange(si, ei)
    &&& w.start_byte == byte_len(s@.take(si))
    &&& w.end_byte == byte_len(s@.take(ei))
    &&& w.start_col == str_width(s@.take(si))
    &&& w.used_width == str_width(s@.subrange(si, ei))
}

/// Takes characters from position `from` on while they fit in `max_width`
/// columns: how many, their width, and the byte offset where they end.
fn fit_from(chars: &Vec<char>, from: usize, from_byte: usize, max_width: usize) -> (r: (
    usize,
    usize,
    usize,
))
    requires
        from <= chars@.len(),
        from_byte == byte_len(chars@.take(from as int)),
        fits_in_usize(chars@),
    ensures
        from + r.0 <= chars@.len(),
        r.0 == fit_len(chars@.skip(from as int), max_width as nat),
        r.1 == str_width(chars@.subrange(from as int, from + r.0)),
        r.2 == byte_len(chars@.take(from + r.0)),
{
    let ghost t = chars@.skip(from as int);
    let n = chars.len();
    let mut k: usize = 0;
    let mut used: usize = 0;
    let mut b: usize = from_byte;
    while from + k < n
        invariant
            n == chars@.len(),
            from + k <= chars@.len(),
            t == chars@.skip(from as int),
            t.take(k as int) == chars@.subrange(from as int, from + k),
            used == str_width(t.take(k as int)),
            used <= max_width,
            b == byte_len(chars@.take(from + k)),
            fits_in_usize(chars@),
        decreases chars@.len() - from - k,
    {
        let c = chars[from + k];
        let cw = char_display_width(c);
        proof {
            lemma_width_take_step(t, k as int);
            assert(t[k as int] == c);
        }
        if cw > max_width - used {
            proof {
                lemma_fit_len_unique(t, max_width as nat, k as int);
            }
            return (k, used, b);
        }
        proof {
            lemma_byte_len_take_step(chars@, from + k);
            lemma_byte_len_take_mono(chars@, from + k + 1, chars@.len() as int);
            assert(t.take(k + 1) =~= chars@.subrange(from as int, from + k + 1));
        }
        used = used + cw;
        b = b + char_len_utf8(c);
        k = k + 1;
    }
    proof {
        assert(t.take(k as int) =~= t);
        lemma_fit_len_unique(t, max_width as nat, k as int);
    }
    (k, used, b)
}

/// Truncate `s` to fit within `max_width` terminal columns.
/// Returns the truncated `&str` slice and its display width.
pub fn truncate_to_width(s: &str, max_width: usize) -> (r: (&str, usize))
    requires
        fits_in_usize(s@),
    ensures
        r.0@ == s@.take(fit_len(s@, max_width as nat) as int),
        r.1 == str_width(r.0@),
{
    let chars = str_chars(s);
    proof {
        assert(chars@.take(0) =~= Seq::<char>::empty());
        assert(chars@.skip(0) =~= chars@);
    }
    let (k, used, b) = fit_from(&chars, 0, 0, max_width);
    let prefix = substr(s, 0, b, Ghost(0), Ghost(k as int));
    proof {
        assert(chars@.subrange(0, k as int) =~= s@.take(k as int));
    }
    (prefix, used)
}

/// Display width of a string in terminal columns.
pub fn display_width(s: &str) -> (w: usize)
    requires
        str_width(s@) <= usize::MAX,
    ensures
        w == str_width(s@),
{
    let chars = str_chars(s);
    let mut i: usize = 0;
    let mut w: usize = 0;
    while i < chars.len()
        invariant
            i <= chars@.len(),
            chars@ == s@,
            w == str_width(s@.take(i as int)),
            str_width(s@) <= usize::MAX,
        decreases chars@.len() - i,
    {
        proof {
            lemma_width_take_step(s@, i as int);
            lemma_width_take(s@, i + 1, s@.len() as int);
        }
        w = w + char_display_width(chars[i]);
        i = i + 1;
    }
    proof {
        assert(s@.take(i as int) =~= s@);
    }
    w
}

/// Slice a display window from `s` starting at display column `start_col`.
pub fn slice_display_window(s: &str, start_col: usize, max_width: usize) -> (w: DisplayWindow<
    '_,
>)
    requires
        fits_in_usize(s@),
    ensures
        window_at(
            s,
            w,
            slice_bounds(s@, start_col as int, max_width as nat).0,
            slice_bounds(s@, start_col as int, max_width as nat).1,
        ),
{
    let chars = str_chars(s);
    let n = chars.len();
    let mut i: usize = 0;
    let mut col: usize = 0;
    let mut b: usize = 0;
    proof {
        assert(s@.take(0) =~= Seq::<char>::empty());
    }
    while i < n && col < start_col
        invariant
            i <= n,
            n == chars@.len(),
            chars@ == s@,
            col == str_width(s@.take(i as int)),
            b == byte_len(s@.take(i as int)),
            forall|j: int| 0 <= j < i ==> (str_width(#[trigger] s@.take(j)) as int) < start_col,
            fits_in_usize(s@),
        decreases n - i,
    {
        let c = chars[i];
        proof {
            lemma_width_take_step(s@, i as int);
            lemma_width_take(s@, i + 1, n as int);
            lemma_byte_len_take_step(s@, i as int);
            lemma_byte_len_take_mono(s@, i + 1, n as int);
        }
        col = col + char_display_width(c);
        b = b + char_len_utf8(c);
        i = i + 1;
    }
    proof {
        lemma_start_index(s@, start_col as int, i as int);
    }
    if max_width == 0 || i == n {
        let visible = substr(s, b, b, Ghost(i as int), Ghost(i as int));
        proof {
            assert(s@.subrange(i as int, i as int) =~= Seq::<char>::empty());
        }
        return DisplayWindow { visible, start_byte: b, end_byte: b, start_col: col, used_width: 0 };
    }
    let (k, used, e) = fit_from(&chars, i, b, max_width);
    let visible = substr(s, b, e, Ghost(i as int), Ghost((i + k) as int));
    DisplayWindow { visible, start_byte: b, end_byte: e, start_col: col, used_width: used }
}

/// Split `s` into the successive display windows it occupies when soft-wrapped
/// at `max_width` columns. Always returns at least one window (an empty line
/// still occupies one row). Wide characters are never split across rows: a
/// character that does not fit in the remaining columns starts the next row.
pub fn wrap_display_windows(s: &str, max_width: usize) -> (ws: Vec<DisplayWindow<'_>>)
    requires
        fits_in_usize(s@),
    ensures
        ws@.len() == wrap_bounds(s@, max_width as nat).len(),
        forall|k: int|
            0 <= k < ws@.len() ==> window_at(
                s,
                #[trigger] ws@[k],
                wrap_bounds(s@, max_width as nat)[k].0,
                wrap_bounds(s@, max_width as nat)[k].1,
            ),
{
    let mut windows: Vec<DisplayWindow<'_>> = Vec::new();
    if max_width == 0 {
        windows.push(slice_display_window(s, 0, 0));
        return windows;
    }
    let ghost mw = max_width as nat;
    let ghost all = wrap_from(s@, mw, 0);
    let ghost mut done: Seq<(int, int)> = Seq::empty();
    let mut col: usize = 0;
    proof {
        lemma_start_index_exists(s@, 0);
        assert(all =~= done + wrap_from(s@, mw, 0));
    }
    loop
        invariant
            all == wrap_from(s@, mw, 0),
            all == wrap_bounds(s@, mw),
            all == done + wrap_from(s@, mw, col as int),
            windows@.len() == done.len(),
            forall|k: int|
                0 <= k < windows@.len() ==> window_at(s, #[trigger] windows@[k], done[k].0, done[k].1),
            mw == max_width,
            max_width > 0,
            fits_in_usize(s@),
            0 <= start_index(s@, col as int) <= s@.len(),
        decreases s@.len() - start_index(s@, col as int),
    {
        let w = slice_display_window(s, col, max_width);
        let ghost (si, ei) = slice_bounds(s@, col as int, mw);
        proof {
            lemma_wrap_progress(s@, mw, col as int);
            lemma_wrap_next_bounded(s@, mw, col as int);
            lemma_byte_len_take_mono(s@, ei, s@.len() as int);
            assert(s@.take(s@.len() as int) =~= s@);
        }
        let reached = w.end_byte >= s.len();
        windows.push(w);
        if reached {
            proof {
                assert(ei == s@.len());
                assert(wrap_from(s@, mw, col as int) == seq![(si, ei)]);
                done = done.push((si, ei));
                assert(all =~= done);
            }
            return windows;
        }
        let advance = if w.used_width == 0 {
            1
        } else {
            w.used_width
        };
        let next = w.start_col + advance;
        proof {
            assert(ei < s@.len());
            assert(wrap_from(s@, mw, col as int) == seq![(si, ei)] + wrap_from(s@, mw, next as int));
            done = done.push((si, ei));
            assert(all =~= done + wrap_from(s@, mw, next as int));
        }
        col = next;
    }
}

/// Number of terminal rows `s` occupies when soft-wrapped at `max_width`.
/// Always at least 1.
pub fn wrapped_row_count(s: &str, max_width: usize) -> (n: usize)
    requires
        fits_in_usize(s@),
    ensures
        n == wrap_bounds(s@, max_width as nat).len(),
        n >= 1,
{
    proof {
        lemma_wrap_bounds_nonempty(s@, max_width as nat);
    }
    wrap_display_windows(s, max_width).len()
}

/// Every text wraps into at least one row.
pub proof fn lemma_wrap_bounds_nonempty(s: Seq<char>, max_width: nat)
    ensures
        wrap_bounds(s, max_width).len() >= 1,
{
    if max_width > 0 {
        let (si, ei) = slice_bounds(s, 0, max_width);
        if ei < s.len() {
            lemma_wrap_progress(s, max_width, 0);
        }
    }
}

/// Index of the soft-wrapped row that holds display column `col`. Columns past
/// the end of the last row (e.g. a cursor sitting one past a line that exactly
/// fills the width) resolve to the last row.
pub fn wrapped_row_of_col(s: &str, max_width: usize, col: usize) -> (r: usize)
    requires
        fits_in_usize(s@),
    ensures
        max_width == 0 ==> r == 0,
        max_width > 0 ==> r == row_of_col_from(
            s@,
            wrap_bounds(s@, max_width as nat),
            max_width as nat,
            col as int,
            0,
        ),
{
    if max_width == 0 {
        return 0;
    }
    let windows = wrap_display_windows(s, max_width);
    let ghost rows = wrap_bounds(s@, max_width as nat);
    proof {
        lemma_wrap_bounds_nonempty(s@, max_width as nat);
    }
    let mut idx: usize = 0;
    while idx < windows.len()
        invariant
            idx <= windows@.len(),
            max_width > 0,
            rows == wrap_bounds(s@, max_width as nat),
            windows@.len() == rows.len(),
            rows.len() >= 1,
            forall|k: int|
                0 <= k < windows@.len() ==> window_at(s, #[trigger] windows@[k], rows[k].0, rows[k].1),
            row_of_col_from(s@, rows, max_width as nat, col as int, 0) == row_of_col_from(
                s@,
                rows,
                max_width as nat,
                col as int,
                idx as int,
            ),
        decreases windows@.len() - idx,
    {
        let start = windows[idx].start_col;
        proof {
            assert(window_at(s, windows@[idx as int], rows[idx as int].0, rows[idx as int].1));
        }
        if col < start || col - start < max_width {
            return idx;
        }
        idx = idx + 1;
    }
    windows.len() - 1
}

proof fn lemma_decimal_digits_small(n: nat)
    ensures
        decimal_digits(n) >= 1,
        n >= 10 ==> decimal_digits(n) <= n / 2,
        decimal_digits(n) <= n + 1,
    decreases n,
{
    if n >= 10 {
        lemma_decimal_digits_small(n / 10);
    }
}

/// Compute gutter width (line numbers + space) for given total lines.
pub fn gutter_width(total_lines: usize) -> (w: usize)
    ensures
        w == decimal_digits(total_lines as nat) + 1,
{
    let mut digits: usize = 1;
    let mut rest = total_lines;
    proof {
        lemma_decimal_digits_small(total_lines as nat);
    }
    while rest >= 10
        invariant
            decimal_digits(total_lines as nat) == digits - 1 + decimal_digits(rest as nat),
            1 <= digits,
            digits + 1 <= decimal_digits(total_lines as nat) + 1 <= usize::MAX,
        decreases rest,
    {
        rest = rest / 10;
        digits = digits + 1;
    }
    digits + 1
}

/// Whether the text's width and UTF-8 length both fit in a `usize`.
pub fn fits(s: &str) -> (r: bool)
    ensures
        r == fits_in_usize(s@),
{
    let chars = str_chars(s);
    let n = chars.len();
    let mut w: usize = 0;
    let mut b: usize = 0;
    let mut i: usize = 0;
    proof {
        assert(chars@.take(0) =~= Seq::<char>::empty());
    }
    while i < n
        invariant
            i <= n,
            n == chars@.len(),
            chars@ == s@,
            w == str_width(chars@.take(i as int)),
            b == byte_len(chars@.take(i as int)),
        decreases n - i,
    {
        let cw = char_display_width(chars[i]);
        let cb = char_len_utf8(chars[i]);
        proof {
            lemma_width_take_step(chars@, i as int);
            lemma_byte_len_take_step(chars@, i as int);
            lemma_width_take(chars@, i + 1, n as int);
            lemma_byte_len_take_mono(chars@, i + 1, n as int);
            assert(chars@.take(n as int) =~= chars@);
        }
        if w > usize::MAX - cw || b > usize::MAX - cb {
            return false;
        }
        w = w + cw;
        b = b + cb;
        i = i + 1;
    }
    proof {
        assert(chars@.take(n as int) =~= chars@);
    }
    true
}

} // verus!
