//! The palette's modes, candidates and entries, and the helpers that lay out
//! its preview lines.
use vstd::prelude::*;

use crate::std_calls::string_push;
use crate::strings::{lemma_prefix_before, owned, prefix_before, trim, trimmed};
use crate::syntax::highlight::HighlightSpan;
use crate::ui::text::{
    char_display_width, display_width, fit_len, fits_in_usize, lemma_width_concat, lemma_width_take,
    lemma_width_take_step, str_width, truncate_to_width, unicode_char_width, unicode_width,
};
use crate::utf8::{byte_len, lemma_byte_len_take_mono, lemma_encode_concat, str_chars, substr};

verus! {

/// Which list the palette shows.
#[derive(Debug, Clone, Copy, PartialEq, Eq)]
pub enum PaletteMode {
    Command,
    FileFinder,
    BufferPicker,
    JumpPicker,
    ReferencePicker,
    GitBranchPicker,
    SymbolPicker,
    GlobalSearch,
    GotoLine,
}

/// An open buffer's identifier.
#[derive(Debug, Clone, Copy, PartialEq, Eq, Hash)]
pub struct BufferId(pub usize);

/// What a palette row stands for, with its index in the mode's own list.
#[derive(Debug, Clone, Copy, PartialEq, Eq)]
pub enum CandidateKind {
    Command(usize),
    Buffer(BufferId),
    Jump(usize),
    Reference(usize),
    GitBranch(usize),
    Symbol(usize),
    File(usize),
    SearchResult(usize),
}

/// A palette row: what it stands for, its label, its score, the label's
/// matched positions and its preview.
pub struct ScoredCandidate {
    pub kind: CandidateKind,
    pub label: String,
    pub score: i32,
    pub match_positions: Vec<usize>,
    pub preview_lines: Vec<String>,
}

/// An entry of the jump list.
#[derive(Debug, Clone)]
pub struct JumpPickerEntry {
    pub jump_index: usize,
    pub label: String,
    pub preview_lines: Vec<String>,
    pub source_path: Option<String>,
    pub target_preview_line: Option<usize>,
    pub target_char_col: usize,
}

/// A reference to a symbol: where it is and how it previews.
#[derive(Debug, Clone)]
pub struct ReferencePickerEntry {
    pub label: String,
    pub path: String,
    pub line: usize,
    pub character_utf16: usize,
    pub preview_lines: Vec<String>,
    pub source_path: Option<String>,
    pub target_preview_line: Option<usize>,
    pub target_char_col: usize,
}

/// A piece of code the smart-copy picker offers to copy.
#[derive(Debug, Clone)]
pub struct SmartCopyPickerEntry {
    pub label: String,
    pub line: usize,
    pub char_col: usize,
    pub preview_lines: Vec<String>,
    pub copy_text: String,
}

/// A git branch.
#[derive(Debug, Clone)]
pub struct GitBranchPickerEntry {
    pub branch_name: String,
    pub label: String,
    pub preview_lines: Vec<String>,
}

/// Index of the first `c` in `s`, if any.
pub open spec fn first_index_of(s: Seq<char>, c: char) -> Option<int> {
    if exists|i: int| 0 <= i < s.len() && s[i] == c {
        Some(choose|i: int| 0 <= i < s.len() && s[i] == c && forall|j: int| 0 <= j < i ==> s[j] != c)
    } else {
        None
    }
}

/// A numbered preview line `"  12 | code"` split at its first `|`: the
/// number part and the code after it, less one leading space.
pub open spec fn numbered_parts(line: Seq<char>) -> Option<(Seq<char>, Seq<char>)> {
    match first_index_of(line, '|') {
        None => None,
        Some(k) => {
            let right = line.skip(k + 1);
            Some((line.take(k), if right.len() > 0 && right[0] == ' ' { right.skip(1) } else { right }))
        },
    }
}

/// Splits a numbered preview line into its number part and its code.
pub fn split_numbered_preview_line(line: &str) -> (r: Option<(&str, &str)>)
    requires
        byte_len(line@) <= usize::MAX,
    ensures
        match numbered_parts(line@) {
            None => r is None,
            Some(p) => r is Some && r.unwrap().0@ == p.0 && r.unwrap().1@ == p.1,
        },
{
    let chars = str_chars(line);
    let mut i: usize = 0;
    let mut b: usize = 0;
    while i < chars.len() && chars[i] != '|'
        invariant
            i <= chars@.len(),
            chars@ == line@,
            b == byte_len(line@.take(i as int)),
            byte_len(line@) <= usize::MAX,
            forall|j: int| 0 <= j < i ==> line@[j] != '|',
        decreases chars@.len() - i,
    {
        proof {
            crate::utf8::lemma_byte_len_take_step(line@, i as int);
            crate::utf8::lemma_byte_len_take_mono(line@, i + 1, line@.len() as int);
        }
        b = b + crate::utf8::char_len_utf8(chars[i]);
        i = i + 1;
    }
    if i == chars.len() {
        proof {
            assert(!(exists|k: int| 0 <= k < line@.len() && line@[k] == '|'));
        }
        return None;
    }
    proof {
        assert(line@[i as int] == '|');
        let k = choose|k: int| 0 <= k < line@.len() && line@[k] == '|' && forall|j: int| 0 <= j < k ==> line@[j] != '|';
        assert(k == i);
        crate::utf8::lemma_byte_len_take_step(line@, i as int);
        crate::utf8::lemma_byte_len_take_mono(line@, i + 1, line@.len() as int);
        crate::utf8::lemma_byte_len_take_mono(line@, i as int, line@.len() as int);
        assert(line@.take(line@.len() as int) =~= line@);
    }
    let total = line.len();
    proof {
        assert(total == byte_len(line@.take(line@.len() as int)));
    }
    let prefix = substr(line, 0, b, Ghost(0), Ghost(i as int));
    let bar_end = b + 1;
    let skip_space = i + 1 < chars.len() && chars[i + 1] == ' ';
    proof {
        assert(line@.take(0) =~= Seq::<char>::empty());
    }
    let code = if skip_space {
        proof {
            crate::utf8::lemma_byte_len_take_step(line@, i + 1);
            crate::utf8::lemma_byte_len_take_mono(line@, i + 2, line@.len() as int);
        }
        substr(line, bar_end + 1, total, Ghost(i + 2), Ghost(line@.len() as int))
    } else {
        substr(line, bar_end, total, Ghost(i + 1), Ghost(line@.len() as int))
    };
    proof {
        assert(line@.subrange(0, i as int) =~= line@.take(i as int));
        let right = line@.skip(i + 1);
        if skip_space {
            assert(right.skip(1) =~= line@.subrange(i + 2, line@.len() as int));
        } else {
            assert(right =~= line@.subrange(i + 1, line@.len() as int));
        }
    }
    Some((prefix, code))
}

/// The part of span `s` inside the window `[start, end)`, shifted to start
/// at the window.
pub open spec fn rebased(s: HighlightSpan, start: int, end: int) -> Option<(int, int)> {
    let lo = if s.start > start { s.start as int } else { start };
    let hi = if s.end < end { s.end as int } else { end };
    if lo >= hi {
        None
    } else {
        Some((lo - start, hi - start))
    }
}

/// Spans with the bounds of each rebased one, in order, the others left out.
pub open spec fn rebased_all(spans: Seq<HighlightSpan>, start: int, end: int) -> Seq<(int, int, Seq<char>)>
    decreases spans.len(),
{
    if spans.len() == 0 {
        Seq::empty()
    } else {
        let prev = rebased_all(spans.drop_last(), start, end);
        match rebased(spans.last(), start, end) {
            None => prev,
            Some(b) => prev.push((b.0, b.1, spans.last().capture_name@)),
        }
    }
}

/// Spans as bounds and capture names.
pub open spec fn span_views(v: Seq<HighlightSpan>) -> Seq<(int, int, Seq<char>)> {
    v.map_values(|s: HighlightSpan| (s.start as int, s.end as int, s.capture_name@))
}

/// The highlight spans that overlap the byte window `[start_byte,
/// end_byte)`, cut to it and shifted so the window starts at 0.
pub fn rebase_preview_spans_to_window(spans: &[HighlightSpan], start_byte: usize, end_byte: usize) -> (r: Vec<HighlightSpan>)
    ensures
        span_views(r@) == rebased_all(spans@, start_byte as int, end_byte as int),
{
    let mut out: Vec<HighlightSpan> = Vec::new();
    let mut i: usize = 0;
    while i < spans.len()
        invariant
            i <= spans@.len(),
            span_views(out@) == rebased_all(spans@.take(i as int), start_byte as int, end_byte as int),
        decreases spans@.len() - i,
    {
        let span = &spans[i];
        let overlap_start = if span.start > start_byte { span.start } else { start_byte };
        let overlap_end = if span.end < end_byte { span.end } else { end_byte };
        proof {
            assert(spans@.take(i + 1).drop_last() =~= spans@.take(i as int));
            assert(spans@.take(i + 1).last() == spans@[i as int]);
        }
        if overlap_start < overlap_end {
            let ghost before = out@;
            out.push(
                HighlightSpan {
                    start: overlap_start - start_byte,
                    end: overlap_end - start_byte,
                    capture_name: span.capture_name.clone(),
                },
            );
            proof {
                assert(span_views(out@) =~= span_views(before).push(
                    ((overlap_start - start_byte) as int, (overlap_end - start_byte) as int, span.capture_name@),
                ));
            }
        }
        i = i + 1;
    }
    proof {
        assert(spans@.take(i as int) =~= spans@);
    }
    out
}

/// A character's Unicode width, 0 for a control character (a tab
/// included), which has none.
pub open spec fn cell_width(c: char) -> nat {
    if (c as u32) < 0x20 || (0x7f <= (c as u32) && (c as u32) < 0xa0) {
        0
    } else {
        match unicode_char_width(c) {
            Some(w) => w as nat,
            None => 0,
        }
    }
}

/// The Unicode width of a sequence of characters.
pub open spec fn cells_width(s: Seq<char>) -> nat
    decreases s.len(),
{
    if s.len() == 0 {
        0
    } else {
        cells_width(s.drop_last()) + cell_width(s.last())
    }
}

/// A character's Unicode width is never more than its display width.
proof fn lemma_cells_width_le(s: Seq<char>)
    ensures
        cells_width(s) <= str_width(s),
    decreases s.len(),
{
    if s.len() > 0 {
        lemma_cells_width_le(s.drop_last());
    }
}

/// Widths of the parts add up.
proof fn lemma_cells_width_concat(a: Seq<char>, b: Seq<char>)
    ensures
        cells_width(a + b) == cells_width(a) + cells_width(b),
    decreases b.len(),
{
    if b.len() == 0 {
        assert(a + b =~= a);
    } else {
        lemma_cells_width_concat(a, b.drop_last());
        assert((a + b).drop_last() =~= a + b.drop_last());
    }
}

/// The cut `shorten_path` makes, scanning the slashes from the right: the
/// start of the longest tail after a slash that fits in `available`
/// columns, `best` until then.
pub open spec fn scan_cut(chars: Seq<char>, k: int, available: int, best: Option<int>) -> Option<int>
    decreases k,
{
    if k <= 0 {
        best
    } else if chars[k - 1] == '/' {
        if cells_width(chars.skip(k)) <= available {
            scan_cut(chars, k - 1, available, Some(k))
        } else {
            best
        }
    } else {
        scan_cut(chars, k - 1, available, best)
    }
}

/// The position of the last `/`.
pub open spec fn last_slash(chars: Seq<char>) -> Option<int>
    decreases chars.len(),
{
    if chars.len() == 0 {
        None
    } else if chars.last() == '/' {
        Some(chars.len() - 1)
    } else {
        last_slash(chars.drop_last())
    }
}

/// The last `/` is a slash of the path.
proof fn lemma_last_slash(chars: Seq<char>)
    ensures
        last_slash(chars) matches Some(i) ==> 0 <= i < chars.len() && chars[i] == '/',
        last_slash(chars) is None ==> forall|k: int| 0 <= k < chars.len() ==> chars[k] != '/',
    decreases chars.len(),
{
    if chars.len() > 0 {
        lemma_last_slash(chars.drop_last());
        if last_slash(chars) is None {
            assert forall|k: int| 0 <= k < chars.len() implies chars[k] != '/' by {
                if k < chars.len() - 1 {
                    assert(chars.drop_last()[k] == chars[k]);
                }
            }
        }
    }
}

/// A path shortened to `max_width` columns, with the number of its
/// characters left out at the front and the length of the marker put in
/// their place: the whole path when it fits; else, for a path with
/// directories, `.../` and the longest tail of whole components that fits,
/// or, when not even the file name fits that way, the file name cut to
/// fit; a path without directories is cut to fit.
pub open spec fn shortened(path: Seq<char>, max_width: nat) -> (Seq<char>, int, int) {
    if cells_width(path) <= max_width {
        (path, 0, 0)
    } else {
        match last_slash(path) {
            None => (path.take(fit_len(path, max_width) as int), 0, 0),
            Some(ls) => {
                let available = if max_width >= 4 { max_width - 4 } else { 0 };
                match scan_cut(path, path.len() as int, available, None) {
                    Some(cut) => (".../"@ + path.skip(cut), cut, 4),
                    None => {
                        let name = path.skip(ls + 1);
                        (name.take(fit_len(name, max_width) as int), ls + 1, 0)
                    },
                }
            },
        }
    }
}

/// The Unicode width of a sequence of characters, which must fit.
fn chars_cells_width(chars: &Vec<char>, from: usize) -> (w: usize)
    requires
        from <= chars@.len(),
        str_width(chars@.skip(from as int)) <= usize::MAX,
    ensures
        w == cells_width(chars@.skip(from as int)),
{
    let mut w: usize = 0;
    let mut i: usize = from;
    proof {
        assert(chars@.subrange(from as int, from as int) =~= Seq::<char>::empty());
        lemma_cells_width_le(chars@.skip(from as int));
    }
    while i < chars.len()
        invariant
            from <= i <= chars@.len(),
            w == cells_width(chars@.subrange(from as int, i as int)),
            cells_width(chars@.skip(from as int)) <= usize::MAX,
        decreases chars@.len() - i,
    {
        let cw: usize = match unicode_width(chars[i]) {
            Some(x) => x,
            None => 0,
        };
        proof {
            assert(chars@.subrange(from as int, i + 1).drop_last() =~= chars@.subrange(from as int, i as int));
            assert(chars@.skip(from as int) =~= chars@.subrange(from as int, i + 1) + chars@.skip(i + 1));
            lemma_cells_width_concat(chars@.subrange(from as int, i + 1), chars@.skip(i + 1));
        }
        w = w + cw;
        i = i + 1;
    }
    proof {
        assert(chars@.subrange(from as int, i as int) =~= chars@.skip(from as int));
    }
    w
}

/// Shortens a file path to fit within `max_width` columns, keeping the file
/// name and as many parent directories, from the right, as fit.
pub fn shorten_path(path: &str, max_width: usize) -> (r: (String, usize, usize))
    requires
        fits_in_usize(path@),
    ensures
        (r.0@, r.1 as int, r.2 as int) == shortened(path@, max_width as nat),
{
    let chars = str_chars(path);
    proof {
        assert(chars@.skip(0) =~= chars@);
        lemma_width_take(chars@, 0, 0);
    }
    let total = chars_cells_width(&chars, 0);
    if total <= max_width {
        return (owned(path), 0, 0);
    }
    let mut k: usize = chars.len();
    let mut last: Option<usize> = None;
    proof {
        assert(chars@.take(k as int) =~= chars@);
    }
    while k > 0 && last.is_none()
        invariant
            k <= chars@.len(),
            last matches Some(i) ==> i < chars@.len() && last_slash(chars@) == Some(i as int),
            last is None ==> last_slash(chars@) == last_slash(chars@.take(k as int)),
        decreases k,
    {
        proof {
            assert(chars@.take(k as int).drop_last() =~= chars@.take(k - 1));
        }
        if chars[k - 1] == '/' {
            last = Some(k - 1);
        }
        k = k - 1;
    }
    let ls = match last {
        Some(i) => i,
        None => {
            proof {
                assert(chars@.take(0) =~= Seq::<char>::empty());
            }
            let (t, _) = truncate_to_width(path, max_width);
            return (owned(t), 0, 0);
        },
    };
    let available: usize = if max_width >= 4 {
        max_width - 4
    } else {
        0
    };
    let mut best: Option<usize> = None;
    let mut j: usize = chars.len();
    while j > 0
        invariant
            j <= chars@.len(),
            chars@ == path@,
            fits_in_usize(path@),
            scan_cut(chars@, chars@.len() as int, available as int, None) == scan_cut(
                chars@,
                j as int,
                available as int,
                match best {
                    Some(b) => Some(b as int),
                    None => None,
                },
            ),
            best matches Some(b) ==> b <= chars@.len(),
        ensures
            scan_cut(chars@, chars@.len() as int, available as int, None) == match best {
                Some(b) => Some(b as int),
                None => None,
            },
            best matches Some(b) ==> b <= chars@.len(),
        decreases j,
    {
        if chars[j - 1] == '/' {
            proof {
                lemma_width_take(chars@, j as int, chars@.len() as int);
            }
            let tail_w = chars_cells_width(&chars, j);
            if tail_w <= available {
                best = Some(j);
            } else {
                break;
            }
        }
        j = j - 1;
    }
    match best {
        Some(cut) => {
            let mut out = owned(".../");
            let mut i: usize = cut;
            let ghost start = out@;
            while i < chars.len()
                invariant
                    cut <= i <= chars@.len(),
                    out@ == start + chars@.subrange(cut as int, i as int),
                decreases chars@.len() - i,
            {
                string_push(&mut out, chars[i]);
                i = i + 1;
                proof {
                    assert(out@ =~= start + chars@.subrange(cut as int, i as int));
                }
            }
            proof {
                assert(chars@.subrange(cut as int, i as int) =~= chars@.skip(cut as int));
            }
            (out, cut, 4)
        },
        None => {
            let mut name = String::new();
            let mut i: usize = ls + 1;
            while i < chars.len()
                invariant
                    ls + 1 <= i <= chars@.len(),
                    name@ == chars@.subrange(ls + 1, i as int),
                decreases chars@.len() - i,
            {
                string_push(&mut name, chars[i]);
                i = i + 1;
                proof {
                    assert(name@ =~= chars@.subrange(ls + 1, i as int));
                }
            }
            proof {
                assert(chars@.subrange(ls + 1, i as int) =~= chars@.skip(ls + 1));
                lemma_width_take(chars@, ls + 1, chars@.len() as int);
                lemma_byte_len_take_mono(chars@, ls + 1, chars@.len() as int);
                assert(chars@ =~= chars@.take(ls + 1) + chars@.skip(ls + 1));
                lemma_encode_concat(chars@.take(ls + 1), chars@.skip(ls + 1));
            }
            let (t, _) = truncate_to_width(name.as_str(), max_width);
            (owned(t), ls + 1, 0)
        },
    }
}

/// The number the decimal digits `d` write.
pub open spec fn decimal_value(d: Seq<char>) -> int
    decreases d.len(),
{
    if d.len() == 0 {
        0
    } else {
        decimal_value(d.drop_last()) * 10 + ((d.last() as int) - ('0' as int))
    }
}

/// Every character of `d` is a decimal digit.
pub open spec fn all_digits(d: Seq<char>) -> bool {
    forall|i: int| 0 <= i < d.len() ==> '0' <= #[trigger] d[i] && d[i] <= '9'
}

/// What `str::parse::<usize>` makes of `s`: an optional `+` followed by at
/// least one decimal digit and nothing else, whose value fits in a `usize`.
pub open spec fn parsed_usize(s: Seq<char>) -> Option<usize> {
    let d = if s.len() > 0 && s[0] == '+' {
        s.skip(1)
    } else {
        s
    };
    if d.len() > 0 && all_digits(d) && decimal_value(d) <= usize::MAX {
        Some(decimal_value(d) as usize)
    } else {
        None
    }
}

/// A longer run of digits is worth at least as much.
proof fn lemma_decimal_value_mono(d: Seq<char>, i: int)
    requires
        0 <= i <= d.len(),
        all_digits(d),
    ensures
        0 <= decimal_value(d.take(i)) <= decimal_value(d),
    decreases d.len(),
{
    if d.len() > 0 {
        let t = d.drop_last();
        assert forall|k: int| 0 <= k < t.len() implies '0' <= #[trigger] t[k] && t[k] <= '9' by {
            assert(t[k] == d[k]);
        }
        assert('0' <= d[d.len() - 1] && d[d.len() - 1] <= '9');
        if i < d.len() {
            assert(t.take(i) =~= d.take(i));
            lemma_decimal_value_mono(t, i);
        } else {
            assert(d.take(i) =~= d);
            lemma_decimal_value_mono(t, 0);
        }
    } else {
        assert(d.take(i) =~= d);
    }
}

/// Parses a decimal `usize`, as `str::parse` does.
pub fn parse_usize(s: &str) -> (r: Option<usize>)
    ensures
        r == parsed_usize(s@),
{
    let chars = str_chars(s);
    let start: usize = if chars.len() > 0 && chars[0] == '+' {
        1
    } else {
        0
    };
    let ghost d = if s@.len() > 0 && s@[0] == '+' {
        s@.skip(1)
    } else {
        s@
    };
    proof {
        assert(d =~= chars@.skip(start as int));
    }
    if start >= chars.len() {
        return None;
    }
    let mut value: usize = 0;
    let mut i: usize = start;
    proof {
        assert(d.take(0) =~= Seq::<char>::empty());
    }
    while i < chars.len()
        invariant
            start <= i <= chars@.len(),
            chars@ == s@,
            d == chars@.skip(start as int),
            d == if s@.len() > 0 && s@[0] == '+' {
                s@.skip(1)
            } else {
                s@
            },
            d.len() > 0,
            all_digits(d.take(i - start)),
            value == decimal_value(d.take(i - start)),
        decreases chars@.len() - i,
    {
        let c = chars[i];
        proof {
            assert(d[i - start] == c);
        }
        if c < '0' || c > '9' {
            proof {
                assert(!all_digits(d));
            }
            return None;
        }
        let digit = ((c as u32) - ('0' as u32)) as usize;
        proof {
            assert(d.take(i - start + 1).drop_last() =~= d.take(i - start));
            assert(d.take(i - start + 1).last() == c);
            assert(all_digits(d.take(i - start + 1)));
        }
        if value > (usize::MAX - digit) / 10 {
            proof {
                assert(decimal_value(d.take(i - start + 1)) == value * 10 + digit);
                assert(value * 10 + digit > usize::MAX) by (nonlinear_arith)
                    requires
                        value > (usize::MAX - digit) / 10,
                        digit <= 9,
                ;
                if all_digits(d) {
                    lemma_decimal_value_mono(d, i - start + 1);
                }
            }
            return None;
        }
        value = value * 10 + digit;
        i = i + 1;
    }
    proof {
        assert(d.take(i - start) =~= d);
    }
    Some(value)
}

/// The characters of `v` from `lo` up to `hi`.
fn chars_range(v: &Vec<char>, lo: usize, hi: usize) -> (r: String)
    requires
        lo <= hi <= v@.len(),
    ensures
        r@ == v@.subrange(lo as int, hi as int),
{
    let mut r = String::new();
    let mut i = lo;
    while i < hi
        invariant
            lo <= i <= hi <= v@.len(),
            r@ == v@.subrange(lo as int, i as int),
        decreases hi - i,
    {
        string_push(&mut r, v[i]);
        i = i + 1;
        proof {
            assert(r@ =~= v@.subrange(lo as int, i as int));
        }
    }
    r
}

/// `n - 1`, or 0 for 0.
pub open spec fn minus_one(n: int) -> int {
    if n > 0 {
        n - 1
    } else {
        0
    }
}

/// The 0-based line and character that `:LINE` or `:LINE:CHAR` asks for
/// (1-based, the character 1 when it is left out or not a number); `None`
/// for any other input.
pub open spec fn goto_target(input: Seq<char>) -> Option<(int, int)> {
    if input.len() == 0 || input[0] != ':' {
        None
    } else {
        let text = trimmed(input.skip(1));
        let first = prefix_before(text, ':');
        if text.len() == 0 {
            None
        } else {
            match parsed_usize(trimmed(first)) {
                None => None,
                Some(line) => {
                    let col = if first.len() < text.len() {
                        match parsed_usize(trimmed(text.skip(first.len() as int + 1))) {
                            Some(c) => c as int,
                            None => 1,
                        }
                    } else {
                        1
                    };
                    Some((minus_one(line as int), minus_one(col)))
                },
            }
        }
    }
}

/// Parses `:LINE` or `:LINE:CHAR` into a 0-based line and character.
pub fn parse_goto_line(input: &str) -> (r: Option<(usize, usize)>)
    ensures
        match goto_target(input@) {
            None => r is None,
            Some((l, c)) => r matches Some(p) && p.0 == l && p.1 == c,
        },
{
    let chars = str_chars(input);
    if chars.len() == 0 || chars[0] != ':' {
        return None;
    }
    let after = chars_range(&chars, 1, chars.len());
    proof {
        assert(after@ =~= input@.skip(1));
    }
    let text = trim(after.as_str());
    let tc = str_chars(text.as_str());
    if tc.len() == 0 {
        return None;
    }
    let mut i: usize = 0;
    while i < tc.len() && tc[i] != ':'
        invariant
            i <= tc@.len(),
            tc@ == text@,
            forall|k: int| 0 <= k < i ==> tc@[k] != ':',
        decreases tc@.len() - i,
    {
        i = i + 1;
    }
    proof {
        lemma_prefix_before(text@, ':', i as int);
    }
    let first = chars_range(&tc, 0, i);
    proof {
        assert(first@ =~= text@.take(i as int));
    }
    let line = match parse_usize(trim(first.as_str()).as_str()) {
        Some(l) => l,
        None => return None,
    };
    let char_col: usize = if i < tc.len() {
        let rest = chars_range(&tc, i + 1, tc.len());
        proof {
            assert(rest@ =~= text@.skip(i + 1));
        }
        match parse_usize(trim(rest.as_str()).as_str()) {
            Some(c) => c,
            None => 1,
        }
    } else {
        1
    };
    Some((line.saturating_sub(1), char_col.saturating_sub(1)))
}


/// The first position from `i` on whose starting column, in Unicode
/// widths, is at least `col`, or the end.
pub open spec fn cell_start_from(s: Seq<char>, col: int, i: int) -> int
    decreases s.len() - i,
{
    if 0 <= i < s.len() && (cells_width(s.take(i)) as int) < col {
        cell_start_from(s, col, i + 1)
    } else {
        i
    }
}

/// The end of the longest run of `t` from its start, at least `k` long,
/// that fits in `max` columns.
pub open spec fn cell_fit_from(t: Seq<char>, max: int, k: int) -> int
    decreases t.len() - k,
{
    if 0 <= k < t.len() && (cells_width(t.take(k + 1)) as int) <= max {
        cell_fit_from(t, max, k + 1)
    } else {
        k
    }
}

/// Character bounds of the preview window of `s` that starts at column
/// `col` and is at most `max` columns wide: a wide character straddling
/// `col` is left out.
pub open spec fn preview_window_bounds(s: Seq<char>, col: int, max: int) -> (int, int) {
    let si = cell_start_from(s, col, 0);
    if max == 0 || si == s.len() {
        (si, si)
    } else {
        (si, si + cell_fit_from(s.skip(si), max, 0))
    }
}

/// A horizontal run of a preview line: its text, its byte offsets, its
/// first column and its width.
#[derive(Debug, Clone, Copy, PartialEq, Eq)]
pub struct PreviewHorizontalWindow<'a> {
    pub visible: &'a str,
    pub start_byte: usize,
    pub end_byte: usize,
    pub start_col: usize,
    pub used_width: usize,
}

proof fn lemma_cells_take_step(s: Seq<char>, i: int)
    requires
        0 <= i < s.len(),
    ensures
        cells_width(s.take(i + 1)) == cells_width(s.take(i)) + cell_width(s[i]),
{
    assert(s.take(i + 1).drop_last() =~= s.take(i));
}

proof fn lemma_cells_take_le(s: Seq<char>, i: int)
    requires
        0 <= i <= s.len(),
    ensures
        cells_width(s.take(i)) <= cells_width(s),
{
    assert(s =~= s.take(i) + s.skip(i));
    lemma_cells_width_concat(s.take(i), s.skip(i));
}

proof fn lemma_cell_start_bounds(s: Seq<char>, col: int, i: int)
    requires
        0 <= i <= s.len(),
    ensures
        i <= cell_start_from(s, col, i) <= s.len(),
    decreases s.len() - i,
{
    if i < s.len() && (cells_width(s.take(i)) as int) < col {
        lemma_cell_start_bounds(s, col, i + 1);
    }
}

proof fn lemma_cell_fit_bounds(t: Seq<char>, max: int, k: int)
    requires
        0 <= k <= t.len(),
    ensures
        k <= cell_fit_from(t, max, k) <= t.len(),
    decreases t.len() - k,
{
    if k < t.len() && (cells_width(t.take(k + 1)) as int) <= max {
        lemma_cell_fit_bounds(t, max, k + 1);
    }
}

/// The window of `display` from column `start_col`, at most `max_width`
/// columns wide, in Unicode widths.
pub fn slice_preview_display_window(display: &str, start_col: usize, max_width: usize) -> (w: PreviewHorizontalWindow<'_>)
    requires
        fits_in_usize(display@),
    ensures
        ({
            let (si, ei) = preview_window_bounds(display@, start_col as int, max_width as int);
            &&& 0 <= si <= ei <= display@.len()
            &&& w.visible@ == display@.subrange(si, ei)
            &&& w.start_byte == byte_len(display@.take(si))
            &&& w.end_byte == byte_len(display@.take(ei))
            &&& w.start_col == cells_width(display@.take(si))
            &&& w.used_width == cells_width(display@.subrange(si, ei))
        }),
{
    let chars = str_chars(display);
    let n = chars.len();
    let ghost s = display@;
    proof {
        lemma_cells_width_le(s);
        assert(s.take(0) =~= Seq::<char>::empty());
    }
    let mut i: usize = 0;
    let mut col: usize = 0;
    let mut b: usize = 0;
    while i < n && col < start_col
        invariant
            i <= n,
            n == s.len(),
            chars@ == s,
            col == cells_width(s.take(i as int)),
            b == byte_len(s.take(i as int)),
            cell_start_from(s, start_col as int, i as int) == cell_start_from(s, start_col as int, 0),
            cells_width(s) <= usize::MAX,
            byte_len(s) <= usize::MAX,
        decreases n - i,
    {
        let c = chars[i];
        proof {
            lemma_cells_take_step(s, i as int);
            lemma_cells_take_le(s, i + 1);
            crate::utf8::lemma_byte_len_take_step(s, i as int);
            lemma_byte_len_take_mono(s, i + 1, n as int);
        }
        let cw: usize = match unicode_width(c) {
            Some(x) => x,
            None => 0,
        };
        col = col + cw;
        b = b + crate::utf8::char_len_utf8(c);
        i = i + 1;
    }
    let ghost si = i as int;
    proof {
        assert(cell_start_from(s, start_col as int, si) == si);
    }
    if max_width == 0 || i == n {
        let visible = substr(display, b, b, Ghost(si), Ghost(si));
        proof {
            assert(s.subrange(si, si) =~= Seq::<char>::empty());
        }
        return PreviewHorizontalWindow { visible, start_byte: b, end_byte: b, start_col: col, used_width: 0 };
    }
    let ghost t = s.skip(si);
    let mut k: usize = 0;
    let mut used: usize = 0;
    let mut e: usize = b;
    proof {
        assert(t.take(0) =~= Seq::<char>::empty());
        assert(s =~= s.take(si) + t);
        lemma_cells_width_concat(s.take(si), t);
    }
    proof {
        assert(t.len() == n - i);
    }
    while i + k < n
        invariant
            si == i,
            i + k <= n,
            n == s.len(),
            t.len() == n - i,
            chars@ == s,
            t == s.skip(si),
            used == cells_width(t.take(k as int)),
            used <= max_width,
            e == byte_len(s.take(i + k)),
            cell_fit_from(t, max_width as int, k as int) == cell_fit_from(t, max_width as int, 0),
            cells_width(t) <= usize::MAX,
            byte_len(s) <= usize::MAX,
        ensures
            i + k <= n,
            t.len() == n - i,
            used == cells_width(t.take(k as int)),
            e == byte_len(s.take(i + k)),
            cell_fit_from(t, max_width as int, k as int) == cell_fit_from(t, max_width as int, 0),
            cell_fit_from(t, max_width as int, k as int) == k,
        decreases n - i - k,
    {
        let c = chars[i + k];
        proof {
            assert(t[k as int] == c);
            lemma_cells_take_step(t, k as int);
            lemma_cells_take_le(t, k + 1);
        }
        let cw: usize = match unicode_width(c) {
            Some(x) => x,
            None => 0,
        };
        if cw > max_width - used {
            proof {
                assert((cells_width(t.take(k + 1)) as int) > max_width);
            }
            break;
        }
        proof {
            crate::utf8::lemma_byte_len_take_step(s, i + k);
            lemma_byte_len_take_mono(s, i + k + 1, n as int);
        }
        used = used + cw;
        e = e + crate::utf8::char_len_utf8(c);
        k = k + 1;
    }
    proof {
        assert(t.take(k as int) =~= s.subrange(si, i + k));
        lemma_cell_start_bounds(s, start_col as int, 0);
    }
    let visible = substr(display, b, e, Ghost(si), Ghost((i + k) as int));
    PreviewHorizontalWindow { visible, start_byte: b, end_byte: e, start_col: col, used_width: used }
}

/// Where the jump marker goes on a numbered preview line: the column of
/// the target character (the last one when the target lies past the
/// code), after the number part and its `"| "`, and that character's width
/// (at least 1); column after the bar and width 1 when the line has no
/// code.
pub open spec fn jump_marker(line: Seq<char>, target: int) -> Option<(int, int)> {
    match numbered_parts(line) {
        None => None,
        Some(parts) => {
            let pw: int = str_width(parts.0) as int + 2;
            let code = parts.1;
            if code.len() == 0 {
                Some((pw, 1))
            } else {
                let k = if target < code.len() - 1 { target } else { code.len() - 1 };
                let cw = match unicode_char_width(code[k]) {
                    Some(w) => if w == 0 { 1 } else { w as int },
                    None => 1,
                };
                Some((pw + str_width(code.take(k)) as int, cw))
            }
        },
    }
}


/// The first `c` in `s` is found when `s[i]` is one.
proof fn lemma_first_index(s: Seq<char>, c: char, i: int)
    requires
        0 <= i < s.len(),
        s[i] == c,
    ensures
        first_index_of(s, c) matches Some(k) && 0 <= k <= i && s[k] == c && forall|j: int| 0 <= j < k ==> s[j] != c,
    decreases i,
{
    if exists|j: int| 0 <= j < i && s[j] == c {
        let j = choose|j: int| 0 <= j < i && s[j] == c;
        lemma_first_index(s, c, j);
    } else {
        assert(0 <= i < s.len() && s[i] == c && forall|j: int| 0 <= j < i ==> s[j] != c);
        let k = choose|k: int| 0 <= k < s.len() && s[k] == c && forall|j: int| 0 <= j < k ==> s[j] != c;
        if k < i {
            assert(s[k] == c);
        }
        if k > i {
            assert(s[i] != c);
        }
    }
}

/// The number part and the code of a numbered line are no wider than it.
proof fn lemma_numbered_parts_width(line: Seq<char>)
    ensures
        numbered_parts(line) matches Some(p) ==> str_width(p.0) + str_width(p.1) <= str_width(line),
{
    if exists|i: int| 0 <= i < line.len() && line[i] == '|' {
        let i = choose|i: int| 0 <= i < line.len() && line[i] == '|';
        lemma_first_index(line, '|', i);
        let k = first_index_of(line, '|')->0;
        let right = line.skip(k + 1);
        assert(line =~= line.take(k) + seq!['|'] + right);
        lemma_width_concat(line.take(k) + seq!['|'], right);
        lemma_width_concat(line.take(k), seq!['|']);
        if right.len() > 0 && right[0] == ' ' {
            assert(right =~= seq![' '] + right.skip(1));
            lemma_width_concat(seq![' '], right.skip(1));
        }
    }
}

/// The column and width of the jump marker on a numbered preview line.
pub fn jump_marker_column(line: &str, target_char_col: usize) -> (r: Option<(usize, usize)>)
    requires
        str_width(line@) + 2 <= usize::MAX,
        byte_len(line@) <= usize::MAX,
    ensures
        match jump_marker(line@, target_char_col as int) {
            None => r is None,
            Some(m) => r matches Some(x) && x.0 == m.0 && x.1 == m.1,
        },
{
    let (prefix, code) = match split_numbered_preview_line(line) {
        Some(p) => p,
        None => return None,
    };
    proof {
        lemma_numbered_parts_width(line@);
    }
    let pw = display_width(prefix) + 2;
    let chars = str_chars(code);
    if chars.len() == 0 {
        return Some((pw, 1));
    }
    let k = if target_char_col < chars.len() - 1 { target_char_col } else { chars.len() - 1 };
    let mut w: usize = 0;
    let mut i: usize = 0;
    while i < k
        invariant
            i <= k < chars@.len(),
            chars@ == code@,
            w == str_width(code@.take(i as int)),
            pw == str_width(prefix@) + 2,
            str_width(prefix@) + str_width(code@) + 2 <= usize::MAX,
        decreases k - i,
    {
        proof {
            lemma_width_take_step(code@, i as int);
            lemma_width_take(code@, i + 1, code@.len() as int);
        }
        w = w + char_display_width(chars[i]);
        i = i + 1;
    }
    proof {
        lemma_width_take(code@, k as int, code@.len() as int);
    }
    let cw = match unicode_width(chars[k]) {
        Some(x) => if x == 0 { 1 } else { x },
        None => 1,
    };
    Some((pw + w, cw))
}


/// A preview line as it is highlighted: its code (the line itself when it
/// has no number part) and the number of bytes cut off before the code.
pub open spec fn code_line(line: Seq<char>) -> (Seq<char>, int) {
    match numbered_parts(line) {
        Some(p) => (p.1, byte_len(line) - byte_len(p.1)),
        None => (line, 0),
    }
}

/// The code of a jump or reference preview, for highlighting: every line
/// after the header, cut to its code; and for each, the preview line it
/// came from and the bytes cut before its code.
pub fn preview_code_lines(lines: &Vec<String>) -> (r: (Vec<String>, Vec<(usize, usize)>))
    requires
        forall|i: int| 0 <= i < lines@.len() ==> byte_len((#[trigger] lines@[i])@) <= usize::MAX,
    ensures
        r.0@.len() == r.1@.len(),
        r.0@.len() == if lines@.len() > 0 { lines@.len() - 1 } else { 0 },
        forall|k: int| 0 <= k < r.0@.len() ==> {
            &&& (#[trigger] r.0@[k])@ == code_line(lines@[k + 1]@).0
            &&& r.1@[k].0 == k + 1
            &&& r.1@[k].1 == code_line(lines@[k + 1]@).1
        },
{
    let mut code: Vec<String> = Vec::new();
    let mut map: Vec<(usize, usize)> = Vec::new();
    let mut i: usize = 1;
    while i < lines.len()
        invariant
            1 <= i,
            lines@.len() > 0 ==> i <= lines@.len(),
            lines@.len() == 0 ==> code@.len() == 0,
            code@.len() == map@.len(),
            lines@.len() > 0 ==> code@.len() == i - 1,
            forall|j: int| 0 <= j < lines@.len() ==> byte_len((#[trigger] lines@[j])@) <= usize::MAX,
            forall|k: int| 0 <= k < code@.len() ==> {
                &&& (#[trigger] code@[k])@ == code_line(lines@[k + 1]@).0
                &&& map@[k].0 == k + 1
                &&& map@[k].1 == code_line(lines@[k + 1]@).1
            },
        decreases lines@.len() - i,
    {
        let line = lines[i].as_str();
        match split_numbered_preview_line(line) {
            Some((_, c)) => {
                let total = line.len();
                let cut = c.len();
                proof {
                    let k = choose|k: int| 0 <= k < line@.len() && line@[k] == '|' && forall|j: int| 0 <= j < k ==> line@[j] != '|';
                    lemma_suffix_byte_len(line@, c@);
                }
                code.push(owned(c));
                map.push((i, total - cut));
            },
            None => {
                code.push(line.to_string());
                map.push((i, 0));
            },
        }
        i = i + 1;
    }
    (code, map)
}

/// A suffix takes no more bytes than the whole.
proof fn lemma_suffix_byte_len(line: Seq<char>, code: Seq<char>)
    requires
        numbered_parts(line) matches Some(p) && p.1 == code,
    ensures
        byte_len(code) <= byte_len(line),
{
    let i = choose|i: int| 0 <= i < line.len() && line[i] == '|';
    lemma_first_index(line, '|', i);
    let k = first_index_of(line, '|')->0;
    let right = line.skip(k + 1);
    assert(line =~= line.take(k + 1) + right);
    lemma_encode_concat(line.take(k + 1), right);
    if right.len() > 0 && right[0] == ' ' {
        assert(right =~= seq![' '] + right.skip(1));
        lemma_encode_concat(seq![' '], right.skip(1));
    }
}

/// The highlighted spans of code line `k`, moved onto the preview line it
/// came from: each preview line with its spans shifted past the cut bytes.
pub open spec fn spans_onto_preview_spec(
    raw: Seq<(usize, Vec<HighlightSpan>)>,
    map: Seq<(usize, usize)>,
) -> Seq<(int, Seq<(int, int, Seq<char>)>)>
    decreases raw.len(),
{
    if raw.len() == 0 {
        Seq::empty()
    } else {
        let prev = spans_onto_preview_spec(raw.drop_last(), map);
        let (k, spans) = raw.last();
        if (k as int) < map.len() {
            let (line, cut) = map[k as int];
            prev.push((
                line as int,
                spans@.map_values(|sp: HighlightSpan| (sp.start + cut, sp.end + cut, sp.capture_name@)),
            ))
        } else {
            prev
        }
    }
}

/// The views of preview-line spans.
pub open spec fn line_span_views(v: Seq<(usize, Vec<HighlightSpan>)>) -> Seq<(int, Seq<(int, int, Seq<char>)>)> {
    v.map_values(|e: (usize, Vec<HighlightSpan>)| (e.0 as int, span_views(e.1@)))
}

/// Moves the spans highlighted on code lines onto the preview lines they
/// came from, shifted past the cut number parts; code lines with no
/// preview line are dropped.
pub fn spans_onto_preview(raw: &Vec<(usize, Vec<HighlightSpan>)>, map: &Vec<(usize, usize)>) -> (r: Vec<(usize, Vec<HighlightSpan>)>)
    requires
        forall|i: int, j: int|
            0 <= i < raw@.len() && 0 <= j < raw@[i].1@.len() && (raw@[i].0 as int) < map@.len() ==> {
                &&& (#[trigger] raw@[i].1@[j]).end + map@[raw@[i].0 as int].1 <= usize::MAX
                &&& raw@[i].1@[j].start + map@[raw@[i].0 as int].1 <= usize::MAX
            },
    ensures
        line_span_views(r@) == spans_onto_preview_spec(raw@, map@),
{
    let mut r: Vec<(usize, Vec<HighlightSpan>)> = Vec::new();
    let mut i: usize = 0;
    while i < raw.len()
        invariant
            i <= raw@.len(),
            line_span_views(r@) == spans_onto_preview_spec(raw@.take(i as int), map@),
            forall|a: int, j: int|
                0 <= a < raw@.len() && 0 <= j < raw@[a].1@.len() && (raw@[a].0 as int) < map@.len() ==> {
                    &&& (#[trigger] raw@[a].1@[j]).end + map@[raw@[a].0 as int].1 <= usize::MAX
                    &&& raw@[a].1@[j].start + map@[raw@[a].0 as int].1 <= usize::MAX
                },
        decreases raw@.len() - i,
    {
        proof {
            assert(raw@.take(i + 1).drop_last() =~= raw@.take(i as int));
            assert(raw@.take(i + 1).last() == raw@[i as int]);
        }
        let k = raw[i].0;
        if k < map.len() {
            let (line, cut) = map[k];
            let spans = &raw[i].1;
            let mut moved: Vec<HighlightSpan> = Vec::new();
            let mut j: usize = 0;
            while j < spans.len()
                invariant
                    j <= spans@.len(),
                    spans == raw@[i as int].1,
                    k == raw@[i as int].0,
                    (k as int) < map@.len(),
                    cut == map@[k as int].1,
                    span_views(moved@) == spans@.take(j as int).map_values(
                        |sp: HighlightSpan| (sp.start + cut, sp.end + cut, sp.capture_name@),
                    ),
                    forall|a: int, b: int|
                        0 <= a < raw@.len() && 0 <= b < raw@[a].1@.len() && (raw@[a].0 as int) < map@.len() ==> {
                            &&& (#[trigger] raw@[a].1@[b]).end + map@[raw@[a].0 as int].1 <= usize::MAX
                            &&& raw@[a].1@[b].start + map@[raw@[a].0 as int].1 <= usize::MAX
                        },
                    i < raw@.len(),
                decreases spans@.len() - j,
            {
                proof {
                    assert(spans@[j as int] == raw@[i as int].1@[j as int]);
                }
                let sp = &spans[j];
                let ghost before = moved@;
                moved.push(HighlightSpan { start: sp.start + cut, end: sp.end + cut, capture_name: sp.capture_name.clone() });
                proof {
                    let f = |sp: HighlightSpan| (sp.start + cut, sp.end + cut, sp.capture_name@);
                    assert(span_views(moved@) =~= span_views(before).push(f(spans@[j as int])));
                    assert(spans@.take(j + 1).map_values(f) =~= spans@.take(j as int).map_values(f).push(f(spans@[j as int])));
                }
                j = j + 1;
            }
            proof {
                assert(spans@.take(j as int) =~= spans@);
            }
            let ghost before = r@;
            r.push((line, moved));
            proof {
                assert(line_span_views(r@) =~= line_span_views(before).push((line as int, span_views(moved@))));
            }
        }
        i = i + 1;
    }
    proof {
        assert(raw@.take(i as int) =~= raw@);
    }
    r
}

} // verus!
