//! String building blocks: decimal numbers, lines, joins and prefixes.
use vstd::prelude::*;
use vstd::string::StringExecFns;

use crate::std_calls::{char_is_whitespace, is_unicode_whitespace, string_push};
use crate::utf8::str_chars;

verus! {

/// The decimal digit character for `d < 10`.
pub open spec fn digit_char(d: nat) -> char {
    (('0' as u32) + d) as char
}

/// Decimal representation of `n`, without leading zeros ("0" for zero).
pub open spec fn decimal_chars(n: nat) -> Seq<char>
    decreases n,
{
    if n < 10 {
        seq![digit_char(n)]
    } else {
        decimal_chars(n / 10).push(digit_char(n % 10))
    }
}

/// The pieces of `s` between `sep` characters, in order (there is always at
/// least one piece).
pub open spec fn split_pieces(s: Seq<char>, sep: char) -> Seq<Seq<char>>
    decreases s.len(),
{
    if s.len() == 0 {
        seq![Seq::empty()]
    } else {
        let prev = split_pieces(s.drop_last(), sep);
        if s.last() == sep {
            prev.push(Seq::empty())
        } else {
            prev.update(prev.len() - 1, prev.last().push(s.last()))
        }
    }
}

/// `piece` without one trailing carriage return.
pub open spec fn strip_cr(piece: Seq<char>) -> Seq<char> {
    if piece.len() > 0 && piece.last() == '\r' {
        piece.drop_last()
    } else {
        piece
    }
}

/// The lines of `s` (`str::lines`): split at `\n`, a `\r` right before a
/// `\n` removed, and no empty line after a final `\n`.
pub open spec fn text_lines(s: Seq<char>) -> Seq<Seq<char>> {
    let pieces = split_pieces(s, '\n');
    let n = pieces.len();
    let body = Seq::new((n - 1) as nat, |i: int| strip_cr(pieces[i]));
    if pieces.last().len() == 0 {
        body
    } else {
        body.push(pieces.last())
    }
}

/// The items of `v` with `sep` between consecutive items.
pub open spec fn join_seqs(v: Seq<Seq<char>>, sep: Seq<char>) -> Seq<char>
    decreases v.len(),
{
    if v.len() == 0 {
        Seq::empty()
    } else if v.len() == 1 {
        v[0]
    } else {
        join_seqs(v.drop_last(), sep) + sep + v.last()
    }
}

/// Characters of `s` before the first `c` (all of `s` when there is none).
pub open spec fn prefix_before(s: Seq<char>, c: char) -> Seq<char> {
    split_pieces(s, c)[0]
}

/// Views of a vector of strings.
pub open spec fn string_views(v: Seq<String>) -> Seq<Seq<char>> {
    v.map_values(|t: String| t@)
}

/// An owned copy of `s`.
pub fn owned(s: &str) -> (r: String)
    ensures
        r@ == s@,
{
    s.to_owned()
}

/// Appends `t` to `s`.
pub fn push_str(s: &mut String, t: &str)
    ensures
        final(s)@ == old(s)@ + t@,
{
    s.append(t);
}

/// Whether `a` and `b` hold the same characters.
pub fn str_eq(a: &str, b: &str) -> (r: bool)
    ensures
        r == (a@ == b@),
{
    let x = str_chars(a);
    let y = str_chars(b);
    if x.len() != y.len() {
        return false;
    }
    let mut i: usize = 0;
    while i < x.len()
        invariant
            i <= x@.len(),
            x@.len() == y@.len(),
            x@ == a@,
            y@ == b@,
            forall|k: int| 0 <= k < i ==> x@[k] == y@[k],
        decreases x@.len() - i,
    {
        if x[i] != y[i] {
            return false;
        }
        i = i + 1;
    }
    proof {
        assert(x@ =~= y@);
    }
    true
}

/// Every character of `s` is whitespace (`s.trim()` is empty).
pub open spec fn all_whitespace(s: Seq<char>) -> bool {
    forall|i: int| 0 <= i < s.len() ==> is_unicode_whitespace(#[trigger] s[i])
}

/// Whether `s` holds only whitespace (`s.trim().is_empty()`).
pub fn is_blank(s: &str) -> (r: bool)
    ensures
        r == all_whitespace(s@),
{
    let chars = str_chars(s);
    let mut i: usize = 0;
    while i < chars.len()
        invariant
            i <= chars@.len(),
            chars@ == s@,
            forall|k: int| 0 <= k < i ==> is_unicode_whitespace(#[trigger] s@[k]),
        decreases chars@.len() - i,
    {
        if !char_is_whitespace(chars[i]) {
            return false;
        }
        i = i + 1;
    }
    true
}

/// `s` without leading whitespace.
pub open spec fn trim_start_ws(s: Seq<char>) -> Seq<char>
    decreases s.len(),
{
    if s.len() > 0 && is_unicode_whitespace(s[0]) {
        trim_start_ws(s.skip(1))
    } else {
        s
    }
}

/// `s` without trailing whitespace.
pub open spec fn trim_end_ws(s: Seq<char>) -> Seq<char>
    decreases s.len(),
{
    if s.len() > 0 && is_unicode_whitespace(s.last()) {
        trim_end_ws(s.drop_last())
    } else {
        s
    }
}

/// `s` without leading and trailing whitespace (`str::trim`).
pub open spec fn trimmed(s: Seq<char>) -> Seq<char> {
    trim_end_ws(trim_start_ws(s))
}

/// A text with no whitespace at either end is its own trim.
pub proof fn lemma_trimmed_whole(s: Seq<char>)
    requires
        s.len() == 0 || (!is_unicode_whitespace(s[0]) && !is_unicode_whitespace(s.last())),
    ensures
        trimmed(s) == s,
{
    lemma_trim_start_at(s, 0);
    assert(s.skip(0) =~= s);
    lemma_trim_end_at(s, s.len() as int);
    assert(s.take(s.len() as int) =~= s);
}

proof fn lemma_trim_start_at(s: Seq<char>, a: int)
    requires
        0 <= a <= s.len(),
        forall|k: int| 0 <= k < a ==> is_unicode_whitespace(#[trigger] s[k]),
        a == s.len() || !is_unicode_whitespace(s[a]),
    ensures
        trim_start_ws(s) == s.skip(a),
    decreases a,
{
    if a > 0 {
        assert forall|k: int| 0 <= k < a - 1 implies is_unicode_whitespace(#[trigger] s.skip(1)[k]) by {
            assert(s.skip(1)[k] == s[k + 1]);
        }
        if a < s.len() {
            assert(s.skip(1)[a - 1] == s[a]);
        }
        lemma_trim_start_at(s.skip(1), a - 1);
        assert(s.skip(1).skip(a - 1) =~= s.skip(a));
    } else {
        assert(s.skip(0) =~= s);
    }
}

proof fn lemma_trim_end_at(s: Seq<char>, b: int)
    requires
        0 <= b <= s.len(),
        forall|k: int| b <= k < s.len() ==> is_unicode_whitespace(#[trigger] s[k]),
        b == 0 || !is_unicode_whitespace(s[b - 1]),
    ensures
        trim_end_ws(s) == s.take(b),
    decreases s.len(),
{
    if s.len() > b {
        lemma_trim_end_at(s.drop_last(), b);
        assert(s.drop_last().take(b) =~= s.take(b));
    } else {
        assert(s.take(b) =~= s);
    }
}

/// `s` without leading and trailing whitespace (`str::trim`).
pub fn trim(s: &str) -> (r: String)
    ensures
        r@ == trimmed(s@),
{
    let chars = str_chars(s);
    let mut a: usize = 0;
    while a < chars.len() && char_is_whitespace(chars[a])
        invariant
            a <= chars@.len(),
            chars@ == s@,
            forall|k: int| 0 <= k < a ==> is_unicode_whitespace(#[trigger] s@[k]),
        decreases chars@.len() - a,
    {
        a = a + 1;
    }
    proof {
        lemma_trim_start_at(s@, a as int);
    }
    let ghost t = s@.skip(a as int);
    let mut b: usize = chars.len();
    while b > a && char_is_whitespace(chars[b - 1])
        invariant
            a <= b <= chars@.len(),
            chars@ == s@,
            t == s@.skip(a as int),
            forall|k: int| b <= k < chars@.len() ==> is_unicode_whitespace(#[trigger] s@[k]),
        decreases b,
    {
        b = b - 1;
    }
    proof {
        assert forall|k: int| b - a <= k < t.len() implies is_unicode_whitespace(#[trigger] t[k]) by {
            assert(t[k] == s@[k + a]);
        }
        if b > a {
            assert(t[b - a - 1] == s@[b - 1]);
        }
        lemma_trim_end_at(t, b - a);
    }
    let mut kept: Vec<char> = Vec::new();
    let mut k = a;
    while k < b
        invariant
            a <= k <= b <= chars@.len(),
            chars@ == s@,
            kept@ == s@.subrange(a as int, k as int),
        decreases b - k,
    {
        kept.push(chars[k]);
        k = k + 1;
        proof {
            assert(kept@ =~= s@.subrange(a as int, k as int));
        }
    }
    proof {
        assert(t.take(b - a) =~= s@.subrange(a as int, b as int));
    }
    string_from_chars(&kept)
}

/// `s` begins with `p`.
pub open spec fn has_prefix(s: Seq<char>, p: Seq<char>) -> bool {
    p.len() <= s.len() && s.take(p.len() as int) == p
}

/// Whether `s` begins with `p` (`str::starts_with`).
pub fn starts_with(s: &str, p: &str) -> (r: bool)
    ensures
        r == has_prefix(s@, p@),
{
    let x = str_chars(s);
    let y = str_chars(p);
    if y.len() > x.len() {
        return false;
    }
    let mut i: usize = 0;
    while i < y.len()
        invariant
            i <= y@.len() <= x@.len(),
            x@ == s@,
            y@ == p@,
            forall|k: int| 0 <= k < i ==> x@[k] == y@[k],
        decreases y@.len() - i,
    {
        if x[i] != y[i] {
            proof {
                assert(s@.take(p@.len() as int)[i as int] != p@[i as int]);
            }
            return false;
        }
        i = i + 1;
    }
    proof {
        assert(s@.take(p@.len() as int) =~= p@);
    }
    true
}

/// A string holding the characters of `v`.
pub fn string_from_chars(v: &Vec<char>) -> (r: String)
    ensures
        r@ == v@,
{
    let mut r = String::new();
    let mut i: usize = 0;
    while i < v.len()
        invariant
            i <= v@.len(),
            r@ == v@.take(i as int),
        decreases v@.len() - i,
    {
        string_push(&mut r, v[i]);
        i = i + 1;
        proof {
            assert(r@ =~= v@.take(i as int));
        }
    }
    proof {
        assert(v@.take(i as int) =~= v@);
    }
    r
}

/// The digit character of `d < 10`.
fn digit_of(d: u64) -> (ch: char)
    requires
        d < 10,
    ensures
        ch == digit_char(d as nat),
{
    if d == 0 {
        '0'
    } else if d == 1 {
        '1'
    } else if d == 2 {
        '2'
    } else if d == 3 {
        '3'
    } else if d == 4 {
        '4'
    } else if d == 5 {
        '5'
    } else if d == 6 {
        '6'
    } else if d == 7 {
        '7'
    } else if d == 8 {
        '8'
    } else {
        '9'
    }
}

/// Decimal digits of `n`.
pub fn u64_to_decimal(n: u64) -> (r: String)
    ensures
        r@ == decimal_chars(n as nat),
{
    let mut digits: Vec<char> = Vec::new();
    let mut rest = n;
    // Digits are collected least significant first.
    while rest >= 10
        invariant
            decimal_chars(n as nat) == decimal_chars(rest as nat) + digits@.reverse(),
        decreases rest,
    {
        let ch = digit_of(rest % 10);
        let ghost before = digits@;
        digits.push(ch);
        proof {
            assert(digits@.reverse() =~= seq![ch] + before.reverse());
            assert(decimal_chars(rest as nat) == decimal_chars((rest / 10) as nat).push(ch));
            assert(decimal_chars(n as nat) =~= decimal_chars((rest / 10) as nat)
                + digits@.reverse());
        }
        rest = rest / 10;
    }
    let ch = digit_of(rest);
    let ghost before = digits@;
    digits.push(ch);
    proof {
        assert(digits@.reverse() =~= seq![ch] + before.reverse());
        assert(decimal_chars(n as nat) =~= digits@.reverse());
    }
    let mut r = String::new();
    let mut i = digits.len();
    let ghost rev = digits@.reverse();
    while i > 0
        invariant
            i <= digits@.len(),
            rev == digits@.reverse(),
            r@ == rev.take(digits@.len() - i),
        decreases i,
    {
        i = i - 1;
        string_push(&mut r, digits[i]);
        proof {
            assert(rev[digits@.len() - i - 1] == digits@[i as int]);
            assert(r@ =~= rev.take(digits@.len() - i));
        }
    }
    proof {
        assert(rev.take(digits@.len() as int) =~= rev);
    }
    r
}

/// The lines of `s` (`str::lines`).
pub fn str_lines(s: &str) -> (r: Vec<String>)
    ensures
        string_views(r@) == text_lines(s@),
{
    let chars = str_chars(s);
    let mut out: Vec<String> = Vec::new();
    let mut current: Vec<char> = Vec::new();
    let mut i: usize = 0;
    proof {
        assert(chars@.take(0) =~= Seq::<char>::empty());
        assert(current@ =~= Seq::<char>::empty());
        assert(string_views(out@) =~= Seq::<Seq<char>>::empty());
    }
    while i < chars.len()
        invariant
            i <= chars@.len(),
            chars@ == s@,
            ({
                let pieces = split_pieces(chars@.take(i as int), '\n');
                &&& pieces.len() >= 1
                &&& string_views(out@) == Seq::new(
                    (pieces.len() - 1) as nat,
                    |k: int| strip_cr(pieces[k]),
                )
                &&& current@ == pieces.last()
            }),
        decreases chars@.len() - i,
    {
        let c = chars[i];
        let ghost pieces = split_pieces(chars@.take(i as int), '\n');
        proof {
            assert(chars@.take(i + 1).drop_last() =~= chars@.take(i as int));
            assert(chars@.take(i + 1).last() == c);
        }
        if c == '\n' {
            let ghost piece = current@;
            if current.len() > 0 && current[current.len() - 1] == '\r' {
                current.pop();
            }
            proof {
                assert(current@ == strip_cr(piece));
            }
            let line = string_from_chars(&current);
            let ghost before = out@;
            let ghost line_view = line@;
            out.push(line);
            current = Vec::new();
            proof {
                assert(string_views(out@) =~= string_views(before).push(line_view));
                let np = split_pieces(chars@.take(i + 1), '\n');
                assert(np == pieces.push(Seq::empty()));
                assert(string_views(out@) =~= Seq::new(
                    (np.len() - 1) as nat,
                    |k: int| strip_cr(np[k]),
                ));
                assert(current@ =~= np.last());
            }
        } else {
            current.push(c);
            proof {
                let np = split_pieces(chars@.take(i + 1), '\n');
                assert(np == pieces.update(pieces.len() - 1, pieces.last().push(c)));
                assert(string_views(out@) =~= Seq::new(
                    (np.len() - 1) as nat,
                    |k: int| strip_cr(np[k]),
                ));
            }
        }
        i = i + 1;
    }
    proof {
        assert(chars@.take(i as int) =~= chars@);
    }
    if current.len() > 0 {
        let line = string_from_chars(&current);
        let ghost before = out@;
        out.push(line);
        proof {
            let pieces = split_pieces(s@, '\n');
            assert(string_views(out@) =~= Seq::new(
                (pieces.len() - 1) as nat,
                |k: int| strip_cr(pieces[k]),
            ).push(pieces.last()));
        }
    }
    out
}

/// The strings of `v` joined with `sep` between them.
pub fn join(v: &Vec<String>, sep: &str) -> (r: String)
    ensures
        r@ == join_seqs(string_views(v@), sep@),
{
    let mut r = String::new();
    let mut i: usize = 0;
    proof {
        assert(string_views(v@).take(0) =~= Seq::<Seq<char>>::empty());
    }
    while i < v.len()
        invariant
            i <= v@.len(),
            r@ == join_seqs(string_views(v@).take(i as int), sep@),
        decreases v@.len() - i,
    {
        let ghost views = string_views(v@);
        proof {
            assert(views.take(i + 1).drop_last() =~= views.take(i as int));
            assert(views.take(i + 1).last() == v@[i as int]@);
        }
        if i > 0 {
            push_str(&mut r, sep);
        }
        push_str(&mut r, v[i].as_str());
        proof {
            if i == 0 {
                assert(views.take(1) =~= seq![v@[0]@]);
                assert(r@ =~= v@[0]@);
            }
        }
        i = i + 1;
    }
    proof {
        assert(string_views(v@).take(i as int) =~= string_views(v@));
    }
    r
}

/// The characters of `s` before the first `c` (`str::split(c).next()`).
pub fn prefix_before_char(s: &str, c: char) -> (r: String)
    ensures
        r@ == prefix_before(s@, c),
{
    let chars = str_chars(s);
    let mut i: usize = 0;
    while i < chars.len() && chars[i] != c
        invariant
            i <= chars@.len(),
            chars@ == s@,
            forall|k: int| 0 <= k < i ==> chars@[k] != c,
        decreases chars@.len() - i,
    {
        i = i + 1;
    }
    let mut prefix: Vec<char> = Vec::new();
    let mut k: usize = 0;
    while k < i
        invariant
            k <= i <= chars@.len(),
            prefix@ == chars@.take(k as int),
        decreases i - k,
    {
        prefix.push(chars[k]);
        k = k + 1;
        proof {
            assert(prefix@ =~= chars@.take(k as int));
        }
    }
    proof {
        lemma_prefix_before(s@, c, i as int);
    }
    string_from_chars(&prefix)
}

/// The first piece of a split ends at the first separator.
pub proof fn lemma_prefix_before(s: Seq<char>, c: char, i: int)
    requires
        0 <= i <= s.len(),
        i == s.len() || s[i] == c,
        forall|k: int| 0 <= k < i ==> s[k] != c,
    ensures
        prefix_before(s, c) == s.take(i),
    decreases s.len(),
{
    lemma_first_piece(s, c, i);
}

proof fn lemma_first_piece(s: Seq<char>, c: char, i: int)
    requires
        0 <= i <= s.len(),
        i == s.len() || s[i] == c,
        forall|k: int| 0 <= k < i ==> s[k] != c,
    ensures
        split_pieces(s, c)[0] == s.take(i),
        split_pieces(s, c).len() >= 1,
    decreases s.len(),
{
    if i == s.len() {
        lemma_pieces_no_sep(s, c);
        assert(s.take(i) =~= s);
    } else {
        let t = s.drop_last();
        if i < t.len() {
            lemma_first_piece(t, c, i);
            lemma_pieces_count(t, c, i);
            assert(t.take(i) =~= s.take(i));
        } else {
            lemma_pieces_no_sep(t, c);
            assert(t =~= s.take(i));
        }
    }
}

/// Without a separator there is a single piece: the whole sequence.
proof fn lemma_pieces_no_sep(s: Seq<char>, c: char)
    requires
        forall|k: int| 0 <= k < s.len() ==> s[k] != c,
    ensures
        split_pieces(s, c) == seq![s],
    decreases s.len(),
{
    if s.len() == 0 {
        assert(s =~= Seq::<char>::empty());
    } else {
        lemma_pieces_no_sep(s.drop_last(), c);
        assert(s.drop_last().push(s.last()) =~= s);
        assert(split_pieces(s, c) =~= seq![s]);
    }
}

proof fn lemma_pieces_nonempty(s: Seq<char>, c: char)
    ensures
        split_pieces(s, c).len() >= 1,
    decreases s.len(),
{
    if s.len() > 0 {
        lemma_pieces_nonempty(s.drop_last(), c);
    }
}

/// A sequence with a separator in it splits into at least two pieces.
proof fn lemma_pieces_count(s: Seq<char>, c: char, i: int)
    requires
        0 <= i < s.len(),
        s[i] == c,
    ensures
        split_pieces(s, c).len() >= 2,
    decreases s.len(),
{
    lemma_pieces_nonempty(s, c);
    if i < s.len() - 1 {
        lemma_pieces_count(s.drop_last(), c, i);
    } else {
        lemma_pieces_nonempty(s.drop_last(), c);
    }
}

/// `s` without every trailing `/`.
pub open spec fn trim_end_slashes(s: Seq<char>) -> Seq<char>
    decreases s.len(),
{
    if s.len() > 0 && s.last() == '/' {
        trim_end_slashes(s.drop_last())
    } else {
        s
    }
}

/// `s` without its trailing slashes.
pub fn trim_trailing_slashes(s: &str) -> (r: String)
    ensures
        r@ == trim_end_slashes(s@),
{
    let chars = str_chars(s);
    let mut end = chars.len();
    proof {
        assert(s@.take(end as int) =~= s@);
    }
    while end > 0 && chars[end - 1] == '/'
        invariant
            end <= chars@.len(),
            chars@ == s@,
            trim_end_slashes(s@.take(end as int)) == trim_end_slashes(s@),
        decreases end,
    {
        proof {
            assert(s@.take(end as int).drop_last() =~= s@.take(end - 1));
        }
        end = end - 1;
    }
    proof {
        assert(s@.take(end as int) =~= s@.take(end as int));
    }
    let mut kept: Vec<char> = Vec::new();
    let mut k: usize = 0;
    while k < end
        invariant
            k <= end <= chars@.len(),
            chars@ == s@,
            kept@ == s@.take(k as int),
        decreases end - k,
    {
        kept.push(chars[k]);
        k = k + 1;
        proof {
            assert(kept@ =~= s@.take(k as int));
        }
    }
    proof {
        if end > 0 {
            assert(s@.take(end as int).last() == s@[end - 1]);
        }
        assert(trim_end_slashes(s@.take(end as int)) == s@.take(end as int));
    }
    string_from_chars(&kept)
}

/// There are at most one more pieces than characters, and no piece is
/// longer than the text.
pub proof fn lemma_split_pieces_bounds(s: Seq<char>, sep: char)
    ensures
        1 <= split_pieces(s, sep).len() <= s.len() + 1,
        forall|i: int| 0 <= i < split_pieces(s, sep).len() ==> (#[trigger] split_pieces(s, sep)[i]).len() <= s.len(),
    decreases s.len(),
{
    if s.len() > 0 {
        lemma_split_pieces_bounds(s.drop_last(), sep);
    }
}

/// There are at most one more lines than characters, and no line is longer
/// than the text.
pub proof fn lemma_text_lines_bounds(s: Seq<char>)
    ensures
        text_lines(s).len() <= s.len() + 1,
        forall|i: int| 0 <= i < text_lines(s).len() ==> (#[trigger] text_lines(s)[i]).len() <= s.len(),
{
    lemma_split_pieces_bounds(s, '\n');
    let pieces = split_pieces(s, '\n');
    assert forall|i: int| 0 <= i < text_lines(s).len() implies (#[trigger] text_lines(s)[i]).len() <= s.len() by {
        assert(pieces[i].len() <= s.len());
    }
}

/// `n` occurs in `h` as a run of consecutive characters (`str::contains`);
/// the empty text occurs in every text.
pub open spec fn has_infix(h: Seq<char>, n: Seq<char>) -> bool {
    exists|i: int| 0 <= i && i + n.len() <= h.len() && #[trigger] h.subrange(i, i + n.len()) == n
}

/// Whether `n` occurs in `h`.
pub fn contains_chars(h: &Vec<char>, n: &Vec<char>) -> (r: bool)
    ensures
        r == has_infix(h@, n@),
{
    if n.len() > h.len() {
        return false;
    }
    if n.len() == 0 {
        proof {
            assert(h@.subrange(0, 0 + n@.len() as int) =~= n@);
        }
        return true;
    }
    let last = h.len() - n.len();
    let mut i: usize = 0;
    while i <= last
        invariant
            0 < n@.len() <= h@.len(),
            h@.len() <= usize::MAX,
            last == h@.len() - n@.len(),
            i <= last + 1,
            forall|k: int| 0 <= k < i ==> #[trigger] h@.subrange(k, k + n@.len()) != n@,
        decreases last + 1 - i,
    {
        let mut j: usize = 0;
        while j < n.len() && h[i + j] == n[j]
            invariant
                i <= last,
                i + n@.len() <= h@.len(),
                h@.len() <= usize::MAX,
                0 < n@.len() <= h@.len(),
                last == h@.len() - n@.len(),
                j <= n@.len(),
                forall|m: int| 0 <= m < j ==> h@[i + m] == n@[m],
            decreases n@.len() - j,
        {
            j = j + 1;
        }
        if j == n.len() {
            proof {
                assert(h@.subrange(i as int, i + n@.len()) =~= n@);
            }
            return true;
        }
        proof {
            assert(h@.subrange(i as int, i + n@.len())[j as int] != n@[j as int]);
        }
        i = i + 1;
    }
    proof {
        assert forall|k: int| 0 <= k && k + n@.len() <= h@.len() implies #[trigger] h@.subrange(k, k + n@.len()) != n@ by {
            assert(k < i);
        }
    }
    false
}

} // verus!
