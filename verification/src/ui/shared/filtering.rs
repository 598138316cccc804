//! Case-insensitive fuzzy matching used to rank picker candidates.
use vstd::prelude::*;

use crate::std_calls::{
    char_is_whitespace, char_lowercase_first, is_unicode_whitespace, lowercase_first,
};
use crate::utf8::str_chars;

verus! {

/// Longest haystack, in characters, whose scores are computed exactly: the
/// `i32` score arithmetic cannot overflow below it. No character adds to or
/// takes from a score more than 44 (every bonus at once, or one skipped
/// character plus the length penalty), so any length up to `i32::MAX / 44`,
/// about 48.8 million, would do; this is a round bound under that.
pub const MAX_MATCH_CHARS: usize = 40_000_000;

/// Characters after which a match earns a word-boundary bonus.
pub open spec fn is_boundary_char(c: char) -> bool {
    c == ' ' || c == '_' || c == '-' || c == '/' || c == '.'
}

/// Positions as mathematical integers.
pub open spec fn ints(v: Seq<usize>) -> Seq<int> {
    v.map_values(|x: usize| x as int)
}

/// `p` assigns each needle character a haystack position, strictly increasing.
pub open spec fn valid_positions(h: Seq<char>, n: Seq<char>, p: Seq<int>) -> bool {
    &&& p.len() == n.len()
    &&& forall|k: int| 0 <= k < p.len() ==> 0 <= #[trigger] p[k] < h.len()
    &&& forall|k: int| 0 < k < p.len() ==> #[trigger] p[k - 1] < p[k]
}

/// The first position at or after `from` whose character lowercases to `target`.
pub open spec fn first_match_from(h: Seq<char>, from: int, target: char) -> Option<int>
    decreases h.len() - from,
{
    if from < 0 || from >= h.len() {
        None
    } else if lowercase_first(h[from]) == target {
        Some(from)
    } else {
        first_match_from(h, from + 1, target)
    }
}

/// The leftmost case-insensitive embedding of `n` in `h`: each needle
/// character takes the first matching haystack position after the previous
/// one. `None` when `n` is not a case-insensitive subsequence of `h`.
pub open spec fn greedy_positions(h: Seq<char>, n: Seq<char>) -> Option<Seq<int>>
    decreases n.len(),
{
    if n.len() == 0 {
        Some(Seq::empty())
    } else {
        match greedy_positions(h, n.drop_last()) {
            None => None,
            Some(p) => {
                let from = if p.len() == 0 {
                    0
                } else {
                    p.last() + 1
                };
                match first_match_from(h, from, lowercase_first(n.last())) {
                    None => None,
                    Some(j) => Some(p.push(j)),
                }
            },
        }
    }
}

/// What the `k`-th matched position adds to a score: a start-of-text bonus,
/// a word-boundary bonus, a bonus for following the previous position
/// directly (or a penalty of one per skipped character), and a bonus for an
/// exact-case match. `fzf` selects the fzf-style weights.
pub open spec fn position_term(fzf: bool, h: Seq<char>, n: Seq<char>, p: Seq<int>, k: int) -> int {
    let pos = p[k];
    let start = if pos == 0 {
        if fzf {
            12int
        } else {
            8int
        }
    } else {
        0int
    };
    let boundary = if pos > 0 && is_boundary_char(h[pos - 1]) {
        if fzf {
            10int
        } else {
            8int
        }
    } else {
        0int
    };
    let adjacency = if k > 0 {
        if pos == p[k - 1] + 1 {
            if fzf {
                18int
            } else {
                12int
            }
        } else {
            -(pos - p[k - 1] - 1)
        }
    } else {
        0int
    };
    let exact = if h[pos] == n[k] {
        4int
    } else {
        0int
    };
    start + boundary + adjacency + exact
}

/// Sum of the terms of the first `k` positions.
pub open spec fn terms_sum(fzf: bool, h: Seq<char>, n: Seq<char>, p: Seq<int>, k: int) -> int
    decreases k,
{
    if k <= 0 {
        0
    } else {
        terms_sum(fzf, h, n, p, k - 1) + position_term(fzf, h, n, p, k - 1)
    }
}

/// Score of an alignment: the sum of its position terms minus a length
/// penalty (a fifth of the haystack length for fzf-style scoring, a quarter
/// otherwise).
pub open spec fn alignment_score(fzf: bool, h: Seq<char>, n: Seq<char>, p: Seq<int>) -> int {
    terms_sum(fzf, h, n, p, p.len() as int) - (h.len() as int) / (if fzf {
        5int
    } else {
        4int
    })
}

/// `n` occurs verbatim (ignoring case) in `h` at `start`.
pub open spec fn occurs_at(h: Seq<char>, n: Seq<char>, start: int) -> bool {
    &&& 0 <= start
    &&& start + n.len() <= h.len()
    &&& forall|j: int|
        0 <= j < n.len() ==> lowercase_first(#[trigger] n[j]) == lowercase_first(h[start + j])
}

/// The positions `start, start + 1, .., start + len - 1`.
pub open spec fn run(start: int, len: nat) -> Seq<int> {
    Seq::new(len, |j: int| start + j)
}

/// Starting from `best`, every verbatim occurrence of `n` at `start` or later,
/// in order, replaces the current best when it scores strictly higher.
pub open spec fn best_from(
    fzf: bool,
    h: Seq<char>,
    n: Seq<char>,
    best: (int, Seq<int>),
    start: int,
) -> (int, Seq<int>)
    decreases h.len() + 1 - start,
{
    if start < 0 || start + n.len() > h.len() {
        best
    } else {
        let cand = run(start, n.len());
        let score = alignment_score(fzf, h, n, cand);
        let next = if occurs_at(h, n, start) && score > best.0 {
            (score, cand)
        } else {
            best
        };
        best_from(fzf, h, n, next, start + 1)
    }
}

/// In-order match of `n` in `h`: the greedy alignment, unless a verbatim
/// occurrence scores strictly higher (then the first best such occurrence).
pub open spec fn strict_match(fzf: bool, h: Seq<char>, n: Seq<char>) -> Option<(int, Seq<int>)> {
    match greedy_positions(h, n) {
        None => None,
        Some(g) => Some(best_from(fzf, h, n, (alignment_score(fzf, h, n, g), g), 0)),
    }
}

/// Clamp to the `i32` range, as `i32`'s saturating arithmetic does.
pub open spec fn sat_i32(x: int) -> int {
    if x > i32::MAX {
        i32::MAX as int
    } else if x < i32::MIN {
        i32::MIN as int
    } else {
        x
    }
}

/// Whitespace-separated tokens of `s` (`str::split_whitespace`): each
/// non-whitespace character extends the current token when the character
/// before it was not whitespace, and starts a new token otherwise.
pub open spec fn ws_tokens(s: Seq<char>) -> Seq<Seq<char>>
    decreases s.len(),
{
    if s.len() == 0 {
        Seq::empty()
    } else {
        let prev = ws_tokens(s.drop_last());
        let c = s.last();
        if is_unicode_whitespace(c) {
            prev
        } else if s.len() >= 2 && !is_unicode_whitespace(s[s.len() - 2]) {
            prev.update(prev.len() - 1, prev.last().push(c))
        } else {
            prev.push(seq![c])
        }
    }
}

/// Matching the first `k` tokens one after another: the saturating sum of
/// their scores and all their positions, or `None` once one token fails.
pub open spec fn tokens_fold(h: Seq<char>, toks: Seq<Seq<char>>, k: int) -> Option<(int, Seq<int>)>
    decreases k,
{
    if k <= 0 {
        Some((0, Seq::empty()))
    } else {
        match tokens_fold(h, toks, k - 1) {
            None => None,
            Some(acc) => match strict_match(false, h, toks[k - 1]) {
                None => None,
                Some(m) => Some((sat_i32(acc.0 + m.0), acc.1 + m.1)),
            },
        }
    }
}

/// `v` is strictly increasing.
pub open spec fn strictly_increasing(v: Seq<int>) -> bool {
    forall|i: int, j: int| 0 <= i < j < v.len() ==> v[i] < v[j]
}


/// First character of the lowercase mapping of `ch`.
fn char_lower(ch: char) -> (r: char)
    ensures
        r == lowercase_first(ch),
{
    match char_lowercase_first(ch) {
        Some(c) => c,
        None => ch,
    }
}

/// First haystack position at or after `from` whose lowercase is `target`.
fn find_from(haystack: &Vec<char>, from: usize, target: char) -> (r: Option<usize>)
    ensures
        match first_match_from(haystack@, from as int, target) {
            None => r is None,
            Some(j) => r == Some(j as usize),
        },
{
    let mut idx = from;
    while idx < haystack.len()
        invariant
            from <= idx,
            first_match_from(haystack@, from as int, target) == first_match_from(
                haystack@,
                idx as int,
                target,
            ),
        decreases haystack@.len() - idx,
    {
        if char_lower(haystack[idx]) == target {
            return Some(idx);
        }
        idx = idx + 1;
    }
    None
}

proof fn lemma_greedy_prefix_none(h: Seq<char>, n: Seq<char>, i: int)
    requires
        0 <= i <= n.len(),
        greedy_positions(h, n.take(i)) is None,
    ensures
        greedy_positions(h, n) is None,
    decreases n.len() - i,
{
    if i < n.len() {
        assert(n.take(i + 1).drop_last() =~= n.take(i));
        lemma_greedy_prefix_none(h, n, i + 1);
    } else {
        assert(n.take(i) =~= n);
    }
}

proof fn lemma_greedy_valid(h: Seq<char>, n: Seq<char>)
    ensures
        greedy_positions(h, n) matches Some(p) ==> valid_positions(h, n, p),
    decreases n.len(),
{
    if n.len() > 0 {
        lemma_greedy_valid(h, n.drop_last());
        if let Some(p) = greedy_positions(h, n.drop_last()) {
            let from = if p.len() == 0 {
                0
            } else {
                p.last() + 1
            };
            lemma_first_match_bounds(h, from, lowercase_first(n.last()));
        }
    }
}

proof fn lemma_first_match_bounds(h: Seq<char>, from: int, target: char)
    ensures
        first_match_from(h, from, target) matches Some(j) ==> from <= j < h.len() && 0 <= j,
    decreases h.len() - from,
{
    if 0 <= from < h.len() && lowercase_first(h[from]) != target {
        lemma_first_match_bounds(h, from + 1, target);
    }
}

/// Leftmost case-insensitive subsequence positions of `needle` in `haystack`.
fn greedy_subsequence_positions(haystack: &Vec<char>, needle: &Vec<char>) -> (r: Option<
    Vec<usize>,
>)
    ensures
        match greedy_positions(haystack@, needle@) {
            None => r is None,
            Some(g) => r is Some && ints(r->0@) == g,
        },
{
    let mut positions: Vec<usize> = Vec::new();
    let hl = haystack.len();
    let mut hay_idx: usize = 0;
    let mut i: usize = 0;
    proof {
        assert(needle@.take(0) =~= Seq::<char>::empty());
        assert(ints(positions@) =~= Seq::<int>::empty());
    }
    while i < needle.len()
        invariant
            i <= needle@.len(),
            greedy_positions(haystack@, needle@.take(i as int)) == Some(ints(positions@)),
            hay_idx == (if positions@.len() == 0 {
                0
            } else {
                positions@.last() + 1
            }),
            positions@.len() == i,
            hl == haystack@.len(),
            valid_positions(haystack@, needle@.take(i as int), ints(positions@)),
        decreases needle@.len() - i,
    {
        let ghost prefix = needle@.take(i as int);
        let target = char_lower(needle[i]);
        proof {
            assert(needle@.take(i + 1).drop_last() =~= prefix);
            assert(needle@.take(i + 1).last() == needle@[i as int]);
            if positions@.len() > 0 {
                assert(ints(positions@).last() == positions@.last() as int);
            }
        }
        match find_from(haystack, hay_idx, target) {
            None => {
                proof {
                    lemma_greedy_prefix_none(haystack@, needle@, i + 1);
                }
                return None;
            },
            Some(j) => {
                proof {
                    lemma_first_match_bounds(haystack@, hay_idx as int, target);
                    assert(first_match_from(haystack@, hay_idx as int, target) == Some(j as int));
                    assert(greedy_positions(haystack@, needle@.take(i + 1)) == Some(
                        ints(positions@).push(j as int),
                    ));
                    lemma_greedy_valid(haystack@, needle@.take(i + 1));
                    assert(ints(positions@.push(j)) =~= ints(positions@).push(j as int));
                }
                positions.push(j);
                hay_idx = j + 1;
                i = i + 1;
            },
        }
    }
    proof {
        assert(needle@.take(i as int) =~= needle@);
    }
    Some(positions)
}

/// Strictly increasing positions inside the haystack are at most as many as
/// its characters.
pub proof fn lemma_positions_len(h: Seq<char>, n: Seq<char>, p: Seq<int>)
    requires
        valid_positions(h, n, p),
    ensures
        p.len() <= h.len(),
        forall|k: int| 0 <= k < p.len() ==> p[k] >= k,
{
    assert forall|k: int| 0 <= k < p.len() implies p[k] >= k by {
        lemma_position_at_least_index(h, n, p, k);
    }
    if p.len() > 0 {
        assert(p[p.len() - 1] >= p.len() - 1);
    }
}

proof fn lemma_position_at_least_index(h: Seq<char>, n: Seq<char>, p: Seq<int>, k: int)
    requires
        valid_positions(h, n, p),
        0 <= k < p.len(),
    ensures
        p[k] >= k,
    decreases k,
{
    if k > 0 {
        lemma_position_at_least_index(h, n, p, k - 1);
        assert(p[k - 1] < p[k]);
    }
}

proof fn lemma_terms_bounds(fzf: bool, h: Seq<char>, n: Seq<char>, p: Seq<int>, k: int)
    requires
        valid_positions(h, n, p),
        0 <= k <= p.len(),
    ensures
        terms_sum(fzf, h, n, p, k) <= 34 * k,
        k > 0 ==> terms_sum(fzf, h, n, p, k) >= -p[k - 1],
        k == 0 ==> terms_sum(fzf, h, n, p, k) == 0,
    decreases k,
{
    if k > 0 {
        lemma_terms_bounds(fzf, h, n, p, k - 1);
        if k > 1 {
            assert(p[k - 2] < p[k - 1]);
        }
    }
}

/// Score of an alignment under either weighting.
fn score_positions(fzf: bool, haystack: &Vec<char>, needle: &Vec<char>, positions: &Vec<usize>) -> (r: i32)
    requires
        valid_positions(haystack@, needle@, ints(positions@)),
        haystack@.len() <= MAX_MATCH_CHARS,
    ensures
        r as int == alignment_score(fzf, haystack@, needle@, ints(positions@)),
{
    let ghost p = ints(positions@);
    let mut score: i32 = 0;
    let mut i: usize = 0;
    while i < positions.len()
        invariant
            i <= positions@.len(),
            p == ints(positions@),
            valid_positions(haystack@, needle@, p),
            haystack@.len() <= MAX_MATCH_CHARS,
            score as int == terms_sum(fzf, haystack@, needle@, p, i as int),
        decreases positions@.len() - i,
    {
        proof {
            lemma_positions_len(haystack@, needle@, p);
            lemma_terms_bounds(fzf, haystack@, needle@, p, i as int);
            lemma_terms_bounds(fzf, haystack@, needle@, p, i + 1);
            assert(p[i as int] == positions@[i as int] as int);
            if i > 0 {
                assert(p[i - 1] == positions@[i - 1] as int);
                assert(p[i - 1] < p[i as int]);
            }
        }
        let position = positions[i];
        let mut term: i32 = 0;
        if position == 0 {
            term = term + if fzf {
                12
            } else {
                8
            };
        }
        if position > 0 {
            let prev = haystack[position - 1];
            if prev == ' ' || prev == '_' || prev == '-' || prev == '/' || prev == '.' {
                term = term + if fzf {
                    10
                } else {
                    8
                };
            }
        }
        if i > 0 {
            let prev = positions[i - 1];
            if position == prev + 1 {
                term = term + if fzf {
                    18
                } else {
                    12
                };
            } else {
                term = term - ((position - prev - 1) as i32);
            }
        }
        if haystack[position] == needle[i] {
            term = term + 4;
        }
        proof {
            assert(term as int == position_term(fzf, haystack@, needle@, p, i as int));
            assert(terms_sum(fzf, haystack@, needle@, p, i + 1) == score + term);
        }
        score = score + term;
        i = i + 1;
    }
    let len = haystack.len() as i32;
    proof {
        lemma_terms_bounds(fzf, haystack@, needle@, p, p.len() as int);
        if p.len() > 0 {
            assert(p[p.len() - 1] < haystack@.len());
        }
    }
    if fzf {
        score - len / 5
    } else {
        score - len / 4
    }
}

/// Score with the fzf-style weights.
fn compute_fzf_score(haystack: &Vec<char>, needle: &Vec<char>, positions: &Vec<usize>) -> (r: i32)
    requires
        valid_positions(haystack@, needle@, ints(positions@)),
        haystack@.len() <= MAX_MATCH_CHARS,
    ensures
        r as int == alignment_score(true, haystack@, needle@, ints(positions@)),
{
    score_positions(true, haystack, needle, positions)
}

/// Score with the fuzzy-match weights.
fn compute_score(haystack: &Vec<char>, needle: &Vec<char>, positions: &Vec<usize>) -> (r: i32)
    requires
        valid_positions(haystack@, needle@, ints(positions@)),
        haystack@.len() <= MAX_MATCH_CHARS,
    ensures
        r as int == alignment_score(false, haystack@, needle@, ints(positions@)),
{
    score_positions(false, haystack, needle, positions)
}

/// Whether `needle` occurs verbatim (ignoring case) at `start`.
fn occurs_at_exec(haystack: &Vec<char>, needle: &Vec<char>, start: usize) -> (r: bool)
    requires
        start + needle@.len() <= haystack@.len(),
    ensures
        r == occurs_at(haystack@, needle@, start as int),
{
    let mut j: usize = 0;
    let hl = haystack.len();
    while j < needle.len()
        invariant
            j <= needle@.len(),
            hl == haystack@.len(),
            start + needle@.len() <= haystack@.len(),
            forall|k: int|
                0 <= k < j ==> lowercase_first(#[trigger] needle@[k]) == lowercase_first(
                    haystack@[start + k],
                ),
        decreases needle@.len() - j,
    {
        if char_lower(needle[j]) != char_lower(haystack[start + j]) {
            return false;
        }
        j = j + 1;
    }
    true
}

/// The positions `start..start + len`.
fn run_positions(start: usize, len: usize) -> (v: Vec<usize>)
    requires
        start + len <= usize::MAX,
    ensures
        ints(v@) == run(start as int, len as nat),
{
    let mut v: Vec<usize> = Vec::new();
    let mut j: usize = 0;
    while j < len
        invariant
            j <= len,
            start + len <= usize::MAX,
            v@.len() == j,
            forall|k: int| 0 <= k < j ==> v@[k] == start + k,
        decreases len - j,
    {
        v.push(start + j);
        j = j + 1;
    }
    proof {
        assert(ints(v@) =~= run(start as int, len as nat));
    }
    v
}

/// The greedy scan anchors on the first occurrence of each needle char, which
/// can scatter the match even when the needle appears verbatim later in the
/// haystack. Score every contiguous occurrence too and keep whichever
/// alignment scores best, so exact substrings rank as exact matches.
fn best_with_contiguous(
    haystack: &Vec<char>,
    needle: &Vec<char>,
    greedy_score: i32,
    greedy_positions: Vec<usize>,
    fzf: bool,
) -> (r: (i32, Vec<usize>))
    requires
        haystack@.len() <= MAX_MATCH_CHARS,
    ensures
        (r.0 as int, ints(r.1@)) == best_from(
            fzf,
            haystack@,
            needle@,
            (greedy_score as int, ints(greedy_positions@)),
            0,
        ),
{
    let ghost init = (greedy_score as int, ints(greedy_positions@));
    let mut best_score = greedy_score;
    let mut best_positions = greedy_positions;
    if haystack.len() < needle.len() {
        return (best_score, best_positions);
    }
    let last_start = haystack.len() - needle.len();
    let mut start: usize = 0;
    while start <= last_start
        invariant
            last_start + needle@.len() == haystack@.len(),
            haystack@.len() <= MAX_MATCH_CHARS,
            start <= last_start + 1,
            best_from(fzf, haystack@, needle@, init, 0) == best_from(
                fzf,
                haystack@,
                needle@,
                (best_score as int, ints(best_positions@)),
                start as int,
            ),
        decreases last_start + 1 - start,
    {
        let ghost cand = run(start as int, needle@.len());
        if occurs_at_exec(haystack, needle, start) {
            let positions = run_positions(start, needle.len());
            proof {
                assert(valid_positions(haystack@, needle@, ints(positions@)));
            }
            let score = score_positions(fzf, haystack, needle, &positions);
            if score > best_score {
                best_score = score;
                best_positions = positions;
            }
        }
        start = start + 1;
    }
    (best_score, best_positions)
}

/// In-order match over character vectors, under either weighting.
fn strict_match_chars(haystack: &Vec<char>, needle: &Vec<char>, fzf: bool) -> (r: Option<
    (i32, Vec<usize>),
>)
    requires
        haystack@.len() <= MAX_MATCH_CHARS,
    ensures
        match strict_match(fzf, haystack@, needle@) {
            None => r is None,
            Some(m) => r is Some && (r.unwrap().0 as int, ints(r.unwrap().1@)) == m,
        },
{
    match greedy_subsequence_positions(haystack, needle) {
        None => None,
        Some(positions) => {
            proof {
                lemma_greedy_valid(haystack@, needle@);
            }
            let score = score_positions(fzf, haystack, needle, &positions);
            Some(best_with_contiguous(haystack, needle, score, positions, fzf))
        },
    }
}

/// The score `fzf_style_match` gives `h` for the needle `n`: 0 for an
/// empty needle, the fzf-style score of the best alignment otherwise, `None`
/// when `n` is not a case-insensitive subsequence of `h`.
pub open spec fn fzf_score(h: Seq<char>, n: Seq<char>) -> Option<int> {
    if n.len() == 0 {
        Some(0)
    } else {
        match strict_match(true, h, n) {
            Some(m) => Some(m.0),
            None => None,
        }
    }
}

/// fzf-style fuzzy match: the leftmost case-insensitive subsequence alignment
/// of `needle` in `haystack`, replaced by a verbatim occurrence when one
/// scores higher. Returns the score and the matched character positions.
pub fn fzf_style_match(haystack: &str, needle: &str) -> (r: Option<(i32, Vec<usize>)>)
    requires
        haystack@.len() <= MAX_MATCH_CHARS,
    ensures
        needle@.len() == 0 ==> r is Some && r.unwrap().0 == 0 && r.unwrap().1@.len() == 0,
        needle@.len() > 0 ==> match strict_match(true, haystack@, needle@) {
            None => r is None,
            Some(m) => r is Some && (r.unwrap().0 as int, ints(r.unwrap().1@)) == m,
        },
        match r {
            Some(m) => fzf_score(haystack@, needle@) == Some(m.0 as int),
            None => fzf_score(haystack@, needle@) is None,
        },
{
    if needle.is_empty() {
        return Some((0, Vec::new()));
    }
    let haystack_chars = str_chars(haystack);
    let needle_chars = str_chars(needle);
    strict_match_chars(&haystack_chars, &needle_chars, true)
}

/// Views of a vector of character vectors.
pub open spec fn char_seqs(v: Seq<Vec<char>>) -> Seq<Seq<char>> {
    v.map_values(|t: Vec<char>| t@)
}

/// `v` is strictly increasing.
pub open spec fn sorted_unique(v: Seq<usize>) -> bool {
    forall|i: int, j: int| 0 <= i < j < v.len() ==> v[i] < v[j]
}

/// What the token fallback returns for `h` and the needle `n`: nothing for
/// fewer than two tokens or when a token does not match; otherwise the
/// saturating sum of the tokens' scores less a fixed penalty of 50, with the
/// union of their positions in increasing order.
pub open spec fn token_fallback_result(h: Seq<char>, n: Seq<char>, r: Option<(i32, Vec<usize>)>) -> bool {
    let toks = ws_tokens(n);
    if toks.len() < 2 {
        r is None
    } else {
        match tokens_fold(h, toks, toks.len() as int) {
            None => r is None,
            Some(acc) => {
                &&& r is Some
                &&& r.unwrap().0 as int == sat_i32(acc.0 - 50)
                &&& sorted_unique(r.unwrap().1@)
                &&& forall|y: usize| r.unwrap().1@.contains(y) <==> acc.1.contains(y as int)
            },
        }
    }
}

/// Splits on whitespace (`str::split_whitespace`), as character vectors.
fn split_whitespace_chars(chars: &Vec<char>) -> (tokens: Vec<Vec<char>>)
    ensures
        char_seqs(tokens@) == ws_tokens(chars@),
{
    let mut tokens: Vec<Vec<char>> = Vec::new();
    let mut current: Vec<char> = Vec::new();
    let mut i: usize = 0;
    proof {
        assert(chars@.take(0) =~= Seq::<char>::empty());
        assert(char_seqs(tokens@) =~= Seq::<Seq<char>>::empty());
    }
    while i < chars.len()
        invariant
            i <= chars@.len(),
            current@.len() == 0 ==> char_seqs(tokens@) == ws_tokens(chars@.take(i as int)),
            current@.len() == 0 ==> (i > 0 ==> is_unicode_whitespace(chars@[i - 1])),
            current@.len() > 0 ==> char_seqs(tokens@).push(current@) == ws_tokens(
                chars@.take(i as int),
            ),
            current@.len() > 0 ==> (i > 0 && !is_unicode_whitespace(chars@[i - 1])),
        decreases chars@.len() - i,
    {
        let c = chars[i];
        let ghost prev = ws_tokens(chars@.take(i as int));
        proof {
            assert(chars@.take(i + 1).drop_last() =~= chars@.take(i as int));
            assert(chars@.take(i + 1).last() == c);
        }
        if char_is_whitespace(c) {
            if current.len() > 0 {
                let ghost before = tokens@;
                tokens.push(current);
                current = Vec::new();
                proof {
                    assert(char_seqs(tokens@) =~= char_seqs(before).push(
                        char_seqs(tokens@).last(),
                    ));
                }
            }
        } else {
            let ghost before = current@;
            current.push(c);
            proof {
                if before.len() > 0 {
                    assert(prev == char_seqs(tokens@).push(before));
                    assert(char_seqs(tokens@).push(current@) =~= prev.update(
                        prev.len() - 1,
                        prev.last().push(c),
                    ));
                } else {
                    assert(current@ =~= seq![c]);
                    assert(char_seqs(tokens@).push(current@) =~= prev.push(seq![c]));
                }
            }
        }
        i = i + 1;
    }
    if current.len() > 0 {
        tokens.push(current);
    }
    proof {
        assert(chars@.take(i as int) =~= chars@);
    }
    tokens
}

/// Adds `x` to a strictly increasing vector, keeping it strictly increasing.
fn insert_sorted_unique(sorted: Vec<usize>, x: usize) -> (r: Vec<usize>)
    requires
        sorted_unique(sorted@),
    ensures
        sorted_unique(r@),
        forall|y: usize| r@.contains(y) <==> (sorted@.contains(y) || y == x),
{
    let mut v = sorted;
    let ghost before = v@;
    let mut idx: usize = 0;
    while idx < v.len() && v[idx] < x
        invariant
            idx <= v@.len(),
            v@ == before,
            sorted_unique(v@),
            forall|k: int| 0 <= k < idx ==> v@[k] < x,
        decreases v@.len() - idx,
    {
        idx = idx + 1;
    }
    if idx < v.len() && v[idx] == x {
        proof {
            assert(v@[idx as int] == x);
        }
        return v;
    }
    proof {
        if idx < v@.len() {
            assert(v@[idx as int] >= x);
        }
        lemma_insert_contains(before, idx as int, x);
    }
    v.insert(idx, x);
    proof {
        assert(v@ == before.insert(idx as int, x));
        assert forall|y: usize| v@.contains(y) <==> (sorted@.contains(y) || y == x) by {
            assert(before.insert(idx as int, x).contains(y) <==> (before.contains(y) || y == x));
        }
    }
    v
}

proof fn lemma_insert_contains(before: Seq<usize>, idx: int, x: usize)
    requires
        0 <= idx <= before.len(),
        sorted_unique(before),
        forall|k: int| 0 <= k < idx ==> before[k] < x,
        idx < before.len() ==> before[idx] > x,
    ensures
        sorted_unique(before.insert(idx, x)),
        forall|y: usize| before.insert(idx, x).contains(y) <==> (before.contains(y) || y == x),
{
    let nv = before.insert(idx, x);
    assert forall|k: int| 0 <= k < nv.len() implies #[trigger] nv[k] == (if k < idx {
        before[k]
    } else if k == idx {
        x
    } else {
        before[k - 1]
    }) by {}
    assert forall|a: int, b: int| 0 <= a < b < nv.len() implies nv[a] < nv[b] by {
        if a < idx && b > idx {
            assert(before[a] < x);
            if b - 1 > idx {
                assert(before[idx] < before[b - 1]);
            }
        } else if a == idx && b > idx {
            if b - 1 > idx {
                assert(before[idx] < before[b - 1]);
            }
        }
    }
    assert forall|y: usize| nv.contains(y) <==> (before.contains(y) || y == x) by {
        if nv.contains(y) {
            let k = choose|k: int| 0 <= k < nv.len() && nv[k] == y;
            if k < idx {
                assert(before[k] == y);
            } else if k > idx {
                assert(before[k - 1] == y);
            }
        }
        if before.contains(y) {
            let k = choose|k: int| 0 <= k < before.len() && before[k] == y;
            if k < idx {
                assert(nv[k] == y);
            } else {
                assert(nv[k + 1] == y);
            }
        }
        if y == x {
            assert(nv[idx] == x);
        }
    }
}

/// Saturating `i32` addition.
fn sat_add_i32(a: i32, b: i32) -> (r: i32)
    ensures
        r as int == sat_i32(a + b),
{
    let t = a as i64 + b as i64;
    if t > i32::MAX as i64 {
        i32::MAX
    } else if t < i32::MIN as i64 {
        i32::MIN
    } else {
        t as i32
    }
}

proof fn lemma_fold_none(h: Seq<char>, toks: Seq<Seq<char>>, k: int, m: int)
    requires
        0 <= k <= m,
        tokens_fold(h, toks, k) is None,
    ensures
        tokens_fold(h, toks, m) is None,
    decreases m - k,
{
    if k < m {
        lemma_fold_none(h, toks, k, m - 1);
    }
}

/// In-order fuzzy match (fuzzy-match weights).
fn fuzzy_match_strict(haystack: &str, needle: &str) -> (r: Option<(i32, Vec<usize>)>)
    requires
        haystack@.len() <= MAX_MATCH_CHARS,
    ensures
        match strict_match(false, haystack@, needle@) {
            None => r is None,
            Some(m) => r is Some && (r.unwrap().0 as int, ints(r.unwrap().1@)) == m,
        },
{
    let haystack_chars = str_chars(haystack);
    let needle_chars = str_chars(needle);
    strict_match_chars(&haystack_chars, &needle_chars, false)
}

/// Penalty that keeps reordered-token matches below in-order matches.
const TOKEN_FALLBACK_PENALTY: i32 = 50;

/// Each whitespace-separated token must match in order; the tokens may come
/// in any order.
fn fuzzy_match_tokens(haystack: &str, needle: &str) -> (r: Option<(i32, Vec<usize>)>)
    requires
        haystack@.len() <= MAX_MATCH_CHARS,
    ensures
        token_fallback_result(haystack@, needle@, r),
{
    let needle_chars = str_chars(needle);
    let tokens = split_whitespace_chars(&needle_chars);
    let ghost toks = ws_tokens(needle@);
    if tokens.len() < 2 {
        return None;
    }
    let haystack_chars = str_chars(haystack);
    let mut total: i32 = 0;
    let mut all_positions: Vec<usize> = Vec::new();
    let ghost mut acc_positions: Seq<int> = Seq::empty();
    let mut k: usize = 0;
    while k < tokens.len()
        invariant
            k <= tokens@.len(),
            toks == ws_tokens(needle@),
            char_seqs(tokens@) == toks,
            haystack_chars@ == haystack@,
            haystack@.len() <= MAX_MATCH_CHARS,
            tokens_fold(haystack@, toks, k as int) == Some((total as int, acc_positions)),
            sorted_unique(all_positions@),
            forall|y: usize| all_positions@.contains(y) <==> acc_positions.contains(y as int),
            forall|y: int| acc_positions.contains(y) ==> y >= 0,
        decreases tokens@.len() - k,
    {
        proof {
            assert(toks[k as int] == tokens@[k as int]@);
        }
        match strict_match_chars(&haystack_chars, &tokens[k], false) {
            None => {
                proof {
                    lemma_fold_none(haystack@, toks, k + 1, toks.len() as int);
                }
                return None;
            },
            Some((score, positions)) => {
                let ghost m = (score as int, ints(positions@));
                total = sat_add_i32(total, score);
                let ghost old_acc = acc_positions;
                proof {
                    acc_positions = acc_positions + ints(positions@);
                }
                let mut q: usize = 0;
                proof {
                    assert(positions@.take(0) =~= Seq::<usize>::empty());
                }
                while q < positions.len()
                    invariant
                        q <= positions@.len(),
                        sorted_unique(all_positions@),
                        acc_positions == old_acc + ints(positions@),
                        forall|y: usize|
                            all_positions@.contains(y) <==> (old_acc.contains(y as int)
                                || positions@.take(q as int).contains(y)),
                    decreases positions@.len() - q,
                {
                    let ghost before = all_positions@;
                    assert(forall|y: usize| before.contains(y) <==> (old_acc.contains(y as int)
                        || positions@.take(q as int).contains(y)));
                    all_positions = insert_sorted_unique(all_positions, positions[q]);
                    proof {
                        assert(positions@.take(q + 1) =~= positions@.take(q as int).push(
                            positions@[q as int],
                        ));
                        assert forall|y: usize|
                            all_positions@.contains(y) <==> (old_acc.contains(y as int)
                                || positions@.take(q + 1).contains(y)) by {
                            assert(all_positions@.contains(y) == (before.contains(y) || y
                                == positions@[q as int]));
                            assert(before.contains(y) == (old_acc.contains(y as int)
                                || positions@.take(q as int).contains(y)));
                            if positions@.take(q + 1).contains(y) {
                                let pre = positions@.take(q + 1);
                                let t = choose|t: int| 0 <= t < pre.len() && pre[t] == y;
                                if t < q {
                                    assert(positions@.take(q as int)[t] == y);
                                }
                            }
                            if positions@.take(q as int).contains(y) {
                                let pre = positions@.take(q as int);
                                let t = choose|t: int| 0 <= t < pre.len() && pre[t] == y;
                                assert(positions@.take(q + 1)[t] == y);
                            }
                            if y == positions@[q as int] {
                                assert(positions@.take(q + 1)[q as int] == y);
                            }
                        }
                    }
                    q = q + 1;
                }
                proof {
                    assert(positions@.take(q as int) =~= positions@);
                    assert(forall|y: usize| all_positions@.contains(y) <==> (old_acc.contains(
                        y as int,
                    ) || positions@.contains(y)));
                    assert forall|y: usize| all_positions@.contains(y) <==> acc_positions.contains(
                        y as int,
                    ) by {
                        if positions@.contains(y) {
                            let t = choose|t: int| 0 <= t < positions@.len() && positions@[t] == y;
                            assert(ints(positions@)[t] == y as int);
                            assert(acc_positions[old_acc.len() + t] == y as int);
                        }
                        if old_acc.contains(y as int) {
                            let t = choose|t: int| 0 <= t < old_acc.len() && old_acc[t] == y as int;
                            assert(acc_positions[t] == y as int);
                        }
                        if acc_positions.contains(y as int) {
                            let t = choose|t: int|
                                0 <= t < acc_positions.len() && acc_positions[t] == y as int;
                            if t >= old_acc.len() {
                                assert(ints(positions@)[t - old_acc.len()] == y as int);
                                assert(positions@[t - old_acc.len()] == y);
                            } else {
                                assert(old_acc[t] == y as int);
                            }
                        }
                    }
                    assert forall|y: int| acc_positions.contains(y) implies y >= 0 by {
                        let t = choose|t: int| 0 <= t < acc_positions.len() && acc_positions[t] == y;
                        if t >= old_acc.len() {
                            assert(ints(positions@)[t - old_acc.len()] == y);
                        } else {
                            assert(old_acc.contains(y));
                        }
                    }
                }
                k = k + 1;
            },
        }
    }
    let score = sat_add_i32(total, -TOKEN_FALLBACK_PENALTY);
    Some((score, all_positions))
}

/// The score `fuzzy_match` gives `h` for the needle `n`: 0 for an empty
/// needle, the in-order match's score when there is one, otherwise the token
/// fallback's score, and `None` when neither matches.
pub open spec fn fuzzy_score(h: Seq<char>, n: Seq<char>) -> Option<int> {
    if n.len() == 0 {
        Some(0)
    } else {
        match strict_match(false, h, n) {
            Some(m) => Some(m.0),
            None => {
                let toks = ws_tokens(n);
                if toks.len() < 2 {
                    None
                } else {
                    match tokens_fold(h, toks, toks.len() as int) {
                        None => None,
                        Some(acc) => Some(sat_i32(acc.0 - 50)),
                    }
                }
            },
        }
    }
}

/// Fuzzy match `haystack` against `needle` (case-insensitive).
///
/// First tries strict in-order subsequence matching. If that fails and the needle
/// contains whitespace, falls back to per-token matching where each
/// whitespace-separated token must subsequence-match the haystack but the tokens
/// themselves may appear in any order. The token fallback receives a constant
/// score penalty so true in-order matches always rank above it.
pub fn fuzzy_match(haystack: &str, needle: &str) -> (r: Option<(i32, Vec<usize>)>)
    requires
        haystack@.len() <= MAX_MATCH_CHARS,
    ensures
        needle@.len() == 0 ==> r is Some && r.unwrap().0 == 0 && r.unwrap().1@.len() == 0,
        needle@.len() > 0 ==> match strict_match(false, haystack@, needle@) {
            Some(m) => r is Some && (r.unwrap().0 as int, ints(r.unwrap().1@)) == m,
            None => token_fallback_result(haystack@, needle@, r),
        },
        match r {
            Some(m) => fuzzy_score(haystack@, needle@) == Some(m.0 as int),
            None => fuzzy_score(haystack@, needle@) is None,
        },
{
    if needle.is_empty() {
        return Some((0, Vec::new()));
    }
    if let Some(result) = fuzzy_match_strict(haystack, needle) {
        return Some(result);
    }
    fuzzy_match_tokens(haystack, needle)
}

} // verus!
