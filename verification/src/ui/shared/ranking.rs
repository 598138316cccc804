//! Ranking candidates by score, then by a text key, as a stable sort does.
use vstd::prelude::*;

verus! {

/// `a` comes strictly before `b` in lexicographic order of code points
/// (the order of `str`'s comparison).
pub open spec fn chars_lt(a: Seq<char>, b: Seq<char>) -> bool
    decreases a.len(),
{
    if a.len() == 0 {
        b.len() > 0
    } else if b.len() == 0 {
        false
    } else if a[0] != b[0] {
        a[0] < b[0]
    } else {
        chars_lt(a.skip(1), b.skip(1))
    }
}

/// Strict lexicographic order is transitive.
pub proof fn lemma_chars_lt_transitive(a: Seq<char>, b: Seq<char>, c: Seq<char>)
    requires
        chars_lt(a, b),
        chars_lt(b, c),
    ensures
        chars_lt(a, c),
    decreases a.len(),
{
    if a.len() > 0 && b.len() > 0 && c.len() > 0 && a[0] == b[0] && b[0] == c[0] {
        lemma_chars_lt_transitive(a.skip(1), b.skip(1), c.skip(1));
    }
}

/// Two sequences are equal or one comes strictly before the other.
pub proof fn lemma_chars_lt_total(a: Seq<char>, b: Seq<char>)
    ensures
        a == b || chars_lt(a, b) || chars_lt(b, a),
    decreases a.len(),
{
    if a.len() > 0 && b.len() > 0 && a[0] == b[0] {
        lemma_chars_lt_total(a.skip(1), b.skip(1));
        if a.skip(1) == b.skip(1) {
            assert(a =~= seq![a[0]] + a.skip(1));
            assert(b =~= seq![b[0]] + b.skip(1));
        }
    } else if a.len() == 0 && b.len() == 0 {
        assert(a =~= b);
    }
}

/// No sequence comes strictly before itself.
pub proof fn lemma_chars_lt_irreflexive(a: Seq<char>)
    ensures
        !chars_lt(a, a),
    decreases a.len(),
{
    if a.len() > 0 {
        lemma_chars_lt_irreflexive(a.skip(1));
    }
}

/// Candidate `ia` with score `sa` and key `ka` is listed before candidate
/// `ib`: higher scores first, then smaller keys, then the original order.
pub open spec fn keyed_before(sa: int, ka: Seq<char>, ia: int, sb: int, kb: Seq<char>, ib: int) -> bool {
    sa > sb || (sa == sb && (chars_lt(ka, kb) || (ka == kb && ia < ib)))
}

/// `f` lists exactly the candidates that have a score, ordered by
/// `keyed_before`.
pub open spec fn ranks_by_key(f: Seq<usize>, scores: Seq<Option<int>>, keys: Seq<Seq<char>>) -> bool {
    &&& forall|k: int| 0 <= k < f.len() ==> #[trigger] f[k] < scores.len() && scores[f[k] as int] is Some
    &&& forall|i: int| 0 <= i < scores.len() && scores[i] is Some ==> f.contains(i as usize)
    &&& forall|a: int, b: int|
        0 <= a < b < f.len() ==> keyed_before(
            scores[f[a] as int]->0,
            keys[f[a] as int],
            f[a] as int,
            scores[f[b] as int]->0,
            keys[f[b] as int],
            f[b] as int,
        )
}

/// Scores as mathematical integers.
pub open spec fn score_ints(v: Seq<Option<i64>>) -> Seq<Option<int>> {
    v.map_values(
        |o: Option<i64>|
            match o {
                Some(x) => Some(x as int),
                None => None,
            },
    )
}

/// Views of character vectors.
pub open spec fn key_views(v: Seq<Vec<char>>) -> Seq<Seq<char>> {
    v.map_values(|k: Vec<char>| k@)
}

/// `keyed_before` is transitive.
proof fn lemma_keyed_transitive(
    sa: int,
    ka: Seq<char>,
    ia: int,
    sb: int,
    kb: Seq<char>,
    ib: int,
    sc: int,
    kc: Seq<char>,
    ic: int,
)
    requires
        keyed_before(sa, ka, ia, sb, kb, ib),
        keyed_before(sb, kb, ib, sc, kc, ic),
    ensures
        keyed_before(sa, ka, ia, sc, kc, ic),
{
    if sa == sb && sb == sc {
        if chars_lt(ka, kb) && chars_lt(kb, kc) {
            lemma_chars_lt_transitive(ka, kb, kc);
        }
    }
}

/// `keyed_before` orders any two distinct candidates one way or the other.
proof fn lemma_keyed_total(sa: int, ka: Seq<char>, ia: int, sb: int, kb: Seq<char>, ib: int)
    requires
        ia != ib,
    ensures
        keyed_before(sa, ka, ia, sb, kb, ib) || keyed_before(sb, kb, ib, sa, ka, ia),
{
    lemma_chars_lt_total(ka, kb);
}

/// Whether `a` comes strictly before `b`.
pub fn chars_less(a: &Vec<char>, b: &Vec<char>) -> (r: bool)
    ensures
        r == chars_lt(a@, b@),
{
    let mut i: usize = 0;
    proof {
        assert(a@.skip(0) =~= a@);
        assert(b@.skip(0) =~= b@);
    }
    while i < a.len() && i < b.len() && a[i] == b[i]
        invariant
            i <= a@.len(),
            i <= b@.len(),
            forall|k: int| 0 <= k < i ==> a@[k] == b@[k],
            chars_lt(a@, b@) == chars_lt(a@.skip(i as int), b@.skip(i as int)),
        decreases a@.len() - i,
    {
        proof {
            assert(a@.skip(i as int).skip(1) =~= a@.skip(i + 1));
            assert(b@.skip(i as int).skip(1) =~= b@.skip(i + 1));
        }
        i = i + 1;
    }
    if i == a.len() {
        i < b.len()
    } else if i == b.len() {
        false
    } else {
        a[i] < b[i]
    }
}

/// Whether candidate `(s, k, i)` comes before `(t, l, j)`.
fn before(s: i64, k: &Vec<char>, i: usize, t: i64, l: &Vec<char>, j: usize) -> (r: bool)
    ensures
        r == keyed_before(s as int, k@, i as int, t as int, l@, j as int),
{
    if s != t {
        return s > t;
    }
    if chars_less(k, l) {
        return true;
    }
    if chars_less(l, k) {
        return false;
    }
    proof {
        lemma_chars_lt_total(k@, l@);
    }
    i < j
}

/// The candidates that have a score, best first, ties by key and then in
/// their original order (a stable sort by score, descending, then key).
pub fn rank_by_score_then_key(scores: &Vec<Option<i64>>, keys: &Vec<Vec<char>>) -> (f: Vec<usize>)
    requires
        keys@.len() == scores@.len(),
    ensures
        ranks_by_key(f@, score_ints(scores@), key_views(keys@)),
{
    let ghost s = score_ints(scores@);
    let ghost ks = key_views(keys@);
    let mut out: Vec<usize> = Vec::new();
    let mut i: usize = 0;
    while i < scores.len()
        invariant
            i <= scores@.len(),
            keys@.len() == scores@.len(),
            s == score_ints(scores@),
            ks == key_views(keys@),
            forall|k: int| 0 <= k < out@.len() ==> #[trigger] out@[k] < i && s[out@[k] as int] is Some,
            forall|j: int| 0 <= j < i && s[j] is Some ==> out@.contains(j as usize),
            forall|a: int, b: int|
                0 <= a < b < out@.len() ==> keyed_before(
                    s[out@[a] as int]->0,
                    ks[out@[a] as int],
                    out@[a] as int,
                    s[out@[b] as int]->0,
                    ks[out@[b] as int],
                    out@[b] as int,
                ),
        decreases scores@.len() - i,
    {
        if let Some(score) = scores[i] {
            proof {
                assert(s[i as int] == Some(score as int));
                assert(ks[i as int] == keys@[i as int]@);
            }
            let mut p: usize = 0;
            while p < out.len() && stays_ahead(scores, keys, out[p], score, i)
                invariant
                    p <= out@.len(),
                    keys@.len() == scores@.len(),
                    s == score_ints(scores@),
                    ks == key_views(keys@),
                    i < scores@.len(),
                    s[i as int] == Some(score as int),
                    forall|k: int| 0 <= k < out@.len() ==> #[trigger] out@[k] < i && s[out@[k] as int] is Some,
                    forall|k: int|
                        0 <= k < p ==> keyed_before(
                            s[out@[k] as int]->0,
                            ks[out@[k] as int],
                            out@[k] as int,
                            score as int,
                            ks[i as int],
                            i as int,
                        ),
                decreases out@.len() - p,
            {
                p = p + 1;
            }
            let ghost old_out = out@;
            proof {
                if p < old_out.len() {
                    let q = old_out[p as int];
                    assert(q < i);
                    assert(!keyed_before(s[q as int]->0, ks[q as int], q as int, score as int, ks[i as int], i as int));
                    lemma_keyed_total(s[q as int]->0, ks[q as int], q as int, score as int, ks[i as int], i as int);
                }
                assert forall|k: int| p <= k < old_out.len() implies keyed_before(
                    score as int,
                    ks[i as int],
                    i as int,
                    s[old_out[k] as int]->0,
                    ks[old_out[k] as int],
                    old_out[k] as int,
                ) by {
                    if k > p {
                        let q = old_out[p as int];
                        let r = old_out[k];
                        lemma_keyed_transitive(
                            score as int,
                            ks[i as int],
                            i as int,
                            s[q as int]->0,
                            ks[q as int],
                            q as int,
                            s[r as int]->0,
                            ks[r as int],
                            r as int,
                        );
                    }
                }
            }
            out.insert(p, i);
            proof {
                lemma_insert_keeps_keyed(old_out, s, ks, p as int, i as int, score as int);
            }
        }
        i = i + 1;
    }
    out
}

/// Whether candidate `q` stays ahead of the new candidate `i` with `score`.
fn stays_ahead(scores: &Vec<Option<i64>>, keys: &Vec<Vec<char>>, q: usize, score: i64, i: usize) -> (r: bool)
    requires
        keys@.len() == scores@.len(),
        q < i < scores@.len(),
        scores@[q as int] is Some,
    ensures
        r == keyed_before(
            score_ints(scores@)[q as int]->0,
            key_views(keys@)[q as int],
            q as int,
            score as int,
            key_views(keys@)[i as int],
            i as int,
        ),
{
    let t = match scores[q] {
        Some(t) => t,
        None => 0,
    };
    before(t, &keys[q], q, score, &keys[i], i)
}

/// Inserting candidate `i` at `p`, after every candidate ranked before it and
/// before every candidate ranked after it, keeps the ranking a ranking of
/// the candidates up to `i`.
proof fn lemma_insert_keeps_keyed(
    old_out: Seq<usize>,
    s: Seq<Option<int>>,
    ks: Seq<Seq<char>>,
    p: int,
    i: int,
    score: int,
)
    requires
        0 <= p <= old_out.len(),
        0 <= i < s.len(),
        i <= usize::MAX,
        s[i] == Some(score),
        forall|k: int| 0 <= k < old_out.len() ==> #[trigger] old_out[k] < i && s[old_out[k] as int] is Some,
        forall|j: int| 0 <= j < i && s[j] is Some ==> old_out.contains(j as usize),
        forall|a: int, b: int|
            0 <= a < b < old_out.len() ==> keyed_before(
                s[old_out[a] as int]->0,
                ks[old_out[a] as int],
                old_out[a] as int,
                s[old_out[b] as int]->0,
                ks[old_out[b] as int],
                old_out[b] as int,
            ),
        forall|k: int|
            0 <= k < p ==> keyed_before(
                s[old_out[k] as int]->0,
                ks[old_out[k] as int],
                old_out[k] as int,
                score,
                ks[i],
                i,
            ),
        forall|k: int|
            p <= k < old_out.len() ==> keyed_before(
                score,
                ks[i],
                i,
                s[old_out[k] as int]->0,
                ks[old_out[k] as int],
                old_out[k] as int,
            ),
    ensures
        ({
            let out = old_out.insert(p, i as usize);
            &&& forall|k: int| 0 <= k < out.len() ==> #[trigger] out[k] < i + 1 && s[out[k] as int] is Some
            &&& forall|j: int| 0 <= j < i + 1 && s[j] is Some ==> out.contains(j as usize)
            &&& forall|a: int, b: int|
                0 <= a < b < out.len() ==> keyed_before(
                    s[out[a] as int]->0,
                    ks[out[a] as int],
                    out[a] as int,
                    s[out[b] as int]->0,
                    ks[out[b] as int],
                    out[b] as int,
                )
        }),
{
    let out = old_out.insert(p, i as usize);
    old_out.insert_ensures(p, i as usize);
    assert forall|k: int| 0 <= k < out.len() implies #[trigger] out[k] < i + 1 && s[out[k] as int] is Some by {
        if k < p {
            assert(out[k] == old_out[k]);
        } else if k > p {
            assert(out[k] == old_out[k - 1]);
        }
    }
    assert forall|j: int| 0 <= j < i + 1 && s[j] is Some implies out.contains(j as usize) by {
        if j == i {
            assert(out[p] == j as usize);
        } else {
            assert(old_out.contains(j as usize));
            let t = choose|t: int| 0 <= t < old_out.len() && old_out[t] == j as usize;
            if t < p {
                assert(out[t] == j as usize);
            } else {
                assert(out[t + 1] == j as usize);
            }
        }
    }
    assert forall|a: int, b: int| 0 <= a < b < out.len() implies keyed_before(
        s[out[a] as int]->0,
        ks[out[a] as int],
        out[a] as int,
        s[out[b] as int]->0,
        ks[out[b] as int],
        out[b] as int,
    ) by {
        if b < p {
            assert(out[a] == old_out[a] && out[b] == old_out[b]);
        } else if a > p {
            assert(out[a] == old_out[a - 1] && out[b] == old_out[b - 1]);
        } else if a < p && b > p {
            assert(out[a] == old_out[a] && out[b] == old_out[b - 1]);
        } else if a == p {
            assert(out[b] == old_out[b - 1]);
        } else {
            assert(out[a] == old_out[a]);
        }
    }
}

/// A ranking lists every candidate that has a score exactly once and no
/// other: each listed index has a score, each scored index is listed, and
/// no index is listed twice.
pub proof fn law_ranking_lists_each_match_once(f: Seq<usize>, scores: Seq<Option<int>>, keys: Seq<Seq<char>>)
    requires
        ranks_by_key(f, scores, keys),
    ensures
        forall|a: int, b: int| 0 <= a < b < f.len() ==> f[a] != f[b],
        forall|k: int| 0 <= k < f.len() ==> #[trigger] f[k] < scores.len() && scores[f[k] as int] is Some,
        forall|i: int| 0 <= i < scores.len() && scores[i] is Some ==> f.contains(i as usize),
{
    assert forall|a: int, b: int| 0 <= a < b < f.len() implies f[a] != f[b] by {
        assert(keyed_before(
            scores[f[a] as int]->0,
            keys[f[a] as int],
            f[a] as int,
            scores[f[b] as int]->0,
            keys[f[b] as int],
            f[b] as int,
        ));
        if f[a] == f[b] {
            lemma_chars_lt_irreflexive(keys[f[a] as int]);
        }
    }
}

} // verus!
