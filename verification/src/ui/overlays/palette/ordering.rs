//! The order of the palette's rows: best score first, or recently used
//! commands first and the others by label, ties kept in list order.
use vstd::prelude::*;

use crate::strings::string_views;
use crate::ui::overlays::palette::picker::{CandidateKind, ScoredCandidate};
use crate::ui::shared::ranking::{
    chars_less, chars_lt, lemma_chars_lt_irreflexive, lemma_chars_lt_total,
    lemma_chars_lt_transitive,
};
use crate::utf8::str_chars;

verus! {

/// What a palette row shows: what it stands for, its label, its score and
/// its preview lines.
#[verifier::ext_equal]
pub struct RowView {
    pub kind: CandidateKind,
    pub label: Seq<char>,
    pub score: int,
    pub preview: Seq<Seq<char>>,
}

/// A row with the rank of its command among the recently used ones.
#[verifier::ext_equal]
pub struct RankedRow {
    pub rank: Option<int>,
    pub row: RowView,
}

/// How a palette list is ordered.
#[derive(Clone, Copy)]
pub enum RowOrder {
    /// Higher scores first.
    ScoreDescending,
    /// Ranked rows first, lower rank first; unranked rows after them, by label.
    RankThenLabel,
}

/// What candidate `c` shows.
pub open spec fn cand_view(c: ScoredCandidate) -> RowView {
    RowView {
        kind: c.kind,
        label: c.label@,
        score: c.score as int,
        preview: string_views(c.preview_lines@),
    }
}

/// What each candidate of `v` shows.
pub open spec fn cand_views(v: Seq<ScoredCandidate>) -> Seq<RowView> {
    v.map_values(|c: ScoredCandidate| cand_view(c))
}

/// A candidate with its rank, as a ranked row.
pub open spec fn ranked_view(p: (Option<usize>, ScoredCandidate)) -> RankedRow {
    RankedRow {
        rank: match p.0 {
            Some(r) => Some(r as int),
            None => None,
        },
        row: cand_view(p.1),
    }
}

/// Each candidate of `v` with its rank, as ranked rows.
pub open spec fn ranked_views(v: Seq<(Option<usize>, ScoredCandidate)>) -> Seq<RankedRow> {
    v.map_values(|p: (Option<usize>, ScoredCandidate)| ranked_view(p))
}

/// The rows of `v`, without their ranks.
pub open spec fn unranked(v: Seq<RankedRow>) -> Seq<RowView> {
    v.map_values(|r: RankedRow| r.row)
}

/// `a` is listed strictly before `b`.
pub open spec fn row_before(o: RowOrder, a: RankedRow, b: RankedRow) -> bool {
    match o {
        RowOrder::ScoreDescending => a.row.score > b.row.score,
        RowOrder::RankThenLabel => match a.rank {
            Some(x) => match b.rank {
                Some(y) => x < y,
                None => true,
            },
            None => match b.rank {
                Some(_) => false,
                None => chars_lt(a.row.label, b.row.label),
            },
        },
    }
}

/// `x` inserted into the ordered `s` after every row it does not come
/// strictly before.
pub open spec fn insert_row(o: RowOrder, s: Seq<RankedRow>, x: RankedRow) -> Seq<RankedRow>
    decreases s.len(),
{
    if s.len() == 0 {
        seq![x]
    } else if row_before(o, x, s.last()) {
        insert_row(o, s.drop_last(), x).push(s.last())
    } else {
        s.push(x)
    }
}

/// The stable sort of `s` in order `o`.
pub open spec fn sort_rows(o: RowOrder, s: Seq<RankedRow>) -> Seq<RankedRow>
    decreases s.len(),
{
    if s.len() == 0 {
        s
    } else {
        insert_row(o, sort_rows(o, s.drop_last()), s.last())
    }
}

/// No row of `s` comes strictly before a row listed ahead of it.
pub open spec fn rows_in_order(o: RowOrder, s: Seq<RankedRow>) -> bool {
    forall|i: int, j: int| 0 <= i < j < s.len() ==> !row_before(o, #[trigger] s[j], #[trigger] s[i])
}

proof fn lemma_row_before_asym(o: RowOrder, a: RankedRow, b: RankedRow)
    requires
        row_before(o, a, b),
    ensures
        !row_before(o, b, a),
{
    if let RowOrder::RankThenLabel = o {
        if a.rank is None && b.rank is None {
            if chars_lt(b.row.label, a.row.label) {
                lemma_chars_lt_transitive(a.row.label, b.row.label, a.row.label);
                lemma_chars_lt_irreflexive(a.row.label);
            }
        }
    }
}

/// When `b` is not before `a` and `b` is before `c`, then `a` is before `c`.
proof fn lemma_row_before_neg_trans(o: RowOrder, a: RankedRow, b: RankedRow, c: RankedRow)
    requires
        !row_before(o, b, a),
        row_before(o, b, c),
    ensures
        row_before(o, a, c),
{
    if let RowOrder::RankThenLabel = o {
        if a.rank is None && b.rank is None && c.rank is None {
            lemma_chars_lt_total(a.row.label, b.row.label);
            if chars_lt(a.row.label, b.row.label) {
                lemma_chars_lt_transitive(a.row.label, b.row.label, c.row.label);
            }
        }
    }
}

proof fn lemma_insert_at(o: RowOrder, s: Seq<RankedRow>, x: RankedRow, j: int)
    requires
        0 <= j <= s.len(),
        forall|k: int| j <= k < s.len() ==> row_before(o, x, #[trigger] s[k]),
        j == 0 || !row_before(o, x, s[j - 1]),
    ensures
        insert_row(o, s, x) == s.insert(j, x),
    decreases s.len(),
{
    if s.len() == 0 {
        assert(s.insert(j, x) =~= seq![x]);
    } else if j == s.len() {
        assert(s.insert(j, x) =~= s.push(x));
    } else {
        assert(row_before(o, x, s[s.len() - 1]));
        let t = s.drop_last();
        assert forall|k: int| j <= k < t.len() implies row_before(o, x, #[trigger] t[k]) by {
            assert(t[k] == s[k]);
        }
        if j > 0 {
            assert(t[j - 1] == s[j - 1]);
        }
        lemma_insert_at(o, t, x, j);
        assert(t.insert(j, x).push(s.last()) =~= s.insert(j, x));
    }
}

proof fn lemma_insert_multiset(o: RowOrder, s: Seq<RankedRow>, x: RankedRow)
    ensures
        insert_row(o, s, x).to_multiset() == s.to_multiset().insert(x),
        insert_row(o, s, x).len() == s.len() + 1,
    decreases s.len(),
{
    broadcast use vstd::seq_lib::group_to_multiset_ensures;
    if s.len() > 0 && row_before(o, x, s.last()) {
        lemma_insert_multiset(o, s.drop_last(), x);
        assert(s =~= s.drop_last().push(s.last()));
        assert(s.drop_last().to_multiset().insert(x).insert(s.last()) =~= s.drop_last().to_multiset().insert(
            s.last(),
        ).insert(x));
    }
}

/// Sorting keeps every row, as often as it occurred.
pub proof fn law_sort_rows_permutes(o: RowOrder, s: Seq<RankedRow>)
    ensures
        sort_rows(o, s).to_multiset() == s.to_multiset(),
        sort_rows(o, s).len() == s.len(),
    decreases s.len(),
{
    broadcast use vstd::seq_lib::group_to_multiset_ensures;
    if s.len() > 0 {
        law_sort_rows_permutes(o, s.drop_last());
        lemma_insert_multiset(o, sort_rows(o, s.drop_last()), s.last());
        assert(s =~= s.drop_last().push(s.last()));
    }
}

proof fn lemma_insert_in_order(o: RowOrder, s: Seq<RankedRow>, x: RankedRow)
    requires
        rows_in_order(o, s),
    ensures
        rows_in_order(o, insert_row(o, s, x)),
    decreases s.len(),
{
    broadcast use vstd::seq_lib::group_to_multiset_ensures;
    let r = insert_row(o, s, x);
    if s.len() == 0 {
    } else if row_before(o, x, s.last()) {
        let t = s.drop_last();
        let l = s.last();
        assert(rows_in_order(o, t)) by {
            assert forall|i: int, j: int| 0 <= i < j < t.len() implies !row_before(o, #[trigger] t[j], #[trigger] t[i]) by {
                assert(t[i] == s[i] && t[j] == s[j]);
            }
        }
        lemma_insert_in_order(o, t, x);
        lemma_insert_multiset(o, t, x);
        let u = insert_row(o, t, x);
        assert forall|i: int| 0 <= i < u.len() implies !row_before(o, l, #[trigger] u[i]) by {
            assert(u.to_multiset().count(u[i]) > 0);
            assert(t.to_multiset().insert(x).count(u[i]) > 0);
            if u[i] == x {
                lemma_row_before_asym(o, x, l);
            } else {
                assert(t.to_multiset().count(u[i]) > 0);
                assert(t.contains(u[i]));
                let k = choose|k: int| 0 <= k < t.len() && t[k] == u[i];
                assert(s[k] == t[k]);
                assert(s[s.len() - 1] == l);
            }
        }
        assert forall|i: int, j: int| 0 <= i < j < r.len() implies !row_before(o, #[trigger] r[j], #[trigger] r[i]) by {
            if j < u.len() {
                assert(r[i] == u[i] && r[j] == u[j]);
            } else {
                assert(r[j] == l);
                assert(r[i] == u[i]);
            }
        }
    } else {
        assert forall|i: int, j: int| 0 <= i < j < r.len() implies !row_before(o, #[trigger] r[j], #[trigger] r[i]) by {
            if j < s.len() {
                assert(r[i] == s[i] && r[j] == s[j]);
            } else {
                assert(r[j] == x);
                assert(r[i] == s[i]);
                let l = s.last();
                if row_before(o, x, s[i]) && i < s.len() - 1 {
                    assert(!row_before(o, s[s.len() - 1], s[i]));
                    lemma_row_before_neg_trans(o, l, x, s[i]);
                }
            }
        }
    }
}

/// Sorting leaves no row ahead of one that comes strictly before it.
pub proof fn law_sort_rows_in_order(o: RowOrder, s: Seq<RankedRow>)
    ensures
        rows_in_order(o, sort_rows(o, s)),
    decreases s.len(),
{
    if s.len() > 0 {
        law_sort_rows_in_order(o, s.drop_last());
        lemma_insert_in_order(o, sort_rows(o, s.drop_last()), s.last());
    }
}

/// Whether `a` is listed strictly before `b`.
fn row_before_exec(o: RowOrder, a: &(Option<usize>, ScoredCandidate), b: &(Option<usize>, ScoredCandidate)) -> (r: bool)
    ensures
        r == row_before(o, ranked_view(*a), ranked_view(*b)),
{
    match o {
        RowOrder::ScoreDescending => a.1.score > b.1.score,
        RowOrder::RankThenLabel => match a.0 {
            Some(x) => match b.0 {
                Some(y) => x < y,
                None => true,
            },
            None => match b.0 {
                Some(_) => false,
                None => chars_less(&str_chars(a.1.label.as_str()), &str_chars(b.1.label.as_str())),
            },
        },
    }
}

/// Sorts `rows` stably in order `o`, and drops their ranks. Every
/// candidate that `keep` holds of before holds of after.
pub fn sort_candidates(
    o: RowOrder,
    rows: Vec<(Option<usize>, ScoredCandidate)>,
    Ghost(keep): Ghost<spec_fn(ScoredCandidate) -> bool>,
) -> (r: Vec<ScoredCandidate>)
    requires
        forall|i: int| 0 <= i < rows@.len() ==> keep(#[trigger] rows@[i].1),
    ensures
        cand_views(r@) == unranked(sort_rows(o, ranked_views(rows@))),
        forall|i: int| 0 <= i < r@.len() ==> keep(#[trigger] r@[i]),
{
    let ghost orig = rows@;
    let mut src = rows;
    let mut out: Vec<(Option<usize>, ScoredCandidate)> = Vec::new();
    let ghost mut n: int = 0;
    proof {
        assert(src@.skip(0) =~= src@);
        assert(ranked_views(orig.take(0)) =~= Seq::<RankedRow>::empty());
    }
    while src.len() > 0
        invariant
            0 <= n <= orig.len(),
            src@ == orig.skip(n),
            ranked_views(out@) == sort_rows(o, ranked_views(orig.take(n))),
            forall|i: int| 0 <= i < orig.len() ==> keep(#[trigger] orig[i].1),
            forall|i: int| 0 <= i < out@.len() ==> keep(#[trigger] out@[i].1),
        decreases src@.len(),
    {
        let x = src.remove(0);
        proof {
            assert(x == orig[n]);
        }
        let mut j: usize = out.len();
        while j > 0 && row_before_exec(o, &x, &out[j - 1])
            invariant
                j <= out@.len(),
                forall|k: int| j <= k < out@.len() ==> row_before(o, ranked_view(x), #[trigger] ranked_view(out@[k])),
            decreases j,
        {
            j = j - 1;
        }
        let ghost before = out@;
        proof {
            let rv = ranked_views(before);
            assert forall|k: int| j <= k < rv.len() implies row_before(o, ranked_view(x), #[trigger] rv[k]) by {
                assert(rv[k] == ranked_view(before[k]));
            }
            if j > 0 {
                assert(rv[j - 1] == ranked_view(before[j - 1]));
            }
            lemma_insert_at(o, rv, ranked_view(x), j as int);
            let t = orig.take(n + 1);
            assert(t.drop_last() =~= orig.take(n));
            assert(ranked_views(t).drop_last() =~= ranked_views(orig.take(n)));
            assert(ranked_views(t).last() == ranked_view(x));
            assert(src@ =~= orig.skip(n + 1));
        }
        out.insert(j, x);
        proof {
            assert(ranked_views(out@) =~= ranked_views(before).insert(j as int, ranked_view(x)));
            assert forall|i: int| 0 <= i < out@.len() implies keep(#[trigger] out@[i].1) by {
                if i < j {
                    assert(out@[i] == before[i]);
                } else if i > j {
                    assert(out@[i] == before[i - 1]);
                }
            }
            n = n + 1;
        }
    }
    proof {
        assert(orig.take(n) =~= orig);
    }
    let ghost sorted = out@;
    let mut r: Vec<ScoredCandidate> = Vec::new();
    let mut rest = out;
    while rest.len() > 0
        invariant
            r@.len() + rest@.len() == sorted.len(),
            rest@ == sorted.skip(r@.len() as int),
            forall|i: int| 0 <= i < r@.len() ==> #[trigger] r@[i] == sorted[i].1,
            forall|i: int| 0 <= i < sorted.len() ==> keep(#[trigger] sorted[i].1),
        decreases rest@.len(),
    {
        let p = rest.remove(0);
        proof {
            assert(p == sorted[r@.len() as int]);
            assert(rest@ =~= sorted.skip(r@.len() as int + 1));
        }
        r.push(p.1);
    }
    proof {
        assert(cand_views(r@) =~= unranked(ranked_views(sorted))) by {
            assert forall|i: int| 0 <= i < r@.len() implies cand_views(r@)[i] == unranked(ranked_views(sorted))[i] by {
                assert(r@[i] == sorted[i].1);
            }
        }
        assert forall|i: int| 0 <= i < r@.len() implies keep(#[trigger] r@[i]) by {
            assert(r@[i] == sorted[i].1);
        }
    }
    r
}

} // verus!
