use gargo::ui::shared::filtering::{fuzzy_match, fzf_style_match};

#[test]
fn fuzzy_match_is_case_insensitive() {
    let result = fuzzy_match("Save File", "sf");
    assert!(result.is_some());
}

#[test]
fn fuzzy_match_returns_none_for_missing_sequence() {
    let result = fuzzy_match("Save File", "xyz");
    assert!(result.is_none());
}

#[test]
fn filtering_fzf_style_match_prefers_consecutive_matches() {
    let (consecutive_score, _) = fzf_style_match("abcdef", "abc").expect("consecutive");
    let (sparse_score, _) = fzf_style_match("axbxcxdef", "abc").expect("sparse");
    assert!(consecutive_score > sparse_score);
}

#[test]
fn fuzzy_match_token_fallback_allows_out_of_order_tokens() {
    // Strict subsequence "github co" cannot match "Copy GitHub URL" because
    // the 'co' in 'Copy' precedes 'github'. The token fallback should match.
    let result = fuzzy_match("Copy GitHub URL", "github co");
    assert!(result.is_some(), "token fallback should match");
}

#[test]
fn fuzzy_match_strict_outranks_token_fallback() {
    // In-order match wins over reordered-token match.
    let (in_order, _) = fuzzy_match("Copy GitHub URL", "co github").expect("strict");
    let (out_of_order, _) = fuzzy_match("Copy GitHub URL", "github co").expect("fallback");
    assert!(in_order > out_of_order);
}

#[test]
fn fuzzy_match_token_fallback_requires_all_tokens() {
    // "xyz" is absent from haystack, so the fallback must still fail.
    let result = fuzzy_match("Copy GitHub URL", "github xyz");
    assert!(result.is_none());
}

#[test]
fn fuzzy_match_single_token_does_not_take_fallback() {
    // Single-token query: no fallback path; absence means None.
    let result = fuzzy_match("Copy GitHub URL", "xyz");
    assert!(result.is_none());
}

#[test]
fn fuzzy_match_exact_substring_outranks_scattered_match() {
    // "modules/search.rs" contains the query verbatim; the greedy scan used
    // to anchor on the leading 's' of "modules" and scatter the rest,
    // letting a non-exact candidate overtake it.
    let (exact, _) = fuzzy_match("modules/search.rs", "search").expect("exact");
    let (scattered, _) = fuzzy_match("sea_rch.rs", "search").expect("scattered");
    assert!(exact > scattered, "exact={exact} scattered={scattered}");
}

#[test]
fn fuzzy_match_prefers_contiguous_occurrence_positions() {
    let (_, positions) = fuzzy_match("src/global_search_index.rs", "search").expect("match");
    assert_eq!(positions, (11..17).collect::<Vec<_>>());
}

#[test]
fn fuzzy_match_exact_equality_ranks_above_superstrings() {
    let (equal, _) = fuzzy_match("search", "search").expect("equal");
    for other in ["sea_rch.rs", "search.rs", "src/search.rs", "s_e_a_r_c_h"] {
        let (score, _) = fuzzy_match(other, "search").expect(other);
        assert!(equal > score, "{other}: {score} >= {equal}");
    }
}

#[test]
fn fzf_style_match_prefers_contiguous_occurrence_positions() {
    let (_, positions) =
        fzf_style_match("src/global_search_index.rs", "search").expect("match");
    assert_eq!(positions, (11..17).collect::<Vec<_>>());
}

