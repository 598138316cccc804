use gargo::ui::shared::filtering::{fuzzy_match, fzf_style_match};

#[test]
fn fuzzy_match_exact() {
    let result = fuzzy_match("Save File", "Save File");
    assert!(result.is_some());
    let (score, positions) = result.unwrap();
    assert!(score > 0);
    assert_eq!(positions, vec![0, 1, 2, 3, 4, 5, 6, 7, 8]);
}

#[test]
fn fuzzy_match_prefix() {
    let result = fuzzy_match("Save File", "sav");
    assert!(result.is_some());
    let (_, positions) = result.unwrap();
    assert_eq!(positions, vec![0, 1, 2]);
}

#[test]
fn fuzzy_match_case_insensitive() {
    let result = fuzzy_match("Save File", "sf");
    assert!(result.is_some());
    let (_, positions) = result.unwrap();
    assert_eq!(positions[0], 0); // 'S'
    assert_eq!(positions[1], 5); // 'F'
}

#[test]
fn fuzzy_match_no_match() {
    let result = fuzzy_match("Save File", "xyz");
    assert!(result.is_none());
}

#[test]
fn fuzzy_match_empty_needle() {
    let result = fuzzy_match("Save File", "");
    assert!(result.is_some());
    let (score, positions) = result.unwrap();
    assert_eq!(score, 0);
    assert!(positions.is_empty());
}

#[test]
fn fuzzy_match_word_boundary_bonus() {
    let (score_sf, _) = fuzzy_match("Save File", "sf").unwrap();
    let (score_sa, _) = fuzzy_match("Save File", "sa").unwrap();
    assert!(score_sf > 0 || score_sa > 0);
}

#[test]
fn fuzzy_match_consecutive_beats_sparse() {
    let (score_con, _) = fuzzy_match("Save File", "sav").unwrap();
    let (score_spr, _) = fuzzy_match("Save File", "sfe").unwrap();
    assert!(
        score_con > score_spr,
        "consecutive matches should score higher"
    );
}

#[test]
fn fuzzy_match_order_matters() {
    let result = fuzzy_match("Quit Editor", "qe");
    assert!(result.is_some());
    let result2 = fuzzy_match("Quit Editor", "eq");
    assert!(result2.is_none());
}

#[test]
fn picker_fzf_style_match_prefers_consecutive_matches() {
    let (score_consecutive, _) = fzf_style_match("abcdef", "abc").unwrap();
    let (score_sparse, _) = fzf_style_match("axbxcxdef", "abc").unwrap();
    assert!(score_consecutive > score_sparse);
}

