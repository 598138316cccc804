use gargo::ui::text::{
    display_width, gutter_width, slice_display_window, truncate_to_width, wrap_display_windows,
    wrapped_row_count, wrapped_row_of_col, TAB_DISPLAY_WIDTH,
};

#[test]
fn truncate_ascii_within_limit() {
    let (s, w) = truncate_to_width("hello", 10);
    assert_eq!(s, "hello");
    assert_eq!(w, 5);
}

#[test]
fn truncate_ascii_exact() {
    let (s, w) = truncate_to_width("hello", 5);
    assert_eq!(s, "hello");
    assert_eq!(w, 5);
}

#[test]
fn truncate_ascii_over() {
    let (s, w) = truncate_to_width("hello world", 5);
    assert_eq!(s, "hello");
    assert_eq!(w, 5);
}

#[test]
fn truncate_cjk_no_panic() {
    let (s, w) = truncate_to_width("あいう", 5);
    assert_eq!(s, "あい");
    assert_eq!(w, 4);
}

#[test]
fn truncate_mixed_ascii_cjk() {
    let (s, w) = truncate_to_width("abcあいう", 7);
    assert_eq!(s, "abcあい");
    assert_eq!(w, 7);
}

#[test]
fn truncate_mixed_boundary_between_cjk() {
    let (s, w) = truncate_to_width("abcあいう", 8);
    assert_eq!(s, "abcあい");
    assert_eq!(w, 7);
}

#[test]
fn truncate_zero_width() {
    let (s, w) = truncate_to_width("あいう", 0);
    assert_eq!(s, "");
    assert_eq!(w, 0);
}

#[test]
fn truncate_real_world_japanese_line() {
    let line = "  - 吾輩は猫である。名前はまだ無い。\
                 どこで生まれたかとんと見当がつかぬ。\
                 何でも薄暗いじめじめした所でニャーニャー泣いていた事だけは記憶している。";
    let available = 116;
    let (truncated, w) = truncate_to_width(line, available);
    assert!(w <= available);
    assert!(truncated.len() <= line.len());
}

#[test]
fn display_width_cjk() {
    assert_eq!(display_width("あいう"), 6);
}

#[test]
fn display_width_mixed() {
    assert_eq!(display_width("abcあ"), 5);
}

#[test]
fn display_width_empty() {
    assert_eq!(display_width(""), 0);
}

#[test]
fn display_width_tab_counts_as_configured_columns() {
    assert_eq!(display_width("\t"), TAB_DISPLAY_WIDTH);
    assert_eq!(display_width("a\tb"), TAB_DISPLAY_WIDTH + 2);
}

#[test]
fn slice_display_window_ascii() {
    let window = slice_display_window("abcdef", 2, 3);
    assert_eq!(window.visible, "cde");
    assert_eq!(window.start_col, 2);
    assert_eq!(window.used_width, 3);
}

#[test]
fn slice_display_window_skips_partial_wide_char() {
    let window = slice_display_window("abあいう", 3, 4);
    assert_eq!(window.visible, "いう");
    assert_eq!(window.start_col, 4);
    assert_eq!(window.used_width, 4);
}

#[test]
fn slice_display_window_starts_at_tab_boundary() {
    let window = slice_display_window("a\tb", 1, TAB_DISPLAY_WIDTH + 1);
    assert_eq!(window.visible, "\tb");
    assert_eq!(window.start_col, 1);
    assert_eq!(window.used_width, TAB_DISPLAY_WIDTH + 1);
}

#[test]
fn wrap_splits_ascii_into_fixed_width_rows() {
    let windows = wrap_display_windows("abcdefg", 3);
    let visible: Vec<&str> = windows.iter().map(|w| w.visible).collect();
    assert_eq!(visible, vec!["abc", "def", "g"]);
    assert_eq!(windows[1].start_col, 3);
    assert_eq!(windows[2].start_col, 6);
}

#[test]
fn wrap_keeps_wide_chars_whole() {
    // "aあい": 'a' (1) + 'あ' (2) + 'い' (2). At width 4 the second wide
    // char cannot fit on row 0, so row 0 keeps 3 columns.
    let windows = wrap_display_windows("aあい", 4);
    let visible: Vec<&str> = windows.iter().map(|w| w.visible).collect();
    assert_eq!(visible, vec!["aあ", "い"]);
    assert_eq!(windows[0].used_width, 3);
    assert_eq!(windows[1].start_col, 3);
}

#[test]
fn wrap_exact_fit_produces_single_row() {
    let windows = wrap_display_windows("abcd", 4);
    assert_eq!(windows.len(), 1);
    assert_eq!(windows[0].visible, "abcd");
}

#[test]
fn wrap_empty_line_occupies_one_row() {
    assert_eq!(wrapped_row_count("", 10), 1);
}

#[test]
fn wrap_terminates_when_wide_char_exceeds_width() {
    // Degenerate one-column pane: the wide char cannot be rendered, but
    // wrapping must still terminate.
    let count = wrapped_row_count("あa", 1);
    assert!(count >= 1);
}

#[test]
fn wrapped_row_of_col_maps_columns_to_rows() {
    assert_eq!(wrapped_row_of_col("abcdefg", 3, 0), 0);
    assert_eq!(wrapped_row_of_col("abcdefg", 3, 2), 0);
    assert_eq!(wrapped_row_of_col("abcdefg", 3, 3), 1);
    assert_eq!(wrapped_row_of_col("abcdefg", 3, 6), 2);
}

#[test]
fn wrapped_row_of_col_past_end_clamps_to_last_row() {
    // Cursor one past a line that exactly fills the width.
    assert_eq!(wrapped_row_of_col("abcd", 4, 4), 0);
}

#[test]
fn gutter_width_for_zero_lines() {
    assert_eq!(gutter_width(0), 2);
}


#[test]
fn display_width_adds_over_concatenation() {
    assert_eq!(display_width(""), 0);
    assert_eq!(display_width("\t"), 4);
    assert_eq!(
        display_width("ab\tあ"),
        display_width("ab") + display_width("\tあ")
    );
}
