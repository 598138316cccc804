use gargo::syntax::highlight::HighlightSpan;
use gargo::ui::overlays::palette::picker::{
    jump_marker_column, parse_goto_line, preview_code_lines, spans_onto_preview, parse_usize, rebase_preview_spans_to_window, shorten_path,
    slice_preview_display_window,
    split_numbered_preview_line, CandidateKind, PaletteMode,
};
use gargo::ui::overlays::palette::workers::{
    build_search_preview, format_search_preview_line, is_included_dir, normalize_rel_path,
    tokenize_search_input,
};

fn span(start: usize, end: usize, name: &str) -> HighlightSpan {
    HighlightSpan {
        start,
        end,
        capture_name: name.to_string(),
    }
}

#[test]
fn tokenize_splits_on_whitespace_and_honors_quotes() {
    assert_eq!(
        tokenize_search_input("  foo   bar ").unwrap(),
        vec!["foo".to_string(), "bar".to_string()]
    );
    assert_eq!(
        tokenize_search_input("--dir 'src dir' \"a \\\"b\\\" c\"").unwrap(),
        vec!["--dir".to_string(), "src dir".to_string(), "a \"b\" c".to_string()]
    );
    assert_eq!(
        tokenize_search_input("ab'c d'e").unwrap(),
        vec!["abc de".to_string()]
    );
    assert_eq!(tokenize_search_input("").unwrap(), Vec::<String>::new());
    assert_eq!(tokenize_search_input("''").unwrap(), Vec::<String>::new());
}

#[test]
fn tokenize_rejects_unterminated_quotes() {
    assert_eq!(
        tokenize_search_input("'open").unwrap_err(),
        "Unterminated quote in global search input"
    );
    assert!(tokenize_search_input("\"x\\").is_err());
}

#[test]
fn normalize_and_scope_relative_paths() {
    assert_eq!(normalize_rel_path(".\\src\\main.rs"), "src/main.rs");
    assert_eq!(normalize_rel_path("././/a/b"), "a/b");
    assert_eq!(normalize_rel_path("plain"), "plain");
    assert!(is_included_dir("src/a.rs", None));
    assert!(is_included_dir("src/a.rs", Some("")));
    assert!(is_included_dir("src", Some("src")));
    assert!(is_included_dir("src/a.rs", Some("src")));
    assert!(!is_included_dir("srcx/a.rs", Some("src")));
}

#[test]
fn search_preview_lines_are_numbered_and_windowed() {
    assert_eq!(format_search_preview_line(0, "fn main"), "    1 | fn main");
    assert_eq!(format_search_preview_line(123455, "x"), "123456 | x");
    let lines = vec!["a", "b", "c", "d", "e", "f", "g", "h", "i"];
    assert_eq!(
        build_search_preview(&lines, 1),
        vec![
            "    1 | a".to_string(),
            "    2 | b".to_string(),
            "    3 | c".to_string(),
            "    4 | d".to_string(),
            "    5 | e".to_string(),
        ]
    );
    assert_eq!(build_search_preview(&lines, 8).len(), 4);
    assert!(build_search_preview(&lines, 20).is_empty());
}

#[test]
fn numbered_preview_lines_split_at_the_bar() {
    assert_eq!(
        split_numbered_preview_line("   12 | let x = 1;"),
        Some(("   12 ", "let x = 1;"))
    );
    assert_eq!(split_numbered_preview_line("7|x"), Some(("7", "x")));
    assert_eq!(split_numbered_preview_line("no bar"), None);
}

#[test]
fn spans_are_cut_to_the_window() {
    let spans = vec![span(0, 4, "kw"), span(6, 12, "str"), span(20, 25, "cm")];
    let rebased = rebase_preview_spans_to_window(&spans, 2, 10);
    let got: Vec<(usize, usize, &str)> = rebased
        .iter()
        .map(|s| (s.start, s.end, s.capture_name.as_str()))
        .collect();
    assert_eq!(got, vec![(0, 2, "kw"), (4, 8, "str")]);
    assert_eq!(PaletteMode::Command, PaletteMode::Command);
    assert_eq!(CandidateKind::File(3), CandidateKind::File(3));
}

#[test]
fn shorten_path_fits() {
    let (display, skip, prefix_len) = shorten_path("src/main.rs", 20);
    assert_eq!(display, "src/main.rs");
    assert_eq!(skip, 0);
    assert_eq!(prefix_len, 0);
}

#[test]
fn shorten_path_truncates_leading_dirs() {
    // "src/deeply/nested/dir/file.rs" = 28 chars
    // With max_width=19: ".../dir/file.rs" = 15, fits
    let (display, skip, prefix_len) = shorten_path("src/deeply/nested/dir/file.rs", 19);
    assert_eq!(display, ".../dir/file.rs");
    assert!(skip > 0);
    assert_eq!(prefix_len, 4);
}

#[test]
fn shorten_path_shows_filename_only() {
    // max_width=12: ".../file.rs" = 11, fits
    let (display, _, _) = shorten_path("src/deeply/nested/dir/file.rs", 12);
    assert_eq!(display, ".../file.rs");
}

#[test]
fn shorten_path_no_slash() {
    // No directory separators, truncate from right
    let (display, skip, prefix_len) = shorten_path("verylongfilename.rs", 10);
    assert_eq!(skip, 0);
    assert_eq!(prefix_len, 0);
    assert!(display.len() <= 10);
}

#[test]
fn shorten_path_scratch_fits() {
    let (display, skip, prefix_len) = shorten_path("[scratch]", 20);
    assert_eq!(display, "[scratch]");
    assert_eq!(skip, 0);
    assert_eq!(prefix_len, 0);
}

#[test]
fn shorten_path_cuts_a_file_name_too_wide_for_the_marker() {
    let (display, skip, prefix_len) = shorten_path("a/verylongname.rs", 6);
    assert_eq!(display, "verylo");
    assert_eq!(skip, 2);
    assert_eq!(prefix_len, 0);
}

#[test]
fn parse_goto_line_only() {
    let result = parse_goto_line(":42");
    assert_eq!(result, Some((41, 0)));
}

#[test]
fn parse_goto_line_and_char() {
    let result = parse_goto_line(":42:10");
    assert_eq!(result, Some((41, 9)));
}

#[test]
fn parse_goto_line_empty() {
    assert_eq!(parse_goto_line(":"), None);
    assert_eq!(parse_goto_line(": "), None);
}

#[test]
fn parse_goto_line_invalid() {
    assert_eq!(parse_goto_line(":abc"), None);
}

#[test]
fn parse_goto_line_one_based_floor() {
    // Line 0 should not underflow
    let result = parse_goto_line(":0");
    assert_eq!(result, Some((0, 0)));
    // Line 1 is the first line (0-based: 0)
    let result = parse_goto_line(":1");
    assert_eq!(result, Some((0, 0)));
}

#[test]
fn parse_goto_line_edge_cases() {
    assert_eq!(parse_goto_line(" :3"), None);
    assert_eq!(parse_goto_line(": 7 : x "), Some((6, 0)));
    assert_eq!(parse_goto_line(":+5:+2"), Some((4, 1)));
    assert_eq!(parse_goto_line(":99999999999999999999999"), None);
    assert_eq!(parse_usize("18446744073709551615"), Some(usize::MAX));
    assert_eq!(parse_usize("+"), None);
    assert_eq!(parse_usize("-1"), None);
}

#[test]
fn preview_window_slices_by_unicode_width() {
    let w = slice_preview_display_window("abcdef", 2, 3);
    assert_eq!(w.visible, "cde");
    assert_eq!((w.start_byte, w.end_byte, w.start_col, w.used_width), (2, 5, 2, 3));

    // A wide character straddling the start column is left out.
    let w = slice_preview_display_window("abあいう", 3, 4);
    assert_eq!(w.visible, "いう");
    assert_eq!(w.start_col, 4);
    assert_eq!(w.used_width, 4);

    // A tab has no width in the preview.
    let w = slice_preview_display_window("a\tb", 1, 5);
    assert_eq!(w.visible, "\tb");
    assert_eq!(w.used_width, 1);

    // Past the end: nothing, starting at the full width.
    let w = slice_preview_display_window("ab", 5, 3);
    assert_eq!(w.visible, "");
    assert_eq!((w.start_byte, w.start_col), (2, 2));
    let w = slice_preview_display_window("abc", 1, 0);
    assert_eq!(w.visible, "");
    assert_eq!(w.start_byte, 1);
}

#[test]
fn jump_marker_sits_on_the_target_character() {
    assert_eq!(jump_marker_column("   10 | fn main()", 3), Some((11, 1)));
    assert_eq!(jump_marker_column("    1 | あい", 1), Some((10, 2)));
    assert_eq!(jump_marker_column("    1 | あい", 9), Some((10, 2)));
    assert_eq!(jump_marker_column("   5 |", 4), Some((7, 1)));
    assert_eq!(jump_marker_column("no bar here", 0), None);
}

#[test]
fn preview_code_lines_cut_numbers_after_the_header() {
    let lines = vec![
        "src/main.rs:10".to_string(),
        "    9 | let a = 1;".to_string(),
        "   10 |fn main()".to_string(),
        "plain".to_string(),
    ];
    let (code, map) = preview_code_lines(&lines);
    assert_eq!(code, vec!["let a = 1;".to_string(), "fn main()".to_string(), "plain".to_string()]);
    assert_eq!(map, vec![(1, 8), (2, 7), (3, 0)]);

    let (code, map) = preview_code_lines(&Vec::new());
    assert!(code.is_empty());
    assert!(map.is_empty());
}

fn triples(spans: &[HighlightSpan]) -> Vec<(usize, usize, String)> {
    spans.iter().map(|s| (s.start, s.end, s.capture_name.clone())).collect()
}

#[test]
fn spans_onto_preview_shift_past_the_number_part() {
    let map = vec![(1usize, 8usize), (2, 7)];
    let raw = vec![
        (0usize, vec![span(0, 3, "keyword")]),
        (1, vec![span(0, 2, "function"), span(3, 5, "type")]),
        (5, vec![span(0, 1, "dropped")]),
    ];
    let out = spans_onto_preview(&raw, &map);
    assert_eq!(out.len(), 2);
    assert_eq!(out[0].0, 1);
    assert_eq!(triples(&out[0].1), vec![(8, 11, "keyword".to_string())]);
    assert_eq!(out[1].0, 2);
    assert_eq!(
        triples(&out[1].1),
        vec![(7, 9, "function".to_string()), (10, 12, "type".to_string())]
    );
}
