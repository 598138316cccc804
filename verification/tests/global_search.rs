use gargo::ui::overlays::palette::workers::{
    execute_global_search, find_global_search_matches, include_dir_candidate,
    parse_global_search_request, resolve_include_dir, split_search_flags, wants_file,
    GlobalSearchBatch, GLOBAL_SEARCH_MAX_RESULTS,
};

const ROOT: &str = "/proj";

/// Runs a search over in-memory files, answering the `--dir` checks as a
/// file system holding those files (and a directory `/other`) would.
fn run_search(files: &[(&str, &str)], query: &str) -> GlobalSearchBatch {
    let mut dirs: Vec<String> = vec!["/other".to_string(), ROOT.to_string()];
    for (path, _) in files {
        let mut parts: Vec<&str> = path.split('/').collect();
        parts.pop();
        let mut dir = ROOT.to_string();
        for part in parts {
            dir = format!("{}/{}", dir, part);
            dirs.push(dir.clone());
        }
    }
    let parsed = match split_search_flags(query) {
        Err(e) => Err(e),
        Ok(flags) => {
            let scope = match &flags.include_dir_arg {
                None => Ok(None),
                Some(arg) => {
                    let candidate = include_dir_candidate(ROOT, arg);
                    let exists = dirs.contains(&candidate);
                    resolve_include_dir(arg, exists, exists, ROOT, &candidate)
                }
            };
            parse_global_search_request(flags, scope)
        }
    };
    let contents: Vec<(String, Option<String>)> = files
        .iter()
        .map(|(p, c)| (p.to_string(), Some(c.to_string())))
        .collect();
    execute_global_search(1, parsed, &contents)
}

#[test]
fn global_search_no_flags_behaves_like_existing_search() {
    let batch = run_search(
        &[("src/main.rs", "First Line\nsecond line\nTHIRD line\n")],
        "line",
    );
    assert!(batch.error.is_none());
    assert_eq!(batch.results.len(), 3);
    assert_eq!(batch.results[0].line, 0);
}

#[test]
fn global_search_dir_relative_filters_scope() {
    let batch = run_search(
        &[("src/main.rs", "needle\n"), ("docs/readme.md", "needle\n")],
        "needle --dir src",
    );
    assert!(batch.error.is_none());
    assert_eq!(batch.results.len(), 1);
    assert_eq!(batch.results[0].rel_path, "src/main.rs");
}

#[test]
fn global_search_dir_absolute_inside_root_works() {
    let query = format!("needle --dir '{}/src'", ROOT);
    let batch = run_search(
        &[("src/main.rs", "needle\n"), ("docs/readme.md", "needle\n")],
        &query,
    );
    assert!(batch.error.is_none());
    assert_eq!(batch.results.len(), 1);
    assert_eq!(batch.results[0].rel_path, "src/main.rs");
}

#[test]
fn global_search_dir_absolute_outside_root_returns_error() {
    let batch = run_search(&[("src/main.rs", "needle\n")], "needle --dir /other");
    assert!(batch.results.is_empty());
    assert!(batch
        .error
        .as_deref()
        .unwrap_or("")
        .contains("outside project root"));
}

#[test]
fn global_search_exclude_regex_filters_paths() {
    let batch = run_search(
        &[("src/lib.rs", "needle\n"), ("src/generated/out.rs", "needle\n")],
        "needle --exclude ^src/generated/",
    );
    assert!(batch.error.is_none());
    assert_eq!(batch.results.len(), 1);
    assert_eq!(batch.results[0].rel_path, "src/lib.rs");
}

#[test]
fn global_search_invalid_exclude_regex_returns_error() {
    let batch = run_search(&[("src/lib.rs", "needle\n")], "needle --exclude [");
    assert!(batch.results.is_empty());
    assert!(batch
        .error
        .as_deref()
        .unwrap_or("")
        .contains("Invalid --exclude regex"));
}

#[test]
fn global_search_combined_dir_and_exclude_filters() {
    let batch = run_search(
        &[
            ("src/lib.rs", "needle\n"),
            ("src/generated/out.rs", "needle\n"),
            ("docs/readme.md", "needle\n"),
        ],
        "needle --dir src --exclude generated",
    );
    assert!(batch.error.is_none());
    assert_eq!(batch.results.len(), 1);
    assert_eq!(batch.results[0].rel_path, "src/lib.rs");
}

#[test]
fn global_search_duplicate_flags_use_rightmost_value() {
    let batch = run_search(
        &[("src/lib.rs", "needle\n"), ("docs/readme.md", "needle\n")],
        "needle --dir docs --dir src",
    );
    assert!(batch.error.is_none());
    assert_eq!(batch.results.len(), 1);
    assert_eq!(batch.results[0].rel_path, "src/lib.rs");
}

#[test]
fn global_search_unknown_flags_are_treated_as_query_text() {
    let batch = run_search(&[("src/lib.rs", "--weird needle\n")], "--weird needle");
    assert!(batch.error.is_none());
    assert_eq!(batch.results.len(), 1);
}

#[test]
fn matches_report_character_columns_and_previews() {
    let content = "alpha\nhéllo wörld\ngamma\n";
    let found = find_global_search_matches("a/b.txt", content, "WÖR", 10);
    assert_eq!(found.len(), 1);
    assert_eq!(found[0].line, 1);
    assert_eq!(found[0].char_col, 6);
    assert_eq!(
        found[0].preview_lines,
        vec![
            "a/b.txt:2:7".to_string(),
            "    1 | alpha".to_string(),
            "    2 | héllo wörld".to_string(),
            "    3 | gamma".to_string(),
        ]
    );
    // Regex characters in the query are taken literally.
    assert_eq!(find_global_search_matches("x", "a.b\naxb\n", "a.b", 10).len(), 1);
    assert!(find_global_search_matches("x", "abc", "   ", 10).is_empty());
    // The first match is kept even when no more are wanted.
    assert_eq!(find_global_search_matches("x", "a\na\na\n", "a", 0).len(), 1);
    assert_eq!(find_global_search_matches("x", "a\na\na\n", "a", 2).len(), 2);
}

#[test]
fn search_stops_at_the_result_limit() {
    let big: String = "hit\n".repeat(GLOBAL_SEARCH_MAX_RESULTS + 50);
    let batch = run_search(&[("a.txt", &big), ("b.txt", "hit\n")], "hit");
    assert_eq!(batch.results.len(), GLOBAL_SEARCH_MAX_RESULTS);
    assert!(batch.results.iter().all(|r| r.rel_path == "a.txt"));
    let empty = run_search(&[("a.txt", "hit\n")], "  --dir src");
    assert!(empty.error.is_some() || empty.results.is_empty());
}

#[test]
fn flags_need_values_and_quotes_must_close() {
    assert_eq!(
        split_search_flags("needle --dir").unwrap_err(),
        "Missing value for --dir"
    );
    assert_eq!(
        split_search_flags("needle --exclude").unwrap_err(),
        "Missing value for --exclude"
    );
    let flags = split_search_flags("a  'b c' --exclude x").unwrap();
    assert_eq!(flags.query, "a b c");
    assert_eq!(flags.exclude_arg.as_deref(), Some("x"));
    assert!(split_search_flags("'open").is_err());
}

#[test]
fn wanted_files_follow_dir_and_exclude() {
    let flags = split_search_flags("x --exclude \\.md$").unwrap();
    let parsed = parse_global_search_request(flags, Ok(Some("src".to_string()))).unwrap();
    assert!(wants_file(&parsed, "./src/a.rs"));
    assert!(!wants_file(&parsed, "src/readme.md"));
    assert!(!wants_file(&parsed, "srcx/a.rs"));
    assert_eq!(
        resolve_include_dir("p", false, false, "/r", "/r/p").unwrap_err(),
        "--dir path does not exist: p"
    );
    assert_eq!(
        resolve_include_dir("p", true, false, "/r", "/r/p").unwrap_err(),
        "--dir path is not a directory: p"
    );
    assert_eq!(resolve_include_dir("/r", true, true, "/r", "/r").unwrap(), None);
}

#[test]
fn global_search_literal_case_insensitive() {
    let text = "First Line\nsecond line\nTHIRD line";
    let matches = find_global_search_matches("src/main.rs", text, "line", 10);
    assert_eq!(matches.len(), 3);
    assert_eq!(matches[0].line, 0);
    assert_eq!(matches[1].line, 1);
    assert_eq!(matches[2].line, 2);
    assert!(matches[0].preview_lines[0].starts_with("src/main.rs:1:"));
}
