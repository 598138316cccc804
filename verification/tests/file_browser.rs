use gargo::ui::shared::file_browser::{is_valid_single_name, sort_by_name_case_insensitive};

#[test]
fn single_name_validation_rejects_paths() {
    assert!(is_valid_single_name("file.txt"));
    assert!(!is_valid_single_name(""));
    assert!(!is_valid_single_name("a/b"));
    assert!(!is_valid_single_name("../a"));
}

#[test]
fn sort_by_name_ignores_case() {
    let mut values = vec!["bETA".to_string(), "Alpha".to_string(), "delta".to_string()];
    sort_by_name_case_insensitive(&mut values, |entry| entry);
    assert_eq!(
        values,
        vec![
            String::from("Alpha"),
            String::from("bETA"),
            String::from("delta")
        ]
    );
}

#[test]
fn sort_keeps_the_order_of_names_that_fold_alike() {
    let mut values = vec![
        ("b".to_string(), 1),
        ("A".to_string(), 2),
        ("B".to_string(), 3),
        ("a".to_string(), 4),
    ];
    sort_by_name_case_insensitive(&mut values, |entry| entry.0.as_str());
    let order: Vec<i32> = values.iter().map(|v| v.1).collect();
    assert_eq!(order, vec![2, 4, 1, 3]);
}

#[test]
fn single_name_accepts_trailing_slash_and_rejects_dots() {
    assert!(is_valid_single_name("dir/"));
    assert!(is_valid_single_name("dir/."));
    assert!(!is_valid_single_name("."));
    assert!(!is_valid_single_name(".."));
    assert!(!is_valid_single_name("/abs"));
}
