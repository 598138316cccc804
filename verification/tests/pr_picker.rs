use gargo::input::action::{Action, AppAction, IntegrationAction, UiAction};
use gargo::input::key::{KeyCode, KeyEvent, KeyModifiers, MouseEventKind};
use gargo::ui::framework::cell::{CellStyle, Color};
use gargo::ui::framework::component::EventResult;
use gargo::ui::overlays::github::list_keys::HORIZONTAL_SCROLL_COLS;
use gargo::ui::overlays::github::pr_picker::{PrEntry, PrListPicker};
use gargo::ui::shared::filtering::fuzzy_match;

fn key(code: KeyCode) -> KeyEvent {
    KeyEvent::new(code, KeyModifiers::none())
}

fn ctrl_key(c: char) -> KeyEvent {
    KeyEvent::new(KeyCode::Char(c), KeyModifiers::control())
}

fn shift_key(code: KeyCode) -> KeyEvent {
    KeyEvent::new(code, KeyModifiers::shift())
}

fn test_entries() -> Vec<PrEntry> {
    vec![
        PrEntry {
            number: 42,
            title: "Add dark mode support".to_string(),
            body: "This PR adds dark mode.\n\nDetails here.".to_string(),
            url: "https://github.com/user/repo/pull/42".to_string(),
            state: "OPEN".to_string(),
            author: "alice".to_string(),
            head_ref: "feature/dark-mode".to_string(),
            created_at: "2025-01-15T10:30:00Z".to_string(),
            labels: vec!["enhancement".to_string()],
        },
        PrEntry {
            number: 41,
            title: "Fix crash on startup".to_string(),
            body: "Fixes #40".to_string(),
            url: "https://github.com/user/repo/pull/41".to_string(),
            state: "MERGED".to_string(),
            author: "bob".to_string(),
            head_ref: "fix/startup-crash".to_string(),
            created_at: "2025-01-14T08:00:00Z".to_string(),
            labels: vec![],
        },
        PrEntry {
            number: 40,
            title: "Update dependencies".to_string(),
            body: "".to_string(),
            url: "https://github.com/user/repo/pull/40".to_string(),
            state: "CLOSED".to_string(),
            author: "charlie".to_string(),
            head_ref: "chore/deps".to_string(),
            created_at: "2025-01-13T12:00:00Z".to_string(),
            labels: vec!["chore".to_string(), "deps".to_string()],
        },
    ]
}

fn test_picker() -> PrListPicker {
    PrListPicker::new(test_entries())
}

#[test]
fn navigation_down_and_up() {
    let mut picker = test_picker();
    assert_eq!(picker.selected, 0);
    picker.handle_key(key(KeyCode::Char('j')));
    assert_eq!(picker.selected, 1);
    picker.handle_key(key(KeyCode::Char('j')));
    assert_eq!(picker.selected, 2);
    // Should not go past the end
    picker.handle_key(key(KeyCode::Char('j')));
    assert_eq!(picker.selected, 2);
    picker.handle_key(key(KeyCode::Char('k')));
    assert_eq!(picker.selected, 1);
    picker.handle_key(key(KeyCode::Char('k')));
    assert_eq!(picker.selected, 0);
    // Should not go below 0
    picker.handle_key(key(KeyCode::Char('k')));
    assert_eq!(picker.selected, 0);
}

#[test]
fn arrow_key_navigation() {
    let mut picker = test_picker();
    picker.handle_key(key(KeyCode::Down));
    assert_eq!(picker.selected, 1);
    picker.handle_key(key(KeyCode::Up));
    assert_eq!(picker.selected, 0);
}

#[test]
fn pr_picker_find_mode_filters_entries() {
    let mut picker = test_picker();
    picker.handle_key(key(KeyCode::Char('/')));
    assert!(picker.find_active);
    picker.handle_key(key(KeyCode::Char('d')));
    picker.handle_key(key(KeyCode::Char('a')));
    picker.handle_key(key(KeyCode::Char('r')));
    picker.handle_key(key(KeyCode::Char('k')));
    // Should filter to "Add dark mode support"
    assert_eq!(picker.filtered.len(), 1);
    assert_eq!(picker.entries[picker.filtered[0]].number, 42);
}

#[test]
fn find_mode_esc_exits_and_clears() {
    let mut picker = test_picker();
    picker.handle_key(key(KeyCode::Char('/')));
    picker.handle_key(key(KeyCode::Char('x')));
    assert!(picker.find_active);
    picker.handle_key(key(KeyCode::Esc));
    assert!(!picker.find_active);
    assert!(picker.find_input.is_empty());
    assert_eq!(picker.filtered.len(), 3);
}

#[test]
fn find_mode_enter_exits_keeps_filter() {
    let mut picker = test_picker();
    picker.handle_key(key(KeyCode::Char('/')));
    picker.handle_key(key(KeyCode::Char('c')));
    picker.handle_key(key(KeyCode::Char('r')));
    picker.handle_key(key(KeyCode::Char('a')));
    picker.handle_key(key(KeyCode::Char('s')));
    picker.handle_key(key(KeyCode::Char('h')));
    let filtered_count = picker.filtered.len();
    picker.handle_key(key(KeyCode::Enter));
    assert!(!picker.find_active);
    assert_eq!(picker.filtered.len(), filtered_count);
}

#[test]
fn find_mode_ctrl_w_deletes_word() {
    let mut picker = test_picker();
    picker.handle_key(key(KeyCode::Char('/')));
    for c in "hello world".chars() {
        picker.handle_key(key(KeyCode::Char(c)));
    }
    assert_eq!(picker.find_input, "hello world");
    picker.handle_key(ctrl_key('w'));
    assert_eq!(picker.find_input, "hello ");
}

#[test]
fn open_produces_open_pr_url() {
    let mut picker = test_picker();
    let result = picker.handle_key(key(KeyCode::Char('o')));
    match result {
        EventResult::Action(Action::App(AppAction::Integration(IntegrationAction::OpenPrUrl(
            url,
        )))) => {
            assert_eq!(url, "https://github.com/user/repo/pull/42");
        }
        _ => panic!("Expected OpenPrUrl action"),
    }
}

#[test]
fn enter_opens_pr() {
    let mut picker = test_picker();
    let result = picker.handle_key(key(KeyCode::Enter));
    match result {
        EventResult::Action(Action::App(AppAction::Integration(IntegrationAction::OpenPrUrl(
            url,
        )))) => {
            assert_eq!(url, "https://github.com/user/repo/pull/42");
        }
        _ => panic!("Expected OpenPrUrl action"),
    }
}

#[test]
fn pr_picker_copy_menu_url() {
    let mut picker = test_picker();
    picker.handle_key(key(KeyCode::Char('c')));
    assert!(picker.copy_menu_active);
    let result = picker.handle_key(key(KeyCode::Char('u')));
    assert!(!picker.copy_menu_active);
    match result {
        EventResult::Action(Action::App(AppAction::Integration(
            IntegrationAction::CopyToClipboard { text, description },
        ))) => {
            assert_eq!(text, "https://github.com/user/repo/pull/42");
            assert_eq!(description, "PR URL");
        }
        _ => panic!("Expected CopyToClipboard action"),
    }
}

#[test]
fn copy_menu_number() {
    let mut picker = test_picker();
    picker.handle_key(key(KeyCode::Char('c')));
    let result = picker.handle_key(key(KeyCode::Char('n')));
    match result {
        EventResult::Action(Action::App(AppAction::Integration(
            IntegrationAction::CopyToClipboard { text, description },
        ))) => {
            assert_eq!(text, "#42");
            assert_eq!(description, "PR number");
        }
        _ => panic!("Expected CopyToClipboard action"),
    }
}

#[test]
fn copy_menu_title() {
    let mut picker = test_picker();
    picker.handle_key(key(KeyCode::Char('c')));
    let result = picker.handle_key(key(KeyCode::Char('t')));
    match result {
        EventResult::Action(Action::App(AppAction::Integration(
            IntegrationAction::CopyToClipboard { text, description },
        ))) => {
            assert_eq!(text, "Add dark mode support");
            assert_eq!(description, "PR title");
        }
        _ => panic!("Expected CopyToClipboard action"),
    }
}

#[test]
fn copy_menu_cancel() {
    let mut picker = test_picker();
    picker.handle_key(key(KeyCode::Char('c')));
    assert!(picker.copy_menu_active);
    let result = picker.handle_key(key(KeyCode::Char('x')));
    assert!(!picker.copy_menu_active);
    assert!(matches!(result, EventResult::Consumed));
}

#[test]
fn pr_picker_esc_closes() {
    let mut picker = test_picker();
    let result = picker.handle_key(key(KeyCode::Esc));
    assert!(matches!(
        result,
        EventResult::Action(Action::Ui(UiAction::ClosePrListPicker))
    ));
}

#[test]
fn q_closes() {
    let mut picker = test_picker();
    let result = picker.handle_key(key(KeyCode::Char('q')));
    assert!(matches!(
        result,
        EventResult::Action(Action::Ui(UiAction::ClosePrListPicker))
    ));
}

#[test]
fn pr_picker_ctrl_q_closes() {
    let mut picker = test_picker();
    let result = picker.handle_key(ctrl_key('q'));
    assert!(matches!(
        result,
        EventResult::Action(Action::Ui(UiAction::ClosePrListPicker))
    ));
}

#[test]
fn empty_entries_shows_message() {
    let picker = PrListPicker::new(vec![]);
    assert_eq!(picker.message.as_deref(), Some("No PRs found"));
    assert!(picker.filtered.is_empty());
}

#[test]
fn pr_picker_shift_j_k_scrolls_preview() {
    let mut picker = test_picker();
    assert_eq!(picker.preview_scroll, 0);
    picker.handle_key(shift_key(KeyCode::Char('J')));
    assert_eq!(picker.preview_scroll, 1);
    picker.handle_key(shift_key(KeyCode::Char('K')));
    assert_eq!(picker.preview_scroll, 0);
    // Should not go below 0
    picker.handle_key(shift_key(KeyCode::Char('K')));
    assert_eq!(picker.preview_scroll, 0);
}

#[test]
fn pr_picker_shift_h_l_scrolls_preview_horizontally() {
    let mut picker = test_picker();
    assert_eq!(picker.preview_horizontal_scroll, 0);
    picker.handle_key(shift_key(KeyCode::Char('L')));
    assert_eq!(picker.preview_horizontal_scroll, HORIZONTAL_SCROLL_COLS);
    picker.handle_key(shift_key(KeyCode::Char('H')));
    assert_eq!(picker.preview_horizontal_scroll, 0);
}

#[test]
fn pr_picker_mouse_scroll_clamps_preview_to_visible_content() {
    let mut picker = test_picker();
    let cols = 100;
    let rows = 20;
    let content_h = PrListPicker::preview_content_height_for_surface(cols, rows).unwrap();
    let preview_len = picker.preview_lines().len();
    let max_scroll = picker.preview_max_scroll(preview_len, content_h);

    for _ in 0..200 {
        let result = picker.handle_mouse_scroll(MouseEventKind::ScrollDown, cols, rows);
        assert!(matches!(result, EventResult::Consumed));
    }

    assert_eq!(picker.preview_scroll, max_scroll);
}

#[test]
fn pr_picker_mouse_scroll_ignored_without_split_preview_panel() {
    let mut picker = test_picker();
    let result = picker.handle_mouse_scroll(MouseEventKind::ScrollDown, 40, 20);
    assert!(matches!(result, EventResult::Ignored));
}

#[test]
fn navigate_to_second_pr_and_open() {
    let mut picker = test_picker();
    picker.handle_key(key(KeyCode::Char('j')));
    let result = picker.handle_key(key(KeyCode::Char('o')));
    match result {
        EventResult::Action(Action::App(AppAction::Integration(IntegrationAction::OpenPrUrl(
            url,
        )))) => {
            assert_eq!(url, "https://github.com/user/repo/pull/41");
        }
        _ => panic!("Expected OpenPrUrl for PR #41"),
    }
}

#[test]
fn find_by_number() {
    let mut picker = test_picker();
    picker.handle_key(key(KeyCode::Char('/')));
    picker.handle_key(key(KeyCode::Char('#')));
    picker.handle_key(key(KeyCode::Char('4')));
    picker.handle_key(key(KeyCode::Char('0')));
    // Should match #40 "Update dependencies"
    assert!(!picker.filtered.is_empty());
    let top_entry = &picker.entries[picker.filtered[0]];
    assert_eq!(top_entry.number, 40);
}

#[test]
fn find_mode_navigation() {
    let mut picker = test_picker();
    picker.handle_key(key(KeyCode::Char('/')));
    picker.handle_key(ctrl_key('n'));
    assert_eq!(picker.selected, 1);
    picker.handle_key(ctrl_key('p'));
    assert_eq!(picker.selected, 0);
    picker.handle_key(key(KeyCode::Down));
    assert_eq!(picker.selected, 1);
    picker.handle_key(key(KeyCode::Up));
    assert_eq!(picker.selected, 0);
}

#[test]
fn pr_preview_lists_header_branch_labels_date_and_body() {
    let picker = test_picker();
    let lines = picker.preview_lines();
    let texts: Vec<&str> = lines.iter().map(|(t, _)| t.as_str()).collect();
    assert_eq!(
        texts,
        vec![
            "[OPEN] by alice",
            "Branch: feature/dark-mode",
            "Labels: enhancement",
            "Created: 2025-01-15",
            "",
            "This PR adds dark mode.",
            "",
            "Details here.",
        ]
    );
    assert_eq!(lines[0].1.fg, Some(Color::Green));
    assert!(lines[0].1.bold);
    assert_eq!(lines[1].1.fg, Some(Color::Cyan));
    assert!(lines[3].1.dim);
    assert_eq!(lines[4].1, CellStyle::new());
}

#[test]
fn pr_preview_without_labels_or_body() {
    let mut picker = test_picker();
    picker.handle_key(key(KeyCode::Char('j')));
    picker.handle_key(key(KeyCode::Char('j')));
    let lines = picker.preview_lines();
    let texts: Vec<&str> = lines.iter().map(|(t, _)| t.as_str()).collect();
    assert_eq!(
        texts,
        vec![
            "[CLOSED] by charlie",
            "Branch: chore/deps",
            "Labels: chore, deps",
            "Created: 2025-01-13",
            "",
            "(no description)",
        ]
    );
    assert_eq!(lines[0].1.fg, Some(Color::Red));
    picker.handle_key(key(KeyCode::Char('k')));
    let merged = picker.preview_lines();
    assert_eq!(merged[0].0, "[MERGED] by bob");
    assert_eq!(merged[0].1.fg, Some(Color::Magenta));
    assert_eq!(merged[2].0, "Created: 2025-01-14");
}

#[test]
fn pr_preview_when_nothing_matches() {
    let mut picker = test_picker();
    picker.handle_key(key(KeyCode::Char('/')));
    picker.handle_key(key(KeyCode::Char('z')));
    picker.handle_key(key(KeyCode::Char('z')));
    assert!(picker.filtered.is_empty());
    assert_eq!(picker.selected, 0);
    let lines = picker.preview_lines();
    assert_eq!(lines.len(), 1);
    assert_eq!(lines[0].0, "No PR selected");
    assert!(lines[0].1.dim);
    let result = picker.handle_key(key(KeyCode::Enter));
    assert!(matches!(result, EventResult::Consumed));
    assert!(!picker.find_active);
    let result = picker.handle_key(key(KeyCode::Char('o')));
    assert!(matches!(result, EventResult::Consumed));
}

#[test]
fn find_ranks_best_score_first_and_keeps_order_on_ties() {
    let mut picker = PrListPicker::new(vec![
        entry_titled(7, "alpha beta"),
        entry_titled(8, "beta alpha"),
        entry_titled(9, "alpha beta"),
        entry_titled(10, "gamma"),
    ]);
    picker.handle_key(key(KeyCode::Char('/')));
    picker.handle_key(key(KeyCode::Char('a')));
    picker.handle_key(key(KeyCode::Char('l')));
    let expected_scores: Vec<(i32, usize)> = picker
        .entries
        .iter()
        .enumerate()
        .filter_map(|(i, e)| {
            fuzzy_match(&format!("#{} {}", e.number, e.title), "al").map(|(s, _)| (s, i))
        })
        .collect();
    let mut expected = expected_scores.clone();
    expected.sort_by(|a, b| b.0.cmp(&a.0));
    let expected: Vec<usize> = expected.into_iter().map(|(_, i)| i).collect();
    assert_eq!(picker.filtered, expected);
    assert_eq!(picker.filtered.len(), 3);
    // Entries 0 and 2 have the same title length and score; they keep their order.
    let pos0 = picker.filtered.iter().position(|&i| i == 0).unwrap();
    let pos2 = picker.filtered.iter().position(|&i| i == 2).unwrap();
    assert!(pos0 < pos2);
    picker.handle_key(key(KeyCode::Backspace));
    picker.handle_key(key(KeyCode::Backspace));
    assert!(picker.find_input.is_empty());
    assert_eq!(picker.filtered, vec![0, 1, 2, 3]);
}

fn entry_titled(number: u64, title: &str) -> PrEntry {
    PrEntry {
        number,
        title: title.to_string(),
        body: String::new(),
        url: format!("https://example.com/{}", number),
        state: "OPEN".to_string(),
        author: "a".to_string(),
        head_ref: "b".to_string(),
        created_at: "2025-01-01T00:00:00Z".to_string(),
        labels: vec![],
    }
}

#[test]
fn selection_is_clamped_when_filter_shrinks_list() {
    let mut picker = test_picker();
    picker.handle_key(key(KeyCode::Char('j')));
    picker.handle_key(key(KeyCode::Char('j')));
    picker.handle_key(key(KeyCode::Char('/')));
    picker.handle_key(key(KeyCode::Char('d')));
    picker.handle_key(key(KeyCode::Char('a')));
    picker.handle_key(key(KeyCode::Char('r')));
    picker.handle_key(key(KeyCode::Char('k')));
    assert_eq!(picker.filtered.len(), 1);
    assert_eq!(picker.selected, 0);
    picker.handle_key(ctrl_key('u'));
    assert_eq!(picker.filtered.len(), 3);
    assert_eq!(picker.selected, 0);
}

#[test]
fn preview_scroll_limits_and_popup_size() {
    let picker = test_picker();
    assert_eq!(PrListPicker::popup_size(100, 20), (80, 16));
    assert_eq!(PrListPicker::popup_size(2, 2), (3, 3));
    assert_eq!(PrListPicker::preview_content_height_for_surface(100, 20), Some(14));
    assert_eq!(PrListPicker::preview_content_height_for_surface(70, 20), None);
    assert_eq!(picker.preview_max_scroll(10, 4), 6);
    assert_eq!(picker.preview_max_scroll(3, 4), 0);
    assert_eq!(picker.preview_max_scroll(10, 0), 0);
    let lines = vec![
        ("short".to_string(), CellStyle::new()),
        ("a somewhat longer line".to_string(), CellStyle::new()),
    ];
    assert_eq!(picker.preview_max_horizontal_scroll(&lines, 10), 12);
    assert_eq!(picker.preview_max_horizontal_scroll(&lines, 0), 0);
    assert_eq!(picker.preview_max_horizontal_scroll(&lines, 40), 0);
}

#[test]
fn pr_picker_scroll_keeps_the_selection_shown() {
    let mut picker = test_picker();
    picker.selected = 2;
    picker.keep_selected_visible(2);
    assert_eq!(picker.scroll_offset, 1);
    picker.selected = 0;
    picker.keep_selected_visible(2);
    assert_eq!(picker.scroll_offset, 0);
    picker.keep_selected_visible(0);
    assert_eq!(picker.scroll_offset, 0);
}
