use gargo::input::action::{Action, AppAction, IntegrationAction, UiAction};
use gargo::input::key::{KeyCode, KeyEvent, KeyModifiers, MouseEventKind};
use gargo::ui::framework::cell::Color;
use gargo::ui::framework::component::EventResult;
use gargo::ui::overlays::github::issue_picker::{
    comments_from_array, parse_issue_comments, CommentsField, IssueCommentEntry, IssueEntry,
    IssueListPicker, RawComment,
};
use gargo::ui::overlays::github::list_keys::HORIZONTAL_SCROLL_COLS;

fn key(code: KeyCode) -> KeyEvent {
    KeyEvent::new(code, KeyModifiers::none())
}

fn ctrl_key(c: char) -> KeyEvent {
    KeyEvent::new(KeyCode::Char(c), KeyModifiers::control())
}

fn shift_key(code: KeyCode) -> KeyEvent {
    KeyEvent::new(code, KeyModifiers::shift())
}

fn test_entries() -> Vec<IssueEntry> {
    vec![
        IssueEntry {
            number: 15,
            title: "Add docs for API".to_string(),
            body: "Please add details for API behavior.".to_string(),
            url: "https://github.com/user/repo/issues/15".to_string(),
            state: "OPEN".to_string(),
            author: "alice".to_string(),
            created_at: "2026-01-01T10:30:00Z".to_string(),
            labels: vec!["docs".to_string()],
            comments: vec![
                IssueCommentEntry {
                    author: "bob".to_string(),
                    body: "I can work on this.".to_string(),
                    created_at: "2026-01-02T09:00:00Z".to_string(),
                },
                IssueCommentEntry {
                    author: "charlie".to_string(),
                    body: "Thanks, assigned.".to_string(),
                    created_at: "2026-01-03T09:00:00Z".to_string(),
                },
            ],
            comment_count: 2,
        },
        IssueEntry {
            number: 12,
            title: "Crash on launch".to_string(),
            body: "Steps to repro".to_string(),
            url: "https://github.com/user/repo/issues/12".to_string(),
            state: "CLOSED".to_string(),
            author: "dora".to_string(),
            created_at: "2026-01-01T08:00:00Z".to_string(),
            labels: vec![],
            comments: vec![],
            comment_count: 0,
        },
    ]
}

fn test_picker() -> IssueListPicker {
    IssueListPicker::new(test_entries())
}

#[test]
fn open_produces_open_issue_url() {
    let mut picker = test_picker();
    let result = picker.handle_key(key(KeyCode::Char('o')));
    match result {
        EventResult::Action(Action::App(AppAction::Integration(
            IntegrationAction::OpenIssueUrl(url),
        ))) => {
            assert_eq!(url, "https://github.com/user/repo/issues/15");
        }
        _ => panic!("Expected OpenIssueUrl action"),
    }
}

#[test]
fn issue_picker_find_mode_filters_entries() {
    let mut picker = test_picker();
    picker.handle_key(key(KeyCode::Char('/')));
    picker.handle_key(key(KeyCode::Char('c')));
    picker.handle_key(key(KeyCode::Char('r')));
    picker.handle_key(key(KeyCode::Char('a')));
    picker.handle_key(key(KeyCode::Char('s')));
    picker.handle_key(key(KeyCode::Char('h')));
    assert_eq!(picker.filtered.len(), 1);
    assert_eq!(picker.entries[picker.filtered[0]].number, 12);
}

#[test]
fn issue_picker_copy_menu_url() {
    let mut picker = test_picker();
    picker.handle_key(key(KeyCode::Char('c')));
    let result = picker.handle_key(key(KeyCode::Char('u')));
    match result {
        EventResult::Action(Action::App(AppAction::Integration(
            IntegrationAction::CopyToClipboard { text, description },
        ))) => {
            assert_eq!(text, "https://github.com/user/repo/issues/15");
            assert_eq!(description, "Issue URL");
        }
        _ => panic!("Expected CopyToClipboard action"),
    }
}

#[test]
fn issue_picker_esc_closes() {
    let mut picker = test_picker();
    let result = picker.handle_key(key(KeyCode::Esc));
    assert!(matches!(
        result,
        EventResult::Action(Action::Ui(UiAction::CloseIssueListPicker))
    ));
}

#[test]
fn issue_picker_ctrl_q_closes() {
    let mut picker = test_picker();
    let result = picker.handle_key(ctrl_key('q'));
    assert!(matches!(
        result,
        EventResult::Action(Action::Ui(UiAction::CloseIssueListPicker))
    ));
}

#[test]
fn issue_picker_shift_j_k_scrolls_preview() {
    let mut picker = test_picker();
    assert_eq!(picker.preview_scroll, 0);
    picker.handle_key(shift_key(KeyCode::Char('J')));
    assert_eq!(picker.preview_scroll, 1);
    picker.handle_key(shift_key(KeyCode::Char('K')));
    assert_eq!(picker.preview_scroll, 0);
}

#[test]
fn issue_picker_shift_h_l_scrolls_preview_horizontally() {
    let mut picker = test_picker();
    assert_eq!(picker.preview_horizontal_scroll, 0);
    picker.handle_key(shift_key(KeyCode::Char('L')));
    assert_eq!(picker.preview_horizontal_scroll, HORIZONTAL_SCROLL_COLS);
    picker.handle_key(shift_key(KeyCode::Char('H')));
    assert_eq!(picker.preview_horizontal_scroll, 0);
}

#[test]
fn issue_picker_mouse_scroll_clamps_preview_to_visible_content() {
    let mut picker = test_picker();
    let cols = 100;
    let rows = 20;
    let content_h = IssueListPicker::preview_content_height_for_surface(cols, rows).unwrap();
    let preview_len = picker.preview_lines().len();
    let max_scroll = picker.preview_max_scroll(preview_len, content_h);

    for _ in 0..200 {
        let result = picker.handle_mouse_scroll(MouseEventKind::ScrollDown, cols, rows);
        assert!(matches!(result, EventResult::Consumed));
    }

    assert_eq!(picker.preview_scroll, max_scroll);
}

#[test]
fn issue_picker_mouse_scroll_ignored_without_split_preview_panel() {
    let mut picker = test_picker();
    let result = picker.handle_mouse_scroll(MouseEventKind::ScrollDown, 40, 20);
    assert!(matches!(result, EventResult::Ignored));
}

#[test]
fn preview_includes_title_description_and_comments() {
    let picker = test_picker();
    let text = picker
        .preview_lines()
        .into_iter()
        .map(|(line, _)| line)
        .collect::<Vec<_>>()
        .join("\n");
    assert!(text.contains("Title: Add docs for API"));
    assert!(text.contains("Description:"));
    assert!(text.contains("Comments (2):"));
    assert!(text.contains("I can work on this."));
}

#[test]
fn issue_preview_lists_every_line_in_order() {
    let picker = test_picker();
    let lines = picker.preview_lines();
    let texts: Vec<&str> = lines.iter().map(|(t, _)| t.as_str()).collect();
    assert_eq!(
        texts,
        vec![
            "[OPEN] by alice",
            "Labels: docs",
            "Created: 2026-01-01",
            "",
            "Title: Add docs for API",
            "",
            "Description:",
            "Please add details for API behavior.",
            "",
            "Comments (2):",
            "- @bob (2026-01-02)",
            "I can work on this.",
            "",
            "- @charlie (2026-01-03)",
            "Thanks, assigned.",
        ]
    );
    assert_eq!(lines[0].1.fg, Some(Color::Green));
    assert_eq!(lines[9].1.fg, Some(Color::Cyan));
    assert!(lines[9].1.bold);
    assert_eq!(lines[10].1.fg, Some(Color::Yellow));
}

#[test]
fn issue_preview_without_comments() {
    let mut picker = test_picker();
    picker.handle_key(key(KeyCode::Char('j')));
    let lines = picker.preview_lines();
    let texts: Vec<&str> = lines.iter().map(|(t, _)| t.as_str()).collect();
    assert_eq!(
        texts,
        vec![
            "[CLOSED] by dora",
            "Created: 2026-01-01",
            "",
            "Title: Crash on launch",
            "",
            "Description:",
            "Steps to repro",
            "",
            "Comments (0):",
            "(no comments)",
        ]
    );
    assert_eq!(lines[0].1.fg, Some(Color::Red));
    assert!(lines[9].1.dim);
}

#[test]
fn issue_preview_comments_missing_or_blank() {
    let mut entries = test_entries();
    entries[1].comment_count = 4;
    entries[0].comments[1].body = "  \n\t".to_string();
    entries[0].state = "open".to_string();
    let mut picker = IssueListPicker::new(entries);
    let lines = picker.preview_lines();
    assert_eq!(lines[0].1.fg, Some(Color::Green));
    assert_eq!(lines.last().unwrap().0, "(empty comment)");
    picker.handle_key(key(KeyCode::Char('j')));
    let lines = picker.preview_lines();
    assert_eq!(lines[lines.len() - 2].0, "Comments (4):");
    assert_eq!(lines.last().unwrap().0, "(comments unavailable in this listing)");
}

#[test]
fn issue_copy_menu_number_and_title() {
    let mut picker = test_picker();
    picker.handle_key(key(KeyCode::Char('c')));
    let result = picker.handle_key(key(KeyCode::Char('n')));
    match result {
        EventResult::Action(Action::App(AppAction::Integration(
            IntegrationAction::CopyToClipboard { text, description },
        ))) => {
            assert_eq!(text, "#15");
            assert_eq!(description, "Issue number");
        }
        _ => panic!("Expected CopyToClipboard action"),
    }
    picker.handle_key(key(KeyCode::Char('c')));
    let result = picker.handle_key(key(KeyCode::Char('t')));
    match result {
        EventResult::Action(Action::App(AppAction::Integration(
            IntegrationAction::CopyToClipboard { text, description },
        ))) => {
            assert_eq!(text, "Add docs for API");
            assert_eq!(description, "Issue title");
        }
        _ => panic!("Expected CopyToClipboard action"),
    }
}

#[test]
fn empty_issue_list_says_so() {
    let mut picker = IssueListPicker::new(vec![]);
    assert_eq!(picker.message.as_deref(), Some("No issues found"));
    assert!(picker.filtered.is_empty());
    let lines = picker.preview_lines();
    assert_eq!(lines[0].0, "No issue selected");
    let result = picker.handle_key(key(KeyCode::Char('o')));
    assert!(matches!(result, EventResult::Consumed));
    picker.handle_key(key(KeyCode::Char('c')));
    let result = picker.handle_key(key(KeyCode::Char('u')));
    assert!(matches!(result, EventResult::Consumed));
    assert!(!picker.copy_menu_active);
}

fn raw(author: Option<&str>, body: Option<&str>, created_at: Option<&str>) -> RawComment {
    RawComment {
        body: body.map(|s| s.to_string()),
        author_login: author.map(|s| s.to_string()),
        created_at: created_at.map(|s| s.to_string()),
    }
}

#[test]
fn comments_list_reports_its_length() {
    let field = CommentsField::List(vec![
        raw(Some("user2"), Some("first comment"), Some("2026-01-02T00:00:00Z")),
        raw(None, None, None),
    ]);
    let (comments, count) = parse_issue_comments(&field);
    assert_eq!(count, 2);
    assert_eq!(comments.len(), 1);
    assert_eq!(comments[0].author, "user2");
    assert_eq!(comments[0].body, "first comment");
}

#[test]
fn comments_connection_reports_total_count() {
    let field = CommentsField::Connection {
        total_count: Some(3),
        nodes: Some(vec![raw(
            Some("user2"),
            Some("hello"),
            Some("2026-01-02T00:00:00Z"),
        )]),
        items: None,
    };
    let (comments, count) = parse_issue_comments(&field);
    assert_eq!(count, 3);
    assert_eq!(comments.len(), 1);

    let field = CommentsField::Connection {
        total_count: None,
        nodes: None,
        items: Some(vec![raw(None, Some("anonymous"), None)]),
    };
    let (comments, count) = parse_issue_comments(&field);
    assert_eq!(count, 1);
    assert_eq!(comments[0].author, "unknown");
    assert_eq!(parse_issue_comments(&CommentsField::Count(Some(7))).1, 7);
    assert_eq!(parse_issue_comments(&CommentsField::Count(None)).1, 0);
    assert_eq!(parse_issue_comments(&CommentsField::Other).1, 0);
    assert!(comments_from_array(&vec![raw(Some("unknown"), Some(""), Some(""))]).is_empty());
}

#[test]
fn issue_picker_scroll_keeps_the_selection_shown() {
    let mut picker = test_picker();
    picker.selected = 2;
    picker.keep_selected_visible(2);
    assert_eq!(picker.scroll_offset, 1);
    picker.selected = 0;
    picker.keep_selected_visible(2);
    assert_eq!(picker.scroll_offset, 0);
    picker.keep_selected_visible(0);
    assert_eq!(picker.scroll_offset, 0);
}
