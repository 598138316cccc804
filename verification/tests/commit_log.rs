use gargo::command::commit_log_runtime::{
    CommitDetail, CommitEntry, CommitFileEntry, CommitLogCommand, CommitLogEvent,
};
use gargo::input::action::{Action, AppAction, IntegrationAction, UiAction, WorkspaceAction};
use gargo::input::key::{KeyCode, KeyEvent, KeyModifiers, MouseEventKind};
use gargo::ui::framework::cell::{CellStyle, Color};
use gargo::ui::framework::component::EventResult;
use gargo::ui::overlays::git::commit_log::{
    diff_line_style, visible_commit_indices, CommitLogView, ViewMode,
};

fn key(code: KeyCode) -> KeyEvent {
    KeyEvent::new(code, KeyModifiers::none())
}

fn shift_key(c: char) -> KeyEvent {
    KeyEvent::new(KeyCode::Char(c), KeyModifiers::shift())
}

fn ctrl_key(c: char) -> KeyEvent {
    KeyEvent::new(KeyCode::Char(c), KeyModifiers::control())
}

fn commit(hash: &str, full_hash: &str, date: &str, message: &str) -> CommitEntry {
    CommitEntry {
        hash: hash.to_string(),
        full_hash: full_hash.to_string(),
        author: "Test".to_string(),
        date: date.to_string(),
        message: message.to_string(),
    }
}

fn test_view() -> CommitLogView {
    CommitLogView {
        project_root: ".".to_string(),
        branch: "main".to_string(),
        commits: vec![
            commit("abc1234", "abc1234def5678", "2 days ago", "Fix bug in parser"),
            commit("def5678", "def5678ghi9012", "3 days ago", "Add new feature"),
            commit("ghi9012", "ghi9012jkl3456", "5 days ago", "Refactor module"),
        ],
        selected: 0,
        scroll_offset: 0,
        view_mode: ViewMode::List,
        detail: None,
        detail_scroll: 0,
        detail_horizontal_scroll: 0,
        diff_lines: vec![
            "diff --git a/src/foo.rs b/src/foo.rs".to_string(),
            "@@ -1,3 +1,5 @@".to_string(),
            " context".to_string(),
            "+added".to_string(),
            "-removed".to_string(),
        ],
        diff_scroll: 0,
        diff_horizontal_scroll: 0,
        diff_loading: false,
        find_active: false,
        find_input: String::new(),
        has_runtime: false,
        pending: Vec::new(),
        loading: false,
        has_more: false,
        message: None,
    }
}

fn test_detail() -> CommitDetail {
    CommitDetail {
        full_hash: "abc1234def5678".to_string(),
        author: "Test".to_string(),
        author_email: "test@example.com".to_string(),
        date: "2 days ago".to_string(),
        message: "Fix bug\n\nDetailed description".to_string(),
        files: vec![CommitFileEntry {
            path: "src/foo.rs".to_string(),
            status: 'M',
        }],
        diff_lines: vec!["+added".to_string(), "-removed".to_string()],
    }
}

#[test]
fn move_down_up() {
    let mut view = test_view();
    assert_eq!(view.selected, 0);
    view.move_down();
    assert_eq!(view.selected, 1);
    view.move_down();
    assert_eq!(view.selected, 2);
    view.move_down();
    assert_eq!(view.selected, 2); // can't go past end
    view.move_up();
    assert_eq!(view.selected, 1);
}

#[test]
fn key_j_moves_down() {
    let mut view = test_view();
    view.handle_key(key(KeyCode::Char('j')));
    assert_eq!(view.selected, 1);
}

#[test]
fn key_k_moves_up() {
    let mut view = test_view();
    view.selected = 2;
    view.handle_key(key(KeyCode::Char('k')));
    assert_eq!(view.selected, 1);
}

#[test]
fn key_q_closes() {
    let mut view = test_view();
    let result = view.handle_key(key(KeyCode::Char('q')));
    assert!(matches!(
        result,
        EventResult::Action(Action::Ui(UiAction::CloseCommitLog))
    ));
}

#[test]
fn key_esc_closes() {
    let mut view = test_view();
    let result = view.handle_key(key(KeyCode::Esc));
    assert!(matches!(
        result,
        EventResult::Action(Action::Ui(UiAction::CloseCommitLog))
    ));
}

#[test]
fn enter_opens_commit_diff_view() {
    let mut view = test_view();
    let result = view.handle_key(key(KeyCode::Enter));
    assert!(matches!(result, EventResult::Action(_)));
}

#[test]
fn exit_detail_mode_with_esc() {
    let mut view = test_view();
    view.view_mode = ViewMode::Detail;
    view.handle_key(key(KeyCode::Esc));
    assert_eq!(view.view_mode, ViewMode::List);
}

#[test]
fn exit_detail_mode_with_backspace() {
    let mut view = test_view();
    view.view_mode = ViewMode::Detail;
    view.handle_key(key(KeyCode::Backspace));
    assert_eq!(view.view_mode, ViewMode::List);
}

#[test]
fn shift_j_scrolls_diff_down() {
    let mut view = test_view();
    view.handle_key(shift_key('J'));
    assert_eq!(view.diff_scroll, 1);
}

#[test]
fn shift_k_scrolls_diff_up() {
    let mut view = test_view();
    view.diff_scroll = 3;
    view.handle_key(shift_key('K'));
    assert_eq!(view.diff_scroll, 2);
}

#[test]
fn find_mode() {
    let mut view = test_view();
    view.handle_key(key(KeyCode::Char('/')));
    assert!(view.find_active);
    view.handle_key(key(KeyCode::Char('b')));
    assert_eq!(view.find_input, "b");
    view.handle_key(key(KeyCode::Esc));
    assert!(!view.find_active);
}

#[test]
fn commit_log_ctrl_q_closes() {
    let mut view = test_view();
    let result = view.handle_key(ctrl_key('q'));
    assert!(matches!(
        result,
        EventResult::Action(Action::Ui(UiAction::CloseCommitLog))
    ));
}

#[test]
fn apply_page_loaded() {
    let mut view = test_view();
    view.commits.clear();
    view.loading = true;
    view.message = Some("Loading commits...".to_string());
    view.apply_event(CommitLogEvent::PageLoaded {
        commits: vec![CommitEntry {
            hash: "aaa".to_string(),
            full_hash: "aaabbb".to_string(),
            author: "X".to_string(),
            date: "1d".to_string(),
            message: "msg".to_string(),
        }],
        has_more: false,
        is_append: false,
    });
    assert_eq!(view.commits.len(), 1);
    assert!(!view.loading);
    assert!(view.message.is_none());
}

#[test]
fn apply_page_append() {
    let mut view = test_view();
    let initial_len = view.commits.len();
    view.apply_event(CommitLogEvent::PageLoaded {
        commits: vec![CommitEntry {
            hash: "new".to_string(),
            full_hash: "newww".to_string(),
            author: "X".to_string(),
            date: "1d".to_string(),
            message: "appended".to_string(),
        }],
        has_more: false,
        is_append: true,
    });
    assert_eq!(view.commits.len(), initial_len + 1);
}

#[test]
fn new_view_requests_first_page() {
    let mut view = CommitLogView::new("/repo".to_string(), None, true);
    assert_eq!(view.branch, "???");
    assert!(view.loading);
    assert_eq!(view.message.as_deref(), Some("Loading commits..."));
    let cmds = view.take_commands();
    assert_eq!(
        cmds,
        vec![CommitLogCommand::LoadPage {
            project_root: "/repo".to_string(),
            skip: 0,
            count: 100,
        }]
    );
    assert!(view.pending.is_empty());
    let quiet = CommitLogView::new("/repo".to_string(), Some("main".to_string()), false);
    assert_eq!(quiet.branch, "main");
    assert!(quiet.pending.is_empty());
}

#[test]
fn moving_requests_details_and_prefetches_near_end() {
    let mut view = test_view();
    view.has_runtime = true;
    view.has_more = true;
    view.handle_key(key(KeyCode::Char('j')));
    assert!(view.diff_lines.is_empty());
    assert!(view.diff_loading);
    assert!(view.loading);
    assert_eq!(
        view.take_commands(),
        vec![
            CommitLogCommand::LoadDetail {
                project_root: ".".to_string(),
                hash: "def5678ghi9012".to_string(),
            },
            CommitLogCommand::LoadPage {
                project_root: ".".to_string(),
                skip: 3,
                count: 100,
            },
        ]
    );
    view.handle_key(key(KeyCode::Char('k')));
    assert_eq!(
        view.take_commands(),
        vec![CommitLogCommand::LoadDetail {
            project_root: ".".to_string(),
            hash: "abc1234def5678".to_string(),
        }]
    );
}

#[test]
fn detail_loaded_fills_diff_panel_for_selected_commit_only() {
    let mut view = test_view();
    view.diff_loading = true;
    view.diff_scroll = 4;
    view.apply_event(CommitLogEvent::DetailLoaded {
        hash: "other".to_string(),
        detail: test_detail(),
    });
    assert!(!view.diff_loading);
    assert_eq!(view.diff_lines.len(), 5);
    assert_eq!(view.diff_scroll, 4);
    view.apply_event(CommitLogEvent::DetailLoaded {
        hash: "abc1234def5678".to_string(),
        detail: test_detail(),
    });
    assert_eq!(view.diff_lines, vec!["+added".to_string(), "-removed".to_string()]);
    assert_eq!(view.diff_scroll, 0);
    view.view_mode = ViewMode::Detail;
    view.apply_event(CommitLogEvent::DetailLoaded {
        hash: "abc1234def5678".to_string(),
        detail: test_detail(),
    });
    assert!(view.detail.is_some());
}

#[test]
fn error_event_stops_loading_and_shows_message() {
    let mut view = test_view();
    view.loading = true;
    view.diff_loading = true;
    view.apply_event(CommitLogEvent::Error {
        message: "git failed".to_string(),
    });
    assert!(!view.loading);
    assert!(!view.diff_loading);
    assert_eq!(view.message.as_deref(), Some("git failed"));
}

#[test]
fn reload_and_copy_hash() {
    let mut view = test_view();
    let result = view.handle_key(key(KeyCode::Char('y')));
    match result {
        EventResult::Action(Action::App(AppAction::Integration(
            IntegrationAction::CopyToClipboard { text, description },
        ))) => {
            assert_eq!(text, "abc1234def5678");
            assert_eq!(description, "commit hash");
        }
        _ => panic!("Expected CopyToClipboard action"),
    }
    let result = view.handle_key(key(KeyCode::Char('o')));
    match result {
        EventResult::Action(Action::App(AppAction::Workspace(
            WorkspaceAction::OpenCommitDiffView(hash),
        ))) => assert_eq!(hash, "abc1234def5678"),
        _ => panic!("Expected OpenCommitDiffView action"),
    }
    view.has_runtime = true;
    view.handle_key(key(KeyCode::Char('r')));
    assert!(view.commits.is_empty());
    assert!(view.diff_lines.is_empty());
    assert_eq!(view.message.as_deref(), Some("Loading commits..."));
    assert_eq!(view.pending.len(), 1);
    let result = view.handle_key(key(KeyCode::Enter));
    assert!(matches!(result, EventResult::Consumed));
}

#[test]
fn find_prompt_editing() {
    let mut view = test_view();
    view.handle_key(key(KeyCode::Char('/')));
    for c in "fix parser".chars() {
        view.handle_key(key(KeyCode::Char(c)));
    }
    view.handle_key(ctrl_key('w'));
    assert_eq!(view.find_input, "fix ");
    view.handle_key(ctrl_key('x'));
    assert_eq!(view.find_input, "fix ");
    view.handle_key(key(KeyCode::Backspace));
    assert_eq!(view.find_input, "fix");
    view.handle_key(key(KeyCode::Enter));
    assert!(!view.find_active);
    assert_eq!(view.find_input, "fix");
}

#[test]
fn mouse_wheel_moves_list_or_scrolls_diff() {
    let mut view = test_view();
    view.handle_mouse_scroll(MouseEventKind::ScrollDown, 5, 5, 120, 40);
    assert_eq!(view.selected, 2);
    view.handle_mouse_scroll(MouseEventKind::ScrollUp, 5, 5, 120, 40);
    assert_eq!(view.selected, 0);
    view.handle_mouse_scroll(MouseEventKind::ScrollDown, 100, 5, 120, 40);
    assert_eq!(view.diff_scroll, 0);
    view.diff_lines = (0..50).map(|i| format!("line {}", i)).collect();
    view.handle_mouse_scroll(MouseEventKind::ScrollDown, 100, 5, 120, 40);
    assert_eq!(view.diff_scroll, 3);
    view.view_mode = ViewMode::Detail;
    view.handle_mouse_scroll(MouseEventKind::ScrollDown, 100, 5, 120, 40);
    assert_eq!(view.detail_scroll, 3);
}

#[test]
fn detail_lines_describe_the_selected_commit() {
    let mut view = test_view();
    let loading = view.build_detail_lines();
    let texts: Vec<&str> = loading.iter().map(|(t, _)| t.as_str()).collect();
    assert_eq!(texts, vec!["Commit abc1234def5678", "", "Loading..."]);
    view.detail = Some(test_detail());
    let lines = view.build_detail_lines();
    let texts: Vec<&str> = lines.iter().map(|(t, _)| t.as_str()).collect();
    assert_eq!(
        texts,
        vec![
            "Commit abc1234def5678",
            "Author: Test <test@example.com>",
            "Date:   2 days ago",
            "",
            "Fix bug",
            "",
            "Detailed description",
            "",
            "Files changed (1):",
            "  M src/foo.rs",
            "",
            "+added",
            "-removed",
        ]
    );
    assert_eq!(lines[9].1.fg, Some(Color::Yellow));
    assert_eq!(lines[11].1.fg, Some(Color::Green));
    assert_eq!(lines[12].1.fg, Some(Color::Red));
}

#[test]
fn diff_line_styles() {
    assert_eq!(diff_line_style("+x").fg, Some(Color::Green));
    assert_eq!(diff_line_style("-x").fg, Some(Color::Red));
    assert_eq!(diff_line_style("@@ -1 +1 @@").fg, Some(Color::Cyan));
    assert!(diff_line_style("diff --git a b").bold);
    assert!(diff_line_style("index 123..456").bold);
    assert!(diff_line_style(" context").dim);
    assert_eq!(diff_line_style("").fg, None::<Color>);
    let _ = CellStyle::new();
}

fn log_with(commits: Vec<CommitEntry>) -> CommitLogView {
    let mut view = CommitLogView::new(".".to_string(), Some("main".to_string()), false);
    view.commits = commits;
    view
}

#[test]
fn find_keeps_commits_by_message_author_or_hash() {
    let mut commits = vec![
        commit("abc1234", "abc1234ffff", "2024-01-01", "Fix Parser bug"),
        commit("def5678", "def5678ffff", "2024-01-02", "Add tests"),
        commit("0a0b0c0", "0a0b0c0ffff", "2024-01-03", "Refactor"),
    ];
    commits[2].author = "Alice".to_string();
    assert_eq!(visible_commit_indices(&commits, ""), vec![0, 1, 2]);
    assert_eq!(visible_commit_indices(&commits, "PARSER"), vec![0]);
    assert_eq!(visible_commit_indices(&commits, "def5"), vec![1]);
    assert_eq!(visible_commit_indices(&commits, "alice"), vec![2]);
    assert_eq!(visible_commit_indices(&commits, "t"), vec![0, 1, 2]);
    assert_eq!(visible_commit_indices(&commits, "zzz"), Vec::<usize>::new());
}

#[test]
fn scrolling_keeps_the_selected_commit_shown() {
    let commits: Vec<CommitEntry> = (0..20)
        .map(|i| commit(&format!("h{i:06}"), "f", "d", &format!("msg {i}")))
        .collect();
    let mut view = log_with(commits);
    view.selected = 12;
    view.keep_selected_visible(5);
    assert_eq!(view.scroll_offset, 8);
    view.selected = 3;
    view.keep_selected_visible(5);
    assert_eq!(view.scroll_offset, 3);
    view.selected = 5;
    view.keep_selected_visible(5);
    assert_eq!(view.scroll_offset, 3);

    // With a find active the row counts among the kept commits only.
    view.find_input = "msg 1".to_string();
    view.selected = 19;
    view.scroll_offset = 0;
    view.keep_selected_visible(4);
    // Kept: 1, 10..=19, so commit 19 is row 10.
    assert_eq!(view.scroll_offset, 7);

    // A hidden selection counts as row 0.
    view.selected = 2;
    view.keep_selected_visible(4);
    assert_eq!(view.scroll_offset, 0);
}

#[test]
fn find_cursor_follows_the_prompt() {
    let mut view = log_with(Vec::new());
    assert_eq!(view.commit_find_cursor(4, 2, 40, 20), None);
    view.find_active = true;
    view.find_input = "ab".to_string();
    assert_eq!(view.commit_find_cursor(4, 2, 40, 20), Some((8, 20)));
    // The prompt is cut to the panel's inner width.
    assert_eq!(view.commit_find_cursor(4, 2, 4, 1), Some((7, 2)));
}
