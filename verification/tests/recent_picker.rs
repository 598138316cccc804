use gargo::command::recent_projects::RecentProjectEntry;
use gargo::input::action::{Action, AppAction, ProjectAction, UiAction};
use gargo::input::key::{KeyCode, KeyEvent, KeyEventKind, KeyModifiers};
use gargo::ui::framework::component::EventResult;
use gargo::ui::overlays::project::recent_picker::RecentProjectPopup;
use gargo::ui::shared::filtering::fzf_style_match;

fn key(code: KeyCode) -> KeyEvent {
    KeyEvent::new(code, KeyModifiers::none())
}

fn ctrl(c: char) -> KeyEvent {
    KeyEvent::new(KeyCode::Char(c), KeyModifiers::control())
}

fn entry(path: &str) -> RecentProjectEntry {
    RecentProjectEntry {
        project_path: path.to_string(),
        last_open_at: 0,
        last_edit_at: 0,
        last_open_file: None,
        last_edit_file: None,
    }
}

#[test]
fn ctrl_n_and_ctrl_p_move_selection() {
    let mut popup = RecentProjectPopup::new(vec![entry("/tmp/a"), entry("/tmp/b")]);
    assert_eq!(popup.selected, 0);

    popup.handle_key(ctrl('n'));
    assert_eq!(popup.selected, 1);

    popup.handle_key(ctrl('p'));
    assert_eq!(popup.selected, 0);
}

#[test]
fn enter_dispatches_switch_action() {
    let mut popup = RecentProjectPopup::new(vec![entry("/tmp/repo")]);
    let result = popup.handle_key(key(KeyCode::Enter));
    assert_eq!(
        result,
        EventResult::Action(Action::App(AppAction::Project(
            ProjectAction::SwitchToRecentProject("/tmp/repo".to_string())
        )))
    );
}

#[test]
fn typing_filters_candidates_with_fzf_style_match() {
    let mut popup =
        RecentProjectPopup::new(vec![entry("/tmp/gargo2"), entry("/tmp/another_repo")]);
    popup.handle_key(key(KeyCode::Char('g')));
    popup.handle_key(key(KeyCode::Char('2')));
    assert_eq!(popup.candidates.len(), 1);
    assert_eq!(
        popup.entries[popup.candidates[0].index].project_path,
        "/tmp/gargo2"
    );
}

#[test]
fn selection_wraps_and_ties_sort_by_path() {
    let mut popup = RecentProjectPopup::new(vec![
        entry("/w/zz"),
        entry("/w/aa"),
        entry("/w/mm"),
        entry("/other"),
    ]);
    popup.handle_key(key(KeyCode::Up));
    assert_eq!(popup.selected, 3);
    popup.handle_key(key(KeyCode::Down));
    assert_eq!(popup.selected, 0);
    popup.handle_key(key(KeyCode::Char('w')));
    let scores: Vec<Option<i32>> = popup
        .entries
        .iter()
        .map(|e| fzf_style_match(&e.project_path, "w").map(|(s, _)| s))
        .collect();
    assert_eq!(scores[0], scores[1]);
    assert_eq!(scores[1], scores[2]);
    let order: Vec<&str> = popup
        .candidates
        .iter()
        .map(|c| popup.entries[c.index].project_path.as_str())
        .collect();
    assert_eq!(order, vec!["/w/aa", "/w/mm", "/w/zz"]);
    assert!(popup.candidates.iter().all(|c| Some(c.score) == scores[c.index]));
}

#[test]
fn editing_keys_and_empty_results() {
    let mut popup = RecentProjectPopup::new(vec![entry("/tmp/repo")]);
    popup.handle_key(key(KeyCode::Char('z')));
    popup.handle_key(key(KeyCode::Char('z')));
    assert!(popup.candidates.is_empty());
    assert_eq!(popup.selected, 0);
    let result = popup.handle_key(key(KeyCode::Enter));
    assert_eq!(
        result,
        EventResult::Action(Action::Ui(UiAction::CloseRecentProjectPopup))
    );
    popup.handle_key(ctrl('a'));
    assert_eq!(popup.input.cursor, 0);
    popup.handle_key(ctrl('k'));
    assert_eq!(popup.input.text, "");
    assert_eq!(popup.candidates.len(), 1);
    for c in "tmp rep".chars() {
        popup.handle_key(key(KeyCode::Char(c)));
    }
    popup.handle_key(ctrl('w'));
    assert_eq!(popup.input.text, "tmp ");
    popup.handle_key(key(KeyCode::Backspace));
    assert_eq!(popup.input.text, "tmp");
    let release = KeyEvent {
        code: KeyCode::Esc,
        modifiers: KeyModifiers::none(),
        kind: KeyEventKind::Release,
    };
    assert_eq!(popup.handle_key(release), EventResult::Consumed);
    assert_eq!(
        popup.handle_key(key(KeyCode::Esc)),
        EventResult::Action(Action::Ui(UiAction::CloseRecentProjectPopup))
    );
}
