use std::path::PathBuf;

use gargo::input::action::{Action, AppAction, ProjectAction, UiAction};
use gargo::input::key::{KeyCode, KeyEvent, KeyModifiers};
use gargo::ui::framework::component::EventResult;
use gargo::ui::overlays::project::root_picker::{
    ListedEntry, ProjectRootPopup, RootCandidate, RootRequest,
};
use gargo::ui::text_input::TextInput;

fn key(code: KeyCode) -> KeyEvent {
    KeyEvent::new(code, KeyModifiers::none())
}

fn ctrl(c: char) -> KeyEvent {
    KeyEvent::new(KeyCode::Char(c), KeyModifiers::control())
}

fn dir(name: &str, parent: &str) -> ListedEntry {
    ListedEntry {
        name: name.to_string(),
        path: format!("{}/{}", parent, name),
        is_dir: true,
        is_file: false,
    }
}

#[test]
fn parse_parent_and_query_works_for_file_like_and_dir_like_paths() {
    let (parent, query) = ProjectRootPopup::parse_parent_and_query("/a/b/c").unwrap();
    assert_eq!(PathBuf::from(parent), PathBuf::from("/a/b"));
    assert_eq!(query, "c");

    let (parent2, query2) = ProjectRootPopup::parse_parent_and_query("/a/b/c/").unwrap();
    assert_eq!(PathBuf::from(parent2), PathBuf::from("/a/b/c"));
    assert!(query2.is_empty());
}

#[test]
fn ctrl_w_deletes_previous_segment() {
    let mut popup = ProjectRootPopup {
        input: TextInput::with_text("/tmp/foo/bar"),
        candidates: Vec::new(),
        selected: 0,
        selection_active: false,
        error_message: None,
        request: None,
    };
    popup.delete_prev_segment();
    assert_eq!(popup.input.text, "/tmp/foo/");
}

#[test]
fn relative_and_empty_inputs_have_no_parent() {
    assert!(ProjectRootPopup::parse_parent_and_query("").is_none());
    assert!(ProjectRootPopup::parse_parent_and_query("rel/path").is_none());
}

#[test]
fn listing_is_filtered_ranked_and_completed() {
    let mut popup = ProjectRootPopup::new("/work/re".to_string());
    assert_eq!(
        popup.request,
        Some(RootRequest::ListDirectory {
            parent: "/work".to_string(),
            query: "re".to_string(),
        })
    );
    popup.apply_listing(vec![
        dir("repo_b", "/work"),
        dir(".hidden_re", "/work"),
        dir("other", "/work"),
        dir("Repo_a", "/work"),
        ListedEntry {
            name: "readme".to_string(),
            path: "/work/readme".to_string(),
            is_dir: false,
            is_file: true,
        },
    ]);
    assert!(popup.request.is_none());
    let names: Vec<&str> = popup.candidates.iter().map(|c| c.name.as_str()).collect();
    // An exact-case match scores above a case-folded one.
    assert_eq!(names, vec!["repo_b", "Repo_a"]);
    popup.handle_key(ctrl('n'));
    assert!(popup.selection_active);
    assert_eq!(popup.selected, 1);
    popup.handle_key(key(KeyCode::Tab));
    assert_eq!(popup.input.text, "/work/Repo_a/");
    assert_eq!(
        popup.request,
        Some(RootRequest::ListDirectory {
            parent: "/work/Repo_a/".to_string(),
            query: String::new(),
        })
    );
    assert!(!popup.selection_active);
}

#[test]
fn enter_asks_for_a_check_and_applies_the_answer() {
    let mut popup = ProjectRootPopup::new("  /srv/app  ".to_string());
    popup.handle_key(key(KeyCode::Enter));
    assert_eq!(
        popup.request,
        Some(RootRequest::CheckDirectory {
            path: "/srv/app".to_string(),
        })
    );
    let r = popup.apply_check(false, false, String::new());
    assert_eq!(r, EventResult::Consumed);
    assert_eq!(popup.error_message.as_deref(), Some("Path does not exist"));
    popup.handle_key(key(KeyCode::Enter));
    let r = popup.apply_check(true, false, String::new());
    assert_eq!(r, EventResult::Consumed);
    assert_eq!(popup.error_message.as_deref(), Some("Path is not a directory"));
    popup.handle_key(key(KeyCode::Enter));
    let r = popup.apply_check(true, true, "/srv/app".to_string());
    assert_eq!(
        r,
        EventResult::Action(Action::App(AppAction::Project(
            ProjectAction::ChangeProjectRoot("/srv/app".to_string())
        )))
    );
}

#[test]
fn enter_refuses_empty_and_relative_paths() {
    let mut popup = ProjectRootPopup::new(String::new());
    popup.handle_key(key(KeyCode::Enter));
    assert_eq!(popup.error_message.as_deref(), Some("Path is empty"));
    popup.handle_key(key(KeyCode::Char('x')));
    assert!(popup.error_message.is_none());
    popup.handle_key(key(KeyCode::Enter));
    assert_eq!(popup.error_message.as_deref(), Some("Path must be absolute"));
    assert_eq!(
        popup.handle_key(ctrl('q')),
        EventResult::Action(Action::Ui(UiAction::CloseProjectRootPopup))
    );
    let _ = RootCandidate {
        path: String::new(),
        name: String::new(),
        score: 0,
    };
}

#[test]
fn tab_completes_selected_candidate_and_enter_dispatches() {
    let workspace = "/tmp/work/workspace";
    let mut popup = ProjectRootPopup::new(format!("{}/repo_a", workspace));
    popup.handle_key(ctrl('w'));
    // The application lists the workspace the popup asked for.
    popup.apply_listing(vec![dir("repo_a", workspace), dir("repo_b", workspace)]);
    popup.handle_key(ctrl('n'));
    let _ = popup.handle_key(key(KeyCode::Tab));

    let result = popup.handle_key(key(KeyCode::Enter));
    assert_eq!(result, EventResult::Consumed);
    // The application checks the directory and canonicalizes it.
    let repo_b = format!("{}/repo_b", workspace);
    let result = popup.apply_check(true, true, repo_b.clone());
    match result {
        EventResult::Action(Action::App(AppAction::Project(ProjectAction::ChangeProjectRoot(
            path,
        )))) => {
            assert_eq!(PathBuf::from(path), PathBuf::from(repo_b));
        }
        _ => panic!("expected ChangeProjectRoot action"),
    }
}

#[test]
fn enter_invalid_absolute_path_keeps_popup_open() {
    let mut popup = ProjectRootPopup::new("/tmp/work".to_string());
    popup.input.set_text("/this/path/does/not/exist".to_string());
    popup.apply_listing(Vec::new());

    let result = popup.handle_key(key(KeyCode::Enter));
    assert!(matches!(result, EventResult::Consumed));
    // The application finds nothing at that path.
    let result = popup.apply_check(false, false, String::new());
    assert!(matches!(result, EventResult::Consumed));
    assert!(popup.error_message.is_some());
}
