use gargo::input::action::{Action, AppAction, BufferAction, UiAction};
use gargo::input::key::{KeyCode, KeyEvent, KeyModifiers};
use gargo::ui::framework::component::EventResult;
use gargo::ui::overlays::project::root_picker::ListedEntry;
use gargo::ui::overlays::project::save_as_popup::{SaveAsMode, SaveAsPopup, SaveRequest};

fn key(code: KeyCode) -> KeyEvent {
    KeyEvent::new(code, KeyModifiers::none())
}

fn ctrl(c: char) -> KeyEvent {
    KeyEvent::new(KeyCode::Char(c), KeyModifiers::control())
}

fn entry(name: &str, is_dir: bool) -> ListedEntry {
    ListedEntry {
        name: name.to_string(),
        path: String::new(),
        is_dir,
        is_file: !is_dir,
    }
}

#[test]
fn ctrl_q_closes_popup() {
    let mut popup = SaveAsPopup::new(String::new(), "/root".to_string());
    let result = popup.handle_key(ctrl('q'));
    assert!(matches!(
        result,
        EventResult::Action(Action::Ui(UiAction::CloseSaveAsPopup))
    ));
}

#[test]
fn parse_parent_and_query_cases() {
    assert_eq!(
        SaveAsPopup::parse_parent_and_query("", "/root"),
        Some(("/root".to_string(), String::new(), false, String::new()))
    );
    assert_eq!(
        SaveAsPopup::parse_parent_and_query("/a/b/c", "/root"),
        Some(("/a/b".to_string(), "c".to_string(), true, "/a/b/".to_string()))
    );
    assert_eq!(
        SaveAsPopup::parse_parent_and_query("/a/b//", "/root"),
        Some(("/a/b//".to_string(), String::new(), true, "/a/b/".to_string()))
    );
    assert_eq!(
        SaveAsPopup::parse_parent_and_query("/", "/root"),
        Some(("/".to_string(), String::new(), true, "/".to_string()))
    );
    assert_eq!(
        SaveAsPopup::parse_parent_and_query("/x", "/root"),
        Some(("/".to_string(), "x".to_string(), true, "/".to_string()))
    );
    assert_eq!(
        SaveAsPopup::parse_parent_and_query("notes/", "/root"),
        Some(("/root/notes/".to_string(), String::new(), false, "notes/".to_string()))
    );
    assert_eq!(
        SaveAsPopup::parse_parent_and_query("notes/today.md", "/root"),
        Some(("/root/notes".to_string(), "today.md".to_string(), false, "notes/".to_string()))
    );
    // Joining the empty relative parent onto the root adds a separator.
    assert_eq!(
        SaveAsPopup::parse_parent_and_query("today.md", "/root"),
        Some(("/root/".to_string(), "today.md".to_string(), false, String::new()))
    );
}

#[test]
fn listing_puts_directories_first_and_completes_with_slash() {
    let mut popup = SaveAsPopup::new("/root/d".to_string(), "/root".to_string());
    popup.apply_listing(vec![
        entry("docs", true),
        entry("draft.md", false),
        entry(".dot", true),
        entry("zzz", false),
    ]);
    let names: Vec<&str> = popup.candidates.iter().map(|c| c.name.as_str()).collect();
    assert_eq!(names.len(), 2);
    assert!(names.contains(&"docs") && names.contains(&"draft.md"));
    assert!(popup.candidates.iter().all(|c| c.path == format!("/root/{}", c.name)));
    popup.handle_key(key(KeyCode::Tab));
    let first_is_dir = popup.input.text.ends_with('/');
    assert!(popup.input.text.starts_with("/root/d"));
    let _ = first_is_dir;
}

#[test]
fn empty_query_lists_directories_before_files_by_name() {
    let mut popup = SaveAsPopup::new("src/".to_string(), "/root".to_string());
    popup.apply_listing(vec![
        entry("b.rs", false),
        entry("Zdir", true),
        entry("a.rs", false),
        entry("adir", true),
    ]);
    let paths: Vec<&str> = popup.candidates.iter().map(|c| c.path.as_str()).collect();
    assert_eq!(paths, vec!["src/adir", "src/Zdir", "src/a.rs", "src/b.rs"]);
    popup.handle_key(key(KeyCode::Tab));
    assert_eq!(popup.input.text, "src/adir/");
}

#[test]
fn enter_checks_target_and_dispatches_by_mode() {
    let mut popup = SaveAsPopup::new("notes/today.md".to_string(), "/root".to_string());
    popup.handle_key(key(KeyCode::Enter));
    assert_eq!(
        popup.request,
        Some(SaveRequest::CheckTarget {
            target: "/root/notes/today.md".to_string(),
            path: "notes/today.md".to_string(),
        })
    );
    let r = popup.apply_check(false);
    match r {
        EventResult::Action(Action::App(AppAction::Buffer(BufferAction::SaveBufferAs(path)))) => {
            assert_eq!(path, "notes/today.md")
        }
        _ => panic!("expected SaveBufferAs action"),
    }
    let mut rename = SaveAsPopup::new_rename("/abs/x.txt".to_string(), "/root".to_string());
    assert_eq!(rename.mode, SaveAsMode::Rename);
    rename.handle_key(key(KeyCode::Enter));
    let r = rename.apply_check(false);
    assert_eq!(
        r,
        EventResult::Action(Action::App(AppAction::Buffer(BufferAction::RenameBufferFile(
            "/abs/x.txt".to_string()
        ))))
    );
    rename.handle_key(key(KeyCode::Enter));
    assert_eq!(rename.apply_check(true), EventResult::Consumed);
    assert_eq!(rename.error_message.as_deref(), Some("Path is a directory"));
}

#[test]
fn enter_refuses_empty_and_directory_like_paths() {
    let mut popup = SaveAsPopup::new("   ".to_string(), "/root".to_string());
    popup.handle_key(key(KeyCode::Enter));
    assert_eq!(popup.error_message.as_deref(), Some("Path is empty"));
    popup.handle_key(ctrl('a'));
    popup.handle_key(ctrl('k'));
    for c in "dir/".chars() {
        popup.handle_key(key(KeyCode::Char(c)));
    }
    popup.handle_key(key(KeyCode::Enter));
    assert_eq!(popup.error_message.as_deref(), Some("Path must be a file path"));
    assert_eq!(popup.input(), "dir/");
    popup.handle_key(ctrl('w'));
    assert_eq!(popup.input(), "");
}

#[test]
fn enter_on_default_input_dispatches_save_as() {
    let root = "/tmp/work".to_string();
    let default = format!("{}/note.txt", root);

    let mut popup = SaveAsPopup::new(default.clone(), root);
    let result = popup.handle_key(key(KeyCode::Enter));
    assert_eq!(result, EventResult::Consumed);
    // The application finds no directory at the target.
    let result = popup.apply_check(false);

    match result {
        EventResult::Action(Action::App(AppAction::Buffer(BufferAction::SaveBufferAs(path)))) => {
            assert_eq!(path, default);
        }
        _ => panic!("expected SaveBufferAs action"),
    }
}

#[test]
fn relative_input_is_accepted() {
    let root = "/tmp/work".to_string();

    let mut popup = SaveAsPopup::new(String::new(), root);
    popup.input.set_text("notes/today.md".to_string());
    popup.apply_listing(Vec::new());
    let _ = popup.handle_key(key(KeyCode::Enter));
    let result = popup.apply_check(false);

    match result {
        EventResult::Action(Action::App(AppAction::Buffer(BufferAction::SaveBufferAs(path)))) => {
            assert_eq!(path, "notes/today.md");
        }
        _ => panic!("expected SaveBufferAs action"),
    }
}

#[test]
fn tab_completes_directory_with_trailing_slash() {
    let root = "/tmp/work".to_string();
    let mut popup = SaveAsPopup::new(format!("{}/d", root), root);
    popup.apply_listing(vec![entry("docs", true), entry("readme.md", false)]);
    popup.handle_key(ctrl('n'));
    popup.handle_key(ctrl('p'));
    popup.handle_key(key(KeyCode::Tab));
    assert!(popup.input.text.ends_with('/'));
}
