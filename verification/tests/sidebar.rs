use gargo::command::git::GitFileStatus;
use gargo::input::action::{Action, AppAction, BufferAction, IntegrationAction, WorkspaceAction};
use gargo::input::chord::KeyState;
use gargo::input::key::{KeyCode, KeyEvent, KeyModifiers};
use gargo::ui::framework::component::EventResult;
use gargo::ui::overlays::explorer::sidebar::{Explorer, ExplorerRequest, FsOutcome};
use gargo::ui::overlays::project::root_picker::ListedEntry;

/// A directory tree held in memory: absolute paths, each a directory or not.
struct FakeFs {
    paths: Vec<(String, bool)>,
}

impl FakeFs {
    fn has(&self, path: &str) -> bool {
        self.paths.iter().any(|(p, _)| p == path)
    }

    fn list(&self, dir: &str) -> Vec<ListedEntry> {
        let prefix = format!("{}/", dir.trim_end_matches('/'));
        self.paths
            .iter()
            .filter(|(p, _)| p.starts_with(&prefix) && !p[prefix.len()..].contains('/'))
            .map(|(p, is_dir)| ListedEntry {
                name: p[prefix.len()..].to_string(),
                path: p.clone(),
                is_dir: *is_dir,
                is_file: !*is_dir,
            })
            .collect()
    }
}

/// Answers what the sidebar asks of the file system until it asks nothing,
/// returning the last answer's event.
fn serve(explorer: &mut Explorer, fs: &mut FakeFs) -> Option<EventResult> {
    let mut last = None;
    while let Some(request) = explorer.request.clone() {
        match request {
            ExplorerRequest::ListDirectory { dir, .. } => {
                let listed = fs.list(&dir);
                explorer.apply_listing(listed);
            }
            ExplorerRequest::Rename { from, to, .. } => {
                let outcome = if fs.has(&to) {
                    FsOutcome::AlreadyExists
                } else {
                    for entry in fs.paths.iter_mut() {
                        if entry.0 == from {
                            entry.0 = to.clone();
                        }
                    }
                    FsOutcome::Done
                };
                last = Some(explorer.finish_rename(outcome));
            }
            ExplorerRequest::Create { path, is_dir, .. } => {
                let outcome = if fs.has(&path) {
                    FsOutcome::AlreadyExists
                } else {
                    fs.paths.push((path, is_dir));
                    FsOutcome::Done
                };
                last = Some(explorer.finish_add(outcome));
            }
            ExplorerRequest::Delete { path, .. } => {
                let inner = format!("{}/", path);
                fs.paths.retain(|(p, _)| p != &path && !p.starts_with(&inner));
                last = Some(explorer.finish_delete(None));
            }
        }
    }
    last
}

fn key(code: KeyCode) -> KeyEvent {
    KeyEvent::new(code, KeyModifiers::none())
}

fn ctrl_key(c: char) -> KeyEvent {
    KeyEvent::new(KeyCode::Char(c), KeyModifiers::control())
}

fn setup(name: &str) -> (String, FakeFs) {
    let dir = format!("/tmp/gargo_test_explorer_{}", name);
    let fs = FakeFs {
        paths: vec![
            (format!("{}/ccc.rs", dir), false),
            (format!("{}/aaa_dir", dir), true),
            (format!("{}/bbb.txt", dir), false),
        ],
    };
    (dir, fs)
}

fn open(dir: &str, fs: &mut FakeFs) -> Explorer {
    let mut explorer = Explorer::new(dir.to_string(), dir, &Vec::new());
    serve(&mut explorer, fs);
    explorer
}

fn press(explorer: &mut Explorer, fs: &mut FakeFs, k: KeyEvent) -> EventResult {
    let result = explorer.handle_key(k, &KeyState::Normal);
    match serve(explorer, fs) {
        Some(answer) => answer,
        None => result,
    }
}

#[test]
fn changed_only_mode_shows_only_changed_entries() {
    let (dir, _fs) = setup("changed_only");
    let git_status_map = vec![
        ("bbb.txt".to_string(), GitFileStatus::Modified),
        ("aaa_dir/nested.txt".to_string(), GitFileStatus::Added),
    ];

    let explorer = Explorer::new_changed_only(dir.clone(), &dir, &git_status_map);

    assert!(explorer.is_changed_only());
    assert_eq!(explorer.visible_entries.len(), 2);
    let names: Vec<String> = explorer
        .visible_entries
        .iter()
        .map(|&idx| explorer.entries[idx].name.clone())
        .collect();
    assert_eq!(
        names,
        vec!["aaa_dir/nested.txt".to_string(), "bbb.txt".to_string()]
    );
    assert!(explorer.entries.iter().all(|entry| !entry.is_dir));
}

#[test]
fn changed_only_mode_enter_opens_nested_path_as_file() {
    let (dir, _fs) = setup("changed_open_nested");
    let git_status_map = vec![("aaa_dir/nested.txt".to_string(), GitFileStatus::Modified)];
    let mut explorer = Explorer::new_changed_only(dir.clone(), &dir, &git_status_map);

    let result = explorer.handle_key(key(KeyCode::Enter), &KeyState::Normal);
    match result {
        EventResult::Action(Action::App(AppAction::Buffer(
            BufferAction::OpenFileFromExplorer(path),
        ))) => {
            assert_eq!(path, format!("{}/aaa_dir/nested.txt", dir));
        }
        _ => panic!("Expected OpenFileFromExplorer action"),
    }
}

#[test]
fn find_mode_jumps_selection_without_filtering() {
    let (dir, mut fs) = setup("find_jump");
    let mut explorer = open(&dir, &mut fs);

    press(&mut explorer, &mut fs, key(KeyCode::Char('/')));
    press(&mut explorer, &mut fs, key(KeyCode::Char('c')));
    press(&mut explorer, &mut fs, key(KeyCode::Char('c')));
    press(&mut explorer, &mut fs, key(KeyCode::Char('c')));

    assert_eq!(explorer.visible_entries.len(), 3);
    assert_eq!(explorer.selected_name(), Some("ccc.rs"));
}

#[test]
fn find_mode_ctrl_and_arrow_navigation_work() {
    let (dir, mut fs) = setup("find_nav");
    let mut explorer = open(&dir, &mut fs);

    press(&mut explorer, &mut fs, key(KeyCode::Char('/')));
    press(&mut explorer, &mut fs, ctrl_key('n'));
    assert_eq!(explorer.selected_name(), Some("bbb.txt"));
    press(&mut explorer, &mut fs, ctrl_key('p'));
    assert_eq!(explorer.selected_name(), Some("aaa_dir"));
    press(&mut explorer, &mut fs, key(KeyCode::Down));
    assert_eq!(explorer.selected_name(), Some("bbb.txt"));
    press(&mut explorer, &mut fs, key(KeyCode::Up));
    assert_eq!(explorer.selected_name(), Some("aaa_dir"));
}

#[test]
fn find_mode_ctrl_w_ctrl_u_and_ctrl_k_edit_query() {
    let (dir, mut fs) = setup("find_ctrl_edit");
    let mut explorer = open(&dir, &mut fs);

    press(&mut explorer, &mut fs, key(KeyCode::Char('/')));
    for c in "src ui ccc".chars() {
        press(&mut explorer, &mut fs, key(KeyCode::Char(c)));
    }
    press(&mut explorer, &mut fs, ctrl_key('w'));
    assert_eq!(explorer.find_input, "src ui ");
    press(&mut explorer, &mut fs, ctrl_key('u'));
    assert!(explorer.find_input.is_empty());
    for c in "tmp new".chars() {
        press(&mut explorer, &mut fs, key(KeyCode::Char(c)));
    }
    press(&mut explorer, &mut fs, ctrl_key('k'));
    assert!(explorer.find_input.is_empty());
}

#[test]
fn copy_menu_cc_copies_selected_full_path() {
    let (dir, mut fs) = setup("copy_path");
    let mut explorer = open(&dir, &mut fs);
    press(&mut explorer, &mut fs, key(KeyCode::Char('j'))); // bbb.txt

    let _ = press(&mut explorer, &mut fs, key(KeyCode::Char('c')));
    let result = press(&mut explorer, &mut fs, key(KeyCode::Char('c')));

    match result {
        EventResult::Action(Action::App(AppAction::Integration(
            IntegrationAction::CopyToClipboard { text, description },
        ))) => {
            assert!(text.ends_with("bbb.txt"));
            assert_eq!(description, "path");
        }
        _ => panic!("Expected CopyToClipboard path action"),
    }
}

#[test]
fn copy_menu_cd_copies_directory_path() {
    let (dir, mut fs) = setup("copy_dir");
    let mut explorer = open(&dir, &mut fs);
    press(&mut explorer, &mut fs, key(KeyCode::Char('j'))); // bbb.txt

    let _ = press(&mut explorer, &mut fs, key(KeyCode::Char('c')));
    let result = press(&mut explorer, &mut fs, key(KeyCode::Char('d')));

    match result {
        EventResult::Action(Action::App(AppAction::Integration(
            IntegrationAction::CopyToClipboard { text, description },
        ))) => {
            assert_eq!(text, dir);
            assert_eq!(description, "dir path");
        }
        _ => panic!("Expected CopyToClipboard dir path action"),
    }
}

#[test]
fn copy_menu_cf_copies_file_name() {
    let (dir, mut fs) = setup("copy_name");
    let mut explorer = open(&dir, &mut fs);
    press(&mut explorer, &mut fs, key(KeyCode::Char('j'))); // bbb.txt

    let _ = press(&mut explorer, &mut fs, key(KeyCode::Char('c')));
    let result = press(&mut explorer, &mut fs, key(KeyCode::Char('f')));

    match result {
        EventResult::Action(Action::App(AppAction::Integration(
            IntegrationAction::CopyToClipboard { text, description },
        ))) => {
            assert_eq!(text, "bbb.txt");
            assert_eq!(description, "file name");
        }
        _ => panic!("Expected CopyToClipboard file name action"),
    }
}

#[test]
fn copy_menu_invalid_second_key_is_consumed_and_closes_menu() {
    let (dir, mut fs) = setup("copy_invalid");
    let mut explorer = open(&dir, &mut fs);

    let _ = press(&mut explorer, &mut fs, key(KeyCode::Char('c')));
    let first = press(&mut explorer, &mut fs, key(KeyCode::Char('x')));
    assert!(matches!(first, EventResult::Consumed));

    let second = press(&mut explorer, &mut fs, key(KeyCode::Char('j')));
    assert!(matches!(second, EventResult::Consumed));
    assert_eq!(explorer.selected_name(), Some("bbb.txt"));
}

#[test]
fn rename_selected_file_with_r() {
    let (dir, mut fs) = setup("rename_file");
    let mut explorer = open(&dir, &mut fs);
    press(&mut explorer, &mut fs, key(KeyCode::Char('j'))); // bbb.txt

    let _ = press(&mut explorer, &mut fs, key(KeyCode::Char('r')));
    let _ = press(&mut explorer, &mut fs, ctrl_key('u'));
    for c in "renamed.txt".chars() {
        let _ = press(&mut explorer, &mut fs, key(KeyCode::Char(c)));
    }
    let result = press(&mut explorer, &mut fs, key(KeyCode::Enter));

    assert!(fs.has(&format!("{}/renamed.txt", dir)));
    assert!(!fs.has(&format!("{}/bbb.txt", dir)));
    assert_eq!(explorer.selected_name(), Some("renamed.txt"));
    assert!(matches!(
        result,
        EventResult::Action(Action::App(AppAction::Integration(
            IntegrationAction::ShowMessage(_),
        )))
    ));
}

#[test]
fn add_file_and_dir_with_a() {
    let (dir, mut fs) = setup("add_entries");
    let mut explorer = open(&dir, &mut fs);

    let _ = press(&mut explorer, &mut fs, key(KeyCode::Char('a')));
    for c in "new.txt".chars() {
        let _ = press(&mut explorer, &mut fs, key(KeyCode::Char(c)));
    }
    let _ = press(&mut explorer, &mut fs, key(KeyCode::Enter));
    assert!(fs.has(&format!("{}/new.txt", dir)));
    assert_eq!(explorer.selected_name(), Some("new.txt"));

    let _ = press(&mut explorer, &mut fs, key(KeyCode::Char('a')));
    for c in "new_dir/".chars() {
        let _ = press(&mut explorer, &mut fs, key(KeyCode::Char(c)));
    }
    let _ = press(&mut explorer, &mut fs, key(KeyCode::Enter));
    assert!(fs.paths.contains(&(format!("{}/new_dir", dir), true)));
    assert_eq!(explorer.selected_name(), Some("new_dir"));
}

#[test]
fn delete_confirmation_requires_y() {
    let (dir, mut fs) = setup("delete_confirm");
    let mut explorer = open(&dir, &mut fs);
    press(&mut explorer, &mut fs, key(KeyCode::Char('j'))); // bbb.txt

    let _ = press(&mut explorer, &mut fs, key(KeyCode::Char('d')));
    let _ = press(&mut explorer, &mut fs, key(KeyCode::Char('n')));
    assert!(fs.has(&format!("{}/bbb.txt", dir)));

    let _ = press(&mut explorer, &mut fs, key(KeyCode::Char('d')));
    let _ = press(&mut explorer, &mut fs, key(KeyCode::Char('y')));
    assert!(!fs.has(&format!("{}/bbb.txt", dir)));
}

#[test]
fn listing_hides_dotfiles_and_puts_directories_first() {
    let mut fs = FakeFs {
        paths: vec![
            ("/p/zeta".to_string(), false),
            ("/p/.git".to_string(), true),
            ("/p/Beta".to_string(), true),
            ("/p/alpha".to_string(), false),
            ("/p/src".to_string(), true),
        ],
    };
    let map = vec![("zeta".to_string(), GitFileStatus::Modified)];
    let mut explorer = Explorer::new("/p".to_string(), "/p", &map);
    assert!(explorer.entries.is_empty());
    serve(&mut explorer, &mut fs);
    let names: Vec<&str> = explorer.entries.iter().map(|e| e.name.as_str()).collect();
    assert_eq!(names, vec!["Beta", "src", "alpha", "zeta"]);
    assert_eq!(explorer.entries[3].git_status, Some(GitFileStatus::Modified));
    assert_eq!(explorer.entries[2].git_status, None);
    assert_eq!(explorer.visible_entries, vec![0, 1, 2, 3]);
}

#[test]
fn entering_a_directory_and_going_back_selects_it() {
    let mut fs = FakeFs {
        paths: vec![
            ("/p/a".to_string(), true),
            ("/p/b".to_string(), true),
            ("/p/b/inner.txt".to_string(), false),
        ],
    };
    let mut explorer = Explorer::new("/p".to_string(), "/p", &Vec::new());
    serve(&mut explorer, &mut fs);
    press(&mut explorer, &mut fs, key(KeyCode::Down));
    assert_eq!(explorer.selected_name(), Some("b"));
    let r = press(&mut explorer, &mut fs, key(KeyCode::Enter));
    assert_eq!(r, EventResult::Consumed);
    assert_eq!(explorer.current_dir(), "/p/b");
    assert_eq!(explorer.selected_name(), Some("inner.txt"));
    press(&mut explorer, &mut fs, key(KeyCode::Char('h')));
    assert_eq!(explorer.current_dir(), "/p");
    assert_eq!(explorer.selected_name(), Some("b"));
}

#[test]
fn rename_and_add_report_invalid_names_and_conflicts() {
    let (dir, mut fs) = setup("invalid_names");
    let mut explorer = open(&dir, &mut fs);
    press(&mut explorer, &mut fs, key(KeyCode::Char('j'))); // bbb.txt
    press(&mut explorer, &mut fs, key(KeyCode::Char('r')));
    assert_eq!(explorer.rename_input, "bbb.txt");
    let r = press(&mut explorer, &mut fs, key(KeyCode::Enter));
    assert_eq!(
        r,
        EventResult::Action(Action::App(AppAction::Integration(IntegrationAction::ShowMessage(
            "Rename skipped: unchanged".to_string()
        ))))
    );
    press(&mut explorer, &mut fs, key(KeyCode::Char('r')));
    press(&mut explorer, &mut fs, ctrl_key('u'));
    for c in "a/b".chars() {
        press(&mut explorer, &mut fs, key(KeyCode::Char(c)));
    }
    let r = press(&mut explorer, &mut fs, key(KeyCode::Enter));
    assert_eq!(
        r,
        EventResult::Action(Action::App(AppAction::Integration(IntegrationAction::ShowMessage(
            "Rename failed: invalid name".to_string()
        ))))
    );
    press(&mut explorer, &mut fs, key(KeyCode::Char('r')));
    press(&mut explorer, &mut fs, ctrl_key('u'));
    for c in "ccc.rs".chars() {
        press(&mut explorer, &mut fs, key(KeyCode::Char(c)));
    }
    let r = press(&mut explorer, &mut fs, key(KeyCode::Enter));
    assert_eq!(
        r,
        EventResult::Action(Action::App(AppAction::Integration(IntegrationAction::ShowMessage(
            "Rename failed: 'ccc.rs' already exists".to_string()
        ))))
    );
    press(&mut explorer, &mut fs, key(KeyCode::Char('a')));
    for c in "ccc.rs".chars() {
        press(&mut explorer, &mut fs, key(KeyCode::Char(c)));
    }
    let r = press(&mut explorer, &mut fs, key(KeyCode::Enter));
    assert_eq!(
        r,
        EventResult::Action(Action::App(AppAction::Integration(IntegrationAction::ShowMessage(
            "Add failed: 'ccc.rs' already exists".to_string()
        ))))
    );
}

#[test]
fn delete_keeps_the_row_position_and_messages() {
    let (dir, mut fs) = setup("delete_position");
    let mut explorer = open(&dir, &mut fs);
    press(&mut explorer, &mut fs, key(KeyCode::Char('j')));
    press(&mut explorer, &mut fs, key(KeyCode::Char('j'))); // ccc.rs, the last row
    press(&mut explorer, &mut fs, key(KeyCode::Char('d')));
    assert_eq!(explorer.bottom_prompt(), "delete ccc.rs? [y/N]");
    let r = press(&mut explorer, &mut fs, key(KeyCode::Char('y')));
    assert_eq!(
        r,
        EventResult::Action(Action::App(AppAction::Integration(IntegrationAction::ShowMessage(
            "Deleted ccc.rs".to_string()
        ))))
    );
    assert_eq!(explorer.selected_name(), Some("bbb.txt"));
    press(&mut explorer, &mut fs, key(KeyCode::Char('d')));
    let r = press(&mut explorer, &mut fs, key(KeyCode::Char('q')));
    assert_eq!(
        r,
        EventResult::Action(Action::App(AppAction::Integration(IntegrationAction::ShowMessage(
            "Delete aborted".to_string()
        ))))
    );
}

#[test]
fn keys_yield_to_chords_and_close_the_sidebar() {
    let (dir, mut fs) = setup("chords");
    let mut explorer = open(&dir, &mut fs);
    assert_eq!(
        explorer.handle_key(key(KeyCode::Char('j')), &KeyState::Space),
        EventResult::Ignored
    );
    assert_eq!(explorer.selected_name(), Some("aaa_dir"));
    let toggle =
        EventResult::Action(Action::App(AppAction::Workspace(WorkspaceAction::ToggleExplorer)));
    assert_eq!(explorer.handle_key(ctrl_key('q'), &KeyState::Normal), toggle);
    assert_eq!(explorer.handle_key(key(KeyCode::Esc), &KeyState::Normal), toggle);
    assert_eq!(
        explorer.handle_key(key(KeyCode::Char(' ')), &KeyState::Normal),
        EventResult::Ignored
    );
}

#[test]
fn prompts_and_cursor_positions() {
    let (dir, mut fs) = setup("prompts");
    let mut explorer = open(&dir, &mut fs);
    assert_eq!(explorer.find_cursor(2, 10), None);
    press(&mut explorer, &mut fs, key(KeyCode::Char('/')));
    press(&mut explorer, &mut fs, key(KeyCode::Char('b')));
    assert_eq!(explorer.bottom_prompt(), "/b");
    assert_eq!(explorer.find_cursor(2, 10), Some((4, 9)));
    press(&mut explorer, &mut fs, key(KeyCode::Enter));
    assert!(!explorer.find_active);
    assert_eq!(explorer.selected_name(), Some("bbb.txt"));
    press(&mut explorer, &mut fs, key(KeyCode::Char('a')));
    assert_eq!(explorer.bottom_prompt(), "add:  (end with / for dir)");
    // The cursor is placed for the find prompt only.
    assert_eq!(explorer.find_cursor(0, 0), None);
    press(&mut explorer, &mut fs, key(KeyCode::Esc));
    press(&mut explorer, &mut fs, key(KeyCode::Char('c')));
    assert_eq!(explorer.bottom_prompt(), "copy: [c] path [d] dir [f] name");
}

#[test]
fn header_keeps_the_trailing_components_that_fit() {
    let explorer = Explorer::new("/home/user/project".to_string(), "/home", &Vec::new());
    assert_eq!(explorer.truncated_path_header(100).unwrap(), "//home/user/project/");
    assert_eq!(explorer.truncated_path_header(13).unwrap(), "user/project/");
    assert_eq!(explorer.truncated_path_header(5).unwrap(), "proje");
    let root = Explorer::new("/".to_string(), "/", &Vec::new());
    assert_eq!(root.truncated_path_header(10).unwrap(), "//");
}

#[test]
fn set_git_status_map_updates_rows_and_the_changed_view() {
    let (dir, mut fs) = setup("status_map");
    let mut explorer = open(&dir, &mut fs);
    explorer.set_git_status_map(&vec![("ccc.rs".to_string(), GitFileStatus::Added)]);
    assert_eq!(explorer.entries[2].git_status, Some(GitFileStatus::Added));
    assert_eq!(explorer.entries[1].git_status, None);

    let mut changed = Explorer::new_changed_only(
        dir.clone(),
        &dir,
        &vec![
            ("b.txt".to_string(), GitFileStatus::Modified),
            ("a.txt".to_string(), GitFileStatus::Added),
        ],
    );
    changed.handle_key(key(KeyCode::Char('j')), &KeyState::Normal);
    assert_eq!(changed.selected_name(), Some("b.txt"));
    changed.set_git_status_map(&vec![
        ("c.txt".to_string(), GitFileStatus::Added),
        ("b.txt".to_string(), GitFileStatus::Modified),
        ("a.txt".to_string(), GitFileStatus::Added),
    ]);
    assert_eq!(changed.selected_name(), Some("b.txt"));
    assert_eq!(changed.entries.len(), 3);
    assert!(changed.request.is_none());
}
