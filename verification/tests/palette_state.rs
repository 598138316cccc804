use gargo::command::registry::{CommandEntry, CommandRegistry};
use gargo::input::action::{
    Action, AppAction, BufferAction, IntegrationAction, NavigationAction, ProjectAction, UiAction,
};
use gargo::input::key::{KeyCode, KeyEvent, KeyEventKind, KeyModifiers};
use gargo::ui::framework::component::EventResult;
use gargo::ui::overlays::palette::picker::{
    BufferId, CandidateKind, GitBranchPickerEntry, JumpPickerEntry, PaletteMode,
    ReferencePickerEntry, ScoredCandidate, SmartCopyPickerEntry,
};
use gargo::ui::overlays::palette::state::{filter_commands, filter_files, DisplayToggles, Palette};
use gargo::ui::overlays::palette::workers::{GlobalSearchBatch, GlobalSearchResultEntry};

fn toggles() -> DisplayToggles {
    DisplayToggles { debug: false, show_line_number: true }
}

fn unified(
    files: Vec<String>,
    symbols: Vec<(String, usize, usize, Vec<String>)>,
    doc: Vec<String>,
) -> Palette {
    Palette::new(files, "", &Vec::new(), None, symbols, doc)
}

fn row(kind: CandidateKind, label: &str) -> ScoredCandidate {
    ScoredCandidate {
        kind,
        label: label.to_string(),
        score: 0,
        match_positions: vec![],
        preview_lines: vec![],
    }
}

fn command(id: &str, label: &str) -> CommandEntry {
    CommandEntry { id: id.to_string(), label: label.to_string(), category: None }
}

fn key(code: KeyCode) -> KeyEvent {
    KeyEvent::new(code, KeyModifiers::none())
}

fn ctrl(c: char) -> KeyEvent {
    KeyEvent::new(KeyCode::Char(c), KeyModifiers::control())
}

fn close() -> EventResult {
    EventResult::Action(Action::Ui(UiAction::ClosePalette))
}

#[test]
fn palette_mode_detection() {
    let registry = CommandRegistry::new();
    let mut palette = unified(vec![], vec![], vec![]);
    assert_eq!(palette.input.text, ">");
    palette.update_candidates(&registry, &toggles());
    assert_eq!(palette.mode, PaletteMode::Command);

    palette.input.text = "hello".into();
    palette.update_candidates(&registry, &toggles());
    assert_eq!(palette.mode, PaletteMode::FileFinder);
}

#[test]
fn palette_selection_wraps() {
    let mut palette = unified(vec![], vec![], vec![]);
    palette.candidates = vec![row(CandidateKind::Command(0), "A"), row(CandidateKind::Command(1), "B")];
    palette.selected = 0;
    palette.select_next();
    assert_eq!(palette.selected, 1);
    palette.select_next();
    assert_eq!(palette.selected, 0);
    palette.select_prev();
    assert_eq!(palette.selected, 1);
    palette.select_prev();
    assert_eq!(palette.selected, 0);
}

#[test]
fn global_search_enter_opens_selected_match() {
    let registry = CommandRegistry::new();
    let mut palette = Palette::new_global_search(vec![], "", &Vec::new());
    palette.global_search_entries = vec![GlobalSearchResultEntry {
        rel_path: "src/main.rs".to_string(),
        line: 12,
        char_col: 7,
        preview_lines: vec!["src/main.rs:13:8".to_string(), "   13 | let x = 1;".to_string()],
    }];
    palette.candidates = vec![ScoredCandidate {
        kind: CandidateKind::SearchResult(0),
        label: "src/main.rs:13 let x = 1;".to_string(),
        score: 0,
        match_positions: vec![],
        preview_lines: vec!["src/main.rs:13:8".to_string(), "   13 | let x = 1;".to_string()],
    }];
    let result = palette.handle_key_event(key(KeyCode::Enter), &registry, &toggles());
    assert_eq!(
        result,
        EventResult::Action(Action::App(AppAction::Buffer(BufferAction::OpenProjectFileAt {
            rel_path: "src/main.rs".to_string(),
            line: 12,
            char_col: 7,
        })))
    );
}

#[test]
fn global_search_worker_error_updates_preview_message() {
    let mut palette = Palette::new_global_search(vec![], "", &Vec::new());
    palette.pump_global_search(
        vec![GlobalSearchBatch {
            generation: 1,
            results: Vec::new(),
            error: Some("bad global search filter".to_string()),
        }],
        false,
    );
    assert!(palette.global_search_entries.is_empty());
    assert!(palette.candidates.is_empty());
    assert_eq!(palette.preview_lines, vec!["Global search error: bad global search filter".to_string()]);
}

#[test]
fn buffer_picker_mode() {
    let entries = vec![
        (BufferId(1), "main.rs".to_string(), vec!["fn main() {}".to_string()]),
        (BufferId(2), "[scratch]".to_string(), vec![]),
        (BufferId(3), "lib.rs".to_string(), vec!["pub mod foo;".to_string()]),
    ];
    let palette = Palette::new_buffer_picker(entries);
    assert_eq!(palette.mode, PaletteMode::BufferPicker);
    assert_eq!(palette.candidates.len(), 3);
    assert_eq!(palette.selected_buffer_id(), Some(BufferId(1)));
}

#[test]
fn buffer_picker_filter() {
    let entries = vec![
        (BufferId(1), "main.rs".to_string(), vec!["fn main() {}".to_string()]),
        (BufferId(2), "[scratch]".to_string(), vec![]),
        (BufferId(3), "lib.rs".to_string(), vec!["pub mod foo;".to_string()]),
    ];
    let mut palette = Palette::new_buffer_picker(entries);
    palette.on_char_buffer('m');
    assert!(!palette.candidates.is_empty());
    assert_eq!(palette.selected_buffer_id(), Some(BufferId(1)));
}

#[test]
fn buffer_picker_preview_populated_on_creation() {
    let entries = vec![
        (BufferId(1), "main.rs".to_string(), vec!["fn main() {}".to_string(), "// end".to_string()]),
        (BufferId(2), "[scratch]".to_string(), vec![]),
    ];
    let palette = Palette::new_buffer_picker(entries);
    assert_eq!(palette.preview_lines, vec!["fn main() {}", "// end"]);
}

#[test]
fn buffer_picker_preview_updates_on_selection_change() {
    let entries = vec![
        (BufferId(1), "main.rs".to_string(), vec!["fn main() {}".to_string()]),
        (BufferId(2), "lib.rs".to_string(), vec!["pub mod foo;".to_string()]),
    ];
    let mut palette = Palette::new_buffer_picker(entries);
    assert_eq!(palette.preview_lines, vec!["fn main() {}"]);
    palette.select_next();
    assert_eq!(palette.preview_lines, vec!["pub mod foo;"]);
}

#[test]
fn buffer_picker_preview_updates_on_filter() {
    let entries = vec![
        (BufferId(1), "main.rs".to_string(), vec!["fn main() {}".to_string()]),
        (BufferId(2), "lib.rs".to_string(), vec!["pub mod foo;".to_string()]),
    ];
    let mut palette = Palette::new_buffer_picker(entries);
    palette.on_char_buffer('l');
    assert_eq!(palette.candidates.len(), 1);
    assert_eq!(palette.preview_lines, vec!["pub mod foo;"]);
}

fn jump(index: usize, label: &str, lines: Vec<&str>, target: Option<usize>, col: usize) -> JumpPickerEntry {
    JumpPickerEntry {
        jump_index: index,
        label: label.to_string(),
        preview_lines: lines.into_iter().map(|l| l.to_string()).collect(),
        source_path: Some("src/main.rs".to_string()),
        target_preview_line: target,
        target_char_col: col,
    }
}

#[test]
fn jump_picker_mode_and_selection() {
    let entries = vec![
        jump(3, "src/main.rs:10:1 main", vec!["src/main.rs:10:1", "   10 | fn main() {}"], Some(1), 3),
        jump(1, "src/lib.rs:2:1 run", vec!["src/lib.rs:2:1", "    2 | pub fn run() {}"], Some(1), 8),
    ];
    let palette = Palette::new_jump_picker(entries);
    assert_eq!(palette.mode, PaletteMode::JumpPicker);
    assert_eq!(palette.selected_jump_index(), Some(3));
    assert_eq!(palette.preview_lines, vec!["src/main.rs:10:1", "   10 | fn main() {}"]);
}

#[test]
fn jump_picker_enter_dispatches_jump_action() {
    let registry = CommandRegistry::new();
    let mut palette = Palette::new_jump_picker(vec![jump(7, "src/main.rs:1:1 main", vec!["src/main.rs:1:1"], None, 0)]);
    let result = palette.handle_key_event(key(KeyCode::Enter), &registry, &toggles());
    assert_eq!(result, EventResult::Action(Action::App(AppAction::Navigation(NavigationAction::JumpToListIndex(7)))));
}

#[test]
fn jump_picker_filter_matches_word_suffix_with_fzf() {
    let entries = vec![
        jump(3, "src/main.rs:10:1 helper", vec!["src/main.rs:10:1"], None, 0),
        jump(1, "src/lib.rs:2:1 render_overlay", vec!["src/lib.rs:2:1"], None, 0),
    ];
    let mut palette = Palette::new_jump_picker(entries);
    palette.on_char_jump('o');
    palette.on_char_jump('v');
    palette.on_char_jump('r');
    assert_eq!(palette.candidates.len(), 1);
    assert_eq!(palette.candidates[0].label, "src/lib.rs:2:1 render_overlay");
}

fn reference(label: &str, path: &str, line: usize, col: usize, lines: Vec<&str>) -> ReferencePickerEntry {
    ReferencePickerEntry {
        label: label.to_string(),
        path: path.to_string(),
        line,
        character_utf16: col,
        preview_lines: lines.into_iter().map(|l| l.to_string()).collect(),
        source_path: Some("src/main.rs".to_string()),
        target_preview_line: None,
        target_char_col: col,
    }
}

#[test]
fn reference_picker_mode_and_enter_dispatches_open_file_at_lsp_location() {
    let registry = CommandRegistry::new();
    let mut palette = Palette::new_reference_picker(
        "LSP: Find References".to_string(),
        vec![reference("src/main.rs:10:4 helper", "/tmp/src/main.rs", 9, 3, vec!["src/main.rs:10:4", "   10 | fn helper() {}"])],
    );
    assert_eq!(palette.mode, PaletteMode::ReferencePicker);
    let result = palette.handle_key_event(key(KeyCode::Enter), &registry, &toggles());
    assert_eq!(
        result,
        EventResult::Action(Action::App(AppAction::Navigation(NavigationAction::OpenFileAtLspLocation {
            path: "/tmp/src/main.rs".to_string(),
            line: 9,
            character_utf16: 3,
        })))
    );
}

#[test]
fn git_branch_picker_mode_and_enter_dispatches_switch_branch() {
    let registry = CommandRegistry::new();
    let mut palette = Palette::new_git_branch_picker(vec![
        GitBranchPickerEntry {
            branch_name: "feature/login".to_string(),
            label: "  feature/login".to_string(),
            preview_lines: vec!["Branch: feature/login".to_string()],
        },
        GitBranchPickerEntry {
            branch_name: "main".to_string(),
            label: "* main".to_string(),
            preview_lines: vec!["Branch: main".to_string()],
        },
    ]);
    assert_eq!(palette.mode, PaletteMode::GitBranchPicker);
    assert_eq!(palette.selected_git_branch().as_deref(), Some("main"));
    let result = palette.handle_key_event(key(KeyCode::Enter), &registry, &toggles());
    assert_eq!(
        result,
        EventResult::Action(Action::App(AppAction::Project(ProjectAction::SwitchGitBranch("main".to_string()))))
    );
}

#[test]
fn reference_picker_filter_matches_with_fzf() {
    let mut palette = Palette::new_reference_picker(
        "LSP: Find References".to_string(),
        vec![
            reference("src/main.rs:10:4 helper", "/tmp/src/main.rs", 9, 3, vec!["src/main.rs:10:4"]),
            reference("src/lib.rs:2:1 render_overlay", "/tmp/src/lib.rs", 1, 0, vec!["src/lib.rs:2:1"]),
        ],
    );
    let registry = CommandRegistry::new();
    palette.on_char('o', &registry, &toggles());
    palette.on_char('v', &registry, &toggles());
    palette.on_char('r', &registry, &toggles());
    assert_eq!(palette.candidates.len(), 1);
    assert_eq!(palette.candidates[0].label, "src/lib.rs:2:1 render_overlay");
}

#[test]
fn symbol_picker_mode_and_enter_dispatches_jump_line_char() {
    let registry = CommandRegistry::new();
    let mut palette = Palette::new_symbol_picker(vec![(
        "helper [function]  10:4".to_string(),
        9,
        3,
        vec!["   10 | fn helper() {}".to_string()],
    )]);
    assert_eq!(palette.mode, PaletteMode::SymbolPicker);
    let result = palette.handle_key_event(key(KeyCode::Enter), &registry, &toggles());
    assert_eq!(
        result,
        EventResult::Action(Action::App(AppAction::Navigation(NavigationAction::JumpToLineChar { line: 9, char_col: 3 })))
    );
}

#[test]
fn smart_copy_picker_enter_dispatches_copy_to_clipboard() {
    let registry = CommandRegistry::new();
    let mut palette = Palette::new_smart_copy_picker(vec![SmartCopyPickerEntry {
        label: "helper [function]  10:4".to_string(),
        line: 9,
        char_col: 3,
        preview_lines: vec!["   10 | fn helper() {}".to_string()],
        copy_text: "fn helper() {}".to_string(),
    }]);
    assert_eq!(palette.mode, PaletteMode::SymbolPicker);
    let result = palette.handle_key_event(key(KeyCode::Enter), &registry, &toggles());
    assert_eq!(
        result,
        EventResult::Action(Action::App(AppAction::Integration(IntegrationAction::CopyToClipboard {
            text: "fn helper() {}".to_string(),
            description: "smart copy section".to_string(),
        })))
    );
}

#[test]
fn picker_ctrl_f_b_moves_input_cursor() {
    let registry = CommandRegistry::new();
    let mut palette = unified(vec![], vec![], vec![]);
    palette.set_input("abc".to_string());
    palette.input.cursor = 1;
    palette.handle_key_event(ctrl('f'), &registry, &toggles());
    assert_eq!(palette.input.cursor, 2);
    palette.handle_key_event(ctrl('b'), &registry, &toggles());
    assert_eq!(palette.input.cursor, 1);
}

#[test]
fn picker_ctrl_w_and_ctrl_k_edit_query() {
    let registry = CommandRegistry::new();
    let mut palette = unified(vec![], vec![], vec![]);
    palette.set_input("alpha beta gamma".to_string());
    palette.input.cursor = palette.input.text.chars().count();
    palette.handle_key_event(ctrl('w'), &registry, &toggles());
    assert_eq!(palette.input.text, "alpha beta ");
    palette.input.cursor = 6;
    palette.handle_key_event(ctrl('k'), &registry, &toggles());
    assert_eq!(palette.input.text, "alpha ");
}

#[test]
fn picker_ctrl_j_selects_next_candidate() {
    let registry = CommandRegistry::new();
    let mut palette = unified(vec![], vec![], vec![]);
    palette.candidates = vec![row(CandidateKind::Command(0), "A"), row(CandidateKind::Command(1), "B")];
    palette.selected = 0;
    palette.handle_key_event(ctrl('j'), &registry, &toggles());
    assert_eq!(palette.selected, 1);
}

#[test]
fn ctrl_c_closes_palette() {
    let registry = CommandRegistry::new();
    let mut palette = unified(vec![], vec![], vec![]);
    let result = palette.handle_key_event(ctrl('c'), &registry, &toggles());
    assert_eq!(result, close());
}

#[test]
fn ctrl_q_closes_palette() {
    let registry = CommandRegistry::new();
    let mut palette = unified(vec![], vec![], vec![]);
    let result = palette.handle_key_event(ctrl('q'), &registry, &toggles());
    assert_eq!(result, close());
}

#[test]
fn command_history_sorts_by_last_used() {
    let mut registry = CommandRegistry::new();
    registry.register(command("test.save", "Save File"));
    registry.register(command("test.open", "Open File"));
    registry.register(command("test.quit", "Quit Editor"));
    registry.register(command("test.unused", "Unused Command"));
    // Run in the order Save, Quit, Open: the most recent comes first.
    let history = vec!["test.open".to_string(), "test.quit".to_string(), "test.save".to_string()];
    let candidates = filter_commands(&registry, "", Some(&history), &toggles());
    assert_eq!(candidates.len(), 4);
    assert_eq!(candidates[0].label, "Open File");
    assert_eq!(candidates[1].label, "Quit Editor");
    assert_eq!(candidates[2].label, "Save File");
    assert_eq!(candidates[3].label, "Unused Command");
}

#[test]
fn command_history_alphabetical_without_history() {
    let mut registry = CommandRegistry::new();
    registry.register(command("test.zzz", "Zzz Last"));
    registry.register(command("test.aaa", "Aaa First"));
    registry.register(command("test.mmm", "Mmm Middle"));
    let candidates = filter_commands(&registry, "", None, &toggles());
    assert_eq!(candidates.len(), 3);
    assert_eq!(candidates[0].label, "Aaa First");
    assert_eq!(candidates[1].label, "Mmm Middle");
    assert_eq!(candidates[2].label, "Zzz Last");
}

#[test]
fn command_history_fuzzy_search_overrides_history() {
    let mut registry = CommandRegistry::new();
    registry.register(command("test.save", "Save File"));
    registry.register(command("test.quit", "Quit Editor"));
    let history = vec!["test.quit".to_string()];
    let candidates = filter_commands(&registry, "save", Some(&history), &toggles());
    assert_eq!(candidates.len(), 1);
    assert_eq!(candidates[0].label, "Save File");
}

#[test]
fn command_history_graceful_degradation() {
    let mut registry = CommandRegistry::new();
    registry.register(command("test.cmd", "Test Command"));
    let candidates = filter_commands(&registry, "", None, &toggles());
    assert_eq!(candidates.len(), 1);
    assert_eq!(candidates[0].label, "Test Command");
}

#[test]
fn command_labels_for_config_toggles_are_dynamic() {
    let mut registry = CommandRegistry::new();
    registry.register(command("config.toggle_debug", "Toggle Debug"));
    registry.register(command("config.toggle_line_numbers", "Toggle Line Numbers"));

    let t = DisplayToggles { debug: false, show_line_number: true };
    let candidates = filter_commands(&registry, "", None, &t);
    let labels: Vec<&str> = candidates.iter().map(|c| c.label.as_str()).collect();
    assert!(labels.contains(&"Show Debug"));
    assert!(labels.contains(&"Hide Line Number"));

    let t = DisplayToggles { debug: true, show_line_number: false };
    let candidates = filter_commands(&registry, "", None, &t);
    let labels: Vec<&str> = candidates.iter().map(|c| c.label.as_str()).collect();
    assert!(labels.contains(&"Hide Debug"));
    assert!(labels.contains(&"Show Line Number"));
}

#[test]
fn release_key_events_are_ignored() {
    let registry = CommandRegistry::new();
    let mut palette = Palette::new_global_search(vec![], "", &Vec::new());
    palette.input.text = "test".to_string();
    let result = palette.handle_key_event(
        KeyEvent::new_with_kind(KeyCode::Enter, KeyModifiers::none(), KeyEventKind::Release),
        &registry,
        &toggles(),
    );
    assert_eq!(result, EventResult::Consumed);
    assert_eq!(palette.input.text, "test");
}

#[test]
fn palette_insert_text_japanese() {
    let registry = CommandRegistry::new();
    let mut palette = Palette::new_global_search(vec![], "", &Vec::new());
    palette.insert_text("日本語", &registry, &toggles());
    assert_eq!(palette.input.text, "日本語");
    assert_eq!(palette.input.cursor, 3);
    palette.insert_text("テスト", &registry, &toggles());
    assert_eq!(palette.input.text, "日本語テスト");
    assert_eq!(palette.input.cursor, 6);
}

#[test]
fn palette_at_prefix_activates_symbol_mode() {
    let registry = CommandRegistry::new();
    let symbols = vec![("main [function]  1:1".to_string(), 0, 0, vec!["    1 | fn main() {}".to_string()])];
    let mut palette = unified(vec![], symbols, vec![]);
    palette.set_input("@".to_string());
    palette.update_candidates(&registry, &toggles());
    assert_eq!(palette.mode, PaletteMode::SymbolPicker);
    assert_eq!(palette.candidates.len(), 1);
}

#[test]
fn palette_colon_prefix_activates_goto_line_mode() {
    let registry = CommandRegistry::new();
    let doc = vec!["line one".to_string(), "line two".to_string(), "line three".to_string()];
    let mut palette = unified(vec![], vec![], doc);
    palette.set_input(":2".to_string());
    palette.update_candidates(&registry, &toggles());
    assert_eq!(palette.mode, PaletteMode::GotoLine);
    assert!(palette.candidates.is_empty());
}

#[test]
fn palette_mode_transition_on_prefix_change() {
    let registry = CommandRegistry::new();
    let symbols = vec![("main [function]  1:1".to_string(), 0, 0, vec![])];
    let mut palette = unified(vec!["src/main.rs".to_string()], symbols, vec![]);
    palette.set_input(String::new());
    palette.update_candidates(&registry, &toggles());
    assert_eq!(palette.mode, PaletteMode::FileFinder);
    palette.set_input("@".to_string());
    palette.update_candidates(&registry, &toggles());
    assert_eq!(palette.mode, PaletteMode::SymbolPicker);
    palette.set_input(">".to_string());
    palette.update_candidates(&registry, &toggles());
    assert_eq!(palette.mode, PaletteMode::Command);
    palette.set_input(":".to_string());
    palette.update_candidates(&registry, &toggles());
    assert_eq!(palette.mode, PaletteMode::GotoLine);
}

#[test]
fn palette_symbol_filter_with_at_prefix() {
    let registry = CommandRegistry::new();
    let symbols = vec![
        ("main [function]  1:1".to_string(), 0, 0, vec![]),
        ("helper [function]  5:1".to_string(), 4, 0, vec![]),
    ];
    let mut palette = unified(vec![], symbols, vec![]);
    palette.set_input("@hel".to_string());
    palette.update_candidates(&registry, &toggles());
    assert_eq!(palette.mode, PaletteMode::SymbolPicker);
    assert_eq!(palette.candidates.len(), 1);
    assert!(palette.candidates[0].label.contains("helper"));
}

#[test]
fn palette_unified_allows_prefix_deletion() {
    let mut palette = unified(vec![], vec![], vec![]);
    assert!(palette.is_unified);
    palette.set_input("@test".to_string());
    palette.input.cursor = 0;
    palette.clamp_input_cursor();
    assert_eq!(palette.input.cursor, 0);
    palette.set_input(":42".to_string());
    palette.input.cursor = 0;
    palette.clamp_input_cursor();
    assert_eq!(palette.input.cursor, 0);
}

#[test]
fn palette_standalone_protects_prefix() {
    let palette = Palette::new_symbol_picker(vec![("main [function]  1:1".to_string(), 0, 0, vec![])]);
    assert!(!palette.is_unified);
    assert_eq!(palette.min_input_cursor(), 0);
}

#[test]
fn palette_goto_line_enter_dispatches_jump() {
    let registry = CommandRegistry::new();
    let doc: Vec<String> = (0..50).map(|i| format!("line {}", i)).collect();
    let mut palette = unified(vec![], vec![], doc);
    palette.set_input(":42".to_string());
    palette.update_candidates(&registry, &toggles());
    let result = palette.handle_key_event(key(KeyCode::Enter), &registry, &toggles());
    match result {
        EventResult::Action(Action::App(AppAction::Navigation(NavigationAction::JumpToLineChar { line, char_col }))) => {
            assert_eq!(line, 41);
            assert_eq!(char_col, 0);
        },
        other => panic!("Expected JumpToLineChar, got {:?}", other),
    }
}

#[test]
fn palette_goto_line_enter_invalid_closes() {
    let registry = CommandRegistry::new();
    let mut palette = unified(vec![], vec![], vec![]);
    palette.set_input(":".to_string());
    palette.update_candidates(&registry, &toggles());
    let result = palette.handle_key_event(key(KeyCode::Enter), &registry, &toggles());
    match result {
        EventResult::Action(Action::Ui(UiAction::ClosePalette)) => {},
        other => panic!("Expected ClosePalette, got {:?}", other),
    }
}

#[test]
fn palette_goto_line_preview_shows_context() {
    let registry = CommandRegistry::new();
    let doc: Vec<String> = (0..20).map(|i| format!("content line {}", i + 1)).collect();
    let mut palette = unified(vec![], vec![], doc);
    palette.set_input(":10".to_string());
    palette.update_candidates(&registry, &toggles());
    assert!(!palette.preview_lines.is_empty());
    assert!(palette.preview_lines.iter().any(|l| l.contains("10 |")));
    assert!(palette.jump_target_preview_line.is_some());
}

#[test]
fn palette_unified_mode_transition_via_typing() {
    let registry = CommandRegistry::new();
    let symbols = vec![("main [function]  1:1".to_string(), 0, 0, vec![])];
    let mut palette = unified(vec!["test.rs".to_string()], symbols, vec!["hello".to_string()]);
    assert!(palette.is_unified);
    palette.update_candidates(&registry, &toggles());
    assert_eq!(palette.mode, PaletteMode::Command);
    palette.set_input("@".to_string());
    palette.refresh_after_input_edit(&registry, &toggles());
    assert_eq!(palette.mode, PaletteMode::SymbolPicker);
    palette.set_input(":5".to_string());
    palette.refresh_after_input_edit(&registry, &toggles());
    assert_eq!(palette.mode, PaletteMode::GotoLine);
    palette.set_input(String::new());
    palette.refresh_after_input_edit(&registry, &toggles());
    assert_eq!(palette.mode, PaletteMode::FileFinder);
}

#[test]
fn palette_backspace_deletes_prefix_and_switches_mode() {
    let registry = CommandRegistry::new();
    let symbols = vec![("main [function]  1:1".to_string(), 0, 0, vec![])];
    let mut palette = unified(vec!["test.rs".to_string()], symbols, vec![]);
    palette.set_input("@".to_string());
    palette.update_candidates(&registry, &toggles());
    assert_eq!(palette.mode, PaletteMode::SymbolPicker);
    palette.on_backspace(&registry, &toggles());
    assert_eq!(palette.input.text, "");
    assert_eq!(palette.mode, PaletteMode::FileFinder);
}

// Behaviour of the palette's own steps.

#[test]
fn goto_line_preview_is_numbered_and_aimed_at_the_target() {
    let registry = CommandRegistry::new();
    let doc: Vec<String> = (0..20).map(|i| format!("l{}", i + 1)).collect();
    let mut palette = unified(vec![], vec![], doc);
    palette.set_input(":10".to_string());
    palette.update_candidates(&registry, &toggles());
    let expected: Vec<String> = (5..=15).map(|n| format!("{:>5} | l{}", n, n)).collect();
    assert_eq!(palette.preview_lines, expected);
    assert_eq!(palette.jump_target_preview_line, Some(5));
    assert_eq!(palette.jump_target_char_col, Some(0));

    // A number past the end aims at the last line.
    palette.set_input(":99".to_string());
    palette.update_candidates(&registry, &toggles());
    assert_eq!(palette.preview_lines.len(), 6);
    assert_eq!(palette.preview_lines[5], "   20 | l20");
    assert_eq!(palette.jump_target_preview_line, Some(5));

    // Zero, or no number, shows nothing.
    palette.set_input(":0".to_string());
    palette.update_candidates(&registry, &toggles());
    assert!(palette.preview_lines.is_empty());
    assert_eq!(palette.jump_target_preview_line, None);
}

#[test]
fn file_finder_asks_for_nearby_previews_and_reads_the_selected_file() {
    let registry = CommandRegistry::new();
    let files = vec!["a.rs".to_string(), "b.rs".to_string(), "c.rs".to_string()];
    let mut palette = unified(files, vec![], vec![]);
    palette.set_input(String::new());
    palette.update_candidates(&registry, &toggles());
    assert_eq!(palette.mode, PaletteMode::FileFinder);
    assert_eq!(palette.candidates.len(), 3);
    // The selected file is not cached: it is read first.
    assert_eq!(palette.file_read_request.as_deref(), Some("a.rs"));
    assert!(palette.preview_requests.is_empty());
    palette.finish_file_preview(Some("one\ntwo\n".to_string()));
    assert_eq!(palette.preview_lines, vec!["one", "two"]);
    assert_eq!(palette.preview_cache.len(), 1);
    // The other files are asked for in the background.
    assert_eq!(palette.preview_requests, vec!["b.rs".to_string(), "c.rs".to_string()]);

    // Moving onto a file the worker answered shows its cached preview.
    palette.preview_requests.clear();
    palette.accept_preview_result("b.rs".to_string(), vec!["bee".to_string()]);
    palette.select_next();
    assert_eq!(palette.preview_lines, vec!["bee"]);
    assert!(palette.preview_requests.is_empty());
}

#[test]
fn file_finder_enter_opens_the_selected_file() {
    let registry = CommandRegistry::new();
    let mut palette = unified(vec!["src/main.rs".to_string(), "src/lib.rs".to_string()], vec![], vec![]);
    palette.set_input("lib".to_string());
    palette.update_candidates(&registry, &toggles());
    assert_eq!(palette.candidates.len(), 1);
    assert_eq!(palette.selected_file_path(), Some("src/lib.rs"));
    let result = palette.handle_key_event(key(KeyCode::Enter), &registry, &toggles());
    assert_eq!(
        result,
        EventResult::Action(Action::App(AppAction::Buffer(BufferAction::OpenProjectFile("src/lib.rs".to_string()))))
    );
}

#[test]
fn files_are_listed_best_match_first() {
    let files = vec!["xxsxxrxxc.rs".to_string(), "src.rs".to_string(), "other.txt".to_string()];
    let rows = filter_files(&files, "src");
    assert_eq!(rows.len(), 2);
    assert_eq!(rows[0].label, "src.rs");
    assert_eq!(rows[0].kind, CandidateKind::File(1));
    assert!(rows[0].score > rows[1].score);
    assert_eq!(rows[0].match_positions, vec![0, 1, 2]);
    let all = filter_files(&files, "");
    assert_eq!(all.len(), 3);
    assert_eq!(all[2].kind, CandidateKind::File(2));
}

#[test]
fn stale_global_search_batches_are_ignored_and_searches_wait_for_rest() {
    let registry = CommandRegistry::new();
    let mut palette = Palette::new_global_search(vec![], "", &Vec::new());
    palette.insert_text("x", &registry, &toggles());
    // The input has not rested yet: no search.
    assert_eq!(palette.pump_global_search(vec![], false), None);
    let req = palette.pump_global_search(vec![], true);
    assert_eq!(req, Some(("x".to_string(), 1)));
    assert!(!palette.global_search_dirty);

    let entry = GlobalSearchResultEntry {
        rel_path: "src/a.rs".to_string(),
        line: 4,
        char_col: 2,
        preview_lines: vec!["src/a.rs:5:3".to_string(), "    5 |   let x = 1;".to_string()],
    };
    palette.pump_global_search(vec![GlobalSearchBatch { generation: 1, results: vec![entry], error: None }], false);
    assert_eq!(palette.candidates.len(), 1);
    assert_eq!(palette.candidates[0].label, "src/a.rs:5 let x = 1;");
    assert_eq!(palette.preview_lines, vec!["src/a.rs:5:3", "    5 |   let x = 1;"]);

    // An older generation arriving late changes nothing.
    palette.pump_global_search(
        vec![GlobalSearchBatch { generation: 0, results: vec![], error: Some("late".to_string()) }],
        false,
    );
    assert_eq!(palette.candidates.len(), 1);
}

#[test]
fn escape_closes_and_up_wraps_to_the_last_row() {
    let registry = CommandRegistry::new();
    let mut palette = unified(vec![], vec![], vec![]);
    assert_eq!(palette.handle_key_event(key(KeyCode::Esc), &registry, &toggles()), close());
    palette.candidates = vec![row(CandidateKind::Command(0), "A"), row(CandidateKind::Command(1), "B"), row(CandidateKind::Command(2), "C")];
    palette.selected = 0;
    assert_eq!(palette.handle_key_event(key(KeyCode::Up), &registry, &toggles()), EventResult::Consumed);
    assert_eq!(palette.selected, 2);
    palette.handle_key_event(key(KeyCode::Down), &registry, &toggles());
    assert_eq!(palette.selected, 0);
}

#[test]
fn ctrl_arrows_move_by_words() {
    let registry = CommandRegistry::new();
    let mut palette = unified(vec![], vec![], vec![]);
    palette.set_input("alpha  beta gamma".to_string());
    palette.input.cursor = 0;
    palette.handle_key_event(KeyEvent::new(KeyCode::Right, KeyModifiers::control()), &registry, &toggles());
    assert_eq!(palette.input.cursor, 5);
    palette.handle_key_event(KeyEvent::new(KeyCode::Right, KeyModifiers::control()), &registry, &toggles());
    assert_eq!(palette.input.cursor, 11);
    palette.handle_key_event(KeyEvent::new(KeyCode::Left, KeyModifiers::control()), &registry, &toggles());
    assert_eq!(palette.input.cursor, 7);
    palette.handle_key_event(ctrl('e'), &registry, &toggles());
    assert_eq!(palette.input.cursor, 17);
    palette.handle_key_event(ctrl('a'), &registry, &toggles());
    assert_eq!(palette.input.cursor, 0);
}

#[test]
fn enter_without_a_selection_closes() {
    let registry = CommandRegistry::new();
    let mut palette = Palette::new_buffer_picker(vec![]);
    assert_eq!(palette.handle_key_event(key(KeyCode::Enter), &registry, &toggles()), close());
}

#[test]
fn symbol_preview_aims_at_the_numbered_line() {
    let palette = Palette::new_symbol_picker(vec![(
        "helper".to_string(),
        9,
        3,
        vec!["    9 | }".to_string(), "   10 | fn helper() {}".to_string()],
    )]);
    assert_eq!(palette.jump_target_preview_line, Some(1));
    assert_eq!(palette.jump_target_char_col, Some(3));
}

#[test]
fn command_preview_names_the_command() {
    let mut registry = CommandRegistry::new();
    registry.register(CommandEntry {
        id: "core.save".to_string(),
        label: "Save File".to_string(),
        category: Some("File".to_string()),
    });
    let rows = filter_commands(&registry, "", None, &toggles());
    assert_eq!(rows[0].preview_lines, vec!["Command: Save File", "Category: File", "ID: core.save"]);
}
