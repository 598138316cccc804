use gargo::ui::framework::compositor::SearchBar;
use gargo::ui::overlays::command_helper::CommandHelper;
use gargo::input::chord::KeyState;
use gargo::ui::text_input::{delete_prev_word_input, InputEdit, TextInput};

#[test]
fn text_input_edits_at_the_cursor() {
    let mut t = TextInput::with_text("héllo");
    assert_eq!(t.cursor, 5);
    t.move_left();
    t.move_left();
    t.insert_char('X');
    assert_eq!(t.text, "hélXlo");
    assert_eq!(t.cursor, 4);
    assert!(t.backspace());
    assert_eq!(t.text, "héllo");
    t.move_start();
    assert!(!t.backspace());
    t.insert_text("ab");
    assert_eq!(t.text, "abhéllo");
    assert_eq!(t.cursor, 2);
    assert!(t.delete_to_end());
    assert_eq!(t.text, "ab");
    assert!(!t.delete_to_end());
    t.set_text("one two  ".to_string());
    assert!(t.delete_prev_word());
    assert_eq!(t.text, "one ");
    assert_eq!(t.cursor, 4);
    t.move_end();
    t.move_right();
    assert_eq!(t.cursor, 4);
    assert!(!t.apply_edit(InputEdit::Left));
    assert_eq!(t.cursor, 3);
}

#[test]
fn delete_prev_word_input_cases() {
    let mut s = "hello world".to_string();
    delete_prev_word_input(&mut s);
    assert_eq!(s, "hello ");
    let mut s = "hello   ".to_string();
    delete_prev_word_input(&mut s);
    assert_eq!(s, "");
    let mut s = String::new();
    delete_prev_word_input(&mut s);
    assert_eq!(s, "");
}

#[test]
fn search_bar_inserts_pasted_text() {
    let mut bar = SearchBar {
        input: TextInput::with_text("fo"),
        saved_cursor: 7,
        saved_scroll: 1,
        saved_horizontal_scroll: 2,
    };
    bar.input.move_left();
    bar.insert_text("xy");
    assert_eq!(bar.input.text, "fxyo");
    assert_eq!(bar.input.cursor, 3);
    assert_eq!(bar.saved_cursor, 7);
}

#[test]
fn command_helper_lists_chord_bindings() {
    let space = CommandHelper::new(&KeyState::Space);
    assert_eq!(space.title, "SPC Commands");
    assert_eq!(space.bindings.len(), 11);
    assert_eq!(space.bindings[0].key, "e");
    assert_eq!(space.bindings[0].description, "Toggle explorer");
    let ctrl_x = CommandHelper::new(&KeyState::CtrlX);
    assert_eq!(ctrl_x.title, "Ctrl-X Commands");
    assert_eq!(ctrl_x.bindings[1].description, "Quit");
    let normal = CommandHelper::new(&KeyState::Normal);
    assert!(normal.title.is_empty());
    assert!(normal.bindings.is_empty());
}

#[test]
fn search_bar_insert_text_japanese() {
    // Test that Japanese text (from IME paste events) is correctly inserted
    let mut bar = SearchBar {
        input: TextInput::new(),
        saved_cursor: 0,
        saved_scroll: 0,
        saved_horizontal_scroll: 0,
    };

    // Insert Japanese text (simulating IME composition result)
    bar.insert_text("ターミナル");
    assert_eq!(bar.input.text, "ターミナル");
    assert_eq!(bar.input.cursor, 5); // 5 characters

    // Insert more text at the end
    bar.insert_text("テスト");
    assert_eq!(bar.input.text, "ターミナルテスト");
    assert_eq!(bar.input.cursor, 8);

    // Insert at middle position
    bar.input.cursor = 5;
    bar.insert_text("の");
    assert_eq!(bar.input.text, "ターミナルのテスト");
    assert_eq!(bar.input.cursor, 6);
}
