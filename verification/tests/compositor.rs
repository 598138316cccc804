use gargo::command::registry::CommandRegistry;
use gargo::input::action::{Action, AppAction, CoreAction, IntegrationAction, UiAction, WorkspaceAction};
use gargo::input::chord::KeyState;
use gargo::input::key::{KeyCode, KeyEvent, KeyModifiers};
use gargo::ui::framework::component::EventResult;
use gargo::ui::framework::compositor::{explorer_layout, Compositor, SearchBar};
use gargo::ui::overlays::editor::markdown_link_hover::MarkdownLinkHover;
use gargo::ui::overlays::palette::state::{DisplayToggles, Palette};
use gargo::ui::overlays::project::save_as_popup::SaveAsPopup;
use gargo::ui::text_input::TextInput;

fn key(code: KeyCode) -> KeyEvent {
    KeyEvent::new(code, KeyModifiers::none())
}

fn ctrl(c: char) -> KeyEvent {
    KeyEvent::new(KeyCode::Char(c), KeyModifiers::control())
}

fn toggles() -> DisplayToggles {
    DisplayToggles { debug: false, show_line_number: true }
}

fn route(comp: &mut Compositor, k: KeyEvent) -> EventResult {
    comp.handle_key(k, &CommandRegistry::new(), &toggles(), &KeyState::Normal)
}

fn search_bar(text: &str) -> SearchBar {
    SearchBar {
        input: TextInput::with_text(text),
        saved_cursor: 7,
        saved_scroll: 3,
        saved_horizontal_scroll: 1,
    }
}

fn update_text(r: &EventResult) -> Option<String> {
    match r {
        EventResult::Action(Action::Core(CoreAction::SearchUpdate(s))) => Some(s.clone()),
        _ => None,
    }
}

#[test]
fn explorer_shares_the_columns_with_the_editor() {
    assert_eq!(explorer_layout(false, 120), None);
    assert_eq!(explorer_layout(true, 120), Some((30, 30, 31, 89)));
    assert_eq!(explorer_layout(true, 80), Some((30, 30, 31, 49)));
    assert_eq!(explorer_layout(true, 79), Some((79, 0, 0, 0)));
}

#[test]
fn keys_fall_through_once_the_popup_is_closed() {
    let mut comp = Compositor::new();
    assert_eq!(route(&mut comp, key(KeyCode::Char('j'))), EventResult::Ignored);
    comp.save_as_popup = Some(SaveAsPopup::new(String::new(), "/root".to_string()));
    assert_eq!(route(&mut comp, key(KeyCode::Char('j'))), EventResult::Consumed);
    assert_eq!(
        route(&mut comp, ctrl('q')),
        EventResult::Action(Action::Ui(UiAction::CloseSaveAsPopup))
    );
    comp.save_as_popup = None;
    assert_eq!(route(&mut comp, key(KeyCode::Char('j'))), EventResult::Ignored);
}

#[test]
fn the_palette_comes_before_the_search_prompt() {
    let mut comp = Compositor::new();
    comp.search_bar = Some(search_bar("abc"));
    comp.palette = Some(Palette::new(vec![], "", &Vec::new(), None, vec![], vec![]));
    let r = route(&mut comp, key(KeyCode::Char('x')));
    assert_eq!(update_text(&r), None);
    assert_eq!(comp.palette.as_ref().unwrap().input.text, ">x");
    assert_eq!(comp.search_bar.as_ref().unwrap().input.text, "abc");
}

#[test]
fn search_prompt_keys() {
    let mut comp = Compositor::new();
    comp.search_bar = Some(search_bar("ab"));
    let r = route(&mut comp, key(KeyCode::Char('c')));
    assert_eq!(update_text(&r).as_deref(), Some("abc"));
    let r = route(&mut comp, key(KeyCode::Backspace));
    assert_eq!(update_text(&r).as_deref(), Some("ab"));
    assert_eq!(route(&mut comp, ctrl('a')), EventResult::Consumed);
    assert_eq!(comp.search_bar.as_ref().unwrap().input.cursor, 0);
    let r = route(&mut comp, ctrl('k'));
    assert_eq!(update_text(&r).as_deref(), Some(""));
    assert_eq!(
        route(&mut comp, key(KeyCode::Up)),
        EventResult::Action(Action::App(AppAction::Workspace(WorkspaceAction::SearchHistoryPrev)))
    );
    assert_eq!(
        route(&mut comp, ctrl('n')),
        EventResult::Action(Action::App(AppAction::Workspace(WorkspaceAction::SearchHistoryNext)))
    );
    assert_eq!(
        route(&mut comp, key(KeyCode::Enter)),
        EventResult::Action(Action::App(AppAction::Workspace(WorkspaceAction::SearchConfirm)))
    );
    assert_eq!(
        route(&mut comp, key(KeyCode::Esc)),
        EventResult::Action(Action::App(AppAction::Workspace(WorkspaceAction::SearchCancel {
            saved_cursor: 7,
            saved_scroll: 3,
            saved_horizontal_scroll: 1,
        })))
    );
    assert_eq!(route(&mut comp, key(KeyCode::Tab)), EventResult::Consumed);
}

#[test]
fn link_hover_navigates_applies_and_closes() {
    let mut comp = Compositor::new();
    comp.set_markdown_link_hover_candidates(vec!["a.md".to_string(), "b.md".to_string()]);
    assert_eq!(route(&mut comp, key(KeyCode::Down)), EventResult::Consumed);
    assert_eq!(
        route(&mut comp, key(KeyCode::Enter)),
        EventResult::Action(Action::App(AppAction::Integration(
            IntegrationAction::ApplyMarkdownLinkCompletion { candidate: "b.md".to_string() }
        )))
    );
    // Other keys pass through the hover.
    assert_eq!(route(&mut comp, key(KeyCode::Char('x'))), EventResult::Ignored);
    assert!(comp.markdown_link_hover.is_some());
    assert_eq!(route(&mut comp, key(KeyCode::Esc)), EventResult::Consumed);
    assert!(comp.markdown_link_hover.is_none());

    comp.markdown_link_hover = Some(MarkdownLinkHover::new(vec!["c.md".to_string()]));
    comp.set_markdown_link_hover_candidates(vec![]);
    assert!(comp.markdown_link_hover.is_none());
    comp.set_markdown_link_hover_candidates(vec!["d.md".to_string()]);
    comp.close_markdown_link_hover();
    assert!(comp.markdown_link_hover.is_none());
}
