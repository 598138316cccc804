use gargo::input::key::{KeyCode, KeyEvent, KeyModifiers};
use gargo::ui::overlays::editor::markdown_link_hover::{HoverKeyResult, MarkdownLinkHover};

fn key(code: KeyCode) -> KeyEvent {
    KeyEvent::new(code, KeyModifiers::none())
}

fn ctrl(c: char) -> KeyEvent {
    KeyEvent::new(KeyCode::Char(c), KeyModifiers::control())
}

#[test]
fn ctrl_navigation_cycles_candidates() {
    let mut hover = MarkdownLinkHover::new(vec!["a".to_string(), "b".to_string()]);

    assert_eq!(hover.handle_key(ctrl('n')), HoverKeyResult::Consumed);
    assert_eq!(hover.selected_candidate().as_deref(), Some("b"));

    assert_eq!(hover.handle_key(ctrl('p')), HoverKeyResult::Consumed);
    assert_eq!(hover.selected_candidate().as_deref(), Some("a"));
}

#[test]
fn tab_and_backtab_navigate_candidates() {
    let mut hover = MarkdownLinkHover::new(vec!["a".to_string(), "b".to_string()]);

    assert_eq!(hover.handle_key(key(KeyCode::Tab)), HoverKeyResult::Consumed);
    assert_eq!(hover.selected_candidate().as_deref(), Some("b"));

    assert_eq!(hover.handle_key(key(KeyCode::BackTab)), HoverKeyResult::Consumed);
    assert_eq!(hover.selected_candidate().as_deref(), Some("a"));
}

#[test]
fn up_and_down_navigate_candidates() {
    let mut hover =
        MarkdownLinkHover::new(vec!["a".to_string(), "b".to_string(), "c".to_string()]);

    assert_eq!(hover.handle_key(key(KeyCode::Down)), HoverKeyResult::Consumed);
    assert_eq!(hover.selected_candidate().as_deref(), Some("b"));

    assert_eq!(hover.handle_key(key(KeyCode::Up)), HoverKeyResult::Consumed);
    assert_eq!(hover.selected_candidate().as_deref(), Some("a"));

    assert_eq!(hover.handle_key(key(KeyCode::Up)), HoverKeyResult::Consumed);
    assert_eq!(hover.selected_candidate().as_deref(), Some("c"));
}

#[test]
fn enter_applies_selected_candidate() {
    let mut hover = MarkdownLinkHover::new(vec!["a.md".to_string(), "b.md".to_string()]);
    let _ = hover.handle_key(key(KeyCode::Tab));

    assert_eq!(
        hover.handle_key(key(KeyCode::Enter)),
        HoverKeyResult::Apply("b.md".to_string())
    );
}

#[test]
fn esc_closes_hover() {
    let mut hover = MarkdownLinkHover::new(vec!["a".to_string()]);
    assert_eq!(hover.handle_key(key(KeyCode::Esc)), HoverKeyResult::Close);
}

#[test]
fn non_control_keys_fall_through() {
    let mut hover = MarkdownLinkHover::new(vec!["a".to_string()]);
    assert_eq!(hover.handle_key(key(KeyCode::Char('x'))), HoverKeyResult::Ignored);
}

#[test]
fn hover_with_no_candidates_ignores_every_key() {
    let mut hover = MarkdownLinkHover::new(vec![]);
    assert!(hover.is_empty());
    assert_eq!(hover.handle_key(key(KeyCode::Enter)), HoverKeyResult::Ignored);
    assert_eq!(hover.handle_key(key(KeyCode::Esc)), HoverKeyResult::Ignored);
    assert_eq!(hover.handle_key(ctrl('n')), HoverKeyResult::Ignored);
    assert_eq!(hover.selected_candidate(), None);
}

#[test]
fn set_candidates_keeps_selection_in_range() {
    let mut hover =
        MarkdownLinkHover::new(vec!["a".to_string(), "b".to_string(), "c".to_string()]);
    hover.handle_key(key(KeyCode::Up));
    assert_eq!(hover.selected_candidate().as_deref(), Some("c"));
    hover.set_candidates(vec!["x".to_string(), "y".to_string()]);
    assert_eq!(hover.selected_candidate().as_deref(), Some("y"));
    hover.set_candidates(vec![]);
    assert!(hover.is_empty());
    assert_eq!(hover.selected_candidate(), None);
    hover.set_candidates(vec!["z".to_string()]);
    assert_eq!(hover.selected_candidate().as_deref(), Some("z"));
    assert_eq!(
        hover.handle_key(KeyEvent::new(KeyCode::Tab, KeyModifiers::shift())),
        HoverKeyResult::Consumed
    );
    assert_eq!(hover.selected_candidate().as_deref(), Some("z"));
}
