//! The compositor's overlays and how a key is routed among them, the
//! incremental-search prompt it shows over the editor, and how the columns
//! are shared between the explorer sidebar and the editor. Drawing the frame,
//! the window panes and mouse dragging of split borders belong to the window
//! manager and the terminal surface, which are not part of this library; so
//! do the find-and-replace popup, the git view and the explorer popup.
use vstd::prelude::*;

use crate::command::registry::CommandRegistry;
use crate::input::action::{Action, AppAction, CoreAction, IntegrationAction, WorkspaceAction};
use crate::input::chord::KeyState;
use crate::input::key::{KeyCode, KeyEvent, KeyEventKind, KeyModifiers};
use crate::ui::framework::component::EventResult;
use crate::ui::overlays::editor::markdown_link_hover::{hover_navigates, hover_selection_after, HoverKeyResult, MarkdownLinkHover};
use crate::ui::overlays::explorer::sidebar::Explorer;
use crate::ui::overlays::github::issue_picker::IssueListPicker;
use crate::ui::overlays::github::list_keys::picker_op;
use crate::ui::overlays::github::pr_picker::PrListPicker;
use crate::ui::overlays::palette::state::{commands_fit, files_in_range, DisplayToggles, Palette};
use crate::ui::overlays::project::recent_picker::{recent_op, RecentProjectPopup};
use crate::ui::overlays::project::root_picker::{root_op, ProjectRootPopup};
use crate::ui::overlays::project::save_as_popup::{save_op, SaveAsPopup};
use crate::ui::text_input::{edit_result, InputEdit, TextInput};

verus! {

/// The search prompt, with the view position to return to when it is
/// cancelled.
pub struct SearchBar {
    pub input: TextInput,
    pub saved_cursor: usize,
    pub saved_scroll: usize,
    pub saved_horizontal_scroll: usize,
}

impl SearchBar {
    /// Insert text at the current cursor position (for IME/paste support).
    pub fn insert_text(&mut self, text: &str)
        requires
            old(self).input.wf(),
        ensures
            final(self).input.wf(),
            final(self).input.text@ == old(self).input.text@.take(old(self).input.cursor as int) + text@
                + old(self).input.text@.skip(old(self).input.cursor as int),
            final(self).input.cursor == old(self).input.cursor + text@.len(),
            final(self).saved_cursor == old(self).saved_cursor,
            final(self).saved_scroll == old(self).saved_scroll,
            final(self).saved_horizontal_scroll == old(self).saved_horizontal_scroll,
    {
        self.input.insert_text(text);
    }
}

/// Columns of the explorer beside the editor, as (explorer width, border
/// column, editor start, editor width), when the explorer is open. From 80
/// columns on the explorer takes 30, the border the next one and the editor
/// the rest; below that the explorer fills the width and no editor shows.
pub fn explorer_layout(explorer_open: bool, cols: usize) -> (r: Option<(usize, usize, usize, usize)>)
    ensures
        !explorer_open ==> r is None,
        explorer_open && cols >= 80 ==> r == Some((30usize, 30usize, 31usize, (cols - 31) as usize)),
        explorer_open && cols < 80 ==> r == Some((cols, 0usize, 0usize, 0usize)),
{
    if !explorer_open {
        return None;
    }
    if cols >= 80 {
        let ew: usize = 30;
        let editor_x = ew + 1;
        Some((ew, ew, editor_x, cols - editor_x))
    } else {
        Some((cols, 0, 0, 0))
    }
}
/// `b` is `bar` after `e`, with the saved view position kept.
pub open spec fn bar_edited(bar: SearchBar, e: InputEdit, b: SearchBar) -> bool {
    &&& (b.input.text@, b.input.cursor as int) == edit_result(bar.input.text@, bar.input.cursor as int, e)
    &&& b.saved_cursor == bar.saved_cursor
    &&& b.saved_scroll == bar.saved_scroll
    &&& b.saved_horizontal_scroll == bar.saved_horizontal_scroll
}

/// `r` reports the search text of `b` as changed.
pub open spec fn search_updated(b: SearchBar, r: EventResult) -> bool {
    r matches EventResult::Action(Action::Core(CoreAction::SearchUpdate(s))) && s@ == b.input.text@
}

/// The workspace action `w` as an answer.
pub open spec fn workspace(w: WorkspaceAction) -> EventResult {
    EventResult::Action(Action::App(AppAction::Workspace(w)))
}

/// Leaving the search, back to the view position saved in `bar`.
pub open spec fn search_cancel(bar: SearchBar) -> EventResult {
    workspace(
        WorkspaceAction::SearchCancel {
            saved_cursor: bar.saved_cursor,
            saved_scroll: bar.saved_scroll,
            saved_horizontal_scroll: bar.saved_horizontal_scroll,
        },
    )
}

/// What a key does to the search prompt `bar`, giving `b` and answer `r`.
/// With Control: q cancels, p and n walk the search history, a, e, f and b
/// move to the start, the end, right and left, k and w delete to the end or
/// the previous word and report the new text; other Control keys are taken
/// and do nothing. Without: Up and Down walk the history, Left and Right
/// move, Esc cancels, Enter confirms, Backspace and characters edit and
/// report the new text; other keys are taken and do nothing.
pub open spec fn search_step(bar: SearchBar, key: KeyEvent, b: SearchBar, r: EventResult) -> bool {
    let moved = |e: InputEdit| bar_edited(bar, e, b) && r == EventResult::Consumed;
    let edited = |e: InputEdit| bar_edited(bar, e, b) && search_updated(b, r);
    let kept = |res: EventResult| b == bar && r == res;
    if key.modifiers.control {
        match key.code {
            KeyCode::Char('q') => kept(search_cancel(bar)),
            KeyCode::Char('p') => kept(workspace(WorkspaceAction::SearchHistoryPrev)),
            KeyCode::Char('n') => kept(workspace(WorkspaceAction::SearchHistoryNext)),
            KeyCode::Char('a') => moved(InputEdit::Start),
            KeyCode::Char('e') => moved(InputEdit::End),
            KeyCode::Char('f') => moved(InputEdit::Right),
            KeyCode::Char('b') => moved(InputEdit::Left),
            KeyCode::Char('k') => edited(InputEdit::DeleteToEnd),
            KeyCode::Char('w') => edited(InputEdit::DeleteWord),
            _ => kept(EventResult::Consumed),
        }
    } else {
        match key.code {
            KeyCode::Up => kept(workspace(WorkspaceAction::SearchHistoryPrev)),
            KeyCode::Down => kept(workspace(WorkspaceAction::SearchHistoryNext)),
            KeyCode::Left => moved(InputEdit::Left),
            KeyCode::Right => moved(InputEdit::Right),
            KeyCode::Esc => kept(search_cancel(bar)),
            KeyCode::Enter => kept(workspace(WorkspaceAction::SearchConfirm)),
            KeyCode::Backspace => edited(InputEdit::Backspace),
            KeyCode::Char(c) => edited(InputEdit::Insert(c)),
            _ => kept(EventResult::Consumed),
        }
    }
}

impl SearchBar {
    /// Handles a key while the search prompt is open (see `search_step`).
    pub fn handle_key(&mut self, key: KeyEvent) -> (r: EventResult)
        requires
            old(self).input.wf(),
        ensures
            final(self).input.wf(),
            search_step(*old(self), key, *final(self), r),
    {
        if key.modifiers.contains(KeyModifiers::control()) {
            return match key.code {
                KeyCode::Char('q') => self.cancel(),
                KeyCode::Char('p') => EventResult::Action(Action::App(AppAction::Workspace(WorkspaceAction::SearchHistoryPrev))),
                KeyCode::Char('n') => EventResult::Action(Action::App(AppAction::Workspace(WorkspaceAction::SearchHistoryNext))),
                KeyCode::Char('a') => self.move_by(InputEdit::Start),
                KeyCode::Char('e') => self.move_by(InputEdit::End),
                KeyCode::Char('f') => self.move_by(InputEdit::Right),
                KeyCode::Char('b') => self.move_by(InputEdit::Left),
                KeyCode::Char('k') => self.edit(InputEdit::DeleteToEnd),
                KeyCode::Char('w') => self.edit(InputEdit::DeleteWord),
                _ => EventResult::Consumed,
            };
        }
        match key.code {
            KeyCode::Up => EventResult::Action(Action::App(AppAction::Workspace(WorkspaceAction::SearchHistoryPrev))),
            KeyCode::Down => EventResult::Action(Action::App(AppAction::Workspace(WorkspaceAction::SearchHistoryNext))),
            KeyCode::Left => self.move_by(InputEdit::Left),
            KeyCode::Right => self.move_by(InputEdit::Right),
            KeyCode::Esc => self.cancel(),
            KeyCode::Enter => EventResult::Action(Action::App(AppAction::Workspace(WorkspaceAction::SearchConfirm))),
            KeyCode::Backspace => self.edit(InputEdit::Backspace),
            KeyCode::Char(c) => self.edit(InputEdit::Insert(c)),
            _ => EventResult::Consumed,
        }
    }

    /// Leaving the search, back to the saved view position.
    fn cancel(&self) -> (r: EventResult)
        ensures
            r == search_cancel(*self),
    {
        EventResult::Action(
            Action::App(
                AppAction::Workspace(
                    WorkspaceAction::SearchCancel {
                        saved_cursor: self.saved_cursor,
                        saved_scroll: self.saved_scroll,
                        saved_horizontal_scroll: self.saved_horizontal_scroll,
                    },
                ),
            ),
        )
    }

    /// Moves the cursor by `e`.
    fn move_by(&mut self, e: InputEdit) -> (r: EventResult)
        requires
            old(self).input.wf(),
        ensures
            final(self).input.wf(),
            bar_edited(*old(self), e, *final(self)),
            r == EventResult::Consumed,
    {
        let _ = self.input.apply_edit(e);
        EventResult::Consumed
    }

    /// Edits the text by `e` and reports the new text.
    fn edit(&mut self, e: InputEdit) -> (r: EventResult)
        requires
            old(self).input.wf(),
        ensures
            final(self).input.wf(),
            bar_edited(*old(self), e, *final(self)),
            search_updated(*final(self), r),
    {
        let _ = self.input.apply_edit(e);
        EventResult::Action(Action::Core(CoreAction::SearchUpdate(self.input.text.clone())))
    }
}

/// The overlays the compositor shows over the editor. A key goes to the
/// first one open, in the order of the fields.
pub struct Compositor {
    pub palette: Option<Palette>,
    pub pr_list_picker: Option<PrListPicker>,
    pub issue_list_picker: Option<IssueListPicker>,
    pub project_root_popup: Option<ProjectRootPopup>,
    pub recent_project_popup: Option<RecentProjectPopup>,
    pub save_as_popup: Option<SaveAsPopup>,
    pub search_bar: Option<SearchBar>,
    pub markdown_link_hover: Option<MarkdownLinkHover>,
    pub explorer: Option<Explorer>,
}

/// What the explorer does with a key the overlays above it left: its own
/// step when it is open (its answer passes on, `Ignored` included),
/// `Ignored` with nothing changed otherwise.
pub open spec fn explorer_routed(a: Compositor, key: KeyEvent, ks: KeyState, b: Compositor, r: EventResult) -> bool {
    if a.explorer is Some {
        &&& b.explorer matches Some(e) && Explorer::key_step(a.explorer->0, key, ks, e, r)
        &&& b == (Compositor { explorer: b.explorer, ..a })
    } else {
        b == a && r == EventResult::Ignored
    }
}

/// What the link hover, then the explorer, do with a key no popup and no
/// search prompt took. The hover takes its navigation keys, answers Enter
/// with the selected candidate to complete and closes on Esc; with any other
/// key it keeps its state and the key goes on to the explorer.
pub open spec fn hover_routed(a: Compositor, key: KeyEvent, ks: KeyState, b: Compositor, r: EventResult) -> bool {
    if a.markdown_link_hover is Some {
        let h = a.markdown_link_hover->0;
        let n = h.candidates().len();
        let plain = !key.modifiers.control;
        let same_hover = b.markdown_link_hover matches Some(h2) && h2.candidates() == h.candidates()
            && h2.selected() == hover_selection_after(key, h.selected(), n as int);
        let rest_same = b == (Compositor { markdown_link_hover: b.markdown_link_hover, ..a });
        if n > 0 && hover_navigates(key) {
            same_hover && rest_same && r == EventResult::Consumed
        } else if n > 0 && plain && key.code == KeyCode::Enter {
            &&& same_hover && rest_same
            &&& r matches EventResult::Action(
                Action::App(AppAction::Integration(IntegrationAction::ApplyMarkdownLinkCompletion { candidate })),
            ) && candidate@ == h.candidates()[h.selected()]@
        } else if n > 0 && plain && key.code == KeyCode::Esc {
            b.markdown_link_hover is None && rest_same && r == EventResult::Consumed
        } else {
            same_hover && explorer_routed(
                Compositor { markdown_link_hover: b.markdown_link_hover, ..a },
                key,
                ks,
                b,
                r,
            )
        }
    } else {
        explorer_routed(a, key, ks, b, r)
    }
}

/// Where a key goes and what it does: to the first open overlay among the
/// palette, the PR picker, the issue picker, the project-root popup, the
/// recent-project popup and the save-as popup, which answers by its own
/// step with everything else unchanged; else to the search prompt (see
/// `search_step`); else to the link hover and the explorer (see
/// `hover_routed`).
pub open spec fn routed(
    a: Compositor,
    key: KeyEvent,
    reg: CommandRegistry,
    t: DisplayToggles,
    ks: KeyState,
    b: Compositor,
    r: EventResult,
) -> bool {
    if a.palette is Some {
        &&& b.palette matches Some(p) && crate::ui::overlays::palette::state::key_step(a.palette->0, key, reg, t, p, r)
        &&& b == (Compositor { palette: b.palette, ..a })
    } else if a.pr_list_picker is Some {
        let o = a.pr_list_picker->0;
        let op = picker_op(o.find_active, o.copy_menu_active, key);
        &&& b.pr_list_picker matches Some(p) && PrListPicker::key_step(o, op, p)
        &&& PrListPicker::key_result(o, op, r)
        &&& b == (Compositor { pr_list_picker: b.pr_list_picker, ..a })
    } else if a.issue_list_picker is Some {
        let o = a.issue_list_picker->0;
        let op = picker_op(o.find_active, o.copy_menu_active, key);
        &&& b.issue_list_picker matches Some(p) && IssueListPicker::key_step(o, op, p)
        &&& IssueListPicker::key_result(o, op, r)
        &&& b == (Compositor { issue_list_picker: b.issue_list_picker, ..a })
    } else if a.project_root_popup is Some {
        &&& b.project_root_popup matches Some(p) && ProjectRootPopup::key_step(a.project_root_popup->0, root_op(key), p, r)
        &&& b == (Compositor { project_root_popup: b.project_root_popup, ..a })
    } else if a.recent_project_popup is Some {
        &&& b.recent_project_popup matches Some(p) && RecentProjectPopup::key_step(a.recent_project_popup->0, recent_op(key), p, r)
        &&& b == (Compositor { recent_project_popup: b.recent_project_popup, ..a })
    } else if a.save_as_popup is Some {
        &&& b.save_as_popup matches Some(p) && SaveAsPopup::key_step(a.save_as_popup->0, save_op(key), p, r)
        &&& b == (Compositor { save_as_popup: b.save_as_popup, ..a })
    } else if a.search_bar is Some {
        &&& b.search_bar matches Some(p) && search_step(a.search_bar->0, key, p, r)
        &&& b == (Compositor { search_bar: b.search_bar, ..a })
    } else {
        hover_routed(a, key, ks, b, r)
    }
}

impl Compositor {
    /// Every open overlay is well formed.
    pub open spec fn wf(self) -> bool {
        &&& self.palette matches Some(p) ==> p.wf()
        &&& self.pr_list_picker matches Some(p) ==> p.wf()
        &&& self.issue_list_picker matches Some(p) ==> p.wf()
        &&& self.project_root_popup matches Some(p) ==> p.wf()
        &&& self.recent_project_popup matches Some(p) ==> p.wf()
        &&& self.save_as_popup matches Some(p) ==> p.wf()
        &&& self.search_bar matches Some(p) ==> p.input.wf()
        &&& self.explorer matches Some(p) ==> p.wf()
    }

    /// A compositor with nothing open.
    pub fn new() -> (c: Self)
        ensures
            c.wf(),
            c.palette is None && c.pr_list_picker is None && c.issue_list_picker is None,
            c.project_root_popup is None && c.recent_project_popup is None && c.save_as_popup is None,
            c.search_bar is None && c.markdown_link_hover is None && c.explorer is None,
    {
        Compositor {
            palette: None,
            pr_list_picker: None,
            issue_list_picker: None,
            project_root_popup: None,
            recent_project_popup: None,
            save_as_popup: None,
            search_bar: None,
            markdown_link_hover: None,
            explorer: None,
        }
    }

    /// Shows `candidates` in the link hover, keeping its selection where it
    /// can; no candidate closes the hover.
    pub fn set_markdown_link_hover_candidates(&mut self, candidates: Vec<String>)
        ensures
            candidates@.len() == 0 ==> *final(self) == (Compositor { markdown_link_hover: None, ..*old(self) }),
            candidates@.len() > 0 ==> {
                &&& final(self).markdown_link_hover matches Some(h) && h.candidates() == candidates@
                    && h.selected() == match old(self).markdown_link_hover {
                    Some(o) => if o.selected() < candidates@.len() {
                        o.selected()
                    } else {
                        candidates@.len() - 1
                    },
                    None => 0,
                }
                &&& *final(self) == (Compositor { markdown_link_hover: final(self).markdown_link_hover, ..*old(self) })
            },
    {
        if candidates.len() == 0 {
            self.markdown_link_hover = None;
            return;
        }
        match self.markdown_link_hover.take() {
            Some(mut hover) => {
                hover.set_candidates(candidates);
                if hover.is_empty() {
                    self.markdown_link_hover = None;
                } else {
                    self.markdown_link_hover = Some(hover);
                }
            },
            None => {
                self.markdown_link_hover = Some(MarkdownLinkHover::new(candidates));
            },
        }
    }

    /// Closes the link hover.
    pub fn close_markdown_link_hover(&mut self)
        ensures
            *final(self) == (Compositor { markdown_link_hover: None, ..*old(self) }),
    {
        self.markdown_link_hover = None;
    }

    /// Routes a key (see `routed`): the first open popup or picker takes
    /// it, else the search prompt, else the link hover and the explorer.
    pub fn handle_key(
        &mut self,
        key: KeyEvent,
        registry: &CommandRegistry,
        toggles: &DisplayToggles,
        key_state: &KeyState,
    ) -> (r: EventResult)
        requires
            old(self).wf(),
            old(self).palette is Some && key.kind == KeyEventKind::Press ==> files_in_range(
                old(self).palette->0,
            ) && commands_fit(registry.entries@),
        ensures
            final(self).wf(),
            routed(*old(self), key, *registry, *toggles, *key_state, *final(self), r),
    {
        match self.palette.take() {
            Some(mut p) => {
                let r = p.handle_key_event(key, registry, toggles);
                self.palette = Some(p);
                return r;
            },
            None => {},
        }
        match self.pr_list_picker.take() {
            Some(mut p) => {
                let r = p.handle_key(key);
                self.pr_list_picker = Some(p);
                return r;
            },
            None => {},
        }
        match self.issue_list_picker.take() {
            Some(mut p) => {
                let r = p.handle_key(key);
                self.issue_list_picker = Some(p);
                return r;
            },
            None => {},
        }
        match self.project_root_popup.take() {
            Some(mut p) => {
                let r = p.handle_key(key);
                self.project_root_popup = Some(p);
                return r;
            },
            None => {},
        }
        match self.recent_project_popup.take() {
            Some(mut p) => {
                let r = p.handle_key(key);
                self.recent_project_popup = Some(p);
                return r;
            },
            None => {},
        }
        match self.save_as_popup.take() {
            Some(mut p) => {
                let r = p.handle_key(key);
                self.save_as_popup = Some(p);
                return r;
            },
            None => {},
        }
        match self.search_bar.take() {
            Some(mut bar) => {
                let r = bar.handle_key(key);
                self.search_bar = Some(bar);
                return r;
            },
            None => {},
        }
        match self.markdown_link_hover.take() {
            Some(mut hover) => {
                match hover.handle_key(key) {
                    HoverKeyResult::Ignored => {
                        self.markdown_link_hover = Some(hover);
                    },
                    HoverKeyResult::Consumed => {
                        self.markdown_link_hover = Some(hover);
                        return EventResult::Consumed;
                    },
                    HoverKeyResult::Close => {
                        return EventResult::Consumed;
                    },
                    HoverKeyResult::Apply(candidate) => {
                        self.markdown_link_hover = Some(hover);
                        return EventResult::Action(
                            Action::App(AppAction::Integration(IntegrationAction::ApplyMarkdownLinkCompletion { candidate })),
                        );
                    },
                }
            },
            None => {},
        }
        match self.explorer.take() {
            Some(mut e) => {
                let r = e.handle_key(key, key_state);
                self.explorer = Some(e);
                r
            },
            None => EventResult::Ignored,
        }
    }
}

/// An open palette takes every key: nothing but the palette changes, and
/// its answer is the compositor's.
pub proof fn law_palette_takes_keys_first(
    a: Compositor,
    key: KeyEvent,
    reg: CommandRegistry,
    t: DisplayToggles,
    ks: KeyState,
    b: Compositor,
    r: EventResult,
)
    requires
        a.palette is Some,
        routed(a, key, reg, t, ks, b, r),
    ensures
        b.palette matches Some(p) && crate::ui::overlays::palette::state::key_step(a.palette->0, key, reg, t, p, r),
        b.search_bar == a.search_bar && b.markdown_link_hover == a.markdown_link_hover && b.explorer == a.explorer,
        b.save_as_popup == a.save_as_popup && b.pr_list_picker == a.pr_list_picker,
{
}

/// With no popup or picker open, an open search prompt takes every key
/// before the link hover and the explorer, and never answers `Ignored`.
pub proof fn law_search_prompt_before_hover_and_explorer(
    a: Compositor,
    key: KeyEvent,
    reg: CommandRegistry,
    t: DisplayToggles,
    ks: KeyState,
    b: Compositor,
    r: EventResult,
)
    requires
        a.palette is None && a.pr_list_picker is None && a.issue_list_picker is None,
        a.project_root_popup is None && a.recent_project_popup is None && a.save_as_popup is None,
        a.search_bar is Some,
        routed(a, key, reg, t, ks, b, r),
    ensures
        b.search_bar matches Some(s) && search_step(a.search_bar->0, key, s, r),
        b.markdown_link_hover == a.markdown_link_hover && b.explorer == a.explorer,
        r != EventResult::Ignored,
{
}

/// With nothing open, every key falls through: `Ignored`, nothing changed.
pub proof fn law_keys_fall_through_when_nothing_is_open(
    a: Compositor,
    key: KeyEvent,
    reg: CommandRegistry,
    t: DisplayToggles,
    ks: KeyState,
    b: Compositor,
    r: EventResult,
)
    requires
        a.palette is None && a.pr_list_picker is None && a.issue_list_picker is None,
        a.project_root_popup is None && a.recent_project_popup is None && a.save_as_popup is None,
        a.search_bar is None && a.markdown_link_hover is None && a.explorer is None,
        routed(a, key, reg, t, ks, b, r),
    ensures
        b == a,
        r == EventResult::Ignored,
{
}

} // verus!
