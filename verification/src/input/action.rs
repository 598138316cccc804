//! Actions that components hand to the application.
use vstd::prelude::*;

use crate::ui::overlays::palette::picker::BufferId;

verus! {

/// An action for the application to perform.
#[derive(Debug, Clone, PartialEq, Eq)]
pub enum Action {
    Ui(UiAction),
    App(AppAction),
    Core(CoreAction),
}

/// Editor-core work.
#[derive(Debug, Clone, PartialEq, Eq)]
pub enum CoreAction {
    /// The incremental search's text changed to this.
    SearchUpdate(String),
}

/// Closing an overlay.
#[derive(Debug, Clone, Copy, PartialEq, Eq)]
pub enum UiAction {
    ClosePalette,
    ClosePrListPicker,
    CloseIssueListPicker,
    CloseCommitLog,
    CloseSaveAsPopup,
    CloseRecentProjectPopup,
    CloseProjectRootPopup,
}

/// Work for the application outside the user interface.
#[derive(Debug, Clone, PartialEq, Eq)]
pub enum AppAction {
    Navigation(NavigationAction),
    Integration(IntegrationAction),
    Workspace(WorkspaceAction),
    Project(ProjectAction),
    Buffer(BufferAction),
}

/// Moving to a place in the workspace, or running a palette command.
#[derive(Debug, Clone, PartialEq, Eq)]
pub enum NavigationAction {
    JumpToListIndex(usize),
    OpenFileAtLspLocation { path: String, line: usize, character_utf16: usize },
    JumpToLineChar { line: usize, char_col: usize },
    ExecutePaletteCommand(usize),
}

/// Clipboard, browser and message work.
#[derive(Debug, Clone, PartialEq, Eq)]
pub enum IntegrationAction {
    CopyToClipboard { text: String, description: String },
    OpenPrUrl(String),
    OpenIssueUrl(String),
    ShowMessage(String),
    ApplyMarkdownLinkCompletion { candidate: String },
}

/// Workspace layout work.
#[derive(Debug, Clone, PartialEq, Eq)]
pub enum WorkspaceAction {
    OpenCommitDiffView(String),
    ToggleExplorer,
    /// Leaves the incremental search, back to the saved view position.
    SearchCancel { saved_cursor: usize, saved_scroll: usize, saved_horizontal_scroll: usize },
    SearchHistoryPrev,
    SearchHistoryNext,
    SearchConfirm,
}

/// Project switching.
#[derive(Debug, Clone, PartialEq, Eq)]
pub enum ProjectAction {
    SwitchToRecentProject(String),
    ChangeProjectRoot(String),
    SwitchGitBranch(String),
}

/// Buffer work.
#[derive(Debug, Clone, PartialEq, Eq)]
pub enum BufferAction {
    SwitchBufferById(BufferId),
    OpenProjectFile(String),
    OpenProjectFileAt { rel_path: String, line: usize, char_col: usize },
    SaveBufferAs(String),
    RenameBufferFile(String),
    OpenFileFromExplorer(String),
}

} // verus!
