//! The theme section of the editor's configuration, as the theme reads it.
use vstd::prelude::*;

verus! {

/// A configured change to one capture's style: a colour by name or
/// `#rrggbb`, and the attributes to set.
#[derive(Debug, Clone, Default)]
pub struct ThemeCaptureConfig {
    pub fg: Option<String>,
    pub bold: Option<bool>,
    pub italic: Option<bool>,
}

/// Configured interface colours, each by name or `#rrggbb`.
#[derive(Debug, Clone, Default)]
pub struct ThemeUiConfig {
    pub markdown_link_hover_bg: Option<String>,
    pub markdown_link_hover_selected_bg: Option<String>,
    pub bg: Option<String>,
    pub panel_bg: Option<String>,
    pub text: Option<String>,
    pub dim: Option<String>,
    pub faint: Option<String>,
    pub accent: Option<String>,
    pub selected_bg: Option<String>,
    pub selected_fg: Option<String>,
    pub folder: Option<String>,
    pub dirty: Option<String>,
    pub status_bg: Option<String>,
    pub status_fg: Option<String>,
    pub mode_fg: Option<String>,
    pub mode_normal: Option<String>,
    pub mode_insert: Option<String>,
    pub mode_visual: Option<String>,
    pub error: Option<String>,
    pub warning: Option<String>,
    pub info: Option<String>,
    pub git_added: Option<String>,
    pub git_modified: Option<String>,
    pub git_deleted: Option<String>,
    pub git_untracked: Option<String>,
    pub git_conflict: Option<String>,
    pub diff_add_bg: Option<String>,
    pub diff_del_bg: Option<String>,
    pub search_current_bg: Option<String>,
    pub search_current_fg: Option<String>,
    pub search_other_bg: Option<String>,
}

/// The theme section: the preset, the capture overrides (one per capture)
/// and the interface overrides.
#[derive(Debug, Clone, Default)]
pub struct ThemeConfig {
    pub preset: String,
    pub captures: Vec<(String, ThemeCaptureConfig)>,
    pub ui: ThemeUiConfig,
}

} // verus!
