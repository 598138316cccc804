//! Colours of the user interface: everything the editor paints that is not
//! a syntax token. They are exact RGB values rather than ANSI names, so a
//! theme looks the same in every terminal.
use vstd::prelude::*;

use crate::ui::framework::cell::Color;

verus! {

/// Colours for the user interface. Roles are the meaning of a colour, not
/// its position: `accent` is "this is the thing you are looking at", not
/// "cyan".
#[derive(Clone, Copy, Debug, PartialEq, Eq)]
pub struct UiColors {
    /// Editor background. Also the base every derived role is mixed toward.
    pub bg: Color,
    /// Background of popups, sidebars and other panels raised above `bg`.
    pub panel_bg: Color,
    /// Default text.
    pub text: Color,
    /// Secondary text: metadata, timestamps, inactive labels.
    pub dim: Color,
    /// Tertiary text: line numbers, separators, hints.
    pub faint: Color,
    /// The thing you are looking at: headers, selected markers, links.
    pub accent: Color,
    /// Background of the selected row in a list.
    pub selected_bg: Color,
    /// Text on `selected_bg`.
    pub selected_fg: Color,
    /// Directory names in trees and pickers.
    pub folder: Color,
    /// Unsaved-changes marker.
    pub dirty: Color,

    /// Status bar.
    pub status_bg: Color,
    pub status_fg: Color,
    /// Text drawn on any of the `mode_*` backgrounds.
    pub mode_fg: Color,
    pub mode_normal: Color,
    pub mode_insert: Color,
    pub mode_visual: Color,

    pub error: Color,
    pub warning: Color,
    pub info: Color,

    pub git_added: Color,
    pub git_modified: Color,
    pub git_deleted: Color,
    pub git_untracked: Color,
    pub git_conflict: Color,

    /// Backgrounds tinting a side-by-side diff.
    pub diff_add_bg: Color,
    pub diff_del_bg: Color,

    /// The search match the cursor is on, and the rest of them.
    pub search_current_bg: Color,
    pub search_current_fg: Color,
    pub search_other_bg: Color,
}

/// An exact colour.
pub open spec fn spec_rgb(r: u8, g: u8, b: u8) -> Color {
    Color::Rgb { r, g, b }
}

/// An exact colour.
pub fn rgb(r: u8, g: u8, b: u8) -> (c: Color)
    ensures
        c == spec_rgb(r, g, b),
{
    Color::Rgb { r, g, b }
}

/// The red, green and blue channels of an exact colour; `None` for a named
/// one.
pub fn channels(color: Color) -> (r: Option<(u8, u8, u8)>)
    ensures
        match color {
            Color::Rgb { r: x, g: y, b: z } => r == Some((x, y, z)),
            _ => r is None,
        },
{
    match color {
        Color::Rgb { r, g, b } => Some((r, g, b)),
        _ => None,
    }
}

/// The dark palette (the default).
pub open spec fn ui_dark() -> UiColors {
    UiColors {
        bg: spec_rgb(0x1a, 0x1b, 0x26),
        panel_bg: spec_rgb(0x1f, 0x22, 0x35),
        text: spec_rgb(0xc0, 0xc8, 0xe8),
        dim: spec_rgb(0x8d, 0x96, 0xb8),
        faint: spec_rgb(0x56, 0x5f, 0x89),
        accent: spec_rgb(0x7d, 0xcf, 0xff),
        selected_bg: spec_rgb(0x2e, 0x34, 0x4f),
        selected_fg: spec_rgb(0xdc, 0xe2, 0xf7),
        folder: spec_rgb(0x7a, 0xa2, 0xf7),
        dirty: spec_rgb(0xe0, 0xaf, 0x68),
        status_bg: spec_rgb(0x2a, 0x2f, 0x41),
        status_fg: spec_rgb(0xc0, 0xc8, 0xe8),
        mode_fg: spec_rgb(0x1a, 0x1b, 0x26),
        mode_normal: spec_rgb(0x7a, 0xa2, 0xf7),
        mode_insert: spec_rgb(0x9e, 0xce, 0x6a),
        mode_visual: spec_rgb(0xbb, 0x9a, 0xf7),
        error: spec_rgb(0xf7, 0x76, 0x8e),
        warning: spec_rgb(0xe0, 0xaf, 0x68),
        info: spec_rgb(0x7d, 0xcf, 0xff),
        git_added: spec_rgb(0x9e, 0xce, 0x6a),
        git_modified: spec_rgb(0xe0, 0xaf, 0x68),
        git_deleted: spec_rgb(0xf7, 0x76, 0x8e),
        git_untracked: spec_rgb(0x73, 0xda, 0xca),
        git_conflict: spec_rgb(0xbb, 0x9a, 0xf7),
        diff_add_bg: spec_rgb(0x20, 0x36, 0x2a),
        diff_del_bg: spec_rgb(0x3b, 0x22, 0x2c),
        search_current_bg: spec_rgb(0xe0, 0xaf, 0x68),
        search_current_fg: spec_rgb(0x1a, 0x1b, 0x26),
        search_other_bg: spec_rgb(0x54, 0x45, 0x2c),
    }
}

/// The light palette.
pub open spec fn ui_light() -> UiColors {
    UiColors {
        bg: spec_rgb(0xfa, 0xfa, 0xfb),
        panel_bg: spec_rgb(0xf0, 0xf1, 0xf6),
        text: spec_rgb(0x34, 0x38, 0x4a),
        dim: spec_rgb(0x5f, 0x66, 0x7d),
        faint: spec_rgb(0x99, 0xa0, 0xb4),
        accent: spec_rgb(0x16, 0x6b, 0xa8),
        selected_bg: spec_rgb(0xdd, 0xe3, 0xf2),
        selected_fg: spec_rgb(0x1c, 0x20, 0x2e),
        folder: spec_rgb(0x2e, 0x5c, 0xc4),
        dirty: spec_rgb(0x9a, 0x62, 0x00),
        status_bg: spec_rgb(0xe4, 0xe7, 0xef),
        status_fg: spec_rgb(0x34, 0x38, 0x4a),
        mode_fg: spec_rgb(0xfa, 0xfa, 0xfb),
        mode_normal: spec_rgb(0x2e, 0x5c, 0xc4),
        mode_insert: spec_rgb(0x38, 0x7a, 0x2f),
        mode_visual: spec_rgb(0x7a, 0x3d, 0xb8),
        error: spec_rgb(0xc0, 0x2b, 0x45),
        warning: spec_rgb(0x9a, 0x62, 0x00),
        info: spec_rgb(0x16, 0x6b, 0xa8),
        git_added: spec_rgb(0x38, 0x7a, 0x2f),
        git_modified: spec_rgb(0x9a, 0x62, 0x00),
        git_deleted: spec_rgb(0xc0, 0x2b, 0x45),
        git_untracked: spec_rgb(0x0f, 0x76, 0x6e),
        git_conflict: spec_rgb(0x7a, 0x3d, 0xb8),
        diff_add_bg: spec_rgb(0xdd, 0xf0, 0xdb),
        diff_del_bg: spec_rgb(0xfa, 0xdf, 0xe4),
        search_current_bg: spec_rgb(0xf5, 0xd0, 0x7a),
        search_current_fg: spec_rgb(0x34, 0x38, 0x4a),
        search_other_bg: spec_rgb(0xf0, 0xe6, 0xc8),
    }
}

/// The dim, low-contrast dark palette.
pub open spec fn ui_dim() -> UiColors {
    UiColors {
        bg: spec_rgb(0x22, 0x25, 0x2e),
        panel_bg: spec_rgb(0x27, 0x2b, 0x35),
        text: spec_rgb(0xb0, 0xb6, 0xc4),
        dim: spec_rgb(0x85, 0x8c, 0x9c),
        faint: spec_rgb(0x5a, 0x60, 0x70),
        accent: spec_rgb(0x6f, 0xb4, 0xc9),
        selected_bg: spec_rgb(0x31, 0x36, 0x41),
        selected_fg: spec_rgb(0xce, 0xd4, 0xe0),
        folder: spec_rgb(0x7b, 0x9b, 0xd1),
        dirty: spec_rgb(0xcf, 0xa4, 0x6a),
        status_bg: spec_rgb(0x2c, 0x31, 0x3c),
        status_fg: spec_rgb(0xb0, 0xb6, 0xc4),
        mode_fg: spec_rgb(0x22, 0x25, 0x2e),
        mode_normal: spec_rgb(0x7b, 0x9b, 0xd1),
        mode_insert: spec_rgb(0x8f, 0xb8, 0x7a),
        mode_visual: spec_rgb(0xa5, 0x8c, 0xc9),
        error: spec_rgb(0xd1, 0x79, 0x8a),
        warning: spec_rgb(0xcf, 0xa4, 0x6a),
        info: spec_rgb(0x6f, 0xb4, 0xc9),
        git_added: spec_rgb(0x8f, 0xb8, 0x7a),
        git_modified: spec_rgb(0xcf, 0xa4, 0x6a),
        git_deleted: spec_rgb(0xd1, 0x79, 0x8a),
        git_untracked: spec_rgb(0x6f, 0xbf, 0xae),
        git_conflict: spec_rgb(0xa5, 0x8c, 0xc9),
        diff_add_bg: spec_rgb(0x25, 0x33, 0x2b),
        diff_del_bg: spec_rgb(0x33, 0x26, 0x2b),
        search_current_bg: spec_rgb(0xcf, 0xa4, 0x6a),
        search_current_fg: spec_rgb(0x22, 0x25, 0x2e),
        search_other_bg: spec_rgb(0x4a, 0x42, 0x34),
    }
}

/// The high-contrast dark palette.
pub open spec fn ui_contrast() -> UiColors {
    UiColors {
        bg: spec_rgb(0x00, 0x00, 0x00),
        panel_bg: spec_rgb(0x0d, 0x0d, 0x0d),
        text: spec_rgb(0xff, 0xff, 0xff),
        dim: spec_rgb(0xc8, 0xc8, 0xc8),
        faint: spec_rgb(0x90, 0x90, 0x90),
        accent: spec_rgb(0x57, 0xd2, 0xff),
        selected_bg: spec_rgb(0x2b, 0x2b, 0x2b),
        selected_fg: spec_rgb(0xff, 0xff, 0xff),
        folder: spec_rgb(0x7f, 0xb0, 0xff),
        dirty: spec_rgb(0xff, 0xd1, 0x66),
        status_bg: spec_rgb(0x1a, 0x1a, 0x1a),
        status_fg: spec_rgb(0xff, 0xff, 0xff),
        mode_fg: spec_rgb(0x00, 0x00, 0x00),
        mode_normal: spec_rgb(0x7f, 0xb0, 0xff),
        mode_insert: spec_rgb(0x6f, 0xe0, 0x7a),
        mode_visual: spec_rgb(0xd9, 0xa2, 0xff),
        error: spec_rgb(0xff, 0x6b, 0x81),
        warning: spec_rgb(0xff, 0xd1, 0x66),
        info: spec_rgb(0x57, 0xd2, 0xff),
        git_added: spec_rgb(0x6f, 0xe0, 0x7a),
        git_modified: spec_rgb(0xff, 0xd1, 0x66),
        git_deleted: spec_rgb(0xff, 0x6b, 0x81),
        git_untracked: spec_rgb(0x4f, 0xe3, 0xd0),
        git_conflict: spec_rgb(0xd9, 0xa2, 0xff),
        diff_add_bg: spec_rgb(0x00, 0x33, 0x0f),
        diff_del_bg: spec_rgb(0x3a, 0x00, 0x10),
        search_current_bg: spec_rgb(0xff, 0xd1, 0x66),
        search_current_fg: spec_rgb(0x00, 0x00, 0x00),
        search_other_bg: spec_rgb(0x4d, 0x3d, 0x00),
    }
}

/// The warm light palette.
pub open spec fn ui_sepia() -> UiColors {
    UiColors {
        bg: spec_rgb(0xf7, 0xf1, 0xe3),
        panel_bg: spec_rgb(0xef, 0xe7, 0xd5),
        text: spec_rgb(0x3b, 0x33, 0x2a),
        dim: spec_rgb(0x6b, 0x61, 0x53),
        faint: spec_rgb(0xa3, 0x98, 0x86),
        accent: spec_rgb(0x1f, 0x6f, 0x8b),
        selected_bg: spec_rgb(0xe5, 0xda, 0xc2),
        selected_fg: spec_rgb(0x2a, 0x24, 0x1c),
        folder: spec_rgb(0x2f, 0x5f, 0x9e),
        dirty: spec_rgb(0x97, 0x60, 0x0b),
        status_bg: spec_rgb(0xe6, 0xdc, 0xc6),
        status_fg: spec_rgb(0x3b, 0x33, 0x2a),
        mode_fg: spec_rgb(0xf7, 0xf1, 0xe3),
        mode_normal: spec_rgb(0x2f, 0x5f, 0x9e),
        mode_insert: spec_rgb(0x4a, 0x7a, 0x2f),
        mode_visual: spec_rgb(0x7a, 0x46, 0x99),
        error: spec_rgb(0xa8, 0x32, 0x2f),
        warning: spec_rgb(0x97, 0x60, 0x0b),
        info: spec_rgb(0x1f, 0x6f, 0x8b),
        git_added: spec_rgb(0x4a, 0x7a, 0x2f),
        git_modified: spec_rgb(0x97, 0x60, 0x0b),
        git_deleted: spec_rgb(0xa8, 0x32, 0x2f),
        git_untracked: spec_rgb(0x17, 0x70, 0x6a),
        git_conflict: spec_rgb(0x7a, 0x46, 0x99),
        diff_add_bg: spec_rgb(0xdf, 0xec, 0xcf),
        diff_del_bg: spec_rgb(0xf4, 0xdc, 0xd6),
        search_current_bg: spec_rgb(0xf0, 0xcf, 0x8a),
        search_current_fg: spec_rgb(0x3b, 0x33, 0x2a),
        search_other_bg: spec_rgb(0xec, 0xe0, 0xc0),
    }
}

impl UiColors {
    /// The dark palette (the default).
    pub fn dark() -> (c: Self)
        ensures
            c == ui_dark(),
    {
        UiColors {
            bg: rgb(0x1a, 0x1b, 0x26),
            panel_bg: rgb(0x1f, 0x22, 0x35),
            text: rgb(0xc0, 0xc8, 0xe8),
            dim: rgb(0x8d, 0x96, 0xb8),
            faint: rgb(0x56, 0x5f, 0x89),
            accent: rgb(0x7d, 0xcf, 0xff),
            selected_bg: rgb(0x2e, 0x34, 0x4f),
            selected_fg: rgb(0xdc, 0xe2, 0xf7),
            folder: rgb(0x7a, 0xa2, 0xf7),
            dirty: rgb(0xe0, 0xaf, 0x68),
            status_bg: rgb(0x2a, 0x2f, 0x41),
            status_fg: rgb(0xc0, 0xc8, 0xe8),
            mode_fg: rgb(0x1a, 0x1b, 0x26),
            mode_normal: rgb(0x7a, 0xa2, 0xf7),
            mode_insert: rgb(0x9e, 0xce, 0x6a),
            mode_visual: rgb(0xbb, 0x9a, 0xf7),
            error: rgb(0xf7, 0x76, 0x8e),
            warning: rgb(0xe0, 0xaf, 0x68),
            info: rgb(0x7d, 0xcf, 0xff),
            git_added: rgb(0x9e, 0xce, 0x6a),
            git_modified: rgb(0xe0, 0xaf, 0x68),
            git_deleted: rgb(0xf7, 0x76, 0x8e),
            git_untracked: rgb(0x73, 0xda, 0xca),
            git_conflict: rgb(0xbb, 0x9a, 0xf7),
            diff_add_bg: rgb(0x20, 0x36, 0x2a),
            diff_del_bg: rgb(0x3b, 0x22, 0x2c),
            search_current_bg: rgb(0xe0, 0xaf, 0x68),
            search_current_fg: rgb(0x1a, 0x1b, 0x26),
            search_other_bg: rgb(0x54, 0x45, 0x2c),
        }
    }

    /// The light palette.
    pub fn light() -> (c: Self)
        ensures
            c == ui_light(),
    {
        UiColors {
            bg: rgb(0xfa, 0xfa, 0xfb),
            panel_bg: rgb(0xf0, 0xf1, 0xf6),
            text: rgb(0x34, 0x38, 0x4a),
            dim: rgb(0x5f, 0x66, 0x7d),
            faint: rgb(0x99, 0xa0, 0xb4),
            accent: rgb(0x16, 0x6b, 0xa8),
            selected_bg: rgb(0xdd, 0xe3, 0xf2),
            selected_fg: rgb(0x1c, 0x20, 0x2e),
            folder: rgb(0x2e, 0x5c, 0xc4),
            dirty: rgb(0x9a, 0x62, 0x00),
            status_bg: rgb(0xe4, 0xe7, 0xef),
            status_fg: rgb(0x34, 0x38, 0x4a),
            mode_fg: rgb(0xfa, 0xfa, 0xfb),
            mode_normal: rgb(0x2e, 0x5c, 0xc4),
            mode_insert: rgb(0x38, 0x7a, 0x2f),
            mode_visual: rgb(0x7a, 0x3d, 0xb8),
            error: rgb(0xc0, 0x2b, 0x45),
            warning: rgb(0x9a, 0x62, 0x00),
            info: rgb(0x16, 0x6b, 0xa8),
            git_added: rgb(0x38, 0x7a, 0x2f),
            git_modified: rgb(0x9a, 0x62, 0x00),
            git_deleted: rgb(0xc0, 0x2b, 0x45),
            git_untracked: rgb(0x0f, 0x76, 0x6e),
            git_conflict: rgb(0x7a, 0x3d, 0xb8),
            diff_add_bg: rgb(0xdd, 0xf0, 0xdb),
            diff_del_bg: rgb(0xfa, 0xdf, 0xe4),
            search_current_bg: rgb(0xf5, 0xd0, 0x7a),
            search_current_fg: rgb(0x34, 0x38, 0x4a),
            search_other_bg: rgb(0xf0, 0xe6, 0xc8),
        }
    }

    /// The dim, low-contrast dark palette.
    pub fn dim() -> (c: Self)
        ensures
            c == ui_dim(),
    {
        UiColors {
            bg: rgb(0x22, 0x25, 0x2e),
            panel_bg: rgb(0x27, 0x2b, 0x35),
            text: rgb(0xb0, 0xb6, 0xc4),
            dim: rgb(0x85, 0x8c, 0x9c),
            faint: rgb(0x5a, 0x60, 0x70),
            accent: rgb(0x6f, 0xb4, 0xc9),
            selected_bg: rgb(0x31, 0x36, 0x41),
            selected_fg: rgb(0xce, 0xd4, 0xe0),
            folder: rgb(0x7b, 0x9b, 0xd1),
            dirty: rgb(0xcf, 0xa4, 0x6a),
            status_bg: rgb(0x2c, 0x31, 0x3c),
            status_fg: rgb(0xb0, 0xb6, 0xc4),
            mode_fg: rgb(0x22, 0x25, 0x2e),
            mode_normal: rgb(0x7b, 0x9b, 0xd1),
            mode_insert: rgb(0x8f, 0xb8, 0x7a),
            mode_visual: rgb(0xa5, 0x8c, 0xc9),
            error: rgb(0xd1, 0x79, 0x8a),
            warning: rgb(0xcf, 0xa4, 0x6a),
            info: rgb(0x6f, 0xb4, 0xc9),
            git_added: rgb(0x8f, 0xb8, 0x7a),
            git_modified: rgb(0xcf, 0xa4, 0x6a),
            git_deleted: rgb(0xd1, 0x79, 0x8a),
            git_untracked: rgb(0x6f, 0xbf, 0xae),
            git_conflict: rgb(0xa5, 0x8c, 0xc9),
            diff_add_bg: rgb(0x25, 0x33, 0x2b),
            diff_del_bg: rgb(0x33, 0x26, 0x2b),
            search_current_bg: rgb(0xcf, 0xa4, 0x6a),
            search_current_fg: rgb(0x22, 0x25, 0x2e),
            search_other_bg: rgb(0x4a, 0x42, 0x34),
        }
    }

    /// The high-contrast dark palette.
    pub fn contrast() -> (c: Self)
        ensures
            c == ui_contrast(),
    {
        UiColors {
            bg: rgb(0x00, 0x00, 0x00),
            panel_bg: rgb(0x0d, 0x0d, 0x0d),
            text: rgb(0xff, 0xff, 0xff),
            dim: rgb(0xc8, 0xc8, 0xc8),
            faint: rgb(0x90, 0x90, 0x90),
            accent: rgb(0x57, 0xd2, 0xff),
            selected_bg: rgb(0x2b, 0x2b, 0x2b),
            selected_fg: rgb(0xff, 0xff, 0xff),
            folder: rgb(0x7f, 0xb0, 0xff),
            dirty: rgb(0xff, 0xd1, 0x66),
            status_bg: rgb(0x1a, 0x1a, 0x1a),
            status_fg: rgb(0xff, 0xff, 0xff),
            mode_fg: rgb(0x00, 0x00, 0x00),
            mode_normal: rgb(0x7f, 0xb0, 0xff),
            mode_insert: rgb(0x6f, 0xe0, 0x7a),
            mode_visual: rgb(0xd9, 0xa2, 0xff),
            error: rgb(0xff, 0x6b, 0x81),
            warning: rgb(0xff, 0xd1, 0x66),
            info: rgb(0x57, 0xd2, 0xff),
            git_added: rgb(0x6f, 0xe0, 0x7a),
            git_modified: rgb(0xff, 0xd1, 0x66),
            git_deleted: rgb(0xff, 0x6b, 0x81),
            git_untracked: rgb(0x4f, 0xe3, 0xd0),
            git_conflict: rgb(0xd9, 0xa2, 0xff),
            diff_add_bg: rgb(0x00, 0x33, 0x0f),
            diff_del_bg: rgb(0x3a, 0x00, 0x10),
            search_current_bg: rgb(0xff, 0xd1, 0x66),
            search_current_fg: rgb(0x00, 0x00, 0x00),
            search_other_bg: rgb(0x4d, 0x3d, 0x00),
        }
    }

    /// The warm light palette.
    pub fn sepia() -> (c: Self)
        ensures
            c == ui_sepia(),
    {
        UiColors {
            bg: rgb(0xf7, 0xf1, 0xe3),
            panel_bg: rgb(0xef, 0xe7, 0xd5),
            text: rgb(0x3b, 0x33, 0x2a),
            dim: rgb(0x6b, 0x61, 0x53),
            faint: rgb(0xa3, 0x98, 0x86),
            accent: rgb(0x1f, 0x6f, 0x8b),
            selected_bg: rgb(0xe5, 0xda, 0xc2),
            selected_fg: rgb(0x2a, 0x24, 0x1c),
            folder: rgb(0x2f, 0x5f, 0x9e),
            dirty: rgb(0x97, 0x60, 0x0b),
            status_bg: rgb(0xe6, 0xdc, 0xc6),
            status_fg: rgb(0x3b, 0x33, 0x2a),
            mode_fg: rgb(0xf7, 0xf1, 0xe3),
            mode_normal: rgb(0x2f, 0x5f, 0x9e),
            mode_insert: rgb(0x4a, 0x7a, 0x2f),
            mode_visual: rgb(0x7a, 0x46, 0x99),
            error: rgb(0xa8, 0x32, 0x2f),
            warning: rgb(0x97, 0x60, 0x0b),
            info: rgb(0x1f, 0x6f, 0x8b),
            git_added: rgb(0x4a, 0x7a, 0x2f),
            git_modified: rgb(0x97, 0x60, 0x0b),
            git_deleted: rgb(0xa8, 0x32, 0x2f),
            git_untracked: rgb(0x17, 0x70, 0x6a),
            git_conflict: rgb(0x7a, 0x46, 0x99),
            diff_add_bg: rgb(0xdf, 0xec, 0xcf),
            diff_del_bg: rgb(0xf4, 0xdc, 0xd6),
            search_current_bg: rgb(0xf0, 0xcf, 0x8a),
            search_current_fg: rgb(0x3b, 0x33, 0x2a),
            search_other_bg: rgb(0xec, 0xe0, 0xc0),
        }
    }
}

impl Default for UiColors {
    /// The dark palette.
    fn default() -> (c: Self)
        ensures
            c == ui_dark(),
    {
        Self::dark()
    }
}

} // verus!
