//! Syntax themes: the capture table and how each built-in preset colours
//! it, the lookup of a capture's style, and how a configured preset name
//! resolves to a preset.
use vstd::prelude::*;

use crate::config::{ThemeCaptureConfig, ThemeConfig, ThemeUiConfig};
use crate::std_calls::{ascii_lower, is_unicode_whitespace};
use crate::strings::{lemma_trimmed_whole, owned, trim, trimmed};
use crate::syntax::ui_colors::{
    rgb, spec_rgb, ui_contrast, ui_dark, ui_dim, ui_light, ui_sepia, UiColors,
};
use crate::ui::framework::cell::Color;
use crate::utf8::{byte_len, str_chars};

verus! {

/// A selectable theme: its id in the configuration, the label the palette
/// shows, and whether it is meant for a dark background.
#[derive(Debug, Clone, Copy, PartialEq, Eq)]
pub struct ThemePreset {
    pub id: &'static str,
    pub label: &'static str,
    pub is_dark: bool,
}

/// The ids, labels and appearances of the presets, in the order the
/// palette offers them.
pub open spec fn preset_rows() -> Seq<(Seq<char>, Seq<char>, bool)> {
    seq![
        ("ansi_dark"@, "ANSI Dark (terminal palette)"@, true),
        ("ansi_light"@, "ANSI Light (terminal palette)"@, false),
        ("gargo_dark"@, "Gargo Dark"@, true),
        ("gargo_light"@, "Gargo Light"@, false),
        ("gargo_dim"@, "Gargo Dim (low contrast)"@, true),
        ("gargo_contrast"@, "Gargo High Contrast"@, true),
        ("gargo_sepia"@, "Gargo Sepia (warm light)"@, false),
    ]
}

/// `p` is the preset described by `row`.
pub open spec fn preset_is(p: ThemePreset, row: (Seq<char>, Seq<char>, bool)) -> bool {
    p.id@ == row.0 && p.label@ == row.1 && p.is_dark == row.2
}

/// Every built-in preset, in the order the palette offers them. No two
/// share an id, and there is at least one for each appearance.
pub fn presets() -> (r: Vec<ThemePreset>)
    ensures
        r@.len() == preset_rows().len(),
        forall|i: int| 0 <= i < r@.len() ==> preset_is(#[trigger] r@[i], preset_rows()[i]),
        forall|i: int, j: int| 0 <= i < j < r@.len() ==> (#[trigger] r@[i]).id@ != (#[trigger] r@[j]).id@,
        exists|i: int| 0 <= i < r@.len() && (#[trigger] r@[i]).is_dark,
        exists|i: int| 0 <= i < r@.len() && !(#[trigger] r@[i]).is_dark,
{
    proof {
        reveal_strlit("ansi_dark");
        reveal_strlit("ansi_light");
        reveal_strlit("gargo_dark");
        reveal_strlit("gargo_light");
        reveal_strlit("gargo_dim");
        reveal_strlit("gargo_contrast");
        reveal_strlit("gargo_sepia");
    }
    let r = vec![
        ThemePreset { id: "ansi_dark", label: "ANSI Dark (terminal palette)", is_dark: true },
        ThemePreset { id: "ansi_light", label: "ANSI Light (terminal palette)", is_dark: false },
        ThemePreset { id: "gargo_dark", label: "Gargo Dark", is_dark: true },
        ThemePreset { id: "gargo_light", label: "Gargo Light", is_dark: false },
        ThemePreset { id: "gargo_dim", label: "Gargo Dim (low contrast)", is_dark: true },
        ThemePreset { id: "gargo_contrast", label: "Gargo High Contrast", is_dark: true },
        ThemePreset { id: "gargo_sepia", label: "Gargo Sepia (warm light)", is_dark: false },
    ];
    proof {
        assert(r@[0].is_dark);
        assert(!r@[1].is_dark);
        assert forall|i: int, j: int| 0 <= i < j < r@.len() implies (#[trigger] r@[i]).id@ != (#[trigger] r@[j]).id@ by {
            if r@[i].id@ == r@[j].id@ {
                assert(r@[i].id@.len() == r@[j].id@.len());
                assert(r@[i].id@[6] == r@[j].id@[6]);
                assert(r@[i].id@[7] == r@[j].id@[7]);
            }
        }
    }
    r
}


/// A configured preset name as the presets are looked up by: trimmed, in
/// ASCII lowercase, with `-` written as `_`.
pub open spec fn normalized_name(name: Seq<char>) -> Seq<char> {
    trimmed(name).map_values(
        |c: char|
            if c == '-' {
                '_'
            } else {
                ascii_lower(c)
            },
    )
}

/// The preset id a normalized name asks for: the names `dark` and `light`
/// from before the presets had ids of their own stand for the ANSI presets.
pub open spec fn preset_id_for(n: Seq<char>) -> Seq<char> {
    if n == "dark"@ {
        "ansi_dark"@
    } else if n == "light"@ {
        "ansi_light"@
    } else {
        n
    }
}

/// The normalized form of a configured name.
fn normalize(name: &str) -> (r: Vec<char>)
    ensures
        r@ == normalized_name(name@),
{
    let t = trim(name);
    let chars = str_chars(t.as_str());
    let mut out: Vec<char> = Vec::new();
    let mut i: usize = 0;
    while i < chars.len()
        invariant
            i <= chars@.len(),
            chars@ == trimmed(name@),
            out@ == chars@.take(i as int).map_values(
                |c: char|
                    if c == '-' {
                        '_'
                    } else {
                        ascii_lower(c)
                    },
            ),
        decreases chars@.len() - i,
    {
        let c = chars[i];
        let m = if c == '-' {
            '_'
        } else if 'A' <= c && c <= 'Z' {
            (((c as u32) + 32) as u8) as char
        } else {
            c
        };
        out.push(m);
        proof {
            assert(out@ =~= chars@.take(i + 1).map_values(
                |c: char|
                    if c == '-' {
                        '_'
                    } else {
                        ascii_lower(c)
                    },
            ));
        }
        i = i + 1;
    }
    proof {
        assert(chars@.take(i as int) =~= chars@);
    }
    out
}

/// Whether `a` holds the characters of `b`.
fn chars_equal(a: &Vec<char>, b: &str) -> (r: bool)
    ensures
        r == (a@ == b@),
{
    let bc = str_chars(b);
    if a.len() != bc.len() {
        return false;
    }
    let mut i: usize = 0;
    while i < a.len()
        invariant
            i <= a@.len(),
            a@.len() == bc@.len(),
            bc@ == b@,
            forall|k: int| 0 <= k < i ==> a@[k] == bc@[k],
        decreases a@.len() - i,
    {
        if a[i] != bc[i] {
            return false;
        }
        i = i + 1;
    }
    proof {
        assert(a@ =~= bc@);
    }
    true
}

/// The preset a configured name selects, accepting the old names `dark`
/// and `light`; `None` when no preset has that id.
pub fn find_preset(name: &str) -> (r: Option<ThemePreset>)
    ensures
        match r {
            Some(p) => exists|i: int|
                0 <= i < preset_rows().len() && preset_is(p, #[trigger] preset_rows()[i]) && preset_rows()[i].0
                    == preset_id_for(normalized_name(name@)),
            None => forall|i: int|
                0 <= i < preset_rows().len() ==> (#[trigger] preset_rows()[i]).0 != preset_id_for(
                    normalized_name(name@),
                ),
        },
{
    let id = normalize_preset_name(name);
    let all = presets();
    proof {
        reveal_strlit("");
        reveal_strlit("ansi_dark");
        reveal_strlit("ansi_light");
        reveal_strlit("gargo_dark");
        reveal_strlit("gargo_light");
        reveal_strlit("gargo_dim");
        reveal_strlit("gargo_contrast");
        reveal_strlit("gargo_sepia");
        assert forall|k: int| 0 <= k < preset_rows().len() implies (#[trigger] preset_rows()[k]).0.len() > 0 by {
        }
    }
    let mut i: usize = 0;
    while i < all.len()
        invariant
            i <= all@.len(),
            all@.len() == preset_rows().len(),
            forall|k: int| 0 <= k < all@.len() ==> preset_is(#[trigger] all@[k], preset_rows()[k]),
            forall|k: int| 0 <= k < preset_rows().len() ==> (#[trigger] preset_rows()[k]).0.len() > 0,
            names_a_preset(name@) ==> id@ == preset_id_for(normalized_name(name@)),
            !names_a_preset(name@) ==> id@.len() == 0,
            forall|k: int| 0 <= k < i ==> (#[trigger] preset_rows()[k]).0 != id@,
        decreases all@.len() - i,
    {
        proof {
            assert(preset_is(all@[i as int], preset_rows()[i as int]));
        }
        if crate::strings::str_eq(all[i].id, id) {
            return Some(all[i]);
        }
        i = i + 1;
    }
    proof {
        if names_a_preset(name@) {
            let k = choose|k: int| 0 <= k < preset_rows().len() && (#[trigger] preset_rows()[k]).0 == preset_id_for(normalized_name(name@));
            assert(preset_rows()[k].0 != id@);
        }
    }
    None
}

/// An id as it may be written in a configuration: in uppercase, with `_`
/// written as `-`.
pub open spec fn shouted_id(id: Seq<char>) -> Seq<char> {
    id.map_values(
        |c: char|
            if c == '_' {
                '-'
            } else if 'a' <= c && c <= 'z' {
                (((c as u32) - 32) as u8) as char
            } else {
                c
            },
    )
}

/// Made of lowercase ASCII letters and `_`, as the preset ids are.
pub open spec fn lower_snake(id: Seq<char>) -> bool {
    forall|k: int| 0 <= k < id.len() ==> ('a' <= #[trigger] id[k] && id[k] <= 'z') || id[k] == '_'
}

proof fn lemma_lower_snake_normalizes(id: Seq<char>)
    requires
        lower_snake(id),
        id.len() > 0,
    ensures
        normalized_name(id) == id,
        normalized_name(shouted_id(id)) == id,
{
    let sh = shouted_id(id);
    assert forall|k: int| 0 <= k < id.len() implies !is_unicode_whitespace(#[trigger] id[k]) by {}
    assert forall|k: int| 0 <= k < sh.len() implies !is_unicode_whitespace(#[trigger] sh[k]) by {
        assert(('a' <= id[k] && id[k] <= 'z') || id[k] == '_');
    }
    lemma_trimmed_whole(id);
    lemma_trimmed_whole(sh);
    assert(normalized_name(id) =~= id);
    assert forall|k: int| 0 <= k < id.len() implies #[trigger] normalized_name(sh)[k] == id[k] by {
        let c = id[k];
        if c != '_' {
            assert('a' <= c && c <= 'z');
            assert((((((c as u32) - 32) as u8) as char) as u32) == (c as u32) - 32);
        }
    }
    assert(normalized_name(sh) =~= id);
}

/// Every built-in preset is reached by its own id, and by its id written in
/// uppercase with `-` for `_`: the name a configuration gives is trimmed,
/// lowercased and has `-` read as `_` before it is looked up.
pub proof fn law_presets_reachable_by_id(i: int)
    requires
        0 <= i < preset_rows().len(),
    ensures
        preset_id_for(normalized_name(preset_rows()[i].0)) == preset_rows()[i].0,
        preset_id_for(normalized_name(shouted_id(preset_rows()[i].0))) == preset_rows()[i].0,
        names_a_preset(preset_rows()[i].0),
        names_a_preset(shouted_id(preset_rows()[i].0)),
{
    reveal_strlit("ansi_dark");
    reveal_strlit("ansi_light");
    reveal_strlit("gargo_dark");
    reveal_strlit("gargo_light");
    reveal_strlit("gargo_dim");
    reveal_strlit("gargo_contrast");
    reveal_strlit("gargo_sepia");
    reveal_strlit("dark");
    reveal_strlit("light");
    let id = preset_rows()[i].0;
    assert(lower_snake(id));
    lemma_lower_snake_normalizes(id);
    assert(id != "dark"@ && id != "light"@) by {
        assert(id.len() != 4 || id[0] != 'd');
    }
}

/// The preset a configured name selects is one of the built-in ones.
pub open spec fn names_a_preset(name: Seq<char>) -> bool {
    exists|i: int| 0 <= i < preset_rows().len() && (#[trigger] preset_rows()[i]).0 == preset_id_for(normalized_name(name))
}

/// Canonical id for a configured preset name, or `""` when nothing matches
/// (callers fall back to the default rather than failing to start).
pub fn normalize_preset_name(name: &str) -> (r: &'static str)
    ensures
        names_a_preset(name@) ==> r@ == preset_id_for(normalized_name(name@)),
        !names_a_preset(name@) ==> r@ == ""@,
{
    let n = normalize(name);
    let id: Vec<char> = if chars_equal(&n, "dark") {
        str_chars("ansi_dark")
    } else if chars_equal(&n, "light") {
        str_chars("ansi_light")
    } else {
        n
    };
    let all = presets();
    let mut i: usize = 0;
    while i < all.len()
        invariant
            i <= all@.len(),
            all@.len() == preset_rows().len(),
            forall|k: int| 0 <= k < all@.len() ==> preset_is(#[trigger] all@[k], preset_rows()[k]),
            id@ == preset_id_for(normalized_name(name@)),
            forall|k: int| 0 <= k < i ==> (#[trigger] preset_rows()[k]).0 != id@,
        decreases all@.len() - i,
    {
        proof {
            assert(preset_is(all@[i as int], preset_rows()[i as int]));
        }
        if chars_equal(&id, all[i].id) {
            return all[i].id;
        }
        i = i + 1;
    }
    ""
}

/// How a syntax capture is drawn.
#[derive(Clone, Copy, Debug, PartialEq, Eq)]
pub struct Style {
    pub fg: Option<Color>,
    pub bold: bool,
    pub italic: bool,
}

/// No colour and no attribute.
pub open spec fn plain_style() -> Style {
    Style { fg: None, bold: false, italic: false }
}

/// The styles of the syntax captures, and the colours of the interface.
pub struct Theme {
    /// The capture table: each capture name with its style.
    pub mappings: Vec<(String, Style)>,
    /// Colours for everything that is not a syntax token. Always exact RGB,
    /// also under the `ansi_*` presets: the terminal's palette should decide
    /// how code looks, not whether the sidebar is readable.
    pub ui: UiColors,
    pub markdown_link_hover_bg: Color,
    pub markdown_link_hover_selected_bg: Color,
}

/// The capture table of the ANSI dark preset: each capture name with its
/// style. Every other preset is this table with its colours remapped.
pub open spec fn ansi_dark_rows() -> Seq<(Seq<char>, Style)> {
    seq![
        ("keyword"@, Style { fg: Some(Color::Magenta), bold: true, italic: false }),
        ("keyword.control"@, Style { fg: Some(Color::Magenta), bold: true, italic: false }),
        ("keyword.operator"@, Style { fg: Some(Color::Magenta), bold: false, italic: false }),
        ("keyword.function"@, Style { fg: Some(Color::Magenta), bold: true, italic: false }),
        ("keyword.return"@, Style { fg: Some(Color::Magenta), bold: true, italic: false }),
        ("keyword.import"@, Style { fg: Some(Color::Magenta), bold: true, italic: false }),
        ("operator"@, Style { fg: Some(Color::White), bold: false, italic: false }),
        ("string"@, Style { fg: Some(Color::Green), bold: false, italic: false }),
        ("string.special"@, Style { fg: Some(Color::Green), bold: false, italic: false }),
        ("comment"@, Style { fg: Some(Color::DarkGrey), bold: false, italic: true }),
        ("comment.line"@, Style { fg: Some(Color::DarkGrey), bold: false, italic: true }),
        ("comment.block"@, Style { fg: Some(Color::DarkGrey), bold: false, italic: true }),
        ("function"@, Style { fg: Some(Color::Blue), bold: false, italic: false }),
        ("function.call"@, Style { fg: Some(Color::Blue), bold: false, italic: false }),
        ("function.method"@, Style { fg: Some(Color::Blue), bold: false, italic: false }),
        ("function.macro"@, Style { fg: Some(Color::Blue), bold: true, italic: false }),
        ("function.builtin"@, Style { fg: Some(Color::Blue), bold: false, italic: false }),
        ("type"@, Style { fg: Some(Color::Yellow), bold: false, italic: false }),
        ("type.builtin"@, Style { fg: Some(Color::Yellow), bold: false, italic: false }),
        ("constructor"@, Style { fg: Some(Color::Yellow), bold: false, italic: false }),
        ("constant"@, Style { fg: Some(Color::Cyan), bold: false, italic: false }),
        ("constant.builtin"@, Style { fg: Some(Color::Cyan), bold: false, italic: false }),
        ("number"@, Style { fg: Some(Color::Cyan), bold: false, italic: false }),
        ("float"@, Style { fg: Some(Color::Cyan), bold: false, italic: false }),
        ("boolean"@, Style { fg: Some(Color::Cyan), bold: false, italic: false }),
        ("variable"@, Style { fg: Some(Color::White), bold: false, italic: false }),
        ("variable.builtin"@, Style { fg: Some(Color::Red), bold: false, italic: false }),
        ("variable.parameter"@, Style { fg: Some(Color::White), bold: false, italic: true }),
        ("property"@, Style { fg: Some(Color::White), bold: false, italic: false }),
        ("attribute"@, Style { fg: Some(Color::Cyan), bold: false, italic: false }),
        ("label"@, Style { fg: Some(Color::Cyan), bold: false, italic: false }),
        ("punctuation"@, Style { fg: Some(Color::White), bold: false, italic: false }),
        ("punctuation.bracket"@, Style { fg: Some(Color::White), bold: false, italic: false }),
        ("punctuation.delimiter"@, Style { fg: Some(Color::White), bold: false, italic: false }),
        ("escape"@, Style { fg: Some(Color::Cyan), bold: false, italic: false }),
        ("embedded"@, Style { fg: Some(Color::White), bold: false, italic: false }),
        ("tag"@, Style { fg: Some(Color::Red), bold: false, italic: false }),
        ("heading"@, Style { fg: Some(Color::Blue), bold: true, italic: false }),
        ("title"@, Style { fg: Some(Color::Blue), bold: true, italic: false }),
        ("link"@, Style { fg: Some(Color::Cyan), bold: false, italic: false }),
        ("emphasis"@, Style { fg: None, bold: false, italic: true }),
        ("strong"@, Style { fg: None, bold: true, italic: false }),
        ("namespace"@, Style { fg: Some(Color::Yellow), bold: false, italic: false }),
        ("module"@, Style { fg: Some(Color::Yellow), bold: false, italic: false }),
        ("text.title"@, Style { fg: Some(Color::Blue), bold: true, italic: false }),
        ("text.literal"@, Style { fg: Some(Color::Green), bold: false, italic: false }),
        ("text.uri"@, Style { fg: Some(Color::Cyan), bold: false, italic: false }),
        ("text.reference"@, Style { fg: Some(Color::Cyan), bold: false, italic: false }),
        ("text.emphasis"@, Style { fg: None, bold: false, italic: true }),
        ("text.strong"@, Style { fg: None, bold: true, italic: false }),
        ("punctuation.special"@, Style { fg: Some(Color::DarkGrey), bold: true, italic: false }),
        ("diff.header"@, Style { fg: Some(Color::Blue), bold: true, italic: false }),
        ("diff.section"@, Style { fg: Some(Color::Magenta), bold: true, italic: false }),
        ("diff.meta"@, Style { fg: Some(Color::DarkGrey), bold: false, italic: false }),
        ("diff.help"@, Style { fg: Some(Color::Cyan), bold: false, italic: false }),
        ("diff.hunk"@, Style { fg: Some(Color::Yellow), bold: true, italic: false }),
        ("diff.plus"@, Style { fg: Some(Color::Green), bold: false, italic: false }),
        ("diff.minus"@, Style { fg: Some(Color::Red), bold: false, italic: false }),
        ("diff.context"@, Style { fg: Some(Color::White), bold: false, italic: false }),
        ("diff.plus.gutter"@, Style { fg: Some(Color::Green), bold: false, italic: false }),
        ("diff.delta.gutter"@, Style { fg: Some(Color::Yellow), bold: false, italic: false }),
        ("diff.minus.gutter"@, Style { fg: Some(Color::Red), bold: false, italic: false }),
    ]
}

/// The darker (or, for white, black) counterpart of an ANSI colour, for a
/// light background; other colours stay.
pub open spec fn light_variant_of(color: Color) -> Color {
    match color {
        Color::White => Color::Black,
        Color::Magenta => Color::DarkMagenta,
        Color::Green => Color::DarkGreen,
        Color::Blue => Color::DarkBlue,
        Color::Yellow => Color::DarkYellow,
        Color::Cyan => Color::DarkCyan,
        Color::Red => Color::DarkRed,
        Color::DarkGrey => Color::Grey,
        other => other,
    }
}

/// The colour to use on a light background in place of `color`.
pub fn light_variant(color: Color) -> (r: Color)
    ensures
        r == light_variant_of(color),
{
    match color {
        Color::White => Color::Black,
        Color::Magenta => Color::DarkMagenta,
        Color::Green => Color::DarkGreen,
        Color::Blue => Color::DarkBlue,
        Color::Yellow => Color::DarkYellow,
        Color::Cyan => Color::DarkCyan,
        Color::Red => Color::DarkRed,
        Color::DarkGrey => Color::Grey,
        other => other,
    }
}

/// The nine slots the capture table paints with. A preset is this and a
/// set of interface colours, so adding a theme is filling in two structs
/// rather than restating every capture.
#[derive(Clone, Copy, Debug, PartialEq, Eq)]
pub struct SyntaxPalette {
    pub magenta: Color,
    pub blue: Color,
    pub cyan: Color,
    pub green: Color,
    pub yellow: Color,
    pub red: Color,
    /// Plain identifiers, operators, punctuation.
    pub text: Color,
    /// Comments.
    pub comment: Color,
    /// Between `text` and `comment`: de-emphasised but not a comment.
    pub muted: Color,
}

/// The palette colour an ANSI colour of the capture table stands for;
/// colours the table never uses stay as they are.
pub open spec fn resolved(p: SyntaxPalette, color: Color) -> Color {
    match color {
        Color::Magenta => p.magenta,
        Color::Blue => p.blue,
        Color::Cyan => p.cyan,
        Color::Green => p.green,
        Color::Yellow => p.yellow,
        Color::Red => p.red,
        Color::White => p.text,
        Color::DarkGrey => p.comment,
        Color::Grey => p.muted,
        other => other,
    }
}

impl SyntaxPalette {
    /// Resolves one ANSI colour of the capture table through the palette.
    pub fn resolve(&self, color: Color) -> (r: Color)
        ensures
            r == resolved(*self, color),
    {
        match color {
            Color::Magenta => self.magenta,
            Color::Blue => self.blue,
            Color::Cyan => self.cyan,
            Color::Green => self.green,
            Color::Yellow => self.yellow,
            Color::Red => self.red,
            Color::White => self.text,
            Color::DarkGrey => self.comment,
            Color::Grey => self.muted,
            other => other,
        }
    }
}

/// The palette of the dark preset.
pub open spec fn palette_dark_spec() -> SyntaxPalette {
    SyntaxPalette {
        magenta: spec_rgb(0xbb, 0x9a, 0xf7),
        blue: spec_rgb(0x7a, 0xa2, 0xf7),
        cyan: spec_rgb(0x7d, 0xcf, 0xff),
        green: spec_rgb(0x9e, 0xce, 0x6a),
        yellow: spec_rgb(0xe0, 0xaf, 0x68),
        red: spec_rgb(0xf7, 0x76, 0x8e),
        text: spec_rgb(0xc0, 0xc8, 0xe8),
        comment: spec_rgb(0x56, 0x5f, 0x89),
        muted: spec_rgb(0x8d, 0x96, 0xb8),
    }
}

/// The palette of the dark preset.
pub fn palette_dark() -> (p: SyntaxPalette)
    ensures
        p == palette_dark_spec(),
{
    SyntaxPalette {
        magenta: rgb(0xbb, 0x9a, 0xf7),
        blue: rgb(0x7a, 0xa2, 0xf7),
        cyan: rgb(0x7d, 0xcf, 0xff),
        green: rgb(0x9e, 0xce, 0x6a),
        yellow: rgb(0xe0, 0xaf, 0x68),
        red: rgb(0xf7, 0x76, 0x8e),
        text: rgb(0xc0, 0xc8, 0xe8),
        comment: rgb(0x56, 0x5f, 0x89),
        muted: rgb(0x8d, 0x96, 0xb8),
    }
}

/// The palette of the light preset.
pub open spec fn palette_light_spec() -> SyntaxPalette {
    SyntaxPalette {
        magenta: spec_rgb(0x7a, 0x3d, 0xb8),
        blue: spec_rgb(0x2e, 0x5c, 0xc4),
        cyan: spec_rgb(0x16, 0x6b, 0xa8),
        green: spec_rgb(0x38, 0x7a, 0x2f),
        yellow: spec_rgb(0x9a, 0x62, 0x00),
        red: spec_rgb(0xc0, 0x2b, 0x45),
        text: spec_rgb(0x34, 0x38, 0x4a),
        comment: spec_rgb(0x8a, 0x90, 0xa4),
        muted: spec_rgb(0x5f, 0x66, 0x7d),
    }
}

/// The palette of the light preset.
pub fn palette_light() -> (p: SyntaxPalette)
    ensures
        p == palette_light_spec(),
{
    SyntaxPalette {
        magenta: rgb(0x7a, 0x3d, 0xb8),
        blue: rgb(0x2e, 0x5c, 0xc4),
        cyan: rgb(0x16, 0x6b, 0xa8),
        green: rgb(0x38, 0x7a, 0x2f),
        yellow: rgb(0x9a, 0x62, 0x00),
        red: rgb(0xc0, 0x2b, 0x45),
        text: rgb(0x34, 0x38, 0x4a),
        comment: rgb(0x8a, 0x90, 0xa4),
        muted: rgb(0x5f, 0x66, 0x7d),
    }
}

/// The palette of the dim preset.
pub open spec fn palette_dim_spec() -> SyntaxPalette {
    SyntaxPalette {
        magenta: spec_rgb(0xa5, 0x8c, 0xc9),
        blue: spec_rgb(0x7b, 0x9b, 0xd1),
        cyan: spec_rgb(0x6f, 0xb4, 0xc9),
        green: spec_rgb(0x8f, 0xb8, 0x7a),
        yellow: spec_rgb(0xcf, 0xa4, 0x6a),
        red: spec_rgb(0xd1, 0x79, 0x8a),
        text: spec_rgb(0xb0, 0xb6, 0xc4),
        comment: spec_rgb(0x5f, 0x66, 0x75),
        muted: spec_rgb(0x85, 0x8c, 0x9c),
    }
}

/// The palette of the dim preset.
pub fn palette_dim() -> (p: SyntaxPalette)
    ensures
        p == palette_dim_spec(),
{
    SyntaxPalette {
        magenta: rgb(0xa5, 0x8c, 0xc9),
        blue: rgb(0x7b, 0x9b, 0xd1),
        cyan: rgb(0x6f, 0xb4, 0xc9),
        green: rgb(0x8f, 0xb8, 0x7a),
        yellow: rgb(0xcf, 0xa4, 0x6a),
        red: rgb(0xd1, 0x79, 0x8a),
        text: rgb(0xb0, 0xb6, 0xc4),
        comment: rgb(0x5f, 0x66, 0x75),
        muted: rgb(0x85, 0x8c, 0x9c),
    }
}

/// The palette of the high-contrast preset.
pub open spec fn palette_contrast_spec() -> SyntaxPalette {
    SyntaxPalette {
        magenta: spec_rgb(0xe0, 0xa6, 0xff),
        blue: spec_rgb(0x8a, 0xb6, 0xff),
        cyan: spec_rgb(0x6f, 0xdc, 0xff),
        green: spec_rgb(0x7c, 0xf0, 0x8a),
        yellow: spec_rgb(0xff, 0xd1, 0x66),
        red: spec_rgb(0xff, 0x7f, 0x92),
        text: spec_rgb(0xff, 0xff, 0xff),
        comment: spec_rgb(0x9a, 0xa0, 0xa6),
        muted: spec_rgb(0xc8, 0xc8, 0xc8),
    }
}

/// The palette of the high-contrast preset.
pub fn palette_contrast() -> (p: SyntaxPalette)
    ensures
        p == palette_contrast_spec(),
{
    SyntaxPalette {
        magenta: rgb(0xe0, 0xa6, 0xff),
        blue: rgb(0x8a, 0xb6, 0xff),
        cyan: rgb(0x6f, 0xdc, 0xff),
        green: rgb(0x7c, 0xf0, 0x8a),
        yellow: rgb(0xff, 0xd1, 0x66),
        red: rgb(0xff, 0x7f, 0x92),
        text: rgb(0xff, 0xff, 0xff),
        comment: rgb(0x9a, 0xa0, 0xa6),
        muted: rgb(0xc8, 0xc8, 0xc8),
    }
}

/// The palette of the sepia preset.
pub open spec fn palette_sepia_spec() -> SyntaxPalette {
    SyntaxPalette {
        magenta: spec_rgb(0x7a, 0x46, 0x99),
        blue: spec_rgb(0x2f, 0x5f, 0x9e),
        cyan: spec_rgb(0x1f, 0x6f, 0x8b),
        green: spec_rgb(0x4a, 0x7a, 0x2f),
        yellow: spec_rgb(0x97, 0x60, 0x0b),
        red: spec_rgb(0xa8, 0x32, 0x2f),
        text: spec_rgb(0x3b, 0x33, 0x2a),
        comment: spec_rgb(0x8c, 0x81, 0x72),
        muted: spec_rgb(0x6b, 0x61, 0x53),
    }
}

/// The palette of the sepia preset.
pub fn palette_sepia() -> (p: SyntaxPalette)
    ensures
        p == palette_sepia_spec(),
{
    SyntaxPalette {
        magenta: rgb(0x7a, 0x46, 0x99),
        blue: rgb(0x2f, 0x5f, 0x9e),
        cyan: rgb(0x1f, 0x6f, 0x8b),
        green: rgb(0x4a, 0x7a, 0x2f),
        yellow: rgb(0x97, 0x60, 0x0b),
        red: rgb(0xa8, 0x32, 0x2f),
        text: rgb(0x3b, 0x33, 0x2a),
        comment: rgb(0x8c, 0x81, 0x72),
        muted: rgb(0x6b, 0x61, 0x53),
    }
}

/// The view of a capture table.
pub open spec fn rows_view(v: Seq<(String, Style)>) -> Seq<(Seq<char>, Style)> {
    v.map_values(|p: (String, Style)| (p.0@, p.1))
}

/// `rows` with every foreground colour passed through `f`.
pub open spec fn map_fg(rows: Seq<(Seq<char>, Style)>, f: spec_fn(Color) -> Color) -> Seq<(Seq<char>, Style)> {
    rows.map_values(
        |r: (Seq<char>, Style)|
            (
                r.0,
                Style {
                    fg: match r.1.fg {
                        Some(c) => Some(f(c)),
                        None => None,
                    },
                    ..r.1
                },
            ),
    )
}

/// The style the table gives `name`: that of its last row with this name,
/// as a map built from the rows in order holds it.
pub open spec fn find_row(rows: Seq<(Seq<char>, Style)>, name: Seq<char>) -> Option<Style>
    decreases rows.len(),
{
    if rows.len() == 0 {
        None
    } else if rows.last().0 == name {
        Some(rows.last().1)
    } else {
        find_row(rows.drop_last(), name)
    }
}

/// The position of the last `.` in `name`.
pub open spec fn last_dot(name: Seq<char>) -> Option<int>
    decreases name.len(),
{
    if name.len() == 0 {
        None
    } else if name.last() == '.' {
        Some(name.len() - 1)
    } else {
        last_dot(name.drop_last())
    }
}

/// The last `.` lies within the name.
proof fn lemma_last_dot(name: Seq<char>)
    ensures
        last_dot(name) matches Some(i) ==> 0 <= i < name.len() && name[i] == '.',
        last_dot(name) is None ==> forall|k: int| 0 <= k < name.len() ==> name[k] != '.',
    decreases name.len(),
{
    if name.len() > 0 {
        lemma_last_dot(name.drop_last());
        if last_dot(name) is None {
            assert forall|k: int| 0 <= k < name.len() implies name[k] != '.' by {
                if k < name.len() - 1 {
                    assert(name.drop_last()[k] == name[k]);
                }
            }
        }
    }
}

/// The style for a capture: its own row, or else that of the capture with
/// its last `.`-separated part removed, and so on (`function.method.call`
/// falls back to `function.method`, then `function`).
pub open spec fn capture_style(rows: Seq<(Seq<char>, Style)>, name: Seq<char>) -> Option<Style>
    decreases name.len(),
{
    match find_row(rows, name) {
        Some(st) => Some(st),
        None => match last_dot(name) {
            Some(i) => if 0 <= i < name.len() {
                capture_style(rows, name.take(i))
            } else {
                None
            },
            None => None,
        },
    }
}

/// If `name[i]` is a `.` and no `.` follows it, `i` is where the last dot is.
proof fn lemma_last_dot_at(name: Seq<char>, i: int)
    requires
        0 <= i < name.len(),
        name[i] == '.',
        forall|k: int| i < k < name.len() ==> name[k] != '.',
    ensures
        last_dot(name) == Some(i),
    decreases name.len(),
{
    if i < name.len() - 1 {
        assert(name.last() != '.');
        assert forall|k: int| i < k < name.drop_last().len() implies name.drop_last()[k] != '.' by {
            assert(name.drop_last()[k] == name[k]);
        }
        lemma_last_dot_at(name.drop_last(), i);
    }
}

/// If `name` holds no `.`, there is no last dot.
proof fn lemma_no_dot(name: Seq<char>)
    requires
        forall|k: int| 0 <= k < name.len() ==> name[k] != '.',
    ensures
        last_dot(name) is None,
    decreases name.len(),
{
    if name.len() > 0 {
        assert forall|k: int| 0 <= k < name.drop_last().len() implies name.drop_last()[k] != '.' by {
            assert(name.drop_last()[k] == name[k]);
        }
        lemma_no_dot(name.drop_last());
    }
}

/// How a capture resolves to a style: a capture with a row of its own gets
/// that row's style. One without falls back to the capture named by what
/// comes before its last `.` (`a.b.c` to `a.b`, never straight to `a`),
/// and a capture with no row and no `.` has no style.
pub proof fn law_capture_falls_back_one_segment(rows: Seq<(Seq<char>, Style)>, name: Seq<char>, i: int)
    ensures
        find_row(rows, name) matches Some(st) ==> capture_style(rows, name) == Some(st),
        find_row(rows, name) is None && 0 <= i < name.len() && name[i] == '.' && (forall|k: int|
            i < k < name.len() ==> name[k] != '.') ==> capture_style(rows, name) == capture_style(rows, name.take(i)),
        find_row(rows, name) is None && (forall|k: int| 0 <= k < name.len() ==> name[k] != '.')
            ==> capture_style(rows, name) is None,
{
    if find_row(rows, name) is None {
        if 0 <= i < name.len() && name[i] == '.' && (forall|k: int| i < k < name.len() ==> name[k] != '.') {
            lemma_last_dot_at(name, i);
        }
        if forall|k: int| 0 <= k < name.len() ==> name[k] != '.' {
            lemma_no_dot(name);
        }
    }
}

/// `v` with every foreground colour replaced by its light variant.
fn lighten(v: &Vec<(String, Style)>) -> (r: Vec<(String, Style)>)
    ensures
        rows_view(r@) == map_fg(rows_view(v@), |c: Color| light_variant_of(c)),
{
    let mut r: Vec<(String, Style)> = Vec::new();
    let mut i: usize = 0;
    while i < v.len()
        invariant
            i <= v@.len(),
            rows_view(r@) == map_fg(rows_view(v@), |c: Color| light_variant_of(c)).take(i as int),
        decreases v@.len() - i,
    {
        let st = v[i].1;
        let fg = match st.fg {
            Some(c) => Some(light_variant(c)),
            None => None,
        };
        let ghost before = r@;
        r.push((v[i].0.clone(), Style { fg, ..st }));
        proof {
            let m = map_fg(rows_view(v@), |c: Color| light_variant_of(c));
            assert(rows_view(v@)[i as int] == (v@[i as int].0@, st));
            assert(m[i as int] == (v@[i as int].0@, Style { fg, ..st }));
            assert(rows_view(r@) =~= rows_view(before).push(m[i as int]));
            assert(rows_view(r@) =~= m.take(i + 1));
        }
        i = i + 1;
    }
    proof {
        assert(map_fg(rows_view(v@), |c: Color| light_variant_of(c)).take(i as int) =~= map_fg(
            rows_view(v@),
            |c: Color| light_variant_of(c),
        ));
    }
    r
}

/// `v` with every foreground colour resolved through `palette`.
fn resolve_all(v: &Vec<(String, Style)>, palette: &SyntaxPalette) -> (r: Vec<(String, Style)>)
    ensures
        rows_view(r@) == map_fg(rows_view(v@), |c: Color| resolved(*palette, c)),
{
    let mut r: Vec<(String, Style)> = Vec::new();
    let mut i: usize = 0;
    while i < v.len()
        invariant
            i <= v@.len(),
            rows_view(r@) == map_fg(rows_view(v@), |c: Color| resolved(*palette, c)).take(i as int),
        decreases v@.len() - i,
    {
        let st = v[i].1;
        let fg = match st.fg {
            Some(c) => Some(palette.resolve(c)),
            None => None,
        };
        let ghost before = r@;
        r.push((v[i].0.clone(), Style { fg, ..st }));
        proof {
            let m = map_fg(rows_view(v@), |c: Color| resolved(*palette, c));
            assert(rows_view(v@)[i as int] == (v@[i as int].0@, st));
            assert(m[i as int] == (v@[i as int].0@, Style { fg, ..st }));
            assert(rows_view(r@) =~= rows_view(before).push(m[i as int]));
            assert(rows_view(r@) =~= m.take(i + 1));
        }
        i = i + 1;
    }
    proof {
        assert(map_fg(rows_view(v@), |c: Color| resolved(*palette, c)).take(i as int) =~= map_fg(
            rows_view(v@),
            |c: Color| resolved(*palette, c),
        ));
    }
    r
}

impl Theme {
    /// The capture table, each capture name with its style.
    pub open spec fn rows(self) -> Seq<(Seq<char>, Style)> {
        rows_view(self.mappings@)
    }

    /// The background of a hovered Markdown link.
    pub open spec fn hover_bg(self) -> Color {
        self.markdown_link_hover_bg
    }

    /// The background of the selected hovered Markdown link.
    pub open spec fn hover_selected_bg(self) -> Color {
        self.markdown_link_hover_selected_bg
    }

    /// `t` is the ANSI dark preset.
    pub open spec fn is_ansi_dark(t: Self) -> bool {
        &&& t.rows() == ansi_dark_rows()
        &&& t.ui == ui_dark()
        &&& t.hover_bg() == Color::DarkGrey
        &&& t.hover_selected_bg() == Color::Grey
    }

    /// `t` is the ANSI light preset: the dark table with light variants of
    /// its colours, and the light interface colours.
    pub open spec fn is_ansi_light(t: Self) -> bool {
        &&& t.rows() == map_fg(ansi_dark_rows(), |c: Color| light_variant_of(c))
        &&& t.ui == ui_light()
        &&& t.hover_bg() == Color::DarkGrey
        &&& t.hover_selected_bg() == Color::Grey
    }

    /// `t` is the table resolved through `p`, with interface colours `ui`.
    pub open spec fn is_from_palette(t: Self, p: SyntaxPalette, ui: UiColors) -> bool {
        &&& t.rows() == map_fg(ansi_dark_rows(), |c: Color| resolved(p, c))
        &&& t.ui == ui
        &&& t.hover_bg() == ui.selected_bg
        &&& t.hover_selected_bg() == ui.accent
    }

    /// The ANSI dark preset: the capture table in the terminal's own
    /// colours.
    pub fn ansi_dark() -> (t: Self)
        ensures
            Self::is_ansi_dark(t),
    {
        let entries: Vec<(&'static str, Style)> = vec![
            ("keyword", Style { fg: Some(Color::Magenta), bold: true, italic: false }),
            ("keyword.control", Style { fg: Some(Color::Magenta), bold: true, italic: false }),
            ("keyword.operator", Style { fg: Some(Color::Magenta), bold: false, italic: false }),
            ("keyword.function", Style { fg: Some(Color::Magenta), bold: true, italic: false }),
            ("keyword.return", Style { fg: Some(Color::Magenta), bold: true, italic: false }),
            ("keyword.import", Style { fg: Some(Color::Magenta), bold: true, italic: false }),
            ("operator", Style { fg: Some(Color::White), bold: false, italic: false }),
            ("string", Style { fg: Some(Color::Green), bold: false, italic: false }),
            ("string.special", Style { fg: Some(Color::Green), bold: false, italic: false }),
            ("comment", Style { fg: Some(Color::DarkGrey), bold: false, italic: true }),
            ("comment.line", Style { fg: Some(Color::DarkGrey), bold: false, italic: true }),
            ("comment.block", Style { fg: Some(Color::DarkGrey), bold: false, italic: true }),
            ("function", Style { fg: Some(Color::Blue), bold: false, italic: false }),
            ("function.call", Style { fg: Some(Color::Blue), bold: false, italic: false }),
            ("function.method", Style { fg: Some(Color::Blue), bold: false, italic: false }),
            ("function.macro", Style { fg: Some(Color::Blue), bold: true, italic: false }),
            ("function.builtin", Style { fg: Some(Color::Blue), bold: false, italic: false }),
            ("type", Style { fg: Some(Color::Yellow), bold: false, italic: false }),
            ("type.builtin", Style { fg: Some(Color::Yellow), bold: false, italic: false }),
            ("constructor", Style { fg: Some(Color::Yellow), bold: false, italic: false }),
            ("constant", Style { fg: Some(Color::Cyan), bold: false, italic: false }),
            ("constant.builtin", Style { fg: Some(Color::Cyan), bold: false, italic: false }),
            ("number", Style { fg: Some(Color::Cyan), bold: false, italic: false }),
            ("float", Style { fg: Some(Color::Cyan), bold: false, italic: false }),
            ("boolean", Style { fg: Some(Color::Cyan), bold: false, italic: false }),
            ("variable", Style { fg: Some(Color::White), bold: false, italic: false }),
            ("variable.builtin", Style { fg: Some(Color::Red), bold: false, italic: false }),
            ("variable.parameter", Style { fg: Some(Color::White), bold: false, italic: true }),
            ("property", Style { fg: Some(Color::White), bold: false, italic: false }),
            ("attribute", Style { fg: Some(Color::Cyan), bold: false, italic: false }),
            ("label", Style { fg: Some(Color::Cyan), bold: false, italic: false }),
            ("punctuation", Style { fg: Some(Color::White), bold: false, italic: false }),
            ("punctuation.bracket", Style { fg: Some(Color::White), bold: false, italic: false }),
            ("punctuation.delimiter", Style { fg: Some(Color::White), bold: false, italic: false }),
            ("escape", Style { fg: Some(Color::Cyan), bold: false, italic: false }),
            ("embedded", Style { fg: Some(Color::White), bold: false, italic: false }),
            ("tag", Style { fg: Some(Color::Red), bold: false, italic: false }),
            ("heading", Style { fg: Some(Color::Blue), bold: true, italic: false }),
            ("title", Style { fg: Some(Color::Blue), bold: true, italic: false }),
            ("link", Style { fg: Some(Color::Cyan), bold: false, italic: false }),
            ("emphasis", Style { fg: None, bold: false, italic: true }),
            ("strong", Style { fg: None, bold: true, italic: false }),
            ("namespace", Style { fg: Some(Color::Yellow), bold: false, italic: false }),
            ("module", Style { fg: Some(Color::Yellow), bold: false, italic: false }),
            ("text.title", Style { fg: Some(Color::Blue), bold: true, italic: false }),
            ("text.literal", Style { fg: Some(Color::Green), bold: false, italic: false }),
            ("text.uri", Style { fg: Some(Color::Cyan), bold: false, italic: false }),
            ("text.reference", Style { fg: Some(Color::Cyan), bold: false, italic: false }),
            ("text.emphasis", Style { fg: None, bold: false, italic: true }),
            ("text.strong", Style { fg: None, bold: true, italic: false }),
            ("punctuation.special", Style { fg: Some(Color::DarkGrey), bold: true, italic: false }),
            ("diff.header", Style { fg: Some(Color::Blue), bold: true, italic: false }),
            ("diff.section", Style { fg: Some(Color::Magenta), bold: true, italic: false }),
            ("diff.meta", Style { fg: Some(Color::DarkGrey), bold: false, italic: false }),
            ("diff.help", Style { fg: Some(Color::Cyan), bold: false, italic: false }),
            ("diff.hunk", Style { fg: Some(Color::Yellow), bold: true, italic: false }),
            ("diff.plus", Style { fg: Some(Color::Green), bold: false, italic: false }),
            ("diff.minus", Style { fg: Some(Color::Red), bold: false, italic: false }),
            ("diff.context", Style { fg: Some(Color::White), bold: false, italic: false }),
            ("diff.plus.gutter", Style { fg: Some(Color::Green), bold: false, italic: false }),
            ("diff.delta.gutter", Style { fg: Some(Color::Yellow), bold: false, italic: false }),
            ("diff.minus.gutter", Style { fg: Some(Color::Red), bold: false, italic: false }),
        ];
        proof {
            assert(entries@.map_values(|e: (&'static str, Style)| (e.0@, e.1)) =~= ansi_dark_rows());
        }
        Self::from_entries(entries)
    }

    /// The ANSI light preset.
    pub fn ansi_light() -> (t: Self)
        ensures
            Self::is_ansi_light(t),
    {
        let dark = Self::ansi_dark();
        Theme {
            mappings: lighten(&dark.mappings),
            ui: UiColors::light(),
            markdown_link_hover_bg: dark.markdown_link_hover_bg,
            markdown_link_hover_selected_bg: dark.markdown_link_hover_selected_bg,
        }
    }

    /// The capture table resolved through a fixed palette instead of ANSI
    /// names, with the given interface colours.
    pub fn from_palette(palette: &SyntaxPalette, ui: UiColors) -> (t: Self)
        ensures
            Self::is_from_palette(t, *palette, ui),
    {
        let dark = Self::ansi_dark();
        Theme {
            mappings: resolve_all(&dark.mappings, palette),
            ui,
            markdown_link_hover_bg: ui.selected_bg,
            markdown_link_hover_selected_bg: ui.accent,
        }
    }

    /// The Gargo dark preset.
    pub fn gargo_dark() -> (t: Self)
        ensures
            Self::is_from_palette(t, palette_dark_spec(), ui_dark()),
    {
        Self::from_palette(&palette_dark(), UiColors::dark())
    }

    /// The Gargo light preset.
    pub fn gargo_light() -> (t: Self)
        ensures
            Self::is_from_palette(t, palette_light_spec(), ui_light()),
    {
        Self::from_palette(&palette_light(), UiColors::light())
    }

    /// The Gargo dim preset.
    pub fn gargo_dim() -> (t: Self)
        ensures
            Self::is_from_palette(t, palette_dim_spec(), ui_dim()),
    {
        Self::from_palette(&palette_dim(), UiColors::dim())
    }

    /// The Gargo high-contrast preset.
    pub fn gargo_contrast() -> (t: Self)
        ensures
            Self::is_from_palette(t, palette_contrast_spec(), ui_contrast()),
    {
        Self::from_palette(&palette_contrast(), UiColors::contrast())
    }

    /// The Gargo sepia preset.
    pub fn gargo_sepia() -> (t: Self)
        ensures
            Self::is_from_palette(t, palette_sepia_spec(), ui_sepia()),
    {
        Self::from_palette(&palette_sepia(), UiColors::sepia())
    }

    /// The default theme, the ANSI dark preset.
    pub fn dark() -> (t: Self)
        ensures
            Self::is_ansi_dark(t),
    {
        Self::ansi_dark()
    }

    /// The background of a hovered Markdown link.
    pub fn markdown_link_hover_bg(&self) -> (c: Color)
        ensures
            c == self.hover_bg(),
    {
        self.markdown_link_hover_bg
    }

    /// The background of the selected hovered Markdown link.
    pub fn markdown_link_hover_selected_bg(&self) -> (c: Color)
        ensures
            c == self.hover_selected_bg(),
    {
        self.markdown_link_hover_selected_bg
    }

    /// The last row named by the first `len` characters of `name`.
    fn find_mapping(&self, name: &Vec<char>, len: usize) -> (r: Option<Style>)
        requires
            len <= name@.len(),
        ensures
            r == find_row(self.rows(), name@.take(len as int)),
    {
        let mut i: usize = self.mappings.len();
        proof {
            assert(self.rows().take(i as int) =~= self.rows());
        }
        while i > 0
            invariant
                i <= self.mappings@.len(),
                len <= name@.len(),
                find_row(self.rows(), name@.take(len as int)) == find_row(self.rows().take(i as int), name@.take(len as int)),
            decreases i,
        {
            let key = str_chars(self.mappings[i - 1].0.as_str());
            proof {
                let t = self.rows().take(i as int);
                assert(t.drop_last() =~= self.rows().take(i - 1));
                assert(t.last() == (self.mappings@[i - 1].0@, self.mappings@[i - 1].1));
            }
            if key.len() == len && chars_prefix_equal(&key, name, len) {
                proof {
                    assert(key@ =~= name@.take(len as int));
                }
                return Some(self.mappings[i - 1].1);
            }
            proof {
                if key@ == name@.take(len as int) {
                    assert(key@.len() == len);
                    assert(key@.take(len as int) =~= key@);
                    assert(name@.take(len as int).take(len as int) =~= name@.take(len as int));
                }
            }
            i = i - 1;
        }
        None
    }

    /// The style for a capture, falling back to the capture with its last
    /// `.`-separated part removed until one is found.
    pub fn style_for_capture(&self, capture_name: &str) -> (r: Option<Style>)
        ensures
            r == capture_style(self.rows(), capture_name@),
    {
        let name = str_chars(capture_name);
        let mut end: usize = name.len();
        proof {
            assert(name@.take(end as int) =~= name@);
        }
        loop
            invariant
                end <= name@.len(),
                name@ == capture_name@,
                capture_style(self.rows(), capture_name@) == capture_style(self.rows(), name@.take(end as int)),
            decreases end,
        {
            let ghost cur = name@.take(end as int);
            match self.find_mapping(&name, end) {
                Some(st) => return Some(st),
                None => {},
            }
            let mut k: usize = end;
            proof {
                assert(cur.take(k as int) =~= cur);
            }
            while k > 0 && name[k - 1] != '.'
                invariant
                    k <= end <= name@.len(),
                    cur == name@.take(end as int),
                    last_dot(cur) == last_dot(cur.take(k as int)),
                decreases k,
            {
                proof {
                    assert(cur.take(k as int).drop_last() =~= cur.take(k - 1));
                }
                k = k - 1;
            }
            proof {
                lemma_last_dot(cur);
                if k > 0 {
                    assert(cur.take(k as int).last() == '.');
                    assert(last_dot(cur.take(k as int)) == Some(k - 1));
                } else {
                    assert(cur.take(0) =~= Seq::<char>::empty());
                }
            }
            if k == 0 {
                return None;
            }
            proof {
                assert(cur.take(k - 1) =~= name@.take(k - 1));
            }
            end = k - 1;
        }
    }
}

/// Whether the first `len` characters of `a` and `b` agree.
fn chars_prefix_equal(a: &Vec<char>, b: &Vec<char>, len: usize) -> (r: bool)
    requires
        len <= a@.len(),
        len <= b@.len(),
    ensures
        r == (a@.take(len as int) == b@.take(len as int)),
{
    let mut i: usize = 0;
    while i < len
        invariant
            i <= len <= a@.len(),
            len <= b@.len(),
            forall|k: int| 0 <= k < i ==> a@[k] == b@[k],
        decreases len - i,
    {
        if a[i] != b[i] {
            proof {
                assert(a@.take(len as int)[i as int] != b@.take(len as int)[i as int]);
            }
            return false;
        }
        i = i + 1;
    }
    proof {
        assert(a@.take(len as int) =~= b@.take(len as int));
    }
    true
}

/// `t` is the theme of the preset with id `id`.
pub open spec fn is_preset_theme(t: Theme, id: Seq<char>) -> bool {
    if id == "ansi_dark"@ {
        Theme::is_ansi_dark(t)
    } else if id == "ansi_light"@ {
        Theme::is_ansi_light(t)
    } else if id == "gargo_dark"@ {
        Theme::is_from_palette(t, palette_dark_spec(), ui_dark())
    } else if id == "gargo_light"@ {
        Theme::is_from_palette(t, palette_light_spec(), ui_light())
    } else if id == "gargo_dim"@ {
        Theme::is_from_palette(t, palette_dim_spec(), ui_dim())
    } else if id == "gargo_contrast"@ {
        Theme::is_from_palette(t, palette_contrast_spec(), ui_contrast())
    } else {
        Theme::is_from_palette(t, palette_sepia_spec(), ui_sepia())
    }
}

impl ThemePreset {
    /// Builds the theme of this preset.
    pub fn build(&self) -> (t: Theme)
        requires
            exists|i: int| 0 <= i < preset_rows().len() && (#[trigger] preset_rows()[i]).0 == self.id@,
        ensures
            is_preset_theme(t, self.id@),
    {
        let id = str_chars(self.id);
        if chars_equal(&id, "ansi_dark") {
            Theme::ansi_dark()
        } else if chars_equal(&id, "ansi_light") {
            Theme::ansi_light()
        } else if chars_equal(&id, "gargo_dark") {
            Theme::gargo_dark()
        } else if chars_equal(&id, "gargo_light") {
            Theme::gargo_light()
        } else if chars_equal(&id, "gargo_dim") {
            Theme::gargo_dim()
        } else if chars_equal(&id, "gargo_contrast") {
            Theme::gargo_contrast()
        } else {
            Theme::gargo_sepia()
        }
    }
}

/// The capture table resolved through `p`.
pub open spec fn palette_rows(p: SyntaxPalette) -> Seq<(Seq<char>, Style)> {
    map_fg(ansi_dark_rows(), |c: Color| resolved(p, c))
}

/// Remapping colours keeps every capture of the table, in place, with its
/// bold and italic flags.
pub proof fn law_remap_keeps_captures(rows: Seq<(Seq<char>, Style)>, f: spec_fn(Color) -> Color)
    ensures
        map_fg(rows, f).len() == rows.len(),
        forall|i: int|
            0 <= i < rows.len() ==> (#[trigger] map_fg(rows, f)[i]).0 == rows[i].0 && map_fg(rows, f)[i].1.bold
                == rows[i].1.bold && map_fg(rows, f)[i].1.italic == rows[i].1.italic && (map_fg(rows, f)[i].1.fg
                is Some) == (rows[i].1.fg is Some),
{
}

/// The capture table paints only with the nine palette slots, so a palette
/// of exact colours leaves no capture in a terminal-dependent colour.
pub proof fn law_exact_palette_gives_exact_captures(p: SyntaxPalette)
    requires
        p.magenta is Rgb,
        p.blue is Rgb,
        p.cyan is Rgb,
        p.green is Rgb,
        p.yellow is Rgb,
        p.red is Rgb,
        p.text is Rgb,
        p.comment is Rgb,
        p.muted is Rgb,
    ensures
        forall|i: int|
            0 <= i < ansi_dark_rows().len() ==> match (#[trigger] palette_rows(p)[i]).1.fg {
                Some(c) => c is Rgb,
                None => true,
            },
{
    let rows = ansi_dark_rows();
    assert forall|i: int| 0 <= i < rows.len() implies match (#[trigger] rows[i]).1.fg {
        Some(c) => c is Magenta || c is Blue || c is Cyan || c is Green || c is Yellow || c is Red || c is White
            || c is DarkGrey || c is Grey,
        None => true,
    } by {
        assert(rows.len() == 62);
    }
}


/// The value of a hexadecimal digit.
pub open spec fn hex_value(c: char) -> Option<int> {
    if '0' <= c && c <= '9' {
        Some(c as int - '0' as int)
    } else if 'a' <= c && c <= 'f' {
        Some(c as int - 'a' as int + 10)
    } else if 'A' <= c && c <= 'F' {
        Some(c as int - 'A' as int + 10)
    } else {
        None
    }
}

/// What `u8::from_str_radix(text, 16)` gives for the two characters `a b`:
/// two hexadecimal digits, or `+` and one.
pub open spec fn hex_byte(a: char, b: char) -> Option<u8> {
    if a == '+' {
        match hex_value(b) {
            Some(v) => Some(v as u8),
            None => None,
        }
    } else {
        match hex_value(a) {
            Some(x) => match hex_value(b) {
                Some(y) => Some((16 * x + y) as u8),
                None => None,
            },
            None => None,
        }
    }
}

/// The colour a name stands for, once trimmed, in lowercase and with `_`
/// for `-`.
pub open spec fn color_named(n: Seq<char>) -> Option<Color> {
    if false {
        None
    } else if n == "black"@ {
        Some(Color::Black)
    } else if n == "dark_grey"@ {
        Some(Color::DarkGrey)
    } else if n == "grey"@ {
        Some(Color::Grey)
    } else if n == "white"@ {
        Some(Color::White)
    } else if n == "red"@ {
        Some(Color::Red)
    } else if n == "dark_red"@ {
        Some(Color::DarkRed)
    } else if n == "green"@ {
        Some(Color::Green)
    } else if n == "dark_green"@ {
        Some(Color::DarkGreen)
    } else if n == "yellow"@ {
        Some(Color::Yellow)
    } else if n == "dark_yellow"@ {
        Some(Color::DarkYellow)
    } else if n == "blue"@ {
        Some(Color::Blue)
    } else if n == "dark_blue"@ {
        Some(Color::DarkBlue)
    } else if n == "magenta"@ {
        Some(Color::Magenta)
    } else if n == "dark_magenta"@ {
        Some(Color::DarkMagenta)
    } else if n == "cyan"@ {
        Some(Color::Cyan)
    } else if n == "dark_cyan"@ {
        Some(Color::DarkCyan)
    } else {
        None
    }
}

/// What a configured colour names: `#` and six hexadecimal bytes for an
/// exact colour (nothing when they do not parse), otherwise one of the
/// terminal's colours by name.
pub open spec fn parsed_color(input: Seq<char>) -> Option<Color> {
    if input.len() > 0 && input[0] == '#' && byte_len(input.skip(1)) == 6 {
        let h = input.skip(1);
        if h.len() == 6 {
            match hex_byte(h[0], h[1]) {
                Some(r) => match hex_byte(h[2], h[3]) {
                    Some(g) => match hex_byte(h[4], h[5]) {
                        Some(b) => Some(Color::Rgb { r, g, b }),
                        None => None,
                    },
                    None => None,
                },
                None => None,
            }
        } else {
            None
        }
    } else {
        color_named(normalized_name(input))
    }
}

/// A `#` colour is read in byte pairs: the pairs must fall between
/// characters.
pub open spec fn color_text_ok(input: Seq<char>) -> bool {
    input.len() > 0 && input[0] == '#' && byte_len(input.skip(1)) == 6 ==> exists|i: int, j: int|
        0 <= i <= j <= input.len() - 1 && byte_len(#[trigger] input.skip(1).take(i)) == 2 && byte_len(
            #[trigger] input.skip(1).take(j),
        ) == 4
}

/// The byte length of `h`, when it is at most `limit`.
fn byte_len_upto(h: &Vec<char>, from: usize, limit: usize) -> (r: Option<usize>)
    requires
        from <= h@.len(),
        limit <= 100,
    ensures
        match r {
            Some(n) => n == byte_len(h@.skip(from as int)) && n <= limit,
            None => byte_len(h@.skip(from as int)) > limit,
        },
{
    let ghost t = h@.skip(from as int);
    let mut bytes: usize = 0;
    let mut i = from;
    proof {
        assert(t.take(0) =~= Seq::<char>::empty());
    }
    while i < h.len()
        invariant
            from <= i <= h@.len(),
            t == h@.skip(from as int),
            bytes == byte_len(t.take(i - from)),
            bytes <= limit,
            limit <= 100,
        decreases h@.len() - i,
    {
        proof {
            crate::utf8::lemma_byte_len_take_step(t, i - from);
            assert(t[i - from] == h@[i as int]);
        }
        let n = crate::utf8::char_len_utf8(h[i]);
        if bytes + n > limit {
            proof {
                crate::utf8::lemma_byte_len_take_mono(t, i - from + 1, t.len() as int);
            }
            return None;
        }
        bytes = bytes + n;
        i = i + 1;
    }
    proof {
        assert(t.take(i - from) =~= t);
    }
    Some(bytes)
}

/// The value of a hexadecimal digit.
fn hex_digit(c: char) -> (r: Option<u8>)
    ensures
        match hex_value(c) {
            Some(v) => r == Some(v as u8),
            None => r is None,
        },
{
    if '0' <= c && c <= '9' {
        Some(((c as u32) - ('0' as u32)) as u8)
    } else if 'a' <= c && c <= 'f' {
        Some(((c as u32) - ('a' as u32) + 10) as u8)
    } else if 'A' <= c && c <= 'F' {
        Some(((c as u32) - ('A' as u32) + 10) as u8)
    } else {
        None
    }
}

/// A byte written as two hexadecimal characters.
fn parse_hex_byte(a: char, b: char) -> (r: Option<u8>)
    ensures
        r == hex_byte(a, b),
{
    if a == '+' {
        return hex_digit(b);
    }
    match hex_digit(a) {
        Some(x) => match hex_digit(b) {
            Some(y) => Some(16 * x + y),
            None => None,
        },
        None => None,
    }
}

/// Reads a configured colour: `#rrggbb`, or a terminal colour by name.
pub fn parse_color(input: &str) -> (r: Option<Color>)
    requires
        color_text_ok(input@),
    ensures
        r == parsed_color(input@),
{
    let chars = str_chars(input);
    if chars.len() > 0 && chars[0] == '#' {
        let bytes = byte_len_upto(&chars, 1, 6);
        if let Some(6) = bytes {
            if chars.len() != 7 {
                return None;
            }
            let red = match parse_hex_byte(chars[1], chars[2]) {
                Some(v) => v,
                None => return None,
            };
            let green = match parse_hex_byte(chars[3], chars[4]) {
                Some(v) => v,
                None => return None,
            };
            let blue = match parse_hex_byte(chars[5], chars[6]) {
                Some(v) => v,
                None => return None,
            };
            return Some(Color::Rgb { r: red, g: green, b: blue });
        }
    }
    let n = normalize(input);
    proof {
        reveal_strlit("black");
        reveal_strlit("dark_grey");
        reveal_strlit("grey");
        reveal_strlit("white");
        reveal_strlit("red");
        reveal_strlit("dark_red");
        reveal_strlit("green");
        reveal_strlit("dark_green");
        reveal_strlit("yellow");
        reveal_strlit("dark_yellow");
        reveal_strlit("blue");
        reveal_strlit("dark_blue");
        reveal_strlit("magenta");
        reveal_strlit("dark_magenta");
        reveal_strlit("cyan");
        reveal_strlit("dark_cyan");
    }
    if chars_equal(&n, "black") {
        return Some(Color::Black);
    }
    if chars_equal(&n, "dark_grey") {
        return Some(Color::DarkGrey);
    }
    if chars_equal(&n, "grey") {
        return Some(Color::Grey);
    }
    if chars_equal(&n, "white") {
        return Some(Color::White);
    }
    if chars_equal(&n, "red") {
        return Some(Color::Red);
    }
    if chars_equal(&n, "dark_red") {
        return Some(Color::DarkRed);
    }
    if chars_equal(&n, "green") {
        return Some(Color::Green);
    }
    if chars_equal(&n, "dark_green") {
        return Some(Color::DarkGreen);
    }
    if chars_equal(&n, "yellow") {
        return Some(Color::Yellow);
    }
    if chars_equal(&n, "dark_yellow") {
        return Some(Color::DarkYellow);
    }
    if chars_equal(&n, "blue") {
        return Some(Color::Blue);
    }
    if chars_equal(&n, "dark_blue") {
        return Some(Color::DarkBlue);
    }
    if chars_equal(&n, "magenta") {
        return Some(Color::Magenta);
    }
    if chars_equal(&n, "dark_magenta") {
        return Some(Color::DarkMagenta);
    }
    if chars_equal(&n, "cyan") {
        return Some(Color::Cyan);
    }
    if chars_equal(&n, "dark_cyan") {
        return Some(Color::DarkCyan);
    }
    None
}

/// `cur`, or the colour `text` names when it names one.
pub open spec fn color_override(cur: Color, text: Option<String>) -> Color {
    match text {
        Some(t) => match parsed_color(t@) {
            Some(c) => c,
            None => cur,
        },
        None => cur,
    }
}

/// `text` is absent or can be read as a colour.
pub open spec fn color_opt_ok(text: Option<String>) -> bool {
    match text {
        Some(t) => color_text_ok(t@),
        None => true,
    }
}

/// `cur`, or the colour `text` names when it names one.
fn override_color(cur: Color, text: &Option<String>) -> (r: Color)
    requires
        color_opt_ok(*text),
    ensures
        r == color_override(cur, *text),
{
    match text {
        Some(t) => match parse_color(t.as_str()) {
            Some(c) => c,
            None => cur,
        },
        None => cur,
    }
}

/// The interface colours with the configured ones put in.
pub open spec fn ui_overridden(ui: UiColors, o: ThemeUiConfig) -> UiColors {
    UiColors {
        bg: color_override(ui.bg, o.bg),
        panel_bg: color_override(ui.panel_bg, o.panel_bg),
        text: color_override(ui.text, o.text),
        dim: color_override(ui.dim, o.dim),
        faint: color_override(ui.faint, o.faint),
        accent: color_override(ui.accent, o.accent),
        selected_bg: color_override(ui.selected_bg, o.selected_bg),
        selected_fg: color_override(ui.selected_fg, o.selected_fg),
        folder: color_override(ui.folder, o.folder),
        dirty: color_override(ui.dirty, o.dirty),
        status_bg: color_override(ui.status_bg, o.status_bg),
        status_fg: color_override(ui.status_fg, o.status_fg),
        mode_fg: color_override(ui.mode_fg, o.mode_fg),
        mode_normal: color_override(ui.mode_normal, o.mode_normal),
        mode_insert: color_override(ui.mode_insert, o.mode_insert),
        mode_visual: color_override(ui.mode_visual, o.mode_visual),
        error: color_override(ui.error, o.error),
        warning: color_override(ui.warning, o.warning),
        info: color_override(ui.info, o.info),
        git_added: color_override(ui.git_added, o.git_added),
        git_modified: color_override(ui.git_modified, o.git_modified),
        git_deleted: color_override(ui.git_deleted, o.git_deleted),
        git_untracked: color_override(ui.git_untracked, o.git_untracked),
        git_conflict: color_override(ui.git_conflict, o.git_conflict),
        diff_add_bg: color_override(ui.diff_add_bg, o.diff_add_bg),
        diff_del_bg: color_override(ui.diff_del_bg, o.diff_del_bg),
        search_current_bg: color_override(ui.search_current_bg, o.search_current_bg),
        search_current_fg: color_override(ui.search_current_fg, o.search_current_fg),
        search_other_bg: color_override(ui.search_other_bg, o.search_other_bg),
    }
}

/// Every configured interface colour can be read.
pub open spec fn ui_config_ok(o: ThemeUiConfig) -> bool {
    color_opt_ok(o.bg) &&
    color_opt_ok(o.panel_bg) &&
    color_opt_ok(o.text) &&
    color_opt_ok(o.dim) &&
    color_opt_ok(o.faint) &&
    color_opt_ok(o.accent) &&
    color_opt_ok(o.selected_bg) &&
    color_opt_ok(o.selected_fg) &&
    color_opt_ok(o.folder) &&
    color_opt_ok(o.dirty) &&
    color_opt_ok(o.status_bg) &&
    color_opt_ok(o.status_fg) &&
    color_opt_ok(o.mode_fg) &&
    color_opt_ok(o.mode_normal) &&
    color_opt_ok(o.mode_insert) &&
    color_opt_ok(o.mode_visual) &&
    color_opt_ok(o.error) &&
    color_opt_ok(o.warning) &&
    color_opt_ok(o.info) &&
    color_opt_ok(o.git_added) &&
    color_opt_ok(o.git_modified) &&
    color_opt_ok(o.git_deleted) &&
    color_opt_ok(o.git_untracked) &&
    color_opt_ok(o.git_conflict) &&
    color_opt_ok(o.diff_add_bg) &&
    color_opt_ok(o.diff_del_bg) &&
    color_opt_ok(o.search_current_bg) &&
    color_opt_ok(o.search_current_fg) &&
    color_opt_ok(o.search_other_bg) &&
    color_opt_ok(o.markdown_link_hover_bg) &&
    color_opt_ok(o.markdown_link_hover_selected_bg)
}

/// A capture's style with a configured override put in: the colour when
/// it names one, and the attributes it sets.
pub open spec fn overridden_style(cur: Option<Style>, o: ThemeCaptureConfig) -> Style {
    let s = match cur {
        Some(s) => s,
        None => plain_style(),
    };
    Style {
        fg: match o.fg {
            Some(t) => match parsed_color(t@) {
                Some(c) => Some(c),
                None => s.fg,
            },
            None => s.fg,
        },
        bold: match o.bold {
            Some(b) => b,
            None => s.bold,
        },
        italic: match o.italic {
            Some(i) => i,
            None => s.italic,
        },
    }
}

/// The capture table after the overrides `caps`, in order.
pub open spec fn captures_applied(rows: Seq<(Seq<char>, Style)>, caps: Seq<(String, ThemeCaptureConfig)>) -> Seq<(Seq<char>, Style)>
    decreases caps.len(),
{
    if caps.len() == 0 {
        rows
    } else {
        let prev = captures_applied(rows, caps.drop_last());
        let (name, o) = caps.last();
        prev.push((name@, overridden_style(find_row(prev, name@), o)))
    }
}

/// Every configured capture colour can be read.
pub open spec fn captures_ok(caps: Seq<(String, ThemeCaptureConfig)>) -> bool {
    forall|i: int| 0 <= i < caps.len() ==> color_opt_ok((#[trigger] caps[i]).1.fg)
}

/// `t` is `base` with the theme section's overrides put in.
pub open spec fn overrides_applied(base: Theme, cfg: ThemeConfig, t: Theme) -> bool {
    &&& t.rows() == captures_applied(base.rows(), cfg.captures@)
    &&& t.ui == ui_overridden(base.ui, cfg.ui)
    &&& t.hover_bg() == color_override(base.hover_bg(), cfg.ui.markdown_link_hover_bg)
    &&& t.hover_selected_bg() == color_override(base.hover_selected_bg(), cfg.ui.markdown_link_hover_selected_bg)
}

/// The colour of interface role `k` of theme `t`, the roles counted in the
/// order of the configuration's fields: the link-hover backgrounds first,
/// then `bg`, `panel_bg`, `text`, ... up to `search_other_bg`.
pub open spec fn theme_role(t: Theme, k: int) -> Color {
    let u = t.ui;
    if k == 0 { t.hover_bg() }
    else if k == 1 { t.hover_selected_bg() }
    else if k == 2 { u.bg }
    else if k == 3 { u.panel_bg }
    else if k == 4 { u.text }
    else if k == 5 { u.dim }
    else if k == 6 { u.faint }
    else if k == 7 { u.accent }
    else if k == 8 { u.selected_bg }
    else if k == 9 { u.selected_fg }
    else if k == 10 { u.folder }
    else if k == 11 { u.dirty }
    else if k == 12 { u.status_bg }
    else if k == 13 { u.status_fg }
    else if k == 14 { u.mode_fg }
    else if k == 15 { u.mode_normal }
    else if k == 16 { u.mode_insert }
    else if k == 17 { u.mode_visual }
    else if k == 18 { u.error }
    else if k == 19 { u.warning }
    else if k == 20 { u.info }
    else if k == 21 { u.git_added }
    else if k == 22 { u.git_modified }
    else if k == 23 { u.git_deleted }
    else if k == 24 { u.git_untracked }
    else if k == 25 { u.git_conflict }
    else if k == 26 { u.diff_add_bg }
    else if k == 27 { u.diff_del_bg }
    else if k == 28 { u.search_current_bg }
    else if k == 29 { u.search_current_fg }
    else { u.search_other_bg }
}

/// The configured text of interface role `k`, in the same order.
pub open spec fn config_role(o: ThemeUiConfig, k: int) -> Option<String> {
    if k == 0 { o.markdown_link_hover_bg }
    else if k == 1 { o.markdown_link_hover_selected_bg }
    else if k == 2 { o.bg }
    else if k == 3 { o.panel_bg }
    else if k == 4 { o.text }
    else if k == 5 { o.dim }
    else if k == 6 { o.faint }
    else if k == 7 { o.accent }
    else if k == 8 { o.selected_bg }
    else if k == 9 { o.selected_fg }
    else if k == 10 { o.folder }
    else if k == 11 { o.dirty }
    else if k == 12 { o.status_bg }
    else if k == 13 { o.status_fg }
    else if k == 14 { o.mode_fg }
    else if k == 15 { o.mode_normal }
    else if k == 16 { o.mode_insert }
    else if k == 17 { o.mode_visual }
    else if k == 18 { o.error }
    else if k == 19 { o.warning }
    else if k == 20 { o.info }
    else if k == 21 { o.git_added }
    else if k == 22 { o.git_modified }
    else if k == 23 { o.git_deleted }
    else if k == 24 { o.git_untracked }
    else if k == 25 { o.git_conflict }
    else if k == 26 { o.diff_add_bg }
    else if k == 27 { o.diff_del_bg }
    else if k == 28 { o.search_current_bg }
    else if k == 29 { o.search_current_fg }
    else { o.search_other_bg }
}

/// Number of interface roles a configuration can set.
pub open spec fn ui_role_count() -> int {
    31
}

/// Every interface role a theme section names with a readable colour gets
/// that colour; every other role keeps the base theme's colour. This holds
/// of `apply_config_overrides` and of `from_config`, whose results are
/// `overrides_applied` to their base.
pub proof fn law_ui_roles_take_configured_colours(base: Theme, cfg: ThemeConfig, t: Theme)
    requires
        overrides_applied(base, cfg, t),
    ensures
        forall|k: int|
            0 <= k < ui_role_count() ==> #[trigger] theme_role(t, k) == match config_role(cfg.ui, k) {
                Some(text) => match parsed_color(text@) {
                    Some(c) => c,
                    None => theme_role(base, k),
                },
                None => theme_role(base, k),
            },
{
    assert forall|k: int| 0 <= k < ui_role_count() implies #[trigger] theme_role(t, k) == color_override(
        theme_role(base, k),
        config_role(cfg.ui, k),
    ) by {
        lemma_role_overridden(base, cfg, t, k);
    }
}

/// One interface role takes its configured colour, if readable.
#[verifier::rlimit(50)]
proof fn lemma_role_overridden(base: Theme, cfg: ThemeConfig, t: Theme, k: int)
    requires
        overrides_applied(base, cfg, t),
        0 <= k < ui_role_count(),
    ensures
        theme_role(t, k) == color_override(theme_role(base, k), config_role(cfg.ui, k)),
{
    let u = base.ui;
    let o = cfg.ui;
    assert(t.ui == ui_overridden(u, o));
}

impl Theme {
    /// A theme with the given capture table, the dark interface colours
    /// and the default link-hover colours.
    fn from_entries(entries: Vec<(&'static str, Style)>) -> (t: Self)
        ensures
            t.rows() == entries@.map_values(|e: (&'static str, Style)| (e.0@, e.1)),
            t.ui == ui_dark(),
            t.hover_bg() == Color::DarkGrey,
            t.hover_selected_bg() == Color::Grey,
    {
        let mut mappings: Vec<(String, Style)> = Vec::new();
        let mut i: usize = 0;
        while i < entries.len()
            invariant
                i <= entries@.len(),
                rows_view(mappings@) == entries@.take(i as int).map_values(|e: (&'static str, Style)| (e.0@, e.1)),
            decreases entries@.len() - i,
        {
            let ghost before = mappings@;
            mappings.push((owned(entries[i].0), entries[i].1));
            proof {
                let f = |e: (&'static str, Style)| (e.0@, e.1);
                assert(rows_view(mappings@) =~= rows_view(before).push((entries@[i as int].0@, entries@[i as int].1)));
                assert(entries@.take(i + 1).map_values(f) =~= entries@.take(i as int).map_values(f).push(f(entries@[i as int])));
            }
            i = i + 1;
        }
        proof {
            assert(entries@.take(i as int) =~= entries@);
        }
        Theme {
            mappings,
            ui: UiColors::dark(),
            markdown_link_hover_bg: Color::DarkGrey,
            markdown_link_hover_selected_bg: Color::Grey,
        }
    }

    /// Puts in a configured override of one capture's style.
    fn apply_capture_override(&mut self, capture: &str, override_style: &ThemeCaptureConfig)
        requires
            color_opt_ok(override_style.fg),
        ensures
            final(self).rows() == old(self).rows().push((capture@, overridden_style(find_row(old(self).rows(), capture@), *override_style))),
            final(self).ui == old(self).ui,
            final(self).hover_bg() == old(self).hover_bg(),
            final(self).hover_selected_bg() == old(self).hover_selected_bg(),
    {
        let name = str_chars(capture);
        let mut style = match self.find_mapping(&name, name.len()) {
            Some(s) => s,
            None => Style { fg: None, bold: false, italic: false },
        };
        proof {
            assert(name@.take(name@.len() as int) =~= capture@);
        }
        if let Some(color_text) = &override_style.fg {
            if let Some(color) = parse_color(color_text.as_str()) {
                style.fg = Some(color);
            }
        }
        if let Some(bold) = override_style.bold {
            style.bold = bold;
        }
        if let Some(italic) = override_style.italic {
            style.italic = italic;
        }
        let ghost before = self.mappings@;
        self.mappings.push((owned(capture), style));
        proof {
            assert(rows_view(self.mappings@) =~= rows_view(before).push((capture@, style)));
        }
    }

    /// Puts in the configured interface colours.
    fn apply_ui_overrides(&mut self, ui: &ThemeUiConfig)
        requires
            ui_config_ok(*ui),
        ensures
            final(self).rows() == old(self).rows(),
            final(self).ui == ui_overridden(old(self).ui, *ui),
            final(self).hover_bg() == color_override(old(self).hover_bg(), ui.markdown_link_hover_bg),
            final(self).hover_selected_bg() == color_override(old(self).hover_selected_bg(), ui.markdown_link_hover_selected_bg),
    {
        self.markdown_link_hover_bg = override_color(self.markdown_link_hover_bg, &ui.markdown_link_hover_bg);
        self.markdown_link_hover_selected_bg = override_color(
            self.markdown_link_hover_selected_bg,
            &ui.markdown_link_hover_selected_bg,
        );
        self.ui = UiColors {
            bg: override_color(self.ui.bg, &ui.bg),
            panel_bg: override_color(self.ui.panel_bg, &ui.panel_bg),
            text: override_color(self.ui.text, &ui.text),
            dim: override_color(self.ui.dim, &ui.dim),
            faint: override_color(self.ui.faint, &ui.faint),
            accent: override_color(self.ui.accent, &ui.accent),
            selected_bg: override_color(self.ui.selected_bg, &ui.selected_bg),
            selected_fg: override_color(self.ui.selected_fg, &ui.selected_fg),
            folder: override_color(self.ui.folder, &ui.folder),
            dirty: override_color(self.ui.dirty, &ui.dirty),
            status_bg: override_color(self.ui.status_bg, &ui.status_bg),
            status_fg: override_color(self.ui.status_fg, &ui.status_fg),
            mode_fg: override_color(self.ui.mode_fg, &ui.mode_fg),
            mode_normal: override_color(self.ui.mode_normal, &ui.mode_normal),
            mode_insert: override_color(self.ui.mode_insert, &ui.mode_insert),
            mode_visual: override_color(self.ui.mode_visual, &ui.mode_visual),
            error: override_color(self.ui.error, &ui.error),
            warning: override_color(self.ui.warning, &ui.warning),
            info: override_color(self.ui.info, &ui.info),
            git_added: override_color(self.ui.git_added, &ui.git_added),
            git_modified: override_color(self.ui.git_modified, &ui.git_modified),
            git_deleted: override_color(self.ui.git_deleted, &ui.git_deleted),
            git_untracked: override_color(self.ui.git_untracked, &ui.git_untracked),
            git_conflict: override_color(self.ui.git_conflict, &ui.git_conflict),
            diff_add_bg: override_color(self.ui.diff_add_bg, &ui.diff_add_bg),
            diff_del_bg: override_color(self.ui.diff_del_bg, &ui.diff_del_bg),
            search_current_bg: override_color(self.ui.search_current_bg, &ui.search_current_bg),
            search_current_fg: override_color(self.ui.search_current_fg, &ui.search_current_fg),
            search_other_bg: override_color(self.ui.search_other_bg, &ui.search_other_bg),
        };
    }

    /// Layers a theme section's capture and interface overrides onto an
    /// already-built preset.
    pub fn apply_config_overrides(&mut self, theme_config: &ThemeConfig)
        requires
            captures_ok(theme_config.captures@),
            ui_config_ok(theme_config.ui),
        ensures
            overrides_applied(*old(self), *theme_config, *final(self)),
    {
        let ghost base = *old(self);
        let mut i: usize = 0;
        while i < theme_config.captures.len()
            invariant
                i <= theme_config.captures@.len(),
                captures_ok(theme_config.captures@),
                self.rows() == captures_applied(base.rows(), theme_config.captures@.take(i as int)),
                self.ui == base.ui,
                self.hover_bg() == base.hover_bg(),
                self.hover_selected_bg() == base.hover_selected_bg(),
            decreases theme_config.captures@.len() - i,
        {
            proof {
                assert(theme_config.captures@.take(i + 1).drop_last() =~= theme_config.captures@.take(i as int));
                assert(color_opt_ok(theme_config.captures@[i as int].1.fg));
            }
            let (capture, o) = &theme_config.captures[i];
            self.apply_capture_override(capture.as_str(), o);
            i = i + 1;
        }
        proof {
            assert(theme_config.captures@.take(i as int) =~= theme_config.captures@);
        }
        self.apply_ui_overrides(&theme_config.ui);
    }

    /// The theme a theme section asks for: its preset (the default one when
    /// the name matches none) with its overrides put in.
    pub fn from_config(theme_config: &ThemeConfig) -> (t: Self)
        requires
            captures_ok(theme_config.captures@),
            ui_config_ok(theme_config.ui),
        ensures
            exists|base: Theme| {
                &&& if names_a_preset(theme_config.preset@) {
                    is_preset_theme(base, preset_id_for(normalized_name(theme_config.preset@)))
                } else {
                    Theme::is_ansi_dark(base)
                }
                &&& overrides_applied(base, *theme_config, t)
            },
    {
        let mut theme = match find_preset(theme_config.preset.as_str()) {
            Some(preset) => {
                proof {
                    let i = choose|i: int| 0 <= i < preset_rows().len() && preset_is(preset, #[trigger] preset_rows()[i]) && preset_rows()[i].0 == preset_id_for(normalized_name(theme_config.preset@));
                    assert(preset_rows()[i].0 == preset.id@);
                }
                preset.build()
            },
            None => Self::ansi_dark(),
        };
        let ghost base = theme;
        theme.apply_config_overrides(theme_config);
        proof {
            assert(overrides_applied(base, *theme_config, theme));
        }
        theme
    }
}

} // verus!
