use gargo::config::{ThemeCaptureConfig, ThemeConfig, ThemeUiConfig};
use gargo::syntax::theme::{find_preset, normalize_preset_name, parse_color, presets, Theme};
use gargo::syntax::ui_colors::{channels, rgb, UiColors};
use gargo::ui::framework::cell::Color;

#[test]
fn preset_ids_are_unique() {
    let all = presets();
    let mut ids: Vec<&str> = all.iter().map(|p| p.id).collect();
    let before = ids.len();
    ids.sort_unstable();
    ids.dedup();
    assert_eq!(ids.len(), before, "duplicate preset id");
}

#[test]
fn presets_cover_both_appearances() {
    // OS appearance following needs at least one of each.
    assert!(presets().iter().any(|p| p.is_dark));
    assert!(presets().iter().any(|p| !p.is_dark));
}

#[test]
fn legacy_preset_names_still_resolve() {
    assert_eq!(find_preset("dark").map(|p| p.id), Some("ansi_dark"));
    assert_eq!(find_preset("light").map(|p| p.id), Some("ansi_light"));
}

#[test]
fn every_preset_is_reachable_by_id() {
    for preset in presets() {
        assert_eq!(find_preset(preset.id).map(|p| p.id), Some(preset.id));
        // Hyphens and case are accepted for every id, not just some.
        assert_eq!(
            find_preset(&preset.id.replace('_', "-").to_uppercase()).map(|p| p.id),
            Some(preset.id)
        );
    }
}

#[test]
fn unknown_or_padded_names() {
    assert_eq!(find_preset("no_such_preset"), None);
    assert_eq!(find_preset(""), None);
    assert_eq!(
        find_preset("  Gargo-Sepia \t").map(|p| p.label),
        Some("Gargo Sepia (warm light)")
    );
}

#[test]
fn exact_match() {
    let theme = Theme::dark();
    let style = theme.style_for_capture("keyword").unwrap();
    assert_eq!(style.fg, Some(Color::Magenta));
}

#[test]
fn hierarchical_fallback() {
    let theme = Theme::dark();
    // "function.method.call" should fallback to "function.method" or "function"
    let style = theme.style_for_capture("function.method.call").unwrap();
    assert_eq!(style.fg, Some(Color::Blue));
}

#[test]
fn unknown_capture() {
    let theme = Theme::dark();
    assert!(theme.style_for_capture("unknown_capture_xyz").is_none());
}

#[test]
fn comment_is_italic() {
    let theme = Theme::dark();
    let style = theme.style_for_capture("comment").unwrap();
    assert!(style.italic);
}

#[test]
fn ansi_light_adjusts_dark_preset_colors() {
    let theme = Theme::ansi_light();
    let keyword = theme.style_for_capture("keyword").unwrap();
    assert_eq!(keyword.fg, Some(Color::DarkMagenta));
    let operator = theme.style_for_capture("operator").unwrap();
    assert_eq!(operator.fg, Some(Color::Black));
}

#[test]
fn diff_captures_have_default_colors() {
    let theme = Theme::dark();
    assert_eq!(
        theme.style_for_capture("diff.plus").and_then(|style| style.fg),
        Some(Color::Green)
    );
    assert_eq!(
        theme.style_for_capture("diff.minus").and_then(|style| style.fg),
        Some(Color::Red)
    );
    assert_eq!(
        theme.style_for_capture("diff.hunk").and_then(|style| style.fg),
        Some(Color::Yellow)
    );
}

#[test]
fn hex_presets_keep_every_capture_of_the_ansi_preset() {
    let ansi = Theme::ansi_dark();
    for (name, style) in &ansi.mappings {
        for hex in [Theme::gargo_dark(), Theme::gargo_light()] {
            let mapped = hex
                .style_for_capture(name)
                .unwrap_or_else(|| panic!("{name} missing from hex preset"));
            assert_eq!(mapped.bold, style.bold, "{name} bold");
            assert_eq!(mapped.italic, style.italic, "{name} italic");
            // Captures carrying only bold/italic (`emphasis`, `strong`)
            // have no color to remap and must stay colorless.
            assert_eq!(
                style.fg.is_some(),
                mapped.fg.is_some(),
                "{name} gained or lost a color"
            );
            assert!(
                style.fg.is_none() || matches!(mapped.fg, Some(Color::Rgb { .. })),
                "{name} should resolve to rgb, got {:?}",
                mapped.fg
            );
        }
    }
}

#[test]
fn hex_presets_resolve_every_ansi_slot() {
    // A palette that forgot a slot would leave that capture ANSI-colored
    // and quietly terminal-dependent.
    for preset in presets().iter().filter(|p| !p.id.starts_with("ansi_")) {
        let theme = preset.build();
        for (name, style) in &theme.mappings {
            if let Some(fg) = style.fg {
                assert!(
                    matches!(fg, Color::Rgb { .. }),
                    "{} left {name} as {fg:?}",
                    preset.id
                );
            }
        }
    }
}

#[test]
fn ui_colors_are_rgb_even_for_the_ansi_presets() {
    // The terminal palette decides how code looks; it must not decide
    // whether the status bar is readable.
    for theme in [Theme::ansi_dark(), Theme::ansi_light()] {
        assert!(matches!(theme.ui.status_bg, Color::Rgb { .. }));
        assert!(matches!(theme.ui.accent, Color::Rgb { .. }));
    }
}

#[test]
fn ansi_light_preset_uses_the_light_ui_palette() {
    assert_eq!(Theme::ansi_light().ui, UiColors::light());
    assert_eq!(Theme::ansi_dark().ui, UiColors::dark());
    assert_eq!(Theme::gargo_light().ui, UiColors::light());
}

#[test]
fn every_preset_builds_and_is_reachable_by_id() {
    for preset in presets() {
        let theme = preset.build();
        assert!(
            theme.style_for_capture("keyword").is_some(),
            "{} has no captures",
            preset.id
        );
        assert_eq!(find_preset(preset.id).map(|p| p.id), Some(preset.id));
    }
}

#[test]
fn light_and_dark_differ_on_every_surface_role() {
    let (d, l) = (UiColors::dark(), UiColors::light());
    assert_ne!(d.bg, l.bg);
    assert_ne!(d.panel_bg, l.panel_bg);
    assert_ne!(d.text, l.text);
    assert_ne!(d.status_bg, l.status_bg);
}

#[test]
fn hover_colors_follow_the_interface_palette() {
    let dark = Theme::ansi_dark();
    assert_eq!(dark.markdown_link_hover_bg(), Color::DarkGrey);
    assert_eq!(dark.markdown_link_hover_selected_bg(), Color::Grey);
    let sepia = Theme::gargo_sepia();
    assert_eq!(sepia.markdown_link_hover_bg(), UiColors::sepia().selected_bg);
    assert_eq!(sepia.markdown_link_hover_selected_bg(), UiColors::sepia().accent);
    assert_eq!(channels(rgb(1, 2, 3)), Some((1, 2, 3)));
    assert_eq!(channels(Color::Cyan), None);
    assert_eq!(UiColors::default(), UiColors::dark());
}

fn capture(fg: Option<&str>, bold: Option<bool>, italic: Option<bool>) -> ThemeCaptureConfig {
    ThemeCaptureConfig { fg: fg.map(|s| s.to_string()), bold, italic }
}

#[test]
fn unknown_preset_falls_back_to_the_default() {
    let cfg = ThemeConfig { preset: "no_such_preset".to_string(), ..ThemeConfig::default() };
    let theme = Theme::from_config(&cfg);
    assert_eq!(theme.style_for_capture("keyword").and_then(|s| s.fg), Some(Color::Magenta));
}

#[test]
fn from_config_applies_preset_and_capture_overrides() {
    let cfg = ThemeConfig {
        preset: "ansi_light".to_string(),
        captures: vec![
            ("keyword".to_string(), capture(Some("#112233"), Some(false), None)),
            ("comment".to_string(), capture(Some("dark_grey"), None, Some(false))),
            ("custom.capture".to_string(), capture(Some("red"), Some(true), Some(true))),
            ("bad.color".to_string(), capture(Some("not_a_color"), None, None)),
        ],
        ui: ThemeUiConfig {
            markdown_link_hover_bg: Some("#121314".to_string()),
            markdown_link_hover_selected_bg: Some("grey".to_string()),
            ..ThemeUiConfig::default()
        },
    };
    let theme = Theme::from_config(&cfg);
    let keyword = theme.style_for_capture("keyword").unwrap();
    assert_eq!(keyword.fg, Some(Color::Rgb { r: 0x11, g: 0x22, b: 0x33 }));
    assert!(!keyword.bold);

    let comment = theme.style_for_capture("comment").unwrap();
    assert_eq!(comment.fg, Some(Color::DarkGrey));
    assert!(!comment.italic);

    let custom = theme.style_for_capture("custom.capture").unwrap();
    assert_eq!(custom.fg, Some(Color::Red));
    assert!(custom.bold);
    assert!(custom.italic);

    assert!(theme.style_for_capture("bad.color").is_some());
    assert_eq!(theme.style_for_capture("bad.color").unwrap().fg, None);
    assert_eq!(theme.markdown_link_hover_bg(), Color::Rgb { r: 0x12, g: 0x13, b: 0x14 });
    assert_eq!(theme.markdown_link_hover_selected_bg(), Color::Grey);
}

#[test]
fn from_config_falls_back_to_default_for_invalid_preset() {
    let cfg = ThemeConfig {
        preset: "unknown".to_string(),
        captures: vec![("keyword".to_string(), capture(Some("white"), None, None))],
        ..ThemeConfig::default()
    };
    let theme = Theme::from_config(&cfg);
    let keyword = theme.style_for_capture("keyword").unwrap();
    assert_eq!(keyword.fg, Some(Color::White));
}

#[test]
fn from_config_keeps_hover_defaults_for_invalid_ui_colors() {
    let cfg = ThemeConfig {
        preset: "ansi_dark".to_string(),
        ui: ThemeUiConfig {
            markdown_link_hover_bg: Some("not-a-color".to_string()),
            markdown_link_hover_selected_bg: Some("also-not-a-color".to_string()),
            ..ThemeUiConfig::default()
        },
        ..ThemeConfig::default()
    };
    let theme = Theme::from_config(&cfg);
    assert_eq!(theme.markdown_link_hover_bg(), Color::DarkGrey);
    assert_eq!(theme.markdown_link_hover_selected_bg(), Color::Grey);
}

#[test]
fn from_config_applies_ui_role_overrides() {
    let cfg = ThemeConfig {
        preset: "gargo_dark".to_string(),
        ui: ThemeUiConfig {
            accent: Some("#ff0000".to_string()),
            git_added: Some("#00ff00".to_string()),
            error: Some("bad".to_string()),
            ..ThemeUiConfig::default()
        },
        ..ThemeConfig::default()
    };
    let theme = Theme::from_config(&cfg);
    let base = Theme::gargo_dark();
    assert_eq!(theme.ui.accent, Color::Rgb { r: 0xff, g: 0, b: 0 });
    assert_eq!(theme.ui.git_added, Color::Rgb { r: 0, g: 0xff, b: 0 });
    assert_eq!(theme.ui.error, base.ui.error);
    assert_eq!(theme.ui.bg, base.ui.bg);
    // Roles derived from `git_added` (the gutter marks) are blended from it
    // where the theme is drawn; they see the overridden colour.
    assert_eq!(
        theme.ui,
        UiColors {
            accent: Color::Rgb { r: 0xff, g: 0, b: 0 },
            git_added: Color::Rgb { r: 0, g: 0xff, b: 0 },
            ..base.ui
        }
    );
}

#[test]
fn colours_parse_by_hex_or_name() {
    assert_eq!(parse_color("#ff8000"), Some(Color::Rgb { r: 255, g: 128, b: 0 }));
    assert_eq!(parse_color("#FFfFfF"), Some(Color::Rgb { r: 255, g: 255, b: 255 }));
    // `u8::from_str_radix` takes a leading `+` in each pair.
    assert_eq!(parse_color("#+f0a+1"), Some(Color::Rgb { r: 15, g: 10, b: 1 }));
    assert_eq!(parse_color("#gg0000"), None);
    assert_eq!(parse_color("#ééé"), None);
    assert_eq!(parse_color("#12345"), None);
    assert_eq!(parse_color("  Dark-Magenta "), Some(Color::DarkMagenta));
    assert_eq!(parse_color("GREY"), Some(Color::Grey));
    assert_eq!(parse_color("purple"), None);
}

#[test]
fn preset_names_normalize_to_ids() {
    assert_eq!(normalize_preset_name(" Gargo-Dark "), "gargo_dark");
    assert_eq!(normalize_preset_name("dark"), "ansi_dark");
    assert_eq!(normalize_preset_name("LIGHT"), "ansi_light");
    assert_eq!(normalize_preset_name("nope"), "");
}
