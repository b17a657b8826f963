use muaaz::ui::style::WIDGET_STYLESHEET;
use muaaz::ui::theme;
use muaaz::{palette_definitions, MuaazCss, NamedColor, Spacing};

#[test]
fn scale_is_ordered() {
    assert!(Spacing::XS < Spacing::SM);
    assert!(Spacing::SM < Spacing::MD);
    assert!(Spacing::MD < Spacing::LG);
    assert!(Spacing::LG < Spacing::XL);
    assert!(Spacing::XL < Spacing::XXL);
    assert!(Spacing::XXL < Spacing::XXXL);
    assert!(Spacing::XXXL < Spacing::HUGE);
    assert!(Spacing::HUGE < Spacing::MASSIVE);
}

#[test]
fn spacing_px() {
    assert_eq!(Spacing(Spacing::LG).px(), 16);
}

#[test]
fn palette_definitions_contains_all_entries() {
    let defs = palette_definitions();
    for (name, _) in theme::ALL {
        assert!(
            defs.contains(&format!("muaaz_{name}")),
            "missing definition for {name}"
        );
    }
}

#[test]
fn palette_definitions_text() {
    let defs = palette_definitions();
    assert!(defs.starts_with("/* Generated from crate::theme \u{2014} keep colors in sync */\n@define-color muaaz_bg_base #0f1115;\n"));
    assert!(defs.ends_with("@define-color muaaz_focus #4da3ff;\n"));
    assert_eq!(defs.lines().count(), 20);
}

#[test]
fn stylesheet_is_palette_then_widgets() {
    let css = MuaazCss::as_owned_string();
    assert_eq!(css, palette_definitions() + WIDGET_STYLESHEET);
}

#[test]
fn named_colors_are_palette_colors() {
    assert_eq!(NamedColor::accent(), NamedColor(theme::ACCENT));
    assert_eq!(NamedColor::surface().0, "#1d232b");
    assert_eq!(NamedColor::text_primary().0, theme::TEXT_PRIMARY);
    assert_eq!(NamedColor::text_secondary().0, theme::TEXT_SECONDARY);
}

#[test]
fn palette_categories_are_unique_names() {
    let mut names: Vec<&str> = theme::ALL.iter().map(|(n, _)| *n).collect();
    names.sort_unstable();
    names.dedup();
    assert_eq!(names.len(), theme::ALL.len(), "duplicate palette names");
}

#[test]
fn palette_colors_are_valid_hex() {
    for (_, color) in theme::ALL {
        assert_eq!(color.len(), 7, "color {color} should be #rrggbb");
        assert!(color.starts_with('#'));
    }
}
