//! The Muaaz OS central stylesheet.
//!
//! The stylesheet is built from the [`crate::ui::theme`] palette so that
//! the named colors defined in Rust and the CSS `@define-color` variables
//! never drift apart. The widget rules reference those variables by name.
use vstd::prelude::*;

use crate::text::{contains_seq, extend_chars, lemma_occurs_between, string_of};
use crate::ui::theme;

verus! {

/// The comment that opens the palette definitions.
pub const PALETTE_HEADER: &'static str = "/* Generated from crate::theme \u{2014} keep colors in sync */\n";

/// The `@define-color` line of palette entry `name` with color `value`.
pub open spec fn palette_line(name: Seq<char>, value: Seq<char>) -> Seq<char> {
    "@define-color "@ + "muaaz_"@ + name + " "@ + value + ";\n"@
}

/// The `@define-color` lines of `entries`, in order.
pub open spec fn palette_text(entries: Seq<(Seq<char>, Seq<char>)>) -> Seq<char>
    decreases entries.len(),
{
    if entries.len() == 0 {
        Seq::empty()
    } else {
        palette_text(entries.drop_last()) + palette_line(entries.last().0, entries.last().1)
    }
}

/// The palette as names and colors.
pub open spec fn palette_entries() -> Seq<(Seq<char>, Seq<char>)> {
    theme::ALL@.map_values(|e: (&'static str, &'static str)| (e.0@, e.1@))
}

/// The text of [`palette_definitions`].
pub open spec fn palette_definitions_text() -> Seq<char> {
    PALETTE_HEADER@ + palette_text(palette_entries())
}

/// Definitions of the `@define-color` variables used by the stylesheet.
///
/// Each palette entry is emitted as a GTK color variable. Widgets reference
/// these names (e.g. `@muaaz_accent`) instead of raw hex values.
pub fn palette_definitions() -> (s: String)
    ensures
        s@ == palette_definitions_text(),
{
    let mut out: Vec<char> = Vec::new();
    extend_chars(&mut out, PALETTE_HEADER);
    let ghost es = palette_entries();
    let n: usize = 19;
    assert(es.len() == n);
    for i in 0..n
        invariant
            n == es.len(),
            es == palette_entries(),
            out@ == PALETTE_HEADER@ + palette_text(es.take(i as int)),
    {
        let (name, value) = theme::ALL[i];
        assert(es[i as int] == (name@, value@));
        assert(es.take(i + 1).drop_last() =~= es.take(i as int));
        extend_chars(&mut out, "@define-color ");
        extend_chars(&mut out, "muaaz_");
        extend_chars(&mut out, name);
        extend_chars(&mut out, " ");
        extend_chars(&mut out, value);
        extend_chars(&mut out, ";\n");
        assert(out@ =~= PALETTE_HEADER@ + palette_text(es.take(i + 1)));
    }
    assert(es.take(n as int) =~= es);
    string_of(&out)
}

proof fn lemma_palette_text_concat(a: Seq<(Seq<char>, Seq<char>)>, b: Seq<(Seq<char>, Seq<char>)>)
    ensures
        palette_text(a + b) == palette_text(a) + palette_text(b),
    decreases b.len(),
{
    if b.len() == 0 {
        assert(a + b =~= a);
        assert(palette_text(a) + palette_text(b) =~= palette_text(a));
    } else {
        lemma_palette_text_concat(a, b.drop_last());
        assert((a + b).drop_last() =~= a + b.drop_last());
        assert((a + b).last() == b.last());
        assert(palette_text(a + b) =~= palette_text(a) + palette_text(b));
    }
}

/// Every palette entry gets a definition: the variable `muaaz_{name}` of
/// each entry occurs in the palette text.
pub proof fn law_palette_defines_every_name(entries: Seq<(Seq<char>, Seq<char>)>, i: int)
    requires
        0 <= i < entries.len(),
    ensures
        contains_seq(palette_text(entries), "muaaz_"@ + entries[i].0),
{
    let head = entries.take(i + 1);
    let tail = entries.skip(i + 1);
    assert(head + tail =~= entries);
    lemma_palette_text_concat(head, tail);
    assert(head.drop_last() =~= entries.take(i));
    let name = entries[i].0;
    let a = palette_text(entries.take(i)) + "@define-color "@;
    let b = "muaaz_"@ + name;
    let c = " "@ + entries[i].1 + ";\n"@ + palette_text(tail);
    assert(palette_text(entries) =~= a + b + c);
    lemma_occurs_between(a, b, c);
}

/// The palette's entries are those of [`theme::ALL`], in order: each pairs
/// an entry's own name with its own color.
pub proof fn law_palette_entries_are_theme_entries()
    ensures
        palette_entries().len() == theme::ALL@.len(),
        forall|i: int|
            0 <= i < theme::ALL@.len() ==> #[trigger] palette_entries()[i] == (
                theme::ALL@[i].0@,
                theme::ALL@[i].1@,
            ),
{
}

/// The palette definitions start with their header and define, for each
/// entry of [`theme::ALL`], the variable `muaaz_{name}` as that entry's own
/// color.
pub proof fn law_palette_definitions_give_each_color(i: int)
    requires
        0 <= i < theme::ALL@.len(),
    ensures
        palette_definitions_text().take(PALETTE_HEADER@.len() as int) == PALETTE_HEADER@,
        contains_seq(
            palette_definitions_text(),
            "@define-color "@ + "muaaz_"@ + theme::ALL@[i].0@ + " "@ + theme::ALL@[i].1@ + ";\n"@,
        ),
{
    let entries = palette_entries();
    law_palette_entries_are_theme_entries();
    let head = entries.take(i + 1);
    let tail = entries.skip(i + 1);
    assert(head + tail =~= entries);
    lemma_palette_text_concat(head, tail);
    assert(head.drop_last() =~= entries.take(i));
    let line = "@define-color "@ + "muaaz_"@ + theme::ALL@[i].0@ + " "@ + theme::ALL@[i].1@ + ";\n"@;
    let a = PALETTE_HEADER@ + palette_text(entries.take(i));
    let c = palette_text(tail);
    assert(head.last() == entries[i]);
    assert(palette_definitions_text() =~= a + line + c);
    lemma_occurs_between(a, line, c);
    assert(palette_definitions_text().take(PALETTE_HEADER@.len() as int) =~= PALETTE_HEADER@);
}

/// Builds the full Muaaz stylesheet as a string.
///
/// This is produced once at startup and handed to GTK. Keeping it as a
/// single block makes the theme auditable and easy to override later.
#[derive(Debug, Clone, Copy)]
pub struct MuaazCss;

impl MuaazCss {
    /// Returns the complete stylesheet text: palette definitions followed
    /// by the widget stylesheet.
    pub fn as_owned_string() -> (s: String)
        ensures
            s@ == palette_definitions_text() + WIDGET_STYLESHEET@,
    {
        let mut css: Vec<char> = crate::text::chars_of(palette_definitions().as_str());
        extend_chars(&mut css, WIDGET_STYLESHEET);
        string_of(&css)
    }
}

/// A small typed wrapper over a palette color so UI code can ask for a color
/// without hard-coding hex values.
#[derive(Debug, Clone, Copy, PartialEq, Eq)]
pub struct NamedColor(pub &'static str);

impl NamedColor {
    /// Primary brand accent.
    pub fn accent() -> (c: Self)
        ensures
            c == NamedColor(theme::ACCENT),
    {
        NamedColor(theme::ACCENT)
    }

    /// Primary text color.
    pub fn text_primary() -> (c: Self)
        ensures
            c == NamedColor(theme::TEXT_PRIMARY),
    {
        NamedColor(theme::TEXT_PRIMARY)
    }

    /// Secondary text color.
    pub fn text_secondary() -> (c: Self)
        ensures
            c == NamedColor(theme::TEXT_SECONDARY),
    {
        NamedColor(theme::TEXT_SECONDARY)
    }

    /// Surface background.
    pub fn surface() -> (c: Self)
        ensures
            c == NamedColor(theme::BG_SURFACE),
    {
        NamedColor(theme::BG_SURFACE)
    }
}

/// The widget rules of the stylesheet. They reference the palette through
/// its `@muaaz_*` variables and keep to the 4 px spacing grid.
pub const WIDGET_STYLESHEET: &'static str = "
window.muaaz-window {
    background-color: @muaaz_bg_base;
    color: @muaaz_text_primary;
}

.muaaz-root {
    background-color: @muaaz_bg_base;
}

.muaaz-panel {
    background-color: @muaaz_bg_raised;
    border-bottom: 1px solid @muaaz_border_subtle;
    padding: 4px 12px;
    min-height: 32px;
}

.muaaz-panel-button {
    color: @muaaz_text_primary;
    border-radius: 8px;
    padding: 4px 8px;
}

.muaaz-panel-button:hover {
    background-color: @muaaz_bg_surface_hover;
}

.muaaz-panel-label,
.muaaz-clock {
    color: @muaaz_text_secondary;
    font-weight: 600;
}

.muaaz-panel-separator {
    background-color: @muaaz_border;
    min-width: 1px;
    margin: 8px 0;
}

.muaaz-brand-mark {
    color: @muaaz_accent;
    font-weight: 800;
    letter-spacing: 1px;
}

.muaaz-launcher {
    background-color: @muaaz_bg_surface;
    border-radius: 12px;
}

.muaaz-launcher-search {
    margin: 8px;
}

.muaaz-launcher-row {
    padding: 8px 12px;
    border-radius: 8px;
}

.muaaz-launcher-row:hover,
.muaaz-launcher-row:focus {
    background-color: @muaaz_bg_highlight;
}

.muaaz-launcher-row-title {
    color: @muaaz_text_primary;
    font-weight: 600;
}

.muaaz-launcher-row-desc {
    color: @muaaz_text_secondary;
    font-size: 0.9em;
}

.muaaz-welcome-title {
    font-size: 48px;
    font-weight: 800;
    color: @muaaz_text_primary;
}

.muaaz-welcome-subtitle {
    font-size: 16px;
    color: @muaaz_text_secondary;
}

.muaaz-welcome-chip {
    background-color: @muaaz_accent_soft;
    color: @muaaz_accent;
    border-radius: 16px;
    padding: 4px 12px;
}

.muaaz-welcome-hint {
    color: @muaaz_text_muted;
}

.muaaz-section-kicker {
    color: @muaaz_accent;
    font-size: 12px;
    font-weight: 700;
    letter-spacing: 2px;
}

.muaaz-shortcut {
    background-color: @muaaz_bg_surface;
    border: 1px solid @muaaz_border;
    border-radius: 12px;
    padding: 16px;
    min-width: 160px;
}

.muaaz-shortcut:hover {
    background-color: @muaaz_bg_surface_hover;
}

.muaaz-shortcut:active {
    background-color: @muaaz_bg_surface_active;
}

.muaaz-shortcut:focus-visible {
    outline: 2px solid @muaaz_focus;
}

.muaaz-shortcut-icon {
    color: @muaaz_accent;
}

.muaaz-shortcut-title {
    color: @muaaz_text_primary;
    font-weight: 700;
}

.muaaz-shortcut-desc {
    color: @muaaz_text_secondary;
}

.muaaz-shortcut-status {
    color: @muaaz_status_success;
    font-size: 12px;
}

.muaaz-accent-button {
    background-color: @muaaz_accent;
    color: @muaaz_bg_base;
    border-radius: 8px;
    padding: 8px 16px;
}

.muaaz-accent-button:hover {
    background-color: @muaaz_accent_hover;
}

.muaaz-accent-button:active {
    background-color: @muaaz_accent_active;
}

.muaaz-outline-button {
    border: 1px solid @muaaz_border;
    color: @muaaz_text_primary;
    border-radius: 8px;
    padding: 8px 16px;
}

.muaaz-card {
    background-color: @muaaz_bg_surface;
    border: 1px solid @muaaz_border_subtle;
    border-radius: 12px;
    padding: 16px;
}

.muaaz-status-error {
    color: @muaaz_status_error;
}

.muaaz-status-warning {
    color: @muaaz_status_warning;
}
";

} // verus!
