//! The Muaaz OS color palette.
//!
//! All colors are dark-first. UI code should reference these constants
//! rather than inventing values inline.
use vstd::prelude::*;

pub mod brand;

verus! {

/// Base window / desktop background.
pub const BG_BASE: &'static str = "#0f1115";

/// Slightly raised background for headers and panels.
pub const BG_RAISED: &'static str = "#161a20";

/// Card / widget surface background.
pub const BG_SURFACE: &'static str = "#1d232b";

/// Surface in its hover state.
pub const BG_SURFACE_HOVER: &'static str = "#242c36";

/// Surface in its pressed/active state.
pub const BG_SURFACE_ACTIVE: &'static str = "#2c3644";

/// Emphasised highlight surface (selected items).
pub const BG_HIGHLIGHT: &'static str = "#232f3f";

/// Primary brand accent.
pub const ACCENT: &'static str = "#4da3ff";

/// Accent in its hover state.
pub const ACCENT_HOVER: &'static str = "#6fb6ff";

/// Accent in its pressed/active state.
pub const ACCENT_ACTIVE: &'static str = "#2f8bf9";

/// Subtle accent-tinted background for badges and highlights.
pub const ACCENT_SOFT: &'static str = "#10233d";

/// Primary text color.
pub const TEXT_PRIMARY: &'static str = "#e8edf2";

/// Secondary text color (descriptions, metadata).
pub const TEXT_SECONDARY: &'static str = "#9aa4b2";

/// Muted / tertiary text color (placeholders, hints).
pub const TEXT_MUTED: &'static str = "#5c6875";

/// Default widget border.
pub const BORDER: &'static str = "#2a323d";

/// Fainter border for subtle dividers.
pub const BORDER_SUBTLE: &'static str = "#222933";

/// Semantic status colors.
pub const STATUS_SUCCESS: &'static str = "#46c384";

pub const STATUS_WARNING: &'static str = "#e0b028";

pub const STATUS_ERROR: &'static str = "#f2645a";

/// Focus ring color.
pub const FOCUS: &'static str = "#4da3ff";

/// The complete set of named colors in the palette.
pub const ALL: [(&'static str, &'static str); 19] = [
    ("bg_base", BG_BASE),
    ("bg_raised", BG_RAISED),
    ("bg_surface", BG_SURFACE),
    ("bg_surface_hover", BG_SURFACE_HOVER),
    ("bg_surface_active", BG_SURFACE_ACTIVE),
    ("bg_highlight", BG_HIGHLIGHT),
    ("accent", ACCENT),
    ("accent_hover", ACCENT_HOVER),
    ("accent_active", ACCENT_ACTIVE),
    ("accent_soft", ACCENT_SOFT),
    ("text_primary", TEXT_PRIMARY),
    ("text_secondary", TEXT_SECONDARY),
    ("text_muted", TEXT_MUTED),
    ("border", BORDER),
    ("border_subtle", BORDER_SUBTLE),
    ("status_success", STATUS_SUCCESS),
    ("status_warning", STATUS_WARNING),
    ("status_error", STATUS_ERROR),
    ("focus", FOCUS),
];


/// The palette's colors, as given by [`ALL`].
pub open spec fn palette() -> Seq<(&'static str, &'static str)> {
    ALL@
}

/// Every palette color is written `#rrggbb`: seven characters, the first
/// of them `#`.
pub proof fn law_palette_colors_are_hex()
    ensures
        forall|i: int|
            0 <= i < palette().len() ==> (#[trigger] palette()[i]).1@.len() == 7
                && palette()[i].1@[0] == '#',
{
    reveal_strlit("#0f1115");
    reveal_strlit("#10233d");
    reveal_strlit("#161a20");
    reveal_strlit("#1d232b");
    reveal_strlit("#222933");
    reveal_strlit("#232f3f");
    reveal_strlit("#242c36");
    reveal_strlit("#2a323d");
    reveal_strlit("#2c3644");
    reveal_strlit("#2f8bf9");
    reveal_strlit("#46c384");
    reveal_strlit("#4da3ff");
    reveal_strlit("#5c6875");
    reveal_strlit("#6fb6ff");
    reveal_strlit("#9aa4b2");
    reveal_strlit("#e0b028");
    reveal_strlit("#e8edf2");
    reveal_strlit("#f2645a");
}

/// Length, first and eighth character of a palette name: enough to tell
/// the palette's names apart.
spec fn name_key(s: Seq<char>) -> (nat, char, char) {
    (
        s.len(),
        s[0],
        if s.len() > 7 {
            s[7]
        } else {
            ' '
        },
    )
}

/// No two palette entries share a name.
pub proof fn law_palette_names_unique()
    ensures
        forall|i: int, j: int|
            0 <= i < j < palette().len() ==> (#[trigger] palette()[i]).0@ != (
            #[trigger] palette()[j]).0@,
{
    reveal_strlit("bg_base");
    reveal_strlit("bg_raised");
    reveal_strlit("bg_surface");
    reveal_strlit("bg_surface_hover");
    reveal_strlit("bg_surface_active");
    reveal_strlit("bg_highlight");
    reveal_strlit("accent");
    reveal_strlit("accent_hover");
    reveal_strlit("accent_active");
    reveal_strlit("accent_soft");
    reveal_strlit("text_primary");
    reveal_strlit("text_secondary");
    reveal_strlit("text_muted");
    reveal_strlit("border");
    reveal_strlit("border_subtle");
    reveal_strlit("status_success");
    reveal_strlit("status_warning");
    reveal_strlit("status_error");
    reveal_strlit("focus");
    assert(name_key(palette()[0].0@) == (7nat, 'b', ' '));
    assert(name_key(palette()[1].0@) == (9nat, 'b', 'e'));
    assert(name_key(palette()[2].0@) == (10nat, 'b', 'a'));
    assert(name_key(palette()[3].0@) == (16nat, 'b', 'a'));
    assert(name_key(palette()[4].0@) == (17nat, 'b', 'a'));
    assert(name_key(palette()[5].0@) == (12nat, 'b', 'l'));
    assert(name_key(palette()[6].0@) == (6nat, 'a', ' '));
    assert(name_key(palette()[7].0@) == (12nat, 'a', 'h'));
    assert(name_key(palette()[8].0@) == (13nat, 'a', 'a'));
    assert(name_key(palette()[9].0@) == (11nat, 'a', 's'));
    assert(name_key(palette()[10].0@) == (12nat, 't', 'i'));
    assert(name_key(palette()[11].0@) == (14nat, 't', 'c'));
    assert(name_key(palette()[12].0@) == (10nat, 't', 't'));
    assert(name_key(palette()[13].0@) == (6nat, 'b', ' '));
    assert(name_key(palette()[14].0@) == (13nat, 'b', 's'));
    assert(name_key(palette()[15].0@) == (14nat, 's', 's'));
    assert(name_key(palette()[16].0@) == (14nat, 's', 'w'));
    assert(name_key(palette()[17].0@) == (12nat, 's', 'e'));
    assert(name_key(palette()[18].0@) == (5nat, 'f', ' '));
    assert forall|i: int, j: int| 0 <= i < j < palette().len() implies (#[trigger] palette()[i]).0@
        != (#[trigger] palette()[j]).0@ by {
        assert(name_key(palette()[i].0@) != name_key(palette()[j].0@));
    }
}

} // verus!
