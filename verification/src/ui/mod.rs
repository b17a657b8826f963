//! The Muaaz design system: colors, spacing and the stylesheet.
//!
//! UI code never hard-codes colors or spacing. It references the palette
//! and spacing constants defined here, and widgets carry semantic CSS
//! class names (`.muaaz-*`) that map to this theme.
pub mod spacing;
pub mod style;
pub mod theme;
