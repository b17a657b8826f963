//! The Muaaz OS brand identity.
use vstd::prelude::*;

verus! {

/// Human-readable product name.
pub const NAME: &'static str = "Muaaz OS";

/// Product tagline.
pub const TAGLINE: &'static str = "Build. Create. Explore.";

/// Reverse-domain application id.
pub const APP_ID: &'static str = "org.muaaz.desktop";

/// Early desktop version.
pub const VERSION: &'static str = "0.1";

} // verus!
