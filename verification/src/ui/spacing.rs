//! The Muaaz spacing scale.
//!
//! Spacing values are multiples of a 4 px grid, which keeps layouts
//! horizontally and vertically consistent across the desktop.
use vstd::prelude::*;

verus! {

/// The Muaaz spacing scale, in pixels, as a multiple of four.
#[derive(Debug, Clone, Copy, PartialEq, Eq, Structural)]
pub struct Spacing(pub u32);

impl Spacing {
    pub const XS: u32 = 4;

    pub const SM: u32 = 8;

    pub const MD: u32 = 12;

    pub const LG: u32 = 16;

    pub const XL: u32 = 24;

    pub const XXL: u32 = 32;

    pub const XXXL: u32 = 48;

    pub const HUGE: u32 = 64;

    pub const MASSIVE: u32 = 96;

    /// Returns the value in pixels.
    pub fn px(self) -> (r: u32)
        ensures
            r == self.0,
    {
        self.0
    }
}

/// The steps of the scale grow strictly and each is a multiple of four.
pub proof fn law_spacing_scale()
    ensures
        Spacing::XS < Spacing::SM < Spacing::MD < Spacing::LG < Spacing::XL < Spacing::XXL
            < Spacing::XXXL < Spacing::HUGE < Spacing::MASSIVE,
        Spacing::XS % 4 == 0 && Spacing::SM % 4 == 0 && Spacing::MD % 4 == 0 && Spacing::LG % 4
            == 0 && Spacing::XL % 4 == 0 && Spacing::XXL % 4 == 0 && Spacing::XXXL % 4 == 0
            && Spacing::HUGE % 4 == 0 && Spacing::MASSIVE % 4 == 0,
{
}

} // verus!
