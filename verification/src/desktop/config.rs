//! Desktop-level configuration.
//!
//! Configuration lives in one place so the desktop behaves the same on
//! every machine.
use vstd::prelude::*;

use crate::text::{chars_of, string_of};

verus! {

/// Desktop configuration for Muaaz Desktop.
#[derive(Debug)]
pub struct DesktopConfig {
    /// Initial window width in pixels.
    pub window_width: i32,
    /// Initial window height in pixels.
    pub window_height: i32,
    /// Minimum window width in pixels.
    pub min_window_width: i32,
    /// Minimum window height in pixels.
    pub min_window_height: i32,
    /// How often the clock refreshes, in seconds.
    pub clock_interval_secs: u32,
    /// How often system status refreshes, in seconds.
    pub status_interval_secs: u32,
    /// Number of shortcut columns at most, before FlowBox wraps.
    pub shortcut_max_columns: u32,
    /// Product version shown in the welcome section.
    pub version: String,
}

/// The values of the default configuration.
pub open spec fn is_default_config(c: DesktopConfig) -> bool {
    &&& c.window_width == 1180
    &&& c.window_height == 760
    &&& c.min_window_width == 720
    &&& c.min_window_height == 480
    &&& c.clock_interval_secs == 1
    &&& c.status_interval_secs == 2
    &&& c.shortcut_max_columns == 5
    &&& c.version@ == "0.1"@
}

/// A configuration the desktop can run with: the initial window is no
/// smaller than the minimum one, the clock refreshes at least every
/// second's interval and at least one shortcut column is shown.
pub open spec fn is_sane_config(c: DesktopConfig) -> bool {
    &&& c.window_width >= c.min_window_width
    &&& c.window_height >= c.min_window_height
    &&& c.clock_interval_secs >= 1
    &&& c.shortcut_max_columns >= 1
}

impl Default for DesktopConfig {
    fn default() -> (c: Self)
        ensures
            is_default_config(c),
    {
        DesktopConfig {
            window_width: 1180,
            window_height: 760,
            min_window_width: 720,
            min_window_height: 480,
            clock_interval_secs: 1,
            status_interval_secs: 2,
            shortcut_max_columns: 5,
            version: string_of(&chars_of("0.1")),
        }
    }
}

impl Clone for DesktopConfig {
    fn clone(&self) -> (r: Self)
        ensures
            r == *self,
    {
        DesktopConfig {
            window_width: self.window_width,
            window_height: self.window_height,
            min_window_width: self.min_window_width,
            min_window_height: self.min_window_height,
            clock_interval_secs: self.clock_interval_secs,
            status_interval_secs: self.status_interval_secs,
            shortcut_max_columns: self.shortcut_max_columns,
            version: self.version.clone(),
        }
    }
}

impl DesktopConfig {
    /// Loads the desktop configuration: the compile-time defaults.
    pub fn load() -> (c: Self)
        ensures
            is_default_config(c),
            is_sane_config(c),
    {
        Self::default()
    }
}

/// The default configuration is one the desktop can run with.
pub proof fn law_default_config_is_sane(c: DesktopConfig)
    requires
        is_default_config(c),
    ensures
        is_sane_config(c),
{
}

} // verus!
