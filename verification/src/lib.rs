//! Verified core of the Muaaz desktop shell: application identifiers and
//! the application registry, the parsers for the Linux `/proc` and `/sys`
//! files the shell reads, the desktop's decisions (what activating an
//! application does, what the launcher search shows, what the panel
//! prints), and the design system's palette and stylesheet.

pub mod app_id;
pub mod apps;
pub mod battery;
pub mod cpu;
pub mod desktop;
pub mod error;
pub mod info;
pub mod memory;
pub mod system;
pub mod text;
pub mod ui;

pub use app_id::AppId;
pub use apps::{App, AppCategory, AppKind, LaunchError, LaunchRequest, LinuxAppRegistry};
pub use battery::{BatteryState, BatteryStateInfo, LinuxBatteryProvider, PowerSupply};
pub use cpu::{CpuProvider, CpuSample};
pub use desktop::config::DesktopConfig;
pub use error::SystemError;
pub use info::{LinuxSystemInfo, SystemInfo};
pub use memory::{LinuxMemoryProvider, MemoryInfo};
pub use system::MuaazSystem;
pub use ui::spacing::Spacing;
pub use ui::style::{palette_definitions, MuaazCss, NamedColor};
