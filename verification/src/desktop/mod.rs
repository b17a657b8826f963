//! The desktop shell's configuration and its decisions: what activating
//! an application does, what the launcher search shows, what the panel
//! prints and which applications the desktop offers.
pub mod config;

pub mod shell;
