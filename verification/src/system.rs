//! The system services a desktop needs, in one value.
use vstd::prelude::*;

use crate::apps::{App, LinuxAppRegistry};
use crate::battery::LinuxBatteryProvider;
use crate::cpu::{sample_or_zero, CpuProvider};
use crate::info::LinuxSystemInfo;
use crate::memory::LinuxMemoryProvider;

verus! {

/// A small façade over the system services a desktop needs.
///
/// Holding one value of this type is easier for the UI to manage than
/// juggling several independent providers, and it keeps the provider
/// wiring (which file to read, which process to spawn) out of the UI.
pub struct MuaazSystem {
    /// Static information about the host.
    pub info: LinuxSystemInfo,
    /// CPU usage over time.
    pub cpu: CpuProvider,
    /// Memory information.
    pub memory: LinuxMemoryProvider,
    /// Battery state (no-op on machines without a battery).
    pub battery: LinuxBatteryProvider,
    /// Registered desktop applications.
    pub apps: LinuxAppRegistry,
}

impl MuaazSystem {
    /// Creates the default set of system services: a CPU provider whose
    /// baseline is the sample in `stat_contents`, the text of `/proc/stat`
    /// (empty when it cannot be read), and an empty application registry.
    pub fn new(stat_contents: &str) -> (s: MuaazSystem)
        ensures
            s.cpu@ == sample_or_zero(stat_contents@),
            s.apps@ == Seq::<App>::empty(),
    {
        MuaazSystem {
            info: LinuxSystemInfo,
            cpu: CpuProvider::new(stat_contents),
            memory: LinuxMemoryProvider,
            battery: LinuxBatteryProvider,
            apps: LinuxAppRegistry::new(),
        }
    }
}

} // verus!
