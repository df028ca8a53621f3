//! Kernel bring-up and shutdown entry points.

use vstd::prelude::*;

verus! {

/// Boot-time settings.
pub struct KernelConfig {
    pub boot_message: String,
}

impl KernelConfig {
    /// The default boot banner.
    pub fn new() -> (r: KernelConfig)
        ensures
            r.boot_message@ == "LucAstra kernel online"@,
    {
        KernelConfig { boot_message: "LucAstra kernel online".to_owned() }
    }
}

/// Brings the kernel up; with no compatibility layer compiled in, booting
/// only acknowledges the configuration.
pub fn boot(config: KernelConfig) -> (r: KernelConfig)
    ensures
        r == config,
{
    config
}

/// Brings the kernel down; nothing is held open in this build.
pub fn shutdown() {
}

} // verus!
