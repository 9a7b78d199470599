//! Events passed between the services.
use vstd::prelude::*;

verus! {

/// How a configuration edit can be applied.
#[derive(Debug, Clone)]
pub enum ConfigChangeType {
    /// Only curves, mappings, colors or timing changed.
    HotReload,
    /// The named hardware sections changed; a restart is needed.
    ColdRestart { changed_sections: Vec<String> },
}

/// A message on the event bus. Temperatures are in thousandths of a degree.
#[derive(Debug, Clone)]
pub enum Event {
    ConfigChangeDetected(ConfigChangeType),
    SystemShutdown,
    TemperatureChanged(Vec<(String, i32)>),
    ColorChanged,
}

} // verus!
