//! Command-line options of the service.
use vstd::prelude::*;

verus! {

/// Options of the service: an optional configuration path, and whether to
/// detach into the background.
#[derive(Debug, Clone)]
pub struct Cli {
    pub config: Option<String>,
    pub daemonize: bool,
}

impl Cli {
    /// Options with the given configuration path and detach flag.
    pub fn new(config: Option<String>, daemonize: bool) -> (r: Cli)
        ensures
            r.config == config,
            r.daemonize == daemonize,
    {
        Cli { config, daemonize }
    }
}

} // verus!
