//! The configuration the core reads: an optional default destination.
//!
//! Loading and saving the durable form live with the caller; the core
//! only consumes the value.

use vstd::prelude::*;

verus! {

/// The in-memory configuration: where a volume without a marker file of
/// its own should be copied, if anywhere.
pub struct Config {
    pub destination: Option<String>,
}

impl Config {
    /// A configuration with the given default destination.
    pub fn new(destination: Option<String>) -> (c: Config)
        ensures
            c.destination.deep_view() == destination.deep_view(),
    {
        Config { destination }
    }
}

impl Default for Config {
    /// The configuration before anything was saved: no default
    /// destination.
    fn default() -> (c: Config)
        ensures
            c.destination is None,
    {
        Config { destination: None }
    }
}

} // verus!
