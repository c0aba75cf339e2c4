//! What a host senses.

use vstd::prelude::*;

pub mod process;

verus! {

/// How a sensor runs.
#[derive(Clone, Copy, Debug, PartialEq, Eq, Structural)]
pub struct SensorConfig {
    /// How long to sense, in seconds.
    pub duration_secs: u64,
}

} // verus!
