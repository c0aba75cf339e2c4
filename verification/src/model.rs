//! What an agent sends to the collector.

use vstd::prelude::*;
use crate::sensors::process::report::ProcessInfo;
use crate::sensors::SensorConfig;
use crate::time::{current_time, Timestamp};

verus! {

/// One host at one point in time.
#[derive(Debug)]
pub struct SystemSnapshot {
    pub host_id: String,
    pub collected_at: Timestamp,
    pub processes: Vec<ProcessInfo>,
}

/// A snapshot of the given processes at the given time.
pub fn snapshot_at(
    host_id: String,
    collected_at: Timestamp,
    processes: Vec<ProcessInfo>,
) -> (r: SystemSnapshot)
    ensures
        r.host_id@ == host_id@,
        r.collected_at == collected_at,
        r.processes@ == processes@,
{
    SystemSnapshot { host_id, collected_at, processes }
}

/// A snapshot of the given processes, dated by the clock. The configuration has no
/// bearing on it.
pub fn build_process_snapshot(
    _cfg: &SensorConfig,
    host_id: String,
    processes: Vec<ProcessInfo>,
) -> (r: SystemSnapshot)
    ensures
        r.host_id@ == host_id@,
        r.processes@ == processes@,
        r.collected_at.valid(),
        r.collected_at.secs >= 0,
        r.collected_at.nanos < 1_000_000_000,
{
    snapshot_at(host_id, current_time(), processes)
}

} // verus!
