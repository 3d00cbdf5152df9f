//! Driver configuration and the fixed limits of the driver.
use vstd::prelude::*;

verus! {

/// How many reads may wait for a quorum confirmation at a time.
pub const MAX_PENDING_READS: usize = 1024;

/// How many bytes a snapshot transfer may amount to.
pub const MAX_SNAPSHOT_INSTALL_BYTES: usize = 268435456;

/// How long a snapshot transfer may take, in milliseconds, unless configured
/// otherwise.
pub const DEFAULT_FETCH_SNAPSHOT_DEADLINE: u64 = 30000;

/// Configuration of the driver. Times are in milliseconds.
#[derive(Clone, Copy, Debug, PartialEq, Eq, Structural)]
pub struct DriverConfig {
    /// Cadence of the ticks fed to the engine.
    pub tick_interval: u64,
    /// Most entries returned in one fetch response.
    pub max_fetch_batch: usize,
    /// How long a graceful shutdown may drain.
    pub shutdown_drain_deadline: u64,
    /// How long one snapshot transfer may take.
    pub fetch_snapshot_deadline: u64,
}

impl Default for DriverConfig {
    fn default() -> (r: DriverConfig)
        ensures
            r.tick_interval == 10,
            r.max_fetch_batch == 64,
            r.shutdown_drain_deadline == 5000,
            r.fetch_snapshot_deadline == DEFAULT_FETCH_SNAPSHOT_DEADLINE,
    {
        DriverConfig {
            tick_interval: 10,
            max_fetch_batch: 64,
            shutdown_drain_deadline: 5000,
            fetch_snapshot_deadline: DEFAULT_FETCH_SNAPSHOT_DEADLINE,
        }
    }
}

/// Summary of a snapshot that an operator triggered.
#[derive(Clone, Copy, Debug, PartialEq, Eq, Structural)]
pub struct TriggeredSnapshotInfo {
    pub last_included_index: u64,
    pub last_included_term: u64,
    pub size_bytes: u64,
}

/// Direction of a counted fetch.
#[derive(Clone, Copy, Debug, PartialEq, Eq, Hash, Structural)]
pub enum FetchDirection {
    /// This node sent the fetch.
    Sent,
    /// This node received the fetch as leader.
    Received,
}

/// The limits of the driver: as many reads may wait as there are in a kibi, a transfer may bring a
/// quarter of a gibibyte, and it may take half a minute.
pub proof fn law_limits_are_fixed()
    ensures
        MAX_PENDING_READS == 1024,
        MAX_SNAPSHOT_INSTALL_BYTES == 256 * 1024 * 1024,
        DEFAULT_FETCH_SNAPSHOT_DEADLINE == 30 * 1000,
{
}

} // verus!
