//! The shared telemetry state: the latest publication of each sampler and
//! the pause flag, copied in and out whole.

use vstd::prelude::*;
use crate::network::{NetworkInterfaceRecord, duplicate_records};
use crate::process::SystemSnapshot;

verus! {

/// The latest system snapshot, the latest network publication, and whether
/// sampling is paused.
pub struct TelemetryState {
    system: SystemSnapshot,
    network: Vec<NetworkInterfaceRecord>,
    paused: bool,
}

impl TelemetryState {
    pub closed spec fn system(&self) -> SystemSnapshot {
        self.system
    }

    pub closed spec fn network(&self) -> Seq<NetworkInterfaceRecord> {
        self.network@
    }

    pub closed spec fn paused(&self) -> bool {
        self.paused
    }

    /// The state at start: an empty snapshot, no interfaces, not paused.
    pub fn new() -> (r: TelemetryState)
        ensures
            r.system().is_empty(),
            r.network().len() == 0,
            !r.paused(),
    {
        TelemetryState { system: SystemSnapshot::empty(), network: Vec::new(), paused: false }
    }

    /// Whether sampling is paused.
    pub fn is_paused(&self) -> (r: bool)
        ensures
            r == self.paused(),
    {
        self.paused
    }

    /// Flips the pause flag; the snapshots stay as they are.
    pub fn toggle_pause(&mut self)
        ensures
            final(self).paused() == !old(self).paused(),
            final(self).system() == old(self).system(),
            final(self).network() == old(self).network(),
    {
        self.paused = !self.paused;
    }

    /// Replaces the system snapshot.
    pub fn publish_system(&mut self, s: SystemSnapshot)
        ensures
            final(self).system() == s,
            final(self).network() == old(self).network(),
            final(self).paused() == old(self).paused(),
    {
        self.system = s;
    }

    /// Replaces the network publication.
    pub fn publish_network(&mut self, n: Vec<NetworkInterfaceRecord>)
        ensures
            final(self).network() == n@,
            final(self).system() == old(self).system(),
            final(self).paused() == old(self).paused(),
    {
        self.network = n;
    }

    /// A copy of both publications and the pause flag.
    pub fn read_snapshot(&self) -> (r: (SystemSnapshot, Vec<NetworkInterfaceRecord>, bool))
        ensures
            r.0.same_as(self.system()),
            r.1@ == self.network(),
            r.2 == self.paused(),
    {
        (self.system.duplicate(), duplicate_records(&self.network), self.paused)
    }
}

} // verus!
