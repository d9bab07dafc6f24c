//! The process sampler: per-process records, aggregate CPU and memory, and
//! the disk throughput summed over all processes.

use vstd::prelude::*;
use crate::rate::{Rate, rate, rate_of, elapsed_between};

verus! {

/// One process as the probe reported it. CPU usage is in hundredths of a
/// percent of one core.
#[derive(Debug)]
pub struct ProcessRecord {
    pub name: String,
    pub pid: u64,
    pub cpu_usage_centi: u64,
    pub memory: u64,
    pub status: String,
    pub run_time: u64,
}

impl ProcessRecord {
    /// A field-for-field copy.
    pub fn duplicate(&self) -> (r: ProcessRecord)
        ensures
            r == *self,
    {
        ProcessRecord {
            name: self.name.clone(),
            pid: self.pid,
            cpu_usage_centi: self.cpu_usage_centi,
            memory: self.memory,
            status: self.status.clone(),
            run_time: self.run_time,
        }
    }
}

/// A process with its cumulative disk counters.
#[derive(Debug)]
pub struct ProcessReading {
    pub record: ProcessRecord,
    pub disk_read_total: u64,
    pub disk_written_total: u64,
}

/// Everything one probe refresh yields for the process sampler.
#[derive(Debug)]
pub struct SystemReading {
    pub processes: Vec<ProcessReading>,
    pub total_cpu_usage_centi: u64,
    pub total_memory: u64,
    pub used_memory: u64,
    pub available_memory: u64,
    pub total_swap: u64,
    pub used_swap: u64,
}

/// The published state of the host as of one sample.
#[derive(Debug)]
pub struct SystemSnapshot {
    pub processes: Vec<ProcessRecord>,
    pub cpu_model: String,
    pub total_cpu_usage_centi: u64,
    pub total_memory: u64,
    pub used_memory: u64,
    pub available_memory: u64,
    pub total_swap: u64,
    pub used_swap: u64,
    pub disk_read: Rate,
    pub disk_write: Rate,
    pub captured_at: u64,
}

/// The last disk totals the sampler saw, and when.
#[derive(Clone, Copy, Debug, PartialEq, Eq, Structural)]
pub struct DiskBaseline {
    pub read_total: u64,
    pub write_total: u64,
    pub taken_at: u64,
}

/// The process sampler: the CPU model, read once, and its disk baseline.
pub struct ProcessSampler {
    cpu_model: String,
    baseline: DiskBaseline,
}

/// The sum of the processes' cumulative read counters.
pub open spec fn total_read(s: Seq<ProcessReading>) -> nat
    decreases s.len(),
{
    if s.len() == 0 {
        0
    } else {
        total_read(s.drop_last()) + s.last().disk_read_total as nat
    }
}

/// The sum of the processes' cumulative write counters.
pub open spec fn total_written(s: Seq<ProcessReading>) -> nat
    decreases s.len(),
{
    if s.len() == 0 {
        0
    } else {
        total_written(s.drop_last()) + s.last().disk_written_total as nat
    }
}

/// A total, capped at the largest `u64`.
pub open spec fn saturate(n: nat) -> u64 {
    if n > u64::MAX {
        u64::MAX
    } else {
        n as u64
    }
}

/// The baseline after one cycle: kept while paused, else the totals just read.
pub open spec fn disk_cycle(b: DiskBaseline, paused: bool, read: u64, write: u64, now: u64) -> DiskBaseline {
    if paused {
        b
    } else {
        DiskBaseline { read_total: read, write_total: write, taken_at: now }
    }
}

/// The read and write rates that an active cycle computes against `b`.
pub open spec fn disk_rates(b: DiskBaseline, read: u64, write: u64, now: u64) -> (Rate, Rate) {
    (
        rate_of(b.read_total, read, elapsed_between(b.taken_at, now)),
        rate_of(b.write_total, write, elapsed_between(b.taken_at, now)),
    )
}

/// The baseline after `n` paused cycles.
pub open spec fn after_paused_cycles(b: DiskBaseline, n: nat) -> DiskBaseline
    decreases n,
{
    if n == 0 {
        b
    } else {
        disk_cycle(after_paused_cycles(b, (n - 1) as nat), true, 0, 0, 0)
    }
}

/// `s` is what a sampler with CPU model `cpu_model` and baseline `b`
/// publishes for `reading` taken at `now`.
pub open spec fn is_snapshot_of(
    s: SystemSnapshot,
    cpu_model: String,
    b: DiskBaseline,
    reading: SystemReading,
    now: u64,
) -> bool {
    let read = saturate(total_read(reading.processes@));
    let write = saturate(total_written(reading.processes@));
    &&& s.processes@ == reading.processes@.map_values(|p: ProcessReading| p.record)
    &&& s.cpu_model == cpu_model
    &&& s.total_cpu_usage_centi == reading.total_cpu_usage_centi
    &&& s.total_memory == reading.total_memory
    &&& s.used_memory == reading.used_memory
    &&& s.available_memory == reading.available_memory
    &&& s.total_swap == reading.total_swap
    &&& s.used_swap == reading.used_swap
    &&& (s.disk_read, s.disk_write) == disk_rates(b, read, write, now)
    &&& s.captured_at == now
}

/// Sums the disk counters of all processes, each sum capped at `u64::MAX`.
fn disk_totals(procs: &Vec<ProcessReading>) -> (r: (u64, u64))
    ensures
        r.0 == saturate(total_read(procs@)),
        r.1 == saturate(total_written(procs@)),
{
    let mut read: u64 = 0;
    let mut write: u64 = 0;
    let mut i: usize = 0;
    while i < procs.len()
        invariant
            i <= procs@.len(),
            read == saturate(total_read(procs@.take(i as int))),
            write == saturate(total_written(procs@.take(i as int))),
        decreases procs@.len() - i,
    {
        assert(procs@.take(i as int + 1).drop_last() =~= procs@.take(i as int));
        let p = &procs[i];
        read = read.saturating_add(p.disk_read_total);
        write = write.saturating_add(p.disk_written_total);
        i = i + 1;
    }
    assert(procs@.take(i as int) =~= procs@);
    (read, write)
}

impl SystemSnapshot {
    /// The two snapshots hold the same processes and values.
    pub open spec fn same_as(&self, o: SystemSnapshot) -> bool {
        &&& self.processes@ == o.processes@
        &&& self.cpu_model == o.cpu_model
        &&& self.total_cpu_usage_centi == o.total_cpu_usage_centi
        &&& self.total_memory == o.total_memory
        &&& self.used_memory == o.used_memory
        &&& self.available_memory == o.available_memory
        &&& self.total_swap == o.total_swap
        &&& self.used_swap == o.used_swap
        &&& self.disk_read == o.disk_read
        &&& self.disk_write == o.disk_write
        &&& self.captured_at == o.captured_at
    }

    /// A field-for-field copy.
    pub fn duplicate(&self) -> (r: SystemSnapshot)
        ensures
            r.same_as(*self),
    {
        let mut processes: Vec<ProcessRecord> = Vec::new();
        let mut i: usize = 0;
        while i < self.processes.len()
            invariant
                i <= self.processes@.len(),
                processes@ == self.processes@.take(i as int),
            decreases self.processes@.len() - i,
        {
            processes.push(self.processes[i].duplicate());
            i = i + 1;
            assert(processes@ =~= self.processes@.take(i as int));
        }
        assert(self.processes@.take(i as int) =~= self.processes@);
        assert(processes@ =~= self.processes@);
        SystemSnapshot {
            processes,
            cpu_model: self.cpu_model.clone(),
            total_cpu_usage_centi: self.total_cpu_usage_centi,
            total_memory: self.total_memory,
            used_memory: self.used_memory,
            available_memory: self.available_memory,
            total_swap: self.total_swap,
            used_swap: self.used_swap,
            disk_read: self.disk_read,
            disk_write: self.disk_write,
            captured_at: self.captured_at,
        }
    }

    /// The snapshot held before any sample: no processes, all zero.
    pub open spec fn is_empty(&self) -> bool {
        &&& self.processes@.len() == 0
        &&& self.cpu_model@.len() == 0
        &&& self.total_cpu_usage_centi == 0
        &&& self.total_memory == 0 && self.used_memory == 0 && self.available_memory == 0
        &&& self.total_swap == 0 && self.used_swap == 0
        &&& self.disk_read == rate_of(0, 0, 1) && self.disk_write == rate_of(0, 0, 1)
        &&& self.captured_at == 0
    }

    /// The snapshot held before any sample.
    pub fn empty() -> (r: SystemSnapshot)
        ensures
            r.is_empty(),
    {
        SystemSnapshot {
            processes: Vec::new(),
            cpu_model: String::new(),
            total_cpu_usage_centi: 0,
            total_memory: 0,
            used_memory: 0,
            available_memory: 0,
            total_swap: 0,
            used_swap: 0,
            disk_read: Rate::zero(),
            disk_write: Rate::zero(),
            captured_at: 0,
        }
    }
}

impl ProcessSampler {
    pub closed spec fn baseline(&self) -> DiskBaseline {
        self.baseline
    }

    pub closed spec fn cpu_model(&self) -> String {
        self.cpu_model
    }

    /// A sampler seeded from a first probe reading taken at `now`, so that
    /// the first published rate is measured against a real sample.
    pub fn new(cpu_model: String, first: &SystemReading, now: u64) -> (r: ProcessSampler)
        ensures
            r.cpu_model() == cpu_model,
            r.baseline() == (DiskBaseline {
                read_total: saturate(total_read(first.processes@)),
                write_total: saturate(total_written(first.processes@)),
                taken_at: now,
            }),
    {
        let (read, write) = disk_totals(&first.processes);
        ProcessSampler { cpu_model, baseline: DiskBaseline { read_total: read, write_total: write, taken_at: now } }
    }

    /// One active cycle on a fresh `reading` taken at `now`: computes the
    /// disk rates against the baseline, advances the baseline, and builds
    /// the snapshot to publish.
    pub fn sample(&mut self, reading: SystemReading, now: u64) -> (r: SystemSnapshot)
        ensures
            is_snapshot_of(r, old(self).cpu_model(), old(self).baseline(), reading, now),
            final(self).cpu_model() == old(self).cpu_model(),
            final(self).baseline() == disk_cycle(
                old(self).baseline(),
                false,
                saturate(total_read(reading.processes@)),
                saturate(total_written(reading.processes@)),
                now,
            ),
    {
        let (read, write) = disk_totals(&reading.processes);
        let elapsed = if now >= self.baseline.taken_at {
            now - self.baseline.taken_at
        } else {
            0
        };
        let disk_read = rate(self.baseline.read_total, read, elapsed);
        let disk_write = rate(self.baseline.write_total, write, elapsed);
        let mut processes: Vec<ProcessRecord> = Vec::new();
        let mut i: usize = 0;
        while i < reading.processes.len()
            invariant
                i <= reading.processes@.len(),
                processes@ == reading.processes@.take(i as int).map_values(
                    |p: ProcessReading| p.record,
                ),
            decreases reading.processes@.len() - i,
        {
            processes.push(reading.processes[i].record.duplicate());
            i = i + 1;
            assert(processes@ =~= reading.processes@.take(i as int).map_values(
                |p: ProcessReading| p.record,
            ));
        }
        assert(reading.processes@.take(i as int) =~= reading.processes@);
        self.baseline = DiskBaseline { read_total: read, write_total: write, taken_at: now };
        SystemSnapshot {
            processes,
            cpu_model: self.cpu_model.clone(),
            total_cpu_usage_centi: reading.total_cpu_usage_centi,
            total_memory: reading.total_memory,
            used_memory: reading.used_memory,
            available_memory: reading.available_memory,
            total_swap: reading.total_swap,
            used_swap: reading.used_swap,
            disk_read,
            disk_write,
            captured_at: now,
        }
    }

    /// One cycle of the sampler. While `paused`, the probe is not read, the
    /// baseline stays as it is and nothing is published; otherwise
    /// `read_probe` refreshes the probe and returns its reading with the time
    /// it was taken, and the snapshot of that reading is returned.
    pub fn cycle<F: FnOnce() -> (SystemReading, u64)>(&mut self, paused: bool, read_probe: F) -> (r: Option<SystemSnapshot>)
        requires
            paused || read_probe.requires(()),
        ensures
            final(self).cpu_model() == old(self).cpu_model(),
            paused ==> r is None && final(self).baseline() == old(self).baseline(),
            !paused ==> exists|x: (SystemReading, u64)| {
                &&& #[trigger] read_probe.ensures((), x)
                &&& r is Some
                &&& is_snapshot_of(r->0, old(self).cpu_model(), old(self).baseline(), x.0, x.1)
                &&& final(self).baseline() == disk_cycle(
                    old(self).baseline(),
                    false,
                    saturate(total_read(x.0.processes@)),
                    saturate(total_written(x.0.processes@)),
                    x.1,
                )
            },
    {
        if paused {
            return None;
        }
        let x = read_probe();
        let ghost g = x;
        let (reading, now) = x;
        let s = self.sample(reading, now);
        assert(read_probe.ensures((), g));
        Some(s)
    }
}

/// Pause is transparent to the rate computation: any number of paused
/// cycles leave the baseline as it was, so the first active cycle after
/// them computes the same rates as if there had been no pause.
pub proof fn lemma_pause_transparent(b: DiskBaseline, n: nat, read: u64, write: u64, now: u64)
    ensures
        after_paused_cycles(b, n) == b,
        disk_rates(after_paused_cycles(b, n), read, write, now) == disk_rates(b, read, write, now),
        disk_cycle(after_paused_cycles(b, n), false, read, write, now) == disk_cycle(
            b,
            false,
            read,
            write,
            now,
        ),
    decreases n,
{
    if n > 0 {
        lemma_pause_transparent(b, (n - 1) as nat, read, write, now);
    }
}

/// Sampling the same totals twice yields zero rates, however short the
/// interval between the two samples, a zero interval included.
pub proof fn lemma_same_reading_twice(b: DiskBaseline, read: u64, write: u64, t1: u64, t2: u64)
    ensures
        ({
            let (r, w) = disk_rates(disk_cycle(b, false, read, write, t1), read, write, t2);
            r.delta == 0 && w.delta == 0 && r.wf() && w.wf()
        }),
{
}

} // verus!
