//! Per-process snapshots and the raw samples they are built from.

use crate::history::{last_n, History, HISTORY_CAPACITY};
use crate::status::{OsStatus, ProcessStatus};
use vstd::prelude::*;

verus! {

/// The texts of a list of strings.
pub open spec fn texts(v: Seq<String>) -> Seq<Seq<char>> {
    v.map_values(|s: String| s@)
}

/// One row of the operating system's process table, as read in one cycle.
///
/// CPU usage is in hundredths of a percent, memory in bytes and the run
/// time in seconds.
pub struct RawSample {
    pub pid: u32,
    pub name: String,
    pub cpu_usage: u64,
    pub memory: u64,
    pub status: OsStatus,
    pub run_time: u64,
    pub cmd: Vec<String>,
    pub parent: Option<u32>,
}

/// What a [`RawSample`] holds, as mathematical values.
pub ghost struct SampleView {
    pub pid: u32,
    pub name: Seq<char>,
    pub cpu_usage: u64,
    pub memory: u64,
    pub status: OsStatus,
    pub run_time: u64,
    pub cmd: Seq<Seq<char>>,
    pub parent: Option<u32>,
}

impl View for RawSample {
    type V = SampleView;

    open spec fn view(&self) -> SampleView {
        SampleView {
            pid: self.pid,
            name: self.name@,
            cpu_usage: self.cpu_usage,
            memory: self.memory,
            status: self.status,
            run_time: self.run_time,
            cmd: texts(self.cmd@),
            parent: self.parent,
        }
    }
}

/// The enriched state of one process as published to consumers.
///
/// CPU usage is in hundredths of a percent, memory in bytes, `start_time`
/// is the run time in seconds and `last_updated` the time of the last
/// update in milliseconds of the monitor's clock.
pub struct ProcessInfo {
    pub pid: u32,
    pub name: String,
    pub cpu_usage: u64,
    pub memory: u64,
    pub status: ProcessStatus,
    pub user: String,
    pub start_time: u64,
    pub cmd: Vec<String>,
    pub threads: Option<usize>,
    pub parent: Option<u32>,
    pub cpu_history: History,
    pub memory_history: History,
    pub last_updated: u64,
}

/// What a [`ProcessInfo`] holds, as mathematical values.
pub ghost struct ProcessView {
    pub pid: u32,
    pub name: Seq<char>,
    pub cpu_usage: u64,
    pub memory: u64,
    pub status: ProcessStatus,
    pub user: Seq<char>,
    pub start_time: u64,
    pub cmd: Seq<Seq<char>>,
    pub threads: Option<usize>,
    pub parent: Option<u32>,
    pub cpu_history: Seq<u64>,
    pub memory_history: Seq<u64>,
    pub last_updated: u64,
}

impl View for ProcessInfo {
    type V = ProcessView;

    open spec fn view(&self) -> ProcessView {
        ProcessView {
            pid: self.pid,
            name: self.name@,
            cpu_usage: self.cpu_usage,
            memory: self.memory,
            status: self.status,
            user: self.user@,
            start_time: self.start_time,
            cmd: texts(self.cmd@),
            threads: self.threads,
            parent: self.parent,
            cpu_history: self.cpu_history@,
            memory_history: self.memory_history@,
            last_updated: self.last_updated,
        }
    }
}

impl ProcessView {
    /// The snapshot of a process seen for the first time: every field is
    /// taken from the sample and the resolved metadata, and each history
    /// holds the one sample.
    pub open spec fn first_sighting(
        sample: SampleView,
        user: Seq<char>,
        threads: Option<usize>,
        now: u64,
    ) -> ProcessView {
        ProcessView {
            pid: sample.pid,
            name: sample.name,
            cpu_usage: sample.cpu_usage,
            memory: sample.memory,
            status: ProcessStatus::of(sample.status),
            user,
            start_time: sample.run_time,
            cmd: sample.cmd,
            threads,
            parent: sample.parent,
            cpu_history: seq![sample.cpu_usage],
            memory_history: seq![sample.memory],
            last_updated: now,
        }
    }

    /// The snapshot after one more reading of CPU usage and memory.
    pub open spec fn with_reading(self, cpu: u64, memory: u64, now: u64) -> ProcessView {
        ProcessView {
            cpu_usage: cpu,
            memory,
            cpu_history: last_n(self.cpu_history.push(cpu), HISTORY_CAPACITY as nat),
            memory_history: last_n(self.memory_history.push(memory), HISTORY_CAPACITY as nat),
            last_updated: now,
            ..self
        }
    }

    /// The snapshot with the fields that only a full refresh renews.
    pub open spec fn with_metadata(
        self,
        sample: SampleView,
        user: Seq<char>,
        threads: Option<usize>,
    ) -> ProcessView {
        ProcessView {
            status: ProcessStatus::of(sample.status),
            user,
            threads,
            parent: sample.parent,
            cmd: sample.cmd,
            ..self
        }
    }
}

/// A copy of a list of strings.
pub fn clone_strings(v: &Vec<String>) -> (copy: Vec<String>)
    ensures
        copy@ == v@,
{
    let mut copy: Vec<String> = Vec::new();
    let mut i: usize = 0;
    while i < v.len()
        invariant
            i <= v.len(),
            copy@ == v@.subrange(0, i as int),
        decreases v.len() - i,
    {
        copy.push(v[i].clone());
        i += 1;
    }
    assert(copy@ =~= v@);
    copy
}

impl ProcessInfo {
    /// The snapshot of a process seen for the first time.
    pub fn new(
        pid: u32,
        name: String,
        cpu_usage: u64,
        memory: u64,
        status: ProcessStatus,
        user: String,
        start_time: u64,
        cmd: Vec<String>,
        threads: Option<usize>,
        parent: Option<u32>,
        now: u64,
    ) -> (info: ProcessInfo)
        ensures
            info@ == (ProcessView {
                pid,
                name: name@,
                cpu_usage,
                memory,
                status,
                user: user@,
                start_time,
                cmd: texts(cmd@),
                threads,
                parent,
                cpu_history: seq![cpu_usage],
                memory_history: seq![memory],
                last_updated: now,
            }),
    {
        ProcessInfo {
            pid,
            name,
            cpu_usage,
            memory,
            status,
            user,
            start_time,
            cmd,
            threads,
            parent,
            cpu_history: History::seeded(cpu_usage),
            memory_history: History::seeded(memory),
            last_updated: now,
        }
    }

    /// Records one more reading: the instantaneous values are replaced and
    /// each history gets the reading, dropping its oldest sample when full.
    pub fn update_history(&mut self, cpu: u64, memory: u64, now: u64)
        ensures
            final(self)@ == old(self)@.with_reading(cpu, memory, now),
    {
        self.cpu_usage = cpu;
        self.memory = memory;
        self.cpu_history.push(cpu);
        self.memory_history.push(memory);
        self.last_updated = now;
    }
}

impl Clone for ProcessInfo {
    fn clone(&self) -> (copy: ProcessInfo)
        ensures
            copy@ == self@,
    {
        ProcessInfo {
            pid: self.pid,
            name: self.name.clone(),
            cpu_usage: self.cpu_usage,
            memory: self.memory,
            status: self.status,
            user: self.user.clone(),
            start_time: self.start_time,
            cmd: clone_strings(&self.cmd),
            threads: self.threads,
            parent: self.parent,
            cpu_history: self.cpu_history.clone(),
            memory_history: self.memory_history.clone(),
            last_updated: self.last_updated,
        }
    }
}

} // verus!
