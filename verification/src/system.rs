//! System-wide resource usage and its history.

use crate::history::{last_n, History, HISTORY_CAPACITY};
use vstd::prelude::*;

verus! {

/// The share of `total` that `used` is, in hundredths of a percent. A
/// total of zero counts as one, and a share too large for the result is
/// the largest number that fits.
pub open spec fn share(used: u64, total: u64) -> u64 {
    let floor: nat = if total == 0 {
        1
    } else {
        total as nat
    };
    let exact = used as nat * 10_000 / floor;
    if exact > u64::MAX {
        u64::MAX
    } else {
        exact as u64
    }
}

/// Computes the share of `total` that `used` is, in hundredths of a percent.
pub fn share_of(used: u64, total: u64) -> (percent: u64)
    ensures
        percent == share(used, total),
{
    let floor: u64 = if total == 0 {
        1
    } else {
        total
    };
    let scaled: u128 = used as u128 * 10_000;
    let exact: u128 = scaled / (floor as u128);
    if exact > u64::MAX as u128 {
        u64::MAX
    } else {
        exact as u64
    }
}

/// Aggregate CPU usage and memory of the system with their histories.
///
/// CPU usage and memory share are in hundredths of a percent, memory in
/// bytes. The total memory is never zero.
pub struct SystemResources {
    cpu_usage: u64,
    used_memory: u64,
    total_memory: u64,
    cpu_history: History,
    memory_history: History,
}

/// What [`SystemResources`] hold.
pub ghost struct SystemView {
    pub cpu_usage: u64,
    pub used_memory: u64,
    pub total_memory: u64,
    pub cpu_history: Seq<u64>,
    pub memory_history: Seq<u64>,
}

impl SystemView {
    /// The resources after one more reading. A total of zero counts as one.
    pub open spec fn updated(self, cpu: u64, used: u64, total: u64) -> SystemView {
        let floor: u64 = if total == 0 {
            1
        } else {
            total
        };
        SystemView {
            cpu_usage: cpu,
            used_memory: used,
            total_memory: floor,
            cpu_history: last_n(self.cpu_history.push(cpu), HISTORY_CAPACITY as nat),
            memory_history: last_n(
                self.memory_history.push(share(used, floor)),
                HISTORY_CAPACITY as nat,
            ),
        }
    }
}

impl View for SystemResources {
    type V = SystemView;

    closed spec fn view(&self) -> SystemView {
        SystemView {
            cpu_usage: self.cpu_usage,
            used_memory: self.used_memory,
            total_memory: self.total_memory,
            cpu_history: self.cpu_history@,
            memory_history: self.memory_history@,
        }
    }
}

impl SystemResources {
    #[verifier::type_invariant]
    spec fn has_memory(&self) -> bool {
        self.total_memory > 0
    }

    /// Resources before the first reading: nothing used of a total of one,
    /// and histories full of zeros.
    pub fn new() -> (resources: SystemResources)
        ensures
            resources@ == (SystemView {
                cpu_usage: 0,
                used_memory: 0,
                total_memory: 1,
                cpu_history: Seq::new(HISTORY_CAPACITY as nat, |i: int| 0u64),
                memory_history: Seq::new(HISTORY_CAPACITY as nat, |i: int| 0u64),
            }),
    {
        SystemResources {
            cpu_usage: 0,
            used_memory: 0,
            total_memory: 1,
            cpu_history: History::filled(0),
            memory_history: History::filled(0),
        }
    }

    /// Takes one more reading: the instantaneous values are replaced and
    /// the histories get the CPU usage and the memory share. A total of
    /// zero is stored as one.
    pub fn update(&mut self, cpu: u64, used: u64, total: u64)
        ensures
            final(self)@ == old(self)@.updated(cpu, used, total),
            final(self)@.total_memory > 0,
    {
        proof {
            use_type_invariant(&*self);
        }
        let floor: u64 = if total == 0 {
            1
        } else {
            total
        };
        let mut cpu_history = self.cpu_history.clone();
        cpu_history.push(cpu);
        let mut memory_history = self.memory_history.clone();
        memory_history.push(share_of(used, floor));
        self.cpu_usage = cpu;
        self.used_memory = used;
        self.total_memory = floor;
        self.cpu_history = cpu_history;
        self.memory_history = memory_history;
    }

    /// The share of the memory that is used, in hundredths of a percent.
    pub fn memory_percentage(&self) -> (percent: u64)
        ensures
            self@.total_memory > 0,
            percent == share(self@.used_memory, self@.total_memory),
    {
        proof {
            use_type_invariant(self);
        }
        share_of(self.used_memory, self.total_memory)
    }

    /// The share of the total memory that `bytes` are, in hundredths of a
    /// percent.
    pub fn memory_share(&self, bytes: u64) -> (percent: u64)
        ensures
            self@.total_memory > 0,
            percent == share(bytes, self@.total_memory),
    {
        proof {
            use_type_invariant(self);
        }
        share_of(bytes, self.total_memory)
    }

    /// The CPU usage of the last reading.
    pub fn cpu_usage(&self) -> (cpu: u64)
        ensures
            cpu == self@.cpu_usage,
    {
        self.cpu_usage
    }

    /// The memory in use at the last reading.
    pub fn used_memory(&self) -> (used: u64)
        ensures
            used == self@.used_memory,
    {
        self.used_memory
    }

    /// The total memory, never zero.
    pub fn total_memory(&self) -> (total: u64)
        ensures
            total == self@.total_memory,
            total > 0,
    {
        proof {
            use_type_invariant(self);
        }
        self.total_memory
    }

    /// The history of the CPU usage.
    pub fn cpu_history(&self) -> (history: &History)
        ensures
            history@ == self@.cpu_history,
    {
        &self.cpu_history
    }

    /// The history of the memory share.
    pub fn memory_history(&self) -> (history: &History)
        ensures
            history@ == self@.memory_history,
    {
        &self.memory_history
    }
}

/// The total memory is never zero, whatever readings arrive, so that the
/// memory share never divides by zero.
pub proof fn lemma_total_memory_is_positive(system: SystemView, cpu: u64, used: u64, total: u64)
    ensures
        system.updated(cpu, used, total).total_memory > 0,
        system.updated(cpu, used, total).total_memory == total || total == 0,
{
}

} // verus!
