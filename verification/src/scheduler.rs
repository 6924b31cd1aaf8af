//! The refresh scheduler: what the monitor does when it starts, when its
//! timer ticks and when a refresh is requested.
//!
//! The scheduler waits for nothing and reads nothing. Given what happened
//! and the time, it decides whether the cycle is a full or a partial
//! refresh and lists the steps of the cycle in order; the driver carries
//! them out.

use crate::collector::ProcessMonitor;
use crate::process::ProcessInfo;
use vstd::prelude::*;

verus! {

/// Milliseconds between two ticks of the timer.
pub const TICK_PERIOD_MS: u64 = 1_000;

/// Number of updates that may wait for the consumer.
pub const UPDATE_QUEUE_CAPACITY: usize = 100;

/// Number of refresh requests that may wait for the scheduler. A request
/// that finds the queue full is dropped.
pub const REFRESH_QUEUE_CAPACITY: usize = 10;

/// An update published to the consumer. CPU usage is in hundredths of a
/// percent, memory in bytes.
pub enum ProcessUpdate {
    /// The snapshots of one cycle, in collection order.
    ProcessList(Vec<ProcessInfo>),
    /// CPU usage, used memory and total memory of the system.
    SystemInfo(u64, u64, u64),
    /// A text on the progress of loading; empty when nothing is loading.
    LoadingStatus(String),
}

/// What makes the scheduler run a cycle.
#[derive(Clone, Copy, Debug, PartialEq, Eq, Structural)]
pub enum Trigger {
    /// The monitor starts.
    Startup,
    /// The timer ticked.
    Tick,
    /// A refresh was requested.
    RefreshRequest,
}

/// The loading texts that the scheduler publishes.
#[derive(Clone, Copy, Debug, PartialEq, Eq, Structural)]
pub enum LoadingText {
    Initializing,
    ManualRefresh,
    Collecting,
    Done,
}

impl LoadingText {
    /// The text as published.
    pub open spec fn text(self) -> Seq<char> {
        match self {
            LoadingText::Initializing => "Initializing system monitor..."@,
            LoadingText::ManualRefresh => "Manual refresh requested..."@,
            LoadingText::Collecting => "Collecting process data..."@,
            LoadingText::Done => ""@,
        }
    }

    /// The text as published.
    pub fn as_str(&self) -> (text: &'static str)
        ensures
            text@ == self.text(),
    {
        match self {
            LoadingText::Initializing => "Initializing system monitor...",
            LoadingText::ManualRefresh => "Manual refresh requested...",
            LoadingText::Collecting => "Collecting process data...",
            LoadingText::Done => "",
        }
    }

    /// The update that publishes the text.
    pub fn to_update(&self) -> (update: ProcessUpdate)
        ensures
            update matches ProcessUpdate::LoadingStatus(text) && text@ == self.text(),
    {
        ProcessUpdate::LoadingStatus(String::from_str(self.as_str()))
    }
}

/// One step of a cycle, carried out by the driver.
#[derive(Clone, Copy, Debug, PartialEq, Eq, Structural)]
pub enum Step {
    /// Publish a loading text.
    Status(LoadingText),
    /// Read the system's counters and publish them.
    ReportSystem,
    /// Read the whole process and system table again.
    RefreshAll,
    /// Read only presence, CPU usage and memory again.
    RefreshUsage,
    /// Sample the process table, run the collection and publish the list.
    Collect { is_full: bool },
}

/// The steps of one collection, full or partial.
pub open spec fn collection_steps(is_full: bool) -> Seq<Step> {
    if is_full {
        seq![
            Step::Status(LoadingText::Collecting),
            Step::RefreshAll,
            Step::Collect { is_full: true },
            Step::Status(LoadingText::Done),
        ]
    } else {
        seq![Step::RefreshUsage, Step::Collect { is_full: false }]
    }
}

/// The steps of the cycle that `trigger` starts.
pub open spec fn cycle_steps(trigger: Trigger, is_full: bool) -> Seq<Step> {
    match trigger {
        Trigger::Startup => seq![Step::Status(LoadingText::Initializing), Step::ReportSystem]
            + collection_steps(is_full) + seq![Step::Status(LoadingText::Done)],
        Trigger::RefreshRequest => seq![Step::Status(LoadingText::ManualRefresh)]
            + collection_steps(is_full),
        Trigger::Tick => collection_steps(is_full) + seq![Step::ReportSystem],
    }
}

/// The steps of one collection, full or partial.
pub fn collect_steps(is_full: bool) -> (steps: Vec<Step>)
    ensures
        steps@ == collection_steps(is_full),
{
    let mut steps: Vec<Step> = Vec::new();
    if is_full {
        steps.push(Step::Status(LoadingText::Collecting));
        steps.push(Step::RefreshAll);
        steps.push(Step::Collect { is_full: true });
        steps.push(Step::Status(LoadingText::Done));
    } else {
        steps.push(Step::RefreshUsage);
        steps.push(Step::Collect { is_full: false });
    }
    assert(steps@ =~= collection_steps(is_full));
    steps
}

/// Schedules the cycle that `trigger` starts at time `now`.
///
/// At startup and on request the cycle is a full refresh; on a tick it is
/// one when the last full refresh lies further back than the interval. A
/// full refresh is remembered with its time. The steps returned are those
/// of the cycle, in the order in which the driver carries them out.
pub fn schedule(monitor: &mut ProcessMonitor, trigger: Trigger, now: u64) -> (steps: Vec<Step>)
    ensures
        final(monitor)@ == old(monitor)@.begun(trigger != Trigger::Tick, now),
        steps@ == cycle_steps(
            trigger,
            old(monitor)@.refreshes_fully(trigger != Trigger::Tick, now),
        ),
{
    let is_full = monitor.begin_cycle(trigger != Trigger::Tick, now);
    let mut steps: Vec<Step> = Vec::new();
    match trigger {
        Trigger::Startup => {
            steps.push(Step::Status(LoadingText::Initializing));
            steps.push(Step::ReportSystem);
            let mut inner = collect_steps(is_full);
            steps.append(&mut inner);
            steps.push(Step::Status(LoadingText::Done));
        },
        Trigger::RefreshRequest => {
            steps.push(Step::Status(LoadingText::ManualRefresh));
            let mut inner = collect_steps(is_full);
            steps.append(&mut inner);
        },
        Trigger::Tick => {
            let mut inner = collect_steps(is_full);
            steps.append(&mut inner);
            steps.push(Step::ReportSystem);
        },
    }
    assert(steps@ =~= cycle_steps(trigger, is_full));
    steps
}

} // verus!
