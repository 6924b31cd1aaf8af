//! Lifecycle status of a process.

use vstd::prelude::*;

verus! {

/// The state of a process as the operating system reports it.
#[derive(Clone, Copy, Debug, PartialEq, Eq, Structural)]
pub enum OsStatus {
    Idle,
    Run,
    Sleep,
    Stop,
    Zombie,
    Tracing,
    Dead,
    Wakekill,
    Waking,
    Parked,
    LockBlocked,
    UninterruptibleDiskSleep,
    Other,
}

/// The lifecycle status shown for a process.
///
/// The variants are ordered as declared: `Running` sorts first and
/// `Unknown` last.
#[derive(Clone, Copy, Debug, PartialEq, Eq, Structural)]
pub enum ProcessStatus {
    Running,
    Sleeping,
    Stopped,
    Zombie,
    Unknown,
}

impl ProcessStatus {
    /// The status shown for an operating-system state.
    pub open spec fn of(raw: OsStatus) -> ProcessStatus {
        match raw {
            OsStatus::Run => ProcessStatus::Running,
            OsStatus::Sleep => ProcessStatus::Sleeping,
            OsStatus::Stop => ProcessStatus::Stopped,
            OsStatus::Zombie => ProcessStatus::Zombie,
            _ => ProcessStatus::Unknown,
        }
    }

    /// Position of the status in the sort order.
    pub open spec fn spec_rank(self) -> u8 {
        match self {
            ProcessStatus::Running => 0,
            ProcessStatus::Sleeping => 1,
            ProcessStatus::Stopped => 2,
            ProcessStatus::Zombie => 3,
            ProcessStatus::Unknown => 4,
        }
    }

    /// The text shown for the status.
    pub open spec fn label(self) -> Seq<char> {
        match self {
            ProcessStatus::Running => "Running"@,
            ProcessStatus::Sleeping => "Sleeping"@,
            ProcessStatus::Stopped => "Stopped"@,
            ProcessStatus::Zombie => "Zombie"@,
            ProcessStatus::Unknown => "Unknown"@,
        }
    }

    /// Maps an operating-system state to the status shown for it. States
    /// other than running, sleeping, stopped and zombie are `Unknown`.
    pub fn from_os(raw: OsStatus) -> (status: ProcessStatus)
        ensures
            status == Self::of(raw),
    {
        match raw {
            OsStatus::Run => ProcessStatus::Running,
            OsStatus::Sleep => ProcessStatus::Sleeping,
            OsStatus::Stop => ProcessStatus::Stopped,
            OsStatus::Zombie => ProcessStatus::Zombie,
            _ => ProcessStatus::Unknown,
        }
    }

    /// Position of the status in the sort order.
    #[verifier::when_used_as_spec(spec_rank)]
    pub fn rank(self) -> (r: u8)
        ensures
            r == self.spec_rank(),
    {
        match self {
            ProcessStatus::Running => 0,
            ProcessStatus::Sleeping => 1,
            ProcessStatus::Stopped => 2,
            ProcessStatus::Zombie => 3,
            ProcessStatus::Unknown => 4,
        }
    }

    /// The text shown for the status.
    pub fn as_str(&self) -> (text: &'static str)
        ensures
            text@ == self.label(),
    {
        match self {
            ProcessStatus::Running => "Running",
            ProcessStatus::Sleeping => "Sleeping",
            ProcessStatus::Stopped => "Stopped",
            ProcessStatus::Zombie => "Zombie",
            ProcessStatus::Unknown => "Unknown",
        }
    }

    /// The text shown for the status, as an owned string.
    pub fn to_string(&self) -> (text: String)
        ensures
            text@ == self.label(),
    {
        String::from_str(self.as_str())
    }
}

} // verus!
