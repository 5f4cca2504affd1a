//! The life of a speech helper process, as a state machine. The caller
//! holds the status, reports what happened, and carries out the action
//! that comes back.

use vstd::prelude::*;

verus! {

/// The state of a helper process.
#[derive(Debug, Clone, Copy, PartialEq, Eq, Structural)]
pub enum SidecarStatus {
    Stopped,
    Starting,
    Running,
    Errored,
}

/// What happened to a helper process.
#[derive(Debug, Clone, Copy, PartialEq, Eq, Structural)]
pub enum SidecarEvent {
    /// A start was asked for.
    StartRequested,
    /// The process was spawned.
    Spawned,
    /// The program to run was not found.
    ProgramMissing,
    /// The process could not be spawned.
    SpawnFailed,
    /// A stop was asked for.
    StopRequested,
}

/// What the caller has to do next.
#[derive(Debug, Clone, Copy, PartialEq, Eq, Structural)]
pub enum SidecarAction {
    Nothing,
    /// Spawn the process and report how that went.
    Spawn,
    /// Kill the process, if there is one.
    Kill,
}

/// The status after an event, and the action to take. A start is asked
/// for in vain while the process is starting or running. A failed spawn
/// leaves the status as it was.
pub open spec fn next(status: SidecarStatus, event: SidecarEvent) -> (SidecarStatus, SidecarAction) {
    match event {
        SidecarEvent::StartRequested => if status == SidecarStatus::Running || status
            == SidecarStatus::Starting {
            (status, SidecarAction::Nothing)
        } else {
            (SidecarStatus::Starting, SidecarAction::Spawn)
        },
        SidecarEvent::Spawned => (SidecarStatus::Running, SidecarAction::Nothing),
        SidecarEvent::ProgramMissing => (SidecarStatus::Errored, SidecarAction::Nothing),
        SidecarEvent::SpawnFailed => (status, SidecarAction::Nothing),
        SidecarEvent::StopRequested => (SidecarStatus::Stopped, SidecarAction::Kill),
    }
}

impl SidecarStatus {
    /// The status of a helper that was never started.
    pub fn new() -> (r: SidecarStatus)
        ensures
            r == SidecarStatus::Stopped,
    {
        SidecarStatus::Stopped
    }

    /// Takes in an event: returns the new status and the action to take.
    pub fn step(self, event: SidecarEvent) -> (r: (SidecarStatus, SidecarAction))
        ensures
            r == next(self, event),
    {
        match event {
            SidecarEvent::StartRequested => match self {
                SidecarStatus::Running => (self, SidecarAction::Nothing),
                SidecarStatus::Starting => (self, SidecarAction::Nothing),
                _ => (SidecarStatus::Starting, SidecarAction::Spawn),
            },
            SidecarEvent::Spawned => (SidecarStatus::Running, SidecarAction::Nothing),
            SidecarEvent::ProgramMissing => (SidecarStatus::Errored, SidecarAction::Nothing),
            SidecarEvent::SpawnFailed => (self, SidecarAction::Nothing),
            SidecarEvent::StopRequested => (SidecarStatus::Stopped, SidecarAction::Kill),
        }
    }
}

/// A process is spawned only on a start request, and only from a status
/// in which none is starting or running; so there are never two.
pub proof fn lemma_no_second_process(status: SidecarStatus, event: SidecarEvent)
    ensures
        next(status, event).1 == SidecarAction::Spawn <==> event == SidecarEvent::StartRequested
            && status != SidecarStatus::Running && status != SidecarStatus::Starting,
        next(status, event).1 == SidecarAction::Spawn ==> next(status, event).0
            == SidecarStatus::Starting,
{
}

/// A stop request always ends in `Stopped`.
pub proof fn lemma_stop_stops(status: SidecarStatus)
    ensures
        next(status, SidecarEvent::StopRequested).0 == SidecarStatus::Stopped,
{
}

} // verus!
