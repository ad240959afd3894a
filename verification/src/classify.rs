//! Per-container phase classification.
//!
//! Every poll tick produces one raw status snapshot per container. The
//! classifier turns a snapshot into a lifecycle phase. A terminated
//! container must carry its finish time; a snapshot that violates that is a
//! broken collaborator contract and classification fails instead of
//! defaulting silently.

use vstd::prelude::*;
use crate::errors::SidecarError;

verus! {

/// Details the collaborator reports for a terminated container.
pub struct RawTermination {
    /// The container process's exit code; zero means success.
    pub exit_code: i32,
    /// When the container started, as an RFC 3339 timestamp, if reported.
    pub started_at: Option<String>,
    /// When the container finished, as an RFC 3339 timestamp. The
    /// collaborator contract requires it for a terminated container, but a
    /// snapshot may still arrive without it.
    pub finished_at: Option<String>,
}

/// One container's raw state indicator: at most one of a running marker or
/// termination details is present; neither means the container still waits.
pub struct RawContainerState {
    /// Whether a running marker is present.
    pub running: bool,
    /// Termination details, present once the container has terminated.
    pub terminated: Option<RawTermination>,
}

/// One container's status as observed on a poll tick, never persisted
/// across ticks.
pub struct ContainerObservation {
    pub name: String,
    pub state: RawContainerState,
}

/// A container's classified lifecycle phase.
#[derive(Debug)]
pub enum Phase {
    /// Neither running nor terminated yet.
    Waiting,
    /// Currently running.
    Running,
    /// Terminated with its exit details.
    Terminated { exit_code: i32, started_at: Option<String>, finished_at: String },
}

/// What classification returns on a given raw state: the running marker
/// wins; termination details without a finish time are a collaborator
/// contract violation; neither marker means the container still waits.
pub open spec fn classify_spec(state: RawContainerState) -> Result<Phase, SidecarError> {
    if state.running {
        Ok(Phase::Running)
    } else {
        match state.terminated {
            Some(t) => match t.finished_at {
                Some(f) => Ok(
                    Phase::Terminated {
                        exit_code: t.exit_code,
                        started_at: t.started_at,
                        finished_at: f,
                    },
                ),
                None => Err(SidecarError::UnexpectedShape),
            },
            None => Ok(Phase::Waiting),
        }
    }
}

/// Classify one raw container state into a phase.
pub fn classify(state: RawContainerState) -> (r: Result<Phase, SidecarError>)
    ensures
        r == classify_spec(state),
{
    if state.running {
        Ok(Phase::Running)
    } else {
        match state.terminated {
            Some(t) => match t.finished_at {
                Some(f) => Ok(
                    Phase::Terminated {
                        exit_code: t.exit_code,
                        started_at: t.started_at,
                        finished_at: f,
                    },
                ),
                None => Err(SidecarError::UnexpectedShape),
            },
            None => Ok(Phase::Waiting),
        }
    }
}

} // verus!
