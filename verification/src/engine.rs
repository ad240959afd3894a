//! The per-tick decision of the poll loop.
//!
//! On every tick the loop sweeps the pod's container statuses in order and
//! asks, for each observation, what to do: skip it, wait for it, or report
//! it. The decision is a pure function of the tracker state, the resolver,
//! the pod spec and the observation; the loop around it only performs the
//! actions (log fetch, HTTP emission) and feeds results back.

use vstd::prelude::*;
use crate::classify::{classify, classify_spec, ContainerObservation, Phase};
use crate::errors::SidecarError;
use crate::report::PendingReport;
use crate::resolve::{resolve_spec, PodSpecContainer, Resolver};
use crate::track::{sidecar_name, CompletionTracker};

verus! {

/// What one tick does about one container.
pub enum TickAction {
    /// The sidecar's own container or an already-reported one: skipped
    /// unconditionally, with no re-classification.
    Skip,
    /// Waiting or running: produce no side effect, observe again next tick.
    NotFinished,
    /// Newly terminated, unreported, and resolved: fetch its logs, emit its
    /// step report, then record it.
    Report(PendingReport),
}

/// The tick decision for one observation. Skipping is decided first, so a
/// reported container is never classified or resolved again; a terminated
/// container missing its finish time is a fatal collaborator violation;
/// a terminated container whose id cannot be resolved is fatal before any
/// report is attempted.
pub open spec fn evaluate_spec(
    t: CompletionTracker,
    resolver: Resolver,
    cs: Seq<PodSpecContainer>,
    obs: ContainerObservation,
) -> Result<TickAction, SidecarError> {
    if obs.name@ == sidecar_name() || t.completed_set().contains(obs.name@) {
        Ok(TickAction::Skip)
    } else {
        match classify_spec(obs.state) {
            Err(e) => Err(e),
            Ok(Phase::Waiting) => Ok(TickAction::NotFinished),
            Ok(Phase::Running) => Ok(TickAction::NotFinished),
            Ok(Phase::Terminated { exit_code, started_at, finished_at }) => match resolve_spec(
                resolver,
                cs,
                obs.name@,
            ) {
                Err(e) => Err(e),
                Ok(id) => Ok(
                    TickAction::Report(
                        PendingReport {
                            name: obs.name,
                            check_run_id: id,
                            exit_code,
                            started_at,
                            finished_at,
                        },
                    ),
                ),
            },
        }
    }
}

/// A container already reported, like the sidecar's own container, is
/// skipped by every later tick's decision: no container is ever reported
/// twice, however often its terminated state is re-observed.
pub proof fn lemma_recorded_always_skipped(
    t: CompletionTracker,
    resolver: Resolver,
    cs: Seq<PodSpecContainer>,
    obs: ContainerObservation,
)
    requires
        obs.name@ == sidecar_name() || t.completed_set().contains(obs.name@),
    ensures
        evaluate_spec(t, resolver, cs, obs) == Ok::<TickAction, SidecarError>(TickAction::Skip),
{
}

/// A report decision arises only for an unreported, non-sidecar container
/// observed as terminated and successfully resolved, and the pending
/// report is for exactly that container and id.
pub proof fn lemma_report_only_when_newly_terminated(
    t: CompletionTracker,
    resolver: Resolver,
    cs: Seq<PodSpecContainer>,
    obs: ContainerObservation,
    p: PendingReport,
)
    requires
        evaluate_spec(t, resolver, cs, obs) == Ok::<TickAction, SidecarError>(
            TickAction::Report(p),
        ),
    ensures
        obs.name@ != sidecar_name(),
        !t.completed_set().contains(obs.name@),
        classify_spec(obs.state) is Ok,
        classify_spec(obs.state)->Ok_0 is Terminated,
        p.name == obs.name,
        resolve_spec(resolver, cs, obs.name@) == Ok::<i32, SidecarError>(p.check_run_id),
{
}

/// Decide what this tick does about one observed container.
pub fn evaluate_container(
    tracker: &CompletionTracker,
    resolver: &Resolver,
    spec_containers: &Vec<PodSpecContainer>,
    obs: ContainerObservation,
) -> (r: Result<TickAction, SidecarError>)
    ensures
        r == evaluate_spec(*tracker, *resolver, spec_containers@, obs),
        obs.name@ == sidecar_name() ==> r == Ok::<TickAction, SidecarError>(TickAction::Skip),
        tracker.completed_set().contains(obs.name@) ==> r == Ok::<TickAction, SidecarError>(
            TickAction::Skip,
        ),
{
    if tracker.should_skip(obs.name.as_str()) {
        return Ok(TickAction::Skip);
    }
    let name = obs.name;
    match classify(obs.state) {
        Err(e) => Err(e),
        Ok(Phase::Waiting) => Ok(TickAction::NotFinished),
        Ok(Phase::Running) => Ok(TickAction::NotFinished),
        Ok(Phase::Terminated { exit_code, started_at, finished_at }) => {
            match resolver.resolve(spec_containers, name.as_str()) {
                Err(e) => Err(e),
                Ok(id) => Ok(
                    TickAction::Report(
                        PendingReport {
                            name,
                            check_run_id: id,
                            exit_code,
                            started_at,
                            finished_at,
                        },
                    ),
                ),
            }
        },
    }
}

} // verus!
