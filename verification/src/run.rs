//! A model of a whole run of the poll loop, and the exactly-once theorem.
//!
//! The loop's per-tick sweep is modelled over the reported-name set alone:
//! a container is emitted when it is observed terminated, is not the
//! sidecar, and has not been reported before; emitting adds its name to
//! the reported set. Over this model the run-wide guarantees are proved:
//! no name is ever emitted twice, and once the pod-finished condition is
//! met every reportable name has been emitted exactly once.

use vstd::prelude::*;
use vstd::set_lib::lemma_subset_equality;
use crate::classify::{classify_spec, ContainerObservation};
use crate::engine::{evaluate_spec, TickAction};
use crate::report::PendingReport;
use crate::resolve::{PodSpecContainer, Resolver};
use crate::track::{sidecar_name, CompletionTracker};

verus! {

/// Whether an observation shows a well-formed terminated container.
pub open spec fn observed_terminated(o: ContainerObservation) -> bool {
    classify_spec(o.state) is Ok && classify_spec(o.state)->Ok_0 is Terminated
}

/// Whether the sweep emits a report for `o` when `reported` names have
/// been reported already: `o` is terminated, not the sidecar, and new.
pub open spec fn emits(reported: Set<Seq<char>>, o: ContainerObservation) -> bool {
    o.name@ != sidecar_name() && !reported.contains(o.name@) && observed_terminated(o)
}

/// The names emitted during one tick's sweep, in sweep order.
pub open spec fn tick_emissions(
    reported: Set<Seq<char>>,
    obs: Seq<ContainerObservation>,
) -> Seq<Seq<char>>
    decreases obs.len(),
{
    if obs.len() == 0 {
        Seq::empty()
    } else if emits(reported, obs[0]) {
        seq![obs[0].name@] + tick_emissions(reported.insert(obs[0].name@), obs.drop_first())
    } else {
        tick_emissions(reported, obs.drop_first())
    }
}

/// The reported set after one tick's sweep.
pub open spec fn tick_reported(
    reported: Set<Seq<char>>,
    obs: Seq<ContainerObservation>,
) -> Set<Seq<char>>
    decreases obs.len(),
{
    if obs.len() == 0 {
        reported
    } else if emits(reported, obs[0]) {
        tick_reported(reported.insert(obs[0].name@), obs.drop_first())
    } else {
        tick_reported(reported, obs.drop_first())
    }
}

/// The names emitted over a whole run, tick by tick.
pub open spec fn run_emissions(
    reported: Set<Seq<char>>,
    ticks: Seq<Seq<ContainerObservation>>,
) -> Seq<Seq<char>>
    decreases ticks.len(),
{
    if ticks.len() == 0 {
        Seq::empty()
    } else {
        tick_emissions(reported, ticks[0]) + run_emissions(
            tick_reported(reported, ticks[0]),
            ticks.drop_first(),
        )
    }
}

/// The reported set after a whole run.
pub open spec fn run_reported(
    reported: Set<Seq<char>>,
    ticks: Seq<Seq<ContainerObservation>>,
) -> Set<Seq<char>>
    decreases ticks.len(),
{
    if ticks.len() == 0 {
        reported
    } else {
        run_reported(tick_reported(reported, ticks[0]), ticks.drop_first())
    }
}

/// The model's emission test agrees with the real tick decision: whenever
/// the decision for an observation is to report, the model emits it.
pub proof fn lemma_emits_matches_evaluate(
    t: CompletionTracker,
    resolver: Resolver,
    cs: Seq<PodSpecContainer>,
    obs: ContainerObservation,
    p: PendingReport,
)
    requires
        evaluate_spec(t, resolver, cs, obs) == Ok::<TickAction, crate::errors::SidecarError>(
            TickAction::Report(p),
        ),
    ensures
        emits(t.completed_set(), obs),
{
}

/// One tick emits each name at most once, never the sidecar's and never
/// one already reported, and grows the reported set by exactly the names
/// it emits.
pub proof fn lemma_tick_emissions(reported: Set<Seq<char>>, obs: Seq<ContainerObservation>)
    ensures
        tick_emissions(reported, obs).no_duplicates(),
        forall|k: int|
            0 <= k < tick_emissions(reported, obs).len() ==> (!reported.contains(
                tick_emissions(reported, obs)[k],
            ) && tick_emissions(reported, obs)[k] != sidecar_name()),
        tick_reported(reported, obs) =~= reported + tick_emissions(reported, obs).to_set(),
    decreases obs.len(),
{
    broadcast use vstd::set::group_set_axioms;

    let em = tick_emissions(reported, obs);
    if obs.len() == 0 {
        assert(em.to_set() =~= Set::<Seq<char>>::empty());
        assert(tick_reported(reported, obs) =~= reported + em.to_set());
    } else if emits(reported, obs[0]) {
        let nm = obs[0].name@;
        let r2 = reported.insert(nm);
        let rest = obs.drop_first();
        lemma_tick_emissions(r2, rest);
        let em2 = tick_emissions(r2, rest);
        assert(em == seq![nm] + em2);
        assert(em[0] == nm);
        assert(forall|k: int| 0 <= k < em2.len() ==> em[k + 1] == em2[k]);
        assert(em.no_duplicates()) by {
            assert forall|p: int, q: int|
                0 <= p < em.len() && 0 <= q < em.len() && p != q implies em[p] != em[q] by {
                if p == 0 {
                    assert(!r2.contains(em2[q - 1]));
                } else if q == 0 {
                    assert(!r2.contains(em2[p - 1]));
                } else {
                    assert(em2[p - 1] != em2[q - 1]);
                }
            }
        }
        assert forall|k: int| 0 <= k < em.len() implies (!reported.contains(em[k]) && em[k]
            != sidecar_name()) by {
            if k == 0 {
            } else {
                assert(!r2.contains(em2[k - 1]));
                assert(em2[k - 1] != sidecar_name());
            }
        }
        assert(tick_reported(reported, obs) =~= reported + em.to_set()) by {
            assert(tick_reported(reported, obs) == tick_reported(r2, rest));
            assert(tick_reported(r2, rest) =~= r2 + em2.to_set());
            assert(em.to_set() =~= em2.to_set().insert(nm)) by {
                assert forall|n: Seq<char>| em.to_set().contains(n) implies em2.to_set().insert(
                    nm,
                ).contains(n) by {
                    let k = choose|k: int| 0 <= k < em.len() && em[k] == n;
                    if k > 0 {
                        assert(em2[k - 1] == n);
                    }
                }
                assert forall|n: Seq<char>| em2.to_set().insert(nm).contains(n) implies em.to_set()
                    .contains(n) by {
                    if n == nm {
                        assert(em[0] == n);
                    } else {
                        let k = choose|k: int| 0 <= k < em2.len() && em2[k] == n;
                        assert(em[k + 1] == n);
                    }
                }
            }
        }
    } else {
        let rest = obs.drop_first();
        lemma_tick_emissions(reported, rest);
        assert(em == tick_emissions(reported, rest));
        assert(tick_reported(reported, obs) == tick_reported(reported, rest));
    }
}

/// A whole run emits each name at most once, never the sidecar's and never
/// one reported before the run, and its final reported set is exactly the
/// starting set plus everything emitted.
pub proof fn lemma_run_emissions(reported: Set<Seq<char>>, ticks: Seq<Seq<ContainerObservation>>)
    ensures
        run_emissions(reported, ticks).no_duplicates(),
        forall|k: int|
            0 <= k < run_emissions(reported, ticks).len() ==> (!reported.contains(
                run_emissions(reported, ticks)[k],
            ) && run_emissions(reported, ticks)[k] != sidecar_name()),
        run_reported(reported, ticks) =~= reported + run_emissions(reported, ticks).to_set(),
    decreases ticks.len(),
{
    broadcast use vstd::set::group_set_axioms;

    let em = run_emissions(reported, ticks);
    if ticks.len() == 0 {
        assert(em.to_set() =~= Set::<Seq<char>>::empty());
        assert(run_reported(reported, ticks) =~= reported + em.to_set());
    } else {
        let first = ticks[0];
        let rest = ticks.drop_first();
        let em1 = tick_emissions(reported, first);
        let r1 = tick_reported(reported, first);
        let em2 = run_emissions(r1, rest);
        lemma_tick_emissions(reported, first);
        lemma_run_emissions(r1, rest);
        assert(em == em1 + em2);
        assert(forall|k: int| 0 <= k < em1.len() ==> em[k] == em1[k]);
        assert(forall|k: int| 0 <= k < em2.len() ==> em[em1.len() + k] == em2[k]);
        assert(em.no_duplicates()) by {
            assert forall|p: int, q: int|
                0 <= p < em.len() && 0 <= q < em.len() && p != q implies em[p] != em[q] by {
                if p < em1.len() && q < em1.len() {
                    assert(em1[p] != em1[q]);
                } else if p >= em1.len() && q >= em1.len() {
                    assert(em2[p - em1.len()] != em2[q - em1.len()]);
                } else {
                    let a = if p < em1.len() { p } else { q };
                    let b = if p < em1.len() { q } else { p };
                    assert(em1.to_set().contains(em1[a]));
                    assert(r1.contains(em1[a]));
                    assert(!r1.contains(em2[b - em1.len()]));
                }
            }
        }
        assert forall|k: int| 0 <= k < em.len() implies (!reported.contains(em[k]) && em[k]
            != sidecar_name()) by {
            if k < em1.len() {
            } else {
                assert(!r1.contains(em2[k - em1.len()]));
                assert(em2[k - em1.len()] != sidecar_name());
            }
        }
        assert(run_reported(reported, ticks) =~= reported + em.to_set()) by {
            assert(run_reported(reported, ticks) == run_reported(r1, rest));
            assert(run_reported(r1, rest) =~= r1 + em2.to_set());
            assert(r1 =~= reported + em1.to_set());
            assert(em.to_set() =~= em1.to_set() + em2.to_set()) by {
                assert forall|n: Seq<char>| em.to_set().contains(n) implies (em1.to_set() + em2
                    .to_set()).contains(n) by {
                    let k = choose|k: int| 0 <= k < em.len() && em[k] == n;
                    if k < em1.len() {
                        assert(em1[k] == n);
                    } else {
                        assert(em2[k - em1.len()] == n);
                    }
                }
                assert forall|n: Seq<char>| (em1.to_set() + em2.to_set()).contains(n) implies em
                    .to_set().contains(n) by {
                    if em1.to_set().contains(n) {
                        let k = choose|k: int| 0 <= k < em1.len() && em1[k] == n;
                        assert(em[k] == n);
                    } else {
                        let k = choose|k: int| 0 <= k < em2.len() && em2[k] == n;
                        assert(em[em1.len() + k] == n);
                    }
                }
            }
        }
    }
}

/// Exactly once, over any whole run: when a run starts with nothing
/// reported, emits only reportable names, and ends with the pod-finished
/// condition met — as many names reported as there are reportable
/// containers — then every reportable container's name was emitted in
/// exactly one step report, never zero and never more than one.
pub proof fn lemma_run_reports_each_container_exactly_once(
    ticks: Seq<Seq<ContainerObservation>>,
    reportable: Set<Seq<char>>,
)
    requires
        reportable.finite(),
        forall|k: int|
            0 <= k < run_emissions(Set::empty(), ticks).len() ==> reportable.contains(
                run_emissions(Set::empty(), ticks)[k],
            ),
        run_reported(Set::empty(), ticks).len() == reportable.len(),
    ensures
        run_emissions(Set::empty(), ticks).no_duplicates(),
        forall|n: Seq<char>|
            reportable.contains(n) <==> run_emissions(Set::empty(), ticks).to_set().contains(n),
{
    broadcast use vstd::set::group_set_axioms;

    let em = run_emissions(Set::empty(), ticks);
    lemma_run_emissions(Set::empty(), ticks);
    assert(run_reported(Set::empty(), ticks) =~= em.to_set()) by {
        assert(run_reported(Set::empty(), ticks) =~= Set::empty() + em.to_set());
    }
    assert(em.to_set().subset_of(reportable)) by {
        assert forall|n: Seq<char>| em.to_set().contains(n) implies reportable.contains(n) by {
            let k = choose|k: int| 0 <= k < em.len() && em[k] == n;
        }
    }
    lemma_subset_equality(em.to_set(), reportable);
}

} // verus!
