//! The completion tracker: the sidecar's core state machine.
//!
//! The tracker owns the monotonically growing record of containers already
//! reported as terminated, together with the running conjunction of their
//! conclusions. A name, once recorded, is never removed or re-reported; the
//! sidecar's own container is never recorded at all. The pod is finished
//! exactly when the number of recorded names equals the number of
//! reportable containers, compared with strict equality.

use vstd::prelude::*;
use vstd::set_lib::lemma_subset_equality;
use crate::classify::ContainerObservation;
use crate::text::str_eq;

verus! {

/// The reserved name of the sidecar's own infrastructure container, which
/// is never reported as a step.
pub open spec fn sidecar_name() -> Seq<char> {
    "kubes-cd-sidecar"@
}

/// Whether `name` is the reserved sidecar container name.
pub fn is_sidecar_name(name: &str) -> (r: bool)
    ensures
        r == (name@ == sidecar_name()),
{
    str_eq(name, "kubes-cd-sidecar")
}

/// The names of a tick's observations, in observation order.
pub open spec fn observed_names(obs: Seq<ContainerObservation>) -> Seq<Seq<char>> {
    obs.map_values(|o: ContainerObservation| o.name@)
}

/// The reportable names among `names`: every name except the sidecar's,
/// kept in order.
pub open spec fn reportable_names(names: Seq<Seq<char>>) -> Seq<Seq<char>> {
    names.filter(|n: Seq<char>| n != sidecar_name())
}

/// How many of a tick's observed containers are reportable: the total
/// number of containers minus the sidecar's occurrences.
pub open spec fn reportable_count_of(obs: Seq<ContainerObservation>) -> nat {
    reportable_names(observed_names(obs)).len()
}

/// Count the reportable containers in one tick's observations.
pub fn reportable_count(observations: &Vec<ContainerObservation>) -> (n: usize)
    ensures
        n == reportable_count_of(observations@),
{
    let len = observations.len();
    let mut n: usize = 0;
    let mut i: usize = 0;
    while i < len
        invariant
            i <= len,
            len == observations@.len(),
            n <= i,
            n == reportable_count_of(observations@.subrange(0, i as int)),
        decreases len - i,
    {
        proof {
            let pre = observations@.subrange(0, i as int);
            let post = observations@.subrange(0, i + 1 as int);
            assert(post.drop_last() =~= pre);
            assert(post =~= pre.push(observations@[i as int]));
            pre.lemma_push_map_commute(
                |o: ContainerObservation| o.name@,
                observations@[i as int],
            );
            observed_names(pre).lemma_filter_len_push(
                |nm: Seq<char>| nm != sidecar_name(),
                observations@[i as int].name@,
            );
        }
        if !is_sidecar_name(observations[i].name.as_str()) {
            n = n + 1;
        }
        i = i + 1;
    }
    proof {
        assert(observations@.subrange(0, len as int) =~= observations@);
    }
    n
}

/// The monotonic record of containers already reported as terminated,
/// with the running conjunction of their conclusions.
pub struct CompletionTracker {
    completed: Vec<String>,
    all_successful: bool,
    conclusions: Ghost<Seq<bool>>,
}

impl CompletionTracker {
    /// The names reported so far, in reporting order.
    pub closed spec fn completed_seq(&self) -> Seq<Seq<char>> {
        self.completed.deep_view()
    }

    /// The set of names reported so far.
    pub open spec fn completed_set(&self) -> Set<Seq<char>> {
        self.completed_seq().to_set()
    }

    /// The conclusions recorded so far, in reporting order; `true` stands
    /// for a successful step.
    pub closed spec fn conclusions(&self) -> Seq<bool> {
        self.conclusions@
    }

    /// Whether every step reported so far concluded in success.
    pub closed spec fn all_ok(&self) -> bool {
        self.all_successful
    }

    /// Well-formedness: no name is ever reported twice, the sidecar's own
    /// container is never reported, each reported name carries one
    /// conclusion, and the success flag is exactly the conjunction of all
    /// recorded conclusions.
    pub closed spec fn wf(&self) -> bool {
        &&& self.completed_seq().no_duplicates()
        &&& (forall|i: int|
            0 <= i < self.completed_seq().len() ==> self.completed_seq()[i] != sidecar_name())
        &&& self.conclusions@.len() == self.completed_seq().len()
        &&& self.all_successful == (forall|i: int|
            0 <= i < self.conclusions@.len() ==> self.conclusions@[i])
    }

    /// A fresh tracker: nothing reported, conjunction vacuously true.
    pub fn new() -> (t: Self)
        ensures
            t.wf(),
            t.completed_seq() == Seq::<Seq<char>>::empty(),
            t.conclusions() == Seq::<bool>::empty(),
            t.all_ok(),
    {
        let t = CompletionTracker {
            completed: Vec::new(),
            all_successful: true,
            conclusions: Ghost(Seq::empty()),
        };
        proof {
            assert(t.completed_seq() =~= Seq::<Seq<char>>::empty());
        }
        t
    }

    /// Whether `name` has already been reported.
    pub fn is_reported(&self, name: &str) -> (r: bool)
        ensures
            r == self.completed_set().contains(name@),
    {
        let len = self.completed.len();
        let mut i: usize = 0;
        while i < len
            invariant
                i <= len,
                len == self.completed@.len(),
                forall|j: int| 0 <= j < i ==> self.completed_seq()[j] != name@,
            decreases len - i,
        {
            if str_eq(self.completed[i].as_str(), name) {
                proof {
                    assert(self.completed_seq()[i as int] == name@);
                    assert(self.completed_seq().contains(name@));
                }
                return true;
            }
            i = i + 1;
        }
        proof {
            if self.completed_seq().contains(name@) {
                let j = choose|j: int|
                    0 <= j < self.completed_seq().len() && self.completed_seq()[j] == name@;
                assert(self.completed_seq()[j] != name@);
            }
        }
        false
    }

    /// Whether this tick's sweep skips `name` without classifying it: the
    /// sidecar's own container and every already-reported container are
    /// skipped unconditionally.
    pub fn should_skip(&self, name: &str) -> (r: bool)
        ensures
            r == (name@ == sidecar_name() || self.completed_set().contains(name@)),
    {
        if is_sidecar_name(name) {
            true
        } else {
            self.is_reported(name)
        }
    }

    /// Record that `name`'s step report was emitted with the given
    /// conclusion. The completion set grows by exactly this one name and
    /// the success flag keeps the conjunction of all conclusions.
    pub fn record(&mut self, name: String, success: bool)
        requires
            old(self).wf(),
            !old(self).completed_set().contains(name@),
            name@ != sidecar_name(),
        ensures
            final(self).wf(),
            final(self).completed_seq() == old(self).completed_seq().push(name@),
            final(self).conclusions() == old(self).conclusions().push(success),
            final(self).all_ok() == (old(self).all_ok() && success),
            final(self).completed_set() == old(self).completed_set().insert(name@),
            final(self).completed_set().len() == old(self).completed_set().len() + 1,
    {
        let ghost os = self.completed_seq();
        let ghost oc = self.conclusions@;
        let ghost nm = name@;
        self.conclusions = Ghost(self.conclusions@.push(success));
        self.all_successful = self.all_successful && success;
        self.completed.push(name);
        proof {
            let ns = self.completed_seq();
            let nc = self.conclusions@;
            assert(ns =~= os.push(nm));
            if os.contains(nm) {
                let j = choose|j: int| 0 <= j < os.len() && os[j] == nm;
                assert(os.to_set().contains(nm));
            }
            assert(ns.no_duplicates()) by {
                assert(forall|p: int| 0 <= p < os.len() ==> ns[p] == os[p]);
                assert(ns[os.len() as int] == nm);
                assert(!os.contains(nm));
            }
            assert(self.all_successful == (forall|i: int| 0 <= i < nc.len() ==> nc[i])) by {
                if (forall|i: int| 0 <= i < oc.len() ==> oc[i]) && success {
                    assert forall|i: int| 0 <= i < nc.len() implies nc[i] by {
                        if i < oc.len() {
                            assert(oc[i]);
                        } else {
                            assert(nc[i] == success);
                        }
                    }
                } else if !success {
                    assert(!nc[oc.len() as int]);
                } else {
                    let i = choose|i: int| 0 <= i < oc.len() && !oc[i];
                    assert(!nc[i]);
                }
            }
            os.lemma_push_to_set_commute(nm);
            assert(self.completed_set() =~= os.to_set().insert(nm));
            os.unique_seq_to_set();
            ns.unique_seq_to_set();
        }
    }

    /// How many containers have been reported so far.
    pub fn reported_count(&self) -> (n: usize)
        ensures
            n == self.completed_seq().len(),
    {
        self.completed.len()
    }

    /// Whether all steps reported so far succeeded.
    pub fn all_steps_successful(&self) -> (r: bool)
        ensures
            r == self.all_ok(),
    {
        self.all_successful
    }

    /// The pod-finished condition, evaluated after each tick's sweep: the
    /// number of reported containers equals the number of reportable
    /// containers, with strict equality in both directions.
    pub fn is_finished(&self, reportable: usize) -> (r: bool)
        ensures
            r == (self.completed_seq().len() == reportable),
    {
        self.completed.len() == reportable
    }
}

/// Every step is reported exactly once: when the tracker is well formed,
/// every reported name was reported only once (the reported names hold no
/// duplicates), and once the pod-finished condition holds against a set of
/// reportable names that covers everything reported, every reportable name
/// has been reported — none was skipped.
pub proof fn lemma_finished_reports_each_exactly_once(
    t: CompletionTracker,
    reportable: Set<Seq<char>>,
)
    requires
        t.wf(),
        reportable.finite(),
        forall|i: int| 0 <= i < t.completed_seq().len() ==> reportable.contains(t.completed_seq()[i]),
        t.completed_seq().len() == reportable.len(),
    ensures
        t.completed_seq().no_duplicates(),
        forall|n: Seq<char>| reportable.contains(n) <==> t.completed_set().contains(n),
{
    t.completed_seq().unique_seq_to_set();
    assert(t.completed_set().subset_of(reportable)) by {
        assert forall|n: Seq<char>| t.completed_set().contains(n) implies reportable.contains(
            n,
        ) by {
            let j = choose|j: int|
                0 <= j < t.completed_seq().len() && t.completed_seq()[j] == n;
            assert(reportable.contains(t.completed_seq()[j]));
        }
    }
    lemma_subset_equality(t.completed_set(), reportable);
}

/// The pod-finished condition cannot hold strictly before every reportable
/// container is reported: while any reportable name is still unreported,
/// the reported count stays strictly below the reportable count, so the
/// loop never exits a tick early.
pub proof fn lemma_not_finished_while_any_unreported(
    t: CompletionTracker,
    reportable: Set<Seq<char>>,
    missing: Seq<char>,
)
    requires
        t.wf(),
        reportable.finite(),
        forall|i: int| 0 <= i < t.completed_seq().len() ==> reportable.contains(t.completed_seq()[i]),
        reportable.contains(missing),
        !t.completed_set().contains(missing),
    ensures
        t.completed_seq().len() < reportable.len(),
{
    t.completed_seq().unique_seq_to_set();
    assert(t.completed_set().subset_of(reportable)) by {
        assert forall|n: Seq<char>| t.completed_set().contains(n) implies reportable.contains(
            n,
        ) by {
            let j = choose|j: int|
                0 <= j < t.completed_seq().len() && t.completed_seq()[j] == n;
            assert(reportable.contains(t.completed_seq()[j]));
        }
    }
    t.completed_set().lemma_subset_not_in_lt(reportable, missing);
}

/// The sidecar container is invisible to completion: it is never in the
/// completion set, and it never counts toward the reportable container
/// count.
pub proof fn lemma_sidecar_never_counted(t: CompletionTracker, obs: Seq<ContainerObservation>)
    requires
        t.wf(),
    ensures
        !t.completed_set().contains(sidecar_name()),
        forall|i: int|
            0 <= i < reportable_names(observed_names(obs)).len()
                ==> reportable_names(observed_names(obs))[i] != sidecar_name(),
{
    if t.completed_set().contains(sidecar_name()) {
        let j = choose|j: int|
            0 <= j < t.completed_seq().len() && t.completed_seq()[j] == sidecar_name();
        assert(t.completed_seq()[j] != sidecar_name());
    }
    let names = observed_names(obs);
    let pred = |n: Seq<char>| n != sidecar_name();
    assert forall|i: int| 0 <= i < names.filter(pred).len() implies names.filter(pred)[i]
        != sidecar_name() by {
        names.lemma_filter_pred(pred, i);
    }
}

/// The aggregate success notification fires exactly when the conjunction
/// of all recorded conclusions is true.
pub proof fn lemma_aggregate_iff_all_conclusions_ok(t: CompletionTracker)
    requires
        t.wf(),
    ensures
        t.all_ok() <==> (forall|i: int| 0 <= i < t.conclusions().len() ==> t.conclusions()[i]),
{
    if t.all_ok() {
        assert forall|i: int| 0 <= i < t.conclusions().len() implies t.conclusions()[i] by {
            assert(t.conclusions@[i]);
        }
    } else {
        let i = choose|i: int| 0 <= i < t.conclusions@.len() && !t.conclusions@[i];
        assert(!t.conclusions()[i]);
    }
}

} // verus!
