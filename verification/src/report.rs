//! Step reports and the aggregate success notification.
//!
//! A step report is built exactly once per reportable container,
//! immediately before emission, and never mutated afterwards. Its
//! conclusion is derived deterministically from the container's exit code.
//! The aggregate notification is built at most once per run, exactly when
//! every emitted step report concluded in success.

use vstd::prelude::*;
use crate::track::CompletionTracker;

verus! {

/// The conclusion derived from an exit code: success exactly for zero.
pub open spec fn conclusion_spec(exit_code: int) -> Seq<char> {
    if exit_code == 0 {
        "success"@
    } else {
        "failure"@
    }
}

/// Derive a step's conclusion from its exit code: success if and only if
/// the exit code is zero; every other value, negative signal-derived ones
/// included, is failure.
pub fn conclusion_of(exit_code: i32) -> (r: &'static str)
    ensures
        r@ == conclusion_spec(exit_code as int),
        (r@ == "success"@) <==> exit_code == 0,
{
    proof {
        reveal_strlit("success");
        reveal_strlit("failure");
        assert(("success"@)[0] == 's');
        assert(("failure"@)[0] == 'f');
        assert("success"@ != "failure"@);
    }
    if exit_code == 0 {
        "success"
    } else {
        "failure"
    }
}

/// A newly terminated, unreported, resolved step: everything its report
/// needs except the logs, which are fetched just before emission.
pub struct PendingReport {
    pub name: String,
    pub check_run_id: i32,
    pub exit_code: i32,
    pub started_at: Option<String>,
    pub finished_at: String,
}

/// The body of an update-check-run notification for one finished step.
pub struct CheckRunDetails {
    pub check_run_id: i32,
    pub repo_name: String,
    pub status: String,
    pub started_at: Option<String>,
    pub finished_at: Option<String>,
    pub logs: String,
    pub conclusion: String,
}

/// Build the step report for a pending step and its fetched logs. The
/// status is always "completed" and the conclusion follows the exit code.
pub fn build_step_report(pending: &PendingReport, repo_name: String, logs: String) -> (r:
    CheckRunDetails)
    ensures
        r.check_run_id == pending.check_run_id,
        r.repo_name == repo_name,
        r.status@ == "completed"@,
        r.started_at == pending.started_at,
        r.finished_at == Some(pending.finished_at),
        r.logs == logs,
        r.conclusion@ == conclusion_spec(pending.exit_code as int),
        (pending.exit_code == 0) <==> r.conclusion@ == "success"@,
{
    let started_at = match &pending.started_at {
        None => None,
        Some(s) => Some(s.clone()),
    };
    CheckRunDetails {
        check_run_id: pending.check_run_id,
        repo_name,
        status: String::from_str("completed"),
        started_at,
        finished_at: Some(pending.finished_at.clone()),
        logs,
        conclusion: String::from_str(conclusion_of(pending.exit_code)),
    }
}

/// The body of the single pipeline-wide success notification.
pub struct PodFinishedSuccessfullyRequest {
    pub step_section: i32,
    pub repo_name: String,
    pub commit_sha: String,
    pub branch_name: Option<String>,
}

/// Decide, once the tracker declares the pod finished, whether the
/// aggregate success notification fires, and build it: it is built if and
/// only if every recorded step concluded in success. When any step failed
/// nothing is emitted; failure visibility rests on the failing step's own
/// report.
pub fn aggregate_notification(
    tracker: &CompletionTracker,
    step_section: i32,
    repo_name: String,
    commit_sha: String,
    branch_name: Option<String>,
) -> (r: Option<PodFinishedSuccessfullyRequest>)
    ensures
        r is Some <==> tracker.all_ok(),
        r is Some ==> {
            &&& r->0.step_section == step_section
            &&& r->0.repo_name == repo_name
            &&& r->0.commit_sha == commit_sha
            &&& r->0.branch_name == branch_name
        },
{
    if tracker.all_steps_successful() {
        Some(
            PodFinishedSuccessfullyRequest { step_section, repo_name, commit_sha, branch_name },
        )
    } else {
        None
    }
}

} // verus!
