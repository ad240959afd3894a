//! The fatal error taxonomy of the sidecar.
//!
//! Every failure is terminal for the process: the caller logs the error and
//! exits. No variant is retried.

use vstd::prelude::*;

verus! {

/// Why the sidecar must abort.
#[derive(Clone, Copy, Debug, PartialEq, Eq, Structural)]
pub enum SidecarError {
    /// Required configuration is absent or unparsable at startup.
    ConfigMissing,
    /// A pod or log fetch against the cluster API failed.
    ClusterApiError,
    /// The pod status, spec, or a container state is missing a field the
    /// collaborator contract promises (for example a terminated container
    /// without termination details).
    UnexpectedShape,
    /// No check-run id could be resolved for a terminated container.
    /// Skipping it silently would break exactly-once reporting, so the
    /// process aborts instead.
    IdResolutionError,
    /// The HTTP notification to the controller failed.
    NotificationTransportError,
}

impl SidecarError {
    /// A fixed human-readable description of the error.
    pub fn describe(&self) -> (r: &'static str)
        ensures
            *self is ConfigMissing ==> r@ == "required configuration is missing or unparsable"@,
            *self is ClusterApiError ==> r@ == "pod or log fetch from the cluster failed"@,
            *self is UnexpectedShape ==> r@ == "pod data is missing an expected field"@,
            *self is IdResolutionError ==> r@ == "no check-run id found for a terminated container"@,
            *self is NotificationTransportError ==> r@ == "notifying the controller failed"@,
    {
        match self {
            SidecarError::ConfigMissing => "required configuration is missing or unparsable",
            SidecarError::ClusterApiError => "pod or log fetch from the cluster failed",
            SidecarError::UnexpectedShape => "pod data is missing an expected field",
            SidecarError::IdResolutionError => "no check-run id found for a terminated container",
            SidecarError::NotificationTransportError => "notifying the controller failed",
        }
    }
}

} // verus!
