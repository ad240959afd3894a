//! The controller notification client's identity and request URLs.
//!
//! The client carries the installation id being notified, the name of the
//! observed pod (sent as the User-Agent of every notification), and the
//! controller's base URL. The transport itself lives outside the library;
//! here the two request URLs are computed and pinned down exactly.

use vstd::prelude::*;
use crate::text::{dec_str, u32_to_dec};

verus! {

/// Identity and target of the controller notifications.
pub struct KubesCDControllerClient {
    /// The controller installation being notified.
    pub installation_id: u32,
    /// The observed pod's name, sent as the User-Agent.
    pub pod_name: String,
    /// The controller's base URL, without a trailing slash.
    pub base_url: String,
}

impl KubesCDControllerClient {
    /// The URL that a step's update-check-run notification posts to.
    pub open spec fn update_check_run_url_spec(&self) -> Seq<char> {
        self.base_url@ + "/update-check-run/"@ + dec_str(self.installation_id as int)
    }

    /// The URL that the pod-finished notification posts to.
    pub open spec fn pod_finished_url_spec(&self) -> Seq<char> {
        self.base_url@ + "/pod-finished/"@ + dec_str(self.installation_id as int)
    }

    /// Compute the update-check-run request URL.
    pub fn update_check_run_url(&self) -> (r: String)
        ensures
            r@ == self.update_check_run_url_spec(),
    {
        let mut url = self.base_url.clone();
        url.append("/update-check-run/");
        let id = u32_to_dec(self.installation_id);
        url.append(id.as_str());
        url
    }

    /// Compute the pod-finished request URL.
    pub fn pod_finished_url(&self) -> (r: String)
        ensures
            r@ == self.pod_finished_url_spec(),
    {
        let mut url = self.base_url.clone();
        url.append("/pod-finished/");
        let id = u32_to_dec(self.installation_id);
        url.append(id.as_str());
        url
    }
}

} // verus!
