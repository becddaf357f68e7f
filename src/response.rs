use vstd::prelude::*;
use vstd::string::StringExecFns;

use crate::error::DomainError;

verus! {

/// The answer of the API to a force-update or restart request.
#[derive(Clone, Debug)]
pub struct UpdateResponse {
    pub success: bool,
    pub message: String,
    pub ip_address: Option<String>,
    pub domain: Option<String>,
    /// Whether the request ran to completion and its passes succeeded.
    pub updated: bool,
}

impl UpdateResponse {
    /// A fire-and-forget request was accepted; its outcome is not known yet.
    pub fn accepted(domain: Option<String>, ip_address: Option<String>) -> (r: UpdateResponse)
        ensures
            r.success,
            !r.updated,
            r.domain == domain,
            r.ip_address == ip_address,
            r.message@ == "update request sent"@,
    {
        UpdateResponse {
            success: true,
            message: String::from_str("update request sent"),
            ip_address,
            domain,
            updated: false,
        }
    }

    /// No running service matched the request. This is an expected outcome,
    /// reported with `success == false` rather than as a fault.
    pub fn not_found(domain: Option<String>) -> (r: UpdateResponse)
        ensures
            !r.success,
            !r.updated,
            r.domain == domain,
            r.ip_address is None,
            r.message@ == "no running service matches the request"@,
    {
        UpdateResponse {
            success: false,
            message: String::from_str("no running service matches the request"),
            ip_address: None,
            domain,
            updated: false,
        }
    }

    /// The answer to a synchronous force-update of the record of `domain`,
    /// given the outcome of its pass.
    pub fn from_force_update(domain: String, outcome: Result<(String, String), DomainError>) -> (r:
        UpdateResponse)
        ensures
            r.domain.deep_view() == Some(domain@),
            outcome matches Ok(pair) ==> {
                &&& r.success
                &&& r.updated
                &&& r.ip_address.deep_view() == Some(pair.1@)
                &&& r.message@ == "DNS record updated"@
            },
            outcome matches Err(e) ==> {
                &&& !r.success
                &&& !r.updated
                &&& r.ip_address is None
                &&& r.message@ == e.message_spec()
            },
    {
        match outcome {
            Ok((_, ip)) => UpdateResponse {
                success: true,
                message: String::from_str("DNS record updated"),
                ip_address: Some(ip),
                domain: Some(domain),
                updated: true,
            },
            Err(e) => UpdateResponse {
                success: false,
                message: e.message().clone(),
                ip_address: None,
                domain: Some(domain),
                updated: false,
            },
        }
    }

    /// The answer to a synchronous force-update of all records, given the
    /// outcome of each pass: success when every pass succeeded, and updated
    /// when moreover there was at least one.
    pub fn from_all(outcomes: &Vec<Result<(String, String), DomainError>>) -> (r: UpdateResponse)
        ensures
            r.success == forall|i: int| 0 <= i < outcomes@.len() ==> (#[trigger] outcomes@[i]) is Ok,
            r.updated == (r.success && outcomes@.len() > 0),
            r.ip_address is None,
            r.domain is None,
    {
        let mut all_ok = true;
        let mut i: usize = 0;
        while i < outcomes.len()
            invariant
                i <= outcomes@.len(),
                all_ok == forall|j: int| 0 <= j < i ==> (#[trigger] outcomes@[j]) is Ok,
            decreases outcomes@.len() - i,
        {
            if outcomes[i].is_err() {
                all_ok = false;
            }
            i = i + 1;
        }
        let message = if outcomes.len() == 0 {
            String::from_str("no DNS record to update")
        } else if all_ok {
            String::from_str("all DNS records updated")
        } else {
            String::from_str("some DNS records failed to update")
        };
        UpdateResponse {
            success: all_ok,
            message,
            ip_address: None,
            domain: None,
            updated: all_ok && outcomes.len() > 0,
        }
    }

    /// A restart request was accepted.
    pub fn restart_requested() -> (r: UpdateResponse)
        ensures
            r.success,
            !r.updated,
            r.ip_address is None,
            r.domain is None,
            r.message@ == "restart request sent"@,
    {
        UpdateResponse {
            success: true,
            message: String::from_str("restart request sent"),
            ip_address: None,
            domain: None,
            updated: false,
        }
    }
}

} // verus!
