//! Metric label sets and the pure computation of their values; the
//! counters themselves live with the process around the engine.

use vstd::prelude::*;

use crate::admission::AdmissionRequest;
use crate::config::{PoliciesConfig, PolicyName};
use crate::engine::PolicyResult;
use crate::webhook::{mode_str, spec_mode_str};

verus! {

/// Labels of the admission request counter.
pub struct RequestLabels {
    pub operation: String,
    pub resource: String,
    pub webhook: &'static str,
}

/// Labels of the admission response counter.
pub struct ResponseLabels {
    pub allowed: &'static str,
    pub webhook: &'static str,
}

/// Labels of the policy evaluation counter.
pub struct PolicyEvalLabels {
    pub policy: &'static str,
    pub result: &'static str,
    pub mode: &'static str,
}

/// Labels of the per-webhook duration histogram.
pub struct WebhookLabels {
    pub webhook: &'static str,
}

/// Labels of the per-policy families.
pub struct PolicyLabels {
    pub policy: &'static str,
}

pub fn request_labels(request: &AdmissionRequest, webhook: &'static str) -> (r: RequestLabels)
    ensures
        r.operation@ == request.operation@,
        r.resource@ == request.resource@,
        r.webhook@ == webhook@,
{
    RequestLabels {
        operation: request.operation.clone(),
        resource: request.resource.clone(),
        webhook,
    }
}

pub fn response_labels(allowed: bool, webhook: &'static str) -> (r: ResponseLabels)
    ensures
        r.allowed@ == (if allowed {
            "true"@
        } else {
            "false"@
        }),
        r.webhook@ == webhook@,
{
    ResponseLabels {
        allowed: if allowed {
            "true"
        } else {
            "false"
        },
        webhook,
    }
}

/// The labels one policy evaluation is counted under: its name, how it
/// ended, and the mode that decided that.
pub fn policy_eval_labels(config: &PoliciesConfig, result: &PolicyResult) -> (r: PolicyEvalLabels)
    ensures
        r.policy@ == result.policy_name.spec_str(),
        r.result@ == (if !result.allowed {
            "denied"@
        } else if result.warnings@.len() > 0 {
            "warning"@
        } else {
            "allowed"@
        }),
        r.mode@ == (if result.allowed && result.warnings@.len() == 0 {
            spec_mode_str(config.spec_policy_mode(result.policy_name))
        } else if !result.allowed {
            "enforce"@
        } else {
            "warn"@
        }),
{
    let mode: &'static str = if result.allowed && result.warnings.len() == 0 {
        mode_str(config.policy_mode(result.policy_name))
    } else if !result.allowed {
        "enforce"
    } else {
        "warn"
    };
    let eval_result: &'static str = if !result.allowed {
        "denied"
    } else if result.warnings.len() > 0 {
        "warning"
    } else {
        "allowed"
    };
    PolicyEvalLabels { policy: result.policy_name.as_str(), result: eval_result, mode }
}

pub fn policy_labels(name: PolicyName) -> (r: PolicyLabels)
    ensures
        r.policy@ == name.spec_str(),
{
    PolicyLabels { policy: name.as_str() }
}

} // verus!
