//! What every policy shares: the policy output record and the utilities
//! that locate the pod spec and containers inside a workload object.

pub mod image_registry;
pub mod labels;
pub mod resource_limits;
pub mod topology_spread;

use vstd::prelude::*;

use crate::admission::{AdmissionRequest, AdmissionRequestView, DynamicObject, DynamicObjectView};
use crate::json::{jv_get, Json, JsonValue};
use crate::patch::PatchOperation;
use crate::strutil::str_eq;

verus! {

/// What one policy returns: violations and patches, in the order found.
pub struct PolicyOutput {
    pub violations: Vec<String>,
    pub patches: Vec<PatchOperation>,
}

impl PolicyOutput {
    /// A policy is allowed exactly when it found no violations.
    pub open spec fn spec_allowed(&self) -> bool {
        self.violations@.len() == 0
    }

    /// The output of a policy with nothing to report.
    pub fn allowed() -> (r: PolicyOutput)
        ensures
            r.violations@.len() == 0,
            r.patches@.len() == 0,
    {
        PolicyOutput { violations: Vec::new(), patches: Vec::new() }
    }
}

/// The kinds whose pod template lives at `spec.template.spec`.
pub open spec fn is_template_kind(kind: Seq<char>) -> bool {
    ||| kind == "Deployment"@
    ||| kind == "ReplicaSet"@
    ||| kind == "StatefulSet"@
    ||| kind == "DaemonSet"@
    ||| kind == "Job"@
}

/// The pod spec of an object, selected by workload kind; `None` for kinds
/// outside the table, which makes every policy a no-op.
pub open spec fn spec_pod_spec(data: Json, kind: Seq<char>) -> Option<Json> {
    if kind == "Pod"@ {
        jv_get(data, "spec"@)
    } else if is_template_kind(kind) {
        match jv_get(data, "spec"@) {
            Some(s) => match jv_get(s, "template"@) {
                Some(t) => jv_get(t, "spec"@),
                None => None,
            },
            None => None,
        }
    } else if kind == "CronJob"@ {
        match jv_get(data, "spec"@) {
            Some(s) => match jv_get(s, "jobTemplate"@) {
                Some(j) => match jv_get(j, "spec"@) {
                    Some(js) => match jv_get(js, "template"@) {
                        Some(t) => jv_get(t, "spec"@),
                        None => None,
                    },
                    None => None,
                },
                None => None,
            },
            None => None,
        }
    } else {
        None
    }
}

pub fn get_pod_spec<'a>(data: &'a JsonValue, kind: &str) -> (r: Option<&'a JsonValue>)
    ensures
        match r {
            Some(v) => spec_pod_spec(data@, kind@) == Some(v@),
            None => spec_pod_spec(data@, kind@) is None,
        },
{
    if str_eq(kind, "Pod") {
        data.get("spec")
    } else if str_eq(kind, "Deployment") || str_eq(kind, "ReplicaSet") || str_eq(
        kind,
        "StatefulSet",
    ) || str_eq(kind, "DaemonSet") || str_eq(kind, "Job") {
        match data.get("spec") {
            Some(s) => match s.get("template") {
                Some(t) => t.get("spec"),
                None => None,
            },
            None => None,
        }
    } else if str_eq(kind, "CronJob") {
        match data.get("spec") {
            Some(s) => match s.get("jobTemplate") {
                Some(j) => match j.get("spec") {
                    Some(js) => match js.get("template") {
                        Some(t) => t.get("spec"),
                        None => None,
                    },
                    None => None,
                },
                None => None,
            },
            None => None,
        }
    } else {
        None
    }
}

/// The workload kinds of the pod-spec table.
pub open spec fn known_kind(kind: Seq<char>) -> bool {
    kind == "Pod"@ || is_template_kind(kind) || kind == "CronJob"@
}

pub fn is_known_kind(kind: &str) -> (r: bool)
    ensures
        r == known_kind(kind@),
{
    str_eq(kind, "Pod") || str_eq(kind, "Deployment") || str_eq(kind, "ReplicaSet") || str_eq(
        kind,
        "StatefulSet",
    ) || str_eq(kind, "DaemonSet") || str_eq(kind, "Job") || str_eq(kind, "CronJob")
}

/// The JSON-Pointer prefix (without leading slash) of the pod spec for a
/// workload kind.
pub open spec fn spec_prefix_of(kind: Seq<char>) -> Seq<char> {
    if kind == "Pod"@ {
        "spec"@
    } else if kind == "CronJob"@ {
        "spec/jobTemplate/spec/template/spec"@
    } else {
        "spec/template/spec"@
    }
}

pub fn spec_prefix(kind: &str) -> (r: &'static str)
    ensures
        r@ == spec_prefix_of(kind@),
{
    if str_eq(kind, "Pod") {
        "spec"
    } else if str_eq(kind, "CronJob") {
        "spec/jobTemplate/spec/template/spec"
    } else {
        "spec/template/spec"
    }
}

/// The same prefix as an unescaped token sequence.
pub open spec fn spec_prefix_tokens(kind: Seq<char>) -> Seq<Seq<char>> {
    if kind == "Pod"@ {
        seq!["spec"@]
    } else if kind == "CronJob"@ {
        seq!["spec"@, "jobTemplate"@, "spec"@, "template"@, "spec"@]
    } else {
        seq!["spec"@, "template"@, "spec"@]
    }
}

pub fn prefix_tokens(kind: &str) -> (r: Vec<String>)
    ensures
        r.deep_view() == spec_prefix_tokens(kind@),
{
    let mut r: Vec<String> = Vec::new();
    r.push(String::from_str("spec"));
    if str_eq(kind, "Pod") {
        proof {
            assert(r.deep_view() =~= spec_prefix_tokens(kind@));
        }
        r
    } else if str_eq(kind, "CronJob") {
        r.push(String::from_str("jobTemplate"));
        r.push(String::from_str("spec"));
        r.push(String::from_str("template"));
        r.push(String::from_str("spec"));
        proof {
            assert(r.deep_view() =~= spec_prefix_tokens(kind@));
        }
        r
    } else {
        r.push(String::from_str("template"));
        r.push(String::from_str("spec"));
        proof {
            assert(r.deep_view() =~= spec_prefix_tokens(kind@));
        }
        r
    }
}

/// The containers of a pod spec, in declared order; absent or non-array
/// `containers` yields the empty sequence.
pub open spec fn spec_containers(pod_spec: Json) -> Seq<Json> {
    match jv_get(pod_spec, "containers"@) {
        Some(Json::Arr(a)) => a,
        _ => Seq::empty(),
    }
}

pub fn get_containers<'a>(pod_spec: &'a JsonValue) -> (r: Vec<(usize, &'a JsonValue)>)
    ensures
        r@.len() == spec_containers(pod_spec@).len(),
        forall|i: int| 0 <= i < r@.len() ==> (#[trigger] r@[i]).0 == i && r@[i].1@
            == spec_containers(pod_spec@)[i],
{
    match pod_spec.get("containers") {
        Some(c) => match c.as_array() {
            Some(arr) => {
                let mut r: Vec<(usize, &'a JsonValue)> = Vec::new();
                let mut i: usize = 0;
                while i < arr.len()
                    invariant
                        i <= arr@.len(),
                        r@.len() == i,
                        spec_containers(pod_spec@).len() == arr@.len(),
                        forall|j: int| 0 <= j < arr@.len() ==> spec_containers(pod_spec@)[j]
                            == crate::json::jv_view(arr@[j]),
                        forall|j: int| 0 <= j < i ==> (#[trigger] r@[j]).0 == j && r@[j].1@
                            == spec_containers(pod_spec@)[j],
                    decreases arr@.len() - i,
                {
                    r.push((i, &arr[i]));
                    i += 1;
                }
                r
            },
            None => Vec::new(),
        },
        None => Vec::new(),
    }
}

/// The `name` of a container, or `<unnamed>` when it has none.
pub open spec fn spec_container_name(c: Json) -> Seq<char> {
    match jv_get(c, "name"@) {
        Some(Json::Str(s)) => s,
        _ => "<unnamed>"@,
    }
}

pub fn container_name<'a>(container: &'a JsonValue) -> (r: &'a str)
    ensures
        r@ == spec_container_name(container@),
{
    match container.get("name") {
        Some(n) => match n.as_str() {
            Some(s) => s,
            None => "<unnamed>",
        },
        None => "<unnamed>",
    }
}

/// The name a violation message refers the object by: the request's name,
/// else the object's generateName, else `<unknown>`.
pub open spec fn spec_resource_name(req: AdmissionRequestView, obj: DynamicObjectView) -> Seq<
    char,
> {
    if req.name.len() == 0 {
        match obj.generate_name {
            Some(g) => g,
            None => "<unknown>"@,
        }
    } else {
        req.name
    }
}

pub fn resource_name<'a>(request: &'a AdmissionRequest, object: &'a DynamicObject) -> (r: &'a str)
    ensures
        r@ == spec_resource_name(request@, object@),
{
    if request.name.as_str().is_empty() {
        match &object.generate_name {
            Some(g) => g.as_str(),
            None => "<unknown>",
        }
    } else {
        request.name.as_str()
    }
}

} // verus!
