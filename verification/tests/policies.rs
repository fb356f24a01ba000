use sentinel::admission::{AdmissionRequest, DynamicObject};
use sentinel::config::{
    AllowedRegistriesPolicy, PoliciesConfig, PolicyMode, RequiredLabel, RequiredLabelsPolicy,
    ResourceLimitsPolicy, TopologySpreadPolicy,
};
use sentinel::engine::PolicyEngine;
use sentinel::json::JsonValue;
use sentinel::patch::PatchOperation;
use sentinel::webhook::{build_response, WebhookType};

fn jstr(v: &str) -> JsonValue {
    JsonValue::Str(v.to_string())
}

fn jobj(fields: Vec<(&str, JsonValue)>) -> JsonValue {
    JsonValue::Obj(fields.into_iter().map(|(k, v)| (k.to_string(), v)).collect())
}

fn jarr(items: Vec<JsonValue>) -> JsonValue {
    JsonValue::Arr(items)
}

fn base_policies() -> PoliciesConfig {
    PoliciesConfig {
        resource_limits: ResourceLimitsPolicy {
            enabled: false,
            mode: PolicyMode::Enforce,
            max_cpu_millicores: None,
            max_memory_mb: None,
            inject_defaults: false,
            default_cpu_request: "100m".to_string(),
            default_cpu_limit: "500m".to_string(),
            default_memory_request: "128Mi".to_string(),
            default_memory_limit: "512Mi".to_string(),
        },
        image_registry: AllowedRegistriesPolicy {
            enabled: false,
            mode: PolicyMode::Enforce,
            registries: vec![],
            allow_latest_tag: false,
        },
        labels: RequiredLabelsPolicy {
            enabled: false,
            mode: PolicyMode::Enforce,
            labels: vec![],
        },
        topology_spread: TopologySpreadPolicy {
            enabled: false,
            mode: PolicyMode::Enforce,
            max_skew: 1,
            topology_key: "topology.kubernetes.io/zone".to_string(),
            when_unsatisfiable: "DoNotSchedule".to_string(),
            inject_if_missing: false,
        },
    }
}

fn request(
    name: &str,
    kind: &str,
    data: JsonValue,
    labels: Option<Vec<(String, String)>>,
) -> AdmissionRequest {
    AdmissionRequest {
        uid: "uid-1".to_string(),
        kind: kind.to_string(),
        resource: "pods".to_string(),
        name: name.to_string(),
        operation: "CREATE".to_string(),
        object: Some(DynamicObject { generate_name: None, labels, data }),
    }
}

fn pod_with_container(container: JsonValue) -> JsonValue {
    jobj(vec![("spec", jobj(vec![("containers", jarr(vec![container]))]))])
}

#[test]
fn latest_tag_denied() {
    let mut policies = base_policies();
    policies.image_registry.enabled = true;
    policies.image_registry.registries = vec!["docker.io".to_string()];
    policies.image_registry.allow_latest_tag = false;
    let engine = PolicyEngine::new(policies);

    let data = pod_with_container(jobj(vec![("name", jstr("c")), ("image", jstr("nginx:latest"))]));
    let req = request("web", "Pod", data, None);
    let results = engine.evaluate_validate(&req);
    let resp = build_response(&req, &results, WebhookType::Validate);
    assert!(!resp.allowed);
    let msg = resp.message.expect("denial carries a message");
    assert!(
        msg.contains("image_registry: container 'c' image 'nginx:latest' uses tag 'latest'"),
        "unexpected message: {msg}"
    );
}

#[test]
fn untagged_image_defaults_to_latest() {
    let mut policies = base_policies();
    policies.image_registry.enabled = true;
    policies.image_registry.registries = vec!["docker.io".to_string()];
    let engine = PolicyEngine::new(policies);

    let data = pod_with_container(jobj(vec![("name", jstr("c")), ("image", jstr("nginx"))]));
    let req = request("web", "Pod", data, None);
    let results = engine.evaluate_validate(&req);
    let resp = build_response(&req, &results, WebhookType::Validate);
    assert!(!resp.allowed);
    let msg = resp.message.unwrap();
    assert!(msg.contains("uses tag '<none> (defaults to latest)'"), "unexpected message: {msg}");
}

#[test]
fn registry_not_allowed_denied() {
    let mut policies = base_policies();
    policies.image_registry.enabled = true;
    policies.image_registry.registries = vec!["gcr.io".to_string(), "quay.io".to_string()];
    policies.image_registry.allow_latest_tag = true;
    let engine = PolicyEngine::new(policies);

    let data = pod_with_container(jobj(vec![
        ("name", jstr("c")),
        ("image", jstr("evil.io/app:v1")),
    ]));
    let req = request("web", "Pod", data, None);
    let results = engine.evaluate_validate(&req);
    let resp = build_response(&req, &results, WebhookType::Validate);
    assert!(!resp.allowed);
    let msg = resp.message.unwrap();
    assert!(
        msg.contains(
            "container 'c' image 'evil.io/app:v1' uses registry 'evil.io' which is not in the allowed list [gcr.io, quay.io]"
        ),
        "unexpected message: {msg}"
    );
}

#[test]
fn missing_required_label_denied() {
    let mut policies = base_policies();
    policies.labels.enabled = true;
    policies.labels.labels = vec![RequiredLabel { key: "team".to_string(), pattern: None }];
    let engine = PolicyEngine::new(policies);

    let data = jobj(vec![("spec", jobj(vec![]))]);
    let req = request("web", "Pod", data, None);
    let results = engine.evaluate_validate(&req);
    let resp = build_response(&req, &results, WebhookType::Validate);
    assert!(!resp.allowed);
    let msg = resp.message.unwrap();
    assert!(
        msg.contains("labels: missing required label 'team' on Pod 'web'"),
        "unexpected message: {msg}"
    );
}

#[test]
fn label_pattern_mismatch_denied() {
    let mut policies = base_policies();
    policies.labels.enabled = true;
    policies.labels.labels = vec![RequiredLabel {
        key: "env".to_string(),
        pattern: Some("^prod-".to_string()),
    }];
    let engine = PolicyEngine::new(policies);

    let data = jobj(vec![]);
    let labels = Some(vec![("env".to_string(), "staging-a".to_string())]);
    let req = request("web", "Pod", data, labels);
    let results = engine.evaluate_validate(&req);
    let resp = build_response(&req, &results, WebhookType::Validate);
    assert!(!resp.allowed);
    let msg = resp.message.unwrap();
    assert!(
        msg.contains(
            "label 'env' on Pod 'web' has value 'staging-a' which does not match required pattern '^prod-'"
        ),
        "unexpected message: {msg}"
    );
}

#[test]
fn label_pattern_match_allowed() {
    let mut policies = base_policies();
    policies.labels.enabled = true;
    policies.labels.labels = vec![RequiredLabel {
        key: "env".to_string(),
        pattern: Some("^prod-".to_string()),
    }];
    let engine = PolicyEngine::new(policies);
    assert!(!engine.compiled_labels[0].degraded);

    let data = jobj(vec![]);
    let labels = Some(vec![("env".to_string(), "prod-eu".to_string())]);
    let req = request("web", "Pod", data, labels);
    let results = engine.evaluate_validate(&req);
    let resp = build_response(&req, &results, WebhookType::Validate);
    assert!(resp.allowed, "message: {:?}", resp.message);
}

#[test]
fn invalid_pattern_degrades_to_literal() {
    let mut policies = base_policies();
    policies.labels.enabled = true;
    policies.labels.labels = vec![RequiredLabel {
        key: "note".to_string(),
        pattern: Some("(".to_string()),
    }];
    let engine = PolicyEngine::new(policies);
    assert!(engine.compiled_labels[0].degraded);

    // A value holding the literal character matches the escaped pattern.
    let data = jobj(vec![]);
    let labels = Some(vec![("note".to_string(), "a(b".to_string())]);
    let req = request("web", "Pod", data, labels);
    let results = engine.evaluate_validate(&req);
    let resp = build_response(&req, &results, WebhookType::Validate);
    assert!(resp.allowed, "message: {:?}", resp.message);

    // One without it does not.
    let data = jobj(vec![]);
    let labels = Some(vec![("note".to_string(), "ab".to_string())]);
    let req = request("web", "Pod", data, labels);
    let results = engine.evaluate_validate(&req);
    let resp = build_response(&req, &results, WebhookType::Validate);
    assert!(!resp.allowed);
}

#[test]
fn cpu_over_maximum_denied() {
    let mut policies = base_policies();
    policies.resource_limits.enabled = true;
    policies.resource_limits.max_cpu_millicores = Some(1000);
    let engine = PolicyEngine::new(policies);

    let container = jobj(vec![
        ("name", jstr("c")),
        (
            "resources",
            jobj(vec![
                (
                    "requests",
                    jobj(vec![("cpu", jstr("2")), ("memory", jstr("128Mi"))]),
                ),
                (
                    "limits",
                    jobj(vec![("cpu", jstr("500m")), ("memory", jstr("128Mi"))]),
                ),
            ]),
        ),
    ]);
    let req = request("web", "Pod", pod_with_container(container), None);
    let results = engine.evaluate_validate(&req);
    let resp = build_response(&req, &results, WebhookType::Validate);
    assert!(!resp.allowed);
    let msg = resp.message.unwrap();
    assert!(
        msg.contains(
            "resource_limits: container 'c' requests cpu '2' (2000m) exceeds maximum allowed 1000m"
        ),
        "unexpected message: {msg}"
    );
}

#[test]
fn memory_over_maximum_denied() {
    let mut policies = base_policies();
    policies.resource_limits.enabled = true;
    policies.resource_limits.max_memory_mb = Some(512);
    let engine = PolicyEngine::new(policies);

    let container = jobj(vec![
        ("name", jstr("c")),
        (
            "resources",
            jobj(vec![
                (
                    "requests",
                    jobj(vec![("cpu", jstr("100m")), ("memory", jstr("1Gi"))]),
                ),
                (
                    "limits",
                    jobj(vec![("cpu", jstr("100m")), ("memory", jstr("256Mi"))]),
                ),
            ]),
        ),
    ]);
    let req = request("web", "Pod", pod_with_container(container), None);
    let results = engine.evaluate_validate(&req);
    let resp = build_response(&req, &results, WebhookType::Validate);
    assert!(!resp.allowed);
    let msg = resp.message.unwrap();
    assert!(
        msg.contains(
            "container 'c' requests memory '1Gi' (1024 Mi) exceeds maximum allowed 512 Mi"
        ),
        "unexpected message: {msg}"
    );
}

#[test]
fn inject_defaults_on_mutate() {
    let mut policies = base_policies();
    policies.resource_limits.enabled = true;
    policies.resource_limits.inject_defaults = true;
    let engine = PolicyEngine::new(policies);

    let data = jobj(vec![(
        "spec",
        jobj(vec![(
            "template",
            jobj(vec![(
                "spec",
                jobj(vec![("containers", jarr(vec![jobj(vec![("name", jstr("c"))])]))]),
            )]),
        )]),
    )]);
    let req = request("app", "Deployment", data, None);
    let results = engine.evaluate_mutate(&req);
    let resp = build_response(&req, &results, WebhookType::Mutate);
    assert!(resp.allowed, "message: {:?}", resp.message);
    assert_eq!(resp.patches.len(), 1);
    let PatchOperation::Add(op) = &resp.patches[0];
    let path: Vec<&str> = op.path.iter().map(|t| t.as_str()).collect();
    assert_eq!(path, vec!["spec", "template", "spec", "containers", "0", "resources"]);
    let requests = op.value.get("requests").expect("requests present");
    assert_eq!(requests.get("cpu").and_then(|v| v.as_str()), Some("100m"));
    assert_eq!(requests.get("memory").and_then(|v| v.as_str()), Some("128Mi"));
    let limits = op.value.get("limits").expect("limits present");
    assert_eq!(limits.get("cpu").and_then(|v| v.as_str()), Some("500m"));
    assert_eq!(limits.get("memory").and_then(|v| v.as_str()), Some("512Mi"));
}

#[test]
fn inject_topology_constraint_on_mutate() {
    let mut policies = base_policies();
    policies.topology_spread.enabled = true;
    policies.topology_spread.inject_if_missing = true;
    let engine = PolicyEngine::new(policies);

    let data = jobj(vec![(
        "spec",
        jobj(vec![(
            "template",
            jobj(vec![
                ("metadata", jobj(vec![("labels", jobj(vec![("app", jstr("web"))]))])),
                (
                    "spec",
                    jobj(vec![("containers", jarr(vec![jobj(vec![("name", jstr("c"))])]))]),
                ),
            ]),
        )]),
    )]);
    let req = request("app", "Deployment", data, None);
    let results = engine.evaluate_mutate(&req);
    let resp = build_response(&req, &results, WebhookType::Mutate);
    assert!(resp.allowed, "message: {:?}", resp.message);
    assert_eq!(resp.patches.len(), 1);
    let PatchOperation::Add(op) = &resp.patches[0];
    let path: Vec<&str> = op.path.iter().map(|t| t.as_str()).collect();
    assert_eq!(path, vec!["spec", "template", "spec", "topologySpreadConstraints"]);
    let arr = op.value.as_array().expect("one-element array");
    assert_eq!(arr.len(), 1);
    let constraint = &arr[0];
    assert_eq!(constraint.get("maxSkew").and_then(|v| v.as_i64()), Some(1));
    assert_eq!(
        constraint.get("topologyKey").and_then(|v| v.as_str()),
        Some("topology.kubernetes.io/zone")
    );
    assert_eq!(
        constraint.get("whenUnsatisfiable").and_then(|v| v.as_str()),
        Some("DoNotSchedule")
    );
    let selector = constraint.get("labelSelector").expect("labelSelector present");
    let match_labels = selector.get("matchLabels").expect("matchLabels present");
    assert_eq!(match_labels.get("app").and_then(|v| v.as_str()), Some("web"));
}

#[test]
fn warn_mode_max_skew_warns_without_denying() {
    let mut policies = base_policies();
    policies.topology_spread.enabled = true;
    policies.topology_spread.mode = PolicyMode::Warn;
    policies.topology_spread.max_skew = 1;
    let engine = PolicyEngine::new(policies);

    let data = jobj(vec![(
        "spec",
        jobj(vec![
            (
                "topologySpreadConstraints",
                jarr(vec![jobj(vec![
                    ("maxSkew", JsonValue::Int(3)),
                    ("topologyKey", jstr("zone")),
                ])]),
            ),
            ("containers", jarr(vec![])),
        ]),
    )]);
    let req = request("web", "Pod", data, None);
    let results = engine.evaluate_validate(&req);
    let resp = build_response(&req, &results, WebhookType::Validate);
    assert!(resp.allowed);
    assert_eq!(resp.warnings.len(), 1);
    assert_eq!(
        resp.warnings[0],
        "topology_spread: topologySpreadConstraints[0] on Pod 'web' has maxSkew=3 (topologyKey='zone') exceeding maximum 1"
    );
}

#[test]
fn absent_object_allows_everything() {
    let mut policies = base_policies();
    policies.resource_limits.enabled = true;
    policies.image_registry.enabled = true;
    policies.image_registry.registries = vec!["gcr.io".to_string()];
    policies.labels.enabled = true;
    policies.labels.labels = vec![RequiredLabel { key: "team".to_string(), pattern: None }];
    policies.topology_spread.enabled = true;
    let engine = PolicyEngine::new(policies);

    let req = AdmissionRequest {
        uid: "uid-2".to_string(),
        kind: "Pod".to_string(),
        resource: "pods".to_string(),
        name: "web".to_string(),
        operation: "DELETE".to_string(),
        object: None,
    };
    let results = engine.evaluate_mutate(&req);
    assert_eq!(results.len(), 4);
    for r in &results {
        assert!(r.allowed);
        assert!(r.patches.is_empty());
        assert!(r.warnings.is_empty());
    }
    let resp = build_response(&req, &results, WebhookType::Mutate);
    assert!(resp.allowed);
    assert!(resp.patches.is_empty());
    assert!(resp.warnings.is_empty());
}

#[test]
fn unknown_kind_is_a_no_op_for_every_policy() {
    let mut policies = base_policies();
    policies.resource_limits.enabled = true;
    policies.resource_limits.inject_defaults = true;
    policies.image_registry.enabled = true;
    policies.image_registry.registries = vec!["gcr.io".to_string()];
    policies.labels.enabled = true;
    policies.labels.labels = vec![RequiredLabel { key: "team".to_string(), pattern: None }];
    policies.topology_spread.enabled = true;
    policies.topology_spread.inject_if_missing = true;
    let engine = PolicyEngine::new(policies);

    let data = pod_with_container(jobj(vec![("name", jstr("c")), ("image", jstr("nginx:latest"))]));
    let req = request("svc", "Service", data, None);
    let results = engine.evaluate_mutate(&req);
    assert_eq!(results.len(), 4);
    for r in &results {
        assert!(r.allowed);
        assert!(r.patches.is_empty());
        assert!(r.warnings.is_empty());
    }
    let resp = build_response(&req, &results, WebhookType::Mutate);
    assert!(resp.allowed);
    assert!(resp.patches.is_empty());
    assert!(resp.warnings.is_empty());
}
