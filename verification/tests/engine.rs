use sentinel::admission::{AdmissionRequest, DynamicObject};
use sentinel::config::{
    AllowedRegistriesPolicy, PoliciesConfig, PolicyMode, RequiredLabel, RequiredLabelsPolicy,
    ResourceLimitsPolicy, TopologySpreadPolicy,
};
use sentinel::engine::PolicyEngine;
use sentinel::json::JsonValue;
use sentinel::patch::PatchOperation;
use sentinel::webhook::{build_response, WebhookType};

fn jstr(v: &str) -> JsonValue {
    JsonValue::Str(v.to_string())
}

fn jobj(fields: Vec<(&str, JsonValue)>) -> JsonValue {
    JsonValue::Obj(fields.into_iter().map(|(k, v)| (k.to_string(), v)).collect())
}

fn jarr(items: Vec<JsonValue>) -> JsonValue {
    JsonValue::Arr(items)
}

fn jv_eq(a: &JsonValue, b: &JsonValue) -> bool {
    match (a, b) {
        (JsonValue::Null, JsonValue::Null) => true,
        (JsonValue::Bool(x), JsonValue::Bool(y)) => x == y,
        (JsonValue::Int(x), JsonValue::Int(y)) => x == y,
        (JsonValue::Uint(x), JsonValue::Uint(y)) => x == y,
        (JsonValue::Float(x), JsonValue::Float(y)) => x == y,
        (JsonValue::Str(x), JsonValue::Str(y)) => x == y,
        (JsonValue::Arr(x), JsonValue::Arr(y)) => {
            x.len() == y.len() && x.iter().zip(y.iter()).all(|(u, v)| jv_eq(u, v))
        }
        (JsonValue::Obj(x), JsonValue::Obj(y)) => {
            x.len() == y.len()
                && x.iter().zip(y.iter()).all(|(u, v)| u.0 == v.0 && jv_eq(&u.1, &v.1))
        }
        _ => false,
    }
}

fn patch_eq(a: &PatchOperation, b: &PatchOperation) -> bool {
    let PatchOperation::Add(x) = a;
    let PatchOperation::Add(y) = b;
    x.path == y.path && jv_eq(&x.value, &y.value)
}

fn full_policies() -> PoliciesConfig {
    PoliciesConfig {
        resource_limits: ResourceLimitsPolicy {
            enabled: true,
            mode: PolicyMode::Enforce,
            max_cpu_millicores: Some(1000),
            max_memory_mb: Some(512),
            inject_defaults: true,
            default_cpu_request: "100m".to_string(),
            default_cpu_limit: "500m".to_string(),
            default_memory_request: "128Mi".to_string(),
            default_memory_limit: "512Mi".to_string(),
        },
        image_registry: AllowedRegistriesPolicy {
            enabled: true,
            mode: PolicyMode::Enforce,
            registries: vec!["docker.io".to_string()],
            allow_latest_tag: true,
        },
        labels: RequiredLabelsPolicy {
            enabled: true,
            mode: PolicyMode::Enforce,
            labels: vec![],
        },
        topology_spread: TopologySpreadPolicy {
            enabled: true,
            mode: PolicyMode::Enforce,
            max_skew: 1,
            topology_key: "topology.kubernetes.io/zone".to_string(),
            when_unsatisfiable: "DoNotSchedule".to_string(),
            inject_if_missing: true,
        },
    }
}

fn bare_deployment() -> JsonValue {
    jobj(vec![(
        "spec",
        jobj(vec![(
            "template",
            jobj(vec![
                ("metadata", jobj(vec![("labels", jobj(vec![("app", jstr("web"))]))])),
                (
                    "spec",
                    jobj(vec![(
                        "containers",
                        jarr(vec![jobj(vec![
                            ("name", jstr("c")),
                            ("image", jstr("docker.io/library/nginx:1.25")),
                        ])]),
                    )]),
                ),
            ]),
        )]),
    )])
}

fn deployment_request(data: JsonValue) -> AdmissionRequest {
    AdmissionRequest {
        uid: "uid-9".to_string(),
        kind: "Deployment".to_string(),
        resource: "deployments".to_string(),
        name: "app".to_string(),
        operation: "CREATE".to_string(),
        object: Some(DynamicObject { generate_name: None, labels: None, data }),
    }
}

#[test]
fn evaluation_is_deterministic() {
    let engine = PolicyEngine::new(full_policies());
    let req = deployment_request(bare_deployment());
    let r1 = engine.evaluate_mutate(&req);
    let r2 = engine.evaluate_mutate(&req);
    assert_eq!(r1.len(), r2.len());
    for (a, b) in r1.iter().zip(r2.iter()) {
        assert_eq!(a.policy_name, b.policy_name);
        assert_eq!(a.allowed, b.allowed);
        assert_eq!(a.message, b.message);
        assert_eq!(a.warnings, b.warnings);
        assert_eq!(a.patches.len(), b.patches.len());
        for (p, q) in a.patches.iter().zip(b.patches.iter()) {
            assert!(patch_eq(p, q));
        }
    }
}

#[test]
fn validate_path_carries_no_patches() {
    let engine = PolicyEngine::new(full_policies());
    let req = deployment_request(bare_deployment());
    let results = engine.evaluate_validate(&req);
    for r in &results {
        assert!(r.patches.is_empty());
    }
    let resp = build_response(&req, &results, WebhookType::Validate);
    assert!(resp.patches.is_empty());
}

#[test]
fn patched_object_needs_no_more_patches() {
    let engine = PolicyEngine::new(full_policies());
    let req = deployment_request(bare_deployment());
    let results = engine.evaluate_mutate(&req);
    let resp = build_response(&req, &results, WebhookType::Mutate);
    assert!(resp.allowed, "message: {:?}", resp.message);
    assert!(!resp.patches.is_empty());

    // The same object with the injected values already in place: default
    // resources on the container, and the default spread constraint.
    let patched = jobj(vec![(
        "spec",
        jobj(vec![(
            "template",
            jobj(vec![
                ("metadata", jobj(vec![("labels", jobj(vec![("app", jstr("web"))]))])),
                (
                    "spec",
                    jobj(vec![
                        (
                            "containers",
                            jarr(vec![jobj(vec![
                                ("name", jstr("c")),
                                ("image", jstr("docker.io/library/nginx:1.25")),
                                (
                                    "resources",
                                    jobj(vec![
                                        (
                                            "requests",
                                            jobj(vec![
                                                ("cpu", jstr("100m")),
                                                ("memory", jstr("128Mi")),
                                            ]),
                                        ),
                                        (
                                            "limits",
                                            jobj(vec![
                                                ("cpu", jstr("500m")),
                                                ("memory", jstr("512Mi")),
                                            ]),
                                        ),
                                    ]),
                                ),
                            ])]),
                        ),
                        (
                            "topologySpreadConstraints",
                            jarr(vec![jobj(vec![
                                ("maxSkew", JsonValue::Int(1)),
                                ("topologyKey", jstr("topology.kubernetes.io/zone")),
                                ("whenUnsatisfiable", jstr("DoNotSchedule")),
                                (
                                    "labelSelector",
                                    jobj(vec![("matchLabels", jobj(vec![("app", jstr("web"))]))]),
                                ),
                            ])]),
                        ),
                    ]),
                ),
            ]),
        )]),
    )]);
    let req2 = deployment_request(patched);
    let results2 = engine.evaluate_mutate(&req2);
    let resp2 = build_response(&req2, &results2, WebhookType::Mutate);
    assert!(resp2.allowed, "message: {:?}", resp2.message);
    assert!(resp2.patches.is_empty(), "expected no further patches");
}

#[test]
fn denial_aggregates_messages_in_policy_order() {
    let mut policies = full_policies();
    policies.resource_limits.inject_defaults = false;
    policies.labels.labels = vec![RequiredLabel { key: "team".to_string(), pattern: None }];
    policies.topology_spread.inject_if_missing = false;
    let engine = PolicyEngine::new(policies);

    let data = jobj(vec![(
        "spec",
        jobj(vec![(
            "template",
            jobj(vec![(
                "spec",
                jobj(vec![(
                    "containers",
                    jarr(vec![jobj(vec![
                        ("name", jstr("c")),
                        ("image", jstr("docker.io/library/nginx:1.25")),
                    ])]),
                )]),
            )]),
        )]),
    )]);
    let req = deployment_request(data);
    let results = engine.evaluate_validate(&req);
    let resp = build_response(&req, &results, WebhookType::Validate);
    assert!(!resp.allowed);
    assert_eq!(
        resp.message.as_deref(),
        Some(
            "resource_limits: container 'c' missing resource requests and limits; \
             labels: missing required label 'team' on Deployment 'app'; \
             topology_spread: Deployment 'app' has no topologySpreadConstraints"
        )
    );
}

#[test]
fn warn_mode_never_denies() {
    let mut policies = full_policies();
    policies.resource_limits.mode = PolicyMode::Warn;
    policies.resource_limits.inject_defaults = false;
    policies.topology_spread.mode = PolicyMode::Warn;
    policies.topology_spread.inject_if_missing = false;
    let engine = PolicyEngine::new(policies);

    let data = jobj(vec![(
        "spec",
        jobj(vec![(
            "template",
            jobj(vec![(
                "spec",
                jobj(vec![(
                    "containers",
                    jarr(vec![jobj(vec![
                        ("name", jstr("c")),
                        ("image", jstr("docker.io/library/nginx:1.25")),
                    ])]),
                )]),
            )]),
        )]),
    )]);
    let req = deployment_request(data);
    let results = engine.evaluate_validate(&req);
    for r in &results {
        assert!(r.allowed);
        assert!(r.message.is_none());
    }
    let resp = build_response(&req, &results, WebhookType::Validate);
    assert!(resp.allowed);
    assert_eq!(
        resp.warnings,
        vec![
            "resource_limits: container 'c' missing resource requests and limits".to_string(),
            "topology_spread: Deployment 'app' has no topologySpreadConstraints".to_string(),
        ]
    );
}

#[test]
fn mutate_patch_count_matches_policy_output() {
    let engine = PolicyEngine::new(full_policies());
    let req = deployment_request(bare_deployment());
    let results = engine.evaluate_mutate(&req);
    let per_policy: usize = results.iter().map(|r| r.patches.len()).sum();
    let resp = build_response(&req, &results, WebhookType::Mutate);
    assert!(resp.allowed);
    assert_eq!(resp.patches.len(), per_policy);
    assert_eq!(resp.patches.len(), 2);
}

#[test]
fn denial_sends_no_patches_even_on_mutate() {
    let mut policies = full_policies();
    policies.labels.labels = vec![RequiredLabel { key: "team".to_string(), pattern: None }];
    let engine = PolicyEngine::new(policies);

    let req = deployment_request(bare_deployment());
    let results = engine.evaluate_mutate(&req);
    let per_policy: usize = results.iter().map(|r| r.patches.len()).sum();
    assert!(per_policy > 0);
    let resp = build_response(&req, &results, WebhookType::Mutate);
    assert!(!resp.allowed);
    assert!(resp.patches.is_empty());
}

#[test]
fn generate_name_is_used_when_name_is_empty() {
    let mut policies = full_policies();
    policies.labels.labels = vec![RequiredLabel { key: "team".to_string(), pattern: None }];
    let engine = PolicyEngine::new(policies);

    let req = AdmissionRequest {
        uid: "uid-3".to_string(),
        kind: "Pod".to_string(),
        resource: "pods".to_string(),
        name: "".to_string(),
        operation: "CREATE".to_string(),
        object: Some(DynamicObject {
            generate_name: Some("web-".to_string()),
            labels: None,
            data: jobj(vec![]),
        }),
    };
    let results = engine.evaluate_validate(&req);
    let resp = build_response(&req, &results, WebhookType::Validate);
    assert!(!resp.allowed);
    let msg = resp.message.unwrap();
    assert!(msg.contains("missing required label 'team' on Pod 'web-'"), "got: {msg}");
}
