//! The topology spread policy: bound `maxSkew` on declared constraints,
//! and inject a default constraint when none is declared.

use vstd::prelude::*;

use crate::admission::{AdmissionRequest, AdmissionRequestView, DynamicObject, DynamicObjectView};
use crate::config::TopologySpreadPolicy;
use crate::json::{jv_get, Json, JsonValue};
use crate::patch::{patch_views, AddOperation, PatchOperation, PatchView};
use crate::policies::{
    get_pod_spec, prefix_tokens, resource_name, spec_pod_spec, spec_prefix_tokens,
    spec_resource_name, PolicyOutput,
};
use crate::strutil::{dec_str, dec_str_signed, i64_to_string, str_eq, u64_to_string};

verus! {

/// The declared spread constraints of a pod spec, when they form an array.
pub open spec fn spec_constraints(ps: Json) -> Option<Seq<Json>> {
    match jv_get(ps, "topologySpreadConstraints"@) {
        Some(Json::Arr(a)) => Some(a),
        _ => None,
    }
}

/// The label selector source: for Pods the metadata labels; for template
/// kinds the labels under `spec.template.metadata`; an empty object when
/// absent.
pub open spec fn spec_pod_labels(obj: DynamicObjectView, kind: Seq<char>) -> Json {
    if kind == "Pod"@ {
        match obj.labels {
            Some(l) => Json::Obj(
                Seq::new(
                    l.len(),
                    |i: int|
                        if 0 <= i < l.len() {
                            (l[i].0, Json::Str(l[i].1))
                        } else {
                            (Seq::empty(), Json::Null)
                        },
                ),
            ),
            None => Json::Obj(Seq::empty()),
        }
    } else {
        match jv_get(obj.data, "spec"@) {
            Some(s) => match jv_get(s, "template"@) {
                Some(t) => match jv_get(t, "metadata"@) {
                    Some(m) => match jv_get(m, "labels"@) {
                        Some(l) => l,
                        None => Json::Obj(Seq::empty()),
                    },
                    None => Json::Obj(Seq::empty()),
                },
                None => Json::Obj(Seq::empty()),
            },
            None => Json::Obj(Seq::empty()),
        }
    }
}

/// The single injected constraint, wrapped in a one-element array.
pub open spec fn spec_ts_patch_value(
    cfg: TopologySpreadPolicy,
    obj: DynamicObjectView,
    kind: Seq<char>,
) -> Json {
    Json::Arr(
        seq![
            Json::Obj(
                seq![
                    ("maxSkew"@, Json::Int(cfg.max_skew as i64)),
                    ("topologyKey"@, Json::Str(cfg.topology_key@)),
                    ("whenUnsatisfiable"@, Json::Str(cfg.when_unsatisfiable@)),
                    (
                        "labelSelector"@,
                        Json::Obj(seq![("matchLabels"@, spec_pod_labels(obj, kind))]),
                    ),
                ],
            ),
        ],
    )
}

/// One violation for a constraint whose maxSkew exceeds the bound.
pub open spec fn msg_max_skew(
    i: int,
    kind: Seq<char>,
    rname: Seq<char>,
    skew: i64,
    tkey: Seq<char>,
    bound: i32,
) -> Seq<char> {
    "topologySpreadConstraints["@ + dec_str(i) + "] on "@ + kind + " '"@ + rname
        + "' has maxSkew="@ + dec_str_signed(skew as int) + " (topologyKey='"@ + tkey
        + "') exceeding maximum "@ + dec_str_signed(bound as int)
}

/// One violation when no constraints are declared.
pub open spec fn msg_no_constraints(kind: Seq<char>, rname: Seq<char>) -> Seq<char> {
    kind + " '"@ + rname + "' has no topologySpreadConstraints"@
}

/// The violations one declared constraint contributes.
pub open spec fn spec_ts_violation_at(
    cfg: TopologySpreadPolicy,
    c: Json,
    i: int,
    kind: Seq<char>,
    rname: Seq<char>,
) -> Seq<Seq<char>> {
    match jv_get(c, "maxSkew"@) {
        Some(Json::Int(skew)) => if skew > cfg.max_skew as i64 {
            let tkey = match jv_get(c, "topologyKey"@) {
                Some(Json::Str(s)) => s,
                _ => "<unset>"@,
            };
            seq![msg_max_skew(i, kind, rname, skew, tkey, cfg.max_skew)]
        } else {
            Seq::empty()
        },
        _ => Seq::empty(),
    }
}

/// The violations of declared constraints, by index order.
pub open spec fn spec_ts_present_violations(
    cfg: TopologySpreadPolicy,
    cs: Seq<Json>,
    kind: Seq<char>,
    rname: Seq<char>,
) -> Seq<Seq<char>>
    decreases cs.len(),
{
    if cs.len() == 0 {
        Seq::empty()
    } else {
        spec_ts_present_violations(cfg, cs.drop_last(), kind, rname) + spec_ts_violation_at(
            cfg,
            cs.last(),
            cs.len() - 1,
            kind,
            rname,
        )
    }
}

/// Whether the missing-constraints branch applies.
pub open spec fn spec_ts_missing(ps: Json) -> bool {
    match spec_constraints(ps) {
        Some(cs) => cs.len() == 0,
        None => true,
    }
}

/// The violations of the whole request under this policy.
pub open spec fn spec_ts_violations(
    cfg: TopologySpreadPolicy,
    req: AdmissionRequestView,
    mutating: bool,
) -> Seq<Seq<char>> {
    match req.object {
        Some(obj) => match spec_pod_spec(obj.data, req.kind) {
            Some(ps) => {
                let rname = spec_resource_name(req, obj);
                if spec_ts_missing(ps) {
                    if !(mutating && cfg.inject_if_missing) {
                        seq![msg_no_constraints(req.kind, rname)]
                    } else {
                        Seq::empty()
                    }
                } else {
                    spec_ts_present_violations(
                        cfg,
                        spec_constraints(ps)->Some_0,
                        req.kind,
                        rname,
                    )
                }
            },
            None => Seq::empty(),
        },
        None => Seq::empty(),
    }
}

/// The patches of the whole request under this policy.
pub open spec fn spec_ts_patches(cfg: TopologySpreadPolicy, req: AdmissionRequestView) -> Seq<
    PatchView,
> {
    match req.object {
        Some(obj) => match spec_pod_spec(obj.data, req.kind) {
            Some(ps) => {
                if spec_ts_missing(ps) && cfg.inject_if_missing {
                    seq![
                        PatchView {
                            path: spec_prefix_tokens(req.kind) + seq!["topologySpreadConstraints"@],
                            value: spec_ts_patch_value(cfg, obj, req.kind),
                        },
                    ]
                } else {
                    Seq::empty()
                }
            },
            None => Seq::empty(),
        },
        None => Seq::empty(),
    }
}

/// The label selector source for the injected constraint.
pub fn get_pod_labels(object: &DynamicObject, kind: &str) -> (r: JsonValue)
    ensures
        r@ == spec_pod_labels(object@, kind@),
{
    if str_eq(kind, "Pod") {
        match &object.labels {
            Some(l) => {
                let mut fields: Vec<(String, JsonValue)> = Vec::new();
                let mut i: usize = 0;
                while i < l.len()
                    invariant
                        i <= l@.len(),
                        fields@.len() == i,
                        forall|j: int| 0 <= j < i ==> (#[trigger] fields@[j]).0@ == l@[j].0@
                            && fields@[j].1 == JsonValue::Str(l@[j].1),
                    decreases l@.len() - i,
                {
                    let k = l[i].0.clone();
                    let v = l[i].1.clone();
                    fields.push((k, JsonValue::Str(v)));
                    i += 1;
                }
                let r = JsonValue::Obj(fields);
                proof {
                    let target = spec_pod_labels(object@, kind@);
                    assert(object@.labels == Some(l.deep_view()));
                    assert(target is Obj);
                    assert(r@ is Obj);
                    assert(r@->Obj_0.len() == fields@.len());
                    assert(target->Obj_0.len() == l.deep_view().len());
                    assert forall|j: int| 0 <= j < fields@.len() implies r@->Obj_0[j]
                        == target->Obj_0[j] by {
                        assert(l.deep_view()[j] == (l@[j].0@, l@[j].1@));
                        assert(fields@[j].0@ == l@[j].0@);
                        assert(fields@[j].1 == JsonValue::Str(l@[j].1));
                        assert(r@->Obj_0[j] == (fields@[j].0@, crate::json::jv_view(
                            fields@[j].1,
                        )));
                        assert(target->Obj_0[j] == (
                            l.deep_view()[j].0,
                            Json::Str(l.deep_view()[j].1),
                        ));
                    }
                    assert(r@->Obj_0 =~= target->Obj_0);
                }
                r
            },
            None => {
                let r = JsonValue::Obj(Vec::new());
                proof {
                    assert(r@->Obj_0 =~= Seq::<(Seq<char>, Json)>::empty());
                }
                r
            },
        }
    } else {
        let found: Option<&JsonValue> = match object.data.get("spec") {
            Some(s) => match s.get("template") {
                Some(t) => match t.get("metadata") {
                    Some(m) => m.get("labels"),
                    None => None,
                },
                None => None,
            },
            None => None,
        };
        match found {
            Some(l) => l.deep_clone(),
            None => {
                let r = JsonValue::Obj(Vec::new());
                proof {
                    assert(r@->Obj_0 =~= Seq::<(Seq<char>, Json)>::empty());
                }
                r
            },
        }
    }
}

/// Evaluates the topology spread policy.
pub fn evaluate(config: &TopologySpreadPolicy, request: &AdmissionRequest, mutating: bool) -> (r:
    PolicyOutput)
    ensures
        r.violations.deep_view() == spec_ts_violations(*config, request@, mutating),
        patch_views(r.patches@) == spec_ts_patches(*config, request@),
{
    let object = match &request.object {
        Some(obj) => obj,
        None => {
            return PolicyOutput::allowed();
        },
    };

    let kind = request.kind.as_str();
    let pod_spec = match get_pod_spec(&object.data, kind) {
        Some(spec) => spec,
        None => {
            let r = PolicyOutput::allowed();
            proof {
                assert(patch_views(r.patches@) =~= spec_ts_patches(*config, request@));
                assert(r.violations.deep_view() =~= spec_ts_violations(
                    *config,
                    request@,
                    mutating,
                ));
            }
            return r;
        },
    };

    let rname = resource_name(request, object);
    let ghost g_kind = request.kind@;
    let ghost g_rname = rname@;

    let mut violations: Vec<String> = Vec::new();
    let mut patches: Vec<PatchOperation> = Vec::new();

    let constraints: Option<&Vec<JsonValue>> = match pod_spec.get("topologySpreadConstraints") {
        Some(c) => c.as_array(),
        None => None,
    };

    let missing: bool = match constraints {
        Some(cs) => cs.len() == 0,
        None => true,
    };

    if !missing {
        if let Some(cs) = constraints {
        let ghost g_cs = spec_constraints(pod_spec@)->Some_0;
        let mut i: usize = 0;
        while i < cs.len()
            invariant
                g_cs.len() == cs@.len(),
                forall|j: int| 0 <= j < cs@.len() ==> g_cs[j] == crate::json::jv_view(
                    #[trigger] cs@[j],
                ),
                i <= cs@.len(),
                rname@ == g_rname,
                request.kind@ == g_kind,
                violations.deep_view() == spec_ts_present_violations(
                    *config,
                    g_cs.take(i as int),
                    g_kind,
                    g_rname,
                ),
            decreases cs@.len() - i,
        {
            let constraint = &cs[i];
            let ghost old_violations = violations.deep_view();
            proof {
                assert(g_cs.take(i + 1).drop_last() =~= g_cs.take(i as int));
                assert(g_cs.take(i + 1).last() == g_cs[i as int]);
            }
            let skew_opt: Option<i64> = match constraint.get("maxSkew") {
                Some(v) => v.as_i64(),
                None => None,
            };
            match skew_opt {
                Some(max_skew) => {
                    if max_skew > config.max_skew as i64 {
                        let tkey: &str = match constraint.get("topologyKey") {
                            Some(v) => match v.as_str() {
                                Some(s) => s,
                                None => "<unset>",
                            },
                            None => "<unset>",
                        };
                        let mut m = String::from_str("topologySpreadConstraints[");
                        let idx_str = u64_to_string(i as u64);
                        m.append(idx_str.as_str());
                        m.append("] on ");
                        m.append(request.kind.as_str());
                        m.append(" '");
                        m.append(rname);
                        m.append("' has maxSkew=");
                        let skew_str = i64_to_string(max_skew);
                        m.append(skew_str.as_str());
                        m.append(" (topologyKey='");
                        m.append(tkey);
                        m.append("') exceeding maximum ");
                        let bound_str = i64_to_string(config.max_skew as i64);
                        m.append(bound_str.as_str());
                        proof {
                            assert(m@ =~= msg_max_skew(
                                i as int,
                                g_kind,
                                g_rname,
                                max_skew,
                                match jv_get(g_cs[i as int], "topologyKey"@) {
                                    Some(Json::Str(s)) => s,
                                    _ => "<unset>"@,
                                },
                                config.max_skew,
                            ));
                        }
                        violations.push(m);
                    }
                },
                None => {},
            }
            proof {
                assert(violations.deep_view() =~= old_violations + spec_ts_violation_at(
                    *config,
                    g_cs[i as int],
                    i as int,
                    g_kind,
                    g_rname,
                ));
                assert(violations.deep_view() =~= spec_ts_present_violations(
                    *config,
                    g_cs.take(i + 1),
                    g_kind,
                    g_rname,
                ));
            }
            i += 1;
        }
        proof {
            assert(g_cs.take(g_cs.len() as int) =~= g_cs);
            assert(violations.deep_view() == spec_ts_violations(*config, request@, mutating));
            assert(patch_views(patches@) =~= spec_ts_patches(*config, request@));
        }
        }
    } else {
        if !(mutating && config.inject_if_missing) {
            let mut m = String::from_str("");
            m.append(request.kind.as_str());
            m.append(" '");
            m.append(rname);
            m.append("' has no topologySpreadConstraints");
            proof {
                reveal_strlit("");
                assert(m@ =~= msg_no_constraints(g_kind, g_rname));
            }
            violations.push(m);
        }

        if config.inject_if_missing {
            let labels_value = get_pod_labels(object, kind);
            let ghost g_lv = labels_value@;
            let mut selector_fields: Vec<(String, JsonValue)> = Vec::new();
            selector_fields.push((String::from_str("matchLabels"), labels_value));
            let selector = JsonValue::Obj(selector_fields);
            let ghost g_selector = selector@;
            proof {
                assert(g_selector->Obj_0 =~= seq![("matchLabels"@, g_lv)]);
                assert(g_selector == Json::Obj(
                    seq![("matchLabels"@, spec_pod_labels(object@, g_kind))],
                ));
            }

            let mut constraint_fields: Vec<(String, JsonValue)> = Vec::new();
            constraint_fields.push(
                (String::from_str("maxSkew"), JsonValue::Int(config.max_skew as i64)),
            );
            constraint_fields.push(
                (String::from_str("topologyKey"), JsonValue::Str(config.topology_key.clone())),
            );
            constraint_fields.push(
                (
                    String::from_str("whenUnsatisfiable"),
                    JsonValue::Str(config.when_unsatisfiable.clone()),
                ),
            );
            constraint_fields.push((String::from_str("labelSelector"), selector));
            let constraint = JsonValue::Obj(constraint_fields);
            let ghost g_constraint = constraint@;
            proof {
                reveal_with_fuel(crate::json::jv_view, 3);
                assert(constraint_fields@.len() == 4);
                assert(g_constraint->Obj_0.len() == 4);
                assert(g_constraint->Obj_0[0] == ("maxSkew"@, Json::Int(config.max_skew as i64)));
                assert(g_constraint->Obj_0[1] == ("topologyKey"@, Json::Str(config.topology_key@)));
                assert(g_constraint->Obj_0[2] == (
                    "whenUnsatisfiable"@,
                    Json::Str(config.when_unsatisfiable@),
                ));
                assert(g_constraint->Obj_0[3] == ("labelSelector"@, g_selector));
                assert(g_constraint->Obj_0 =~= seq![
                    ("maxSkew"@, Json::Int(config.max_skew as i64)),
                    ("topologyKey"@, Json::Str(config.topology_key@)),
                    ("whenUnsatisfiable"@, Json::Str(config.when_unsatisfiable@)),
                    ("labelSelector"@, g_selector),
                ]);
            }

            let mut elems: Vec<JsonValue> = Vec::new();
            elems.push(constraint);
            let value = JsonValue::Arr(elems);
            proof {
                reveal_with_fuel(crate::json::jv_view, 3);
                let target = spec_ts_patch_value(*config, object@, g_kind);
                assert(g_constraint == target->Arr_0[0]);
                assert(value@->Arr_0 =~= target->Arr_0);
                assert(value@ == target);
            }
            let mut path = prefix_tokens(kind);
            path.push(String::from_str("topologySpreadConstraints"));
            proof {
                assert(path.deep_view() =~= spec_prefix_tokens(g_kind) + seq![
                    "topologySpreadConstraints"@,
                ]);
            }
            patches.push(PatchOperation::Add(AddOperation { path, value }));
        }
        proof {
            assert(violations.deep_view() =~= spec_ts_violations(*config, request@, mutating));
            assert(patch_views(patches@) =~= spec_ts_patches(*config, request@));
        }
    }

    PolicyOutput { violations, patches }
}

} // verus!
