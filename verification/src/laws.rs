//! The engine's cross-cutting guarantees, stated and proved over the
//! contracts of the policies, the engine and the response builder.

use vstd::prelude::*;

use crate::admission::AdmissionRequestView;
use crate::apply::{
    apply_add, apply_patches, arr_index_of, get_path, lemma_apply_patches_concat,
    lemma_apply_through, lemma_dec_str_value, lemma_obj_set_get_other, lemma_obj_set_get_same,
    obj_set,
};
use crate::config::{PoliciesConfig, PolicyMode, PolicyName};
use crate::engine::{spec_result_ok, PolicyEngine, PolicyResult};
use crate::json::{jv_get, obj_lookup, Json};
use crate::patch::{patch_views, PatchView};
use crate::policies::resource_limits::{
    spec_container_path, spec_limits_value, spec_requests_value, spec_resources,
    spec_resources_value, spec_rl_container_patches, spec_rl_patches, spec_rl_patches_of,
    spec_rl_satisfied,
};
use crate::policies::topology_spread::{spec_constraints, spec_ts_missing, spec_ts_patches};
use crate::policies::{is_template_kind, known_kind, spec_pod_spec, spec_prefix_tokens};
use crate::strutil::dec_str;

verus! {

/// Law: a request whose decoded object is absent yields, for every
/// policy, no violations and no patches.
pub proof fn lemma_absent_object_allows(
    engine: PolicyEngine,
    req: AdmissionRequestView,
    name: PolicyName,
    mutating: bool,
)
    requires
        req.object is None,
    ensures
        engine.spec_policy_violations(name, req, mutating).len() == 0,
        engine.spec_policy_patches(name, req).len() == 0,
{
}

proof fn lemma_empty_results_fold(rs: Seq<PolicyResult>)
    requires
        forall|i: int| 0 <= i < rs.len() ==> (#[trigger] rs[i]).allowed && rs[i].warnings@.len()
            == 0 && patch_views(rs[i].patches@).len() == 0,
    ensures
        crate::webhook::spec_denied_messages(rs).len() == 0,
        crate::webhook::spec_all_warnings(rs).len() == 0,
        crate::webhook::spec_all_patches(rs).len() == 0,
    decreases rs.len(),
{
    if rs.len() > 0 {
        lemma_empty_results_fold(rs.drop_last());
        assert(rs.last().warnings.deep_view().len() == rs.last().warnings@.len());
    }
}

/// Law: a request whose decoded object is absent is allowed outright,
/// whatever the configuration: the results aggregate to no denial line,
/// no warning and no patch.
pub proof fn lemma_absent_object_response(
    engine: PolicyEngine,
    req: AdmissionRequestView,
    include_patches: bool,
    rs: Seq<PolicyResult>,
)
    requires
        engine.spec_results_ok(req, include_patches, rs),
        req.object is None,
    ensures
        crate::webhook::spec_denied_messages(rs).len() == 0,
        crate::webhook::spec_all_warnings(rs).len() == 0,
        crate::webhook::spec_all_patches(rs).len() == 0,
{
    assert forall|i: int| 0 <= i < rs.len() implies (#[trigger] rs[i]).allowed
        && rs[i].warnings@.len() == 0 && patch_views(rs[i].patches@).len() == 0 by {
        let name = engine.spec_enabled_names()[i];
        lemma_absent_object_allows(engine, req, name, include_patches);
        assert(spec_result_ok(
            engine.config,
            name,
            engine.spec_policy_violations(name, req, include_patches),
            engine.spec_policy_patches(name, req),
            include_patches,
            rs[i],
        ));
        assert(rs[i].warnings@.len() == rs[i].warnings.deep_view().len());
    }
    lemma_empty_results_fold(rs);
}

/// Law: for a workload kind outside the table, every policy yields no
/// violations and no patches.
pub proof fn lemma_unknown_kind_allows(
    engine: PolicyEngine,
    req: AdmissionRequestView,
    name: PolicyName,
    mutating: bool,
)
    requires
        !known_kind(req.kind),
    ensures
        engine.spec_policy_violations(name, req, mutating).len() == 0,
        engine.spec_policy_patches(name, req).len() == 0,
{
    match req.object {
        Some(obj) => {
            assert(spec_pod_spec(obj.data, req.kind) is None);
        },
        None => {},
    }
}

/// Law: a request whose workload kind is outside the table is allowed
/// outright, whatever the configuration: the results aggregate to no
/// denial line, no warning and no patch.
pub proof fn lemma_unknown_kind_response(
    engine: PolicyEngine,
    req: AdmissionRequestView,
    include_patches: bool,
    rs: Seq<PolicyResult>,
)
    requires
        engine.spec_results_ok(req, include_patches, rs),
        !known_kind(req.kind),
    ensures
        crate::webhook::spec_denied_messages(rs).len() == 0,
        crate::webhook::spec_all_warnings(rs).len() == 0,
        crate::webhook::spec_all_patches(rs).len() == 0,
{
    assert forall|i: int| 0 <= i < rs.len() implies (#[trigger] rs[i]).allowed
        && rs[i].warnings@.len() == 0 && patch_views(rs[i].patches@).len() == 0 by {
        let name = engine.spec_enabled_names()[i];
        lemma_unknown_kind_allows(engine, req, name, include_patches);
        assert(spec_result_ok(
            engine.config,
            name,
            engine.spec_policy_violations(name, req, include_patches),
            engine.spec_policy_patches(name, req),
            include_patches,
            rs[i],
        ));
        assert(rs[i].warnings@.len() == rs[i].warnings.deep_view().len());
    }
    lemma_empty_results_fold(rs);
}

/// Law: on the validating path, no policy result carries a patch.
pub proof fn lemma_validate_no_patches(
    engine: PolicyEngine,
    req: AdmissionRequestView,
    rs: Seq<PolicyResult>,
    i: int,
)
    requires
        engine.spec_results_ok(req, false, rs),
        0 <= i < rs.len(),
    ensures
        rs[i].patches@.len() == 0,
{
    assert(patch_views(rs[i].patches@).len() == 0);
}

/// Law: a policy in warn mode never denies.
pub proof fn lemma_warn_mode_allows(
    cfg: PoliciesConfig,
    name: PolicyName,
    violations: Seq<Seq<char>>,
    patches: Seq<PatchView>,
    include_patches: bool,
    r: PolicyResult,
)
    requires
        spec_result_ok(cfg, name, violations, patches, include_patches, r),
        cfg.spec_policy_mode(name) == PolicyMode::Warn,
    ensures
        r.allowed,
{
}

/// Law: a policy configured in warn mode never denies: its result on any
/// request is allowed, carries no denial message, and its warnings are
/// exactly the policy's violations prefixed with its name.
pub proof fn lemma_warn_mode_results(
    engine: PolicyEngine,
    req: AdmissionRequestView,
    include_patches: bool,
    rs: Seq<PolicyResult>,
    i: int,
)
    requires
        engine.spec_results_ok(req, include_patches, rs),
        0 <= i < rs.len(),
        engine.config.spec_policy_mode(engine.spec_enabled_names()[i]) == PolicyMode::Warn,
    ensures
        rs[i].allowed,
        rs[i].message is None,
        rs[i].policy_name == engine.spec_enabled_names()[i],
        rs[i].warnings.deep_view() == crate::engine::spec_warn_lines(
            engine.spec_enabled_names()[i],
            engine.spec_policy_violations(engine.spec_enabled_names()[i], req, include_patches),
        ),
{
    let name = engine.spec_enabled_names()[i];
    assert(spec_result_ok(
        engine.config,
        name,
        engine.spec_policy_violations(name, req, include_patches),
        engine.spec_policy_patches(name, req),
        include_patches,
        rs[i],
    ));
}

/// Law: two evaluations of the same engine on the same request agree on
/// every result field except the measured duration.
pub proof fn lemma_engine_deterministic(
    engine: PolicyEngine,
    req: AdmissionRequestView,
    include_patches: bool,
    rs1: Seq<PolicyResult>,
    rs2: Seq<PolicyResult>,
    i: int,
)
    requires
        engine.spec_results_ok(req, include_patches, rs1),
        engine.spec_results_ok(req, include_patches, rs2),
        0 <= i < rs1.len(),
    ensures
        rs1.len() == rs2.len(),
        rs1[i].policy_name == rs2[i].policy_name,
        rs1[i].allowed == rs2[i].allowed,
        patch_views(rs1[i].patches@) == patch_views(rs2[i].patches@),
        rs1[i].warnings.deep_view() == rs2[i].warnings.deep_view(),
        match (rs1[i].message, rs2[i].message) {
            (Some(a), Some(b)) => a@ == b@,
            (None, None) => true,
            _ => false,
        },
{
    let name = engine.spec_enabled_names()[i];
    assert(spec_result_ok(
        engine.config,
        name,
        engine.spec_policy_violations(name, req, include_patches),
        engine.spec_policy_patches(name, req),
        include_patches,
        rs1[i],
    ));
    assert(spec_result_ok(
        engine.config,
        name,
        engine.spec_policy_violations(name, req, include_patches),
        engine.spec_policy_patches(name, req),
        include_patches,
        rs2[i],
    ));
}

/// Law (one direction of idempotence): a container that already carries
/// non-empty resources whose requests and limits both hold `cpu` and
/// `memory` receives no default-injection patches.
pub proof fn lemma_satisfied_container_no_patches(
    cfg: crate::config::ResourceLimitsPolicy,
    c: Json,
    prefix: Seq<Seq<char>>,
    i: int,
)
    requires
        spec_rl_satisfied(c),
    ensures
        spec_rl_container_patches(cfg, c, prefix, i).len() == 0,
{
}

/// Law (one direction of idempotence): when every container is already
/// satisfied, the resource limits policy emits no patches at all.
pub proof fn lemma_all_satisfied_no_patches(
    cfg: crate::config::ResourceLimitsPolicy,
    containers: Seq<Json>,
    prefix: Seq<Seq<char>>,
)
    requires
        forall|j: int| 0 <= j < containers.len() ==> spec_rl_satisfied(#[trigger] containers[j]),
    ensures
        spec_rl_patches_of(cfg, containers, prefix).len() == 0,
    decreases containers.len(),
{
    if containers.len() > 0 {
        lemma_all_satisfied_no_patches(cfg, containers.drop_last(), prefix);
        lemma_satisfied_container_no_patches(
            cfg,
            containers.last(),
            prefix,
            containers.len() - 1,
        );
    }
}

/// The pod-spec selection reads exactly the members the prefix names.
pub proof fn lemma_pod_spec_is_get_path(data: Json, kind: Seq<char>)
    requires
        known_kind(kind),
    ensures
        spec_pod_spec(data, kind) == get_path(data, spec_prefix_tokens(kind)),
{
    reveal_with_fuel(get_path, 7);
    let p = spec_prefix_tokens(kind);
    if kind == "Pod"@ {
        assert(p.drop_first() =~= Seq::<Seq<char>>::empty());
        match jv_get(data, "spec"@) {
            Some(c) => {
                assert(get_path(data, p) == get_path(c, p.drop_first()));
                assert(get_path(c, p.drop_first()) == Some(c));
            },
            None => {
                assert(get_path(data, p) is None);
            },
        }
    } else if kind == "CronJob"@ {
        reveal_strlit("CronJob");
        reveal_strlit("Deployment");
        reveal_strlit("ReplicaSet");
        reveal_strlit("StatefulSet");
        reveal_strlit("DaemonSet");
        reveal_strlit("Job");
        assert("CronJob"@.len() == 7);
        assert("Deployment"@.len() == 10);
        assert("ReplicaSet"@.len() == 10);
        assert("StatefulSet"@.len() == 11);
        assert("DaemonSet"@.len() == 9);
        assert("Job"@.len() == 3);
        assert(!is_template_kind(kind));
        let p1 = seq!["jobTemplate"@, "spec"@, "template"@, "spec"@];
        let p2 = seq!["spec"@, "template"@, "spec"@];
        let p3 = seq!["template"@, "spec"@];
        let p4 = seq!["spec"@];
        assert(p.drop_first() =~= p1);
        assert(p1.drop_first() =~= p2);
        assert(p2.drop_first() =~= p3);
        assert(p3.drop_first() =~= p4);
        assert(p4.drop_first() =~= Seq::<Seq<char>>::empty());
        match jv_get(data, "spec"@) {
            Some(s) => {
                assert(get_path(data, p) == get_path(s, p1));
                match jv_get(s, "jobTemplate"@) {
                    Some(j) => {
                        assert(get_path(s, p1) == get_path(j, p2));
                        match jv_get(j, "spec"@) {
                            Some(js) => {
                                assert(get_path(j, p2) == get_path(js, p3));
                                match jv_get(js, "template"@) {
                                    Some(t) => {
                                        assert(get_path(js, p3) == get_path(t, p4));
                                        assert(get_path(t, p4) == jv_get(t, "spec"@));
                                    },
                                    None => {},
                                }
                            },
                            None => {},
                        }
                    },
                    None => {},
                }
            },
            None => {},
        }
    } else {
        let p1 = seq!["template"@, "spec"@];
        let p2 = seq!["spec"@];
        assert(p.drop_first() =~= p1);
        assert(p1.drop_first() =~= p2);
        assert(p2.drop_first() =~= Seq::<Seq<char>>::empty());
        match jv_get(data, "spec"@) {
            Some(s) => {
                assert(get_path(data, p) == get_path(s, p1));
                match jv_get(s, "template"@) {
                    Some(t) => {
                        assert(get_path(s, p1) == get_path(t, p2));
                        assert(get_path(t, p2) == jv_get(t, "spec"@));
                    },
                    None => {},
                }
            },
            None => {},
        }
    }
}

/// A pod spec is only ever found for kinds of the table.
pub proof fn lemma_pod_spec_kind_known(data: Json, kind: Seq<char>)
    requires
        spec_pod_spec(data, kind) is Some,
    ensures
        known_kind(kind),
{
}

/// Law (idempotence of injection): an object to which the topology
/// spread policy's own patches have been applied receives no patch on
/// re-evaluation under the same kind.
pub proof fn lemma_ts_idempotent(
    cfg: crate::config::TopologySpreadPolicy,
    req: AdmissionRequestView,
    req2: AdmissionRequestView,
)
    requires
        req.object is Some,
        req2.object is Some,
        req2.kind == req.kind,
        apply_patches((req.object->Some_0).data, spec_ts_patches(cfg, req)) == Some(
            (req2.object->Some_0).data,
        ),
    ensures
        spec_ts_patches(cfg, req2).len() == 0,
{
    let data = (req.object->Some_0).data;
    let data2 = (req2.object->Some_0).data;
    let patches = spec_ts_patches(cfg, req);
    if patches.len() == 0 {
        assert(data2 == data);
    } else {
        let pv = patches[0];
        let ps = spec_pod_spec(data, req.kind)->Some_0;
        lemma_pod_spec_kind_known(data, req.kind);
        lemma_pod_spec_is_get_path(data, req.kind);
        reveal_with_fuel(apply_patches, 3);
        assert(patches.len() == 1);
        assert(patches.drop_first() =~= Seq::<PatchView>::empty());
        assert(apply_add(data, pv.path, pv.value) == Some(data2));
        let prefix = spec_prefix_tokens(req.kind);
        let rest = seq!["topologySpreadConstraints"@];
        assert(pv.path == prefix + rest);
        lemma_apply_through(data, prefix, rest, pv.value, ps);
        let ps2 = apply_add(ps, rest, pv.value)->Some_0;
        assert(get_path(data2, prefix) == Some(ps2));
        lemma_pod_spec_is_get_path(data2, req.kind);
        match ps {
            Json::Obj(f) => {
                lemma_obj_set_get_same(f, "topologySpreadConstraints"@, pv.value);
                assert(jv_get(ps2, "topologySpreadConstraints"@) == Some(pv.value));
                assert(pv.value is Arr && pv.value->Arr_0.len() == 1);
                assert(spec_constraints(ps2) == Some(pv.value->Arr_0));
                assert(!crate::policies::topology_spread::spec_ts_missing(ps2));
            },
            _ => {
                assert(apply_add(ps, rest, pv.value) is None);
                assert(false);
            },
        }
    }
}

/// Applying one operation whose path runs through container `i` applies
/// the path's tail to that container alone: every other container, and
/// every other member of the pod spec, keeps its value.
proof fn lemma_apply_one_under_container(
    kind: Seq<char>,
    doc: Json,
    ps: Json,
    cs: Seq<Json>,
    i: int,
    rest2: Seq<Seq<char>>,
    v: Json,
) -> (r: (Json, Json))
    requires
        known_kind(kind),
        spec_pod_spec(doc, kind) == Some(ps),
        jv_get(ps, "containers"@) == Some(Json::Arr(cs)),
        0 <= i < cs.len(),
        rest2.len() >= 1,
        apply_add(doc, spec_container_path(spec_prefix_tokens(kind), i, rest2), v) is Some,
    ensures
        spec_pod_spec(
            apply_add(doc, spec_container_path(spec_prefix_tokens(kind), i, rest2), v)->Some_0,
            kind,
        ) == Some(r.0),
        jv_get(r.0, "containers"@) == Some(Json::Arr(cs.update(i, r.1))),
        apply_add(cs[i], rest2, v) == Some(r.1),
        forall|k2: Seq<char>| k2 != "containers"@ ==> jv_get(r.0, k2) == jv_get(ps, k2),
{
    let prefix = spec_prefix_tokens(kind);
    let rest = seq!["containers"@, dec_str(i)] + rest2;
    assert(spec_container_path(prefix, i, rest2) =~= prefix + rest);
    lemma_pod_spec_is_get_path(doc, kind);
    lemma_apply_through(doc, prefix, rest, v, ps);
    let doc2 = apply_add(doc, prefix + rest, v)->Some_0;
    let ps2 = apply_add(ps, rest, v)->Some_0;
    assert(get_path(doc2, prefix) == Some(ps2));
    lemma_pod_spec_is_get_path(doc2, kind);

    match ps {
        Json::Obj(f) => {
            assert(obj_lookup(f, "containers"@) == Some(Json::Arr(cs)));
            assert(rest[0] == "containers"@);
            let rest_b = seq![dec_str(i)] + rest2;
            assert(rest.drop_first() =~= rest_b);
            assert(apply_add(Json::Arr(cs), rest_b, v) is Some);
            lemma_dec_str_value(i);
            assert(rest_b[0] == dec_str(i));
            assert(arr_index_of(rest_b[0]) == Some(i));
            assert(rest_b.drop_first() =~= rest2);
            if rest_b.len() == 1 {
                assert(rest2.len() == 0);
                assert(false);
            }
            assert(apply_add(cs[i], rest2, v) is Some);
            let c2 = apply_add(cs[i], rest2, v)->Some_0;
            assert(apply_add(Json::Arr(cs), rest_b, v) == Some(Json::Arr(cs.update(i, c2))));
            assert(ps2 == Json::Obj(obj_set(f, "containers"@, Json::Arr(cs.update(i, c2)))));
            lemma_obj_set_get_same(f, "containers"@, Json::Arr(cs.update(i, c2)));
            assert forall|k2: Seq<char>| k2 != "containers"@ implies jv_get(ps2, k2) == jv_get(
                ps,
                k2,
            ) by {
                lemma_obj_set_get_other(f, "containers"@, Json::Arr(cs.update(i, c2)), k2);
            }
            (ps2, c2)
        },
        _ => {
            assert(jv_get(ps, "containers"@) is None);
            assert(false);
            (ps2, ps2)
        },
    }
}

/// The patches the resource limits policy emits for one section of one
/// container's resources, given the values to inject.
spec fn section_patches(
    c: Json,
    prefix: Seq<Seq<char>>,
    i: int,
    section: Seq<char>,
    whole_v: Json,
    cpu_v: Json,
    mem_v: Json,
) -> Seq<PatchView> {
    let res = jv_get(c, "resources"@)->Some_0;
    match jv_get(res, section) {
        Some(sec) => (
        if jv_get(sec, "cpu"@) is None {
            seq![
                PatchView {
                    path: spec_container_path(prefix, i, seq!["resources"@, section, "cpu"@]),
                    value: cpu_v,
                },
            ]
        } else {
            Seq::empty()
        }) + (
        if jv_get(sec, "memory"@) is None {
            seq![
                PatchView {
                    path: spec_container_path(prefix, i, seq!["resources"@, section, "memory"@]),
                    value: mem_v,
                },
            ]
        } else {
            Seq::empty()
        }),
        None => seq![
            PatchView {
                path: spec_container_path(prefix, i, seq!["resources"@, section]),
                value: whole_v,
            },
        ],
    }
}

/// Applying one section's patches leaves that section holding both `cpu`
/// and `memory`, and touches nothing else of the container, the other
/// containers, or the rest of the pod spec.
#[verifier::rlimit(60)]
proof fn lemma_rl_apply_section(
    kind: Seq<char>,
    doc: Json,
    ps: Json,
    cs: Seq<Json>,
    i: int,
    section: Seq<char>,
    whole_v: Json,
    cpu_v: Json,
    mem_v: Json,
) -> (r: (Json, Json))
    requires
        known_kind(kind),
        spec_pod_spec(doc, kind) == Some(ps),
        jv_get(ps, "containers"@) == Some(Json::Arr(cs)),
        0 <= i < cs.len(),
        jv_get(cs[i], "resources"@) is Some,
        jv_get(cs[i], "resources"@)->Some_0 is Obj,
        jv_get(whole_v, "cpu"@) is Some,
        jv_get(whole_v, "memory"@) is Some,
        apply_patches(
            doc,
            section_patches(cs[i], spec_prefix_tokens(kind), i, section, whole_v, cpu_v, mem_v),
        ) is Some,
    ensures
        ({
            let doc2 = apply_patches(
                doc,
                section_patches(
                    cs[i],
                    spec_prefix_tokens(kind),
                    i,
                    section,
                    whole_v,
                    cpu_v,
                    mem_v,
                ),
            )->Some_0;
            let ps2 = r.0;
            let c2 = r.1;
            let res = jv_get(cs[i], "resources"@)->Some_0;
            let res2 = jv_get(c2, "resources"@)->Some_0;
            &&& spec_pod_spec(doc2, kind) == Some(ps2)
            &&& jv_get(ps2, "containers"@) == Some(Json::Arr(cs.update(i, c2)))
            &&& forall|k2: Seq<char>| k2 != "containers"@ ==> jv_get(ps2, k2) == jv_get(ps, k2)
            &&& jv_get(c2, "resources"@) is Some
            &&& res2 is Obj
            &&& res2->Obj_0.len() >= 1
            &&& (match jv_get(res2, section) {
                Some(sec2) => jv_get(sec2, "cpu"@) is Some && jv_get(sec2, "memory"@) is Some,
                None => false,
            })
            &&& forall|k2: Seq<char>| k2 != section ==> jv_get(res2, k2) == jv_get(res, k2)
            &&& forall|k2: Seq<char>| k2 != "resources"@ ==> jv_get(c2, k2) == jv_get(cs[i], k2)
        }),
{
    reveal_with_fuel(apply_add, 6);
    reveal_with_fuel(apply_patches, 4);
    reveal_strlit("cpu");
    reveal_strlit("memory");
    assert("cpu"@.len() == 3);
    assert("memory"@.len() == 6);
    let prefix = spec_prefix_tokens(kind);
    let c = cs[i];
    let res = jv_get(c, "resources"@)->Some_0;
    let patches = section_patches(c, prefix, i, section, whole_v, cpu_v, mem_v);

    match jv_get(res, section) {
        None => {
            // One wholesale patch at resources/<section>.
            let pv = patches[0];
            assert(patches.drop_first() =~= Seq::<PatchView>::empty());
            assert(apply_add(doc, pv.path, pv.value) is Some);
            let rest2 = seq!["resources"@, section];
            let (ps2, c2) = lemma_apply_one_under_container(kind, doc, ps, cs, i, rest2, whole_v);
            assert(rest2.drop_first() =~= seq![section]);
            match c {
                Json::Obj(cf) => {
                    match res {
                        Json::Obj(rf) => {
                            let res2 = Json::Obj(obj_set(rf, section, whole_v));
                            assert(c2 == Json::Obj(obj_set(cf, "resources"@, res2)));
                            lemma_obj_set_get_same(rf, section, whole_v);
                            lemma_obj_set_get_same(cf, "resources"@, res2);
                            assert forall|k2: Seq<char>| k2 != section implies jv_get(res2, k2)
                                == jv_get(res, k2) by {
                                lemma_obj_set_get_other(rf, section, whole_v, k2);
                            }
                            assert forall|k2: Seq<char>| k2 != "resources"@ implies jv_get(c2, k2)
                                == jv_get(c, k2) by {
                                lemma_obj_set_get_other(cf, "resources"@, res2, k2);
                            }
                            (ps2, c2)
                        },
                        _ => {
                            assert(false);
                            (ps2, c2)
                        },
                    }
                },
                _ => {
                    assert(jv_get(c, "resources"@) is None);
                    assert(false);
                    (ps2, c2)
                },
            }
        },
        Some(sec) => {
            let cpu_missing = jv_get(sec, "cpu"@) is None;
            let mem_missing = jv_get(sec, "memory"@) is None;
            if !cpu_missing && !mem_missing {
                assert(patches =~= Seq::<PatchView>::empty());
                assert(cs.update(i, c) =~= cs);
                assert forall|k2: Seq<char>| k2 != section implies jv_get(res, k2) == jv_get(
                    res,
                    k2,
                ) by {}
                (ps, c)
            } else if cpu_missing && !mem_missing {
                let pv = patches[0];
                assert(patches.drop_first() =~= Seq::<PatchView>::empty());
                assert(apply_add(doc, pv.path, pv.value) is Some);
                let rest2 = seq!["resources"@, section, "cpu"@];
                let (ps2, c2) = lemma_apply_one_under_container(
                    kind,
                    doc,
                    ps,
                    cs,
                    i,
                    rest2,
                    cpu_v,
                );
                assert(rest2.drop_first() =~= seq![section, "cpu"@]);
                assert(rest2.drop_first().drop_first() =~= seq!["cpu"@]);
                lemma_section_step(c, res, sec, section, "cpu"@, cpu_v, c2);
                (ps2, c2)
            } else if !cpu_missing && mem_missing {
                let pv = patches[0];
                assert(patches.drop_first() =~= Seq::<PatchView>::empty());
                assert(apply_add(doc, pv.path, pv.value) is Some);
                let rest2 = seq!["resources"@, section, "memory"@];
                let (ps2, c2) = lemma_apply_one_under_container(
                    kind,
                    doc,
                    ps,
                    cs,
                    i,
                    rest2,
                    mem_v,
                );
                assert(rest2.drop_first() =~= seq![section, "memory"@]);
                assert(rest2.drop_first().drop_first() =~= seq!["memory"@]);
                lemma_section_step(c, res, sec, section, "memory"@, mem_v, c2);
                (ps2, c2)
            } else {
                // Both missing: the cpu patch, then the memory patch.
                let pv1 = patches[0];
                let pv2 = patches[1];
                assert(patches.len() == 2);
                assert(patches.drop_first() =~= seq![pv2]);
                assert(patches.drop_first().drop_first() =~= Seq::<PatchView>::empty());
                assert(apply_add(doc, pv1.path, pv1.value) is Some);
                let rest_a = seq!["resources"@, section, "cpu"@];
                let (ps_m, c_m) = lemma_apply_one_under_container(
                    kind,
                    doc,
                    ps,
                    cs,
                    i,
                    rest_a,
                    cpu_v,
                );
                assert(rest_a.drop_first() =~= seq![section, "cpu"@]);
                assert(rest_a.drop_first().drop_first() =~= seq!["cpu"@]);
                lemma_section_step(c, res, sec, section, "cpu"@, cpu_v, c_m);
                let doc_m = apply_add(doc, pv1.path, pv1.value)->Some_0;
                assert(apply_add(doc_m, pv2.path, pv2.value) is Some);
                let cs_m = cs.update(i, c_m);
                let rest_b = seq!["resources"@, section, "memory"@];
                let (ps2, c2) = lemma_apply_one_under_container(
                    kind,
                    doc_m,
                    ps_m,
                    cs_m,
                    i,
                    rest_b,
                    mem_v,
                );
                assert(rest_b.drop_first() =~= seq![section, "memory"@]);
                assert(rest_b.drop_first().drop_first() =~= seq!["memory"@]);
                let res_m = jv_get(c_m, "resources"@)->Some_0;
                let sec_m = jv_get(res_m, section)->Some_0;
                lemma_section_step(c_m, res_m, sec_m, section, "memory"@, mem_v, c2);
                assert(cs_m.update(i, c2) =~= cs.update(i, c2));
                assert forall|k2: Seq<char>| k2 != "containers"@ implies jv_get(ps2, k2)
                    == jv_get(ps, k2) by {}
                let res2 = jv_get(c2, "resources"@)->Some_0;
                assert(jv_get(jv_get(res2, section)->Some_0, "cpu"@) is Some);
                (ps2, c2)
            }
        },
    }
}

/// One three-token step: setting `key` inside `section` of the resources
/// of a container, and what it leaves unchanged.
proof fn lemma_section_step(
    c: Json,
    res: Json,
    sec: Json,
    section: Seq<char>,
    key: Seq<char>,
    v: Json,
    c2: Json,
)
    requires
        jv_get(c, "resources"@) == Some(res),
        jv_get(res, section) == Some(sec),
        apply_add(c, seq!["resources"@, section, key], v) == Some(c2),
    ensures
        ({
            let res2 = jv_get(c2, "resources"@)->Some_0;
            &&& jv_get(c2, "resources"@) is Some
            &&& res2 is Obj
            &&& res2->Obj_0.len() >= 1
            &&& jv_get(res2, section) is Some
            &&& ({
                let sec2 = jv_get(res2, section)->Some_0;
                &&& jv_get(sec2, key) == Some(v)
                &&& forall|k2: Seq<char>| k2 != key ==> jv_get(sec2, k2) == jv_get(sec, k2)
            })
            &&& forall|k2: Seq<char>| k2 != section ==> jv_get(res2, k2) == jv_get(res, k2)
            &&& forall|k2: Seq<char>| k2 != "resources"@ ==> jv_get(c2, k2) == jv_get(c, k2)
        }),
{
    reveal_with_fuel(apply_add, 5);
    let path = seq!["resources"@, section, key];
    assert(path.drop_first() =~= seq![section, key]);
    assert(path.drop_first().drop_first() =~= seq![key]);
    match c {
        Json::Obj(cf) => {
            match res {
                Json::Obj(rf) => {
                    match sec {
                        Json::Obj(sf) => {
                            let sec2 = Json::Obj(obj_set(sf, key, v));
                            let res2 = Json::Obj(obj_set(rf, section, sec2));
                            assert(c2 == Json::Obj(obj_set(cf, "resources"@, res2)));
                            lemma_obj_set_get_same(sf, key, v);
                            lemma_obj_set_get_same(rf, section, sec2);
                            lemma_obj_set_get_same(cf, "resources"@, res2);
                            assert forall|k2: Seq<char>| k2 != key implies jv_get(sec2, k2)
                                == jv_get(sec, k2) by {
                                lemma_obj_set_get_other(sf, key, v, k2);
                            }
                            assert forall|k2: Seq<char>| k2 != section implies jv_get(res2, k2)
                                == jv_get(res, k2) by {
                                lemma_obj_set_get_other(rf, section, sec2, k2);
                            }
                            assert forall|k2: Seq<char>| k2 != "resources"@ implies jv_get(c2, k2)
                                == jv_get(c, k2) by {
                                lemma_obj_set_get_other(cf, "resources"@, res2, k2);
                            }
                        },
                        _ => {
                            assert(false);
                        },
                    }
                },
                _ => {
                    assert(false);
                },
            }
        },
        _ => {
            assert(false);
        },
    }
}

/// The default section records hold both `cpu` and `memory`, and the
/// full default resources record holds both sections.
proof fn lemma_default_values_complete(cfg: crate::config::ResourceLimitsPolicy)
    ensures
        jv_get(spec_requests_value(cfg), "cpu"@) is Some,
        jv_get(spec_requests_value(cfg), "memory"@) is Some,
        jv_get(spec_limits_value(cfg), "cpu"@) is Some,
        jv_get(spec_limits_value(cfg), "memory"@) is Some,
        jv_get(spec_resources_value(cfg), "requests"@) == Some(spec_requests_value(cfg)),
        jv_get(spec_resources_value(cfg), "limits"@) == Some(spec_limits_value(cfg)),
        spec_resources_value(cfg)->Obj_0.len() == 2,
{
    reveal_with_fuel(obj_lookup, 4);
    reveal_strlit("cpu");
    reveal_strlit("memory");
    reveal_strlit("requests");
    reveal_strlit("limits");
    assert("cpu"@.len() == 3);
    assert("memory"@.len() == 6);
    assert("requests"@.len() == 8);
    assert("limits"@.len() == 6);
    let rv = spec_requests_value(cfg);
    let lv = spec_limits_value(cfg);
    let full = spec_resources_value(cfg);
    assert(rv->Obj_0.drop_first() =~= seq![("memory"@, Json::Str(cfg.default_memory_request@))]);
    assert(lv->Obj_0.drop_first() =~= seq![("memory"@, Json::Str(cfg.default_memory_limit@))]);
    assert(full->Obj_0.drop_first() =~= seq![("limits"@, lv)]);
}

/// Applying the patches of one container leaves that container satisfied
/// and everything else as it was.
#[verifier::rlimit(100)]
proof fn lemma_rl_apply_group(
    cfg: crate::config::ResourceLimitsPolicy,
    kind: Seq<char>,
    doc: Json,
    ps: Json,
    cs: Seq<Json>,
    i: int,
) -> (r: (Json, Json))
    requires
        known_kind(kind),
        spec_pod_spec(doc, kind) == Some(ps),
        jv_get(ps, "containers"@) == Some(Json::Arr(cs)),
        0 <= i < cs.len(),
        apply_patches(
            doc,
            spec_rl_container_patches(cfg, cs[i], spec_prefix_tokens(kind), i),
        ) is Some,
    ensures
        ({
            let doc2 = apply_patches(
                doc,
                spec_rl_container_patches(cfg, cs[i], spec_prefix_tokens(kind), i),
            )->Some_0;
            &&& spec_pod_spec(doc2, kind) == Some(r.0)
            &&& jv_get(r.0, "containers"@) == Some(Json::Arr(cs.update(i, r.1)))
            &&& spec_rl_satisfied(r.1)
            &&& forall|k2: Seq<char>| k2 != "containers"@ ==> jv_get(r.0, k2) == jv_get(ps, k2)
        }),
{
    reveal_strlit("requests");
    reveal_strlit("limits");
    assert("requests"@.len() == 8);
    assert("limits"@.len() == 6);
    lemma_default_values_complete(cfg);
    let prefix = spec_prefix_tokens(kind);
    let c = cs[i];
    let group = spec_rl_container_patches(cfg, c, prefix, i);
    let r_opt = spec_resources(c);
    let has_resources = match r_opt {
        Some(Json::Obj(f)) => f.len() > 0,
        _ => false,
    };
    if !has_resources {
        reveal_with_fuel(apply_patches, 3);
        reveal_with_fuel(apply_add, 4);
        let pv = group[0];
        assert(group.drop_first() =~= Seq::<PatchView>::empty());
        assert(apply_add(doc, pv.path, pv.value) is Some);
        let rest2 = seq!["resources"@];
        let full = spec_resources_value(cfg);
        let (ps2, c2) = lemma_apply_one_under_container(kind, doc, ps, cs, i, rest2, full);
        match c {
            Json::Obj(cf) => {
                assert(c2 == Json::Obj(obj_set(cf, "resources"@, full)));
                lemma_obj_set_get_same(cf, "resources"@, full);
                assert(spec_resources(c2) == Some(full));
                assert(spec_rl_satisfied(c2));
                (ps2, c2)
            },
            _ => {
                assert(false);
                (ps2, c2)
            },
        }
    } else {
        let res = jv_get(c, "resources"@)->Some_0;
        let req_patches = section_patches(
            c,
            prefix,
            i,
            "requests"@,
            spec_requests_value(cfg),
            Json::Str(cfg.default_cpu_request@),
            Json::Str(cfg.default_memory_request@),
        );
        let lim_patches = section_patches(
            c,
            prefix,
            i,
            "limits"@,
            spec_limits_value(cfg),
            Json::Str(cfg.default_cpu_limit@),
            Json::Str(cfg.default_memory_limit@),
        );
        assert(group =~= req_patches + lim_patches);
        lemma_apply_patches_concat(doc, req_patches, lim_patches);
        assert(apply_patches(doc, req_patches) is Some);
        let (ps_m, c_m) = lemma_rl_apply_section(
            kind,
            doc,
            ps,
            cs,
            i,
            "requests"@,
            spec_requests_value(cfg),
            Json::Str(cfg.default_cpu_request@),
            Json::Str(cfg.default_memory_request@),
        );
        let doc_m = apply_patches(doc, req_patches)->Some_0;
        assert(apply_patches(doc_m, lim_patches) is Some);
        let res_m = jv_get(c_m, "resources"@)->Some_0;
        assert(jv_get(res_m, "limits"@) == jv_get(res, "limits"@));
        let cs_m = cs.update(i, c_m);
        assert(cs_m[i] == c_m);
        let lim_patches_m = section_patches(
            c_m,
            prefix,
            i,
            "limits"@,
            spec_limits_value(cfg),
            Json::Str(cfg.default_cpu_limit@),
            Json::Str(cfg.default_memory_limit@),
        );
        assert(lim_patches_m =~= lim_patches);
        let (ps2, c2) = lemma_rl_apply_section(
            kind,
            doc_m,
            ps_m,
            cs_m,
            i,
            "limits"@,
            spec_limits_value(cfg),
            Json::Str(cfg.default_cpu_limit@),
            Json::Str(cfg.default_memory_limit@),
        );
        assert(cs_m.update(i, c2) =~= cs.update(i, c2));
        let res2 = jv_get(c2, "resources"@)->Some_0;
        assert(jv_get(res2, "requests"@) == jv_get(res_m, "requests"@));
        assert(spec_rl_satisfied(c2));
        (ps2, c2)
    }
}

/// Applying the patches of the first `k` containers leaves those
/// containers satisfied, the others untouched, and every other member of
/// the pod spec as it was.
proof fn lemma_rl_apply_containers(
    cfg: crate::config::ResourceLimitsPolicy,
    kind: Seq<char>,
    data: Json,
    ps: Json,
    cs: Seq<Json>,
    k: int,
) -> (r: (Json, Seq<Json>))
    requires
        known_kind(kind),
        spec_pod_spec(data, kind) == Some(ps),
        jv_get(ps, "containers"@) == Some(Json::Arr(cs)),
        0 <= k <= cs.len(),
        apply_patches(data, spec_rl_patches_of(cfg, cs.take(k), spec_prefix_tokens(kind))) is Some,
    ensures
        ({
            let data_k = apply_patches(
                data,
                spec_rl_patches_of(cfg, cs.take(k), spec_prefix_tokens(kind)),
            )->Some_0;
            &&& spec_pod_spec(data_k, kind) == Some(r.0)
            &&& jv_get(r.0, "containers"@) == Some(Json::Arr(r.1))
            &&& r.1.len() == cs.len()
            &&& forall|j: int| 0 <= j < k ==> spec_rl_satisfied(#[trigger] r.1[j])
            &&& forall|j: int| k <= j < cs.len() ==> #[trigger] r.1[j] == cs[j]
            &&& forall|k2: Seq<char>| k2 != "containers"@ ==> jv_get(r.0, k2) == jv_get(ps, k2)
        }),
    decreases k,
{
    let prefix = spec_prefix_tokens(kind);
    if k == 0 {
        assert(cs.take(0) =~= Seq::<Json>::empty());
        (ps, cs)
    } else {
        let a = spec_rl_patches_of(cfg, cs.take(k - 1), prefix);
        let b = spec_rl_container_patches(cfg, cs[k - 1], prefix, k - 1);
        assert(cs.take(k).drop_last() =~= cs.take(k - 1));
        assert(cs.take(k).last() == cs[k - 1]);
        assert(spec_rl_patches_of(cfg, cs.take(k), prefix) == a + b);
        lemma_apply_patches_concat(data, a, b);
        assert(apply_patches(data, a) is Some);
        let (ps_m, cs_m) = lemma_rl_apply_containers(cfg, kind, data, ps, cs, k - 1);
        let data_m = apply_patches(data, a)->Some_0;
        assert(apply_patches(data_m, b) is Some);
        assert(cs_m[k - 1] == cs[k - 1]);
        let (ps2, c2) = lemma_rl_apply_group(cfg, kind, data_m, ps_m, cs_m, k - 1);
        let cs2 = cs_m.update(k - 1, c2);
        (ps2, cs2)
    }
}

/// Law (idempotence of injection): an object to which the resource
/// limits policy's own patches have been applied receives none on
/// re-evaluation under the same kind.
pub proof fn lemma_rl_idempotent(
    cfg: crate::config::ResourceLimitsPolicy,
    req: AdmissionRequestView,
    req2: AdmissionRequestView,
)
    requires
        req.object is Some,
        req2.object is Some,
        req2.kind == req.kind,
        apply_patches((req.object->Some_0).data, spec_rl_patches(cfg, req)) == Some(
            (req2.object->Some_0).data,
        ),
    ensures
        spec_rl_patches(cfg, req2).len() == 0,
{
    let data = (req.object->Some_0).data;
    let data2 = (req2.object->Some_0).data;
    match spec_pod_spec(data, req.kind) {
        None => {
            assert(data2 == data);
        },
        Some(ps) => {
            if !cfg.inject_defaults {
                assert(data2 == data);
            } else {
                let prefix = spec_prefix_tokens(req.kind);
                let cs = crate::policies::spec_containers(ps);
                lemma_pod_spec_kind_known(data, req.kind);
                match jv_get(ps, "containers"@) {
                    Some(Json::Arr(a)) => {
                        assert(cs == a);
                        assert(cs.take(cs.len() as int) =~= cs);
                        let (ps2, cs2) = lemma_rl_apply_containers(
                            cfg,
                            req.kind,
                            data,
                            ps,
                            cs,
                            cs.len() as int,
                        );
                        assert(spec_pod_spec(data2, req2.kind) == Some(ps2));
                        assert(crate::policies::spec_containers(ps2) == cs2);
                        lemma_all_satisfied_no_patches(cfg, cs2, prefix);
                    },
                    _ => {
                        assert(cs =~= Seq::<Json>::empty());
                        assert(data2 == data);
                        assert(crate::policies::spec_containers(
                            spec_pod_spec(data2, req2.kind)->Some_0,
                        ) =~= Seq::<Json>::empty());
                    },
                }
            }
        },
    }
}

/// Law: with every policy enabled, the patch list of the mutating path
/// is exactly the resource limits patches followed by the topology
/// spread patch; no other policy contributes any.
pub proof fn lemma_mutate_response_patches(
    engine: PolicyEngine,
    req: AdmissionRequestView,
    rs: Seq<PolicyResult>,
)
    requires
        engine.spec_results_ok(req, true, rs),
        engine.config.resource_limits.enabled,
        engine.config.image_registry.enabled,
        engine.config.labels.enabled,
        engine.config.topology_spread.enabled,
    ensures
        crate::webhook::spec_all_patches(rs) == spec_rl_patches(
            engine.config.resource_limits,
            req,
        ) + spec_ts_patches(engine.config.topology_spread, req),
{
    reveal_with_fuel(crate::webhook::spec_all_patches, 6);
    let names = engine.spec_enabled_names();
    assert(names =~= seq![
        PolicyName::ResourceLimits,
        PolicyName::ImageRegistry,
        PolicyName::Labels,
        PolicyName::TopologySpread,
    ]);
    assert(rs.len() == 4);
    let s3 = rs.drop_last();
    let s2 = s3.drop_last();
    let s1 = s2.drop_last();
    let s0 = s1.drop_last();
    assert(s0 =~= Seq::<PolicyResult>::empty());
    assert(s1 =~= seq![rs[0]]);
    assert(s2 =~= seq![rs[0], rs[1]]);
    assert(s3 =~= seq![rs[0], rs[1], rs[2]]);
    assert(patch_views(rs[0].patches@) == engine.spec_policy_patches(names[0], req));
    assert(patch_views(rs[1].patches@) == engine.spec_policy_patches(names[1], req));
    assert(patch_views(rs[2].patches@) == engine.spec_policy_patches(names[2], req));
    assert(patch_views(rs[3].patches@) == engine.spec_policy_patches(names[3], req));
    assert(crate::webhook::spec_all_patches(rs) =~= spec_rl_patches(
        engine.config.resource_limits,
        req,
    ) + spec_ts_patches(engine.config.topology_spread, req));
}

/// Law (idempotence of the mutating path): an object to which the
/// mutating path's patch list — the resource limits patches followed by
/// the topology spread patch — has been applied receives no patch at all
/// on re-submission under the same kind.
pub proof fn lemma_mutate_idempotent(
    rl_cfg: crate::config::ResourceLimitsPolicy,
    ts_cfg: crate::config::TopologySpreadPolicy,
    req: AdmissionRequestView,
    req2: AdmissionRequestView,
)
    requires
        req.object is Some,
        req2.object is Some,
        req2.kind == req.kind,
        apply_patches(
            (req.object->Some_0).data,
            spec_rl_patches(rl_cfg, req) + spec_ts_patches(ts_cfg, req),
        ) == Some((req2.object->Some_0).data),
    ensures
        spec_rl_patches(rl_cfg, req2).len() == 0,
        spec_ts_patches(ts_cfg, req2).len() == 0,
{
    let data = (req.object->Some_0).data;
    let data2 = (req2.object->Some_0).data;
    let rl = spec_rl_patches(rl_cfg, req);
    let ts = spec_ts_patches(ts_cfg, req);
    lemma_apply_patches_concat(data, rl, ts);
    assert(apply_patches(data, rl) is Some);
    let mid = apply_patches(data, rl)->Some_0;
    assert(apply_patches(mid, ts) == Some(data2));
    let obj = req.object->Some_0;
    let req_m = AdmissionRequestView {
        object: Some(crate::admission::DynamicObjectView { data: mid, ..obj }),
        ..req
    };
    lemma_rl_idempotent(rl_cfg, req, req_m);

    reveal_strlit("containers");
    reveal_strlit("topologySpreadConstraints");
    assert("containers"@.len() == 10);
    assert("topologySpreadConstraints"@.len() == 25);

    match spec_pod_spec(data, req.kind) {
        None => {
            assert(rl.len() == 0 && ts.len() == 0);
            assert(data2 == data);
        },
        Some(ps) => {
            lemma_pod_spec_kind_known(data, req.kind);
            // The pod spec survives the resource limits patches with its
            // spread constraints untouched.
            let ps_m = spec_pod_spec(mid, req.kind)->Some_0;
            if !rl_cfg.inject_defaults {
                assert(mid == data);
                assert(spec_pod_spec(mid, req.kind) == Some(ps));
                assert(jv_get(ps_m, "topologySpreadConstraints"@) == jv_get(
                    ps,
                    "topologySpreadConstraints"@,
                ));
            } else {
                let cs = crate::policies::spec_containers(ps);
                match jv_get(ps, "containers"@) {
                    Some(Json::Arr(a)) => {
                        assert(cs.take(cs.len() as int) =~= cs);
                        let (ps_m2, cs2) = lemma_rl_apply_containers(
                            rl_cfg,
                            req.kind,
                            data,
                            ps,
                            cs,
                            cs.len() as int,
                        );
                        assert(ps_m == ps_m2);
                        assert(jv_get(ps_m, "topologySpreadConstraints"@) == jv_get(
                            ps,
                            "topologySpreadConstraints"@,
                        ));
                    },
                    _ => {
                        assert(crate::policies::spec_containers(ps) =~= Seq::<Json>::empty());
                        assert(mid == data);
                        assert(jv_get(ps_m, "topologySpreadConstraints"@) == jv_get(
                            ps,
                            "topologySpreadConstraints"@,
                        ));
                    },
                }
            }
            assert(spec_constraints(ps_m) == spec_constraints(ps));
            assert(spec_ts_missing(ps_m) == spec_ts_missing(ps));

            if ts.len() == 0 {
                assert(data2 == mid);
                assert(spec_ts_patches(ts_cfg, req2).len() == 0);
                assert(spec_rl_patches(rl_cfg, req2).len() == 0);
            } else {
                reveal_with_fuel(apply_patches, 3);
                let pv = ts[0];
                assert(ts.drop_first() =~= Seq::<PatchView>::empty());
                assert(apply_add(mid, pv.path, pv.value) == Some(data2));
                let prefix = spec_prefix_tokens(req.kind);
                let rest = seq!["topologySpreadConstraints"@];
                assert(pv.path == prefix + rest);
                lemma_pod_spec_is_get_path(mid, req.kind);
                lemma_apply_through(mid, prefix, rest, pv.value, ps_m);
                let ps2 = apply_add(ps_m, rest, pv.value)->Some_0;
                assert(get_path(data2, prefix) == Some(ps2));
                lemma_pod_spec_is_get_path(data2, req.kind);
                match ps_m {
                    Json::Obj(f) => {
                        lemma_obj_set_get_same(f, "topologySpreadConstraints"@, pv.value);
                        assert(jv_get(ps2, "topologySpreadConstraints"@) == Some(pv.value));
                        assert(pv.value is Arr && pv.value->Arr_0.len() == 1);
                        assert(!spec_ts_missing(ps2));
                        assert(spec_ts_patches(ts_cfg, req2).len() == 0);
                        // The containers of the final pod spec are those
                        // the resource limits patches left satisfied.
                        lemma_obj_set_get_other(
                            f,
                            "topologySpreadConstraints"@,
                            pv.value,
                            "containers"@,
                        );
                        assert(jv_get(ps2, "containers"@) == jv_get(ps_m, "containers"@));
                        if !rl_cfg.inject_defaults {
                            assert(spec_rl_patches(rl_cfg, req2).len() == 0);
                        } else {
                            let cs_m = crate::policies::spec_containers(ps_m);
                            assert(crate::policies::spec_containers(ps2) == cs_m);
                            assert(spec_rl_patches(rl_cfg, req_m).len() == 0);
                            match jv_get(ps_m, "containers"@) {
                                Some(Json::Arr(a2)) => {
                                    assert(spec_rl_patches_of(rl_cfg, cs_m, prefix).len() == 0);
                                    assert(spec_rl_patches(rl_cfg, req2).len() == 0);
                                },
                                _ => {
                                    assert(cs_m =~= Seq::<Json>::empty());
                                    assert(spec_rl_patches(rl_cfg, req2).len() == 0);
                                },
                            }
                        }
                    },
                    _ => {
                        assert(apply_add(ps_m, rest, pv.value) is None);
                        assert(false);
                    },
                }
            }
        },
    }
}

/// Law (one direction of idempotence): an object whose pod spec already
/// declares a non-empty `topologySpreadConstraints` array receives no
/// injected constraint.
pub proof fn lemma_present_constraints_no_patches(
    cfg: crate::config::TopologySpreadPolicy,
    req: AdmissionRequestView,
)
    requires
        match req.object {
            Some(obj) => match spec_pod_spec(obj.data, req.kind) {
                Some(ps) => !spec_ts_missing(ps),
                None => true,
            },
            None => true,
        },
    ensures
        spec_ts_patches(cfg, req).len() == 0,
{
}

} // verus!
