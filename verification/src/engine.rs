//! The policy engine: iterate the enabled policies in their fixed order,
//! time each one, and translate raw policy output into a result according
//! to the policy's mode.

use vstd::prelude::*;

use crate::admission::{AdmissionRequest, AdmissionRequestView};
use crate::config::{PoliciesConfig, PolicyMode, PolicyName};
use crate::patch::{patch_views, PatchOperation, PatchView};
use crate::policies::labels::{
    compile_labels, spec_compiled_from, spec_labels_violations, CompiledLabel,
};
use crate::policies::{image_registry, labels, resource_limits, topology_spread, PolicyOutput};
use crate::strutil::seq_join;

verus! {

#[verifier::external_type_specification]
#[verifier::external_body]
pub struct ExInstant(std::time::Instant);

/// Relies on std::time::Instant::now: an opaque reading of the monotonic
/// clock; nothing is assumed of its value.
#[verifier::external_body]
fn monotonic_now() -> (r: std::time::Instant) {
    std::time::Instant::now()
}

/// Relies on std::time::Instant::elapsed: the time since `start`, here in
/// nanoseconds; nothing is assumed of the value.
#[verifier::external_body]
fn nanos_since(start: &std::time::Instant) -> (r: u64) {
    start.elapsed().as_nanos() as u64
}

/// What one policy evaluation decided, after mode translation.
pub struct PolicyResult {
    pub policy_name: PolicyName,
    pub allowed: bool,
    pub message: Option<String>,
    pub warnings: Vec<String>,
    pub patches: Vec<PatchOperation>,
    pub duration_nanos: u64,
}

/// The engine: the immutable policies configuration and the label
/// patterns compiled once at construction.
pub struct PolicyEngine {
    pub config: PoliciesConfig,
    pub compiled_labels: Vec<CompiledLabel>,
}

/// The warning lines of one policy in warn mode: each violation prefixed
/// with the policy's name.
pub open spec fn spec_warn_lines(name: PolicyName, violations: Seq<Seq<char>>) -> Seq<Seq<char>> {
    Seq::new(
        violations.len(),
        |i: int|
            if 0 <= i < violations.len() {
                name.spec_str() + ": "@ + violations[i]
            } else {
                Seq::empty()
            },
    )
}

/// How a result corresponds to the raw violations and patches of its
/// policy, under the policy's configured mode.
pub open spec fn spec_result_ok(
    cfg: PoliciesConfig,
    name: PolicyName,
    violations: Seq<Seq<char>>,
    patches: Seq<PatchView>,
    include_patches: bool,
    r: PolicyResult,
) -> bool {
    &&& r.policy_name == name
    &&& patch_views(r.patches@) == (if include_patches {
        patches
    } else {
        Seq::<PatchView>::empty()
    })
    &&& match cfg.spec_policy_mode(name) {
        PolicyMode::Enforce => {
            &&& r.allowed == (violations.len() == 0)
            &&& r.warnings@.len() == 0
            &&& (match r.message {
                Some(m) => violations.len() > 0 && m@ == seq_join(violations, "; "@),
                None => violations.len() == 0,
            })
        },
        PolicyMode::Warn => {
            &&& r.allowed
            &&& r.message is None
            &&& r.warnings.deep_view() == spec_warn_lines(name, violations)
        },
    }
}

impl PolicyEngine {
    /// The compiled label entries, in configured order.
    pub open spec fn spec_compiled_labels(&self) -> Seq<CompiledLabel> {
        self.compiled_labels@
    }

    /// The raw violations of one policy on a request.
    pub open spec fn spec_policy_violations(
        &self,
        name: PolicyName,
        req: AdmissionRequestView,
        mutating: bool,
    ) -> Seq<Seq<char>> {
        match name {
            PolicyName::ResourceLimits => resource_limits::spec_rl_violations(
                self.config.resource_limits,
                req,
                mutating,
            ),
            PolicyName::ImageRegistry => image_registry::spec_ir_violations(
                self.config.image_registry,
                req,
            ),
            PolicyName::Labels => spec_labels_violations(self.spec_compiled_labels(), req),
            PolicyName::TopologySpread => topology_spread::spec_ts_violations(
                self.config.topology_spread,
                req,
                mutating,
            ),
        }
    }

    /// The raw patches of one policy on a request.
    pub open spec fn spec_policy_patches(&self, name: PolicyName, req: AdmissionRequestView) -> Seq<
        PatchView,
    > {
        match name {
            PolicyName::ResourceLimits => resource_limits::spec_rl_patches(
                self.config.resource_limits,
                req,
            ),
            PolicyName::ImageRegistry => Seq::empty(),
            PolicyName::Labels => Seq::empty(),
            PolicyName::TopologySpread => topology_spread::spec_ts_patches(
                self.config.topology_spread,
                req,
            ),
        }
    }

    /// The names of the enabled policies, in the fixed evaluation order.
    pub open spec fn spec_enabled_names(&self) -> Seq<PolicyName> {
        let rl: Seq<PolicyName> = if self.config.resource_limits.enabled {
            seq![PolicyName::ResourceLimits]
        } else {
            Seq::empty()
        };
        let ir: Seq<PolicyName> = if self.config.image_registry.enabled {
            seq![PolicyName::ImageRegistry]
        } else {
            Seq::empty()
        };
        let lb: Seq<PolicyName> = if self.config.labels.enabled {
            seq![PolicyName::Labels]
        } else {
            Seq::empty()
        };
        let ts: Seq<PolicyName> = if self.config.topology_spread.enabled {
            seq![PolicyName::TopologySpread]
        } else {
            Seq::empty()
        };
        rl + ir + lb + ts
    }

    /// How a whole result vector corresponds to a request: one result per
    /// enabled policy, in order, each translated per its mode.
    pub open spec fn spec_results_ok(
        &self,
        req: AdmissionRequestView,
        include_patches: bool,
        rs: Seq<PolicyResult>,
    ) -> bool {
        &&& rs.len() == self.spec_enabled_names().len()
        &&& forall|i: int| 0 <= i < rs.len() ==> spec_result_ok(
            self.config,
            self.spec_enabled_names()[i],
            self.spec_policy_violations(self.spec_enabled_names()[i], req, include_patches),
            self.spec_policy_patches(self.spec_enabled_names()[i], req),
            include_patches,
            #[trigger] rs[i],
        )
    }

    /// Builds an engine: the configuration is kept, and label patterns
    /// are compiled once.
    pub fn new(config: PoliciesConfig) -> (r: PolicyEngine)
        ensures
            r.config == config,
            r.spec_compiled_labels().len() == config.labels.labels@.len(),
            forall|i: int| 0 <= i < r.spec_compiled_labels().len() ==> spec_compiled_from(
                #[trigger] r.spec_compiled_labels()[i],
                config.labels.labels@[i].key@,
                config.labels.labels@[i].pattern.deep_view(),
            ),
    {
        let compiled_labels = compile_labels(&config.labels);
        PolicyEngine { config, compiled_labels }
    }

    fn to_result(
        &self,
        name: PolicyName,
        output: PolicyOutput,
        include_patches: bool,
        duration_nanos: u64,
    ) -> (r: PolicyResult)
        ensures
            spec_result_ok(
                self.config,
                name,
                output.violations.deep_view(),
                patch_views(output.patches@),
                include_patches,
                r,
            ),
            r.duration_nanos == duration_nanos,
    {
        let ghost g_violations = output.violations.deep_view();
        let patches = if include_patches {
            output.patches
        } else {
            Vec::new()
        };
        proof {
            if !include_patches {
                assert(patch_views(patches@) =~= Seq::<PatchView>::empty());
            }
        }

        match self.config.policy_mode(name) {
            PolicyMode::Enforce => {
                let allowed = output.violations.len() == 0;
                let message = if allowed {
                    None
                } else {
                    Some(crate::strutil::join_with(&output.violations, "; "))
                };
                PolicyResult {
                    policy_name: name,
                    allowed,
                    message,
                    warnings: Vec::new(),
                    patches,
                    duration_nanos,
                }
            },
            PolicyMode::Warn => {
                let mut warnings: Vec<String> = Vec::new();
                let mut i: usize = 0;
                while i < output.violations.len()
                    invariant
                        i <= output.violations@.len(),
                        g_violations == output.violations.deep_view(),
                        g_violations.len() == output.violations@.len(),
                        warnings.deep_view() == spec_warn_lines(name, g_violations).take(i as int),
                    decreases output.violations@.len() - i,
                {
                    let mut w = String::from_str(name.as_str());
                    w.append(": ");
                    w.append(output.violations[i].as_str());
                    proof {
                        assert(w@ =~= name.spec_str() + ": "@ + g_violations[i as int]);
                        assert(spec_warn_lines(name, g_violations).take(i + 1).drop_last()
                            =~= spec_warn_lines(name, g_violations).take(i as int));
                    }
                    warnings.push(w);
                    proof {
                        assert(warnings.deep_view() =~= spec_warn_lines(name, g_violations).take(
                            i + 1,
                        ));
                    }
                    i += 1;
                }
                proof {
                    assert(spec_warn_lines(name, g_violations).take(g_violations.len() as int)
                        =~= spec_warn_lines(name, g_violations));
                }
                PolicyResult {
                    policy_name: name,
                    allowed: true,
                    message: None,
                    warnings,
                    patches,
                    duration_nanos,
                }
            },
        }
    }

    fn evaluate_all(&self, request: &AdmissionRequest, include_patches: bool) -> (rs: Vec<
        PolicyResult,
    >)
        ensures
            self.spec_results_ok(request@, include_patches, rs@),
    {
        let mut results: Vec<PolicyResult> = Vec::new();
        let ghost names = self.spec_enabled_names();

        if self.config.resource_limits.enabled {
            let start = monotonic_now();
            let output = resource_limits::evaluate(
                &self.config.resource_limits,
                request,
                include_patches,
            );
            let d = nanos_since(&start);
            let r = self.to_result(PolicyName::ResourceLimits, output, include_patches, d);
            results.push(r);
        }
        if self.config.image_registry.enabled {
            let start = monotonic_now();
            let output = image_registry::evaluate(&self.config.image_registry, request);
            let d = nanos_since(&start);
            proof {
                assert(patch_views(output.patches@) =~= Seq::<PatchView>::empty());
            }
            let r = self.to_result(PolicyName::ImageRegistry, output, include_patches, d);
            results.push(r);
        }
        if self.config.labels.enabled {
            let start = monotonic_now();
            let output = labels::evaluate(&self.compiled_labels, request);
            let d = nanos_since(&start);
            proof {
                assert(patch_views(output.patches@) =~= Seq::<PatchView>::empty());
            }
            let r = self.to_result(PolicyName::Labels, output, include_patches, d);
            results.push(r);
        }
        if self.config.topology_spread.enabled {
            let start = monotonic_now();
            let output = topology_spread::evaluate(
                &self.config.topology_spread,
                request,
                include_patches,
            );
            let d = nanos_since(&start);
            let r = self.to_result(PolicyName::TopologySpread, output, include_patches, d);
            results.push(r);
        }

        proof {
            assert(results@.len() == names.len());
            assert forall|i: int| 0 <= i < results@.len() implies spec_result_ok(
                self.config,
                names[i],
                self.spec_policy_violations(names[i], request@, include_patches),
                self.spec_policy_patches(names[i], request@),
                include_patches,
                #[trigger] results@[i],
            ) by {
            }
        }
        results
    }

    /// Evaluates the enabled policies for the validating path: no result
    /// carries a patch.
    pub fn evaluate_validate(&self, request: &AdmissionRequest) -> (rs: Vec<PolicyResult>)
        ensures
            self.spec_results_ok(request@, false, rs@),
            forall|i: int| 0 <= i < rs@.len() ==> (#[trigger] rs@[i]).patches@.len() == 0,
    {
        let rs = self.evaluate_all(request, false);
        proof {
            assert forall|i: int| 0 <= i < rs@.len() implies (#[trigger] rs@[i]).patches@.len()
                == 0 by {
                assert(patch_views(rs@[i].patches@).len() == 0);
            }
        }
        rs
    }

    /// Evaluates the enabled policies for the mutating path: results
    /// carry the patches their policies produced.
    pub fn evaluate_mutate(&self, request: &AdmissionRequest) -> (rs: Vec<PolicyResult>)
        ensures
            self.spec_results_ok(request@, true, rs@),
    {
        self.evaluate_all(request, true)
    }
}

} // verus!
