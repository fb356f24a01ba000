//! Response assembly: aggregate policy results into one admission
//! response — deny if any policy denied, merge patches on the mutating
//! path, and carry every warning through.

use vstd::prelude::*;

use crate::admission::{AdmissionRequest, AdmissionResponse};
use crate::config::PolicyMode;
use crate::engine::PolicyResult;
use crate::json::JsonValue;
use crate::patch::{patch_views, AddOperation, PatchOperation, PatchView};
use crate::strutil::{join_with, seq_join};

verus! {

/// Which webhook endpoint a request came through.
#[derive(Clone, Copy, PartialEq, Eq, Structural, Debug)]
pub enum WebhookType {
    Validate,
    Mutate,
}

impl WebhookType {
    pub open spec fn spec_str(self) -> Seq<char> {
        match self {
            WebhookType::Validate => "validate"@,
            WebhookType::Mutate => "mutate"@,
        }
    }

    pub fn as_str(self) -> (r: &'static str)
        ensures
            r@ == self.spec_str(),
    {
        match self {
            WebhookType::Validate => "validate",
            WebhookType::Mutate => "mutate",
        }
    }
}

pub open spec fn spec_mode_str(mode: PolicyMode) -> Seq<char> {
    match mode {
        PolicyMode::Enforce => "enforce"@,
        PolicyMode::Warn => "warn"@,
    }
}

pub fn mode_str(mode: &PolicyMode) -> (r: &'static str)
    ensures
        r@ == spec_mode_str(*mode),
{
    match mode {
        PolicyMode::Enforce => "enforce",
        PolicyMode::Warn => "warn",
    }
}

/// All warnings of a result sequence, in policy order.
pub open spec fn spec_all_warnings(rs: Seq<PolicyResult>) -> Seq<Seq<char>>
    decreases rs.len(),
{
    if rs.len() == 0 {
        Seq::empty()
    } else {
        spec_all_warnings(rs.drop_last()) + rs.last().warnings.deep_view()
    }
}

/// All patches of a result sequence, in policy order.
pub open spec fn spec_all_patches(rs: Seq<PolicyResult>) -> Seq<PatchView>
    decreases rs.len(),
{
    if rs.len() == 0 {
        Seq::empty()
    } else {
        spec_all_patches(rs.drop_last()) + patch_views(rs.last().patches@)
    }
}

/// The denial line one result contributes, if it denied.
pub open spec fn spec_denied_line(r: PolicyResult) -> Seq<Seq<char>> {
    if !r.allowed {
        seq![
            r.policy_name.spec_str() + ": "@ + (match r.message {
                Some(m) => m@,
                None => "denied"@,
            }),
        ]
    } else {
        Seq::empty()
    }
}

/// The denial lines of a result sequence, in policy order.
pub open spec fn spec_denied_messages(rs: Seq<PolicyResult>) -> Seq<Seq<char>>
    decreases rs.len(),
{
    if rs.len() == 0 {
        Seq::empty()
    } else {
        spec_denied_messages(rs.drop_last()) + spec_denied_line(rs.last())
    }
}

fn clone_patch(p: &PatchOperation) -> (r: PatchOperation)
    ensures
        r@ == p@,
{
    match p {
        PatchOperation::Add(op) => {
            let mut path: Vec<String> = Vec::new();
            let mut i: usize = 0;
            while i < op.path.len()
                invariant
                    i <= op.path@.len(),
                    path@.len() == i,
                    forall|j: int| 0 <= j < i ==> (#[trigger] path@[j])@ == op.path@[j]@,
                decreases op.path@.len() - i,
            {
                let t = op.path[i].clone();
                path.push(t);
                i += 1;
            }
            let value = op.value.deep_clone();
            let r = PatchOperation::Add(AddOperation { path, value });
            proof {
                assert(r@.path =~= p@.path);
            }
            r
        },
    }
}

/// Builds the admission response from the policy results: deny carrying
/// every denial message when any policy denied; otherwise allow, with the
/// merged patches on the mutating path; warnings always carried through.
pub fn build_response(
    req: &AdmissionRequest,
    results: &Vec<PolicyResult>,
    webhook_type: WebhookType,
) -> (r: AdmissionResponse)
    ensures
        r.uid@ == req.uid@,
        r.warnings.deep_view() == spec_all_warnings(results@),
        spec_denied_messages(results@).len() > 0 ==> !r.allowed && (match r.message {
            Some(m) => m@ == seq_join(spec_denied_messages(results@), "; "@),
            None => false,
        }) && r.patches@.len() == 0,
        spec_denied_messages(results@).len() == 0 ==> r.allowed && r.message is None
            && patch_views(r.patches@) == (match webhook_type {
            WebhookType::Mutate => spec_all_patches(results@),
            WebhookType::Validate => Seq::<PatchView>::empty(),
        }),
{
    let mut warnings: Vec<String> = Vec::new();
    let mut denied_messages: Vec<String> = Vec::new();
    let mut all_patches: Vec<PatchOperation> = Vec::new();

    let mut i: usize = 0;
    while i < results.len()
        invariant
            i <= results@.len(),
            warnings.deep_view() == spec_all_warnings(results@.take(i as int)),
            denied_messages.deep_view() == spec_denied_messages(results@.take(i as int)),
            patch_views(all_patches@) == (match webhook_type {
                WebhookType::Mutate => spec_all_patches(results@.take(i as int)),
                WebhookType::Validate => Seq::<PatchView>::empty(),
            }),
        decreases results@.len() - i,
    {
        let result = &results[i];
        let ghost old_warnings = warnings.deep_view();
        let ghost old_denied = denied_messages.deep_view();
        let ghost old_patches = patch_views(all_patches@);
        proof {
            assert(results@.take(i + 1).drop_last() =~= results@.take(i as int));
            assert(results@.take(i + 1).last() == results@[i as int]);
        }

        let mut k: usize = 0;
        while k < result.warnings.len()
            invariant
                k <= result.warnings@.len(),
                result.warnings.deep_view().len() == result.warnings@.len(),
                warnings.deep_view() == old_warnings + result.warnings.deep_view().take(k as int),
            decreases result.warnings@.len() - k,
        {
            let w = result.warnings[k].clone();
            proof {
                assert(result.warnings.deep_view().take(k + 1).drop_last()
                    =~= result.warnings.deep_view().take(k as int));
                assert(result.warnings.deep_view().take(k + 1).last()
                    == result.warnings.deep_view()[k as int]);
            }
            proof {
                assert(w@ == result.warnings.deep_view()[k as int]);
            }
            warnings.push(w);
            proof {
                let dv = result.warnings.deep_view();
                assert(warnings.deep_view() =~= (old_warnings + dv.take(k as int)).push(
                    dv[k as int],
                ));
                assert((old_warnings + dv.take(k as int)).push(dv[k as int]) =~= old_warnings
                    + dv.take(k + 1));
            }
            k += 1;
        }
        proof {
            assert(result.warnings.deep_view().take(result.warnings@.len() as int)
                =~= result.warnings.deep_view());
            assert(warnings.deep_view() =~= spec_all_warnings(results@.take(i + 1)));
        }

        match webhook_type {
            WebhookType::Mutate => {
                let mut k: usize = 0;
                while k < result.patches.len()
                    invariant
                        k <= result.patches@.len(),
                        patch_views(all_patches@) == old_patches + patch_views(
                            result.patches@,
                        ).take(k as int),
                    decreases result.patches@.len() - k,
                {
                    let p = clone_patch(&result.patches[k]);
                    proof {
                        assert(patch_views(result.patches@).take(k + 1).drop_last()
                            =~= patch_views(result.patches@).take(k as int));
                        assert(patch_views(result.patches@).take(k + 1).last() == patch_views(
                            result.patches@,
                        )[k as int]);
                    }
                    proof {
                        assert(p@ == patch_views(result.patches@)[k as int]);
                    }
                    all_patches.push(p);
                    proof {
                        let pv = patch_views(result.patches@);
                        assert(patch_views(all_patches@) =~= (old_patches + pv.take(
                            k as int,
                        )).push(pv[k as int]));
                        assert((old_patches + pv.take(k as int)).push(pv[k as int])
                            =~= old_patches + pv.take(k + 1));
                    }
                    k += 1;
                }
                proof {
                    assert(patch_views(result.patches@).take(result.patches@.len() as int)
                        =~= patch_views(result.patches@));
                    assert(patch_views(all_patches@) =~= spec_all_patches(results@.take(i + 1)));
                }
            },
            WebhookType::Validate => {
                proof {
                    assert(patch_views(all_patches@) =~= Seq::<PatchView>::empty());
                }
            },
        }

        if !result.allowed {
            let mut m = String::from_str(result.policy_name.as_str());
            m.append(": ");
            match &result.message {
                Some(msg) => {
                    m.append(msg.as_str());
                },
                None => {
                    m.append("denied");
                },
            }
            proof {
                let line = spec_denied_line(results@[i as int]);
                assert(m@ =~= line[0]);
                assert(seq![m@] =~= line);
            }
            denied_messages.push(m);
        }
        proof {
            assert(denied_messages.deep_view() =~= spec_denied_messages(results@.take(i + 1)));
        }

        i += 1;
    }
    proof {
        assert(results@.take(results@.len() as int) =~= results@);
    }

    if denied_messages.len() > 0 {
        let message = join_with(&denied_messages, "; ");
        AdmissionResponse {
            uid: req.uid.clone(),
            allowed: false,
            message: Some(message),
            warnings,
            patches: Vec::new(),
        }
    } else {
        AdmissionResponse {
            uid: req.uid.clone(),
            allowed: true,
            message: None,
            warnings,
            patches: all_patches,
        }
    }
}

} // verus!
