//! The image registry policy: parse each container's image reference,
//! check its registry against the allow-list, and flag `latest` tags.

use vstd::prelude::*;

use crate::admission::{AdmissionRequest, AdmissionRequestView};
use crate::config::AllowedRegistriesPolicy;
use crate::json::{jv_get, Json, JsonValue};
use crate::policies::{
    container_name, get_containers, get_pod_spec, spec_container_name, spec_containers,
    spec_pod_spec, PolicyOutput,
};
use crate::strutil::{
    contains_char, find_char, first_index_of, has_char, join_with, last_index_of, rfind_char,
    seq_join, str_eq,
};

verus! {

/// The image reference without its digest part.
pub open spec fn spec_strip_digest(image: Seq<char>) -> Seq<char> {
    match first_index_of(image, '@') {
        Some(p) => image.take(p),
        None => image,
    }
}

/// The name part and the tag of a digest-stripped reference: split at the
/// first colon after the last slash, or at the first colon when there is
/// no slash; no colon means an empty tag.
pub open spec fn spec_name_and_tag(s: Seq<char>) -> (Seq<char>, Seq<char>) {
    match last_index_of(s, '/') {
        Some(ls) => match first_index_of(s.skip(ls), ':') {
            Some(off) => (s.take(ls + off), s.skip(ls + off + 1)),
            None => (s, Seq::empty()),
        },
        None => match first_index_of(s, ':') {
            Some(p) => (s.take(p), s.skip(p + 1)),
            None => (s, Seq::empty()),
        },
    }
}

/// The registry of a name part: an explicit first segment (one holding a
/// dot or colon, or `localhost`) keeps everything up to the last slash;
/// otherwise the name maps into `docker.io`.
pub open spec fn spec_extract_registry(name: Seq<char>) -> Seq<char> {
    match first_index_of(name, '/') {
        Some(sp) => {
            let first = name.take(sp);
            if has_char(first, '.') || has_char(first, ':') || first == "localhost"@ {
                match last_index_of(name, '/') {
                    Some(p) => name.take(p),
                    None => name,
                }
            } else {
                "docker.io/"@ + first
            }
        },
        None => "docker.io/library"@,
    }
}

pub open spec fn spec_image_registry(image: Seq<char>) -> Seq<char> {
    spec_extract_registry(spec_name_and_tag(spec_strip_digest(image)).0)
}

pub open spec fn spec_image_tag(image: Seq<char>) -> Seq<char> {
    spec_name_and_tag(spec_strip_digest(image)).1
}

/// Whether registry `r` is covered by allow-list entry `allowed`: equal,
/// or `allowed` followed immediately by a slash.
pub open spec fn spec_registry_matches(r: Seq<char>, allowed: Seq<char>) -> bool {
    r == allowed || (r.len() > allowed.len() && r.take(allowed.len() as int) == allowed && r[
        allowed.len() as int
    ] == '/')
}

pub fn registry_matches(registry: &str, allowed: &str) -> (r: bool)
    ensures
        r == spec_registry_matches(registry@, allowed@),
{
    if str_eq(registry, allowed) {
        return true;
    }
    let rlen = registry.unicode_len();
    let alen = allowed.unicode_len();
    if rlen <= alen {
        proof {
            assert(registry@.len() <= allowed@.len());
            assert(!spec_registry_matches(registry@, allowed@));
        }
        return false;
    }
    let mut i: usize = 0;
    while i < alen
        invariant
            rlen == registry@.len(),
            alen == allowed@.len(),
            rlen > alen,
            i <= alen,
            forall|j: int| 0 <= j < i ==> registry@[j] == allowed@[j],
        decreases alen - i,
    {
        if registry.get_char(i) != allowed.get_char(i) {
            proof {
                assert(registry@.take(alen as int)[i as int] != allowed@[i as int]);
            }
            return false;
        }
        i += 1;
    }
    proof {
        assert(registry@.take(alen as int) =~= allowed@);
    }
    registry.get_char(alen) == '/'
}

/// A parsed image reference.
pub struct ImageRef {
    pub registry: String,
    pub tag: String,
    pub has_digest: bool,
}

pub fn extract_registry(name_part: &str) -> (r: String)
    ensures
        r@ == spec_extract_registry(name_part@),
{
    match find_char(name_part, '/') {
        Some(sp) => {
            let first = name_part.substring_char(0, sp);
            proof {
                assert(first@ == name_part@.take(sp as int));
            }
            let has_explicit = contains_char(first, '.') || contains_char(first, ':') || str_eq(
                first,
                "localhost",
            );
            if has_explicit {
                match rfind_char(name_part, '/') {
                    Some(p) => {
                        let r = String::from_str(name_part.substring_char(0, p));
                        proof {
                            assert(r@ == name_part@.take(p as int));
                        }
                        r
                    },
                    None => String::from_str(name_part),
                }
            } else {
                let mut s = String::from_str("docker.io/");
                s.append(first);
                s
            }
        },
        None => String::from_str("docker.io/library"),
    }
}

pub fn parse_image_ref(image: &str) -> (r: ImageRef)
    ensures
        r.registry@ == spec_image_registry(image@),
        r.tag@ == spec_image_tag(image@),
        r.has_digest == has_char(image@, '@'),
{
    let ghost g_image = image@;
    let has_digest = contains_char(image, '@');
    let image_no_digest: &str = match find_char(image, '@') {
        Some(pos) => image.substring_char(0, pos),
        None => image,
    };
    proof {
        assert(image_no_digest@ =~= spec_strip_digest(g_image));
    }

    let len = image_no_digest.unicode_len();
    let (name_part, tag): (&str, &str) = match rfind_char(image_no_digest, '/') {
        Some(last_slash) => {
            let suffix = image_no_digest.substring_char(last_slash, len);
            proof {
                assert(suffix@ =~= image_no_digest@.skip(last_slash as int));
            }
            match find_char(suffix, ':') {
                Some(colon_offset) => {
                    let colon_pos = last_slash + colon_offset;
                    (
                        image_no_digest.substring_char(0, colon_pos),
                        image_no_digest.substring_char(colon_pos + 1, len),
                    )
                },
                None => (image_no_digest, ""),
            }
        },
        None => match find_char(image_no_digest, ':') {
            Some(colon_pos) => (
                image_no_digest.substring_char(0, colon_pos),
                image_no_digest.substring_char(colon_pos + 1, len),
            ),
            None => (image_no_digest, ""),
        },
    };
    proof {
        reveal_strlit("");
        let target = spec_name_and_tag(spec_strip_digest(g_image));
        assert(name_part@ =~= target.0);
        assert(tag@ =~= target.1);
    }

    let registry = extract_registry(name_part);

    ImageRef { registry, tag: String::from_str(tag), has_digest }
}

/// One violation when the container names no image.
pub open spec fn msg_no_image(name: Seq<char>) -> Seq<char> {
    "container '"@ + name + "' has no image specified"@
}

/// One violation when the registry is not allowed.
pub open spec fn msg_bad_registry(
    name: Seq<char>,
    image: Seq<char>,
    registry: Seq<char>,
    allowed_list: Seq<char>,
) -> Seq<char> {
    "container '"@ + name + "' image '"@ + image + "' uses registry '"@ + registry
        + "' which is not in the allowed list ["@ + allowed_list + "]"@
}

/// One violation when the tag is, or defaults to, `latest`.
pub open spec fn msg_latest_tag(name: Seq<char>, image: Seq<char>, tag_display: Seq<char>) -> Seq<
    char,
> {
    "container '"@ + name + "' image '"@ + image + "' uses tag '"@ + tag_display + "'"@
}

/// Whether some allow-list entry covers the registry.
pub open spec fn spec_registry_allowed(registry: Seq<char>, registries: Seq<Seq<char>>) -> bool {
    exists|k: int| 0 <= k < registries.len() && spec_registry_matches(registry, registries[k])
}

/// The violations of one container under this policy.
pub open spec fn spec_ir_container_violations(cfg: AllowedRegistriesPolicy, c: Json) -> Seq<
    Seq<char>,
> {
    let name = spec_container_name(c);
    match jv_get(c, "image"@) {
        Some(Json::Str(image)) => {
            let registry = spec_image_registry(image);
            let tag = spec_image_tag(image);
            let digest = has_char(image, '@');
            let registry_part: Seq<Seq<char>> = if !spec_registry_allowed(
                registry,
                cfg.registries.deep_view(),
            ) {
                seq![
                    msg_bad_registry(
                        name,
                        image,
                        registry,
                        seq_join(cfg.registries.deep_view(), ", "@),
                    ),
                ]
            } else {
                Seq::empty()
            };
            let tag_part: Seq<Seq<char>> = if !cfg.allow_latest_tag && (tag == "latest"@ || (
            tag.len() == 0 && !digest)) {
                seq![
                    msg_latest_tag(
                        name,
                        image,
                        if tag.len() == 0 {
                            "<none> (defaults to latest)"@
                        } else {
                            "latest"@
                        },
                    ),
                ]
            } else {
                Seq::empty()
            };
            registry_part + tag_part
        },
        _ => seq![msg_no_image(name)],
    }
}

/// The violations of a container sequence, in declared order.
pub open spec fn spec_ir_violations_of(cfg: AllowedRegistriesPolicy, containers: Seq<Json>) -> Seq<
    Seq<char>,
>
    decreases containers.len(),
{
    if containers.len() == 0 {
        Seq::empty()
    } else {
        spec_ir_violations_of(cfg, containers.drop_last()) + spec_ir_container_violations(
            cfg,
            containers.last(),
        )
    }
}

/// The violations of the whole request under this policy.
pub open spec fn spec_ir_violations(cfg: AllowedRegistriesPolicy, req: AdmissionRequestView) -> Seq<
    Seq<char>,
> {
    match req.object {
        Some(obj) => match spec_pod_spec(obj.data, req.kind) {
            Some(ps) => spec_ir_violations_of(cfg, spec_containers(ps)),
            None => Seq::empty(),
        },
        None => Seq::empty(),
    }
}

/// Evaluates the image registry policy. Emits no patches.
pub fn evaluate(config: &AllowedRegistriesPolicy, request: &AdmissionRequest) -> (r: PolicyOutput)
    ensures
        r.violations.deep_view() == spec_ir_violations(*config, request@),
        r.patches@.len() == 0,
{
    let object = match &request.object {
        Some(obj) => obj,
        None => {
            return PolicyOutput::allowed();
        },
    };

    let pod_spec = match get_pod_spec(&object.data, request.kind.as_str()) {
        Some(spec) => spec,
        None => {
            return PolicyOutput::allowed();
        },
    };

    let containers = get_containers(pod_spec);
    let ghost g_containers = spec_containers(pod_spec@);
    let mut violations: Vec<String> = Vec::new();

    let mut idx: usize = 0;
    while idx < containers.len()
        invariant
            containers@.len() == g_containers.len(),
            forall|j: int| 0 <= j < containers@.len() ==> (#[trigger] containers@[j]).1@
                == g_containers[j],
            idx <= containers@.len(),
            violations.deep_view() == spec_ir_violations_of(*config, g_containers.take(idx as int)),
        decreases containers@.len() - idx,
    {
        let container = containers[idx].1;
        let ghost g_c = g_containers[idx as int];
        let ghost old_violations = violations.deep_view();
        proof {
            assert(g_containers.take(idx + 1).drop_last() =~= g_containers.take(idx as int));
            assert(g_containers.take(idx + 1).last() == g_c);
        }
        let name = container_name(container);

        let image_res: Option<&str> = match container.get("image") {
            Some(v) => v.as_str(),
            None => None,
        };
        match image_res {
            Some(image) => {
                let parsed = parse_image_ref(image);

                let mut registry_allowed = false;
                let mut k: usize = 0;
                while k < config.registries.len()
                    invariant
                        k <= config.registries@.len(),
                        config.registries.deep_view().len() == config.registries@.len(),
                        parsed.registry@ == spec_image_registry(image@),
                        registry_allowed == exists|j: int|
                            0 <= j < k && spec_registry_matches(
                                parsed.registry@,
                                config.registries.deep_view()[j],
                            ),
                    decreases config.registries@.len() - k,
                {
                    proof {
                        assert(config.registries.deep_view()[k as int]
                            == config.registries@[k as int]@);
                    }
                    if registry_matches(parsed.registry.as_str(), config.registries[k].as_str()) {
                        registry_allowed = true;
                    }
                    k += 1;
                }

                if !registry_allowed {
                    let joined = join_with(&config.registries, ", ");
                    let mut m = String::from_str("container '");
                    m.append(name);
                    m.append("' image '");
                    m.append(image);
                    m.append("' uses registry '");
                    m.append(parsed.registry.as_str());
                    m.append("' which is not in the allowed list [");
                    m.append(joined.as_str());
                    m.append("]");
                    proof {
                        assert(m@ =~= msg_bad_registry(
                            name@,
                            image@,
                            spec_image_registry(image@),
                            seq_join(config.registries.deep_view(), ", "@),
                        ));
                    }
                    violations.push(m);
                }

                if !config.allow_latest_tag {
                    let tag_is_latest = str_eq(parsed.tag.as_str(), "latest");
                    let tag_empty = parsed.tag.as_str().is_empty();
                    if tag_is_latest || (tag_empty && !parsed.has_digest) {
                        let mut m = String::from_str("container '");
                        m.append(name);
                        m.append("' image '");
                        m.append(image);
                        m.append("' uses tag '");
                        if tag_empty {
                            m.append("<none> (defaults to latest)");
                        } else {
                            m.append("latest");
                        }
                        m.append("'");
                        proof {
                            assert(m@ =~= msg_latest_tag(
                                name@,
                                image@,
                                if spec_image_tag(image@).len() == 0 {
                                    "<none> (defaults to latest)"@
                                } else {
                                    "latest"@
                                },
                            ));
                        }
                        violations.push(m);
                    }
                }
                proof {
                    assert(violations.deep_view() =~= old_violations
                        + spec_ir_container_violations(*config, g_c));
                }
            },
            None => {
                let mut m = String::from_str("container '");
                m.append(name);
                m.append("' has no image specified");
                proof {
                    assert(m@ =~= msg_no_image(name@));
                }
                violations.push(m);
                proof {
                    assert(violations.deep_view() =~= old_violations
                        + spec_ir_container_violations(*config, g_c));
                }
            },
        }
        proof {
            assert(violations.deep_view() =~= spec_ir_violations_of(
                *config,
                g_containers.take(idx + 1),
            ));
        }
        idx += 1;
    }
    proof {
        assert(g_containers.take(g_containers.len() as int) =~= g_containers);
    }

    PolicyOutput { violations, patches: Vec::new() }
}

} // verus!
