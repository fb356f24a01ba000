//! The required labels policy: each configured key must be present on the
//! object's metadata, and, where a pattern is configured, its value must
//! match. Patterns are compiled once; one that does not compile degrades
//! to a literal match on its escaped form.

use vstd::prelude::*;

use crate::admission::{AdmissionRequest, AdmissionRequestView};
use crate::config::RequiredLabelsPolicy;
use crate::policies::{is_known_kind, known_kind, resource_name, spec_resource_name, PolicyOutput};
use crate::strutil::str_eq;

verus! {

#[verifier::external_type_specification]
#[verifier::external_body]
pub struct ExRegex(regex::Regex);

/// Whether `regex::Regex::new` accepts a pattern; a function of the
/// pattern alone.
pub uninterp spec fn regex_compiles(pattern: Seq<char>) -> bool;

/// What `regex::escape` returns; a function of the pattern alone.
pub uninterp spec fn regex_escape_of(pattern: Seq<char>) -> Seq<char>;

/// What `regex::Regex::is_match` returns; a function of the compiled
/// pattern's source and the haystack alone.
pub uninterp spec fn regex_match(pattern: Seq<char>, text: Seq<char>) -> bool;

/// A compiled regex together with the source it was compiled from.
pub struct RegexHandle {
    re: regex::Regex,
    source: String,
}

impl RegexHandle {
    /// The pattern this regex was compiled from.
    pub closed spec fn spec_source(&self) -> Seq<char> {
        self.source@
    }

    pub fn source_str(&self) -> (r: &str)
        ensures
            r@ == self.spec_source(),
    {
        self.source.as_str()
    }
}

/// Relies on regex::Regex::new: it compiles a pattern deterministically,
/// succeeding or failing on the pattern alone. The handle keeps the
/// source string the regex was built from.
#[verifier::external_body]
fn regex_new(pattern: &str) -> (r: Option<RegexHandle>)
    ensures
        r is Some <==> regex_compiles(pattern@),
        match r {
            Some(h) => h.spec_source() == pattern@,
            None => true,
        },
{
    match regex::Regex::new(pattern) {
        Ok(re) => Some(RegexHandle { re, source: pattern.to_string() }),
        Err(_) => None,
    }
}

/// Relies on regex::escape: it escapes the meta characters of a pattern,
/// a deterministic function of the pattern alone.
#[verifier::external_body]
fn regex_escape(pattern: &str) -> (r: String)
    ensures
        r@ == regex_escape_of(pattern@),
{
    regex::escape(pattern)
}

/// Relies on regex::Regex::is_match: whether the regex matches anywhere
/// in the haystack, a deterministic function of the compiled pattern's
/// source and the haystack.
#[verifier::external_body]
fn regex_is_match(h: &RegexHandle, text: &str) -> (r: bool)
    ensures
        r == regex_match(h.spec_source(), text@),
{
    h.re.is_match(text)
}

/// A required label with its eagerly compiled pattern. `degraded`
/// records that the configured pattern did not compile and the matcher
/// was rebuilt from its escaped form, so the process around the engine
/// can log the degradation once at construction time.
pub struct CompiledLabel {
    pub key: String,
    pub pattern: Option<RegexHandle>,
    pub degraded: bool,
}

/// The pattern a configured pattern string compiles to: itself when it
/// compiles, else its escaped form. A pattern whose escaped form also
/// fails to compile (possible only at the regex size limit) yields no
/// matcher at all: the label is then checked for presence only, and any
/// value passes.
pub open spec fn spec_effective_pattern(p: Seq<char>) -> Option<Seq<char>> {
    if regex_compiles(p) {
        Some(p)
    } else if regex_compiles(regex_escape_of(p)) {
        Some(regex_escape_of(p))
    } else {
        None
    }
}

/// How one compiled entry corresponds to its configuration entry: the
/// key is kept, the matcher is the effective pattern of the configured
/// one (none at all when even the escaped form fails to compile, which
/// leaves a presence-only check), and `degraded` says whether the
/// configured pattern failed to compile as written.
pub open spec fn spec_compiled_from(cl: CompiledLabel, key: Seq<char>, pattern: Option<
    Seq<char>,
>) -> bool {
    &&& cl.key@ == key
    &&& match pattern {
        None => cl.pattern is None,
        Some(p) => match cl.pattern {
            Some(h) => spec_effective_pattern(p) == Some(h.spec_source()),
            None => spec_effective_pattern(p) is None,
        },
    }
    &&& cl.degraded == (match pattern {
        Some(p) => !regex_compiles(p),
        None => false,
    })
}

/// Compiles the configured labels in order. A pattern that does not
/// compile is degraded to a literal match on its escaped form, and the
/// entry is marked so the degradation can be logged once.
pub fn compile_labels(config: &RequiredLabelsPolicy) -> (r: Vec<CompiledLabel>)
    ensures
        r@.len() == config.labels@.len(),
        forall|i: int| 0 <= i < r@.len() ==> spec_compiled_from(
            #[trigger] r@[i],
            config.labels@[i].key@,
            config.labels@[i].pattern.deep_view(),
        ),
{
    let mut r: Vec<CompiledLabel> = Vec::new();
    let mut i: usize = 0;
    while i < config.labels.len()
        invariant
            i <= config.labels@.len(),
            r@.len() == i,
            forall|j: int| 0 <= j < i ==> spec_compiled_from(
                #[trigger] r@[j],
                config.labels@[j].key@,
                config.labels@[j].pattern.deep_view(),
            ),
        decreases config.labels@.len() - i,
    {
        let entry = &config.labels[i];
        let (pattern, degraded): (Option<RegexHandle>, bool) = match &entry.pattern {
            Some(p) => match regex_new(p.as_str()) {
                Some(h) => (Some(h), false),
                None => {
                    let escaped = regex_escape(p.as_str());
                    (regex_new(escaped.as_str()), true)
                },
            },
            None => (None, false),
        };
        let cl = CompiledLabel { key: entry.key.clone(), pattern, degraded };
        r.push(cl);
        i += 1;
    }
    r
}

/// First value bound to `key` in an association list of label pairs.
pub open spec fn str_pair_lookup(pairs: Seq<(Seq<char>, Seq<char>)>, key: Seq<char>) -> Option<
    Seq<char>,
>
    decreases pairs.len(),
{
    if pairs.len() == 0 {
        None
    } else if pairs[0].0 == key {
        Some(pairs[0].1)
    } else {
        str_pair_lookup(pairs.drop_first(), key)
    }
}

proof fn lemma_str_pair_lookup_found(pairs: Seq<(Seq<char>, Seq<char>)>, key: Seq<char>, i: int)
    requires
        0 <= i < pairs.len(),
        pairs[i].0 == key,
        forall|j: int| 0 <= j < i ==> pairs[j].0 != key,
    ensures
        str_pair_lookup(pairs, key) == Some(pairs[i].1),
    decreases i,
{
    if i > 0 {
        lemma_str_pair_lookup_found(pairs.drop_first(), key, i - 1);
    }
}

proof fn lemma_str_pair_lookup_none(pairs: Seq<(Seq<char>, Seq<char>)>, key: Seq<char>)
    requires
        forall|j: int| 0 <= j < pairs.len() ==> pairs[j].0 != key,
    ensures
        str_pair_lookup(pairs, key) is None,
    decreases pairs.len(),
{
    if pairs.len() > 0 {
        lemma_str_pair_lookup_none(pairs.drop_first(), key);
    }
}

/// The value of the object's metadata label `key`, if any.
pub open spec fn spec_label_value(
    labels: Option<Seq<(Seq<char>, Seq<char>)>>,
    key: Seq<char>,
) -> Option<Seq<char>> {
    match labels {
        Some(l) => str_pair_lookup(l, key),
        None => None,
    }
}

/// One violation when the label is missing.
pub open spec fn msg_missing_label(key: Seq<char>, kind: Seq<char>, rname: Seq<char>) -> Seq<
    char,
> {
    "missing required label '"@ + key + "' on "@ + kind + " '"@ + rname + "'"@
}

/// One violation when the label's value does not match the pattern.
pub open spec fn msg_pattern_mismatch(
    key: Seq<char>,
    kind: Seq<char>,
    rname: Seq<char>,
    value: Seq<char>,
    pattern: Seq<char>,
) -> Seq<char> {
    "label '"@ + key + "' on "@ + kind + " '"@ + rname + "' has value '"@ + value
        + "' which does not match required pattern '"@ + pattern + "'"@
}

/// The violations of one compiled entry.
pub open spec fn spec_label_violations_for(
    cl: CompiledLabel,
    kind: Seq<char>,
    rname: Seq<char>,
    labels: Option<Seq<(Seq<char>, Seq<char>)>>,
) -> Seq<Seq<char>> {
    match spec_label_value(labels, cl.key@) {
        None => seq![msg_missing_label(cl.key@, kind, rname)],
        Some(value) => match cl.pattern {
            Some(h) => if !regex_match(h.spec_source(), value) {
                seq![msg_pattern_mismatch(cl.key@, kind, rname, value, h.spec_source())]
            } else {
                Seq::empty()
            },
            None => Seq::empty(),
        },
    }
}

/// The violations of all compiled entries, in declared order.
pub open spec fn spec_labels_violations_of(
    cls: Seq<CompiledLabel>,
    kind: Seq<char>,
    rname: Seq<char>,
    labels: Option<Seq<(Seq<char>, Seq<char>)>>,
) -> Seq<Seq<char>>
    decreases cls.len(),
{
    if cls.len() == 0 {
        Seq::empty()
    } else {
        spec_labels_violations_of(cls.drop_last(), kind, rname, labels)
            + spec_label_violations_for(cls.last(), kind, rname, labels)
    }
}

/// The violations of the whole request under this policy. A workload
/// kind outside the pod-spec table makes the policy a no-op, as it does
/// for every other policy.
pub open spec fn spec_labels_violations(cls: Seq<CompiledLabel>, req: AdmissionRequestView) -> Seq<
    Seq<char>,
> {
    match req.object {
        Some(obj) => if known_kind(req.kind) {
            spec_labels_violations_of(cls, req.kind, spec_resource_name(req, obj), obj.labels)
        } else {
            Seq::empty()
        },
        None => Seq::empty(),
    }
}

/// Evaluates the required labels policy. Emits no patches.
pub fn evaluate(compiled_labels: &Vec<CompiledLabel>, request: &AdmissionRequest) -> (r:
    PolicyOutput)
    ensures
        r.violations.deep_view() == spec_labels_violations(compiled_labels@, request@),
        r.patches@.len() == 0,
{
    let object = match &request.object {
        Some(obj) => obj,
        None => {
            return PolicyOutput::allowed();
        },
    };

    if !is_known_kind(request.kind.as_str()) {
        return PolicyOutput::allowed();
    }

    let rname = resource_name(request, object);
    let ghost g_kind = request.kind@;
    let ghost g_rname = rname@;
    let ghost g_labels = object@.labels;

    let mut violations: Vec<String> = Vec::new();
    let mut i: usize = 0;
    while i < compiled_labels.len()
        invariant
            i <= compiled_labels@.len(),
            rname@ == g_rname,
            request.kind@ == g_kind,
            object@.labels == g_labels,
            violations.deep_view() == spec_labels_violations_of(
                compiled_labels@.take(i as int),
                g_kind,
                g_rname,
                g_labels,
            ),
        decreases compiled_labels@.len() - i,
    {
        let cl = &compiled_labels[i];
        let ghost old_violations = violations.deep_view();
        proof {
            assert(compiled_labels@.take(i + 1).drop_last() =~= compiled_labels@.take(i as int));
            assert(compiled_labels@.take(i + 1).last() == compiled_labels@[i as int]);
        }

        let value: Option<&String> = match &object.labels {
            Some(l) => {
                let mut k: usize = 0;
                let mut found: Option<&String> = None;
                while k < l.len()
                    invariant
                        k <= l@.len(),
                        g_labels == Some(l.deep_view()),
                        l.deep_view().len() == l@.len(),
                        forall|j: int| 0 <= j < l@.len() ==> (#[trigger] l.deep_view()[j]) == (
                            l@[j].0@,
                            l@[j].1@,
                        ),
                        match found {
                            Some(v) => exists|j: int|
                                0 <= j < k && l.deep_view()[j].0 == cl.key@ && v@
                                    == l.deep_view()[j].1 && str_pair_lookup(
                                    l.deep_view(),
                                    cl.key@,
                                ) == Some(v@),
                            None => forall|j: int| 0 <= j < k ==> (#[trigger] l.deep_view()[j]).0
                                != cl.key@,
                        },
                    decreases l@.len() - k,
                {
                    if found.is_none() && str_eq(l[k].0.as_str(), cl.key.as_str()) {
                        proof {
                            lemma_str_pair_lookup_found(l.deep_view(), cl.key@, k as int);
                        }
                        found = Some(&l[k].1);
                    }
                    k += 1;
                }
                proof {
                    if found is None {
                        lemma_str_pair_lookup_none(l.deep_view(), cl.key@);
                    }
                }
                found
            },
            None => None,
        };

        match value {
            None => {
                let mut m = String::from_str("missing required label '");
                m.append(cl.key.as_str());
                m.append("' on ");
                m.append(request.kind.as_str());
                m.append(" '");
                m.append(rname);
                m.append("'");
                proof {
                    assert(m@ =~= msg_missing_label(cl.key@, g_kind, g_rname));
                }
                violations.push(m);
            },
            Some(v) => {
                match &cl.pattern {
                    Some(h) => {
                        if !regex_is_match(h, v.as_str()) {
                            let mut m = String::from_str("label '");
                            m.append(cl.key.as_str());
                            m.append("' on ");
                            m.append(request.kind.as_str());
                            m.append(" '");
                            m.append(rname);
                            m.append("' has value '");
                            m.append(v.as_str());
                            m.append("' which does not match required pattern '");
                            m.append(h.source_str());
                            m.append("'");
                            proof {
                                assert(m@ =~= msg_pattern_mismatch(
                                    cl.key@,
                                    g_kind,
                                    g_rname,
                                    v@,
                                    h.spec_source(),
                                ));
                            }
                            violations.push(m);
                        }
                    },
                    None => {},
                }
            },
        }
        proof {
            assert(violations.deep_view() =~= old_violations + spec_label_violations_for(
                compiled_labels@[i as int],
                g_kind,
                g_rname,
                g_labels,
            ));
            assert(violations.deep_view() =~= spec_labels_violations_of(
                compiled_labels@.take(i + 1),
                g_kind,
                g_rname,
                g_labels,
            ));
        }
        i += 1;
    }
    proof {
        assert(compiled_labels@.take(compiled_labels@.len() as int) =~= compiled_labels@);
    }

    PolicyOutput { violations, patches: Vec::new() }
}

} // verus!
