//! Policy configuration: the closed policy set, per-policy modes and
//! knobs, and the defaults the webhook falls back to.

use vstd::prelude::*;

verus! {

/// How a policy's violations are surfaced: `Enforce` turns them into a
/// denial, `Warn` turns them into non-blocking warnings.
#[derive(Clone, Copy, PartialEq, Eq, Structural, Debug)]
pub enum PolicyMode {
    Enforce,
    Warn,
}

/// The closed set of policies, in their fixed evaluation order.
#[derive(Clone, Copy, PartialEq, Eq, Structural, Debug, Hash)]
pub enum PolicyName {
    ResourceLimits,
    ImageRegistry,
    Labels,
    TopologySpread,
}

impl PolicyName {
    /// The label value and message prefix of this policy.
    pub open spec fn spec_str(self) -> Seq<char> {
        match self {
            PolicyName::ResourceLimits => "resource_limits"@,
            PolicyName::ImageRegistry => "image_registry"@,
            PolicyName::Labels => "labels"@,
            PolicyName::TopologySpread => "topology_spread"@,
        }
    }

    pub fn as_str(self) -> (r: &'static str)
        ensures
            r@ == self.spec_str(),
    {
        match self {
            PolicyName::ResourceLimits => "resource_limits",
            PolicyName::ImageRegistry => "image_registry",
            PolicyName::Labels => "labels",
            PolicyName::TopologySpread => "topology_spread",
        }
    }
}

/// A label the `labels` policy requires, with an optional value pattern.
#[derive(Clone, Debug)]
pub struct RequiredLabel {
    pub key: String,
    pub pattern: Option<String>,
}

#[derive(Clone, Debug)]
pub struct ResourceLimitsPolicy {
    pub enabled: bool,
    pub mode: PolicyMode,
    pub max_cpu_millicores: Option<u64>,
    pub max_memory_mb: Option<u64>,
    pub inject_defaults: bool,
    pub default_cpu_request: String,
    pub default_cpu_limit: String,
    pub default_memory_request: String,
    pub default_memory_limit: String,
}

#[derive(Clone, Debug)]
pub struct AllowedRegistriesPolicy {
    pub enabled: bool,
    pub mode: PolicyMode,
    pub registries: Vec<String>,
    pub allow_latest_tag: bool,
}

#[derive(Clone, Debug)]
pub struct RequiredLabelsPolicy {
    pub enabled: bool,
    pub mode: PolicyMode,
    pub labels: Vec<RequiredLabel>,
}

#[derive(Clone, Debug)]
pub struct TopologySpreadPolicy {
    pub enabled: bool,
    pub mode: PolicyMode,
    pub max_skew: i32,
    pub topology_key: String,
    pub when_unsatisfiable: String,
    pub inject_if_missing: bool,
}

/// One sub-record of configuration per policy.
#[derive(Clone, Debug)]
pub struct PoliciesConfig {
    pub resource_limits: ResourceLimitsPolicy,
    pub image_registry: AllowedRegistriesPolicy,
    pub labels: RequiredLabelsPolicy,
    pub topology_spread: TopologySpreadPolicy,
}

/// The root configuration record. Listen addresses and TLS paths are
/// consumed by the process around the engine; the engine reads `policies`.
#[derive(Clone, Debug)]
pub struct SentinelConfig {
    pub listen_addr: String,
    pub tls_cert_path: String,
    pub tls_key_path: String,
    pub metrics_addr: String,
    pub log_level: String,
    pub policies: PoliciesConfig,
}

impl PoliciesConfig {
    pub open spec fn spec_policy_mode(&self, name: PolicyName) -> PolicyMode {
        match name {
            PolicyName::ResourceLimits => self.resource_limits.mode,
            PolicyName::ImageRegistry => self.image_registry.mode,
            PolicyName::Labels => self.labels.mode,
            PolicyName::TopologySpread => self.topology_spread.mode,
        }
    }

    pub fn policy_mode(&self, name: PolicyName) -> (r: &PolicyMode)
        ensures
            *r == self.spec_policy_mode(name),
    {
        match name {
            PolicyName::ResourceLimits => &self.resource_limits.mode,
            PolicyName::ImageRegistry => &self.image_registry.mode,
            PolicyName::Labels => &self.labels.mode,
            PolicyName::TopologySpread => &self.topology_spread.mode,
        }
    }

    pub open spec fn spec_policy_enabled(&self, name: PolicyName) -> bool {
        match name {
            PolicyName::ResourceLimits => self.resource_limits.enabled,
            PolicyName::ImageRegistry => self.image_registry.enabled,
            PolicyName::Labels => self.labels.enabled,
            PolicyName::TopologySpread => self.topology_spread.enabled,
        }
    }

    pub fn policy_enabled(&self, name: PolicyName) -> (r: bool)
        ensures
            r == self.spec_policy_enabled(name),
    {
        match name {
            PolicyName::ResourceLimits => self.resource_limits.enabled,
            PolicyName::ImageRegistry => self.image_registry.enabled,
            PolicyName::Labels => self.labels.enabled,
            PolicyName::TopologySpread => self.topology_spread.enabled,
        }
    }
}

pub fn default_listen_addr() -> (r: String)
    ensures
        r@ == "0.0.0.0:8443"@,
{
    String::from_str("0.0.0.0:8443")
}

pub fn default_tls_cert_path() -> (r: String)
    ensures
        r@ == "/certs/tls.crt"@,
{
    String::from_str("/certs/tls.crt")
}

pub fn default_tls_key_path() -> (r: String)
    ensures
        r@ == "/certs/tls.key"@,
{
    String::from_str("/certs/tls.key")
}

pub fn default_metrics_addr() -> (r: String)
    ensures
        r@ == "0.0.0.0:9090"@,
{
    String::from_str("0.0.0.0:9090")
}

pub fn default_log_level() -> (r: String)
    ensures
        r@ == "info"@,
{
    String::from_str("info")
}

pub fn default_cpu_request() -> (r: String)
    ensures
        r@ == "100m"@,
{
    String::from_str("100m")
}

pub fn default_cpu_limit() -> (r: String)
    ensures
        r@ == "500m"@,
{
    String::from_str("500m")
}

pub fn default_memory_request() -> (r: String)
    ensures
        r@ == "128Mi"@,
{
    String::from_str("128Mi")
}

pub fn default_memory_limit() -> (r: String)
    ensures
        r@ == "512Mi"@,
{
    String::from_str("512Mi")
}

pub fn default_max_skew() -> (r: i32)
    ensures
        r == 1i32,
{
    1
}

pub fn default_topology_key() -> (r: String)
    ensures
        r@ == "topology.kubernetes.io/zone"@,
{
    String::from_str("topology.kubernetes.io/zone")
}

pub fn default_when_unsatisfiable() -> (r: String)
    ensures
        r@ == "DoNotSchedule"@,
{
    String::from_str("DoNotSchedule")
}

} // verus!
