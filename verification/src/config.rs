//! Configuration: how configuration keys map to environment variables, and the typed
//! configuration of the container.
use vstd::prelude::*;
use crate::text::{push_str, to_string};
use crate::support::strip_prefix;
use crate::time::Duration;

verus! {

/// The characters std's `str::to_uppercase` gives for a text (Unicode upper case); they
/// depend on the text alone.
pub uninterp spec fn upper_text(s: Seq<char>) -> Seq<char>;

/// The characters std's `str::to_lowercase` gives for a text (Unicode lower case); they
/// depend on the text alone.
pub uninterp spec fn lower_text(s: Seq<char>) -> Seq<char>;

/// std's `str::to_uppercase`.
#[verifier::external_body]
fn to_upper(s: &str) -> (r: String)
    ensures
        r@ == upper_text(s@),
{
    s.to_uppercase()
}

/// std's `str::to_lowercase`.
#[verifier::external_body]
fn to_lower(s: &str) -> (r: String)
    ensures
        r@ == lower_text(s@),
{
    s.to_lowercase()
}

/// Environment variable configuration source: keys are looked up in upper case, under
/// `PREFIX_` when a prefix is set.
pub struct EnvironmentConfigSource {
    prefix: Option<String>,
}

/// The environment variable that holds configuration key `key`.
pub open spec fn env_key_text(prefix: Option<Seq<char>>, key: Seq<char>) -> Seq<char> {
    match prefix {
        Some(p) => upper_text(p) + "_"@ + upper_text(key),
        None => upper_text(key),
    }
}

/// The configuration key the environment variable `variable` stands for under `prefix`:
/// with a prefix, only a variable starting with the upper-cased prefix and an underscore
/// counts, and the rest of its name is the key; the key is in lower case.
pub open spec fn config_key_text(prefix: Option<Seq<char>>, variable: Seq<char>) -> Option<Seq<char>> {
    match prefix {
        None => Some(lower_text(variable)),
        Some(p) => {
            let head = upper_text(p) + "_"@;
            if head.is_prefix_of(variable) {
                Some(lower_text(variable.skip(head.len() as int)))
            } else {
                None
            }
        },
    }
}

/// The variable a source reads for a key stands for that key again: with or without a
/// prefix, the configuration key of `env_key`'s variable is the key in upper and then lower
/// case; with a prefix, the variable is the one for the key without prefix, after the
/// upper-cased prefix and an underscore.
pub proof fn law_env_key_round_trip(prefix: Option<Seq<char>>, key: Seq<char>)
    ensures
        config_key_text(prefix, env_key_text(prefix, key)) == Some(lower_text(upper_text(key))),
        prefix matches Some(p) ==> env_key_text(prefix, key) == upper_text(p) + "_"@ + env_key_text(None, key),
{
    if let Some(p) = prefix {
        let head = upper_text(p) + "_"@;
        let v = env_key_text(prefix, key);
        assert(v == head + upper_text(key));
        assert(head.is_prefix_of(v)) by {
            assert(v.subrange(0, head.len() as int) =~= head);
        }
        assert(v.skip(head.len() as int) =~= upper_text(key));
    }
}

impl EnvironmentConfigSource {
    /// The prefix, if any.
    pub closed spec fn spec_prefix(&self) -> Option<Seq<char>> {
        match self.prefix {
            Some(p) => Some(p@),
            None => None,
        }
    }

    /// A source without prefix.
    pub fn new() -> (s: EnvironmentConfigSource)
        ensures
            s.spec_prefix() is None,
    {
        EnvironmentConfigSource { prefix: None }
    }

    /// A source whose variables start with `PREFIX_`.
    pub fn with_prefix(prefix: String) -> (s: EnvironmentConfigSource)
        ensures
            s.spec_prefix() == Some(prefix@),
    {
        EnvironmentConfigSource { prefix: Some(prefix) }
    }

    /// The environment variable that holds configuration key `key`.
    pub fn env_key(&self, key: &str) -> (r: String)
        ensures
            r@ == env_key_text(self.spec_prefix(), key@),
    {
        match &self.prefix {
            Some(p) => {
                let mut s = to_upper(p.as_str());
                push_str(&mut s, "_");
                push_str(&mut s, to_upper(key).as_str());
                s
            },
            None => to_upper(key),
        }
    }

    /// The configuration key an environment variable stands for: with a prefix, only
    /// variables starting with `PREFIX_` count and the rest of the name is the key; the
    /// key is in lower case.
    pub fn config_key_of(&self, variable: &str) -> (r: Option<String>)
        ensures
            r is Some <==> config_key_text(self.spec_prefix(), variable@) is Some,
            r matches Some(k) ==> config_key_text(self.spec_prefix(), variable@) == Some(k@),
            self.spec_prefix() is None ==> (r matches Some(k) && k@ == lower_text(variable@)),
            self.spec_prefix() matches Some(p) ==> {
                let head = upper_text(p) + "_"@;
                &&& (r is Some <==> head.is_prefix_of(variable@))
                &&& (r matches Some(k) ==> k@ == lower_text(variable@.skip(head.len() as int)))
            },
    {
        match &self.prefix {
            Some(p) => {
                let mut head = to_upper(p.as_str());
                push_str(&mut head, "_");
                match strip_prefix(variable, head.as_str()) {
                    Some(rest) => {
                        proof {
                            assert(variable@.skip(head@.len() as int) =~= rest@);
                        }
                        Some(to_lower(rest))
                    },
                    None => None,
                }
            },
            None => Some(to_lower(variable)),
        }
    }
}

/// Service discovery configuration.
#[derive(Debug, Clone)]
pub struct ServiceDiscoveryConfig {
    /// Service discovery backend type
    pub backend: ServiceDiscoveryBackend,
    /// Connection endpoint
    pub endpoint: String,
    /// Refresh interval for service discovery
    pub refresh_interval: Duration,
    /// Service health check interval
    pub health_check_interval: Option<Duration>,
}

/// Service discovery backends.
#[derive(Debug, Clone, Copy, PartialEq, Eq, Structural)]
pub enum ServiceDiscoveryBackend {
    Consul,
    Etcd,
    Kubernetes,
    Static,
}

/// Container configuration.
#[derive(Debug, Clone)]
pub struct ContainerConfig {
    /// Performance settings
    pub performance: PerformanceConfig,
    /// Monitoring settings
    pub monitoring: MonitoringConfig,
    /// Service discovery settings
    pub service_discovery: Option<ServiceDiscoveryConfig>,
}

/// Performance-related configuration.
#[derive(Debug, Clone, Copy)]
pub struct PerformanceConfig {
    /// Enable service resolution caching
    pub enable_cache: bool,
    /// Maximum cache entries
    pub cache_max_entries: usize,
    /// Cache TTL
    pub cache_ttl: Option<Duration>,
    /// Enable memory pooling for transient services
    pub enable_memory_pools: bool,
    /// Enable lazy initialization
    pub enable_lazy_init: bool,
}

/// Monitoring and observability configuration.
#[derive(Debug, Clone, Copy)]
pub struct MonitoringConfig {
    /// Enable metrics collection
    pub enable_metrics: bool,
    /// Metrics export format
    pub metrics_format: MetricsFormat,
    /// Enable health checks
    pub health_check_enabled: bool,
    /// Health check endpoint port
    pub health_check_port: Option<u16>,
}

/// Metrics export formats.
#[derive(Debug, Clone, Copy, PartialEq, Eq, Structural)]
pub enum MetricsFormat {
    Prometheus,
    Json,
    StatsD,
}

/// The metrics format a configured name selects: `json`, `statsd`, anything else
/// Prometheus.
pub fn metrics_format_of(name: &str) -> (r: MetricsFormat)
    ensures
        r == (if name@ == "json"@ {
            MetricsFormat::Json
        } else if name@ == "statsd"@ {
            MetricsFormat::StatsD
        } else {
            MetricsFormat::Prometheus
        }),
{
    if crate::support::str_eq(name, "json") {
        MetricsFormat::Json
    } else if crate::support::str_eq(name, "statsd") {
        MetricsFormat::StatsD
    } else {
        MetricsFormat::Prometheus
    }
}

} // verus!
