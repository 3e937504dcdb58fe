//! Configuration model of a candidate backend.
//!
//! An endpoint is immutable configuration; its mutable health flag and probe
//! bookkeeping live in the per-endpoint monitor state.  Identity is the
//! `name` field alone.  Durations and instants are held in milliseconds on a
//! monotonic clock supplied by the caller.

use vstd::prelude::*;

verus! {

/// Upper bound on configured durations, so that deadline arithmetic over
/// `u64` milliseconds cannot overflow.
pub const MAX_DURATION_MS: u64 = 0x1000_0000_0000;

/// DNS parameters of one endpoint: the record that names it, the TTL it asks
/// for when selected, the recursive resolver to query, and how often to
/// retry a failed resolution.
#[derive(Debug)]
pub struct DnsConfiguration {
    /// FQDN whose A/AAAA values stand for this endpoint.
    pub record: String,
    /// TTL applied to the managed record while this endpoint is selected.
    pub ttl: u16,
    /// IP literal of the recursive resolver to ask.
    pub resolver: String,
    /// Number of additional attempts after a failed resolution.
    pub retry: u8,
}

/// Probe parameters of one endpoint.  Absence means "always healthy".
#[derive(Debug)]
pub struct MonitoringConfiguration {
    /// The probe URI as written in the configuration.
    pub uri: String,
    /// Host component of `uri`.
    pub uri_host: String,
    /// Whether `uri` has the `https` scheme.
    pub uri_https: bool,
    /// Explicit port of `uri`, if one was written.
    pub uri_port: Option<u16>,
    /// Path and query of `uri`, if it has any.
    pub uri_path_and_query: Option<String>,
    /// Milliseconds between probes.
    pub interval_ms: u64,
    /// Substring the probe body must contain to count as success.
    pub marker: Option<String>,
    /// Consecutive successful probes required before the endpoint counts as
    /// healthy.
    pub confidence: u8,
    /// Per-phase probe timeout in milliseconds.
    pub timeout_ms: u64,
    /// Number of additional attempts after a failed probe.
    pub retry: u8,
}

/// One candidate backend.
#[derive(Debug)]
pub struct Endpoint {
    /// Unique identifier; selection and notifications compare endpoints by
    /// this field alone.
    pub name: String,
    /// DNS parameters.
    pub dns: DnsConfiguration,
    /// Probe parameters, or `None` for an endpoint taken as always healthy.
    pub monitoring: Option<MonitoringConfiguration>,
    /// Lower is higher priority.
    pub weight: u8,
    /// How long the endpoint stays published after losing primary status.
    pub sticky_ms: Option<u64>,
}

impl MonitoringConfiguration {
    /// Well-formedness: the confidence threshold is at least one, so an
    /// endpoint can become unhealthy at all.
    pub open spec fn wf(self) -> bool {
        &&& 1 <= self.confidence
        &&& self.interval_ms <= MAX_DURATION_MS
        &&& self.timeout_ms <= MAX_DURATION_MS
    }
}

impl Endpoint {
    /// Well-formedness of one endpoint's configuration.
    pub open spec fn wf(self) -> bool {
        &&& match self.sticky_ms {
            Some(d) => d <= MAX_DURATION_MS,
            None => true,
        }
        &&& match self.monitoring {
            Some(m) => m.wf(),
            None => true,
        }
    }
}

/// Well-formedness of a candidate set: every endpoint is well-formed and no
/// two endpoints share a name.
pub open spec fn endpoints_wf(eps: Seq<Endpoint>) -> bool {
    &&& forall|i: int| 0 <= i < eps.len() ==> (#[trigger] eps[i]).wf()
    &&& forall|i: int, j: int|
        0 <= i < j < eps.len() ==> eps[i].name@ != eps[j].name@
}

} // verus!
