//! Configuration reading and validation.
//!
//! The configuration document is held as `ConfigValue`, a plain-value tree
//! the loader converts the parsed file into.  Every lookup, bound, default
//! and rejection is decided and specified here: each reader's contract
//! says exactly on which documents it succeeds and how each field of the
//! result relates to the document.

use vstd::prelude::*;
use crate::endpoint::{
    DnsConfiguration, Endpoint, MonitoringConfiguration, MAX_DURATION_MS, endpoints_wf,
};
use crate::http_probe::{
    opt_text_is, uri_host_of, uri_parses, uri_parts, uri_path_query_of, uri_port_of,
    uri_scheme_of,
};
use crate::reconciler::CloudflareConfiguration;
use crate::telegram::TelegramConfiguration;

verus! {

use vstd::string::StringExecFns;

/// Largest duration the configuration accepts, in seconds.
pub const MAX_DURATION_SECS: u64 = 0x4000_0000;

/// Why a configuration was rejected.
#[derive(Debug)]
pub enum ConfigError {
    /// The configuration is in the retired format; the process must stop
    /// loudly rather than misread it.
    Legacy,
    /// Anything else, described for the operator.
    Message(String),
}

/// One node of a configuration document, as plain values.
#[derive(Debug)]
pub enum ConfigValue {
    /// A text scalar.
    Text(String),
    /// An integer scalar.
    Int(i64),
    /// A sequence of nodes.
    List(Vec<ConfigValue>),
    /// A mapping, as key–value pairs in document order.
    Mapping(Vec<(String, ConfigValue)>),
    /// An explicit null.
    Null,
    /// A present node of a kind the configuration never reads (a boolean,
    /// an anchor alias, a float).
    Other,
    /// The result of looking up a missing key, or an unreadable node.
    Invalid,
}

/// The value under a key in a pair list: the first pair that matches.
pub open spec fn lookup_pairs(ps: Seq<(String, ConfigValue)>, k: Seq<char>) -> Option<ConfigValue>
    decreases ps.len(),
{
    if ps.len() == 0 {
        None
    } else if ps[0].0@ == k {
        Some(ps[0].1)
    } else {
        lookup_pairs(ps.drop_first(), k)
    }
}

/// The node under a key of a mapping; anything else — a missing key or a
/// non-mapping — yields `Invalid`.
pub open spec fn node_at(v: ConfigValue, k: Seq<char>) -> ConfigValue {
    match v {
        ConfigValue::Mapping(ps) => match lookup_pairs(ps@, k) {
            Some(x) => x,
            None => ConfigValue::Invalid,
        },
        _ => ConfigValue::Invalid,
    }
}

/// The text under a key, when the node there is a text.
pub open spec fn text_at(v: ConfigValue, k: Seq<char>) -> Option<Seq<char>> {
    match node_at(v, k) {
        ConfigValue::Text(s) => Some(s@),
        _ => None,
    }
}

/// The integer under a key, when the node there is an integer.
pub open spec fn int_at(v: ConfigValue, k: Seq<char>) -> Option<i64> {
    match node_at(v, k) {
        ConfigValue::Int(i) => Some(i),
        _ => None,
    }
}

/// The sequence under a key, when the node there is a sequence.
pub open spec fn list_at(v: ConfigValue, k: Seq<char>) -> Option<Seq<ConfigValue>> {
    match node_at(v, k) {
        ConfigValue::List(l) => Some(l@),
        _ => None,
    }
}

/// Whether an optional section is absent: its key missing or null.
pub open spec fn absent_at(v: ConfigValue, k: Seq<char>) -> bool {
    node_at(v, k) is Null || node_at(v, k) is Invalid
}

impl ConfigValue {
    /// The node under a key, or `None` where the spec-level lookup yields
    /// `Invalid` for a missing key or a non-mapping.
    pub fn field<'a>(&'a self, k: &str) -> (r: Option<&'a ConfigValue>)
        ensures
            match r {
                Some(x) => *x == node_at(*self, k@),
                None => node_at(*self, k@) == ConfigValue::Invalid,
            },
    {
        match self {
            ConfigValue::Mapping(ps) => {
                proof {
                    assert(ps@.skip(0) =~= ps@);
                }
                let mut i: usize = 0;
                while i < ps.len()
                    invariant
                        *self == ConfigValue::Mapping(*ps),
                        i <= ps.len(),
                        lookup_pairs(ps@, k@) == lookup_pairs(ps@.skip(i as int), k@),
                    decreases ps.len() - i,
                {
                    if ps[i].0 == k.to_owned() {
                        proof {
                            assert(ps@.skip(i as int)[0] == ps@[i as int]);
                        }
                        return Some(&ps[i].1);
                    }
                    proof {
                        assert(ps@.skip(i as int)[0] == ps@[i as int]);
                        assert(ps@.skip(i as int).drop_first() =~= ps@.skip(i + 1));
                    }
                    i += 1;
                }
                proof {
                    assert(ps@.skip(ps@.len() as int) =~= Seq::<(String, ConfigValue)>::empty());
                }
                None
            },
            _ => None,
        }
    }

    /// The text under a key.
    pub fn text_field(&self, k: &str) -> (r: Option<String>)
        ensures
            r is Some <==> text_at(*self, k@) is Some,
            r matches Some(s) ==> text_at(*self, k@) == Some(s@),
    {
        match self.field(k) {
            Some(ConfigValue::Text(s)) => Some(s.as_str().to_owned()),
            _ => None,
        }
    }

    /// The integer under a key.
    pub fn int_field(&self, k: &str) -> (r: Option<i64>)
        ensures
            r == int_at(*self, k@),
    {
        match self.field(k) {
            Some(ConfigValue::Int(i)) => Some(*i),
            _ => None,
        }
    }

    /// The sequence under a key.
    pub fn list_field<'a>(&'a self, k: &str) -> (r: Option<&'a Vec<ConfigValue>>)
        ensures
            r is Some <==> list_at(*self, k@) is Some,
            r matches Some(l) ==> list_at(*self, k@) == Some(l@),
    {
        match self.field(k) {
            Some(ConfigValue::List(l)) => Some(l),
            _ => None,
        }
    }

    /// Whether an optional section is absent.
    pub fn absent_field(&self, k: &str) -> (r: bool)
        ensures
            r == absent_at(*self, k@),
    {
        match self.field(k) {
            Some(ConfigValue::Null) => true,
            Some(ConfigValue::Invalid) => true,
            Some(_) => false,
            None => true,
        }
    }
}

/// Read a duration given in seconds, bounded so that arithmetic on its
/// millisecond form cannot overflow.
fn seconds_to_ms(v: i64) -> (r: Result<u64, String>)
    ensures
        r is Ok <==> 0 <= v <= MAX_DURATION_SECS,
        r matches Ok(ms) ==> ms == v * 1000 && ms <= MAX_DURATION_MS,
{
    if v < 0 || v > MAX_DURATION_SECS as i64 {
        return Err("duration is out of bounds".to_owned());
    }
    proof {
        assert((v as u64) * 1000 == v * 1000 && v * 1000 <= MAX_DURATION_MS)
            by (nonlinear_arith)
            requires
                0 <= v <= 0x4000_0000,
        ;
    }
    Ok((v as u64) * 1000)
}

/// The documents a DNS section reads successfully: `record` and
/// `resolver` are texts, and `ttl` and `retry`, where given as integers,
/// are within their bounds.
pub open spec fn dns_ok(v: ConfigValue) -> bool {
    &&& text_at(v, "record"@) is Some
    &&& text_at(v, "resolver"@) is Some
    &&& match int_at(v, "ttl"@) {
        Some(t) => 0 <= t <= 65535,
        None => true,
    }
    &&& match int_at(v, "retry"@) {
        Some(x) => 0 <= x <= 255,
        None => true,
    }
}

/// How a parsed DNS section relates to its document: each field is the
/// value under its key, with `ttl` defaulting to zero and `retry` to one.
pub open spec fn dns_matches(c: DnsConfiguration, v: ConfigValue) -> bool {
    &&& Some(c.record@) == text_at(v, "record"@)
    &&& Some(c.resolver@) == text_at(v, "resolver"@)
    &&& c.ttl as int == match int_at(v, "ttl"@) {
        Some(t) => t as int,
        None => 0,
    }
    &&& c.retry as int == match int_at(v, "retry"@) {
        Some(x) => x as int,
        None => 1,
    }
}

impl DnsConfiguration {
    /// Read one endpoint's DNS parameters.
    pub fn from_yaml(v: &ConfigValue) -> (r: Result<DnsConfiguration, String>)
        ensures
            r is Ok <==> dns_ok(*v),
            r matches Ok(c) ==> dns_matches(c, *v),
    {
        let record = match v.text_field("record") {
            Some(x) => x,
            None => {
                return Err("record is not a string".to_owned());
            },
        };
        let ttl: u16 = match v.int_field("ttl") {
            Some(t) => {
                if t < 0 || t > 65535 {
                    return Err("ttl is out of bounds".to_owned());
                }
                t as u16
            },
            None => 0,
        };
        let resolver = match v.text_field("resolver") {
            Some(x) => x,
            None => {
                return Err("resolver is not a string".to_owned());
            },
        };
        let retry: u8 = match v.int_field("retry") {
            Some(x) => {
                if x < 0 || x > 255 {
                    return Err("retry is out of bounds".to_owned());
                }
                x as u8
            },
            None => 1,
        };
        Ok(DnsConfiguration { record, ttl, resolver, retry })
    }
}

/// The documents a monitoring section reads successfully: a `uri` text
/// that parses and names a host, a bounded `interval`, a `confidence`
/// between one and 255, and bounded `timeout` and `retry` where given.
pub open spec fn monitoring_ok(v: ConfigValue) -> bool {
    &&& text_at(v, "uri"@) is Some
    &&& uri_parses(text_at(v, "uri"@)->Some_0)
    &&& uri_host_of(text_at(v, "uri"@)->Some_0) is Some
    &&& match int_at(v, "interval"@) {
        Some(x) => 0 <= x <= MAX_DURATION_SECS,
        None => false,
    }
    &&& match int_at(v, "confidence"@) {
        Some(c) => 1 <= c <= 255,
        None => false,
    }
    &&& match int_at(v, "timeout"@) {
        Some(x) => 0 <= x <= MAX_DURATION_SECS,
        None => true,
    }
    &&& match int_at(v, "retry"@) {
        Some(x) => 0 <= x <= 255,
        None => true,
    }
}

/// How a parsed monitoring section relates to its document: the URI parts
/// come from the `uri` text, the durations are the configured seconds in
/// milliseconds (the probe timeout defaulting to five seconds), and the
/// marker is the `marker` text when one is given.
pub open spec fn monitoring_matches(m: MonitoringConfiguration, v: ConfigValue) -> bool {
    &&& Some(m.uri@) == text_at(v, "uri"@)
    &&& Some(m.uri_host@) == uri_host_of(m.uri@)
    &&& m.uri_https == (uri_scheme_of(m.uri@) == Some("https"@))
    &&& m.uri_port == uri_port_of(m.uri@)
    &&& opt_text_is(m.uri_path_and_query, uri_path_query_of(m.uri@))
    &&& m.interval_ms as int == int_at(v, "interval"@)->Some_0 * 1000
    &&& opt_text_is(m.marker, text_at(v, "marker"@))
    &&& m.confidence as int == int_at(v, "confidence"@)->Some_0
    &&& m.timeout_ms as int == match int_at(v, "timeout"@) {
        Some(x) => x * 1000,
        None => 5000,
    }
    &&& m.retry as int == match int_at(v, "retry"@) {
        Some(x) => x as int,
        None => 0,
    }
}

impl MonitoringConfiguration {
    /// Read one endpoint's probe parameters.  A successful result is
    /// well-formed: in particular its confidence threshold is at least
    /// one.
    pub fn from_yaml(v: &ConfigValue) -> (r: Result<MonitoringConfiguration, String>)
        ensures
            r is Ok <==> monitoring_ok(*v),
            r matches Ok(m) ==> monitoring_matches(m, *v) && m.wf(),
    {
        let uri = match v.text_field("uri") {
            Some(x) => x,
            None => {
                return Err("Missing 'uri' key".to_owned());
            },
        };
        let (host_opt, scheme, uri_port, uri_path_and_query) = match uri_parts(uri.as_str()) {
            Ok(p) => p,
            Err(e) => {
                let mut msg: String = "Failed to parse URI: ".to_owned();
                msg.append(e.as_str());
                return Err(msg);
            },
        };
        let uri_host = match host_opt {
            Some(h) => h,
            None => {
                return Err("URI must have a host".to_owned());
            },
        };
        let uri_https = match scheme {
            Some(s) => s == "https".to_owned(),
            None => false,
        };
        let interval_ms = match v.int_field("interval") {
            Some(x) => match seconds_to_ms(x) {
                Ok(ms) => ms,
                Err(e) => {
                    return Err(e);
                },
            },
            None => {
                return Err("Missing 'interval' key".to_owned());
            },
        };
        let marker = v.text_field("marker");
        let confidence: u8 = match v.int_field("confidence") {
            Some(c) => {
                if c < 1 || c > 255 {
                    return Err("Confidence is out of bounds".to_owned());
                }
                c as u8
            },
            None => {
                return Err("Missing 'confidence' key".to_owned());
            },
        };
        let timeout_ms = match v.int_field("timeout") {
            Some(x) => match seconds_to_ms(x) {
                Ok(ms) => ms,
                Err(e) => {
                    return Err(e);
                },
            },
            None => 5000,
        };
        let retry: u8 = match v.int_field("retry") {
            Some(x) => {
                if x < 0 || x > 255 {
                    return Err("Retry is out of bounds".to_owned());
                }
                x as u8
            },
            None => 0,
        };
        Ok(
            MonitoringConfiguration {
                uri,
                uri_host,
                uri_https,
                uri_port,
                uri_path_and_query,
                interval_ms,
                marker,
                confidence,
                timeout_ms,
                retry,
            },
        )
    }
}

/// The documents an endpoint entry reads successfully: a readable DNS
/// section, a readable monitoring section when one is present, and
/// bounded `weight` and `sticky_duration` where given.
pub open spec fn endpoint_ok(v: ConfigValue) -> bool {
    &&& dns_ok(node_at(v, "dns"@))
    &&& (absent_at(v, "monitoring"@) || monitoring_ok(node_at(v, "monitoring"@)))
    &&& match int_at(v, "weight"@) {
        Some(w) => 0 <= w <= 255,
        None => true,
    }
    &&& match int_at(v, "sticky_duration"@) {
        Some(x) => 0 <= x <= MAX_DURATION_SECS,
        None => true,
    }
}

/// How a parsed endpoint relates to its document: its name is the `alias`
/// text, or its DNS record without one; the weight defaults to zero; the
/// sticky duration is the configured seconds in milliseconds.
pub open spec fn endpoint_matches(e: Endpoint, v: ConfigValue) -> bool {
    &&& dns_matches(e.dns, node_at(v, "dns"@))
    &&& match text_at(v, "alias"@) {
        Some(a) => e.name@ == a,
        None => e.name@ == e.dns.record@,
    }
    &&& if absent_at(v, "monitoring"@) {
        e.monitoring is None
    } else {
        e.monitoring matches Some(m) && monitoring_matches(m, node_at(v, "monitoring"@))
    }
    &&& e.weight as int == match int_at(v, "weight"@) {
        Some(w) => w as int,
        None => 0,
    }
    &&& e.sticky_ms == match int_at(v, "sticky_duration"@) {
        Some(x) => Some((x * 1000) as u64),
        None => None::<u64>,
    }
}

impl Endpoint {
    /// Read one endpoint.  A successful result is well-formed.
    pub fn from_yaml(v: &ConfigValue) -> (r: Result<Endpoint, String>)
        ensures
            r is Ok <==> endpoint_ok(*v),
            r matches Ok(e) ==> endpoint_matches(e, *v) && e.wf(),
    {
        let invalid = ConfigValue::Invalid;
        let dns_node = match v.field("dns") {
            Some(x) => x,
            None => &invalid,
        };
        let dns = match DnsConfiguration::from_yaml(dns_node) {
            Ok(x) => x,
            Err(e) => {
                let mut msg: String = "Failed to parse DNS configuration: ".to_owned();
                msg.append(e.as_str());
                return Err(msg);
            },
        };
        let monitoring = if v.absent_field("monitoring") {
            None
        } else {
            let node = match v.field("monitoring") {
                Some(x) => x,
                None => &invalid,
            };
            match MonitoringConfiguration::from_yaml(node) {
                Ok(m) => Some(m),
                Err(e) => {
                    let mut msg: String = "Failed to parse monitoring configuration: ".to_owned();
                    msg.append(e.as_str());
                    return Err(msg);
                },
            }
        };
        let name = match v.text_field("alias") {
            Some(a) => a,
            None => dns.record.clone(),
        };
        let weight: u8 = match v.int_field("weight") {
            Some(w) => {
                if w < 0 || w > 255 {
                    return Err("Weight must be between 0 and 255".to_owned());
                }
                w as u8
            },
            None => 0,
        };
        let sticky_ms = match v.int_field("sticky_duration") {
            Some(x) => match seconds_to_ms(x) {
                Ok(ms) => Some(ms),
                Err(e) => {
                    return Err(e);
                },
            },
            None => None,
        };
        Ok(Endpoint { name, dns, monitoring, weight, sticky_ms })
    }
}

/// The documents a provider section reads successfully: `zone_id` and
/// `token` are texts.
pub open spec fn cloudflare_ok(v: ConfigValue) -> bool {
    &&& text_at(v, "zone_id"@) is Some
    &&& text_at(v, "token"@) is Some
}

/// How parsed provider credentials relate to their document; a fresh
/// configuration carries an empty record cache.
pub open spec fn cloudflare_matches(c: CloudflareConfiguration, v: ConfigValue) -> bool {
    &&& Some(c.zone_id@) == text_at(v, "zone_id"@)
    &&& Some(c.token@) == text_at(v, "token"@)
    &&& c.cache is None
}

impl CloudflareConfiguration {
    /// Read the provider credentials.
    pub fn from_yaml(v: &ConfigValue) -> (r: Result<CloudflareConfiguration, String>)
        ensures
            r is Ok <==> cloudflare_ok(*v),
            r matches Ok(c) ==> cloudflare_matches(c, *v),
    {
        let zone_id = match v.text_field("zone_id") {
            Some(x) => x,
            None => {
                return Err("zone_id is not a string".to_owned());
            },
        };
        let token = match v.text_field("token") {
            Some(x) => x,
            None => {
                return Err("token is not a string".to_owned());
            },
        };
        Ok(CloudflareConfiguration::new(token, zone_id))
    }
}

/// The documents a notification section reads successfully: a `token`
/// text, a `chat_id` integer, and a bounded non-negative
/// `initial_silence` where given.
pub open spec fn telegram_ok(v: ConfigValue) -> bool {
    &&& match int_at(v, "initial_silence"@) {
        Some(x) => 0 <= x <= MAX_DURATION_SECS,
        None => true,
    }
    &&& text_at(v, "token"@) is Some
    &&& int_at(v, "chat_id"@) is Some
}

/// How a parsed notification channel relates to its document: the silence
/// deadline is `now` plus the configured seconds, when given, and the
/// queue starts empty.
pub open spec fn telegram_matches(t: TelegramConfiguration, v: ConfigValue, now: u64) -> bool {
    &&& Some(t.token@) == text_at(v, "token"@)
    &&& Some(t.chat_id) == int_at(v, "chat_id"@)
    &&& t.queue.silence_until == match int_at(v, "initial_silence"@) {
        Some(x) => Some((now + x) as u64),
        None => None::<u64>,
    }
    &&& t.queue.entries@.len() == 0
}

impl TelegramConfiguration {
    /// Read the notification channel; the initial silence is measured
    /// from `now` (Unix seconds).
    pub fn from_yaml(v: &ConfigValue, now: u64) -> (r: Result<TelegramConfiguration, String>)
        requires
            now <= u64::MAX - MAX_DURATION_SECS,
        ensures
            r is Ok <==> telegram_ok(*v),
            r matches Ok(t) ==> telegram_matches(t, *v, now),
    {
        let silence_until = match v.int_field("initial_silence") {
            Some(x) => {
                if x < 0 {
                    return Err("initial_silence must be a positive integer".to_owned());
                }
                if x > MAX_DURATION_SECS as i64 {
                    return Err("initial_silence is out of bounds".to_owned());
                }
                Some(now + x as u64)
            },
            None => None,
        };
        let token = match v.text_field("token") {
            Some(x) => x,
            None => {
                return Err("token is not a string".to_owned());
            },
        };
        let chat_id = match v.int_field("chat_id") {
            Some(x) => x,
            None => {
                return Err("chat_id is not an integer".to_owned());
            },
        };
        Ok(TelegramConfiguration::new(token, chat_id, silence_until))
    }
}

/// The documents a whole configuration reads successfully: a `record`
/// text, an `endpoints` sequence of readable entries, readable provider
/// credentials, and a readable notification section when one is present.
pub open spec fn ingress_ok(v: ConfigValue) -> bool {
    &&& text_at(v, "record"@) is Some
    &&& list_at(v, "endpoints"@) is Some
    &&& forall|i: int|
        0 <= i < list_at(v, "endpoints"@)->Some_0.len() ==> endpoint_ok(
            #[trigger] list_at(v, "endpoints"@)->Some_0[i],
        )
    &&& cloudflare_ok(node_at(v, "cloudflare"@))
    &&& (absent_at(v, "telegram"@) || telegram_ok(node_at(v, "telegram"@)))
}

/// Whether a document is in the retired format, recognized by an integer
/// `general.timeout`.
pub open spec fn legacy_doc(v: ConfigValue) -> bool {
    int_at(node_at(v, "general"@), "timeout"@) is Some
}

/// The whole subsystem read from one configuration document: the managed
/// record, the candidate endpoints, the provider credentials and the
/// optional notification channel.  It carries credentials, so it has no
/// `Debug` form.
pub struct Ingress {
    /// The managed FQDN.
    pub record: String,
    /// The candidate endpoints; names are unique.
    pub endpoints: Vec<Endpoint>,
    /// Provider credentials and the record cache.
    pub cloudflare: CloudflareConfiguration,
    /// The notification channel, when configured.
    pub telegram: Option<TelegramConfiguration>,
}

/// Every endpoint of `eps` comes from some entry of the document
/// sequence `ns`.
pub open spec fn endpoints_from(eps: Seq<Endpoint>, ns: Seq<ConfigValue>) -> bool {
    forall|k: int|
        0 <= k < eps.len() ==> exists|j: int|
            0 <= j < ns.len() && endpoint_matches(#[trigger] eps[k], ns[j])
}

/// How a parsed configuration relates to its document: the record is the
/// `record` text; every endpoint comes from an entry of the `endpoints`
/// sequence (entries repeating an earlier name are dropped, so names are
/// unique); the credentials and the optional notification channel come
/// from their sections.
pub open spec fn ingress_matches(ing: Ingress, v: ConfigValue, now: u64) -> bool {
    &&& Some(ing.record@) == text_at(v, "record"@)
    &&& endpoints_wf(ing.endpoints@)
    &&& ing.endpoints@.len() <= list_at(v, "endpoints"@)->Some_0.len()
    &&& endpoints_from(ing.endpoints@, list_at(v, "endpoints"@)->Some_0)
    &&& cloudflare_matches(ing.cloudflare, node_at(v, "cloudflare"@))
    &&& if absent_at(v, "telegram"@) {
        ing.telegram is None
    } else {
        ing.telegram matches Some(t) && telegram_matches(t, node_at(v, "telegram"@), now)
    }
}

impl Ingress {
    /// Whether notifications are configured.
    pub fn has_telegram(&self) -> (r: bool)
        ensures
            r == (self.telegram is Some),
    {
        match &self.telegram {
            Some(_) => true,
            None => false,
        }
    }

    /// Read one configuration document.  Endpoints repeating an earlier
    /// name keep the first occurrence, so the endpoint set of a
    /// successful result is well-formed.
    pub fn from_yaml(v: &ConfigValue, now: u64) -> (r: Result<Ingress, String>)
        requires
            now <= u64::MAX - MAX_DURATION_SECS,
        ensures
            r is Ok <==> ingress_ok(*v),
            r matches Ok(ing) ==> ingress_matches(ing, *v, now),
    {
        let invalid = ConfigValue::Invalid;
        let record = match v.text_field("record") {
            Some(x) => x,
            None => {
                return Err("Missing record".to_owned());
            },
        };
        let nodes = match v.list_field("endpoints") {
            Some(l) => l,
            None => {
                return Err("Missing endpoints".to_owned());
            },
        };
        let mut endpoints: Vec<Endpoint> = Vec::new();
        let mut i: usize = 0;
        while i < nodes.len()
            invariant
                list_at(*v, "endpoints"@) == Some(nodes@),
                i <= nodes.len(),
                endpoints_wf(endpoints@),
                endpoints@.len() <= i,
                forall|j: int| 0 <= j < i ==> endpoint_ok(#[trigger] nodes@[j]),
                endpoints_from(endpoints@, nodes@),
            decreases nodes.len() - i,
        {
            let e = match Endpoint::from_yaml(&nodes[i]) {
                Ok(x) => x,
                Err(msg) => {
                    proof {
                        assert(!endpoint_ok(nodes@[i as int]));
                        assert(list_at(*v, "endpoints"@)->Some_0[i as int] == nodes@[i as int]);
                        assert(!ingress_ok(*v));
                    }
                    let mut out: String = "Failed to parse endpoint: ".to_owned();
                    out.append(msg.as_str());
                    return Err(out);
                },
            };
            let mut duplicate = false;
            let mut k: usize = 0;
            while k < endpoints.len()
                invariant
                    k <= endpoints.len(),
                    duplicate == exists|m: int|
                        0 <= m < k && (#[trigger] endpoints@[m]).name@ == e.name@,
                decreases endpoints.len() - k,
            {
                if endpoints[k].name == e.name {
                    duplicate = true;
                }
                k += 1;
            }
            if !duplicate {
                let ghost before = endpoints@;
                proof {
                    assert(endpoint_matches(e, nodes@[i as int]));
                }
                endpoints.push(e);
                proof {
                    assert forall|p: int, q: int|
                        0 <= p < q < endpoints@.len() implies endpoints@[p].name@
                        != endpoints@[q].name@ by {
                        if q < before.len() {
                            assert(endpoints@[p] == before[p] && endpoints@[q] == before[q]);
                        } else {
                            assert(endpoints@[q] == e);
                            assert(endpoints@[p] == before[p]);
                        }
                    }
                    assert forall|k2: int| 0 <= k2 < endpoints@.len() implies exists|j: int|
                        0 <= j < nodes@.len() && endpoint_matches(
                            #[trigger] endpoints@[k2],
                            nodes@[j],
                        ) by {
                        if k2 < before.len() {
                            assert(endpoints@[k2] == before[k2]);
                            let j = choose|j: int|
                                0 <= j < nodes@.len() && endpoint_matches(
                                    #[trigger] before[k2],
                                    nodes@[j],
                                );
                            assert(endpoint_matches(endpoints@[k2], nodes@[j]));
                        } else {
                            assert(endpoints@[k2] == e);
                            assert(endpoint_matches(endpoints@[k2], nodes@[i as int]));
                        }
                    }
                    assert(endpoints_from(endpoints@, nodes@));
                }
            }
            i += 1;
        }
        let cf_node = match v.field("cloudflare") {
            Some(x) => x,
            None => &invalid,
        };
        let cloudflare = match CloudflareConfiguration::from_yaml(cf_node) {
            Ok(x) => x,
            Err(e) => {
                let mut out: String = "Failed to parse cloudflare: ".to_owned();
                out.append(e.as_str());
                return Err(out);
            },
        };
        let telegram = if v.absent_field("telegram") {
            None
        } else {
            let tg_node = match v.field("telegram") {
                Some(x) => x,
                None => &invalid,
            };
            match TelegramConfiguration::from_yaml(tg_node, now) {
                Ok(t) => Some(t),
                Err(e) => {
                    let mut out: String = "Failed to parse telegram: ".to_owned();
                    out.append(e.as_str());
                    return Err(out);
                },
            }
        };
        proof {
            assert(list_at(*v, "endpoints"@)->Some_0 == nodes@);
            assert(endpoints_from(endpoints@, list_at(*v, "endpoints"@)->Some_0));
        }
        Ok(Ingress { record, endpoints, cloudflare, telegram })
    }

    /// Read a parsed configuration: its first document, after the loader
    /// turned the file into plain values.  An empty document set is
    /// rejected, and a document in the retired format is rejected as
    /// `Legacy` — which the process treats as fatal — before anything
    /// else is read.
    pub fn from_config(docs: &Vec<ConfigValue>, now: u64) -> (r: Result<Ingress, ConfigError>)
        requires
            now <= u64::MAX - MAX_DURATION_SECS,
        ensures
            r is Ok <==> docs@.len() >= 1 && !legacy_doc(docs@[0]) && ingress_ok(docs@[0]),
            r matches Ok(ing) ==> ingress_matches(ing, docs@[0], now),
            r matches Err(e) ==> (e is Legacy <==> docs@.len() >= 1 && legacy_doc(docs@[0])),
    {
        if docs.len() < 1 {
            return Err(ConfigError::Message("Empty configuration file found".to_owned()));
        }
        let doc = &docs[0];
        let invalid = ConfigValue::Invalid;
        let general = match doc.field("general") {
            Some(x) => x,
            None => &invalid,
        };
        if general.int_field("timeout").is_some() {
            return Err(ConfigError::Legacy);
        }
        match Ingress::from_yaml(doc, now) {
            Ok(ing) => Ok(ing),
            Err(e) => Err(ConfigError::Message(e)),
        }
    }
}

} // verus!
