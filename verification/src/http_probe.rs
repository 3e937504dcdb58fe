//! The probe client's decisions: scheme and port selection, the `Host`
//! header, the request path, the retry rule, and the error taxonomy.
//!
//! The TCP, TLS and HTTP machinery itself lives outside the library; URI
//! parsing goes through trusted wrappers so the configuration can hold the
//! parts the logic reads as plain values.

use vstd::prelude::*;
use crate::text::{dec_digits, dec_string};

verus! {

use vstd::string::StringExecFns;

broadcast use vstd::string::group_string_axioms;

/// The phase of an HTTP exchange a timeout hit.
#[derive(Clone, Copy, Debug, PartialEq, Eq, Structural)]
pub enum HyperHttpClientPhase {
    /// Opening the TCP connection.
    Connect,
    /// The HTTP handshake.
    Handshake,
    /// The TLS handshake.
    Tls,
    /// Sending the request.
    Send,
    /// Receiving the response.
    Receive,
}

/// Why a probe exchange failed.
#[derive(Debug)]
pub enum HyperHttpClientError {
    /// Opening the TCP connection failed.
    ConnectError(String),
    /// The HTTP handshake failed.
    HandshakeError(String),
    /// The TLS handshake failed.
    TlsError(String),
    /// Sending the request failed.
    SendError(String),
    /// Receiving the response failed.
    ReceiveError(String),
    /// The response status was not `200 OK`.
    ReceiveStatus(u16),
    /// The response body was not UTF-8.
    DecodeBodyError(String),
    /// A phase ran out of time.
    Timeout(HyperHttpClientPhase),
}

/// Whether hyper parses this text as a URI.
pub uninterp spec fn uri_parses(s: Seq<char>) -> bool;

/// The host component of a parsed URI text.
pub uninterp spec fn uri_host_of(s: Seq<char>) -> Option<Seq<char>>;

/// The scheme of a parsed URI text.
pub uninterp spec fn uri_scheme_of(s: Seq<char>) -> Option<Seq<char>>;

/// The explicit port of a parsed URI text.
pub uninterp spec fn uri_port_of(s: Seq<char>) -> Option<u16>;

/// The path and query of a parsed URI text.
pub uninterp spec fn uri_path_query_of(s: Seq<char>) -> Option<Seq<char>>;

/// Whether an optional owned text holds exactly this optional content.
pub open spec fn opt_text_is(o: Option<String>, s: Option<Seq<char>>) -> bool {
    match (o, s) {
        (Some(a), Some(b)) => a@ == b,
        (None, None) => true,
        _ => false,
    }
}

/// Relies on hyper::Uri's `FromStr` and its `host`, `scheme_str`,
/// `port_u16` and `path_and_query` accessors: the parts of a URI text,
/// each a function of the text alone.  The error detail is hyper's.
#[verifier::external_body]
pub(crate) fn uri_parts(s: &str) -> (r: Result<
    (Option<String>, Option<String>, Option<u16>, Option<String>),
    String,
>)
    ensures
        r is Ok <==> uri_parses(s@),
        r matches Ok(p) ==> {
            &&& opt_text_is(p.0, uri_host_of(s@))
            &&& opt_text_is(p.1, uri_scheme_of(s@))
            &&& p.2 == uri_port_of(s@)
            &&& opt_text_is(p.3, uri_path_query_of(s@))
        },
{
    let u = s.parse::<hyper::Uri>().map_err(|e| format!("{:?}", e))?;
    Ok((
        u.host().map(str::to_string),
        u.scheme_str().map(str::to_string),
        u.port_u16(),
        u.path_and_query().map(|pq| pq.as_str().to_string()),
    ))
}

/// The port the probe connects to: the URI's explicit port, else the
/// scheme's default.
pub fn connect_port(https: bool, explicit: Option<u16>) -> (r: u16)
    ensures
        r == match explicit {
            Some(p) => p,
            None => if https {
                443u16
            } else {
                80u16
            },
        },
{
    match explicit {
        Some(p) => p,
        None => if https {
            443
        } else {
            80
        },
    }
}

/// The `Host` header always names the URI's host — preserving SNI even
/// when the connection goes to an overridden address — with the explicit
/// port appended when one was written.
pub fn host_header(host: &str, port: Option<u16>) -> (r: String)
    ensures
        r@ == match port {
            Some(p) => host@ + ":"@ + dec_digits(p as int),
            None => host@,
        },
{
    match port {
        Some(p) => {
            let mut out = host.to_owned();
            out.append(":");
            let digits = dec_string(p as u64);
            out.append(digits.as_str());
            proof {
                assert(out@ =~= host@ + ":"@ + dec_digits(p as int));
            }
            out
        },
        None => host.to_owned(),
    }
}

/// What the observability endpoint answers.
#[derive(Clone, Copy, Debug, PartialEq, Eq, Structural)]
pub enum MetricsRoute {
    /// `GET /healthz`: answer `200 OK`, whether or not a registry is
    /// attached.
    Healthz,
    /// `GET /metrics`: answer the metrics exposition.
    Metrics,
    /// Anything else: answer `404 Not Found`.
    NotFound,
    /// `GET /metrics` while no registry is attached (as during a reload):
    /// answer `500`.
    NoRegistry,
}

/// Route one request of the observability endpoint.  `/healthz` answers
/// unconditionally; only the metrics exposition needs a registry.
pub fn route(method: &str, path: &str, has_registry: bool) -> (r: MetricsRoute)
    ensures
        r == if method@ == "GET"@ && path@ == "/healthz"@ {
            MetricsRoute::Healthz
        } else if method@ == "GET"@ && path@ == "/metrics"@ {
            if has_registry {
                MetricsRoute::Metrics
            } else {
                MetricsRoute::NoRegistry
            }
        } else {
            MetricsRoute::NotFound
        },
{
    let get = method.to_owned() == "GET".to_owned();
    if get && path.to_owned() == "/healthz".to_owned() {
        MetricsRoute::Healthz
    } else if get && path.to_owned() == "/metrics".to_owned() {
        if has_registry {
            MetricsRoute::Metrics
        } else {
            MetricsRoute::NoRegistry
        }
    } else {
        MetricsRoute::NotFound
    }
}

/// The request target: the URI's path and query, or `/` when it has none.
pub fn request_target(path_and_query: &Option<String>) -> (r: String)
    ensures
        r@ == match path_and_query {
            Some(pq) => pq@,
            None => "/"@,
        },
{
    match path_and_query {
        Some(pq) => pq.clone(),
        None => "/".to_owned(),
    }
}

} // verus!
