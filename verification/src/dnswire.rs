//! DNS query building and answer parsing.
//!
//! The resolver sends two single-question queries — one A, one AAAA — to
//! the configured recursive resolver and unions the answers.  rustdns
//! encodes and decodes the wire format behind trusted wrappers; the query
//! protocol, the error taxonomy and the canonicalization of the answer set
//! are verified here.  The UDP socket lives outside the library.

use vstd::prelude::*;
use crate::ip::{IpAddress, insert_sorted, ip_set, strictly_sorted};

verus! {

/// Why a resolution attempt failed.
#[derive(Debug)]
pub enum DnsError {
    /// The query could not be serialized.
    SerializeError(String),
    /// The local socket could not be opened.
    BindError(String),
    /// The socket could not be connected to the resolver.
    ConnectError(String),
    /// The query could not be sent.
    SendError(String),
    /// The socket sent fewer bytes than the query holds.
    SendLengthTooShort,
    /// No response arrived in time.
    ReceiveTimeout,
    /// Receiving the response failed.
    ReceiveError(String),
    /// The response carried an error rcode.
    ReceiveParseError(String),
    /// The response could not be decoded.
    ReceivedUnexpectedType(String),
}

#[verifier::external_type_specification]
#[verifier::external_body]
pub struct ExDnsMessage(rustdns::Message);

/// Whether `rustdns::Message::from_slice` decodes these bytes at all.
pub uninterp spec fn dns_decodes(buf: Seq<u8>) -> bool;

/// Whether the decoded response reports the no-error rcode.
pub uninterp spec fn dns_rcode_noerror(buf: Seq<u8>) -> bool;

/// The A/AAAA addresses of the decoded response's answer section, in
/// answer order.
pub uninterp spec fn dns_answer_ips(buf: Seq<u8>) -> Seq<IpAddress>;

/// A response is usable when it decodes and reports no error.
pub open spec fn dns_parse_ok(buf: Seq<u8>) -> bool {
    dns_decodes(buf) && dns_rcode_noerror(buf)
}

/// Relies on rustdns::Message's `Default`: an empty query message.
#[verifier::external_body]
fn dns_query_message() -> rustdns::Message {
    rustdns::Message::default()
}

/// Relies on rustdns::Message::try_add_question with `Type::A`: ask for
/// the IPv4 addresses of a domain.
#[verifier::external_body]
fn dns_add_question_a(m: &mut rustdns::Message, domain: &str) -> Result<(), String> {
    m.try_add_question(domain, rustdns::types::Type::A, rustdns::types::Class::Internet).map_err(
        |e| format!("{:?}", e),
    )
}

/// Relies on rustdns::Message::try_add_question with `Type::AAAA`: ask
/// for the IPv6 addresses of a domain.
#[verifier::external_body]
fn dns_add_question_aaaa(m: &mut rustdns::Message, domain: &str) -> Result<(), String> {
    m.try_add_question(domain, rustdns::types::Type::AAAA, rustdns::types::Class::Internet)
        .map_err(|e| format!("{:?}", e))
}

/// Relies on rustdns::Message::to_vec: the wire encoding of a query.
#[verifier::external_body]
fn dns_message_bytes(m: &rustdns::Message) -> Result<Vec<u8>, String> {
    m.to_vec().map_err(|e| format!("{}", e))
}

/// Relies on rustdns::Message::from_slice and, on the decoded message,
/// the `rcode` and `answers` fields with the A/AAAA resource variants.
/// The conversion to plain values: whether the rcode is `NoError` (with
/// its rendering for diagnostics), and the addresses of the answer
/// section in order.  All of it is a function of the bytes alone.
#[verifier::external_body]
fn dns_decode(buf: &[u8]) -> (r: Result<(bool, String, Vec<IpAddress>), String>)
    ensures
        r is Ok <==> dns_decodes(buf@),
        r matches Ok(d) ==> d.0 == dns_rcode_noerror(buf@) && d.2@ == dns_answer_ips(buf@),
{
    let m = rustdns::Message::from_slice(buf).map_err(|e| format!("{}", e))?;
    let ips = m.answers.iter().filter_map(|a| match &a.resource {
        rustdns::types::Resource::A(x) => Some(IpAddress::V4(u32::from_be_bytes(x.octets()))),
        rustdns::types::Resource::AAAA(x) => Some(IpAddress::V6(u128::from_be_bytes(x.octets()))),
        _ => None,
    }).collect();
    Ok((matches!(m.rcode, rustdns::types::Rcode::NoError), format!("{:?}", m.rcode), ips))
}

/// Build the wire bytes of one single-question query for `record`, asking
/// for A records, or for AAAA records when `ipv6` is set.
pub fn build_query(record: &str, ipv6: bool) -> Result<Vec<u8>, DnsError> {
    let mut m = dns_query_message();
    let added = if ipv6 {
        dns_add_question_aaaa(&mut m, record)
    } else {
        dns_add_question_a(&mut m, record)
    };
    match added {
        Ok(()) => {},
        Err(e) => {
            return Err(DnsError::SerializeError(e));
        },
    }
    match dns_message_bytes(&m) {
        Ok(b) => Ok(b),
        Err(e) => Err(DnsError::SerializeError(e)),
    }
}

/// The socket must report the whole query sent; a short send fails the
/// attempt.
pub fn check_sent_length(sent: usize, query_len: usize) -> (r: Result<(), DnsError>)
    ensures
        r is Ok <==> sent == query_len,
        r is Err ==> r->Err_0 is SendLengthTooShort,
{
    if sent == query_len {
        Ok(())
    } else {
        Err(DnsError::SendLengthTooShort)
    }
}

/// Decode a response.  It succeeds exactly when the bytes decode and
/// report no error, and then returns exactly the A/AAAA addresses of the
/// answer section, in canonical form; a response that does not decode
/// fails as unexpected, one with an error rcode as a parse error.
pub fn parse_response(buf: &[u8]) -> (r: Result<Vec<IpAddress>, DnsError>)
    ensures
        r is Ok <==> dns_parse_ok(buf@),
        r matches Ok(v) ==> strictly_sorted(v@) && ip_set(v@) == dns_answer_ips(buf@).to_set(),
        r matches Err(e) ==> {
            &&& e is ReceivedUnexpectedType <==> !dns_decodes(buf@)
            &&& e is ReceiveParseError <==> dns_decodes(buf@) && !dns_rcode_noerror(buf@)
        },
{
    let (rcode_ok, rcode_text, answers) = match dns_decode(buf) {
        Ok(d) => d,
        Err(e) => {
            return Err(DnsError::ReceivedUnexpectedType(e));
        },
    };
    if !rcode_ok {
        return Err(DnsError::ReceiveParseError(rcode_text));
    }
    let mut ips: Vec<IpAddress> = Vec::new();
    let mut i: usize = 0;
    proof {
        assert(ip_set(ips@) =~= dns_answer_ips(buf@).subrange(0, 0).to_set());
    }
    while i < answers.len()
        invariant
            answers@ == dns_answer_ips(buf@),
            i <= answers.len(),
            strictly_sorted(ips@),
            ip_set(ips@) == dns_answer_ips(buf@).subrange(0, i as int).to_set(),
        decreases answers.len() - i,
    {
        insert_sorted(&mut ips, answers[i]);
        proof {
            assert(answers@.subrange(0, i + 1) =~= answers@.subrange(0, i as int).push(
                answers@[i as int],
            ));
            crate::ip::lemma_ip_set_push(answers@.subrange(0, i as int), answers@[i as int]);
        }
        i += 1;
    }
    proof {
        assert(answers@.subrange(0, answers@.len() as int) =~= answers@);
    }
    Ok(ips)
}

/// The union of the addresses of two responses — one per address family —
/// in canonical form.
pub fn merge_answers(a: &Vec<IpAddress>, b: &Vec<IpAddress>) -> (r: Vec<IpAddress>)
    requires
        strictly_sorted(a@),
        strictly_sorted(b@),
    ensures
        strictly_sorted(r@),
        ip_set(r@) == ip_set(a@).union(ip_set(b@)),
{
    let mut r: Vec<IpAddress> = Vec::new();
    let mut i: usize = 0;
    proof {
        assert(ip_set(r@) =~= Set::<IpAddress>::empty());
    }
    while i < a.len()
        invariant
            strictly_sorted(r@),
            i <= a.len(),
            ip_set(r@) == ip_set(a@.subrange(0, i as int)),
        decreases a.len() - i,
    {
        insert_sorted(&mut r, a[i]);
        proof {
            assert(a@.subrange(0, i + 1) =~= a@.subrange(0, i as int).push(a@[i as int]));
            crate::ip::lemma_ip_set_push(a@.subrange(0, i as int), a@[i as int]);
        }
        i += 1;
    }
    proof {
        assert(a@.subrange(0, a@.len() as int) =~= a@);
        assert(ip_set(r@) =~= ip_set(a@).union(ip_set(b@.subrange(0, 0))));
    }
    let mut j: usize = 0;
    while j < b.len()
        invariant
            strictly_sorted(r@),
            j <= b.len(),
            ip_set(r@) == ip_set(a@).union(ip_set(b@.subrange(0, j as int))),
        decreases b.len() - j,
    {
        insert_sorted(&mut r, b[j]);
        proof {
            assert(b@.subrange(0, j + 1) =~= b@.subrange(0, j as int).push(b@[j as int]));
            crate::ip::lemma_ip_set_push(b@.subrange(0, j as int), b@[j as int]);
            assert(ip_set(r@) =~= ip_set(a@).union(ip_set(b@.subrange(0, j + 1))));
        }
        j += 1;
    }
    proof {
        assert(b@.subrange(0, b@.len() as int) =~= b@);
        assert(ip_set(r@) =~= ip_set(a@).union(ip_set(b@)));
    }
    r
}

/// Whether another resolution attempt is made after a failure: the
/// first attempt plus `retry` more.
pub fn more_attempts(attempt: u8, retry: u8) -> (r: bool)
    ensures
        r == (attempt <= retry),
{
    attempt <= retry
}

} // verus!
