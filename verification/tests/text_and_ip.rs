use cloudflare_cname_switcher::dns_state::DesiredDnsState;
use cloudflare_cname_switcher::dns_state::state_eq_exec;
use cloudflare_cname_switcher::dnswire::{
    build_query, check_sent_length, merge_answers, parse_response, DnsError,
};
use cloudflare_cname_switcher::ip::{IpAddress, insert_sorted, same_ip_set};
use cloudflare_cname_switcher::text::{contains_str, dec_string, str_chars};

#[test]
fn decimal_rendering_is_exact() {
    assert_eq!(dec_string(0), "0");
    assert_eq!(dec_string(7), "7");
    assert_eq!(dec_string(30), "30");
    assert_eq!(dec_string(1234), "1234");
    assert_eq!(dec_string(u64::MAX), "18446744073709551615");
}

#[test]
fn substring_search_matches_std() {
    assert!(contains_str("system ready now", "ready"));
    assert!(contains_str("anything", ""));
    assert!(!contains_str("", "x"));
    assert!(!contains_str("short", "much longer"));
    assert!(contains_str("ααβγ", "βγ"));
    assert!(!contains_str("ααβγ", "γβ"));
}

#[test]
fn str_chars_enumerates_characters() {
    assert_eq!(str_chars("aé✓"), vec!['a', 'é', '✓']);
    assert!(str_chars("").is_empty());
}

#[test]
fn sorted_insert_deduplicates() {
    let a = IpAddress::V4(1);
    let b = IpAddress::V4(2);
    let c = IpAddress::V6(1);
    let mut v = Vec::new();
    insert_sorted(&mut v, b);
    insert_sorted(&mut v, a);
    insert_sorted(&mut v, c);
    insert_sorted(&mut v, b);
    assert_eq!(v, vec![a, b, c]); // IPv4 sorts before IPv6

    assert!(same_ip_set(&v, &vec![a, b, c]));
    assert!(!same_ip_set(&v, &vec![a, b]));
}

#[test]
fn answer_sets_union() {
    let a = vec![IpAddress::V4(1), IpAddress::V4(3)];
    let b = vec![IpAddress::V4(2), IpAddress::V4(3), IpAddress::V6(9)];
    let merged = merge_answers(&a, &b);
    assert_eq!(
        merged,
        vec![IpAddress::V4(1), IpAddress::V4(2), IpAddress::V4(3), IpAddress::V6(9)]
    );
}

#[test]
fn query_bytes_hold_the_question() {
    let q = build_query("example.com", false).unwrap();
    assert!(q.len() > 12); // the fixed header plus the question
    let parsed = rustdns::Message::from_slice(&q).unwrap();
    assert_eq!(parsed.questions.len(), 1);
    assert_eq!(parsed.questions[0].name, "example.com.");
    let shown = format!("{}", parsed.questions[0]);
    assert!(shown.contains(" A ") || shown.ends_with(" A"), "question was: {}", shown);
    let q6 = build_query("example.com", true).unwrap();
    let parsed6 = rustdns::Message::from_slice(&q6).unwrap();
    let shown6 = format!("{}", parsed6.questions[0]);
    assert!(shown6.contains("AAAA"), "question was: {}", shown6);
}

#[test]
fn responses_decode_by_their_shape() {
    // a fresh query decodes: rcode NoError, no answers
    let q = build_query("example.com", false).unwrap();
    let ips = parse_response(&q).unwrap();
    assert!(ips.is_empty());

    // bytes that are no DNS message at all fail as unexpected
    assert!(matches!(
        parse_response(&[0x01, 0x02, 0x03]),
        Err(DnsError::ReceivedUnexpectedType(_))
    ));

    // a response carrying an error rcode fails as a parse error
    let mut nx = build_query("example.com", false).unwrap();
    nx[2] |= 0x80; // a response...
    nx[3] |= 0x03; // ...with rcode NXDomain
    assert!(matches!(
        parse_response(&nx),
        Err(DnsError::ReceiveParseError(_))
    ));
}

#[test]
fn short_sends_fail_the_attempt() {
    assert!(check_sent_length(17, 17).is_ok());
    assert!(check_sent_length(12, 17).is_err());
}

#[test]
fn desired_state_equality_laws_on_values() {
    let a = DesiredDnsState::SingleCname { target: "x.example.com".to_string() };
    let b = DesiredDnsState::SingleCname { target: "x.example.com".to_string() };
    let c = DesiredDnsState::MultiAddress { ips: vec![IpAddress::V4(1)] };
    assert!(state_eq_exec(&a, &a));
    assert!(state_eq_exec(&a, &b) == state_eq_exec(&b, &a));
    assert!(state_eq_exec(&a, &b));
    assert!(!state_eq_exec(&a, &c));
    assert!(a.same_type(&b));
    assert!(!a.same_type(&c));
    assert!(a == b);
    assert!(a != c);
}
