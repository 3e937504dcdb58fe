use cloudflare_cname_switcher::ip::IpAddress;
use cloudflare_cname_switcher::monitor::{MonitorState, ProbeOutcome};

#[test]
fn health_event_exactly_on_flip() {
    let mut st = MonitorState::new();
    assert!(!st.healthy);

    // below the threshold nothing flips
    assert!(!st.apply_confidence(2));
    st.observe_probe(ProbeOutcome::Success { body: String::new() }, &None);
    assert!(!st.apply_confidence(2));

    // the second success reaches the threshold: exactly one event
    st.observe_probe(ProbeOutcome::Success { body: String::new() }, &None);
    assert!(st.apply_confidence(2));
    assert!(st.healthy);

    // staying healthy emits nothing
    st.observe_probe(ProbeOutcome::Success { body: String::new() }, &None);
    assert!(!st.apply_confidence(2));

    // a failure resets the streak; the next application flips back
    st.observe_probe(
        ProbeOutcome::Failure { detail: "HTTP error: connect".to_string() },
        &None,
    );
    assert_eq!(st.confidence, 0);
    assert!(st.apply_confidence(2));
    assert!(!st.healthy);
    assert_eq!(st.last_problem.as_deref(), Some("HTTP error: connect"));
}

#[test]
fn confidence_clamps_at_threshold() {
    let mut st = MonitorState::new();
    for _ in 0..1000 {
        st.observe_probe(ProbeOutcome::Success { body: String::new() }, &None);
        st.apply_confidence(3);
        assert!(st.confidence <= 3);
    }
    assert!(st.healthy);
    assert_eq!(st.confidence, 3);
}

#[test]
fn empty_resolved_set_forces_unhealthy() {
    let mut st = MonitorState::new();
    for _ in 0..3 {
        st.observe_probe(ProbeOutcome::Success { body: String::new() }, &None);
    }
    st.apply_confidence(3);
    assert!(st.healthy);

    let (changed, usable) = st.observe_resolution(Some(vec![]));
    assert!(!changed); // it was empty before, too
    assert!(!usable);
    assert_eq!(st.confidence, 0);
    assert_eq!(st.last_problem.as_deref(), Some("no DNS values"));
    assert!(st.apply_confidence(3));
    assert!(!st.healthy);
}

#[test]
fn dns_change_detected_as_set() {
    let mut st = MonitorState::new();
    let a = IpAddress::V4(0x0A000001);
    let b = IpAddress::V4(0x0A000002);

    let (changed, usable) = st.observe_resolution(Some(vec![a]));
    assert!(changed);
    assert!(usable);

    // the same set again: no event
    let (changed, _) = st.observe_resolution(Some(vec![a]));
    assert!(!changed);

    // a different set: event
    let (changed, _) = st.observe_resolution(Some(vec![a, b]));
    assert!(changed);

    // a failed resolution leaves everything untouched
    let (changed, usable) = st.observe_resolution(None);
    assert!(!changed);
    assert!(!usable);
    assert_eq!(st.last_dns, vec![a, b]);
}

#[test]
fn marker_miss_resets_streak() {
    let mut st = MonitorState::new();
    let marker = Some("ready".to_string());
    st.observe_probe(ProbeOutcome::Success { body: "system ready now".to_string() }, &marker);
    assert_eq!(st.confidence, 1);
    st.observe_probe(ProbeOutcome::Success { body: "starting up".to_string() }, &marker);
    assert_eq!(st.confidence, 0);
}

#[test]
fn probe_target_overrides_only_for_own_record() {
    let resolved = vec![IpAddress::V4(0x7F000001)];
    assert_eq!(
        MonitorState::probe_target("app.example.com", "app.example.com", &resolved),
        Some(IpAddress::V4(0x7F000001))
    );
    assert_eq!(
        MonitorState::probe_target("app.example.com", "probe.example.net", &resolved),
        None
    );
}
