use cloudflare_cname_switcher::endpoint::{DnsConfiguration, Endpoint};
use cloudflare_cname_switcher::selector::{ChangeReason, Selector, selected_flags, should_skip_event, sticky_wakeup_ms};

fn endpoint(name: &str, weight: u8, sticky_ms: Option<u64>) -> Endpoint {
    Endpoint {
        name: name.to_string(),
        dns: DnsConfiguration {
            record: format!("{}.example.com", name),
            ttl: 60,
            resolver: "192.0.2.53".to_string(),
            retry: 1,
        },
        monitoring: None,
        weight,
        sticky_ms,
    }
}

fn three_endpoints() -> Vec<Endpoint> {
    vec![
        endpoint("e1", 10, None),
        endpoint("e2", 20, Some(30_000)),
        endpoint("e3", 30, Some(30_000)),
    ]
}

fn active_indices(sel: &Selector) -> Vec<usize> {
    let mut v: Vec<usize> = sel.last_active.iter().map(|e| e.endpoint).collect();
    v.sort();
    v
}

#[test]
fn failover_and_return() {
    let eps = three_endpoints();
    let mut sel = Selector::new();

    // start: all healthy, primary = e1
    let plan = sel.plan_cycle(&eps, &vec![true, true, true], 0).unwrap();
    assert_eq!(plan.primary, 0);
    sel.commit(plan);
    assert_eq!(active_indices(&sel), vec![0]);

    // e1 goes unhealthy: primary = e2, active = {e2}
    let plan = sel.plan_cycle(&eps, &vec![false, true, true], 1_000).unwrap();
    assert_eq!(plan.primary, 1);
    assert!(plan.primary_changed);
    sel.commit(plan);
    assert_eq!(active_indices(&sel), vec![1]);

    // e1 returns: primary = e1, active = {e1, e2(carry)}
    let plan = sel.plan_cycle(&eps, &vec![true, true, true], 2_000).unwrap();
    assert_eq!(plan.primary, 0);
    assert!(plan.primary_changed);
    sel.commit(plan);
    assert_eq!(active_indices(&sel), vec![0, 1]);
    // the demoted primary enters the sticky window with a fresh clock
    let e2 = sel.last_active.iter().find(|e| e.endpoint == 1).unwrap();
    assert!(!e2.primary);
    assert_eq!(e2.since, 2_000);

    // 31 s later the carried entry has expired: active = {e1}
    let plan = sel.plan_cycle(&eps, &vec![true, true, true], 33_001).unwrap();
    assert_eq!(plan.primary, 0);
    assert!(!plan.primary_changed);
    sel.commit(plan);
    assert_eq!(active_indices(&sel), vec![0]);
}

#[test]
fn cascading_failover() {
    let eps = three_endpoints();
    let mut sel = Selector::new();

    let plan = sel.plan_cycle(&eps, &vec![true, true, true], 0).unwrap();
    sel.commit(plan);

    // e1 and e2 fail: active = {e3}
    let plan = sel.plan_cycle(&eps, &vec![false, false, true], 1_000).unwrap();
    assert_eq!(plan.primary, 2);
    sel.commit(plan);
    assert_eq!(active_indices(&sel), vec![2]);

    // e2 returns: active = {e2, e3(carry)}
    let plan = sel.plan_cycle(&eps, &vec![false, true, true], 2_000).unwrap();
    assert_eq!(plan.primary, 1);
    sel.commit(plan);
    assert_eq!(active_indices(&sel), vec![1, 2]);

    // e1 returns: active = {e1, e2(carry), e3(carry)}
    let plan = sel.plan_cycle(&eps, &vec![true, true, true], 3_000).unwrap();
    assert_eq!(plan.primary, 0);
    sel.commit(plan);
    assert_eq!(active_indices(&sel), vec![0, 1, 2]);
    // e3 kept its old timestamp, e2 was refreshed on demotion
    let e2 = sel.last_active.iter().find(|e| e.endpoint == 1).unwrap();
    let e3 = sel.last_active.iter().find(|e| e.endpoint == 2).unwrap();
    assert_eq!(e2.since, 3_000);
    assert_eq!(e3.since, 2_000);

    // both sticky windows expire: active = {e1}
    let plan = sel.plan_cycle(&eps, &vec![true, true, true], 34_001).unwrap();
    assert_eq!(plan.primary, 0);
    sel.commit(plan);
    assert_eq!(active_indices(&sel), vec![0]);
}

#[test]
fn flapping_without_self_stickiness() {
    let eps = three_endpoints();
    let mut sel = Selector::new();

    let plan = sel.plan_cycle(&eps, &vec![true, true, true], 0).unwrap();
    sel.commit(plan);

    // e1 down: e2 selected the first time
    let plan = sel.plan_cycle(&eps, &vec![false, true, true], 1_000).unwrap();
    assert_eq!(plan.primary, 1);
    sel.commit(plan);

    // e1 back: e1 primary, e2 carried with a refreshed clock
    let plan = sel.plan_cycle(&eps, &vec![true, true, true], 2_000).unwrap();
    assert_eq!(plan.primary, 0);
    sel.commit(plan);

    // e1 down again: e2 selected the second time, not sticky with itself
    let plan = sel.plan_cycle(&eps, &vec![false, true, true], 3_000).unwrap();
    assert_eq!(plan.primary, 1);
    sel.commit(plan);
    assert_eq!(active_indices(&sel), vec![1]);
    let e2 = sel.last_active.iter().find(|e| e.endpoint == 1).unwrap();
    assert!(e2.primary);
    assert_eq!(e2.since, 3_000);
}

#[test]
fn dns_change_on_non_selected_endpoint_is_skipped() {
    let eps = three_endpoints();
    let mut sel = Selector::new();
    let plan = sel.plan_cycle(&eps, &vec![true, true, true], 0).unwrap();
    sel.commit(plan);
    assert_eq!(active_indices(&sel), vec![0]);

    // DNS churn on e3 (not active) is discarded; on e1 (active) it is not
    assert!(should_skip_event(
        &sel.last_active,
        &ChangeReason::EndpointDnsValuesChanged { endpoint: 2 }
    ));
    assert!(!should_skip_event(
        &sel.last_active,
        &ChangeReason::EndpointDnsValuesChanged { endpoint: 0 }
    ));
    assert!(!should_skip_event(
        &sel.last_active,
        &ChangeReason::EndpointHealthChanged { endpoint: 2 }
    ));
}

#[test]
fn no_healthy_endpoint_skips_the_cycle() {
    let eps = three_endpoints();
    let mut sel = Selector::new();
    let plan = sel.plan_cycle(&eps, &vec![true, true, true], 0).unwrap();
    sel.commit(plan);
    let before: Vec<usize> = active_indices(&sel);

    // with nobody healthy the cycle is skipped and the active set stands
    assert!(sel.plan_cycle(&eps, &vec![false, false, false], 1_000).is_none());
    assert_eq!(active_indices(&sel), before);
}

#[test]
fn ttl_is_least_over_active_set() {
    let mut eps = three_endpoints();
    eps[0].dns.ttl = 120;
    eps[1].dns.ttl = 45;
    let mut sel = Selector::new();
    let plan = sel.plan_cycle(&eps, &vec![true, true, true], 0).unwrap();
    assert_eq!(plan.ttl, 120);
    sel.commit(plan);
    let plan = sel.plan_cycle(&eps, &vec![false, true, true], 1_000).unwrap();
    sel.commit(plan);
    // e1 back: active = {e1 (ttl 120), e2 (ttl 45)}
    let plan = sel.plan_cycle(&eps, &vec![true, true, true], 2_000).unwrap();
    assert_eq!(plan.ttl, 45);
}

#[test]
fn sticky_wakeup_has_one_second_cushion() {
    let eps = three_endpoints();
    let mut sel = Selector::new();
    let plan = sel.plan_cycle(&eps, &vec![true, true, true], 0).unwrap();
    sel.commit(plan);
    // only a primary entry: no deadline
    assert_eq!(sticky_wakeup_ms(&sel.last_active, &eps, 500), None);

    let plan = sel.plan_cycle(&eps, &vec![false, true, true], 1_000).unwrap();
    sel.commit(plan);
    let plan = sel.plan_cycle(&eps, &vec![true, true, true], 2_000).unwrap();
    sel.commit(plan);
    // e2 carried since 2000 with 30 s stickiness: at 12 000 the window has
    // 20 000 ms left, plus the cushion
    assert_eq!(sticky_wakeup_ms(&sel.last_active, &eps, 12_000), Some(21_000));
    // after expiry the wakeup is immediate
    assert_eq!(sticky_wakeup_ms(&sel.last_active, &eps, 40_000), Some(0));
}

#[test]
fn selected_flags_mark_active_endpoints() {
    let eps = three_endpoints();
    let mut sel = Selector::new();
    let plan = sel.plan_cycle(&eps, &vec![false, true, true], 0).unwrap();
    sel.commit(plan);
    let flags = selected_flags(3, &sel.last_active);
    assert_eq!(flags, vec![false, true, false]);
}
