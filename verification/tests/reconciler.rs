use cloudflare_cname_switcher::dns_state::{DesiredDnsState, desired_multi, state_eq_exec};
use cloudflare_cname_switcher::ip::IpAddress;
use cloudflare_cname_switcher::reconciler::{
    ApiAction, CloudflareConfiguration, CloudflareUpdateError, SessionPhase,
};

fn cname(target: &str) -> DesiredDnsState {
    DesiredDnsState::SingleCname { target: target.to_string() }
}

#[test]
fn fresh_cache_runs_full_cleanup() {
    let mut cf = CloudflareConfiguration::new("token".to_string(), "zone".to_string());
    assert!(cf.cache.is_none());

    let (s, action) = cf.begin(cname("e1.example.com"), 60);
    assert!(matches!(action, Some(ApiAction::ListRecords)));

    // two stale records are listed: both are deleted before creating
    let (s, action, err) = cf.on_list(s, vec!["old1".to_string(), "old2".to_string()]);
    assert!(err.is_none());
    match &action {
        Some(ApiAction::DeleteRecord { id }) => assert_eq!(id, "old1"),
        other => panic!("unexpected action {:?}", action_name(other)),
    }
    let (s, action) = cf.on_delete_ok(s);
    match &action {
        Some(ApiAction::DeleteRecord { id }) => assert_eq!(id, "old2"),
        other => panic!("unexpected action {:?}", action_name(other)),
    }
    let (s, action) = cf.on_delete_ok(s);
    match &action {
        Some(ApiAction::CreateCname { target, ttl }) => {
            assert_eq!(target, "e1.example.com");
            assert_eq!(*ttl, 60);
        }
        other => panic!("unexpected action {:?}", action_name(other)),
    }
    assert!(cf.cache.is_none()); // nothing cached until completion

    let (s, action) = cf.on_create_ok(s);
    assert!(action.is_none());
    assert!(matches!(s.phase, SessionPhase::Done));
    assert!(state_eq_exec(cf.cache.as_ref().unwrap(), &cname("e1.example.com")));
}

fn action_name(a: &Option<ApiAction>) -> &'static str {
    match a {
        None => "none",
        Some(ApiAction::ListRecords) => "list",
        Some(ApiAction::DeleteRecord { .. }) => "delete",
        Some(ApiAction::CreateCname { .. }) => "create-cname",
        Some(ApiAction::CreateAddress { .. }) => "create-address",
        Some(ApiAction::PatchCname { .. }) => "patch",
    }
}

#[test]
fn equal_cache_is_a_no_op() {
    let mut cf = CloudflareConfiguration::new("token".to_string(), "zone".to_string());
    let (s, _) = cf.begin(cname("e1.example.com"), 60);
    let (s, _, _) = cf.on_list(s, vec![]);
    assert!(matches!(s.phase, SessionPhase::Creating { .. }));
    let (_, _) = cf.on_create_ok(s);

    // same desired state again: done at once, no call
    let (s, action) = cf.begin(cname("e1.example.com"), 60);
    assert!(action.is_none());
    assert!(matches!(s.phase, SessionPhase::Done));
}

#[test]
fn cname_change_patches_in_place() {
    let mut cf = CloudflareConfiguration::new("token".to_string(), "zone".to_string());
    let (s, _) = cf.begin(cname("e1.example.com"), 60);
    let (s, _, _) = cf.on_list(s, vec![]);
    let (_, _) = cf.on_create_ok(s);

    // a different CNAME target with a CNAME cached: update in place
    let (s, action) = cf.begin(cname("e2.example.com"), 60);
    assert!(matches!(action, Some(ApiAction::ListRecords)));
    assert!(matches!(s.phase, SessionPhase::UpdateListing));
    let (s, action, err) = cf.on_list(s, vec!["rec1".to_string()]);
    assert!(err.is_none());
    match &action {
        Some(ApiAction::PatchCname { id, target, ttl }) => {
            assert_eq!(id, "rec1");
            assert_eq!(target, "e2.example.com");
            assert_eq!(*ttl, 60);
        }
        other => panic!("unexpected action {:?}", action_name(other)),
    }
    let s = cf.on_patch_ok(s);
    assert!(matches!(s.phase, SessionPhase::Done));
    assert!(state_eq_exec(cf.cache.as_ref().unwrap(), &cname("e2.example.com")));
}

#[test]
fn provider_conflict_invalidates_cache_and_falls_back() {
    let mut cf = CloudflareConfiguration::new("token".to_string(), "zone".to_string());
    let (s, _) = cf.begin(cname("e1.example.com"), 60);
    let (s, _, _) = cf.on_list(s, vec![]);
    let (_, _) = cf.on_create_ok(s);

    // an external actor added a second record under the managed name: the
    // update-in-place listing no longer finds exactly one record
    let (s, _) = cf.begin(cname("e2.example.com"), 60);
    let (s, action, err) = cf.on_list(s, vec!["rec1".to_string(), "intruder".to_string()]);
    assert!(matches!(s.phase, SessionPhase::Failed));
    assert!(action.is_none());
    assert!(matches!(err, Some(CloudflareUpdateError::Conflict)));
    assert!(cf.cache.is_none());

    // the next cycle falls through to the full cleanup and re-creates the
    // single CNAME
    let (s, _) = cf.begin(cname("e2.example.com"), 60);
    assert!(matches!(s.phase, SessionPhase::CleanupListing));
    let (s, action, _) = cf.on_list(s, vec!["rec1".to_string(), "intruder".to_string()]);
    assert!(matches!(action, Some(ApiAction::DeleteRecord { .. })));
    let (s, _) = cf.on_delete_ok(s);
    let (s, action) = cf.on_delete_ok(s);
    assert!(matches!(action, Some(ApiAction::CreateCname { .. })));
    let (s, _) = cf.on_create_ok(s);
    assert!(matches!(s.phase, SessionPhase::Done));
    assert!(state_eq_exec(cf.cache.as_ref().unwrap(), &cname("e2.example.com")));
}

#[test]
fn failed_call_clears_the_cache() {
    let mut cf = CloudflareConfiguration::new("token".to_string(), "zone".to_string());
    let (s, _) = cf.begin(cname("e1.example.com"), 60);
    let (s, _, _) = cf.on_list(s, vec![]);
    let (s, _) = cf.on_create_ok(s);
    assert!(cf.cache.is_some());

    let (s2, _) = cf.begin(cname("e3.example.com"), 60);
    let s2 = cf.on_error(s2);
    assert!(matches!(s2.phase, SessionPhase::Failed));
    assert!(cf.cache.is_none());
    let _ = s;
}

#[test]
fn multi_address_creates_one_record_per_ip() {
    let mut cf = CloudflareConfiguration::new("token".to_string(), "zone".to_string());
    let resolved = vec![
        vec![IpAddress::V4(0x0A000001)],
        vec![IpAddress::V4(0x0A000002), IpAddress::V4(0x0A000001)],
    ];
    let desired = desired_multi(&resolved);
    match &desired {
        DesiredDnsState::MultiAddress { ips } => {
            // the union is deduplicated and canonical
            assert_eq!(ips, &vec![IpAddress::V4(0x0A000001), IpAddress::V4(0x0A000002)]);
        }
        _ => panic!("expected a multi-address state"),
    }

    let (s, _) = cf.begin(desired, 45);
    let (s, action, _) = cf.on_list(s, vec![]);
    match &action {
        Some(ApiAction::CreateAddress { ip, ttl }) => {
            assert_eq!(*ip, IpAddress::V4(0x0A000001));
            assert_eq!(*ttl, 45);
        }
        other => panic!("unexpected action {:?}", action_name(other)),
    }
    let (s, action) = cf.on_create_ok(s);
    match &action {
        Some(ApiAction::CreateAddress { ip, .. }) => {
            assert_eq!(*ip, IpAddress::V4(0x0A000002));
        }
        other => panic!("unexpected action {:?}", action_name(other)),
    }
    let (s, action) = cf.on_create_ok(s);
    assert!(action.is_none());
    assert!(matches!(s.phase, SessionPhase::Done));
    assert!(cf.cache.is_some());
}
