use cloudflare_cname_switcher::endpoint::{DnsConfiguration, Endpoint, MonitoringConfiguration};
use cloudflare_cname_switcher::telegram::{
    NotificationQueue, build_change_message, escape, message_body, sorted_by_weight, to_telegram_string,
};

#[test]
fn escape_prefixes_every_special_character() {
    assert_eq!(escape("a.b_c"), "a\\.b\\_c");
    assert_eq!(escape("_*[]()~`>#+-=|{}."), "\\_\\*\\[\\]\\(\\)\\~\\`\\>\\#\\+\\-\\=\\|\\{\\}\\.");
    assert_eq!(escape("plain text"), "plain text");
    assert_eq!(escape(""), "");
    assert_eq!(escape("über-host"), "über\\-host");
}

#[test]
fn queue_is_fifo_and_delivery_pops() {
    let mut q = NotificationQueue::new(None);
    assert!(!q.has_pending());
    assert!(q.enqueue("first".to_string(), 100));
    assert!(q.enqueue("second".to_string(), 101));
    assert_eq!(q.len(), 2);

    assert_eq!(q.prepare_front(105).as_deref(), Some("first"));
    q.pop_front();
    assert_eq!(q.prepare_front(105).as_deref(), Some("second"));
    q.pop_front();
    assert!(q.prepare_front(105).is_none());
}

#[test]
fn delayed_message_is_annotated() {
    let mut q = NotificationQueue::new(None);
    assert!(q.enqueue("Hello".to_string(), 100));

    // within ten seconds the text is delivered as it is
    assert_eq!(q.prepare_front(110).as_deref(), Some("Hello"));

    // fifteen seconds later the annotation carries the creation time
    let text = q.prepare_front(115).unwrap();
    let stamp = chrono::DateTime::from_timestamp(100, 0).unwrap().to_rfc3339();
    let expected = format!("Hello\n\n_This is a delayed message from `{}`._", stamp);
    assert_eq!(text, expected);
}

#[test]
fn silence_suppresses_enqueue_until_deadline() {
    let mut q = NotificationQueue::new(Some(200));
    assert!(!q.enqueue("early".to_string(), 150));
    assert!(!q.has_pending());
    assert!(q.enqueue("late".to_string(), 200));
    assert!(q.has_pending());
}

#[test]
fn queue_overflow_is_detected() {
    let mut q = NotificationQueue::new(None);
    for i in 0..129 {
        q.enqueue(format!("m{}", i), 100);
    }
    assert!(q.is_overflowed());
}

fn endpoint(name: &str, weight: u8, monitored: bool) -> Endpoint {
    Endpoint {
        name: name.to_string(),
        dns: DnsConfiguration {
            record: format!("{}.example.com", name),
            ttl: 60,
            resolver: "192.0.2.53".to_string(),
            retry: 1,
        },
        monitoring: if monitored {
            Some(MonitoringConfiguration {
                uri: "https://probe.example.com/health".to_string(),
                uri_host: "probe.example.com".to_string(),
                uri_https: true,
                uri_port: None,
                uri_path_and_query: Some("/health".to_string()),
                interval_ms: 30_000,
                marker: None,
                confidence: 3,
                timeout_ms: 5_000,
                retry: 0,
            })
        } else {
            None
        },
        weight,
        sticky_ms: None,
    }
}

#[test]
fn to_telegram_string_shows_cadence_and_problem() {
    let e = endpoint("web-1", 10, true);
    assert_eq!(
        to_telegram_string(&e, true, &None),
        "✅ `web\\-1` \\(every 30s, confidence of 3\\)"
    );
    assert_eq!(
        to_telegram_string(&e, false, &Some("no DNS values".to_string())),
        "❌ `web\\-1` \\(every 30s, confidence of 3no DNS values\\)"
    );
    let plain = endpoint("plain", 10, false);
    assert_eq!(to_telegram_string(&plain, true, &None), "✅ `plain`");
}

#[test]
fn change_message_lists_endpoints_by_weight() {
    let eps = vec![
        endpoint("gamma", 30, false),
        endpoint("alpha", 10, false),
        endpoint("beta", 20, false),
    ];
    let order = sorted_by_weight(&eps);
    assert_eq!(order, vec![1, 2, 0]);
    let healthy = vec![true, false, true];
    let problems = vec![None, None, None];
    let msg = build_change_message(&eps, &healthy, &problems, &order, 1);
    assert_eq!(
        msg,
        "Ingress changed to *alpha*\\.\n  ❌ `alpha`\n  ✅ `beta`\n  ✅ `gamma`"
    );
}

#[test]
fn message_body_is_the_provider_payload() {
    let body = message_body(42, "hello *world*");
    let v: serde_json::Value = serde_json::from_slice(&body).unwrap();
    assert_eq!(v.get("chat_id").unwrap().as_i64(), Some(42));
    assert_eq!(v.get("parse_mode").unwrap().as_str(), Some("MarkdownV2"));
    assert_eq!(v.get("text").unwrap().as_str(), Some("hello *world*"));
}
