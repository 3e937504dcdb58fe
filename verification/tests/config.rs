use cloudflare_cname_switcher::config::{ConfigError, ConfigValue, Ingress};
use cloudflare_cname_switcher::http_probe::{
    connect_port, host_header, request_target, route, MetricsRoute,
};

fn t(s: &str) -> ConfigValue {
    ConfigValue::Text(s.to_string())
}

fn n(x: i64) -> ConfigValue {
    ConfigValue::Int(x)
}

fn l(items: Vec<ConfigValue>) -> ConfigValue {
    ConfigValue::List(items)
}

fn m(pairs: Vec<(&str, ConfigValue)>) -> ConfigValue {
    ConfigValue::Mapping(pairs.into_iter().map(|(k, v)| (k.to_string(), v)).collect())
}

fn sample() -> ConfigValue {
    m(vec![
        ("record", t("app.example.com")),
        (
            "endpoints",
            l(vec![
                m(vec![
                    (
                        "dns",
                        m(vec![
                            ("record", t("primary.example.com")),
                            ("ttl", n(120)),
                            ("resolver", t("192.0.2.53")),
                        ]),
                    ),
                    ("weight", n(10)),
                    (
                        "monitoring",
                        m(vec![
                            ("uri", t("https://primary.example.com/health")),
                            ("interval", n(30)),
                            ("confidence", n(3)),
                            ("marker", t("ready")),
                        ]),
                    ),
                ]),
                m(vec![
                    (
                        "dns",
                        m(vec![
                            ("record", t("backup.example.com")),
                            ("resolver", t("192.0.2.53")),
                        ]),
                    ),
                    ("alias", t("backup")),
                    ("weight", n(20)),
                    ("sticky_duration", n(30)),
                ]),
            ]),
        ),
        (
            "cloudflare",
            m(vec![("zone_id", t("zone123")), ("token", t("SECRET-REDACTED"))]),
        ),
        (
            "telegram",
            m(vec![
                ("token", t("SECRET-REDACTED")),
                ("chat_id", n(-100200300)),
                ("initial_silence", n(60)),
            ]),
        ),
    ])
}

#[test]
fn full_configuration_parses() {
    let ing = Ingress::from_config(&vec![sample()], 1_000).unwrap();
    assert_eq!(ing.record, "app.example.com");
    assert_eq!(ing.endpoints.len(), 2);

    let e1 = &ing.endpoints[0];
    assert_eq!(e1.name, "primary.example.com"); // no alias: the record names it
    assert_eq!(e1.dns.ttl, 120);
    assert_eq!(e1.dns.retry, 1); // default
    assert_eq!(e1.weight, 10);
    assert!(e1.sticky_ms.is_none());
    let mo = e1.monitoring.as_ref().unwrap();
    assert_eq!(mo.uri_host, "primary.example.com");
    assert!(mo.uri_https);
    assert_eq!(mo.uri_port, None);
    assert_eq!(mo.uri_path_and_query.as_deref(), Some("/health"));
    assert_eq!(mo.interval_ms, 30_000);
    assert_eq!(mo.timeout_ms, 5_000); // default
    assert_eq!(mo.confidence, 3);
    assert_eq!(mo.marker.as_deref(), Some("ready"));

    let e2 = &ing.endpoints[1];
    assert_eq!(e2.name, "backup");
    assert_eq!(e2.dns.ttl, 0); // default
    assert_eq!(e2.sticky_ms, Some(30_000));
    assert!(e2.monitoring.is_none());

    assert_eq!(ing.cloudflare.zone_id, "zone123");
    assert!(ing.has_telegram());
    let tg = ing.telegram.as_ref().unwrap();
    assert_eq!(tg.chat_id, -100200300);
    assert_eq!(tg.queue.silence_until, Some(1_060));
}

#[test]
fn legacy_configuration_is_fatal() {
    let legacy = m(vec![
        ("general", m(vec![("timeout", n(5))])),
        ("record", t("app.example.com")),
    ]);
    match Ingress::from_config(&vec![legacy], 0) {
        Err(ConfigError::Legacy) => {}
        _ => panic!("a legacy configuration must be rejected as such"),
    }
}

#[test]
fn empty_configuration_is_rejected() {
    match Ingress::from_config(&vec![], 0) {
        Err(ConfigError::Message(msg)) => assert_eq!(msg, "Empty configuration file found"),
        _ => panic!("an empty configuration must be rejected"),
    }
}

#[test]
fn missing_record_is_rejected() {
    let doc = m(vec![("endpoints", l(vec![]))]);
    match Ingress::from_config(&vec![doc], 0) {
        Err(ConfigError::Message(msg)) => assert_eq!(msg, "Missing record"),
        _ => panic!("a configuration without a record must be rejected"),
    }
}

#[test]
fn confidence_bounds_are_enforced() {
    let doc = m(vec![
        ("record", t("app.example.com")),
        (
            "endpoints",
            l(vec![m(vec![
                (
                    "dns",
                    m(vec![
                        ("record", t("a.example.com")),
                        ("resolver", t("192.0.2.53")),
                    ]),
                ),
                (
                    "monitoring",
                    m(vec![
                        ("uri", t("http://a.example.com/")),
                        ("interval", n(30)),
                        ("confidence", n(0)),
                    ]),
                ),
            ])]),
        ),
        ("cloudflare", m(vec![("zone_id", t("z")), ("token", t("x"))])),
    ]);
    match Ingress::from_config(&vec![doc], 0) {
        Err(ConfigError::Message(msg)) => assert!(msg.contains("Confidence is out of bounds")),
        _ => panic!("a zero confidence must be rejected"),
    }
}

#[test]
fn null_monitoring_means_always_healthy() {
    let doc = m(vec![
        ("record", t("app.example.com")),
        (
            "endpoints",
            l(vec![m(vec![
                (
                    "dns",
                    m(vec![
                        ("record", t("a.example.com")),
                        ("resolver", t("192.0.2.53")),
                    ]),
                ),
                ("monitoring", ConfigValue::Null),
            ])]),
        ),
        ("cloudflare", m(vec![("zone_id", t("z")), ("token", t("x"))])),
    ]);
    let ing = Ingress::from_config(&vec![doc], 0).unwrap();
    assert!(ing.endpoints[0].monitoring.is_none());
    assert!(!ing.has_telegram());
}

#[test]
fn duplicate_endpoint_names_keep_the_first() {
    let entry = |record: &str, ttl: i64| {
        m(vec![
            (
                "dns",
                m(vec![
                    ("record", t(record)),
                    ("ttl", n(ttl)),
                    ("resolver", t("192.0.2.53")),
                ]),
            ),
            ("alias", t("same")),
        ])
    };
    let doc = m(vec![
        ("record", t("app.example.com")),
        ("endpoints", l(vec![entry("a.example.com", 100), entry("b.example.com", 200)])),
        ("cloudflare", m(vec![("zone_id", t("z")), ("token", t("x"))])),
    ]);
    let ing = Ingress::from_config(&vec![doc], 0).unwrap();
    assert_eq!(ing.endpoints.len(), 1);
    assert_eq!(ing.endpoints[0].dns.ttl, 100);
}

#[test]
fn probe_helpers_follow_the_uri() {
    assert_eq!(connect_port(true, None), 443);
    assert_eq!(connect_port(false, None), 80);
    assert_eq!(connect_port(true, Some(8443)), 8443);
    assert_eq!(host_header("example.com", None), "example.com");
    assert_eq!(host_header("example.com", Some(8080)), "example.com:8080");
    assert_eq!(request_target(&Some("/health?x=1".to_string())), "/health?x=1");
    assert_eq!(request_target(&None), "/");
}

#[test]
fn observability_routing() {
    assert_eq!(route("GET", "/healthz", true), MetricsRoute::Healthz);
    assert_eq!(route("GET", "/metrics", true), MetricsRoute::Metrics);
    assert_eq!(route("GET", "/other", true), MetricsRoute::NotFound);
    assert_eq!(route("POST", "/metrics", true), MetricsRoute::NotFound);
    // during a reload no registry is attached: the health check still
    // answers, only the exposition reports the gap
    assert_eq!(route("GET", "/healthz", false), MetricsRoute::Healthz);
    assert_eq!(route("GET", "/metrics", false), MetricsRoute::NoRegistry);
    assert_eq!(route("GET", "/other", false), MetricsRoute::NotFound);
}
