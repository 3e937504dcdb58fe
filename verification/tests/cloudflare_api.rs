use cloudflare_cname_switcher::cloudflare::{
    extract_record_ids, extract_result_id, record_body, record_url, records_query_url,
    records_url, verify_delete_response,
};
use cloudflare_cname_switcher::reconciler::CloudflareApiError;

#[test]
fn urls_follow_the_provider_layout() {
    assert_eq!(
        records_query_url("zone1", "app.example.com"),
        "https://api.cloudflare.com/client/v4/zones/zone1/dns_records?name=app.example.com"
    );
    assert_eq!(
        records_url("zone1"),
        "https://api.cloudflare.com/client/v4/zones/zone1/dns_records"
    );
    assert_eq!(
        record_url("zone1", "rec9"),
        "https://api.cloudflare.com/client/v4/zones/zone1/dns_records/rec9"
    );
}

#[test]
fn record_body_carries_all_fields() {
    let body = record_body("CNAME", "app.example.com", "backend.example.com", 120);
    let v: serde_json::Value = serde_json::from_slice(&body).unwrap();
    assert_eq!(v.get("type").unwrap().as_str(), Some("CNAME"));
    assert_eq!(v.get("name").unwrap().as_str(), Some("app.example.com"));
    assert_eq!(v.get("content").unwrap().as_str(), Some("backend.example.com"));
    assert_eq!(v.get("ttl").unwrap().as_u64(), Some(120));
    assert_eq!(
        v.get("comment").unwrap().as_str(),
        Some("Managed by cloudflare-cname-switcher v0.1.0")
    );
}

#[test]
fn listing_response_yields_all_ids() {
    let ids = extract_record_ids(
        "{\"result\": [{\"id\": \"a1\"}, {\"id\": \"b2\", \"type\": \"A\"}]}",
    )
    .unwrap();
    assert_eq!(ids, vec!["a1".to_string(), "b2".to_string()]);

    let ids = extract_record_ids("{\"result\": []}").unwrap();
    assert!(ids.is_empty());
}

#[test]
fn schema_deviations_are_schema_errors() {
    assert!(matches!(
        extract_record_ids("{\"outcome\": []}"),
        Err(CloudflareApiError::SchemaParseError)
    ));
    assert!(matches!(
        extract_record_ids("{\"result\": 5}"),
        Err(CloudflareApiError::SchemaParseError)
    ));
    assert!(matches!(
        extract_record_ids("{\"result\": [{\"id\": 7}]}"),
        Err(CloudflareApiError::SchemaParseError)
    ));
    assert!(matches!(
        extract_record_ids("not json at all"),
        Err(CloudflareApiError::JsonParseError(_))
    ));
    assert!(matches!(
        extract_result_id("{\"result\": {}}"),
        Err(CloudflareApiError::SchemaParseError)
    ));
}

#[test]
fn result_id_is_read_and_checked() {
    assert_eq!(
        extract_result_id("{\"result\": {\"id\": \"xyz\"}}").unwrap(),
        "xyz"
    );
    assert!(verify_delete_response("{\"result\": {\"id\": \"xyz\"}}", "xyz").is_ok());
    assert!(matches!(
        verify_delete_response("{\"result\": {\"id\": \"other\"}}", "xyz"),
        Err(CloudflareApiError::SchemaParseError)
    ));
}
