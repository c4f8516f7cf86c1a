use api_client::audit::{
    audit_response_body, log_prefix, metadata_for, plan_request_audit, plan_response_audit, AuditSink,
};
use api_client::retry::{
    is_error_retryable, is_status_retryable, retry_after_error, retry_delay_ms, should_retry_error,
    MAX_RETRIES,
};
use api_client::types::{
    AuditConfig, AuditMetadata, HttpRequest, Method, StatusCode, TransportError,
};
use api_client::{build_url, APIClientBuilder, APIClientError};

#[test]
fn test_build_url() -> Result<(), APIClientError> {
    let base = "https://api.example.com";

    // Test basic URL building
    let url = build_url(base, "test", None)?;
    assert_eq!(url, "https://api.example.com/test");

    // Test with leading/trailing slashes
    let url = build_url(base, "/test/", None)?;
    assert_eq!(url, "https://api.example.com/test/");

    // Test with query parameters
    let params = vec![
        ("key".to_string(), "value".to_string()),
        ("foo".to_string(), "bar".to_string()),
    ];

    let url = build_url(base, "search", Some(&params))?;
    // Order of query params might not be guaranteed, so we check for both
    assert!(url.contains("key=value"));
    assert!(url.contains("foo=bar"));
    assert!(url.starts_with("https://api.example.com/search?"));

    Ok(())
}

#[test]
fn build_url_joins_with_one_slash_and_keeps_pair_order() -> Result<(), APIClientError> {
    assert_eq!(build_url("http://h//", "//p", None)?, "http://h/p");
    let params = vec![
        ("b".to_string(), "x y".to_string()),
        ("a".to_string(), "&".to_string()),
    ];
    assert_eq!(build_url("http://h", "p", Some(&params))?, "http://h/p?b=x+y&a=%26");
    assert!(matches!(
        build_url("not a url", "p", Some(&params)),
        Err(APIClientError::Url(_))
    ));
    assert_eq!(build_url("not a url", "p", None)?, "not a url/p");
    Ok(())
}

#[test]
fn builder_defaults_and_setters() {
    let b: APIClientBuilder<u8> = APIClientBuilder::new("https://api.example.com".to_string());
    assert_eq!(b.base_url, "https://api.example.com");
    assert_eq!(b.timeout_secs, 60);
    assert_eq!(b.max_concurrent, Some(10));
    assert_eq!(b.pool_max_idle_per_host, None);
    assert!(b.auditor.is_none());
    let b = b.timeout_secs(30).max_concurrent(None).pool_max_idle_per_host(5).with_auditor(3);
    assert_eq!(b.timeout_secs, 30);
    assert_eq!(b.max_concurrent, None);
    assert_eq!(b.pool_max_idle_per_host, Some(5));
    assert_eq!(b.auditor, Some(3));
}

#[test]
fn retry_decisions() {
    assert!(is_status_retryable(StatusCode(502)));
    assert!(is_status_retryable(StatusCode(503)));
    assert!(is_status_retryable(StatusCode(504)));
    assert!(!is_status_retryable(StatusCode(500)));
    assert!(!is_error_retryable(&APIClientError::ConcurrencyClosed));
    assert!(!should_retry_error(&APIClientError::ConcurrencyClosed, Method::Get, 1));
    assert_eq!(MAX_RETRIES, 3);
    assert_eq!(retry_delay_ms(1), 100);
    assert_eq!(retry_delay_ms(2), 200);
}

fn request(audit: Option<AuditConfig>, meta: Option<AuditMetadata>) -> HttpRequest {
    HttpRequest {
        method: Method::Post,
        url: "https://h/r".to_string(),
        headers: http::HeaderMap::new(),
        body: Some(b"{\"a\":1}".to_vec()),
        audit,
        audit_meta: meta,
    }
}

#[test]
fn audit_plans_follow_auditor_and_metadata() {
    let meta = AuditMetadata::from_parts(
        "unittest",
        "/resource",
        "2024/05/06".to_string(),
        "240506_070809".to_string(),
        "aaaaaaaa-bbbb-4ccc-8ddd-eeeeeeeeeeee",
    );
    let req = request(Some(AuditConfig::new("unittest")), Some(meta));
    let plan = plan_request_audit(true, &req, Some("s=1"));
    assert_eq!(
        plan.sink,
        AuditSink::Auditor(
            "2024/05/06/unittest/resource/POST_240506_070809_eeeeeeeeeeee_request.txt".to_string()
        )
    );
    assert_eq!(plan.text, "curl -i -X POST https://h/r -b s=1 -d '{\"a\":1}'");
    let plan = plan_response_audit(true, &req.audit_meta, req.method, b"{\"ok\":true}");
    assert_eq!(
        plan.sink,
        AuditSink::Auditor(
            "2024/05/06/unittest/resource/POST_240506_070809_eeeeeeeeeeee_response.txt"
                .to_string()
        )
    );
    assert_eq!(plan.text, "{\n  \"ok\": true\n}");
    assert_eq!(plan_request_audit(false, &req, None).sink, AuditSink::Log);
    assert_eq!(plan_request_audit(true, &request(None, None), None).sink, AuditSink::Log);
}

#[test]
fn audit_prefix_and_body_flag() {
    assert_eq!(log_prefix(&Some(AuditConfig::new("job"))), "[audit:job]");
    assert_eq!(log_prefix(&None), "[audit]");
    let unnamed = AuditConfig { name: None, audit_response_body: false };
    assert_eq!(log_prefix(&Some(unnamed.clone())), "[audit]");
    assert!(audit_response_body(&request(None, None)));
    assert!(!audit_response_body(&request(Some(unnamed), None)));
    let cloned = request(Some(AuditConfig::new("c")), None).clone();
    assert_eq!(cloned.url, "https://h/r");
    assert_eq!(cloned.audit.unwrap().name, Some("c".to_string()));
}

#[test]
fn metadata_only_for_named_audit_entries() {
    let meta = metadata_for(&Some(AuditConfig::new("job")), "//patients/1/").unwrap();
    assert_eq!(meta.audit_name, "job");
    assert_eq!(meta.uri_path, "patients/1");
    let unnamed = AuditConfig { name: None, audit_response_body: true };
    assert!(metadata_for(&Some(unnamed), "x").is_none());
    assert!(metadata_for(&None, "x").is_none());
}

#[test]
fn builder_errors_of_reqwest_are_not_retried() {
    let err = reqwest::Client::new().get("not a url").build().unwrap_err();
    let err = APIClientError::Request(TransportError {
        is_connect: err.is_connect(),
        is_timeout: err.is_timeout(),
        is_request: err.is_request(),
        error: err,
    });
    assert!(!is_error_retryable(&err));
    assert!(!should_retry_error(&err, Method::Get, 1));
    let url_err = build_url("not a url", "p", Some(&vec![("a".to_string(), "b".to_string())]));
    let url_err = url_err.unwrap_err();
    assert!(!should_retry_error(&url_err, Method::Get, 1));
}

#[test]
fn build_url_opens_a_query_even_without_pairs() -> Result<(), APIClientError> {
    let none: Vec<(String, String)> = Vec::new();
    assert_eq!(build_url("http://h", "p", Some(&none))?, "http://h/p?");
    let pairs = vec![("a".to_string(), "b".to_string())];
    assert_eq!(build_url("http://h/", "/p#top", Some(&pairs))?, "http://h/p?a=b#top");
    assert_eq!(build_url("http://h", "p?x=1", Some(&pairs))?, "http://h/p?x=1&a=b");
    Ok(())
}

#[test]
fn transient_errors_are_retried_only_for_get_within_the_retry_limit() {
    assert!(retry_after_error(true, Method::Get, 1));
    assert!(retry_after_error(true, Method::Get, 2));
    assert!(retry_after_error(true, Method::Get, 3));
    assert!(!retry_after_error(true, Method::Get, 4));
    assert!(!retry_after_error(true, Method::Post, 1));
    assert!(!retry_after_error(false, Method::Get, 1));
}

#[test]
fn test_client_init_audit_toggle() {
    let with_audit: APIClientBuilder<u8> = APIClientBuilder::new("https://api.example.com".to_string())
        .timeout_secs(30)
        .max_concurrent(None)
        .with_auditor(1);
    assert_eq!(with_audit.base_url, "https://api.example.com");
    let without_audit: APIClientBuilder<u8> =
        APIClientBuilder::new("https://api.example.com".to_string())
            .timeout_secs(30)
            .max_concurrent(None);
    assert_eq!(without_audit.base_url, "https://api.example.com");
    assert!(without_audit.auditor.is_none());
}

#[test]
fn test_client_builder_defaults() {
    let builder: APIClientBuilder<u8> = APIClientBuilder::new("https://api.example.com".to_string());
    assert_eq!(builder.base_url, "https://api.example.com");
}

#[test]
fn test_client_builder_pool_config() {
    let builder: APIClientBuilder<u8> =
        APIClientBuilder::new("https://api.example.com".to_string()).pool_max_idle_per_host(5);
    assert_eq!(builder.base_url, "https://api.example.com");
    assert_eq!(builder.pool_max_idle_per_host, Some(5));
}

#[test]
fn get_is_retried_at_most_three_times_and_other_methods_sent_once() {
    let sends = |method: Method| {
        let mut attempts: u32 = 0;
        loop {
            attempts += 1;
            if !retry_after_error(true, method, attempts) {
                return attempts;
            }
        }
    };
    assert_eq!(sends(Method::Get), MAX_RETRIES + 1);
    assert_eq!(sends(Method::Get), 4);
    assert_eq!(sends(Method::Post), 1);
    assert_eq!(sends(Method::Delete), 1);
}

fn transport(connect: bool, timeout: bool, request: bool) -> APIClientError {
    let error = reqwest::Client::new().get("not a url").build().unwrap_err();
    APIClientError::Request(TransportError {
        error,
        is_connect: connect,
        is_timeout: timeout,
        is_request: request,
    })
}

#[test]
fn connect_timeout_and_request_errors_are_transient() {
    assert!(is_error_retryable(&transport(true, false, false)));
    assert!(is_error_retryable(&transport(false, true, false)));
    assert!(is_error_retryable(&transport(false, false, true)));
    assert!(!is_error_retryable(&transport(false, false, false)));
    assert!(should_retry_error(&transport(true, false, false), Method::Get, 3));
    assert!(!should_retry_error(&transport(true, false, false), Method::Get, 4));
    assert!(!should_retry_error(&transport(false, true, false), Method::Post, 1));
}
