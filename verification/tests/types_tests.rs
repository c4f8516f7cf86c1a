use api_client::types::{AuditConfig, AuditMetadata, Headers, HttpResponse, Method, StatusCode};
use api_client::types::json_request_parts;
use api_client::APIClientError;
use std::str::FromStr;

#[test]
fn test_method_from_str() -> Result<(), APIClientError> {
    assert_eq!(Method::from_str("GET")?, Method::Get);
    assert_eq!(Method::from_str("post")?, Method::Post);
    assert_eq!(Method::from_str("  PUT  ")?, Method::Put);
    assert_eq!(Method::from_str("DELETE")?, Method::Delete);
    assert_eq!(Method::from_str("patch")?, Method::Patch);
    assert_eq!(Method::from_str("HEAD")?, Method::Head);
    assert!(Method::from_str("INVALID").is_err());
    Ok(())
}

#[test]
fn test_method_display() {
    assert_eq!(Method::Get.to_string(), "GET");
    assert_eq!(Method::Post.to_string(), "POST");
}

#[test]
fn test_status_code() {
    let sc = StatusCode(200);
    assert!(sc.is_success());
    assert!(!sc.is_client_error());
    assert!(!sc.is_server_error());
    assert_eq!(sc.as_u16(), 200);

    let sc = StatusCode(404);
    assert!(!sc.is_success());
    assert!(sc.is_client_error());
    assert!(!sc.is_server_error());

    let sc = StatusCode(500);
    assert!(!sc.is_success());
    assert!(!sc.is_client_error());
    assert!(sc.is_server_error());
}

#[test]
fn test_headers_builder() {
    let headers = Headers::new()
        .insert("X-Test", "Value")
        .content_type("application/json")
        .authorization_bearer("token123");

    assert_eq!(headers.get("x-test"), Some("Value".to_string()));
    assert_eq!(
        headers.get("content-type"),
        Some("application/json".to_string())
    );
    assert_eq!(
        headers.get("authorization"),
        Some("Bearer token123".to_string())
    );
}

#[test]
fn test_audit_config() {
    let config = AuditConfig::new("test");
    assert_eq!(config.name, Some("test".to_string()));
    assert!(config.audit_response_body);

    let config = config.mute_response();
    assert!(!config.audit_response_body);
}

#[test]
fn test_audit_metadata() {
    let meta = AuditMetadata::new("test-audit", "/some/path?query=1");
    assert_eq!(meta.audit_name, "test-audit");
    assert_eq!(meta.uri_path, "some/path?query=1");
    assert!(!meta.date_path.is_empty());
    assert!(!meta.timestamp.is_empty());
    assert!(!meta.request_id.is_empty());

    let path = meta.path(Method::Get, "request");
    let expected = format!(
        "{}/{}/{}/{}_{}_{}_request.txt",
        meta.date_path,
        meta.audit_name,
        meta.uri_path,
        Method::Get.to_string(),
        meta.timestamp,
        meta.request_id
    );
    assert_eq!(path, expected);
}

#[test]
fn test_request_with_audit_config() {
    let audit = AuditConfig::new("test-audit").mute_response();
    assert!(!audit.audit_response_body);
    assert_eq!(audit.name, Some("test-audit".to_string()));
}

#[test]
fn method_parse_reports_normalized_text() {
    match Method::parse("  TRACE\t") {
        Err(APIClientError::UnsupportedMethod(t)) => assert_eq!(t, "trace"),
        other => panic!("unexpected {other:?}"),
    }
    assert_eq!(Method::parse("\u{3000}Delete\u{A0}").unwrap(), Method::Delete);
    assert!(Method::parse("").is_err());
    assert!(Method::parse("G ET").is_err());
}

#[test]
fn method_names_round_trip() {
    for m in [Method::Get, Method::Post, Method::Put, Method::Delete, Method::Patch, Method::Head] {
        assert_eq!(Method::parse(m.as_str()).unwrap(), m);
        assert_eq!(m.to_string(), m.as_str());
    }
}

#[test]
fn status_code_boundaries() {
    assert!(StatusCode(299).is_success());
    assert!(!StatusCode(300).is_success());
    assert!(!StatusCode(199).is_success());
    assert!(StatusCode(499).is_client_error());
    assert!(StatusCode(599).is_server_error());
    assert!(!StatusCode(600).is_server_error());
}

#[test]
fn headers_reject_invalid_names_and_values() {
    let headers = Headers::new()
        .insert("bad name", "v")
        .insert("good", "line\nbreak")
        .insert("", "v");
    assert_eq!(headers.get("bad name"), None);
    assert_eq!(headers.get("good"), None);
    let headers = headers.insert("Good", "ok");
    assert_eq!(headers.get("GOOD"), Some("ok".to_string()));
}

#[test]
fn headers_insert_replaces_and_hides_non_ascii() {
    let headers = Headers::new()
        .insert("x-a", "1")
        .insert("X-A", "2")
        .insert("x-b", "caf\u{e9}");
    assert_eq!(headers.get("x-a"), Some("2".to_string()));
    assert_eq!(headers.get("x-b"), None);
    assert_eq!(headers.len(), 2);
    assert_eq!(Headers::new().len(), 0);
    assert_eq!(Headers::default().len(), 0);
    let inner = headers.clone().into_inner();
    assert_eq!(inner.len(), 2);
    assert_eq!(inner.get("x-b").unwrap().as_bytes(), "caf\u{e9}".as_bytes());
    let keys: Vec<&str> = inner.keys().map(|k| k.as_str()).collect();
    assert_eq!(keys, vec!["x-a", "x-b"]);
}

#[test]
fn audit_metadata_request_id_and_path() {
    let meta = AuditMetadata::new("name", "//a/b//");
    assert_eq!(meta.uri_path, "a/b");
    assert_eq!(meta.request_id.len(), 12);
    assert!(meta.request_id.chars().all(|c| c.is_ascii_hexdigit() && !c.is_ascii_uppercase()));
    let fixed = AuditMetadata::from_parts(
        "n",
        "/x/",
        "2024/01/02".to_string(),
        "240102_030405".to_string(),
        "0123abcd-4567-4def-8abc-0123456789ab",
    );
    assert_eq!(fixed.request_id, "0123456789ab");
    assert_eq!(
        fixed.path(Method::Patch, "response"),
        "2024/01/02/n/x/PATCH_240102_030405_0123456789ab_response.txt"
    );
}

#[test]
fn http_response_status_and_header() {
    let http_resp = http::Response::builder()
        .status(201)
        .header("x-test", "value")
        .body(reqwest::Body::from("{}"))
        .expect("Failed to build mock response");
    let inner = reqwest::Response::from(http_resp);
    let status = StatusCode(inner.status().as_u16());
    let headers = inner.headers().clone();
    let resp = HttpResponse::from_parts(status, headers, inner);
    assert_eq!(resp.status().as_u16(), 201);
    assert_eq!(resp.header("X-Test"), Some("value".to_string()));
    assert_eq!(resp.header("missing"), None);
}

#[test]
fn audit_metadata_date_and_timestamp_come_from_one_instant() {
    let meta = AuditMetadata::new("n", "u");
    let date: Vec<char> = meta.date_path.chars().collect();
    let stamp: Vec<char> = meta.timestamp.chars().collect();
    assert_eq!(date.len(), 10);
    assert_eq!((date[4], date[7]), ('/', '/'));
    assert_eq!(stamp.len(), 13);
    assert_eq!(stamp[6], '_');
    // yy, mm and dd of the stamp are the year's last two digits, month and day.
    assert_eq!(stamp[0..2], date[2..4]);
    assert_eq!(stamp[2..4], date[5..7]);
    assert_eq!(stamp[4..6], date[8..10]);
    assert!(stamp.iter().enumerate().all(|(i, c)| i == 6 || c.is_ascii_digit()));
}

#[test]
fn json_request_parts_sets_content_type_or_reports_serialization_error() {
    let (h, b) = json_request_parts(Headers::new(), Some(Ok(b"{}".to_vec()))).unwrap();
    assert_eq!(h.get("content-type"), Some("application/json".to_string()));
    assert_eq!(b, Some(b"{}".to_vec()));
    let (h, b) = json_request_parts(Headers::new().insert("a", "1"), None).unwrap();
    assert_eq!(h.len(), 1);
    assert_eq!(h.get("content-type"), None);
    assert_eq!(b, None);
    match json_request_parts(Headers::new(), Some(Err("key must be a string".to_string()))) {
        Err(APIClientError::UnsupportedMethod(t)) => {
            assert_eq!(t, "Serialization error: key must be a string")
        }
        _ => panic!("expected a serialization error"),
    }
}
