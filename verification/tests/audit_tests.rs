use api_client::audit::{pretty_body, request_to_curl, shell_quote, ObjectStorageAuditor};
use api_client::types::Method;
use http::header::{HeaderMap, HeaderName, HeaderValue};

#[test]
fn test_shell_quote() {
    assert_eq!(shell_quote(""), "''");
    assert_eq!(shell_quote("safe"), "safe");
    assert_eq!(shell_quote("safe_with-123"), "safe_with-123");
    assert_eq!(shell_quote("needs quote"), "'needs quote'");
    assert_eq!(shell_quote("it's"), r"'it'\''s'");
    assert_eq!(shell_quote("complex chars: $?*"), "'complex chars: $?*'");
}

#[test]
fn test_pretty_body_json() {
    let json = r#"{"foo":"bar","baz":123}"#;
    let pretty = pretty_body(json.as_bytes());
    // Should be pretty printed JSON
    assert_eq!(pretty, "{\n  \"baz\": 123,\n  \"foo\": \"bar\"\n}");
}

#[test]
fn test_pretty_body_non_json() {
    let text = "Hello world";
    let pretty = pretty_body(text.as_bytes());
    assert_eq!(pretty, text);
}

#[test]
fn test_request_to_curl() {
    let mut headers = HeaderMap::new();
    headers.insert(
        HeaderName::from_static("x-test"),
        HeaderValue::from_static("value"),
    );

    let curl = request_to_curl(
        "https://example.com/api",
        Method::Post,
        &headers,
        Some(b"body data"),
        Some("session=123"),
    );

    assert_eq!(
        curl,
        "curl -i -X POST https://example.com/api -H 'x-test: value' -b session=123 -d 'body data'"
    );
}

#[test]
fn test_object_storage_auditor_path() {
    let client = ();
    let auditor = ObjectStorageAuditor::new(client, "base");
    assert_eq!(auditor.full_path("path"), "base/path");
    assert_eq!(auditor.full_path("/path"), "base/path");
}

#[test]
fn shell_quote_keeps_safe_punctuation() {
    assert_eq!(shell_quote("a/b:c=d@e,f+g.h"), "a/b:c=d@e,f+g.h");
    assert_eq!(shell_quote("'"), r"''\'''");
    assert_eq!(shell_quote("a b"), "'a b'");
    assert_eq!(shell_quote("x\ny"), "'x\ny'");
}

#[test]
fn curl_minimal_request() {
    let headers = HeaderMap::new();
    let curl = request_to_curl("https://example.com", Method::Get, &headers, None, None);
    assert_eq!(curl, "curl -i -X GET https://example.com");
}

#[test]
fn curl_shows_headers_in_order_and_blanks_non_ascii_values() {
    let mut headers = HeaderMap::new();
    headers.insert(HeaderName::from_static("b-first"), HeaderValue::from_static("1"));
    headers.insert(HeaderName::from_static("a-second"), HeaderValue::from_bytes(&[0xC3, 0xA9]).unwrap());
    let curl = request_to_curl("http://h/p q", Method::Delete, &headers, None, None);
    assert_eq!(curl, "curl -i -X DELETE 'http://h/p q' -H 'b-first: 1' -H 'a-second: '");
}

#[test]
fn curl_body_invalid_utf8_is_replaced() {
    let headers = HeaderMap::new();
    let curl = request_to_curl("u", Method::Put, &headers, Some(&[b'a', 0xFF, b'b']), None);
    assert_eq!(curl, "curl -i -X PUT u -d 'a\u{FFFD}b'");
}

#[test]
fn pretty_body_of_json_array_and_scalar() {
    assert_eq!(pretty_body(b"[1,2]"), "[\n  1,\n  2\n]");
    assert_eq!(pretty_body(b"42"), "42");
    assert_eq!(pretty_body(b"{bad"), "{bad");
}

#[test]
fn object_storage_auditor_trims_base_slashes() {
    let auditor = ObjectStorageAuditor::new(7u8, "s3://bucket/audits///");
    assert_eq!(auditor.full_path("//2024/x.txt"), "s3://bucket/audits/2024/x.txt");
    assert_eq!(*auditor.client(), 7u8);
}

/// Splits a command line into words the way a POSIX shell does for words made
/// of plain characters, single-quoted runs and backslash escapes.
fn split_shell_words(line: &str) -> Option<Vec<String>> {
    let mut words = Vec::new();
    let mut cur = String::new();
    let mut quoted = false;
    let mut chars = line.chars();
    while let Some(c) = chars.next() {
        if quoted {
            if c == '\'' {
                quoted = false;
            } else {
                cur.push(c);
            }
        } else if c == ' ' {
            words.push(std::mem::take(&mut cur));
        } else if c == '\'' {
            quoted = true;
        } else if c == '\\' {
            cur.push(chars.next()?);
        } else {
            cur.push(c);
        }
    }
    if quoted {
        return None;
    }
    words.push(cur);
    Some(words)
}

#[test]
fn shell_reads_quoted_text_back() {
    for s in ["", "plain", "two words", "it's", "''", "a\\b", "x\ny", "$HOME;rm"] {
        assert_eq!(split_shell_words(&shell_quote(s)), Some(vec![s.to_string()]));
    }
}

#[test]
fn shell_splits_curl_command_into_request_arguments() {
    let mut headers = HeaderMap::new();
    headers.insert(HeaderName::from_static("x-note"), HeaderValue::from_static("it's fine"));
    headers.insert(HeaderName::from_static("accept"), HeaderValue::from_static("*/*"));
    let curl = request_to_curl(
        "https://example.com/a b?q='1'",
        Method::Patch,
        &headers,
        Some(b"{\"k\": \"v w\"}"),
        Some("a=1; b=2"),
    );
    let words = split_shell_words(&curl).unwrap();
    assert_eq!(
        words,
        vec![
            "curl",
            "-i",
            "-X",
            "PATCH",
            "https://example.com/a b?q='1'",
            "-H",
            "x-note: it's fine",
            "-H",
            "accept: */*",
            "-b",
            "a=1; b=2",
            "-d",
            "{\"k\": \"v w\"}",
        ]
    );
}
