use vstd::prelude::*;
use crate::audit_types::{AuditConfig, AuditMetadata};
use crate::error::APIClientError;
use crate::headers::{
    content_type_key, header_entries, header_map_clone, header_map_get, headers_after_insert,
    headers_get, visible_text, Headers, HEADER_MAP_SAFE_LEN,
};
use crate::text::push_all;
use crate::method::Method;
use crate::status::StatusCode;

verus! {

/// The request as it is handed to the transport and to the audit layer.
#[derive(Debug)]
pub struct HttpRequest {
    pub method: Method,
    pub url: String,
    pub headers: http::HeaderMap,
    pub body: Option<Vec<u8>>,
    pub audit: Option<AuditConfig>,
    pub audit_meta: Option<AuditMetadata>,
}

impl Clone for HttpRequest {
    fn clone(&self) -> (r: HttpRequest)
        ensures
            r.method == self.method,
            r.url == self.url,
            header_entries(r.headers) == header_entries(self.headers),
            r.body is Some == self.body is Some,
            r.body is Some ==> r.body->0@ == self.body->0@,
            r.audit == self.audit,
            r.audit_meta == self.audit_meta,
    {
        let body = match &self.body {
            Some(b) => Some(b.clone()),
            None => None,
        };
        let audit = match &self.audit {
            Some(a) => Some(a.clone()),
            None => None,
        };
        let audit_meta = match &self.audit_meta {
            Some(m) => Some(m.clone()),
            None => None,
        };
        HttpRequest {
            method: self.method,
            url: self.url.clone(),
            headers: header_map_clone(&self.headers),
            body,
            audit,
            audit_meta,
        }
    }
}

/// `reqwest::Response`, carried opaquely until its body is read.
#[verifier::external_type_specification]
#[verifier::external_body]
pub struct ExReqwestResponse(reqwest::Response);

/// A response: its status and headers, and the transport's response from
/// which the body is read.
pub struct HttpResponse {
    status: StatusCode,
    headers: http::HeaderMap,
    inner: reqwest::Response,
}

impl HttpResponse {
    /// The status code.
    pub closed spec fn spec_status(&self) -> StatusCode {
        self.status
    }

    /// The header entries.
    pub closed spec fn spec_headers(&self) -> Seq<(Seq<char>, Seq<u8>)> {
        header_entries(self.headers)
    }

    /// The transport response.
    pub closed spec fn spec_inner(&self) -> reqwest::Response {
        self.inner
    }

    /// A response with the given status and headers over a transport response.
    pub fn from_parts(status: StatusCode, headers: http::HeaderMap, inner: reqwest::Response) -> (r:
        HttpResponse)
        ensures
            r.spec_status() == status,
            r.spec_headers() == header_entries(headers),
            r.spec_inner() == inner,
    {
        HttpResponse { status, headers, inner }
    }

    /// The status code.
    pub fn status(&self) -> (r: StatusCode)
        ensures
            r == self.spec_status(),
    {
        self.status
    }

    /// Get a single header value as a UTF-8 string (values that are not
    /// visible ASCII are dropped).
    pub fn header(&self, name: &str) -> (r: Option<String>)
        ensures
            r is Some == headers_get(self.spec_headers(), name@) is Some,
            r is Some ==> r->0@ == headers_get(self.spec_headers(), name@)->0,
    {
        match header_map_get(&self.headers, name) {
            Some(b) => visible_text(&b),
            None => None,
        }
    }

    /// The transport response, from which the body is read.
    pub fn into_inner(self) -> (r: reqwest::Response)
        ensures
            r == self.spec_inner(),
    {
        self.inner
    }
}


/// The media type of a JSON body.
pub open spec fn json_media_type() -> Seq<char> {
    seq!['a', 'p', 'p', 'l', 'i', 'c', 'a', 't', 'i', 'o', 'n', '/', 'j', 's', 'o', 'n']
}

/// The text before the message of a failed serialization.
pub open spec fn serialization_error_prefix() -> Seq<char> {
    seq![
        'S', 'e', 'r', 'i', 'a', 'l', 'i', 'z', 'a', 't', 'i', 'o', 'n', ' ', 'e', 'r', 'r', 'o',
        'r', ':', ' ',
    ]
}

/// The headers and body of a request with an optional JSON body, given the
/// outcome of serializing it (the bytes, or the serializer's error message):
/// with no body, the headers unchanged and no body; with serialized bytes,
/// those bytes and `content-type: application/json` set; when serializing
/// failed, an `UnsupportedMethod` error reading `Serialization error: {message}`.
pub fn json_request_parts(headers: Headers, body: Option<Result<Vec<u8>, String>>) -> (r: Result<
    (Headers, Option<Vec<u8>>),
    APIClientError,
>)
    requires
        body matches Some(Ok(_)) ==> headers@.len() < HEADER_MAP_SAFE_LEN,
    ensures
        body is None ==> (r matches Ok((h, b)) && h@ == headers@ && b is None),
        body matches Some(Ok(bytes)) ==> (r matches Ok((h, b)) && h@ == headers_after_insert(
            headers@,
            content_type_key(),
            json_media_type(),
        ) && b == Some(bytes)),
        body matches Some(Err(msg)) ==> (r matches Err(APIClientError::UnsupportedMethod(t))
            && t@ == serialization_error_prefix() + msg@),
{
    match body {
        None => Ok((headers, None)),
        Some(Ok(bytes)) => {
            proof {
                reveal_strlit("application/json");
                assert("application/json"@ =~= json_media_type());
            }
            Ok((headers.content_type("application/json"), Some(bytes)))
        },
        Some(Err(msg)) => {
            let mut text = String::new();
            proof {
                reveal_strlit("Serialization error: ");
                assert("Serialization error: "@ =~= serialization_error_prefix());
            }
            push_all(&mut text, "Serialization error: ");
            push_all(&mut text, msg.as_str());
            Err(APIClientError::UnsupportedMethod(text))
        },
    }
}

} // verus!
