use vstd::prelude::*;
use crate::audit_types::{
    audit_path, date_text, is_lower_hex, is_valid_utc_time, stamp_text, AuditConfig, AuditMetadata,
    UtcTime,
};
use crate::curl::lossy_text;
use crate::headers::header_entries;
use crate::method::Method;
use crate::request::HttpRequest;
use crate::text::{push_all, push_char, strip_both, strip_leading, strip_trailing, trim_end_char, trim_start_char};

pub use crate::curl::{
    curl_args, curl_command, curl_words, header_args, header_line, header_words, join_words,
    lemma_curl_command_words, reads_as, request_to_curl, shown_value, utf8_lossy,
};
pub use crate::shell::{
    all_shell_safe, is_shell_safe_char, lemma_shell_quote_bare_only_plain_words,
    lemma_shell_quote_reads_back, prepend_char, quoted_body,
    quoted_char, shell_quote, shell_quoted, shell_read, shell_words, split_words,
};

verus! {

/// What `serde_json` makes of `body` when it parses it as a JSON value and
/// prints that value pretty (two-space indentation): `None` when it is not JSON.
pub uninterp spec fn json_pretty(body: Seq<u8>) -> Option<Seq<char>>;

/// `serde_json::from_slice::<Value>` followed by `serde_json::to_string_pretty`
/// of the parsed value: the pretty-printed JSON, or `None` when either step fails.
#[verifier::external_body]
fn json_pretty_text(body: &[u8]) -> (r: Option<String>)
    ensures
        r is Some == json_pretty(body@) is Some,
        r is Some ==> r->0@ == json_pretty(body@)->0,
{
    match serde_json::from_slice::<serde_json::Value>(body) {
        Ok(v) => serde_json::to_string_pretty(&v).ok(),
        Err(_) => None,
    }
}

/// How a response body is rendered for auditing.
pub open spec fn pretty_body_text(body: Seq<u8>) -> Seq<char> {
    match json_pretty(body) {
        Some(t) => t,
        None => utf8_lossy(body),
    }
}

/// Render a response body for auditing: pretty-printed when it is valid JSON,
/// otherwise the raw bytes as a lossy UTF-8 string.
pub fn pretty_body(body: &[u8]) -> (r: String)
    ensures
        r@ == pretty_body_text(body@),
        json_pretty(body@) is None && vstd::utf8::valid_utf8(body@) ==> r@
            == vstd::utf8::decode_utf8(body@),
{
    match json_pretty_text(body) {
        Some(t) => t,
        None => lossy_text(body),
    }
}

/// The body of a request as the `curl` command shows it.
pub open spec fn request_body_bytes(req: HttpRequest) -> Option<Seq<u8>> {
    match req.body {
        Some(b) => Some(b@),
        None => None,
    }
}

/// The `curl` command that reproduces a request, with the given cookies.
pub fn build_curl(req: &HttpRequest, cookies: Option<&str>) -> (r: String)
    ensures
        r@ == curl_command(
            req.url@,
            req.method,
            header_entries(req.headers),
            request_body_bytes(*req),
            match cookies {
                Some(c) => Some(c@),
                None => None,
            },
        ),
{
    let body: Option<&[u8]> = match &req.body {
        Some(b) => Some(b.as_slice()),
        None => None,
    };
    request_to_curl(req.url.as_str(), req.method, &req.headers, body, cookies)
}

/// Whether the response body of a request is audited: unless its audit
/// configuration mutes it.
pub open spec fn audits_response_body(audit: Option<AuditConfig>) -> bool {
    match audit {
        Some(a) => a.audit_response_body,
        None => true,
    }
}

/// Whether the response body of the request is audited.
pub fn audit_response_body(req: &HttpRequest) -> (r: bool)
    ensures
        r == audits_response_body(req.audit),
        req.audit matches Some(a) ==> r == a.audit_response_body,
        req.audit is None ==> r,
{
    proof {
        if req.audit is Some {
            lemma_response_body_audited_unless_muted(req.audit->0);
        }
    }
    match &req.audit {
        Some(a) => a.audit_response_body,
        None => true,
    }
}

/// The prefix of audit log lines: `[audit:{name}]` for a named audit entry,
/// `[audit]` otherwise.
pub open spec fn audit_log_prefix(audit: Option<AuditConfig>) -> Seq<char> {
    match audit {
        Some(a) => match a.name {
            Some(n) => seq!['[', 'a', 'u', 'd', 'i', 't', ':'] + n@ + seq![']'],
            None => seq!['[', 'a', 'u', 'd', 'i', 't', ']'],
        },
        None => seq!['[', 'a', 'u', 'd', 'i', 't', ']'],
    }
}

/// The prefix of the audit log lines of a request.
pub fn log_prefix(audit: &Option<AuditConfig>) -> (r: String)
    ensures
        r@ == audit_log_prefix(*audit),
{
    let mut out = String::new();
    proof {
        reveal_strlit("[audit:");
        reveal_strlit("[audit]");
    }
    match audit {
        Some(a) => match &a.name {
            Some(n) => {
                push_all(&mut out, "[audit:");
                push_all(&mut out, n.as_str());
                push_char(&mut out, ']');
                assert(out@ =~= audit_log_prefix(*audit));
                return out;
            },
            None => {},
        },
        None => {},
    }
    push_all(&mut out, "[audit]");
    assert(out@ =~= audit_log_prefix(*audit));
    out
}

/// The metadata a request is audited under: only a named audit entry has
/// metadata, made for `uri` at the time of the call.
pub fn metadata_for(audit: &Option<AuditConfig>, uri: &str) -> (r: Option<AuditMetadata>)
    ensures
        r is Some == (audit matches Some(a) && a.name is Some),
        r is Some ==> r->0.audit_name@ == audit->0.name->0@ && r->0.uri_path@ == strip_both(uri@, '/'),
        r is Some ==> exists|t: UtcTime|
            is_valid_utc_time(t) && #[trigger] date_text(t) == r->0.date_path@ && stamp_text(t)
                == r->0.timestamp@,
        r is Some ==> r->0.date_path@.len() >= 10 && r->0.timestamp@.len() == 13,
        r is Some ==> r->0.request_id@.len() == 12 && forall|i: int|
            0 <= i < 12 ==> is_lower_hex(#[trigger] r->0.request_id@[i]),
{
    match audit {
        Some(a) => match &a.name {
            Some(name) => {
                let m = AuditMetadata::new(name.as_str(), uri);
                assert(m.audit_name@ == name@);
                Some(m)
            },
            None => None,
        },
        None => None,
    }
}

/// Where one half of an audit record goes: to the auditor under a path, or to
/// the log.
#[derive(Debug, PartialEq, Eq)]
pub enum AuditSink {
    /// Written by the auditor under this relative path.
    Auditor(String),
    /// Written to the log.
    Log,
}

/// The sink of an audit record: the auditor, under the path that the request's
/// metadata gives for `suffix`, when there is both an auditor and metadata;
/// the log otherwise.
pub open spec fn sink_for(
    has_auditor: bool,
    meta: Option<AuditMetadata>,
    method: Method,
    suffix: Seq<char>,
    sink: AuditSink,
) -> bool {
    match meta {
        Some(m) if has_auditor => sink matches AuditSink::Auditor(p) && p@ == audit_path(
            m.date_path@,
            m.audit_name@,
            m.uri_path@,
            method,
            m.timestamp@,
            m.request_id@,
            suffix,
        ),
        _ => sink is Log,
    }
}

/// The suffix of the audit file of a request.
pub open spec fn request_suffix() -> Seq<char> {
    seq!['r', 'e', 'q', 'u', 'e', 's', 't']
}

/// The suffix of the audit file of a response.
pub open spec fn response_suffix() -> Seq<char> {
    seq!['r', 'e', 's', 'p', 'o', 'n', 's', 'e']
}

fn sink_of(has_auditor: bool, meta: &Option<AuditMetadata>, method: Method, suffix: &str) -> (r:
    AuditSink)
    ensures
        sink_for(has_auditor, *meta, method, suffix@, r),
{
    match meta {
        Some(m) => {
            if has_auditor {
                AuditSink::Auditor(m.path(method, suffix))
            } else {
                AuditSink::Log
            }
        },
        None => AuditSink::Log,
    }
}

/// The request and the response of one request are audited alike: both go to
/// the auditor or both to the log, and under an auditor to two different files
/// of the same directory, which differ only in their suffix.
pub proof fn lemma_audit_records_go_to_distinct_files(
    has_auditor: bool,
    meta: Option<AuditMetadata>,
    method: Method,
    request_sink: AuditSink,
    response_sink: AuditSink,
)
    requires
        sink_for(has_auditor, meta, method, request_suffix(), request_sink),
        sink_for(has_auditor, meta, method, response_suffix(), response_sink),
    ensures
        (request_sink is Auditor) == (response_sink is Auditor),
        request_sink is Auditor ==> request_sink->Auditor_0@ != response_sink->Auditor_0@,
{
    match meta {
        Some(m) => {
            if has_auditor {
                let p = request_sink->Auditor_0@;
                let q = response_sink->Auditor_0@;
                assert(p.len() + 1 == q.len());
            }
        },
        None => {},
    }
}

/// One half of an audit record: where it goes and what it says.
#[derive(Debug)]
pub struct AuditRecord {
    pub sink: AuditSink,
    pub text: String,
}

/// The audit record of a request: the `curl` command that reproduces it,
/// written under the request path when there is an auditor and metadata.
pub fn plan_request_audit(has_auditor: bool, req: &HttpRequest, cookies: Option<&str>) -> (r:
    AuditRecord)
    ensures
        sink_for(has_auditor, req.audit_meta, req.method, request_suffix(), r.sink),
        r.text@ == curl_command(
            req.url@,
            req.method,
            header_entries(req.headers),
            request_body_bytes(*req),
            match cookies {
                Some(c) => Some(c@),
                None => None,
            },
        ),
{
    proof {
        reveal_strlit("request");
        assert("request"@ =~= request_suffix());
    }
    let sink = sink_of(has_auditor, &req.audit_meta, req.method, "request");
    AuditRecord { sink, text: build_curl(req, cookies) }
}

/// The audit record of a response body: the rendered body, written under the
/// response path when there is an auditor and metadata.
pub fn plan_response_audit(
    has_auditor: bool,
    meta: &Option<AuditMetadata>,
    method: Method,
    body: &[u8],
) -> (r: AuditRecord)
    ensures
        sink_for(has_auditor, *meta, method, response_suffix(), r.sink),
        r.text@ == pretty_body_text(body@),
{
    proof {
        reveal_strlit("response");
        assert("response"@ =~= response_suffix());
    }
    let sink = sink_of(has_auditor, meta, method, "response");
    AuditRecord { sink, text: pretty_body(body) }
}

/// Auditor that writes audit data to object storage through `client`.
pub struct ObjectStorageAuditor<C> {
    client: C,
    base_path: String,
}

impl<C> ObjectStorageAuditor<C> {
    /// The base path under which audit files are stored.
    pub closed spec fn spec_base_path(&self) -> Seq<char> {
        self.base_path@
    }

    /// The client that stores the files.
    pub closed spec fn spec_client(&self) -> C {
        self.client
    }

    /// Create an auditor with a given `base_path`, without its trailing slashes.
    pub fn new(client: C, base_path: &str) -> (r: ObjectStorageAuditor<C>)
        ensures
            r.spec_base_path() == strip_trailing(base_path@, '/'),
            r.spec_client() == client,
    {
        ObjectStorageAuditor { client, base_path: trim_end_char(base_path, '/') }
    }

    /// Return the full object storage path for a given relative path: the base
    /// path, a slash, and `path` without its leading slashes.
    pub fn full_path(&self, path: &str) -> (r: String)
        ensures
            r@ == self.spec_base_path() + seq!['/'] + strip_leading(path@, '/'),
    {
        let mut out = String::new();
        push_all(&mut out, self.base_path.as_str());
        push_char(&mut out, '/');
        let rest = trim_start_char(path, '/');
        push_all(&mut out, rest.as_str());
        out
    }

    /// The client that stores the files.
    pub fn client(&self) -> (r: &C)
        ensures
            *r == self.spec_client(),
    {
        &self.client
    }
}


/// The response body is audited unless the request's audit configuration
/// mutes it: it is audited with no configuration and with any configuration
/// that `AuditConfig::new` makes (which leaves `audit_response_body` set), and
/// not after `mute_response` (which clears it).
pub proof fn lemma_response_body_audited_unless_muted(a: AuditConfig)
    ensures
        audits_response_body(None),
        audits_response_body(Some(a)) == a.audit_response_body,
        a.audit_response_body ==> audits_response_body(Some(a)),
        !a.audit_response_body ==> !audits_response_body(Some(a)),
{
}

} // verus!
