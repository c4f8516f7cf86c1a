use vstd::prelude::*;
use crate::error::APIClientError;
use crate::method::Method;
use crate::request::HttpResponse;
use crate::status::StatusCode;

verus! {

/// How many times a request is sent again at most, after its first send.
pub const MAX_RETRIES: u32 = 3;

/// Gateway failures after which a request may be sent again (502, 503, 504).
pub open spec fn retryable_status_code(code: u16) -> bool {
    code == 502 || code == 503 || code == 504
}

/// Whether a request that has been sent `attempts` times may be sent again:
/// only `GET` requests, and only while at most [`MAX_RETRIES`] sends were made,
/// so that the first send is followed by at most [`MAX_RETRIES`] retries.
pub open spec fn may_retry(method: Method, attempts: u32) -> bool {
    attempts <= MAX_RETRIES && method == Method::Get
}

/// Whether the status is a transient gateway failure.
pub fn is_status_retryable(status: StatusCode) -> (r: bool)
    ensures
        r == retryable_status_code(status.0),
        r ==> status.0 == 502 || status.0 == 503 || status.0 == 504,
        status.0 == 502 || status.0 == 503 || status.0 == 504 ==> r,
{
    proof {
        lemma_only_gateway_failures_retried(Method::Get, status.0, 1);
    }
    let code = status.as_u16();
    code == 502 || code == 503 || code == 504
}

/// Whether to send the request again after this response.
pub fn should_retry_status(resp: &HttpResponse, method: Method, attempts: u32) -> (r: bool)
    ensures
        r == (may_retry(method, attempts) && retryable_status_code(resp.spec_status().0)),
        r ==> method == Method::Get && attempts <= 3 && (resp.spec_status().0 == 502
            || resp.spec_status().0 == 503 || resp.spec_status().0 == 504),
        method == Method::Get && attempts <= 3 && (resp.spec_status().0 == 502
            || resp.spec_status().0 == 503 || resp.spec_status().0 == 504) ==> r,
{
    proof {
        lemma_only_gateway_failures_retried(method, resp.spec_status().0, attempts);
    }
    attempts <= MAX_RETRIES && method == Method::Get && is_status_retryable(resp.status())
}

/// Whether an error is transient: a transport error that concerns the
/// connection, a timeout or the request; no other error is.
pub open spec fn is_transient(e: APIClientError) -> bool {
    match e {
        APIClientError::Request(t) => t.is_connect || t.is_timeout || t.is_request,
        _ => false,
    }
}

/// Whether an error is transient.
pub fn is_error_retryable(e: &APIClientError) -> (r: bool)
    ensures
        r == is_transient(*e),
{
    match e {
        APIClientError::Request(t) => t.is_connect || t.is_timeout || t.is_request,
        _ => false,
    }
}

/// Whether to send the request again after an error, given whether the
/// error is transient.
pub fn retry_after_error(transient: bool, method: Method, attempts: u32) -> (r: bool)
    ensures
        r == (may_retry(method, attempts) && transient),
        r == (method == Method::Get && attempts <= 3 && transient),
{
    proof {
        lemma_only_gateway_failures_retried(method, 0, attempts);
    }
    attempts <= MAX_RETRIES && method == Method::Get && transient
}

/// Whether to send the request again after this error: only a transient
/// error is retried, as [`retry_after_error`] decides.
pub fn should_retry_error(err: &APIClientError, method: Method, attempts: u32) -> (r: bool)
    ensures
        r == (may_retry(method, attempts) && is_transient(*err)),
        r ==> method == Method::Get && attempts <= 3 && err is Request,
{
    proof {
        lemma_only_gateway_failures_retried(method, 0, attempts);
    }
    let transient = is_error_retryable(err);
    retry_after_error(transient, method, attempts)
}

/// The pause before the next attempt, in milliseconds: 100 per attempt made.
pub fn retry_delay_ms(attempts: u32) -> (r: u64)
    requires
        attempts <= u32::MAX / 100,
    ensures
        r == 100 * attempts,
{
    let delay: u32 = 100 * attempts;
    delay as u64
}

/// The number of times a request is sent when the `k`-th send, for
/// `k >= attempt`, ends in an outcome that is retryable exactly when
/// `retryable(k)` holds.
pub open spec fn attempts_made(method: Method, retryable: spec_fn(int) -> bool, attempt: int) -> int
    decreases MAX_RETRIES + 1 - attempt,
{
    if 1 <= attempt <= MAX_RETRIES && may_retry(method, attempt as u32) && retryable(attempt) {
        attempts_made(method, retryable, attempt + 1)
    } else {
        attempt
    }
}

/// Whatever the outcomes, a request is sent at least once and at most
/// `1 + MAX_RETRIES` times, and a request other than `GET` exactly once; a
/// `GET` whose every send ends in a retryable outcome is sent exactly
/// `1 + MAX_RETRIES` times.
pub proof fn lemma_attempts_bounded(method: Method, retryable: spec_fn(int) -> bool, attempt: int)
    requires
        1 <= attempt <= MAX_RETRIES + 1,
    ensures
        attempt <= attempts_made(method, retryable, attempt) <= MAX_RETRIES + 1,
        method != Method::Get ==> attempts_made(method, retryable, attempt) == attempt,
        method == Method::Get && (forall|k: int| attempt <= k <= MAX_RETRIES ==> #[trigger] retryable(k))
            ==> attempts_made(method, retryable, attempt) == MAX_RETRIES + 1,
    decreases MAX_RETRIES + 1 - attempt,
{
    if 1 <= attempt <= MAX_RETRIES && may_retry(method, attempt as u32) && retryable(attempt) {
        lemma_attempts_bounded(method, retryable, attempt + 1);
    }
}


/// Only a `GET` answered with a gateway failure (502, 503 or 504) is sent
/// again, and only while at most three sends were made: every other status
/// (2xx, 3xx, 4xx, 500 and the rest) is returned as it is, and every other
/// method is sent once.
pub proof fn lemma_only_gateway_failures_retried(method: Method, code: u16, attempts: u32)
    ensures
        may_retry(method, attempts) && retryable_status_code(code) ==> (code == 502 || code == 503
            || code == 504),
        may_retry(method, attempts) ==> method == Method::Get && attempts <= 3,
        method == Method::Get && attempts <= 3 ==> may_retry(method, attempts),
        code == 502 || code == 503 || code == 504 ==> retryable_status_code(code),
        !(code == 502 || code == 503 || code == 504) ==> !retryable_status_code(code),
{
}

} // verus!
