use vstd::prelude::*;

verus! {

/// `reqwest::Error`, carried opaquely.
#[verifier::external_type_specification]
#[verifier::external_body]
pub struct ExReqwestError(reqwest::Error);

/// `url::ParseError`, carried opaquely.
#[verifier::external_type_specification]
#[verifier::external_body]
pub struct ExUrlParseError(url::ParseError);

/// `http::Error`, carried opaquely.
#[verifier::external_type_specification]
#[verifier::external_body]
pub struct ExHttpError(http::Error);

/// `std::io::Error`, carried opaquely.
#[verifier::external_type_specification]
#[verifier::external_body]
pub struct ExIoError(std::io::Error);

/// A failed HTTP exchange: the transport's error, with the kinds of failure
/// it reports (`reqwest::Error::is_connect`, `is_timeout` and `is_request`)
/// held as plain values.
#[derive(Debug)]
pub struct TransportError {
    pub error: reqwest::Error,
    /// The error concerns connecting to the server.
    pub is_connect: bool,
    /// The error is a timeout.
    pub is_timeout: bool,
    /// The error concerns sending the request.
    pub is_request: bool,
}

/// Errors reported by the client.
#[derive(Debug)]
pub enum APIClientError {
    /// The HTTP request failed.
    Request(TransportError),
    /// The URL could not be parsed.
    Url(url::ParseError),
    /// The concurrency limiter was closed.
    ConcurrencyClosed,
    /// The HTTP method is not supported, or a body could not be serialized.
    UnsupportedMethod(String),
    /// An internal HTTP error occurred while rebuilding a response.
    InternalHttp(http::Error),
    /// An I/O error occurred.
    Io(std::io::Error),
}

} // verus!
