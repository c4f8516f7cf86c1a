//! An HTTP API client library: request descriptions, header handling,
//! audit trails rendered as `curl` commands, and retry decisions.

pub mod audit;
mod audit_types;
pub mod builder;
mod curl;
mod endpoint;
mod error;
mod headers;
mod method;
mod request;
pub mod retry;
mod shell;
mod status;
pub mod text;
pub mod types;

pub use crate::builder::APIClientBuilder;
pub use crate::endpoint::build_url;
pub use crate::types::{
    APIClientError, AuditConfig, AuditMetadata, Headers, HttpRequest, HttpResponse, Method,
    StatusCode,
};
