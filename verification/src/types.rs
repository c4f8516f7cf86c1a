//! The request, response and configuration types of the client.

pub use crate::audit_types::{
    audit_path, date_text, days_in_month, digit_char, is_hyphenated_uuid, is_leap_year, is_lower_hex,
    is_valid_utc_time, padded_decimal, shown_second, stamp_text, two_digits, year_text, AuditConfig,
    AuditMetadata, UtcTime,
};
pub use crate::endpoint::{joined_url, pairs_text, url_accepts, url_with_query};
pub use crate::error::{APIClientError, TransportError};
pub use crate::headers::{
    authorization_key, bearer_prefix, canonical_header_name, content_type_key, distinct_names,
    has_name, header_entries, headers_after_insert, headers_get, insert_entry, is_header_name_char,
    is_header_value_char, is_visible_ascii, is_visible_text, lemma_headers_get_after_insert,
    lemma_canonical_name_is_lower_case_key, lemma_headers_insert_overwrites, lemma_headers_insert_rejected,
    lemma_insert_entry_keeps_distinct, lookup_key, lookup_value,
    valid_header_value, value_text, Headers, HEADER_MAP_SAFE_LEN,
};
pub use crate::method::{lemma_lower_names_are_methods, lemma_parse_method_name, method_from_lower, method_key, method_name, parses_to, Method};
pub use crate::request::{
    json_media_type, json_request_parts, serialization_error_prefix, HttpRequest, HttpResponse,
};
pub use crate::status::{decimal_digits, digits_value, lemma_decimal_digits_read_back, StatusCode};
