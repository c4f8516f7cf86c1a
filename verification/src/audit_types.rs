use vstd::prelude::*;
use chrono::{Datelike, Timelike};
use crate::method::{method_name, Method};
use crate::text::{push_all, strip_both, trim_char};

verus! {

/// Configuration for auditing a single request.
#[derive(Debug)]
pub struct AuditConfig {
    /// Optional name for this audit entry.
    pub name: Option<String>,
    /// Whether to audit the response body. If false, the response can be streamed.
    pub audit_response_body: bool,
}

impl Clone for AuditConfig {
    fn clone(&self) -> (r: AuditConfig)
        ensures
            r == *self,
    {
        let name = match &self.name {
            Some(n) => Some(n.clone()),
            None => None,
        };
        AuditConfig { name, audit_response_body: self.audit_response_body }
    }
}

impl AuditConfig {
    /// Create a new audit configuration with the given name; the response body
    /// is audited.
    pub fn new(name: &str) -> (r: AuditConfig)
        ensures
            r.name is Some,
            r.name->0@ == name@,
            r.audit_response_body,
    {
        AuditConfig { name: Some(name.to_string()), audit_response_body: true }
    }

    /// Disable auditing of the response body, allowing it to be streamed.
    pub fn mute_response(self) -> (r: AuditConfig)
        ensures
            r.name == self.name,
            !r.audit_response_body,
    {
        let mut this = self;
        this.audit_response_body = false;
        this
    }
}

/// Lower-case hexadecimal digits.
pub open spec fn is_lower_hex(c: char) -> bool {
    ('0' <= c && c <= '9') || ('a' <= c && c <= 'f')
}

/// The hyphenated lower-case text of a UUID: 36 characters, hyphens at
/// positions 8, 13, 18 and 23 and hexadecimal digits elsewhere.
pub open spec fn is_hyphenated_uuid(s: Seq<char>) -> bool {
    &&& s.len() == 36
    &&& forall|i: int|
        0 <= i < 36 ==> if i == 8 || i == 13 || i == 18 || i == 23 {
            #[trigger] s[i] == '-'
        } else {
            is_lower_hex(s[i])
        }
}

/// A UTC calendar date and time of day, field by field as `chrono` gives them:
/// `nanosecond` reaches past a second only during a leap second.
pub struct UtcTime {
    pub year: i32,
    pub month: u32,
    pub day: u32,
    pub hour: u32,
    pub minute: u32,
    pub second: u32,
    pub nanosecond: u32,
}

/// Leap years of the proleptic Gregorian calendar.
pub open spec fn is_leap_year(y: int) -> bool {
    y % 4 == 0 && (y % 100 != 0 || y % 400 == 0)
}

/// The number of days of month `m` of year `y`.
pub open spec fn days_in_month(y: int, m: int) -> int {
    if m == 2 {
        if is_leap_year(y) {
            29
        } else {
            28
        }
    } else if m == 4 || m == 6 || m == 9 || m == 11 {
        30
    } else {
        31
    }
}

/// A time that `chrono::NaiveDateTime` can hold: a date of its year range and
/// a time of day, with a leap second only after second 59.
pub open spec fn is_valid_utc_time(t: UtcTime) -> bool {
    &&& -262143 <= t.year <= 262142
    &&& 1 <= t.month <= 12
    &&& 1 <= t.day <= days_in_month(t.year as int, t.month as int)
    &&& t.hour < 24
    &&& t.minute < 60
    &&& t.second < 60
    &&& t.nanosecond < 2_000_000_000
    &&& (t.nanosecond >= 1_000_000_000 ==> t.second == 59)
}

/// The digit character of `n`, for `n` from 0 to 9.
pub open spec fn digit_char(n: int) -> char {
    (('0' as u32) + n) as char
}

/// The decimal digits of `n`, zero-padded on the left to at least `width`
/// digits.
pub open spec fn padded_decimal(n: nat, width: nat) -> Seq<char>
    decreases width, n,
{
    if n < 10 && width <= 1 {
        seq![digit_char(n as int)]
    } else {
        padded_decimal(
            n / 10,
            if width > 0 {
                (width - 1) as nat
            } else {
                0
            },
        ) + seq![digit_char((n % 10) as int)]
    }
}

/// A number below 100 as two digits (`chrono`'s zero-padded `%m`, `%d`, `%y`,
/// `%H`, `%M`, `%S`).
pub open spec fn two_digits(n: int) -> Seq<char> {
    padded_decimal(n as nat, 2)
}

/// `%Y`: the year zero-padded to four digits, with a sign before a year
/// outside 0 to 9999.
pub open spec fn year_text(y: int) -> Seq<char> {
    if 0 <= y <= 9999 {
        padded_decimal(y as nat, 4)
    } else if y > 9999 {
        seq!['+'] + padded_decimal(y as nat, 4)
    } else {
        seq!['-'] + padded_decimal((-y) as nat, 4)
    }
}

/// The second that `%S` shows: 60 during a leap second.
pub open spec fn shown_second(t: UtcTime) -> int {
    t.second + t.nanosecond / 1_000_000_000
}

/// The time rendered with `%Y/%m/%d`.
pub open spec fn date_text(t: UtcTime) -> Seq<char> {
    year_text(t.year as int) + seq!['/'] + two_digits(t.month as int) + seq!['/'] + two_digits(
        t.day as int,
    )
}

/// The time rendered with `%y%m%d_%H%M%S`, `%y` being the year modulo 100.
pub open spec fn stamp_text(t: UtcTime) -> Seq<char> {
    two_digits((t.year as int) % 100) + two_digits(t.month as int) + two_digits(t.day as int)
        + seq!['_'] + two_digits(t.hour as int) + two_digits(t.minute as int) + two_digits(
        shown_second(t),
    )
}

/// `Utc::now`, as the fields of the UTC calendar date and time it denotes.
/// Which time it is depends on the clock alone, and nothing more is known of
/// it here (it panics when the clock is set before the Unix epoch).
#[verifier::external_body]
fn utc_now() -> (r: UtcTime)
    ensures
        is_valid_utc_time(r),
{
    let t = chrono::Utc::now().naive_utc();
    UtcTime {
        year: t.year(),
        month: t.month(),
        day: t.day(),
        hour: t.hour(),
        minute: t.minute(),
        second: t.second(),
        nanosecond: t.nanosecond(),
    }
}

/// `NaiveDateTime::format` of the time with one of the two patterns of the
/// audit paths, rendered to a string. `%Y` is the year zero-padded to four
/// digits (signed outside 0 to 9999), `%y` the year modulo 100, and `%m`, `%d`,
/// `%H`, `%M`, `%S` are zero-padded to two digits.
#[verifier::external_body]
fn format_utc(t: &UtcTime, pattern: &str) -> (r: String)
    requires
        is_valid_utc_time(*t),
        pattern@ == "%Y/%m/%d"@ || pattern@ == "%y%m%d_%H%M%S"@,
    ensures
        pattern@ == "%Y/%m/%d"@ ==> r@ == date_text(*t),
        pattern@ == "%y%m%d_%H%M%S"@ ==> r@ == stamp_text(*t),
{
    let date = chrono::NaiveDate::from_ymd_opt(t.year, t.month, t.day).expect("a valid date");
    let time = date.and_hms_nano_opt(t.hour, t.minute, t.second, t.nanosecond).expect("a valid time");
    time.format(pattern).to_string()
}

proof fn lemma_padded_decimal_len(n: nat, width: nat)
    ensures
        padded_decimal(n, width).len() >= width,
        padded_decimal(n, width).len() >= 1,
        n < 100 && width == 2 ==> padded_decimal(n, width).len() == 2,
    decreases width, n,
{
    if !(n < 10 && width <= 1) {
        let w2: nat = if width > 0 {
            (width - 1) as nat
        } else {
            0
        };
        lemma_padded_decimal_len(n / 10, w2);
        if n < 100 && width == 2 {
            assert(n / 10 < 10);
            assert(padded_decimal(n / 10, 1).len() == 1);
        }
    }
}

/// The rendered date has at least ten characters and the stamp exactly
/// thirteen.
proof fn lemma_time_text_len(t: UtcTime)
    requires
        is_valid_utc_time(t),
    ensures
        date_text(t).len() >= 10,
        stamp_text(t).len() == 13,
{
    let y = t.year as int;
    if 0 <= y <= 9999 {
        lemma_padded_decimal_len(y as nat, 4);
    } else if y > 9999 {
        lemma_padded_decimal_len(y as nat, 4);
    } else {
        lemma_padded_decimal_len((-y) as nat, 4);
    }
    lemma_padded_decimal_len((y % 100) as nat, 2);
    lemma_padded_decimal_len(t.month as nat, 2);
    lemma_padded_decimal_len(t.day as nat, 2);
    lemma_padded_decimal_len(t.hour as nat, 2);
    lemma_padded_decimal_len(t.minute as nat, 2);
    assert(shown_second(t) <= 60);
    lemma_padded_decimal_len(shown_second(t) as nat, 2);
}

/// `Uuid::new_v4` rendered to its hyphenated lower-case text. The digits are
/// random; only the shape of the text is stated.
#[verifier::external_body]
fn uuid_v4_text() -> (r: String)
    ensures
        is_hyphenated_uuid(r@),
{
    uuid::Uuid::new_v4().to_string()
}

/// Metadata for auditing a request/response pair.
#[derive(Debug)]
pub struct AuditMetadata {
    pub date_path: String,
    pub timestamp: String,
    pub request_id: String,
    pub uri_path: String,
    pub audit_name: String,
}

impl Clone for AuditMetadata {
    fn clone(&self) -> (r: AuditMetadata)
        ensures
            r == *self,
    {
        AuditMetadata {
            date_path: self.date_path.clone(),
            timestamp: self.timestamp.clone(),
            request_id: self.request_id.clone(),
            uri_path: self.uri_path.clone(),
            audit_name: self.audit_name.clone(),
        }
    }
}

/// The relative path of an audit file:
/// `{date_path}/{audit_name}/{uri_path}/{METHOD}_{timestamp}_{request_id}_{suffix}.txt`.
pub open spec fn audit_path(
    date_path: Seq<char>,
    audit_name: Seq<char>,
    uri_path: Seq<char>,
    method: Method,
    timestamp: Seq<char>,
    request_id: Seq<char>,
    suffix: Seq<char>,
) -> Seq<char> {
    date_path + seq!['/'] + audit_name + seq!['/'] + uri_path + seq!['/'] + method_name(method)
        + seq!['_'] + timestamp + seq!['_'] + request_id + seq!['_'] + suffix + seq![
        '.',
        't',
        'x',
        't',
    ]
}

impl AuditMetadata {
    /// Metadata from its parts: the request id is the last twelve digits of
    /// the hyphenated UUID text, and the URI path is `uri` without leading and
    /// trailing slashes.
    pub fn from_parts(
        audit_name: &str,
        uri: &str,
        date_path: String,
        timestamp: String,
        uuid_text: &str,
    ) -> (r: AuditMetadata)
        requires
            is_hyphenated_uuid(uuid_text@),
        ensures
            r.audit_name@ == audit_name@,
            r.uri_path@ == strip_both(uri@, '/'),
            r.date_path == date_path,
            r.timestamp == timestamp,
            r.request_id@ == uuid_text@.subrange(24, 36),
    {
        proof {
            assert(vstd::string::is_ascii(uuid_text)) by {
                assert forall|i: int| 0 <= i < uuid_text@.len() implies '\0' <= #[trigger] uuid_text@[i] <= '\u{7f}' by {
                    assert(i == 8 || i == 13 || i == 18 || i == 23 || is_lower_hex(uuid_text@[i]));
                }
            }
        }
        let request_id = uuid_text.substring_ascii(24, 36).to_string();
        AuditMetadata {
            date_path,
            timestamp,
            request_id,
            uri_path: trim_char(uri, '/'),
            audit_name: audit_name.to_string(),
        }
    }

    /// Metadata for a request made now: the date path and the timestamp are
    /// one current UTC time rendered as `%Y/%m/%d` and `%y%m%d_%H%M%S`, and
    /// the request id is the last twelve hexadecimal digits of a fresh random
    /// UUID.
    pub fn new(audit_name: &str, uri: &str) -> (r: AuditMetadata)
        ensures
            r.audit_name@ == audit_name@,
            r.uri_path@ == strip_both(uri@, '/'),
            exists|t: UtcTime|
                is_valid_utc_time(t) && #[trigger] date_text(t) == r.date_path@ && stamp_text(t)
                    == r.timestamp@,
            r.date_path@.len() >= 10,
            r.timestamp@.len() == 13,
            r.request_id@.len() == 12,
            forall|i: int| 0 <= i < 12 ==> is_lower_hex(#[trigger] r.request_id@[i]),
    {
        let now = utc_now();
        let date_path = format_utc(&now, "%Y/%m/%d");
        let timestamp = format_utc(&now, "%y%m%d_%H%M%S");
        proof {
            lemma_time_text_len(now);
        }
        let uuid_text = uuid_v4_text();
        let r = AuditMetadata::from_parts(audit_name, uri, date_path, timestamp, uuid_text.as_str());
        assert forall|i: int| 0 <= i < 12 implies is_lower_hex(#[trigger] r.request_id@[i]) by {
            assert(r.request_id@[i] == uuid_text@[24 + i]);
        }
        assert(date_text(now) == r.date_path@);
        r
    }

    /// The relative path of the audit file for this request with the given
    /// suffix (`request` or `response`).
    pub fn path(&self, method: Method, suffix: &str) -> (r: String)
        ensures
            r@ == audit_path(
                self.date_path@,
                self.audit_name@,
                self.uri_path@,
                method,
                self.timestamp@,
                self.request_id@,
                suffix@,
            ),
    {
        let mut out = String::new();
        proof {
            reveal_strlit("/");
            reveal_strlit("_");
            reveal_strlit(".txt");
        }
        push_all(&mut out, self.date_path.as_str());
        push_all(&mut out, "/");
        push_all(&mut out, self.audit_name.as_str());
        push_all(&mut out, "/");
        push_all(&mut out, self.uri_path.as_str());
        push_all(&mut out, "/");
        push_all(&mut out, method.as_str());
        push_all(&mut out, "_");
        push_all(&mut out, self.timestamp.as_str());
        push_all(&mut out, "_");
        push_all(&mut out, self.request_id.as_str());
        push_all(&mut out, "_");
        push_all(&mut out, suffix);
        push_all(&mut out, ".txt");
        assert(out@ =~= audit_path(
            self.date_path@,
            self.audit_name@,
            self.uri_path@,
            method,
            self.timestamp@,
            self.request_id@,
            suffix@,
        ));
        out
    }
}

} // verus!
