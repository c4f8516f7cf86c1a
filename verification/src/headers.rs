use vstd::prelude::*;
use vstd::utf8::encode_utf8;
use crate::text::{ascii_lower, push_all};

verus! {

/// `http::HeaderMap`, the map that holds the headers of a request or a response.
#[verifier::external_type_specification]
#[verifier::external_body]
#[verifier::reject_recursive_types(T)]
pub struct ExHeaderMap<T>(http::HeaderMap<T>);

/// `http::HeaderValue`, the value type that a header map holds.
#[verifier::external_type_specification]
#[verifier::external_body]
pub struct ExHeaderValue(http::HeaderValue);

/// The entries of a header map in the order in which `HeaderMap::iter` yields
/// them: each name in its canonical (lower-case) form with the bytes of one value.
pub uninterp spec fn header_entries(map: http::HeaderMap) -> Seq<(Seq<char>, Seq<u8>)>;

/// The number of entries below which `HeaderMap::insert` never has to grow its
/// table past the size at which it panics: a map of fewer entries whose hash
/// table has reached its largest size (2^15 slots) switches to safe hashing
/// rather than grow when collisions pile up, since it holds fewer than a fifth
/// of that size.
pub const HEADER_MAP_SAFE_LEN: usize = 6554;

/// Characters that `http` accepts in a header name (RFC 9110 `tchar`).
pub open spec fn is_header_name_char(c: char) -> bool {
    ||| ('a' <= c && c <= 'z')
    ||| ('A' <= c && c <= 'Z')
    ||| ('0' <= c && c <= '9')
    ||| c == '!' || c == '#' || c == '$' || c == '%' || c == '&' || c == '\'' || c == '*'
    ||| c == '+' || c == '-' || c == '.' || c == '^' || c == '_' || c == '`' || c == '|'
    ||| c == '~'
}

/// The canonical form of a header name, or `None` when `http` rejects it:
/// names of 1 to 65535 token characters are accepted and lower-cased.
pub open spec fn canonical_header_name(s: Seq<char>) -> Option<Seq<char>> {
    if 1 <= s.len() <= 65535 && forall|i: int| 0 <= i < s.len() ==> is_header_name_char(
        #[trigger] s[i],
    ) {
        Some(ascii_lower(s))
    } else {
        None
    }
}

/// Characters whose UTF-8 bytes `http` accepts in a header value: anything
/// but ASCII control characters other than horizontal tab.
pub open spec fn is_header_value_char(c: char) -> bool {
    c == '\t' || (c as u32 >= 32 && c as u32 != 127)
}

/// Whether `http` accepts `s` as a header value.
pub open spec fn valid_header_value(s: Seq<char>) -> bool {
    forall|i: int| 0 <= i < s.len() ==> is_header_value_char(#[trigger] s[i])
}

/// No name occurs twice among the entries.
pub open spec fn distinct_names(es: Seq<(Seq<char>, Seq<u8>)>) -> bool {
    forall|i: int, j: int| 0 <= i < j < es.len() ==> (#[trigger] es[i]).0 != (#[trigger] es[j]).0
}

/// Whether some entry carries `name`.
pub open spec fn has_name(es: Seq<(Seq<char>, Seq<u8>)>, name: Seq<char>) -> bool {
    exists|i: int| 0 <= i < es.len() && (#[trigger] es[i]).0 == name
}

/// The value of the first entry named `name`.
pub open spec fn lookup_value(es: Seq<(Seq<char>, Seq<u8>)>, name: Seq<char>) -> Option<Seq<u8>>
    decreases es.len(),
{
    if es.len() == 0 {
        None
    } else if es[0].0 == name {
        Some(es[0].1)
    } else {
        lookup_value(es.drop_first(), name)
    }
}

/// The entries after inserting `name` with `value` into entries whose names are
/// distinct: an entry of that name has its value replaced in place, otherwise
/// the pair is appended.
pub open spec fn insert_entry(es: Seq<(Seq<char>, Seq<u8>)>, name: Seq<char>, value: Seq<u8>) -> Seq<
    (Seq<char>, Seq<u8>),
> {
    if has_name(es, name) {
        let i = choose|i: int| 0 <= i < es.len() && (#[trigger] es[i]).0 == name;
        es.update(i, (name, value))
    } else {
        es.push((name, value))
    }
}

/// What `HeaderMap::get` finds for the key `key`: nothing when `key` is not a
/// valid header name, otherwise the first value under its canonical form.
pub open spec fn lookup_key(es: Seq<(Seq<char>, Seq<u8>)>, key: Seq<char>) -> Option<Seq<u8>> {
    match canonical_header_name(key) {
        Some(name) => lookup_value(es, name),
        None => None,
    }
}

/// Bytes that `HeaderValue::to_str` accepts: visible ASCII and horizontal tab.
pub open spec fn is_visible_ascii(b: u8) -> bool {
    (32 <= b && b < 127) || b == 9
}

/// The text of a header value when all its bytes are visible ASCII
/// (`HeaderValue::to_str`), otherwise `None`.
pub open spec fn value_text(b: Seq<u8>) -> Option<Seq<char>> {
    if forall|i: int| 0 <= i < b.len() ==> is_visible_ascii(#[trigger] b[i]) {
        Some(b.map_values(|x: u8| x as char))
    } else {
        None
    }
}

/// `HeaderMap::new`: an empty map.
#[verifier::external_body]
fn header_map_new() -> (r: http::HeaderMap)
    ensures
        header_entries(r) == Seq::<(Seq<char>, Seq<u8>)>::empty(),
{
    http::HeaderMap::new()
}

/// `HeaderMap::clone`: a map with the same entries in the same order.
#[verifier::external_body]
pub(crate) fn header_map_clone(map: &http::HeaderMap) -> (r: http::HeaderMap)
    ensures
        header_entries(r) == header_entries(*map),
{
    map.clone()
}

/// `HeaderMap::len`: the number of values, one per entry.
#[verifier::external_body]
fn header_map_len(map: &http::HeaderMap) -> (r: usize)
    ensures
        r == header_entries(*map).len(),
{
    map.len()
}

/// `HeaderName::try_from(&str)`, reporting whether the name is accepted.
#[verifier::external_body]
fn header_name_accepts(key: &str) -> (r: bool)
    ensures
        r == (canonical_header_name(key@) is Some),
{
    http::header::HeaderName::try_from(key).is_ok()
}

/// `HeaderValue::try_from(&str)`, reporting whether the value is accepted.
#[verifier::external_body]
fn header_value_accepts(value: &str) -> (r: bool)
    ensures
        r == valid_header_value(value@),
{
    http::header::HeaderValue::try_from(value).is_ok()
}

/// `HeaderMap::insert` of a name and a value given as text: the name is
/// stored in canonical form with the UTF-8 bytes of the value, replacing the
/// value of an entry of that name in place or appending a new entry.
/// Nothing is said of maps that hold a name twice (those come only from
/// `append`), and the length bound keeps the table below the size at which
/// `insert` panics.
#[verifier::external_body]
fn header_map_insert(map: &mut http::HeaderMap, name: &str, value: &str)
    requires
        canonical_header_name(name@) is Some,
        valid_header_value(value@),
        distinct_names(header_entries(*old(map))),
        header_entries(*old(map)).len() < HEADER_MAP_SAFE_LEN,
    ensures
        header_entries(*final(map)) == insert_entry(
            header_entries(*old(map)),
            canonical_header_name(name@)->0,
            encode_utf8(value@),
        ),
{
    if let (Ok(n), Ok(v)) = (
        http::header::HeaderName::try_from(name),
        http::header::HeaderValue::try_from(value),
    ) {
        map.insert(n, v);
    }
}

/// `HeaderMap::get` with a text key, handing out the bytes of the first value
/// under the key's canonical form.
#[verifier::external_body]
pub(crate) fn header_map_get(map: &http::HeaderMap, key: &str) -> (r: Option<Vec<u8>>)
    ensures
        r is Some == lookup_key(header_entries(*map), key@) is Some,
        r is Some ==> r->0@ == lookup_key(header_entries(*map), key@)->0,
{
    match map.get(key) {
        Some(v) => Some(v.as_bytes().to_vec()),
        None => None,
    }
}

/// `HeaderMap::iter`, handing out each name as text and each value as bytes,
/// in iteration order.
#[verifier::external_body]
pub(crate) fn header_map_items(map: &http::HeaderMap) -> (r: Vec<(String, Vec<u8>)>)
    ensures
        r@.len() == header_entries(*map).len(),
        forall|i: int|
            0 <= i < r@.len() ==> (#[trigger] r@[i]).0@ == header_entries(*map)[i].0 && r@[i].1@
                == header_entries(*map)[i].1,
{
    map.iter().map(|(n, v)| (n.as_str().to_owned(), v.as_bytes().to_vec())).collect()
}

/// The text of a header value whose bytes are all visible ASCII.
pub(crate) fn visible_text(b: &Vec<u8>) -> (r: Option<String>)
    ensures
        r is Some == value_text(b@) is Some,
        r is Some ==> r->0@ == value_text(b@)->0,
{
    let mut out = String::new();
    let mut i: usize = 0;
    while i < b.len()
        invariant
            i <= b@.len(),
            forall|j: int| 0 <= j < i ==> is_visible_ascii(#[trigger] b@[j]),
            out@ == b@.take(i as int).map_values(|x: u8| x as char),
        decreases b@.len() - i,
    {
        let x = b[i];
        if !((32 <= x && x < 127) || x == 9) {
            return None;
        }
        crate::text::push_char(&mut out, x as char);
        assert(out@ =~= b@.take(i + 1).map_values(|x: u8| x as char));
        i = i + 1;
    }
    assert(b@.take(b@.len() as int) =~= b@);
    Some(out)
}

/// The header collection of a request.
#[derive(Debug)]
pub struct Headers {
    inner: http::HeaderMap,
}

impl Headers {
    #[verifier::type_invariant]
    spec fn well_formed(self) -> bool {
        &&& distinct_names(header_entries(self.inner))
        &&& header_entries(self.inner).len() <= HEADER_MAP_SAFE_LEN
    }

    /// The entries of the collection, as [`header_entries`] describes them.
    pub closed spec fn entries(self) -> Seq<(Seq<char>, Seq<u8>)> {
        header_entries(self.inner)
    }
}

impl View for Headers {
    type V = Seq<(Seq<char>, Seq<u8>)>;

    open spec fn view(&self) -> Seq<(Seq<char>, Seq<u8>)> {
        self.entries()
    }
}

/// The entries after `Headers::insert(key, value)`: unchanged when the name or
/// the value is rejected, otherwise [`insert_entry`] under the canonical name.
pub open spec fn headers_after_insert(
    es: Seq<(Seq<char>, Seq<u8>)>,
    key: Seq<char>,
    value: Seq<char>,
) -> Seq<(Seq<char>, Seq<u8>)> {
    if canonical_header_name(key) is Some && valid_header_value(value) {
        insert_entry(es, canonical_header_name(key)->0, encode_utf8(value))
    } else {
        es
    }
}

/// What `Headers::get(key)` gives: the text of the first value under the
/// key's canonical name, when there is one and it is visible ASCII.
pub open spec fn headers_get(es: Seq<(Seq<char>, Seq<u8>)>, key: Seq<char>) -> Option<Seq<char>> {
    match lookup_key(es, key) {
        Some(b) => value_text(b),
        None => None,
    }
}

/// The name under which `content_type` stores its value.
pub open spec fn content_type_key() -> Seq<char> {
    seq!['c', 'o', 'n', 't', 'e', 'n', 't', '-', 't', 'y', 'p', 'e']
}

/// The name under which `authorization_bearer` stores its value.
pub open spec fn authorization_key() -> Seq<char> {
    seq!['a', 'u', 't', 'h', 'o', 'r', 'i', 'z', 'a', 't', 'i', 'o', 'n']
}

/// The prefix that `authorization_bearer` puts before the token.
pub open spec fn bearer_prefix() -> Seq<char> {
    seq!['B', 'e', 'a', 'r', 'e', 'r', ' ']
}

impl Headers {
    /// An empty collection.
    pub fn new() -> (r: Headers)
        ensures
            r@ == Seq::<(Seq<char>, Seq<u8>)>::empty(),
            distinct_names(r@),
    {
        Headers { inner: header_map_new() }
    }

    /// The number of entries.
    pub open spec fn spec_len(&self) -> nat {
        self@.len()
    }

    /// Sets the header `key` to `value`, replacing any value it had; a name or
    /// a value that `http` rejects leaves the collection unchanged.
    pub fn insert(self, key: &str, value: &str) -> (r: Headers)
        requires
            canonical_header_name(key@) is Some && valid_header_value(value@) ==> self@.len()
                < HEADER_MAP_SAFE_LEN,
        ensures
            distinct_names(self@),
            r@ == headers_after_insert(self@, key@, value@),
            distinct_names(r@),
    {
        proof {
            use_type_invariant(&self);
        }
        let mut this = self;
        if header_name_accepts(key) && header_value_accepts(value) {
            let mut map = this.inner;
            header_map_insert(&mut map, key, value);
            proof {
                lemma_insert_entry_keeps_distinct(
                    header_entries(this.inner),
                    canonical_header_name(key@)->0,
                    encode_utf8(value@),
                );
            }
            this = Headers { inner: map };
        }
        this
    }

    /// Sets the `content-type` header.
    pub fn content_type(self, content_type: &str) -> (r: Headers)
        requires
            valid_header_value(content_type@) ==> self@.len() < HEADER_MAP_SAFE_LEN,
        ensures
            distinct_names(self@),
            r@ == headers_after_insert(self@, content_type_key(), content_type@),
            distinct_names(r@),
    {
        proof {
            reveal_strlit("content-type");
            assert("content-type"@ =~= content_type_key());
        }
        self.insert("content-type", content_type)
    }

    /// Sets the `authorization` header to `Bearer {token}`.
    pub fn authorization_bearer(self, token: &str) -> (r: Headers)
        requires
            valid_header_value(bearer_prefix() + token@) ==> self@.len() < HEADER_MAP_SAFE_LEN,
        ensures
            distinct_names(self@),
            r@ == headers_after_insert(self@, authorization_key(), bearer_prefix() + token@),
            distinct_names(r@),
    {
        let mut value = String::new();
        proof {
            reveal_strlit("Bearer ");
            reveal_strlit("authorization");
            assert("authorization"@ =~= authorization_key());
            assert("Bearer "@ =~= bearer_prefix());
        }
        push_all(&mut value, "Bearer ");
        push_all(&mut value, token);
        assert(value@ =~= bearer_prefix() + token@);
        self.insert("authorization", value.as_str())
    }

    /// The header map itself, for handing the request to the transport.
    pub fn into_inner(self) -> (r: http::HeaderMap)
        ensures
            header_entries(r) == self@,
            distinct_names(self@),
    {
        proof {
            use_type_invariant(&self);
        }
        self.inner
    }

    /// The number of headers.
    pub fn len(&self) -> (r: usize)
        ensures
            r == self@.len(),
            distinct_names(self@),
    {
        proof {
            use_type_invariant(self);
        }
        header_map_len(&self.inner)
    }

    /// The value of the header `key` as text, when it is present and visible ASCII.
    pub fn get(&self, key: &str) -> (r: Option<String>)
        ensures
            r is Some == headers_get(self@, key@) is Some,
            r is Some ==> r->0@ == headers_get(self@, key@)->0,
            distinct_names(self@),
    {
        proof {
            use_type_invariant(self);
        }
        match header_map_get(&self.inner, key) {
            Some(b) => visible_text(&b),
            None => None,
        }
    }
}

impl Default for Headers {
    fn default() -> (r: Headers)
        ensures
            r@ == Seq::<(Seq<char>, Seq<u8>)>::empty(),
            distinct_names(r@),
    {
        Headers::new()
    }
}

impl Clone for Headers {
    fn clone(&self) -> (r: Headers)
        ensures
            r@ == self@,
            distinct_names(r@),
    {
        proof {
            use_type_invariant(self);
        }
        Headers { inner: header_map_clone(&self.inner) }
    }
}

/// Inserting into entries with distinct names keeps them distinct and grows
/// them by at most one.
pub proof fn lemma_insert_entry_keeps_distinct(
    es: Seq<(Seq<char>, Seq<u8>)>,
    name: Seq<char>,
    value: Seq<u8>,
)
    requires
        distinct_names(es),
    ensures
        distinct_names(insert_entry(es, name, value)),
        insert_entry(es, name, value).len() <= es.len() + 1,
        has_name(es, name) ==> insert_entry(es, name, value).len() == es.len(),
{
    let r = insert_entry(es, name, value);
    if has_name(es, name) {
        let k = choose|i: int| 0 <= i < es.len() && (#[trigger] es[i]).0 == name;
        assert forall|i: int, j: int| 0 <= i < j < r.len() implies (#[trigger] r[i]).0 != (
        #[trigger] r[j]).0 by {
            if i == k {
                assert(es[j].0 != es[k].0);
            } else if j == k {
                assert(es[i].0 != es[k].0);
            } else {
                assert(es[i].0 != es[j].0);
            }
        }
    } else {
        assert forall|i: int, j: int| 0 <= i < j < r.len() implies (#[trigger] r[i]).0 != (
        #[trigger] r[j]).0 by {
            if j == es.len() {
                assert(!(0 <= i < es.len() && es[i].0 == name));
            } else {
                assert(es[i].0 != es[j].0);
            }
        }
    }
}

/// Text made only of visible ASCII characters and horizontal tabs.
pub open spec fn is_visible_text(s: Seq<char>) -> bool {
    forall|i: int| 0 <= i < s.len() ==> ((#[trigger] s[i]) == '\t' || (' ' <= s[i] && s[i] <= '~'))
}

proof fn lemma_lookup_at(es: Seq<(Seq<char>, Seq<u8>)>, name: Seq<char>, i: int)
    requires
        distinct_names(es),
        0 <= i < es.len(),
        es[i].0 == name,
    ensures
        lookup_value(es, name) == Some(es[i].1),
    decreases es.len(),
{
    if i > 0 {
        assert(es[0].0 != es[i].0);
        let rest = es.drop_first();
        assert(rest[i - 1] == es[i]);
        assert forall|a: int, b: int| 0 <= a < b < rest.len() implies (#[trigger] rest[a]).0 != (
        #[trigger] rest[b]).0 by {
            assert(rest[a] == es[a + 1] && rest[b] == es[b + 1]);
        }
        lemma_lookup_at(rest, name, i - 1);
    }
}

proof fn lemma_lookup_absent(es: Seq<(Seq<char>, Seq<u8>)>, name: Seq<char>)
    requires
        !has_name(es, name),
    ensures
        lookup_value(es, name) is None,
    decreases es.len(),
{
    if es.len() > 0 {
        assert(es[0].0 != name);
        let rest = es.drop_first();
        assert forall|i: int| 0 <= i < rest.len() implies (#[trigger] rest[i]).0 != name by {
            assert(rest[i] == es[i + 1]);
        }
        lemma_lookup_absent(rest, name);
    }
}

/// Looking up a name in entries with distinct names after inserting a pair
/// finds the inserted value under that name and the old value under any other.
proof fn lemma_lookup_after_insert_entry(
    es: Seq<(Seq<char>, Seq<u8>)>,
    name: Seq<char>,
    value: Seq<u8>,
    other: Seq<char>,
)
    requires
        distinct_names(es),
    ensures
        lookup_value(insert_entry(es, name, value), name) == Some(value),
        other != name ==> lookup_value(insert_entry(es, name, value), other) == lookup_value(
            es,
            other,
        ),
{
    let r = insert_entry(es, name, value);
    lemma_insert_entry_keeps_distinct(es, name, value);
    if has_name(es, name) {
        let k = choose|i: int| 0 <= i < es.len() && (#[trigger] es[i]).0 == name;
        lemma_lookup_at(r, name, k);
        if other != name {
            if has_name(es, other) {
                let j = choose|i: int| 0 <= i < es.len() && (#[trigger] es[i]).0 == other;
                lemma_lookup_at(es, other, j);
                lemma_lookup_at(r, other, j);
            } else {
                lemma_lookup_absent(es, other);
                assert forall|i: int| 0 <= i < r.len() implies (#[trigger] r[i]).0 != other by {
                    if i != k {
                        assert(r[i] == es[i]);
                    }
                }
                lemma_lookup_absent(r, other);
            }
        }
    } else {
        lemma_lookup_at(r, name, es.len() as int);
        if other != name {
            if has_name(es, other) {
                let j = choose|i: int| 0 <= i < es.len() && (#[trigger] es[i]).0 == other;
                lemma_lookup_at(es, other, j);
                lemma_lookup_at(r, other, j);
            } else {
                lemma_lookup_absent(es, other);
                assert forall|i: int| 0 <= i < r.len() implies (#[trigger] r[i]).0 != other by {
                    if i < es.len() {
                        assert(r[i] == es[i]);
                    }
                }
                lemma_lookup_absent(r, other);
            }
        }
    }
}

/// The text of the UTF-8 bytes of visible-ASCII text is that text.
proof fn lemma_visible_text_round_trip(s: Seq<char>)
    requires
        is_visible_text(s),
    ensures
        value_text(encode_utf8(s)) == Some(s),
{
    assert(vstd::utf8::is_ascii_chars(s));
    vstd::utf8::is_ascii_chars_encode_utf8(s);
    let b = encode_utf8(s);
    assert forall|i: int| 0 <= i < b.len() implies is_visible_ascii(#[trigger] b[i]) by {
        assert(s[i] as u8 == b[i]);
    }
    let m = b.map_values(|x: u8| x as char);
    assert(m =~= s) by {
        assert forall|i: int| 0 <= i < s.len() implies #[trigger] m[i] == s[i] by {
            assert(s[i] as u8 == b[i]);
            let c = s[i];
            assert((c as u8) as char == c);
        }
    }
}

/// Reading a header back after setting it: the key the value was set under,
/// written in any letter case, gives back the value when it is visible ASCII,
/// and every other key reads as before.
pub proof fn lemma_headers_get_after_insert(
    es: Seq<(Seq<char>, Seq<u8>)>,
    key: Seq<char>,
    value: Seq<char>,
    other: Seq<char>,
)
    requires
        distinct_names(es),
        canonical_header_name(key) is Some,
        valid_header_value(value),
    ensures
        canonical_header_name(other) == canonical_header_name(key) && is_visible_text(value)
            ==> headers_get(headers_after_insert(es, key, value), other) == Some(value),
        canonical_header_name(other) != canonical_header_name(key) ==> headers_get(
            headers_after_insert(es, key, value),
            other,
        ) == headers_get(es, other),
{
    let name = canonical_header_name(key)->0;
    let bytes = encode_utf8(value);
    match canonical_header_name(other) {
        Some(o) => {
            lemma_lookup_after_insert_entry(es, name, bytes, o);
        },
        None => {},
    }
    if is_visible_text(value) {
        lemma_visible_text_round_trip(value);
    }
}

/// Setting a header again under a name of the same canonical form replaces the
/// earlier value: the entries are those of setting only the later value.
pub proof fn lemma_headers_insert_overwrites(
    es: Seq<(Seq<char>, Seq<u8>)>,
    key: Seq<char>,
    first: Seq<char>,
    again: Seq<char>,
    second: Seq<char>,
)
    requires
        distinct_names(es),
        canonical_header_name(key) is Some,
        valid_header_value(first),
        canonical_header_name(again) == canonical_header_name(key),
        valid_header_value(second),
    ensures
        headers_after_insert(headers_after_insert(es, key, first), again, second)
            == headers_after_insert(es, again, second),
{
    let name = canonical_header_name(key)->0;
    let b1 = encode_utf8(first);
    let b2 = encode_utf8(second);
    let mid = insert_entry(es, name, b1);
    lemma_insert_entry_keeps_distinct(es, name, b1);
    let k = if has_name(es, name) {
        choose|i: int| 0 <= i < es.len() && (#[trigger] es[i]).0 == name
    } else {
        es.len() as int
    };
    assert(mid[k] == (name, b1));
    assert(has_name(mid, name));
    let j = choose|i: int| 0 <= i < mid.len() && (#[trigger] mid[i]).0 == name;
    if j != k {
        if j < k {
            assert(mid[j].0 != mid[k].0);
        } else {
            assert(mid[k].0 != mid[j].0);
        }
    }
    assert(j == k);
    if has_name(es, name) {
        assert(mid.update(k, (name, b2)) =~= es.update(k, (name, b2)));
    } else {
        assert(mid.update(k, (name, b2)) =~= es.push((name, b2)));
    }
}

/// A rejected name or value leaves the headers as they were.
pub proof fn lemma_headers_insert_rejected(
    es: Seq<(Seq<char>, Seq<u8>)>,
    key: Seq<char>,
    value: Seq<char>,
)
    requires
        canonical_header_name(key) is None || !valid_header_value(value),
    ensures
        headers_after_insert(es, key, value) == es,
{
}


/// The stored form of an accepted header name is the key in lower case: as
/// long as the key, with no upper-case ASCII letter, each character either
/// the key's own or its upper-case letter moved to lower case.
pub proof fn lemma_canonical_name_is_lower_case_key(key: Seq<char>)
    ensures
        canonical_header_name(key) matches Some(n) ==> n.len() == key.len() && forall|i: int|
            0 <= i < n.len() ==> !('A' <= #[trigger] n[i] && n[i] <= 'Z') && (n[i] == key[i] || (
            'A' <= key[i] && key[i] <= 'Z' && n[i] as int == key[i] as int + 32)),
{
    if canonical_header_name(key) is Some {
        let n = canonical_header_name(key)->0;
        assert forall|i: int| 0 <= i < n.len() implies !('A' <= #[trigger] n[i] && n[i] <= 'Z') && (
        n[i] == key[i] || ('A' <= key[i] && key[i] <= 'Z' && n[i] as int == key[i] as int + 32)) by {
            let c = key[i];
            assert(n[i] == crate::text::ascii_lower_char(c));
            if 'A' <= c && c <= 'Z' {
                assert(n[i] as int == c as int + 32);
            }
        }
    }
}

} // verus!
