use vstd::prelude::*;
use crate::error::APIClientError;
use crate::text::{push_all, push_char, strip_leading, strip_trailing, trim_end_char, trim_start_char};

verus! {

/// Whether `Url::parse` accepts `input`.
pub uninterp spec fn url_accepts(input: Seq<char>) -> bool;

/// The serialization of the URL that `Url::parse` makes of `input` after
/// `query_pairs_mut().extend_pairs(pairs)` has appended the name/value pairs,
/// form-urlencoded and in order, to its query (which that call opens with `?`
/// when the URL has none, even for no pairs).
pub uninterp spec fn url_with_query(input: Seq<char>, pairs: Seq<(Seq<char>, Seq<char>)>) -> Seq<
    char,
>;

/// The name/value pairs as text.
pub open spec fn pairs_text(pairs: Seq<(String, String)>) -> Seq<(Seq<char>, Seq<char>)> {
    pairs.map_values(|p: (String, String)| (p.0@, p.1@))
}

/// `Url::parse(input)`, then `query_pairs_mut().extend_pairs(pairs)` on the
/// parsed URL, then `String::from` of it: fails exactly when `Url::parse`
/// rejects the input, and otherwise gives [`url_with_query`] of the input and
/// the pairs.
#[verifier::external_body]
fn url_with_query_pairs(input: &str, pairs: &Vec<(String, String)>) -> (r: Result<
    String,
    url::ParseError,
>)
    ensures
        r is Ok == url_accepts(input@),
        r is Ok ==> r->Ok_0@ == url_with_query(input@, pairs_text(pairs@)),
{
    let mut u = url::Url::parse(input)?;
    u.query_pairs_mut().extend_pairs(pairs);
    Ok(u.into())
}

/// `base` and `uri` joined by exactly one slash: the trailing slashes of the
/// base and the leading slashes of the URI are dropped.
pub open spec fn joined_url(base: Seq<char>, uri: Seq<char>) -> Seq<char> {
    strip_trailing(base, '/') + seq!['/'] + strip_leading(uri, '/')
}

/// The URL of a request against `base_url + uri`: without query parameters,
/// the joined text itself; with them, the joined text parsed as a URL with the
/// pairs appended to its query in the order given. The parameters fail only
/// when the joined text is not a URL.
pub fn build_url(base_url: &str, uri: &str, query_params: Option<&Vec<(String, String)>>) -> (r:
    Result<String, APIClientError>)
    ensures
        query_params is None ==> (r matches Ok(u) && u@ == joined_url(base_url@, uri@)),
        query_params is Some ==> (r is Ok == url_accepts(joined_url(base_url@, uri@))),
        query_params matches Some(p) ==> (r is Ok ==> r->Ok_0@ == url_with_query(
            joined_url(base_url@, uri@),
            pairs_text(p@),
        )),
        r is Err ==> r->Err_0 is Url,
{
    let base = trim_end_char(base_url, '/');
    let path = trim_start_char(uri, '/');
    let mut url = String::new();
    push_all(&mut url, base.as_str());
    push_char(&mut url, '/');
    push_all(&mut url, path.as_str());
    assert(url@ =~= joined_url(base_url@, uri@));
    match query_params {
        None => Ok(url),
        Some(params) => match url_with_query_pairs(url.as_str(), params) {
            Ok(u) => Ok(u),
            Err(e) => Err(APIClientError::Url(e)),
        },
    }
}

} // verus!
