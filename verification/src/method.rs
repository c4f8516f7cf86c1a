use vstd::prelude::*;
use crate::error::APIClientError;
use crate::text::{
    ascii_lower, ascii_lower_char, string_of_range, to_ascii_lower_char, trim_white,
    trim_white_chars,
};

verus! {

/// HTTP method recognized by the client.
#[derive(Clone, Copy, Debug, PartialEq, Eq, Structural)]
pub enum Method {
    Get,
    Post,
    Put,
    Delete,
    Patch,
    Head,
}

/// The upper-case name under which a method is written on the wire.
pub open spec fn method_name(m: Method) -> Seq<char> {
    match m {
        Method::Get => seq!['G', 'E', 'T'],
        Method::Post => seq!['P', 'O', 'S', 'T'],
        Method::Put => seq!['P', 'U', 'T'],
        Method::Delete => seq!['D', 'E', 'L', 'E', 'T', 'E'],
        Method::Patch => seq!['P', 'A', 'T', 'C', 'H'],
        Method::Head => seq!['H', 'E', 'A', 'D'],
    }
}

/// The method whose lower-case name is `t`, if any.
pub open spec fn method_from_lower(t: Seq<char>) -> Option<Method> {
    if t == seq!['g', 'e', 't'] {
        Some(Method::Get)
    } else if t == seq!['p', 'o', 's', 't'] {
        Some(Method::Post)
    } else if t == seq!['p', 'u', 't'] {
        Some(Method::Put)
    } else if t == seq!['d', 'e', 'l', 'e', 't', 'e'] {
        Some(Method::Delete)
    } else if t == seq!['p', 'a', 't', 'c', 'h'] {
        Some(Method::Patch)
    } else if t == seq!['h', 'e', 'a', 'd'] {
        Some(Method::Head)
    } else {
        None
    }
}

/// The text a method name is matched on: trimmed of white space, then in
/// ASCII lower case.
pub open spec fn method_key(s: Seq<char>) -> Seq<char> {
    ascii_lower(trim_white(s))
}

/// What parsing `s` as a method gives: the method whose name matches, case
/// insensitively and ignoring surrounding white space, or an
/// `UnsupportedMethod` error that carries the normalized text.
pub open spec fn parses_to(s: Seq<char>, r: Result<Method, APIClientError>) -> bool {
    match method_from_lower(method_key(s)) {
        Some(m) => r == Ok::<Method, APIClientError>(m),
        None => r matches Err(APIClientError::UnsupportedMethod(t)) && t@ == method_key(s),
    }
}

fn chars_equal(a: &Vec<char>, b: &[char]) -> (r: bool)
    ensures
        r == (a@ == b@),
{
    if a.len() != b.len() {
        return false;
    }
    let mut i: usize = 0;
    while i < a.len()
        invariant
            a@.len() == b@.len(),
            i <= a@.len(),
            forall|j: int| 0 <= j < i ==> a@[j] == b@[j],
        decreases a@.len() - i,
    {
        if a[i] != b[i] {
            return false;
        }
        i = i + 1;
    }
    assert(a@ =~= b@);
    true
}

impl Method {
    /// The upper-case wire name of the method.
    pub fn as_str(&self) -> (r: &'static str)
        ensures
            r@ == method_name(*self),
    {
        match self {
            Method::Get => {
                proof {
                    reveal_strlit("GET");
                }
                "GET"
            },
            Method::Post => {
                proof {
                    reveal_strlit("POST");
                }
                "POST"
            },
            Method::Put => {
                proof {
                    reveal_strlit("PUT");
                }
                "PUT"
            },
            Method::Delete => {
                proof {
                    reveal_strlit("DELETE");
                }
                "DELETE"
            },
            Method::Patch => {
                proof {
                    reveal_strlit("PATCH");
                }
                "PATCH"
            },
            Method::Head => {
                proof {
                    reveal_strlit("HEAD");
                }
                "HEAD"
            },
        }
    }

    /// The upper-case wire name of the method, as an owned string.
    pub fn to_string(&self) -> (r: String)
        ensures
            r@ == method_name(*self),
    {
        self.as_str().to_string()
    }

    /// Parses a method name, ignoring case and surrounding white space.
    pub fn parse(s: &str) -> (r: Result<Method, APIClientError>)
        ensures
            parses_to(s@, r),
            r matches Ok(m) ==> method_key(s@) == ascii_lower(method_name(m)),
            r is Err ==> forall|m: Method| method_key(s@) != ascii_lower(#[trigger] method_name(m)),
    {
        proof {
            lemma_lower_names_are_methods(method_key(s@));
        }
        let trimmed = trim_white_chars(s);
        let mut lowered: Vec<char> = Vec::new();
        let mut i: usize = 0;
        while i < trimmed.len()
            invariant
                i <= trimmed@.len(),
                trimmed@ == trim_white(s@),
                lowered@ == trimmed@.take(i as int).map_values(|c: char| ascii_lower_char(c)),
            decreases trimmed@.len() - i,
        {
            let c = to_ascii_lower_char(trimmed[i]);
            lowered.push(c);
            assert(lowered@ =~= trimmed@.take(i + 1).map_values(|c: char| ascii_lower_char(c)));
            i = i + 1;
        }
        assert(trimmed@.take(trimmed@.len() as int) =~= trimmed@);
        assert(lowered@ == method_key(s@));
        if chars_equal(&lowered, &['g', 'e', 't']) {
            Ok(Method::Get)
        } else if chars_equal(&lowered, &['p', 'o', 's', 't']) {
            Ok(Method::Post)
        } else if chars_equal(&lowered, &['p', 'u', 't']) {
            Ok(Method::Put)
        } else if chars_equal(&lowered, &['d', 'e', 'l', 'e', 't', 'e']) {
            Ok(Method::Delete)
        } else if chars_equal(&lowered, &['p', 'a', 't', 'c', 'h']) {
            Ok(Method::Patch)
        } else if chars_equal(&lowered, &['h', 'e', 'a', 'd']) {
            Ok(Method::Head)
        } else {
            let text = string_of_range(&lowered, 0, lowered.len());
            assert(lowered@.subrange(0, lowered@.len() as int) =~= lowered@);
            Err(APIClientError::UnsupportedMethod(text))
        }
    }
}

impl std::str::FromStr for Method {
    type Err = APIClientError;

    fn from_str(s: &str) -> (r: Result<Method, APIClientError>)
        ensures
            parses_to(s@, r),
            r matches Ok(m) ==> method_key(s@) == ascii_lower(method_name(m)),
            r is Err ==> forall|m: Method| method_key(s@) != ascii_lower(#[trigger] method_name(m)),
    {
        proof {
            lemma_lower_names_are_methods(method_key(s@));
        }
        Method::parse(s)
    }
}

/// Parsing the wire name of a method gives back that method.
pub proof fn lemma_parse_method_name(m: Method)
    ensures
        parses_to(method_name(m), Ok::<Method, APIClientError>(m)),
{
    let s = method_name(m);
    assert(!crate::text::is_white_space(s[0]));
    assert(crate::text::trim_white_start(s) == s);
    assert(!crate::text::is_white_space(s.last()));
    assert(crate::text::trim_white_end(s) == s);
    let lowered = ascii_lower(s);
    match m {
        Method::Get => assert(lowered =~= seq!['g', 'e', 't']),
        Method::Post => assert(lowered =~= seq!['p', 'o', 's', 't']),
        Method::Put => assert(lowered =~= seq!['p', 'u', 't']),
        Method::Delete => assert(lowered =~= seq!['d', 'e', 'l', 'e', 't', 'e']),
        Method::Patch => assert(lowered =~= seq!['p', 'a', 't', 'c', 'h']),
        Method::Head => assert(lowered =~= seq!['h', 'e', 'a', 'd']),
    }
}


/// The lower-case names of the methods.
proof fn lemma_lower_method_names()
    ensures
        ascii_lower(method_name(Method::Get)) == seq!['g', 'e', 't'],
        ascii_lower(method_name(Method::Post)) == seq!['p', 'o', 's', 't'],
        ascii_lower(method_name(Method::Put)) == seq!['p', 'u', 't'],
        ascii_lower(method_name(Method::Delete)) == seq!['d', 'e', 'l', 'e', 't', 'e'],
        ascii_lower(method_name(Method::Patch)) == seq!['p', 'a', 't', 'c', 'h'],
        ascii_lower(method_name(Method::Head)) == seq!['h', 'e', 'a', 'd'],
{
    assert(ascii_lower(method_name(Method::Get)) =~= seq!['g', 'e', 't']);
    assert(ascii_lower(method_name(Method::Post)) =~= seq!['p', 'o', 's', 't']);
    assert(ascii_lower(method_name(Method::Put)) =~= seq!['p', 'u', 't']);
    assert(ascii_lower(method_name(Method::Delete)) =~= seq!['d', 'e', 'l', 'e', 't', 'e']);
    assert(ascii_lower(method_name(Method::Patch)) =~= seq!['p', 'a', 't', 'c', 'h']);
    assert(ascii_lower(method_name(Method::Head)) =~= seq!['h', 'e', 'a', 'd']);
}

/// A text names a method exactly when it is the lower-case wire name of that
/// method: no other text (such as `options`) is taken for one.
pub proof fn lemma_lower_names_are_methods(t: Seq<char>)
    ensures
        method_from_lower(t) matches Some(m) ==> t == ascii_lower(method_name(m)),
        method_from_lower(t) is None ==> forall|m: Method| t != ascii_lower(#[trigger] method_name(m)),
        forall|m: Method| t == ascii_lower(#[trigger] method_name(m)) ==> method_from_lower(t) == Some(m),
{
    lemma_lower_method_names();
    assert forall|m: Method| t == ascii_lower(#[trigger] method_name(m)) implies method_from_lower(t) == Some(m) by {
        match m {
            Method::Get => {},
            Method::Post => {},
            Method::Put => {},
            Method::Delete => {},
            Method::Patch => {},
            Method::Head => {},
        }
    }
}

} // verus!
