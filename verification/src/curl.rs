use vstd::prelude::*;
use crate::headers::{header_entries, header_map_items, value_text, visible_text};
use crate::method::{method_name, Method};
use crate::shell::{
    all_shell_safe, is_shell_safe_char, lemma_read_safe, lemma_shell_quote_reads_back,
    lemma_split_after_word, shell_quote, shell_quoted, shell_read, shell_words, split_words,
};
use crate::text::{push_all, push_char};

verus! {

/// What `String::from_utf8_lossy` makes of `bytes`.
pub uninterp spec fn utf8_lossy(bytes: Seq<u8>) -> Seq<char>;

/// `String::from_utf8_lossy`: the text of the bytes, with each invalid
/// sequence replaced by U+FFFD; valid UTF-8 is decoded unchanged.
#[verifier::external_body]
pub(crate) fn lossy_text(bytes: &[u8]) -> (r: String)
    ensures
        r@ == utf8_lossy(bytes@),
        vstd::utf8::valid_utf8(bytes@) ==> r@ == vstd::utf8::decode_utf8(bytes@),
{
    String::from_utf8_lossy(bytes).into_owned()
}

/// Words separated by single spaces.
pub open spec fn join_words(ws: Seq<Seq<char>>) -> Seq<char>
    decreases ws.len(),
{
    if ws.len() == 0 {
        Seq::empty()
    } else if ws.len() == 1 {
        ws[0]
    } else {
        join_words(ws.drop_last()) + seq![' '] + ws.last()
    }
}

/// How a header value appears in the command: its text, or nothing when it
/// is not visible ASCII.
pub open spec fn shown_value(b: Seq<u8>) -> Seq<char> {
    match value_text(b) {
        Some(t) => t,
        None => Seq::empty(),
    }
}

/// The `name: value` line of a header entry.
pub open spec fn header_line(e: (Seq<char>, Seq<u8>)) -> Seq<char> {
    e.0 + seq![':', ' '] + shown_value(e.1)
}

/// The `-H` words of the header entries, in order.
pub open spec fn header_words(es: Seq<(Seq<char>, Seq<u8>)>) -> Seq<Seq<char>>
    decreases es.len(),
{
    if es.len() == 0 {
        Seq::empty()
    } else {
        header_words(es.drop_last()) + seq![seq!['-', 'H'], shell_quoted(header_line(es.last()))]
    }
}

/// The words of the `curl` command that reproduces a request: `curl -i -X`,
/// the method, the quoted URL, a quoted `-H` line per header, the quoted
/// cookies after `-b`, and the quoted body text after `-d`.
pub open spec fn curl_words(
    url: Seq<char>,
    method: Method,
    headers: Seq<(Seq<char>, Seq<u8>)>,
    body: Option<Seq<u8>>,
    cookies: Option<Seq<char>>,
) -> Seq<Seq<char>> {
    let start = seq![
        seq!['c', 'u', 'r', 'l'],
        seq!['-', 'i'],
        seq!['-', 'X'],
        method_name(method),
        shell_quoted(url),
    ];
    let with_cookies = match cookies {
        Some(c) => start + header_words(headers) + seq![seq!['-', 'b'], shell_quoted(c)],
        None => start + header_words(headers),
    };
    match body {
        Some(b) => with_cookies + seq![seq!['-', 'd'], shell_quoted(utf8_lossy(b))],
        None => with_cookies,
    }
}

/// The `curl` command line that reproduces a request.
pub open spec fn curl_command(
    url: Seq<char>,
    method: Method,
    headers: Seq<(Seq<char>, Seq<u8>)>,
    body: Option<Seq<u8>>,
    cookies: Option<Seq<char>>,
) -> Seq<char> {
    join_words(curl_words(url, method, headers, body, cookies))
}

/// Joins the words with single spaces.
fn join_strings(parts: &Vec<String>) -> (r: String)
    ensures
        r@ == join_words(parts@.map_values(|p: String| p@)),
{
    let ghost ws = parts@.map_values(|p: String| p@);
    let mut out = String::new();
    let mut i: usize = 0;
    while i < parts.len()
        invariant
            i <= parts@.len(),
            ws == parts@.map_values(|p: String| p@),
            out@ == join_words(ws.take(i as int)),
        decreases parts@.len() - i,
    {
        assert(ws.take(i + 1).drop_last() =~= ws.take(i as int));
        if i > 0 {
            push_char(&mut out, ' ');
        }
        push_all(&mut out, parts[i].as_str());
        assert(ws.take(i + 1).last() == parts@[i as int]@);
        if i == 0 {
            assert(out@ =~= join_words(ws.take(1)));
        } else {
            assert(out@ =~= join_words(ws.take(i + 1)));
        }
        i = i + 1;
    }
    assert(ws.take(parts@.len() as int) =~= ws);
    out
}

fn word(s: &str) -> (r: String)
    ensures
        r@ == s@,
{
    s.to_string()
}

/// Build a `curl` command string that reproduces the given request.
pub fn request_to_curl(
    url: &str,
    method: Method,
    headers: &http::HeaderMap,
    body: Option<&[u8]>,
    cookies: Option<&str>,
) -> (r: String)
    ensures
        r@ == curl_command(
            url@,
            method,
            header_entries(*headers),
            match body {
                Some(b) => Some(b@),
                None => None,
            },
            match cookies {
                Some(c) => Some(c@),
                None => None,
            },
        ),
{
    let ghost es = header_entries(*headers);
    let mut parts: Vec<String> = Vec::new();
    proof {
        reveal_strlit("curl");
        reveal_strlit("-i");
        reveal_strlit("-X");
        reveal_strlit("-H");
        reveal_strlit("-b");
        reveal_strlit("-d");
        reveal_strlit(": ");
        assert("curl"@ =~= seq!['c', 'u', 'r', 'l']);
        assert("-i"@ =~= seq!['-', 'i']);
        assert("-X"@ =~= seq!['-', 'X']);
        assert("-H"@ =~= seq!['-', 'H']);
        assert("-b"@ =~= seq!['-', 'b']);
        assert("-d"@ =~= seq!['-', 'd']);
        assert(": "@ =~= seq![':', ' ']);
    }
    parts.push(word("curl"));
    parts.push(word("-i"));
    parts.push(word("-X"));
    parts.push(method.to_string());
    parts.push(shell_quote(url));
    assert(parts@.map_values(|p: String| p@)[3] == method_name(method));
    let ghost start = seq![
        seq!['c', 'u', 'r', 'l'],
        seq!['-', 'i'],
        seq!['-', 'X'],
        method_name(method),
        shell_quoted(url@),
    ];
    assert(parts@.map_values(|p: String| p@) =~= start);
    let items = header_map_items(headers);
    let mut i: usize = 0;
    while i < items.len()
        invariant
            i <= items@.len(),
            items@.len() == es.len(),
            forall|k: int|
                0 <= k < items@.len() ==> (#[trigger] items@[k]).0@ == es[k].0 && items@[k].1@
                    == es[k].1,
            parts@.map_values(|p: String| p@) == start + header_words(es.take(i as int)),
        decreases items@.len() - i,
    {
        proof {
            reveal_strlit(": ");
            reveal_strlit("-H");
            assert(": "@ =~= seq![':', ' ']);
            assert("-H"@ =~= seq!['-', 'H']);
        }
        let item = &items[i];
        assert(item.0@ == es[i as int].0 && item.1@ == es[i as int].1);
        let shown = match visible_text(&item.1) {
            Some(t) => t,
            None => String::new(),
        };
        assert(shown@ == shown_value(es[i as int].1));
        let mut line = String::new();
        push_all(&mut line, item.0.as_str());
        push_all(&mut line, ": ");
        push_all(&mut line, shown.as_str());
        assert(line@ =~= header_line(es[i as int]));
        let ghost before = parts@.map_values(|p: String| p@);
        parts.push(word("-H"));
        parts.push(shell_quote(line.as_str()));
        assert(parts@.map_values(|p: String| p@) =~= before + seq![
            seq!['-', 'H'],
            shell_quoted(header_line(es[i as int])),
        ]);
        assert(es.take(i + 1).drop_last() =~= es.take(i as int));
        assert(es.take(i + 1).last() == es[i as int]);
        assert(parts@.map_values(|p: String| p@) =~= start + header_words(es.take(i + 1)));
        i = i + 1;
    }
    assert(es.take(es.len() as int) =~= es);
    let ghost with_headers = parts@.map_values(|p: String| p@);
    match cookies {
        Some(c) => {
            parts.push(word("-b"));
            parts.push(shell_quote(c));
            assert(parts@.map_values(|p: String| p@) =~= with_headers + seq![
                seq!['-', 'b'],
                shell_quoted(c@),
            ]);
        },
        None => {},
    }
    let ghost with_cookies = parts@.map_values(|p: String| p@);
    match body {
        Some(b) => {
            let text = lossy_text(b);
            parts.push(word("-d"));
            parts.push(shell_quote(text.as_str()));
            assert(parts@.map_values(|p: String| p@) =~= with_cookies + seq![
                seq!['-', 'd'],
                shell_quoted(utf8_lossy(b@)),
            ]);
        },
        None => {},
    }
    assert(parts@.map_values(|p: String| p@) =~= curl_words(
        url@,
        method,
        es,
        match body {
            Some(b) => Some(b@),
            None => None,
        },
        match cookies {
            Some(c) => Some(c@),
            None => None,
        },
    ));
    join_strings(&parts)
}


/// The arguments after `-H` for the header entries, in order: `-H` and the
/// `name: value` line of each.
pub open spec fn header_args(es: Seq<(Seq<char>, Seq<u8>)>) -> Seq<Seq<char>>
    decreases es.len(),
{
    if es.len() == 0 {
        Seq::empty()
    } else {
        header_args(es.drop_last()) + seq![seq!['-', 'H'], header_line(es.last())]
    }
}

/// The arguments that `curl` receives from the command that reproduces a
/// request: `curl -i -X`, the method, the URL, `-H` and the line of each
/// header, `-b` and the cookies, `-d` and the body text.
pub open spec fn curl_args(
    url: Seq<char>,
    method: Method,
    headers: Seq<(Seq<char>, Seq<u8>)>,
    body: Option<Seq<u8>>,
    cookies: Option<Seq<char>>,
) -> Seq<Seq<char>> {
    let start = seq![
        seq!['c', 'u', 'r', 'l'],
        seq!['-', 'i'],
        seq!['-', 'X'],
        method_name(method),
        url,
    ];
    let with_cookies = match cookies {
        Some(c) => start + header_args(headers) + seq![seq!['-', 'b'], c],
        None => start + header_args(headers),
    };
    match body {
        Some(b) => with_cookies + seq![seq!['-', 'd'], utf8_lossy(b)],
        None => with_cookies,
    }
}

/// Each word of `ws` is read by the shell as the word of `ts` at its place.
pub open spec fn reads_as(ws: Seq<Seq<char>>, ts: Seq<Seq<char>>) -> bool {
    &&& ws.len() == ts.len()
    &&& forall|i: int| 0 <= i < ws.len() ==> shell_read(#[trigger] ws[i], false) == Some(ts[i])
}

proof fn lemma_reads_as_concat(a: Seq<Seq<char>>, x: Seq<Seq<char>>, b: Seq<Seq<char>>, y: Seq<Seq<char>>)
    requires
        reads_as(a, x),
        reads_as(b, y),
    ensures
        reads_as(a + b, x + y),
{
    assert forall|i: int| 0 <= i < (a + b).len() implies shell_read(#[trigger] (a + b)[i], false)
        == Some((x + y)[i]) by {
        if i < a.len() {
            assert((a + b)[i] == a[i] && (x + y)[i] == x[i]);
        } else {
            assert((a + b)[i] == b[i - a.len()] && (x + y)[i] == y[i - a.len()]);
        }
    }
}

proof fn lemma_safe_word_reads_as_itself(w: Seq<char>)
    requires
        all_shell_safe(w),
    ensures
        reads_as(seq![w], seq![w]),
{
    lemma_read_safe(w);
    assert(seq![w][0] == w);
}

proof fn lemma_quoted_word_reads_back(w: Seq<char>)
    ensures
        reads_as(seq![shell_quoted(w)], seq![w]),
{
    lemma_shell_quote_reads_back(w);
    assert(seq![shell_quoted(w)][0] == shell_quoted(w));
}

proof fn lemma_flag_reads_as_itself(f: char)
    requires
        is_shell_safe_char(f),
    ensures
        reads_as(seq![seq!['-', f]], seq![seq!['-', f]]),
{
    let w = seq!['-', f];
    assert(all_shell_safe(w)) by {
        assert forall|i: int| 0 <= i < w.len() implies is_shell_safe_char(#[trigger] w[i]) by {
            if i == 0 {
                assert(w[0] == '-');
            } else {
                assert(w[1] == f);
            }
        }
    }
    lemma_safe_word_reads_as_itself(w);
}

proof fn lemma_header_words_read_as_args(es: Seq<(Seq<char>, Seq<u8>)>)
    ensures
        reads_as(header_words(es), header_args(es)),
    decreases es.len(),
{
    if es.len() > 0 {
        lemma_header_words_read_as_args(es.drop_last());
        lemma_flag_reads_as_itself('H');
        lemma_quoted_word_reads_back(header_line(es.last()));
        lemma_reads_as_concat(
            seq![seq!['-', 'H']],
            seq![seq!['-', 'H']],
            seq![shell_quoted(header_line(es.last()))],
            seq![header_line(es.last())],
        );
        assert(seq![seq!['-', 'H']] + seq![shell_quoted(header_line(es.last()))] =~= seq![
            seq!['-', 'H'],
            shell_quoted(header_line(es.last())),
        ]);
        assert(seq![seq!['-', 'H']] + seq![header_line(es.last())] =~= seq![
            seq!['-', 'H'],
            header_line(es.last()),
        ]);
        lemma_reads_as_concat(
            header_words(es.drop_last()),
            header_args(es.drop_last()),
            seq![seq!['-', 'H'], shell_quoted(header_line(es.last()))],
            seq![seq!['-', 'H'], header_line(es.last())],
        );
    }
}

proof fn lemma_join_front(w: Seq<char>, ws: Seq<Seq<char>>)
    requires
        ws.len() > 0,
    ensures
        join_words(seq![w] + ws) == w + seq![' '] + join_words(ws),
    decreases ws.len(),
{
    let all = seq![w] + ws;
    assert(all.last() == ws.last());
    if ws.len() == 1 {
        assert(all.drop_last() =~= seq![w]);
        assert(join_words(seq![w]) == w);
        assert(join_words(ws) == ws[0]);
    } else {
        assert(all.drop_last() =~= seq![w] + ws.drop_last());
        lemma_join_front(w, ws.drop_last());
        assert(w + seq![' '] + join_words(ws.drop_last()) + seq![' '] + ws.last() =~= w + seq![' ']
            + (join_words(ws.drop_last()) + seq![' '] + ws.last()));
    }
}

proof fn lemma_split_joined(ws: Seq<Seq<char>>, ts: Seq<Seq<char>>)
    requires
        reads_as(ws, ts),
        ws.len() > 0,
    ensures
        shell_words(join_words(ws)) == Some(ts),
    decreases ws.len(),
{
    let w = ws[0];
    let t = ts[0];
    assert(shell_read(ws[0], false) == Some(ts[0]));
    let e = Seq::<char>::empty();
    if ws.len() == 1 {
        assert(join_words(ws) == w);
        lemma_split_after_word(w, false, t, e, e);
        assert(w + e =~= w);
        assert(e + t =~= t);
        assert(ts =~= seq![t]);
    } else {
        let ws2 = ws.drop_first();
        let ts2 = ts.drop_first();
        assert(reads_as(ws2, ts2)) by {
            assert forall|i: int| 0 <= i < ws2.len() implies shell_read(#[trigger] ws2[i], false)
                == Some(ts2[i]) by {
                assert(ws2[i] == ws[i + 1] && ts2[i] == ts[i + 1]);
            }
        }
        assert(seq![w] + ws2 =~= ws);
        lemma_join_front(w, ws2);
        let tail = seq![' '] + join_words(ws2);
        assert(join_words(ws) =~= w + tail);
        lemma_split_after_word(w, false, t, tail, e);
        assert(e + t =~= t);
        lemma_split_joined(ws2, ts2);
        assert(tail[0] == ' ');
        assert(tail.drop_first() =~= join_words(ws2));
        assert(split_words(tail, false, t) == Some(seq![t] + ts2));
        assert(seq![t] + ts2 =~= ts);
    }
}

/// A POSIX shell splits the `curl` command of a request into exactly the
/// arguments that reproduce the request: `curl -i -X`, the method, the URL as
/// given, `-H` and the `name: value` line of each header in order, `-b` and
/// the cookies as given, `-d` and the text of the body.
pub proof fn lemma_curl_command_words(
    url: Seq<char>,
    method: Method,
    headers: Seq<(Seq<char>, Seq<u8>)>,
    body: Option<Seq<u8>>,
    cookies: Option<Seq<char>>,
)
    ensures
        shell_words(curl_command(url, method, headers, body, cookies)) == Some(
            curl_args(url, method, headers, body, cookies),
        ),
{
    let curl = seq!['c', 'u', 'r', 'l'];
    assert(all_shell_safe(curl)) by {
        assert forall|i: int| 0 <= i < curl.len() implies is_shell_safe_char(#[trigger] curl[i]) by {
            assert(i == 0 || i == 1 || i == 2 || i == 3);
        }
    }
    let name = method_name(method);
    assert(all_shell_safe(name)) by {
        assert forall|i: int| 0 <= i < name.len() implies is_shell_safe_char(#[trigger] name[i]) by {
            assert('A' <= name[i] && name[i] <= 'Z');
        }
    }
    lemma_safe_word_reads_as_itself(curl);
    lemma_flag_reads_as_itself('i');
    lemma_flag_reads_as_itself('X');
    lemma_safe_word_reads_as_itself(name);
    lemma_quoted_word_reads_back(url);
    let w0 = seq![curl];
    lemma_reads_as_concat(w0, w0, seq![seq!['-', 'i']], seq![seq!['-', 'i']]);
    let w1 = w0 + seq![seq!['-', 'i']];
    lemma_reads_as_concat(w1, w1, seq![seq!['-', 'X']], seq![seq!['-', 'X']]);
    let w2 = w1 + seq![seq!['-', 'X']];
    lemma_reads_as_concat(w2, w2, seq![name], seq![name]);
    let w3 = w2 + seq![name];
    lemma_reads_as_concat(w3, w3, seq![shell_quoted(url)], seq![url]);
    let start_words = seq![curl, seq!['-', 'i'], seq!['-', 'X'], name, shell_quoted(url)];
    let start_args = seq![curl, seq!['-', 'i'], seq!['-', 'X'], name, url];
    assert(w3 + seq![shell_quoted(url)] =~= start_words);
    assert(w3 + seq![url] =~= start_args);
    lemma_header_words_read_as_args(headers);
    lemma_reads_as_concat(start_words, start_args, header_words(headers), header_args(headers));
    let hw = start_words + header_words(headers);
    let ha = start_args + header_args(headers);
    let (cw, ca) = match cookies {
        Some(c) => {
            lemma_flag_reads_as_itself('b');
            lemma_quoted_word_reads_back(c);
            lemma_reads_as_concat(seq![seq!['-', 'b']], seq![seq!['-', 'b']], seq![shell_quoted(c)], seq![c]);
            assert(seq![seq!['-', 'b']] + seq![shell_quoted(c)] =~= seq![seq!['-', 'b'], shell_quoted(c)]);
            assert(seq![seq!['-', 'b']] + seq![c] =~= seq![seq!['-', 'b'], c]);
            lemma_reads_as_concat(hw, ha, seq![seq!['-', 'b'], shell_quoted(c)], seq![seq!['-', 'b'], c]);
            (hw + seq![seq!['-', 'b'], shell_quoted(c)], ha + seq![seq!['-', 'b'], c])
        },
        None => (hw, ha),
    };
    let (bw, ba) = match body {
        Some(b) => {
            let text = utf8_lossy(b);
            lemma_flag_reads_as_itself('d');
            lemma_quoted_word_reads_back(text);
            lemma_reads_as_concat(seq![seq!['-', 'd']], seq![seq!['-', 'd']], seq![shell_quoted(text)], seq![text]);
            assert(seq![seq!['-', 'd']] + seq![shell_quoted(text)] =~= seq![seq!['-', 'd'], shell_quoted(text)]);
            assert(seq![seq!['-', 'd']] + seq![text] =~= seq![seq!['-', 'd'], text]);
            lemma_reads_as_concat(cw, ca, seq![seq!['-', 'd'], shell_quoted(text)], seq![seq!['-', 'd'], text]);
            (cw + seq![seq!['-', 'd'], shell_quoted(text)], ca + seq![seq!['-', 'd'], text])
        },
        None => (cw, ca),
    };
    assert(bw =~= curl_words(url, method, headers, body, cookies));
    assert(ba =~= curl_args(url, method, headers, body, cookies));
    lemma_split_joined(bw, ba);
}

} // verus!
