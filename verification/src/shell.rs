use vstd::prelude::*;
use crate::text::{chars_of, push_char};

verus! {

/// Characters that a POSIX shell reads literally outside quotes.
pub open spec fn is_shell_safe_char(c: char) -> bool {
    ||| ('a' <= c && c <= 'z')
    ||| ('A' <= c && c <= 'Z')
    ||| ('0' <= c && c <= '9')
    ||| c == '_' || c == '-' || c == '.' || c == '/' || c == ':'
    ||| c == '=' || c == '@' || c == ',' || c == '+'
}

/// Whether every character of `s` is shell-safe.
pub open spec fn all_shell_safe(s: Seq<char>) -> bool {
    forall|i: int| 0 <= i < s.len() ==> is_shell_safe_char(#[trigger] s[i])
}

/// How one character is written inside single quotes: a quote closes the
/// quoted run, is escaped with a backslash, and reopens it.
pub open spec fn quoted_char(c: char) -> Seq<char> {
    if c == '\'' {
        seq!['\'', '\\', '\'', '\'']
    } else {
        seq![c]
    }
}

/// The characters of `s`, each written as [`quoted_char`] says.
pub open spec fn quoted_body(s: Seq<char>) -> Seq<char>
    decreases s.len(),
{
    if s.len() == 0 {
        Seq::empty()
    } else {
        quoted_body(s.drop_last()) + quoted_char(s.last())
    }
}

/// The POSIX-shell quoting of `s`: `''` for the empty string, `s` itself when
/// every character is safe, and otherwise `s` in single quotes with each
/// single quote written as `'\''`.
pub open spec fn shell_quoted(s: Seq<char>) -> Seq<char> {
    if s.len() == 0 {
        seq!['\'', '\'']
    } else if all_shell_safe(s) {
        s
    } else {
        seq!['\''] + quoted_body(s) + seq!['\'']
    }
}

fn is_shell_safe(c: char) -> (r: bool)
    ensures
        r == is_shell_safe_char(c),
{
    ('a' <= c && c <= 'z') || ('A' <= c && c <= 'Z') || ('0' <= c && c <= '9') || c == '_'
        || c == '-' || c == '.' || c == '/' || c == ':' || c == '=' || c == '@' || c == ','
        || c == '+'
}

/// POSIX-shell-quote a string.
pub fn shell_quote(s: &str) -> (r: String)
    ensures
        r@ == shell_quoted(s@),
        r@ == s@ ==> s@.len() > 0 && forall|i: int| 0 <= i < s@.len() ==> (('a' <= s@[i] && s@[i] <= 'z') || ('A' <= s@[i] && s@[i] <= 'Z') || ('0' <= s@[i] && s@[i] <= '9') || s@[i] == '_' || s@[i] == '-' || s@[i] == '.' || s@[i] == '/' || s@[i] == ':' || s@[i] == '=' || s@[i] == '@' || s@[i] == ',' || s@[i] == '+'),
        (exists|i: int| 0 <= i < s@.len() && !(('a' <= s@[i] && s@[i] <= 'z') || ('A' <= s@[i] && s@[i] <= 'Z') || ('0' <= s@[i] && s@[i] <= '9') || s@[i] == '_' || s@[i] == '-' || s@[i] == '.' || s@[i] == '/' || s@[i] == ':' || s@[i] == '=' || s@[i] == '@' || s@[i] == ',' || s@[i] == '+')) ==> r@.len() >= s@.len() + 2
            && r@[0] == '\'' && r@.last() == '\'',
{
    proof {
        lemma_shell_quote_bare_only_plain_words(s@);
    }
    let cs = chars_of(s);
    let n = cs.len();
    let mut out = String::new();
    if n == 0 {
        push_char(&mut out, '\'');
        push_char(&mut out, '\'');
        assert(out@ =~= seq!['\'', '\'']);
        return out;
    }
    let mut safe = true;
    let mut i: usize = 0;
    while i < n
        invariant
            n == cs@.len(),
            cs@ == s@,
            i <= n,
            safe == (forall|j: int| 0 <= j < i ==> is_shell_safe_char(#[trigger] cs@[j])),
        decreases n - i,
    {
        let ok = is_shell_safe(cs[i]);
        safe = safe && ok;
        i = i + 1;
    }
    if safe {
        return s.to_string();
    }
    push_char(&mut out, '\'');
    let mut k: usize = 0;
    while k < n
        invariant
            n == cs@.len(),
            cs@ == s@,
            k <= n,
            out@ == seq!['\''] + quoted_body(cs@.take(k as int)),
        decreases n - k,
    {
        let ch = cs[k];
        if ch == '\'' {
            push_char(&mut out, '\'');
            push_char(&mut out, '\\');
            push_char(&mut out, '\'');
            push_char(&mut out, '\'');
        } else {
            push_char(&mut out, ch);
        }
        assert(cs@.take(k + 1).drop_last() =~= cs@.take(k as int));
        assert(out@ =~= seq!['\''] + quoted_body(cs@.take(k + 1)));
        k = k + 1;
    }
    assert(cs@.take(n as int) =~= cs@);
    push_char(&mut out, '\'');
    out
}

/// `c` before the text of `r`, when there is one.
pub open spec fn prepend_char(c: char, r: Option<Seq<char>>) -> Option<Seq<char>> {
    match r {
        Some(t) => Some(seq![c] + t),
        None => None,
    }
}

/// How a POSIX shell reads `w` as one word made of shell-safe characters,
/// single-quoted runs and backslash escapes, starting inside single quotes
/// when `quoted` holds: `None` when the word holds anything else outside
/// quotes (such as a space, which would split it) or leaves a quote open.
pub open spec fn shell_read(w: Seq<char>, quoted: bool) -> Option<Seq<char>>
    decreases w.len(),
{
    if w.len() == 0 {
        if quoted {
            None
        } else {
            Some(Seq::empty())
        }
    } else {
        let c = w[0];
        let rest = w.drop_first();
        if quoted {
            if c == '\'' {
                shell_read(rest, false)
            } else {
                prepend_char(c, shell_read(rest, true))
            }
        } else if c == '\'' {
            shell_read(rest, true)
        } else if c == '\\' {
            if rest.len() == 0 {
                None
            } else {
                prepend_char(rest[0], shell_read(rest.drop_first(), false))
            }
        } else if is_shell_safe_char(c) {
            prepend_char(c, shell_read(rest, false))
        } else {
            None
        }
    }
}

pub(crate) proof fn lemma_read_safe(s: Seq<char>)
    requires
        all_shell_safe(s),
    ensures
        shell_read(s, false) == Some(s),
    decreases s.len(),
{
    if s.len() > 0 {
        assert(is_shell_safe_char(s[0]));
        let rest = s.drop_first();
        assert(all_shell_safe(rest)) by {
            assert forall|i: int| 0 <= i < rest.len() implies is_shell_safe_char(#[trigger] rest[i]) by {
                assert(rest[i] == s[i + 1]);
            }
        }
        lemma_read_safe(rest);
        assert(seq![s[0]] + rest =~= s);
    }
}

proof fn lemma_quoted_body_front(c: char, t: Seq<char>)
    ensures
        quoted_body(seq![c] + t) == quoted_char(c) + quoted_body(t),
    decreases t.len(),
{
    if t.len() == 0 {
        assert((seq![c] + t).drop_last() =~= Seq::<char>::empty());
        assert(quoted_body(Seq::<char>::empty()) == Seq::<char>::empty());
        assert(quoted_char(c) + quoted_body(t) =~= quoted_char(c));
        assert(quoted_body(seq![c] + t) =~= quoted_body(Seq::<char>::empty()) + quoted_char(c));
    } else {
        let u = t.drop_last();
        lemma_quoted_body_front(c, u);
        assert((seq![c] + t).drop_last() =~= seq![c] + u);
        assert((seq![c] + t).last() == t.last());
        assert(quoted_body(seq![c] + t) =~= quoted_char(c) + quoted_body(t));
    }
}

proof fn lemma_read_quoted(s: Seq<char>)
    ensures
        shell_read(quoted_body(s) + seq!['\''], true) == Some(s),
    decreases s.len(),
{
    if s.len() == 0 {
        let w = quoted_body(s) + seq!['\''];
        assert(w =~= seq!['\'']);
        assert(w.drop_first() =~= Seq::<char>::empty());
        assert(s =~= Seq::<char>::empty());
        assert(shell_read(w, true) == shell_read(Seq::<char>::empty(), false));
    } else {
        let c = s[0];
        let t = s.drop_first();
        assert(seq![c] + t =~= s);
        lemma_quoted_body_front(c, t);
        lemma_read_quoted(t);
        let tail = quoted_body(t) + seq!['\''];
        let w = quoted_body(s) + seq!['\''];
        assert(w =~= quoted_char(c) + tail);
        if c == '\'' {
            assert(w[0] == '\'');
            let w1 = w.drop_first();
            assert(w1 =~= seq!['\\', '\'', '\''] + tail);
            assert(w1[0] == '\\');
            let w2 = w1.drop_first();
            assert(w2 =~= seq!['\'', '\''] + tail);
            assert(w2.len() > 0 && w2[0] == '\'');
            let w3 = w2.drop_first();
            assert(w3 =~= seq!['\''] + tail);
            assert(w3[0] == '\'');
            assert(w3.drop_first() =~= tail);
            assert(shell_read(w3, false) == shell_read(tail, true));
            assert(shell_read(w1, false) == prepend_char('\'', shell_read(w3, false)));
            assert(shell_read(w, true) == shell_read(w1, false));
            assert(shell_read(w, true) == Some(seq![c] + t));
        } else {
            assert(w[0] == c);
            assert(w.drop_first() =~= tail);
            assert(shell_read(w, true) == prepend_char(c, shell_read(tail, true)));
            assert(shell_read(w, true) == Some(seq![c] + t));
        }
    }
}

/// A POSIX shell reads the quoted form of any string back as exactly that
/// string, in one word.
pub proof fn lemma_shell_quote_reads_back(s: Seq<char>)
    ensures
        shell_read(shell_quoted(s), false) == Some(s),
{
    if s.len() == 0 {
        let w = seq!['\'', '\''];
        assert(w.drop_first() =~= seq!['\'']);
        assert(w.drop_first().drop_first() =~= Seq::<char>::empty());
        assert(shell_read(w.drop_first(), true) == shell_read(Seq::<char>::empty(), false));
        assert(s =~= Seq::<char>::empty());
    } else if all_shell_safe(s) {
        lemma_read_safe(s);
    } else {
        let w = seq!['\''] + quoted_body(s) + seq!['\''];
        lemma_read_quoted(s);
        assert(w.drop_first() =~= quoted_body(s) + seq!['\'']);
    }
}


/// How a POSIX shell splits `line` into words separated by single spaces,
/// reading each word as [`shell_read`] does: `quoted` says whether a
/// single-quoted run is open and `cur` is the part of the current word read so
/// far. `None` when a word cannot be read.
pub open spec fn split_words(line: Seq<char>, quoted: bool, cur: Seq<char>) -> Option<
    Seq<Seq<char>>,
>
    decreases line.len(),
{
    if line.len() == 0 {
        if quoted {
            None
        } else {
            Some(seq![cur])
        }
    } else {
        let c = line[0];
        let rest = line.drop_first();
        if quoted {
            if c == '\'' {
                split_words(rest, false, cur)
            } else {
                split_words(rest, true, cur.push(c))
            }
        } else if c == ' ' {
            match split_words(rest, false, Seq::empty()) {
                Some(ws) => Some(seq![cur] + ws),
                None => None,
            }
        } else if c == '\'' {
            split_words(rest, true, cur)
        } else if c == '\\' {
            if rest.len() == 0 {
                None
            } else {
                split_words(rest.drop_first(), false, cur.push(rest[0]))
            }
        } else if is_shell_safe_char(c) {
            split_words(rest, false, cur.push(c))
        } else {
            None
        }
    }
}

/// The words a POSIX shell reads from a command line whose words are separated
/// by single spaces.
pub open spec fn shell_words(line: Seq<char>) -> Option<Seq<Seq<char>>> {
    split_words(line, false, Seq::empty())
}

/// Reading a word that the shell reads as `t`, followed by the end of the line
/// or a space, adds `t` to the current word and stops at that space.
pub(crate) proof fn lemma_split_after_word(
    w: Seq<char>,
    quoted: bool,
    t: Seq<char>,
    tail: Seq<char>,
    cur: Seq<char>,
)
    requires
        shell_read(w, quoted) == Some(t),
        tail.len() == 0 || tail[0] == ' ',
    ensures
        split_words(w + tail, quoted, cur) == split_words(tail, false, cur + t),
    decreases w.len(),
{
    if w.len() == 0 {
        assert(w + tail =~= tail);
        assert(cur + t =~= cur);
    } else {
        let c = w[0];
        let rest = w.drop_first();
        let line = w + tail;
        assert(line[0] == c);
        assert(line.drop_first() =~= rest + tail);
        if quoted {
            if c == '\'' {
                lemma_split_after_word(rest, false, t, tail, cur);
            } else {
                let t1 = shell_read(rest, true)->0;
                assert(t == seq![c] + t1);
                lemma_split_after_word(rest, true, t1, tail, cur.push(c));
                assert(cur.push(c) + t1 =~= cur + t);
            }
        } else if c == '\'' {
            lemma_split_after_word(rest, true, t, tail, cur);
        } else if c == '\\' {
            let e = rest[0];
            let rest2 = rest.drop_first();
            let t1 = shell_read(rest2, false)->0;
            assert(t == seq![e] + t1);
            assert((rest + tail)[0] == e);
            assert((rest + tail).drop_first() =~= rest2 + tail);
            lemma_split_after_word(rest2, false, t1, tail, cur.push(e));
            assert(cur.push(e) + t1 =~= cur + t);
        } else {
            let t1 = shell_read(rest, false)->0;
            assert(t == seq![c] + t1);
            lemma_split_after_word(rest, false, t1, tail, cur.push(c));
            assert(cur.push(c) + t1 =~= cur + t);
        }
    }
}


proof fn lemma_quoted_body_len(s: Seq<char>)
    ensures
        quoted_body(s).len() >= s.len(),
    decreases s.len(),
{
    if s.len() > 0 {
        lemma_quoted_body_len(s.drop_last());
    }
}

/// Only a plain word is left as it is: the quoting of `s` is `s` itself only
/// when `s` is not empty and every character is an ASCII letter or digit or
/// one of `_ - . / : = @ , +`; any other character (a space, `&`, `?`, `;`,
/// `$`, a quote, ...) puts the whole word in single quotes.
pub proof fn lemma_shell_quote_bare_only_plain_words(s: Seq<char>)
    ensures
        shell_quoted(s) == s ==> s.len() > 0,
        shell_quoted(s) == s ==> forall|i: int| 0 <= i < s.len() ==> (('a' <= s[i] && s[i] <= 'z') || ('A' <= s[i] && s[i] <= 'Z') || ('0' <= s[i] && s[i] <= '9') || s[i] == '_' || s[i] == '-' || s[i] == '.' || s[i] == '/' || s[i] == ':' || s[i] == '=' || s[i] == '@' || s[i] == ',' || s[i] == '+'),
        (exists|i: int| 0 <= i < s.len() && !(('a' <= s[i] && s[i] <= 'z') || ('A' <= s[i] && s[i] <= 'Z') || ('0' <= s[i] && s[i] <= '9') || s[i] == '_' || s[i] == '-' || s[i] == '.' || s[i] == '/' || s[i] == ':' || s[i] == '=' || s[i] == '@' || s[i] == ',' || s[i] == '+')) ==> shell_quoted(s).len()
            >= s.len() + 2 && shell_quoted(s)[0] == '\'' && shell_quoted(s).last() == '\'',
{
    lemma_quoted_body_len(s);
    if s.len() == 0 {
        assert(shell_quoted(s).len() == 2);
    } else if all_shell_safe(s) {
        assert forall|i: int| 0 <= i < s.len() implies (('a' <= s[i] && s[i] <= 'z') || ('A' <= s[i] && s[i] <= 'Z') || ('0' <= s[i] && s[i] <= '9') || s[i] == '_' || s[i] == '-' || s[i] == '.' || s[i] == '/' || s[i] == ':' || s[i] == '=' || s[i] == '@' || s[i] == ',' || s[i] == '+') by {
            assert(is_shell_safe_char(s[i]));
        }
    } else {
        let q = shell_quoted(s);
        assert(q == seq!['\''] + quoted_body(s) + seq!['\'']);
        assert(q.len() == quoted_body(s).len() + 2);
    }
    if exists|i: int| 0 <= i < s.len() && !(('a' <= s[i] && s[i] <= 'z') || ('A' <= s[i] && s[i] <= 'Z') || ('0' <= s[i] && s[i] <= '9') || s[i] == '_' || s[i] == '-' || s[i] == '.' || s[i] == '/' || s[i] == ':' || s[i] == '=' || s[i] == '@' || s[i] == ',' || s[i] == '+') {
        let i = choose|i: int| 0 <= i < s.len() && !(('a' <= s[i] && s[i] <= 'z') || ('A' <= s[i] && s[i] <= 'Z') || ('0' <= s[i] && s[i] <= '9') || s[i] == '_' || s[i] == '-' || s[i] == '.' || s[i] == '/' || s[i] == ':' || s[i] == '=' || s[i] == '@' || s[i] == ',' || s[i] == '+');
        assert(!is_shell_safe_char(s[i]));
        assert(!all_shell_safe(s));
    }
}

} // verus!
