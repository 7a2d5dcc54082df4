//! Quoting for POSIX `sh`.

use vstd::prelude::*;
use crate::strings::{chars_of, replace_char, replace_char_chars, string_of};

verus! {

/// The replacement written for a single quote inside a quoted string:
/// close the quote, an escaped quote, reopen the quote.
pub open spec fn quote_escape() -> Seq<char> {
    seq!['\'', '\\', '\'', '\'']
}

/// The quoted form of `val`: `'` + `val` with every `'` replaced by
/// `'\''` + `'`.
pub open spec fn shell_quoted(val: Seq<char>) -> Seq<char> {
    seq!['\''] + replace_char(val, '\'', quote_escape()) + seq!['\'']
}

/// `c` prepended to a parse result.
pub open spec fn prepend(c: Seq<char>, r: Option<Seq<char>>) -> Option<Seq<char>> {
    match r {
        Some(x) => Some(c + x),
        None => None,
    }
}

/// How `sh` reads a word made only of single-quoted runs and escaped
/// single quotes: inside quotes every character is literal up to the next
/// `'`; outside quotes only `'` (open a quote) and `\'` (a literal quote)
/// are accepted. `None` for anything else or an unterminated quote.
pub open spec fn sh_read(s: Seq<char>, quoted: bool) -> Option<Seq<char>>
    decreases s.len(),
{
    if s.len() == 0 {
        if quoted {
            None
        } else {
            Some(Seq::<char>::empty())
        }
    } else if quoted {
        if s[0] == '\'' {
            sh_read(s.drop_first(), false)
        } else {
            prepend(seq![s[0]], sh_read(s.drop_first(), true))
        }
    } else if s[0] == '\'' {
        sh_read(s.drop_first(), true)
    } else if s[0] == '\\' && s.len() >= 2 && s[1] == '\'' {
        prepend(seq!['\''], sh_read(s.skip(2), false))
    } else {
        None
    }
}

proof fn lemma_prepend_twice(a: Seq<char>, b: Seq<char>, r: Option<Seq<char>>)
    ensures
        prepend(a, prepend(b, r)) == prepend(a + b, r),
{
    match r {
        Some(x) => {
            assert(a + (b + x) =~= (a + b) + x);
        },
        None => {},
    }
}

/// Reading the escaped text of `s` inside a quote yields `s` followed by
/// whatever the rest yields.
proof fn lemma_read_escaped(s: Seq<char>, t: Seq<char>)
    ensures
        sh_read(replace_char(s, '\'', quote_escape()) + t, true) == prepend(s, sh_read(t, true)),
    decreases s.len(),
{
    if s.len() == 0 {
        assert(replace_char(s, '\'', quote_escape()) + t =~= t);
        match sh_read(t, true) {
            Some(x) => {
                assert(s + x =~= x);
            },
            None => {},
        }
    } else {
        let init = s.drop_last();
        let l = s.last();
        let piece = if l == '\'' {
            quote_escape()
        } else {
            seq![l]
        };
        assert(replace_char(s, '\'', quote_escape()) == replace_char(init, '\'', quote_escape())
            + piece);
        assert(replace_char(s, '\'', quote_escape()) + t =~= replace_char(
            init,
            '\'',
            quote_escape(),
        ) + (piece + t));
        lemma_read_escaped(init, piece + t);
        // Read `piece + t` inside a quote.
        if l == '\'' {
            let u = piece + t;
            assert(u[0] == '\'');
            assert(u.drop_first() =~= seq!['\\', '\'', '\''] + t);
            let v = u.drop_first();
            assert(v[0] == '\\' && v.len() >= 2 && v[1] == '\'');
            assert(v.skip(2) =~= seq!['\''] + t);
            let w = v.skip(2);
            assert(w[0] == '\'');
            assert(w.drop_first() =~= t);
            assert(sh_read(w, false) == sh_read(t, true));
            assert(sh_read(v, false) == prepend(seq!['\''], sh_read(w, false)));
            assert(sh_read(u, true) == sh_read(v, false));
            assert(sh_read(u, true) == prepend(seq!['\''], sh_read(t, true)));
        } else {
            let u = piece + t;
            assert(u[0] == l);
            assert(u.drop_first() =~= t);
            assert(sh_read(u, true) == prepend(seq![l], sh_read(t, true)));
        }
        lemma_prepend_twice(init, seq![l], sh_read(t, true));
        assert(init + seq![l] =~= s);
    }
}

/// Reading a quoted value back with `sh` gives the value itself.
pub proof fn law_shell_quote_round_trip(val: Seq<char>)
    ensures
        sh_read(shell_quoted(val), false) == Some(val),
{
    let e = replace_char(val, '\'', quote_escape());
    let q = shell_quoted(val);
    assert(q[0] == '\'');
    assert(q.drop_first() =~= e + seq!['\'']);
    lemma_read_escaped(val, seq!['\'']);
    let t = seq!['\''];
    assert(t.drop_first() =~= Seq::<char>::empty());
    assert(sh_read(Seq::<char>::empty(), false) == Some(Seq::<char>::empty()));
    assert(sh_read(t, true) == sh_read(t.drop_first(), false));
    assert(sh_read(t, true) == Some(Seq::<char>::empty()));
    assert(val + Seq::<char>::empty() =~= val);
}

/// Escape a string for safe use inside single-quoted shell strings.
///
/// Replaces internal `'` characters with `'\''` (end single-quote, escaped
/// literal quote, resume single-quote) and wraps the result in single quotes.
pub fn shell_escape(val: &str) -> (r: String)
    ensures
        r@ == shell_quoted(val@),
{
    let v = chars_of(val);
    let mut rep = Vec::new();
    rep.push('\'');
    rep.push('\\');
    rep.push('\'');
    rep.push('\'');
    assert(rep@ =~= quote_escape());
    let body = replace_char_chars(&v, '\'', &rep);
    let mut out = Vec::new();
    out.push('\'');
    let mut b = body;
    out.append(&mut b);
    out.push('\'');
    assert(out@ =~= shell_quoted(val@));
    string_of(&out)
}

} // verus!
