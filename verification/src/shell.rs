use vstd::prelude::*;
use crate::text::{chars_of, push_char};
use crate::paths::{path_text, path_to_text};

verus! {

/// What one character of a value becomes between single quotes: a single
/// quote closes the quoted run, is written escaped, and a new run opens.
pub open spec fn quoted_piece(c: char) -> Seq<char> {
    if c == '\'' {
        seq!['\'', '\\', '\'', '\'']
    } else {
        seq![c]
    }
}

/// The body of a single-quoted word: every character of `s` in turn.
pub open spec fn quoted_body(s: Seq<char>) -> Seq<char>
    decreases s.len(),
{
    if s.len() == 0 {
        Seq::empty()
    } else {
        quoted_piece(s[0]) + quoted_body(s.drop_first())
    }
}

/// The shell word that stands for `s`: `'`, the quoted body, `'`.
pub open spec fn shell_quoted(s: Seq<char>) -> Seq<char> {
    seq!['\''] + quoted_body(s) + seq!['\'']
}

/// `c` in front of a decoded word, when there is one.
pub open spec fn prepend(c: char, w: Option<Seq<char>>) -> Option<Seq<char>> {
    match w {
        Some(r) => Some(seq![c] + r),
        None => None,
    }
}

/// How a POSIX shell reads a word made of single-quoted runs and
/// backslash escapes, outside any quotes. Any other unquoted character makes
/// the word unreadable here (`None`).
pub open spec fn sh_word_unquoted(s: Seq<char>) -> Option<Seq<char>>
    decreases s.len(), 1int,
{
    if s.len() == 0 {
        Some(Seq::empty())
    } else if s[0] == '\'' {
        sh_word_quoted(s.drop_first())
    } else if s[0] == '\\' && s.len() >= 2 {
        prepend(s[1], sh_word_unquoted(s.skip(2)))
    } else {
        None
    }
}

/// How a POSIX shell reads the rest of a word inside single quotes: every
/// character stands for itself up to the closing quote.
pub open spec fn sh_word_quoted(s: Seq<char>) -> Option<Seq<char>>
    decreases s.len(), 0int,
{
    if s.len() == 0 {
        None
    } else if s[0] == '\'' {
        sh_word_unquoted(s.drop_first())
    } else {
        prepend(s[0], sh_word_quoted(s.drop_first()))
    }
}

proof fn lemma_quoted_body_push(s: Seq<char>, c: char)
    ensures
        quoted_body(s.push(c)) == quoted_body(s) + quoted_piece(c),
    decreases s.len(),
{
    if s.len() == 0 {
        assert(s.push(c).drop_first() =~= Seq::<char>::empty());
        assert(quoted_body(Seq::<char>::empty()) =~= Seq::<char>::empty());
        assert(quoted_body(s.push(c)) =~= quoted_piece(c));
    } else {
        assert(s.push(c).drop_first() =~= s.drop_first().push(c));
        lemma_quoted_body_push(s.drop_first(), c);
        assert(quoted_body(s.push(c)) =~= quoted_body(s) + quoted_piece(c));
    }
}

proof fn lemma_quoted_body_reads_back(s: Seq<char>, rest: Seq<char>)
    ensures
        sh_word_quoted(quoted_body(s) + seq!['\''] + rest) == prepend_all(s, sh_word_unquoted(rest)),
    decreases s.len(),
{
    if s.len() == 0 {
        let w = quoted_body(s) + seq!['\''] + rest;
        assert(w =~= seq!['\''] + rest);
        assert(w.drop_first() =~= rest);
    } else {
        let c = s[0];
        let tail = s.drop_first();
        lemma_quoted_body_reads_back(tail, rest);
        let inner = quoted_body(tail) + seq!['\''] + rest;
        let w = quoted_body(s) + seq!['\''] + rest;
        assert(w =~= quoted_piece(c) + inner);
        if c == '\'' {
            assert(w[0] == '\'');
            let u = w.drop_first();
            assert(u =~= seq!['\\', '\''] + seq!['\''] + inner);
            assert(u[0] == '\\' && u[1] == '\'');
            assert(u.skip(2) =~= seq!['\''] + inner);
            assert(u.skip(2)[0] == '\'');
            assert(u.skip(2).drop_first() =~= inner);
            assert(sh_word_unquoted(u.skip(2)) == sh_word_quoted(inner));
            assert(sh_word_unquoted(u) == prepend('\'', sh_word_quoted(inner)));
            assert(sh_word_quoted(w) == sh_word_unquoted(u));
        } else {
            assert(w[0] == c);
            assert(w.drop_first() =~= inner);
            assert(sh_word_quoted(w) == prepend(c, sh_word_quoted(inner)));
        }
    }
}

/// The characters of `s` in front of a decoded word, when there is one.
pub open spec fn prepend_all(s: Seq<char>, w: Option<Seq<char>>) -> Option<Seq<char>>
    decreases s.len(),
{
    if s.len() == 0 {
        w
    } else {
        prepend(s[0], prepend_all(s.drop_first(), w))
    }
}

proof fn lemma_prepend_all_some(s: Seq<char>)
    ensures
        prepend_all(s, Some(Seq::<char>::empty())) == Some(s),
    decreases s.len(),
{
    if s.len() > 0 {
        lemma_prepend_all_some(s.drop_first());
        assert(seq![s[0]] + s.drop_first() =~= s);
    }
}

/// Read back by a POSIX shell, the quoted word is exactly the value: quoting
/// loses nothing and lets nothing of the value act as shell syntax.
pub proof fn lemma_shell_quote_reads_back(value: Seq<char>)
    ensures
        sh_word_unquoted(shell_quoted(value)) == Some(value),
{
    let w = shell_quoted(value);
    assert(w.drop_first() =~= quoted_body(value) + seq!['\''] + Seq::<char>::empty());
    lemma_quoted_body_reads_back(value, Seq::<char>::empty());
    lemma_prepend_all_some(value);
}

/// Wraps a value in single quotes for a POSIX shell, writing each single
/// quote of the value as `'\''`.
pub fn shell_quote(value: &str) -> (res: String)
    ensures
        res@ == shell_quoted(value@),
{
    let chars = chars_of(value);
    let mut out = String::new();
    push_char(&mut out, '\'');
    for i in 0..chars.len()
        invariant
            chars@ == value@,
            out@ == seq!['\''] + quoted_body(chars@.take(i as int)),
    {
        let c = chars[i];
        proof {
            assert(chars@.take(i + 1) =~= chars@.take(i as int).push(c));
            lemma_quoted_body_push(chars@.take(i as int), c);
        }
        if c == '\'' {
            push_char(&mut out, '\'');
            push_char(&mut out, '\\');
            push_char(&mut out, '\'');
            push_char(&mut out, '\'');
        } else {
            push_char(&mut out, c);
        }
        assert(out@ =~= seq!['\''] + quoted_body(chars@.take(i + 1)));
    }
    push_char(&mut out, '\'');
    assert(chars@.take(chars.len() as int) =~= value@);
    out
}

/// Quotes a path for a POSIX shell, as the text it is displayed with.
pub fn shell_quote_path(path: &Vec<String>) -> (res: String)
    ensures
        res@ == shell_quoted(path_text(path.deep_view())),
{
    let text = path_to_text(path);
    shell_quote(text.as_str())
}

} // verus!
