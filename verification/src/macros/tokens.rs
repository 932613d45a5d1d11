//! Tokens of macro input and their rendering as source text.

use vstd::prelude::*;

verus! {

/// A token of macro input
///
/// Groups are flattened: a group is its opening delimiter, its contents and
/// its closing delimiter.
#[derive(Debug, Clone, PartialEq, Eq)]
pub enum Tok {
    /// An identifier or keyword
    Ident(String),
    /// A punctuation character; `true` when joined to the next (as in `::`)
    Punct(String, bool),
    /// A literal, as written
    Literal(String),
    /// Opening delimiter: `(`, `[` or `{`
    Open(String),
    /// Closing delimiter: `)`, `]` or `}`
    Close(String),
}

/// The text of a token
pub open spec fn tok_text(t: Tok) -> Seq<char> {
    match t {
        Tok::Ident(s) => s@,
        Tok::Punct(s, _) => s@,
        Tok::Literal(s) => s@,
        Tok::Open(s) => s@,
        Tok::Close(s) => s@,
    }
}

/// What separates a token from the next: nothing after a joint punctuation
/// character, else a space
pub open spec fn tok_sep(t: Tok) -> Seq<char> {
    match t {
        Tok::Punct(_, true) => Seq::empty(),
        _ => seq![' '],
    }
}

/// Source text of a token sequence
pub open spec fn render(s: Seq<Tok>) -> Seq<char>
    decreases s.len(),
{
    if s.len() == 0 {
        Seq::empty()
    } else {
        render(s.drop_last()) + tok_text(s.last()) + tok_sep(s.last())
    }
}

/// `s` is the identifier `word`
pub open spec fn is_ident_spec(t: Tok, word: Seq<char>) -> bool {
    t matches Tok::Ident(s) && s@ == word
}

/// `s` is the punctuation character `p`
pub open spec fn is_punct_spec(t: Tok, p: Seq<char>) -> bool {
    t matches Tok::Punct(s, _) && s@ == p
}

/// True when `s` reads `lit`
pub fn text_eq(s: &String, lit: &str) -> (r: bool)
    ensures
        r == (s@ == lit@),
{
    let l = String::from_str(lit);
    *s == l
}

/// True when `t` is the identifier `word`
pub fn is_ident(t: &Tok, word: &str) -> (r: bool)
    ensures
        r == is_ident_spec(*t, word@),
{
    match t {
        Tok::Ident(s) => text_eq(s, word),
        _ => false,
    }
}

/// True when `t` is the punctuation character `p`
pub fn is_punct(t: &Tok, p: &str) -> (r: bool)
    ensures
        r == is_punct_spec(*t, p@),
{
    match t {
        Tok::Punct(s, _) => text_eq(s, p),
        _ => false,
    }
}

/// A copy of a string
pub fn copy_string(s: &String) -> (r: String)
    ensures
        r@ == s@,
{
    s.clone()
}

/// A copy of a token
pub fn copy_tok(t: &Tok) -> (r: Tok)
    ensures
        r == *t,
{
    match t {
        Tok::Ident(s) => Tok::Ident(s.clone()),
        Tok::Punct(s, j) => Tok::Punct(s.clone(), *j),
        Tok::Literal(s) => Tok::Literal(s.clone()),
        Tok::Open(s) => Tok::Open(s.clone()),
        Tok::Close(s) => Tok::Close(s.clone()),
    }
}

/// Append the source text of a token to `out`
pub fn push_tok_text(out: &mut String, t: &Tok)
    ensures
        final(out)@ == old(out)@ + tok_text(*t) + tok_sep(*t),
{
    match t {
        Tok::Ident(s) => {
            out.append(s.as_str());
            out.append(" ");
        },
        Tok::Punct(s, joint) => {
            out.append(s.as_str());
            if !*joint {
                out.append(" ");
            }
        },
        Tok::Literal(s) => {
            out.append(s.as_str());
            out.append(" ");
        },
        Tok::Open(s) => {
            out.append(s.as_str());
            out.append(" ");
        },
        Tok::Close(s) => {
            out.append(s.as_str());
            out.append(" ");
        },
    }
    proof {
        reveal_strlit(" ");
    }
}

/// Source text of a token sequence
pub fn render_toks(toks: &Vec<Tok>) -> (r: String)
    ensures
        r@ == render(toks@),
{
    let mut out = String::new();
    let mut i: usize = 0;
    while i < toks.len()
        invariant
            i <= toks@.len(),
            out@ == render(toks@.take(i as int)),
        decreases toks@.len() - i,
    {
        push_tok_text(&mut out, &toks[i]);
        proof {
            assert(toks@.take(i + 1).drop_last() =~= toks@.take(i as int));
        }
        i += 1;
    }
    proof {
        assert(toks@.take(toks@.len() as int) =~= toks@);
    }
    out
}

} // verus!
