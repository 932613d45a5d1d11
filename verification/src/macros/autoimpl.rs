//! The `#[autoimpl(..)]` attribute: its grammar, and the implementations it
//! generates for structs.
//!
//! Forms: `#[autoimpl(Clone, Debug, Default ignore self.a, self.b where ..)]`
//! for traits over many fields, `#[autoimpl(Deref, DerefMut on self.f where
//! ..)]` for traits delegating to one field. In a `where` clause, the bound
//! `trait` stands for the trait being implemented.

use crate::macros::collection::{decimal, push_decimal};
use crate::macros::tokens::{
    copy_string, copy_tok, is_ident, is_ident_spec, is_punct, is_punct_spec, render, render_toks,
    text_eq, Tok,
};
use vstd::prelude::*;

verus! {

/// Traits implemented over many fields
#[derive(Clone, Copy, Debug, PartialEq, Eq, Structural)]
pub enum TraitMany {
    Clone,
    Debug,
    Default,
}

/// Traits implemented by delegating to one field
#[derive(Clone, Copy, Debug, PartialEq, Eq, Structural)]
pub enum TraitOne {
    Deref,
    DerefMut,
    HasBool,
    HasStr,
    HasString,
    SetAccel,
}

/// The class of a trait name
#[derive(Clone, Copy, Debug, PartialEq, Eq, Structural)]
pub enum Class {
    Many(TraitMany),
    One(TraitOne),
    /// `class_traits`: `HasBool`, `HasStr`, `HasString` and `SetAccel`
    ClassTraits,
}

/// The class of trait name `s`, if supported
pub open spec fn class_spec(s: Seq<char>) -> Option<Class> {
    if s == "Clone"@ {
        Some(Class::Many(TraitMany::Clone))
    } else if s == "Debug"@ {
        Some(Class::Many(TraitMany::Debug))
    } else if s == "Default"@ {
        Some(Class::Many(TraitMany::Default))
    } else if s == "Deref"@ {
        Some(Class::One(TraitOne::Deref))
    } else if s == "DerefMut"@ {
        Some(Class::One(TraitOne::DerefMut))
    } else if s == "HasBool"@ {
        Some(Class::One(TraitOne::HasBool))
    } else if s == "HasStr"@ {
        Some(Class::One(TraitOne::HasStr))
    } else if s == "HasString"@ {
        Some(Class::One(TraitOne::HasString))
    } else if s == "SetAccel"@ {
        Some(Class::One(TraitOne::SetAccel))
    } else if s == "class_traits"@ {
        Some(Class::ClassTraits)
    } else {
        None
    }
}

/// The class of trait name `ident`, if supported
pub fn class(ident: &String) -> (r: Option<Class>)
    ensures
        r == class_spec(ident@),
{
    if text_eq(ident, "Clone") {
        Some(Class::Many(TraitMany::Clone))
    } else if text_eq(ident, "Debug") {
        Some(Class::Many(TraitMany::Debug))
    } else if text_eq(ident, "Default") {
        Some(Class::Many(TraitMany::Default))
    } else if text_eq(ident, "Deref") {
        Some(Class::One(TraitOne::Deref))
    } else if text_eq(ident, "DerefMut") {
        Some(Class::One(TraitOne::DerefMut))
    } else if text_eq(ident, "HasBool") {
        Some(Class::One(TraitOne::HasBool))
    } else if text_eq(ident, "HasStr") {
        Some(Class::One(TraitOne::HasStr))
    } else if text_eq(ident, "HasString") {
        Some(Class::One(TraitOne::HasString))
    } else if text_eq(ident, "SetAccel") {
        Some(Class::One(TraitOne::SetAccel))
    } else if text_eq(ident, "class_traits") {
        Some(Class::ClassTraits)
    } else {
        None
    }
}

/// Words which cannot be identifiers
pub open spec fn keywords() -> Seq<&'static str> {
    seq![
        "_", "abstract", "as", "async", "await", "become", "box", "break", "const", "continue",
        "crate", "do", "dyn", "else", "enum", "extern", "false", "final", "fn", "for", "if",
        "impl", "in", "let", "loop", "macro", "match", "mod", "move", "mut", "override", "priv",
        "pub", "ref", "return", "Self", "self", "static", "struct", "super", "trait", "true",
        "try", "type", "typeof", "unsafe", "unsized", "use", "virtual", "where", "while", "yield",
    ]
}

/// `s` is a keyword
pub open spec fn is_keyword_spec(s: Seq<char>) -> bool {
    exists|k: int| 0 <= k < keywords().len() && #[trigger] keywords()[k]@ == s
}

/// True when `s` is a keyword
pub fn is_keyword(s: &String) -> (r: bool)
    ensures
        r == is_keyword_spec(s@),
{
    let kws: [&'static str; 52] = [
        "_", "abstract", "as", "async", "await", "become", "box", "break", "const", "continue",
        "crate", "do", "dyn", "else", "enum", "extern", "false", "final", "fn", "for", "if",
        "impl", "in", "let", "loop", "macro", "match", "mod", "move", "mut", "override", "priv",
        "pub", "ref", "return", "Self", "self", "static", "struct", "super", "trait", "true",
        "try", "type", "typeof", "unsafe", "unsized", "use", "virtual", "where", "while", "yield",
    ];
    assert(kws@ =~= keywords());
    let mut k: usize = 0;
    while k < 52
        invariant
            k <= 52,
            kws@ == keywords(),
            forall|j: int| 0 <= j < k ==> #[trigger] keywords()[j]@ != s@,
        decreases 52 - k,
    {
        if text_eq(s, kws[k]) {
            return true;
        }
        k += 1;
    }
    false
}

/// `t` is an identifier which is not a keyword
pub open spec fn is_plain_ident(t: Tok) -> bool {
    t matches Tok::Ident(s) && !is_keyword_spec(s@)
}

/// A field of a struct: by name or by index
#[derive(Debug, Clone, PartialEq, Eq)]
pub enum Member {
    Named(String),
    Unnamed(u32),
}

/// Two members name the same field
pub open spec fn member_eq(a: Member, b: Member) -> bool {
    match (a, b) {
        (Member::Named(x), Member::Named(y)) => x@ == y@,
        (Member::Unnamed(i), Member::Unnamed(j)) => i == j,
        _ => false,
    }
}

/// Source text of a member
pub open spec fn member_text(m: Member) -> Seq<char> {
    match m {
        Member::Named(s) => s@,
        Member::Unnamed(i) => decimal(i as nat),
    }
}

/// `c` is an ASCII decimal digit
pub open spec fn is_digit(c: char) -> bool {
    '0' <= c <= '9'
}

/// The value of a string of decimal digits
pub open spec fn digits_value(s: Seq<char>) -> int
    decreases s.len(),
{
    if s.len() == 0 {
        0
    } else {
        digits_value(s.drop_last()) * 10 + (s.last() as int - '0' as int)
    }
}

/// The value of an unsuffixed decimal integer literal, if it fits in `u32`
pub open spec fn index_value(s: Seq<char>) -> Option<u32> {
    if s.len() > 0 && (forall|i: int| 0 <= i < s.len() ==> is_digit(#[trigger] s[i]))
        && digits_value(s) <= u32::MAX {
        Some(digits_value(s) as u32)
    } else {
        None
    }
}

proof fn lemma_digits_value_mono(s: Seq<char>, i: int)
    requires
        0 <= i <= s.len(),
        forall|k: int| 0 <= k < s.len() ==> is_digit(#[trigger] s[k]),
    ensures
        0 <= digits_value(s.take(i)) <= digits_value(s),
    decreases s.len() - i,
{
    if i < s.len() {
        lemma_digits_value_mono(s, i + 1);
        assert(s.take(i + 1).drop_last() =~= s.take(i));
        assert(s.take(i + 1).last() == s[i]);
    } else {
        assert(s.take(i) =~= s);
    }
    lemma_digits_nonneg(s.take(i));
}

proof fn lemma_digits_nonneg(s: Seq<char>)
    requires
        forall|k: int| 0 <= k < s.len() ==> is_digit(#[trigger] s[k]),
    ensures
        digits_value(s) >= 0,
    decreases s.len(),
{
    if s.len() > 0 {
        assert forall|k: int| 0 <= k < s.drop_last().len() implies is_digit(
            #[trigger] s.drop_last()[k],
        ) by {
            assert(s.drop_last()[k] == s[k]);
        }
        lemma_digits_nonneg(s.drop_last());
    }
}

/// The index written by an integer literal
pub fn parse_index(text: &String) -> (r: Option<u32>)
    ensures
        r == index_value(text@),
{
    let s = text.as_str();
    let n = s.unicode_len();
    if n == 0 {
        return None;
    }
    let mut value: u64 = 0;
    let mut i: usize = 0;
    while i < n
        invariant
            n == s@.len(),
            s@ == text@,
            i <= n,
            forall|k: int| 0 <= k < i ==> is_digit(#[trigger] s@[k]),
            value == digits_value(s@.take(i as int)),
            value <= u32::MAX,
        decreases n - i,
    {
        let c = s.get_char(i);
        if !('0' <= c && c <= '9') {
            return None;
        }
        proof {
            assert(s@.take(i + 1).drop_last() =~= s@.take(i as int));
            assert(s@.take(i + 1).last() == c);
        }
        let d = (c as u32 - '0' as u32) as u64;
        let next = value * 10 + d;
        if next > 0xFFFF_FFFF {
            proof {
                assert forall|k: int| 0 <= k < i + 1 implies is_digit(#[trigger] s@.take(i + 1)[k]) by {
                    if k < i {
                        assert(s@.take(i + 1)[k] == s@[k]);
                    }
                }
                let rest = s@;
                if forall|k: int| 0 <= k < rest.len() ==> is_digit(#[trigger] rest[k]) {
                    lemma_digits_value_mono(rest, i + 1);
                }
            }
            return None;
        }
        value = next;
        i += 1;
    }
    proof {
        assert(s@.take(n as int) =~= s@);
    }
    Some(value as u32)
}

/// A member written as a single token, if it is one
pub open spec fn member_of(t: Tok) -> Option<Member> {
    match t {
        Tok::Ident(s) => if is_keyword_spec(s@) {
            None
        } else {
            Some(Member::Named(s))
        },
        Tok::Literal(s) => match index_value(s@) {
            Some(i) => Some(Member::Unnamed(i)),
            None => None,
        },
        _ => None,
    }
}

/// Parse a member from one token
pub fn parse_member(t: &Tok) -> (r: Option<Member>)
    ensures
        match (r, member_of(*t)) {
            (Some(Member::Named(a)), Some(Member::Named(b))) => a@ == b@,
            (Some(Member::Unnamed(a)), Some(Member::Unnamed(b))) => a == b,
            (None, None) => true,
            _ => false,
        },
{
    match t {
        Tok::Ident(s) => {
            if is_keyword(s) {
                None
            } else {
                Some(Member::Named(copy_string(s)))
            }
        },
        Tok::Literal(s) => match parse_index(s) {
            Some(i) => Some(Member::Unnamed(i)),
            None => None,
        },
        _ => None,
    }
}

/// What the attribute implements
#[derive(Debug, Clone, PartialEq, Eq)]
pub enum Body {
    /// Traits over many fields, with ignored fields and a `where` clause
    /// (its predicates)
    Many { targets: Vec<TraitMany>, ignores: Vec<Member>, clause: Option<Vec<Tok>> },
    /// Traits delegating to field `on`, with a `where` clause (its
    /// predicates)
    One { targets: Vec<TraitOne>, on: Member, clause: Option<Vec<Tok>> },
}

/// A parsed `#[autoimpl(..)]` attribute
#[derive(Debug, Clone, PartialEq, Eq)]
pub struct AutoImpl {
    pub body: Body,
    /// Fields were ignored while implementing `Default` (an error is
    /// reported, but parsing goes on)
    pub ignore_with_default: bool,
}

/// Why an attribute does not parse; positions index the input tokens
#[derive(Debug, Clone, Copy, PartialEq, Eq, Structural)]
pub enum AutoImplError {
    /// Unexpected token (or end of input) at this position
    Unexpected(usize),
    /// The trait named at this position is not supported
    UnsupportedTrait(usize),
    /// Traits over one field and over many fields are mixed; the second
    /// kind starts at this position
    Incompatible(usize),
}

/// Parsing mode: which kinds of traits were named
#[derive(Debug, Clone, Copy, PartialEq, Eq, Structural)]
pub enum Mode {
    Empty,
    One,
    Many,
    /// Traits over many fields including `Default`
    Default,
}

/// The traits listed by the attribute, as a spec value: list of targets
/// over many fields, over one field, the mode, and the position after the
/// list; or an error
pub open spec fn parse_targets_spec(toks: Seq<Tok>, pos: int, trailing: bool, many: Seq<TraitMany>, one: Seq<TraitOne>, mode: Mode)
    -> Result<(Seq<TraitMany>, Seq<TraitOne>, Mode, int), AutoImplError>
    decreases toks.len() - pos,
{
    if pos < 0 || pos >= toks.len() {
        Ok((many, one, mode, pos))
    } else if is_ident_spec(toks[pos], "where"@) || is_ident_spec(toks[pos], "on"@)
        || is_ident_spec(toks[pos], "ignore"@) {
        Ok((many, one, mode, pos))
    } else if trailing {
        if is_plain_ident(toks[pos]) {
            let name = match toks[pos] {
                Tok::Ident(s) => s@,
                _ => Seq::empty(),
            };
            match class_spec(name) {
                Some(Class::Many(TraitMany::Default)) => if mode == Mode::One {
                    Err(AutoImplError::Incompatible(pos as usize))
                } else {
                    parse_targets_spec(toks, pos + 1, false, many.push(TraitMany::Default), one, Mode::Default)
                },
                Some(Class::Many(t)) => if mode == Mode::One {
                    Err(AutoImplError::Incompatible(pos as usize))
                } else {
                    parse_targets_spec(
                        toks,
                        pos + 1,
                        false,
                        many.push(t),
                        one,
                        if mode == Mode::Empty {
                            Mode::Many
                        } else {
                            mode
                        },
                    )
                },
                Some(Class::One(t)) => if mode == Mode::Many || mode == Mode::Default {
                    Err(AutoImplError::Incompatible(pos as usize))
                } else {
                    parse_targets_spec(toks, pos + 1, false, many, one.push(t), Mode::One)
                },
                Some(Class::ClassTraits) => if mode == Mode::Many || mode == Mode::Default {
                    Err(AutoImplError::Incompatible(pos as usize))
                } else {
                    parse_targets_spec(
                        toks,
                        pos + 1,
                        false,
                        many,
                        one + seq![TraitOne::HasBool, TraitOne::HasStr, TraitOne::HasString, TraitOne::SetAccel],
                        Mode::One,
                    )
                },
                None => Err(AutoImplError::UnsupportedTrait(pos as usize)),
            }
        } else {
            Err(AutoImplError::Unexpected(pos as usize))
        }
    } else if is_punct_spec(toks[pos], ","@) {
        parse_targets_spec(toks, pos + 1, true, many, one, mode)
    } else {
        Err(AutoImplError::Unexpected(pos as usize))
    }
}

/// The members listed after `ignore` from `pos` (which follows a parsed
/// member): further members follow a comma and `self.`; a comma followed
/// by anything else ends the list (and is consumed)
pub open spec fn parse_more_ignores_spec(toks: Seq<Tok>, pos: int, acc: Seq<Member>) -> Result<(Seq<Member>, int), AutoImplError>
    decreases toks.len() - pos,
{
    if pos < 0 || pos >= toks.len() || !is_punct_spec(toks[pos], ","@) {
        Ok((acc, pos))
    } else if pos + 1 < toks.len() && is_ident_spec(toks[pos + 1], "self"@) {
        if !(pos + 2 < toks.len() && is_punct_spec(toks[pos + 2], "."@)) {
            Err(AutoImplError::Unexpected((pos + 2) as usize))
        } else if !(pos + 3 < toks.len() && member_of(toks[pos + 3]) is Some) {
            Err(AutoImplError::Unexpected((pos + 3) as usize))
        } else {
            parse_more_ignores_spec(toks, pos + 4, acc.push(member_of(toks[pos + 3])->0))
        }
    } else {
        Ok((acc, pos + 1))
    }
}

/// `self . member` at `pos`: the member, or the position of the error
pub open spec fn self_member_spec(toks: Seq<Tok>, pos: int) -> Result<Member, AutoImplError> {
    if !(0 <= pos < toks.len() && is_ident_spec(toks[pos], "self"@)) {
        Err(AutoImplError::Unexpected(pos as usize))
    } else if !(pos + 1 < toks.len() && is_punct_spec(toks[pos + 1], "."@)) {
        Err(AutoImplError::Unexpected((pos + 1) as usize))
    } else if !(pos + 2 < toks.len() && member_of(toks[pos + 2]) is Some) {
        Err(AutoImplError::Unexpected((pos + 2) as usize))
    } else {
        Ok(member_of(toks[pos + 2])->0)
    }
}

/// The `where` clause from `pos`: its predicates are all remaining tokens;
/// anything else left over is an error
pub open spec fn parse_clause_spec(toks: Seq<Tok>, pos: int) -> Result<Option<Seq<Tok>>, AutoImplError> {
    if pos < toks.len() && is_ident_spec(toks[pos], "where"@) {
        Ok(Some(toks.subrange(pos + 1, toks.len() as int)))
    } else if pos < toks.len() {
        Err(AutoImplError::Unexpected(pos as usize))
    } else {
        Ok(None)
    }
}

/// The parsed attribute: body (with field members compared by
/// `member_eq`, strings by their text) and whether fields were ignored
/// while implementing `Default`
pub open spec fn parse_spec(toks: Seq<Tok>) -> Result<(Seq<TraitMany>, Seq<TraitOne>, Option<Member>, Seq<Member>, Option<Seq<Tok>>, bool), AutoImplError> {
    match parse_targets_spec(toks, 0, true, Seq::empty(), Seq::empty(), Mode::Empty) {
        Err(e) => Err(e),
        Ok((many, one, mode, pos)) => if mode == Mode::One {
            if !(pos < toks.len() && is_ident_spec(toks[pos], "on"@)) {
                Err(AutoImplError::Unexpected(pos as usize))
            } else {
                match self_member_spec(toks, pos + 1) {
                    Err(e) => Err(e),
                    Ok(on) => match parse_clause_spec(toks, pos + 4) {
                        Err(e) => Err(e),
                        Ok(clause) => Ok((many, one, Some(on), Seq::empty(), clause, false)),
                    },
                }
            }
        } else if pos < toks.len() && is_ident_spec(toks[pos], "ignore"@) {
            match self_member_spec(toks, pos + 1) {
                Err(e) => Err(e),
                Ok(first) => match parse_more_ignores_spec(toks, pos + 4, seq![first]) {
                    Err(e) => Err(e),
                    Ok((ignores, p)) => match parse_clause_spec(toks, p) {
                        Err(e) => Err(e),
                        Ok(clause) => Ok((many, one, None, ignores, clause, mode == Mode::Default)),
                    },
                },
            }
        } else {
            match parse_clause_spec(toks, pos) {
                Err(e) => Err(e),
                Ok(clause) => Ok((many, one, None, Seq::empty(), clause, false)),
            }
        },
    }
}

/// Lists of members with the same texts
pub open spec fn members_eq(a: Seq<Member>, b: Seq<Member>) -> bool {
    a.len() == b.len() && forall|i: int| 0 <= i < a.len() ==> #[trigger] member_eq(a[i], b[i])
}

/// An attribute as parsed matches a result of [`parse_spec`]
pub open spec fn matches_parse(
    r: AutoImpl,
    p: (Seq<TraitMany>, Seq<TraitOne>, Option<Member>, Seq<Member>, Option<Seq<Tok>>, bool),
) -> bool {
    let (many, one, on, ignores, clause, ignore_with_default) = p;
    &&& r.ignore_with_default == ignore_with_default
    &&& match r.body {
        Body::Many { targets, ignores: ig, clause: c } => {
            &&& on is None
            &&& targets@ == many
            &&& members_eq(ig@, ignores)
            &&& match (c, clause) {
                (Some(c), Some(d)) => c@ == d,
                (None, None) => true,
                _ => false,
            }
        },
        Body::One { targets, on: o, clause: c } => {
            &&& on matches Some(m) && member_eq(o, m)
            &&& targets@ == one
            &&& match (c, clause) {
                (Some(c), Some(d)) => c@ == d,
                (None, None) => true,
                _ => false,
            }
        },
    }
}

/// True when `t` is an identifier which is not a keyword
fn is_plain_ident_exec(t: &Tok) -> (r: bool)
    ensures
        r == is_plain_ident(*t),
{
    match t {
        Tok::Ident(s) => !is_keyword(s),
        _ => false,
    }
}

/// The list of traits ends at `where`, `on` or `ignore`
fn ends_targets(t: &Tok) -> (r: bool)
    ensures
        r == (is_ident_spec(*t, "where"@) || is_ident_spec(*t, "on"@) || is_ident_spec(*t, "ignore"@)),
{
    is_ident(t, "where") || is_ident(t, "on") || is_ident(t, "ignore")
}

/// Parse the list of traits
fn parse_targets(toks: &Vec<Tok>) -> (r: Result<(Vec<TraitMany>, Vec<TraitOne>, Mode, usize), AutoImplError>)
    ensures
        match (r, parse_targets_spec(toks@, 0, true, Seq::empty(), Seq::empty(), Mode::Empty)) {
            (Ok((m, o, mode, pos)), Ok((m2, o2, mode2, pos2))) => m@ == m2 && o@ == o2 && mode == mode2
                && pos == pos2,
            (Err(e), Err(e2)) => e == e2,
            _ => false,
        },
        r matches Ok((_, _, _, pos)) ==> pos <= toks@.len(),
{
    let mut many: Vec<TraitMany> = Vec::new();
    let mut one: Vec<TraitOne> = Vec::new();
    let mut mode = Mode::Empty;
    let mut trailing = true;
    let mut pos: usize = 0;
    while pos < toks.len() && !ends_targets(&toks[pos])
        invariant
            pos <= toks@.len(),
            parse_targets_spec(toks@, 0, true, Seq::empty(), Seq::empty(), Mode::Empty)
                == parse_targets_spec(toks@, pos as int, trailing, many@, one@, mode),
        decreases toks@.len() - pos,
    {
        let t = &toks[pos];
        if trailing {
            if !is_plain_ident_exec(t) {
                return Err(AutoImplError::Unexpected(pos));
            }
            let name = match t {
                Tok::Ident(s) => s,
                _ => {
                    return Err(AutoImplError::Unexpected(pos));
                },
            };
            match class(name) {
                Some(Class::Many(TraitMany::Default)) => {
                    if mode == Mode::One {
                        return Err(AutoImplError::Incompatible(pos));
                    }
                    many.push(TraitMany::Default);
                    mode = Mode::Default;
                },
                Some(Class::Many(tr)) => {
                    if mode == Mode::One {
                        return Err(AutoImplError::Incompatible(pos));
                    }
                    many.push(tr);
                    if mode == Mode::Empty {
                        mode = Mode::Many;
                    }
                },
                Some(Class::One(tr)) => {
                    if mode == Mode::Many || mode == Mode::Default {
                        return Err(AutoImplError::Incompatible(pos));
                    }
                    one.push(tr);
                    mode = Mode::One;
                },
                Some(Class::ClassTraits) => {
                    if mode == Mode::Many || mode == Mode::Default {
                        return Err(AutoImplError::Incompatible(pos));
                    }
                    let ghost o0 = one@;
                    one.push(TraitOne::HasBool);
                    one.push(TraitOne::HasStr);
                    one.push(TraitOne::HasString);
                    one.push(TraitOne::SetAccel);
                    assert(one@ =~= o0 + seq![
                        TraitOne::HasBool,
                        TraitOne::HasStr,
                        TraitOne::HasString,
                        TraitOne::SetAccel,
                    ]);
                    mode = Mode::One;
                },
                None => {
                    return Err(AutoImplError::UnsupportedTrait(pos));
                },
            }
            trailing = false;
            pos += 1;
        } else if is_punct(t, ",") {
            trailing = true;
            pos += 1;
        } else {
            return Err(AutoImplError::Unexpected(pos));
        }
    }
    Ok((many, one, mode, pos))
}

/// Parse `self . member` at `pos`
fn parse_self_member(toks: &Vec<Tok>, pos: usize) -> (r: Result<Member, AutoImplError>)
    requires
        pos <= toks@.len(),
    ensures
        match (r, self_member_spec(toks@, pos as int)) {
            (Ok(a), Ok(b)) => member_eq(a, b),
            (Err(e), Err(f)) => e == f,
            _ => false,
        },
{
    if !(pos < toks.len() && is_ident(&toks[pos], "self")) {
        return Err(AutoImplError::Unexpected(pos));
    }
    if !(pos + 1 < toks.len() && is_punct(&toks[pos + 1], ".")) {
        return Err(AutoImplError::Unexpected(pos + 1));
    }
    if pos + 2 >= toks.len() {
        return Err(AutoImplError::Unexpected(pos + 2));
    }
    match parse_member(&toks[pos + 2]) {
        Some(m) => Ok(m),
        None => Err(AutoImplError::Unexpected(pos + 2)),
    }
}

/// Parse the `where` clause (if any) at `pos`, which must end the input
fn parse_clause(toks: &Vec<Tok>, pos: usize) -> (r: Result<Option<Vec<Tok>>, AutoImplError>)
    requires
        pos <= toks@.len(),
    ensures
        match (r, parse_clause_spec(toks@, pos as int)) {
            (Ok(Some(c)), Ok(Some(d))) => c@ == d,
            (Ok(None), Ok(None)) => true,
            (Err(e), Err(f)) => e == f,
            _ => false,
        },
{
    if pos < toks.len() && is_ident(&toks[pos], "where") {
        let mut clause: Vec<Tok> = Vec::new();
        let mut i = pos + 1;
        while i < toks.len()
            invariant
                pos + 1 <= i <= toks@.len(),
                clause@ == toks@.subrange(pos + 1, i as int),
            decreases toks@.len() - i,
        {
            clause.push(copy_tok(&toks[i]));
            assert(clause@ =~= toks@.subrange(pos + 1, i + 1));
            i += 1;
        }
        Ok(Some(clause))
    } else if pos < toks.len() {
        Err(AutoImplError::Unexpected(pos))
    } else {
        Ok(None)
    }
}

/// Parse the arguments of an `#[autoimpl(..)]` attribute on a struct
#[verifier::loop_isolation(false)]
pub fn parse(toks: &Vec<Tok>) -> (r: Result<AutoImpl, AutoImplError>)
    ensures
        match (r, parse_spec(toks@)) {
            (Ok(a), Ok(p)) => matches_parse(a, p),
            (Err(e), Err(f)) => e == f,
            _ => false,
        },
{
    let (many, one, mode, pos) = match parse_targets(toks) {
        Ok(x) => x,
        Err(e) => return Err(e),
    };
    if mode == Mode::One {
        if !(pos < toks.len() && is_ident(&toks[pos], "on")) {
            return Err(AutoImplError::Unexpected(pos));
        }
        let on = match parse_self_member(toks, pos + 1) {
            Ok(m) => m,
            Err(e) => return Err(e),
        };
        let clause = match parse_clause(toks, pos + 4) {
            Ok(c) => c,
            Err(e) => return Err(e),
        };
        Ok(AutoImpl { body: Body::One { targets: one, on, clause }, ignore_with_default: false })
    } else if pos < toks.len() && is_ident(&toks[pos], "ignore") {
        let first = match parse_self_member(toks, pos + 1) {
            Ok(m) => m,
            Err(e) => return Err(e),
        };
        let ghost first_spec = self_member_spec(toks@, pos + 1)->Ok_0;
        let mut ignores: Vec<Member> = Vec::new();
        ignores.push(first);
        let mut p = pos + 4;
        let ghost acc = seq![first_spec];
        loop
            invariant
                pos + 4 <= p <= toks@.len(),
                members_eq(ignores@, acc),
                parse_more_ignores_spec(toks@, pos + 4, seq![first_spec])
                    == parse_more_ignores_spec(toks@, p as int, acc),
            decreases toks@.len() - p,
        {
            if !(p < toks.len() && is_punct(&toks[p], ",")) {
                break;
            }
            if p + 1 < toks.len() && is_ident(&toks[p + 1], "self") {
                if !(p + 2 < toks.len() && is_punct(&toks[p + 2], ".")) {
                    return Err(AutoImplError::Unexpected(p + 2));
                }
                if p + 3 >= toks.len() {
                    return Err(AutoImplError::Unexpected(p + 3));
                }
                let m = match parse_member(&toks[p + 3]) {
                    Some(m) => m,
                    None => return Err(AutoImplError::Unexpected(p + 3)),
                };
                proof {
                    acc = acc.push(member_of(toks@[p + 3])->0);
                }
                ignores.push(m);
                p = p + 4;
            } else {
                p = p + 1;
                break;
            }
        }
        let clause = match parse_clause(toks, p) {
            Ok(c) => c,
            Err(e) => return Err(e),
        };
        Ok(
            AutoImpl {
                body: Body::Many { targets: many, ignores, clause },
                ignore_with_default: mode == Mode::Default,
            },
        )
    } else {
        let clause = match parse_clause(toks, pos) {
            Ok(c) => c,
            Err(e) => return Err(e),
        };
        Ok(AutoImpl { body: Body::Many { targets: many, ignores: Vec::new(), clause }, ignore_with_default: false })
    }
}

/// A struct field's type as written
#[derive(Debug, Clone, PartialEq, Eq)]
pub enum Fields {
    /// Named fields: name and type
    Named(Vec<(String, String)>),
    /// Unnamed fields: type
    Unnamed(Vec<String>),
    Unit,
}

/// What generation needs of a struct: its name, generics as written for
/// an impl (`<T: Bound>`) and for the type (`<T>`), the predicates of its
/// `where` clause and its fields
#[derive(Debug, Clone, PartialEq, Eq)]
pub struct StructDesc {
    pub ident: String,
    pub impl_generics: String,
    pub ty_generics: String,
    pub where_clause: Option<Vec<Tok>>,
    pub fields: Fields,
}

/// Source text of predicates with each `trait` bound replaced by `path`
pub open spec fn subst_text(toks: Seq<Tok>, path: Seq<char>) -> Seq<char>
    decreases toks.len(),
{
    if toks.len() == 0 {
        Seq::empty()
    } else {
        subst_text(toks.drop_last(), path) + if is_ident_spec(toks.last(), "trait"@) {
            path
        } else {
            crate::macros::tokens::tok_text(toks.last()) + crate::macros::tokens::tok_sep(toks.last())
        }
    }
}

/// Source text of predicates with each `trait` bound replaced by `path`
fn subst_toks(toks: &Vec<Tok>, path: &str) -> (r: String)
    ensures
        r@ == subst_text(toks@, path@),
{
    let mut out = String::new();
    let mut i: usize = 0;
    while i < toks.len()
        invariant
            i <= toks@.len(),
            out@ == subst_text(toks@.take(i as int), path@),
        decreases toks@.len() - i,
    {
        proof {
            assert(toks@.take(i + 1).drop_last() =~= toks@.take(i as int));
        }
        if is_ident(&toks[i], "trait") {
            out.append(path);
        } else {
            crate::macros::tokens::push_tok_text(&mut out, &toks[i]);
        }
        i += 1;
    }
    proof {
        assert(toks@.take(toks@.len() as int) =~= toks@);
    }
    out
}

/// The predicate list `toks` ends with a comma
pub open spec fn ends_with_comma(toks: Seq<Tok>) -> bool {
    toks.len() > 0 && is_punct_spec(toks.last(), ","@)
}

/// The `where` clause of an implementation of `path`: the struct's own
/// predicates, then those of the attribute with `trait` replaced by `path`;
/// nothing when there is no predicate
pub open spec fn clause_text(clause: Option<Seq<Tok>>, item_wc: Option<Seq<Tok>>, path: Seq<char>) -> Seq<char> {
    let own = match item_wc {
        Some(w) => w,
        None => Seq::empty(),
    };
    let attr = match clause {
        Some(c) => c,
        None => Seq::empty(),
    };
    if own.len() == 0 && attr.len() == 0 {
        Seq::empty()
    } else {
        "where "@ + render(own) + (if own.len() > 0 && attr.len() > 0 && !ends_with_comma(own) {
            ", "@
        } else {
            Seq::empty()
        }) + subst_text(attr, path)
    }
}

/// The `where` clause of an implementation of `path`
pub fn clause_to_text(clause: &Option<Vec<Tok>>, item_wc: &Option<Vec<Tok>>, path: &str) -> (r: String)
    ensures
        r@ == clause_text(
            match clause {
                Some(c) => Some(c@),
                None => None,
            },
            match item_wc {
                Some(w) => Some(w@),
                None => None,
            },
            path@,
        ),
{
    let own_len = match item_wc {
        Some(w) => w.len(),
        None => 0,
    };
    let attr_len = match clause {
        Some(c) => c.len(),
        None => 0,
    };
    if own_len == 0 && attr_len == 0 {
        return String::new();
    }
    let mut out = String::from_str("where ");
    let ends_comma = match item_wc {
        Some(w) => {
            out.append(render_toks(w).as_str());
            w.len() > 0 && is_punct(&w[w.len() - 1], ",")
        },
        None => {
            proof {
                assert(render(Seq::<Tok>::empty()) =~= Seq::<char>::empty());
            }
            false
        },
    };
    if own_len > 0 && attr_len > 0 && !ends_comma {
        out.append(", ");
    }
    match clause {
        Some(c) => {
            out.append(subst_toks(c, path).as_str());
        },
        None => {
            proof {
                assert(subst_text(Seq::<Tok>::empty(), path@) =~= Seq::<char>::empty());
            }
        },
    }
    out
}

/// `m` is one of `ignores`
pub open spec fn is_ignored(m: Member, ignores: Seq<Member>) -> bool {
    exists|k: int| 0 <= k < ignores.len() && #[trigger] member_eq(ignores[k], m)
}

/// `m` names the field `name`
pub open spec fn member_is_named(m: Member, name: Seq<char>) -> bool {
    m matches Member::Named(s) && s@ == name
}

/// The named field `name` is one of `ignores`
pub open spec fn is_ignored_name(name: Seq<char>, ignores: Seq<Member>) -> bool {
    exists|k: int| 0 <= k < ignores.len() && #[trigger] member_is_named(ignores[k], name)
}

/// True when the named field `name` is ignored
fn ignored_named(name: &String, ignores: &Vec<Member>) -> (r: bool)
    ensures
        r == is_ignored_name(name@, ignores@),
{
    let mut k: usize = 0;
    while k < ignores.len()
        invariant
            k <= ignores@.len(),
            forall|j: int| 0 <= j < k ==> !#[trigger] member_is_named(ignores@[j], name@),
        decreases ignores@.len() - k,
    {
        match &ignores[k] {
            Member::Named(s) => {
                if *s == *name {
                    assert(member_is_named(ignores@[k as int], name@));
                    return true;
                }
            },
            Member::Unnamed(_) => {},
        }
        k += 1;
    }
    false
}

/// True when the unnamed field `index` is ignored
fn ignored_unnamed(index: usize, ignores: &Vec<Member>) -> (r: bool)
    requires
        index <= u32::MAX,
    ensures
        r == is_ignored(Member::Unnamed(index as u32), ignores@),
{
    let mut k: usize = 0;
    while k < ignores.len()
        invariant
            k <= ignores@.len(),
            index <= u32::MAX,
            forall|j: int| 0 <= j < k ==> !#[trigger] member_eq(ignores@[j], Member::Unnamed(index as u32)),
        decreases ignores@.len() - k,
    {
        match &ignores[k] {
            Member::Unnamed(i) => {
                if *i as usize == index {
                    assert(member_eq(ignores@[k as int], Member::Unnamed(index as u32)));
                    return true;
                }
            },
            Member::Named(_) => {},
        }
        k += 1;
    }
    false
}

/// Concatenation of `f(name, type)` over named fields
pub open spec fn concat_named(fields: Seq<(String, String)>, f: spec_fn(Seq<char>, Seq<char>) -> Seq<char>) -> Seq<char>
    decreases fields.len(),
{
    if fields.len() == 0 {
        Seq::empty()
    } else {
        concat_named(fields.drop_last(), f) + f(fields.last().0@, fields.last().1@)
    }
}

/// Concatenation of `f(i)` for `i` in `0..n`
pub open spec fn concat_index(n: nat, f: spec_fn(int) -> Seq<char>) -> Seq<char>
    decreases n,
{
    if n == 0 {
        Seq::empty()
    } else {
        concat_index((n - 1) as nat, f) + f(n - 1)
    }
}

/// Initializer of a named field in `clone`
pub open spec fn clone_named_piece(name: Seq<char>, ignores: Seq<Member>) -> Seq<char> {
    name + ": "@ + if is_ignored_name(name, ignores) {
        "Default::default(), "@
    } else {
        "self."@ + name + ".clone(), "@
    }
}

/// Initializer of an unnamed field in `clone`
pub open spec fn clone_unnamed_piece(i: int, ignores: Seq<Member>) -> Seq<char> {
    if is_ignored(Member::Unnamed(i as u32), ignores) {
        "Default::default(), "@
    } else {
        "self."@ + decimal(i as nat) + ".clone(), "@
    }
}

/// Body of the generated `clone`
pub open spec fn clone_body(fields: Fields, ignores: Seq<Member>) -> Seq<char> {
    match fields {
        Fields::Named(v) => "Self { "@ + concat_named(v@, |n: Seq<char>, t: Seq<char>| clone_named_piece(n, ignores)) + "}"@,
        Fields::Unnamed(v) => "Self( "@ + concat_index(v@.len(), |i: int| clone_unnamed_piece(i, ignores)) + ")"@,
        Fields::Unit => "Self"@,
    }
}

/// The generated `clone` of a struct with named fields builds `Self { .. }`
/// with, for each field in order, `field: Default::default(), ` when the
/// field is ignored and `field: self.field.clone(), ` otherwise; of a tuple
/// struct, `Self( .. )` with `Default::default(), ` or `self.i.clone(), `
/// for each field `i`
pub proof fn law_clone_ignores_use_default(v: Seq<(String, String)>, n: nat, ignores: Seq<Member>)
    ensures
        "Self { "@ + concat_named(v, |name: Seq<char>, t: Seq<char>| clone_named_piece(name, ignores)) + "}"@
            == "Self { "@ + concat_named(
            v,
            |name: Seq<char>, t: Seq<char>|
                if is_ignored_name(name, ignores) {
                    name + ": Default::default(), "@
                } else {
                    name + ": self."@ + name + ".clone(), "@
                },
        ) + "}"@,
        concat_index(n, |i: int| clone_unnamed_piece(i, ignores)) == concat_index(
            n,
            |i: int|
                if is_ignored(Member::Unnamed(i as u32), ignores) {
                    "Default::default(), "@
                } else {
                    "self."@ + decimal(i as nat) + ".clone(), "@
                },
        ),
{
    reveal_strlit(": ");
    reveal_strlit("Default::default(), ");
    reveal_strlit(": Default::default(), ");
    reveal_strlit("self.");
    reveal_strlit(": self.");
    reveal_strlit(".clone(), ");
    let f = |name: Seq<char>, t: Seq<char>| clone_named_piece(name, ignores);
    let g = |name: Seq<char>, t: Seq<char>|
        if is_ignored_name(name, ignores) {
            name + ": Default::default(), "@
        } else {
            name + ": self."@ + name + ".clone(), "@
        };
    assert forall|name: Seq<char>, t: Seq<char>| #[trigger] f(name, t) == g(name, t) by {
        if is_ignored_name(name, ignores) {
            assert(name + ": "@ + "Default::default(), "@ =~= name + ": Default::default(), "@);
        } else {
            assert(name + ": "@ + ("self."@ + name + ".clone(), "@) =~= name + ": self."@ + name + ".clone(), "@);
        }
    }
    assert(f =~= g);
    let h1 = |i: int| clone_unnamed_piece(i, ignores);
    let h2 = |i: int|
        if is_ignored(Member::Unnamed(i as u32), ignores) {
            "Default::default(), "@
        } else {
            "self."@ + decimal(i as nat) + ".clone(), "@
        };
    assert(h1 =~= h2);
}

proof fn lemma_concat_named_append(
    a: Seq<(String, String)>,
    b: Seq<(String, String)>,
    f: spec_fn(Seq<char>, Seq<char>) -> Seq<char>,
)
    ensures
        concat_named(a + b, f) == concat_named(a, f) + concat_named(b, f),
    decreases b.len(),
{
    if b.len() == 0 {
        assert(a + b =~= a);
        assert(concat_named(a, f) + Seq::<char>::empty() =~= concat_named(a, f));
    } else {
        assert((a + b).drop_last() =~= a + b.drop_last());
        assert((a + b).last() == b.last());
        lemma_concat_named_append(a, b.drop_last(), f);
        assert(concat_named(a, f) + concat_named(b.drop_last(), f) + f(b.last().0@, b.last().1@) =~= concat_named(
            a,
            f,
        ) + (concat_named(b.drop_last(), f) + f(b.last().0@, b.last().1@)));
    }
}

/// In the generated `clone` of a struct with named fields, field `k` is
/// initialised, after the fields before it and before those after it, by
/// `Default::default()` when it is ignored and by a clone of the field
/// (`self.field.clone()`) otherwise
pub proof fn law_clone_field_init(fields: Fields, ignores: Seq<Member>, k: int)
    requires
        fields is Named,
        0 <= k < fields->Named_0@.len(),
    ensures
        ({
            let v = fields->Named_0@;
            let name = v[k].0@;
            let f = |n: Seq<char>, t: Seq<char>| clone_named_piece(n, ignores);
            clone_body(fields, ignores) == "Self { "@ + concat_named(v.take(k), f) + (if is_ignored_name(
                name,
                ignores,
            ) {
                name + ": Default::default(), "@
            } else {
                name + ": self."@ + name + ".clone(), "@
            }) + concat_named(v.skip(k + 1), f) + "}"@
        }),
{
    reveal_strlit(": ");
    reveal_strlit("Default::default(), ");
    reveal_strlit(": Default::default(), ");
    reveal_strlit("self.");
    reveal_strlit(": self.");
    reveal_strlit(".clone(), ");
    let v = fields->Named_0@;
    let name = v[k].0@;
    let f = |n: Seq<char>, t: Seq<char>| clone_named_piece(n, ignores);
    let one = seq![v[k]];
    assert(v =~= v.take(k) + one + v.skip(k + 1));
    lemma_concat_named_append(v.take(k) + one, v.skip(k + 1), f);
    lemma_concat_named_append(v.take(k), one, f);
    assert(one.drop_last() =~= Seq::<(String, String)>::empty());
    assert(one.last() == v[k]);
    assert(concat_named(one.drop_last(), f) == Seq::<char>::empty());
    assert(Seq::<char>::empty() + f(name, v[k].1@) =~= f(name, v[k].1@));
    assert(concat_named(one, f) == f(name, v[k].1@));
    if is_ignored_name(name, ignores) {
        assert(f(name, v[k].1@) =~= name + ": Default::default(), "@);
    } else {
        assert(f(name, v[k].1@) =~= name + ": self."@ + name + ".clone(), "@);
    }
    assert("Self { "@ + concat_named(v, f) + "}"@ =~= "Self { "@ + concat_named(v.take(k), f) + f(name, v[k].1@)
        + concat_named(v.skip(k + 1), f) + "}"@);
}

/// A named field shown by `fmt`, unless ignored
pub open spec fn debug_named_piece(name: Seq<char>, ignores: Seq<Member>) -> Seq<char> {
    if is_ignored_name(name, ignores) {
        Seq::empty()
    } else {
        ".field(\""@ + name + "\", &self."@ + name + ")"@
    }
}

/// In the generated `fmt` of a struct with named fields, field `k` is
/// shown (`.field("name", &self.name)`), after the fields before it and
/// before those after it, unless it is ignored, when it is left out; with
/// ignored fields the output ends `.finish_non_exhaustive()`
pub proof fn law_debug_field_shown_unless_ignored(ident: Seq<char>, fields: Fields, ignores: Seq<Member>, k: int)
    requires
        fields is Named,
        0 <= k < fields->Named_0@.len(),
    ensures
        ({
            let v = fields->Named_0@;
            let name = v[k].0@;
            let f = |n: Seq<char>, t: Seq<char>| debug_named_piece(n, ignores);
            debug_body(ident, fields, ignores) == "f.debug_struct(\""@ + ident + "\")"@ + concat_named(v.take(k), f)
                + (if is_ignored_name(name, ignores) {
                Seq::<char>::empty()
            } else {
                ".field(\""@ + name + "\", &self."@ + name + ")"@
            }) + concat_named(v.skip(k + 1), f) + if ignores.len() == 0 {
                ".finish()"@
            } else {
                ".finish_non_exhaustive()"@
            }
        }),
{
    let v = fields->Named_0@;
    let name = v[k].0@;
    let f = |n: Seq<char>, t: Seq<char>| debug_named_piece(n, ignores);
    let one = seq![v[k]];
    assert(v =~= v.take(k) + one + v.skip(k + 1));
    lemma_concat_named_append(v.take(k) + one, v.skip(k + 1), f);
    lemma_concat_named_append(v.take(k), one, f);
    assert(one.drop_last() =~= Seq::<(String, String)>::empty());
    assert(one.last() == v[k]);
    assert(concat_named(one.drop_last(), f) == Seq::<char>::empty());
    assert(Seq::<char>::empty() + f(name, v[k].1@) =~= f(name, v[k].1@));
    assert(concat_named(one, f) == f(name, v[k].1@));
    let tail = if ignores.len() == 0 {
        ".finish()"@
    } else {
        ".finish_non_exhaustive()"@
    };
    assert("f.debug_struct(\""@ + ident + "\")"@ + concat_named(v, f) + tail =~= "f.debug_struct(\""@ + ident
        + "\")"@ + concat_named(v.take(k), f) + f(name, v[k].1@) + concat_named(v.skip(k + 1), f) + tail);
}

/// An unnamed field shown by `fmt`, unless ignored
pub open spec fn debug_unnamed_piece(i: int, ignores: Seq<Member>) -> Seq<char> {
    if is_ignored(Member::Unnamed(i as u32), ignores) {
        Seq::empty()
    } else {
        ".field(&self."@ + decimal(i as nat) + ")"@
    }
}

/// Body of the generated `fmt`
pub open spec fn debug_body(ident: Seq<char>, fields: Fields, ignores: Seq<Member>) -> Seq<char> {
    match fields {
        Fields::Named(v) => "f.debug_struct(\""@ + ident + "\")"@ + concat_named(v@, |n: Seq<char>, t: Seq<char>| debug_named_piece(n, ignores))
            + if ignores.len() == 0 {
            ".finish()"@
        } else {
            ".finish_non_exhaustive()"@
        },
        Fields::Unnamed(v) => "f.debug_tuple(\""@ + ident + "\")"@ + concat_index(v@.len(), |i: int| debug_unnamed_piece(i, ignores))
            + ".finish()"@,
        Fields::Unit => "\""@ + ident + "\""@,
    }
}

/// Body of the generated `default`
pub open spec fn default_body(ident: Seq<char>, fields: Fields) -> Seq<char> {
    match fields {
        Fields::Named(v) => ident + " { "@ + concat_named(v@, |n: Seq<char>, t: Seq<char>| n + ": Default::default(), "@) + "}"@,
        Fields::Unnamed(v) => ident + "("@ + concat_index(v@.len(), |i: int| "Default::default(), "@) + ")"@,
        Fields::Unit => ident,
    }
}

/// The head of an implementation: `impl<..> Path for Type<..> where ..`
pub open spec fn impl_head(item: StructDesc, path: Seq<char>, clause: Option<Seq<Tok>>) -> Seq<char> {
    "impl"@ + item.impl_generics@ + " "@ + path + "for "@ + item.ident@ + item.ty_generics@ + " "@ + clause_text(
        clause,
        match item.where_clause {
            Some(w) => Some(w@),
            None => None,
        },
        path,
    )
}

/// Append the head of an implementation of `path` to `out`
fn push_impl_head(out: &mut String, item: &StructDesc, path: &str, clause: &Option<Vec<Tok>>)
    ensures
        final(out)@ == old(out)@ + impl_head(
            *item,
            path@,
            match clause {
                Some(c) => Some(c@),
                None => None,
            },
        ),
{
    let ghost o0 = out@;
    out.append("impl");
    out.append(item.impl_generics.as_str());
    out.append(" ");
    out.append(path);
    out.append("for ");
    out.append(item.ident.as_str());
    out.append(item.ty_generics.as_str());
    out.append(" ");
    let wc = clause_to_text(clause, &item.where_clause, path);
    out.append(wc.as_str());
    assert(out@ =~= o0 + impl_head(
        *item,
        path@,
        match clause {
            Some(c) => Some(c@),
            None => None,
        },
    ));
}

/// The implementation of `target` over many fields
pub open spec fn many_impl(target: TraitMany, item: StructDesc, ignores: Seq<Member>, clause: Option<Seq<Tok>>) -> Seq<char> {
    match target {
        TraitMany::Clone => impl_head(item, "std::clone::Clone "@, clause) + "{ fn clone(&self) -> Self { "@
            + clone_body(item.fields, ignores) + " } } "@,
        TraitMany::Debug => impl_head(item, "std::fmt::Debug "@, clause)
            + "{ fn fmt(&self, f: &mut std::fmt::Formatter) -> std::fmt::Result { "@ + debug_body(
            item.ident@,
            item.fields,
            ignores,
        ) + " } } "@,
        TraitMany::Default => impl_head(item, "std::default::Default "@, clause) + "{ fn default() -> Self { "@
            + default_body(item.ident@, item.fields) + " } } "@,
    }
}

/// Concatenation of the implementations of `targets` over many fields
pub open spec fn many_impls(targets: Seq<TraitMany>, item: StructDesc, ignores: Seq<Member>, clause: Option<Seq<Tok>>) -> Seq<char>
    decreases targets.len(),
{
    if targets.len() == 0 {
        Seq::empty()
    } else {
        many_impls(targets.drop_last(), item, ignores, clause) + many_impl(targets.last(), item, ignores, clause)
    }
}


/// The implementation of `target` delegating to field `on` of type `ty`
pub open spec fn one_impl(target: TraitOne, item: StructDesc, on: Seq<char>, ty: Seq<char>, clause: Option<Seq<Tok>>) -> Seq<char> {
    match target {
        TraitOne::Deref => impl_head(item, "std::ops::Deref "@, clause) + "{ type Target = "@ + ty + "; fn deref(&self) -> &Self::Target { &self."@ + on + " } } "@,
        TraitOne::DerefMut => impl_head(item, "std::ops::DerefMut "@, clause) + "{ fn deref_mut(&mut self) -> &mut Self::Target { &mut self."@ + on + " } } "@,
        TraitOne::HasBool => impl_head(item, "::kas::class::HasBool "@, clause) + "{ #[inline] fn get_bool(&self) -> bool { self."@ + on + ".get_bool() } #[inline] fn set_bool(&mut self, state: bool) -> ::kas::TkAction { self."@ + on + ".set_bool(state) } } "@,
        TraitOne::HasStr => impl_head(item, "::kas::class::HasStr "@, clause) + "{ #[inline] fn get_str(&self) -> &str { self."@ + on + ".get_str() } #[inline] fn get_string(&self) -> String { self."@ + on + ".get_string() } } "@,
        TraitOne::HasString => impl_head(item, "::kas::class::HasString "@, clause) + "{ #[inline] fn set_str(&mut self, text: &str) -> ::kas::TkAction { self."@ + on + ".set_str(text) } #[inline] fn set_string(&mut self, text: String) -> ::kas::TkAction { self."@ + on + ".set_string(text) } } "@,
        TraitOne::SetAccel => impl_head(item, "::kas::class::SetAccel "@, clause) + "{ #[inline] fn set_accel_string(&mut self, accel: AccelString) -> ::kas::TkAction { self."@ + on + ".set_accel_string(accel) } } "@,
    }
}

/// Concatenation of the implementations of `targets` delegating to `on`
pub open spec fn one_impls(targets: Seq<TraitOne>, item: StructDesc, on: Seq<char>, ty: Seq<char>, clause: Option<Seq<Tok>>) -> Seq<char>
    decreases targets.len(),
{
    if targets.len() == 0 {
        Seq::empty()
    } else {
        one_impls(targets.drop_last(), item, on, ty, clause) + one_impl(targets.last(), item, on, ty, clause)
    }
}


fn push_one_deref(out: &mut String, item: &StructDesc, on: &str, ty: &str, clause: &Option<Vec<Tok>>)
    ensures
        final(out)@ == old(out)@ + one_impl(
            TraitOne::Deref,
            *item,
            on@,
            ty@,
            match clause {
                Some(c) => Some(c@),
                None => None,
            },
        ),
{
    let ghost o0 = out@;
        push_impl_head(out, item, "std::ops::Deref ", clause);
        let ghost o1 = out@;
        out.append("{ type Target = ");
        out.append(ty);
        out.append("; fn deref(&self) -> &Self::Target { &self.");
        out.append(on);
        out.append(" } } ");
        assert(out@ =~= o1 + ("{ type Target = "@ + ty@ + "; fn deref(&self) -> &Self::Target { &self."@ + on@ + " } } "@));
}

fn push_one_derefmut(out: &mut String, item: &StructDesc, on: &str, ty: &str, clause: &Option<Vec<Tok>>)
    ensures
        final(out)@ == old(out)@ + one_impl(
            TraitOne::DerefMut,
            *item,
            on@,
            ty@,
            match clause {
                Some(c) => Some(c@),
                None => None,
            },
        ),
{
    let ghost o0 = out@;
        push_impl_head(out, item, "std::ops::DerefMut ", clause);
        let ghost o1 = out@;
        out.append("{ fn deref_mut(&mut self) -> &mut Self::Target { &mut self.");
        out.append(on);
        out.append(" } } ");
        assert(out@ =~= o1 + ("{ fn deref_mut(&mut self) -> &mut Self::Target { &mut self."@ + on@ + " } } "@));
}

fn push_one_hasbool(out: &mut String, item: &StructDesc, on: &str, ty: &str, clause: &Option<Vec<Tok>>)
    ensures
        final(out)@ == old(out)@ + one_impl(
            TraitOne::HasBool,
            *item,
            on@,
            ty@,
            match clause {
                Some(c) => Some(c@),
                None => None,
            },
        ),
{
    let ghost o0 = out@;
        push_impl_head(out, item, "::kas::class::HasBool ", clause);
        let ghost o1 = out@;
        out.append("{ #[inline] fn get_bool(&self) -> bool { self.");
        out.append(on);
        out.append(".get_bool() } #[inline] fn set_bool(&mut self, state: bool) -> ::kas::TkAction { self.");
        out.append(on);
        out.append(".set_bool(state) } } ");
        assert(out@ =~= o1 + ("{ #[inline] fn get_bool(&self) -> bool { self."@ + on@ + ".get_bool() } #[inline] fn set_bool(&mut self, state: bool) -> ::kas::TkAction { self."@ + on@ + ".set_bool(state) } } "@));
}

fn push_one_hasstr(out: &mut String, item: &StructDesc, on: &str, ty: &str, clause: &Option<Vec<Tok>>)
    ensures
        final(out)@ == old(out)@ + one_impl(
            TraitOne::HasStr,
            *item,
            on@,
            ty@,
            match clause {
                Some(c) => Some(c@),
                None => None,
            },
        ),
{
    let ghost o0 = out@;
        push_impl_head(out, item, "::kas::class::HasStr ", clause);
        let ghost o1 = out@;
        out.append("{ #[inline] fn get_str(&self) -> &str { self.");
        out.append(on);
        out.append(".get_str() } #[inline] fn get_string(&self) -> String { self.");
        out.append(on);
        out.append(".get_string() } } ");
        assert(out@ =~= o1 + ("{ #[inline] fn get_str(&self) -> &str { self."@ + on@ + ".get_str() } #[inline] fn get_string(&self) -> String { self."@ + on@ + ".get_string() } } "@));
}

fn push_one_hasstring(out: &mut String, item: &StructDesc, on: &str, ty: &str, clause: &Option<Vec<Tok>>)
    ensures
        final(out)@ == old(out)@ + one_impl(
            TraitOne::HasString,
            *item,
            on@,
            ty@,
            match clause {
                Some(c) => Some(c@),
                None => None,
            },
        ),
{
    let ghost o0 = out@;
        push_impl_head(out, item, "::kas::class::HasString ", clause);
        let ghost o1 = out@;
        out.append("{ #[inline] fn set_str(&mut self, text: &str) -> ::kas::TkAction { self.");
        out.append(on);
        out.append(".set_str(text) } #[inline] fn set_string(&mut self, text: String) -> ::kas::TkAction { self.");
        out.append(on);
        out.append(".set_string(text) } } ");
        assert(out@ =~= o1 + ("{ #[inline] fn set_str(&mut self, text: &str) -> ::kas::TkAction { self."@ + on@ + ".set_str(text) } #[inline] fn set_string(&mut self, text: String) -> ::kas::TkAction { self."@ + on@ + ".set_string(text) } } "@));
}

fn push_one_setaccel(out: &mut String, item: &StructDesc, on: &str, ty: &str, clause: &Option<Vec<Tok>>)
    ensures
        final(out)@ == old(out)@ + one_impl(
            TraitOne::SetAccel,
            *item,
            on@,
            ty@,
            match clause {
                Some(c) => Some(c@),
                None => None,
            },
        ),
{
    let ghost o0 = out@;
        push_impl_head(out, item, "::kas::class::SetAccel ", clause);
        let ghost o1 = out@;
        out.append("{ #[inline] fn set_accel_string(&mut self, accel: AccelString) -> ::kas::TkAction { self.");
        out.append(on);
        out.append(".set_accel_string(accel) } } ");
        assert(out@ =~= o1 + ("{ #[inline] fn set_accel_string(&mut self, accel: AccelString) -> ::kas::TkAction { self."@ + on@ + ".set_accel_string(accel) } } "@));
}

/// Append the implementation of `target` delegating to `on` (of type `ty`)
fn push_one_impl(out: &mut String, target: TraitOne, item: &StructDesc, on: &str, ty: &str, clause: &Option<Vec<Tok>>)
    ensures
        final(out)@ == old(out)@ + one_impl(
            target,
            *item,
            on@,
            ty@,
            match clause {
                Some(c) => Some(c@),
                None => None,
            },
        ),
{
    match target {
        TraitOne::Deref => push_one_deref(out, item, on, ty, clause),
        TraitOne::DerefMut => push_one_derefmut(out, item, on, ty, clause),
        TraitOne::HasBool => push_one_hasbool(out, item, on, ty, clause),
        TraitOne::HasStr => push_one_hasstr(out, item, on, ty, clause),
        TraitOne::HasString => push_one_hasstring(out, item, on, ty, clause),
        TraitOne::SetAccel => push_one_setaccel(out, item, on, ty, clause),
    }
}

proof fn lemma_named_step(v: Seq<(String, String)>, i: int, f: spec_fn(Seq<char>, Seq<char>) -> Seq<char>)
    requires
        0 <= i < v.len(),
    ensures
        concat_named(v.take(i + 1), f) == concat_named(v.take(i), f) + f(v[i].0@, v[i].1@),
{
    assert(v.take(i + 1).drop_last() =~= v.take(i));
}

/// Append the body of the generated `clone`
fn push_clone_body(out: &mut String, fields: &Fields, ignores: &Vec<Member>)
    requires
        fields matches Fields::Unnamed(v) ==> v@.len() <= u32::MAX,
    ensures
        final(out)@ == old(out)@ + clone_body(*fields, ignores@),
{
    let ghost o0 = out@;
    match fields {
        Fields::Named(v) => {
            out.append("Self { ");
            let ghost f = |n: Seq<char>, t: Seq<char>| clone_named_piece(n, ignores@);
            let mut i: usize = 0;
            while i < v.len()
                invariant
                    i <= v@.len(),
                    f == (|n: Seq<char>, t: Seq<char>| clone_named_piece(n, ignores@)),
                    out@ == o0 + "Self { "@ + concat_named(v@.take(i as int), f),
                decreases v@.len() - i,
            {
                proof {
                    lemma_named_step(v@, i as int, f);
                }
                let ghost o1 = out@;
                let name = &v[i].0;
                out.append(name.as_str());
                out.append(": ");
                if ignored_named(name, ignores) {
                    out.append("Default::default(), ");
                    assert(out@ =~= o1 + (name@ + ": "@ + "Default::default(), "@));
                } else {
                    out.append("self.");
                    out.append(name.as_str());
                    out.append(".clone(), ");
                    assert(out@ =~= o1 + (name@ + ": "@ + ("self."@ + name@ + ".clone(), "@)));
                }
                i += 1;
            }
            proof {
                assert(v@.take(v@.len() as int) =~= v@);
            }
            out.append("}");
        },
        Fields::Unnamed(v) => {
            out.append("Self( ");
            let ghost f = |i: int| clone_unnamed_piece(i, ignores@);
            let mut i: usize = 0;
            while i < v.len()
                invariant
                    i <= v@.len() <= u32::MAX,
                    f == (|i: int| clone_unnamed_piece(i, ignores@)),
                    out@ == o0 + "Self( "@ + concat_index(i as nat, f),
                decreases v@.len() - i,
            {
                let ghost o1 = out@;
                if ignored_unnamed(i, ignores) {
                    out.append("Default::default(), ");
                } else {
                    out.append("self.");
                    push_decimal(out, i);
                    out.append(".clone(), ");
                    assert(out@ =~= o1 + ("self."@ + decimal(i as nat) + ".clone(), "@));
                }
                i += 1;
            }
            out.append(")");
        },
        Fields::Unit => {
            out.append("Self");
        },
    }
}

/// Append the body of the generated `fmt`
fn push_debug_body(out: &mut String, ident: &String, fields: &Fields, ignores: &Vec<Member>)
    requires
        fields matches Fields::Unnamed(v) ==> v@.len() <= u32::MAX,
    ensures
        final(out)@ == old(out)@ + debug_body(ident@, *fields, ignores@),
{
    let ghost o0 = out@;
    match fields {
        Fields::Named(v) => {
            out.append("f.debug_struct(\"");
            out.append(ident.as_str());
            out.append("\")");
            let ghost head = out@;
            let ghost f = |n: Seq<char>, t: Seq<char>| debug_named_piece(n, ignores@);
            let mut i: usize = 0;
            while i < v.len()
                invariant
                    i <= v@.len(),
                    f == (|n: Seq<char>, t: Seq<char>| debug_named_piece(n, ignores@)),
                    out@ == head + concat_named(v@.take(i as int), f),
                decreases v@.len() - i,
            {
                proof {
                    lemma_named_step(v@, i as int, f);
                }
                let ghost o1 = out@;
                let name = &v[i].0;
                if !ignored_named(name, ignores) {
                    out.append(".field(\"");
                    out.append(name.as_str());
                    out.append("\", &self.");
                    out.append(name.as_str());
                    out.append(")");
                    assert(out@ =~= o1 + (".field(\""@ + name@ + "\", &self."@ + name@ + ")"@));
                } else {
                    assert(out@ =~= o1 + Seq::<char>::empty());
                }
                i += 1;
            }
            proof {
                assert(v@.take(v@.len() as int) =~= v@);
            }
            if ignores.len() == 0 {
                out.append(".finish()");
            } else {
                out.append(".finish_non_exhaustive()");
            }
        },
        Fields::Unnamed(v) => {
            out.append("f.debug_tuple(\"");
            out.append(ident.as_str());
            out.append("\")");
            let ghost head = out@;
            let ghost f = |i: int| debug_unnamed_piece(i, ignores@);
            let mut i: usize = 0;
            while i < v.len()
                invariant
                    i <= v@.len() <= u32::MAX,
                    f == (|i: int| debug_unnamed_piece(i, ignores@)),
                    out@ == head + concat_index(i as nat, f),
                decreases v@.len() - i,
            {
                let ghost o1 = out@;
                if !ignored_unnamed(i, ignores) {
                    out.append(".field(&self.");
                    push_decimal(out, i);
                    out.append(")");
                    assert(out@ =~= o1 + (".field(&self."@ + decimal(i as nat) + ")"@));
                } else {
                    assert(out@ =~= o1 + Seq::<char>::empty());
                }
                i += 1;
            }
            out.append(".finish()");
        },
        Fields::Unit => {
            out.append("\"");
            out.append(ident.as_str());
            out.append("\"");
        },
    }
}

/// Append the body of the generated `default`
fn push_default_body(out: &mut String, ident: &String, fields: &Fields)
    ensures
        final(out)@ == old(out)@ + default_body(ident@, *fields),
{
    let ghost o0 = out@;
    match fields {
        Fields::Named(v) => {
            out.append(ident.as_str());
            out.append(" { ");
            let ghost head = out@;
            let ghost f = |n: Seq<char>, t: Seq<char>| n + ": Default::default(), "@;
            let mut i: usize = 0;
            while i < v.len()
                invariant
                    i <= v@.len(),
                    f == (|n: Seq<char>, t: Seq<char>| n + ": Default::default(), "@),
                    out@ == head + concat_named(v@.take(i as int), f),
                decreases v@.len() - i,
            {
                proof {
                    lemma_named_step(v@, i as int, f);
                }
                let ghost o1 = out@;
                out.append(v[i].0.as_str());
                out.append(": Default::default(), ");
                assert(out@ =~= o1 + (v@[i as int].0@ + ": Default::default(), "@));
                i += 1;
            }
            proof {
                assert(v@.take(v@.len() as int) =~= v@);
            }
            out.append("}");
        },
        Fields::Unnamed(v) => {
            out.append(ident.as_str());
            out.append("(");
            let ghost head = out@;
            let ghost f = |i: int| "Default::default(), "@;
            let mut i: usize = 0;
            while i < v.len()
                invariant
                    i <= v@.len(),
                    f == (|i: int| "Default::default(), "@),
                    out@ == head + concat_index(i as nat, f),
                decreases v@.len() - i,
            {
                out.append("Default::default(), ");
                i += 1;
            }
            out.append(")");
        },
        Fields::Unit => {
            out.append(ident.as_str());
        },
    }
}

/// Append the implementation of `target` over many fields
fn push_many_impl(out: &mut String, target: TraitMany, item: &StructDesc, ignores: &Vec<Member>, clause: &Option<Vec<Tok>>)
    requires
        item.fields matches Fields::Unnamed(v) ==> v@.len() <= u32::MAX,
    ensures
        final(out)@ == old(out)@ + many_impl(
            target,
            *item,
            ignores@,
            match clause {
                Some(c) => Some(c@),
                None => None,
            },
        ),
{
    let ghost o0 = out@;
    match target {
        TraitMany::Clone => {
            push_impl_head(out, item, "std::clone::Clone ", clause);
            let ghost o1 = out@;
            out.append("{ fn clone(&self) -> Self { ");
            push_clone_body(out, &item.fields, ignores);
            out.append(" } } ");
            assert(out@ =~= o1 + ("{ fn clone(&self) -> Self { "@ + clone_body(item.fields, ignores@) + " } } "@));
        },
        TraitMany::Debug => {
            push_impl_head(out, item, "std::fmt::Debug ", clause);
            let ghost o1 = out@;
            out.append("{ fn fmt(&self, f: &mut std::fmt::Formatter) -> std::fmt::Result { ");
            push_debug_body(out, &item.ident, &item.fields, ignores);
            out.append(" } } ");
            assert(out@ =~= o1 + ("{ fn fmt(&self, f: &mut std::fmt::Formatter) -> std::fmt::Result { "@
                + debug_body(item.ident@, item.fields, ignores@) + " } } "@));
        },
        TraitMany::Default => {
            push_impl_head(out, item, "std::default::Default ", clause);
            let ghost o1 = out@;
            out.append("{ fn default() -> Self { ");
            push_default_body(out, &item.ident, &item.fields);
            out.append(" } } ");
            assert(out@ =~= o1 + ("{ fn default() -> Self { "@ + default_body(item.ident@, item.fields) + " } } "@));
        },
    }
}

/// The implementations of `targets` over many fields
pub fn autoimpl_many(targets: &Vec<TraitMany>, ignores: &Vec<Member>, item: &StructDesc, clause: &Option<Vec<Tok>>) -> (r: String)
    requires
        item.fields matches Fields::Unnamed(v) ==> v@.len() <= u32::MAX,
    ensures
        r@ == many_impls(
            targets@,
            *item,
            ignores@,
            match clause {
                Some(c) => Some(c@),
                None => None,
            },
        ),
{
    let ghost cl = match clause {
        Some(c) => Some(c@),
        None => None,
    };
    let mut out = String::new();
    let mut i: usize = 0;
    while i < targets.len()
        invariant
            i <= targets@.len(),
            item.fields matches Fields::Unnamed(v) ==> v@.len() <= u32::MAX,
            cl == match clause {
                Some(c) => Some(c@),
                None => None,
            },
            out@ == many_impls(targets@.take(i as int), *item, ignores@, cl),
        decreases targets@.len() - i,
    {
        proof {
            assert(targets@.take(i + 1).drop_last() =~= targets@.take(i as int));
        }
        push_many_impl(&mut out, targets[i], item, ignores, clause);
        i += 1;
    }
    proof {
        assert(targets@.take(targets@.len() as int) =~= targets@);
    }
    out
}

/// The first named field called `name`, from index `k`: its type
pub open spec fn find_named(v: Seq<(String, String)>, name: Seq<char>, k: int) -> Option<Seq<char>>
    decreases v.len() - k,
{
    if k < 0 || k >= v.len() {
        None
    } else if v[k].0@ == name {
        Some(v[k].1@)
    } else {
        find_named(v, name, k + 1)
    }
}

/// The type of field `m`, if it is a field
pub open spec fn field_ty(fields: Fields, m: Member) -> Option<Seq<char>> {
    match (fields, m) {
        (Fields::Named(v), Member::Named(s)) => find_named(v@, s@, 0),
        (Fields::Unnamed(v), Member::Unnamed(i)) => if (i as int) < v@.len() {
            Some(v@[i as int]@)
        } else {
            None
        },
        _ => None,
    }
}

/// The type of field `m`, if it is a field
#[verifier::loop_isolation(false)]
fn field_type(fields: &Fields, m: &Member) -> (r: Option<String>)
    ensures
        match (r, field_ty(*fields, *m)) {
            (Some(a), Some(b)) => a@ == b,
            (None, None) => true,
            _ => false,
        },
{
    match fields {
        Fields::Named(v) => match m {
            Member::Named(s) => {
                let mut k: usize = 0;
                while k < v.len()
                    invariant
                        k <= v@.len(),
                        find_named(v@, s@, 0) == find_named(v@, s@, k as int),
                    decreases v@.len() - k,
                {
                    if v[k].0 == *s {
                        assert(find_named(v@, s@, k as int) == Some(v@[k as int].1@));
                        return Some(copy_string(&v[k].1));
                    }
                    k += 1;
                }
                None
            },
            Member::Unnamed(_) => None,
        },
        Fields::Unnamed(v) => match m {
            Member::Unnamed(i) => {
                if (*i as usize) < v.len() {
                    Some(copy_string(&v[*i as usize]))
                } else {
                    None
                }
            },
            Member::Named(_) => None,
        },
        Fields::Unit => None,
    }
}

/// Source text of a member
pub fn member_to_text(m: &Member) -> (r: String)
    ensures
        r@ == member_text(*m),
{
    match m {
        Member::Named(s) => copy_string(s),
        Member::Unnamed(i) => {
            let mut t = String::new();
            push_decimal(&mut t, *i as usize);
            t
        },
    }
}

/// The implementations of `targets` delegating to field `on`; the field
/// type is used by `Deref` only
pub open spec fn one_impls_for(targets: Seq<TraitOne>, item: StructDesc, on: Member, clause: Option<Seq<Tok>>) -> Seq<char> {
    let ty = match field_ty(item.fields, on) {
        Some(t) => t,
        None => Seq::empty(),
    };
    one_impls(targets, item, member_text(on), ty, clause)
}

/// The implementations of `targets` delegating to field `on`
pub fn autoimpl_one(targets: &Vec<TraitOne>, on: &Member, item: &StructDesc, clause: &Option<Vec<Tok>>) -> (r: String)
    requires
        targets@.contains(TraitOne::Deref) ==> field_ty(item.fields, *on) is Some,
    ensures
        r@ == one_impls_for(
            targets@,
            *item,
            *on,
            match clause {
                Some(c) => Some(c@),
                None => None,
            },
        ),
{
    let ghost cl = match clause {
        Some(c) => Some(c@),
        None => None,
    };
    let on_text = member_to_text(on);
    let ty = match field_type(&item.fields, on) {
        Some(t) => t,
        None => String::new(),
    };
    let mut out = String::new();
    let mut i: usize = 0;
    while i < targets.len()
        invariant
            i <= targets@.len(),
            cl == match clause {
                Some(c) => Some(c@),
                None => None,
            },
            on_text@ == member_text(*on),
            ty@ == match field_ty(item.fields, *on) {
                Some(t) => t,
                None => Seq::empty(),
            },
            out@ == one_impls(targets@.take(i as int), *item, on_text@, ty@, cl),
        decreases targets@.len() - i,
    {
        proof {
            assert(targets@.take(i + 1).drop_last() =~= targets@.take(i as int));
        }
        push_one_impl(&mut out, targets[i], item, on_text.as_str(), ty.as_str(), clause);
        i += 1;
    }
    proof {
        assert(targets@.take(targets@.len() as int) =~= targets@);
    }
    out
}

/// `m` names a field of the struct
pub open spec fn is_field(fields: Fields, m: Member) -> bool {
    match (fields, m) {
        (Fields::Named(v), Member::Named(s)) => exists|k: int| 0 <= k < v@.len() && #[trigger] v@[k].0@ == s@,
        (Fields::Unnamed(v), Member::Unnamed(i)) => (i as int) < v@.len(),
        _ => false,
    }
}

/// True when `m` names a field of the struct
#[verifier::loop_isolation(false)]
fn check_is_field(fields: &Fields, m: &Member) -> (r: bool)
    ensures
        r == is_field(*fields, *m),
{
    match fields {
        Fields::Named(v) => match m {
            Member::Named(s) => {
                let mut k: usize = 0;
                while k < v.len()
                    invariant
                        k <= v@.len(),
                        forall|j: int| 0 <= j < k ==> #[trigger] v@[j].0@ != s@,
                    decreases v@.len() - k,
                {
                    if v[k].0 == *s {
                        assert(v@[k as int].0@ == s@);
                        return true;
                    }
                    k += 1;
                }
                false
            },
            Member::Unnamed(_) => false,
        },
        Fields::Unnamed(v) => match m {
            Member::Unnamed(i) => (*i as usize) < v.len(),
            Member::Named(_) => false,
        },
        Fields::Unit => false,
    }
}

/// The members which name no field, in order
pub open spec fn non_fields(ms: Seq<Member>, fields: Fields) -> Seq<Member>
    decreases ms.len(),
{
    if ms.len() == 0 {
        Seq::empty()
    } else if is_field(fields, ms.last()) {
        non_fields(ms.drop_last(), fields)
    } else {
        non_fields(ms.drop_last(), fields).push(ms.last())
    }
}

/// Output of `#[autoimpl]` on a struct: members reported as not being
/// fields (each an error), and the generated implementations
#[derive(Debug, Clone, PartialEq, Eq)]
pub struct AutoImplOutput {
    pub not_fields: Vec<Member>,
    pub text: String,
}

/// Apply a parsed `#[autoimpl]` attribute to a struct
pub fn autoimpl_struct(attr: &AutoImpl, item: &StructDesc) -> (r: AutoImplOutput)
    requires
        item.fields matches Fields::Unnamed(v) ==> v@.len() <= u32::MAX,
        attr.body matches Body::One { targets, on, .. } ==> (targets@.contains(TraitOne::Deref) ==> field_ty(
            item.fields,
            on,
        ) is Some),
    ensures
        match attr.body {
            Body::Many { targets, ignores, clause } => {
                &&& members_eq(r.not_fields@, non_fields(ignores@, item.fields))
                &&& r.text@ == many_impls(
                    targets@,
                    *item,
                    ignores@,
                    match clause {
                        Some(c) => Some(c@),
                        None => None,
                    },
                )
            },
            Body::One { targets, on, clause } => {
                &&& members_eq(
                    r.not_fields@,
                    if is_field(item.fields, on) {
                        Seq::empty()
                    } else {
                        seq![on]
                    },
                )
                &&& r.text@ == one_impls_for(
                    targets@,
                    *item,
                    on,
                    match clause {
                        Some(c) => Some(c@),
                        None => None,
                    },
                )
            },
        },
{
    match &attr.body {
        Body::Many { targets, ignores, clause } => {
            let mut not_fields: Vec<Member> = Vec::new();
            let mut i: usize = 0;
            while i < ignores.len()
                invariant
                    i <= ignores@.len(),
                    members_eq(not_fields@, non_fields(ignores@.take(i as int), item.fields)),
                decreases ignores@.len() - i,
            {
                proof {
                    assert(ignores@.take(i + 1).drop_last() =~= ignores@.take(i as int));
                }
                if !check_is_field(&item.fields, &ignores[i]) {
                    let m = match &ignores[i] {
                        Member::Named(s) => Member::Named(copy_string(s)),
                        Member::Unnamed(k) => Member::Unnamed(*k),
                    };
                    not_fields.push(m);
                }
                i += 1;
            }
            proof {
                assert(ignores@.take(ignores@.len() as int) =~= ignores@);
            }
            let text = autoimpl_many(targets, ignores, item, clause);
            AutoImplOutput { not_fields, text }
        },
        Body::One { targets, on, clause } => {
            let mut not_fields: Vec<Member> = Vec::new();
            if !check_is_field(&item.fields, on) {
                let m = match on {
                    Member::Named(s) => Member::Named(copy_string(s)),
                    Member::Unnamed(k) => Member::Unnamed(*k),
                };
                not_fields.push(m);
            }
            let text = autoimpl_one(targets, on, item, clause);
            AutoImplOutput { not_fields, text }
        },
    }
}

/// A generic parameter of a `for<..>` form, as far as the definitive
/// parameter depends on it
#[derive(Debug, Clone, PartialEq, Eq)]
pub struct ParamDesc {
    pub ident: String,
    /// A type parameter (not a lifetime or constant)
    pub is_type: bool,
    /// One of its bounds is `trait`
    pub trait_bound: bool,
}

/// A `where` predicate of a `for<..>` form
#[derive(Debug, Clone, PartialEq, Eq)]
pub struct PredDesc {
    /// The bounded type, when it is a single plain identifier
    pub bounded: Option<String>,
    /// One of its bounds is `trait`
    pub trait_bound: bool,
}

/// The last type parameter bounded by `trait`
pub open spec fn last_def_param(params: Seq<ParamDesc>) -> Option<Seq<char>>
    decreases params.len(),
{
    if params.len() == 0 {
        None
    } else if params.last().is_type && params.last().trait_bound {
        Some(params.last().ident@)
    } else {
        last_def_param(params.drop_last())
    }
}

/// The last predicate bounding a plain identifier by `trait`
pub open spec fn last_def_pred(preds: Seq<PredDesc>) -> Option<Seq<char>>
    decreases preds.len(),
{
    if preds.len() == 0 {
        None
    } else if preds.last().trait_bound && preds.last().bounded is Some {
        Some(preds.last().bounded->0@)
    } else {
        last_def_pred(preds.drop_last())
    }
}

/// The definitive type parameter: the implementation for each target
/// forwards to it. A parameter bounded by `trait` is preferred over a
/// `where` predicate; among several, the last is taken.
pub open spec fn definitive_spec(params: Seq<ParamDesc>, preds: Seq<PredDesc>) -> Option<Seq<char>> {
    match last_def_param(params) {
        Some(d) => Some(d),
        None => last_def_pred(preds),
    }
}

/// The definitive type parameter, if any
pub fn find_definitive(params: &Vec<ParamDesc>, preds: &Vec<PredDesc>) -> (r: Option<String>)
    ensures
        match (r, definitive_spec(params@, preds@)) {
            (Some(a), Some(b)) => a@ == b,
            (None, None) => true,
            _ => false,
        },
{
    let mut found: Option<String> = None;
    let mut i: usize = 0;
    while i < params.len()
        invariant
            i <= params@.len(),
            match (found, last_def_param(params@.take(i as int))) {
                (Some(a), Some(b)) => a@ == b,
                (None, None) => true,
                _ => false,
            },
        decreases params@.len() - i,
    {
        proof {
            assert(params@.take(i + 1).drop_last() =~= params@.take(i as int));
        }
        if params[i].is_type && params[i].trait_bound {
            found = Some(copy_string(&params[i].ident));
        }
        i += 1;
    }
    proof {
        assert(params@.take(params@.len() as int) =~= params@);
    }
    if found.is_some() {
        return found;
    }
    let mut j: usize = 0;
    while j < preds.len()
        invariant
            j <= preds@.len(),
            match (found, last_def_pred(preds@.take(j as int))) {
                (Some(a), Some(b)) => a@ == b,
                (None, None) => true,
                _ => false,
            },
        decreases preds@.len() - j,
    {
        proof {
            assert(preds@.take(j + 1).drop_last() =~= preds@.take(j as int));
        }
        if preds[j].trait_bound {
            match &preds[j].bounded {
                Some(b) => {
                    found = Some(copy_string(b));
                },
                None => {},
            }
        }
        j += 1;
    }
    proof {
        assert(preds@.take(preds@.len() as int) =~= preds@);
    }
    found
}

/// A parsed `#[autoimpl(for<..> Targets.. where ..)]` attribute on a trait
#[derive(Debug, Clone, PartialEq, Eq)]
pub struct AutoImplFor {
    /// The generic parameters, as tokens (within `<..>`)
    pub params: Vec<Tok>,
    /// The definitive type parameter
    pub definitive: String,
    /// The target types, as written
    pub targets: Vec<String>,
    /// Predicates of the `where` clause
    pub clause: Option<Vec<Tok>>,
}

/// Error of the `for<..>` form: no type parameter has bound `trait`
#[derive(Debug, Clone, Copy, PartialEq, Eq, Structural)]
pub struct NoDefinitive;

impl AutoImplFor {
    /// Check the parts of a `for<..>` form: a definitive parameter is needed
    pub fn new(
        params: Vec<Tok>,
        param_descs: &Vec<ParamDesc>,
        pred_descs: &Vec<PredDesc>,
        targets: Vec<String>,
        clause: Option<Vec<Tok>>,
    ) -> (r: Result<Self, NoDefinitive>)
        ensures
            match (r, definitive_spec(param_descs@, pred_descs@)) {
                (Ok(a), Some(d)) => a.definitive@ == d && a.params == params && a.targets == targets
                    && a.clause == clause,
                (Err(_), None) => true,
                _ => false,
            },
    {
        match find_definitive(param_descs, pred_descs) {
            Some(definitive) => Ok(AutoImplFor { params, definitive, targets, clause }),
            None => Err(NoDefinitive),
        }
    }
}

/// An item of a trait
#[derive(Debug, Clone, PartialEq, Eq)]
pub enum TraitItemDesc {
    /// `const NAME: Ty`
    Const(String, String),
    /// A method: its signature as written, its name and its parameters
    /// (`self`, or the pattern of a typed parameter)
    Method(String, String, Vec<String>),
    /// `type Name`
    Type(String),
    /// A macro invocation (not supported)
    Macro,
    /// Other tokens (not supported)
    Verbatim,
}

/// What generation needs of a trait: its name, its generics as written for
/// the type (`<T>`), its `where` predicates and its items
#[derive(Debug, Clone, PartialEq, Eq)]
pub struct TraitDesc {
    pub ident: String,
    pub ty_generics: String,
    pub where_clause: Option<Vec<Tok>>,
    pub items: Vec<TraitItemDesc>,
}

/// `a, b, c`
pub open spec fn join_params(ps: Seq<String>) -> Seq<char>
    decreases ps.len(),
{
    if ps.len() == 0 {
        Seq::empty()
    } else if ps.len() == 1 {
        ps[0]@
    } else {
        join_params(ps.drop_last()) + ", "@ + ps.last()@
    }
}

/// `<Definitive as Trait>::`
pub open spec fn forward_path(def: Seq<char>, trait_ty: Seq<char>) -> Seq<char> {
    "< "@ + def + " as "@ + trait_ty + " > :: "@
}

/// The forwarding implementation of one trait item
pub open spec fn item_text(item: TraitItemDesc, def: Seq<char>, trait_ty: Seq<char>) -> Seq<char> {
    match item {
        TraitItemDesc::Const(i, ty) => "const "@ + i@ + " : "@ + ty@ + " = "@ + forward_path(def, trait_ty)
            + i@ + "; "@,
        TraitItemDesc::Method(sig, i, ps) => sig@ + " { "@ + forward_path(def, trait_ty) + i@ + " ( "@
            + join_params(ps@) + " ) } "@,
        TraitItemDesc::Type(i) => "type "@ + i@ + " = "@ + forward_path(def, trait_ty) + i@ + "; "@,
        TraitItemDesc::Macro => Seq::empty(),
        TraitItemDesc::Verbatim => Seq::empty(),
    }
}

/// The forwarding implementations of all trait items
pub open spec fn items_text(items: Seq<TraitItemDesc>, def: Seq<char>, trait_ty: Seq<char>) -> Seq<char>
    decreases items.len(),
{
    if items.len() == 0 {
        Seq::empty()
    } else {
        items_text(items.drop_last(), def, trait_ty) + item_text(items.last(), def, trait_ty)
    }
}

/// Indices of the items which cannot be forwarded
pub open spec fn unsupported_items(items: Seq<TraitItemDesc>) -> Seq<usize>
    decreases items.len(),
{
    if items.len() == 0 {
        Seq::empty()
    } else if items.last() is Macro || items.last() is Verbatim {
        unsupported_items(items.drop_last()).push((items.len() - 1) as usize)
    } else {
        unsupported_items(items.drop_last())
    }
}

/// The implementation of the trait for one target
pub open spec fn trait_impl_text(attr: AutoImplFor, item: TraitDesc, target: Seq<char>) -> Seq<char> {
    let trait_ty = item.ident@ + item.ty_generics@;
    let ig = if attr.params@.len() == 0 {
        Seq::empty()
    } else {
        "<"@ + subst_text(attr.params@, trait_ty + " "@) + ">"@
    };
    "impl"@ + ig + " "@ + trait_ty + " for "@ + target + " "@ + clause_text(
        match attr.clause {
            Some(c) => Some(c@),
            None => None,
        },
        match item.where_clause {
            Some(w) => Some(w@),
            None => None,
        },
        trait_ty + " "@,
    ) + "{ "@ + items_text(item.items@, attr.definitive@, trait_ty) + "} "@
}

/// The implementations of the trait for the targets
pub open spec fn trait_impls_text(attr: AutoImplFor, item: TraitDesc, targets: Seq<String>) -> Seq<char>
    decreases targets.len(),
{
    if targets.len() == 0 {
        Seq::empty()
    } else {
        trait_impls_text(attr, item, targets.drop_last()) + trait_impl_text(attr, item, targets.last()@)
    }
}

fn push_join_params(out: &mut String, ps: &Vec<String>)
    ensures
        final(out)@ == old(out)@ + join_params(ps@),
{
    let ghost o0 = out@;
    let mut i: usize = 0;
    while i < ps.len()
        invariant
            i <= ps@.len(),
            out@ == o0 + join_params(ps@.take(i as int)),
        decreases ps@.len() - i,
    {
        proof {
            assert(ps@.take(i + 1).drop_last() =~= ps@.take(i as int));
        }
        if i > 0 {
            out.append(", ");
        }
        out.append(ps[i].as_str());
        proof {
            if i == 0 {
                assert(ps@.take(1)[0] == ps@[0]);
            }
        }
        i += 1;
    }
    proof {
        assert(ps@.take(ps@.len() as int) =~= ps@);
    }
}

fn push_item(out: &mut String, item: &TraitItemDesc, def: &str, trait_ty: &str)
    ensures
        final(out)@ == old(out)@ + item_text(*item, def@, trait_ty@),
{
    let ghost o0 = out@;
    match item {
        TraitItemDesc::Const(i, ty) => {
            out.append("const ");
            out.append(i.as_str());
            out.append(" : ");
            out.append(ty.as_str());
            out.append(" = ");
            out.append("< ");
            out.append(def);
            out.append(" as ");
            out.append(trait_ty);
            out.append(" > :: ");
            out.append(i.as_str());
            out.append("; ");
            assert(out@ =~= o0 + item_text(*item, def@, trait_ty@));
        },
        TraitItemDesc::Method(sig, i, ps) => {
            out.append(sig.as_str());
            out.append(" { ");
            out.append("< ");
            out.append(def);
            out.append(" as ");
            out.append(trait_ty);
            out.append(" > :: ");
            out.append(i.as_str());
            out.append(" ( ");
            let ghost o1 = out@;
            push_join_params(out, ps);
            out.append(" ) } ");
            assert(out@ =~= o0 + item_text(*item, def@, trait_ty@));
        },
        TraitItemDesc::Type(i) => {
            out.append("type ");
            out.append(i.as_str());
            out.append(" = ");
            out.append("< ");
            out.append(def);
            out.append(" as ");
            out.append(trait_ty);
            out.append(" > :: ");
            out.append(i.as_str());
            out.append("; ");
            assert(out@ =~= o0 + item_text(*item, def@, trait_ty@));
        },
        TraitItemDesc::Macro => {
            assert(out@ =~= o0 + item_text(*item, def@, trait_ty@));
        },
        TraitItemDesc::Verbatim => {
            assert(out@ =~= o0 + item_text(*item, def@, trait_ty@));
        },
    }
}

fn push_trait_impl(out: &mut String, attr: &AutoImplFor, item: &TraitDesc, target: &String, items: &String)
    requires
        items@ == items_text(item.items@, attr.definitive@, item.ident@ + item.ty_generics@),
    ensures
        final(out)@ == old(out)@ + trait_impl_text(*attr, *item, target@),
{
    let ghost o0 = out@;
    let mut trait_ty = copy_string(&item.ident);
    trait_ty.append(item.ty_generics.as_str());
    let mut path = copy_string(&trait_ty);
    path.append(" ");
    out.append("impl");
    if attr.params.len() > 0 {
        out.append("<");
        out.append(subst_toks(&attr.params, path.as_str()).as_str());
        out.append(">");
    }
    out.append(" ");
    out.append(trait_ty.as_str());
    out.append(" for ");
    out.append(target.as_str());
    out.append(" ");
    out.append(clause_to_text(&attr.clause, &item.where_clause, path.as_str()).as_str());
    out.append("{ ");
    out.append(items.as_str());
    out.append("} ");
    assert(out@ =~= o0 + trait_impl_text(*attr, *item, target@));
}

/// Output of `#[autoimpl(for<..> ..)]` on a trait: indices of trait items
/// which cannot be forwarded (each an error), and the implementations
#[derive(Debug, Clone, PartialEq, Eq)]
pub struct TraitImplOutput {
    pub unsupported: Vec<usize>,
    pub text: String,
}

/// Apply a `for<..>` form to a trait: implement it for each target by
/// forwarding every item to the definitive type parameter
pub fn autoimpl_trait(attr: &AutoImplFor, item: &TraitDesc) -> (r: TraitImplOutput)
    ensures
        r.unsupported@ == unsupported_items(item.items@),
        r.text@ == trait_impls_text(*attr, *item, attr.targets@),
{
    let mut trait_ty = copy_string(&item.ident);
    trait_ty.append(item.ty_generics.as_str());
    let mut items = String::new();
    let mut unsupported: Vec<usize> = Vec::new();
    let mut i: usize = 0;
    while i < item.items.len()
        invariant
            i <= item.items@.len(),
            trait_ty@ == item.ident@ + item.ty_generics@,
            items@ == items_text(item.items@.take(i as int), attr.definitive@, trait_ty@),
            unsupported@ == unsupported_items(item.items@.take(i as int)),
        decreases item.items@.len() - i,
    {
        proof {
            assert(item.items@.take(i + 1).drop_last() =~= item.items@.take(i as int));
        }
        push_item(&mut items, &item.items[i], attr.definitive.as_str(), trait_ty.as_str());
        match &item.items[i] {
            TraitItemDesc::Macro | TraitItemDesc::Verbatim => {
                unsupported.push(i);
            },
            _ => {},
        }
        i += 1;
    }
    proof {
        assert(item.items@.take(item.items@.len() as int) =~= item.items@);
    }
    let mut text = String::new();
    let mut t: usize = 0;
    while t < attr.targets.len()
        invariant
            t <= attr.targets@.len(),
            items@ == items_text(item.items@, attr.definitive@, item.ident@ + item.ty_generics@),
            text@ == trait_impls_text(*attr, *item, attr.targets@.take(t as int)),
        decreases attr.targets@.len() - t,
    {
        proof {
            assert(attr.targets@.take(t + 1).drop_last() =~= attr.targets@.take(t as int));
        }
        push_trait_impl(&mut text, attr, item, &attr.targets[t], &items);
        t += 1;
    }
    proof {
        assert(attr.targets@.take(attr.targets@.len() as int) =~= attr.targets@);
    }
    TraitImplOutput { unsupported, text }
}

} // verus!
