//! Scanning of flat token sequences: matching group delimiters, the extent
//! of an expression, and literals.
//!
//! An expression extends from its first token to the next comma outside
//! any group (or to the end of the enclosing group).

use crate::macros::tokens::{is_punct, is_punct_spec, Tok};
use vstd::prelude::*;

verus! {

/// How a token changes the group depth
pub open spec fn depth_step(t: Tok) -> int {
    match t {
        Tok::Open(_) => 1,
        Tok::Close(_) => -1,
        _ => 0,
    }
}

/// The index of the token closing a group, scanning from `i` at `depth`
/// (at least one) up to `end`
pub open spec fn close_from(toks: Seq<Tok>, i: int, end: int, depth: int) -> Option<int>
    decreases end - i,
{
    if i < 0 || i >= end || end > toks.len() {
        None
    } else {
        let d = depth + depth_step(toks[i]);
        if d == 0 {
            Some(i)
        } else {
            close_from(toks, i + 1, end, d)
        }
    }
}

/// The index of the token closing the group opened at `open`, before `end`
pub open spec fn group_close(toks: Seq<Tok>, open: int, end: int) -> Option<int> {
    close_from(toks, open + 1, end, 1)
}

/// The end of an expression starting at `i`: the first comma outside
/// groups, the first unmatched closing delimiter, or `end`
pub open spec fn expr_end_from(toks: Seq<Tok>, i: int, end: int, depth: int) -> int
    decreases end - i,
{
    if i < 0 || i >= end || end > toks.len() {
        end
    } else if depth == 0 && (is_punct_spec(toks[i], ","@) || toks[i] is Close) {
        i
    } else {
        expr_end_from(toks, i + 1, end, depth + depth_step(toks[i]))
    }
}

/// The end of an expression starting at `i` (see [`expr_end_from`])
pub open spec fn expr_end(toks: Seq<Tok>, i: int, end: int) -> int {
    expr_end_from(toks, i, end, 0)
}

pub proof fn lemma_close_from_range(toks: Seq<Tok>, i: int, end: int, depth: int)
    requires
        depth >= 1,
    ensures
        close_from(toks, i, end, depth) matches Some(c) ==> i <= c < end && toks[c] is Close,
    decreases end - i,
{
    if 0 <= i < end && end <= toks.len() {
        let d = depth + depth_step(toks[i]);
        if d != 0 {
            lemma_close_from_range(toks, i + 1, end, d);
        }
    }
}

pub proof fn lemma_expr_end_range(toks: Seq<Tok>, i: int, end: int, depth: int)
    requires
        0 <= i <= end <= toks.len(),
    ensures
        i <= expr_end_from(toks, i, end, depth) <= end,
    decreases end - i,
{
    if i < end {
        if !(depth == 0 && (is_punct_spec(toks[i], ","@) || toks[i] is Close)) {
            lemma_expr_end_range(toks, i + 1, end, depth + depth_step(toks[i]));
        }
    }
}

/// The index of the token closing the group opened at `open`, before `end`
pub fn find_close(toks: &Vec<Tok>, open: usize, end: usize) -> (r: Option<usize>)
    requires
        open < end <= toks@.len(),
    ensures
        match r {
            Some(c) => group_close(toks@, open as int, end as int) == Some(c as int),
            None => group_close(toks@, open as int, end as int) is None,
        },
{
    let mut i = open + 1;
    let mut depth: usize = 1;
    while i < end
        invariant
            open < i <= end,
            end <= toks@.len(),
            1 <= depth <= i - open,
            group_close(toks@, open as int, end as int) == close_from(toks@, i as int, end as int, depth as int),
        decreases end - i,
    {
        match &toks[i] {
            Tok::Open(_) => {
                depth += 1;
            },
            Tok::Close(_) => {
                if depth == 1 {
                    return Some(i);
                }
                depth -= 1;
            },
            _ => {},
        }
        i += 1;
    }
    None
}

/// The end of an expression starting at `start` (see [`expr_end_from`])
pub fn find_expr_end(toks: &Vec<Tok>, start: usize, end: usize) -> (r: usize)
    requires
        start <= end <= toks@.len(),
    ensures
        r == expr_end(toks@, start as int, end as int),
        start <= r <= end,
{
    proof {
        lemma_expr_end_range(toks@, start as int, end as int, 0);
    }
    let mut i = start;
    let mut depth: usize = 0;
    while i < end
        invariant
            start <= i <= end,
            end <= toks@.len(),
            depth <= i - start,
            expr_end(toks@, start as int, end as int) == expr_end_from(toks@, i as int, end as int, depth as int),
        decreases end - i,
    {
        let is_close = match &toks[i] {
            Tok::Close(_) => true,
            _ => false,
        };
        if depth == 0 && (is_punct(&toks[i], ",") || is_close) {
            return i;
        }
        match &toks[i] {
            Tok::Open(_) => {
                depth += 1;
            },
            Tok::Close(_) => {
                depth -= 1;
            },
            _ => {},
        }
        i += 1;
    }
    end
}

/// A string literal token (`"..."`, or a raw string `r"..."`, `r#"..."#`)
pub open spec fn is_str_lit(t: Tok) -> bool {
    t matches Tok::Literal(s) && s@.len() > 0 && (s@[0] == '"' || (s@.len() > 1 && s@[0] == 'r' && (s@[1]
        == '"' || s@[1] == '#')))
}

/// True when `t` is a string literal token
pub fn str_lit(t: &Tok) -> (r: bool)
    ensures
        r == is_str_lit(*t),
{
    match t {
        Tok::Literal(s) => {
            let s = s.as_str();
            let n = s.unicode_len();
            if n == 0 {
                return false;
            }
            let c0 = s.get_char(0);
            if c0 == '"' {
                return true;
            }
            if n > 1 && c0 == 'r' {
                let c1 = s.get_char(1);
                return c1 == '"' || c1 == '#';
            }
            false
        },
        _ => false,
    }
}

} // verus!
