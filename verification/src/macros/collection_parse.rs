//! Parsing the input of the `collection!` and `cell_collection!` macros:
//! comma-separated items, each a string literal (a label, optionally
//! `.align(..)` or `.pack(..)`) or an expression (a widget), stored as
//! `_stor0`, `_stor1`, ...; in a cell collection each item follows its cell
//! `(col, row) =>`, or the items are written by lines
//! (`aligned_column row![..], ..` or `aligned_row column![..], ..`).

use crate::macros::autoimpl::{index_value, parse_index};
use crate::macros::collection::{
    aligned_cell, label_item, parse_last, parse_last_spec, stor_name, CellCollection, CellEnd, CellError, CellInfo,
    Collection, CollectionItem, LabelAdapt, NameGenerator,
};
use crate::macros::parse::{
    expr_end, find_close, find_expr_end, group_close, is_str_lit, lemma_close_from_range, str_lit,
};
use crate::macros::tokens::{
    copy_string, is_ident, is_ident_spec, is_punct, is_punct_spec, render, render_toks, tok_text, Tok,
};
use vstd::prelude::*;

verus! {

/// A syntax error, at a token index
#[derive(Debug, Clone, Copy, PartialEq, Eq, Structural)]
pub enum ParseError {
    /// Expected a comma
    ExpectedComma(usize),
    /// Expected an expression
    ExpectedExpression(usize),
    /// Expected a parenthesized group
    ExpectedParens(usize),
    /// A group is not closed
    Unclosed(usize),
    /// A token where none was expected
    Unexpected(usize),
    /// Expected an integer literal (fitting in `u32`)
    ExpectedInteger(usize),
    /// An invalid cell range
    BadRange(CellError),
    /// Expected `=>`
    ExpectedArrow(usize),
    /// Expected a keyword (`row` or `column`) followed by `!`
    ExpectedKeyword(usize),
    /// Expected a bracketed group
    ExpectedBrackets(usize),
    /// Expected a braced group
    ExpectedBraces(usize),
    /// Expected `.` and a field name or index after `self`
    ExpectedMember(usize),
    /// A method which layouts do not support
    UnsupportedMethod(usize),
    /// Expected `.with_direction(..)` after a `list!`
    ExpectedDirection(usize),
    /// A cell whose numbers overflow `u32` (given its start): a
    /// `start..+n` range with `start + n` beyond `u32::MAX`, or, in a
    /// layout grid, a cell ending at `u32::MAX` (the grid's size counts one
    /// past it); arithmetic with overflow checks panics there
    Overflow(usize),
}

/// The texts of an item: label or not, storage name, type (of a label),
/// and definition (of a label) or expression (of a widget)
pub open spec fn item_text(it: CollectionItem) -> (bool, Seq<char>, Seq<char>, Seq<char>) {
    match it {
        CollectionItem::Label(n, t, d) => (true, n@, t@, d@),
        CollectionItem::Widget(n, e) => (false, n@, Seq::empty(), e@),
    }
}

/// The token opens a parenthesized group
pub open spec fn is_open_paren(t: Tok) -> bool {
    t matches Tok::Open(s) && s@ == "("@
}

/// The type of a label: plain (`kind` 0), aligned (1) or packed (2)
pub open spec fn adapt_ty(kind: int) -> Seq<char> {
    let base = "::kas::widgets::Label<&'static str>"@;
    if kind == 1 {
        "::kas::widgets::adapt::Align<"@ + base + ">"@
    } else if kind == 2 {
        "::kas::widgets::adapt::Pack<"@ + base + ">"@
    } else {
        base
    }
}

/// The definition of a label with literal `text`: plain (`kind` 0),
/// aligned (1) or packed (2) by hints `h`
pub open spec fn adapt_def(text: Seq<char>, kind: int, h: Seq<char>) -> Seq<char> {
    let base = "::kas::widgets::Label::new("@ + text + ")"@;
    if kind == 1 {
        "::kas::widgets::adapt::Align::new("@ + base + ", "@ + h + ")"@
    } else if kind == 2 {
        "::kas::widgets::adapt::Pack::new("@ + base + ", "@ + h + ")"@
    } else {
        base
    }
}

/// One item at `pos` (before `end`) stored as the `n`-th name: its texts
/// and the index after it, or the error
pub open spec fn item_spec(toks: Seq<Tok>, pos: int, end: int, n: nat) -> Result<
    ((bool, Seq<char>, Seq<char>, Seq<char>), int),
    ParseError,
> {
    if is_str_lit(toks[pos]) {
        let text = tok_text(toks[pos]);
        if pos + 2 < end && is_punct_spec(toks[pos + 1], "."@) && (is_ident_spec(toks[pos + 2], "align"@)
            || is_ident_spec(toks[pos + 2], "pack"@)) {
            let align = is_ident_spec(toks[pos + 2], "align"@);
            if pos + 3 < end && is_open_paren(toks[pos + 3]) {
                match group_close(toks, pos + 3, end) {
                    None => Err(ParseError::Unclosed((pos + 3) as usize)),
                    Some(c) => {
                        let e = expr_end(toks, pos + 4, c);
                        if e == pos + 4 {
                            Err(ParseError::ExpectedExpression((pos + 4) as usize))
                        } else if e != c {
                            Err(ParseError::Unexpected(e as usize))
                        } else {
                            let kind = if align { 1int } else { 2int };
                            let h = render(toks.subrange(pos + 4, c));
                            Ok(((true, stor_name(n), adapt_ty(kind), adapt_def(text, kind, h)), c + 1))
                        }
                    },
                }
            } else {
                Err(ParseError::ExpectedParens((pos + 3) as usize))
            }
        } else {
            Ok(((true, stor_name(n), adapt_ty(0), adapt_def(text, 0, Seq::empty())), pos + 1))
        }
    } else {
        let e = expr_end(toks, pos, end);
        if e == pos {
            Err(ParseError::ExpectedExpression(pos as usize))
        } else {
            Ok(((false, stor_name(n), Seq::empty(), render(toks.subrange(pos, e))), e))
        }
    }
}

/// An item which parses ends after its start, within the input
pub proof fn lemma_item_advances(toks: Seq<Tok>, pos: int, end: int, n: nat)
    requires
        0 <= pos < end <= toks.len(),
    ensures
        item_spec(toks, pos, end, n) matches Ok((_, next)) ==> pos < next <= end,
{
    crate::macros::parse::lemma_expr_end_range(toks, pos, end, 0);
    if pos + 3 < end {
        lemma_close_from_range(toks, pos + 4, end, 1);
    }
}

/// The items from `pos` to `end`, the first stored as the `n`-th name
pub open spec fn items_spec(toks: Seq<Tok>, pos: int, end: int, n: nat) -> Result<
    Seq<(bool, Seq<char>, Seq<char>, Seq<char>)>,
    ParseError,
>
    decreases end - pos,
{
    if pos < 0 || pos >= end || end > toks.len() {
        Ok(Seq::empty())
    } else {
        proof {
            lemma_item_advances(toks, pos, end, n);
        }
        match item_spec(toks, pos, end, n) {
            Err(e) => Err(e),
            Ok((it, next)) => if next >= end {
                Ok(seq![it])
            } else if !is_punct_spec(toks[next], ","@) {
                Err(ParseError::ExpectedComma(next as usize))
            } else {
                match items_spec(toks, next + 1, end, n + 1) {
                    Ok(rest) => Ok(seq![it] + rest),
                    Err(e) => Err(e),
                }
            },
        }
    }
}

/// A copy of a range of tokens
pub(crate) fn copy_range(toks: &Vec<Tok>, start: usize, end: usize) -> (r: Vec<Tok>)
    requires
        start <= end <= toks@.len(),
    ensures
        r@ == toks@.subrange(start as int, end as int),
{
    let mut r: Vec<Tok> = Vec::new();
    let mut i = start;
    while i < end
        invariant
            start <= i <= end,
            end <= toks@.len(),
            r@ == toks@.subrange(start as int, i as int),
        decreases end - i,
    {
        r.push(crate::macros::tokens::copy_tok(&toks[i]));
        assert(r@ =~= toks@.subrange(start as int, i + 1));
        i += 1;
    }
    r
}

impl CollectionItem {
/// Parse the item at `pos` (before `end`), naming its storage by `names`
pub fn parse(toks: &Vec<Tok>, pos: usize, end: usize, names: &mut NameGenerator) -> (r: Result<
    (CollectionItem, usize),
    ParseError,
>)
    requires
        pos < end <= toks@.len(),
        old(names).0 < usize::MAX,
    ensures
        match item_spec(toks@, pos as int, end as int, old(names).0 as nat) {
            Ok((it, next)) => r matches Ok((item, k)) && item_text(item) == it && k == next
                && final(names).0 == old(names).0 + 1,
            Err(e) => r == Err::<(CollectionItem, usize), ParseError>(e),
        },
{
    proof {
        lemma_item_advances(toks@, pos as int, end as int, names.0 as nat);
    }
    if str_lit(&toks[pos]) {
        let text = match &toks[pos] {
            Tok::Literal(s) => copy_string(s),
            _ => String::new(),
        };
        assert(text@ == tok_text(toks@[pos as int]));
        if end - pos > 2 && is_punct(&toks[pos + 1], ".") && (is_ident(&toks[pos + 2], "align") || is_ident(
            &toks[pos + 2],
            "pack",
        )) {
            let align = is_ident(&toks[pos + 2], "align");
            let is_paren = end - pos > 3 && match &toks[pos + 3] {
                Tok::Open(s) => crate::macros::tokens::text_eq(s, "("),
                _ => false,
            };
            if !is_paren {
                return Err(ParseError::ExpectedParens(pos + 3));
            }
            let c = match find_close(toks, pos + 3, end) {
                Some(c) => c,
                None => return Err(ParseError::Unclosed(pos + 3)),
            };
            proof {
                lemma_close_from_range(toks@, pos + 4, end as int, 1);
            }
            let e = find_expr_end(toks, pos + 4, c);
            if e == pos + 4 {
                return Err(ParseError::ExpectedExpression(pos + 4));
            }
            if e != c {
                return Err(ParseError::Unexpected(e));
            }
            let h = render_toks(&copy_range(toks, pos + 4, c));
            let adapt = if align {
                LabelAdapt::Align(h)
            } else {
                LabelAdapt::Pack(h)
            };
            let item = label_item(names.next(), text.as_str(), &adapt);
            Ok((item, c + 1))
        } else {
            let item = label_item(names.next(), text.as_str(), &LabelAdapt::Plain);
            Ok((item, pos + 1))
        }
    } else {
        let e = find_expr_end(toks, pos, end);
        if e == pos {
            return Err(ParseError::ExpectedExpression(pos));
        }
        let expr = render_toks(&copy_range(toks, pos, e));
        Ok((CollectionItem::Widget(names.next(), expr), e))
    }
}

}

/// The texts of a sequence of items
pub open spec fn texts(items: Seq<CollectionItem>) -> Seq<(bool, Seq<char>, Seq<char>, Seq<char>)> {
    items.map_values(|it: CollectionItem| item_text(it))
}

/// Parse the items from `pos` to `end`, appending them to `items`
fn parse_items_into(
    toks: &Vec<Tok>,
    pos: usize,
    end: usize,
    names: &mut NameGenerator,
    items: &mut Vec<CollectionItem>,
) -> (r: Result<(), ParseError>)
    requires
        pos <= end <= toks@.len(),
        old(names).0 <= pos,
    ensures
        r is Ok ==> final(names).0 <= end,
        match items_spec(toks@, pos as int, end as int, old(names).0 as nat) {
            Ok(v) => r is Ok && texts(final(items)@) == texts(old(items)@) + v && final(names).0 == old(names).0
                + v.len(),
            Err(e) => r == Err::<(), ParseError>(e),
        },
    decreases end - pos,
{
    if pos >= end {
        assert(texts(items@) + Seq::empty() =~= texts(items@));
        return Ok(());
    }
    proof {
        lemma_item_advances(toks@, pos as int, end as int, names.0 as nat);
    }
    let ghost n0 = names.0;
    let ghost before = items@;
    let (item, next) = match CollectionItem::parse(toks, pos, end, names) {
        Ok(p) => p,
        Err(e) => return Err(e),
    };
    items.push(item);
    assert(texts(items@) =~= texts(before) + seq![item_text(item)]);
    if next >= end {
        assert(texts(before) + seq![item_text(item)] =~= texts(before) + seq![item_text(item)]);
        return Ok(());
    }
    if !is_punct(&toks[next], ",") {
        return Err(ParseError::ExpectedComma(next));
    }
    let ghost mid = items@;
    let r = parse_items_into(toks, next + 1, end, names, items);
    proof {
        match items_spec(toks@, next + 1, end as int, (n0 + 1) as nat) {
            Ok(v) => {
                assert(texts(items@) =~= texts(before) + (seq![item_text(item)] + v));
            },
            Err(_) => {},
        }
    }
    r
}

impl Collection {
    /// Parse the items of a collection: comma-separated, a trailing comma
    /// allowed; storage names are numbered from zero
    pub fn parse(toks: &Vec<Tok>) -> (r: Result<Collection, ParseError>)
        ensures
            match items_spec(toks@, 0, toks@.len() as int, 0) {
                Ok(v) => r matches Ok(c) && texts(c.0@) == v,
                Err(e) => r == Err::<Collection, ParseError>(e),
            },
    {
        let mut names = NameGenerator(0);
        let mut items: Vec<CollectionItem> = Vec::new();
        assert(texts(items@) =~= Seq::empty());
        match parse_items_into(toks, 0, toks.len(), &mut names, &mut items) {
            Ok(()) => {
                proof {
                    match items_spec(toks@, 0, toks@.len() as int, 0) {
                        Ok(v) => assert(Seq::<(bool, Seq<char>, Seq<char>, Seq<char>)>::empty() + v =~= v),
                        Err(_) => {},
                    }
                }
                Ok(Collection(items))
            },
            Err(e) => Err(e),
        }
    }
}

/// The token is the punctuation character `p` joined to the next
pub open spec fn is_joint(t: Tok, p: Seq<char>) -> bool {
    t matches Tok::Punct(s, j) && s@ == p && j
}

pub(crate) fn joint(t: &Tok, p: &str) -> (r: bool)
    ensures
        r == is_joint(*t, p@),
{
    match t {
        Tok::Punct(s, j) => *j && crate::macros::tokens::text_eq(s, p),
        _ => false,
    }
}

/// The value of an integer literal token, if it fits in `u32`
pub open spec fn lit_u32(t: Tok) -> Option<u32> {
    match t {
        Tok::Literal(s) => index_value(s@),
        _ => None,
    }
}

pub(crate) fn literal_u32(t: &Tok) -> (r: Option<u32>)
    ensures
        r == lit_u32(*t),
{
    match t {
        Tok::Literal(s) => parse_index(s),
        _ => None,
    }
}

/// The range end of a cell's column (or row) at `pos` (before `end`):
/// `..=n`, `..n`, `..+n` or nothing, and the index after it
pub open spec fn cell_end_spec(toks: Seq<Tok>, pos: int, end: int) -> Result<(CellEnd, int), ParseError> {
    if pos + 2 < end && is_joint(toks[pos], "."@) && is_punct_spec(toks[pos + 1], "."@) && is_punct_spec(
        toks[pos + 2],
        "="@,
    ) && is_joint(toks[pos + 1], "."@) {
        if pos + 3 < end && lit_u32(toks[pos + 3]) is Some {
            Ok((CellEnd::Inclusive(lit_u32(toks[pos + 3])->0), pos + 4))
        } else {
            Err(ParseError::ExpectedInteger((pos + 3) as usize))
        }
    } else if pos + 1 < end && is_joint(toks[pos], "."@) && is_punct_spec(toks[pos + 1], "."@) {
        let plus = pos + 2 < end && is_punct_spec(toks[pos + 2], "+"@);
        let q = if plus { pos + 3 } else { pos + 2 };
        if q < end && lit_u32(toks[q]) is Some {
            let n = lit_u32(toks[q])->0;
            Ok((if plus { CellEnd::Count(n) } else { CellEnd::Exclusive(n) }, q + 1))
        } else {
            Err(ParseError::ExpectedInteger(q as usize))
        }
    } else {
        Ok((CellEnd::Single, pos))
    }
}

/// A cell `(col [range], row [range])` at `pos` (before `end`) and the
/// index after it, or the first error
#[verifier::opaque]
pub open spec fn cell_spec(toks: Seq<Tok>, pos: int, end: int) -> Result<(CellInfo, int), ParseError> {
    if !(pos < end && is_open_paren(toks[pos])) {
        Err(ParseError::ExpectedParens(pos as usize))
    } else {
        match group_close(toks, pos, end) {
            None => Err(ParseError::Unclosed(pos as usize)),
            Some(c) => {
                let i = pos + 1;
                if !(i < c && lit_u32(toks[i]) is Some) {
                    Err(ParseError::ExpectedInteger(i as usize))
                } else {
                    let col = lit_u32(toks[i])->0;
                    match cell_end_spec(toks, i + 1, c) {
                        Err(e) => Err(e),
                        Ok((ce, j)) => if count_overflows(col, ce) {
                            Err(ParseError::Overflow(pos as usize))
                        } else { match parse_last_spec(col, ce) {
                            Err(e) => Err(ParseError::BadRange(e)),
                            Ok(lc) => if !(j < c && is_punct_spec(toks[j], ","@)) {
                                Err(ParseError::ExpectedComma(j as usize))
                            } else if !(j + 1 < c && lit_u32(toks[j + 1]) is Some) {
                                Err(ParseError::ExpectedInteger((j + 1) as usize))
                            } else {
                                let row = lit_u32(toks[j + 1])->0;
                                match cell_end_spec(toks, j + 2, c) {
                                    Err(e) => Err(e),
                                    Ok((re, k)) => if count_overflows(row, re) {
                                        Err(ParseError::Overflow(pos as usize))
                                    } else { match parse_last_spec(row, re) {
                                        Err(e) => Err(ParseError::BadRange(e)),
                                        Ok(lr) => if k != c {
                                            Err(ParseError::Unexpected(k as usize))
                                        } else {
                                            Ok((CellInfo { col, last_col: lc, row, last_row: lr }, c + 1))
                                        },
                                    } },
                                }
                            },
                        } },
                    }
                }
            },
        }
    }
}

/// Computing the last column (row) of a `start..+n` range overflows `u32`
pub open spec fn count_overflows(start: u32, end: CellEnd) -> bool {
    end matches CellEnd::Count(n) && start + n > u32::MAX
}

fn count_overflows_exec(start: u32, end: CellEnd) -> (r: bool)
    ensures
        r == count_overflows(start, end),
{
    match end {
        CellEnd::Count(n) => {
            let sum = start as u64 + n as u64;
            sum > u32::MAX as u64
        },
        _ => false,
    }
}

fn parse_cell_end(toks: &Vec<Tok>, pos: usize, end: usize) -> (r: Result<(CellEnd, usize), ParseError>)
    requires
        pos <= end <= toks@.len(),
    ensures
        match cell_end_spec(toks@, pos as int, end as int) {
            Ok((ce, k)) => r == Ok::<(CellEnd, usize), ParseError>((ce, k as usize)) && pos <= k <= end,
            Err(e) => r == Err::<(CellEnd, usize), ParseError>(e),
        },
{
    if end - pos > 2 && joint(&toks[pos], ".") && is_punct(&toks[pos + 1], ".") && is_punct(&toks[pos + 2], "=")
        && joint(&toks[pos + 1], ".") {
        if end - pos > 3 {
            match literal_u32(&toks[pos + 3]) {
                Some(n) => return Ok((CellEnd::Inclusive(n), pos + 4)),
                None => {},
            }
        }
        Err(ParseError::ExpectedInteger(pos + 3))
    } else if end - pos > 1 && joint(&toks[pos], ".") && is_punct(&toks[pos + 1], ".") {
        let plus = end - pos > 2 && is_punct(&toks[pos + 2], "+");
        let q = if plus {
            pos + 3
        } else {
            pos + 2
        };
        if q < end {
            match literal_u32(&toks[q]) {
                Some(n) => return Ok((
                    if plus {
                        CellEnd::Count(n)
                    } else {
                        CellEnd::Exclusive(n)
                    },
                    q + 1,
                )),
                None => {},
            }
        }
        Err(ParseError::ExpectedInteger(q))
    } else {
        Ok((CellEnd::Single, pos))
    }
}

impl CellInfo {
/// Parse a cell `(col [range], row [range])` at `pos` (before `end`)
pub fn parse(toks: &Vec<Tok>, pos: usize, end: usize) -> (r: Result<(CellInfo, usize), ParseError>)
    requires
        pos <= end <= toks@.len(),
    ensures
        match cell_spec(toks@, pos as int, end as int) {
            Ok((cell, k)) => r == Ok::<(CellInfo, usize), ParseError>((cell, k as usize)) && pos < k <= end,
            Err(e) => r == Err::<(CellInfo, usize), ParseError>(e),
        },
        r matches Ok((c, _)) ==> c.col <= c.last_col && c.row <= c.last_row,
{
    reveal(cell_spec);
    let is_paren = pos < end && match &toks[pos] {
        Tok::Open(s) => crate::macros::tokens::text_eq(s, "("),
        _ => false,
    };
    if !is_paren {
        return Err(ParseError::ExpectedParens(pos));
    }
    let c = match find_close(toks, pos, end) {
        Some(c) => c,
        None => return Err(ParseError::Unclosed(pos)),
    };
    proof {
        lemma_close_from_range(toks@, pos + 1, end as int, 1);
    }
    let i = pos + 1;
    let col = if i < c {
        literal_u32(&toks[i])
    } else {
        None
    };
    let col = match col {
        Some(v) => v,
        None => return Err(ParseError::ExpectedInteger(i)),
    };
    let (ce, j) = match parse_cell_end(toks, i + 1, c) {
        Ok(p) => p,
        Err(e) => return Err(e),
    };
    if count_overflows_exec(col, ce) {
        return Err(ParseError::Overflow(pos));
    }
    let lc = match parse_last(col, ce) {
        Ok(v) => v,
        Err(e) => return Err(ParseError::BadRange(e)),
    };
    if !(j < c && is_punct(&toks[j], ",")) {
        return Err(ParseError::ExpectedComma(j));
    }
    let row = if j + 1 < c {
        literal_u32(&toks[j + 1])
    } else {
        None
    };
    let row = match row {
        Some(v) => v,
        None => return Err(ParseError::ExpectedInteger(j + 1)),
    };
    let (re, k) = match parse_cell_end(toks, j + 2, c) {
        Ok(p) => p,
        Err(e) => return Err(e),
    };
    if count_overflows_exec(row, re) {
        return Err(ParseError::Overflow(pos));
    }
    let lr = match parse_last(row, re) {
        Ok(v) => v,
        Err(e) => return Err(ParseError::BadRange(e)),
    };
    if k != c {
        return Err(ParseError::Unexpected(k));
    }
    Ok((CellInfo { col, last_col: lc, row, last_row: lr }, c + 1))
}

}

/// A cell which parses ends after its start, within the input
pub proof fn lemma_cell_advances(toks: Seq<Tok>, pos: int, end: int)
    requires
        0 <= pos <= end <= toks.len(),
    ensures
        cell_spec(toks, pos, end) matches Ok((_, next)) ==> pos < next <= end,
{
    reveal(cell_spec);
    lemma_close_from_range(toks, pos + 1, end, 1);
}

/// The token opens a group delimited by `open`
pub open spec fn opens(t: Tok, open: Seq<char>) -> bool {
    t matches Tok::Open(s) && s@ == open
}

pub(crate) fn opens_exec(t: &Tok, open: &str) -> (r: bool)
    ensures
        r == opens(*t, open@),
{
    match t {
        Tok::Open(s) => crate::macros::tokens::text_eq(s, open),
        _ => false,
    }
}

/// The item of a grid cell at `pos`: either braced, when it must fill the
/// braces, or plain; its texts, the index after it and whether it was braced
pub open spec fn grid_item_spec(toks: Seq<Tok>, pos: int, end: int, n: nat) -> Result<
    ((bool, Seq<char>, Seq<char>, Seq<char>), int, bool),
    ParseError,
> {
    if pos >= end {
        Err(ParseError::ExpectedExpression(pos as usize))
    } else if opens(toks[pos], "{"@) {
        match group_close(toks, pos, end) {
            None => Err(ParseError::Unclosed(pos as usize)),
            Some(c) => match item_spec(toks, pos + 1, c, n) {
                Err(e) => Err(e),
                Ok((it, k)) => if k != c {
                    Err(ParseError::Unexpected(k as usize))
                } else {
                    Ok((it, c + 1, true))
                },
            },
        }
    } else {
        match item_spec(toks, pos, end, n) {
            Err(e) => Err(e),
            Ok((it, k)) => Ok((it, k, false)),
        }
    }
}

/// A grid item which parses ends after its start, within the input
pub proof fn lemma_grid_item_advances(toks: Seq<Tok>, pos: int, end: int, n: nat)
    requires
        0 <= pos <= end <= toks.len(),
    ensures
        grid_item_spec(toks, pos, end, n) matches Ok((_, next, _)) ==> pos < next <= end,
{
    reveal(grid_item_spec);
    if pos < end {
        lemma_item_advances(toks, pos, end, n);
        lemma_close_from_range(toks, pos + 1, end, 1);
    }
}

/// The cells and item texts of a grid collection from `pos` to `end`:
/// entries `cell => item`, separated by commas, a comma being optional
/// after a braced item; the first item is stored as the `n`-th name
pub open spec fn grid_spec(toks: Seq<Tok>, pos: int, end: int, n: nat) -> Result<
    (Seq<CellInfo>, Seq<(bool, Seq<char>, Seq<char>, Seq<char>)>),
    ParseError,
>
    decreases end - pos,
{
    if pos < 0 || pos >= end || end > toks.len() {
        Ok((Seq::empty(), Seq::empty()))
    } else {
        proof {
            lemma_cell_advances(toks, pos, end);
        }
        match cell_spec(toks, pos, end) {
            Err(e) => Err(e),
            Ok((cell, p)) => if !(p + 1 < end && is_joint(toks[p], "="@) && is_punct_spec(toks[p + 1], ">"@)) {
                Err(ParseError::ExpectedArrow(p as usize))
            } else {
                proof {
                    lemma_grid_item_advances(toks, p + 2, end, n);
                }
                match grid_item_spec(toks, p + 2, end, n) {
                    Err(e) => Err(e),
                    Ok((it, k, braced)) => if k >= end {
                        Ok((seq![cell], seq![it]))
                    } else if is_punct_spec(toks[k], ","@) {
                        match grid_spec(toks, k + 1, end, n + 1) {
                            Err(e) => Err(e),
                            Ok((cs, its)) => Ok((seq![cell] + cs, seq![it] + its)),
                        }
                    } else if braced {
                        match grid_spec(toks, k, end, n + 1) {
                            Err(e) => Err(e),
                            Ok((cs, its)) => Ok((seq![cell] + cs, seq![it] + its)),
                        }
                    } else {
                        Err(ParseError::ExpectedComma(k as usize))
                    },
                }
            },
        }
    }
}

/// The item of a grid cell at `pos` (before `end`): its item, the index
/// after it and whether it was braced
pub(crate) fn parse_grid_item(toks: &Vec<Tok>, pos: usize, end: usize, names: &mut NameGenerator) -> (r: Result<
    (CollectionItem, usize, bool),
    ParseError,
>)
    requires
        end <= toks@.len(),
        old(names).0 < pos,
    ensures
        match grid_item_spec(toks@, pos as int, end as int, old(names).0 as nat) {
            Ok((it, next, braced)) => r matches Ok((item, k, b)) && item_text(item) == it && k == next && b
                == braced && final(names).0 == old(names).0 + 1,
            Err(e) => r == Err::<(CollectionItem, usize, bool), ParseError>(e),
        },
{
    reveal(grid_item_spec);
    if pos >= end {
        return Err(ParseError::ExpectedExpression(pos));
    }
    if opens_exec(&toks[pos], "{") {
        let c = match find_close(toks, pos, end) {
            Some(c) => c,
            None => return Err(ParseError::Unclosed(pos)),
        };
        proof {
            lemma_close_from_range(toks@, pos + 1, end as int, 1);
        }
        if pos + 1 >= c {
            return Err(ParseError::ExpectedExpression(pos + 1));
        }
        let (item, k) = match CollectionItem::parse(toks, pos + 1, c, names) {
            Ok(p) => p,
            Err(e) => return Err(e),
        };
        if k != c {
            return Err(ParseError::Unexpected(k));
        }
        Ok((item, c + 1, true))
    } else {
        match CollectionItem::parse(toks, pos, end, names) {
            Ok((item, k)) => Ok((item, k, false)),
            Err(e) => Err(e),
        }
    }
}

/// Parse the grid entries from `pos` to `end`, appending their cells and
/// items
fn parse_grid_into(
    toks: &Vec<Tok>,
    pos: usize,
    end: usize,
    names: &mut NameGenerator,
    cells: &mut Vec<CellInfo>,
    items: &mut Vec<CollectionItem>,
) -> (r: Result<(), ParseError>)
    requires
        pos <= end <= toks@.len(),
        old(names).0 <= pos,
    ensures
        match grid_spec(toks@, pos as int, end as int, old(names).0 as nat) {
            Ok((cs, its)) => r is Ok && final(cells)@ == old(cells)@ + cs && texts(final(items)@) == texts(
                old(items)@,
            ) + its,
            Err(e) => r == Err::<(), ParseError>(e),
        },
    decreases end - pos,
{
    if pos >= end {
        assert(cells@ + Seq::empty() =~= cells@);
        assert(texts(items@) + Seq::empty() =~= texts(items@));
        return Ok(());
    }
    proof {
        lemma_cell_advances(toks@, pos as int, end as int);
    }
    let (cell, p) = match CellInfo::parse(toks, pos, end) {
        Ok(x) => x,
        Err(e) => return Err(e),
    };
    if !(end - p > 1 && joint(&toks[p], "=") && is_punct(&toks[p + 1], ">")) {
        return Err(ParseError::ExpectedArrow(p));
    }
    proof {
        lemma_grid_item_advances(toks@, p + 2, end as int, names.0 as nat);
    }
    let ghost n0 = names.0;
    let ghost cells0 = cells@;
    let ghost items0 = items@;
    let (item, k, braced) = match parse_grid_item(toks, p + 2, end, names) {
        Ok(x) => x,
        Err(e) => return Err(e),
    };
    cells.push(cell);
    items.push(item);
    assert(texts(items@) =~= texts(items0) + seq![item_text(item)]);
    if k >= end {
        return Ok(());
    }
    let next = if is_punct(&toks[k], ",") {
        k + 1
    } else if braced {
        k
    } else {
        return Err(ParseError::ExpectedComma(k));
    };
    let r = parse_grid_into(toks, next, end, names, cells, items);
    proof {
        match grid_spec(toks@, next as int, end as int, (n0 + 1) as nat) {
            Ok((cs, its)) => {
                assert(cells@ =~= cells0 + (seq![cell] + cs));
                assert(texts(items@) =~= texts(items0) + (seq![item_text(item)] + its));
            },
            Err(_) => {},
        }
    }
    r
}

/// The cells and item texts of an aligned collection from `pos` to `end`:
/// lines `kw![items]` separated by commas, line `line` first, its first item
/// stored as the `n`-th name; item `i` of line `l` has the cell
/// `aligned_cell(l, i, transpose)`
pub open spec fn aligned_spec(
    toks: Seq<Tok>,
    pos: int,
    end: int,
    line: nat,
    n: nat,
    kw: Seq<char>,
    transpose: bool,
) -> Result<(Seq<CellInfo>, Seq<(bool, Seq<char>, Seq<char>, Seq<char>)>), ParseError>
    decreases end - pos,
{
    if pos < 0 || pos >= end || end > toks.len() {
        Ok((Seq::empty(), Seq::empty()))
    } else if !is_ident_spec(toks[pos], kw) {
        Err(ParseError::ExpectedKeyword(pos as usize))
    } else if !(pos + 1 < end && is_punct_spec(toks[pos + 1], "!"@)) {
        Err(ParseError::ExpectedKeyword((pos + 1) as usize))
    } else if !(pos + 2 < end && opens(toks[pos + 2], "["@)) {
        Err(ParseError::ExpectedBrackets((pos + 2) as usize))
    } else {
        proof {
            lemma_close_from_range(toks, pos + 3, end, 1);
        }
        match group_close(toks, pos + 2, end) {
            None => Err(ParseError::Unclosed((pos + 2) as usize)),
            Some(c) => match items_spec(toks, pos + 3, c, n) {
                Err(e) => Err(e),
                Ok(v) => {
                    let cs = Seq::new(v.len(), |i: int| aligned_cell(line as int, i, transpose));
                    if c + 1 >= end {
                        Ok((cs, v))
                    } else if !is_punct_spec(toks[c + 1], ","@) {
                        Err(ParseError::ExpectedComma((c + 1) as usize))
                    } else {
                        match aligned_spec(toks, c + 2, end, line + 1, n + v.len(), kw, transpose) {
                            Err(e) => Err(e),
                            Ok((cs2, v2)) => Ok((cs + cs2, v + v2)),
                        }
                    }
                },
            },
        }
    }
}

/// Parse the lines of an aligned collection from `pos` to `end`, appending
/// their cells and items
fn parse_aligned_into(
    toks: &Vec<Tok>,
    pos: usize,
    end: usize,
    line: u32,
    kw: &str,
    transpose: bool,
    names: &mut NameGenerator,
    cells: &mut Vec<CellInfo>,
    items: &mut Vec<CollectionItem>,
) -> (r: Result<(), ParseError>)
    requires
        pos <= end <= toks@.len(),
        end <= u32::MAX,
        line <= pos,
        old(names).0 <= pos,
    ensures
        match aligned_spec(toks@, pos as int, end as int, line as nat, old(names).0 as nat, kw@, transpose) {
            Ok((cs, its)) => r is Ok && final(cells)@ == old(cells)@ + cs && texts(final(items)@) == texts(
                old(items)@,
            ) + its,
            Err(e) => r == Err::<(), ParseError>(e),
        },
    decreases end - pos,
{
    if pos >= end {
        assert(cells@ + Seq::empty() =~= cells@);
        assert(texts(items@) + Seq::empty() =~= texts(items@));
        return Ok(());
    }
    if !is_ident(&toks[pos], kw) {
        return Err(ParseError::ExpectedKeyword(pos));
    }
    if !(pos + 1 < end && is_punct(&toks[pos + 1], "!")) {
        return Err(ParseError::ExpectedKeyword(pos + 1));
    }
    if !(pos + 2 < end && opens_exec(&toks[pos + 2], "[")) {
        return Err(ParseError::ExpectedBrackets(pos + 2));
    }
    proof {
        lemma_close_from_range(toks@, pos + 3, end as int, 1);
    }
    let c = match find_close(toks, pos + 2, end) {
        Some(c) => c,
        None => return Err(ParseError::Unclosed(pos + 2)),
    };
    let ghost n0 = names.0;
    let ghost cells0 = cells@;
    let ghost items0 = items@;
    let count0 = items.len();
    match parse_items_into(toks, pos + 3, c, names, items) {
        Ok(()) => {},
        Err(e) => return Err(e),
    }
    let ghost v = items_spec(toks@, pos + 3, c as int, n0 as nat)->Ok_0;
    assert(texts(items@).len() == items@.len());
    let count = items.len() - count0;
    let mut i: usize = 0;
    while i < count
        invariant
            i <= count,
            count == v.len(),
            count < end <= u32::MAX,
            line < end,
            cells@ == cells0 + Seq::new(i as nat, |j: int| aligned_cell(line as int, j, transpose)),
        decreases count - i,
    {
        let cell = if transpose {
            CellInfo::new(line, i as u32)
        } else {
            CellInfo::new(i as u32, line)
        };
        cells.push(cell);
        assert(cells@ =~= cells0 + Seq::new((i + 1) as nat, |j: int| aligned_cell(line as int, j, transpose)));
        i += 1;
    }
    let ghost cs = Seq::new(v.len(), |j: int| aligned_cell(line as int, j, transpose));
    if c + 1 >= end {
        return Ok(());
    }
    if !is_punct(&toks[c + 1], ",") {
        return Err(ParseError::ExpectedComma(c + 1));
    }
    let ghost cells1 = cells@;
    let ghost items1 = items@;
    let r = parse_aligned_into(toks, c + 2, end, line + 1, kw, transpose, names, cells, items);
    proof {
        match aligned_spec(toks@, c + 2, end as int, (line + 1) as nat, (n0 + v.len()) as nat, kw@, transpose) {
            Ok((cs2, v2)) => {
                assert(cells@ =~= cells0 + (cs + cs2));
                assert(texts(items@) =~= texts(items0) + (v + v2));
            },
            Err(_) => {},
        }
    }
    r
}

/// The cells and item texts of a cell collection: `aligned_column` then
/// `row![..]` lines, `aligned_row` then `column![..]` lines (transposed), or
/// grid entries
pub open spec fn cell_collection_spec(toks: Seq<Tok>) -> Result<
    (Seq<CellInfo>, Seq<(bool, Seq<char>, Seq<char>, Seq<char>)>),
    ParseError,
> {
    if toks.len() > 0 && is_ident_spec(toks[0], "aligned_column"@) {
        aligned_spec(toks, 1, toks.len() as int, 0, 0, "row"@, false)
    } else if toks.len() > 0 && is_ident_spec(toks[0], "aligned_row"@) {
        aligned_spec(toks, 1, toks.len() as int, 0, 0, "column"@, true)
    } else {
        grid_spec(toks, 0, toks.len() as int, 0)
    }
}

impl CellCollection {
    /// Parse a cell collection (see [`cell_collection_spec`])
    pub fn parse(toks: &Vec<Tok>) -> (r: Result<CellCollection, ParseError>)
        requires
            toks@.len() <= u32::MAX,
        ensures
            match cell_collection_spec(toks@) {
                Ok((cs, its)) => r matches Ok(cc) && cc.0@ == cs && texts(cc.1.0@) == its,
                Err(e) => r == Err::<CellCollection, ParseError>(e),
            },
    {
        if toks.len() > 0 && is_ident(&toks[0], "aligned_column") {
            return CellCollection::parse_aligned(toks, "row", false);
        } else if toks.len() > 0 && is_ident(&toks[0], "aligned_row") {
            return CellCollection::parse_aligned(toks, "column", true);
        }
        let mut names = NameGenerator(0);
        let mut cells: Vec<CellInfo> = Vec::new();
        let mut items: Vec<CollectionItem> = Vec::new();
        assert(texts(items@) =~= Seq::empty());
        match parse_grid_into(toks, 0, toks.len(), &mut names, &mut cells, &mut items) {
            Ok(()) => {
                proof {
                    match grid_spec(toks@, 0, toks@.len() as int, 0) {
                        Ok((cs, its)) => {
                            assert(Seq::<CellInfo>::empty() + cs =~= cs);
                            assert(Seq::<(bool, Seq<char>, Seq<char>, Seq<char>)>::empty() + its =~= its);
                        },
                        Err(_) => {},
                    }
                }
                Ok(CellCollection(cells, Collection(items)))
            },
            Err(e) => Err(e),
        }
    }

    /// Parse the lines of an aligned collection after its first token: each
    /// `kw![items]`, item `i` of line `l` placed in column `i` and row `l`,
    /// or in column `l` and row `i` when `transpose`
    pub fn parse_aligned(toks: &Vec<Tok>, kw: &str, transpose: bool) -> (r: Result<CellCollection, ParseError>)
        requires
            toks@.len() <= u32::MAX,
        ensures
            match aligned_spec(toks@, 1, toks@.len() as int, 0, 0, kw@, transpose) {
                Ok((cs, its)) => r matches Ok(cc) && cc.0@ == cs && texts(cc.1.0@) == its,
                Err(e) => r == Err::<CellCollection, ParseError>(e),
            },
    {
        let mut names = NameGenerator(0);
        let mut cells: Vec<CellInfo> = Vec::new();
        let mut items: Vec<CollectionItem> = Vec::new();
        assert(texts(items@) =~= Seq::empty());
        if toks.len() == 0 {
            return Ok(CellCollection(cells, Collection(items)));
        }
        match parse_aligned_into(toks, 1, toks.len(), 0, kw, transpose, &mut names, &mut cells, &mut items) {
            Ok(()) => {
                proof {
                    match aligned_spec(toks@, 1, toks@.len() as int, 0, 0, kw@, transpose) {
                        Ok((cs, its)) => {
                            assert(Seq::<CellInfo>::empty() + cs =~= cs);
                            assert(Seq::<(bool, Seq<char>, Seq<char>, Seq<char>)>::empty() + its =~= its);
                        },
                        Err(_) => {},
                    }
                }
                Ok(CellCollection(cells, Collection(items)))
            },
            Err(e) => Err(e),
        }
    }
}

} // verus!
