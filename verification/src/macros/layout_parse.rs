//! Parsing the layout language of widgets: `column![..]`, `row![..]`,
//! `list![..].with_direction(..)`, `float![..]`, `frame!(..)`, `grid!{..}`,
//! `aligned_column![..]`, `aligned_row![..]`, labels, `self.field` and
//! widget expressions, each optionally followed by `.align(..)` and
//! `.pack(..)`.

use crate::macros::autoimpl::Member;
use crate::macros::collection::{
    aligned_cell, dims_of, grid_dimensions, stor_name, CellInfo, GridDimensions, NameGenerator,
};
use crate::macros::collection_parse::{
    cell_spec, copy_range, is_joint, joint, lemma_cell_advances, lit_u32, literal_u32, opens,
    opens_exec, ParseError,
};
use crate::macros::make_layout::{Layout, LayoutDir, Tree};
use crate::macros::parse::{expr_end, find_close, find_expr_end, group_close, is_str_lit, lemma_close_from_range, str_lit};
use crate::macros::tokens::{copy_string, is_ident, is_ident_spec, is_punct, is_punct_spec, render, tok_text, Tok};
use vstd::prelude::*;

verus! {

/// The direction of a list, as a value
pub enum DirView {
    Left,
    Right,
    Up,
    Down,
    Expr(Seq<Tok>),
}

/// A layout tree as a value: names and labels as text, hints and
/// expressions as tokens, frame style and background as rendered text, grid
/// dimensions as `(cols, col_spans, rows, row_spans)`
pub enum LayoutView {
    Align(Box<LayoutView>, Seq<Tok>),
    Pack(Box<LayoutView>, Seq<Tok>, Seq<char>),
    SingleNamed(Seq<char>),
    SingleIndex(u32),
    Widget(Seq<char>, Seq<Tok>),
    Frame(Seq<char>, Box<LayoutView>, Seq<char>, Seq<char>),
    List(Seq<char>, DirView, Seq<LayoutView>),
    Float(Seq<LayoutView>),
    Grid(Seq<char>, (int, int, int, int), Seq<(CellInfo, LayoutView)>),
    Label(Seq<char>, Seq<char>),
}

/// The value of a list direction
pub open spec fn dir_view(d: LayoutDir) -> DirView {
    match d {
        LayoutDir::Left => DirView::Left,
        LayoutDir::Right => DirView::Right,
        LayoutDir::Up => DirView::Up,
        LayoutDir::Down => DirView::Down,
        LayoutDir::Expr(e) => DirView::Expr(e@),
    }
}

/// The value of a layout tree
pub open spec fn layout_view(l: Layout) -> LayoutView
    decreases l,
{
    match l {
        Layout::Align(b, h) => LayoutView::Align(Box::new(layout_view(*b)), h@),
        Layout::Pack(b, h, s) => LayoutView::Pack(Box::new(layout_view(*b)), h@, s@),
        Layout::Single(m) => match m {
            Member::Named(s) => LayoutView::SingleNamed(s@),
            Member::Unnamed(i) => LayoutView::SingleIndex(i),
        },
        Layout::Widget(s, e) => LayoutView::Widget(s@, e@),
        Layout::Frame(s, b, st, bg) => LayoutView::Frame(s@, Box::new(layout_view(*b)), render(st@), render(bg@)),
        Layout::List(s, d, list) => LayoutView::List(s@, dir_view(d), layout_views(list@)),
        Layout::Float(list) => LayoutView::Float(layout_views(list@)),
        Layout::Grid(s, dim, items) => LayoutView::Grid(
            s@,
            (dim.cols as int, dim.col_spans as int, dim.rows as int, dim.row_spans as int),
            grid_views(items@),
        ),
        Layout::Label(s, t) => LayoutView::Label(s@, t@),
    }
}

/// The values of a sequence of layouts
pub open spec fn layout_views(list: Seq<Layout>) -> Seq<LayoutView>
    decreases list,
{
    if list.len() == 0 {
        Seq::empty()
    } else {
        layout_views(list.subrange(0, list.len() - 1)).push(layout_view(list[list.len() - 1]))
    }
}

/// The values of the cells of a grid
pub open spec fn grid_views(items: Seq<(CellInfo, Layout)>) -> Seq<(CellInfo, LayoutView)>
    decreases items,
{
    if items.len() == 0 {
        Seq::empty()
    } else {
        grid_views(items.subrange(0, items.len() - 1)).push(
            (items[items.len() - 1].0, layout_view(items[items.len() - 1].1)),
        )
    }
}

/// `layout_views` maps each layout to its value
pub proof fn lemma_layout_views(list: Seq<Layout>)
    ensures
        layout_views(list).len() == list.len(),
        forall|i: int| 0 <= i < list.len() ==> #[trigger] layout_views(list)[i] == layout_view(list[i]),
    decreases list.len(),
{
    if list.len() > 0 {
        let front = list.subrange(0, list.len() - 1);
        lemma_layout_views(front);
        assert forall|i: int| 0 <= i < list.len() - 1 implies #[trigger] layout_views(list)[i] == layout_view(
            list[i],
        ) by {
            assert(front[i] == list[i]);
        }
    }
}

/// `grid_views` maps each cell's layout to its value
pub proof fn lemma_grid_views(items: Seq<(CellInfo, Layout)>)
    ensures
        grid_views(items).len() == items.len(),
        forall|i: int|
            0 <= i < items.len() ==> #[trigger] grid_views(items)[i] == (items[i].0, layout_view(items[i].1)),
    decreases items.len(),
{
    if items.len() > 0 {
        let front = items.subrange(0, items.len() - 1);
        lemma_grid_views(front);
        assert forall|i: int| 0 <= i < items.len() - 1 implies #[trigger] grid_views(items)[i] == (
            items[i].0,
            layout_view(items[i].1),
        ) by {
            assert(front[i] == items[i]);
        }
    }
}

/// The cells of grid entries
pub open spec fn cells_of(items: Seq<(CellInfo, LayoutView)>) -> Seq<CellInfo> {
    items.map_values(|p: (CellInfo, LayoutView)| p.0)
}

/// The text of a path segment `::seg`
pub open spec fn seg_text(seg: Seq<char>) -> Seq<char> {
    ":"@ + ":"@ + seq![' '] + seg + seq![' ']
}

/// The default frame style, `::kas::theme::FrameStyle::Frame`, as text
pub open spec fn default_style_text() -> Seq<char> {
    seg_text("kas"@) + seg_text("theme"@) + seg_text("FrameStyle"@) + seg_text("Frame"@)
}

/// The default frame background, `::kas::theme::Background::Default`, as
/// text
pub open spec fn default_background_text() -> Seq<char> {
    seg_text("kas"@) + seg_text("theme"@) + seg_text("Background"@) + seg_text("Default"@)
}

/// The text of an optional frame style
pub open spec fn style_text(st: Option<Seq<Tok>>) -> Seq<char> {
    match st {
        Some(s) => render(s),
        None => default_style_text(),
    }
}

/// The text of an optional frame background
pub open spec fn background_text(bg: Option<Seq<Tok>>) -> Seq<char> {
    match bg {
        Some(s) => render(s),
        None => default_background_text(),
    }
}

/// A parenthesized expression at `p` (before `end`), filling the
/// parentheses: its tokens and the index after the group
pub open spec fn paren_expr_spec(toks: Seq<Tok>, p: int, end: int) -> Result<(Seq<Tok>, int), ParseError> {
    if !(0 <= p < end && opens(toks[p], "("@)) {
        Err(ParseError::ExpectedParens(p as usize))
    } else {
        match group_close(toks, p, end) {
            None => Err(ParseError::Unclosed(p as usize)),
            Some(c) => {
                let e = expr_end(toks, p + 1, c);
                if e == p + 1 {
                    Err(ParseError::ExpectedExpression((p + 1) as usize))
                } else if e != c {
                    Err(ParseError::Unexpected(e as usize))
                } else {
                    Ok((toks.subrange(p + 1, c), c + 1))
                }
            },
        }
    }
}

/// A parenthesized expression ends after its start, within the input
pub proof fn lemma_paren_expr_advances(toks: Seq<Tok>, p: int, end: int)
    requires
        0 <= p <= end <= toks.len(),
    ensures
        paren_expr_spec(toks, p, end) matches Ok((_, j)) ==> p < j <= end,
{
    lemma_close_from_range(toks, p + 1, end, 1);
}

/// The methods `.align(hints)` and `.pack(hints)` applied to the layout
/// `l` parsed up to `k`; a `.` followed by another method is an error, a `.`
/// followed by no identifier ends the layout after the `.`
pub open spec fn postfix_spec(toks: Seq<Tok>, l: LayoutView, k: int, end: int, n: nat) -> Result<
    (LayoutView, int, nat),
    ParseError,
>
    decreases end - k,
{
    if !(0 <= k < end && end <= toks.len() && is_punct_spec(toks[k], "."@)) {
        Ok((l, k, n))
    } else if k + 1 < end && is_ident_spec(toks[k + 1], "align"@) {
        proof {
            lemma_paren_expr_advances(toks, k + 2, end);
        }
        match paren_expr_spec(toks, k + 2, end) {
            Err(e) => Err(e),
            Ok((h, j)) => postfix_spec(toks, LayoutView::Align(Box::new(l), h), j, end, n),
        }
    } else if k + 1 < end && is_ident_spec(toks[k + 1], "pack"@) {
        proof {
            lemma_paren_expr_advances(toks, k + 2, end);
        }
        match paren_expr_spec(toks, k + 2, end) {
            Err(e) => Err(e),
            Ok((h, j)) => postfix_spec(toks, LayoutView::Pack(Box::new(l), h, stor_name(n)), j, end, n + 1),
        }
    } else if k + 1 < end && toks[k + 1] is Ident {
        Err(ParseError::UnsupportedMethod((k + 1) as usize))
    } else {
        Ok((l, k + 1, n))
    }
}

/// The methods `.with_style(style)` and `.with_background(bg)` of a frame,
/// each at most once, from `k`: the style, background and index after them
pub open spec fn frame_opts_spec(
    toks: Seq<Tok>,
    k: int,
    end: int,
    style: Option<Seq<Tok>>,
    bg: Option<Seq<Tok>>,
) -> Result<(Option<Seq<Tok>>, Option<Seq<Tok>>, int), ParseError>
    decreases end - k,
{
    if !(0 <= k < end && end <= toks.len() && is_punct_spec(toks[k], "."@)) {
        Ok((style, bg, k))
    } else if style is None && k + 1 < end && is_ident_spec(toks[k + 1], "with_style"@) {
        proof {
            lemma_paren_expr_advances(toks, k + 2, end);
        }
        match paren_expr_spec(toks, k + 2, end) {
            Err(e) => Err(e),
            Ok((s, j)) => frame_opts_spec(toks, j, end, Some(s), bg),
        }
    } else if bg is None && k + 1 < end && is_ident_spec(toks[k + 1], "with_background"@) {
        proof {
            lemma_paren_expr_advances(toks, k + 2, end);
        }
        match paren_expr_spec(toks, k + 2, end) {
            Err(e) => Err(e),
            Ok((s, j)) => frame_opts_spec(toks, j, end, style, Some(s)),
        }
    } else {
        Ok((style, bg, k))
    }
}

/// `self.field` or `self.index` at `pos`: the layout and the index after it
pub open spec fn member_spec(toks: Seq<Tok>, pos: int, end: int) -> Result<(LayoutView, int), ParseError> {
    if !(pos + 1 < end && is_punct_spec(toks[pos + 1], "."@)) {
        Err(ParseError::ExpectedMember((pos + 1) as usize))
    } else if pos + 2 < end && toks[pos + 2] is Ident {
        Ok((LayoutView::SingleNamed(tok_text(toks[pos + 2])), pos + 3))
    } else if pos + 2 < end && lit_u32(toks[pos + 2]) is Some {
        Ok((LayoutView::SingleIndex(lit_u32(toks[pos + 2])->0), pos + 3))
    } else {
        Err(ParseError::ExpectedMember((pos + 2) as usize))
    }
}

/// The layout at `pos` (before `end`), its storage fields named from the
/// `n`-th: a macro-like layout (`kw!` ..), `self.member` or a label, each
/// followed by its methods, else a widget expression; the layout, the index
/// after it and the next name
pub open spec fn layout_spec(toks: Seq<Tok>, pos: int, end: int, n: nat) -> Result<
    (LayoutView, int, nat),
    ParseError,
>
    decreases end - pos, 2int,
{
    if !(0 <= pos < end && end <= toks.len()) {
        Err(ParseError::ExpectedExpression(pos as usize))
    } else if pos + 1 < end && is_punct_spec(toks[pos + 1], "!"@) {
        match macro_spec(toks, pos, end, n) {
            Err(e) => Err(e),
            Ok((l, k, n2)) => postfix_spec(toks, l, k, end, n2),
        }
    } else if is_ident_spec(toks[pos], "self"@) {
        match member_spec(toks, pos, end) {
            Err(e) => Err(e),
            Ok((l, k)) => postfix_spec(toks, l, k, end, n),
        }
    } else if is_str_lit(toks[pos]) {
        postfix_spec(toks, LayoutView::Label(stor_name(n), tok_text(toks[pos])), pos + 1, end, n + 1)
    } else {
        let e = expr_end(toks, pos, end);
        if e == pos {
            Err(ParseError::ExpectedExpression(pos as usize))
        } else {
            Ok((LayoutView::Widget(stor_name(n), toks.subrange(pos, e)), e, n + 1))
        }
    }
}

/// A macro-like layout at `pos`, whose `!` follows: `frame!(..)`,
/// `column![..]`, `row![..]`, `list![..].with_direction(..)`, `float![..]`,
/// `aligned_column![..]`, `aligned_row![..]` or `grid!{..}`; any other is a
/// widget expression
pub open spec fn macro_spec(toks: Seq<Tok>, pos: int, end: int, n: nat) -> Result<
    (LayoutView, int, nat),
    ParseError,
>
    decreases end - pos, 1int,
{
    if !(0 <= pos < end && end <= toks.len()) {
        Err(ParseError::ExpectedExpression(pos as usize))
    } else if is_ident_spec(toks[pos], "frame"@) {
        if !(pos + 2 < end && opens(toks[pos + 2], "("@)) {
            Err(ParseError::ExpectedParens((pos + 2) as usize))
        } else {
            proof {
                lemma_close_from_range(toks, pos + 3, end, 1);
            }
            match group_close(toks, pos + 2, end) {
                None => Err(ParseError::Unclosed((pos + 2) as usize)),
                Some(c) => match layout_spec(toks, pos + 3, c, n + 1) {
                    Err(e) => Err(e),
                    Ok((inner, k, n2)) => if k != c {
                        Err(ParseError::Unexpected(k as usize))
                    } else {
                        match frame_opts_spec(toks, c + 1, end, None, None) {
                            Err(e) => Err(e),
                            Ok((st, bg, j)) => Ok((
                                LayoutView::Frame(stor_name(n), Box::new(inner), style_text(st), background_text(bg)),
                                j,
                                n2,
                            )),
                        }
                    },
                },
            }
        }
    } else if pos + 2 >= end && (is_ident_spec(toks[pos], "column"@) || is_ident_spec(toks[pos], "row"@)
        || is_ident_spec(toks[pos], "list"@) || is_ident_spec(toks[pos], "float"@)) {
        Err(ParseError::ExpectedBrackets((pos + 2) as usize))
    } else if is_ident_spec(toks[pos], "column"@) || is_ident_spec(toks[pos], "row"@) {
        let dir = if is_ident_spec(toks[pos], "column"@) {
            DirView::Down
        } else {
            DirView::Right
        };
        match bracket_list_spec(toks, pos + 2, end, n + 1) {
            Err(e) => Err(e),
            Ok((ls, k, n2)) => Ok((LayoutView::List(stor_name(n), dir, ls), k, n2)),
        }
    } else if is_ident_spec(toks[pos], "list"@) {
        match bracket_list_spec(toks, pos + 2, end, n + 1) {
            Err(e) => Err(e),
            Ok((ls, k, n2)) => if !(k < end && is_punct_spec(toks[k], "."@)) {
                Err(ParseError::ExpectedDirection(k as usize))
            } else if !(k + 1 < end && is_ident_spec(toks[k + 1], "with_direction"@)) {
                Err(ParseError::ExpectedDirection((k + 1) as usize))
            } else {
                match paren_expr_spec(toks, k + 2, end) {
                    Err(e) => Err(e),
                    Ok((d, j)) => Ok((LayoutView::List(stor_name(n), DirView::Expr(d), ls), j, n2)),
                }
            },
        }
    } else if is_ident_spec(toks[pos], "float"@) {
        match bracket_list_spec(toks, pos + 2, end, n) {
            Err(e) => Err(e),
            Ok((ls, k, n2)) => Ok((LayoutView::Float(ls), k, n2)),
        }
    } else if is_ident_spec(toks[pos], "aligned_column"@) || is_ident_spec(toks[pos], "aligned_row"@) {
        let by_rows = is_ident_spec(toks[pos], "aligned_column"@);
        if !(pos + 2 < end && opens(toks[pos + 2], "["@)) {
            Err(ParseError::ExpectedBrackets((pos + 2) as usize))
        } else {
            proof {
                lemma_close_from_range(toks, pos + 3, end, 1);
            }
            match group_close(toks, pos + 2, end) {
                None => Err(ParseError::Unclosed((pos + 2) as usize)),
                Some(c) => match lines_spec(
                    toks,
                    pos + 3,
                    c,
                    n + 1,
                    if by_rows {
                        "row"@
                    } else {
                        "column"@
                    },
                    !by_rows,
                    0,
                ) {
                    Err(e) => Err(e),
                    Ok((items, n2)) => Ok((LayoutView::Grid(stor_name(n), dims_of(cells_of(items)), items), c + 1, n2)),
                },
            }
        }
    } else if is_ident_spec(toks[pos], "grid"@) {
        if !(pos + 2 < end && opens(toks[pos + 2], "{"@)) {
            Err(ParseError::ExpectedBraces((pos + 2) as usize))
        } else {
            proof {
                lemma_close_from_range(toks, pos + 3, end, 1);
            }
            match group_close(toks, pos + 2, end) {
                None => Err(ParseError::Unclosed((pos + 2) as usize)),
                Some(c) => match layout_grid_spec(toks, pos + 3, c, n + 1) {
                    Err(e) => Err(e),
                    Ok((items, n2)) => Ok((LayoutView::Grid(stor_name(n), dims_of(cells_of(items)), items), c + 1, n2)),
                },
            }
        }
    } else {
        let e = expr_end(toks, pos, end);
        if e == pos {
            Err(ParseError::ExpectedExpression(pos as usize))
        } else {
            Ok((LayoutView::Widget(stor_name(n), toks.subrange(pos, e)), e, n + 1))
        }
    }
}

/// A bracketed list of layouts at `p`: the layouts, the index after the
/// group and the next name
pub open spec fn bracket_list_spec(toks: Seq<Tok>, p: int, end: int, n: nat) -> Result<
    (Seq<LayoutView>, int, nat),
    ParseError,
>
    decreases end - p, 0int,
{
    if !(0 <= p < end && end <= toks.len() && opens(toks[p], "["@)) {
        Err(ParseError::ExpectedBrackets(p as usize))
    } else {
        proof {
            lemma_close_from_range(toks, p + 1, end, 1);
        }
        match group_close(toks, p, end) {
            None => Err(ParseError::Unclosed(p as usize)),
            Some(c) => match list_items_spec(toks, p + 1, c, n) {
                Err(e) => Err(e),
                Ok((ls, n2)) => Ok((ls, c + 1, n2)),
            },
        }
    }
}

/// Comma-separated layouts from `pos` to `end` (a trailing comma allowed):
/// the layouts and the next name
pub open spec fn list_items_spec(toks: Seq<Tok>, pos: int, end: int, n: nat) -> Result<
    (Seq<LayoutView>, nat),
    ParseError,
>
    decreases end - pos, 3int,
{
    if !(0 <= pos < end && end <= toks.len()) {
        Ok((Seq::empty(), n))
    } else {
        match layout_spec(toks, pos, end, n) {
            Err(e) => Err(e),
            Ok((l, k, n2)) => if k <= pos || k > end {
                // a layout ends after its start: this branch is never taken
                Err(ParseError::Unexpected(pos as usize))
            } else if k >= end {
                Ok((seq![l], n2))
            } else if !is_punct_spec(toks[k], ","@) {
                Err(ParseError::ExpectedComma(k as usize))
            } else {
                match list_items_spec(toks, k + 1, end, n2) {
                    Err(e) => Err(e),
                    Ok((rest, n3)) => Ok((seq![l] + rest, n3)),
                }
            },
        }
    }
}

/// Comma-separated lines `kw![layouts]` from `pos` to `end`, line `line`
/// first: each layout with its cell, item `i` of line `l` in
/// `aligned_cell(l, i, transpose)`, and the next name
pub open spec fn lines_spec(
    toks: Seq<Tok>,
    pos: int,
    end: int,
    n: nat,
    kw: Seq<char>,
    transpose: bool,
    line: nat,
) -> Result<(Seq<(CellInfo, LayoutView)>, nat), ParseError>
    decreases end - pos, 0int,
{
    if !(0 <= pos < end && end <= toks.len()) {
        Ok((Seq::empty(), n))
    } else if !is_ident_spec(toks[pos], kw) {
        Err(ParseError::ExpectedKeyword(pos as usize))
    } else if !(pos + 1 < end && is_punct_spec(toks[pos + 1], "!"@)) {
        Err(ParseError::ExpectedKeyword((pos + 1) as usize))
    } else if !(pos + 2 < end && opens(toks[pos + 2], "["@)) {
        Err(ParseError::ExpectedBrackets((pos + 2) as usize))
    } else {
        proof {
            lemma_close_from_range(toks, pos + 3, end, 1);
        }
        match group_close(toks, pos + 2, end) {
            None => Err(ParseError::Unclosed((pos + 2) as usize)),
            Some(c) => match list_items_spec(toks, pos + 3, c, n) {
                Err(e) => Err(e),
                Ok((ls, n2)) => {
                    let items = Seq::new(ls.len(), |i: int| (aligned_cell(line as int, i, transpose), ls[i]));
                    if c + 1 >= end {
                        Ok((items, n2))
                    } else if !is_punct_spec(toks[c + 1], ","@) {
                        Err(ParseError::ExpectedComma((c + 1) as usize))
                    } else {
                        match lines_spec(toks, c + 2, end, n2, kw, transpose, line + 1) {
                            Err(e) => Err(e),
                            Ok((rest, n3)) => Ok((items + rest, n3)),
                        }
                    }
                },
            },
        }
    }
}

/// Grid entries `cell => layout` from `pos` to `end`, separated by commas,
/// a comma being optional after a braced layout: the entries and the next
/// name
pub open spec fn layout_grid_spec(toks: Seq<Tok>, pos: int, end: int, n: nat) -> Result<
    (Seq<(CellInfo, LayoutView)>, nat),
    ParseError,
>
    decreases end - pos, 0int,
{
    if !(0 <= pos < end && end <= toks.len()) {
        Ok((Seq::empty(), n))
    } else {
        proof {
            lemma_cell_advances(toks, pos, end);
        }
        match cell_spec(toks, pos, end) {
            Err(e) => Err(e),
            Ok((cell, p)) => if cell.last_col == u32::MAX || cell.last_row == u32::MAX {
                Err(ParseError::Overflow(pos as usize))
            } else if !(p + 1 < end && is_joint(toks[p], "="@) && is_punct_spec(toks[p + 1], ">"@)) {
                Err(ParseError::ExpectedArrow(p as usize))
            } else {
                let q = p + 2;
                proof {
                    lemma_close_from_range(toks, q + 1, end, 1);
                }
                let item: Result<(LayoutView, int, nat, bool), ParseError> = if q < end && opens(toks[q], "{"@) {
                    match group_close(toks, q, end) {
                        None => Err(ParseError::Unclosed(q as usize)),
                        Some(c) => match layout_spec(toks, q + 1, c, n) {
                            Err(e) => Err(e),
                            Ok((l, k, n2)) => if k != c {
                                Err(ParseError::Unexpected(k as usize))
                            } else {
                                Ok((l, c + 1, n2, true))
                            },
                        },
                    }
                } else {
                    match layout_spec(toks, q, end, n) {
                        Err(e) => Err(e),
                        Ok((l, k, n2)) => Ok((l, k, n2, false)),
                    }
                };
                match item {
                    Err(e) => Err(e),
                    Ok((l, k, n2, braced)) => if k <= pos || k > end {
                        // a layout ends after its start: this branch is never taken
                        Err(ParseError::Unexpected(pos as usize))
                    } else if k >= end {
                        Ok((seq![(cell, l)], n2))
                    } else if is_punct_spec(toks[k], ","@) {
                        match layout_grid_spec(toks, k + 1, end, n2) {
                            Err(e) => Err(e),
                            Ok((rest, n3)) => Ok((seq![(cell, l)] + rest, n3)),
                        }
                    } else if braced {
                        match layout_grid_spec(toks, k, end, n2) {
                            Err(e) => Err(e),
                            Ok((rest, n3)) => Ok((seq![(cell, l)] + rest, n3)),
                        }
                    } else {
                        Err(ParseError::ExpectedComma(k as usize))
                    },
                }
            },
        }
    }
}

/// The value of an optional token sequence
pub open spec fn opt_view(o: Option<Vec<Tok>>) -> Option<Seq<Tok>> {
    match o {
        Some(v) => Some(v@),
        None => None,
    }
}

fn parse_paren_expr(toks: &Vec<Tok>, p: usize, end: usize) -> (r: Result<(Vec<Tok>, usize), ParseError>)
    requires
        p <= end <= toks@.len(),
    ensures
        match paren_expr_spec(toks@, p as int, end as int) {
            Ok((s, j)) => r matches Ok((v, k)) && v@ == s && k == j && p < k <= end,
            Err(e) => r == Err::<(Vec<Tok>, usize), ParseError>(e),
        },
{
    if !(p < end && opens_exec(&toks[p], "(")) {
        return Err(ParseError::ExpectedParens(p));
    }
    let c = match find_close(toks, p, end) {
        Some(c) => c,
        None => return Err(ParseError::Unclosed(p)),
    };
    proof {
        lemma_close_from_range(toks@, p + 1, end as int, 1);
    }
    let e = find_expr_end(toks, p + 1, c);
    if e == p + 1 {
        return Err(ParseError::ExpectedExpression(p + 1));
    }
    if e != c {
        return Err(ParseError::Unexpected(e));
    }
    Ok((copy_range(toks, p + 1, c), c + 1))
}

fn parse_postfix(toks: &Vec<Tok>, l: Layout, k: usize, end: usize, names: &mut NameGenerator) -> (r: Result<
    (Layout, usize),
    ParseError,
>)
    requires
        k <= end <= toks@.len(),
        old(names).0 <= k,
    ensures
        match postfix_spec(toks@, layout_view(l), k as int, end as int, old(names).0 as nat) {
            Ok((v, j, n2)) => r matches Ok((l2, next)) && layout_view(l2) == v && next == j && final(names).0 == n2
                && k <= next <= end && n2 <= next,
            Err(e) => r == Err::<(Layout, usize), ParseError>(e),
        },
    decreases end - k,
{
    if !(k < end && is_punct(&toks[k], ".")) {
        return Ok((l, k));
    }
    if end - k > 1 && is_ident(&toks[k + 1], "align") {
        let (h, j) = match parse_paren_expr(toks, k + 2, end) {
            Ok(x) => x,
            Err(e) => return Err(e),
        };
        return parse_postfix(toks, Layout::Align(Box::new(l), h), j, end, names);
    }
    if end - k > 1 && is_ident(&toks[k + 1], "pack") {
        let (h, j) = match parse_paren_expr(toks, k + 2, end) {
            Ok(x) => x,
            Err(e) => return Err(e),
        };
        let stor = names.next();
        return parse_postfix(toks, Layout::Pack(Box::new(l), h, stor), j, end, names);
    }
    if end - k > 1 {
        match &toks[k + 1] {
            Tok::Ident(_) => return Err(ParseError::UnsupportedMethod(k + 1)),
            _ => {},
        }
    }
    Ok((l, k + 1))
}

fn parse_frame_opts(
    toks: &Vec<Tok>,
    k: usize,
    end: usize,
    style: Option<Vec<Tok>>,
    bg: Option<Vec<Tok>>,
) -> (r: Result<(Option<Vec<Tok>>, Option<Vec<Tok>>, usize), ParseError>)
    requires
        k <= end <= toks@.len(),
    ensures
        match frame_opts_spec(toks@, k as int, end as int, opt_view(style), opt_view(bg)) {
            Ok((st, b, j)) => r matches Ok((st2, b2, j2)) && opt_view(st2) == st && opt_view(b2) == b && j2 == j
                && k <= j <= end,
            Err(e) => r == Err::<(Option<Vec<Tok>>, Option<Vec<Tok>>, usize), ParseError>(e),
        },
    decreases end - k,
{
    if !(k < end && is_punct(&toks[k], ".")) {
        return Ok((style, bg, k));
    }
    if style.is_none() && end - k > 1 && is_ident(&toks[k + 1], "with_style") {
        let (s, j) = match parse_paren_expr(toks, k + 2, end) {
            Ok(x) => x,
            Err(e) => return Err(e),
        };
        return parse_frame_opts(toks, j, end, Some(s), bg);
    }
    if bg.is_none() && end - k > 1 && is_ident(&toks[k + 1], "with_background") {
        let (s, j) = match parse_paren_expr(toks, k + 2, end) {
            Ok(x) => x,
            Err(e) => return Err(e),
        };
        return parse_frame_opts(toks, j, end, style, Some(s));
    }
    Ok((style, bg, k))
}

/// Append the path segment `::seg`
fn push_seg(v: &mut Vec<Tok>, seg: &str)
    ensures
        render(final(v)@) == render(old(v)@) + seg_text(seg@),
{
    let ghost v0 = v@;
    v.push(Tok::Punct(String::from_str(":"), true));
    let ghost v1 = v@;
    v.push(Tok::Punct(String::from_str(":"), false));
    let ghost v2 = v@;
    v.push(Tok::Ident(String::from_str(seg)));
    proof {
        assert(v1.drop_last() =~= v0);
        assert(v2.drop_last() =~= v1);
        assert(v@.drop_last() =~= v2);
        assert(render(v1) == render(v0) + ":"@ + Seq::<char>::empty());
        assert(render(v2) == render(v1) + ":"@ + seq![' ']);
        assert(render(v@) == render(v2) + seg@ + seq![' ']);
        assert(render(v@) =~= render(v0) + seg_text(seg@));
    }
}

/// The frame style: as given, else `::kas::theme::FrameStyle::Frame`
fn style_toks(st: Option<Vec<Tok>>) -> (v: Vec<Tok>)
    ensures
        render(v@) == style_text(opt_view(st)),
{
    match st {
        Some(v) => v,
        None => {
            let mut v: Vec<Tok> = Vec::new();
            push_seg(&mut v, "kas");
            push_seg(&mut v, "theme");
            push_seg(&mut v, "FrameStyle");
            push_seg(&mut v, "Frame");
            assert(render(v@) =~= default_style_text());
            v
        },
    }
}

/// The frame background: as given, else `::kas::theme::Background::Default`
fn background_toks(bg: Option<Vec<Tok>>) -> (v: Vec<Tok>)
    ensures
        render(v@) == background_text(opt_view(bg)),
{
    match bg {
        Some(v) => v,
        None => {
            let mut v: Vec<Tok> = Vec::new();
            push_seg(&mut v, "kas");
            push_seg(&mut v, "theme");
            push_seg(&mut v, "Background");
            push_seg(&mut v, "Default");
            assert(render(v@) =~= default_background_text());
            v
        },
    }
}

fn parse_member(toks: &Vec<Tok>, pos: usize, end: usize) -> (r: Result<(Layout, usize), ParseError>)
    requires
        pos < end <= toks@.len(),
    ensures
        match member_spec(toks@, pos as int, end as int) {
            Ok((v, k)) => r matches Ok((l, j)) && layout_view(l) == v && j == k,
            Err(e) => r == Err::<(Layout, usize), ParseError>(e),
        },
{
    if !(end - pos > 1 && is_punct(&toks[pos + 1], ".")) {
        return Err(ParseError::ExpectedMember(pos + 1));
    }
    if end - pos > 2 {
        match &toks[pos + 2] {
            Tok::Ident(s) => return Ok((Layout::Single(Member::Named(copy_string(s))), pos + 3)),
            _ => {},
        }
        match literal_u32(&toks[pos + 2]) {
            Some(i) => return Ok((Layout::Single(Member::Unnamed(i)), pos + 3)),
            None => {},
        }
    }
    Err(ParseError::ExpectedMember(pos + 2))
}

/// The cell of a grid entry leaves room for the grid's dimensions
pub open spec fn entry_fits(e: (CellInfo, Layout)) -> bool {
    e.0.last_col < u32::MAX && e.0.last_row < u32::MAX
}

/// The grid dimensions of parsed grid entries
fn entries_dims(items: &Vec<(CellInfo, Layout)>) -> (dim: GridDimensions)
    requires
        items@.len() <= u32::MAX,
        forall|i: int| 0 <= i < items@.len() ==> entry_fits(#[trigger] items@[i]),
    ensures
        (dim.cols as int, dim.col_spans as int, dim.rows as int, dim.row_spans as int) == dims_of(
            cells_of(grid_views(items@)),
        ),
{
    let mut cells: Vec<CellInfo> = Vec::new();
    let mut i: usize = 0;
    while i < items.len()
        invariant
            i <= items@.len(),
            cells@.len() == i,
            forall|j: int| 0 <= j < i ==> #[trigger] cells@[j] == items@[j].0,
        decreases items@.len() - i,
    {
        cells.push(items[i].0);
        i += 1;
    }
    proof {
        lemma_grid_views(items@);
        assert(cells@ =~= cells_of(grid_views(items@)));
        assert forall|j: int| 0 <= j < cells@.len() implies #[trigger] cells@[j].last_col < u32::MAX by {
            assert(entry_fits(items@[j]));
        }
        assert forall|j: int| 0 <= j < cells@.len() implies #[trigger] cells@[j].last_row < u32::MAX by {
            assert(entry_fits(items@[j]));
        }
    }
    grid_dimensions(&cells)
}

/// Parse the layout at `pos` (before `end`), naming its storage fields by
/// `names`
fn parse_layout(toks: &Vec<Tok>, pos: usize, end: usize, names: &mut NameGenerator) -> (r: Result<
    (Layout, usize),
    ParseError,
>)
    requires
        pos <= end <= toks@.len(),
        toks@.len() < u32::MAX,
        old(names).0 <= pos,
    ensures
        match layout_spec(toks@, pos as int, end as int, old(names).0 as nat) {
            Ok((v, k, n2)) => r matches Ok((l, next)) && layout_view(l) == v && next == k && final(names).0 == n2
                && pos < next <= end && n2 <= next,
            Err(e) => r == Err::<(Layout, usize), ParseError>(e),
        },
    decreases end - pos, 2int,
{
    if pos >= end {
        return Err(ParseError::ExpectedExpression(pos));
    }
    if end - pos > 1 && is_punct(&toks[pos + 1], "!") {
        let (l, k) = match parse_macro(toks, pos, end, names) {
            Ok(x) => x,
            Err(e) => return Err(e),
        };
        return parse_postfix(toks, l, k, end, names);
    }
    if is_ident(&toks[pos], "self") {
        let (l, k) = match parse_member(toks, pos, end) {
            Ok(x) => x,
            Err(e) => return Err(e),
        };
        return parse_postfix(toks, l, k, end, names);
    }
    if str_lit(&toks[pos]) {
        let text = match &toks[pos] {
            Tok::Literal(s) => copy_string(s),
            _ => String::new(),
        };
        let stor = names.next();
        return parse_postfix(toks, Layout::Label(stor, text), pos + 1, end, names);
    }
    let e = find_expr_end(toks, pos, end);
    if e == pos {
        return Err(ParseError::ExpectedExpression(pos));
    }
    let expr = copy_range(toks, pos, e);
    Ok((Layout::Widget(names.next(), expr), e))
}

/// Parse the macro-like layout at `pos`, whose `!` follows
#[verifier::rlimit(50)]
#[verifier::spinoff_prover]
fn parse_macro(toks: &Vec<Tok>, pos: usize, end: usize, names: &mut NameGenerator) -> (r: Result<
    (Layout, usize),
    ParseError,
>)
    requires
        pos <= end <= toks@.len(),
        toks@.len() < u32::MAX,
        old(names).0 <= pos,
    ensures
        match macro_spec(toks@, pos as int, end as int, old(names).0 as nat) {
            Ok((v, k, n2)) => r matches Ok((l, next)) && layout_view(l) == v && next == k && final(names).0 == n2
                && pos < next <= end && n2 <= next,
            Err(e) => r == Err::<(Layout, usize), ParseError>(e),
        },
    decreases end - pos, 1int,
{
    if pos >= end {
        return Err(ParseError::ExpectedExpression(pos));
    }
    if is_ident(&toks[pos], "frame") {
        if !(end - pos > 2 && opens_exec(&toks[pos + 2], "(")) {
            return Err(ParseError::ExpectedParens(pos + 2));
        }
        let c = match find_close(toks, pos + 2, end) {
            Some(c) => c,
            None => return Err(ParseError::Unclosed(pos + 2)),
        };
        proof {
            lemma_close_from_range(toks@, pos + 3, end as int, 1);
        }
        let stor = names.next();
        let (inner, k) = match parse_layout(toks, pos + 3, c, names) {
            Ok(x) => x,
            Err(e) => return Err(e),
        };
        if k != c {
            return Err(ParseError::Unexpected(k));
        }
        let (st, bg, j) = match parse_frame_opts(toks, c + 1, end, None, None) {
            Ok(x) => x,
            Err(e) => return Err(e),
        };
        return Ok((Layout::Frame(stor, Box::new(inner), style_toks(st), background_toks(bg)), j));
    }
    let is_column = is_ident(&toks[pos], "column");
    let is_row = is_ident(&toks[pos], "row");
    let is_list = is_ident(&toks[pos], "list");
    let is_float = is_ident(&toks[pos], "float");
    if end - pos <= 2 && (is_column || is_row || is_list || is_float) {
        return Err(ParseError::ExpectedBrackets(pos + 2));
    }
    if is_column || is_row {
        let stor = names.next();
        let (ls, k) = match parse_bracket_list(toks, pos + 2, end, names) {
            Ok(x) => x,
            Err(e) => return Err(e),
        };
        let dir = if is_column {
            LayoutDir::Down
        } else {
            LayoutDir::Right
        };
        return Ok((Layout::List(stor, dir, ls), k));
    }
    if is_list {
        let stor = names.next();
        let (ls, k) = match parse_bracket_list(toks, pos + 2, end, names) {
            Ok(x) => x,
            Err(e) => return Err(e),
        };
        if !(k < end && is_punct(&toks[k], ".")) {
            return Err(ParseError::ExpectedDirection(k));
        }
        if !(end - k > 1 && is_ident(&toks[k + 1], "with_direction")) {
            return Err(ParseError::ExpectedDirection(k + 1));
        }
        let (d, j) = match parse_paren_expr(toks, k + 2, end) {
            Ok(x) => x,
            Err(e) => return Err(e),
        };
        return Ok((Layout::List(stor, LayoutDir::Expr(d), ls), j));
    }
    if is_float {
        let (ls, k) = match parse_bracket_list(toks, pos + 2, end, names) {
            Ok(x) => x,
            Err(e) => return Err(e),
        };
        return Ok((Layout::Float(ls), k));
    }
    let by_rows = is_ident(&toks[pos], "aligned_column");
    if by_rows || is_ident(&toks[pos], "aligned_row") {
        if !(end - pos > 2 && opens_exec(&toks[pos + 2], "[")) {
            return Err(ParseError::ExpectedBrackets(pos + 2));
        }
        let c = match find_close(toks, pos + 2, end) {
            Some(c) => c,
            None => return Err(ParseError::Unclosed(pos + 2)),
        };
        proof {
            lemma_close_from_range(toks@, pos + 3, end as int, 1);
        }
        let stor = names.next();
        let mut items: Vec<(CellInfo, Layout)> = Vec::new();
        let kw = if by_rows {
            "row"
        } else {
            "column"
        };
        match parse_lines(toks, pos + 3, c, names, kw, !by_rows, 0, &mut items) {
            Ok(()) => {},
            Err(e) => return Err(e),
        }
        proof {
            lemma_grid_views(items@);
        }
        let dim = entries_dims(&items);
        return Ok((Layout::Grid(stor, dim, items), c + 1));
    }
    if is_ident(&toks[pos], "grid") {
        if !(end - pos > 2 && opens_exec(&toks[pos + 2], "{")) {
            return Err(ParseError::ExpectedBraces(pos + 2));
        }
        let c = match find_close(toks, pos + 2, end) {
            Some(c) => c,
            None => return Err(ParseError::Unclosed(pos + 2)),
        };
        proof {
            lemma_close_from_range(toks@, pos + 3, end as int, 1);
        }
        let stor = names.next();
        let mut items: Vec<(CellInfo, Layout)> = Vec::new();
        match parse_layout_grid(toks, pos + 3, c, names, &mut items) {
            Ok(()) => {},
            Err(e) => return Err(e),
        }
        proof {
            lemma_grid_views(items@);
        }
        let dim = entries_dims(&items);
        return Ok((Layout::Grid(stor, dim, items), c + 1));
    }
    let e = find_expr_end(toks, pos, end);
    if e == pos {
        return Err(ParseError::ExpectedExpression(pos));
    }
    let expr = copy_range(toks, pos, e);
    Ok((Layout::Widget(names.next(), expr), e))
}

/// Parse a bracketed list of layouts at `p`
fn parse_bracket_list(toks: &Vec<Tok>, p: usize, end: usize, names: &mut NameGenerator) -> (r: Result<
    (Vec<Layout>, usize),
    ParseError,
>)
    requires
        p <= end <= toks@.len(),
        toks@.len() < u32::MAX,
        old(names).0 <= p,
    ensures
        match bracket_list_spec(toks@, p as int, end as int, old(names).0 as nat) {
            Ok((ls, j, n2)) => r matches Ok((v, k)) && layout_views(v@) == ls && k == j && final(names).0 == n2
                && p < k <= end && n2 <= k,
            Err(e) => r == Err::<(Vec<Layout>, usize), ParseError>(e),
        },
    decreases end - p, 0int,
{
    if !(p < end && opens_exec(&toks[p], "[")) {
        return Err(ParseError::ExpectedBrackets(p));
    }
    let c = match find_close(toks, p, end) {
        Some(c) => c,
        None => return Err(ParseError::Unclosed(p)),
    };
    proof {
        lemma_close_from_range(toks@, p + 1, end as int, 1);
    }
    let mut v: Vec<Layout> = Vec::new();
    match parse_list_items(toks, p + 1, c, names, &mut v) {
        Ok(()) => {},
        Err(e) => return Err(e),
    }
    proof {
        match list_items_spec(toks@, p + 1, c as int, old(names).0 as nat) {
            Ok((ls, _)) => assert(Seq::<LayoutView>::empty() + ls =~= ls),
            Err(_) => {},
        }
    }
    Ok((v, c + 1))
}

/// Parse comma-separated layouts from `pos` to `end`, appending them
fn parse_list_items(
    toks: &Vec<Tok>,
    pos: usize,
    end: usize,
    names: &mut NameGenerator,
    out: &mut Vec<Layout>,
) -> (r: Result<(), ParseError>)
    requires
        pos <= end <= toks@.len(),
        toks@.len() < u32::MAX,
        old(names).0 <= pos,
    ensures
        match list_items_spec(toks@, pos as int, end as int, old(names).0 as nat) {
            Ok((ls, n2)) => r is Ok && layout_views(final(out)@) == layout_views(old(out)@) + ls && final(names).0
                == n2 && n2 <= end && final(out)@.len() <= old(out)@.len() + (end - pos),
            Err(e) => r == Err::<(), ParseError>(e),
        },
    decreases end - pos, 3int,
{
    if pos >= end {
        assert(layout_views(out@) + Seq::empty() =~= layout_views(out@));
        return Ok(());
    }
    let ghost out0 = out@;
    let (l, k) = match parse_layout(toks, pos, end, names) {
        Ok(x) => x,
        Err(e) => return Err(e),
    };
    out.push(l);
    proof {
        lemma_layout_views(out0);
        lemma_layout_views(out@);
        assert(layout_views(out@) =~= layout_views(out0) + seq![layout_view(l)]);
    }
    if k >= end {
        return Ok(());
    }
    if !is_punct(&toks[k], ",") {
        return Err(ParseError::ExpectedComma(k));
    }
    let ghost n2 = names.0;
    let r = parse_list_items(toks, k + 1, end, names, out);
    proof {
        match list_items_spec(toks@, k + 1, end as int, n2 as nat) {
            Ok((rest, _)) => assert(layout_views(out@) =~= layout_views(out0) + (seq![layout_view(l)] + rest)),
            Err(_) => {},
        }
    }
    r
}

/// Parse comma-separated lines `kw![layouts]` from `pos` to `end`, line
/// `line` first, appending their entries
fn parse_lines(
    toks: &Vec<Tok>,
    pos: usize,
    end: usize,
    names: &mut NameGenerator,
    kw: &str,
    transpose: bool,
    line: u32,
    out: &mut Vec<(CellInfo, Layout)>,
) -> (r: Result<(), ParseError>)
    requires
        pos <= end <= toks@.len(),
        toks@.len() < u32::MAX,
        old(names).0 <= pos,
        line <= pos,
        old(out)@.len() <= pos,
        forall|i: int| 0 <= i < old(out)@.len() ==> entry_fits(#[trigger] old(out)@[i]),
    ensures
        match lines_spec(toks@, pos as int, end as int, old(names).0 as nat, kw@, transpose, line as nat) {
            Ok((items, n2)) => r is Ok && grid_views(final(out)@) == grid_views(old(out)@) + items
                && final(names).0 == n2 && n2 <= end && final(out)@.len() <= end && forall|i: int|
                0 <= i < final(out)@.len() ==> entry_fits(#[trigger] final(out)@[i]),
            Err(e) => r == Err::<(), ParseError>(e),
        },
    decreases end - pos, 0int,
{
    if pos >= end {
        assert(grid_views(out@) + Seq::empty() =~= grid_views(out@));
        return Ok(());
    }
    if !is_ident(&toks[pos], kw) {
        return Err(ParseError::ExpectedKeyword(pos));
    }
    if !(end - pos > 1 && is_punct(&toks[pos + 1], "!")) {
        return Err(ParseError::ExpectedKeyword(pos + 1));
    }
    if !(end - pos > 2 && opens_exec(&toks[pos + 2], "[")) {
        return Err(ParseError::ExpectedBrackets(pos + 2));
    }
    let c = match find_close(toks, pos + 2, end) {
        Some(c) => c,
        None => return Err(ParseError::Unclosed(pos + 2)),
    };
    proof {
        lemma_close_from_range(toks@, pos + 3, end as int, 1);
    }
    let ghost n0 = names.0;
    let mut ls: Vec<Layout> = Vec::new();
    match parse_list_items(toks, pos + 3, c, names, &mut ls) {
        Ok(()) => {},
        Err(e) => return Err(e),
    }
    let ghost orig = ls@;
    let ghost lv = list_items_spec(toks@, pos + 3, c as int, n0 as nat)->Ok_0.0;
    proof {
        lemma_layout_views(orig);
        assert(Seq::<LayoutView>::empty() + lv =~= lv);
    }
    let ghost out0 = out@;
    let count = ls.len();
    let mut i: usize = 0;
    while ls.len() > 0
        invariant
            i + ls@.len() == count,
            count == orig.len(),
            count < end < u32::MAX,
            line < end,
            ls@ == orig.subrange(i as int, count as int),
            out@.len() == out0.len() + i,
            out0.len() <= pos,
            pos < c < end,
            forall|j: int| 0 <= j < out@.len() ==> entry_fits(#[trigger] out@[j]),
            grid_views(out@) == grid_views(out0) + Seq::new(
                i as nat,
                |j: int| (aligned_cell(line as int, j, transpose), lv[j]),
            ),
            layout_views(orig) == lv,
        decreases ls@.len(),
    {
        let l = ls.remove(0);
        let cell = if transpose {
            CellInfo::new(line, i as u32)
        } else {
            CellInfo::new(i as u32, line)
        };
        let ghost before = out@;
        out.push((cell, l));
        proof {
            lemma_layout_views(orig);
            assert(l == orig[i as int]);
            lemma_grid_views(before);
            lemma_grid_views(out@);
            assert(grid_views(out@) =~= grid_views(before).push((cell, layout_view(l))));
            assert(grid_views(out@) =~= grid_views(out0) + Seq::new(
                (i + 1) as nat,
                |j: int| (aligned_cell(line as int, j, transpose), lv[j]),
            ));
            assert(ls@ =~= orig.subrange(i + 1, count as int));
        }
        i += 1;
    }
    let ghost items = Seq::new(lv.len(), |j: int| (aligned_cell(line as int, j, transpose), lv[j]));
    assert(grid_views(out@) == grid_views(out0) + items);
    if c + 1 >= end {
        return Ok(());
    }
    if !is_punct(&toks[c + 1], ",") {
        return Err(ParseError::ExpectedComma(c + 1));
    }
    let ghost n2 = names.0;
    let r = parse_lines(toks, c + 2, end, names, kw, transpose, line + 1, out);
    proof {
        match lines_spec(toks@, c + 2, end as int, n2 as nat, kw@, transpose, (line + 1) as nat) {
            Ok((rest, _)) => assert(grid_views(out@) =~= grid_views(out0) + (items + rest)),
            Err(_) => {},
        }
    }
    r
}

/// Parse grid entries `cell => layout` from `pos` to `end`, appending them
fn parse_layout_grid(
    toks: &Vec<Tok>,
    pos: usize,
    end: usize,
    names: &mut NameGenerator,
    out: &mut Vec<(CellInfo, Layout)>,
) -> (r: Result<(), ParseError>)
    requires
        pos <= end <= toks@.len(),
        toks@.len() < u32::MAX,
        old(names).0 <= pos,
        old(out)@.len() <= pos,
        forall|i: int| 0 <= i < old(out)@.len() ==> entry_fits(#[trigger] old(out)@[i]),
    ensures
        match layout_grid_spec(toks@, pos as int, end as int, old(names).0 as nat) {
            Ok((items, n2)) => r is Ok && grid_views(final(out)@) == grid_views(old(out)@) + items
                && final(names).0 == n2 && n2 <= end && final(out)@.len() <= end && forall|i: int|
                0 <= i < final(out)@.len() ==> entry_fits(#[trigger] final(out)@[i]),
            Err(e) => r == Err::<(), ParseError>(e),
        },
    decreases end - pos, 0int,
{
    if pos >= end {
        assert(grid_views(out@) + Seq::empty() =~= grid_views(out@));
        return Ok(());
    }
    proof {
        lemma_cell_advances(toks@, pos as int, end as int);
    }
    let (cell, p) = match CellInfo::parse(toks, pos, end) {
        Ok(x) => x,
        Err(e) => return Err(e),
    };
    if cell.last_col == u32::MAX || cell.last_row == u32::MAX {
        return Err(ParseError::Overflow(pos));
    }
    if !(end - p > 1 && joint(&toks[p], "=") && is_punct(&toks[p + 1], ">")) {
        return Err(ParseError::ExpectedArrow(p));
    }
    let q = p + 2;
    proof {
        lemma_close_from_range(toks@, q + 1, end as int, 1);
    }
    let (l, k, braced) = if q < end && opens_exec(&toks[q], "{") {
        let c = match find_close(toks, q, end) {
            Some(c) => c,
            None => return Err(ParseError::Unclosed(q)),
        };
        let (l, k) = match parse_layout(toks, q + 1, c, names) {
            Ok(x) => x,
            Err(e) => return Err(e),
        };
        if k != c {
            return Err(ParseError::Unexpected(k));
        }
        (l, c + 1, true)
    } else {
        match parse_layout(toks, q, end, names) {
            Ok((l, k)) => (l, k, false),
            Err(e) => return Err(e),
        }
    };
    let ghost out0 = out@;
    let ghost lv = layout_view(l);
    out.push((cell, l));
    proof {
        lemma_grid_views(out0);
        lemma_grid_views(out@);
        assert(grid_views(out@) =~= grid_views(out0) + seq![(cell, lv)]);
    }
    if k >= end {
        return Ok(());
    }
    let next = if is_punct(&toks[k], ",") {
        k + 1
    } else if braced {
        k
    } else {
        return Err(ParseError::ExpectedComma(k));
    };
    let ghost n2 = names.0;
    let r = parse_layout_grid(toks, next, end, names, out);
    proof {
        match layout_grid_spec(toks@, next as int, end as int, n2 as nat) {
            Ok((rest, _)) => assert(grid_views(out@) =~= grid_views(out0) + (seq![(cell, lv)] + rest)),
            Err(_) => {},
        }
    }
    r
}

impl Tree {
    /// Parse a layout tree filling the input; its storage fields are named
    /// from `_stor0`
    pub fn parse(toks: &Vec<Tok>) -> (r: Result<Tree, ParseError>)
        requires
            toks@.len() < u32::MAX,
        ensures
            match layout_spec(toks@, 0, toks@.len() as int, 0) {
                Ok((v, k, _)) => if k == toks@.len() {
                    r matches Ok(t) && layout_view(t.0) == v
                } else {
                    r == Err::<Tree, ParseError>(ParseError::Unexpected(k as usize))
                },
                Err(e) => r == Err::<Tree, ParseError>(e),
            },
    {
        let mut names = NameGenerator(0);
        let (l, k) = match parse_layout(toks, 0, toks.len(), &mut names) {
            Ok(x) => x,
            Err(e) => return Err(e),
        };
        if k != toks.len() {
            return Err(ParseError::Unexpected(k));
        }
        Ok(Tree(l))
    }
}

} // verus!
