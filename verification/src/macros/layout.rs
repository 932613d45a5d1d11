//! Layout of a widget's children by a fixed rule (a single child, a row, a
//! column, or a grid): the storage, solver and setter types, and the
//! generated `size_rules`, `set_rect` and `draw` methods.

use crate::macros::collection::{push_u32_lit, push_usize_lit, u32_lit, usize_lit};
use vstd::prelude::*;

verus! {

/// The layout rule
#[derive(Debug, Clone, Copy, PartialEq, Eq, Structural)]
pub enum LayoutType {
    Single,
    Right,
    Left,
    Down,
    Up,
    Grid,
}

/// Layout arguments: the rule, and optionally a method drawing the widget
#[derive(Debug, Clone, PartialEq, Eq)]
pub struct LayoutArgs {
    pub layout: LayoutType,
    pub draw: Option<String>,
}

/// A child widget: its member, grid position `(col, row, col_span,
/// row_span)` if given, and alignment expressions if given
#[derive(Debug, Clone, PartialEq, Eq)]
pub struct LayoutChild {
    pub ident: String,
    pub pos: Option<(u32, u32, u32, u32)>,
    pub halign: Option<String>,
    pub valign: Option<String>,
}

/// Errors of layout derivation
#[derive(Debug, Clone, Copy, PartialEq, Eq, Structural)]
pub enum LayoutError {
    /// Layout `single` needs exactly one child; this many were found
    ExpectedSingle(usize),
    /// The grid child at this index has no position
    MissingPosition(usize),
}

/// Numbers of columns and rows, and of children spanning more than one
/// column or row
pub open spec fn dims_spec(layout: LayoutType, children: Seq<LayoutChild>) -> (int, int, int, int)
    decreases children.len(),
{
    if children.len() == 0 {
        (0, 0, 0, 0)
    } else {
        let (cols, rows, cs, rs) = dims_spec(layout, children.drop_last());
        match layout {
            LayoutType::Single => (cols, rows, cs, rs),
            LayoutType::Right | LayoutType::Left => (cols + 1, 1, cs, rs),
            LayoutType::Down | LayoutType::Up => (1, rows + 1, cs, rs),
            LayoutType::Grid => match children.last().pos {
                Some(p) => (
                    if cols >= p.0 + p.2 { cols } else { p.0 + p.2 },
                    if rows >= p.1 + p.3 { rows } else { p.1 + p.3 },
                    if p.2 > 1 { cs + 1 } else { cs },
                    if p.3 > 1 { rs + 1 } else { rs },
                ),
                None => (cols, rows, cs, rs),
            },
        }
    }
}

/// The index of the first child without a position
pub open spec fn first_unplaced(children: Seq<LayoutChild>) -> Option<int>
    decreases children.len(),
{
    if children.len() == 0 {
        None
    } else {
        match first_unplaced(children.drop_last()) {
            Some(i) => Some(i),
            None => if children.last().pos is None {
                Some(children.len() - 1)
            } else {
                None
            },
        }
    }
}

/// The error of a layout, if any: a single layout without exactly one
/// child, or a grid child without position
pub open spec fn layout_error(children: Seq<LayoutChild>, layout: LayoutType) -> Option<LayoutError> {
    if layout is Single && children.len() != 1 {
        Some(LayoutError::ExpectedSingle(children.len() as usize))
    } else if layout is Grid && first_unplaced(children) is Some {
        Some(LayoutError::MissingPosition(first_unplaced(children)->0 as usize))
    } else {
        None
    }
}

/// Grid positions stay within `u32`
pub open spec fn positions_fit(children: Seq<LayoutChild>) -> bool {
    forall|i: int|
        0 <= i < children.len() ==> match #[trigger] children[i].pos {
            Some(p) => p.0 + p.2 <= u32::MAX && p.1 + p.3 <= u32::MAX,
            None => true,
        }
}

/// The type of a temporary array of `n` values: an array up to 16, else a
/// vector
pub open spec fn temp_ty(n: int) -> Seq<char> {
    if n > 16 {
        "Vec<i32>"@
    } else {
        "[i32; "@ + usize_lit(n) + "]"@
    }
}

/// The direction type of a row or column layout
pub open spec fn dir_path(layout: LayoutType) -> Seq<char> {
    match layout {
        LayoutType::Right => "::kas::dir::Right"@,
        LayoutType::Left => "::kas::dir::Left"@,
        LayoutType::Down => "::kas::dir::Down"@,
        LayoutType::Up => "::kas::dir::Up"@,
        _ => Seq::empty(),
    }
}

/// The element of a grid solver's span storage
pub open spec fn span_elt() -> Seq<char> {
    "(::kas::layout::SizeRules, u32, u32)"@
}

/// The storage, solver and setter types of a layout with dimensions `d`
pub open spec fn types_text(layout: LayoutType, d: (int, int, int, int)) -> (Seq<char>, Seq<char>, Seq<char>) {
    let (cols, rows, cs, rs) = d;
    match layout {
        LayoutType::Single => ("()"@, "::kas::layout::SingleSolver"@, "::kas::layout::SingleSetter"@),
        LayoutType::Right | LayoutType::Left => {
            let dt = "::kas::layout::FixedRowStorage::<"@ + usize_lit(cols) + ">"@;
            (
                dt,
                "::kas::layout::RowSolver::<"@ + dt + ">"@,
                "::kas::layout::RowSetter::<"@ + dir_path(layout) + ", "@ + temp_ty(cols) + ", "@ + dt + ">"@,
            )
        },
        LayoutType::Down | LayoutType::Up => {
            let dt = "::kas::layout::FixedRowStorage::<"@ + usize_lit(rows) + ">"@;
            (
                dt,
                "::kas::layout::RowSolver::<"@ + dt + ">"@,
                "::kas::layout::RowSetter::<"@ + dir_path(layout) + ", "@ + temp_ty(rows) + ", "@ + dt + ">"@,
            )
        },
        LayoutType::Grid => {
            let dt = "::kas::layout::FixedGridStorage::<"@ + usize_lit(cols) + ", "@ + usize_lit(rows) + ">"@;
            (
                dt,
                "::kas::layout::GridSolver::<["@ + span_elt() + "; "@ + usize_lit(cs) + "], ["@ + span_elt() + "; "@
                    + usize_lit(rs) + "], "@ + dt + ">"@,
                "::kas::layout::GridSetter::<"@ + temp_ty(cols) + ", "@ + temp_ty(rows) + ", "@ + dt + ">"@,
            )
        },
    }
}

/// The texts of `v`
pub open spec fn text3(v: (String, String, String)) -> (Seq<char>, Seq<char>, Seq<char>) {
    (v.0@, v.1@, v.2@)
}

/// Count the dimensions of a layout; the first error found, if any
fn layout_dims(children: &Vec<LayoutChild>, layout: LayoutType) -> (r: Result<(u32, u32, u32, u32), LayoutError>)
    requires
        children@.len() < u32::MAX,
        positions_fit(children@),
    ensures
        match (r, layout_error(children@, layout)) {
            (Err(e), Some(f)) => e == f,
            (Ok(d), None) => (d.0 as int, d.1 as int, d.2 as int, d.3 as int) == dims_spec(layout, children@),
            _ => false,
        },
{
    if layout == LayoutType::Single && children.len() != 1 {
        return Err(LayoutError::ExpectedSingle(children.len()));
    }
    let mut d: (u32, u32, u32, u32) = (0, 0, 0, 0);
    let mut i: usize = 0;
    while i < children.len()
        invariant
            i <= children@.len(),
            children@.len() < u32::MAX,
            positions_fit(children@),
            !(layout is Single && children@.len() != 1),
            layout is Grid ==> first_unplaced(children@.take(i as int)) is None,
            (d.0 as int, d.1 as int, d.2 as int, d.3 as int) == dims_spec(layout, children@.take(i as int)),
            d.0 <= i || layout is Grid,
            d.1 <= i || layout is Grid,
            d.2 <= i,
            d.3 <= i,
        decreases children@.len() - i,
    {
        proof {
            assert(children@.take(i + 1).drop_last() =~= children@.take(i as int));
            assert(children@.take(i + 1).last() == children@[i as int]);
        }
        let c = &children[i];
        match layout {
            LayoutType::Single => {},
            LayoutType::Right | LayoutType::Left => {
                d = (d.0 + 1, 1, d.2, d.3);
            },
            LayoutType::Down | LayoutType::Up => {
                d = (1, d.1 + 1, d.2, d.3);
            },
            LayoutType::Grid => {
                let p = match c.pos {
                    Some(p) => p,
                    None => {
                        proof {
                            assert(first_unplaced(children@.take(i + 1)) == Some(i as int));
                            lemma_first_unplaced_prefix(children@, i as int);
                        }
                        return Err(LayoutError::MissingPosition(i));
                    },
                };
                assert(p.0 + p.2 <= u32::MAX && p.1 + p.3 <= u32::MAX) by {
                    assert(children@[i as int].pos == Some(p));
                }
                let (c1, r1) = (p.0 + p.2, p.1 + p.3);
                d = (
                    if d.0 >= c1 { d.0 } else { c1 },
                    if d.1 >= r1 { d.1 } else { r1 },
                    if p.2 > 1 { d.2 + 1 } else { d.2 },
                    if p.3 > 1 { d.3 + 1 } else { d.3 },
                );
            },
        }
        i += 1;
    }
    proof {
        assert(children@.take(children@.len() as int) =~= children@);
    }
    Ok(d)
}

/// The first unplaced child of a prefix is that of the whole
proof fn lemma_first_unplaced_prefix(children: Seq<LayoutChild>, i: int)
    requires
        0 <= i < children.len(),
        first_unplaced(children.take(i + 1)) == Some(i),
    ensures
        first_unplaced(children) == Some(i),
    decreases children.len(),
{
    if children.len() > i + 1 {
        assert(children.drop_last().take(i + 1) =~= children.take(i + 1));
        lemma_first_unplaced_prefix(children.drop_last(), i);
    } else {
        assert(children.take(i + 1) =~= children);
    }
}

/// Append the type of a temporary array
fn push_temp_ty(out: &mut String, n: usize)
    ensures
        final(out)@ == old(out)@ + temp_ty(n as int),
{
    if n > 16 {
        out.append("Vec<i32>");
    } else {
        out.append("[i32; ");
        push_usize_lit(out, n);
        out.append("]");
    }
    proof {
        assert(final(out)@ =~= old(out)@ + temp_ty(n as int));
    }
}

/// The storage, solver and setter types of a layout of `children`
pub fn data_type(children: &Vec<LayoutChild>, layout: &LayoutArgs) -> (r: Result<(String, String, String), LayoutError>)
    requires
        children@.len() < u32::MAX,
        positions_fit(children@),
    ensures
        match layout_error(children@, layout.layout) {
            Some(e) => r == Err::<(String, String, String), LayoutError>(e),
            None => r is Ok && text3(r->Ok_0) == types_text(layout.layout, dims_spec(layout.layout, children@)),
        },
{
    let d = match layout_dims(children, layout.layout) {
        Ok(d) => d,
        Err(e) => return Err(e),
    };
    let (cols, rows, cs, rs) = (d.0 as usize, d.1 as usize, d.2 as usize, d.3 as usize);
    match layout.layout {
        LayoutType::Single => Ok((
            String::from_str("()"),
            String::from_str("::kas::layout::SingleSolver"),
            String::from_str("::kas::layout::SingleSetter"),
        )),
        LayoutType::Right | LayoutType::Left | LayoutType::Down | LayoutType::Up => {
            let n = match layout.layout {
                LayoutType::Right | LayoutType::Left => cols,
                _ => rows,
            };
            let mut dt = String::from_str("::kas::layout::FixedRowStorage::<");
            push_usize_lit(&mut dt, n);
            dt.append(">");
            let mut solver = String::from_str("::kas::layout::RowSolver::<");
            solver.append(dt.as_str());
            solver.append(">");
            let mut setter = String::from_str("::kas::layout::RowSetter::<");
            setter.append(
                match layout.layout {
                    LayoutType::Right => "::kas::dir::Right",
                    LayoutType::Left => "::kas::dir::Left",
                    LayoutType::Down => "::kas::dir::Down",
                    _ => "::kas::dir::Up",
                },
            );
            setter.append(", ");
            push_temp_ty(&mut setter, n);
            setter.append(", ");
            setter.append(dt.as_str());
            setter.append(">");
            Ok((dt, solver, setter))
        },
        LayoutType::Grid => {
            let mut dt = String::from_str("::kas::layout::FixedGridStorage::<");
            push_usize_lit(&mut dt, cols);
            dt.append(", ");
            push_usize_lit(&mut dt, rows);
            dt.append(">");
            let mut solver = String::from_str("::kas::layout::GridSolver::<[");
            solver.append("(::kas::layout::SizeRules, u32, u32)");
            solver.append("; ");
            push_usize_lit(&mut solver, cs);
            solver.append("], [");
            solver.append("(::kas::layout::SizeRules, u32, u32)");
            solver.append("; ");
            push_usize_lit(&mut solver, rs);
            solver.append("], ");
            solver.append(dt.as_str());
            solver.append(">");
            let mut setter = String::from_str("::kas::layout::GridSetter::<");
            push_temp_ty(&mut setter, cols);
            setter.append(", ");
            push_temp_ty(&mut setter, rows);
            setter.append(", ");
            setter.append(dt.as_str());
            setter.append(">");
            Ok((dt, solver, setter))
        },
    }
}

/// The child information of the `i`-th child: none for a single child,
/// its index in a row or column, its cell range in a grid
pub open spec fn child_info(layout: LayoutType, c: LayoutChild, i: int) -> Seq<char> {
    match layout {
        LayoutType::Single => "()"@,
        LayoutType::Grid => match c.pos {
            Some(p) => "::kas::layout::GridChildInfo { col: "@ + u32_lit(p.0 as int) + ", col_end: "@ + u32_lit(
                p.0 + p.2,
            ) + ", row: "@ + u32_lit(p.1 as int) + ", row_end: "@ + u32_lit(p.1 + p.3) + " }"@,
            None => Seq::empty(),
        },
        _ => usize_lit(i),
    }
}

/// Sizing of the `i`-th child
pub open spec fn size_piece(layout: LayoutType, c: LayoutChild, i: int) -> Seq<char> {
    "let child = &mut self."@ + c.ident@ + "; solver.for_child(data, "@ + child_info(layout, c, i)
        + ", |axis| child.size_rules(sh, axis)); "@
}

/// An alignment override, if given
pub open spec fn align_piece(field: Seq<char>, a: Option<String>) -> Seq<char> {
    match a {
        Some(t) => "align2."@ + field + " = Some("@ + t@ + "); "@,
        None => Seq::empty(),
    }
}

/// Placement of the `i`-th child
pub open spec fn set_rect_piece(layout: LayoutType, c: LayoutChild, i: int) -> Seq<char> {
    "let mut align2 = align; "@ + align_piece("horiz"@, c.halign) + align_piece("vert"@, c.valign) + "self."@
        + c.ident@ + ".set_rect(_mgr, setter.child_rect(data, "@ + child_info(layout, c, i) + "), align2); "@
}

/// Drawing of a child, when it meets the clip rectangle
pub open spec fn draw_piece(c: LayoutChild) -> Seq<char> {
    "let c1 = self."@ + c.ident@ + ".rect().pos; let c2 = self."@ + c.ident@
        + ".rect().pos2(); if c1.0 <= pos2.0 && c2.0 >= pos1.0 && c1.1 <= pos2.1 && c2.1 >= pos1.1 { self."@
        + c.ident@ + ".draw(draw, mgr, disabled); } "@
}

/// Which piece of generated code
#[derive(Debug, Clone, Copy, PartialEq, Eq, Structural)]
pub enum Piece {
    Size,
    SetRect,
    Draw,
}

/// The piece `which` of the `i`-th child
pub open spec fn piece(which: Piece, layout: LayoutType, c: LayoutChild, i: int) -> Seq<char> {
    match which {
        Piece::Size => size_piece(layout, c, i),
        Piece::SetRect => set_rect_piece(layout, c, i),
        Piece::Draw => draw_piece(c),
    }
}

/// The pieces `which` of all children, in order
pub open spec fn pieces(which: Piece, layout: LayoutType, children: Seq<LayoutChild>) -> Seq<char>
    decreases children.len(),
{
    if children.len() == 0 {
        Seq::empty()
    } else {
        pieces(which, layout, children.drop_last()) + piece(which, layout, children.last(), children.len() - 1)
    }
}

/// The start of the generated `draw` body
pub open spec fn draw_prelude() -> Seq<char> {
    "use ::kas::{geom::Coord, WidgetCore}; let rect = draw.get_clip_rect(); let pos1 = rect.pos; let pos2 = rect.pos2(); let disabled = disabled || self.is_disabled(); "@
}

/// The dimensions argument of solver and setter
pub open spec fn dim_text(layout: LayoutType, d: (int, int, int, int)) -> Seq<char> {
    let (cols, rows, cs, rs) = d;
    match layout {
        LayoutType::Single => "()"@,
        LayoutType::Right | LayoutType::Left => "("@ + dir_path(layout) + ", "@ + usize_lit(cols) + ")"@,
        LayoutType::Down | LayoutType::Up => "("@ + dir_path(layout) + ", "@ + usize_lit(rows) + ")"@,
        LayoutType::Grid => "::kas::layout::GridDimensions { cols: "@ + u32_lit(cols) + ", rows: "@ + u32_lit(rows)
            + ", col_spans: "@ + u32_lit(cs) + ", row_spans: "@ + u32_lit(rs) + " }"@,
    }
}

/// The generated `size_rules`, `set_rect` and `draw` methods
pub open spec fn derive_text(core: Seq<char>, children: Seq<LayoutChild>, args: LayoutArgs) -> Seq<char> {
    let layout = args.layout;
    let d = dims_spec(layout, children);
    let (st, solver, setter) = types_text(layout, d);
    let dim = dim_text(layout, d);
    let draw = match args.draw {
        Some(m) => "self."@ + m@ + "(draw, mgr, disabled); "@,
        None => draw_prelude() + pieces(Piece::Draw, layout, children),
    };
    "fn size_rules(&mut self, sh: &mut dyn ::kas::draw::SizeHandle, axis: ::kas::layout::AxisInfo) -> ::kas::layout::SizeRules { use ::kas::WidgetCore; use ::kas::layout::RulesSolver; let (data, _) = self."@ + core + ".layout.storage::<"@ + st + ">(); let mut solver = "@ + solver + "::new(axis, "@ + dim + ", data); "@ + pieces(Piece::Size, layout, children)
        + "solver.finish(data) } fn set_rect(&mut self, _mgr: &mut ::kas::event::Manager, rect: ::kas::geom::Rect, align: ::kas::layout::AlignHints) { use ::kas::{WidgetCore, Widget}; use ::kas::layout::{RulesSetter}; self.core.rect = rect; let (data, _) = self."@ + core + ".layout.storage::<"@ + st + ">(); let mut setter = "@ + setter + "::new(rect, "@ + dim + ", align, data); "@ + pieces(
        Piece::SetRect,
        layout,
        children,
    ) + "} fn draw(&mut self, draw: &mut dyn ::kas::draw::DrawHandle, mgr: &::kas::event::ManagerState, disabled: bool) { "@ + draw + "}"@
}

/// Append the child information of the `i`-th child
fn push_child_info(out: &mut String, layout: LayoutType, c: &LayoutChild, i: usize)
    requires
        match c.pos {
            Some(p) => p.0 + p.2 <= u32::MAX && p.1 + p.3 <= u32::MAX,
            None => true,
        },
    ensures
        final(out)@ == old(out)@ + child_info(layout, *c, i as int),
{
    match layout {
        LayoutType::Single => out.append("()"),
        LayoutType::Grid => match c.pos {
            Some(p) => {
                out.append("::kas::layout::GridChildInfo { col: ");
                push_u32_lit(out, p.0);
                out.append(", col_end: ");
                push_u32_lit(out, p.0 + p.2);
                out.append(", row: ");
                push_u32_lit(out, p.1);
                out.append(", row_end: ");
                push_u32_lit(out, p.1 + p.3);
                out.append(" }");
            },
            None => {},
        },
        _ => push_usize_lit(out, i),
    }
    proof {
        assert(final(out)@ =~= old(out)@ + child_info(layout, *c, i as int));
    }
}

/// Append an alignment override, if given
fn push_align(out: &mut String, field: &str, a: &Option<String>)
    ensures
        final(out)@ == old(out)@ + align_piece(field@, *a),
{
    match a {
        Some(t) => {
            out.append("align2.");
            out.append(field);
            out.append(" = Some(");
            out.append(t.as_str());
            out.append("); ");
        },
        None => {},
    }
    proof {
        assert(final(out)@ =~= old(out)@ + align_piece(field@, *a));
    }
}

fn push_size_piece(out: &mut String, layout: LayoutType, c: &LayoutChild, i: usize)
    requires
        match c.pos {
            Some(p) => p.0 + p.2 <= u32::MAX && p.1 + p.3 <= u32::MAX,
            None => true,
        },
    ensures
        final(out)@ == old(out)@ + size_piece(layout, *c, i as int),
{
    out.append("let child = &mut self.");
    out.append(c.ident.as_str());
    out.append("; solver.for_child(data, ");
    push_child_info(out, layout, c, i);
    out.append(", |axis| child.size_rules(sh, axis)); ");
    proof {
        assert(final(out)@ =~= old(out)@ + size_piece(layout, *c, i as int));
    }
}

fn push_set_rect_piece(out: &mut String, layout: LayoutType, c: &LayoutChild, i: usize)
    requires
        match c.pos {
            Some(p) => p.0 + p.2 <= u32::MAX && p.1 + p.3 <= u32::MAX,
            None => true,
        },
    ensures
        final(out)@ == old(out)@ + set_rect_piece(layout, *c, i as int),
{
    out.append("let mut align2 = align; ");
    push_align(out, "horiz", &c.halign);
    push_align(out, "vert", &c.valign);
    out.append("self.");
    out.append(c.ident.as_str());
    out.append(".set_rect(_mgr, setter.child_rect(data, ");
    push_child_info(out, layout, c, i);
    out.append("), align2); ");
    proof {
        assert(final(out)@ =~= old(out)@ + set_rect_piece(layout, *c, i as int));
    }
}

fn push_draw_piece(out: &mut String, c: &LayoutChild)
    ensures
        final(out)@ == old(out)@ + draw_piece(*c),
{
    let id = c.ident.as_str();
    out.append("let c1 = self.");
    out.append(id);
    out.append(".rect().pos; let c2 = self.");
    out.append(id);
    out.append(".rect().pos2(); if c1.0 <= pos2.0 && c2.0 >= pos1.0 && c1.1 <= pos2.1 && c2.1 >= pos1.1 { self.");
    out.append(id);
    out.append(".draw(draw, mgr, disabled); } ");
    proof {
        assert(final(out)@ =~= old(out)@ + draw_piece(*c));
    }
}

/// Append the piece `which` of the `i`-th child
fn push_piece(out: &mut String, which: Piece, layout: LayoutType, c: &LayoutChild, i: usize)
    requires
        match c.pos {
            Some(p) => p.0 + p.2 <= u32::MAX && p.1 + p.3 <= u32::MAX,
            None => true,
        },
    ensures
        final(out)@ == old(out)@ + piece(which, layout, *c, i as int),
{
    match which {
        Piece::Size => push_size_piece(out, layout, c, i),
        Piece::SetRect => push_set_rect_piece(out, layout, c, i),
        Piece::Draw => push_draw_piece(out, c),
    }
}

/// Append the pieces `which` of all children
fn push_pieces(out: &mut String, which: Piece, layout: LayoutType, children: &Vec<LayoutChild>)
    requires
        positions_fit(children@),
    ensures
        final(out)@ == old(out)@ + pieces(which, layout, children@),
{
    let ghost start = out@;
    let mut i: usize = 0;
    while i < children.len()
        invariant
            i <= children@.len(),
            positions_fit(children@),
            out@ == start + pieces(which, layout, children@.take(i as int)),
        decreases children@.len() - i,
    {
        proof {
            assert(children@.take(i + 1).drop_last() =~= children@.take(i as int));
            assert(children@.take(i + 1).last() == children@[i as int]);
        }
        push_piece(out, which, layout, &children[i], i);
        proof {
            assert(out@ =~= start + pieces(which, layout, children@.take(i + 1)));
        }
        i += 1;
    }
    proof {
        assert(children@.take(children@.len() as int) =~= children@);
    }
}

/// Append the dimensions argument
fn push_dim(out: &mut String, layout: LayoutType, d: (u32, u32, u32, u32))
    ensures
        final(out)@ == old(out)@ + dim_text(layout, (d.0 as int, d.1 as int, d.2 as int, d.3 as int)),
{
    match layout {
        LayoutType::Single => out.append("()"),
        LayoutType::Grid => {
            out.append("::kas::layout::GridDimensions { cols: ");
            push_u32_lit(out, d.0);
            out.append(", rows: ");
            push_u32_lit(out, d.1);
            out.append(", col_spans: ");
            push_u32_lit(out, d.2);
            out.append(", row_spans: ");
            push_u32_lit(out, d.3);
            out.append(" }");
        },
        _ => {
            out.append("(");
            out.append(
                match layout {
                    LayoutType::Right => "::kas::dir::Right",
                    LayoutType::Left => "::kas::dir::Left",
                    LayoutType::Down => "::kas::dir::Down",
                    _ => "::kas::dir::Up",
                },
            );
            out.append(", ");
            push_usize_lit(
                out,
                match layout {
                    LayoutType::Right | LayoutType::Left => d.0 as usize,
                    _ => d.1 as usize,
                },
            );
            out.append(")");
        },
    }
    proof {
        assert(final(out)@ =~= old(out)@ + dim_text(layout, (d.0 as int, d.1 as int, d.2 as int, d.3 as int)));
    }
}

/// The generated `size_rules`, `set_rect` and `draw` methods of a widget
/// whose layout data is at member `core`: each child is sized, placed (with
/// its alignment overrides) and drawn when it meets the clip rectangle,
/// unless a drawing method is given
pub fn derive(core: &String, children: &Vec<LayoutChild>, layout: &LayoutArgs) -> (r: Result<String, LayoutError>)
    requires
        children@.len() < u32::MAX,
        positions_fit(children@),
    ensures
        match layout_error(children@, layout.layout) {
            Some(e) => r == Err::<String, LayoutError>(e),
            None => r is Ok && r->Ok_0@ == derive_text(core@, children@, *layout),
        },
{
    let (st, solver, setter) = match data_type(children, layout) {
        Ok(t) => t,
        Err(e) => return Err(e),
    };
    let d = match layout_dims(children, layout.layout) {
        Ok(d) => d,
        Err(e) => return Err(e),
    };
    let l = layout.layout;
    let mut out = String::from_str("fn size_rules(&mut self, sh: &mut dyn ::kas::draw::SizeHandle, axis: ::kas::layout::AxisInfo) -> ::kas::layout::SizeRules { use ::kas::WidgetCore; use ::kas::layout::RulesSolver; let (data, _) = self.");
    out.append(core.as_str());
    out.append(".layout.storage::<");
    out.append(st.as_str());
    out.append(">(); let mut solver = ");
    out.append(solver.as_str());
    out.append("::new(axis, ");
    push_dim(&mut out, l, d);
    out.append(", data); ");
    push_pieces(&mut out, Piece::Size, l, children);
    out.append("solver.finish(data) } fn set_rect(&mut self, _mgr: &mut ::kas::event::Manager, rect: ::kas::geom::Rect, align: ::kas::layout::AlignHints) { use ::kas::{WidgetCore, Widget}; use ::kas::layout::{RulesSetter}; self.core.rect = rect; let (data, _) = self.");
    out.append(core.as_str());
    out.append(".layout.storage::<");
    out.append(st.as_str());
    out.append(">(); let mut setter = ");
    out.append(setter.as_str());
    out.append("::new(rect, ");
    push_dim(&mut out, l, d);
    out.append(", align, data); ");
    push_pieces(&mut out, Piece::SetRect, l, children);
    out.append("} fn draw(&mut self, draw: &mut dyn ::kas::draw::DrawHandle, mgr: &::kas::event::ManagerState, disabled: bool) { ");
    match &layout.draw {
        Some(m) => {
            out.append("self.");
            out.append(m.as_str());
            out.append("(draw, mgr, disabled); ");
        },
        None => {
            out.append("use ::kas::{geom::Coord, WidgetCore}; let rect = draw.get_clip_rect(); let pos1 = rect.pos; let pos2 = rect.pos2(); let disabled = disabled || self.is_disabled(); ");
            push_pieces(&mut out, Piece::Draw, l, children);
        },
    }
    out.append("}");
    proof {
        assert(out@ =~= derive_text(core@, children@, *layout));
    }
    Ok(out)
}

} // verus!
