//! Layout trees of the `layout` widget property: frames, lists, grids,
//! labels and embedded widgets, and what is generated from them (storage
//! fields, sizing, placement, drawing, probing and navigation order).

use crate::macros::autoimpl::{member_eq, member_text, member_to_text, Member};
use crate::macros::collection::{cell_text, dims_text, push_usize_lit, usize_lit, CellInfo, GridDimensions};
use crate::macros::tokens::{render, render_toks, Tok};
use crate::macros::widget::{bound_to_unit, Child, ChildIdent};
use vstd::prelude::*;

verus! {

/// Direction of a list
#[derive(Debug, Clone, PartialEq, Eq)]
pub enum LayoutDir {
    Left,
    Right,
    Up,
    Down,
    /// Given by an expression (not known to the macro)
    Expr(Vec<Tok>),
}

/// A layout tree
#[derive(Debug)]
pub enum Layout {
    /// A layout with alignment hints
    Align(Box<Layout>, Vec<Tok>),
    /// A layout packed by alignment hints, with its storage field
    Pack(Box<Layout>, Vec<Tok>, String),
    /// A field of the widget (`self.member`)
    Single(Member),
    /// A widget built from an expression, stored in a field of the core
    Widget(String, Vec<Tok>),
    /// A frame around a layout: storage field, inner layout, style and
    /// background
    Frame(String, Box<Layout>, Vec<Tok>, Vec<Tok>),
    /// A list of layouts in a direction, with its storage field
    List(String, LayoutDir, Vec<Layout>),
    /// Layouts drawn over one another
    Float(Vec<Layout>),
    /// A grid of layouts, with its storage field and dimensions
    Grid(String, GridDimensions, Vec<(CellInfo, Layout)>),
    /// A text label (its literal, quotes included), stored in a field of
    /// the core
    Label(String, String),
}

/// Navigation order cannot be determined
#[derive(Debug, Clone, Copy, PartialEq, Eq, Structural)]
pub enum NavError {
    /// A list whose direction is an expression holds several navigable
    /// children
    NonStaticDirection,
}

/// The index of the first child which is the widget's field `m`
pub open spec fn field_child(children: Seq<Child>, m: Member) -> Option<int>
    decreases children.len(),
{
    if children.len() == 0 {
        None
    } else {
        match field_child(children.drop_last(), m) {
            Some(i) => Some(i),
            None => if children.last().ident matches ChildIdent::Field(f) && member_eq(f, m) {
                Some(children.len() - 1)
            } else {
                None
            },
        }
    }
}

/// The child is the core field named `name`
pub open spec fn is_core_child(c: Child, name: Seq<char>) -> bool {
    c.ident matches ChildIdent::CoreField(Member::Named(n)) && n@ == name
}

/// The index of the first child which is the core field `name`
pub open spec fn core_child(children: Seq<Child>, name: Seq<char>) -> Option<int>
    decreases children.len(),
{
    if children.len() == 0 {
        None
    } else {
        match core_child(children.drop_last(), name) {
            Some(i) => Some(i),
            None => if is_core_child(children.last(), name) {
                Some(children.len() - 1)
            } else {
                None
            },
        }
    }
}

/// The navigation order of the children placed by a list's items: a
/// non-static direction with several children is an error, a reversed
/// direction reverses the order
pub open spec fn ordered(dir: LayoutDir, s: Seq<usize>) -> Option<Seq<usize>> {
    if s.len() <= 1 {
        Some(s)
    } else {
        match dir {
            LayoutDir::Right | LayoutDir::Down => Some(s),
            LayoutDir::Left | LayoutDir::Up => Some(s.reverse()),
            LayoutDir::Expr(_) => None,
        }
    }
}

/// Navigation order of the children (indices into `children`) placed by a
/// layout, or none on error
pub open spec fn nav_spec(l: Layout, children: Seq<Child>) -> Option<Seq<usize>>
    decreases l,
{
    match l {
        Layout::Align(b, _) => nav_spec(*b, children),
        Layout::Pack(b, _, _) => nav_spec(*b, children),
        Layout::Frame(_, b, _, _) => nav_spec(*b, children),
        Layout::Single(m) => match field_child(children, m) {
            Some(i) => Some(seq![i as usize]),
            None => Some(Seq::empty()),
        },
        Layout::Widget(name, _) => match core_child(children, name@) {
            Some(i) => Some(seq![i as usize]),
            None => Some(Seq::empty()),
        },
        Layout::List(_, dir, list) => match nav_seq(list@, children) {
            Some(s) => ordered(dir, s),
            None => None,
        },
        Layout::Float(list) => nav_seq(list@, children),
        Layout::Grid(_, _, items) => nav_grid(items@, children),
        Layout::Label(_, _) => Some(Seq::empty()),
    }
}

/// Navigation order of the children placed by a sequence of layouts
pub open spec fn nav_seq(list: Seq<Layout>, children: Seq<Child>) -> Option<Seq<usize>>
    decreases list,
{
    if list.len() == 0 {
        Some(Seq::empty())
    } else {
        match (nav_seq(list.subrange(0, list.len() - 1), children), nav_spec(list[list.len() - 1], children)) {
            (Some(a), Some(b)) => Some(a + b),
            _ => None,
        }
    }
}

/// Navigation order of the children placed by the cells of a grid
pub open spec fn nav_grid(items: Seq<(CellInfo, Layout)>, children: Seq<Child>) -> Option<Seq<usize>>
    decreases items,
{
    if items.len() == 0 {
        Some(Seq::empty())
    } else {
        match (
            nav_grid(items.subrange(0, items.len() - 1), children),
            nav_spec(items[items.len() - 1].1, children),
        ) {
            (Some(a), Some(b)) => Some(a + b),
            _ => None,
        }
    }
}

/// Every embedded widget of a layout is among `children`
pub open spec fn widgets_placed(l: Layout, children: Seq<Child>) -> bool
    decreases l,
{
    match l {
        Layout::Align(b, _) => widgets_placed(*b, children),
        Layout::Pack(b, _, _) => widgets_placed(*b, children),
        Layout::Frame(_, b, _, _) => widgets_placed(*b, children),
        Layout::Widget(name, _) => core_child(children, name@) is Some,
        Layout::List(_, _, list) => widgets_placed_seq(list@, children),
        Layout::Float(list) => widgets_placed_seq(list@, children),
        Layout::Grid(_, _, items) => widgets_placed_grid(items@, children),
        _ => true,
    }
}

/// Every embedded widget of a sequence of layouts is among `children`
pub open spec fn widgets_placed_seq(list: Seq<Layout>, children: Seq<Child>) -> bool
    decreases list,
{
    if list.len() == 0 {
        true
    } else {
        widgets_placed_seq(list.subrange(0, list.len() - 1), children) && widgets_placed(list[list.len() - 1], children)
    }
}

/// Every embedded widget of the cells of a grid is among `children`
pub open spec fn widgets_placed_grid(items: Seq<(CellInfo, Layout)>, children: Seq<Child>) -> bool
    decreases items,
{
    if items.len() == 0 {
        true
    } else {
        widgets_placed_grid(items.subrange(0, items.len() - 1), children) && widgets_placed(
            items[items.len() - 1].1,
            children,
        )
    }
}

/// Whether two members name the same field
fn same_member(a: &Member, b: &Member) -> (r: bool)
    ensures
        r == member_eq(*a, *b),
{
    match (a, b) {
        (Member::Named(x), Member::Named(y)) => *x == *y,
        (Member::Unnamed(i), Member::Unnamed(j)) => *i == *j,
        _ => false,
    }
}

/// The first child which is the widget's field `m`
fn find_field_child(children: &Vec<Child>, m: &Member) -> (r: Option<usize>)
    ensures
        match field_child(children@, *m) {
            Some(i) => r == Some(i as usize),
            None => r is None,
        },
{
    let mut i: usize = 0;
    while i < children.len()
        invariant
            i <= children@.len(),
            field_child(children@.take(i as int), *m) is None,
        decreases children@.len() - i,
    {
        proof {
            assert(children@.take(i + 1).drop_last() =~= children@.take(i as int));
        }
        let hit = match &children[i].ident {
            ChildIdent::Field(f) => same_member(f, m),
            _ => false,
        };
        if hit {
            proof {
                assert(field_child(children@.take(i + 1), *m) == Some(i as int));
                lemma_field_child_prefix(children@, *m, i as int);
            }
            return Some(i);
        }
        i += 1;
    }
    proof {
        assert(children@.take(children@.len() as int) =~= children@);
    }
    None
}

proof fn lemma_field_child_prefix(children: Seq<Child>, m: Member, i: int)
    requires
        0 <= i < children.len(),
        field_child(children.take(i + 1), m) == Some(i),
    ensures
        field_child(children, m) == Some(i),
    decreases children.len(),
{
    if children.len() > i + 1 {
        assert(children.drop_last().take(i + 1) =~= children.take(i + 1));
        lemma_field_child_prefix(children.drop_last(), m, i);
    } else {
        assert(children.take(i + 1) =~= children);
    }
}

proof fn lemma_core_child_prefix(children: Seq<Child>, name: Seq<char>, i: int)
    requires
        0 <= i < children.len(),
        core_child(children.take(i + 1), name) == Some(i),
    ensures
        core_child(children, name) == Some(i),
    decreases children.len(),
{
    if children.len() > i + 1 {
        assert(children.drop_last().take(i + 1) =~= children.take(i + 1));
        lemma_core_child_prefix(children.drop_last(), name, i);
    } else {
        assert(children.take(i + 1) =~= children);
    }
}

/// The first child which is the core field `name`
fn find_core_child(children: &Vec<Child>, name: &String) -> (r: Option<usize>)
    ensures
        match core_child(children@, name@) {
            Some(i) => r == Some(i as usize),
            None => r is None,
        },
{
    let mut i: usize = 0;
    while i < children.len()
        invariant
            i <= children@.len(),
            core_child(children@.take(i as int), name@) is None,
        decreases children@.len() - i,
    {
        proof {
            assert(children@.take(i + 1).drop_last() =~= children@.take(i as int));
        }
        let hit = match &children[i].ident {
            ChildIdent::CoreField(Member::Named(n)) => *n == *name,
            _ => false,
        };
        if hit {
            proof {
                assert(core_child(children@.take(i + 1), name@) == Some(i as int));
                lemma_core_child_prefix(children@, name@, i as int);
            }
            return Some(i);
        }
        i += 1;
    }
    proof {
        assert(children@.take(children@.len() as int) =~= children@);
    }
    None
}

/// The result of a navigation-order computation: the order, or an error
pub open spec fn nav_result(r: Result<Vec<usize>, NavError>, s: Option<Seq<usize>>) -> bool {
    match s {
        Some(v) => r is Ok && r->Ok_0@ == v,
        None => r is Err,
    }
}

/// The reverse of a vector
fn reversed(v: Vec<usize>) -> (r: Vec<usize>)
    ensures
        r@ == v@.reverse(),
{
    let mut r: Vec<usize> = Vec::new();
    let mut i: usize = v.len();
    while i > 0
        invariant
            i <= v@.len(),
            r@ == v@.subrange(i as int, v@.len() as int).reverse(),
        decreases i,
    {
        i -= 1;
        r.push(v[i]);
        assert(r@ =~= v@.subrange(i as int, v@.len() as int).reverse());
    }
    assert(v@.subrange(0, v@.len() as int) =~= v@);
    r
}

impl Layout {
    /// The children placed by this layout, in navigation order (indices
    /// into `children`); a list with a non-static direction holding
    /// several of them is an error
    pub fn nav_next(&self, children: &Vec<Child>) -> (r: Result<Vec<usize>, NavError>)
        requires
            widgets_placed(*self, children@),
        ensures
            nav_result(r, nav_spec(*self, children@)),
        decreases self,
    {
        match self {
            Layout::Align(b, _) => b.nav_next(children),
            Layout::Pack(b, _, _) => b.nav_next(children),
            Layout::Frame(_, b, _, _) => b.nav_next(children),
            Layout::Single(m) => {
                let mut v: Vec<usize> = Vec::new();
                match find_field_child(children, m) {
                    Some(i) => v.push(i),
                    None => {},
                }
                proof {
                    assert(nav_result(Ok::<Vec<usize>, NavError>(v), nav_spec(*self, children@)));
                }
                Ok(v)
            },
            Layout::Widget(name, _) => {
                let mut v: Vec<usize> = Vec::new();
                match find_core_child(children, name) {
                    Some(i) => v.push(i),
                    None => {},
                }
                proof {
                    assert(nav_result(Ok::<Vec<usize>, NavError>(v), nav_spec(*self, children@)));
                }
                Ok(v)
            },
            Layout::List(_, dir, list) => {
                let s = match nav_list(list, children) {
                    Ok(s) => s,
                    Err(e) => return Err(e),
                };
                if s.len() <= 1 {
                    return Ok(s);
                }
                match dir {
                    LayoutDir::Right | LayoutDir::Down => Ok(s),
                    LayoutDir::Left | LayoutDir::Up => Ok(reversed(s)),
                    LayoutDir::Expr(_) => Err(NavError::NonStaticDirection),
                }
            },
            Layout::Float(list) => nav_list(list, children),
            Layout::Grid(_, _, items) => nav_cells(items, children),
            Layout::Label(_, _) => Ok(Vec::new()),
        }
    }
}

/// A prefix's widgets are placed when the whole's are
proof fn lemma_placed_seq_item(list: Seq<Layout>, children: Seq<Child>, i: int)
    requires
        0 <= i < list.len(),
        widgets_placed_seq(list, children),
    ensures
        widgets_placed(list[i], children),
    decreases list.len(),
{
    if i < list.len() - 1 {
        let p = list.subrange(0, list.len() - 1);
        lemma_placed_seq_item(p, children, i);
    }
}

proof fn lemma_placed_grid_item(items: Seq<(CellInfo, Layout)>, children: Seq<Child>, i: int)
    requires
        0 <= i < items.len(),
        widgets_placed_grid(items, children),
    ensures
        widgets_placed(items[i].1, children),
    decreases items.len(),
{
    if i < items.len() - 1 {
        let p = items.subrange(0, items.len() - 1);
        lemma_placed_grid_item(p, children, i);
    }
}

/// An error of an item makes the whole sequence's order an error
proof fn lemma_nav_seq_err(list: Seq<Layout>, children: Seq<Child>, i: int)
    requires
        0 <= i < list.len(),
        nav_spec(list[i], children) is None,
    ensures
        nav_seq(list, children) is None,
    decreases list.len(),
{
    if i < list.len() - 1 {
        lemma_nav_seq_err(list.subrange(0, list.len() - 1), children, i);
    }
}

proof fn lemma_nav_grid_err(items: Seq<(CellInfo, Layout)>, children: Seq<Child>, i: int)
    requires
        0 <= i < items.len(),
        nav_spec(items[i].1, children) is None,
    ensures
        nav_grid(items, children) is None,
    decreases items.len(),
{
    if i < items.len() - 1 {
        lemma_nav_grid_err(items.subrange(0, items.len() - 1), children, i);
    }
}

/// The children placed by a sequence of layouts, in navigation order
fn nav_list(list: &Vec<Layout>, children: &Vec<Child>) -> (r: Result<Vec<usize>, NavError>)
    requires
        widgets_placed_seq(list@, children@),
    ensures
        nav_result(r, nav_seq(list@, children@)),
    decreases list@,
{
    let mut out: Vec<usize> = Vec::new();
    let mut i: usize = 0;
    while i < list.len()
        invariant
            i <= list@.len(),
            widgets_placed_seq(list@, children@),
            nav_seq(list@.subrange(0, i as int), children@) == Some(out@),
        decreases list@.len() - i,
    {
        proof {
            assert(list@.subrange(0, i + 1).subrange(0, i as int) =~= list@.subrange(0, i as int));
            lemma_placed_seq_item(list@, children@, i as int);
        }
        let part = match list[i].nav_next(children) {
            Ok(p) => p,
            Err(e) => {
                proof {
                    lemma_nav_seq_err(list@, children@, i as int);
                }
                return Err(e);
            },
        };
        let mut part = part;
        out.append(&mut part);
        i += 1;
    }
    proof {
        assert(list@.subrange(0, list@.len() as int) =~= list@);
    }
    Ok(out)
}

/// The children placed by the cells of a grid, in navigation order
fn nav_cells(items: &Vec<(CellInfo, Layout)>, children: &Vec<Child>) -> (r: Result<Vec<usize>, NavError>)
    requires
        widgets_placed_grid(items@, children@),
    ensures
        nav_result(r, nav_grid(items@, children@)),
    decreases items@,
{
    let mut out: Vec<usize> = Vec::new();
    let mut i: usize = 0;
    while i < items.len()
        invariant
            i <= items@.len(),
            widgets_placed_grid(items@, children@),
            nav_grid(items@.subrange(0, i as int), children@) == Some(out@),
        decreases items@.len() - i,
    {
        proof {
            assert(items@.subrange(0, i + 1).subrange(0, i as int) =~= items@.subrange(0, i as int));
            lemma_placed_grid_item(items@, children@, i as int);
        }
        let part = match items[i].1.nav_next(children) {
            Ok(p) => p,
            Err(e) => {
                proof {
                    lemma_nav_grid_err(items@, children@, i as int);
                }
                return Err(e);
            },
        };
        let mut part = part;
        out.append(&mut part);
        i += 1;
    }
    proof {
        assert(items@.subrange(0, items@.len() as int) =~= items@);
    }
    Ok(out)
}

/// Source text of a list direction
pub open spec fn dir_text(d: LayoutDir) -> Seq<char> {
    match d {
        LayoutDir::Left => "::kas::dir::Left"@,
        LayoutDir::Right => "::kas::dir::Right"@,
        LayoutDir::Up => "::kas::dir::Up"@,
        LayoutDir::Down => "::kas::dir::Down"@,
        LayoutDir::Expr(t) => render(t@),
    }
}

fn push_dir(out: &mut String, d: &LayoutDir)
    ensures
        final(out)@ == old(out)@ + dir_text(*d),
{
    match d {
        LayoutDir::Left => out.append("::kas::dir::Left"),
        LayoutDir::Right => out.append("::kas::dir::Right"),
        LayoutDir::Up => out.append("::kas::dir::Up"),
        LayoutDir::Down => out.append("::kas::dir::Down"),
        LayoutDir::Expr(t) => out.append(render_toks(t).as_str()),
    }
}

/// The storage field `stor` of the core
pub open spec fn field_path(cp: Seq<char>, stor: Seq<char>) -> Seq<char> {
    cp + "."@ + stor
}

/// A field of the widget itself
pub open spec fn self_path(m: Member) -> Seq<char> {
    "self."@ + member_text(m)
}

fn push_field_path(out: &mut String, cp: &str, stor: &str)
    ensures
        final(out)@ == old(out)@ + field_path(cp@, stor@),
{
    out.append(cp);
    out.append(".");
    out.append(stor);
    proof {
        assert(final(out)@ =~= old(out)@ + field_path(cp@, stor@));
    }
}

fn push_self_path(out: &mut String, m: &Member)
    ensures
        final(out)@ == old(out)@ + self_path(*m),
{
    out.append("self.");
    out.append(member_to_text(m).as_str());
    proof {
        assert(final(out)@ =~= old(out)@ + self_path(*m));
    }
}


/// The generated drawing code of a layout (core at `cp`): frames are drawn
/// before their contents, children in order
pub open spec fn draw_text(l: Layout, cp: Seq<char>) -> Seq<char>
    decreases l,
{
    match l {
        Layout::Align(b, _) => draw_text(*b, cp),
        Layout::Pack(b, _, _) => draw_text(*b, cp),
        Layout::Single(m) => "::kas::Layout::draw(&"@ + self_path(m) + ", draw.re()); "@,
        Layout::Widget(stor, _) => "::kas::Layout::draw(&"@ + field_path(cp, stor@) + ", draw.re()); "@,
        Layout::Label(stor, _) => "::kas::Layout::draw(&"@ + field_path(cp, stor@) + ", draw.re()); "@,
        Layout::Frame(stor, b, style, bg) => "draw.frame("@ + field_path(cp, stor@) + ".rect, "@ + render(style@)
            + ", "@ + render(bg@) + "); "@ + draw_text(*b, cp),
        Layout::List(_, _, list) => draw_seq(list@, cp),
        Layout::Float(list) => draw_seq(list@, cp),
        Layout::Grid(_, _, items) => draw_grid(items@, cp),
    }
}

/// The drawing code of a sequence of layouts
pub open spec fn draw_seq(list: Seq<Layout>, cp: Seq<char>) -> Seq<char>
    decreases list,
{
    if list.len() == 0 {
        Seq::empty()
    } else {
        draw_seq(list.subrange(0, list.len() - 1), cp) + draw_text(list[list.len() - 1], cp)
    }
}

/// The drawing code of the cells of a grid
pub open spec fn draw_grid(items: Seq<(CellInfo, Layout)>, cp: Seq<char>) -> Seq<char>
    decreases items,
{
    if items.len() == 0 {
        Seq::empty()
    } else {
        draw_grid(items.subrange(0, items.len() - 1), cp) + draw_text(items[items.len() - 1].1, cp)
    }
}

impl Layout {
    /// Append the generated drawing code (core at `cp`)
    pub fn push_draw(&self, out: &mut String, cp: &str)
        ensures
            final(out)@ == old(out)@ + draw_text(*self, cp@),
        decreases self,
    {
        match self {
            Layout::Align(b, _) => b.push_draw(out, cp),
            Layout::Pack(b, _, _) => b.push_draw(out, cp),
            Layout::Single(m) => {
                out.append("::kas::Layout::draw(&");
                push_self_path(out, m);
                out.append(", draw.re()); ");
            },
            Layout::Widget(stor, _) | Layout::Label(stor, _) => {
                out.append("::kas::Layout::draw(&");
                push_field_path(out, cp, stor.as_str());
                out.append(", draw.re()); ");
            },
            Layout::Frame(stor, b, style, bg) => {
                out.append("draw.frame(");
                push_field_path(out, cp, stor.as_str());
                out.append(".rect, ");
                out.append(render_toks(style).as_str());
                out.append(", ");
                out.append(render_toks(bg).as_str());
                out.append("); ");
                b.push_draw(out, cp);
            },
            Layout::List(_, _, list) | Layout::Float(list) => push_draw_seq(list, out, cp),
            Layout::Grid(_, _, items) => push_draw_grid(items, out, cp),
        }
        proof {
            assert(final(out)@ =~= old(out)@ + draw_text(*self, cp@));
        }
    }
}

fn push_draw_seq(list: &Vec<Layout>, out: &mut String, cp: &str)
    ensures
        final(out)@ == old(out)@ + draw_seq(list@, cp@),
    decreases list@,
{
    let ghost start = out@;
    let mut i: usize = 0;
    while i < list.len()
        invariant
            i <= list@.len(),
            out@ == start + draw_seq(list@.subrange(0, i as int), cp@),
        decreases list@.len() - i,
    {
        proof {
            assert(list@.subrange(0, i + 1).subrange(0, i as int) =~= list@.subrange(0, i as int));
        }
        list[i].push_draw(out, cp);
        assert(out@ =~= start + draw_seq(list@.subrange(0, i + 1), cp@));
        i += 1;
    }
    proof {
        assert(list@.subrange(0, list@.len() as int) =~= list@);
    }
}

fn push_draw_grid(items: &Vec<(CellInfo, Layout)>, out: &mut String, cp: &str)
    ensures
        final(out)@ == old(out)@ + draw_grid(items@, cp@),
    decreases items@,
{
    let ghost start = out@;
    let mut i: usize = 0;
    while i < items.len()
        invariant
            i <= items@.len(),
            out@ == start + draw_grid(items@.subrange(0, i as int), cp@),
        decreases items@.len() - i,
    {
        proof {
            assert(items@.subrange(0, i + 1).subrange(0, i as int) =~= items@.subrange(0, i as int));
        }
        items[i].1.push_draw(out, cp);
        assert(out@ =~= start + draw_grid(items@.subrange(0, i + 1), cp@));
        i += 1;
    }
    proof {
        assert(items@.subrange(0, items@.len() as int) =~= items@);
    }
}


/// The generated sizing code of a layout (core at `cp`): an expression
/// giving the size rules of the layout on `axis`
pub open spec fn size_text(l: Layout, cp: Seq<char>) -> Seq<char>
    decreases l,
{
    match l {
        Layout::Align(b, _) => size_text(*b, cp),
        Layout::Pack(b, _, stor) => "{ let rules = "@ + size_text(*b, cp) + "; "@ + field_path(cp, stor@)
            + ".size.set_component(axis, rules.ideal_size()); rules }"@,
        Layout::Single(m) => "::kas::Layout::size_rules(&mut "@ + self_path(m) + ", sizer, axis)"@,
        Layout::Widget(stor, _) => "::kas::Layout::size_rules(&mut "@ + field_path(cp, stor@) + ", sizer, axis)"@,
        Layout::Label(stor, _) => "::kas::Layout::size_rules(&mut "@ + field_path(cp, stor@) + ", sizer, axis)"@,
        Layout::Frame(stor, b, style, _) => "let child_rules = { let sizer = sizer.re(); let axis = "@ + field_path(
            cp,
            stor@,
        ) + ".child_axis(axis); "@ + size_text(*b, cp) + " }; "@ + field_path(cp, stor@)
            + ".size_rules(sizer, axis, child_rules, "@ + render(style@) + ")"@,
        Layout::List(stor, dir, list) => "let dim = ("@ + dir_text(dir) + ", "@ + usize_lit(list@.len() as int)
            + "); let mut solver = ::kas::layout::RowSolver::new(axis, dim, &mut "@ + field_path(cp, stor@) + "); "@
            + size_row_items(list@, cp, stor@) + "::kas::layout::RulesSolver::finish(solver, &mut "@ + field_path(
            cp,
            stor@,
        ) + ")"@,
        Layout::Float(list) => "let mut rules = SizeRules::EMPTY; "@ + size_float_items(list@, cp) + "rules"@,
        Layout::Grid(stor, dim, items) => "let dim = "@ + dims_text(dim)
            + "; let mut solver = ::kas::layout::GridSolver::<Vec<_>, Vec<_>, _>::new(axis, dim, &mut "@
            + field_path(cp, stor@) + "); "@ + size_grid_items(items@, cp, stor@)
            + "::kas::layout::RulesSolver::finish(solver, &mut "@ + field_path(cp, stor@) + ")"@,
    }
}

/// Sizing of the items of a row or column (storage `stor`), by index
pub open spec fn size_row_items(list: Seq<Layout>, cp: Seq<char>, stor: Seq<char>) -> Seq<char>
    decreases list,
{
    if list.len() == 0 {
        Seq::empty()
    } else {
        size_row_items(list.subrange(0, list.len() - 1), cp, stor)
            + "{ ::kas::layout::RulesSolver::for_child(&mut solver, &mut "@ + field_path(cp, stor) + ", "@ + usize_lit(
            list.len() - 1,
        ) + ", |axis| { let sizer = sizer.re(); "@ + size_text(list[list.len() - 1], cp) + " }); }"@
    }
}

/// Sizing of floating items: the largest rules of all
pub open spec fn size_float_items(list: Seq<Layout>, cp: Seq<char>) -> Seq<char>
    decreases list,
{
    if list.len() == 0 {
        Seq::empty()
    } else {
        size_float_items(list.subrange(0, list.len() - 1), cp) + "rules = rules.max({ "@ + size_text(
            list[list.len() - 1],
            cp,
        ) + " }); "@
    }
}

proof fn lemma_size_float_append(a: Seq<Layout>, b: Seq<Layout>, cp: Seq<char>)
    ensures
        size_float_items(a + b, cp) == size_float_items(a, cp) + size_float_items(b, cp),
    decreases b.len(),
{
    if b.len() == 0 {
        assert(a + b =~= a);
        assert(size_float_items(a, cp) + Seq::<char>::empty() =~= size_float_items(a, cp));
    } else {
        let ab = a + b;
        assert(ab.subrange(0, ab.len() - 1) =~= a + b.subrange(0, b.len() - 1));
        assert(ab[ab.len() - 1] == b[b.len() - 1]);
        lemma_size_float_append(a, b.subrange(0, b.len() - 1), cp);
    }
}

/// The sizing code of a float layout starts from empty rules and combines
/// the rules of every child, in order, by `max` (the float is as large as
/// its largest child): child `k`'s sizing code stands in
/// `rules = rules.max({ .. });` after the children before it and before
/// those after it; a float without children has empty rules
pub proof fn law_float_size_is_max_of_children(list: Seq<Layout>, cp: Seq<char>, k: int)
    requires
        0 <= k < list.len(),
    ensures
        size_float_items(Seq::<Layout>::empty(), cp) == Seq::<char>::empty(),
        ({
            let pre = size_float_items(list.take(k), cp);
            let post = size_float_items(list.skip(k + 1), cp);
            size_float_items(list, cp) == pre + "rules = rules.max({ "@ + size_text(list[k], cp) + " }); "@ + post
        }),
{
    let one = seq![list[k]];
    assert(list =~= list.take(k) + one + list.skip(k + 1));
    lemma_size_float_append(list.take(k) + one, list.skip(k + 1), cp);
    lemma_size_float_append(list.take(k), one, cp);
    assert(one.subrange(0, 0) =~= Seq::<Layout>::empty());
    assert(size_float_items(Seq::<Layout>::empty(), cp) == Seq::<char>::empty());
    assert(one[0] == list[k]);
    assert(Seq::<char>::empty() + ("rules = rules.max({ "@ + size_text(list[k], cp) + " }); "@) =~= "rules = rules.max({ "@
        + size_text(list[k], cp) + " }); "@);
    assert(size_float_items(one, cp) =~= "rules = rules.max({ "@ + size_text(list[k], cp) + " }); "@);
    assert(size_float_items(list, cp) =~= size_float_items(list.take(k), cp) + "rules = rules.max({ "@
        + size_text(list[k], cp) + " }); "@ + size_float_items(list.skip(k + 1), cp));
}

/// Sizing of the cells of a grid (storage `stor`), by cell
pub open spec fn size_grid_items(items: Seq<(CellInfo, Layout)>, cp: Seq<char>, stor: Seq<char>) -> Seq<char>
    decreases items,
{
    if items.len() == 0 {
        Seq::empty()
    } else {
        size_grid_items(items.subrange(0, items.len() - 1), cp, stor)
            + "{ ::kas::layout::RulesSolver::for_child(&mut solver, &mut "@ + field_path(cp, stor) + ", "@ + cell_text(
            items[items.len() - 1].0,
        ) + ", |axis| { let sizer = sizer.re(); "@ + size_text(items[items.len() - 1].1, cp) + " }); }"@
    }
}

impl Layout {
    /// Append the generated sizing code (core at `cp`)
    #[verifier::rlimit(40)]
    #[verifier::spinoff_prover]
    pub fn push_size_rules(&self, out: &mut String, cp: &str)
        ensures
            final(out)@ == old(out)@ + size_text(*self, cp@),
        decreases self,
    {
        match self {
            Layout::Align(b, _) => b.push_size_rules(out, cp),
            Layout::Pack(b, _, stor) => {
                out.append("{ let rules = ");
                b.push_size_rules(out, cp);
                out.append("; ");
                push_field_path(out, cp, stor.as_str());
                out.append(".size.set_component(axis, rules.ideal_size()); rules }");
            },
            Layout::Single(m) => {
                out.append("::kas::Layout::size_rules(&mut ");
                push_self_path(out, m);
                out.append(", sizer, axis)");
            },
            Layout::Widget(stor, _) | Layout::Label(stor, _) => {
                out.append("::kas::Layout::size_rules(&mut ");
                push_field_path(out, cp, stor.as_str());
                out.append(", sizer, axis)");
            },
            Layout::Frame(stor, b, style, _) => {
                out.append("let child_rules = { let sizer = sizer.re(); let axis = ");
                push_field_path(out, cp, stor.as_str());
                out.append(".child_axis(axis); ");
                b.push_size_rules(out, cp);
                out.append(" }; ");
                push_field_path(out, cp, stor.as_str());
                out.append(".size_rules(sizer, axis, child_rules, ");
                out.append(render_toks(style).as_str());
                out.append(")");
            },
            Layout::List(stor, dir, list) => {
                out.append("let dim = (");
                push_dir(out, dir);
                out.append(", ");
                push_usize_lit(out, list.len());
                out.append("); let mut solver = ::kas::layout::RowSolver::new(axis, dim, &mut ");
                push_field_path(out, cp, stor.as_str());
                out.append("); ");
                push_size_row_items(list, out, cp, stor.as_str());
                out.append("::kas::layout::RulesSolver::finish(solver, &mut ");
                push_field_path(out, cp, stor.as_str());
                out.append(")");
            },
            Layout::Float(list) => {
                out.append("let mut rules = SizeRules::EMPTY; ");
                push_size_float_items(list, out, cp);
                out.append("rules");
            },
            Layout::Grid(stor, dim, items) => {
                out.append("let dim = ");
                out.append(dim.to_text().as_str());
                out.append("; let mut solver = ::kas::layout::GridSolver::<Vec<_>, Vec<_>, _>::new(axis, dim, &mut ");
                push_field_path(out, cp, stor.as_str());
                out.append("); ");
                push_size_grid_items(items, out, cp, stor.as_str());
                out.append("::kas::layout::RulesSolver::finish(solver, &mut ");
                push_field_path(out, cp, stor.as_str());
                out.append(")");
            },
        }
        proof {
            assert(final(out)@ =~= old(out)@ + size_text(*self, cp@));
        }
    }
}

fn push_size_row_items(list: &Vec<Layout>, out: &mut String, cp: &str, stor: &str)
    ensures
        final(out)@ == old(out)@ + size_row_items(list@, cp@, stor@),
    decreases list@,
{
    let ghost start = out@;
    let mut i: usize = 0;
    while i < list.len()
        invariant
            i <= list@.len(),
            out@ == start + size_row_items(list@.subrange(0, i as int), cp@, stor@),
        decreases list@.len() - i,
    {
        proof {
            assert(list@.subrange(0, i + 1).subrange(0, i as int) =~= list@.subrange(0, i as int));
        }
        out.append("{ ::kas::layout::RulesSolver::for_child(&mut solver, &mut ");
        push_field_path(out, cp, stor);
        out.append(", ");
        push_usize_lit(out, i);
        out.append(", |axis| { let sizer = sizer.re(); ");
        list[i].push_size_rules(out, cp);
        out.append(" }); }");
        assert(out@ =~= start + size_row_items(list@.subrange(0, i + 1), cp@, stor@));
        i += 1;
    }
    proof {
        assert(list@.subrange(0, list@.len() as int) =~= list@);
    }
}

fn push_size_float_items(list: &Vec<Layout>, out: &mut String, cp: &str)
    ensures
        final(out)@ == old(out)@ + size_float_items(list@, cp@),
    decreases list@,
{
    let ghost start = out@;
    let mut i: usize = 0;
    while i < list.len()
        invariant
            i <= list@.len(),
            out@ == start + size_float_items(list@.subrange(0, i as int), cp@),
        decreases list@.len() - i,
    {
        proof {
            assert(list@.subrange(0, i + 1).subrange(0, i as int) =~= list@.subrange(0, i as int));
        }
        out.append("rules = rules.max({ ");
        list[i].push_size_rules(out, cp);
        out.append(" }); ");
        assert(out@ =~= start + size_float_items(list@.subrange(0, i + 1), cp@));
        i += 1;
    }
    proof {
        assert(list@.subrange(0, list@.len() as int) =~= list@);
    }
}

fn push_size_grid_items(items: &Vec<(CellInfo, Layout)>, out: &mut String, cp: &str, stor: &str)
    ensures
        final(out)@ == old(out)@ + size_grid_items(items@, cp@, stor@),
    decreases items@,
{
    let ghost start = out@;
    let mut i: usize = 0;
    while i < items.len()
        invariant
            i <= items@.len(),
            out@ == start + size_grid_items(items@.subrange(0, i as int), cp@, stor@),
        decreases items@.len() - i,
    {
        proof {
            assert(items@.subrange(0, i + 1).subrange(0, i as int) =~= items@.subrange(0, i as int));
        }
        out.append("{ ::kas::layout::RulesSolver::for_child(&mut solver, &mut ");
        push_field_path(out, cp, stor);
        out.append(", ");
        out.append(items[i].0.to_text().as_str());
        out.append(", |axis| { let sizer = sizer.re(); ");
        items[i].1.push_size_rules(out, cp);
        out.append(" }); }");
        assert(out@ =~= start + size_grid_items(items@.subrange(0, i + 1), cp@, stor@));
        i += 1;
    }
    proof {
        assert(items@.subrange(0, items@.len() as int) =~= items@);
    }
}


/// The generated placement code of a layout (core at `cp`) within `rect`
pub open spec fn set_text(l: Layout, cp: Seq<char>) -> Seq<char>
    decreases l,
{
    match l {
        Layout::Align(b, hints) => "{ let hints = "@ + render(hints@) + ".combine(hints); "@ + set_text(*b, cp) + " }"@,
        Layout::Pack(b, hints, stor) => "{ let rect = "@ + render(hints@)
            + ".combine(hints).complete_default().aligned_rect("@ + field_path(cp, stor@) + ".size, rect); "@
            + set_text(*b, cp) + " }"@,
        Layout::Single(m) => "::kas::Layout::set_rect(&mut "@ + self_path(m) + ", cx, rect, hints); "@,
        Layout::Widget(stor, _) => "::kas::Layout::set_rect(&mut "@ + field_path(cp, stor@) + ", cx, rect, hints); "@,
        Layout::Label(stor, _) => "::kas::Layout::set_rect(&mut "@ + field_path(cp, stor@) + ", cx, rect, hints); "@,
        Layout::Frame(stor, b, _, _) => "{ "@ + field_path(cp, stor@)
            + ".rect = rect; let rect = ::kas::geom::Rect { pos: rect.pos + "@ + field_path(cp, stor@)
            + ".offset, size: rect.size - "@ + field_path(cp, stor@) + ".size, }; "@ + set_text(*b, cp) + " }"@,
        Layout::List(stor, dir, list) => "let dim = ("@ + dir_text(dir) + ", "@ + usize_lit(list@.len() as int)
            + "); let mut setter = ::kas::layout::RowSetter::<_, Vec<i32>, _>::new(rect, dim, &mut "@ + field_path(
            cp,
            stor@,
        ) + "); "@ + set_row_items(list@, cp, stor@),
        Layout::Float(list) => set_seq(list@, cp),
        Layout::Grid(stor, dim, items) => "let dim = "@ + dims_text(dim)
            + "; let mut setter = ::kas::layout::GridSetter::<Vec<_>, Vec<_>, _>::new(rect, dim, &mut "@
            + field_path(cp, stor@) + "); "@ + set_grid_items(items@, cp, stor@),
    }
}

/// Placement of the items of a row or column (storage `stor`), by index
pub open spec fn set_row_items(list: Seq<Layout>, cp: Seq<char>, stor: Seq<char>) -> Seq<char>
    decreases list,
{
    if list.len() == 0 {
        Seq::empty()
    } else {
        set_row_items(list.subrange(0, list.len() - 1), cp, stor)
            + "{ let rect = ::kas::layout::RulesSetter::child_rect(&mut setter, &mut "@ + field_path(cp, stor)
            + ", "@ + usize_lit(list.len() - 1) + "); "@ + set_text(list[list.len() - 1], cp) + " }"@
    }
}

/// Placement of floating items: each in the whole rectangle
pub open spec fn set_seq(list: Seq<Layout>, cp: Seq<char>) -> Seq<char>
    decreases list,
{
    if list.len() == 0 {
        Seq::empty()
    } else {
        set_seq(list.subrange(0, list.len() - 1), cp) + set_text(list[list.len() - 1], cp)
    }
}

/// Placement of the cells of a grid (storage `stor`), by cell
pub open spec fn set_grid_items(items: Seq<(CellInfo, Layout)>, cp: Seq<char>, stor: Seq<char>) -> Seq<char>
    decreases items,
{
    if items.len() == 0 {
        Seq::empty()
    } else {
        set_grid_items(items.subrange(0, items.len() - 1), cp, stor)
            + "{ let rect = ::kas::layout::RulesSetter::child_rect(&mut setter, &mut "@ + field_path(cp, stor)
            + ", "@ + cell_text(items[items.len() - 1].0) + "); "@ + set_text(items[items.len() - 1].1, cp) + " }"@
    }
}

impl Layout {
    /// Append the generated placement code (core at `cp`)
    #[verifier::rlimit(40)]
    #[verifier::spinoff_prover]
    pub fn push_set_rect(&self, out: &mut String, cp: &str)
        ensures
            final(out)@ == old(out)@ + set_text(*self, cp@),
        decreases self,
    {
        match self {
            Layout::Align(b, hints) => {
                out.append("{ let hints = ");
                out.append(render_toks(hints).as_str());
                out.append(".combine(hints); ");
                b.push_set_rect(out, cp);
                out.append(" }");
            },
            Layout::Pack(b, hints, stor) => {
                out.append("{ let rect = ");
                out.append(render_toks(hints).as_str());
                out.append(".combine(hints).complete_default().aligned_rect(");
                push_field_path(out, cp, stor.as_str());
                out.append(".size, rect); ");
                b.push_set_rect(out, cp);
                out.append(" }");
            },
            Layout::Single(m) => {
                out.append("::kas::Layout::set_rect(&mut ");
                push_self_path(out, m);
                out.append(", cx, rect, hints); ");
            },
            Layout::Widget(stor, _) | Layout::Label(stor, _) => {
                out.append("::kas::Layout::set_rect(&mut ");
                push_field_path(out, cp, stor.as_str());
                out.append(", cx, rect, hints); ");
            },
            Layout::Frame(stor, b, _, _) => {
                out.append("{ ");
                push_field_path(out, cp, stor.as_str());
                out.append(".rect = rect; let rect = ::kas::geom::Rect { pos: rect.pos + ");
                push_field_path(out, cp, stor.as_str());
                out.append(".offset, size: rect.size - ");
                push_field_path(out, cp, stor.as_str());
                out.append(".size, }; ");
                b.push_set_rect(out, cp);
                out.append(" }");
            },
            Layout::List(stor, dir, list) => {
                out.append("let dim = (");
                push_dir(out, dir);
                out.append(", ");
                push_usize_lit(out, list.len());
                out.append("); let mut setter = ::kas::layout::RowSetter::<_, Vec<i32>, _>::new(rect, dim, &mut ");
                push_field_path(out, cp, stor.as_str());
                out.append("); ");
                push_set_row_items(list, out, cp, stor.as_str());
            },
            Layout::Float(list) => push_set_seq(list, out, cp),
            Layout::Grid(stor, dim, items) => {
                out.append("let dim = ");
                out.append(dim.to_text().as_str());
                out.append("; let mut setter = ::kas::layout::GridSetter::<Vec<_>, Vec<_>, _>::new(rect, dim, &mut ");
                push_field_path(out, cp, stor.as_str());
                out.append("); ");
                push_set_grid_items(items, out, cp, stor.as_str());
            },
        }
        proof {
            assert(final(out)@ =~= old(out)@ + set_text(*self, cp@));
        }
    }
}

fn push_set_row_items(list: &Vec<Layout>, out: &mut String, cp: &str, stor: &str)
    ensures
        final(out)@ == old(out)@ + set_row_items(list@, cp@, stor@),
    decreases list@,
{
    let ghost start = out@;
    let mut i: usize = 0;
    while i < list.len()
        invariant
            i <= list@.len(),
            out@ == start + set_row_items(list@.subrange(0, i as int), cp@, stor@),
        decreases list@.len() - i,
    {
        proof {
            assert(list@.subrange(0, i + 1).subrange(0, i as int) =~= list@.subrange(0, i as int));
        }
        out.append("{ let rect = ::kas::layout::RulesSetter::child_rect(&mut setter, &mut ");
        push_field_path(out, cp, stor);
        out.append(", ");
        push_usize_lit(out, i);
        out.append("); ");
        list[i].push_set_rect(out, cp);
        out.append(" }");
        assert(out@ =~= start + set_row_items(list@.subrange(0, i + 1), cp@, stor@));
        i += 1;
    }
    proof {
        assert(list@.subrange(0, list@.len() as int) =~= list@);
    }
}

fn push_set_seq(list: &Vec<Layout>, out: &mut String, cp: &str)
    ensures
        final(out)@ == old(out)@ + set_seq(list@, cp@),
    decreases list@,
{
    let ghost start = out@;
    let mut i: usize = 0;
    while i < list.len()
        invariant
            i <= list@.len(),
            out@ == start + set_seq(list@.subrange(0, i as int), cp@),
        decreases list@.len() - i,
    {
        proof {
            assert(list@.subrange(0, i + 1).subrange(0, i as int) =~= list@.subrange(0, i as int));
        }
        list[i].push_set_rect(out, cp);
        assert(out@ =~= start + set_seq(list@.subrange(0, i + 1), cp@));
        i += 1;
    }
    proof {
        assert(list@.subrange(0, list@.len() as int) =~= list@);
    }
}

fn push_set_grid_items(items: &Vec<(CellInfo, Layout)>, out: &mut String, cp: &str, stor: &str)
    ensures
        final(out)@ == old(out)@ + set_grid_items(items@, cp@, stor@),
    decreases items@,
{
    let ghost start = out@;
    let mut i: usize = 0;
    while i < items.len()
        invariant
            i <= items@.len(),
            out@ == start + set_grid_items(items@.subrange(0, i as int), cp@, stor@),
        decreases items@.len() - i,
    {
        proof {
            assert(items@.subrange(0, i + 1).subrange(0, i as int) =~= items@.subrange(0, i as int));
        }
        out.append("{ let rect = ::kas::layout::RulesSetter::child_rect(&mut setter, &mut ");
        push_field_path(out, cp, stor);
        out.append(", ");
        out.append(items[i].0.to_text().as_str());
        out.append("); ");
        items[i].1.push_set_rect(out, cp);
        out.append(" }");
        assert(out@ =~= start + set_grid_items(items@.subrange(0, i + 1), cp@, stor@));
        i += 1;
    }
    proof {
        assert(items@.subrange(0, items@.len() as int) =~= items@);
    }
}


/// The texts of a list of strings
pub open spec fn texts(v: Seq<String>) -> Seq<Seq<char>> {
    v.map_values(|s: String| s@)
}

/// The probe targets of a layout (core at `cp`), in order: the fields and
/// core fields it places
pub open spec fn probe_spec(l: Layout, cp: Seq<char>) -> Seq<Seq<char>>
    decreases l,
{
    match l {
        Layout::Align(b, _) => probe_spec(*b, cp),
        Layout::Pack(b, _, _) => probe_spec(*b, cp),
        Layout::Frame(_, b, _, _) => probe_spec(*b, cp),
        Layout::Single(m) => seq![self_path(m)],
        Layout::Widget(stor, _) => seq![field_path(cp, stor@)],
        Layout::Label(stor, _) => seq![field_path(cp, stor@)],
        Layout::List(_, _, list) => probe_seq(list@, cp),
        Layout::Float(list) => probe_seq(list@, cp),
        Layout::Grid(_, _, items) => probe_grid(items@, cp),
    }
}

/// The probe targets of a sequence of layouts
pub open spec fn probe_seq(list: Seq<Layout>, cp: Seq<char>) -> Seq<Seq<char>>
    decreases list,
{
    if list.len() == 0 {
        Seq::empty()
    } else {
        probe_seq(list.subrange(0, list.len() - 1), cp) + probe_spec(list[list.len() - 1], cp)
    }
}

/// The probe targets of the cells of a grid
pub open spec fn probe_grid(items: Seq<(CellInfo, Layout)>, cp: Seq<char>) -> Seq<Seq<char>>
    decreases items,
{
    if items.len() == 0 {
        Seq::empty()
    } else {
        probe_grid(items.subrange(0, items.len() - 1), cp) + probe_spec(items[items.len() - 1].1, cp)
    }
}

proof fn lemma_texts_push(v: Seq<String>, s: String)
    ensures
        texts(v.push(s)) == texts(v).push(s@),
{
    assert(texts(v.push(s)) =~= texts(v).push(s@));
}

impl Layout {
    /// Append the probe targets (core at `cp`)
    pub fn probe_targets(&self, cp: &str, targets: &mut Vec<String>)
        ensures
            texts(final(targets)@) == texts(old(targets)@) + probe_spec(*self, cp@),
        decreases self,
    {
        match self {
            Layout::Align(b, _) => b.probe_targets(cp, targets),
            Layout::Pack(b, _, _) => b.probe_targets(cp, targets),
            Layout::Frame(_, b, _, _) => b.probe_targets(cp, targets),
            Layout::Single(m) => {
                let mut t = String::new();
                push_self_path(&mut t, m);
                proof {
                    lemma_texts_push(targets@, t);
                }
                targets.push(t);
            },
            Layout::Widget(stor, _) | Layout::Label(stor, _) => {
                let mut t = String::new();
                push_field_path(&mut t, cp, stor.as_str());
                proof {
                    lemma_texts_push(targets@, t);
                }
                targets.push(t);
            },
            Layout::List(_, _, list) | Layout::Float(list) => probe_list(list, cp, targets),
            Layout::Grid(_, _, items) => probe_cells(items, cp, targets),
        }
        proof {
            assert(texts(final(targets)@) =~= texts(old(targets)@) + probe_spec(*self, cp@));
        }
    }
}

fn probe_list(list: &Vec<Layout>, cp: &str, targets: &mut Vec<String>)
    ensures
        texts(final(targets)@) == texts(old(targets)@) + probe_seq(list@, cp@),
    decreases list@,
{
    let ghost start = texts(targets@);
    let mut i: usize = 0;
    while i < list.len()
        invariant
            i <= list@.len(),
            texts(targets@) == start + probe_seq(list@.subrange(0, i as int), cp@),
        decreases list@.len() - i,
    {
        proof {
            assert(list@.subrange(0, i + 1).subrange(0, i as int) =~= list@.subrange(0, i as int));
        }
        list[i].probe_targets(cp, targets);
        assert(texts(targets@) =~= start + probe_seq(list@.subrange(0, i + 1), cp@));
        i += 1;
    }
    proof {
        assert(list@.subrange(0, list@.len() as int) =~= list@);
    }
}

fn probe_cells(items: &Vec<(CellInfo, Layout)>, cp: &str, targets: &mut Vec<String>)
    ensures
        texts(final(targets)@) == texts(old(targets)@) + probe_grid(items@, cp@),
    decreases items@,
{
    let ghost start = texts(targets@);
    let mut i: usize = 0;
    while i < items.len()
        invariant
            i <= items@.len(),
            texts(targets@) == start + probe_grid(items@.subrange(0, i as int), cp@),
        decreases items@.len() - i,
    {
        proof {
            assert(items@.subrange(0, i + 1).subrange(0, i as int) =~= items@.subrange(0, i as int));
        }
        items[i].1.probe_targets(cp, targets);
        assert(texts(targets@) =~= start + probe_grid(items@.subrange(0, i + 1), cp@));
        i += 1;
    }
    proof {
        assert(items@.subrange(0, items@.len() as int) =~= items@);
    }
}

/// The generated probing code: the first target which finds a widget at
/// `coord`, else none
pub open spec fn try_probe_text(targets: Seq<Seq<char>>) -> Seq<char>
    decreases targets.len(),
{
    if targets.len() == 0 {
        "{ None }"@
    } else {
        "if let Some(id) = ::kas::Layout::try_probe(&"@ + targets[0] + ", coord) { Some(id) } else "@
            + try_probe_text(targets.drop_first())
    }
}

/// The items of a navigation order, joined by commas
pub open spec fn nav_items_text(v: Seq<usize>) -> Seq<char>
    decreases v.len(),
{
    if v.len() == 0 {
        Seq::empty()
    } else if v.len() == 1 {
        usize_lit(v[0] as int)
    } else {
        nav_items_text(v.drop_last()) + ", "@ + usize_lit(v.last() as int)
    }
}

/// The generated `nav_next` method visiting children in the order `v`
pub open spec fn nav_fn_text(v: Seq<usize>) -> Seq<char> {
    "fn nav_next(&self, reverse: bool, from: Option<usize>) -> Option<usize> { let mut iter = ["@
        + nav_items_text(v)
        + "].into_iter(); if !reverse { if let Some(wi) = from { let _ = iter.find(|x| *x == wi); } iter.next() } else { let mut iter = iter.rev(); if let Some(wi) = from { let _ = iter.find(|x| *x == wi); } iter.next() } }"@
}

/// A layout tree, the root of a widget's layout
pub struct Tree(pub Layout);

impl Tree {
    /// The generated `size_rules` body (core at `cp`)
    pub fn size_rules(&self, cp: &str) -> (r: String)
        ensures
            r@ == size_text(self.0, cp@),
    {
        let mut out = String::new();
        self.0.push_size_rules(&mut out, cp);
        out
    }

    /// The generated `set_rect` body (core at `cp`)
    pub fn set_rect(&self, cp: &str) -> (r: String)
        ensures
            r@ == set_text(self.0, cp@),
    {
        let mut out = String::new();
        self.0.push_set_rect(&mut out, cp);
        out
    }

    /// The generated `draw` body (core at `cp`)
    pub fn draw(&self, cp: &str) -> (r: String)
        ensures
            r@ == draw_text(self.0, cp@),
    {
        let mut out = String::new();
        self.0.push_draw(&mut out, cp);
        out
    }

    /// The generated `try_probe` body (core at `cp`)
    pub fn try_probe(&self, cp: &str) -> (r: String)
        ensures
            r@ == try_probe_text(probe_spec(self.0, cp@)),
    {
        let mut targets: Vec<String> = Vec::new();
        self.0.probe_targets(cp, &mut targets);
        assert(texts(targets@) =~= probe_spec(self.0, cp@));
        let mut out = String::new();
        let mut i: usize = targets.len();
        let mut tail = String::from_str("{ None }");
        while i > 0
            invariant
                i <= targets@.len(),
                tail@ == try_probe_text(texts(targets@).skip(i as int)),
            decreases i,
        {
            i -= 1;
            let mut t = String::from_str("if let Some(id) = ::kas::Layout::try_probe(&");
            t.append(targets[i].as_str());
            t.append(", coord) { Some(id) } else ");
            t.append(tail.as_str());
            proof {
                assert(texts(targets@).skip(i as int).drop_first() =~= texts(targets@).skip(i + 1));
                assert(texts(targets@).skip(i as int)[0] == targets@[i as int]@);
            }
            tail = t;
        }
        proof {
            assert(texts(targets@).skip(0) =~= texts(targets@));
        }
        out.append(tail.as_str());
        out
    }

    /// The generated `nav_next` method: children in navigation order
    pub fn nav_next(&self, children: &Vec<Child>) -> (r: Result<String, NavError>)
        requires
            widgets_placed(self.0, children@),
        ensures
            match nav_spec(self.0, children@) {
                Some(v) => r is Ok && r->Ok_0@ == nav_fn_text(v),
                None => r is Err,
            },
    {
        let v = match self.0.nav_next(children) {
            Ok(v) => v,
            Err(e) => return Err(e),
        };
        let mut out = String::from_str("fn nav_next(&self, reverse: bool, from: Option<usize>) -> Option<usize> { let mut iter = [");
        let ghost start = out@;
        let mut i: usize = 0;
        while i < v.len()
            invariant
                i <= v@.len(),
                out@ == start + nav_items_text(v@.take(i as int)),
            decreases v@.len() - i,
        {
            proof {
                assert(v@.take(i + 1).drop_last() =~= v@.take(i as int));
            }
            if i > 0 {
                out.append(", ");
            }
            push_usize_lit(&mut out, v[i]);
            assert(out@ =~= start + nav_items_text(v@.take(i + 1)));
            i += 1;
        }
        assert(v@.take(v@.len() as int) =~= v@);
        out.append("].into_iter(); if !reverse { if let Some(wi) = from { let _ = iter.find(|x| *x == wi); } iter.next() } else { let mut iter = iter.rev(); if let Some(wi) = from { let _ = iter.find(|x| *x == wi); } iter.next() } }");
        assert(out@ =~= nav_fn_text(v@));
        Ok(out)
    }
}


/// Fields of the widget's core needed by a layout: their types, their
/// initialisers, and the names of those which are child widgets
pub type FieldTexts = (Seq<char>, Seq<char>, Seq<Seq<char>>);

/// Concatenation of field texts
pub open spec fn cat3(a: FieldTexts, b: FieldTexts) -> FieldTexts {
    (a.0 + b.0, a.1 + b.1, a.2 + b.2)
}

/// A storage field of the core: its type, default initialised
pub open spec fn stor_field(stor: Seq<char>, ty: Seq<char>) -> FieldTexts {
    (stor + ": "@ + ty + ", "@, stor + ": Default::default(), "@, Seq::empty())
}

/// The storage type of a row or column of `n` items
pub open spec fn row_storage_ty(n: int) -> Seq<char> {
    if n > 16 {
        "::kas::layout::DynRowStorage"@
    } else {
        "::kas::layout::FixedRowStorage<"@ + usize_lit(n) + ">"@
    }
}

/// The fields of the core needed by a layout
pub open spec fn fields_spec(l: Layout) -> FieldTexts
    decreases l,
{
    match l {
        Layout::Align(b, _) => fields_spec(*b),
        Layout::Single(_) => (Seq::empty(), Seq::empty(), Seq::empty()),
        Layout::Pack(b, _, stor) => cat3(stor_field(stor@, "::kas::layout::PackStorage"@), fields_spec(*b)),
        Layout::Widget(id, expr) => (
            id@ + ": Box<dyn ::kas::Widget<Data = ()>>, "@,
            id@ + ": Box::new("@ + render(expr@) + "), "@,
            seq![id@],
        ),
        Layout::Frame(stor, b, _, _) => cat3(stor_field(stor@, "::kas::layout::FrameStorage"@), fields_spec(*b)),
        Layout::List(stor, _, list) => cat3(stor_field(stor@, row_storage_ty(list@.len() as int)), fields_seq(list@)),
        Layout::Float(list) => fields_seq(list@),
        Layout::Grid(stor, dim, items) => cat3(
            stor_field(
                stor@,
                "::kas::layout::FixedGridStorage<"@ + usize_lit(dim.cols as int) + ", "@ + usize_lit(dim.rows as int)
                    + ">"@,
            ),
            fields_grid(items@),
        ),
        Layout::Label(id, text) => (
            id@ + ": ::kas::hidden::StrLabel, "@,
            id@ + ": ::kas::hidden::StrLabel::new("@ + text@ + "), "@,
            seq![id@],
        ),
    }
}

/// The fields of the core needed by a sequence of layouts
pub open spec fn fields_seq(list: Seq<Layout>) -> FieldTexts
    decreases list,
{
    if list.len() == 0 {
        (Seq::empty(), Seq::empty(), Seq::empty())
    } else {
        cat3(fields_seq(list.subrange(0, list.len() - 1)), fields_spec(list[list.len() - 1]))
    }
}

/// The fields of the core needed by the cells of a grid
pub open spec fn fields_grid(items: Seq<(CellInfo, Layout)>) -> FieldTexts
    decreases items,
{
    if items.len() == 0 {
        (Seq::empty(), Seq::empty(), Seq::empty())
    } else {
        cat3(fields_grid(items.subrange(0, items.len() - 1)), fields_spec(items[items.len() - 1].1))
    }
}

/// The field texts have grown by `f`
pub open spec fn fields_grown(
    ty: Seq<char>,
    def: Seq<char>,
    names: Seq<String>,
    ty0: Seq<char>,
    def0: Seq<char>,
    names0: Seq<String>,
    f: FieldTexts,
) -> bool {
    &&& ty == ty0 + f.0
    &&& def == def0 + f.1
    &&& texts(names) == texts(names0) + f.2
}

/// Append a storage field
fn push_stor_field(ty: &mut String, def: &mut String, stor: &str, t: &str)
    ensures
        final(ty)@ == old(ty)@ + stor_field(stor@, t@).0,
        final(def)@ == old(def)@ + stor_field(stor@, t@).1,
{
    ty.append(stor);
    ty.append(": ");
    ty.append(t);
    ty.append(", ");
    def.append(stor);
    def.append(": Default::default(), ");
    proof {
        assert(final(ty)@ =~= old(ty)@ + stor_field(stor@, t@).0);
        assert(final(def)@ =~= old(def)@ + stor_field(stor@, t@).1);
    }
}

impl Layout {
    /// Append the fields of the core needed by this layout
    pub fn push_fields(&self, ty: &mut String, def: &mut String, names: &mut Vec<String>)
        ensures
            fields_grown(final(ty)@, final(def)@, final(names)@, old(ty)@, old(def)@, old(names)@, fields_spec(*self)),
        decreases self,
    {
        match self {
            Layout::Align(b, _) => b.push_fields(ty, def, names),
            Layout::Single(_) => {},
            Layout::Pack(b, _, stor) => {
                push_stor_field(ty, def, stor.as_str(), "::kas::layout::PackStorage");
                b.push_fields(ty, def, names);
            },
            Layout::Widget(id, expr) => {
                ty.append(id.as_str());
                ty.append(": Box<dyn ::kas::Widget<Data = ()>>, ");
                def.append(id.as_str());
                def.append(": Box::new(");
                def.append(render_toks(expr).as_str());
                def.append("), ");
                proof {
                    lemma_texts_push(names@, *id);
                }
                names.push(id.clone());
            },
            Layout::Frame(stor, b, _, _) => {
                push_stor_field(ty, def, stor.as_str(), "::kas::layout::FrameStorage");
                b.push_fields(ty, def, names);
            },
            Layout::List(stor, _, list) => {
                let mut t = String::new();
                if list.len() > 16 {
                    t.append("::kas::layout::DynRowStorage");
                } else {
                    t.append("::kas::layout::FixedRowStorage<");
                    push_usize_lit(&mut t, list.len());
                    t.append(">");
                }
                assert(t@ =~= row_storage_ty(list@.len() as int));
                push_stor_field(ty, def, stor.as_str(), t.as_str());
                push_fields_seq(list, ty, def, names);
            },
            Layout::Float(list) => push_fields_seq(list, ty, def, names),
            Layout::Grid(stor, dim, items) => {
                let mut t = String::from_str("::kas::layout::FixedGridStorage<");
                push_usize_lit(&mut t, dim.cols as usize);
                t.append(", ");
                push_usize_lit(&mut t, dim.rows as usize);
                t.append(">");
                push_stor_field(ty, def, stor.as_str(), t.as_str());
                push_fields_grid(items, ty, def, names);
            },
            Layout::Label(id, text) => {
                ty.append(id.as_str());
                ty.append(": ::kas::hidden::StrLabel, ");
                def.append(id.as_str());
                def.append(": ::kas::hidden::StrLabel::new(");
                def.append(text.as_str());
                def.append("), ");
                proof {
                    lemma_texts_push(names@, *id);
                }
                names.push(id.clone());
            },
        }
        proof {
            assert(final(ty)@ =~= old(ty)@ + fields_spec(*self).0);
            assert(final(def)@ =~= old(def)@ + fields_spec(*self).1);
            assert(texts(final(names)@) =~= texts(old(names)@) + fields_spec(*self).2);
        }
    }
}

fn push_fields_seq(list: &Vec<Layout>, ty: &mut String, def: &mut String, names: &mut Vec<String>)
    ensures
        fields_grown(final(ty)@, final(def)@, final(names)@, old(ty)@, old(def)@, old(names)@, fields_seq(list@)),
    decreases list@,
{
    let ghost (t0, d0, n0) = (ty@, def@, names@);
    let mut i: usize = 0;
    while i < list.len()
        invariant
            i <= list@.len(),
            fields_grown(ty@, def@, names@, t0, d0, n0, fields_seq(list@.subrange(0, i as int))),
        decreases list@.len() - i,
    {
        proof {
            assert(list@.subrange(0, i + 1).subrange(0, i as int) =~= list@.subrange(0, i as int));
        }
        list[i].push_fields(ty, def, names);
        proof {
            let f = fields_seq(list@.subrange(0, i + 1));
            assert(ty@ =~= t0 + f.0);
            assert(def@ =~= d0 + f.1);
            assert(texts(names@) =~= texts(n0) + f.2);
        }
        i += 1;
    }
    proof {
        assert(list@.subrange(0, list@.len() as int) =~= list@);
    }
}

fn push_fields_grid(items: &Vec<(CellInfo, Layout)>, ty: &mut String, def: &mut String, names: &mut Vec<String>)
    ensures
        fields_grown(final(ty)@, final(def)@, final(names)@, old(ty)@, old(def)@, old(names)@, fields_grid(items@)),
    decreases items@,
{
    let ghost (t0, d0, n0) = (ty@, def@, names@);
    let mut i: usize = 0;
    while i < items.len()
        invariant
            i <= items@.len(),
            fields_grown(ty@, def@, names@, t0, d0, n0, fields_grid(items@.subrange(0, i as int))),
        decreases items@.len() - i,
    {
        proof {
            assert(items@.subrange(0, i + 1).subrange(0, i as int) =~= items@.subrange(0, i as int));
        }
        items[i].1.push_fields(ty, def, names);
        proof {
            let f = fields_grid(items@.subrange(0, i + 1));
            assert(ty@ =~= t0 + f.0);
            assert(def@ =~= d0 + f.1);
            assert(texts(names@) =~= texts(n0) + f.2);
        }
        i += 1;
    }
    proof {
        assert(items@.subrange(0, items@.len() as int) =~= items@);
    }
}

impl Tree {
    /// The storage fields of the core (types, initialisers), adding a child
    /// (bound to no data) for each embedded widget and label, in order
    pub fn storage_fields(&self, children: &mut Vec<Child>) -> (r: (String, String))
        ensures
            (r.0@, r.1@) == (fields_spec(self.0).0, fields_spec(self.0).1),
            final(children)@.len() == old(children)@.len() + fields_spec(self.0).2.len(),
            forall|k: int| 0 <= k < old(children)@.len() ==> #[trigger] final(children)@[k] == old(children)@[k],
            forall|k: int|
                0 <= k < fields_spec(self.0).2.len() ==> is_core_child(
                    #[trigger] final(children)@[old(children)@.len() + k],
                    fields_spec(self.0).2[k],
                ) && bound_to_unit(final(children)@[old(children)@.len() + k]),
    {
        let mut ty = String::new();
        let mut def = String::new();
        let mut names: Vec<String> = Vec::new();
        self.0.push_fields(&mut ty, &mut def, &mut names);
        assert(texts(Seq::<String>::empty()) =~= Seq::<Seq<char>>::empty());
        assert(texts(names@) =~= fields_spec(self.0).2);
        let ghost c0 = children@;
        let mut i: usize = 0;
        while i < names.len()
            invariant
                i <= names@.len(),
                children@.len() == c0.len() + i,
                forall|k: int| 0 <= k < c0.len() ==> #[trigger] children@[k] == c0[k],
                forall|k: int|
                    0 <= k < i ==> is_core_child(#[trigger] children@[c0.len() + k], names@[k]@)
                        && bound_to_unit(children@[c0.len() + k]),
            decreases names@.len() - i,
        {
            children.push(Child::new_core(Member::Named(names[i].clone())));
            i += 1;
        }
        (ty, def)
    }
}

/// Each of `names` is a core child among `children`
pub open spec fn names_found(names: Seq<Seq<char>>, children: Seq<Child>) -> bool {
    forall|k: int| 0 <= k < names.len() ==> #[trigger] core_child(children, names[k]) is Some
}

proof fn lemma_core_child_found(children: Seq<Child>, i: int, name: Seq<char>)
    requires
        0 <= i < children.len(),
        is_core_child(children[i], name),
    ensures
        core_child(children, name) is Some,
    decreases children.len(),
{
    if i < children.len() - 1 {
        lemma_core_child_found(children.drop_last(), i, name);
    }
}

proof fn lemma_placed(l: Layout, children: Seq<Child>)
    requires
        names_found(fields_spec(l).2, children),
    ensures
        widgets_placed(l, children),
    decreases l,
{
    match l {
        Layout::Align(b, _) => lemma_placed(*b, children),
        Layout::Pack(b, _, stor) => {
            assert(fields_spec(l).2 =~= fields_spec(*b).2);
            lemma_placed(*b, children);
        },
        Layout::Frame(stor, b, _, _) => {
            assert(fields_spec(l).2 =~= fields_spec(*b).2);
            lemma_placed(*b, children);
        },
        Layout::Widget(id, _) => {
            assert(fields_spec(l).2[0] == id@);
        },
        Layout::List(_, _, list) => {
            assert(fields_spec(l).2 =~= fields_seq(list@).2);
            lemma_placed_seq(list@, children);
        },
        Layout::Float(list) => lemma_placed_seq(list@, children),
        Layout::Grid(_, _, items) => {
            assert(fields_spec(l).2 =~= fields_grid(items@).2);
            lemma_placed_grid(items@, children);
        },
        _ => {},
    }
}

proof fn lemma_placed_seq(list: Seq<Layout>, children: Seq<Child>)
    requires
        names_found(fields_seq(list).2, children),
    ensures
        widgets_placed_seq(list, children),
    decreases list,
{
    if list.len() > 0 {
        let pre = list.subrange(0, list.len() - 1);
        let a = fields_seq(pre).2;
        let b = fields_spec(list[list.len() - 1]).2;
        assert(fields_seq(list).2 == a + b);
        assert forall|k: int| 0 <= k < a.len() implies #[trigger] core_child(children, a[k]) is Some by {
            assert((a + b)[k] == a[k]);
        }
        assert forall|k: int| 0 <= k < b.len() implies #[trigger] core_child(children, b[k]) is Some by {
            assert((a + b)[a.len() + k] == b[k]);
        }
        lemma_placed_seq(pre, children);
        lemma_placed(list[list.len() - 1], children);
    }
}

proof fn lemma_placed_grid(items: Seq<(CellInfo, Layout)>, children: Seq<Child>)
    requires
        names_found(fields_grid(items).2, children),
    ensures
        widgets_placed_grid(items, children),
    decreases items,
{
    if items.len() > 0 {
        let pre = items.subrange(0, items.len() - 1);
        let a = fields_grid(pre).2;
        let b = fields_spec(items[items.len() - 1].1).2;
        assert(fields_grid(items).2 == a + b);
        assert forall|k: int| 0 <= k < a.len() implies #[trigger] core_child(children, a[k]) is Some by {
            assert((a + b)[k] == a[k]);
        }
        assert forall|k: int| 0 <= k < b.len() implies #[trigger] core_child(children, b[k]) is Some by {
            assert((a + b)[a.len() + k] == b[k]);
        }
        lemma_placed_grid(pre, children);
        lemma_placed(items[items.len() - 1].1, children);
    }
}

/// Collecting the storage fields places every embedded widget among the
/// children (as [`Tree::storage_fields`] extends them), so its navigation
/// order can then be computed.
pub proof fn law_fields_place_widgets(l: Layout, before: Seq<Child>, after: Seq<Child>)
    requires
        after.len() == before.len() + fields_spec(l).2.len(),
        forall|k: int|
            0 <= k < fields_spec(l).2.len() ==> is_core_child(#[trigger] after[before.len() + k], fields_spec(l).2[k]),
    ensures
        widgets_placed(l, after),
{
    let names = fields_spec(l).2;
    assert forall|k: int| 0 <= k < names.len() implies #[trigger] core_child(after, names[k]) is Some by {
        assert(is_core_child(after[before.len() + k], names[k]));
        lemma_core_child_found(after, before.len() + k, names[k]);
    }
    lemma_placed(l, after);
}

} // verus!
