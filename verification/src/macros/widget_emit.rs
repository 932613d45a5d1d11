//! The code `#[widget]` generates: the methods added to the widget's trait
//! impls, the statements injected into the user's methods, the impl of
//! `MacroDefinedLayout` for a layout and the core type holding the layout's
//! storage. The plan (see [`crate::macros::widget::plan_widget`]) decides
//! which of them a widget gets.

use crate::macros::autoimpl::{member_text, member_to_text};
use crate::macros::collection::{push_usize_lit, usize_lit};
use crate::macros::scope::ImplDesc;
use crate::macros::widget::{
    child_path, tile_methods_text, Action, Child, ChildAttr, ChildFns, DataTy, DefField, DrawFn, ProbeFn, WImplPlan,
    WMethod,
};
use vstd::prelude::*;

verus! {

/// The `role` of a widget with children
pub open spec fn role_text() -> Seq<char> {
    "fn role(&self, _: &mut dyn ::kas::RoleCx) -> ::kas::Role<'_> { ::kas::Role::None }"@
}

/// [`role_text`]
pub fn role_code() -> (r: String)
    ensures
        r@ == role_text(),
{
    let t = String::from_str("fn role(&self, _: &mut dyn ::kas::RoleCx) -> ::kas::Role<'_> { ::kas::Role::None }");
    proof {
        assert(t@ =~= role_text());
    }
    t
}

/// The statement checking that the widget (core at `core`) has its rect
pub open spec fn require_rect_text(core: Seq<char>) -> Seq<char> {
    core + ".status.require_rect(&"@ + core + "._id);"@
}

/// [`require_rect_text`]
pub fn require_rect_code(core: &str) -> (r: String)
    ensures
        r@ == require_rect_text(core@),
{
    let mut t = String::from_str(core);
    t.append(".status.require_rect(&");
    t.append(core);
    t.append("._id);");
    proof {
        assert(t@ =~= require_rect_text(core@));
    }
    t
}

/// `try_probe` through `Events::probe` within the widget's rect
pub open spec fn try_probe_default_text(core: Seq<char>) -> Seq<char> {
    "fn try_probe(&self, coord: ::kas::geom::Coord) -> Option<::kas::Id> { "@ + core + ".status.require_rect(&"@ + core + "._id); self.rect().contains(coord).then(|| ::kas::Events::probe(self, coord)) }"@
}

/// [`try_probe_default_text`]
pub fn try_probe_default_code(core: &str) -> (r: String)
    ensures
        r@ == try_probe_default_text(core@),
{
    let mut t = String::from_str("fn try_probe(&self, coord: ::kas::geom::Coord) -> Option<::kas::Id> { ");
    t.append(core);
    t.append(".status.require_rect(&");
    t.append(core);
    t.append("._id); self.rect().contains(coord).then(|| ::kas::Events::probe(self, coord)) }");
    proof {
        assert(t@ =~= try_probe_default_text(core@));
    }
    t
}

/// `try_probe` by the layout's `body`
pub open spec fn try_probe_layout_text(core: Seq<char>, body: Seq<char>) -> Seq<char> {
    "fn try_probe(&self, coord: ::kas::geom::Coord) -> Option<::kas::Id> { "@ + core + ".status.require_rect(&"@ + core + "._id); "@ + body + " }"@
}

/// [`try_probe_layout_text`]
pub fn try_probe_layout_code(core: &str, body: &str) -> (r: String)
    ensures
        r@ == try_probe_layout_text(core@, body@),
{
    let mut t = String::from_str("fn try_probe(&self, coord: ::kas::geom::Coord) -> Option<::kas::Id> { ");
    t.append(core);
    t.append(".status.require_rect(&");
    t.append(core);
    t.append("._id); ");
    t.append(body);
    t.append(" }");
    proof {
        assert(t@ =~= try_probe_layout_text(core@, body@));
    }
    t
}

/// `draw` through `Viewport::draw_with_offset`
pub open spec fn draw_with_offset_text() -> Seq<char> {
    "fn draw(&self, draw: ::kas::theme::DrawCx) { self.draw_with_offset(draw, self.rect(), ::kas::geom::Offset::ZERO); }"@
}

/// [`draw_with_offset_text`]
pub fn draw_with_offset_code() -> (r: String)
    ensures
        r@ == draw_with_offset_text(),
{
    let t = String::from_str("fn draw(&self, draw: ::kas::theme::DrawCx) { self.draw_with_offset(draw, self.rect(), ::kas::geom::Offset::ZERO); }");
    proof {
        assert(t@ =~= draw_with_offset_text());
    }
    t
}

/// `draw` by the macro-defined layout
pub open spec fn draw_layout_text(core: Seq<char>) -> Seq<char> {
    "fn draw(&self, draw: ::kas::theme::DrawCx) { "@ + core + ".status.require_rect(&"@ + core + "._id); ::kas::MacroDefinedLayout::draw(self, draw); }"@
}

/// [`draw_layout_text`]
pub fn draw_layout_code(core: &str) -> (r: String)
    ensures
        r@ == draw_layout_text(core@),
{
    let mut t = String::from_str("fn draw(&self, draw: ::kas::theme::DrawCx) { ");
    t.append(core);
    t.append(".status.require_rect(&");
    t.append(core);
    t.append("._id); ::kas::MacroDefinedLayout::draw(self, draw); }");
    proof {
        assert(t@ =~= draw_layout_text(core@));
    }
    t
}

/// `rect` of the macro-defined layout
pub open spec fn rect_layout_text() -> Seq<char> {
    "#[inline] fn rect(&self) -> ::kas::geom::Rect { ::kas::MacroDefinedLayout::rect(self) }"@
}

/// [`rect_layout_text`]
pub fn rect_layout_code() -> (r: String)
    ensures
        r@ == rect_layout_text(),
{
    let t = String::from_str("#[inline] fn rect(&self) -> ::kas::geom::Rect { ::kas::MacroDefinedLayout::rect(self) }");
    proof {
        assert(t@ =~= rect_layout_text());
    }
    t
}

/// `rect` kept in the core
pub open spec fn rect_core_text(core: Seq<char>) -> Seq<char> {
    "#[inline] fn rect(&self) -> ::kas::geom::Rect { "@ + core + "._rect }"@
}

/// [`rect_core_text`]
pub fn rect_core_code(core: &str) -> (r: String)
    ensures
        r@ == rect_core_text(core@),
{
    let mut t = String::from_str("#[inline] fn rect(&self) -> ::kas::geom::Rect { ");
    t.append(core);
    t.append("._rect }");
    proof {
        assert(t@ =~= rect_core_text(core@));
    }
    t
}

/// `size_rules` of the macro-defined layout
pub open spec fn size_rules_layout_text(core: Seq<char>) -> Seq<char> {
    "fn size_rules(&mut self, cx: &mut ::kas::theme::SizeCx, axis: ::kas::layout::AxisInfo) -> ::kas::layout::SizeRules { "@ + core + ".status.size_rules(&"@ + core + "._id, axis); ::kas::MacroDefinedLayout::size_rules(self, cx, axis) }"@
}

/// [`size_rules_layout_text`]
pub fn size_rules_layout_code(core: &str) -> (r: String)
    ensures
        r@ == size_rules_layout_text(core@),
{
    let mut t = String::from_str("fn size_rules(&mut self, cx: &mut ::kas::theme::SizeCx, axis: ::kas::layout::AxisInfo) -> ::kas::layout::SizeRules { ");
    t.append(core);
    t.append(".status.size_rules(&");
    t.append(core);
    t.append("._id, axis); ::kas::MacroDefinedLayout::size_rules(self, cx, axis) }");
    proof {
        assert(t@ =~= size_rules_layout_text(core@));
    }
    t
}

/// `set_rect` of the macro-defined layout
pub open spec fn set_rect_layout_text(core: Seq<char>) -> Seq<char> {
    "fn set_rect(&mut self, cx: &mut ::kas::theme::SizeCx, rect: ::kas::geom::Rect, hints: ::kas::layout::AlignHints) { "@ + core + ".status.require_size_determined(&"@ + core + "._id); ::kas::MacroDefinedLayout::set_rect(self, cx, rect, hints); "@ + core + ".status.set_sized(); }"@
}

/// [`set_rect_layout_text`]
pub fn set_rect_layout_code(core: &str) -> (r: String)
    ensures
        r@ == set_rect_layout_text(core@),
{
    let mut t = String::from_str("fn set_rect(&mut self, cx: &mut ::kas::theme::SizeCx, rect: ::kas::geom::Rect, hints: ::kas::layout::AlignHints) { ");
    t.append(core);
    t.append(".status.require_size_determined(&");
    t.append(core);
    t.append("._id); ::kas::MacroDefinedLayout::set_rect(self, cx, rect, hints); ");
    t.append(core);
    t.append(".status.set_sized(); }");
    proof {
        assert(t@ =~= set_rect_layout_text(core@));
    }
    t
}

/// `set_rect` keeping the rect in the core
pub open spec fn set_rect_core_text(core: Seq<char>) -> Seq<char> {
    "fn set_rect(&mut self, _: &mut ::kas::theme::SizeCx, rect: ::kas::geom::Rect, _: ::kas::layout::AlignHints) { "@ + core + ".status.require_size_determined(&"@ + core + "._id); "@ + core + "._rect = rect; "@ + core + ".status.set_sized(); }"@
}

/// [`set_rect_core_text`]
pub fn set_rect_core_code(core: &str) -> (r: String)
    ensures
        r@ == set_rect_core_text(core@),
{
    let mut t = String::from_str("fn set_rect(&mut self, _: &mut ::kas::theme::SizeCx, rect: ::kas::geom::Rect, _: ::kas::layout::AlignHints) { ");
    t.append(core);
    t.append(".status.require_size_determined(&");
    t.append(core);
    t.append("._id); ");
    t.append(core);
    t.append("._rect = rect; ");
    t.append(core);
    t.append(".status.set_sized(); }");
    proof {
        assert(t@ =~= set_rect_core_text(core@));
    }
    t
}

/// `nav_next` over the child indices in order
pub open spec fn nav_next_default_text() -> Seq<char> {
    "fn nav_next(&self, reverse: bool, from: Option<usize>) -> Option<usize> { ::kas::util::nav_next(reverse, from, self.child_indices()) }"@
}

/// [`nav_next_default_text`]
pub fn nav_next_default_code() -> (r: String)
    ensures
        r@ == nav_next_default_text(),
{
    let t = String::from_str("fn nav_next(&self, reverse: bool, from: Option<usize>) -> Option<usize> { ::kas::util::nav_next(reverse, from, self.child_indices()) }");
    proof {
        assert(t@ =~= nav_next_default_text());
    }
    t
}

/// `try_probe_with_offset` of a viewport
pub open spec fn try_probe_with_offset_text(core: Seq<char>) -> Seq<char> {
    "fn try_probe_with_offset(&self, coord: ::kas::geom::Coord, offset: ::kas::geom::Offset) -> Option<::kas::Id> { "@ + core + ".status.require_rect(&"@ + core + "._id); self.rect().contains(coord).then(|| ::kas::Events::probe(self, coord + offset)) }"@
}

/// [`try_probe_with_offset_text`]
pub fn try_probe_with_offset_code(core: &str) -> (r: String)
    ensures
        r@ == try_probe_with_offset_text(core@),
{
    let mut t = String::from_str("fn try_probe_with_offset(&self, coord: ::kas::geom::Coord, offset: ::kas::geom::Offset) -> Option<::kas::Id> { ");
    t.append(core);
    t.append(".status.require_rect(&");
    t.append(core);
    t.append("._id); self.rect().contains(coord).then(|| ::kas::Events::probe(self, coord + offset)) }");
    proof {
        assert(t@ =~= try_probe_with_offset_text(core@));
    }
    t
}

/// `handle_event` using no event
pub open spec fn handle_event_text(core: Seq<char>) -> Seq<char> {
    "fn handle_event(&mut self, _: &mut ::kas::event::EventCx, _: &Self::Data, _: ::kas::event::Event) -> ::kas::event::IsUsed { "@ + core + ".status.require_rect(&"@ + core + "._id); ::kas::event::Unused }"@
}

/// [`handle_event_text`]
pub fn handle_event_code(core: &str) -> (r: String)
    ensures
        r@ == handle_event_text(core@),
{
    let mut t = String::from_str("fn handle_event(&mut self, _: &mut ::kas::event::EventCx, _: &Self::Data, _: ::kas::event::Event) -> ::kas::event::IsUsed { ");
    t.append(core);
    t.append(".status.require_rect(&");
    t.append(core);
    t.append("._id); ::kas::event::Unused }");
    proof {
        assert(t@ =~= handle_event_text(core@));
    }
    t
}

/// `_nav_next`, the recursive navigation
pub open spec fn nav_next_recursive_text() -> Seq<char> {
    "fn _nav_next(&self, cx: &::kas::event::EventState, focus: Option<&::kas::Id>, advance: ::kas::event::NavAdvance) -> Option<::kas::Id> { ::kas::impls::_nav_next(self, cx, focus, advance) }"@
}

/// [`nav_next_recursive_text`]
pub fn widget_nav_next() -> (r: String)
    ensures
        r@ == nav_next_recursive_text(),
{
    let t = String::from_str("fn _nav_next(&self, cx: &::kas::event::EventState, focus: Option<&::kas::Id>, advance: ::kas::event::NavAdvance) -> Option<::kas::Id> { ::kas::impls::_nav_next(self, cx, focus, advance) }");
    proof {
        assert(t@ =~= nav_next_recursive_text());
    }
    t
}

/// The recursive methods of `Widget`: `_configure`, `_update`, `_send` and `_replay`
pub open spec fn recursive_text(core: Seq<char>) -> Seq<char> {
    "fn _configure(&mut self, cx: &mut ::kas::event::ConfigCx, data: &Self::Data, id: ::kas::Id) { debug_assert!(id.is_valid(), \"Widget::_configure called with invalid id!\"); "@ + core + "._id = id; ::kas::impls::_configure(self, cx, data); "@ + core + ".status.set_configured(); } fn _update(&mut self, cx: &mut ::kas::event::ConfigCx, data: &Self::Data) { "@ + core + ".status.require_configured(&"@ + core + "._id); ::kas::impls::_update(self, cx, data); } fn _send(&mut self, cx: &mut ::kas::event::EventCx, data: &Self::Data, id: ::kas::Id, event: ::kas::event::Event) -> ::kas::event::IsUsed { ::kas::impls::_send(self, cx, data, id, event) } fn _replay(&mut self, cx: &mut ::kas::event::EventCx, data: &Self::Data, id: ::kas::Id) { ::kas::impls::_replay(self, cx, data, id); }"@
}

/// [`recursive_text`]
pub fn widget_recursive_methods(core: &str) -> (r: String)
    ensures
        r@ == recursive_text(core@),
{
    let mut t = String::from_str("fn _configure(&mut self, cx: &mut ::kas::event::ConfigCx, data: &Self::Data, id: ::kas::Id) { debug_assert!(id.is_valid(), \"Widget::_configure called with invalid id!\"); ");
    t.append(core);
    t.append("._id = id; ::kas::impls::_configure(self, cx, data); ");
    t.append(core);
    t.append(".status.set_configured(); } fn _update(&mut self, cx: &mut ::kas::event::ConfigCx, data: &Self::Data) { ");
    t.append(core);
    t.append(".status.require_configured(&");
    t.append(core);
    t.append("._id); ::kas::impls::_update(self, cx, data); } fn _send(&mut self, cx: &mut ::kas::event::EventCx, data: &Self::Data, id: ::kas::Id, event: ::kas::event::Event) -> ::kas::event::IsUsed { ::kas::impls::_send(self, cx, data, id, event) } fn _replay(&mut self, cx: &mut ::kas::event::EventCx, data: &Self::Data, id: ::kas::Id) { ::kas::impls::_replay(self, cx, data, id); }");
    proof {
        assert(t@ =~= recursive_text(core@));
    }
    t
}

/// `child_indices` of the collection in the field `m`
pub open spec fn coll_child_indices_text(m: Seq<char>) -> Seq<char> {
    "#[inline] fn child_indices(&self) -> ::kas::ChildIndices { ::kas::ChildIndices::range(0..self."@ + m + ".len()) }"@
}

/// [`coll_child_indices_text`]
pub fn coll_child_indices_code(m: &str) -> (r: String)
    ensures
        r@ == coll_child_indices_text(m@),
{
    let mut t = String::from_str("#[inline] fn child_indices(&self) -> ::kas::ChildIndices { ::kas::ChildIndices::range(0..self.");
    t.append(m);
    t.append(".len()) }");
    proof {
        assert(t@ =~= coll_child_indices_text(m@));
    }
    t
}

/// `get_child` of the collection in the field `m`
pub open spec fn coll_get_child_text(m: Seq<char>) -> Seq<char> {
    "fn get_child(&self, index: usize) -> Option<&dyn ::kas::Tile> { self."@ + m + ".get_tile(index) }"@
}

/// [`coll_get_child_text`]
pub fn coll_get_child_code(m: &str) -> (r: String)
    ensures
        r@ == coll_get_child_text(m@),
{
    let mut t = String::from_str("fn get_child(&self, index: usize) -> Option<&dyn ::kas::Tile> { self.");
    t.append(m);
    t.append(".get_tile(index) }");
    proof {
        assert(t@ =~= coll_get_child_text(m@));
    }
    t
}

/// `child_node` of the collection in the field `m`
pub open spec fn coll_child_node_text(m: Seq<char>) -> Seq<char> {
    "fn child_node<'__n>(&'__n mut self, data: &'__n Self::Data, index: usize) -> Option<::kas::Node<'__n>> { self."@ + m + ".child_node(data, index) }"@
}

/// [`coll_child_node_text`]
pub fn coll_child_node_code(m: &str) -> (r: String)
    ensures
        r@ == coll_child_node_text(m@),
{
    let mut t = String::from_str("fn child_node<'__n>(&'__n mut self, data: &'__n Self::Data, index: usize) -> Option<::kas::Node<'__n>> { self.");
    t.append(m);
    t.append(".child_node(data, index) }");
    proof {
        assert(t@ =~= coll_child_node_text(m@));
    }
    t
}

/// `get_child` matching the index against `rules`
pub open spec fn get_child_text(rules: Seq<char>) -> Seq<char> {
    "fn get_child(&self, index: usize) -> Option<&dyn ::kas::Tile> { match index { "@ + rules + "_ => None, } }"@
}

/// [`get_child_text`]
pub fn get_child_code(rules: &str) -> (r: String)
    ensures
        r@ == get_child_text(rules@),
{
    let mut t = String::from_str("fn get_child(&self, index: usize) -> Option<&dyn ::kas::Tile> { match index { ");
    t.append(rules);
    t.append("_ => None, } }");
    proof {
        assert(t@ =~= get_child_text(rules@));
    }
    t
}

/// `child_node` matching the index against `rules`
pub open spec fn child_node_text(rules: Seq<char>) -> Seq<char> {
    "fn child_node<'__n>(&'__n mut self, data: &'__n Self::Data, index: usize) -> Option<::kas::Node<'__n>> { match index { "@ + rules + "_ => None, } }"@
}

/// [`child_node_text`]
pub fn child_node_code(rules: &str) -> (r: String)
    ensures
        r@ == child_node_text(rules@),
{
    let mut t = String::from_str("fn child_node<'__n>(&'__n mut self, data: &'__n Self::Data, index: usize) -> Option<::kas::Node<'__n>> { match index { ");
    t.append(rules);
    t.append("_ => None, } }");
    proof {
        assert(t@ =~= child_node_text(rules@));
    }
    t
}

/// The item `type Data = ty;`
pub open spec fn data_type_text(ty: Seq<char>) -> Seq<char> {
    "type Data = "@ + ty + ";"@
}

/// [`data_type_text`]
pub fn data_type_code(ty: &str) -> (r: String)
    ensures
        r@ == data_type_text(ty@),
{
    let mut t = String::from_str("type Data = ");
    t.append(ty);
    t.append(";");
    proof {
        assert(t@ =~= data_type_text(ty@));
    }
    t
}

/// The data type of the collection of type `ty`
pub open spec fn collection_data_text(ty: Seq<char>) -> Seq<char> {
    "<"@ + ty + " as ::kas::Collection>::Data"@
}

/// [`collection_data_text`]
pub fn collection_data_code(ty: &str) -> (r: String)
    ensures
        r@ == collection_data_text(ty@),
{
    let mut t = String::from_str("<");
    t.append(ty);
    t.append(" as ::kas::Collection>::Data");
    proof {
        assert(t@ =~= collection_data_text(ty@));
    }
    t
}

/// The impl of `MacroDefinedLayout`: the rect given by `get_rect`, the sizing, placement and drawing bodies of the layout, and the statement keeping the rect in the core (`set_core_rect`), for the widget `target` with impl generics `ig`
pub open spec fn macro_layout_impl_text(ig: Seq<char>, target: Seq<char>, get_rect: Seq<char>, size_rules: Seq<char>, set_core_rect: Seq<char>, set_rect: Seq<char>, draw: Seq<char>) -> Seq<char> {
    "impl "@ + ig + " ::kas::MacroDefinedLayout for "@ + target + " { #[inline] fn rect(&self) -> ::kas::geom::Rect { "@ + get_rect + " } #[inline] fn size_rules(&mut self, cx: &mut ::kas::theme::SizeCx, axis: ::kas::layout::AxisInfo) -> ::kas::layout::SizeRules { "@ + size_rules + " } #[inline] fn set_rect(&mut self, cx: &mut ::kas::theme::SizeCx, rect: ::kas::geom::Rect, hints: ::kas::layout::AlignHints) { "@ + set_core_rect + " "@ + set_rect + " } #[inline] fn draw(&self, mut draw: ::kas::theme::DrawCx) { draw.set_id(::kas::Tile::id(self)); "@ + draw + " } }"@
}

/// [`macro_layout_impl_text`]
pub fn macro_layout_impl_code(ig: &str, target: &str, get_rect: &str, size_rules: &str, set_core_rect: &str, set_rect: &str, draw: &str) -> (r: String)
    ensures
        r@ == macro_layout_impl_text(ig@, target@, get_rect@, size_rules@, set_core_rect@, set_rect@, draw@),
{
    let mut t = String::from_str("impl ");
    t.append(ig);
    t.append(" ::kas::MacroDefinedLayout for ");
    t.append(target);
    t.append(" { #[inline] fn rect(&self) -> ::kas::geom::Rect { ");
    t.append(get_rect);
    t.append(" } #[inline] fn size_rules(&mut self, cx: &mut ::kas::theme::SizeCx, axis: ::kas::layout::AxisInfo) -> ::kas::layout::SizeRules { ");
    t.append(size_rules);
    t.append(" } #[inline] fn set_rect(&mut self, cx: &mut ::kas::theme::SizeCx, rect: ::kas::geom::Rect, hints: ::kas::layout::AlignHints) { ");
    t.append(set_core_rect);
    t.append(" ");
    t.append(set_rect);
    t.append(" } #[inline] fn draw(&self, mut draw: ::kas::theme::DrawCx) { draw.set_id(::kas::Tile::id(self)); ");
    t.append(draw);
    t.append(" } }");
    proof {
        assert(t@ =~= macro_layout_impl_text(ig@, target@, get_rect@, size_rules@, set_core_rect@, set_rect@, draw@));
    }
    t
}

/// The core type `name` holding the layout's storage: its fields (`stor_ty`), their definitions (`stor_def`) and its impls of `Default`, `Clone`, `WidgetCore` and `WidgetCoreRect`
pub open spec fn core_type_text(name: Seq<char>, stor_ty: Seq<char>, stor_def: Seq<char>) -> Seq<char> {
    "struct "@ + name + " { _rect: ::kas::geom::Rect, _id: ::kas::Id, status: ::kas::WidgetStatus, "@ + stor_ty + " } impl Default for "@ + name + " { fn default() -> Self { "@ + name + " { _rect: Default::default(), _id: Default::default(), status: ::kas::WidgetStatus::New, "@ + stor_def + " } } } impl Clone for "@ + name + " { fn clone(&self) -> Self { "@ + name + " { _rect: self._rect, .. "@ + name + "::default() } } } impl ::kas::WidgetCore for "@ + name + " { #[inline] fn id_ref(&self) -> &::kas::Id { &self._id } fn status(&self) -> ::kas::WidgetStatus { self.status } } impl ::kas::WidgetCoreRect for "@ + name + " { #[inline] fn rect(&self) -> ::kas::geom::Rect { self._rect } #[inline] fn set_rect(&mut self, rect: ::kas::geom::Rect) { self._rect = rect; } }"@
}

/// [`core_type_text`]
pub fn core_type_code(name: &str, stor_ty: &str, stor_def: &str) -> (r: String)
    ensures
        r@ == core_type_text(name@, stor_ty@, stor_def@),
{
    let mut t = String::from_str("struct ");
    t.append(name);
    t.append(" { _rect: ::kas::geom::Rect, _id: ::kas::Id, status: ::kas::WidgetStatus, ");
    t.append(stor_ty);
    t.append(" } impl Default for ");
    t.append(name);
    t.append(" { fn default() -> Self { ");
    t.append(name);
    t.append(" { _rect: Default::default(), _id: Default::default(), status: ::kas::WidgetStatus::New, ");
    t.append(stor_def);
    t.append(" } } } impl Clone for ");
    t.append(name);
    t.append(" { fn clone(&self) -> Self { ");
    t.append(name);
    t.append(" { _rect: self._rect, .. ");
    t.append(name);
    t.append("::default() } } } impl ::kas::WidgetCore for ");
    t.append(name);
    t.append(" { #[inline] fn id_ref(&self) -> &::kas::Id { &self._id } fn status(&self) -> ::kas::WidgetStatus { self.status } } impl ::kas::WidgetCoreRect for ");
    t.append(name);
    t.append(" { #[inline] fn rect(&self) -> ::kas::geom::Rect { self._rect } #[inline] fn set_rect(&mut self, rect: ::kas::geom::Rect) { self._rect = rect; } }");
    proof {
        assert(t@ =~= core_type_text(name@, stor_ty@, stor_def@));
    }
    t
}

/// The statement injected into a user's `size_rules`, whose axis parameter is `axis`
pub open spec fn size_rules_stmt_text(core: Seq<char>, axis: Seq<char>) -> Seq<char> {
    core + ".status.size_rules(&"@ + core + "._id, "@ + axis + ");"@
}

/// [`size_rules_stmt_text`]
pub fn size_rules_stmt_code(core: &str, axis: &str) -> (r: String)
    ensures
        r@ == size_rules_stmt_text(core@, axis@),
{
    let mut t = String::from_str(core);
    t.append(".status.size_rules(&");
    t.append(core);
    t.append("._id, ");
    t.append(axis);
    t.append(");");
    proof {
        assert(t@ =~= size_rules_stmt_text(core@, axis@));
    }
    t
}

/// The statement injected first into a user's `set_rect`
pub open spec fn require_size_stmt_text(core: Seq<char>) -> Seq<char> {
    core + ".status.require_size_determined(&"@ + core + "._id);"@
}

/// [`require_size_stmt_text`]
pub fn require_size_stmt_code(core: &str) -> (r: String)
    ensures
        r@ == require_size_stmt_text(core@),
{
    let mut t = String::from_str(core);
    t.append(".status.require_size_determined(&");
    t.append(core);
    t.append("._id);");
    proof {
        assert(t@ =~= require_size_stmt_text(core@));
    }
    t
}

/// The statement injected last into a user's `set_rect`
pub open spec fn set_sized_stmt_text(core: Seq<char>) -> Seq<char> {
    core + ".status.set_sized();"@
}

/// [`set_sized_stmt_text`]
pub fn set_sized_stmt_code(core: &str) -> (r: String)
    ensures
        r@ == set_sized_stmt_text(core@),
{
    let mut t = String::from_str(core);
    t.append(".status.set_sized();");
    proof {
        assert(t@ =~= set_sized_stmt_text(core@));
    }
    t
}

/// The statement injected into a user's `draw` whose draw parameter `draw` is mutable
pub open spec fn set_id_stmt_text(draw: Seq<char>) -> Seq<char> {
    draw + ".set_id(::kas::Tile::id(self));"@
}

/// [`set_id_stmt_text`]
pub fn set_id_stmt_code(draw: &str) -> (r: String)
    ensures
        r@ == set_id_stmt_text(draw@),
{
    let mut t = String::from_str(draw);
    t.append(".set_id(::kas::Tile::id(self));");
    proof {
        assert(t@ =~= set_id_stmt_text(draw@));
    }
    t
}

/// An impl of `trait_path` for `target` with impl generics `ig` holding `items`
pub open spec fn impl_block_text(ig: Seq<char>, trait_path: Seq<char>, target: Seq<char>, items: Seq<char>) -> Seq<char> {
    "impl "@ + ig + " "@ + trait_path + " for "@ + target + " { "@ + items + " }"@
}

/// [`impl_block_text`]
pub fn impl_block_code(ig: &str, trait_path: &str, target: &str, items: &str) -> (r: String)
    ensures
        r@ == impl_block_text(ig@, trait_path@, target@, items@),
{
    let mut t = String::from_str("impl ");
    t.append(ig);
    t.append(" ");
    t.append(trait_path);
    t.append(" for ");
    t.append(target);
    t.append(" { ");
    t.append(items);
    t.append(" }");
    proof {
        assert(t@ =~= impl_block_text(ig@, trait_path@, target@, items@));
    }
    t
}

/// The rules of `get_child` for the children (core at `core`)
pub open spec fn get_rules(children: Seq<Child>, core: Seq<char>) -> Seq<char>
    decreases children.len(),
{
    if children.len() == 0 {
        Seq::empty()
    } else {
        get_rules(children.drop_last(), core) + usize_lit(children.len() - 1) + " => Some("@ + child_path(
            children.last().ident,
            core,
        ) + ".as_tile()), "@
    }
}

/// The data a child is given: its binding, else the widget's data
pub open spec fn binding_text(c: Child) -> Seq<char> {
    match c.binding {
        Some(b) => b@,
        None => "data"@,
    }
}

/// The rules of `child_node` for the children (core at `core`)
pub open spec fn node_rules(children: Seq<Child>, core: Seq<char>) -> Seq<char>
    decreases children.len(),
{
    if children.len() == 0 {
        Seq::empty()
    } else {
        node_rules(children.drop_last(), core) + usize_lit(children.len() - 1) + " => Some("@ + child_path(
            children.last().ident,
            core,
        ) + ".as_node("@ + binding_text(children.last()) + ")), "@
    }
}

fn push_child_path(t: &mut String, c: &Child, core: &str)
    ensures
        final(t)@ == old(t)@ + child_path(c.ident, core@),
{
    match &c.ident {
        crate::macros::widget::ChildIdent::Field(m) => {
            t.append("self.");
            t.append(member_to_text(m).as_str());
        },
        crate::macros::widget::ChildIdent::CoreField(m) => {
            t.append(core);
            t.append(".");
            t.append(member_to_text(m).as_str());
        },
    }
}

/// The rules of `get_child` and of `child_node` for the children
pub fn child_rules(children: &Vec<Child>, core: &str) -> (r: (String, String))
    ensures
        r.0@ == get_rules(children@, core@),
        r.1@ == node_rules(children@, core@),
{
    let mut g = String::new();
    let mut n = String::new();
    let mut i: usize = 0;
    while i < children.len()
        invariant
            i <= children@.len(),
            g@ == get_rules(children@.take(i as int), core@),
            n@ == node_rules(children@.take(i as int), core@),
        decreases children@.len() - i,
    {
        let c = &children[i];
        push_usize_lit(&mut g, i);
        g.append(" => Some(");
        push_child_path(&mut g, c, core);
        g.append(".as_tile()), ");
        push_usize_lit(&mut n, i);
        n.append(" => Some(");
        push_child_path(&mut n, c, core);
        n.append(".as_node(");
        match &c.binding {
            Some(b) => n.append(b.as_str()),
            None => n.append("data"),
        }
        n.append(")), ");
        proof {
            let s = children@.take(i + 1);
            assert(s.drop_last() =~= children@.take(i as int));
            assert(s.last() == children@[i as int]);
            assert(g@ =~= get_rules(s, core@));
            assert(n@ =~= node_rules(s, core@));
        }
        i += 1;
    }
    proof {
        assert(children@.take(children@.len() as int) =~= children@);
    }
    (g, n)
}

/// What the generated methods depend on besides their kind
pub struct EmitCtx {
    /// The widget's name as a string literal (for `identify`)
    pub name_lit: String,
    /// The path of the core: `self.` and the core field
    pub core: String,
    /// The children (fields marked `#[widget]` and layout children)
    pub children: Vec<Child>,
    /// Source of the child functions
    pub child_fns: ChildFns,
    /// The field holding the collection (when the child functions come from
    /// it)
    pub collection: String,
    /// The generated `try_probe`
    pub probe: ProbeFn,
    /// The generated `draw`
    pub draw: DrawFn,
    /// The widget has a macro-defined layout
    pub has_layout: bool,
    /// The body of `try_probe` given by the layout
    pub layout_probe: String,
    /// The `nav_next` given by the layout, if any
    pub layout_nav_next: Option<String>,
    /// The data type
    pub data_ty: String,
}

/// The text of a generated method (or group of methods)
pub open spec fn method_text(m: WMethod, cx: EmitCtx) -> Seq<char> {
    let core = cx.core@;
    match m {
        WMethod::Rect => if cx.has_layout {
            rect_layout_text()
        } else {
            rect_core_text(core)
        },
        WMethod::SizeRules => size_rules_layout_text(core),
        WMethod::SetRect => if cx.has_layout {
            set_rect_layout_text(core)
        } else {
            set_rect_core_text(core)
        },
        WMethod::Draw => match cx.draw {
            DrawFn::WithOffset => draw_with_offset_text(),
            DrawFn::Layout => draw_layout_text(core),
            DrawFn::NoDraw => Seq::empty(),
        },
        WMethod::DrawWithOffset => Seq::empty(),
        WMethod::TryProbeWithOffset => try_probe_with_offset_text(core),
        WMethod::RequiredTile => tile_methods_text(cx.name_lit@, core),
        WMethod::Role => role_text(),
        WMethod::GetChild => match cx.child_fns {
            ChildFns::Children => get_child_text(get_rules(cx.children@, core)),
            ChildFns::FromCollection(_) => coll_get_child_text(cx.collection@),
            ChildFns::NoFns => Seq::empty(),
        },
        WMethod::ChildIndices => match cx.child_fns {
            ChildFns::Children => "#[inline] fn child_indices(&self) -> ::kas::ChildIndices { ::kas::ChildIndices::range(0.."@
                + usize_lit(cx.children@.len() as int) + ") }"@,
            ChildFns::FromCollection(_) => coll_child_indices_text(cx.collection@),
            ChildFns::NoFns => Seq::empty(),
        },
        WMethod::TryProbe => match cx.probe {
            ProbeFn::Default => try_probe_default_text(core),
            ProbeFn::Layout => try_probe_layout_text(core, cx.layout_probe@),
            ProbeFn::NoProbe => Seq::empty(),
        },
        WMethod::NavNext => match cx.layout_nav_next {
            Some(t) => t@,
            None => nav_next_default_text(),
        },
        WMethod::RecursiveNavNext => nav_next_recursive_text(),
        WMethod::HandleEvent => handle_event_text(core),
        WMethod::DataType => data_type_text(cx.data_ty@),
        WMethod::AsNode => "#[inline] fn as_node<'__a>(&'__a mut self, data: &'__a Self::Data) -> ::kas::Node<'__a> { ::kas::Node::new(self, data) }"@,
        WMethod::ChildNode => match cx.child_fns {
            ChildFns::Children => child_node_text(node_rules(cx.children@, core)),
            ChildFns::FromCollection(_) => coll_child_node_text(cx.collection@),
            ChildFns::NoFns => Seq::empty(),
        },
        WMethod::Recursive => recursive_text(core),
    }
}

/// The text of a generated method (see [`method_text`])
pub fn method_code(m: WMethod, cx: &EmitCtx) -> (r: String)
    ensures
        r@ == method_text(m, *cx),
{
    let core = cx.core.as_str();
    match m {
        WMethod::Rect => if cx.has_layout {
            rect_layout_code()
        } else {
            rect_core_code(core)
        },
        WMethod::SizeRules => size_rules_layout_code(core),
        WMethod::SetRect => if cx.has_layout {
            set_rect_layout_code(core)
        } else {
            set_rect_core_code(core)
        },
        WMethod::Draw => match cx.draw {
            DrawFn::WithOffset => draw_with_offset_code(),
            DrawFn::Layout => draw_layout_code(core),
            DrawFn::NoDraw => String::new(),
        },
        WMethod::DrawWithOffset => String::new(),
        WMethod::TryProbeWithOffset => try_probe_with_offset_code(core),
        WMethod::RequiredTile => crate::macros::widget::required_tile_methods(cx.name_lit.as_str(), core),
        WMethod::Role => role_code(),
        WMethod::GetChild => match cx.child_fns {
            ChildFns::Children => {
                let (g, _) = child_rules(&cx.children, core);
                get_child_code(g.as_str())
            },
            ChildFns::FromCollection(_) => coll_get_child_code(cx.collection.as_str()),
            ChildFns::NoFns => String::new(),
        },
        WMethod::ChildIndices => match cx.child_fns {
            ChildFns::Children => {
                let mut t = String::from_str(
                    "#[inline] fn child_indices(&self) -> ::kas::ChildIndices { ::kas::ChildIndices::range(0..",
                );
                push_usize_lit(&mut t, cx.children.len());
                t.append(") }");
                t
            },
            ChildFns::FromCollection(_) => coll_child_indices_code(cx.collection.as_str()),
            ChildFns::NoFns => String::new(),
        },
        WMethod::TryProbe => match cx.probe {
            ProbeFn::Default => try_probe_default_code(core),
            ProbeFn::Layout => try_probe_layout_code(core, cx.layout_probe.as_str()),
            ProbeFn::NoProbe => String::new(),
        },
        WMethod::NavNext => match &cx.layout_nav_next {
            Some(t) => crate::macros::tokens::copy_string(t),
            None => nav_next_default_code(),
        },
        WMethod::RecursiveNavNext => widget_nav_next(),
        WMethod::HandleEvent => handle_event_code(core),
        WMethod::DataType => data_type_code(cx.data_ty.as_str()),
        WMethod::AsNode => crate::macros::widget::widget_as_node(),
        WMethod::ChildNode => match cx.child_fns {
            ChildFns::Children => {
                let (_, n) = child_rules(&cx.children, core);
                child_node_code(n.as_str())
            },
            ChildFns::FromCollection(_) => coll_child_node_code(cx.collection.as_str()),
            ChildFns::NoFns => String::new(),
        },
        WMethod::Recursive => widget_recursive_methods(core),
    }
}

/// The texts of generated methods, each followed by a space
pub open spec fn methods_text(ms: Seq<WMethod>, cx: EmitCtx) -> Seq<char>
    decreases ms.len(),
{
    if ms.len() == 0 {
        Seq::empty()
    } else {
        methods_text(ms.drop_last(), cx) + method_text(ms.last(), cx) + " "@
    }
}

/// A generated impl of `trait_path` for `target` (impl generics `ig`)
/// holding the methods `ms`
pub fn generated_impl(ig: &str, trait_path: &str, target: &str, ms: &Vec<WMethod>, cx: &EmitCtx) -> (r: String)
    ensures
        r@ == impl_block_text(ig@, trait_path@, target@, methods_text(ms@, *cx)),
{
    let mut items = String::new();
    let mut i: usize = 0;
    while i < ms.len()
        invariant
            i <= ms@.len(),
            items@ == methods_text(ms@.take(i as int), *cx),
        decreases ms@.len() - i,
    {
        let m = method_code(ms[i], cx);
        items.append(m.as_str());
        items.append(" ");
        proof {
            let s = ms@.take(i + 1);
            assert(s.drop_last() =~= ms@.take(i as int));
            assert(items@ =~= methods_text(s, *cx));
        }
        i += 1;
    }
    proof {
        assert(ms@.take(ms@.len() as int) =~= ms@);
    }
    impl_block_code(ig, trait_path, target, items.as_str())
}

/// The widget's data type as text: that of the impl's `type Data`, that of
/// the collection field, or `()`; none when missing
pub open spec fn data_ty_text(data: DataTy, impls: Seq<ImplDesc>, fields: Seq<DefField>) -> Option<Seq<char>> {
    match data {
        DataTy::Explicit(i) => if i < impls.len() && impls[i as int].data_ty is Some {
            Some(impls[i as int].data_ty->0@)
        } else {
            None
        },
        DataTy::Collection(c) => if c < fields.len() {
            Some(collection_data_text(fields[c as int].ty@))
        } else {
            None
        },
        DataTy::Unit => Some("()"@),
        DataTy::Missing => None,
    }
}

/// The widget's data type as text (see [`data_ty_text`])
pub fn data_ty_code(data: DataTy, impls: &Vec<ImplDesc>, fields: &Vec<DefField>) -> (r: Option<String>)
    ensures
        match data_ty_text(data, impls@, fields@) {
            Some(t) => r matches Some(s) && s@ == t,
            None => r is None,
        },
{
    match data {
        DataTy::Explicit(i) => if i < impls.len() {
            match &impls[i].data_ty {
                Some(t) => Some(crate::macros::tokens::copy_string(t)),
                None => None,
            }
        } else {
            None
        },
        DataTy::Collection(c) => if c < fields.len() {
            Some(collection_data_code(fields[c].ty.as_str()))
        } else {
            None
        },
        DataTy::Unit => Some(String::from_str("()")),
        DataTy::Missing => None,
    }
}

/// The attribute marks a child (`#[widget]`, in any form, or
/// `#[collection]`)
pub open spec fn is_child_attr(a: ChildAttr) -> bool {
    a is Widget || a is WidgetBadDelimiter || a is Collection
}

/// The indices of the attributes a field keeps, among its first `n`: all
/// but the first one which marks a child (that one `#[widget]` reads and
/// removes)
pub open spec fn kept_attrs_spec(attrs: Seq<ChildAttr>, n: int) -> Seq<usize>
    decreases n,
{
    if n <= 0 {
        Seq::empty()
    } else {
        let before = kept_attrs_spec(attrs, n - 1);
        if is_child_attr(attrs[n - 1]) && !(exists|j: int| 0 <= j < n - 1 && is_child_attr(#[trigger] attrs[j])) {
            before
        } else {
            before.push((n - 1) as usize)
        }
    }
}

/// The indices of the attributes a field keeps (see [`kept_attrs_spec`])
pub fn kept_attrs(attrs: &Vec<ChildAttr>) -> (r: Vec<usize>)
    ensures
        r@ == kept_attrs_spec(attrs@, attrs@.len() as int),
{
    let mut r: Vec<usize> = Vec::new();
    let mut seen = false;
    let mut i: usize = 0;
    while i < attrs.len()
        invariant
            i <= attrs@.len(),
            r@ == kept_attrs_spec(attrs@, i as int),
            seen == (exists|j: int| 0 <= j < i && is_child_attr(#[trigger] attrs@[j])),
        decreases attrs@.len() - i,
    {
        let child = match &attrs[i] {
            ChildAttr::Widget(_) | ChildAttr::WidgetBadDelimiter | ChildAttr::Collection => true,
            ChildAttr::Other => false,
        };
        if !(child && !seen) {
            r.push(i);
        }
        proof {
            if child {
                assert(is_child_attr(attrs@[i as int]));
            }
        }
        seen = seen || child;
        i += 1;
    }
    r
}

/// The texts of the methods added by `actions`, in order
pub open spec fn added_text(actions: Seq<Action>, cx: EmitCtx) -> Seq<Seq<char>>
    decreases actions.len(),
{
    if actions.len() == 0 {
        Seq::empty()
    } else {
        let before = added_text(actions.drop_last(), cx);
        match actions.last() {
            Action::Add(m) => before.push(method_text(m, cx)),
            _ => before,
        }
    }
}

/// The methods to add to a user's impl, as `actions` plan them (the
/// statements of `Modify` actions depend on the user's method and are
/// given by [`size_rules_stmt_code`] and its siblings)
pub fn added_methods(actions: &Vec<Action>, cx: &EmitCtx) -> (r: Vec<String>)
    ensures
        r@.map_values(|t: String| t@) == added_text(actions@, *cx),
{
    let mut r: Vec<String> = Vec::new();
    let mut i: usize = 0;
    while i < actions.len()
        invariant
            i <= actions@.len(),
            r@.map_values(|t: String| t@) == added_text(actions@.take(i as int), *cx),
        decreases actions@.len() - i,
    {
        let ghost before = r@;
        match actions[i] {
            Action::Add(m) => {
                let t = method_code(m, cx);
                r.push(t);
            },
            _ => {},
        }
        proof {
            let s = actions@.take(i + 1);
            assert(s.drop_last() =~= actions@.take(i as int));
            assert(r@.map_values(|t: String| t@) =~= added_text(s, *cx));
        }
        i += 1;
    }
    proof {
        assert(actions@.take(actions@.len() as int) =~= actions@);
    }
    r
}

/// The impl a plan generates for `trait_path`: its methods in an impl for
/// `target` (impl generics `ig`) when the plan generates one, else none
/// (the plan extends the user's impl, or nothing is needed)
pub fn plan_impl(plan: &WImplPlan, ig: &str, trait_path: &str, target: &str, cx: &EmitCtx) -> (r: Option<String>)
    ensures
        match plan {
            WImplPlan::Generate(ms) => r matches Some(t) && t@ == impl_block_text(
                ig@,
                trait_path@,
                target@,
                methods_text(ms@, *cx),
            ),
            _ => r is None,
        },
{
    match plan {
        WImplPlan::Generate(ms) => Some(generated_impl(ig, trait_path, target, ms, cx)),
        _ => None,
    }
}

/// The generated children functions agree: for children planned from the
/// fields and layout, `child_indices` is `0..k` for `k` children, and
/// `get_child` and `child_node` hold one rule for each index below `k`, in
/// order, reaching the same child.
pub proof fn law_child_functions_agree(cx: EmitCtx, i: int)
    requires
        cx.child_fns == ChildFns::Children,
        0 <= i < cx.children@.len(),
    ensures
        method_text(WMethod::ChildIndices, cx)
            == "#[inline] fn child_indices(&self) -> ::kas::ChildIndices { ::kas::ChildIndices::range(0.."@
            + usize_lit(cx.children@.len() as int) + ") }"@,
        ({
            let c = cx.children@;
            let core = cx.core@;
            &&& get_rules(c, core) == get_rules(c.take(i), core) + usize_lit(i) + " => Some("@ + child_path(
                c[i].ident,
                core,
            ) + ".as_tile()), "@ + get_rules(c, core).skip(get_rules(c.take(i + 1), core).len() as int)
            &&& get_rules(c.take(i + 1), core) == get_rules(c.take(i), core) + usize_lit(i) + " => Some("@
                + child_path(c[i].ident, core) + ".as_tile()), "@
            &&& node_rules(c.take(i + 1), core) == node_rules(c.take(i), core) + usize_lit(i) + " => Some("@
                + child_path(c[i].ident, core) + ".as_node("@ + binding_text(c[i]) + ")), "@
        }),
{
    let c = cx.children@;
    let core = cx.core@;
    assert(c.take(i + 1).drop_last() =~= c.take(i));
    lemma_rules_prefix(c, core, i + 1);
}

proof fn lemma_rules_prefix(c: Seq<Child>, core: Seq<char>, n: int)
    requires
        0 <= n <= c.len(),
    ensures
        get_rules(c, core) == get_rules(c.take(n), core) + get_rules(c, core).skip(get_rules(c.take(n), core).len() as int),
        get_rules(c.take(n), core).len() <= get_rules(c, core).len(),
        get_rules(c, core).subrange(0, get_rules(c.take(n), core).len() as int) == get_rules(c.take(n), core),
    decreases c.len() - n,
{
    if n == c.len() {
        assert(c.take(n) =~= c);
        assert(get_rules(c, core).skip(get_rules(c, core).len() as int) =~= Seq::<char>::empty());
        assert(get_rules(c, core) + Seq::<char>::empty() =~= get_rules(c, core));
        assert(get_rules(c, core).subrange(0, get_rules(c, core).len() as int) =~= get_rules(c, core));
    } else {
        lemma_rules_prefix(c, core, n + 1);
        let p = c.take(n + 1);
        assert(p.drop_last() =~= c.take(n));
        let full = get_rules(c, core);
        let a = get_rules(c.take(n), core);
        let b = get_rules(p, core);
        assert(b.subrange(0, a.len() as int) =~= a);
        assert(full.subrange(0, a.len() as int) =~= b.subrange(0, a.len() as int));
        assert(full =~= a + full.skip(a.len() as int));
    }
}

} // verus!
