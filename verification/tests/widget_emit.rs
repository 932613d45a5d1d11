use kas_verified::macros::autoimpl::Member;
use kas_verified::macros::scope::{ImplDesc, TraitKind};
use kas_verified::macros::widget::{
    Action, Child, ChildAttr, ChildFns, ChildIdent, DataTy, DefField, DrawFn, ProbeFn, WImplPlan, WMethod,
};
use kas_verified::macros::widget_emit::{
    added_methods, child_rules, core_type_code, kept_attrs, plan_impl, data_ty_code, generated_impl, macro_layout_impl_code, method_code,
    set_id_stmt_code, size_rules_stmt_code, EmitCtx,
};

fn ctx() -> EmitCtx {
    EmitCtx {
        name_lit: "\"W\"".to_string(),
        core: "self.core".to_string(),
        children: vec![
            Child { ident: ChildIdent::Field(Member::Named("a".to_string())), binding: None },
            Child { ident: ChildIdent::CoreField(Member::Named("_stor0".to_string())), binding: Some("&()".to_string()) },
        ],
        child_fns: ChildFns::Children,
        collection: String::new(),
        probe: ProbeFn::Default,
        draw: DrawFn::Layout,
        has_layout: true,
        layout_probe: "{ None }".to_string(),
        layout_nav_next: None,
        data_ty: "()".to_string(),
    }
}

#[test]
fn child_rules_of_fields_and_core_children() {
    let (get, node) = child_rules(&ctx().children, "self.core");
    assert_eq!(get, "0usize => Some(self.a.as_tile()), 1usize => Some(self.core._stor0.as_tile()), ");
    assert_eq!(node, "0usize => Some(self.a.as_node(data)), 1usize => Some(self.core._stor0.as_node(&())), ");
}

#[test]
fn generated_methods() {
    let cx = ctx();
    assert_eq!(
        method_code(WMethod::ChildIndices, &cx),
        "#[inline] fn child_indices(&self) -> ::kas::ChildIndices { ::kas::ChildIndices::range(0..2usize) }"
    );
    assert_eq!(
        method_code(WMethod::Rect, &cx),
        "#[inline] fn rect(&self) -> ::kas::geom::Rect { ::kas::MacroDefinedLayout::rect(self) }"
    );
    assert!(method_code(WMethod::Draw, &cx).contains("self.core.status.require_rect(&self.core._id); ::kas::MacroDefinedLayout::draw(self, draw);"));
    assert!(method_code(WMethod::TryProbe, &cx).ends_with("self.rect().contains(coord).then(|| ::kas::Events::probe(self, coord)) }"));
    assert_eq!(
        method_code(WMethod::NavNext, &cx),
        "fn nav_next(&self, reverse: bool, from: Option<usize>) -> Option<usize> { ::kas::util::nav_next(reverse, from, self.child_indices()) }"
    );
    assert!(method_code(WMethod::GetChild, &cx).contains("match index { 0usize => Some(self.a.as_tile()), "));
    assert!(method_code(WMethod::Recursive, &cx).contains("self.core._id = id;"));
    assert_eq!(method_code(WMethod::DataType, &cx), "type Data = ();");

    let mut cx = ctx();
    cx.has_layout = false;
    cx.child_fns = ChildFns::FromCollection(0);
    cx.collection = "list".to_string();
    cx.probe = ProbeFn::Layout;
    cx.layout_nav_next = Some("fn nav_next() {}".to_string());
    assert_eq!(method_code(WMethod::Rect, &cx), "#[inline] fn rect(&self) -> ::kas::geom::Rect { self.core._rect }");
    assert!(method_code(WMethod::SetRect, &cx).contains("self.core._rect = rect;"));
    assert_eq!(
        method_code(WMethod::GetChild, &cx),
        "fn get_child(&self, index: usize) -> Option<&dyn ::kas::Tile> { self.list.get_tile(index) }"
    );
    assert!(method_code(WMethod::TryProbe, &cx).ends_with("self.core.status.require_rect(&self.core._id); { None } }"));
    assert_eq!(method_code(WMethod::NavNext, &cx), "fn nav_next() {}");
    cx.child_fns = ChildFns::NoFns;
    assert_eq!(method_code(WMethod::ChildNode, &cx), "");
}

#[test]
fn generated_impls_and_statements() {
    let cx = ctx();
    let imp = generated_impl("<T>", "::kas::Events", "W<T>", &vec![WMethod::HandleEvent], &cx);
    assert_eq!(
        imp,
        "impl <T> ::kas::Events for W<T> { fn handle_event(&mut self, _: &mut ::kas::event::EventCx, _: &Self::Data, \
         _: ::kas::event::Event) -> ::kas::event::IsUsed { self.core.status.require_rect(&self.core._id); \
         ::kas::event::Unused }  }"
    );
    let layout = macro_layout_impl_code("", "W", "self.core._rect", "SR", "self.core._rect = rect;", "SET", "DRAW");
    assert!(layout.starts_with("impl  ::kas::MacroDefinedLayout for W { #[inline] fn rect(&self) -> ::kas::geom::Rect { self.core._rect } "));
    assert!(layout.contains("{ self.core._rect = rect; SET }"));
    assert!(layout.ends_with("draw.set_id(::kas::Tile::id(self)); DRAW } }"));
    let core = core_type_code("_WCoreTy", "_stor0: S,", "_stor0: Default::default(),");
    assert!(core.starts_with("struct _WCoreTy { _rect: ::kas::geom::Rect, _id: ::kas::Id, status: ::kas::WidgetStatus, _stor0: S, }"));
    assert!(core.contains("_WCoreTy { _rect: self._rect, .. _WCoreTy::default() }"));
    assert_eq!(size_rules_stmt_code("self.core", "axis"), "self.core.status.size_rules(&self.core._id, axis);");
    assert_eq!(set_id_stmt_code("draw"), "draw.set_id(::kas::Tile::id(self));");
}

#[test]
fn data_type_texts() {
    let impls = vec![ImplDesc { trait_: TraitKind::Events, items: vec![], data_ty: Some("u32".to_string()) }];
    let fields = vec![DefField { member: Member::Named("list".to_string()), ty: "C".to_string(), is_core: false, attrs: vec![] }];
    assert_eq!(data_ty_code(DataTy::Explicit(0), &impls, &fields), Some("u32".to_string()));
    assert_eq!(
        data_ty_code(DataTy::Collection(0), &impls, &fields),
        Some("<C as ::kas::Collection>::Data".to_string())
    );
    assert_eq!(data_ty_code(DataTy::Unit, &impls, &fields), Some("()".to_string()));
    assert_eq!(data_ty_code(DataTy::Missing, &impls, &fields), None);
}

#[test]
fn widget_attributes_stripped() {
    let attrs = vec![ChildAttr::Other, ChildAttr::Widget(None), ChildAttr::Other, ChildAttr::Collection];
    // the first child attribute is read and removed; the others stay
    assert_eq!(kept_attrs(&attrs), vec![0, 2, 3]);
    assert_eq!(kept_attrs(&vec![ChildAttr::Other]), vec![0]);
}

#[test]
fn plans_become_impls() {
    let cx = ctx();
    let gen = WImplPlan::Generate(vec![WMethod::ChildIndices, WMethod::GetChild]);
    let imp = plan_impl(&gen, "", "::kas::Tile", "W", &cx).unwrap();
    assert!(imp.starts_with("impl  ::kas::Tile for W { #[inline] fn child_indices(&self) -> ::kas::ChildIndices { ::kas::ChildIndices::range(0..2usize) } fn get_child"));
    assert!(imp.contains("0usize => Some(self.a.as_tile()), 1usize => Some(self.core._stor0.as_tile()), _ => None,"));
    assert_eq!(plan_impl(&WImplPlan::Nothing, "", "::kas::Tile", "W", &cx), None);
    let added = added_methods(&vec![Action::Add(WMethod::Role), Action::RemoveData, Action::Modify(WMethod::Draw)], &cx);
    assert_eq!(added, vec![method_code(WMethod::Role, &cx)]);
}
