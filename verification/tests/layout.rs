use kas_verified::macros::autoimpl::Member;
use kas_verified::macros::collection::{CellInfo, GridDimensions};
use kas_verified::macros::extends::{Extends, ExtendsError};
use kas_verified::macros::scope::{collect_idents, ImplDesc, ImplItem, ItemKind, TraitKind};
use kas_verified::macros::widget::{required_tile_methods, widget_as_node};
use kas_verified::macros::layout::{data_type, LayoutArgs, LayoutChild, LayoutError, LayoutType};
use kas_verified::macros::make_layout::{Layout, LayoutDir, NavError, Tree};
use kas_verified::macros::singleton::{
    make_widget_plan, singleton_plan, ChildType, GenericParam, ParamKind, SingletonField, StructStyle,
};
use kas_verified::macros::tokens::Tok;
use kas_verified::macros::widget::{Child, ChildIdent};

fn ident(s: &str) -> Tok {
    Tok::Ident(s.to_string())
}

fn norm(s: &str) -> String {
    s.split_whitespace().collect::<Vec<_>>().join(" ")
}

fn child(name: &str, pos: Option<(u32, u32, u32, u32)>) -> LayoutChild {
    LayoutChild { ident: name.to_string(), pos, halign: None, valign: None }
}

#[test]
fn layout_types_of_rows_and_grids() {
    let row = LayoutArgs { layout: LayoutType::Right, draw: None };
    let kids = vec![child("a", None), child("b", None), child("c", None)];
    let (st, solver, setter) = data_type(&kids, &row).unwrap();
    assert_eq!(st, "::kas::layout::FixedRowStorage::<3usize>");
    assert_eq!(solver, "::kas::layout::RowSolver::<::kas::layout::FixedRowStorage::<3usize>>");
    assert_eq!(
        setter,
        "::kas::layout::RowSetter::<::kas::dir::Right, [i32; 3usize], ::kas::layout::FixedRowStorage::<3usize>>"
    );

    let grid = LayoutArgs { layout: LayoutType::Grid, draw: None };
    let cells = vec![child("a", Some((0, 0, 2, 1))), child("b", Some((1, 1, 1, 3)))];
    let (st, solver, _) = data_type(&cells, &grid).unwrap();
    assert_eq!(st, "::kas::layout::FixedGridStorage::<2usize, 4usize>");
    assert_eq!(
        solver,
        "::kas::layout::GridSolver::<[(::kas::layout::SizeRules, u32, u32); 1usize], \
         [(::kas::layout::SizeRules, u32, u32); 1usize], ::kas::layout::FixedGridStorage::<2usize, 4usize>>"
    );
}

#[test]
fn layout_errors() {
    let single = LayoutArgs { layout: LayoutType::Single, draw: None };
    let two = vec![child("a", None), child("b", None)];
    assert_eq!(data_type(&two, &single), Err(LayoutError::ExpectedSingle(2)));
    let grid = LayoutArgs { layout: LayoutType::Grid, draw: None };
    let cells = vec![child("a", Some((0, 0, 1, 1))), child("b", None)];
    assert_eq!(data_type(&cells, &grid), Err(LayoutError::MissingPosition(1)));
    assert_eq!(kas_verified::macros::layout::derive(&"core".to_string(), &cells, &grid), Err(LayoutError::MissingPosition(1)));
}

#[test]
fn layout_derive_single() {
    let single = LayoutArgs { layout: LayoutType::Single, draw: Some("draw_custom".to_string()) };
    let mut c = child("inner", None);
    c.halign = Some("Align::Center".to_string());
    let out = kas_verified::macros::layout::derive(&"core".to_string(), &vec![c], &single).unwrap();
    assert!(out.contains("let (data, _) = self.core.layout.storage::<()>();"));
    assert!(out.contains("solver.for_child(data, (), |axis| child.size_rules(sh, axis));"));
    assert!(out.contains("align2.horiz = Some(Align::Center);"));
    assert!(out.contains("{ self.draw_custom(draw, mgr, disabled); }"));
    assert!(!out.contains("self.inner.draw("));
}

#[test]
fn singleton_fields_and_generics() {
    let fields = vec![
        SingletonField {
            ident: Some("a".to_string()),
            is_widget: true,
            ty: ChildType::Generic(None),
            value: Some(vec![ident("x")]),
        },
        SingletonField {
            ident: None,
            is_widget: false,
            ty: ChildType::InternGeneric(
                vec![GenericParam { kind: ParamKind::Type, ident: "T".to_string(), rest: vec![] }],
                vec![ident("Vec"), Tok::Punct("<".to_string(), false), ident("T"), Tok::Punct(">".to_string(), false)],
            ),
            value: None,
        },
        SingletonField {
            ident: None,
            is_widget: false,
            ty: ChildType::Generic(Some(vec![vec![ident("Clone")]])),
            value: None,
        },
    ];
    let plan = singleton_plan(StructStyle::Regular, &fields);
    assert_eq!(plan.fields[0].ident.as_deref(), Some("a"));
    assert_eq!(plan.fields[0].ty, "_Field0");
    assert_eq!(plan.fields[1].ident.as_deref(), Some("_field1"));
    assert_eq!(norm(&plan.fields[1].ty), "Vec < _Field1T >");
    assert_eq!(plan.fields[2].ty, "_Field2");
    assert_eq!(plan.params.len(), 3);
    assert_eq!(plan.params[0], "_Field0: ::kas::Widget");
    assert_eq!(norm(&plan.params[1]), "_Field1T");
    assert_eq!(norm(&plan.params[2]), "_Field2: Clone");
    assert_eq!(
        norm(&plan.values),
        "a: x , _field1: Default::default(), _field2: Default::default(),"
    );

    let tuple = singleton_plan(StructStyle::Tuple, &fields);
    assert_eq!(tuple.fields[1].ident, None);
    assert_eq!(norm(&tuple.values), "0: x , 1: Default::default(), 2: Default::default(),");

    let mw = make_widget_plan(&fields);
    assert_eq!(mw.fields[1].ident.as_deref(), Some("mw_anon_1"));
    assert_eq!(mw.fields[0].ty, "MWAnon0");
    assert_eq!(norm(&mw.fields[1].ty), "Vec < T >");
    assert_eq!(mw.params[0], "MWAnon0: ::kas::Widget");
    // a generic non-widget field keeps no bound
    assert_eq!(mw.params[2], "MWAnon2");
}

fn field_child(name: &str) -> Child {
    Child { ident: ChildIdent::Field(Member::Named(name.to_string())), binding: None }
}

fn sample_tree() -> Tree {
    Tree(Layout::List(
        "_stor0".to_string(),
        LayoutDir::Left,
        vec![
            Layout::Single(Member::Named("a".to_string())),
            Layout::Frame(
                "_stor1".to_string(),
                Box::new(Layout::Widget("_stor2".to_string(), vec![ident("button")])),
                vec![ident("style")],
                vec![ident("bg")],
            ),
            Layout::Label("_stor3".to_string(), "\"Hi\"".to_string()),
        ],
    ))
}

#[test]
fn layout_tree_fields_and_navigation() {
    let tree = sample_tree();
    let mut children = vec![field_child("x"), field_child("a")];
    let (ty, def) = tree.storage_fields(&mut children);
    assert_eq!(
        ty,
        "_stor0: ::kas::layout::FixedRowStorage<3usize>, _stor1: ::kas::layout::FrameStorage, \
         _stor2: Box<dyn ::kas::Widget<Data = ()>>, _stor3: ::kas::hidden::StrLabel, "
    );
    assert_eq!(
        def,
        "_stor0: Default::default(), _stor1: Default::default(), _stor2: Box::new(button ), \
         _stor3: ::kas::hidden::StrLabel::new(\"Hi\"), "
    );
    assert_eq!(children.len(), 4);
    // a leftward list reverses the order: label is not navigable
    assert_eq!(tree.0.nav_next(&children), Ok(vec![2, 1]));
    let nav = tree.nav_next(&children).unwrap();
    assert!(nav.contains("let mut iter = [2usize, 1usize].into_iter();"));
    let probe = tree.try_probe("self.core");
    assert_eq!(
        probe,
        "if let Some(id) = ::kas::Layout::try_probe(&self.a, coord) { Some(id) } else \
         if let Some(id) = ::kas::Layout::try_probe(&self.core._stor2, coord) { Some(id) } else \
         if let Some(id) = ::kas::Layout::try_probe(&self.core._stor3, coord) { Some(id) } else { None }"
    );
}

#[test]
fn layout_tree_code() {
    let tree = sample_tree();
    let draw = tree.draw("self.core");
    assert_eq!(
        draw,
        "::kas::Layout::draw(&self.a, draw.re()); draw.frame(self.core._stor1.rect, style , bg ); \
         ::kas::Layout::draw(&self.core._stor2, draw.re()); ::kas::Layout::draw(&self.core._stor3, draw.re()); "
    );
    let size = tree.size_rules("self.core");
    assert!(size.starts_with(
        "let dim = (::kas::dir::Left, 3usize); let mut solver = ::kas::layout::RowSolver::new(axis, dim, &mut self.core._stor0); "
    ));
    assert!(size.contains("&mut self.core._stor0, 2usize, |axis| { let sizer = sizer.re(); ::kas::Layout::size_rules(&mut self.core._stor3, sizer, axis) }); }"));
    assert!(size.ends_with("::kas::layout::RulesSolver::finish(solver, &mut self.core._stor0)"));
    let set = tree.set_rect("self.core");
    assert!(set.contains("{ self.core._stor1.rect = rect; let rect = ::kas::geom::Rect { pos: rect.pos + self.core._stor1.offset, size: rect.size - self.core._stor1.size, }; ::kas::Layout::set_rect(&mut self.core._stor2, cx, rect, hints);  }"));
}

#[test]
fn layout_grid_and_errors() {
    let cell = CellInfo { col: 0, last_col: 0, row: 1, last_row: 1 };
    let dim = GridDimensions { cols: 1, col_spans: 0, rows: 2, row_spans: 0 };
    let grid = Tree(Layout::Grid("_stor0".to_string(), dim, vec![(cell, Layout::Single(Member::Unnamed(0)))]));
    let set = grid.set_rect("c");
    assert!(set.starts_with("let dim = ::kas::layout::GridDimensions { cols: 1u32, col_spans: 0u32, rows: 2u32, row_spans: 0u32, };"));
    assert!(set.contains("::kas::layout::GridCellInfo { col: 0u32, last_col: 0u32, row: 1u32, last_row: 1u32, }"));
    let children = vec![Child { ident: ChildIdent::Field(Member::Unnamed(0)), binding: None }];
    assert_eq!(grid.0.nav_next(&children), Ok(vec![0]));

    let non_static = Layout::List(
        "_stor0".to_string(),
        LayoutDir::Expr(vec![ident("dir")]),
        vec![Layout::Single(Member::Named("a".to_string())), Layout::Single(Member::Named("b".to_string()))],
    );
    let kids = vec![field_child("a"), field_child("b")];
    assert_eq!(non_static.nav_next(&kids), Err(NavError::NonStaticDirection));
    // a single navigable child needs no static direction
    assert_eq!(non_static.nav_next(&vec![field_child("b")]), Ok(vec![0]));
}

#[test]
fn extends_theme_draw() {
    let toks = vec![ident("ThemeDraw"), ident("using"), ident("base")];
    let e = Extends::parse(&toks).unwrap();
    assert_eq!(e, Extends::ThemeDraw { base: vec![ident("base")] });
    assert_eq!(Extends::parse(&vec![ident("Other")]), Err(ExtendsError::ExpectedThemeDraw));
    assert_eq!(Extends::parse(&vec![ident("ThemeDraw")]), Err(ExtendsError::ExpectedBase));
    let punct = |c: &str| Tok::Punct(c.to_string(), false);
    // the documented form `ThemeDraw, base = self.base()`
    let doc = vec![
        ident("ThemeDraw"),
        punct(","),
        ident("base"),
        punct("="),
        ident("self"),
        punct("."),
        ident("base"),
        Tok::Open("(".to_string()),
        Tok::Close(")".to_string()),
    ];
    let e2 = Extends::parse(&doc).unwrap();
    assert_eq!(e2, Extends::ThemeDraw { base: doc[4..].to_vec() });
    assert_eq!(
        Extends::parse(&doc[..4].to_vec()),
        Err(ExtendsError::ExpectedExpression)
    );
    assert_eq!(Extends::parse(&vec![ident("ThemeDraw"), ident("using")]), Err(ExtendsError::ExpectedExpression));
    let all = e.extend(&vec![]);
    assert_eq!(all.len(), 16);
    assert_eq!(all[1], "fn get_clip_rect(&mut self) -> Rect { (base ).get_clip_rect() }");
    let some = e.extend(&vec!["frame".to_string(), "image".to_string()]);
    assert_eq!(some.len(), 14);
    assert!(some.iter().all(|m| !m.starts_with("fn frame(") && !m.starts_with("fn image(")));
}

#[test]
fn extends_completes_impl_keeping_its_items() {
    let e = Extends::ThemeDraw { base: vec![ident("base")] };
    let head = "impl ThemeDraw for DrawHandle<'_>".to_string();
    let items = vec![
        "fn frame(&mut self, id: &Id, rect: Rect, style: FrameStyle, bg: Background) { todo_frame() }".to_string(),
        "type Extra = ();".to_string(),
    ];
    let names = vec!["frame".to_string()];
    let out = e.extend_impl(&head, &items, &names);
    let prefix = format!("{} {{ {} {} ", head, items[0], items[1]);
    assert!(out.starts_with(&prefix));
    assert!(out.ends_with("} }"));
    // the user's frame is kept and no forwarding frame is added
    assert_eq!(out.matches("fn frame(").count(), 1);
    assert_eq!(out.matches("fn image(").count(), 1);
    assert!(out.contains("fn image(&mut self, id: ImageId, rect: Rect) { (base ).image(id, rect); }"));
    // every other method of the trait appears once, after the user's items
    let added = e.extend(&names);
    assert_eq!(added.len(), 15);
    let mut expected = prefix.clone();
    for m in &added {
        expected.push_str(m);
        expected.push(' ');
    }
    expected.push('}');
    assert_eq!(out, expected);
}

#[test]
fn widget_helpers() {
    let imp = ImplDesc {
        trait_: TraitKind::Widget,
        items: vec![
            ImplItem { kind: ItemKind::Fn, name: "a".to_string() },
            ImplItem { kind: ItemKind::Other, name: "c".to_string() },
            ImplItem { kind: ItemKind::Type, name: "Data".to_string() },
        ],
        data_ty: None,
    };
    assert_eq!(collect_idents(&imp), vec![(0, "a".to_string()), (2, "Data".to_string())]);
    let t = required_tile_methods("\"Foo\"", "self.core");
    assert!(t.contains("{ self.core.status }"));
    assert!(t.contains("&self.core._id }"));
    assert!(t.contains("IdentifyWidget::simple(\"Foo\", self.id_ref())"));
    assert!(widget_as_node().contains("::kas::Node::new(self, data)"));
    let f = ChildIdent::Field(Member::Unnamed(2));
    assert_eq!(f.get_rule("self.core", 3), "3usize => Some(self.2.as_tile()), ");
    let c = Child::new_core(Member::Named("_stor1".to_string()));
    assert_eq!(c.ident.get_rule("self.core", 0), "0usize => Some(self.core._stor1.as_tile()), ");
    assert_eq!(c.binding.as_deref(), Some("&()"));
}
