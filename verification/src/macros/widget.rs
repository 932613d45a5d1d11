//! The `#[widget]` attribute: what it reads of the widget's scope, and the
//! plan of what it generates, adds to the user's impls, or reports.
//!
//! The generated method bodies are fixed per method; what depends on the
//! input is which methods are generated where, the widget's children and
//! data type, and the diagnostics.

use crate::macros::autoimpl::{member_eq, member_text, member_to_text, Member};
use crate::macros::collection::{push_usize_lit, usize_lit};
use crate::macros::derive::{copy_member, opt_text_eq, ItemShape};
use crate::macros::scope::{find_impl, first_impl, has_item, impl_has_item, ImplDesc, ItemKind, TraitKind};
use crate::macros::autoimpl::{member_of, parse_member};
use crate::macros::tokens::{copy_string, is_ident, is_ident_spec, is_punct, is_punct_spec, text_eq, Tok};
use vstd::prelude::*;

verus! {

/// A field attribute, as far as `#[widget]` reads it
#[derive(Clone, Debug, PartialEq, Eq)]
pub enum ChildAttr {
    /// `#[widget]` (no binding), `#[widget(expr)]` or `#[widget = expr]`
    Widget(Option<String>),
    /// `#[widget[..]]` or `#[widget{..}]`
    WidgetBadDelimiter,
    /// `#[collection]`
    Collection,
    /// Any other attribute
    Other,
}

/// A field of the widget struct
#[derive(Clone, Debug, PartialEq, Eq)]
pub struct DefField {
    pub member: Member,
    pub ty: String,
    /// The field's type is `widget_core!()`
    pub is_core: bool,
    pub attrs: Vec<ChildAttr>,
}

/// What the widget's `layout` (if any) contributes
#[derive(Clone, Debug, PartialEq, Eq)]
pub struct LayoutDesc {
    /// Children stored in the core (layout-defined widgets)
    pub storage_children: Vec<Member>,
    /// The layout needs storage in the core (a custom core type)
    pub has_storage: bool,
    /// The layout defines the widget's rect
    pub rect_from_layout: bool,
    /// The layout can implement `try_probe`
    pub try_probe: bool,
    /// The layout can implement `nav_next`
    pub nav_next_ok: bool,
}

/// How a child is reached
#[derive(Clone, Debug, PartialEq, Eq)]
pub enum ChildIdent {
    /// A field of the widget
    Field(Member),
    /// A field of the widget's core (layout-defined)
    CoreField(Member),
}

/// A child widget and its data binding
#[derive(Clone, Debug, PartialEq, Eq)]
pub struct Child {
    pub ident: ChildIdent,
    pub binding: Option<String>,
}

/// Two children are reached the same way with the same binding
pub open spec fn child_eq(a: Child, b: Child) -> bool {
    &&& match (a.ident, b.ident) {
        (ChildIdent::Field(x), ChildIdent::Field(y)) => member_eq(x, y),
        (ChildIdent::CoreField(x), ChildIdent::CoreField(y)) => member_eq(x, y),
        _ => false,
    }
    &&& match (a.binding, b.binding) {
        (Some(x), Some(y)) => x@ == y@,
        (None, None) => true,
        _ => false,
    }
}

/// Lists of children reached the same way
pub open spec fn children_eq(a: Seq<Child>, b: Seq<Child>) -> bool {
    a.len() == b.len() && forall|i: int| 0 <= i < a.len() ==> #[trigger] child_eq(a[i], b[i])
}

/// Some impl of `kind` has a function called `name`
pub open spec fn any_fn(impls: Seq<ImplDesc>, kind: TraitKind, name: Seq<char>) -> bool {
    exists|i: int|
        0 <= i < impls.len() && impls[i].trait_ == kind && #[trigger] crate::macros::scope::has_fn(
            impls[i],
            name,
        )
}

/// True when some impl of `kind` has a function called `name`
fn any_fn_exec(impls: &Vec<ImplDesc>, kind: TraitKind, name: &str) -> (r: bool)
    ensures
        r == any_fn(impls@, kind, name@),
{
    let mut i: usize = 0;
    while i < impls.len()
        invariant
            i <= impls@.len(),
            forall|j: int|
                0 <= j < i ==> !(impls@[j].trait_ == kind && #[trigger] crate::macros::scope::has_fn(
                    impls@[j],
                    name@,
                )),
        decreases impls@.len() - i,
    {
        if impls[i].trait_ == kind && crate::macros::scope::impl_has_fn(&impls[i], name) {
            return true;
        }
        i += 1;
    }
    false
}

/// Number of items `type Data` in an impl
pub open spec fn data_items_in(items: Seq<crate::macros::scope::ImplItem>) -> nat
    decreases items.len(),
{
    if items.len() == 0 {
        0
    } else {
        data_items_in(items.drop_last()) + if items.last().kind == ItemKind::Type && items.last().name@
            == "Data"@ {
            1nat
        } else {
            0
        }
    }
}

/// The impl index of each `type Data` item of `Widget` and `Events`
/// impls, in order
pub open spec fn data_items(impls: Seq<ImplDesc>) -> Seq<usize>
    decreases impls.len(),
{
    if impls.len() == 0 {
        Seq::empty()
    } else {
        let last = impls.last();
        data_items(impls.drop_last()) + if last.trait_ == TraitKind::Widget || last.trait_
            == TraitKind::Events {
            Seq::new(data_items_in(last.items@), |k: int| (impls.len() - 1) as usize)
        } else {
            Seq::empty()
        }
    }
}

fn count_data_items(item: &ImplDesc) -> (r: usize)
    ensures
        r == data_items_in(item.items@),
{
    let mut n: usize = 0;
    let mut k: usize = 0;
    while k < item.items.len()
        invariant
            k <= item.items@.len(),
            n == data_items_in(item.items@.take(k as int)),
            n <= k,
        decreases item.items@.len() - k,
    {
        proof {
            assert(item.items@.take(k + 1).drop_last() =~= item.items@.take(k as int));
        }
        if item.items[k].kind == ItemKind::Type && text_eq(&item.items[k].name, "Data") {
            n += 1;
        }
        k += 1;
    }
    proof {
        assert(item.items@.take(item.items@.len() as int) =~= item.items@);
    }
    n
}

/// The impl index of each `type Data` item
fn data_item_impls(impls: &Vec<ImplDesc>) -> (r: Vec<usize>)
    ensures
        r@ == data_items(impls@),
{
    let mut r: Vec<usize> = Vec::new();
    let mut i: usize = 0;
    while i < impls.len()
        invariant
            i <= impls@.len(),
            r@ == data_items(impls@.take(i as int)),
        decreases impls@.len() - i,
    {
        proof {
            assert(impls@.take(i + 1).drop_last() =~= impls@.take(i as int));
        }
        let ghost r0 = r@;
        if impls[i].trait_ == TraitKind::Widget || impls[i].trait_ == TraitKind::Events {
            let n = count_data_items(&impls[i]);
            let mut k: usize = 0;
            while k < n
                invariant
                    k <= n,
                    r@ == r0 + Seq::new(k as nat, |q: int| i as usize),
                decreases n - k,
            {
                r.push(i);
                assert(r@ =~= r0 + Seq::new((k + 1) as nat, |q: int| i as usize));
                k += 1;
            }
            assert(Seq::new(n as nat, |q: int| i as usize) =~= Seq::new(
                data_items_in(impls@[i as int].items@),
                |q: int| (impls@.take(i + 1).len() - 1) as usize,
            ));
        } else {
            assert(r@ =~= r0 + Seq::<usize>::empty());
        }
        i += 1;
    }
    proof {
        assert(impls@.take(impls@.len() as int) =~= impls@);
    }
    r
}

/// Why `#[widget]` fails
#[derive(Clone, Copy, Debug, PartialEq, Eq, Structural)]
pub enum WidgetError {
    /// "expected struct, not unit struct"
    UnitStruct,
    /// "expected struct"
    NotStruct,
    /// `#[widget[..]]` or `#[widget{..}]` on this field
    BadDelimiter(usize),
    /// "expected: a field with type `widget_core!()`"
    NoCore,
}

/// State of the scan over fields
pub struct FieldScan {
    pub core: Option<Member>,
    /// Fields of type `widget_core!()` after the first (a warning each)
    pub dup_cores: Seq<usize>,
    pub children: Seq<Child>,
    /// The last field marked `#[collection]`
    pub collection: Option<usize>,
    /// Fields marked `#[collection]` while another was (an error each)
    pub dup_collections: Seq<usize>,
    pub err: Option<WidgetError>,
}

/// The children of the layout's storage, reached through the core
pub open spec fn core_children(ms: Seq<Member>) -> Seq<Child> {
    ms.map_values(|m: Member| Child { ident: ChildIdent::CoreField(m), binding: None })
}

/// One attribute of field `i` (`is_child`: the field already is a child)
pub open spec fn scan_child_attr(s: FieldScan, is_child: bool, i: int, f: DefField, a: ChildAttr) -> (FieldScan, bool) {
    if s.err is Some || is_child {
        (s, is_child)
    } else {
        match a {
            ChildAttr::Widget(b) => (
                FieldScan {
                    children: s.children.push(Child { ident: ChildIdent::Field(f.member), binding: b }),
                    ..s
                },
                true,
            ),
            ChildAttr::WidgetBadDelimiter => (FieldScan { err: Some(WidgetError::BadDelimiter(i as usize)), ..s }, true),
            ChildAttr::Collection => (
                FieldScan {
                    dup_collections: if s.collection is Some {
                        s.dup_collections.push(i as usize)
                    } else {
                        s.dup_collections
                    },
                    collection: Some(i as usize),
                    ..s
                },
                true,
            ),
            ChildAttr::Other => (s, false),
        }
    }
}

/// The first `n` attributes of field `i`
pub open spec fn scan_child_attrs(s: FieldScan, i: int, f: DefField, n: int) -> (FieldScan, bool)
    decreases n,
{
    if n <= 0 {
        (s, false)
    } else {
        let (s1, c) = scan_child_attrs(s, i, f, n - 1);
        scan_child_attr(s1, c, i, f, f.attrs@[n - 1])
    }
}

/// Field `i`: a core field, or a field which may be a child or the
/// collection
pub open spec fn scan_def_field(s: FieldScan, i: int, f: DefField, layout: Option<LayoutDesc>) -> FieldScan {
    if s.err is Some {
        s
    } else if f.is_core {
        if s.core is Some {
            FieldScan { dup_cores: s.dup_cores.push(i as usize), ..s }
        } else {
            FieldScan {
                core: Some(f.member),
                children: match layout {
                    Some(l) => s.children + core_children(l.storage_children@),
                    None => s.children,
                },
                ..s
            }
        }
    } else {
        scan_child_attrs(s, i, f, f.attrs@.len() as int).0
    }
}

/// The first `n` fields
pub open spec fn scan_def_fields(fields: Seq<DefField>, layout: Option<LayoutDesc>, n: int) -> FieldScan
    decreases n,
{
    if n <= 0 {
        FieldScan {
            core: None,
            dup_cores: Seq::empty(),
            children: Seq::empty(),
            collection: None,
            dup_collections: Seq::empty(),
            err: None,
        }
    } else {
        scan_def_field(scan_def_fields(fields, layout, n - 1), n - 1, fields[n - 1], layout)
    }
}

/// Exec state of the field scan
pub struct FieldScanExec {
    pub core: Option<Member>,
    pub dup_cores: Vec<usize>,
    pub children: Vec<Child>,
    pub collection: Option<usize>,
    pub dup_collections: Vec<usize>,
    pub err: Option<WidgetError>,
}

/// The exec scan state holds the spec state
pub open spec fn field_scan_matches(e: FieldScanExec, s: FieldScan) -> bool {
    &&& match (e.core, s.core) {
        (Some(a), Some(b)) => member_eq(a, b),
        (None, None) => true,
        _ => false,
    }
    &&& e.dup_cores@ == s.dup_cores
    &&& children_eq(e.children@, s.children)
    &&& e.collection == s.collection
    &&& e.dup_collections@ == s.dup_collections
    &&& e.err == s.err
}

fn copy_binding(b: &Option<String>) -> (r: Option<String>)
    ensures
        match (r, *b) {
            (Some(x), Some(y)) => x@ == y@,
            (None, None) => true,
            _ => false,
        },
{
    match b {
        Some(s) => Some(copy_string(s)),
        None => None,
    }
}

fn scan_child_attr_exec(
    st: &mut FieldScanExec,
    is_child: bool,
    i: usize,
    f: &DefField,
    a: &ChildAttr,
    Ghost(s): Ghost<FieldScan>,
) -> (r: bool)
    requires
        field_scan_matches(*old(st), s),
    ensures
        field_scan_matches(*final(st), scan_child_attr(s, is_child, i as int, *f, *a).0),
        r == scan_child_attr(s, is_child, i as int, *f, *a).1,
{
    if st.err.is_some() || is_child {
        return is_child;
    }
    match a {
        ChildAttr::Widget(b) => {
            let ghost c0 = st.children@;
            st.children.push(Child { ident: ChildIdent::Field(copy_member(&f.member)), binding: copy_binding(b) });
            proof {
                let sc = s.children.push(Child { ident: ChildIdent::Field(f.member), binding: *b });
                assert forall|k: int| 0 <= k < st.children@.len() implies #[trigger] child_eq(
                    st.children@[k],
                    sc[k],
                ) by {
                    if k < c0.len() {
                        assert(child_eq(c0[k], s.children[k]));
                    }
                }
            }
            true
        },
        ChildAttr::WidgetBadDelimiter => {
            st.err = Some(WidgetError::BadDelimiter(i));
            true
        },
        ChildAttr::Collection => {
            if st.collection.is_some() {
                st.dup_collections.push(i);
            }
            st.collection = Some(i);
            true
        },
        ChildAttr::Other => false,
    }
}

fn push_core_children(st: &mut FieldScanExec, l: &LayoutDesc, Ghost(s): Ghost<FieldScan>)
    requires
        field_scan_matches(*old(st), s),
    ensures
        field_scan_matches(*final(st), FieldScan { children: s.children + core_children(l.storage_children@), ..s }),
{
    let ghost c0 = st.children@;
    let mut k: usize = 0;
    while k < l.storage_children.len()
        invariant
            k <= l.storage_children@.len(),
            field_scan_matches(*st, FieldScan { children: s.children + core_children(l.storage_children@.take(k as int)), ..s }),
        decreases l.storage_children@.len() - k,
    {
        let ghost c1 = st.children@;
        st.children.push(Child { ident: ChildIdent::CoreField(copy_member(&l.storage_children[k])), binding: None });
        proof {
            let sc = s.children + core_children(l.storage_children@.take(k + 1));
            let sp = s.children + core_children(l.storage_children@.take(k as int));
            assert forall|q: int| 0 <= q < st.children@.len() implies #[trigger] child_eq(st.children@[q], sc[q]) by {
                if q < c1.len() {
                    assert(child_eq(c1[q], sp[q]));
                    assert(sp[q] == sc[q]);
                }
            }
        }
        k += 1;
    }
    proof {
        assert(l.storage_children@.take(l.storage_children@.len() as int) =~= l.storage_children@);
    }
}

/// Scan the fields of the widget struct
pub fn scan_fields_exec(fields: &Vec<DefField>, layout: &Option<LayoutDesc>) -> (r: FieldScanExec)
    ensures
        field_scan_matches(r, scan_def_fields(fields@, *layout, fields@.len() as int)),
{
    let mut st = FieldScanExec {
        core: None,
        dup_cores: Vec::new(),
        children: Vec::new(),
        collection: None,
        dup_collections: Vec::new(),
        err: None,
    };
    let mut i: usize = 0;
    while i < fields.len()
        invariant
            i <= fields@.len(),
            field_scan_matches(st, scan_def_fields(fields@, *layout, i as int)),
        decreases fields@.len() - i,
    {
        let f = &fields[i];
        let ghost before = scan_def_fields(fields@, *layout, i as int);
        if st.err.is_none() {
            if f.is_core {
                if st.core.is_some() {
                    st.dup_cores.push(i);
                } else {
                    st.core = Some(copy_member(&f.member));
                    match layout {
                        Some(l) => {
                            push_core_children(&mut st, l, Ghost(FieldScan { core: Some(f.member), ..before }));
                        },
                        None => {},
                    }
                }
            } else {
                let mut is_child = false;
                let mut j: usize = 0;
                while j < f.attrs.len()
                    invariant
                        j <= f.attrs@.len(),
                        *f == fields@[i as int],
                        before.err is None,
                        field_scan_matches(st, scan_child_attrs(before, i as int, *f, j as int).0),
                        is_child == scan_child_attrs(before, i as int, *f, j as int).1,
                    decreases f.attrs@.len() - j,
                {
                    is_child = scan_child_attr_exec(
                        &mut st,
                        is_child,
                        i,
                        f,
                        &f.attrs[j],
                        Ghost(scan_child_attrs(before, i as int, *f, j as int).0),
                    );
                    j += 1;
                }
            }
        }
        i += 1;
    }
    st
}

/// The kind of the first function or type item called `name`
pub open spec fn named_kind_from(items: Seq<crate::macros::scope::ImplItem>, name: Seq<char>, k: int) -> Option<ItemKind>
    decreases items.len() - k,
{
    if k < 0 || k >= items.len() {
        None
    } else if items[k].kind != ItemKind::Other && items[k].name@ == name {
        Some(items[k].kind)
    } else {
        named_kind_from(items, name, k + 1)
    }
}

/// The kind of the first function or type item called `name`
pub open spec fn named_kind(item: ImplDesc, name: Seq<char>) -> Option<ItemKind> {
    named_kind_from(item.items@, name, 0)
}

proof fn lemma_named_kind_has(items: Seq<crate::macros::scope::ImplItem>, name: Seq<char>, k: int)
    requires
        0 <= k,
    ensures
        named_kind_from(items, name, k) is Some ==> exists|q: int|
            k <= q < items.len() && #[trigger] items[q].name@ == name && items[q].kind != ItemKind::Other,
        named_kind_from(items, name, k) is None ==> forall|q: int|
            k <= q < items.len() ==> !(#[trigger] items[q].name@ == name && items[q].kind != ItemKind::Other),
    decreases items.len() - k,
{
    if k < items.len() {
        lemma_named_kind_has(items, name, k + 1);
    }
}

/// The kind of the first function or type item called `name`
fn impl_named_kind(item: &ImplDesc, name: &str) -> (r: Option<ItemKind>)
    ensures
        r == named_kind(*item, name@),
        r is Some <==> has_item(*item, name@),
{
    proof {
        lemma_named_kind_has(item.items@, name@, 0);
    }
    let mut k: usize = 0;
    while k < item.items.len()
        invariant
            k <= item.items@.len(),
            named_kind(*item, name@) == named_kind_from(item.items@, name@, k as int),
        decreases item.items@.len() - k,
    {
        if item.items[k].kind != ItemKind::Other && text_eq(&item.items[k].name, name) {
            return Some(item.items[k].kind);
        }
        k += 1;
    }
    None
}

/// The widget's data type
#[derive(Clone, Copy, Debug, PartialEq, Eq, Structural)]
pub enum DataTy {
    /// Given by `type Data` in the impl at this index
    Explicit(usize),
    /// That of the collection in the field at this index
    Collection(usize),
    /// `()`
    Unit,
    /// Not given, though needed (an error)
    Missing,
}

/// Source of the generated child functions (`child_indices`, `get_child`,
/// `child_node`)
#[derive(Clone, Copy, Debug, PartialEq, Eq, Structural)]
pub enum ChildFns {
    /// The children (fields marked `#[widget]` and layout children)
    Children,
    /// The collection in the field at this index
    FromCollection(usize),
    /// Not generated
    NoFns,
}

/// The generated `try_probe`
#[derive(Clone, Copy, Debug, PartialEq, Eq, Structural)]
pub enum ProbeFn {
    /// Via `Events::probe` within the widget's rect
    Default,
    /// Given by the layout
    Layout,
    NoProbe,
}

/// The generated `draw`
#[derive(Clone, Copy, Debug, PartialEq, Eq, Structural)]
pub enum DrawFn {
    /// Via `Viewport::draw_with_offset`
    WithOffset,
    /// Given by the layout
    Layout,
    NoDraw,
}

/// A method (or group of methods) handled by `#[widget]`
#[derive(Clone, Copy, Debug, PartialEq, Eq, Structural)]
pub enum WMethod {
    Rect,
    SizeRules,
    SetRect,
    Draw,
    DrawWithOffset,
    TryProbeWithOffset,
    /// `as_tile`, `status`, `id_ref`, `identify`
    RequiredTile,
    Role,
    GetChild,
    ChildIndices,
    TryProbe,
    NavNext,
    /// `_nav_next`
    RecursiveNavNext,
    HandleEvent,
    DataType,
    AsNode,
    ChildNode,
    /// `_configure`, `_update`, `_send`, `_replay`
    Recursive,
}

/// What happens to an impl item
#[derive(Clone, Copy, Debug, PartialEq, Eq, Structural)]
pub enum Action {
    /// A generated method is added
    Add(WMethod),
    /// The user's method gets status checks injected
    Modify(WMethod),
    /// The user's `type Data` item moves to the `Widget` impl
    RemoveData,
}

/// The plan for one trait: actions on the user's impl at this index, or a
/// new impl with these methods, or nothing
#[derive(Clone, Debug, PartialEq, Eq)]
pub enum WImplPlan {
    Extend(usize, Vec<Action>),
    Generate(Vec<WMethod>),
    Nothing,
}

/// A plan as a spec value
pub open spec fn wplan_view(p: WImplPlan) -> (int, Seq<Action>, Seq<WMethod>) {
    match p {
        WImplPlan::Extend(i, a) => (i as int, a@, Seq::empty()),
        WImplPlan::Generate(m) => (-1, Seq::empty(), m@),
        WImplPlan::Nothing => (-2, Seq::empty(), Seq::empty()),
    }
}

/// `Some(x)` as a one-element sequence, `None` as an empty one
pub open spec fn opt_seq<T>(b: bool, x: T) -> Seq<T> {
    if b {
        seq![x]
    } else {
        Seq::empty()
    }
}

/// Facts about the scope that the plan depends on
pub struct Facts {
    pub layout: bool,
    pub rect_from_layout: bool,
    pub layout_try_probe: bool,
    pub nav_ok: bool,
    pub get_child: bool,
    pub child_node: bool,
    pub probe: bool,
    pub children_empty: bool,
    pub any_field_child: bool,
    pub collection: Option<usize>,
    pub viewport: Option<int>,
    pub events: Option<int>,
    pub widget: Option<int>,
}

/// The facts of a scope and its field scan
pub open spec fn facts(impls: Seq<ImplDesc>, layout: Option<LayoutDesc>, s: FieldScan) -> Facts {
    Facts {
        layout: layout is Some,
        rect_from_layout: layout matches Some(l) && l.rect_from_layout,
        layout_try_probe: layout matches Some(l) && l.try_probe,
        nav_ok: match layout {
            Some(l) => l.nav_next_ok,
            None => true,
        },
        get_child: any_fn(impls, TraitKind::Tile, "get_child"@),
        child_node: any_fn(impls, TraitKind::Widget, "child_node"@),
        probe: any_fn(impls, TraitKind::Events, "probe"@),
        children_empty: s.children.len() == 0,
        any_field_child: exists|k: int| 0 <= k < s.children.len() && #[trigger] s.children[k].ident is Field,
        collection: s.collection,
        viewport: first_impl(impls, TraitKind::Viewport),
        events: first_impl(impls, TraitKind::Events),
        widget: first_impl(impls, TraitKind::Widget),
    }
}

/// The data type
pub open spec fn data_plan(impls: Seq<ImplDesc>, f: Facts) -> DataTy {
    let d = data_items(impls);
    if d.len() > 0 {
        DataTy::Explicit(d[0])
    } else if f.children_empty && f.events is None && f.widget is None {
        match f.collection {
            Some(c) => DataTy::Collection(c),
            None => DataTy::Unit,
        }
    } else {
        DataTy::Missing
    }
}

/// Source of the child functions
pub open spec fn child_fns_plan(f: Facts) -> ChildFns {
    if f.get_child || f.child_node {
        ChildFns::NoFns
    } else {
        match f.collection {
            None => ChildFns::Children,
            Some(c) => if f.children_empty {
                ChildFns::FromCollection(c)
            } else {
                ChildFns::NoFns
            },
        }
    }
}

/// The generated `try_probe`
pub open spec fn probe_plan(f: Facts) -> ProbeFn {
    if f.layout && !f.probe && f.layout_try_probe {
        ProbeFn::Layout
    } else if f.probe || f.children_empty {
        ProbeFn::Default
    } else {
        ProbeFn::NoProbe
    }
}

/// The generated `draw`
pub open spec fn draw_plan(f: Facts) -> DrawFn {
    if f.viewport is Some {
        DrawFn::WithOffset
    } else if f.layout {
        DrawFn::Layout
    } else {
        DrawFn::NoDraw
    }
}

/// Actions on the user's `Layout` impl
pub open spec fn layout_actions(item: ImplDesc, f: Facts) -> Seq<Action> {
    opt_seq(!has_item(item, "rect"@), Action::Add(WMethod::Rect)) + match named_kind(item, "size_rules"@) {
        Some(ItemKind::Fn) => seq![Action::Modify(WMethod::SizeRules)],
        Some(_) => Seq::empty(),
        None => opt_seq(f.layout, Action::Add(WMethod::SizeRules)),
    } + match named_kind(item, "set_rect"@) {
        Some(ItemKind::Fn) => seq![Action::Modify(WMethod::SetRect)],
        Some(_) => Seq::empty(),
        None => seq![Action::Add(WMethod::SetRect)],
    } + match named_kind(item, "draw"@) {
        Some(ItemKind::Fn) => seq![Action::Modify(WMethod::Draw)],
        Some(_) => Seq::empty(),
        None => opt_seq(draw_plan(f) != DrawFn::NoDraw, Action::Add(WMethod::Draw)),
    }
}

/// Plan for `Layout`
pub open spec fn layout_plan(impls: Seq<ImplDesc>, f: Facts) -> (int, Seq<Action>, Seq<WMethod>) {
    match first_impl(impls, TraitKind::Layout) {
        Some(i) => (i, layout_actions(impls[i], f), Seq::empty()),
        None => if f.layout {
            (-1, Seq::empty(), seq![WMethod::Rect, WMethod::SizeRules, WMethod::SetRect, WMethod::Draw])
        } else {
            (-2, Seq::empty(), Seq::empty())
        },
    }
}

/// The user's `Layout` impl defines `draw`
pub open spec fn layout_draw_modified(impls: Seq<ImplDesc>) -> bool {
    first_impl(impls, TraitKind::Layout) matches Some(i) && named_kind(impls[i], "draw"@) == Some(
        ItemKind::Fn,
    )
}

/// Plan for `Viewport`
pub open spec fn viewport_plan(impls: Seq<ImplDesc>) -> (int, Seq<Action>, Seq<WMethod>) {
    match first_impl(impls, TraitKind::Viewport) {
        Some(i) => (
            i,
            opt_seq(
                named_kind(impls[i], "draw_with_offset"@) == Some(ItemKind::Fn),
                Action::Modify(WMethod::DrawWithOffset),
            ) + opt_seq(!has_item(impls[i], "try_probe_with_offset"@), Action::Add(WMethod::TryProbeWithOffset)),
            Seq::empty(),
        ),
        None => (-2, Seq::empty(), Seq::empty()),
    }
}

/// The `draw_with_offset` of the user's `Viewport` impl makes their
/// `draw` redundant (an error)
pub open spec fn redundant_draw(impls: Seq<ImplDesc>) -> bool {
    layout_draw_modified(impls) && (first_impl(impls, TraitKind::Viewport) matches Some(i)
        && named_kind(impls[i], "draw_with_offset"@) == Some(ItemKind::Fn))
}

/// Plan for `Tile`
pub open spec fn tile_plan(impls: Seq<ImplDesc>, f: Facts) -> (int, Seq<Action>, Seq<WMethod>) {
    let fns = child_fns_plan(f) != ChildFns::NoFns;
    let role = !(f.get_child || f.child_node) && !f.children_empty;
    let probe = probe_plan(f) != ProbeFn::NoProbe;
    match first_impl(impls, TraitKind::Tile) {
        Some(i) => {
            let t = impls[i];
            (
                i,
                seq![Action::Add(WMethod::RequiredTile)] + opt_seq(fns, Action::Add(WMethod::GetChild))
                    + opt_seq(!has_item(t, "role"@) && role, Action::Add(WMethod::Role)) + opt_seq(
                    !has_item(t, "child_indices"@) && fns,
                    Action::Add(WMethod::ChildIndices),
                ) + opt_seq(!has_item(t, "try_probe"@) && probe, Action::Add(WMethod::TryProbe))
                    + opt_seq(!has_item(t, "nav_next"@) && f.nav_ok, Action::Add(WMethod::NavNext))
                    + seq![Action::Add(WMethod::RecursiveNavNext)],
                Seq::empty(),
            )
        },
        None => (
            -1,
            Seq::empty(),
            seq![WMethod::RequiredTile] + opt_seq(role, WMethod::Role) + opt_seq(fns, WMethod::GetChild)
                + opt_seq(fns, WMethod::ChildIndices) + opt_seq(probe, WMethod::TryProbe) + opt_seq(
                f.nav_ok,
                WMethod::NavNext,
            ) + seq![WMethod::RecursiveNavNext],
        ),
    }
}

/// Plan for `Events`
pub open spec fn events_plan(impls: Seq<ImplDesc>) -> (int, Seq<Action>, Seq<WMethod>) {
    match first_impl(impls, TraitKind::Events) {
        Some(i) => (
            i,
            match named_kind(impls[i], "handle_event"@) {
                Some(ItemKind::Fn) => seq![Action::Modify(WMethod::HandleEvent)],
                Some(_) => Seq::empty(),
                None => seq![Action::Add(WMethod::HandleEvent)],
            } + opt_seq(has_item(impls[i], "Data"@), Action::RemoveData),
            Seq::empty(),
        ),
        None => (-1, Seq::empty(), seq![WMethod::HandleEvent]),
    }
}

/// Plan for `Widget`
pub open spec fn widget_plan(impls: Seq<ImplDesc>, f: Facts) -> (int, Seq<Action>, Seq<WMethod>) {
    let fns = child_fns_plan(f) != ChildFns::NoFns;
    match first_impl(impls, TraitKind::Widget) {
        Some(i) => (
            i,
            seq![Action::Add(WMethod::AsNode)] + opt_seq(
                !has_item(impls[i], "child_node"@) && fns,
                Action::Add(WMethod::ChildNode),
            ) + opt_seq(!has_item(impls[i], "_send"@), Action::Add(WMethod::Recursive)),
            Seq::empty(),
        ),
        None => (
            -1,
            Seq::empty(),
            seq![WMethod::DataType, WMethod::AsNode] + opt_seq(fns, WMethod::ChildNode) + seq![
                WMethod::Recursive,
            ],
        ),
    }
}

/// Diagnostics of `#[widget]` which do not stop it
#[derive(Clone, Debug, PartialEq, Eq)]
pub struct WidgetDiags {
    /// A custom `make_child_id` without `find_child_index` (warning)
    pub find_child_index_expected: bool,
    /// A custom `translation` without `handle_scroll` (warning)
    pub handle_scroll_expected: bool,
    /// Impls with a second `type Data` (error)
    pub duplicate_data: Vec<usize>,
    /// Fields of type `widget_core!()` after the first (warning)
    pub duplicate_cores: Vec<usize>,
    /// Fields marked `#[collection]` after the first (error)
    pub duplicate_collections: Vec<usize>,
    /// No `type Data` although needed (error)
    pub missing_data: bool,
    /// Explicit `get_child`/`child_node` beside `#[widget]` fields (error)
    pub child_impl_with_fields: bool,
    /// Explicit `get_child`/`child_node` beside layout children (error)
    pub child_impl_with_layout: bool,
    /// Explicit `get_child`/`child_node` beside `#[collection]` (error)
    pub child_impl_with_collection: bool,
    /// `#[collection]` beside other children (error)
    pub collection_with_children: bool,
    /// `draw` and `draw_with_offset` both defined (error)
    pub redundant_draw: bool,
    /// No `child_indices` available (error)
    pub child_indices_expected: bool,
    /// `try_probe` defined beside `probe` (error)
    pub probe_conflict: bool,
    /// Neither `probe` nor `try_probe` available (error)
    pub probe_expected: bool,
    /// The layout cannot implement `nav_next` (warning)
    pub nav_next_unavailable: bool,
    /// `child_node` is not generated beside an explicit `get_child` (error)
    pub refuse_child_node: bool,
}

/// The plan of `#[widget]`
#[derive(Clone, Debug, PartialEq, Eq)]
pub struct WidgetPlan {
    pub diags: WidgetDiags,
    /// The core field
    pub core: Member,
    /// The core has a custom type (holding layout storage)
    pub custom_core: bool,
    pub children: Vec<Child>,
    pub data: DataTy,
    pub child_fns: ChildFns,
    pub role: bool,
    pub probe: ProbeFn,
    pub draw: DrawFn,
    pub layout: WImplPlan,
    pub viewport: WImplPlan,
    pub tile: WImplPlan,
    pub events: WImplPlan,
    pub widget: WImplPlan,
}

/// Exec copy of [`Facts`]
pub struct FactsExec {
    pub layout: bool,
    pub rect_from_layout: bool,
    pub layout_try_probe: bool,
    pub nav_ok: bool,
    pub get_child: bool,
    pub child_node: bool,
    pub probe: bool,
    pub children_empty: bool,
    pub any_field_child: bool,
    pub collection: Option<usize>,
    pub viewport: Option<usize>,
    pub events: Option<usize>,
    pub widget: Option<usize>,
}

/// Exec facts hold the spec facts
pub open spec fn facts_match(e: FactsExec, f: Facts) -> bool {
    &&& e.layout == f.layout
    &&& e.rect_from_layout == f.rect_from_layout
    &&& e.layout_try_probe == f.layout_try_probe
    &&& e.nav_ok == f.nav_ok
    &&& e.get_child == f.get_child
    &&& e.child_node == f.child_node
    &&& e.probe == f.probe
    &&& e.children_empty == f.children_empty
    &&& e.any_field_child == f.any_field_child
    &&& e.collection == f.collection
    &&& match e.viewport {
        Some(i) => Some(i as int),
        None => None,
    } == f.viewport
    &&& match e.events {
        Some(i) => Some(i as int),
        None => None,
    } == f.events
    &&& match e.widget {
        Some(i) => Some(i as int),
        None => None,
    } == f.widget
}

fn child_fns_exec(f: &FactsExec, Ghost(fs): Ghost<Facts>) -> (r: ChildFns)
    requires
        facts_match(*f, fs),
    ensures
        r == child_fns_plan(fs),
{
    if f.get_child || f.child_node {
        ChildFns::NoFns
    } else {
        match f.collection {
            None => ChildFns::Children,
            Some(c) => {
                if f.children_empty {
                    ChildFns::FromCollection(c)
                } else {
                    ChildFns::NoFns
                }
            },
        }
    }
}

fn probe_exec(f: &FactsExec, Ghost(fs): Ghost<Facts>) -> (r: ProbeFn)
    requires
        facts_match(*f, fs),
    ensures
        r == probe_plan(fs),
{
    if f.layout && !f.probe && f.layout_try_probe {
        ProbeFn::Layout
    } else if f.probe || f.children_empty {
        ProbeFn::Default
    } else {
        ProbeFn::NoProbe
    }
}

fn draw_exec(f: &FactsExec, Ghost(fs): Ghost<Facts>) -> (r: DrawFn)
    requires
        facts_match(*f, fs),
    ensures
        r == draw_plan(fs),
{
    if f.viewport.is_some() {
        DrawFn::WithOffset
    } else if f.layout {
        DrawFn::Layout
    } else {
        DrawFn::NoDraw
    }
}

fn layout_plan_exec(impls: &Vec<ImplDesc>, f: &FactsExec, Ghost(fs): Ghost<Facts>) -> (r: WImplPlan)
    requires
        facts_match(*f, fs),
    ensures
        wplan_view(r) == layout_plan(impls@, fs),
{
    match find_impl(impls, TraitKind::Layout) {
        Some(i) => {
            let item = &impls[i];
            let mut a: Vec<Action> = Vec::new();
            if !impl_has_item(item, "rect") {
                a.push(Action::Add(WMethod::Rect));
            }
            let ghost a1 = a@;
            match impl_named_kind(item, "size_rules") {
                Some(ItemKind::Fn) => a.push(Action::Modify(WMethod::SizeRules)),
                Some(_) => {},
                None => {
                    if f.layout {
                        a.push(Action::Add(WMethod::SizeRules));
                    }
                },
            }
            let ghost a2 = a@;
            match impl_named_kind(item, "set_rect") {
                Some(ItemKind::Fn) => a.push(Action::Modify(WMethod::SetRect)),
                Some(_) => {},
                None => a.push(Action::Add(WMethod::SetRect)),
            }
            let ghost a3 = a@;
            let d = draw_exec(f, Ghost(fs));
            match impl_named_kind(item, "draw") {
                Some(ItemKind::Fn) => a.push(Action::Modify(WMethod::Draw)),
                Some(_) => {},
                None => {
                    if d != DrawFn::NoDraw {
                        a.push(Action::Add(WMethod::Draw));
                    }
                },
            }
            assert(a@ =~= layout_actions(impls@[i as int], fs));
            WImplPlan::Extend(i, a)
        },
        None => {
            if f.layout {
                WImplPlan::Generate(vec![WMethod::Rect, WMethod::SizeRules, WMethod::SetRect, WMethod::Draw])
            } else {
                WImplPlan::Nothing
            }
        },
    }
}

fn viewport_plan_exec(impls: &Vec<ImplDesc>) -> (r: WImplPlan)
    ensures
        wplan_view(r) == viewport_plan(impls@),
{
    match find_impl(impls, TraitKind::Viewport) {
        Some(i) => {
            let mut a: Vec<Action> = Vec::new();
            if impl_named_kind(&impls[i], "draw_with_offset") == Some(ItemKind::Fn) {
                a.push(Action::Modify(WMethod::DrawWithOffset));
            }
            if !impl_has_item(&impls[i], "try_probe_with_offset") {
                a.push(Action::Add(WMethod::TryProbeWithOffset));
            }
            assert(a@ =~= viewport_plan(impls@).1);
            WImplPlan::Extend(i, a)
        },
        None => WImplPlan::Nothing,
    }
}

fn tile_plan_exec(impls: &Vec<ImplDesc>, f: &FactsExec, Ghost(fs): Ghost<Facts>) -> (r: WImplPlan)
    requires
        facts_match(*f, fs),
    ensures
        wplan_view(r) == tile_plan(impls@, fs),
{
    let fns = child_fns_exec(f, Ghost(fs)) != ChildFns::NoFns;
    let role = !(f.get_child || f.child_node) && !f.children_empty;
    let probe = probe_exec(f, Ghost(fs)) != ProbeFn::NoProbe;
    match find_impl(impls, TraitKind::Tile) {
        Some(i) => {
            let t = &impls[i];
            let mut a: Vec<Action> = Vec::new();
            a.push(Action::Add(WMethod::RequiredTile));
            if fns {
                a.push(Action::Add(WMethod::GetChild));
            }
            if !impl_has_item(t, "role") && role {
                a.push(Action::Add(WMethod::Role));
            }
            if !impl_has_item(t, "child_indices") && fns {
                a.push(Action::Add(WMethod::ChildIndices));
            }
            if !impl_has_item(t, "try_probe") && probe {
                a.push(Action::Add(WMethod::TryProbe));
            }
            if !impl_has_item(t, "nav_next") && f.nav_ok {
                a.push(Action::Add(WMethod::NavNext));
            }
            a.push(Action::Add(WMethod::RecursiveNavNext));
            assert(a@ =~= tile_plan(impls@, fs).1);
            WImplPlan::Extend(i, a)
        },
        None => {
            let mut m: Vec<WMethod> = Vec::new();
            m.push(WMethod::RequiredTile);
            if role {
                m.push(WMethod::Role);
            }
            if fns {
                m.push(WMethod::GetChild);
                m.push(WMethod::ChildIndices);
            }
            if probe {
                m.push(WMethod::TryProbe);
            }
            if f.nav_ok {
                m.push(WMethod::NavNext);
            }
            m.push(WMethod::RecursiveNavNext);
            assert(m@ =~= tile_plan(impls@, fs).2);
            WImplPlan::Generate(m)
        },
    }
}

fn events_plan_exec(impls: &Vec<ImplDesc>) -> (r: WImplPlan)
    ensures
        wplan_view(r) == events_plan(impls@),
{
    match find_impl(impls, TraitKind::Events) {
        Some(i) => {
            let mut a: Vec<Action> = Vec::new();
            match impl_named_kind(&impls[i], "handle_event") {
                Some(ItemKind::Fn) => a.push(Action::Modify(WMethod::HandleEvent)),
                Some(_) => {},
                None => a.push(Action::Add(WMethod::HandleEvent)),
            }
            if impl_has_item(&impls[i], "Data") {
                a.push(Action::RemoveData);
            }
            assert(a@ =~= events_plan(impls@).1);
            WImplPlan::Extend(i, a)
        },
        None => WImplPlan::Generate(vec![WMethod::HandleEvent]),
    }
}

fn widget_plan_exec(impls: &Vec<ImplDesc>, f: &FactsExec, Ghost(fs): Ghost<Facts>) -> (r: WImplPlan)
    requires
        facts_match(*f, fs),
    ensures
        wplan_view(r) == widget_plan(impls@, fs),
{
    let fns = child_fns_exec(f, Ghost(fs)) != ChildFns::NoFns;
    match find_impl(impls, TraitKind::Widget) {
        Some(i) => {
            let mut a: Vec<Action> = Vec::new();
            a.push(Action::Add(WMethod::AsNode));
            if !impl_has_item(&impls[i], "child_node") && fns {
                a.push(Action::Add(WMethod::ChildNode));
            }
            if !impl_has_item(&impls[i], "_send") {
                a.push(Action::Add(WMethod::Recursive));
            }
            assert(a@ =~= widget_plan(impls@, fs).1);
            WImplPlan::Extend(i, a)
        },
        None => {
            let mut m: Vec<WMethod> = Vec::new();
            m.push(WMethod::DataType);
            m.push(WMethod::AsNode);
            if fns {
                m.push(WMethod::ChildNode);
            }
            m.push(WMethod::Recursive);
            assert(m@ =~= widget_plan(impls@, fs).2);
            WImplPlan::Generate(m)
        },
    }
}

/// The scan of the widget's fields, as a spec value
pub open spec fn widget_scan(fields: Seq<DefField>, layout: Option<LayoutDesc>) -> FieldScan {
    scan_def_fields(fields, layout, fields.len() as int)
}

/// Inputs on which `#[widget]` cannot proceed (its expansion panics):
/// `#[collection]` beside other children, with no explicit child functions
/// to fall back on
pub open spec fn widget_panics(impls: Seq<ImplDesc>, f: Facts) -> bool {
    let no_fns = child_fns_plan(f) == ChildFns::NoFns;
    ||| (no_fns && !f.get_child && !f.child_node && (first_impl(impls, TraitKind::Tile) matches Some(t)
        ==> !has_item(impls[t], "child_indices"@)))
    ||| (no_fns && !f.get_child && (first_impl(impls, TraitKind::Widget) matches Some(w) ==> !has_item(
        impls[w],
        "child_node"@,
    )))
}

/// The result of `#[widget]`: an error, or the scan and facts the plan
/// is made of
pub open spec fn widget_result(shape: ItemShape, fields: Seq<DefField>, layout: Option<LayoutDesc>) -> Option<WidgetError> {
    let s = widget_scan(fields, layout);
    match shape {
        ItemShape::UnitStruct => Some(WidgetError::UnitStruct),
        ItemShape::NotStruct => Some(WidgetError::NotStruct),
        ItemShape::Struct => if s.err is Some {
            s.err
        } else if s.core is None {
            Some(WidgetError::NoCore)
        } else {
            None
        },
    }
}

/// Plan `#[widget]`: read the scope's impls and fields and decide what is
/// generated, added, modified or reported
pub fn plan_widget(
    shape: ItemShape,
    impls: &Vec<ImplDesc>,
    fields: &Vec<DefField>,
    layout: &Option<LayoutDesc>,
) -> (r: Result<WidgetPlan, WidgetError>)
    requires
        widget_result(shape, fields@, *layout) is None ==> !widget_panics(
            impls@,
            facts(impls@, *layout, widget_scan(fields@, *layout)),
        ),
    ensures
        ({
            let s = widget_scan(fields@, *layout);
            let f = facts(impls@, *layout, s);
            let g = f.get_child || f.child_node;
            let fns = child_fns_plan(f);
            let tile = first_impl(impls@, TraitKind::Tile);
            let widget = first_impl(impls@, TraitKind::Widget);
            let d = data_items(impls@);
            match (r, widget_result(shape, fields@, *layout)) {
                (Err(e), Some(e2)) => e == e2,
                (Ok(p), None) => {
                    &&& p.diags.find_child_index_expected == (!any_fn(impls@, TraitKind::Tile, "find_child_index"@)
                        && any_fn(impls@, TraitKind::Events, "make_child_id"@))
                    &&& p.diags.handle_scroll_expected == (!any_fn(impls@, TraitKind::Events, "handle_scroll"@)
                        && any_fn(impls@, TraitKind::Tile, "translation"@))
                    &&& p.diags.duplicate_data@ == (if d.len() > 0 {
                        d.drop_first()
                    } else {
                        d
                    })
                    &&& p.diags.duplicate_cores@ == s.dup_cores
                    &&& p.diags.duplicate_collections@ == s.dup_collections
                    &&& p.diags.missing_data == (data_plan(impls@, f) == DataTy::Missing)
                    &&& p.diags.child_impl_with_fields == (g && !f.children_empty && f.any_field_child)
                    &&& p.diags.child_impl_with_layout == (g && !f.children_empty && !f.any_field_child)
                    &&& p.diags.child_impl_with_collection == (g && f.collection is Some)
                    &&& p.diags.collection_with_children == (!g && f.collection is Some && !f.children_empty)
                    &&& p.diags.redundant_draw == redundant_draw(impls@)
                    &&& p.diags.child_indices_expected == (fns == ChildFns::NoFns && (tile matches Some(t)
                        ==> !has_item(impls@[t], "child_indices"@)))
                    &&& p.diags.probe_conflict == (tile matches Some(t) && has_item(impls@[t], "try_probe"@)
                        && f.probe)
                    &&& p.diags.probe_expected == (probe_plan(f) == ProbeFn::NoProbe && (tile matches Some(t)
                        ==> !has_item(impls@[t], "try_probe"@)))
                    &&& p.diags.nav_next_unavailable == (!f.nav_ok && (tile matches Some(t) ==> !has_item(
                        impls@[t],
                        "nav_next"@,
                    )))
                    &&& p.diags.refuse_child_node == (fns == ChildFns::NoFns && (widget matches Some(w)
                        ==> !has_item(impls@[w], "child_node"@)))
                    &&& s.core matches Some(c) && member_eq(p.core, c)
                    &&& p.custom_core == (layout matches Some(l) && l.has_storage)
                    &&& children_eq(p.children@, s.children)
                    &&& p.data == data_plan(impls@, f)
                    &&& p.child_fns == fns
                    &&& p.role == (!g && !f.children_empty)
                    &&& p.probe == probe_plan(f)
                    &&& p.draw == draw_plan(f)
                    &&& wplan_view(p.layout) == layout_plan(impls@, f)
                    &&& wplan_view(p.viewport) == viewport_plan(impls@)
                    &&& wplan_view(p.tile) == tile_plan(impls@, f)
                    &&& wplan_view(p.events) == events_plan(impls@)
                    &&& wplan_view(p.widget) == widget_plan(impls@, f)
                },
                _ => false,
            }
        }),
{
    let find_child_index = any_fn_exec(impls, TraitKind::Tile, "find_child_index");
    let make_child_id = any_fn_exec(impls, TraitKind::Events, "make_child_id");
    let handle_scroll = any_fn_exec(impls, TraitKind::Events, "handle_scroll");
    let translation = any_fn_exec(impls, TraitKind::Tile, "translation");
    match shape {
        ItemShape::UnitStruct => return Err(WidgetError::UnitStruct),
        ItemShape::NotStruct => return Err(WidgetError::NotStruct),
        ItemShape::Struct => {},
    }
    let st = scan_fields_exec(fields, layout);
    let ghost s = widget_scan(fields@, *layout);
    if let Some(e) = st.err {
        return Err(e);
    }
    let core = match &st.core {
        Some(c) => copy_member(c),
        None => return Err(WidgetError::NoCore),
    };
    let mut any_field_child = false;
    let mut k: usize = 0;
    while k < st.children.len()
        invariant
            k <= st.children@.len(),
            children_eq(st.children@, s.children),
            any_field_child == exists|q: int| 0 <= q < k && #[trigger] s.children[q].ident is Field,
        decreases st.children@.len() - k,
    {
        assert(child_eq(st.children@[k as int], s.children[k as int]));
        match &st.children[k].ident {
            ChildIdent::Field(_) => {
                any_field_child = true;
            },
            ChildIdent::CoreField(_) => {},
        }
        k += 1;
    }
    let fe = FactsExec {
        layout: layout.is_some(),
        rect_from_layout: match layout {
            Some(l) => l.rect_from_layout,
            None => false,
        },
        layout_try_probe: match layout {
            Some(l) => l.try_probe,
            None => false,
        },
        nav_ok: match layout {
            Some(l) => l.nav_next_ok,
            None => true,
        },
        get_child: any_fn_exec(impls, TraitKind::Tile, "get_child"),
        child_node: any_fn_exec(impls, TraitKind::Widget, "child_node"),
        probe: any_fn_exec(impls, TraitKind::Events, "probe"),
        children_empty: st.children.len() == 0,
        any_field_child,
        collection: st.collection,
        viewport: find_impl(impls, TraitKind::Viewport),
        events: find_impl(impls, TraitKind::Events),
        widget: find_impl(impls, TraitKind::Widget),
    };
    let ghost f = facts(impls@, *layout, s);
    assert(facts_match(fe, f));
    let g = fe.get_child || fe.child_node;
    let fns = child_fns_exec(&fe, Ghost(f));
    let probe = probe_exec(&fe, Ghost(f));
    let draw = draw_exec(&fe, Ghost(f));
    let data_idx = data_item_impls(impls);
    let data = if data_idx.len() > 0 {
        DataTy::Explicit(data_idx[0])
    } else if fe.children_empty && fe.events.is_none() && fe.widget.is_none() {
        match fe.collection {
            Some(c) => DataTy::Collection(c),
            None => DataTy::Unit,
        }
    } else {
        DataTy::Missing
    };
    let mut duplicate_data: Vec<usize> = Vec::new();
    let mut q: usize = 1;
    while q < data_idx.len()
        invariant
            1 <= q,
            q <= data_idx@.len() || data_idx@.len() == 0,
            duplicate_data@ == data_idx@.subrange(1, q as int) || data_idx@.len() == 0,
            data_idx@.len() == 0 ==> duplicate_data@.len() == 0,
        decreases data_idx@.len() - q,
    {
        duplicate_data.push(data_idx[q]);
        assert(duplicate_data@ =~= data_idx@.subrange(1, q + 1));
        q += 1;
    }
    proof {
        if data_idx@.len() > 0 {
            assert(data_idx@.drop_first() =~= data_idx@.subrange(1, data_idx@.len() as int));
        }
    }
    let tile_idx = find_impl(impls, TraitKind::Tile);
    let widget_idx = find_impl(impls, TraitKind::Widget);
    let child_indices_expected = fns == ChildFns::NoFns && match tile_idx {
        Some(t) => !impl_has_item(&impls[t], "child_indices"),
        None => true,
    };
    let probe_conflict = match tile_idx {
        Some(t) => impl_has_item(&impls[t], "try_probe") && fe.probe,
        None => false,
    };
    let probe_expected = probe == ProbeFn::NoProbe && match tile_idx {
        Some(t) => !impl_has_item(&impls[t], "try_probe"),
        None => true,
    };
    let nav_next_unavailable = !fe.nav_ok && match tile_idx {
        Some(t) => !impl_has_item(&impls[t], "nav_next"),
        None => true,
    };
    let refuse_child_node = fns == ChildFns::NoFns && match widget_idx {
        Some(w) => !impl_has_item(&impls[w], "child_node"),
        None => true,
    };
    let layout_idx = find_impl(impls, TraitKind::Layout);
    let viewport_idx = find_impl(impls, TraitKind::Viewport);
    let redundant = match (layout_idx, viewport_idx) {
        (Some(l), Some(v)) => impl_named_kind(&impls[l], "draw") == Some(ItemKind::Fn) && impl_named_kind(
            &impls[v],
            "draw_with_offset",
        ) == Some(ItemKind::Fn),
        _ => false,
    };
    let diags = WidgetDiags {
        find_child_index_expected: !find_child_index && make_child_id,
        handle_scroll_expected: !handle_scroll && translation,
        duplicate_data,
        duplicate_cores: st.dup_cores,
        duplicate_collections: st.dup_collections,
        missing_data: data == DataTy::Missing,
        child_impl_with_fields: g && !fe.children_empty && fe.any_field_child,
        child_impl_with_layout: g && !fe.children_empty && !fe.any_field_child,
        child_impl_with_collection: g && fe.collection.is_some(),
        collection_with_children: !g && fe.collection.is_some() && !fe.children_empty,
        redundant_draw: redundant,
        child_indices_expected,
        probe_conflict,
        probe_expected,
        nav_next_unavailable,
        refuse_child_node,
    };
    let layout_plan = layout_plan_exec(impls, &fe, Ghost(f));
    let viewport_plan = viewport_plan_exec(impls);
    let tile_plan = tile_plan_exec(impls, &fe, Ghost(f));
    let events_plan = events_plan_exec(impls);
    let widget_plan = widget_plan_exec(impls, &fe, Ghost(f));
    Ok(WidgetPlan {
        diags,
        core,
        custom_core: match layout {
            Some(l) => l.has_storage,
            None => false,
        },
        children: st.children,
        data,
        child_fns: fns,
        role: !g && !fe.children_empty,
        probe,
        draw,
        layout: layout_plan,
        viewport: viewport_plan,
        tile: tile_plan,
        events: events_plan,
        widget: widget_plan,
    })
}

/// The attribute `#[widget]` of an `impl_scope!`
#[derive(Clone, Copy, Debug, PartialEq, Eq)]
pub struct AttrImplWidget;

impl AttrImplWidget {
    /// Path of the attribute, by segments
    pub fn path(&self) -> (r: Vec<String>)
        ensures
            r@.len() == 1 && r@[0]@ == "widget"@,
    {
        vec![String::from_str("widget")]
    }

    /// Check the attribute's arguments (the tokens within its brackets, if
    /// any): none are accepted; an error gives the unexpected token
    pub fn parse_args(&self, toks: &Vec<Tok>) -> (r: Result<(), usize>)
        ensures
            r is Ok <==> toks@.len() == 0,
            r matches Err(p) ==> p == 0,
    {
        if toks.len() == 0 {
            Ok(())
        } else {
            Err(0)
        }
    }
}

/// Input of `widget_index!` after expansion within a `#[widget]` scope: a
/// literal (the child's index) or `error_emitted`
#[derive(Clone, Copy, Debug, PartialEq, Eq)]
pub struct BaseInput;

/// `t` is a literal (`true` and `false` included)
pub open spec fn is_lit(t: Tok) -> bool {
    t is Literal || is_ident_spec(t, "true"@) || is_ident_spec(t, "false"@)
}

impl BaseInput {
    /// Parse the input of `widget_index!`: anything but a single literal or
    /// `error_emitted` means the macro was used outside a `#[widget]` scope
    pub fn parse(toks: &Vec<Tok>) -> (r: Result<BaseInput, ()>)
        ensures
            r is Ok <==> (toks@.len() == 1 && (is_lit(toks@[0]) || is_ident_spec(toks@[0], "error_emitted"@))),
    {
        if toks.len() != 1 {
            return Err(());
        }
        let t = &toks[0];
        let lit = match t {
            Tok::Literal(_) => true,
            _ => is_ident(t, "true") || is_ident(t, "false"),
        };
        if lit || is_ident(t, "error_emitted") {
            Ok(BaseInput)
        } else {
            Err(())
        }
    }
}

/// The member named by `self . member`, the whole input of a
/// `widget_index!` call
pub open spec fn widget_input_spec(toks: Seq<Tok>) -> Option<Member> {
    if toks.len() == 3 && is_ident_spec(toks[0], "self"@) && is_punct_spec(toks[1], "."@) {
        member_of(toks[2])
    } else {
        None
    }
}

/// What a `widget_index!(self.member)` call becomes
#[derive(Clone, Copy, Debug, PartialEq, Eq, Structural)]
pub enum IndexReplacement {
    /// The index of the child widget stored in that field
    Index(usize),
    /// `error_emitted`: the input is not `self.member`
    InvalidInput,
    /// `error_emitted`: no child widget is stored in that field
    NoMatch,
}

/// Index of the first child stored in member `m`
pub open spec fn child_index_of(children: Seq<Member>, m: Member, k: int) -> Option<int>
    decreases children.len() - k,
{
    if k < 0 || k >= children.len() {
        None
    } else if member_eq(children[k], m) {
        Some(k)
    } else {
        child_index_of(children, m, k + 1)
    }
}

/// The replacement of a `widget_index!` call with input `toks`, where
/// `children` are the fields holding child widgets, in order
pub open spec fn widget_index_spec(toks: Seq<Tok>, children: Seq<Member>) -> IndexReplacement {
    match widget_input_spec(toks) {
        None => IndexReplacement::InvalidInput,
        Some(m) => match child_index_of(children, m, 0) {
            Some(i) => IndexReplacement::Index(i as usize),
            None => IndexReplacement::NoMatch,
        },
    }
}

fn members_match(a: &Member, b: &Member) -> (r: bool)
    ensures
        r == member_eq(*a, *b),
{
    match (a, b) {
        (Member::Named(x), Member::Named(y)) => *x == *y,
        (Member::Unnamed(x), Member::Unnamed(y)) => *x == *y,
        _ => false,
    }
}

/// Resolve a `widget_index!` call: the index of the child widget named by
/// its input
pub fn widget_index(toks: &Vec<Tok>, children: &Vec<Member>) -> (r: IndexReplacement)
    ensures
        r == widget_index_spec(toks@, children@),
{
    if !(toks.len() == 3 && is_ident(&toks[0], "self") && is_punct(&toks[1], ".")) {
        return IndexReplacement::InvalidInput;
    }
    let m = match parse_member(&toks[2]) {
        Some(m) => m,
        None => return IndexReplacement::InvalidInput,
    };
    let ghost ms = member_of(toks@[2])->0;
    assert(member_eq(m, ms) || (m is Unnamed && ms is Unnamed));
    let mut i: usize = 0;
    while i < children.len()
        invariant
            i <= children@.len(),
            member_eq(m, ms),
            widget_input_spec(toks@) == Some(ms),
            child_index_of(children@, ms, 0) == child_index_of(children@, ms, i as int),
        decreases children@.len() - i,
    {
        if members_match(&children[i], &m) {
            return IndexReplacement::Index(i);
        }
        i += 1;
    }
    IndexReplacement::NoMatch
}

/// The methods every widget's `Tile` implementation gets: access to
/// itself, its status and id (at `core`), and its identification by the
/// string literal `name_lit`
pub open spec fn tile_methods_text(name_lit: Seq<char>, core: Seq<char>) -> Seq<char> {
    "#[inline] fn as_tile(&self) -> &dyn ::kas::Tile { self } #[inline] fn status(&self) -> ::kas::WidgetStatus { "@
        + core + ".status } #[inline] fn id_ref(&self) -> &::kas::Id { &"@ + core
        + "._id } #[inline] fn identify(&self) -> ::kas::util::IdentifyWidget<'_> { ::kas::util::IdentifyWidget::simple("@
        + name_lit + ", self.id_ref()) }"@
}

/// The methods every widget's `Tile` implementation gets (see
/// [`tile_methods_text`])
pub fn required_tile_methods(name_lit: &str, core: &str) -> (r: String)
    ensures
        r@ == tile_methods_text(name_lit@, core@),
{
    let mut t = String::from_str("#[inline] fn as_tile(&self) -> &dyn ::kas::Tile { self } #[inline] fn status(&self) -> ::kas::WidgetStatus { ");
    t.append(core);
    t.append(".status } #[inline] fn id_ref(&self) -> &::kas::Id { &");
    t.append(core);
    t.append("._id } #[inline] fn identify(&self) -> ::kas::util::IdentifyWidget<'_> { ::kas::util::IdentifyWidget::simple(");
    t.append(name_lit);
    t.append(", self.id_ref()) }");
    t
}

/// The `as_node` method of a widget
pub fn widget_as_node() -> (r: String)
    ensures
        r@ == "#[inline] fn as_node<'__a>(&'__a mut self, data: &'__a Self::Data) -> ::kas::Node<'__a> { ::kas::Node::new(self, data) }"@,
{
    String::from_str("#[inline] fn as_node<'__a>(&'__a mut self, data: &'__a Self::Data) -> ::kas::Node<'__a> { ::kas::Node::new(self, data) }")
}

/// Where a child is reached: a field of the widget or of its core (at
/// `core`)
pub open spec fn child_path(c: ChildIdent, core: Seq<char>) -> Seq<char> {
    match c {
        ChildIdent::Field(m) => "self."@ + member_text(m),
        ChildIdent::CoreField(m) => core + "."@ + member_text(m),
    }
}

impl ChildIdent {
    /// The rule of `get_child` for this child at index `i` (core at
    /// `core`)
    pub fn get_rule(&self, core: &str, i: usize) -> (r: String)
        ensures
            r@ == usize_lit(i as int) + " => Some("@ + child_path(*self, core@) + ".as_tile()), "@,
    {
        let mut t = String::new();
        push_usize_lit(&mut t, i);
        t.append(" => Some(");
        match self {
            ChildIdent::Field(m) => {
                t.append("self.");
                t.append(member_to_text(m).as_str());
            },
            ChildIdent::CoreField(m) => {
                t.append(core);
                t.append(".");
                t.append(member_to_text(m).as_str());
            },
        }
        t.append(".as_tile()), ");
        proof {
            assert(t@ =~= usize_lit(i as int) + " => Some("@ + child_path(*self, core@) + ".as_tile()), "@);
        }
        t
    }
}

/// The child is bound to no data (`&()`)
pub open spec fn bound_to_unit(c: Child) -> bool {
    c.binding matches Some(b) && b@ == "&()"@
}

impl Child {
    /// A child stored in a field of the core, bound to no data (`&()`)
    pub fn new_core(ident: Member) -> (r: Child)
        ensures
            r.ident == ChildIdent::CoreField(ident),
            bound_to_unit(r),
    {
        Child { ident: ChildIdent::CoreField(ident), binding: Some(String::from_str("&()")) }
    }
}

} // verus!
