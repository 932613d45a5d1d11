//! The `#[derive_widget]` attribute: a widget wrapping one inner widget
//! field, deriving its layout, tile and widget methods from that field.

use crate::macros::autoimpl::{member_eq, Member};
use crate::macros::scope::{
    find_impl, first_impl, has_item, impl_has_item, ImplDesc, TraitKind,
};
use crate::macros::tokens::{copy_string, copy_tok, is_ident, is_punct, render_toks, Tok};
use vstd::prelude::*;

verus! {

/// A `#[widget]` attribute (or another attribute) on a field
#[derive(Clone, Debug, PartialEq, Eq)]
pub enum WidgetAttr {
    /// `#[widget]`
    Path,
    /// `#[widget(expr)]`: a data binding
    Paren(String),
    /// `#[widget[..]]` or `#[widget{..}]`
    OtherDelimiter,
    /// `#[widget = ..]`
    NameValue,
    /// Any other attribute
    NotWidget,
}

/// A field: its member, type (as written) and attributes
#[derive(Clone, Debug, PartialEq, Eq)]
pub struct WidgetField {
    pub member: Member,
    pub ty: String,
    pub attrs: Vec<WidgetAttr>,
}

/// The item the attribute is applied to
#[derive(Clone, Copy, Debug, PartialEq, Eq, Structural)]
pub enum ItemShape {
    /// A struct with fields
    Struct,
    /// A unit struct
    UnitStruct,
    /// Not a struct
    NotStruct,
}

/// Why `#[derive_widget]` fails
#[derive(Clone, Copy, Debug, PartialEq, Eq, Structural)]
pub enum DeriveError {
    /// "expected struct, not unit struct"
    UnitStruct,
    /// "expected struct"
    NotStruct,
    /// `#[widget[..]]` or `#[widget{..}]` on this field
    BadDelimiter(usize),
    /// `#[widget = ..]` on this field
    NameValue(usize),
    /// "expected `#[widget]` on inner field"
    NoInner,
    /// "usage requires definition of `type Data`": the inner field maps
    /// the data (`#[widget(..)]`) but no data type is given
    MissingData,
}

/// A method (or item) generated by `#[derive_widget]`
#[derive(Clone, Copy, Debug, PartialEq, Eq, Structural)]
pub enum DeriveMethod {
    Rect,
    SizeRules,
    SetRect,
    TryProbe,
    Draw,
    DataType,
    AsNode,
    ChildNode,
    Configure,
    Update,
    Send,
    Replay,
    NavNext,
    /// `as_tile`, `id_ref`, `id`, `identify`, `child_indices`, `get_child`,
    /// `find_child_index`
    RequiredTile,
    /// `nav_next`, `translation`, `probe`
    TileForwarding,
    Role,
}

/// Where generated methods go: into the user's impl at this index, or
/// into a new impl
#[derive(Clone, Debug, PartialEq, Eq)]
pub enum ImplPlan {
    Extend(usize, Vec<DeriveMethod>),
    Generate(Vec<DeriveMethod>),
}

/// The data type named by a `type Data` item of a `Widget` impl, taken
/// from the first such impl which has one
pub open spec fn widget_impl_data(impls: Seq<ImplDesc>) -> Option<Seq<char>>
    decreases impls.len(),
{
    if impls.len() == 0 {
        None
    } else {
        match widget_impl_data(impls.drop_last()) {
            Some(d) => Some(d),
            None => if impls.last().trait_ == TraitKind::Widget && impls.last().data_ty is Some {
                Some(impls.last().data_ty->0@)
            } else {
                None
            },
        }
    }
}

/// Indices of `Events` impls (not used: a warning each)
pub open spec fn events_impls(impls: Seq<ImplDesc>) -> Seq<usize>
    decreases impls.len(),
{
    if impls.len() == 0 {
        Seq::empty()
    } else if impls.last().trait_ == TraitKind::Events {
        events_impls(impls.drop_last()).push((impls.len() - 1) as usize)
    } else {
        events_impls(impls.drop_last())
    }
}

/// State of the scan over field attributes
pub struct Scan {
    pub inner: Option<Member>,
    pub data_ty: Option<Seq<char>>,
    pub binding: Option<Seq<char>>,
    /// (field, attribute) of each `#[widget]` after the first (an error;
    /// the attribute is dropped)
    pub duplicates: Seq<(usize, usize)>,
    /// A binding was given without a data type
    pub missing_data: bool,
    pub err: Option<DeriveError>,
}

/// One attribute of field `i`
pub open spec fn scan_attr(s: Scan, i: int, j: int, f: WidgetField, a: WidgetAttr) -> Scan {
    if s.err is Some || a is NotWidget {
        s
    } else if s.inner is Some {
        Scan { duplicates: s.duplicates.push((i as usize, j as usize)), ..s }
    } else {
        let s1 = Scan { inner: Some(f.member), ..s };
        match a {
            WidgetAttr::Path => if s.data_ty is None {
                Scan { data_ty: Some("<"@ + f.ty@ + " as ::kas::Widget>::Data"@), ..s1 }
            } else {
                s1
            },
            WidgetAttr::Paren(b) => Scan { binding: Some(b@), missing_data: s.data_ty is None, ..s1 },
            WidgetAttr::OtherDelimiter => Scan { err: Some(DeriveError::BadDelimiter(i as usize)), ..s1 },
            WidgetAttr::NameValue => Scan { err: Some(DeriveError::NameValue(i as usize)), ..s1 },
            WidgetAttr::NotWidget => s1,
        }
    }
}

/// The first `n` attributes of field `i`
pub open spec fn scan_field(s: Scan, i: int, f: WidgetField, n: int) -> Scan
    decreases n,
{
    if n <= 0 {
        s
    } else {
        scan_attr(scan_field(s, i, f, n - 1), i, n - 1, f, f.attrs@[n - 1])
    }
}

/// The first `n` fields
pub open spec fn scan_fields(s: Scan, fields: Seq<WidgetField>, n: int) -> Scan
    decreases n,
{
    if n <= 0 {
        s
    } else {
        let f = fields[n - 1];
        scan_field(scan_fields(s, fields, n - 1), n - 1, f, f.attrs@.len() as int)
    }
}

/// The scan over all fields, starting from the data type given as argument
/// or by a `Widget` impl
pub open spec fn scan_all(args_data_ty: Option<Seq<char>>, impls: Seq<ImplDesc>, fields: Seq<WidgetField>) -> Scan {
    let d = match args_data_ty {
        Some(d) => Some(d),
        None => widget_impl_data(impls),
    };
    scan_fields(
        Scan { inner: None, data_ty: d, binding: None, duplicates: Seq::empty(), missing_data: false, err: None },
        fields,
        fields.len() as int,
    )
}

/// Methods among `names` which the impl lacks, in order
pub open spec fn missing(item: ImplDesc, names: Seq<(Seq<char>, DeriveMethod)>) -> Seq<DeriveMethod>
    decreases names.len(),
{
    if names.len() == 0 {
        Seq::empty()
    } else if has_item(item, names.last().0) {
        missing(item, names.drop_last())
    } else {
        missing(item, names.drop_last()).push(names.last().1)
    }
}

/// Layout methods, by item name
pub open spec fn layout_methods() -> Seq<(Seq<char>, DeriveMethod)> {
    seq![
        ("rect"@, DeriveMethod::Rect),
        ("size_rules"@, DeriveMethod::SizeRules),
        ("set_rect"@, DeriveMethod::SetRect),
        ("try_probe"@, DeriveMethod::TryProbe),
        ("draw"@, DeriveMethod::Draw),
    ]
}

/// Widget items, by item name
pub open spec fn widget_methods() -> Seq<(Seq<char>, DeriveMethod)> {
    seq![
        ("Data"@, DeriveMethod::DataType),
        ("as_node"@, DeriveMethod::AsNode),
        ("child_node"@, DeriveMethod::ChildNode),
        ("_configure"@, DeriveMethod::Configure),
        ("_update"@, DeriveMethod::Update),
        ("_send"@, DeriveMethod::Send),
        ("_replay"@, DeriveMethod::Replay),
        ("_nav_next"@, DeriveMethod::NavNext),
    ]
}

/// The generated methods of one trait: missing ones added to the user's
/// first impl, or all in a new impl
pub open spec fn plan_for(impls: Seq<ImplDesc>, kind: TraitKind, names: Seq<(Seq<char>, DeriveMethod)>) -> (Option<int>, Seq<DeriveMethod>) {
    match first_impl(impls, kind) {
        Some(i) => (Some(i), missing(impls[i], names)),
        None => (None, names.map_values(|p: (Seq<char>, DeriveMethod)| p.1)),
    }
}

/// Tile items: the required and forwarding methods always, `role` unless
/// the user's impl has one
pub open spec fn tile_plan(impls: Seq<ImplDesc>) -> (Option<int>, Seq<DeriveMethod>) {
    match first_impl(impls, TraitKind::Tile) {
        Some(i) => (
            Some(i),
            if has_item(impls[i], "role"@) {
                seq![DeriveMethod::RequiredTile, DeriveMethod::TileForwarding]
            } else {
                seq![DeriveMethod::RequiredTile, DeriveMethod::TileForwarding, DeriveMethod::Role]
            },
        ),
        None => (None, seq![DeriveMethod::RequiredTile, DeriveMethod::TileForwarding, DeriveMethod::Role]),
    }
}

/// A plan as a spec value
pub open spec fn plan_view(p: ImplPlan) -> (Option<int>, Seq<DeriveMethod>) {
    match p {
        ImplPlan::Extend(i, m) => (Some(i as int), m@),
        ImplPlan::Generate(m) => (None, m@),
    }
}

/// The outcome of `#[derive_widget]`
#[derive(Clone, Debug, PartialEq, Eq)]
pub struct DerivePlan {
    /// `Events` impls, which are not used (a warning each)
    pub events_warnings: Vec<usize>,
    /// (field, attribute) of each `#[widget]` after the first (an error;
    /// the attribute is dropped)
    pub duplicates: Vec<(usize, usize)>,
    /// The inner widget field
    pub inner: Member,
    /// The data type
    pub data_ty: String,
    /// The data binding of the inner field, if any
    pub data_binding: Option<String>,
    pub layout: ImplPlan,
    pub widget: ImplPlan,
    pub tile: ImplPlan,
}

/// Once an inner field is chosen, a data type is known unless a binding
/// came without one
pub open spec fn scan_ok(s: Scan) -> bool {
    s.err is None && s.inner is Some ==> (s.data_ty is Some || s.missing_data)
}

proof fn lemma_scan_field_ok(s: Scan, i: int, f: WidgetField, n: int)
    requires
        scan_ok(s),
    ensures
        scan_ok(scan_field(s, i, f, n)),
    decreases n,
{
    if n > 0 {
        lemma_scan_field_ok(s, i, f, n - 1);
    }
}

proof fn lemma_scan_fields_ok(s: Scan, fields: Seq<WidgetField>, n: int)
    requires
        scan_ok(s),
    ensures
        scan_ok(scan_fields(s, fields, n)),
    decreases n,
{
    if n > 0 {
        lemma_scan_fields_ok(s, fields, n - 1);
        let f = fields[n - 1];
        lemma_scan_field_ok(scan_fields(s, fields, n - 1), n - 1, f, f.attrs@.len() as int);
    }
}

/// The result of `#[derive_widget]` as a spec value
pub open spec fn derive_spec(
    shape: ItemShape,
    args_data_ty: Option<Seq<char>>,
    impls: Seq<ImplDesc>,
    fields: Seq<WidgetField>,
) -> Result<(Scan, Seq<usize>), DeriveError> {
    let s = scan_all(args_data_ty, impls, fields);
    match shape {
        ItemShape::UnitStruct => Err(DeriveError::UnitStruct),
        ItemShape::NotStruct => Err(DeriveError::NotStruct),
        ItemShape::Struct => if s.err is Some {
            Err(s.err->0)
        } else if s.inner is None {
            Err(DeriveError::NoInner)
        } else if s.missing_data {
            Err(DeriveError::MissingData)
        } else {
            Ok((s, events_impls(impls)))
        },
    }
}

/// A copy of a member
pub fn copy_member(m: &Member) -> (r: Member)
    ensures
        member_eq(r, *m),
        r matches Member::Unnamed(i) ==> *m == Member::Unnamed(i),
{
    match m {
        Member::Named(s) => Member::Named(copy_string(s)),
        Member::Unnamed(i) => Member::Unnamed(*i),
    }
}

/// Options of strings with the same texts
pub open spec fn opt_text_eq(a: Option<String>, b: Option<Seq<char>>) -> bool {
    match (a, b) {
        (Some(x), Some(y)) => x@ == y,
        (None, None) => true,
        _ => false,
    }
}

/// Options of members naming the same field
pub open spec fn opt_member_eq(a: Option<Member>, b: Option<Member>) -> bool {
    match (a, b) {
        (Some(x), Some(y)) => member_eq(x, y),
        (None, None) => true,
        _ => false,
    }
}

fn data_from_impls(impls: &Vec<ImplDesc>) -> (r: Option<String>)
    ensures
        opt_text_eq(r, widget_impl_data(impls@)),
{
    let mut d: Option<String> = None;
    let mut i: usize = 0;
    while i < impls.len()
        invariant
            i <= impls@.len(),
            opt_text_eq(d, widget_impl_data(impls@.take(i as int))),
        decreases impls@.len() - i,
    {
        proof {
            assert(impls@.take(i + 1).drop_last() =~= impls@.take(i as int));
        }
        if d.is_none() && impls[i].trait_ == TraitKind::Widget {
            match &impls[i].data_ty {
                Some(t) => {
                    d = Some(copy_string(t));
                },
                None => {},
            }
        }
        i += 1;
    }
    proof {
        assert(impls@.take(impls@.len() as int) =~= impls@);
    }
    d
}

fn events_indices(impls: &Vec<ImplDesc>) -> (r: Vec<usize>)
    ensures
        r@ == events_impls(impls@),
{
    let mut r: Vec<usize> = Vec::new();
    let mut i: usize = 0;
    while i < impls.len()
        invariant
            i <= impls@.len(),
            r@ == events_impls(impls@.take(i as int)),
        decreases impls@.len() - i,
    {
        proof {
            assert(impls@.take(i + 1).drop_last() =~= impls@.take(i as int));
        }
        if impls[i].trait_ == TraitKind::Events {
            r.push(i);
        }
        i += 1;
    }
    proof {
        assert(impls@.take(impls@.len() as int) =~= impls@);
    }
    r
}

/// Exec state of the attribute scan
struct ScanExec {
    inner: Option<Member>,
    data_ty: Option<String>,
    binding: Option<String>,
    duplicates: Vec<(usize, usize)>,
    missing_data: bool,
    err: Option<DeriveError>,
}

/// The exec state holds the spec state
pub open spec fn scan_matches(e: ScanExecView, s: Scan) -> bool {
    &&& opt_member_eq(e.inner, s.inner)
    &&& opt_text_eq(e.data_ty, s.data_ty)
    &&& opt_text_eq(e.binding, s.binding)
    &&& e.duplicates == s.duplicates
    &&& e.missing_data == s.missing_data
    &&& e.err == s.err
}

/// The parts of the exec scan state that matter
pub struct ScanExecView {
    pub inner: Option<Member>,
    pub data_ty: Option<String>,
    pub binding: Option<String>,
    pub duplicates: Seq<(usize, usize)>,
    pub missing_data: bool,
    pub err: Option<DeriveError>,
}

spec fn view_of(e: ScanExec) -> ScanExecView {
    ScanExecView {
        inner: e.inner,
        data_ty: e.data_ty,
        binding: e.binding,
        duplicates: e.duplicates@,
        missing_data: e.missing_data,
        err: e.err,
    }
}

fn scan_one(st: &mut ScanExec, i: usize, j: usize, f: &WidgetField, a: &WidgetAttr, Ghost(s): Ghost<Scan>)
    requires
        scan_matches(view_of(*old(st)), s),
    ensures
        scan_matches(view_of(*final(st)), scan_attr(s, i as int, j as int, *f, *a)),
{
    if st.err.is_some() {
        return;
    }
    match a {
        WidgetAttr::NotWidget => {
            return;
        },
        _ => {},
    }
    if st.inner.is_some() {
        st.duplicates.push((i, j));
        return;
    }
    st.inner = Some(copy_member(&f.member));
    match a {
        WidgetAttr::Path => {
            if st.data_ty.is_none() {
                let mut t = String::from_str("<");
                t.append(f.ty.as_str());
                t.append(" as ::kas::Widget>::Data");
                st.data_ty = Some(t);
            }
        },
        WidgetAttr::Paren(b) => {
            st.missing_data = st.data_ty.is_none();
            st.binding = Some(copy_string(b));
        },
        WidgetAttr::OtherDelimiter => {
            st.err = Some(DeriveError::BadDelimiter(i));
        },
        WidgetAttr::NameValue => {
            st.err = Some(DeriveError::NameValue(i));
        },
        WidgetAttr::NotWidget => {},
    }
}

/// The methods of `names` (given by item name) which `item` lacks
fn missing_methods(item: &ImplDesc, names: &[&str], methods: &[DeriveMethod], Ghost(spec_names): Ghost<Seq<(Seq<char>, DeriveMethod)>>) -> (r: Vec<DeriveMethod>)
    requires
        names@.len() == methods@.len(),
        spec_names.len() == names@.len(),
        forall|k: int| 0 <= k < names@.len() ==> #[trigger] spec_names[k] == (names@[k]@, methods@[k]),
    ensures
        r@ == missing(*item, spec_names),
{
    let mut r: Vec<DeriveMethod> = Vec::new();
    let mut k: usize = 0;
    while k < names.len()
        invariant
            k <= names@.len(),
            names@.len() == methods@.len(),
            spec_names.len() == names@.len(),
            forall|q: int| 0 <= q < names@.len() ==> #[trigger] spec_names[q] == (names@[q]@, methods@[q]),
            r@ == missing(*item, spec_names.take(k as int)),
        decreases names@.len() - k,
    {
        proof {
            assert(spec_names.take(k + 1).drop_last() =~= spec_names.take(k as int));
            assert(spec_names.take(k + 1).last() == spec_names[k as int]);
        }
        if !impl_has_item(item, names[k]) {
            r.push(methods[k]);
        }
        k += 1;
    }
    proof {
        assert(spec_names.take(names@.len() as int) =~= spec_names);
    }
    r
}

/// The layout and widget plans
fn plan_trait(impls: &Vec<ImplDesc>, kind: TraitKind, names: &[&str], methods: &[DeriveMethod], Ghost(spec_names): Ghost<Seq<(Seq<char>, DeriveMethod)>>) -> (r: ImplPlan)
    requires
        names@.len() == methods@.len(),
        spec_names.len() == names@.len(),
        forall|k: int| 0 <= k < names@.len() ==> #[trigger] spec_names[k] == (names@[k]@, methods@[k]),
    ensures
        plan_view(r) == plan_for(impls@, kind, spec_names),
{
    match find_impl(impls, kind) {
        Some(i) => ImplPlan::Extend(i, missing_methods(&impls[i], names, methods, Ghost(spec_names))),
        None => {
            let mut all: Vec<DeriveMethod> = Vec::new();
            let mut k: usize = 0;
            while k < methods.len()
                invariant
                    k <= methods@.len(),
                    names@.len() == methods@.len(),
                    spec_names.len() == names@.len(),
                    forall|q: int| 0 <= q < names@.len() ==> #[trigger] spec_names[q] == (names@[q]@, methods@[q]),
                    all@ == spec_names.take(k as int).map_values(|p: (Seq<char>, DeriveMethod)| p.1),
                decreases methods@.len() - k,
            {
                all.push(methods[k]);
                proof {
                    assert(all@ =~= spec_names.take(k + 1).map_values(|p: (Seq<char>, DeriveMethod)| p.1));
                }
                k += 1;
            }
            proof {
                assert(spec_names.take(methods@.len() as int) =~= spec_names);
            }
            ImplPlan::Generate(all)
        },
    }
}

/// Apply `#[derive_widget]`: choose the inner field and data type and plan
/// the generated methods
pub fn derive_widget(
    shape: ItemShape,
    args_data_ty: Option<String>,
    impls: &Vec<ImplDesc>,
    fields: &Vec<WidgetField>,
) -> (r: Result<DerivePlan, DeriveError>)
    ensures
        match (
            r,
            derive_spec(
                shape,
                match args_data_ty {
                    Some(d) => Some(d@),
                    None => None,
                },
                impls@,
                fields@,
            ),
        ) {
            (Ok(p), Ok((s, ev))) => {
                &&& p.events_warnings@ == ev
                &&& p.duplicates@ == s.duplicates
                &&& opt_member_eq(Some(p.inner), s.inner)
                &&& opt_text_eq(Some(p.data_ty), s.data_ty)
                &&& opt_text_eq(p.data_binding, s.binding)
                &&& plan_view(p.layout) == plan_for(impls@, TraitKind::Layout, layout_methods())
                &&& plan_view(p.widget) == plan_for(impls@, TraitKind::Widget, widget_methods())
                &&& plan_view(p.tile) == tile_plan(impls@)
            },
            (Err(e), Err(f)) => e == f,
            _ => false,
        },
{
    let ghost args_spec = match &args_data_ty {
        Some(d) => Some(d@),
        None => None,
    };
    let events_warnings = events_indices(impls);
    let d = match args_data_ty {
        Some(d) => Some(d),
        None => data_from_impls(impls),
    };
    match shape {
        ItemShape::UnitStruct => return Err(DeriveError::UnitStruct),
        ItemShape::NotStruct => return Err(DeriveError::NotStruct),
        ItemShape::Struct => {},
    }
    let ghost s0 = Scan {
        inner: None,
        data_ty: match args_spec {
            Some(d) => Some(d),
            None => widget_impl_data(impls@),
        },
        binding: None,
        duplicates: Seq::empty(),
        missing_data: false,
        err: None,
    };
    let mut st = ScanExec { inner: None, data_ty: d, binding: None, duplicates: Vec::new(), missing_data: false, err: None };
    let mut i: usize = 0;
    while i < fields.len()
        invariant
            i <= fields@.len(),
            scan_matches(view_of(st), scan_fields(s0, fields@, i as int)),
        decreases fields@.len() - i,
    {
        let f = &fields[i];
        let ghost before = scan_fields(s0, fields@, i as int);
        let mut j: usize = 0;
        while j < f.attrs.len()
            invariant
                j <= f.attrs@.len(),
                *f == fields@[i as int],
                scan_matches(view_of(st), scan_field(before, i as int, *f, j as int)),
            decreases f.attrs@.len() - j,
        {
            scan_one(&mut st, i, j, f, &f.attrs[j], Ghost(scan_field(before, i as int, *f, j as int)));
            j += 1;
        }
        i += 1;
    }
    assert(scan_fields(s0, fields@, fields@.len() as int) == scan_all(args_spec, impls@, fields@));
    if let Some(e) = st.err {
        return Err(e);
    }
    let inner = match st.inner {
        Some(m) => m,
        None => return Err(DeriveError::NoInner),
    };
    if st.missing_data {
        return Err(DeriveError::MissingData);
    }
    let data_ty = match st.data_ty {
        Some(t) => t,
        None => String::new(),
    };
    let layout_names: [&str; 5] = ["rect", "size_rules", "set_rect", "try_probe", "draw"];
    let layout_ms: [DeriveMethod; 5] = [
        DeriveMethod::Rect,
        DeriveMethod::SizeRules,
        DeriveMethod::SetRect,
        DeriveMethod::TryProbe,
        DeriveMethod::Draw,
    ];
    assert(layout_names@ =~= seq!["rect", "size_rules", "set_rect", "try_probe", "draw"]);
    assert(layout_ms@ =~= seq![
        DeriveMethod::Rect,
        DeriveMethod::SizeRules,
        DeriveMethod::SetRect,
        DeriveMethod::TryProbe,
        DeriveMethod::Draw,
    ]);
    let layout = plan_trait(impls, TraitKind::Layout, &layout_names, &layout_ms, Ghost(layout_methods()));
    let widget_names: [&str; 8] = ["Data", "as_node", "child_node", "_configure", "_update", "_send", "_replay", "_nav_next"];
    let widget_ms: [DeriveMethod; 8] = [
        DeriveMethod::DataType,
        DeriveMethod::AsNode,
        DeriveMethod::ChildNode,
        DeriveMethod::Configure,
        DeriveMethod::Update,
        DeriveMethod::Send,
        DeriveMethod::Replay,
        DeriveMethod::NavNext,
    ];
    assert(widget_names@ =~= seq!["Data", "as_node", "child_node", "_configure", "_update", "_send", "_replay", "_nav_next"]);
    assert(widget_ms@ =~= seq![
        DeriveMethod::DataType,
        DeriveMethod::AsNode,
        DeriveMethod::ChildNode,
        DeriveMethod::Configure,
        DeriveMethod::Update,
        DeriveMethod::Send,
        DeriveMethod::Replay,
        DeriveMethod::NavNext,
    ]);
    let widget = plan_trait(impls, TraitKind::Widget, &widget_names, &widget_ms, Ghost(widget_methods()));
    let tile = match find_impl(impls, TraitKind::Tile) {
        Some(t) => {
            if impl_has_item(&impls[t], "role") {
                ImplPlan::Extend(t, vec![DeriveMethod::RequiredTile, DeriveMethod::TileForwarding])
            } else {
                ImplPlan::Extend(t, vec![DeriveMethod::RequiredTile, DeriveMethod::TileForwarding, DeriveMethod::Role])
            }
        },
        None => ImplPlan::Generate(vec![DeriveMethod::RequiredTile, DeriveMethod::TileForwarding, DeriveMethod::Role]),
    };
    let ghost sa = scan_all(args_spec, impls@, fields@);
    proof {
        lemma_scan_fields_ok(s0, fields@, fields@.len() as int);
    }
    Ok(DerivePlan {
        events_warnings,
        duplicates: st.duplicates,
        inner,
        data_ty,
        data_binding: st.binding,
        layout,
        widget,
        tile,
    })
}

/// Arguments of `#[derive_widget(type Data = Ty)]`: the data type's tokens
/// (all tokens after `=`); none for an empty list
pub open spec fn derive_args_spec(toks: Seq<Tok>) -> Result<Option<Seq<char>>, usize> {
    if toks.len() == 0 {
        Ok(None)
    } else if !crate::macros::tokens::is_ident_spec(toks[0], "type"@) {
        Err(0)
    } else if !(toks.len() > 1 && crate::macros::tokens::is_ident_spec(toks[1], "Data"@)) {
        Err(1)
    } else if !(toks.len() > 2 && crate::macros::tokens::is_punct_spec(toks[2], "="@)) {
        Err(2)
    } else if toks.len() == 3 {
        Err(3)
    } else {
        Ok(Some(crate::macros::tokens::render(toks.subrange(3, toks.len() as int))))
    }
}

/// The attribute `#[derive_widget]` of an `impl_scope!`
#[derive(Clone, Copy, Debug, PartialEq, Eq)]
pub struct AttrDeriveWidget;

impl AttrDeriveWidget {
    /// Path of the attribute, by segments
    pub fn path(&self) -> (r: Vec<String>)
        ensures
            r@.len() == 1 && r@[0]@ == "derive_widget"@,
    {
        vec![String::from_str("derive_widget")]
    }

    /// Parse the attribute's arguments (the tokens within the brackets, if
    /// any): the data type, or the position of the unexpected token
    pub fn parse_args(&self, toks: &Vec<Tok>) -> (r: Result<Option<String>, usize>)
        ensures
            match (r, derive_args_spec(toks@)) {
                (Ok(Some(a)), Ok(Some(b))) => a@ == b,
                (Ok(None), Ok(None)) => true,
                (Err(a), Err(b)) => a == b,
                _ => false,
            },
    {
        if toks.len() == 0 {
            return Ok(None);
        }
        if !is_ident(&toks[0], "type") {
            return Err(0);
        }
        if !(toks.len() > 1 && is_ident(&toks[1], "Data")) {
            return Err(1);
        }
        if !(toks.len() > 2 && is_punct(&toks[2], "=")) {
            return Err(2);
        }
        if toks.len() == 3 {
            return Err(3);
        }
        let mut rest: Vec<Tok> = Vec::new();
        let mut i: usize = 3;
        while i < toks.len()
            invariant
                3 <= i <= toks@.len(),
                rest@ == toks@.subrange(3, i as int),
            decreases toks@.len() - i,
        {
            rest.push(copy_tok(&toks[i]));
            assert(rest@ =~= toks@.subrange(3, i + 1));
            i += 1;
        }
        Ok(Some(render_toks(&rest)))
    }
}

} // verus!
