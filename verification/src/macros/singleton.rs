//! Anonymous widget structs (`impl_singleton!` and `make_widget!`): the
//! struct's fields, the generic parameters added for them, and the field
//! initialisers of the single instance.

use crate::macros::collection::{decimal, push_decimal};
use crate::macros::delegate::texts_are;
use crate::macros::tokens::{push_tok_text, render, render_toks, tok_sep, tok_text, Tok};
use vstd::prelude::*;

verus! {

/// Kind of a generic parameter
#[derive(Debug, Clone, Copy, PartialEq, Eq, Structural)]
pub enum ParamKind {
    Type,
    Lifetime,
    Const,
}

/// A generic parameter: its kind, identifier, and the tokens after the
/// identifier (bounds, type, default)
#[derive(Debug, Clone, PartialEq, Eq)]
pub struct GenericParam {
    pub kind: ParamKind,
    pub ident: String,
    pub rest: Vec<Tok>,
}

/// The type of a field of an anonymous struct
#[derive(Debug, Clone, PartialEq, Eq)]
pub enum ChildType {
    /// A given type
    Fixed(Vec<Tok>),
    /// A given type with generic parameters of its own
    InternGeneric(Vec<GenericParam>, Vec<Tok>),
    /// A fresh generic type, with these bounds if given
    Generic(Option<Vec<Vec<Tok>>>),
}

/// A field of an anonymous struct, as written
#[derive(Debug, Clone, PartialEq, Eq)]
pub struct SingletonField {
    pub ident: Option<String>,
    /// Marked `#[widget]`
    pub is_widget: bool,
    pub ty: ChildType,
    /// Initial value, if given
    pub value: Option<Vec<Tok>>,
}

/// Style of the struct
#[derive(Debug, Clone, Copy, PartialEq, Eq, Structural)]
pub enum StructStyle {
    Unit,
    Tuple,
    Regular,
}

/// A field of the generated struct: identifier (none for a tuple field)
/// and the source text of its type
#[derive(Debug, Clone, PartialEq, Eq)]
pub struct PlannedField {
    pub ident: Option<String>,
    pub ty: String,
}

/// The generated struct: its fields, the generic parameters to add (source
/// texts), and the field initialisers of the instance (source text)
#[derive(Debug, Clone, PartialEq, Eq)]
pub struct StructPlan {
    pub fields: Vec<PlannedField>,
    pub params: Vec<String>,
    pub values: String,
}

/// The text of an optional string
pub open spec fn opt_text(o: Option<String>) -> Option<Seq<char>> {
    match o {
        Some(s) => Some(s@),
        None => None,
    }
}

/// What precedes the identifier of a generic parameter of `kind`
pub open spec fn kind_prefix(kind: ParamKind) -> Seq<char> {
    match kind {
        ParamKind::Type => ""@,
        ParamKind::Lifetime => "'"@,
        ParamKind::Const => "const "@,
    }
}

/// Source text of parameter `p` under the identifier `name`
pub open spec fn param_text(p: GenericParam, name: Seq<char>) -> Seq<char> {
    kind_prefix(p.kind) + name + " "@ + render(p.rest@)
}

/// The identifiers of `ps`
pub open spec fn param_names(ps: Seq<GenericParam>) -> Seq<Seq<char>> {
    Seq::new(ps.len(), |j: int| ps[j].ident@)
}

/// The fresh name of the `index`-th field's parameter `name`
pub open spec fn field_param_name(index: int, name: Seq<char>) -> Seq<char> {
    "_Field"@ + decimal(index as nat) + name
}

/// Source text of `toks` with every identifier in `names` renamed to the
/// `index`-th field's fresh name for it
pub open spec fn renamed(toks: Seq<Tok>, names: Seq<Seq<char>>, index: int) -> Seq<char>
    decreases toks.len(),
{
    if toks.len() == 0 {
        Seq::empty()
    } else {
        let t = toks.last();
        renamed(toks.drop_last(), names, index) + match t {
            Tok::Ident(s) => if names.contains(s@) {
                field_param_name(index, s@)
            } else {
                s@
            },
            _ => tok_text(t),
        } + tok_sep(t)
    }
}

/// Source text of a list of bounds, joined by `+`
pub open spec fn bounds_text(bs: Seq<Vec<Tok>>) -> Seq<char>
    decreases bs.len(),
{
    if bs.len() == 0 {
        Seq::empty()
    } else if bs.len() == 1 {
        render(bs[0]@)
    } else {
        bounds_text(bs.drop_last()) + "+ "@ + render(bs.last()@)
    }
}

/// The bound of widget fields
pub open spec fn widget_bound() -> Seq<char> {
    "::kas::Widget"@
}

/// The bounds `bs` with the widget bound added
pub open spec fn with_widget(bs: Seq<Vec<Tok>>) -> Seq<char> {
    if bs.len() == 0 {
        widget_bound()
    } else {
        bounds_text(bs) + "+ "@ + widget_bound()
    }
}

/// The member of the `index`-th field of an `impl_singleton!` struct: its
/// name (`_field{index}` when unnamed) or, in a tuple struct, its index
pub open spec fn singleton_member(style: StructStyle, f: SingletonField, index: int) -> Seq<char> {
    match style {
        StructStyle::Tuple => decimal(index as nat),
        _ => match f.ident {
            Some(s) => s@,
            None => "_field"@ + decimal(index as nat),
        },
    }
}

/// The fresh type name of the `index`-th field of an `impl_singleton!`
/// struct
pub open spec fn singleton_ty_name(index: int) -> Seq<char> {
    "_Field"@ + decimal(index as nat)
}

/// The generated field of the `index`-th field of an `impl_singleton!`
/// struct: identifier and type text
pub open spec fn singleton_field(style: StructStyle, f: SingletonField, index: int) -> (Option<Seq<char>>, Seq<char>) {
    (
        match style {
            StructStyle::Tuple => opt_text(f.ident),
            _ => Some(singleton_member(style, f, index)),
        },
        match f.ty {
            ChildType::Fixed(t) => render(t@),
            ChildType::InternGeneric(ps, t) => renamed(t@, param_names(ps@), index),
            ChildType::Generic(_) => singleton_ty_name(index),
        },
    )
}

/// Renamed copies of `ps` for the `index`-th field
pub open spec fn renamed_params(ps: Seq<GenericParam>, index: int) -> Seq<Seq<char>> {
    Seq::new(ps.len(), |j: int| param_text(ps[j], field_param_name(index, ps[j].ident@)))
}

/// The generic parameters added for the `index`-th field of an
/// `impl_singleton!` struct: its own (renamed), or its fresh type with
/// the given bounds (and the widget bound for a widget)
pub open spec fn singleton_params(f: SingletonField, index: int) -> Seq<Seq<char>> {
    let name = singleton_ty_name(index);
    match f.ty {
        ChildType::Fixed(_) => Seq::empty(),
        ChildType::InternGeneric(ps, _) => renamed_params(ps@, index),
        ChildType::Generic(Some(bs)) => seq![
            name + ": "@ + if f.is_widget {
                with_widget(bs@)
            } else {
                bounds_text(bs@)
            },
        ],
        ChildType::Generic(None) => seq![
            if f.is_widget {
                name + ": "@ + widget_bound()
            } else {
                name
            },
        ],
    }
}

/// The initialiser of a field `member`: its value, or the default
pub open spec fn value_piece(member: Seq<char>, f: SingletonField) -> Seq<char> {
    member + ": "@ + match f.value {
        Some(v) => render(v@),
        None => "Default::default()"@,
    } + ", "@
}

/// All generic parameters added for the fields of an `impl_singleton!`
/// struct
pub open spec fn singleton_params_all(fields: Seq<SingletonField>) -> Seq<Seq<char>>
    decreases fields.len(),
{
    if fields.len() == 0 {
        Seq::empty()
    } else {
        singleton_params_all(fields.drop_last()) + singleton_params(fields.last(), fields.len() - 1)
    }
}

/// The field initialisers of an `impl_singleton!` instance
pub open spec fn singleton_values(style: StructStyle, fields: Seq<SingletonField>) -> Seq<char>
    decreases fields.len(),
{
    if fields.len() == 0 {
        Seq::empty()
    } else {
        singleton_values(style, fields.drop_last()) + value_piece(
            singleton_member(style, fields.last(), fields.len() - 1),
            fields.last(),
        )
    }
}

/// `plan` is the struct of `fields`, with field `k` planned by `field`,
/// parameters `params` and initialisers `values`
pub open spec fn plan_matches(
    plan: StructPlan,
    n: int,
    field: spec_fn(int) -> (Option<Seq<char>>, Seq<char>),
    params: Seq<Seq<char>>,
    values: Seq<char>,
) -> bool {
    &&& plan.fields@.len() == n
    &&& forall|k: int|
        0 <= k < n ==> (opt_text(#[trigger] plan.fields@[k].ident), plan.fields@[k].ty@) == field(k)
    &&& texts_are(plan.params@, params)
    &&& plan.values@ == values
}

/// A copy of an optional string
fn copy_opt(o: &Option<String>) -> (r: Option<String>)
    ensures
        opt_text(r) == opt_text(*o),
{
    match o {
        Some(s) => Some(s.clone()),
        None => None,
    }
}

/// Whether `s` is the identifier of one of `ps`
fn has_param(ps: &Vec<GenericParam>, s: &String) -> (r: bool)
    ensures
        r == param_names(ps@).contains(s@),
{
    let mut j: usize = 0;
    while j < ps.len()
        invariant
            j <= ps@.len(),
            forall|k: int| 0 <= k < j ==> ps@[k].ident@ != s@,
        decreases ps@.len() - j,
    {
        if ps[j].ident == *s {
            assert(param_names(ps@)[j as int] == s@);
            return true;
        }
        j += 1;
    }
    assert forall|k: int| 0 <= k < param_names(ps@).len() implies param_names(ps@)[k] != s@ by {}
    false
}

/// Append the fresh name of the `index`-th field's parameter `name`
fn push_field_param_name(out: &mut String, index: usize, name: &str)
    ensures
        final(out)@ == old(out)@ + field_param_name(index as int, name@),
{
    out.append("_Field");
    push_decimal(out, index);
    out.append(name);
    proof {
        assert(final(out)@ =~= old(out)@ + field_param_name(index as int, name@));
    }
}

/// Source text of `toks` with the parameters of `ps` renamed
fn renamed_text(toks: &Vec<Tok>, ps: &Vec<GenericParam>, index: usize) -> (r: String)
    ensures
        r@ == renamed(toks@, param_names(ps@), index as int),
{
    let mut out = String::new();
    let mut i: usize = 0;
    while i < toks.len()
        invariant
            i <= toks@.len(),
            out@ == renamed(toks@.take(i as int), param_names(ps@), index as int),
        decreases toks@.len() - i,
    {
        proof {
            assert(toks@.take(i + 1).drop_last() =~= toks@.take(i as int));
            assert(toks@.take(i + 1).last() == toks@[i as int]);
        }
        let hit = match &toks[i] {
            Tok::Ident(s) => has_param(ps, s),
            _ => false,
        };
        if hit {
            match &toks[i] {
                Tok::Ident(s) => {
                    push_field_param_name(&mut out, index, s.as_str());
                    out.append(" ");
                    proof {
                        reveal_strlit(" ");
                    }
                },
                _ => {},
            }
        } else {
            push_tok_text(&mut out, &toks[i]);
        }
        i += 1;
    }
    proof {
        assert(toks@.take(toks@.len() as int) =~= toks@);
    }
    out
}

/// Source text of bounds joined by `+`
fn bounds_string(bs: &Vec<Vec<Tok>>) -> (r: String)
    ensures
        r@ == bounds_text(bs@),
{
    let mut out = String::new();
    let mut i: usize = 0;
    while i < bs.len()
        invariant
            i <= bs@.len(),
            out@ == bounds_text(bs@.take(i as int)),
        decreases bs@.len() - i,
    {
        proof {
            assert(bs@.take(i + 1).drop_last() =~= bs@.take(i as int));
            assert(bs@.take(i + 1).last() == bs@[i as int]);
        }
        if i > 0 {
            out.append("+ ");
        }
        out.append(render_toks(&bs[i]).as_str());
        i += 1;
    }
    proof {
        assert(bs@.take(bs@.len() as int) =~= bs@);
    }
    out
}

/// Source text of bounds with the widget bound added
fn with_widget_string(bs: &Vec<Vec<Tok>>) -> (r: String)
    ensures
        r@ == with_widget(bs@),
{
    if bs.len() == 0 {
        String::from_str("::kas::Widget")
    } else {
        let mut out = bounds_string(bs);
        out.append("+ ");
        out.append("::kas::Widget");
        out
    }
}

/// Source text of parameter `p` under a new identifier
fn param_string(p: &GenericParam, name: String) -> (r: String)
    ensures
        r@ == param_text(*p, name@),
{
    let mut out = match p.kind {
        ParamKind::Type => String::new(),
        ParamKind::Lifetime => String::from_str("'"),
        ParamKind::Const => String::from_str("const "),
    };
    proof {
        reveal_strlit("");
        assert(""@ =~= Seq::<char>::empty());
    }
    out.append(name.as_str());
    out.append(" ");
    out.append(render_toks(&p.rest).as_str());
    out
}

/// Source text of the value of a field (its initialiser without member)
fn push_value(out: &mut String, member: &str, f: &SingletonField)
    ensures
        final(out)@ == old(out)@ + value_piece(member@, *f),
{
    out.append(member);
    out.append(": ");
    match &f.value {
        Some(v) => out.append(render_toks(v).as_str()),
        None => out.append("Default::default()"),
    }
    out.append(", ");
}

/// The generated struct of `impl_singleton!`: members are the fields'
/// names (`_field{index}` for an unnamed field of a regular struct) or
/// tuple indices; a field's own generic parameters are renamed
/// `_Field{index}{name}` (in the parameter and in the type); a generic
/// field's type is `_Field{index}`, bounded as given (plus the widget
/// bound for a `#[widget]` field); a field without value is
/// default-initialised
pub fn singleton_plan(style: StructStyle, fields: &Vec<SingletonField>) -> (r: StructPlan)
    requires
        style is Unit ==> fields@.len() == 0,
    ensures
        plan_matches(
            r,
            fields@.len() as int,
            |k: int| singleton_field(style, fields@[k], k),
            singleton_params_all(fields@),
            singleton_values(style, fields@),
        ),
{
    let mut planned: Vec<PlannedField> = Vec::new();
    let mut params: Vec<String> = Vec::new();
    let mut values = String::new();
    let mut i: usize = 0;
    while i < fields.len()
        invariant
            i <= fields@.len(),
            style is Unit ==> fields@.len() == 0,
            planned@.len() == i,
            forall|k: int|
                0 <= k < i ==> (opt_text(#[trigger] planned@[k].ident), planned@[k].ty@) == singleton_field(
                    style,
                    fields@[k],
                    k,
                ),
            texts_are(params@, singleton_params_all(fields@.take(i as int))),
            values@ == singleton_values(style, fields@.take(i as int)),
        decreases fields@.len() - i,
    {
        let f = &fields[i];
        proof {
            assert(fields@.take(i + 1).drop_last() =~= fields@.take(i as int));
            assert(fields@.take(i + 1).last() == fields@[i as int]);
        }
        let mut member = String::new();
        match style {
            StructStyle::Tuple => push_decimal(&mut member, i),
            _ => match &f.ident {
                Some(s) => member.append(s.as_str()),
                None => {
                    member.append("_field");
                    push_decimal(&mut member, i);
                },
            },
        }
        assert(member@ == singleton_member(style, *f, i as int));
        let ident = match style {
            StructStyle::Tuple => copy_opt(&f.ident),
            _ => Some(member.clone()),
        };
        let mut ty_name = String::from_str("_Field");
        push_decimal(&mut ty_name, i);
        let ghost before = params@;
        let ty = match &f.ty {
            ChildType::Fixed(t) => render_toks(t),
            ChildType::InternGeneric(ps, t) => {
                let mut j: usize = 0;
                while j < ps.len()
                    invariant
                        j <= ps@.len(),
                        params@.len() == before.len() + j,
                        forall|k: int| 0 <= k < before.len() ==> #[trigger] params@[k] == before[k],
                        forall|k: int|
                            0 <= k < j ==> #[trigger] params@[before.len() + k]@ == renamed_params(ps@, i as int)[k],
                    decreases ps@.len() - j,
                {
                    let mut name = String::new();
                    push_field_param_name(&mut name, i, ps[j].ident.as_str());
                    params.push(param_string(&ps[j], name));
                    j += 1;
                }
                renamed_text(t, ps, i)
            },
            ChildType::Generic(bound) => {
                let mut p = ty_name.clone();
                match bound {
                    Some(bs) => {
                        p.append(": ");
                        if f.is_widget {
                            p.append(with_widget_string(bs).as_str());
                        } else {
                            p.append(bounds_string(bs).as_str());
                        }
                    },
                    None => {
                        if f.is_widget {
                            p.append(": ");
                            p.append("::kas::Widget");
                        }
                    },
                }
                params.push(p);
                ty_name.clone()
            },
        };
        proof {
            let added = singleton_params(*f, i as int);
            assert(params@.len() == before.len() + added.len());
            assert forall|k: int| 0 <= k < params@.len() implies #[trigger] params@[k]@ == (
            singleton_params_all(fields@.take(i as int)) + added)[k] by {
                if k >= before.len() {
                    assert(params@[before.len() + (k - before.len())] == params@[k]);
                }
            }
            assert(singleton_params_all(fields@.take(i + 1)) == singleton_params_all(fields@.take(i as int))
                + added);
        }
        push_value(&mut values, member.as_str(), f);
        planned.push(PlannedField { ident, ty });
        i += 1;
    }
    proof {
        assert(fields@.take(fields@.len() as int) =~= fields@);
    }
    StructPlan { fields: planned, params, values }
}

/// The member of the `index`-th field of a `make_widget!` struct: its
/// name, or `mw_anon_{index}` when unnamed
pub open spec fn mw_member(f: SingletonField, index: int) -> Seq<char> {
    match f.ident {
        Some(s) => s@,
        None => "mw_anon_"@ + decimal(index as nat),
    }
}

/// The fresh type name of the `index`-th field of a `make_widget!` struct
pub open spec fn mw_ty_name(index: int) -> Seq<char> {
    "MWAnon"@ + decimal(index as nat)
}

/// The generated field of the `index`-th field of a `make_widget!` struct
pub open spec fn mw_field(f: SingletonField, index: int) -> (Option<Seq<char>>, Seq<char>) {
    (
        Some(mw_member(f, index)),
        match f.ty {
            ChildType::Fixed(t) => render(t@),
            ChildType::InternGeneric(_, t) => render(t@),
            ChildType::Generic(_) => mw_ty_name(index),
        },
    )
}

/// The generic parameters added for the `index`-th field of a
/// `make_widget!` struct: its own (unchanged), or its fresh type, bounded
/// (as given, plus the widget bound) only for a `#[widget]` field
pub open spec fn mw_params(f: SingletonField, index: int) -> Seq<Seq<char>> {
    let name = mw_ty_name(index);
    match f.ty {
        ChildType::Fixed(_) => Seq::empty(),
        ChildType::InternGeneric(ps, _) => Seq::new(ps@.len(), |j: int| param_text(ps@[j], ps@[j].ident@)),
        ChildType::Generic(b) => seq![
            if f.is_widget {
                name + ": "@ + match b {
                    Some(bs) => with_widget(bs@),
                    None => widget_bound(),
                }
            } else {
                name
            },
        ],
    }
}

/// All generic parameters added for the fields of a `make_widget!` struct
pub open spec fn mw_params_all(fields: Seq<SingletonField>) -> Seq<Seq<char>>
    decreases fields.len(),
{
    if fields.len() == 0 {
        Seq::empty()
    } else {
        mw_params_all(fields.drop_last()) + mw_params(fields.last(), fields.len() - 1)
    }
}

/// The field initialisers of a `make_widget!` instance
pub open spec fn mw_values(fields: Seq<SingletonField>) -> Seq<char>
    decreases fields.len(),
{
    if fields.len() == 0 {
        Seq::empty()
    } else {
        mw_values(fields.drop_last()) + value_piece(mw_member(fields.last(), fields.len() - 1), fields.last())
    }
}

/// The generated struct of `make_widget!` (always with named fields):
/// members are the fields' names (`mw_anon_{index}` when unnamed); a
/// field's own generic parameters are added as they are; a generic
/// field's type is `MWAnon{index}`, bounded only when it is a `#[widget]`
/// field (its bounds plus the widget bound); a field without value is
/// default-initialised
pub fn make_widget_plan(fields: &Vec<SingletonField>) -> (r: StructPlan)
    ensures
        plan_matches(
            r,
            fields@.len() as int,
            |k: int| mw_field(fields@[k], k),
            mw_params_all(fields@),
            mw_values(fields@),
        ),
{
    let mut planned: Vec<PlannedField> = Vec::new();
    let mut params: Vec<String> = Vec::new();
    let mut values = String::new();
    let mut i: usize = 0;
    while i < fields.len()
        invariant
            i <= fields@.len(),
            planned@.len() == i,
            forall|k: int|
                0 <= k < i ==> (opt_text(#[trigger] planned@[k].ident), planned@[k].ty@) == mw_field(fields@[k], k),
            texts_are(params@, mw_params_all(fields@.take(i as int))),
            values@ == mw_values(fields@.take(i as int)),
        decreases fields@.len() - i,
    {
        let f = &fields[i];
        proof {
            assert(fields@.take(i + 1).drop_last() =~= fields@.take(i as int));
            assert(fields@.take(i + 1).last() == fields@[i as int]);
        }
        let mut member = String::new();
        match &f.ident {
            Some(s) => member.append(s.as_str()),
            None => {
                member.append("mw_anon_");
                push_decimal(&mut member, i);
            },
        }
        assert(member@ == mw_member(*f, i as int));
        let mut ty_name = String::from_str("MWAnon");
        push_decimal(&mut ty_name, i);
        let ghost before = params@;
        let ty = match &f.ty {
            ChildType::Fixed(t) => render_toks(t),
            ChildType::InternGeneric(ps, t) => {
                let mut j: usize = 0;
                while j < ps.len()
                    invariant
                        j <= ps@.len(),
                        params@.len() == before.len() + j,
                        forall|k: int| 0 <= k < before.len() ==> #[trigger] params@[k] == before[k],
                        forall|k: int|
                            0 <= k < j ==> #[trigger] params@[before.len() + k]@ == param_text(
                                ps@[k],
                                ps@[k].ident@,
                            ),
                    decreases ps@.len() - j,
                {
                    params.push(param_string(&ps[j], ps[j].ident.clone()));
                    j += 1;
                }
                render_toks(t)
            },
            ChildType::Generic(bound) => {
                let mut p = ty_name.clone();
                if f.is_widget {
                    p.append(": ");
                    match bound {
                        Some(bs) => p.append(with_widget_string(bs).as_str()),
                        None => p.append("::kas::Widget"),
                    }
                }
                params.push(p);
                ty_name.clone()
            },
        };
        proof {
            let added = mw_params(*f, i as int);
            assert(params@.len() == before.len() + added.len());
            assert forall|k: int| 0 <= k < params@.len() implies #[trigger] params@[k]@ == (mw_params_all(
                fields@.take(i as int),
            ) + added)[k] by {
                if k >= before.len() {
                    assert(params@[before.len() + (k - before.len())] == params@[k]);
                }
            }
            assert(mw_params_all(fields@.take(i + 1)) == mw_params_all(fields@.take(i as int)) + added);
        }
        push_value(&mut values, member.as_str(), f);
        planned.push(PlannedField { ident: Some(member), ty });
        i += 1;
    }
    proof {
        assert(fields@.take(fields@.len() as int) =~= fields@);
    }
    StructPlan { fields: planned, params, values }
}

} // verus!
