//! What the widget attribute macros read of their scope: the trait impls
//! written by the user, with the names of their items.

use crate::macros::tokens::{copy_string, text_eq};
use vstd::prelude::*;

verus! {

/// The trait of an impl in the scope (`Widget`, `kas::Widget` and
/// `::kas::Widget` all name the same trait, and so on)
#[derive(Clone, Copy, Debug, PartialEq, Eq, Structural)]
pub enum TraitKind {
    Widget,
    Layout,
    Viewport,
    Tile,
    Events,
    Other,
}

/// Kind of an impl item
#[derive(Clone, Copy, Debug, PartialEq, Eq, Structural)]
pub enum ItemKind {
    Fn,
    Type,
    Other,
}

/// An item of an impl: its kind and name
#[derive(Clone, Debug, PartialEq, Eq)]
pub struct ImplItem {
    pub kind: ItemKind,
    pub name: String,
}

/// An impl of the scope: its trait, its items and the type given by an
/// item `type Data = ..`, if any
#[derive(Clone, Debug, PartialEq, Eq)]
pub struct ImplDesc {
    pub trait_: TraitKind,
    pub items: Vec<ImplItem>,
    pub data_ty: Option<String>,
}

/// Index of the first impl of `kind` at or after `k`
pub open spec fn first_impl_from(impls: Seq<ImplDesc>, kind: TraitKind, k: int) -> Option<int>
    decreases impls.len() - k,
{
    if k < 0 || k >= impls.len() {
        None
    } else if impls[k].trait_ == kind {
        Some(k)
    } else {
        first_impl_from(impls, kind, k + 1)
    }
}

/// Index of the first impl of `kind`
pub open spec fn first_impl(impls: Seq<ImplDesc>, kind: TraitKind) -> Option<int> {
    first_impl_from(impls, kind, 0)
}

proof fn lemma_first_impl_range(impls: Seq<ImplDesc>, kind: TraitKind, k: int)
    requires
        0 <= k,
    ensures
        first_impl_from(impls, kind, k) matches Some(i) ==> k <= i < impls.len() && impls[i].trait_
            == kind,
    decreases impls.len() - k,
{
    if k < impls.len() && impls[k].trait_ != kind {
        lemma_first_impl_range(impls, kind, k + 1);
    }
}

/// Index of the first impl of `kind`
pub fn find_impl(impls: &Vec<ImplDesc>, kind: TraitKind) -> (r: Option<usize>)
    ensures
        match r {
            Some(i) => Some(i as int),
            None => None,
        } == first_impl(impls@, kind),
        r matches Some(i) ==> i < impls@.len() && impls@[i as int].trait_ == kind,
{
    proof {
        lemma_first_impl_range(impls@, kind, 0);
    }
    let mut i: usize = 0;
    while i < impls.len()
        invariant
            i <= impls@.len(),
            first_impl(impls@, kind) == first_impl_from(impls@, kind, i as int),
        decreases impls@.len() - i,
    {
        if impls[i].trait_ == kind {
            return Some(i);
        }
        i += 1;
    }
    None
}

/// The impl has a function or type item called `name`
pub open spec fn has_item(item: ImplDesc, name: Seq<char>) -> bool {
    exists|k: int|
        0 <= k < item.items@.len() && #[trigger] item.items@[k].name@ == name && item.items@[k].kind
            != ItemKind::Other
}

/// True when the impl has a function or type item called `name`
pub fn impl_has_item(item: &ImplDesc, name: &str) -> (r: bool)
    ensures
        r == has_item(*item, name@),
{
    let mut k: usize = 0;
    while k < item.items.len()
        invariant
            k <= item.items@.len(),
            forall|j: int|
                0 <= j < k ==> !(#[trigger] item.items@[j].name@ == name@ && item.items@[j].kind
                    != ItemKind::Other),
        decreases item.items@.len() - k,
    {
        if item.items[k].kind != ItemKind::Other && text_eq(&item.items[k].name, name) {
            assert(item.items@[k as int].name@ == name@);
            return true;
        }
        k += 1;
    }
    false
}

/// The impl has a function item called `name`
pub open spec fn has_fn(item: ImplDesc, name: Seq<char>) -> bool {
    exists|k: int|
        0 <= k < item.items@.len() && #[trigger] item.items@[k].name@ == name && item.items@[k].kind
            == ItemKind::Fn
}

/// True when the impl has a function item called `name`
pub fn impl_has_fn(item: &ImplDesc, name: &str) -> (r: bool)
    ensures
        r == has_fn(*item, name@),
{
    let mut k: usize = 0;
    while k < item.items.len()
        invariant
            k <= item.items@.len(),
            forall|j: int|
                0 <= j < k ==> !(#[trigger] item.items@[j].name@ == name@ && item.items@[j].kind
                    == ItemKind::Fn),
        decreases item.items@.len() - k,
    {
        if item.items[k].kind == ItemKind::Fn && text_eq(&item.items[k].name, name) {
            assert(item.items@[k as int].name@ == name@);
            return true;
        }
        k += 1;
    }
    false
}

/// The function and type items of an impl, with their indices, in order
pub open spec fn idents_of(items: Seq<ImplItem>) -> Seq<(int, Seq<char>)>
    decreases items.len(),
{
    if items.len() == 0 {
        Seq::empty()
    } else {
        idents_of(items.drop_last()) + if items.last().kind != ItemKind::Other {
            seq![(items.len() - 1, items.last().name@)]
        } else {
            Seq::empty()
        }
    }
}

/// The function and type items of an impl, with their indices
pub fn collect_idents(item: &ImplDesc) -> (r: Vec<(usize, String)>)
    ensures
        r@.len() == idents_of(item.items@).len(),
        forall|k: int|
            0 <= k < r@.len() ==> (#[trigger] r@[k].0 as int, r@[k].1@) == idents_of(item.items@)[k],
{
    let mut r: Vec<(usize, String)> = Vec::new();
    let mut i: usize = 0;
    while i < item.items.len()
        invariant
            i <= item.items@.len(),
            r@.len() == idents_of(item.items@.take(i as int)).len(),
            forall|k: int|
                0 <= k < r@.len() ==> (#[trigger] r@[k].0 as int, r@[k].1@) == idents_of(item.items@.take(i as int))[k],
        decreases item.items@.len() - i,
    {
        proof {
            assert(item.items@.take(i + 1).drop_last() =~= item.items@.take(i as int));
        }
        if item.items[i].kind != ItemKind::Other {
            r.push((i, copy_string(&item.items[i].name)));
        }
        i += 1;
    }
    proof {
        assert(item.items@.take(item.items@.len() as int) =~= item.items@);
    }
    r
}

} // verus!
