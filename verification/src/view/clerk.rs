//! Data clerks: tokens, length reports and change notifications.

use core::ops::Range;
use vstd::prelude::*;
use vstd::std_specs::cmp::PartialEqSpec;

verus! {

/// Indicates whether an update to a data clerk changes any keys or values
#[derive(Debug, PartialEq, Eq)]
pub enum DataChanges<Index> {
    /// No changes to the data set occurred.
    NoChange,
    /// Changes to the data set may have occurred, but tokens and items are
    /// unchanged for the view range.
    NoPreparedItems,
    /// Tokens and/or items for the given range may require an update; only
    /// the intersection with the view range is updated.
    Range(Range<Index>),
    /// Any change to the data set may have occurred.
    Any,
}

impl<Index: Copy> Clone for DataChanges<Index> {
    fn clone(&self) -> (r: Self)
        ensures
            r == *self,
    {
        match self {
            DataChanges::NoChange => DataChanges::NoChange,
            DataChanges::NoPreparedItems => DataChanges::NoPreparedItems,
            DataChanges::Range(range) => DataChanges::Range(Range { start: range.start, end: range.end }),
            DataChanges::Any => DataChanges::Any,
        }
    }
}

/// A pair which may be borrowed over the first item
#[derive(Debug, Default)]
pub struct Token<K, I> {
    pub key: K,
    pub item: I,
}

impl<K, I> Token<K, I> {
    /// Construct
    pub fn new(key: K, item: I) -> (r: Self)
        ensures
            r.key == key,
            r.item == item,
    {
        Token { key, item }
    }
}

/// Return value of `DataClerk::update_token`
#[derive(Clone, Copy, Debug, PartialEq, Eq, Structural)]
pub enum TokenChanges {
    /// No changes to the token occurred.
    NoChange,
    /// The token still represents the same key, but the item may have changed.
    SameKey,
    /// The data key (and item) may have changed.
    Any,
}

impl TokenChanges {
    /// True if the key may have changed
    pub fn key(self) -> (r: bool)
        ensures
            r == (self == TokenChanges::Any),
    {
        matches!(self, TokenChanges::Any)
    }

    /// True if the item may have changed
    pub fn item(self) -> (r: bool)
        ensures
            r == (self != TokenChanges::NoChange),
    {
        !matches!(self, TokenChanges::NoChange)
    }
}

/// Result of `Clerk::len`
#[derive(Clone, Copy, Debug, PartialEq, Eq, Structural)]
pub enum DataLen<Index> {
    /// Length is known and specified exactly
    Known(Index),
    /// A lower bound on length is specified
    LBound(Index),
}

impl<Index: Copy> DataLen<Index> {
    /// The length payload (known or lower bound), as a spec function
    pub open spec fn spec_len(self) -> Index {
        match self {
            DataLen::Known(len) => len,
            DataLen::LBound(len) => len,
        }
    }

    /// Returns the length payload (known or lower bound)
    pub fn len(&self) -> (r: Index)
        ensures
            r == self.spec_len(),
    {
        match self {
            DataLen::Known(len) => *len,
            DataLen::LBound(len) => *len,
        }
    }

    /// Returns true if a known length given
    pub fn is_known(&self) -> (r: bool)
        ensures
            r == (*self is Known),
    {
        matches!(self, DataLen::Known(_))
    }
}

/// Indicates whether an update to a generator changes any available data
#[derive(Debug, PartialEq, Eq)]
pub enum GeneratorChanges<Index> {
    /// No changes to the data occurred.
    NoChange,
    /// The length may have changed but generated values have not.
    LenOnly,
    /// Items in the given range may require an update.
    Range(Range<Index>),
    /// Any change to the data set may have occurred.
    Any,
}

impl<Index: Copy> GeneratorChanges<Index> {
    /// The changes a generator-backed clerk reports to its view controller
    pub fn into_data_changes(self) -> (r: DataChanges<Index>)
        ensures
            r == match self {
                GeneratorChanges::NoChange => DataChanges::NoChange,
                GeneratorChanges::LenOnly => DataChanges::NoPreparedItems,
                GeneratorChanges::Range(range) => DataChanges::Range(range),
                GeneratorChanges::Any => DataChanges::Any,
            },
    {
        match self {
            GeneratorChanges::NoChange => DataChanges::NoChange,
            GeneratorChanges::LenOnly => DataChanges::NoPreparedItems,
            GeneratorChanges::Range(range) => DataChanges::Range(range),
            GeneratorChanges::Any => DataChanges::Any,
        }
    }
}

/// Common functionality of all clerks
pub trait Clerk<Index> {
    /// Input data type (of the parent widget)
    type Data;

    /// Item type
    type Item;

    /// Get an upper bound on length, if any
    ///
    /// `lbound` is set to allow scrolling a little beyond the current view
    /// position.
    fn len(&self, data: &Self::Data, lbound: Index) -> DataLen<Index>;

    /// Get a mock data item for sizing purposes (default: none)
    fn mock_item(&self, data: &Self::Data) -> (r: Option<Self::Item>) {
        None
    }
}

/// Interface for generators over indexed data
///
/// Items are generated on demand; `generate` is a function of the generator
/// state, the input data and the index, named `spec_generate` in contracts.
pub trait IndexedGenerator<Index>: Clerk<Index> {
    /// The item that [`Self::generate`] gives for `index`
    spec fn spec_generate(&self, data: Self::Data, index: Index) -> Self::Item;

    /// Update the generator, reporting which generated values may change
    fn update(&mut self, data: &Self::Data) -> GeneratorChanges<Index>;

    /// Generate an item
    fn generate(&self, data: &Self::Data, index: Index) -> (item: Self::Item)
        ensures
            item == self.spec_generate(*data, index),
    ;
}

/// What updating a token for `index` may give (`r` and the new token
/// `new`), where `item` is the item generated for `index`: a missing token
/// or one for another index is replaced (`Any`); a token for `index` is kept
/// (`NoChange`) unless `update_item` and the item changed, when it is
/// replaced (`SameKey`)
pub open spec fn generator_token_post<I: PartialEq>(
    index: usize,
    item: I,
    update_item: bool,
    old: Option<Token<usize, I>>,
    r: TokenChanges,
    new: Option<Token<usize, I>>,
) -> bool {
    let same_key = old is Some && old->0.key == index;
    let fresh = Some(Token { key: index, item: item });
    if !same_key {
        r == TokenChanges::Any && new == fresh
    } else if !update_item {
        r == TokenChanges::NoChange && new == old
    } else {
        &&& r != TokenChanges::Any
        &&& r == TokenChanges::NoChange ==> new == old
        &&& r == TokenChanges::SameKey ==> new == fresh
        &&& I::obeys_eq_spec() ==> (r == TokenChanges::NoChange <==> old->0.item.eq_spec(&item))
    }
}

/// What updating a token may give (`r` and the new token `new`) when the
/// index has the key `k`, for which `item` is generated: a missing token is
/// replaced (`Any`); keys and items are compared by their types' `==`
pub open spec fn keyed_token_post<K: PartialEq, I: PartialEq>(
    k: K,
    item: I,
    update_item: bool,
    old: Option<Token<K, I>>,
    r: TokenChanges,
    new: Option<Token<K, I>>,
) -> bool {
    let fresh = Some(Token { key: k, item: item });
    &&& old is None ==> r == TokenChanges::Any && new == fresh
    &&& r == TokenChanges::Any ==> new == fresh
    &&& r == TokenChanges::SameKey ==> new == fresh
    &&& r == TokenChanges::NoChange ==> new == old
    &&& (old is Some && K::obeys_eq_spec()) ==> {
        let t = old->0;
        &&& (r == TokenChanges::Any <==> !t.key.eq_spec(&k))
        &&& t.key.eq_spec(&k) && !update_item ==> r == TokenChanges::NoChange
        &&& t.key.eq_spec(&k) && update_item && I::obeys_eq_spec() ==> (r == TokenChanges::NoChange
            <==> t.item.eq_spec(&item))
    }
}

/// A clerk over an indexed generator updates its tokens as a clerk over a
/// keyed generator does whose key for each index is that index and whose
/// items are the same: for the same old token, `update_item` and generated
/// item, both give the same result and the same new token (items compared
/// by their type's `==`)
pub proof fn law_generator_tokens_agree_with_keyed<I: PartialEq>(
    index: usize,
    item: I,
    update_item: bool,
    old: Option<Token<usize, I>>,
    r1: TokenChanges,
    new1: Option<Token<usize, I>>,
    r2: TokenChanges,
    new2: Option<Token<usize, I>>,
)
    requires
        I::obeys_eq_spec(),
        generator_token_post(index, item, update_item, old, r1, new1),
        keyed_token_post(index, item, update_item, old, r2, new2),
    ensures
        r1 == r2,
        new1 == new2,
{
}

/// Update the token of a generator-backed clerk for `index`
///
/// A token for the same index is kept as it is unless `update_item`; then
/// the item is generated again and the token is replaced only where the
/// item changed (`SameKey`). A missing token, or one for another index, is
/// replaced by a token holding the generated item (`Any`).
pub fn generator_update_token<G: IndexedGenerator<usize>>(
    generator: &G,
    data: &G::Data,
    index: usize,
    update_item: bool,
    token: &mut Option<Token<usize, G::Item>>,
) -> (r: TokenChanges) where G::Item: PartialEq
    ensures
        generator_token_post(
            index,
            generator.spec_generate(*data, index),
            update_item,
            *old(token),
            r,
            *final(token),
        ),
{
    let same_key = match &*token {
        Some(t) => t.key == index,
        None => false,
    };
    if !update_item && same_key {
        return TokenChanges::NoChange;
    }
    let item = generator.generate(data, index);
    if same_key {
        let unchanged = match &*token {
            Some(t) => t.item == item,
            None => false,
        };
        if unchanged {
            return TokenChanges::NoChange;
        }
        *token = Some(Token { key: index, item });
        return TokenChanges::SameKey;
    }
    *token = Some(Token { key: index, item });
    TokenChanges::Any
}

/// Interface for generators over keyed data: an index may have a key (the
/// data may be sparse), and items are generated from keys; `key` and
/// `generate` are functions of the generator state and the input data, named
/// `spec_key` and `spec_generate` in contracts
pub trait DataGenerator<Index>: Clerk<Index> {
    /// Key type
    type Key;

    /// The key that [`Self::key`] gives for `index`
    spec fn spec_key(&self, data: Self::Data, index: Index) -> Option<Self::Key>;

    /// The item that [`Self::generate`] gives for `key`
    spec fn spec_generate(&self, data: Self::Data, key: Self::Key) -> Self::Item;

    /// Update the generator, reporting which generated values may change
    fn update(&mut self, data: &Self::Data) -> GeneratorChanges<Index>;

    /// The key for `index`, if available
    fn key(&self, data: &Self::Data, index: Index) -> (r: Option<Self::Key>)
        ensures
            r == self.spec_key(*data, index),
    ;

    /// Generate an item
    fn generate(&self, data: &Self::Data, key: &Self::Key) -> (item: Self::Item)
        ensures
            item == self.spec_generate(*data, *key),
    ;
}

/// Update the token of a clerk over a keyed generator for `index`
///
/// Without a key the token is cleared (`NoChange`). A token for the same
/// key is kept as it is unless `update_item`; then the item is generated
/// again and the token is replaced only where the item changed (`SameKey`).
/// A missing token, or one for another key, is replaced by a token holding
/// the key and its generated item (`Any`). Keys and items are compared with
/// their types' `==`.
pub fn keyed_update_token<Index, G: DataGenerator<Index>>(
    generator: &G,
    data: &G::Data,
    index: Index,
    update_item: bool,
    token: &mut Option<Token<G::Key, G::Item>>,
) -> (r: TokenChanges) where G::Key: PartialEq, G::Item: PartialEq
    ensures
        match generator.spec_key(*data, index) {
            None => r == TokenChanges::NoChange && *final(token) is None,
            Some(k) => keyed_token_post(
                k,
                generator.spec_generate(*data, k),
                update_item,
                *old(token),
                r,
                *final(token),
            ),
        },
{
    let key = match generator.key(data, index) {
        Some(k) => k,
        None => {
            *token = None;
            return TokenChanges::NoChange;
        },
    };
    let same_key = match &*token {
        Some(t) => t.key == key,
        None => false,
    };
    if !update_item && same_key {
        return TokenChanges::NoChange;
    }
    let item = generator.generate(data, &key);
    if same_key {
        let unchanged = match &*token {
            Some(t) => t.item == item,
            None => false,
        };
        if unchanged {
            return TokenChanges::NoChange;
        }
        *token = Some(Token { key, item });
        return TokenChanges::SameKey;
    }
    *token = Some(Token { key, item });
    TokenChanges::Any
}

/// The lower bound on the number of items of a clerk whose length is
/// `len`: that length (a clerk without a length gives its own bound)
pub fn min_len<Index>(len: Option<Index>, expected: Index) -> (r: Index)
    requires
        len is Some,
    ensures
        r == len->0,
{
    match len {
        Some(l) => l,
        None => expected,
    }
}

/// Iterator over the keys `start..end` of a list, each with a unit version
#[derive(Clone, Copy, Debug, PartialEq, Eq)]
pub struct KeyIter {
    pub start: usize,
    pub end: usize,
}

impl KeyIter {
    /// The next key, if any
    pub fn next(&mut self) -> (r: Option<(usize, ())>)
        ensures
            old(self).start < old(self).end ==> r == Some((old(self).start, ())) && final(self).start
                == old(self).start + 1 && final(self).end == old(self).end,
            old(self).start >= old(self).end ==> r is None && *final(self) == *old(self),
    {
        let mut item = None;
        if self.start < self.end {
            item = Some((self.start, ()));
            self.start += 1;
        }
        item
    }

    /// Exact bounds on the number of remaining keys
    pub fn size_hint(&self) -> (r: (usize, Option<usize>))
        ensures
            r.0 == if self.start <= self.end {
                self.end - self.start
            } else {
                0
            },
            r.1 == Some(r.0),
    {
        let len = self.end.saturating_sub(self.start);
        (len, Some(len))
    }
}

/// Iterate over the keys of a slice viewed as list data, from `start` and at
/// most `limit` keys, both limited to the slice's length
pub fn iter_from<T>(list: &[T], start: usize, limit: usize) -> (r: KeyIter)
    requires
        start + limit <= usize::MAX,
    ensures
        r.start == if start <= list@.len() {
            start as int
        } else {
            list@.len() as int
        },
        r.end == if start + limit <= list@.len() {
            start + limit
        } else {
            list@.len() as int
        },
{
    let len = list.len();
    KeyIter {
        start: if start <= len {
            start
        } else {
            len
        },
        end: if start + limit <= len {
            start + limit
        } else {
            len
        },
    }
}

} // verus!
