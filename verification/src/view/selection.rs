//! Selection of data items by key, as kept by the list and grid views.
//!
//! The set of selected keys is held in a [`LinearSet`]; its contents are the
//! sequence of keys in storage order.

use linear_map::set::LinearSet;
use vstd::prelude::*;

verus! {

#[verifier::external_type_specification]
#[verifier::external_body]
#[verifier::reject_recursive_types(T)]
pub struct ExLinearSet<T>(LinearSet<T>);

/// The keys held by a `LinearSet<usize>`, in storage order.
pub uninterp spec fn linear_set_items(s: LinearSet<usize>) -> Seq<usize>;

/// `LinearSet::new`: the new set holds no key.
#[verifier::external_body]
fn set_new() -> (s: LinearSet<usize>)
    ensures
        linear_set_items(s) == Seq::<usize>::empty(),
{
    LinearSet::new()
}

/// `LinearSet::insert`: returns true and appends `v` when `v` was absent,
/// else returns false and leaves the contents unchanged.
#[verifier::external_body]
fn set_insert(s: &mut LinearSet<usize>, v: usize) -> (r: bool)
    ensures
        r == !linear_set_items(*old(s)).contains(v),
        r ==> linear_set_items(*final(s)) == linear_set_items(*old(s)).push(v),
        !r ==> linear_set_items(*final(s)) == linear_set_items(*old(s)),
{
    s.insert(v)
}

/// `LinearSet::remove`: returns true iff `v` was present; the first
/// occurrence of `v` is swap-removed (replaced by the last key, which is then
/// dropped).
#[verifier::external_body]
fn set_remove(s: &mut LinearSet<usize>, v: usize) -> (r: bool)
    ensures
        r == linear_set_items(*old(s)).contains(v),
        !r ==> linear_set_items(*final(s)) == linear_set_items(*old(s)),
        r ==> ({
            let items = linear_set_items(*old(s));
            let i = items.index_of_first(v)->Some_0;
            linear_set_items(*final(s)) == items.update(i, items.last()).drop_last()
        }),
{
    s.remove(&v)
}

/// `LinearSet::contains`: true iff `v` is held.
#[verifier::external_body]
fn set_contains(s: &LinearSet<usize>, v: usize) -> (r: bool)
    ensures
        r == linear_set_items(*s).contains(v),
{
    s.contains(&v)
}

/// `LinearSet::clear`: removes every key.
#[verifier::external_body]
fn set_clear(s: &mut LinearSet<usize>)
    ensures
        linear_set_items(*final(s)) == Seq::<usize>::empty(),
{
    s.clear()
}

/// `LinearSet::len`: the number of keys held.
#[verifier::external_body]
fn set_len(s: &LinearSet<usize>) -> (r: usize)
    ensures
        r == linear_set_items(*s).len(),
{
    s.len()
}

/// `LinearSet::iter`, collected: the keys in storage order.
#[verifier::external_body]
fn set_keys(s: &LinearSet<usize>) -> (r: Vec<usize>)
    ensures
        r@ == linear_set_items(*s),
{
    s.iter().cloned().collect()
}

/// The predicate handed to `retain` when keeping available keys
pub fn is_available(item: &usize, available: &Vec<usize>) -> (r: bool)
    ensures
        r == available@.contains(*item),
{
    let mut i: usize = 0;
    while i < available.len()
        invariant
            i <= available.len(),
            forall|j: int| 0 <= j < i ==> available@[j] != *item,
        decreases available.len() - i,
    {
        if available[i] == *item {
            return true;
        }
        i = i + 1;
    }
    false
}

/// `LinearSet::retain` with the predicate [`is_available`]: keeps the keys
/// occurring in `available`, in order.
#[verifier::external_body]
fn set_retain_available(s: &mut LinearSet<usize>, available: &Vec<usize>)
    ensures
        linear_set_items(*final(s)) == linear_set_items(*old(s)).filter(
            |x: usize| available@.contains(x),
        ),
{
    s.retain(|item| is_available(item, available))
}

/// Selection mode used by the list and grid views
#[derive(Clone, Copy, Debug, Default, PartialEq, Eq, Structural)]
pub enum SelectionMode {
    /// Disable selection
    #[default]
    Disabled,
    /// Support single-item selection. Selecting another item automatically
    /// clears the prior selection (without sending [`SelectionMsg::Deselect`]).
    Single,
    /// Support multi-item selection.
    Multiple,
}

/// A press which ended on an item selects it: the press succeeded,
/// selection is enabled, no kinetic scroll is running, the item shows the
/// key that was pressed and the press ended inside it
pub fn press_end_selects(success: bool, mode: SelectionMode, kinetic: bool, same_key: bool, inside: bool) -> (r:
    bool)
    ensures
        r == (success && mode != SelectionMode::Disabled && !kinetic && same_key && inside),
{
    let enabled = match mode {
        SelectionMode::Disabled => false,
        _ => true,
    };
    success && enabled && !kinetic && same_key && inside
}

/// Used to notify selection and deselection of view children
#[derive(Clone, Debug, PartialEq, Eq, Structural)]
pub enum SelectionMsg<K> {
    /// Selection of item
    Select(K),
    /// Deselection of item
    ///
    /// Note: not emitted due to selection of another item in single-item selection mode.
    Deselect(K),
}

/// The selection state of a view controller: a mode and a set of keys
pub struct Selection {
    mode: SelectionMode,
    set: LinearSet<usize>,
}

/// Removing `v` from a key sequence without duplicates, as a set
pub open spec fn set_without(s: Set<usize>, v: usize) -> Set<usize> {
    s.remove(v)
}

/// Toggling `v` in a set of keys (as on activation in multi-selection mode)
pub open spec fn toggled(s: Set<usize>, v: usize) -> Set<usize> {
    if s.contains(v) {
        s.remove(v)
    } else {
        s.insert(v)
    }
}

/// The flag shown on a view widget for a key: `Some(true)` if selected,
/// otherwise `Some(false)` in multi-selection mode, else `None`.
pub open spec fn spec_selected_flag(mode: SelectionMode, selected: bool) -> Option<bool> {
    if selected {
        Some(true)
    } else if mode == SelectionMode::Multiple {
        Some(false)
    } else {
        None
    }
}

proof fn lemma_swap_remove(items: Seq<usize>, v: usize)
    requires
        items.no_duplicates(),
        items.contains(v),
    ensures
        ({
            let i = items.index_of_first(v)->Some_0;
            let r = items.update(i, items.last()).drop_last();
            &&& r.no_duplicates()
            &&& r.to_set() == items.to_set().remove(v)
            &&& r.len() == items.len() - 1
        }),
{
    items.index_of_first_ensures(v);
    let i = items.index_of_first(v)->Some_0;
    let r = items.update(i, items.last()).drop_last();
    let n = items.len() - 1;
    assert forall|a: int, b: int| 0 <= a < r.len() && 0 <= b < r.len() && a != b implies r[a]
        != r[b] by {
        if a == i {
            assert(r[a] == items[n]);
            assert(r[b] == items[b]);
        } else if b == i {
            assert(r[b] == items[n]);
            assert(r[a] == items[a]);
        } else {
            assert(r[a] == items[a]);
            assert(r[b] == items[b]);
        }
    }
    assert forall|x: usize| r.to_set().contains(x) <==> items.to_set().remove(v).contains(x) by {
        if r.to_set().contains(x) {
            let k = choose|k: int| 0 <= k < r.len() && r[k] == x;
            if k == i {
                assert(items[n] == x);
                assert(n != i);
            } else {
                assert(items[k] == x);
            }
        }
        if items.to_set().remove(v).contains(x) {
            let k = choose|k: int| 0 <= k < items.len() && items[k] == x;
            assert(k != i);
            if k == n {
                assert(r[i] == x);
            } else {
                assert(r[k] == x);
            }
        }
    }
}

proof fn lemma_push_set(items: Seq<usize>, v: usize)
    requires
        items.no_duplicates(),
        !items.contains(v),
    ensures
        items.push(v).no_duplicates(),
        items.push(v).to_set() == items.to_set().insert(v),
{
    assert forall|x: usize| items.push(v).to_set().contains(x) <==> items.to_set().insert(v).contains(x) by {
        if items.push(v).to_set().contains(x) {
            let k = choose|k: int| 0 <= k < items.push(v).len() && items.push(v)[k] == x;
            if k < items.len() {
                assert(items[k] == x);
            }
        }
        if items.to_set().contains(x) {
            let k = choose|k: int| 0 <= k < items.len() && items[k] == x;
            assert(items.push(v)[k] == x);
        }
        if x == v {
            assert(items.push(v)[items.len() as int] == x);
        }
    }
}

proof fn lemma_filter_subset(items: Seq<usize>, pred: spec_fn(usize) -> bool)
    requires
        items.no_duplicates(),
    ensures
        items.filter(pred).no_duplicates(),
        items.filter(pred).to_set() == items.to_set().filter(pred),
    decreases items.len(),
{
    reveal(Seq::filter);
    if items.len() > 0 {
        let init = items.drop_last();
        assert(init.no_duplicates());
        lemma_filter_subset(init, pred);
        assert(items == init.push(items.last()));
        assert(!init.contains(items.last()));
        broadcast use vstd::seq_lib::group_filter_ensures;
        if pred(items.last()) {
            if init.filter(pred).contains(items.last()) {
                let k = choose|k: int|
                    0 <= k < init.filter(pred).len() && init.filter(pred)[k] == items.last();
                assert(init.filter(pred).to_set().contains(items.last()));
                assert(init.to_set().contains(items.last()));
                assert(false);
            }
            lemma_push_set(init.filter(pred), items.last());
        }
        assert forall|x: usize| items.filter(pred).to_set().contains(x) <==> items.to_set().filter(pred).contains(x) by {
            if items.to_set().contains(x) {
                let k = choose|k: int| 0 <= k < items.len() && items[k] == x;
                if k < init.len() {
                    assert(init[k] == x);
                    assert(init.to_set().contains(x));
                }
            }
            if init.to_set().contains(x) {
                let k = choose|k: int| 0 <= k < init.len() && init[k] == x;
                assert(items[k] == x);
            }
        }
    } else {
        assert(items.filter(pred) == items);
        assert(items.to_set() =~= Set::<usize>::empty());
        assert(items.to_set().filter(pred) =~= Set::<usize>::empty());
    }
}

impl Selection {
    /// The selected keys, in storage order
    pub closed spec fn items(&self) -> Seq<usize> {
        linear_set_items(self.set)
    }

    /// The selected keys, as a set
    pub open spec fn keys(&self) -> Set<usize> {
        self.items().to_set()
    }

    /// The selection mode
    pub closed spec fn spec_mode(&self) -> SelectionMode {
        self.mode
    }

    /// Well-formedness: no key is held twice, nothing is selected while
    /// selection is disabled and at most one key is selected in single mode.
    pub open spec fn wf(&self) -> bool {
        &&& self.items().no_duplicates()
        &&& self.spec_mode() == SelectionMode::Disabled ==> self.items().len() == 0
        &&& self.spec_mode() == SelectionMode::Single ==> self.items().len() <= 1
    }

    /// Construct with selection disabled
    pub fn new() -> (r: Self)
        ensures
            r.wf(),
            r.spec_mode() == SelectionMode::Disabled,
            r.items() == Seq::<usize>::empty(),
    {
        Selection { mode: SelectionMode::Disabled, set: set_new() }
    }

    /// Get the current selection mode
    pub fn selection_mode(&self) -> (r: SelectionMode)
        ensures
            r == self.spec_mode(),
    {
        self.mode
    }

    /// Set the current selection mode
    ///
    /// Disabling selection clears it; switching to single-item mode keeps
    /// only the first selected key. Returns true when the selection changed
    /// (the view must then be redrawn).
    pub fn set_selection_mode(&mut self, mode: SelectionMode) -> (redraw: bool)
        requires
            old(self).wf(),
        ensures
            final(self).wf(),
            final(self).spec_mode() == mode,
            redraw == ((mode == SelectionMode::Disabled && old(self).items().len() > 0) || (mode
                == SelectionMode::Single && old(self).items().len() > 1)),
            mode == SelectionMode::Disabled ==> final(self).items() == Seq::<usize>::empty(),
            mode == SelectionMode::Single && old(self).items().len() > 1 ==> final(self).items()
                == seq![old(self).items()[0]],
            !redraw ==> final(self).items() == old(self).items(),
    {
        self.mode = mode;
        let len = set_len(&self.set);
        match mode {
            SelectionMode::Disabled => {
                if len > 0 {
                    set_clear(&mut self.set);
                    return true;
                }
                false
            },
            SelectionMode::Single => {
                if len > 1 {
                    let keys = set_keys(&self.set);
                    let first = keys[0];
                    let ghost items = self.items();
                    let keep = vec![first];
                    set_retain_available(&mut self.set, &keep);
                    proof {
                        assert forall|x: usize| keep@.contains(x) <==> x == first by {
                            if x == first {
                                assert(keep@[0] == first);
                            }
                        }
                        assert((|x: usize| keep@.contains(x)) =~= (|x: usize| x == first));
                        lemma_filter_subset(items, |x: usize| x == first);
                        let f = items.filter(|x: usize| x == first);
                        assert(f.to_set() =~= set![first]) by {
                            assert(items[0] == first);
                            assert(items.to_set().contains(first));
                        }
                        assert(f.len() == 1) by {
                            f.unique_seq_to_set();
                            assert(set![first].len() == 1);
                        }
                        assert(f.to_set().contains(f[0]));
                        assert(f =~= seq![first]);
                    }
                    return true;
                }
                false
            },
            SelectionMode::Multiple => false,
        }
    }

    /// Set the initial selection mode (inline)
    pub fn with_selection_mode(self, mode: SelectionMode) -> (r: Self)
        requires
            self.wf(),
            self.items().len() == 0,
        ensures
            r.wf(),
            r.spec_mode() == mode,
            r.items() == Seq::<usize>::empty(),
    {
        let mut s = self;
        s.mode = mode;
        s
    }

    /// The selected keys, in storage order
    pub fn selected_keys(&self) -> (r: Vec<usize>)
        ensures
            r@ == self.items(),
    {
        set_keys(&self.set)
    }

    /// Check whether a key is selected
    pub fn is_selected(&self, key: usize) -> (r: bool)
        ensures
            r == self.keys().contains(key),
    {
        proof {
            assert(self.items().contains(key) == self.keys().contains(key));
        }
        set_contains(&self.set, key)
    }

    /// Clear all selected keys; returns true if any were selected
    pub fn clear_selected(&mut self) -> (redraw: bool)
        requires
            old(self).wf(),
        ensures
            final(self).wf(),
            final(self).spec_mode() == old(self).spec_mode(),
            final(self).items() == Seq::<usize>::empty(),
            redraw == (old(self).items().len() > 0),
    {
        if set_len(&self.set) > 0 {
            set_clear(&mut self.set);
            true
        } else {
            false
        }
    }

    /// Directly select a key
    ///
    /// Does nothing when selection is disabled. In single-item mode any prior
    /// selection is replaced, unless the key is the one already selected.
    /// Returns true if newly selected, false if already selected.
    pub fn select(&mut self, key: usize) -> (r: bool)
        requires
            old(self).wf(),
        ensures
            final(self).wf(),
            final(self).spec_mode() == old(self).spec_mode(),
            old(self).spec_mode() == SelectionMode::Disabled ==> !r && final(self).items()
                == old(self).items(),
            old(self).spec_mode() == SelectionMode::Single ==> r == !old(self).keys().contains(key)
                && final(self).items() == seq![key],
            old(self).spec_mode() == SelectionMode::Multiple ==> r == !old(self).keys().contains(
                key,
            ) && final(self).keys() == old(self).keys().insert(key),
    {
        match self.mode {
            SelectionMode::Disabled => {
                return false;
            },
            SelectionMode::Single => {
                if set_contains(&self.set, key) {
                    proof {
                        let items = self.items();
                        assert(items.len() == 1 && items.contains(key));
                        assert(items =~= seq![key]);
                        assert(items.to_set().contains(key)) by {
                            assert(items[0] == key);
                        }
                    }
                    return false;
                }
                set_clear(&mut self.set);
            },
            SelectionMode::Multiple => {},
        }
        let ghost before = self.items();
        proof {
            assert(before.contains(key) == before.to_set().contains(key));
        }
        let r = set_insert(&mut self.set, key);
        proof {
            if r {
                lemma_push_set(before, key);
                if self.mode == SelectionMode::Single {
                    assert(before.len() == 0);
                    assert(self.items() =~= seq![key]);
                }
            } else {
                assert(before.to_set().insert(key) =~= before.to_set());
            }
        }
        r
    }

    /// Directly deselect a key; returns true if it was selected
    pub fn deselect(&mut self, key: usize) -> (r: bool)
        requires
            old(self).wf(),
        ensures
            final(self).wf(),
            final(self).spec_mode() == old(self).spec_mode(),
            r == old(self).keys().contains(key),
            final(self).keys() == old(self).keys().remove(key),
            final(self).items().len() == old(self).items().len() - (if r {
                1int
            } else {
                0int
            }),
    {
        let ghost before = self.items();
        proof {
            assert(before.contains(key) == before.to_set().contains(key));
        }
        let r = set_remove(&mut self.set, key);
        proof {
            if r {
                lemma_swap_remove(before, key);
            } else {
                assert(before.to_set().remove(key) =~= before.to_set());
            }
        }
        r
    }

    /// Deselect every key not occurring in `available`; returns true if the
    /// number of selected keys changed.
    pub fn deselect_unavailable(&mut self, available: &Vec<usize>) -> (redraw: bool)
        requires
            old(self).wf(),
        ensures
            final(self).wf(),
            final(self).spec_mode() == old(self).spec_mode(),
            final(self).keys() == old(self).keys().filter(|x: usize| available@.contains(x)),
            final(self).items() == old(self).items().filter(|x: usize| available@.contains(x)),
            redraw == (final(self).items().len() != old(self).items().len()),
    {
        let len = set_len(&self.set);
        let ghost before = self.items();
        set_retain_available(&mut self.set, available);
        proof {
            lemma_filter_subset(before, |x: usize| available@.contains(x));
            broadcast use vstd::seq_lib::group_filter_ensures;
        }
        len != set_len(&self.set)
    }

    /// The flag to show on a view widget holding `key`
    pub fn selected_flag(&self, key: usize) -> (r: Option<bool>)
        ensures
            r == spec_selected_flag(self.spec_mode(), self.keys().contains(key)),
    {
        if self.is_selected(key) {
            Some(true)
        } else if matches!(self.mode, SelectionMode::Multiple) {
            Some(false)
        } else {
            None
        }
    }

    /// Handle activation (a `Select` message) of the item with `key`
    ///
    /// In single-item mode the item becomes the only selected one; in
    /// multi-item mode its selection is toggled. Returns the message to emit.
    pub fn activate(&mut self, key: usize) -> (msg: Option<SelectionMsg<usize>>)
        requires
            old(self).wf(),
        ensures
            final(self).wf(),
            final(self).spec_mode() == old(self).spec_mode(),
            old(self).spec_mode() == SelectionMode::Disabled ==> msg is None && final(self).items()
                == old(self).items(),
            old(self).spec_mode() == SelectionMode::Single ==> msg == Some(
                SelectionMsg::Select(key),
            ) && final(self).items() == seq![key],
            old(self).spec_mode() == SelectionMode::Multiple ==> final(self).keys() == toggled(
                old(self).keys(),
                key,
            ) && msg == Some(
                if old(self).keys().contains(key) {
                    SelectionMsg::Deselect(key)
                } else {
                    SelectionMsg::Select(key)
                },
            ),
    {
        match self.mode {
            SelectionMode::Disabled => None,
            SelectionMode::Single => {
                set_clear(&mut self.set);
                let _ = set_insert(&mut self.set, key);
                proof {
                    assert(self.items() =~= seq![key]);
                }
                Some(SelectionMsg::Select(key))
            },
            SelectionMode::Multiple => {
                if self.deselect(key) {
                    Some(SelectionMsg::Deselect(key))
                } else {
                    let _ = self.select(key);
                    Some(SelectionMsg::Select(key))
                }
            },
        }
    }
}

/// Toggling a key twice (activating an item twice in multi-selection mode)
/// restores the set of selected keys.
pub proof fn law_toggle_twice(s: Set<usize>, k: usize)
    ensures
        toggled(toggled(s, k), k) == s,
{
    if s.contains(k) {
        assert(s.remove(k).insert(k) =~= s);
    } else {
        assert(s.insert(k).remove(k) =~= s);
    }
}

/// Selecting a key that was not selected and then deselecting it restores
/// the set of selected keys (multi-selection mode).
pub proof fn law_select_deselect(s: Set<usize>, k: usize)
    requires
        !s.contains(k),
    ensures
        s.insert(k).remove(k) == s,
{
    assert(s.insert(k).remove(k) =~= s);
}

} // verus!
