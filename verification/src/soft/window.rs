//! Per-window pending draws: instances queued by pass and by atlas, then
//! taken pass by pass for rendering.

use vstd::prelude::*;

verus! {

/// Per-window atlas state: for each pass, for each atlas, the instances
/// queued for drawing
pub struct AtlasWindow<I> {
    pub passes: Vec<Vec<Vec<I>>>,
}

/// The instances queued for pass `p` and atlas `a` (none where no list
/// exists)
pub open spec fn queued<I>(passes: Seq<Vec<Vec<I>>>, p: int, a: int) -> Seq<I> {
    if 0 <= p < passes.len() && 0 <= a < passes[p]@.len() {
        passes[p]@[a]@
    } else {
        Seq::empty()
    }
}

/// The number of atlas lists of pass `p` (zero where the pass has none)
pub open spec fn lists_of<I>(passes: Seq<Vec<Vec<I>>>, p: int) -> int {
    if 0 <= p < passes.len() {
        passes[p]@.len() as int
    } else {
        0
    }
}

/// `n` empty lists
fn empty_lists<I>(n: usize) -> (r: Vec<Vec<I>>)
    ensures
        r@.len() == n,
        forall|k: int| 0 <= k < n ==> #[trigger] r@[k]@.len() == 0,
{
    let mut r: Vec<Vec<I>> = Vec::new();
    while r.len() < n
        invariant
            r@.len() <= n,
            forall|k: int| 0 <= k < r@.len() ==> #[trigger] r@[k]@.len() == 0,
        decreases n - r@.len(),
    {
        r.push(Vec::new());
    }
    r
}

impl<I> AtlasWindow<I> {
    /// No pass, nothing queued
    pub fn new() -> (r: Self)
        ensures
            r.passes@.len() == 0,
    {
        AtlasWindow { passes: Vec::new() }
    }

    /// Queue `instance` for drawing from `atlas` in `pass`. Missing passes
    /// are added (eight beyond the one needed), and missing atlas lists of
    /// that pass up to `atlas`.
    pub fn rect(&mut self, pass: usize, atlas: u32, instance: I)
        requires
            pass + 8 <= usize::MAX,
            atlas + 1 <= usize::MAX,
        ensures
            final(self).passes@.len() == if old(self).passes@.len() <= pass {
                pass + 8
            } else {
                old(self).passes@.len() as int
            },
            forall|p: int|
                #![trigger lists_of(final(self).passes@, p)]
                p != pass && p < old(self).passes@.len() ==> lists_of(final(self).passes@, p) == lists_of(
                    old(self).passes@,
                    p,
                ),
            lists_of(final(self).passes@, pass as int) == if lists_of(old(self).passes@, pass as int)
                <= atlas {
                atlas + 1
            } else {
                lists_of(old(self).passes@, pass as int)
            },
            forall|p: int, a: int|
                #![trigger queued(final(self).passes@, p, a)]
                queued(final(self).passes@, p, a) == if p == pass && a == atlas {
                    queued(old(self).passes@, p, a).push(instance)
                } else {
                    queued(old(self).passes@, p, a)
                },
    {
        if self.passes.len() <= pass {
            let ghost before = self.passes@;
            while self.passes.len() < pass + 8
                invariant
                    before.len() <= self.passes@.len() <= pass + 8,
                    pass + 8 <= usize::MAX,
                    forall|k: int| 0 <= k < before.len() ==> #[trigger] self.passes@[k] == before[k],
                    forall|k: int| before.len() <= k < self.passes@.len() ==> #[trigger] self.passes@[k]@.len() == 0,
                decreases pass + 8 - self.passes@.len(),
            {
                self.passes.push(Vec::new());
            }
            assert forall|p: int, a: int| #[trigger] queued(self.passes@, p, a) == queued(before, p, a) by {
                if 0 <= p < self.passes@.len() && p >= before.len() {
                    assert(self.passes@[p]@.len() == 0);
                }
            }
            assert forall|p: int| p < before.len() implies #[trigger] lists_of(self.passes@, p) == lists_of(before, p) by {}
        }
        let ghost mid = self.passes@;
        let a = atlas as usize;
        let mut plist = self.passes.remove(pass);
        assert(plist == mid[pass as int]);
        let ghost p0 = plist@;
        if plist.len() <= a {
            while plist.len() <= a
                invariant
                    p0.len() <= plist@.len() <= a + 1,
                    a + 1 <= usize::MAX,
                    forall|k: int| 0 <= k < p0.len() ==> #[trigger] plist@[k] == p0[k],
                    forall|k: int| p0.len() <= k < plist@.len() ==> #[trigger] plist@[k]@.len() == 0,
                decreases a + 1 - plist@.len(),
            {
                plist.push(Vec::new());
            }
        }
        let ghost p1 = plist@;
        let mut list = plist.remove(a);
        list.push(instance);
        plist.insert(a, list);
        self.passes.insert(pass, plist);
        proof {
            assert forall|p: int, a2: int|
                #![trigger queued(self.passes@, p, a2)]
                queued(self.passes@, p, a2) == if p == pass && a2 == atlas {
                    queued(old(self).passes@, p, a2).push(instance)
                } else {
                    queued(old(self).passes@, p, a2)
                } by {
                assert(queued(mid, p, a2) == queued(old(self).passes@, p, a2));
                if p == pass {
                    assert(self.passes@[p] == plist);
                    if 0 <= a2 < plist@.len() && a2 != a {
                        assert(plist@[a2] == p1[a2]);
                        if a2 >= p0.len() {
                            assert(p1[a2]@.len() == 0);
                            assert(queued(mid, p, a2) =~= Seq::<I>::empty());
                        }
                    }
                    if a2 == a {
                        if a >= p0.len() {
                            assert(p1[a2]@.len() == 0);
                            assert(queued(mid, p, a2) =~= Seq::<I>::empty());
                        }
                        assert(plist@[a2]@ == p1[a2]@.push(instance));
                    }
                } else if 0 <= p < self.passes@.len() {
                    assert(self.passes@[p] == mid[p]);
                }
            }
            assert forall|p: int|
                #![trigger lists_of(self.passes@, p)]
                p != pass && p < old(self).passes@.len() implies lists_of(self.passes@, p) == lists_of(
                    old(self).passes@,
                    p,
                ) by {
                assert(lists_of(mid, p) == lists_of(old(self).passes@, p));
                if 0 <= p {
                    assert(self.passes@[p] == mid[p]);
                }
            }
        }
    }

    /// Take the instances queued for `pass`, per atlas; the pass keeps its
    /// atlas lists, emptied
    pub fn take_pass(&mut self, pass: usize) -> (r: Vec<Vec<I>>)
        ensures
            final(self).passes@.len() == old(self).passes@.len(),
            r@.len() == lists_of(old(self).passes@, pass as int),
            forall|a: int| 0 <= a < r@.len() ==> #[trigger] r@[a]@ == queued(old(self).passes@, pass as int, a),
            forall|p: int|
                #![trigger lists_of(final(self).passes@, p)]
                lists_of(final(self).passes@, p) == lists_of(old(self).passes@, p),
            forall|p: int, a: int|
                #![trigger queued(final(self).passes@, p, a)]
                queued(final(self).passes@, p, a) == if p == pass {
                    Seq::empty()
                } else {
                    queued(old(self).passes@, p, a)
                },
    {
        if pass >= self.passes.len() {
            return Vec::new();
        }
        let ghost before = self.passes@;
        let taken = self.passes.remove(pass);
        let empties: Vec<Vec<I>> = empty_lists(taken.len());
        self.passes.insert(pass, empties);
        proof {
            assert forall|p: int, a: int|
                #![trigger queued(self.passes@, p, a)]
                queued(self.passes@, p, a) == if p == pass {
                    Seq::empty()
                } else {
                    queued(old(self).passes@, p, a)
                } by {
                if p == pass {
                    if 0 <= a < empties@.len() {
                        assert(self.passes@[p]@[a]@.len() == 0);
                    }
                    assert(queued(self.passes@, p, a) =~= Seq::<I>::empty());
                } else if 0 <= p < self.passes@.len() {
                    assert(self.passes@[p] == before[p]);
                }
            }
            assert forall|p: int| #[trigger] lists_of(self.passes@, p) == lists_of(old(self).passes@, p) by {
                if 0 <= p < self.passes@.len() && p != pass {
                    assert(self.passes@[p] == before[p]);
                }
            }
        }
        taken
    }
}

impl<I> Default for AtlasWindow<I> {
    fn default() -> (r: Self)
        ensures
            r.passes@.len() == 0,
    {
        AtlasWindow::new()
    }
}

} // verus!
