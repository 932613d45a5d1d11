//! Per-window drawing state: clip regions (one per pass) and the order in
//! which passes are rendered.

use crate::geom::{Coord, Offset, Rect, Size};
use vstd::prelude::*;

verus! {

/// A pass's clip region: its rectangle (in the pass's coordinates, before
/// `offset`), its offset, and its drawing order key
#[derive(Clone, Copy, Debug, PartialEq, Eq, Structural)]
pub struct ClipRegion {
    pub rect: Rect,
    pub offset: Offset,
    pub order: u64,
}

/// The kind of a new pass
#[derive(Clone, Copy, Debug, PartialEq, Eq, Structural)]
pub enum PassType {
    /// A region clipped to its parent and drawn with it
    Clip,
    /// An overlay, drawn after all other content
    Overlay,
}

/// The region of a whole window before its first resize
pub open spec fn root_region() -> ClipRegion {
    ClipRegion { rect: Rect { pos: Coord(0, 0), size: Size(0, 0) }, offset: Offset(0, 0), order: 1 }
}

impl Default for ClipRegion {
    fn default() -> (r: Self)
        ensures
            r == root_region(),
    {
        ClipRegion { rect: Rect { pos: Coord(0, 0), size: Size(0, 0) }, offset: Offset(0, 0), order: 1 }
    }
}

/// All sums of `i32` values that a new pass computes fit in `i32`
pub open spec fn in_i32(x: int) -> bool {
    i32::MIN <= x <= i32::MAX
}

/// The intersection of two rectangles: from the larger of the two
/// positions to the smaller of the two far corners, or none where that is
/// negative in either dimension
pub open spec fn intersection(a: Rect, b: Rect) -> Option<Rect> {
    let p0 = if a.pos.0 >= b.pos.0 { a.pos.0 as int } else { b.pos.0 as int };
    let p1 = if a.pos.1 >= b.pos.1 { a.pos.1 as int } else { b.pos.1 as int };
    let q0 = if a.pos.0 + a.size.0 <= b.pos.0 + b.size.0 { a.pos.0 + a.size.0 } else { b.pos.0 + b.size.0 };
    let q1 = if a.pos.1 + a.size.1 <= b.pos.1 + b.size.1 { a.pos.1 + a.size.1 } else { b.pos.1 + b.size.1 };
    if p0 <= q0 && p1 <= q1 {
        Some(Rect { pos: Coord(p0 as i32, p1 as i32), size: Size((q0 - p0) as i32, (q1 - p1) as i32) })
    } else {
        None
    }
}

/// The region of a new pass of `class` within `parent`: its rectangle is
/// moved by the parent's offset and clipped to the parent's rectangle
/// (empty where they do not meet), offsets add up, and the order key is
/// the parent's shifted by 4 bits (clip) or 16 bits (overlay), plus one
pub open spec fn child_region(parent: ClipRegion, rect: Rect, offset: Offset, class: PassType) -> ClipRegion {
    let moved = Rect {
        pos: Coord((rect.pos.0 - parent.offset.0) as i32, (rect.pos.1 - parent.offset.1) as i32),
        size: rect.size,
    };
    ClipRegion {
        rect: match intersection(moved, parent.rect) {
            Some(r) => r,
            None => Rect { pos: Coord(0, 0), size: Size(0, 0) },
        },
        offset: Offset((offset.0 + parent.offset.0) as i32, (offset.1 + parent.offset.1) as i32),
        order: match class {
            PassType::Clip => ((parent.order << 4u64) + 1) as u64,
            PassType::Overlay => ((parent.order << 16u64) + 1) as u64,
        },
    }
}

/// The computations of a new pass of `rect` and `offset` within `parent`
/// stay within `i32`
pub open spec fn child_fits(parent: ClipRegion, rect: Rect, offset: Offset) -> bool {
    let (x, y) = (rect.pos.0 - parent.offset.0, rect.pos.1 - parent.offset.1);
    &&& in_i32(x) && in_i32(y)
    &&& in_i32(x + rect.size.0) && in_i32(y + rect.size.1)
    &&& in_i32(offset.0 + parent.offset.0) && in_i32(offset.1 + parent.offset.1)
    &&& in_i32(parent.rect.pos.0 + parent.rect.size.0) && in_i32(parent.rect.pos.1 + parent.rect.size.1)
}

/// Pass `a` is rendered before pass `b` of `regions`: by order key, then
/// by index
pub open spec fn drawn_before(regions: Seq<ClipRegion>, a: int, b: int) -> bool {
    regions[a].order < regions[b].order || (regions[a].order == regions[b].order && a < b)
}

/// Per-window drawing state: image and shape queues, and a clip region for
/// each pass (the first is the whole window)
pub struct Draw<W, B> {
    pub images: W,
    pub basic: B,
    pub clip_regions: Vec<ClipRegion>,
}

fn intersect(a: Rect, b: Rect) -> (r: Option<Rect>)
    requires
        in_i32(a.pos.0 + a.size.0),
        in_i32(a.pos.1 + a.size.1),
        in_i32(b.pos.0 + b.size.0),
        in_i32(b.pos.1 + b.size.1),
    ensures
        r == intersection(a, b),
{
    let p0 = if a.pos.0 >= b.pos.0 { a.pos.0 } else { b.pos.0 };
    let p1 = if a.pos.1 >= b.pos.1 { a.pos.1 } else { b.pos.1 };
    let (a0, b0) = (a.pos.0 + a.size.0, b.pos.0 + b.size.0);
    let (a1, b1) = (a.pos.1 + a.size.1, b.pos.1 + b.size.1);
    let q0 = if a0 <= b0 { a0 } else { b0 };
    let q1 = if a1 <= b1 { a1 } else { b1 };
    if p0 <= q0 && p1 <= q1 {
        assert(q0 - p0 <= i32::MAX) by {
            assert(p0 >= a.pos.0 && p0 >= b.pos.0);
        }
        Some(Rect { pos: Coord(p0, p1), size: Size(q0 - p0, q1 - p1) })
    } else {
        None
    }
}

impl<W, B> Draw<W, B> {
    /// Well-formed: the whole window's region is there
    pub open spec fn wf(&self) -> bool {
        self.clip_regions@.len() >= 1
    }

    /// Construct, with the whole window's region only
    pub fn new(images: W, basic: B) -> (r: Self)
        ensures
            r.wf(),
            r.images == images,
            r.basic == basic,
            r.clip_regions@ == seq![root_region()],
    {
        let mut clip_regions: Vec<ClipRegion> = Vec::new();
        clip_regions.push(ClipRegion::default());
        Draw { images, basic, clip_regions }
    }

    /// Add a pass of `class` within `parent_pass` (an overlay's parent is
    /// always the whole window) and return its index
    pub fn new_pass(&mut self, parent_pass: usize, rect: Rect, offset: Offset, class: PassType) -> (r: usize)
        requires
            old(self).wf(),
            class is Clip ==> parent_pass < old(self).clip_regions@.len(),
            old(self).clip_regions@.len() <= u32::MAX,
            child_fits(
                old(self).clip_regions@[if class is Clip { parent_pass as int } else { 0 }],
                rect,
                offset,
            ),
        ensures
            final(self).wf(),
            r == old(self).clip_regions@.len(),
            final(self).clip_regions@ == old(self).clip_regions@.push(
                child_region(
                    old(self).clip_regions@[if class is Clip { parent_pass as int } else { 0 }],
                    rect,
                    offset,
                    class,
                ),
            ),
            final(self).images == old(self).images,
            final(self).basic == old(self).basic,
    {
        let parent = match class {
            PassType::Clip => self.clip_regions[parent_pass],
            PassType::Overlay => self.clip_regions[0],
        };
        let order = match class {
            PassType::Clip => (parent.order << 4u64).wrapping_add(1),
            PassType::Overlay => (parent.order << 16u64).wrapping_add(1),
        };
        let po = parent.order;
        assert(order == child_region(parent, rect, offset, class).order) by {
            assert((po << 4u64) < u64::MAX) by (bit_vector);
            assert((po << 16u64) < u64::MAX) by (bit_vector);
        }
        let moved = Rect {
            pos: Coord(rect.pos.0 - parent.offset.0, rect.pos.1 - parent.offset.1),
            size: rect.size,
        };
        let offset = Offset(offset.0 + parent.offset.0, offset.1 + parent.offset.1);
        let rect = match intersect(moved, parent.rect) {
            Some(r) => r,
            None => Rect { pos: Coord(0, 0), size: Size(0, 0) },
        };
        let pass = self.clip_regions.len();
        self.clip_regions.push(ClipRegion { rect, offset, order });
        pass
    }

    /// The clip rectangle of `pass`, in window coordinates
    pub fn get_clip_rect(&self, pass: usize) -> (r: Rect)
        requires
            pass < self.clip_regions@.len(),
            in_i32(self.clip_regions@[pass as int].rect.pos.0 + self.clip_regions@[pass as int].offset.0),
            in_i32(self.clip_regions@[pass as int].rect.pos.1 + self.clip_regions@[pass as int].offset.1),
        ensures
            r.size == self.clip_regions@[pass as int].rect.size,
            r.pos.0 == self.clip_regions@[pass as int].rect.pos.0 + self.clip_regions@[pass as int].offset.0,
            r.pos.1 == self.clip_regions@[pass as int].rect.pos.1 + self.clip_regions@[pass as int].offset.1,
    {
        let region = self.clip_regions[pass];
        Rect {
            pos: Coord(region.rect.pos.0 + region.offset.0, region.rect.pos.1 + region.offset.1),
            size: region.rect.size,
        }
    }

    /// The window was resized: the whole window's region takes `size`
    pub fn resize(&mut self, size: Size)
        requires
            old(self).wf(),
        ensures
            final(self).wf(),
            final(self).clip_regions@ == old(self).clip_regions@.update(
                0,
                ClipRegion { rect: Rect { size, ..old(self).clip_regions@[0].rect }, ..old(self).clip_regions@[0] },
            ),
            final(self).images == old(self).images,
            final(self).basic == old(self).basic,
    {
        let mut first = self.clip_regions[0];
        first.rect.size = size;
        self.clip_regions.set(0, first);
    }

    /// The passes in rendering order: by order key (overlays come after the
    /// content they overlay), passes of equal key in creation order
    pub fn pass_order(&self) -> (r: Vec<usize>)
        ensures
            r@.len() == self.clip_regions@.len(),
            forall|i: int| 0 <= i < r@.len() ==> #[trigger] r@[i] < self.clip_regions@.len(),
            forall|i: int, j: int|
                0 <= i < j < r@.len() ==> drawn_before(self.clip_regions@, #[trigger] r@[i] as int, #[trigger] r@[j] as int),
    {
        let regions = &self.clip_regions;
        let mut r: Vec<usize> = Vec::new();
        let mut n: usize = 0;
        while n < regions.len()
            invariant
                n <= regions@.len(),
                r@.len() == n,
                forall|i: int| 0 <= i < r@.len() ==> #[trigger] r@[i] < n,
                forall|i: int, j: int|
                    0 <= i < j < r@.len() ==> drawn_before(regions@, #[trigger] r@[i] as int, #[trigger] r@[j] as int),
            decreases regions@.len() - n,
        {
            let key = regions[n].order;
            let mut pos: usize = 0;
            while pos < r.len() && regions[r[pos]].order <= key
                invariant
                    pos <= r@.len(),
                    r@.len() == n,
                    n < regions@.len(),
                    key == regions@[n as int].order,
                    forall|i: int| 0 <= i < r@.len() ==> #[trigger] r@[i] < n,
                    forall|i: int| 0 <= i < pos ==> regions@[#[trigger] r@[i] as int].order <= key,
                decreases r@.len() - pos,
            {
                pos += 1;
            }
            let ghost before = r@;
            proof {
                assert forall|i: int| pos <= i < before.len() implies regions@[#[trigger] before[i] as int].order > key by {
                    assert(drawn_before(regions@, before[pos as int] as int, before[i] as int) || i == pos);
                }
            }
            r.insert(pos, n);
            proof {
                assert forall|i: int| 0 <= i < r@.len() implies #[trigger] r@[i] < n + 1 by {
                    if i < pos {
                        assert(r@[i] == before[i]);
                    } else if i > pos {
                        assert(r@[i] == before[i - 1]);
                    }
                }
                assert forall|i: int, j: int|
                    0 <= i < j < r@.len() implies drawn_before(regions@, #[trigger] r@[i] as int, #[trigger] r@[j] as int) by {
                    if j < pos {
                        assert(r@[i] == before[i] && r@[j] == before[j]);
                    } else if j == pos {
                        assert(r@[i] == before[i]);
                    } else if i < pos {
                        assert(r@[i] == before[i] && r@[j] == before[j - 1]);
                        assert(drawn_before(regions@, before[i] as int, before[j - 1] as int));
                    } else if i == pos {
                        assert(r@[j] == before[j - 1]);
                    } else {
                        assert(r@[i] == before[i - 1] && r@[j] == before[j - 1]);
                        assert(drawn_before(regions@, before[i - 1] as int, before[j - 1] as int));
                    }
                }
            }
            n += 1;
        }
        r
    }

    /// After rendering: keep only the whole window's region
    pub fn end_frame(&mut self)
        requires
            old(self).wf(),
        ensures
            final(self).wf(),
            final(self).clip_regions@ == old(self).clip_regions@.take(1),
            final(self).images == old(self).images,
            final(self).basic == old(self).basic,
    {
        self.clip_regions.truncate(1);
    }
}

} // verus!
