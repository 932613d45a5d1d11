//! Texture atlases: allocation of image space (by a guillotine allocator),
//! uploads with pixel format conversion, and pending draw lists.

use guillotiere::AtlasAllocator;
use vstd::arithmetic::div_mod::*;
use vstd::prelude::*;

verus! {

#[verifier::external_type_specification]
#[verifier::external_body]
pub struct ExAtlasAllocator(AtlasAllocator);

/// The live allocations of an allocator: id to rectangle
/// `(min_x, min_y, max_x, max_y)`
pub uninterp spec fn atlas_allocs(a: AtlasAllocator) -> Map<u32, (i32, i32, i32, i32)>;

/// The allocator has room for a rectangle of `w × h`: its allocation of
/// that size succeeds
pub uninterp spec fn atlas_can_fit(a: AtlasAllocator, w: i32, h: i32) -> bool;

/// No allocation
pub open spec fn no_allocs() -> Map<u32, (i32, i32, i32, i32)> {
    Map::empty()
}

/// The size of an allocator's atlas: `(width, height)`
pub uninterp spec fn atlas_dims(a: AtlasAllocator) -> (i32, i32);

/// The allocator was just created: nothing was allocated from it yet
pub uninterp spec fn atlas_untouched(a: AtlasAllocator) -> bool;

/// Calls `AtlasAllocator::new`, which panics unless both sides are
/// positive; the new allocator has that size and no allocation.
#[verifier::external_body]
fn allocator_new(width: i32, height: i32) -> (r: AtlasAllocator)
    requires
        width > 0,
        height > 0,
    ensures
        atlas_dims(r) == (width, height),
        atlas_allocs(r) == no_allocs(),
        atlas_untouched(r),
{
    AtlasAllocator::new(guillotiere::size2(width, height))
}

/// Calls `AtlasAllocator::size`: the atlas size it was made with.
#[verifier::external_body]
fn allocator_size(a: &AtlasAllocator) -> (r: (i32, i32))
    ensures
        r == atlas_dims(*a),
{
    let s = a.size();
    (s.width, s.height)
}

/// Two rectangles `(min_x, min_y, max_x, max_y)` do not overlap
pub open spec fn rects_disjoint(a: (i32, i32, i32, i32), b: (i32, i32, i32, i32)) -> bool {
    a.2 <= b.0 || b.2 <= a.0 || a.3 <= b.1 || b.3 <= a.1
}

/// No two allocations overlap
pub open spec fn allocs_disjoint(m: Map<u32, (i32, i32, i32, i32)>) -> bool {
    forall|i: u32, j: u32|
        #![trigger m[i], m[j]]
        m.contains_key(i) && m.contains_key(j) && i != j ==> rects_disjoint(m[i], m[j])
}

/// Calls `AtlasAllocator::allocate` (default options: alignment 1) and
/// serializes the id. An empty size gives `None`. A success gives a new id
/// and the rectangle at the returned minimum with exactly the requested
/// size, carved from free space of the atlas: within the atlas and apart
/// from every live allocation, which all stay. An allocator which was just
/// created succeeds for any size within its own. Which free rectangle is
/// chosen (hence the position) is not stated. Whether it succeeds depends
/// on the allocator's state and the size alone ([`atlas_can_fit`]).
#[verifier::external_body]
fn allocator_allocate(a: &mut AtlasAllocator, width: i32, height: i32) -> (r: Option<(u32, i32, i32)>)
    ensures
        r is Some <==> atlas_can_fit(*old(a), width, height),
        atlas_dims(*final(a)) == atlas_dims(*old(a)),
        width <= 0 || height <= 0 ==> r is None,
        r is None ==> atlas_allocs(*final(a)) == atlas_allocs(*old(a)),
        r matches Some((id, x, y)) ==> {
            &&& 0 <= x && x + width <= atlas_dims(*old(a)).0
            &&& 0 <= y && y + height <= atlas_dims(*old(a)).1
            &&& !atlas_allocs(*old(a)).contains_key(id)
            &&& forall|k: u32|
                #[trigger] atlas_allocs(*old(a)).contains_key(k) ==> rects_disjoint(
                    (x, y, (x + width) as i32, (y + height) as i32),
                    atlas_allocs(*old(a))[k],
                )
            &&& atlas_allocs(*final(a)) == atlas_allocs(*old(a)).insert(
                id,
                (x, y, (x + width) as i32, (y + height) as i32),
            )
        },
        atlas_untouched(*old(a)) && 0 < width <= atlas_dims(*old(a)).0 && 0 < height <= atlas_dims(
            *old(a),
        ).1 ==> r is Some,
{
    a.allocate(guillotiere::size2(width, height)).map(
        |alloc| (alloc.id.serialize(), alloc.rectangle.min.x, alloc.rectangle.min.y),
    )
}

/// Calls `AtlasAllocator::deallocate` with a deserialized id, which
/// panics unless the id is live; it frees that allocation only.
#[verifier::external_body]
fn allocator_deallocate(a: &mut AtlasAllocator, id: u32)
    requires
        atlas_allocs(*old(a)).contains_key(id),
    ensures
        atlas_dims(*final(a)) == atlas_dims(*old(a)),
        atlas_allocs(*final(a)) == atlas_allocs(*old(a)).remove(id),
{
    a.deallocate(guillotiere::AllocId::deserialize(id))
}

/// Maximum permitted texture size on each side
pub const MAX_TEX_SIZE: i32 = 4096;

/// Allocation failed: the requested size exceeds the maximum texture size
#[derive(Clone, Copy, Debug, PartialEq, Eq, Structural)]
pub struct AllocError;

/// One texture atlas: its allocator and its pixels (row-major)
pub struct Atlas<C> {
    pub alloc: AtlasAllocator,
    pub tex: Vec<C>,
}

impl<C: Copy> Atlas<C> {
    /// Well-formed: a positive size within the maximum, one pixel per
    /// position, and no two allocations overlapping
    pub open spec fn wf(&self) -> bool {
        let (w, h) = atlas_dims(self.alloc);
        &&& 0 < w <= MAX_TEX_SIZE
        &&& 0 < h <= MAX_TEX_SIZE
        &&& self.tex@.len() == w * h
        &&& allocs_disjoint(atlas_allocs(self.alloc))
    }

    /// A new atlas of `size`, with every pixel `fill`
    pub fn new(size: (i32, i32), fill: C) -> (r: Self)
        requires
            0 < size.0 <= MAX_TEX_SIZE,
            0 < size.1 <= MAX_TEX_SIZE,
        ensures
            r.wf(),
            atlas_dims(r.alloc) == size,
            atlas_allocs(r.alloc) == no_allocs(),
            atlas_untouched(r.alloc),
            forall|i: int| 0 <= i < r.tex@.len() ==> #[trigger] r.tex@[i] == fill,
    {
        let alloc = allocator_new(size.0, size.1);
        assert(size.0 * size.1 <= MAX_TEX_SIZE * MAX_TEX_SIZE) by (nonlinear_arith)
            requires
                0 < size.0 <= MAX_TEX_SIZE,
                0 < size.1 <= MAX_TEX_SIZE,
        ;
        let len = size.0 as usize * size.1 as usize;
        let mut tex: Vec<C> = Vec::new();
        let mut i: usize = 0;
        while i < len
            invariant
                i <= len,
                tex@.len() == i,
                forall|k: int| 0 <= k < i ==> #[trigger] tex@[k] == fill,
            decreases len - i,
        {
            tex.push(fill);
            i += 1;
        }
        Atlas { alloc, tex }
    }
}

/// A set of texture atlases (shared between all windows)
pub struct Atlases<C> {
    /// Side length of square texture atlases
    pub tex_size: i32,
    pub atlases: Vec<Atlas<C>>,
    /// Value of new pixels
    pub fill: C,
}

/// The live allocations of the atlas at `i`, none beyond the last
pub open spec fn allocs_at<C>(atlases: Seq<Atlas<C>>, i: int) -> Map<u32, (i32, i32, i32, i32)> {
    if 0 <= i < atlases.len() {
        atlas_allocs(atlases[i].alloc)
    } else {
        no_allocs()
    }
}

/// A successful allocation: atlas index, allocation id, rectangle and the
/// atlas's size
pub type Placed = (u32, u32, (i32, i32, i32, i32), (i32, i32));

impl<C: Copy> Atlases<C> {
    /// Well-formed: every atlas is, and atlas indices fit in `u32`
    pub open spec fn wf(&self) -> bool {
        &&& 0 < self.tex_size <= MAX_TEX_SIZE
        &&& self.atlases@.len() < u32::MAX
        &&& forall|i: int| 0 <= i < self.atlases@.len() ==> #[trigger] self.atlases@[i].wf()
    }

    /// Construct, with square atlases of side `tex_size`
    pub fn new(tex_size: i32, fill: C) -> (r: Self)
        requires
            0 < tex_size <= MAX_TEX_SIZE,
        ensures
            r.wf(),
            r.tex_size == tex_size,
            r.atlases@.len() == 0,
    {
        Atlases { tex_size, atlases: Vec::new(), fill }
    }

    /// The size of a new atlas for an allocation of `size`: the regular
    /// square, or `size` itself when it does not fit there
    pub open spec fn new_atlas_size(&self, size: (i32, i32)) -> (i32, i32) {
        if size.0 > self.tex_size || size.1 > self.tex_size {
            size
        } else {
            (self.tex_size, self.tex_size)
        }
    }

    /// Find space for an image of `size`: in the first existing atlas
    /// which has room, else in a new atlas (of special size if the image
    /// does not fit a regular one); too large an image is an error
    pub fn allocate_space(&mut self, size: (i32, i32)) -> (r: Result<Placed, AllocError>)
        requires
            old(self).wf(),
            old(self).atlases@.len() + 1 < u32::MAX,
            size.0 > 0,
            size.1 > 0,
        ensures
            final(self).wf(),
            final(self).tex_size == old(self).tex_size,
            r is Err <==> (size.0 > MAX_TEX_SIZE || size.1 > MAX_TEX_SIZE) && !(exists|k: int|
                0 <= k < old(self).atlases@.len() && #[trigger] allocs_at(final(self).atlases@, k)
                    != allocs_at(old(self).atlases@, k)),
            r is Err ==> final(self).atlases@.len() == old(self).atlases@.len() && forall|k: int|
                #![trigger allocs_at(final(self).atlases@, k)]
                allocs_at(final(self).atlases@, k) == allocs_at(old(self).atlases@, k),
            dims_kept(old(self).atlases@, final(self).atlases@),
            r matches Ok((atlas, id, rect, tex)) ==> {
                &&& atlas < final(self).atlases@.len()
                &&& final(self).atlases@.len() == old(self).atlases@.len() || (final(self).atlases@.len()
                    == old(self).atlases@.len() + 1 && atlas == old(self).atlases@.len() && tex
                    == old(self).new_atlas_size(size))
                &&& tex == atlas_dims(final(self).atlases@[atlas as int].alloc)
                &&& rect.2 == rect.0 + size.0 && rect.3 == rect.1 + size.1
                &&& 0 <= rect.0 && rect.2 <= tex.0 && 0 <= rect.1 && rect.3 <= tex.1
                &&& !allocs_at(old(self).atlases@, atlas as int).contains_key(id)
                &&& allocs_at(final(self).atlases@, atlas as int) == allocs_at(
                    old(self).atlases@,
                    atlas as int,
                ).insert(id, rect)
                &&& forall|k: int|
                    #![trigger allocs_at(final(self).atlases@, k)]
                    k != atlas ==> allocs_at(final(self).atlases@, k) == allocs_at(
                        old(self).atlases@,
                        k,
                    )
            },
            r matches Ok((atlas, _, _, _)) ==> forall|k: int|
                0 <= k < atlas && k < old(self).atlases@.len() ==> !atlas_can_fit(
                    #[trigger] old(self).atlases@[k].alloc,
                    size.0,
                    size.1,
                ),
            r matches Ok((atlas, _, _, _)) ==> (atlas < old(self).atlases@.len() ==> atlas_can_fit(
                old(self).atlases@[atlas as int].alloc,
                size.0,
                size.1,
            )),
            (exists|k: int|
                0 <= k < old(self).atlases@.len() && atlas_can_fit(
                    #[trigger] old(self).atlases@[k].alloc,
                    size.0,
                    size.1,
                )) ==> (r matches Ok((atlas, _, _, _)) && atlas < old(self).atlases@.len()),
    {
        let mut atlas: usize = 0;
        while atlas < self.atlases.len()
            invariant
                self.wf(),
                self.tex_size == old(self).tex_size,
                atlas <= self.atlases@.len(),
                self.atlases@.len() == old(self).atlases@.len(),
                forall|k: int|
                    #![trigger allocs_at(self.atlases@, k)]
                    allocs_at(self.atlases@, k) == allocs_at(old(self).atlases@, k),
                forall|k: int|
                    0 <= k < self.atlases@.len() ==> #[trigger] atlas_dims(self.atlases@[k].alloc)
                        == atlas_dims(old(self).atlases@[k].alloc),
                forall|k: int| atlas <= k < self.atlases@.len() ==> #[trigger] self.atlases@[k] == old(self).atlases@[k],
                forall|k: int|
                    0 <= k < atlas ==> !atlas_can_fit(#[trigger] old(self).atlases@[k].alloc, size.0, size.1),
            decreases self.atlases@.len() - atlas,
        {
            let ghost before = self.atlases@;
            let mut a = self.atlases.remove(atlas);
            assert(a == before[atlas as int]);
            assert(before[atlas as int].wf());
            let ghost a0 = a;
            let res = allocator_allocate(&mut a.alloc, size.0, size.1);
            let dims = allocator_size(&a.alloc);
            assert(a.tex@ == a0.tex@);
            assert(a.wf());
            self.atlases.insert(atlas, a);
            proof {
                assert forall|k: int| 0 <= k < self.atlases@.len() && k != atlas implies #[trigger] self.atlases@[k]
                    == before[k] by {
                    if k < atlas {
                        assert(self.atlases@[k] == before[k]);
                    } else {
                        assert(self.atlases@[k] == before[k]);
                    }
                }
                assert(self.atlases@[atlas as int].wf());
                assert forall|k: int|
                    0 <= k < self.atlases@.len() implies #[trigger] self.atlases@[k].wf() by {
                    if k != atlas {
                        assert(before[k].wf());
                    }
                }
            }
            match res {
                Some((id, x, y)) => {
                    proof {
                        assert forall|k: int| k != atlas implies #[trigger] allocs_at(self.atlases@, k)
                            == allocs_at(old(self).atlases@, k) by {
                            assert(allocs_at(before, k) == allocs_at(old(self).atlases@, k));
                            if 0 <= k < self.atlases@.len() {
                                assert(self.atlases@[k] == before[k]);
                            }
                        }
                        assert(allocs_at(before, atlas as int) == allocs_at(old(self).atlases@, atlas as int));
                        assert(atlas_allocs(a0.alloc) == allocs_at(before, atlas as int));
                    }
                    return Ok((atlas as u32, id, (x, y, x + size.0, y + size.1), dims));
                },
                None => {
                    proof {
                        assert forall|k: int| #[trigger] allocs_at(self.atlases@, k) == allocs_at(
                            old(self).atlases@,
                            k,
                        ) by {
                            assert(allocs_at(before, k) == allocs_at(old(self).atlases@, k));
                            if 0 <= k < self.atlases@.len() && k != atlas {
                                assert(self.atlases@[k] == before[k]);
                            } else if k == atlas {
                                assert(atlas_allocs(self.atlases@[k].alloc) == atlas_allocs(a0.alloc));
                            }
                        }
                        assert forall|k: int|
                            0 <= k < self.atlases@.len() implies #[trigger] atlas_dims(self.atlases@[k].alloc)
                                == atlas_dims(old(self).atlases@[k].alloc) by {
                            if k != atlas {
                                assert(self.atlases@[k] == before[k]);
                            }
                        }
                    }
                },
            }
            atlas += 1;
        }
        proof {
            assert forall|k: int| 0 <= k < old(self).atlases@.len() implies !atlas_can_fit(
                #[trigger] old(self).atlases@[k].alloc,
                size.0,
                size.1,
            ) by {}
        }
        let mut tex_size = (self.tex_size, self.tex_size);
        if size.0 > self.tex_size || size.1 > self.tex_size {
            if size.0 > MAX_TEX_SIZE || size.1 > MAX_TEX_SIZE {
                return Err(AllocError);
            }
            tex_size = size;
        }
        let mut a = Atlas::new(tex_size, self.fill);
        let res = allocator_allocate(&mut a.alloc, size.0, size.1);
        let ghost before = self.atlases@;
        self.atlases.push(a);
        proof {
            assert forall|k: int| 0 <= k < self.atlases@.len() implies #[trigger] self.atlases@[k].wf() by {
                if k < before.len() {
                    assert(self.atlases@[k] == before[k]);
                }
            }
            assert forall|k: int| k != atlas implies #[trigger] allocs_at(self.atlases@, k) == allocs_at(
                old(self).atlases@,
                k,
            ) by {
                assert(allocs_at(before, k) == allocs_at(old(self).atlases@, k));
                if 0 <= k < before.len() {
                    assert(self.atlases@[k] == before[k]);
                }
            }
        }
        match res {
            Some((id, x, y)) => Ok((atlas as u32, id, (x, y, x + size.0, y + size.1), tex_size)),
            None => {
                assert(false);
                Err(AllocError)
            },
        }
    }
}

/// An allocation within a texture atlas: atlas index, allocation id,
/// origin, and texture coordinates (in pixels: min and max corners)
#[derive(Clone, Copy, Debug, PartialEq, Eq)]
pub struct Allocation {
    pub atlas: u32,
    pub alloc: u32,
    pub origin: (u32, u32),
    pub tex_quad: (i32, i32, i32, i32),
}

/// Every atlas of `a` is still in `b`, with the same size
pub open spec fn dims_kept<C>(a: Seq<Atlas<C>>, b: Seq<Atlas<C>>) -> bool {
    &&& a.len() <= b.len()
    &&& forall|k: int| 0 <= k < a.len() ==> #[trigger] atlas_dims(b[k].alloc) == atlas_dims(a[k].alloc)
}

/// The outcome `r` of allocating `size` takes the atlases `before` to
/// `after`: a zero size, or a size beyond the maximum for which no existing
/// atlas had room, is an error and nothing changes; otherwise the new
/// allocation of exactly `size` is recorded in its atlas (an existing one,
/// or one added at the end) and every other atlas keeps its allocations
pub open spec fn allocated<C>(before: Seq<Atlas<C>>, after: Seq<Atlas<C>>, size: (i32, i32), r: Result<Allocation, AllocError>) -> bool {
    &&& dims_kept(before, after)
    &&& (r is Err <==> size.0 == 0 || size.1 == 0 || ((size.0 > MAX_TEX_SIZE || size.1 > MAX_TEX_SIZE)
        && !(exists|k: int| 0 <= k < before.len() && #[trigger] allocs_at(after, k) != allocs_at(before, k))))
    &&& (r is Err ==> after.len() == before.len() && forall|k: int|
        #![trigger allocs_at(after, k)]
        allocs_at(after, k) == allocs_at(before, k))
    &&& (r matches Ok(a) ==> {
        let q = a.tex_quad;
        &&& a.atlas < after.len()
        &&& after.len() <= before.len() + 1
        &&& q.2 == q.0 + size.0 && q.3 == q.1 + size.1
        &&& a.origin == (q.0 as u32, q.1 as u32)
        &&& 0 <= q.0 && 0 <= q.1
        &&& q.2 <= atlas_dims(after[a.atlas as int].alloc).0
        &&& q.3 <= atlas_dims(after[a.atlas as int].alloc).1
        &&& !allocs_at(before, a.atlas as int).contains_key(a.alloc)
        &&& allocs_at(after, a.atlas as int) == allocs_at(before, a.atlas as int).insert(a.alloc, q)
        &&& forall|k: int|
            #![trigger allocs_at(after, k)]
            k != a.atlas ==> allocs_at(after, k) == allocs_at(before, k)
    })
}

/// The atlases are tried in order: an allocation lies in the first of the
/// atlases `before` with room for `size`, or in a new atlas when none has
/// room (a non-empty size then always finds one of the existing atlases)
pub open spec fn first_fit<C>(before: Seq<Atlas<C>>, size: (i32, i32), r: Result<Allocation, AllocError>) -> bool {
    &&& (r matches Ok(a) ==> forall|k: int|
        0 <= k < a.atlas && k < before.len() ==> !atlas_can_fit(#[trigger] before[k].alloc, size.0, size.1))
    &&& (r matches Ok(a) ==> (a.atlas < before.len() ==> atlas_can_fit(
        before[a.atlas as int].alloc,
        size.0,
        size.1,
    )))
    &&& (size.0 > 0 && size.1 > 0 && (exists|k: int|
        0 <= k < before.len() && atlas_can_fit(#[trigger] before[k].alloc, size.0, size.1)) ==> (r matches Ok(
        a,
    ) && a.atlas < before.len()))
}

impl<C: Copy> Atlases<C> {
    /// Allocate space for an image of `size`; a zero size or one beyond the
    /// maximum texture size is an error
    pub fn allocate(&mut self, size: (i32, i32)) -> (r: Result<Allocation, AllocError>)
        requires
            old(self).wf(),
            old(self).atlases@.len() + 1 < u32::MAX,
            size.0 >= 0,
            size.1 >= 0,
        ensures
            final(self).wf(),
            final(self).tex_size == old(self).tex_size,
            allocated(old(self).atlases@, final(self).atlases@, size, r),
            first_fit(old(self).atlases@, size, r),
    {
        if size.0 == 0 || size.1 == 0 {
            return Err(AllocError);
        }
        let (atlas, id, rect, _tex) = match self.allocate_space(size) {
            Ok(p) => p,
            Err(e) => return Err(e),
        };
        Ok(Allocation { atlas, alloc: id, origin: (rect.0 as u32, rect.1 as u32), tex_quad: rect })
    }

    /// Free an allocation (an unknown atlas index is ignored); atlases are
    /// kept, since their index is a key
    pub fn deallocate(&mut self, atlas: u32, alloc: u32)
        requires
            old(self).wf(),
            (atlas as int) < old(self).atlases@.len() ==> allocs_at(old(self).atlases@, atlas as int).contains_key(
                alloc,
            ),
        ensures
            final(self).wf(),
            final(self).tex_size == old(self).tex_size,
            final(self).atlases@.len() == old(self).atlases@.len(),
            dims_kept(old(self).atlases@, final(self).atlases@),
            forall|k: int|
                #![trigger allocs_at(final(self).atlases@, k)]
                allocs_at(final(self).atlases@, k) == if k == atlas {
                    allocs_at(old(self).atlases@, k).remove(alloc)
                } else {
                    allocs_at(old(self).atlases@, k)
                },
    {
        let index = atlas as usize;
        if index < self.atlases.len() {
            let ghost before = self.atlases@;
            let mut a = self.atlases.remove(index);
            assert(a == before[index as int]);
            assert(before[index as int].wf());
            let ghost a0 = a;
            allocator_deallocate(&mut a.alloc, alloc);
            assert(a.wf());
            self.atlases.insert(index, a);
            proof {
                assert forall|k: int| 0 <= k < self.atlases@.len() implies #[trigger] self.atlases@[k].wf() by {
                    if k != index {
                        assert(self.atlases@[k] == before[k]);
                    }
                }
                assert forall|k: int| #[trigger] allocs_at(self.atlases@, k) == if k == atlas {
                    allocs_at(old(self).atlases@, k).remove(alloc)
                } else {
                    allocs_at(old(self).atlases@, k)
                } by {
                    if 0 <= k < self.atlases@.len() && k != index {
                        assert(self.atlases@[k] == before[k]);
                    }
                }
            }
        } else {
            proof {
                assert forall|k: int| #[trigger] allocs_at(self.atlases@, k) == if k == atlas {
                    allocs_at(old(self).atlases@, k).remove(alloc)
                } else {
                    allocs_at(old(self).atlases@, k)
                } by {
                    if k == atlas {
                        assert(allocs_at(old(self).atlases@, k) =~= no_allocs());
                        assert(no_allocs().remove(alloc) =~= no_allocs());
                    }
                }
            }
        }
    }
}

/// An sRGB RGBA pixel (bytes `r, g, b, a`) as pre-multiplied ARGB: alpha
/// in the top byte, then red, green and blue scaled by alpha
pub open spec fn premul_argb(r: u8, g: u8, b: u8, a: u8) -> int {
    a * 0x100_0000 + (a * r / 255) * 0x1_0000 + (a * g / 255) * 0x100 + (a * b / 255)
}

/// Convert one RGBA pixel (bytes `src[k..k + 4]`) to pre-multiplied ARGB
pub fn premul_pixel(src: &[u8], k: usize) -> (c: u32)
    requires
        k + 4 <= src@.len(),
        k + 4 <= usize::MAX,
    ensures
        c == premul_argb(src@[k as int], src@[k + 1], src@[k + 2], src@[k + 3]),
{
    let a = src[k + 3] as u32;
    let (r, g, b) = (src[k] as u32, src[k + 1] as u32, src[k + 2] as u32);
    assert(a * r / 255 <= 255 && a * g / 255 <= 255 && a * b / 255 <= 255) by (nonlinear_arith)
        requires
            a <= 255,
            r <= 255,
            g <= 255,
            b <= 255,
    ;
    assert(a * r <= 255 * 255 && a * g <= 255 * 255 && a * b <= 255 * 255) by (nonlinear_arith)
        requires
            a <= 255,
            r <= 255,
            g <= 255,
            b <= 255,
    ;
    a * 0x100_0000 + (a * r / 255) * 0x1_0000 + (a * g / 255) * 0x100 + (a * b / 255)
}

/// Sub-pixel filter weights (FreeType's default LCD filter): outer, inner
/// and centre; `2 * A + 2 * B + C == 0x100`
pub const FILTER_A: u32 = 0x08;
pub const FILTER_B: u32 = 0x4D;
pub const FILTER_C: u32 = 0x56;

/// Byte `j` of the pixel at `i` of an RGBA row starting at `base`, zero
/// outside the row
pub open spec fn row_byte(src: Seq<u8>, base: int, w: int, i: int, j: int) -> int {
    if 0 <= i < w {
        src[base + 4 * i + j] as int
    } else {
        0
    }
}

/// Filtered sub-pixel coverage of output pixel `k` of a row of `w` RGBA
/// coverage pixels (horizontal RGB sub-pixels): red, green and blue
/// coverage mix the sub-pixels around each one; the output row has two
/// pixels more than the input
pub open spec fn filtered(src: Seq<u8>, base: int, w: int, k: int) -> int {
    let x = |j: int| row_byte(src, base, w, k - 2, j);
    let y = |j: int| row_byte(src, base, w, k - 1, j);
    let z = |j: int| row_byte(src, base, w, k, j);
    let a = FILTER_A as int;
    let b = FILTER_B as int;
    let c = FILTER_C as int;
    let red = (a * x(1) + b * x(2) + c * y(0) + b * y(1) + a * y(2)) / 0x100;
    let green = (a * x(2) + b * y(0) + c * y(1) + b * y(2) + a * z(0)) / 0x100;
    let blue = (a * y(0) + b * y(1) + c * y(2) + b * z(0) + a * z(1)) / 0x100;
    red * 0x1_0000 + green * 0x100 + blue
}

fn byte_at(src: &[u8], base: usize, w: usize, i: i64, j: usize) -> (r: u32)
    requires
        j < 4,
        base + 4 * w <= src@.len(),
        base + 4 * w <= 0x4000_0000,
    ensures
        r == row_byte(src@, base as int, w as int, i as int, j as int),
        r <= 255,
{
    if 0 <= i && i < w as i64 {
        src[base + 4 * (i as usize) + j] as u32
    } else {
        0
    }
}

/// Filtered output pixel `k` of a row of `w` RGBA coverage pixels
pub fn filter_pixel(src: &[u8], base: usize, w: usize, k: usize) -> (c: u32)
    requires
        base + 4 * w <= src@.len(),
        base + 4 * w <= 0x4000_0000,
        k <= w + 1,
    ensures
        c == filtered(src@, base as int, w as int, k as int),
{
    let (a, b, cc) = (FILTER_A, FILTER_B, FILTER_C);
    let x0 = byte_at(src, base, w, k as i64 - 2, 0);
    let x1 = byte_at(src, base, w, k as i64 - 2, 1);
    let x2 = byte_at(src, base, w, k as i64 - 2, 2);
    let y0 = byte_at(src, base, w, k as i64 - 1, 0);
    let y1 = byte_at(src, base, w, k as i64 - 1, 1);
    let y2 = byte_at(src, base, w, k as i64 - 1, 2);
    let z0 = byte_at(src, base, w, k as i64, 0);
    let z1 = byte_at(src, base, w, k as i64, 1);
    let red = (a * x1 + b * x2 + cc * y0 + b * y1 + a * y2) / 0x100;
    let green = (a * x2 + b * y0 + cc * y1 + b * y2 + a * z0) / 0x100;
    let blue = (a * y0 + b * y1 + cc * y2 + b * z0 + a * z1) / 0x100;
    assert(red <= 255 && green <= 255 && blue <= 255) by {
        assert(a * x1 + b * x2 + cc * y0 + b * y1 + a * y2 <= 0x100 * 255);
        assert(a * x2 + b * y0 + cc * y1 + b * y2 + a * z0 <= 0x100 * 255);
        assert(a * y0 + b * y1 + cc * y2 + b * z0 + a * z1 <= 0x100 * 255);
    }
    red * 0x1_0000 + green * 0x100 + blue
}

/// Why an upload fails
#[derive(Clone, Copy, Debug, PartialEq, Eq, Structural)]
pub enum UploadError {
    /// No atlas at this index
    AtlasIndex(u32),
    /// The image does not fit in the atlas at its origin
    TextureCoordinates,
    /// The data has the wrong length (the length given)
    DataLen(u32),
    /// No image with this id
    ImageId(u32),
}

/// The texture after writing rows `0..n` (each given by `row`) at rows
/// `ty..` starting at column `tx` of a texture `tw` wide; a row longer
/// than the rest of its texture row continues on the next
pub open spec fn rows_written<C>(old: Seq<C>, tw: int, tx: int, ty: int, n: int, row: spec_fn(int) -> Seq<C>) -> Seq<C>
    decreases n,
{
    if n <= 0 {
        old
    } else {
        let prev = rows_written(old, tw, tx, ty, n - 1, row);
        let ti = tx + (ty + n - 1) * tw;
        prev.take(ti) + row(n - 1) + prev.skip(ti + row(n - 1).len())
    }
}

/// Row `y` lies within a texture of `len` pixels
pub open spec fn row_fits<C>(len: int, tw: int, tx: int, ty: int, row: spec_fn(int) -> Seq<C>, y: int) -> bool {
    0 <= tx + (ty + y) * tw && tx + (ty + y) * tw + row(y).len() <= len
}

/// Pixel `p` of a texture of width `tw` lies in one of `n` rows of
/// `wlen` pixels written at `(tx, ty)`
pub open spec fn in_rows(p: int, tw: int, tx: int, ty: int, n: int, wlen: int) -> bool {
    0 <= p / tw - ty < n && 0 <= p % tw - tx < wlen
}

/// A pixel after writing rows: the written pixel where it lies in a row,
/// else the old one
pub proof fn lemma_rows_written_at<C>(old: Seq<C>, tw: int, tx: int, ty: int, n: int, row: spec_fn(int) -> Seq<C>, wlen: int, p: int)
    requires
        0 < tw,
        0 <= tx,
        0 <= ty,
        0 <= wlen,
        tx + wlen <= tw,
        0 <= n,
        forall|r: int| 0 <= r < n ==> #[trigger] row(r).len() == wlen,
        forall|r: int| 0 <= r < n ==> #[trigger] row_fits(old.len() as int, tw, tx, ty, row, r),
        0 <= p < old.len(),
    ensures
        rows_written(old, tw, tx, ty, n, row)[p] == if in_rows(p, tw, tx, ty, n, wlen) {
            row(p / tw - ty)[p % tw - tx]
        } else {
            old[p]
        },
    decreases n,
{
    if n > 0 {
        lemma_rows_written_at(old, tw, tx, ty, n - 1, row, wlen, p);
        assert forall|y: int| 0 <= y < n - 1 implies #[trigger] row_fits(old.len() as int, tw, tx, ty, row, y) by {
            assert(row_fits(old.len() as int, tw, tx, ty, row, y));
        }
        lemma_rows_written_len(old, tw, tx, ty, n - 1, row);
        assert(row(n - 1).len() == wlen);
        assert(row_fits(old.len() as int, tw, tx, ty, row, n - 1));
        let ti = tx + (ty + n - 1) * tw;
        lemma_fundamental_div_mod(p, tw);
        assert(ti == tw * (ty + n - 1) + tx) by (nonlinear_arith)
            requires
                ti == tx + (ty + n - 1) * tw,
        ;
        if ti <= p < ti + wlen {
            lemma_fundamental_div_mod_converse(p, tw, ty + n - 1, tx + (p - ti));
        } else if p / tw - ty == n - 1 && 0 <= p % tw - tx < wlen {
            assert(p == ti + (p % tw - tx));
        }
    }
}

proof fn lemma_rows_written_len<C>(old: Seq<C>, tw: int, tx: int, ty: int, n: int, row: spec_fn(int) -> Seq<C>)
    requires
        forall|y: int| 0 <= y < n ==> #[trigger] row_fits(old.len() as int, tw, tx, ty, row, y),
    ensures
        rows_written(old, tw, tx, ty, n, row).len() == old.len(),
    decreases n,
{
    if n > 0 {
        lemma_rows_written_len(old, tw, tx, ty, n - 1, row);
        assert(row_fits(old.len() as int, tw, tx, ty, row, n - 1));
    }
}

/// Row `y` of an RGBA image `w` wide, as pre-multiplied ARGB texture pixels
pub open spec fn rgba_row(data: Seq<u8>, w: int, y: int) -> Seq<u32> {
    Seq::new(
        w as nat,
        |x: int|
            premul_argb(
                data[4 * (y * w + x)],
                data[4 * (y * w + x) + 1],
                data[4 * (y * w + x) + 2],
                data[4 * (y * w + x) + 3],
            ) as u32,
    )
}

/// Row `y` of an RGBA coverage image `w` wide, filtered for sub-pixels
/// (two pixels wider)
pub open spec fn rgba_mask_row(data: Seq<u8>, w: int, y: int) -> Seq<u32> {
    Seq::new((w + 2) as nat, |k: int| filtered(data, 4 * (y * w), w, k) as u32)
}

/// Row `y` of an 8-bit coverage image `w` wide, copied
pub open spec fn mask_row(data: Seq<u8>, w: int, y: int) -> Seq<u8> {
    data.subrange(y * w, y * w + w)
}

/// The checks of an upload to the atlas at `atlas` of an image of `size`
/// at `origin`, with `bpp` bytes per pixel
pub open spec fn upload_check<C>(atlases: Seq<Atlas<C>>, atlas: u32, origin: (u32, u32), size: (u32, u32), data_len: nat, bpp: nat) -> Option<UploadError> {
    if atlas as int >= atlases.len() {
        Some(UploadError::AtlasIndex(atlas))
    } else {
        let (tw, th) = atlas_dims(atlases[atlas as int].alloc);
        if origin.0 + size.0 > tw || origin.1 + size.1 > th {
            Some(UploadError::TextureCoordinates)
        } else if data_len != bpp * size.0 * size.1 {
            Some(UploadError::DataLen(data_len as u32))
        } else {
            None
        }
    }
}

/// An upload of `extra`-wider rows stays within the texture
pub open spec fn upload_in_texture<C>(atlases: Seq<Atlas<C>>, atlas: u32, origin: (u32, u32), size: (u32, u32), extra: int) -> bool {
    let (tw, th) = atlas_dims(atlases[atlas as int].alloc);
    size.1 > 0 ==> origin.0 + (origin.1 + size.1 - 1) * tw + size.0 + extra <= tw * th
}

proof fn lemma_row_bounds(tw: int, th: int, tx: int, ty: int, w: int, h: int, extra: int, y: int)
    requires
        0 <= tx,
        0 <= ty,
        0 <= w,
        0 < tw,
        0 <= extra,
        0 <= y < h,
        h > 0 ==> tx + (ty + h - 1) * tw + w + extra <= tw * th,
    ensures
        0 <= tx + (ty + y) * tw,
        tx + (ty + y) * tw + w + extra <= tw * th,
{
    assert((ty + y) * tw <= (ty + h - 1) * tw) by (nonlinear_arith)
        requires
            0 <= y < h,
            0 < tw,
    ;
    assert(0 <= (ty + y) * tw) by (nonlinear_arith)
        requires
            0 <= ty,
            0 <= y,
            0 < tw,
    ;
}

proof fn lemma_fits(tw: int, th: int, tx: int, ty: int, w: int, h: int)
    requires
        0 <= tx,
        0 <= ty,
        0 <= w,
        0 < h,
        tx + w <= tw,
        ty + h <= th,
    ensures
        tx + (ty + h - 1) * tw + w <= tw * th,
{
    assert((ty + h - 1) * tw + tw == (ty + h) * tw) by (nonlinear_arith);
    assert((ty + h) * tw <= th * tw) by (nonlinear_arith)
        requires
            ty + h <= th,
            0 <= tw,
    ;
    assert(th * tw == tw * th) by (nonlinear_arith);
}

fn write_rgba_row(tex: &mut Vec<u32>, ti: usize, data: &[u8], y: usize, w: usize)
    requires
        old(tex)@.len() <= 0x100_0000,
        ti + w <= old(tex)@.len(),
        4 * (y * w + w) <= data@.len(),
        data@.len() <= 0x4000_0000,
    ensures
        final(tex)@ == old(tex)@.take(ti as int) + rgba_row(data@, w as int, y as int) + old(tex)@.skip(
            ti + w,
        ),
{
    let yw = y * w;
    let mut x: usize = 0;
    while x < w
        invariant
            x <= w,
            yw == y * w,
            ti + w <= old(tex)@.len(),
            old(tex)@.len() <= 0x100_0000,
            4 * (yw + w) <= data@.len(),
            data@.len() <= 0x4000_0000,
            tex@ == old(tex)@.take(ti as int) + rgba_row(data@, w as int, y as int).take(x as int) + old(
                tex,
            )@.skip(ti + x),
        decreases w - x,
    {
        let c = premul_pixel(data, 4 * (yw + x));
        let ghost t0 = tex@;
        tex.set(ti + x, c);
        assert(tex@ =~= old(tex)@.take(ti as int) + rgba_row(data@, w as int, y as int).take(x + 1) + old(
            tex,
        )@.skip(ti + x + 1));
        x += 1;
    }
    assert(rgba_row(data@, w as int, y as int).take(w as int) =~= rgba_row(data@, w as int, y as int));
}

fn write_rgba_mask_row(tex: &mut Vec<u32>, ti: usize, data: &[u8], y: usize, w: usize)
    requires
        old(tex)@.len() <= 0x100_0000,
        ti + w + 2 <= old(tex)@.len(),
        4 * (y * w + w) <= data@.len(),
        data@.len() <= 0x4000_0000,
    ensures
        final(tex)@ == old(tex)@.take(ti as int) + rgba_mask_row(data@, w as int, y as int) + old(
            tex,
        )@.skip(ti + w + 2),
{
    let base = 4 * (y * w);
    let mut k: usize = 0;
    while k < w + 2
        invariant
            k <= w + 2,
            base == 4 * (y * w),
            ti + w + 2 <= old(tex)@.len(),
            old(tex)@.len() <= 0x100_0000,
            4 * (y * w + w) <= data@.len(),
            data@.len() <= 0x4000_0000,
            tex@ == old(tex)@.take(ti as int) + rgba_mask_row(data@, w as int, y as int).take(k as int)
                + old(tex)@.skip(ti + k),
        decreases w + 2 - k,
    {
        let c = filter_pixel(data, base, w, k);
        tex.set(ti + k, c);
        assert(tex@ =~= old(tex)@.take(ti as int) + rgba_mask_row(data@, w as int, y as int).take(k + 1)
            + old(tex)@.skip(ti + k + 1));
        k += 1;
    }
    assert(rgba_mask_row(data@, w as int, y as int).take((w + 2) as int) =~= rgba_mask_row(
        data@,
        w as int,
        y as int,
    ));
}

fn write_mask_row(tex: &mut Vec<u8>, ti: usize, data: &[u8], y: usize, w: usize)
    requires
        old(tex)@.len() <= 0x100_0000,
        ti + w <= old(tex)@.len(),
        y * w + w <= data@.len(),
        data@.len() <= 0x4000_0000,
    ensures
        final(tex)@ == old(tex)@.take(ti as int) + mask_row(data@, w as int, y as int) + old(tex)@.skip(
            ti + w,
        ),
{
    let yw = y * w;
    let mut x: usize = 0;
    while x < w
        invariant
            x <= w,
            yw == y * w,
            ti + w <= old(tex)@.len(),
            old(tex)@.len() <= 0x100_0000,
            yw + w <= data@.len(),
            data@.len() <= 0x4000_0000,
            tex@ == old(tex)@.take(ti as int) + mask_row(data@, w as int, y as int).take(x as int) + old(
                tex,
            )@.skip(ti + x),
        decreases w - x,
    {
        tex.set(ti + x, data[yw + x]);
        assert(tex@ =~= old(tex)@.take(ti as int) + mask_row(data@, w as int, y as int).take(x + 1) + old(
            tex,
        )@.skip(ti + x + 1));
        x += 1;
    }
    assert(mask_row(data@, w as int, y as int).take(w as int) =~= mask_row(data@, w as int, y as int));
}

/// The outcome `r` of an upload (`bpp` bytes per pixel, rows converted by
/// `row`) takes the atlases `before` to `after`: allocations and sizes
/// stay; on an error no pixel changes, else the image's rows are written
/// at `origin` in the atlas at `atlas` and no other atlas changes
pub open spec fn uploaded<C>(before: Seq<Atlas<C>>, after: Seq<Atlas<C>>, atlas: u32, origin: (u32, u32), size: (u32, u32), data_len: nat, bpp: nat, row: spec_fn(int) -> Seq<C>, r: Result<(), UploadError>) -> bool {
    &&& after.len() == before.len()
    &&& forall|k: int| #![trigger allocs_at(after, k)] allocs_at(after, k) == allocs_at(before, k)
    &&& forall|k: int| 0 <= k < after.len() ==> #[trigger] atlas_dims(after[k].alloc) == atlas_dims(before[k].alloc)
    &&& match upload_check(before, atlas, origin, size, data_len, bpp) {
        Some(e) => r == Err::<(), UploadError>(e) && forall|k: int|
            0 <= k < after.len() ==> #[trigger] after[k].tex@ == before[k].tex@,
        None => {
            &&& r is Ok
            &&& after[atlas as int].tex@ == rows_written(
                before[atlas as int].tex@,
                atlas_dims(before[atlas as int].alloc).0 as int,
                origin.0 as int,
                origin.1 as int,
                size.1 as int,
                row,
            )
            &&& forall|k: int| 0 <= k < after.len() && k != atlas ==> #[trigger] after[k].tex@ == before[k].tex@
        },
    }
}

impl<C: Copy> Atlases<C> {
    /// The checks of an upload with `bpp` bytes per pixel: an error, or the
    /// texture size
    fn check_upload(&self, atlas: u32, origin: (u32, u32), size: (u32, u32), data_len: usize, bpp: usize) -> (r: Result<(usize, usize), UploadError>)
        requires
            self.wf(),
            bpp <= 4,
        ensures
            match (r, upload_check(self.atlases@, atlas, origin, size, data_len as nat, bpp as nat)) {
                (Err(e), Some(f)) => e == f,
                (Ok((tw, th)), None) => (tw as int, th as int) == (
                    atlas_dims(self.atlases@[atlas as int].alloc).0 as int,
                    atlas_dims(self.atlases@[atlas as int].alloc).1 as int,
                ) && 0 < tw <= MAX_TEX_SIZE && 0 < th <= MAX_TEX_SIZE && data_len <= 4 * MAX_TEX_SIZE
                    * MAX_TEX_SIZE,
                _ => false,
            },
    {
        if atlas as usize >= self.atlases.len() {
            return Err(UploadError::AtlasIndex(atlas));
        }
        let dims = allocator_size(&self.atlases[atlas as usize].alloc);
        assert(self.atlases@[atlas as int].wf());
        let (tw, th) = (dims.0 as usize, dims.1 as usize);
        if origin.0 as u64 + size.0 as u64 > tw as u64 || origin.1 as u64 + size.1 as u64 > th as u64 {
            return Err(UploadError::TextureCoordinates);
        }
        let (w, h) = (size.0 as usize, size.1 as usize);
        assert(bpp * w <= 4 * MAX_TEX_SIZE && bpp * w * h <= 4 * MAX_TEX_SIZE * MAX_TEX_SIZE) by (nonlinear_arith)
            requires
                w <= MAX_TEX_SIZE,
                h <= MAX_TEX_SIZE,
                bpp <= 4,
        ;
        if data_len != bpp * w * h {
            return Err(UploadError::DataLen(data_len as u32));
        }
        Ok((tw, th))
    }
}

impl Atlases<u32> {
    /// Upload an RGBA image: each pixel is stored pre-multiplied, as ARGB
    ///
    /// Errors: no atlas at `atlas`; the image does not fit at `origin`; the
    /// data length is not 4 bytes per pixel. Nothing changes then.
    pub fn upload_rgba(&mut self, atlas: u32, origin: (u32, u32), size: (u32, u32), data: &[u8]) -> (r: Result<(), UploadError>)
        requires
            old(self).wf(),
        ensures
            final(self).wf(),
            final(self).tex_size == old(self).tex_size,
            uploaded(
                old(self).atlases@,
                final(self).atlases@,
                atlas,
                origin,
                size,
                data@.len(),
                4,
                |y: int| rgba_row(data@, size.0 as int, y),
                r,
            ),
    {
        let (tw, th) = match self.check_upload(atlas, origin, size, data.len(), 4) {
            Ok(d) => d,
            Err(e) => return Err(e),
        };
        let idx = atlas as usize;
        let ghost before = self.atlases@;
        let mut a = self.atlases.remove(idx);
        assert(a == before[idx as int]);
        assert(a.wf());
        let ghost a0 = a;
        let (tx, ty) = (origin.0 as usize, origin.1 as usize);
        let (w, h) = (size.0 as usize, size.1 as usize);
        let ghost row = |y: int| rgba_row(data@, w as int, y);
        proof {
            if h > 0 {
                lemma_fits(tw as int, th as int, tx as int, ty as int, w as int, h as int);
            }
        }
        let mut y: usize = 0;
        while y < h
            invariant
                y <= h,
                0 < tw <= MAX_TEX_SIZE,
                0 < th <= MAX_TEX_SIZE,
                tx + w <= tw,
                ty + h <= th,
                data@.len() == 4 * w * h,
                data@.len() <= 0x4000_0000,
                h > 0 ==> tx + (ty + h - 1) * tw + w + 0 <= tw * th,
                a.tex@.len() == tw * th,
                row == (|y: int| rgba_row(data@, w as int, y)),
                a.alloc == a0.alloc,
                a.tex@ == rows_written(a0.tex@, tw as int, tx as int, ty as int, y as int, row),
            decreases h - y,
        {
            proof {
                lemma_row_bounds(tw as int, th as int, tx as int, ty as int, w as int, h as int, 0, y as int);
                assert(y * w + w <= w * h) by (nonlinear_arith)
                    requires
                        y < h,
                ;
                assert(tw * th <= MAX_TEX_SIZE * MAX_TEX_SIZE) by (nonlinear_arith)
                    requires
                        0 < tw <= MAX_TEX_SIZE,
                        0 < th <= MAX_TEX_SIZE,
                ;
                assert(4 * w * h == 4 * (w * h)) by (nonlinear_arith);
            }
            let ti = tx + (ty + y) * tw;
            write_rgba_row(&mut a.tex, ti, data, y, w);
            y += 1;
        }
        assert(a.wf());
        self.atlases.insert(idx, a);
        proof {
            assert forall|k: int| 0 <= k < self.atlases@.len() implies #[trigger] self.atlases@[k].wf() by {
                if k != idx {
                    assert(self.atlases@[k] == before[k]);
                }
            }
            assert forall|k: int| #[trigger] allocs_at(self.atlases@, k) == allocs_at(old(self).atlases@, k) by {
                if 0 <= k < self.atlases@.len() && k != idx {
                    assert(self.atlases@[k] == before[k]);
                }
            }
            assert forall|k: int| 0 <= k < self.atlases@.len() && k != atlas implies #[trigger] self.atlases@[k].tex@
                == old(self).atlases@[k].tex@ by {
                assert(self.atlases@[k] == before[k]);
            }
            assert forall|k: int| 0 <= k < self.atlases@.len() implies #[trigger] atlas_dims(self.atlases@[k].alloc)
                == atlas_dims(old(self).atlases@[k].alloc) by {
                if k != idx {
                    assert(self.atlases@[k] == before[k]);
                }
            }
        }
        Ok(())
    }
}

impl Atlases<u32> {
    /// Upload an RGBA sub-pixel coverage image: each row is filtered and
    /// stored two pixels wider (room which allocation reserves)
    ///
    /// Errors: no atlas at `atlas`; the image does not fit at `origin`; the
    /// data length is not 4 bytes per pixel. Nothing changes then.
    pub fn upload_rgba_mask(&mut self, atlas: u32, origin: (u32, u32), size: (u32, u32), data: &[u8]) -> (r: Result<(), UploadError>)
        requires
            old(self).wf(),
            upload_check(old(self).atlases@, atlas, origin, size, data@.len(), 4) is None ==> upload_in_texture(
                old(self).atlases@,
                atlas,
                origin,
                size,
                2,
            ),
        ensures
            final(self).wf(),
            final(self).tex_size == old(self).tex_size,
            uploaded(
                old(self).atlases@,
                final(self).atlases@,
                atlas,
                origin,
                size,
                data@.len(),
                4,
                |y: int| rgba_mask_row(data@, size.0 as int, y),
                r,
            ),
    {
        let (tw, th) = match self.check_upload(atlas, origin, size, data.len(), 4) {
            Ok(d) => d,
            Err(e) => return Err(e),
        };
        let idx = atlas as usize;
        let ghost before = self.atlases@;
        let mut a = self.atlases.remove(idx);
        assert(a == before[idx as int]);
        assert(a.wf());
        let ghost a0 = a;
        let (tx, ty) = (origin.0 as usize, origin.1 as usize);
        let (w, h) = (size.0 as usize, size.1 as usize);
        let ghost row = |y: int| rgba_mask_row(data@, w as int, y);
        proof {
            if h > 0 {
                lemma_fits(tw as int, th as int, tx as int, ty as int, w as int, h as int);
            }
        }
        let mut y: usize = 0;
        while y < h
            invariant
                y <= h,
                0 < tw <= MAX_TEX_SIZE,
                0 < th <= MAX_TEX_SIZE,
                tx + w <= tw,
                ty + h <= th,
                data@.len() == 4 * w * h,
                data@.len() <= 0x4000_0000,
                h > 0 ==> tx + (ty + h - 1) * tw + w + 2 <= tw * th,
                a.tex@.len() == tw * th,
                row == (|y: int| rgba_mask_row(data@, w as int, y)),
                a.alloc == a0.alloc,
                a.tex@ == rows_written(a0.tex@, tw as int, tx as int, ty as int, y as int, row),
            decreases h - y,
        {
            proof {
                lemma_row_bounds(tw as int, th as int, tx as int, ty as int, w as int, h as int, 2, y as int);
                assert(y * w + w <= w * h) by (nonlinear_arith)
                    requires
                        y < h,
                ;
                assert(tw * th <= MAX_TEX_SIZE * MAX_TEX_SIZE) by (nonlinear_arith)
                    requires
                        0 < tw <= MAX_TEX_SIZE,
                        0 < th <= MAX_TEX_SIZE,
                ;
                assert(4 * w * h == 4 * (w * h)) by (nonlinear_arith);
            }
            let ti = tx + (ty + y) * tw;
            write_rgba_mask_row(&mut a.tex, ti, data, y, w);
            y += 1;
        }
        assert(a.wf());
        self.atlases.insert(idx, a);
        proof {
            assert forall|k: int| 0 <= k < self.atlases@.len() implies #[trigger] self.atlases@[k].wf() by {
                if k != idx {
                    assert(self.atlases@[k] == before[k]);
                }
            }
            assert forall|k: int| #[trigger] allocs_at(self.atlases@, k) == allocs_at(old(self).atlases@, k) by {
                if 0 <= k < self.atlases@.len() && k != idx {
                    assert(self.atlases@[k] == before[k]);
                }
            }
            assert forall|k: int| 0 <= k < self.atlases@.len() && k != atlas implies #[trigger] self.atlases@[k].tex@
                == old(self).atlases@[k].tex@ by {
                assert(self.atlases@[k] == before[k]);
            }
            assert forall|k: int| 0 <= k < self.atlases@.len() implies #[trigger] atlas_dims(self.atlases@[k].alloc)
                == atlas_dims(old(self).atlases@[k].alloc) by {
                if k != idx {
                    assert(self.atlases@[k] == before[k]);
                }
            }
        }
        Ok(())
    }
}

impl Atlases<u8> {
    /// Upload an 8-bit coverage image: rows are copied
    ///
    /// Errors: no atlas at `atlas`; the image does not fit at `origin`; the
    /// data length is not 1 bytes per pixel. Nothing changes then.
    pub fn upload_mask(&mut self, atlas: u32, origin: (u32, u32), size: (u32, u32), data: &[u8]) -> (r: Result<(), UploadError>)
        requires
            old(self).wf(),
        ensures
            final(self).wf(),
            final(self).tex_size == old(self).tex_size,
            uploaded(
                old(self).atlases@,
                final(self).atlases@,
                atlas,
                origin,
                size,
                data@.len(),
                1,
                |y: int| mask_row(data@, size.0 as int, y),
                r,
            ),
    {
        let (tw, th) = match self.check_upload(atlas, origin, size, data.len(), 1) {
            Ok(d) => d,
            Err(e) => return Err(e),
        };
        let idx = atlas as usize;
        let ghost before = self.atlases@;
        let mut a = self.atlases.remove(idx);
        assert(a == before[idx as int]);
        assert(a.wf());
        let ghost a0 = a;
        let (tx, ty) = (origin.0 as usize, origin.1 as usize);
        let (w, h) = (size.0 as usize, size.1 as usize);
        let ghost row = |y: int| mask_row(data@, w as int, y);
        proof {
            if h > 0 {
                lemma_fits(tw as int, th as int, tx as int, ty as int, w as int, h as int);
            }
        }
        let mut y: usize = 0;
        while y < h
            invariant
                y <= h,
                0 < tw <= MAX_TEX_SIZE,
                0 < th <= MAX_TEX_SIZE,
                tx + w <= tw,
                ty + h <= th,
                data@.len() == 1 * w * h,
                data@.len() <= 0x4000_0000,
                h > 0 ==> tx + (ty + h - 1) * tw + w + 0 <= tw * th,
                a.tex@.len() == tw * th,
                row == (|y: int| mask_row(data@, w as int, y)),
                a.alloc == a0.alloc,
                a.tex@ == rows_written(a0.tex@, tw as int, tx as int, ty as int, y as int, row),
            decreases h - y,
        {
            proof {
                lemma_row_bounds(tw as int, th as int, tx as int, ty as int, w as int, h as int, 0, y as int);
                assert(y * w + w <= w * h) by (nonlinear_arith)
                    requires
                        y < h,
                ;
                assert(tw * th <= MAX_TEX_SIZE * MAX_TEX_SIZE) by (nonlinear_arith)
                    requires
                        0 < tw <= MAX_TEX_SIZE,
                        0 < th <= MAX_TEX_SIZE,
                ;
                assert(1 * w * h == 1 * (w * h)) by (nonlinear_arith);
            }
            let ti = tx + (ty + y) * tw;
            write_mask_row(&mut a.tex, ti, data, y, w);
            y += 1;
        }
        assert(a.wf());
        self.atlases.insert(idx, a);
        proof {
            assert forall|k: int| 0 <= k < self.atlases@.len() implies #[trigger] self.atlases@[k].wf() by {
                if k != idx {
                    assert(self.atlases@[k] == before[k]);
                }
            }
            assert forall|k: int| #[trigger] allocs_at(self.atlases@, k) == allocs_at(old(self).atlases@, k) by {
                if 0 <= k < self.atlases@.len() && k != idx {
                    assert(self.atlases@[k] == before[k]);
                }
            }
            assert forall|k: int| 0 <= k < self.atlases@.len() && k != atlas implies #[trigger] self.atlases@[k].tex@
                == old(self).atlases@[k].tex@ by {
                assert(self.atlases@[k] == before[k]);
            }
            assert forall|k: int| 0 <= k < self.atlases@.len() implies #[trigger] atlas_dims(self.atlases@[k].alloc)
                == atlas_dims(old(self).atlases@[k].alloc) by {
                if k != idx {
                    assert(self.atlases@[k] == before[k]);
                }
            }
        }
        Ok(())
    }
}

} // verus!
