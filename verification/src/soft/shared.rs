//! Image and glyph storage shared between windows: three sets of texture
//! atlases (RGBA images, 8-bit coverage masks, RGB sub-pixel coverage
//! masks) and the table of allocated images.

use crate::soft::atlas::{
    allocated, allocs_at, atlas_allocs, atlas_dims, in_rows, lemma_rows_written_at, mask_row, rgba_mask_row,
    rgba_row, row_fits, rows_written, uploaded, upload_check, upload_in_texture, AllocError, Allocation, Atlas,
    Atlases, UploadError, MAX_TEX_SIZE,
};
use vstd::arithmetic::div_mod::*;
use std::collections::HashMap;
use vstd::prelude::*;

verus! {

broadcast use vstd::std_specs::hash::group_hash_axioms;

/// Pixel format of an image
#[derive(Clone, Copy, Debug, PartialEq, Eq, Structural)]
pub enum ImageFormat {
    /// 8-bit sRGB red, green, blue and alpha
    Rgba8,
}

/// Sub-pixel rendering mode of glyphs
#[derive(Clone, Copy, Debug, PartialEq, Eq, Structural)]
pub enum SubpixelMode {
    /// No sub-pixel rendering
    Disabled,
    /// Horizontal sub-pixels in red, green, blue order
    HorizontalRGB,
}

/// Kind of glyph sprite
#[derive(Clone, Copy, Debug, PartialEq, Eq, Structural)]
pub enum SpriteType {
    /// 8-bit coverage mask
    Mask,
    /// RGB sub-pixel coverage mask (4 bytes per pixel)
    RgbaMask,
    /// RGBA image
    Bitmap,
}

/// A glyph sprite awaiting upload
pub struct UnpreparedSprite {
    pub atlas: u32,
    pub ty: SpriteType,
    pub origin: (u32, u32),
    pub size: (u32, u32),
    pub data: Vec<u8>,
}

/// An allocated image: its size and where it is stored
#[derive(Clone, Copy, Debug)]
pub struct Image {
    pub size: (i32, i32),
    pub alloc: Allocation,
}

/// Image loader and storage
pub struct Shared {
    pub atlas_rgba: Atlases<u32>,
    pub atlas_mask: Atlases<u8>,
    pub atlas_rgba_mask: Atlases<u32>,
    pub last_image_n: u32,
    pub images: HashMap<u32, Image>,
}

/// The image's allocation is live in `atlases`, covering its texture
/// rectangle, which has the image's (positive) size and lies within the
/// atlas
pub open spec fn image_placed(atlases: Seq<Atlas<u32>>, im: Image) -> bool {
    let q = im.alloc.tex_quad;
    &&& im.size.0 > 0 && im.size.1 > 0
    &&& im.alloc.atlas < atlases.len()
    &&& allocs_at(atlases, im.alloc.atlas as int).contains_key(im.alloc.alloc)
    &&& allocs_at(atlases, im.alloc.atlas as int)[im.alloc.alloc] == q
    &&& q.2 == q.0 + im.size.0 && q.3 == q.1 + im.size.1
    &&& 0 <= q.0 && 0 <= q.1
    &&& im.alloc.origin == (q.0 as u32, q.1 as u32)
    &&& q.2 <= atlas_dims(atlases[im.alloc.atlas as int].alloc).0
    &&& q.3 <= atlas_dims(atlases[im.alloc.atlas as int].alloc).1
}

/// Two images do not share an allocation
pub open spec fn apart(a: Image, b: Image) -> bool {
    a.alloc.atlas != b.alloc.atlas || a.alloc.alloc != b.alloc.alloc
}

/// The outcome `r` of uploading a sprite of type `ty` takes the storage
/// `before` to `after`: the upload goes to the atlases of that type, with
/// that type's pixel conversion; images and the other atlases stay
pub open spec fn sprite_uploaded(before: Shared, after: Shared, ty: SpriteType, atlas: u32, origin: (u32, u32), size: (u32, u32), data: Seq<u8>, r: Result<(), UploadError>) -> bool {
    &&& after.images@ == before.images@
    &&& after.last_image_n == before.last_image_n
    &&& after.atlas_rgba.tex_size == before.atlas_rgba.tex_size
    &&& after.atlas_mask.tex_size == before.atlas_mask.tex_size
    &&& after.atlas_rgba_mask.tex_size == before.atlas_rgba_mask.tex_size
    &&& match ty {
        SpriteType::Mask => {
            &&& uploaded(before.atlas_mask.atlases@, after.atlas_mask.atlases@, atlas, origin, size, data.len(), 1, |y: int| mask_row(data, size.0 as int, y), r)
            &&& after.atlas_rgba == before.atlas_rgba
            &&& after.atlas_rgba_mask == before.atlas_rgba_mask
        },
        SpriteType::RgbaMask => {
            &&& uploaded(before.atlas_rgba_mask.atlases@, after.atlas_rgba_mask.atlases@, atlas, origin, size, data.len(), 4, |y: int| rgba_mask_row(data, size.0 as int, y), r)
            &&& after.atlas_rgba == before.atlas_rgba
            &&& after.atlas_mask == before.atlas_mask
        },
        SpriteType::Bitmap => {
            &&& uploaded(before.atlas_rgba.atlases@, after.atlas_rgba.atlases@, atlas, origin, size, data.len(), 4, |y: int| rgba_row(data, size.0 as int, y), r)
            &&& after.atlas_mask == before.atlas_mask
            &&& after.atlas_rgba_mask == before.atlas_rgba_mask
        },
    }
}

/// A sprite upload which the storage admits: rows of sub-pixel masks (two
/// pixels wider) within their texture
pub open spec fn sprite_fits(s: Shared, ty: SpriteType, atlas: u32, origin: (u32, u32), size: (u32, u32), data_len: nat) -> bool {
    &&& ty is RgbaMask && upload_check(s.atlas_rgba_mask.atlases@, atlas, origin, size, data_len, 4) is None
        ==> upload_in_texture(s.atlas_rgba_mask.atlases@, atlas, origin, size, 2)
}

/// The check of a sprite upload against the atlases of its type: an
/// error, or none
pub open spec fn sprite_check(s: Shared, ty: SpriteType, atlas: u32, origin: (u32, u32), size: (u32, u32), data_len: nat) -> Option<UploadError> {
    match ty {
        SpriteType::Mask => upload_check(s.atlas_mask.atlases@, atlas, origin, size, data_len, 1),
        SpriteType::RgbaMask => upload_check(s.atlas_rgba_mask.atlases@, atlas, origin, size, data_len, 4),
        SpriteType::Bitmap => upload_check(s.atlas_rgba.atlases@, atlas, origin, size, data_len, 4),
    }
}

/// Two sets of atlases of the same number and sizes
pub open spec fn same_shape<C>(a: Seq<Atlas<C>>, b: Seq<Atlas<C>>) -> bool {
    &&& a.len() == b.len()
    &&& forall|k: int| 0 <= k < a.len() ==> #[trigger] atlas_dims(b[k].alloc) == atlas_dims(a[k].alloc)
}

/// `r` is the result of an upload with the outcome of `check`: its error,
/// or success
pub open spec fn reports(r: Result<(), UploadError>, check: Option<UploadError>) -> bool {
    match check {
        Some(e) => r == Err::<(), UploadError>(e),
        None => r is Ok,
    }
}

/// The outcome `r` of uploading `data` to image `id` takes the storage
/// `s0` to `s1`: an unknown id is an error and nothing changes; otherwise
/// the pixels go to the image's place in the RGBA atlases, and the only
/// possible error is a data length other than four bytes per pixel
pub open spec fn image_uploaded(s0: Shared, s1: Shared, id: u32, data: Seq<u8>, r: Result<(), UploadError>) -> bool {
    if !s0.images@.contains_key(id) {
        r == Err::<(), UploadError>(UploadError::ImageId(id)) && s1.atlas_rgba == s0.atlas_rgba
    } else {
        let im = s0.images@[id];
        let size = (im.size.0 as u32, im.size.1 as u32);
        &&& uploaded(
            s0.atlas_rgba.atlases@,
            s1.atlas_rgba.atlases@,
            im.alloc.atlas,
            im.alloc.origin,
            size,
            data.len(),
            4,
            |y: int| rgba_row(data, size.0 as int, y),
            r,
        )
        &&& (r is Ok <==> data.len() == 4 * size.0 * size.1)
        &&& (r is Err ==> r == Err::<(), UploadError>(UploadError::DataLen(data.len() as u32)))
    }
}

impl Shared {
    /// Well-formed: the atlases are, every image id is at most the last
    /// one given out, and every image has an allocation of its own
    pub open spec fn wf(&self) -> bool {
        &&& self.atlas_rgba.wf()
        &&& self.atlas_mask.wf()
        &&& self.atlas_rgba_mask.wf()
        &&& forall|id: u32|
            #[trigger] self.images@.contains_key(id) ==> 1 <= id <= self.last_image_n && image_placed(
                self.atlas_rgba.atlases@,
                self.images@[id],
            )
        &&& forall|i: u32, j: u32|
            #[trigger] self.images@.contains_key(i) && #[trigger] self.images@.contains_key(j) && i != j
                ==> apart(self.images@[i], self.images@[j])
    }

    /// Construct: RGBA atlases of side 2048, mask atlases of side 512, no
    /// image
    pub fn new() -> (r: Self)
        ensures
            r.wf(),
            r.last_image_n == 0,
            r.images@ == Map::<u32, Image>::empty(),
            r.atlas_rgba.tex_size == 2048 && r.atlas_rgba.atlases@.len() == 0,
            r.atlas_mask.tex_size == 512 && r.atlas_mask.atlases@.len() == 0,
            r.atlas_rgba_mask.tex_size == 512 && r.atlas_rgba_mask.atlases@.len() == 0,
    {
        Shared {
            atlas_rgba: Atlases::new(2048, 0u32),
            atlas_mask: Atlases::new(512, 0u8),
            atlas_rgba_mask: Atlases::new(512, 0u32),
            last_image_n: 0,
            images: HashMap::new(),
        }
    }

    /// Configure: every sub-pixel mode is supported as is (the sub-pixel
    /// filter assumes horizontal RGB order)
    pub fn set_raster_config(&mut self, subpixel_mode: SubpixelMode)
        ensures
            *final(self) == *old(self),
    {
        match subpixel_mode {
            SubpixelMode::Disabled => {},
            SubpixelMode::HorizontalRGB => {},
        }
    }

    /// The next image id: one more than the last
    fn next_image_id(&mut self) -> (id: u32)
        requires
            old(self).last_image_n < u32::MAX,
        ensures
            id == old(self).last_image_n + 1,
            final(self).last_image_n == id,
            final(self).images@ == old(self).images@,
            final(self).atlas_rgba == old(self).atlas_rgba,
            final(self).atlas_mask == old(self).atlas_mask,
            final(self).atlas_rgba_mask == old(self).atlas_rgba_mask,
    {
        let n = self.last_image_n + 1;
        self.last_image_n = n;
        n
    }

    /// Allocate an image of `size`: it takes the next id (consumed even if
    /// allocation fails) and space in the RGBA atlases
    pub fn alloc_image(&mut self, format: ImageFormat, size: (i32, i32)) -> (r: Result<u32, AllocError>)
        requires
            old(self).wf(),
            old(self).last_image_n < u32::MAX,
            old(self).atlas_rgba.atlases@.len() + 1 < u32::MAX,
            size.0 >= 0,
            size.1 >= 0,
        ensures
            final(self).wf(),
            final(self).last_image_n == old(self).last_image_n + 1,
            final(self).atlas_mask == old(self).atlas_mask,
            final(self).atlas_rgba_mask == old(self).atlas_rgba_mask,
            final(self).atlas_rgba.tex_size == old(self).atlas_rgba.tex_size,
            0 < size.0 <= MAX_TEX_SIZE && 0 < size.1 <= MAX_TEX_SIZE ==> r is Ok,
            r is Err ==> size.0 == 0 || size.1 == 0 || size.0 > MAX_TEX_SIZE || size.1 > MAX_TEX_SIZE,
            r is Err ==> final(self).images@ == old(self).images@,
            r matches Ok(id) ==> {
                let im = final(self).images@[id];
                &&& id == final(self).last_image_n
                &&& final(self).images@ == old(self).images@.insert(id, im)
                &&& im.size == size
                &&& allocated(
                    old(self).atlas_rgba.atlases@,
                    final(self).atlas_rgba.atlases@,
                    size,
                    Ok::<Allocation, AllocError>(im.alloc),
                )
            },
            r is Err ==> allocated(
                old(self).atlas_rgba.atlases@,
                final(self).atlas_rgba.atlases@,
                size,
                Err::<Allocation, AllocError>(AllocError),
            ),
    {
        match format {
            ImageFormat::Rgba8 => {
                let id = self.next_image_id();
                let ghost mid = self.atlas_rgba.atlases@;
                let allocation = match self.atlas_rgba.allocate(size) {
                    Ok(a) => a,
                    Err(e) => {
                        proof {
                            assert forall|i: u32| #[trigger] self.images@.contains_key(i) implies image_placed(
                                self.atlas_rgba.atlases@,
                                self.images@[i],
                            ) by {
                                let q = self.images@[i].alloc.atlas as int;
                                assert(allocs_at(self.atlas_rgba.atlases@, q) == allocs_at(mid, q));
                            }
                        }
                        return Err(e);
                    },
                };
                let image = Image { size, alloc: allocation };
                proof {
                    assert(!old(self).images@.contains_key(id));
                    assert forall|i: u32| #[trigger] old(self).images@.contains_key(i) implies image_placed(
                        self.atlas_rgba.atlases@,
                        old(self).images@[i],
                    ) && apart(old(self).images@[i], image) by {
                        let q = old(self).images@[i].alloc.atlas as int;
                        assert(allocs_at(old(self).atlas_rgba.atlases@, q).contains_key(old(self).images@[i].alloc.alloc));
                        if q == allocation.atlas {
                            assert(allocs_at(self.atlas_rgba.atlases@, q) == allocs_at(mid, q).insert(allocation.alloc, allocation.tex_quad));
                        } else {
                            assert(allocs_at(self.atlas_rgba.atlases@, q) == allocs_at(mid, q));
                        }
                    }
                }
                self.images.insert(id, image);
                proof {
                    assert(image_placed(self.atlas_rgba.atlases@, image));
                    assert forall|i: u32, j: u32|
                        #[trigger] self.images@.contains_key(i) && #[trigger] self.images@.contains_key(j) && i
                            != j implies apart(self.images@[i], self.images@[j]) by {
                        if i != id && j != id {
                            assert(apart(old(self).images@[i], old(self).images@[j]));
                        } else if i == id {
                            assert(apart(old(self).images@[j], image));
                        } else {
                            assert(apart(old(self).images@[i], image));
                        }
                    }
                }
                Ok(id)
            },
        }
    }

    /// Upload the pixels of image `id` (RGBA, 4 bytes per pixel)
    pub fn upload(&mut self, id: u32, data: &[u8]) -> (r: Result<(), UploadError>)
        requires
            old(self).wf(),
        ensures
            final(self).wf(),
            final(self).images@ == old(self).images@,
            final(self).last_image_n == old(self).last_image_n,
            final(self).atlas_mask == old(self).atlas_mask,
            final(self).atlas_rgba_mask == old(self).atlas_rgba_mask,
            final(self).atlas_rgba.tex_size == old(self).atlas_rgba.tex_size,
            image_uploaded(*old(self), *final(self), id, data@, r),
    {
        let image = match self.images.get(&id) {
            Some(im) => *im,
            None => return Err(UploadError::ImageId(id)),
        };
        assert(image_placed(self.atlas_rgba.atlases@, image));
        let size = (image.size.0 as u32, image.size.1 as u32);
        let r = self.atlas_rgba.upload_rgba(image.alloc.atlas, image.alloc.origin, size, data);
        proof {
            assert forall|i: u32| #[trigger] self.images@.contains_key(i) implies image_placed(
                self.atlas_rgba.atlases@,
                self.images@[i],
            ) by {
                let q = self.images@[i].alloc.atlas as int;
                assert(allocs_at(self.atlas_rgba.atlases@, q) == allocs_at(old(self).atlas_rgba.atlases@, q));
            }
        }
        r
    }

    /// Free image `id` and its allocation (an unknown id is ignored)
    pub fn free(&mut self, id: u32)
        requires
            old(self).wf(),
        ensures
            final(self).wf(),
            final(self).images@ == old(self).images@.remove(id),
            final(self).last_image_n == old(self).last_image_n,
            final(self).atlas_mask == old(self).atlas_mask,
            final(self).atlas_rgba_mask == old(self).atlas_rgba_mask,
            final(self).atlas_rgba.tex_size == old(self).atlas_rgba.tex_size,
            final(self).atlas_rgba.atlases@.len() == old(self).atlas_rgba.atlases@.len(),
            forall|k: int|
                #![trigger allocs_at(final(self).atlas_rgba.atlases@, k)]
                allocs_at(final(self).atlas_rgba.atlases@, k) == if old(self).images@.contains_key(id)
                    && k == old(self).images@[id].alloc.atlas {
                    allocs_at(old(self).atlas_rgba.atlases@, k).remove(old(self).images@[id].alloc.alloc)
                } else {
                    allocs_at(old(self).atlas_rgba.atlases@, k)
                },
    {
        match self.images.remove(&id) {
            Some(im) => {
                assert(image_placed(old(self).atlas_rgba.atlases@, im));
                self.atlas_rgba.deallocate(im.alloc.atlas, im.alloc.alloc);
                proof {
                    assert forall|i: u32| #[trigger] self.images@.contains_key(i) implies image_placed(
                        self.atlas_rgba.atlases@,
                        self.images@[i],
                    ) by {
                        assert(old(self).images@.contains_key(i) && i != id);
                        assert(apart(old(self).images@[i], im));
                        let q = self.images@[i].alloc.atlas as int;
                        assert(allocs_at(self.atlas_rgba.atlases@, q) == if q == im.alloc.atlas {
                            allocs_at(old(self).atlas_rgba.atlases@, q).remove(im.alloc.alloc)
                        } else {
                            allocs_at(old(self).atlas_rgba.atlases@, q)
                        });
                    }
                }
            },
            None => {
                assert(self.images@ == old(self).images@.remove(id));
            },
        }
    }

    /// The size of image `id`, if there is one
    pub fn image_size(&self, id: u32) -> (r: Option<(i32, i32)>)
        ensures
            r == if self.images@.contains_key(id) {
                Some(self.images@[id].size)
            } else {
                None
            },
    {
        match self.images.get(&id) {
            Some(im) => Some(im.size),
            None => None,
        }
    }

    /// The atlas and texture rectangle of image `id`, if there is one
    pub fn get_im_atlas_coords(&self, id: u32) -> (r: Option<(u32, (i32, i32, i32, i32))>)
        ensures
            r == if self.images@.contains_key(id) {
                Some((self.images@[id].alloc.atlas, self.images@[id].alloc.tex_quad))
            } else {
                None
            },
    {
        match self.images.get(&id) {
            Some(im) => Some((im.alloc.atlas, im.alloc.tex_quad)),
            None => None,
        }
    }

    /// Upload sprite data of type `ty` to its atlases
    pub fn upload_sprite(&mut self, ty: SpriteType, atlas: u32, origin: (u32, u32), size: (u32, u32), data: &[u8]) -> (r: Result<(), UploadError>)
        requires
            old(self).wf(),
            sprite_fits(*old(self), ty, atlas, origin, size, data@.len()),
        ensures
            final(self).wf(),
            sprite_uploaded(*old(self), *final(self), ty, atlas, origin, size, data@, r),
    {
        let r = match ty {
            SpriteType::Mask => self.atlas_mask.upload_mask(atlas, origin, size, data),
            SpriteType::RgbaMask => self.atlas_rgba_mask.upload_rgba_mask(atlas, origin, size, data),
            SpriteType::Bitmap => self.atlas_rgba.upload_rgba(atlas, origin, size, data),
        };
        proof {
            assert forall|i: u32| #[trigger] self.images@.contains_key(i) implies image_placed(
                self.atlas_rgba.atlases@,
                self.images@[i],
            ) by {
                let q = self.images@[i].alloc.atlas as int;
                assert(allocs_at(self.atlas_rgba.atlases@, q) == allocs_at(old(self).atlas_rgba.atlases@, q));
            }
        }
        r
    }

    /// Upload the sprites awaiting it, in order; the result of each upload
    pub fn prepare(&mut self, sprites: Vec<UnpreparedSprite>) -> (r: Vec<Result<(), UploadError>>)
        requires
            old(self).wf(),
            forall|i: int|
                0 <= i < sprites@.len() ==> #[trigger] sprite_fits(
                    *old(self),
                    sprites@[i].ty,
                    sprites@[i].atlas,
                    sprites@[i].origin,
                    sprites@[i].size,
                    sprites@[i].data@.len(),
                ),
        ensures
            final(self).wf(),
            r@.len() == sprites@.len(),
            forall|i: int|
                0 <= i < sprites@.len() ==> reports(
                    #[trigger] r@[i],
                    sprite_check(
                        *old(self),
                        sprites@[i].ty,
                        sprites@[i].atlas,
                        sprites@[i].origin,
                        sprites@[i].size,
                        sprites@[i].data@.len(),
                    ),
                ),
            exists|states: Seq<Shared>|
                {
                    &&& states.len() == sprites@.len() + 1
                    &&& states[0] == *old(self)
                    &&& states[sprites@.len() as int] == *final(self)
                    &&& forall|i: int|
                        0 <= i < sprites@.len() ==> #[trigger] sprite_uploaded(
                            states[i],
                            states[i + 1],
                            sprites@[i].ty,
                            sprites@[i].atlas,
                            sprites@[i].origin,
                            sprites@[i].size,
                            sprites@[i].data@,
                            r@[i],
                        )
                },
    {
        let mut r: Vec<Result<(), UploadError>> = Vec::new();
        let ghost mut states: Seq<Shared> = seq![*self];
        let mut i: usize = 0;
        while i < sprites.len()
            invariant
                self.wf(),
                i <= sprites@.len(),
                r@.len() == i,
                states.len() == i + 1,
                states[0] == *old(self),
                states[i as int] == *self,
                same_shape(old(self).atlas_rgba.atlases@, self.atlas_rgba.atlases@),
                same_shape(old(self).atlas_mask.atlases@, self.atlas_mask.atlases@),
                same_shape(old(self).atlas_rgba_mask.atlases@, self.atlas_rgba_mask.atlases@),
                forall|j: int|
                    0 <= j < sprites@.len() ==> #[trigger] sprite_fits(
                        *old(self),
                        sprites@[j].ty,
                        sprites@[j].atlas,
                        sprites@[j].origin,
                        sprites@[j].size,
                        sprites@[j].data@.len(),
                    ),
                forall|j: int|
                    0 <= j < i ==> reports(
                        #[trigger] r@[j],
                        sprite_check(
                            *old(self),
                            sprites@[j].ty,
                            sprites@[j].atlas,
                            sprites@[j].origin,
                            sprites@[j].size,
                            sprites@[j].data@.len(),
                        ),
                    ),
                forall|j: int|
                    0 <= j < i ==> #[trigger] sprite_uploaded(
                        states[j],
                        states[j + 1],
                        sprites@[j].ty,
                        sprites@[j].atlas,
                        sprites@[j].origin,
                        sprites@[j].size,
                        sprites@[j].data@,
                        r@[j],
                    ),
            decreases sprites@.len() - i,
        {
            let sp = &sprites[i];
            let ghost before = *self;
            proof {
                assert(sprite_fits(*old(self), sp.ty, sp.atlas, sp.origin, sp.size, sp.data@.len()));
                assert(sprite_check(before, sp.ty, sp.atlas, sp.origin, sp.size, sp.data@.len()) == sprite_check(
                    *old(self),
                    sp.ty,
                    sp.atlas,
                    sp.origin,
                    sp.size,
                    sp.data@.len(),
                ));
            }
            let res = self.upload_sprite(sp.ty, sp.atlas, sp.origin, sp.size, sp.data.as_slice());
            r.push(res);
            proof {
                states = states.push(*self);
            }
            i += 1;
        }
        assert(states[sprites@.len() as int] == *self);
        r
    }

    /// Allocate space for an 8-bit coverage mask of `size`
    pub fn alloc_mask(&mut self, size: (u32, u32)) -> (r: Result<Allocation, AllocError>)
        requires
            old(self).wf(),
            old(self).atlas_mask.atlases@.len() + 1 < u32::MAX,
            size.0 <= i32::MAX,
            size.1 <= i32::MAX,
        ensures
            final(self).wf(),
            final(self).images@ == old(self).images@,
            final(self).last_image_n == old(self).last_image_n,
            final(self).atlas_rgba == old(self).atlas_rgba,
            final(self).atlas_rgba_mask == old(self).atlas_rgba_mask,
            final(self).atlas_mask.tex_size == old(self).atlas_mask.tex_size,
            allocated(old(self).atlas_mask.atlases@, final(self).atlas_mask.atlases@, (size.0 as i32, size.1 as i32), r),
    {
        let r = self.atlas_mask.allocate((size.0 as i32, size.1 as i32));
        r
    }

    /// Allocate space for an RGB sub-pixel coverage mask of `size`, two
    /// pixels wider to leave room for filtering
    pub fn alloc_rgba_mask(&mut self, size: (u32, u32)) -> (r: Result<Allocation, AllocError>)
        requires
            old(self).wf(),
            old(self).atlas_rgba_mask.atlases@.len() + 1 < u32::MAX,
            size.0 + 2 <= i32::MAX,
            size.1 <= i32::MAX,
        ensures
            final(self).wf(),
            final(self).images@ == old(self).images@,
            final(self).last_image_n == old(self).last_image_n,
            final(self).atlas_rgba == old(self).atlas_rgba,
            final(self).atlas_mask == old(self).atlas_mask,
            final(self).atlas_rgba_mask.tex_size == old(self).atlas_rgba_mask.tex_size,
            allocated(old(self).atlas_rgba_mask.atlases@, final(self).atlas_rgba_mask.atlases@, ((size.0 + 2) as i32, size.1 as i32), r),
    {
        let r = self.atlas_rgba_mask.allocate(((size.0 + 2) as i32, size.1 as i32));
        r
    }

    /// Allocate space for an RGBA sprite of `size`
    pub fn alloc_rgba(&mut self, size: (u32, u32)) -> (r: Result<Allocation, AllocError>)
        requires
            old(self).wf(),
            old(self).atlas_rgba.atlases@.len() + 1 < u32::MAX,
            size.0 <= i32::MAX,
            size.1 <= i32::MAX,
        ensures
            final(self).wf(),
            final(self).images@ == old(self).images@,
            final(self).last_image_n == old(self).last_image_n,
            final(self).atlas_mask == old(self).atlas_mask,
            final(self).atlas_rgba_mask == old(self).atlas_rgba_mask,
            final(self).atlas_rgba.tex_size == old(self).atlas_rgba.tex_size,
            allocated(old(self).atlas_rgba.atlases@, final(self).atlas_rgba.atlases@, (size.0 as i32, size.1 as i32), r),
    {
        let r = self.atlas_rgba.allocate((size.0 as i32, size.1 as i32));
        proof {
            assert forall|i: u32| #[trigger] self.images@.contains_key(i) implies image_placed(
                self.atlas_rgba.atlases@,
                self.images@[i],
            ) by {
                let q = self.images@[i].alloc.atlas as int;
                assert(allocs_at(old(self).atlas_rgba.atlases@, q).contains_key(self.images@[i].alloc.alloc));
            }
        }
        r
    }
}

/// The pixel `(x, y)` of image `im` in the RGBA atlases of `s`
pub open spec fn image_pixel(s: Shared, im: Image, x: int, y: int) -> u32 {
    let q = im.alloc.tex_quad;
    let a = s.atlas_rgba.atlases@[im.alloc.atlas as int];
    a.tex@[(q.1 + y) * atlas_dims(a.alloc).0 + q.0 + x]
}

/// The upload of image `im` writes pixel `(x, y)` (relative to image
/// `other`) exactly when that pixel lies within `im`
proof fn lemma_image_rows(s: Shared, im: Image, other: Image, x: int, y: int)
    requires
        s.wf(),
        image_placed(s.atlas_rgba.atlases@, im),
        image_placed(s.atlas_rgba.atlases@, other),
        im.alloc.atlas == other.alloc.atlas,
        0 <= x < other.size.0,
        0 <= y < other.size.1,
    ensures
        ({
            let a = s.atlas_rgba.atlases@[im.alloc.atlas as int];
            let (tw, th) = atlas_dims(a.alloc);
            let q = im.alloc.tex_quad;
            let o = other.alloc.tex_quad;
            let p = (o.1 + y) * tw + o.0 + x;
            &&& 0 <= p < a.tex@.len()
            &&& p / (tw as int) == o.1 + y
            &&& p % (tw as int) == o.0 + x
            &&& (in_rows(p, tw as int, q.0 as int, q.1 as int, im.size.1 as int, im.size.0 as int) <==> (q.0 <= o.0
                + x < q.2 && q.1 <= o.1 + y < q.3))
        }),
{
    let a = s.atlas_rgba.atlases@[im.alloc.atlas as int];
    assert(a.wf());
    let (tw, th) = atlas_dims(a.alloc);
    let o = other.alloc.tex_quad;
    let p = (o.1 + y) * tw + o.0 + x;
    lemma_fundamental_div_mod_converse(p, tw as int, o.1 + y, o.0 + x);
    assert(p < tw * th) by (nonlinear_arith)
        requires
            p == (o.1 + y) * tw + o.0 + x,
            0 <= o.0 + x < tw,
            o.1 + y + 1 <= th,
    ;
    assert(0 <= p) by (nonlinear_arith)
        requires
            p == (o.1 + y) * tw + o.0 + x,
            0 <= o.0 + x,
            0 <= o.1 + y,
            0 < tw,
    ;
}

/// The rows of an upload to image `im` lie within its atlas
proof fn lemma_image_rows_fit(s: Shared, im: Image, data: Seq<u8>)
    requires
        s.wf(),
        image_placed(s.atlas_rgba.atlases@, im),
    ensures
        ({
            let a = s.atlas_rgba.atlases@[im.alloc.atlas as int];
            let tw = atlas_dims(a.alloc).0;
            let q = im.alloc.tex_quad;
            let row = |yy: int| rgba_row(data, im.size.0 as int, yy);
            forall|r: int|
                0 <= r < im.size.1 ==> #[trigger] row_fits(a.tex@.len() as int, tw as int, q.0 as int, q.1 as int, row, r)
        }),
{
    let a = s.atlas_rgba.atlases@[im.alloc.atlas as int];
    assert(a.wf());
    let (tw, th) = atlas_dims(a.alloc);
    let q = im.alloc.tex_quad;
    let row = |yy: int| rgba_row(data, im.size.0 as int, yy);
    assert forall|r: int| 0 <= r < im.size.1 implies #[trigger] row_fits(a.tex@.len() as int, tw as int, q.0 as int, q.1 as int, row, r) by {
        assert(row(r).len() == im.size.0);
        assert(q.0 + (q.1 + r) * tw + im.size.0 <= tw * th) by (nonlinear_arith)
            requires
                0 < tw,
                q.0 + im.size.0 <= tw,
                q.1 + r + 1 <= th,
                0 <= q.1 + r,
        ;
        assert(0 <= q.0 + (q.1 + r) * tw) by (nonlinear_arith)
            requires
                0 <= q.0,
                0 <= q.1 + r,
                0 < tw,
        ;
    }
}

/// Reading back an upload: after a successful upload of `data` to image
/// `id`, each pixel of the image holds the corresponding pixel of `data`,
/// pre-multiplied.
pub proof fn law_upload_reads_back(s0: Shared, s1: Shared, id: u32, data: Seq<u8>, r: Result<(), UploadError>, x: int, y: int)
    requires
        s0.wf(),
        s0.images@.contains_key(id),
        image_uploaded(s0, s1, id, data, r),
        r is Ok,
        0 <= x < s0.images@[id].size.0,
        0 <= y < s0.images@[id].size.1,
    ensures
        image_pixel(s1, s0.images@[id], x, y) == rgba_row(data, s0.images@[id].size.0 as int, y)[x],
{
    let im = s0.images@[id];
    assert(image_placed(s0.atlas_rgba.atlases@, im));
    let k = im.alloc.atlas as int;
    let a = s0.atlas_rgba.atlases@[k];
    assert(a.wf());
    let tw = atlas_dims(a.alloc).0;
    let q = im.alloc.tex_quad;
    let size = (im.size.0 as u32, im.size.1 as u32);
    let row = |yy: int| rgba_row(data, size.0 as int, yy);
    assert(upload_check(s0.atlas_rgba.atlases@, im.alloc.atlas, im.alloc.origin, size, data.len(), 4) is None);
    lemma_image_rows(s0, im, im, x, y);
    lemma_image_rows_fit(s0, im, data);
    let p = (q.1 + y) * tw + q.0 + x;
    lemma_rows_written_at(a.tex@, tw as int, q.0 as int, q.1 as int, im.size.1 as int, row, im.size.0 as int, p);
}

/// Uploads to one image leave every pixel of every other image unchanged.
pub proof fn law_upload_keeps_other_images(
    s0: Shared,
    s1: Shared,
    id: u32,
    data: Seq<u8>,
    r: Result<(), UploadError>,
    other: u32,
    x: int,
    y: int,
)
    requires
        s0.wf(),
        s0.images@.contains_key(id),
        s0.images@.contains_key(other),
        id != other,
        image_uploaded(s0, s1, id, data, r),
        0 <= x < s0.images@[other].size.0,
        0 <= y < s0.images@[other].size.1,
    ensures
        image_pixel(s1, s0.images@[other], x, y) == image_pixel(s0, s0.images@[other], x, y),
{
    let im = s0.images@[id];
    let ot = s0.images@[other];
    assert(image_placed(s0.atlas_rgba.atlases@, im));
    assert(image_placed(s0.atlas_rgba.atlases@, ot));
    assert(apart(im, ot));
    let size = (im.size.0 as u32, im.size.1 as u32);
    let row = |yy: int| rgba_row(data, size.0 as int, yy);
    if r is Ok && im.alloc.atlas == ot.alloc.atlas {
        let k = im.alloc.atlas as int;
        let a = s0.atlas_rgba.atlases@[k];
        assert(a.wf());
        let tw = atlas_dims(a.alloc).0;
        let q = im.alloc.tex_quad;
        let o = ot.alloc.tex_quad;
        assert(upload_check(s0.atlas_rgba.atlases@, im.alloc.atlas, im.alloc.origin, size, data.len(), 4) is None);
        lemma_image_rows(s0, im, ot, x, y);
        lemma_image_rows_fit(s0, im, data);
        let p = (o.1 + y) * tw + o.0 + x;
        lemma_rows_written_at(a.tex@, tw as int, q.0 as int, q.1 as int, im.size.1 as int, row, im.size.0 as int, p);
        let m = atlas_allocs(a.alloc);
        assert(m[im.alloc.alloc] == q && m[ot.alloc.alloc] == o);
        assert(crate::soft::atlas::rects_disjoint(m[im.alloc.alloc], m[ot.alloc.alloc]));
    }
}

/// Distinct images never share texture space: in one atlas, their
/// rectangles do not overlap.
pub proof fn law_images_disjoint(s: Shared, i: u32, j: u32)
    requires
        s.wf(),
        s.images@.contains_key(i),
        s.images@.contains_key(j),
        i != j,
        s.images@[i].alloc.atlas == s.images@[j].alloc.atlas,
    ensures
        crate::soft::atlas::rects_disjoint(s.images@[i].alloc.tex_quad, s.images@[j].alloc.tex_quad),
{
    let (a, b) = (s.images@[i], s.images@[j]);
    assert(image_placed(s.atlas_rgba.atlases@, a) && image_placed(s.atlas_rgba.atlases@, b));
    assert(apart(a, b));
    let at = s.atlas_rgba.atlases@[a.alloc.atlas as int];
    assert(at.wf());
    let m = atlas_allocs(at.alloc);
    assert(crate::soft::atlas::rects_disjoint(m[a.alloc.alloc], m[b.alloc.alloc]));
}

} // verus!
