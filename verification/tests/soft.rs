use kas_verified::geom::{Coord, Offset, Rect, Size};
use kas_verified::soft::atlas::{premul_pixel, AllocError, Atlases, UploadError, MAX_TEX_SIZE};
use kas_verified::soft::blend::{blend_mask, blend_rgba, blend_rgba_mask, color_to_u32, fill_rect};
use kas_verified::soft::draw::{ClipRegion, Draw, PassType};
use kas_verified::soft::shared::{ImageFormat, Shared, SpriteType, SubpixelMode, UnpreparedSprite};
use kas_verified::soft::window::AtlasWindow;
use kas_verified::theme::colors::Rgba8Srgb;

#[test]
fn blend_rgba_fades_background_by_texel_alpha() {
    // alpha 0x80: background scaled by 127/255, texel colour added
    assert_eq!(blend_rgba(0x8040_2010, 0x00FF_FFFF), 0x0040_2010 + 0x007F_7F7F);
    // opaque texel replaces the background
    assert_eq!(blend_rgba(0xFF12_3456, 0x00AB_CDEF), 0x0012_3456);
    // transparent texel keeps the background
    assert_eq!(blend_rgba(0x0000_0000, 0x00AB_CDEF), 0x00AB_CDEF);
}

#[test]
fn blend_mask_mixes_colour_and_background() {
    assert_eq!(blend_mask(255, 0x0011_2233, 0x00FF_FFFF), 0x0011_2233);
    assert_eq!(blend_mask(0, 0x0011_2233, 0x00AB_CDEF), 0x00AB_CDEF);
    // half coverage: 128 * 0xFF / 255 + 127 * 0 / 255
    assert_eq!(blend_mask(128, 0x00FF_FFFF, 0), 0x0080_8080);
}

#[test]
fn blend_rgba_mask_per_channel() {
    assert_eq!(blend_rgba_mask(0x00FF_0000, 0x0010_2030, 0x0040_5060), 0x0010_5060);
    assert_eq!(blend_rgba_mask(0x00FF_FFFF, 0x0010_2030, 0x0040_5060), 0x0010_2030);
}

#[test]
fn color_to_u32_drops_alpha() {
    assert_eq!(color_to_u32(Rgba8Srgb([1, 2, 3, 4])), 0x0001_0203);
}

#[test]
fn fill_rect_fills_only_the_rectangle() {
    let mut buf = vec![0u32; 12];
    fill_rect(&mut buf, 4, 1, 3, 1, 3, 9);
    assert_eq!(buf, vec![0, 0, 0, 0, 0, 9, 9, 0, 0, 9, 9, 0]);
    let mut empty = vec![1u32; 4];
    fill_rect(&mut empty, 2, 0, 2, 1, 1, 7);
    assert_eq!(empty, vec![1, 1, 1, 1]);
}

#[test]
fn premul_pixel_scales_by_alpha() {
    let px = [0xFFu8, 0x00, 0x80, 0x80];
    // a = 0x80: r = 0x80 * 0xFF / 255, b = 0x80 * 0x80 / 255 = 0x40
    assert_eq!(premul_pixel(&px, 0), 0x8080_0040);
}

#[test]
fn atlas_allocation_and_errors() {
    let mut a: Atlases<u32> = Atlases::new(64, 0);
    let x = a.allocate((10, 20)).unwrap();
    assert_eq!(x.atlas, 0);
    assert_eq!(x.tex_quad.2 - x.tex_quad.0, 10);
    assert_eq!(x.tex_quad.3 - x.tex_quad.1, 20);
    assert_eq!(a.atlases.len(), 1);
    let y = a.allocate((10, 20)).unwrap();
    assert_eq!(y.atlas, 0);
    assert_ne!(y.alloc, x.alloc);
    // zero size
    assert_eq!(a.allocate((0, 5)), Err(AllocError));
    // beyond the maximum
    assert_eq!(a.allocate((MAX_TEX_SIZE + 1, 1)), Err(AllocError));
    // larger than a regular atlas: a special atlas of exactly that size
    let big = a.allocate((100, 80)).unwrap();
    assert_eq!(big.atlas, 1);
    assert_eq!(big.tex_quad, (0, 0, 100, 80));
    assert_eq!(a.atlases[1].tex.len(), 8000);
    // freeing makes room again
    a.deallocate(1, big.alloc);
    let again = a.allocate((100, 80)).unwrap();
    assert_eq!(again.atlas, 1);
}

#[test]
fn atlas_upload_converts_and_checks() {
    let mut a: Atlases<u32> = Atlases::new(16, 0);
    let x = a.allocate((2, 1)).unwrap();
    let data = [255u8, 0, 0, 255, 0, 255, 0, 128];
    assert_eq!(a.upload_rgba(x.atlas, x.origin, (2, 1), &data), Ok(()));
    let (ox, oy) = (x.origin.0 as usize, x.origin.1 as usize);
    let tex = &a.atlases[0].tex;
    assert_eq!(tex[oy * 16 + ox], 0xFFFF_0000);
    assert_eq!(tex[oy * 16 + ox + 1], 0x8000_8000);
    assert_eq!(a.upload_rgba(x.atlas, x.origin, (2, 1), &data[..7]), Err(UploadError::DataLen(7)));
    assert_eq!(a.upload_rgba(5, (0, 0), (1, 1), &data[..4]), Err(UploadError::AtlasIndex(5)));
    assert_eq!(a.upload_rgba(0, (15, 0), (2, 1), &data), Err(UploadError::TextureCoordinates));
}

#[test]
fn shared_images_lifecycle() {
    let mut s = Shared::new();
    let id = s.alloc_image(ImageFormat::Rgba8, (2, 2)).unwrap();
    assert_eq!(id, 1);
    assert_eq!(s.image_size(1), Some((2, 2)));
    assert_eq!(s.image_size(2), None);
    let (atlas, quad) = s.get_im_atlas_coords(1).unwrap();
    assert_eq!(atlas, 0);
    assert_eq!((quad.2 - quad.0, quad.3 - quad.1), (2, 2));
    assert_eq!(s.upload(1, &[255u8; 16]), Ok(()));
    assert_eq!(s.upload(1, &[0u8; 3]), Err(UploadError::DataLen(3)));
    assert_eq!(s.upload(9, &[0u8; 16]), Err(UploadError::ImageId(9)));
    s.free(1);
    assert_eq!(s.image_size(1), None);
    assert_eq!(s.get_im_atlas_coords(1), None);
    // a failed allocation still takes an id
    assert_eq!(s.alloc_image(ImageFormat::Rgba8, (0, 3)), Err(AllocError));
    assert_eq!(s.alloc_image(ImageFormat::Rgba8, (1, 1)), Ok(3));
    s.set_raster_config(SubpixelMode::HorizontalRGB);
    assert_eq!(s.last_image_n, 3);
}

#[test]
fn shared_sprites() {
    let mut s = Shared::new();
    let m = s.alloc_mask((2, 1)).unwrap();
    let rm = s.alloc_rgba_mask((1, 1)).unwrap();
    // two pixels wider, for filtering
    assert_eq!(rm.tex_quad.2 - rm.tex_quad.0, 3);
    let b = s.alloc_rgba((1, 1)).unwrap();
    let sprites = vec![
        UnpreparedSprite { atlas: m.atlas, ty: SpriteType::Mask, origin: m.origin, size: (2, 1), data: vec![7, 9] },
        UnpreparedSprite { atlas: 3, ty: SpriteType::Bitmap, origin: (0, 0), size: (1, 1), data: vec![0; 4] },
        UnpreparedSprite {
            atlas: rm.atlas,
            ty: SpriteType::RgbaMask,
            origin: rm.origin,
            size: (1, 1),
            data: vec![0x10, 0x20, 0x30, 0],
        },
        UnpreparedSprite { atlas: b.atlas, ty: SpriteType::Bitmap, origin: b.origin, size: (1, 1), data: vec![0; 5] },
    ];
    let r = s.prepare(sprites);
    assert_eq!(r, vec![Ok(()), Err(UploadError::AtlasIndex(3)), Ok(()), Err(UploadError::DataLen(5))]);
    let (mx, my) = (m.origin.0 as usize, m.origin.1 as usize);
    assert_eq!(s.atlas_mask.atlases[0].tex[my * 512 + mx], 7);
    assert_eq!(s.atlas_mask.atlases[0].tex[my * 512 + mx + 1], 9);
    let (rx, ry) = (rm.origin.0 as usize, rm.origin.1 as usize);
    // the filtered first pixel: blue (0x4D * 0x10 + 0x08 * 0x20) / 256 = 5
    assert_eq!(s.atlas_rgba_mask.atlases[0].tex[ry * 512 + rx], 5);
}

#[test]
fn atlas_window_queues_by_pass_and_atlas() {
    let mut w: AtlasWindow<char> = AtlasWindow::new();
    w.rect(2, 1, 'a');
    assert_eq!(w.passes.len(), 10);
    assert_eq!(w.passes[2].len(), 2);
    w.rect(2, 1, 'b');
    w.rect(0, 0, 'c');
    let taken = w.take_pass(2);
    assert_eq!(taken, vec![vec![], vec!['a', 'b']]);
    assert_eq!(w.passes[2], vec![Vec::<char>::new(), vec![]]);
    assert_eq!(w.take_pass(0), vec![vec!['c']]);
    assert_eq!(w.take_pass(40), Vec::<Vec<char>>::new());
}

#[test]
fn draw_passes_and_order() {
    let mut d: Draw<(), ()> = Draw::new((), ());
    assert_eq!(d.clip_regions, vec![ClipRegion::default()]);
    d.resize(Size(100, 100));
    let r = Rect { pos: Coord(10, 10), size: Size(200, 20) };
    let p1 = d.new_pass(0, r, Offset(5, 0), PassType::Clip);
    assert_eq!(p1, 1);
    assert_eq!(d.clip_regions[1].order, 17);
    // clipped to the window
    assert_eq!(d.clip_regions[1].rect, Rect { pos: Coord(10, 10), size: Size(90, 20) });
    assert_eq!(d.get_clip_rect(1), Rect { pos: Coord(15, 10), size: Size(90, 20) });
    let p2 = d.new_pass(0, Rect { pos: Coord(0, 0), size: Size(5, 5) }, Offset(0, 0), PassType::Overlay);
    assert_eq!(d.clip_regions[p2].order, 65537);
    // within pass 1 (offset 5): moved left by 5, outside its parent: empty
    let p3 = d.new_pass(1, Rect { pos: Coord(0, 0), size: Size(4, 4) }, Offset(0, 0), PassType::Clip);
    assert_eq!(d.clip_regions[p3].rect, Rect { pos: Coord(0, 0), size: Size(0, 0) });
    assert_eq!(d.clip_regions[p3].order, 273);
    assert_eq!(d.pass_order(), vec![0, 1, 3, 2]);
    d.end_frame();
    assert_eq!(d.clip_regions.len(), 1);
    assert_eq!(d.clip_regions[0].rect.size, Size(100, 100));
}

fn pixel(s: &Shared, id: u32, x: i32, y: i32) -> u32 {
    let (atlas, q) = s.get_im_atlas_coords(id).unwrap();
    let a = &s.atlas_rgba.atlases[atlas as usize];
    let tw = a.alloc.size().width;
    a.tex[((q.1 + y) * tw + q.0 + x) as usize]
}

#[test]
fn upload_reads_back_and_keeps_other_images() {
    let mut s = Shared::new();
    let a = s.alloc_image(ImageFormat::Rgba8, (2, 2)).unwrap();
    let b = s.alloc_image(ImageFormat::Rgba8, (3, 1)).unwrap();
    let (_, qa) = s.get_im_atlas_coords(a).unwrap();
    let (_, qb) = s.get_im_atlas_coords(b).unwrap();
    // the two images do not overlap
    assert!(qa.2 <= qb.0 || qb.2 <= qa.0 || qa.3 <= qb.1 || qb.3 <= qa.1);
    let data_b: Vec<u8> = vec![1, 2, 3, 255, 4, 5, 6, 255, 7, 8, 9, 255];
    assert_eq!(s.upload(b, &data_b), Ok(()));
    let data_a: Vec<u8> = (0..16).map(|i| if i % 4 == 3 { 255 } else { i as u8 }).collect();
    assert_eq!(s.upload(a, &data_a), Ok(()));
    // image a reads back pre-multiplied (opaque: unchanged) as ARGB
    assert_eq!(pixel(&s, a, 0, 0), 0xFF00_0102);
    assert_eq!(pixel(&s, a, 1, 1), 0xFF0C_0D0E);
    // image b is untouched by the upload to a
    assert_eq!(pixel(&s, b, 0, 0), 0xFF01_0203);
    assert_eq!(pixel(&s, b, 2, 0), 0xFF07_0809);
}

#[test]
fn atlases_reused_before_new_ones() {
    let mut a: Atlases<u8> = Atlases::new(64, 0);
    assert_eq!(a.allocate((10, 10)).unwrap().atlas, 0);
    assert_eq!(a.allocate((10, 10)).unwrap().atlas, 0);
    // no room left in the first atlas for a full-size image
    assert_eq!(a.allocate((64, 64)).unwrap().atlas, 1);
    // a small image still fits the first atlas
    assert_eq!(a.allocate((5, 5)).unwrap().atlas, 0);
    assert_eq!(a.atlases.len(), 2);
}
