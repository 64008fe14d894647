//! Placing bitmaps in the atlas: texels that wait for their upload, and the
//! rasterised glyphs that are cached with the region they were given.

use vstd::prelude::*;
use crate::atlas::{
    advanced, has_room, rect_at, region_of, shelf_for, Atlas, AtlasError, AtlasRegion, Cursor,
    PixelRect,
};
use crate::glyphs::{expand_coverage, rgba_of, Coverage, GlyphCache, GlyphKey};

verus! {

/// Texels that were given a rectangle of the atlas and wait to be written
/// to the device texture.
#[derive(Debug, PartialEq, Eq)]
pub struct TextureUpload {
    pub rect: PixelRect,
    pub texels: Vec<u8>,
}

/// An upload as a plain value.
pub struct Pending {
    pub rect: PixelRect,
    pub texels: Seq<u8>,
}

impl View for TextureUpload {
    type V = Pending;

    open spec fn view(&self) -> Pending {
        Pending { rect: self.rect, texels: self.texels@ }
    }
}

/// The uploads of `queue` as plain values.
pub open spec fn pending(queue: Seq<TextureUpload>) -> Seq<Pending> {
    Seq::new(queue.len(), |i: int| queue[i]@)
}

/// What placing bitmaps changes: the cursor of the atlas, the rectangles it
/// has handed out, the cached regions and the uploads that wait.
pub struct Placed {
    pub cursor: Cursor,
    pub allocated: Seq<PixelRect>,
    pub regions: Map<GlyphKey, AtlasRegion>,
    pub uploads: Seq<Pending>,
}

/// Whether a coverage bitmap has one byte for each texel of its box.
pub open spec fn usable(coverage: Coverage) -> bool {
    coverage.data@.len() == coverage.width * coverage.height
}

/// The state after one coverage bitmap was offered: nothing changes for a
/// glyph that is cached already or a bitmap that is not usable; else the
/// atlas is asked for a rectangle, and where it has one the texels are
/// queued and the region is cached.
pub open spec fn place(state: Placed, size: int, coverage: Coverage) -> Placed {
    if state.regions.contains_key(coverage.key) || !usable(coverage) {
        state
    } else {
        let width = coverage.width as int;
        let height = coverage.height as int;
        let cursor = shelf_for(state.cursor, size, width);
        if has_room(cursor, size, width, height) {
            let rect = rect_at(cursor, width, height);
            Placed {
                cursor: advanced(cursor, width, height),
                allocated: state.allocated.push(rect),
                regions: state.regions.insert(coverage.key, region_of(rect, size)),
                uploads: state.uploads.push(Pending { rect, texels: rgba_of(coverage.data@) }),
            }
        } else {
            Placed { cursor, ..state }
        }
    }
}

/// The state after each of `bitmaps` was offered in turn.
pub open spec fn place_all(state: Placed, size: int, bitmaps: Seq<Coverage>) -> Placed
    decreases bitmaps.len(),
{
    if bitmaps.len() == 0 {
        state
    } else {
        place(place_all(state, size, bitmaps.drop_last()), size, bitmaps.last())
    }
}

/// Offering bitmaps of glyphs that are all cached changes nothing.
pub proof fn lemma_place_all_cached(state: Placed, size: int, bitmaps: Seq<Coverage>)
    requires
        forall|i: int| 0 <= i < bitmaps.len() ==> state.regions.contains_key(
            (#[trigger] bitmaps[i]).key,
        ),
    ensures
        place_all(state, size, bitmaps) == state,
    decreases bitmaps.len(),
{
    if bitmaps.len() > 0 {
        let front = bitmaps.drop_last();
        assert forall|i: int| 0 <= i < front.len() implies state.regions.contains_key(
            (#[trigger] front[i]).key,
        ) by {
            assert(front[i] == bitmaps[i]);
        }
        lemma_place_all_cached(state, size, front);
        assert(state.regions.contains_key(bitmaps.last().key));
    }
}

/// Placing bitmaps keeps every cached region as it was and only adds to
/// the rectangles handed out and to the uploads.
pub proof fn lemma_place_all_keeps(state: Placed, size: int, bitmaps: Seq<Coverage>)
    ensures
        forall|key: GlyphKey| #[trigger]
            state.regions.contains_key(key) ==> place_all(state, size, bitmaps).regions.contains_key(
                key,
            ) && place_all(state, size, bitmaps).regions[key] == state.regions[key],
        state.allocated.is_prefix_of(place_all(state, size, bitmaps).allocated),
        state.uploads.is_prefix_of(place_all(state, size, bitmaps).uploads),
    decreases bitmaps.len(),
{
    if bitmaps.len() > 0 {
        lemma_place_all_keeps(state, size, bitmaps.drop_last());
    }
}

/// The placing state of an atlas, a cache and a queue of uploads.
pub open spec fn placed(atlas: Atlas, cache: GlyphCache, queue: Seq<TextureUpload>) -> Placed {
    Placed {
        cursor: atlas.cursor(),
        allocated: atlas.allocated(),
        regions: cache.regions(),
        uploads: pending(queue),
    }
}

/// The number of texels in a box of `width` by `height`.
pub fn texel_count(width: u32, height: u32) -> (count: u64)
    ensures
        count == width * height,
{
    assert(width * height <= 0xffff_ffff * 0xffff_ffff) by (nonlinear_arith)
        requires
            0 <= width <= 0xffff_ffff,
            0 <= height <= 0xffff_ffff,
    ;
    width as u64 * height as u64
}

/// Gives `texels`, `width` by `height` RGBA texels, a rectangle of the
/// atlas and queues them for upload. Nothing is queued where the atlas has
/// no room.
pub fn place_texels(
    atlas: &mut Atlas,
    queue: &mut Vec<TextureUpload>,
    texels: Vec<u8>,
    width: u32,
    height: u32,
) -> (result: Result<AtlasRegion, AtlasError>)
    requires
        old(atlas).wf(),
    ensures
        final(atlas).wf(),
        final(atlas).size() == old(atlas).size(),
        ({
            let size = old(atlas).size();
            let cursor = shelf_for(old(atlas).cursor(), size, width as int);
            if has_room(cursor, size, width as int, height as int) {
                let rect = rect_at(cursor, width as int, height as int);
                &&& result == Ok::<AtlasRegion, AtlasError>(region_of(rect, size))
                &&& final(atlas).cursor() == advanced(cursor, width as int, height as int)
                &&& final(atlas).allocated() == old(atlas).allocated().push(rect)
                &&& pending(final(queue)@) == pending(old(queue)@).push(
                    Pending { rect, texels: texels@ },
                )
            } else {
                &&& result == Err::<AtlasRegion, AtlasError>(AtlasError::OutOfSpace)
                &&& final(atlas).cursor() == cursor
                &&& final(atlas).allocated() == old(atlas).allocated()
                &&& final(queue)@ == old(queue)@
            }
        }),
{
    match atlas.allocate(width, height) {
        Ok(region) => {
            queue.push(TextureUpload { rect: region.pixels, texels });
            assert(pending(queue@) =~= pending(old(queue)@).push(
                Pending { rect: region.pixels, texels: texels@ },
            ));
            Ok(region)
        },
        Err(error) => Err(error),
    }
}

/// Offers each of `bitmaps` in turn: the bitmap of a glyph that is not
/// cached yet is expanded to RGBA texels, given a rectangle of the atlas,
/// queued for upload and cached. A bitmap that is not usable, or for which
/// the atlas has no room, is passed over and its glyph stays uncached.
pub fn cache_glyphs(
    atlas: &mut Atlas,
    cache: &mut GlyphCache,
    queue: &mut Vec<TextureUpload>,
    bitmaps: &[Coverage],
)
    requires
        old(atlas).wf(),
    ensures
        final(atlas).wf(),
        final(atlas).size() == old(atlas).size(),
        placed(*final(atlas), *final(cache), final(queue)@) == place_all(
            placed(*old(atlas), *old(cache), old(queue)@),
            old(atlas).size(),
            bitmaps@,
        ),
{
    let n: usize = bitmaps.len();
    let ghost start = placed(*atlas, *cache, queue@);
    let ghost size = atlas.size();
    let mut i: usize = 0;
    assert(bitmaps@.take(0) =~= Seq::<Coverage>::empty());
    while i < n
        invariant
            i <= n,
            n == bitmaps@.len(),
            atlas.wf(),
            atlas.size() == size,
            placed(*atlas, *cache, queue@) == place_all(start, size, bitmaps@.take(i as int)),
        decreases n - i,
    {
        let coverage: &Coverage = &bitmaps[i];
        let ghost before = placed(*atlas, *cache, queue@);
        proof {
            let next = bitmaps@.take(i + 1);
            assert(next.drop_last() =~= bitmaps@.take(i as int));
            assert(next.last() == *coverage);
        }
        if !cache.contains(&coverage.key) && coverage.data.len() as u64 == texel_count(
            coverage.width,
            coverage.height,
        ) {
            let texels: Vec<u8> = expand_coverage(coverage.data.as_slice());
            match place_texels(atlas, queue, texels, coverage.width, coverage.height) {
                Ok(region) => {
                    cache.insert(coverage.key, region);
                },
                Err(_) => {},
            }
        }
        assert(placed(*atlas, *cache, queue@) == place(before, size, *coverage));
        i += 1;
    }
    assert(bitmaps@.take(n as int) =~= bitmaps@);
}

} // verus!
