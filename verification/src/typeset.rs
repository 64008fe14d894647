//! Drawing a laid-out text: the glyphs that are new are placed in the
//! atlas, and one quad for each glyph goes into the frame.

use vstd::prelude::*;
use crate::atlas::Atlas;
use crate::batch::{fits, rebased, BatchError, GeometryBuffer};
use crate::fixed::Fixed;
use crate::geometry::Color;
use crate::glyphs::{Coverage, Glyph, GlyphCache};
use crate::placement::{
    cache_glyphs, lemma_place_all_cached, place_all, placed, Placed, TextureUpload,
};
use crate::text::{
    drawn_count, has_key, lemma_quad_indices_within, lemma_text_vertices_len, lemma_uncached_none,
    quad_indices, text_geometry, text_vertices, uncached, visible, visible_count,
};

verus! {

/// What became of the glyphs of a text: how many were drawn, and how many
/// were left out because they have no region in the atlas.
#[derive(Clone, Copy, Debug, PartialEq, Eq)]
pub struct TextReport {
    pub drawn: usize,
    pub missing: usize,
}

/// Whether `quads` more quads fit the capacity of `buffer`.
pub open spec fn quads_fit(buffer: GeometryBuffer, quads: int) -> bool {
    fits(buffer, 4 * quads, 6 * quads)
}

/// Draws the laid-out text `glyphs` with its origin at the logical point
/// `(x, y)`.
///
/// First each of `bitmaps` is offered to the atlas and the cache. Then the
/// glyphs up to `max_height` are drawn, one quad for each glyph that has a
/// region, and these quads go into the frame together: where they do not
/// fit its capacity, none of them is drawn.
pub fn draw_glyphs(
    buffer: &mut GeometryBuffer,
    atlas: &mut Atlas,
    cache: &mut GlyphCache,
    queue: &mut Vec<TextureUpload>,
    glyphs: &[Glyph],
    bitmaps: &[Coverage],
    x: Fixed,
    y: Fixed,
    max_height: Option<Fixed>,
    scale: Fixed,
    color: &Color,
) -> (result: Result<TextReport, BatchError>)
    requires
        old(buffer).wf(),
        old(atlas).wf(),
    ensures
        final(buffer).wf(),
        final(atlas).wf(),
        final(atlas).size() == old(atlas).size(),
        final(buffer).committed() == old(buffer).committed(),
        final(buffer).max_vertices() == old(buffer).max_vertices(),
        final(buffer).max_indices() == old(buffer).max_indices(),
        placed(*final(atlas), *final(cache), final(queue)@) == place_all(
            placed(*old(atlas), *old(cache), old(queue)@),
            old(atlas).size(),
            bitmaps@,
        ),
        ({
            let drawn = visible(glyphs@, max_height, scale as int);
            let quads = drawn_count(drawn, final(cache).regions());
            if quads_fit(*old(buffer), quads as int) {
                &&& result matches Ok(report) && report.drawn == quads && report.missing == drawn.len() - quads
                &&& final(buffer).vertices() == old(buffer).vertices() + text_vertices(
                    drawn,
                    final(cache).regions(),
                    x as int,
                    y as int,
                    scale as int,
                    *color,
                )
                &&& final(buffer).indices() == old(buffer).indices() + rebased(
                    quad_indices(quads as int),
                    old(buffer).vertices().len() as int,
                )
            } else {
                &&& result == Err::<TextReport, BatchError>(BatchError::CapacityExceeded)
                &&& final(buffer).vertices() == old(buffer).vertices()
                &&& final(buffer).indices() == old(buffer).indices()
            }
        }),
{
    cache_glyphs(atlas, cache, queue, bitmaps);
    let count: usize = visible_count(glyphs, max_height, scale);
    proof {
        buffer.lemma_wf();
    }
    let room_vertices: usize = (buffer.vertex_capacity() - buffer.vertex_count()) / 4;
    let room_indices: usize = (buffer.index_capacity() - buffer.index_count()) / 6;
    let max_quads: usize = if room_vertices < room_indices {
        room_vertices
    } else {
        room_indices
    };
    let ghost drawn = glyphs@.take(count as int);
    proof {
        lemma_text_vertices_len(drawn, cache.regions(), x as int, y as int, scale as int, *color);
    }
    match text_geometry(cache, glyphs, count, x, y, scale, color, max_quads) {
        Some((vertices, indices)) => {
            proof {
                lemma_quad_indices_within(vertices@.len() as int / 4);
            }
            let quads: usize = vertices.len() / 4;
            let added = buffer.add_geom(vertices.as_slice(), indices.as_slice());
            assert(added.is_ok());
            Ok(TextReport { drawn: quads, missing: count - quads })
        },
        None => Err(BatchError::CapacityExceeded),
    }
}

/// Once a text was drawn with none of its glyphs missing, drawing it again
/// asks for no glyph to be rasterised, and whatever bitmaps of its glyphs
/// are offered again, nothing is placed in the atlas and the quads of the
/// text come out as before.
pub proof fn lemma_redraw_same(
    state: Placed,
    size: int,
    bitmaps: Seq<Coverage>,
    again: Seq<Coverage>,
    glyphs: Seq<Glyph>,
    x: int,
    y: int,
    scale: int,
    color: Color,
)
    requires
        forall|i: int|
            0 <= i < glyphs.len() ==> place_all(state, size, bitmaps).regions.contains_key(
                (#[trigger] glyphs[i]).key,
            ),
        forall|j: int| 0 <= j < again.len() ==> has_key(glyphs, (#[trigger] again[j]).key),
    ensures
        uncached(glyphs, place_all(state, size, bitmaps).regions) == Seq::<Glyph>::empty(),
        place_all(place_all(state, size, bitmaps), size, again) == place_all(state, size, bitmaps),
        text_vertices(
            glyphs,
            place_all(place_all(state, size, bitmaps), size, again).regions,
            x,
            y,
            scale,
            color,
        ) == text_vertices(glyphs, place_all(state, size, bitmaps).regions, x, y, scale, color),
{
    let first = place_all(state, size, bitmaps);
    lemma_uncached_none(glyphs, first.regions);
    assert forall|j: int| 0 <= j < again.len() implies first.regions.contains_key(
        (#[trigger] again[j]).key,
    ) by {
        let i = choose|i: int| 0 <= i < glyphs.len() && (#[trigger] glyphs[i]).key == again[j].key;
        assert(first.regions.contains_key(glyphs[i].key));
    }
    lemma_place_all_cached(first, size, again);
}

} // verus!
