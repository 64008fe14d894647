//! A renderer with a glyph cache of its own, drawing into the frame and
//! the atlas of a `Graphics`.

use vstd::prelude::*;
use crate::atlas::AtlasRegion;
use crate::batch::{fits, rebased, BatchError};
use crate::fixed::Fixed;
use crate::geometry::Color;
use crate::glyphs::{Coverage, Glyph, GlyphCache, GlyphKey};
use crate::graphics::{rect_vertices, Graphics, TEXTURE_SIZE};
use crate::path::{well_formed, Path, PathError, PathJob, TessellationMode};
use crate::placement::{place_all, placed};
use crate::text::{
    drawn_count, glyphs_to_rasterize, quad_indices, text_vertices, uncached,
};
use crate::typeset::{quads_fit, TextReport};

verus! {

/// The glyphs that this renderer has rasterised.
pub struct Renderer {
    cache: GlyphCache,
}

impl Renderer {
    /// The glyph cache.
    pub closed spec fn glyph_cache(&self) -> GlyphCache {
        self.cache
    }

    pub fn new() -> (renderer: Self)
        ensures
            renderer.glyph_cache().regions() == Map::<GlyphKey, AtlasRegion>::empty(),
    {
        Renderer { cache: GlyphCache::new() }
    }

    /// Asks for the stroke of `path` in `color`.
    pub fn stroke_path(&self, path: Path, color: &Color) -> (job: Result<PathJob, PathError>)
        ensures
            job == if well_formed(path.commands@) {
                Ok::<PathJob, PathError>(
                    PathJob { mode: TessellationMode::Stroke, path, color: *color },
                )
            } else {
                Err::<PathJob, PathError>(PathError::Malformed)
            },
    {
        Graphics::draw_path(path, color)
    }

    /// Asks for the filling of `path` in `color`.
    pub fn fill_path(&self, path: Path, color: &Color) -> (job: Result<PathJob, PathError>)
        ensures
            job == if well_formed(path.commands@) {
                Ok::<PathJob, PathError>(
                    PathJob { mode: TessellationMode::Fill, path, color: *color },
                )
            } else {
                Err::<PathJob, PathError>(PathError::Malformed)
            },
    {
        Graphics::fill_path(path, color)
    }

    /// Draws a filled rectangle into the frame of `gfx`.
    pub fn fill_rect(
        &mut self,
        gfx: &mut Graphics,
        x1: Fixed,
        y1: Fixed,
        x2: Fixed,
        y2: Fixed,
        color: &Color,
    ) -> (result: Result<(), BatchError>)
        requires
            old(gfx).wf(),
        ensures
            final(gfx).wf(),
            final(self).glyph_cache() == old(self).glyph_cache(),
            final(gfx).scale_state() == old(gfx).scale_state(),
            final(gfx).atlas() == old(gfx).atlas(),
            final(gfx).glyph_cache() == old(gfx).glyph_cache(),
            final(gfx).uploads() == old(gfx).uploads(),
            final(gfx).geometry().committed() == old(gfx).geometry().committed(),
            if fits(old(gfx).geometry(), 4, 6) {
                &&& result == Ok::<(), BatchError>(())
                &&& final(gfx).geometry().vertices() == old(gfx).geometry().vertices()
                    + rect_vertices(x1, y1, x2, y2, *color)
                &&& final(gfx).geometry().indices() == old(gfx).geometry().indices() + rebased(
                    quad_indices(1),
                    old(gfx).geometry().vertices().len() as int,
                )
            } else {
                &&& result == Err::<(), BatchError>(BatchError::CapacityExceeded)
                &&& final(gfx).geometry().vertices() == old(gfx).geometry().vertices()
                &&& final(gfx).geometry().indices() == old(gfx).geometry().indices()
            },
    {
        gfx.fill_rect(x1, y1, x2, y2, color)
    }

    /// Lists the glyphs of the laid-out text `glyphs` that must be
    /// rasterised before this renderer draws the text.
    pub fn glyphs_to_rasterize(&self, gfx: &Graphics, glyphs: &[Glyph]) -> (wanted: Vec<Glyph>)
        ensures
            wanted@ == uncached(glyphs@, self.glyph_cache().regions()),
    {
        glyphs_to_rasterize(&self.cache, glyphs, None, gfx.scale())
    }

    /// Draws the laid-out text `glyphs` into the frame of `gfx` with its
    /// origin at the logical point `(x, y)`, after the rasterised `bitmaps`
    /// were placed in the atlas of `gfx` and cached here.
    pub fn draw_text(
        &mut self,
        gfx: &mut Graphics,
        glyphs: &[Glyph],
        bitmaps: &[Coverage],
        x: Fixed,
        y: Fixed,
        color: &Color,
    ) -> (result: Result<TextReport, BatchError>)
        requires
            old(gfx).wf(),
        ensures
            final(gfx).wf(),
            final(gfx).scale_state() == old(gfx).scale_state(),
            final(gfx).glyph_cache() == old(gfx).glyph_cache(),
            final(gfx).geometry().committed() == old(gfx).geometry().committed(),
            placed(final(gfx).atlas(), final(self).glyph_cache(), final(gfx).uploads())
                == place_all(
                placed(old(gfx).atlas(), old(self).glyph_cache(), old(gfx).uploads()),
                TEXTURE_SIZE as int,
                bitmaps@,
            ),
            ({
                let scale = old(gfx).scale_state().scale as int;
                let regions = final(self).glyph_cache().regions();
                let quads = drawn_count(glyphs@, regions);
                if quads_fit(old(gfx).geometry(), quads as int) {
                    &&& result matches Ok(report) && report.drawn == quads && report.missing == glyphs@.len() - quads
                    &&& final(gfx).geometry().vertices() == old(gfx).geometry().vertices()
                        + text_vertices(glyphs@, regions, x as int, y as int, scale, *color)
                    &&& final(gfx).geometry().indices() == old(gfx).geometry().indices() + rebased(
                        quad_indices(quads as int),
                        old(gfx).geometry().vertices().len() as int,
                    )
                } else {
                    &&& result == Err::<TextReport, BatchError>(BatchError::CapacityExceeded)
                    &&& final(gfx).geometry().vertices() == old(gfx).geometry().vertices()
                    &&& final(gfx).geometry().indices() == old(gfx).geometry().indices()
                }
            }),
    {
        gfx.draw_text_from(&mut self.cache, glyphs, bitmaps, x, y, None, color)
    }
}

} // verus!
