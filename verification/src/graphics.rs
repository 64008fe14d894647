//! The renderer: the scale state, the frame that is being drawn, the atlas
//! and the glyph cache, behind the drawing calls of client code.

use vstd::prelude::*;
use crate::atlas::{
    advanced, has_room, rect_at, region_of, shelf_for, Atlas, AtlasRegion, Cursor, PixelRect,
};
use crate::batch::{
    big_endian, fits, indices_within, little_endian, rebased, BatchError, DrawCall, Frame,
    GeometryBuffer, MAX_N_INDICES, MAX_N_VERTICES,
};
use crate::fixed::Fixed;
use crate::geometry::{make_vertex, vertex_at, Color, Vertex};
use crate::glyphs::{Coverage, Glyph, GlyphCache};
use crate::path::{
    color_points, colored, lemma_outlines_well_formed, line_commands, line_outline, rect_commands,
    rect_outline, tri_commands, tri_outline, well_formed, Mesh, Path, PathError, PathJob,
    TessellationMode,
};
use crate::placement::{
    lemma_place_all_keeps, pending, place_all, place_texels, placed, texel_count, Pending,
    TextureUpload,
};
use crate::scale::{device_of_some, resized, LayoutRequest, ScaleState};
use crate::text::{
    drawn_count, fit_line, fitted_line, glyphs_to_rasterize, quad_indices, text_vertices, uncached,
    visible,
};
use crate::typeset::{draw_glyphs, quads_fit, TextReport};

verus! {

/// The side of the atlas, in texels.
pub const TEXTURE_SIZE: u32 = 1000;

/// Why a bitmap was not taken into the atlas.
#[derive(Clone, Copy, Debug, PartialEq, Eq)]
pub enum TextureError {
    /// The data is not four bytes for each texel of the bitmap.
    SizeMismatch,
    /// The atlas has no room for the bitmap.
    OutOfSpace,
}

/// Why a tessellated path was not drawn.
#[derive(Clone, Copy, Debug, PartialEq, Eq)]
pub enum DrawError {
    /// The tessellator gave no triangles.
    Tessellation(PathError),
    /// The frame did not take the triangles.
    Geometry(BatchError),
}

/// What one render pass does: the target is cleared to `clear`, the
/// vertex stage maps the logical `viewport` to the target, and `draw`, if
/// there is one, is the single draw call of the pass.
#[derive(Clone, Copy, Debug, PartialEq, Eq)]
pub struct RenderPass {
    pub clear: Color,
    pub viewport: [Fixed; 2],
    pub draw: Option<DrawCall>,
}

/// The texel that geometry without a texture samples: the first texel of
/// the atlas, which is white.
pub open spec fn blank_texel() -> PixelRect {
    PixelRect { x: 0, y: 0, width: 1, height: 1 }
}

/// The four corners of a filled rectangle, from `(x1, y1)` down, right and
/// up again.
pub open spec fn rect_vertices(x1: Fixed, y1: Fixed, x2: Fixed, y2: Fixed, color: Color) -> Seq<
    Vertex,
> {
    seq![
        vertex_at(x1 as int, y1 as int, 0, 0, color),
        vertex_at(x1 as int, y2 as int, 0, 0, color),
        vertex_at(x2 as int, y2 as int, 0, 0, color),
        vertex_at(x2 as int, y1 as int, 0, 0, color),
    ]
}

/// The three corners of a filled triangle.
pub open spec fn tri_vertices(
    x1: Fixed,
    y1: Fixed,
    x2: Fixed,
    y2: Fixed,
    x3: Fixed,
    y3: Fixed,
    color: Color,
) -> Seq<Vertex> {
    seq![
        vertex_at(x1 as int, y1 as int, 0, 0, color),
        vertex_at(x2 as int, y2 as int, 0, 0, color),
        vertex_at(x3 as int, y3 as int, 0, 0, color),
    ]
}

/// The renderer.
pub struct Graphics {
    scale: ScaleState,
    buffer: GeometryBuffer,
    atlas: Atlas,
    cache: GlyphCache,
    queue: Vec<TextureUpload>,
}

impl Graphics {
    /// The scale state.
    pub closed spec fn scale_state(&self) -> ScaleState {
        self.scale
    }

    /// The frame that is being drawn.
    pub closed spec fn geometry(&self) -> GeometryBuffer {
        self.buffer
    }

    /// The atlas.
    pub closed spec fn atlas(&self) -> Atlas {
        self.atlas
    }

    /// The glyph cache.
    pub closed spec fn glyph_cache(&self) -> GlyphCache {
        self.cache
    }

    /// The uploads that wait for the device.
    pub closed spec fn uploads(&self) -> Seq<TextureUpload> {
        self.queue@
    }

    /// The parts are well formed, the frame and the atlas have the sizes
    /// that the renderer was made with, and the first rectangle of the
    /// atlas is the blank texel.
    pub closed spec fn wf(&self) -> bool {
        &&& self.scale.wf()
        &&& self.buffer.wf()
        &&& self.buffer.max_vertices() == MAX_N_VERTICES
        &&& self.buffer.max_indices() == MAX_N_INDICES
        &&& self.atlas.wf()
        &&& self.atlas.size() == TEXTURE_SIZE
        &&& self.atlas.allocated().len() >= 1
        &&& self.atlas.allocated()[0] == blank_texel()
    }

    /// What holds of every renderer: no index of the frame reaches its
    /// vertex count, the frame is within its capacity, and the rectangles
    /// of the atlas, the blank texel first among them, lie inside it.
    pub proof fn lemma_wf(&self)
        requires
            self.wf(),
        ensures
            self.scale_state().wf(),
            self.geometry().wf(),
            indices_within(self.geometry().indices(), self.geometry().vertices().len() as int),
            self.geometry().max_vertices() == MAX_N_VERTICES,
            self.geometry().max_indices() == MAX_N_INDICES,
            self.atlas().wf(),
            self.atlas().size() == TEXTURE_SIZE,
            self.atlas().allocated().len() >= 1,
            self.atlas().allocated()[0] == blank_texel(),
    {
        self.buffer.lemma_wf();
    }

    /// A renderer for a surface of `width` by `height` device pixels at
    /// `scale`. The frame is empty, and the atlas holds the blank texel,
    /// which waits for its upload.
    pub fn init(width: u32, height: u32, scale: Fixed) -> (gfx: Self)
        ensures
            gfx.wf(),
            gfx.scale_state() == crate::scale::scale_state(width, height, scale),
            gfx.geometry().vertices() == Seq::<Vertex>::empty(),
            gfx.geometry().indices() == Seq::<u32>::empty(),
            gfx.geometry().committed() == 0,
            gfx.atlas().allocated() == seq![blank_texel()],
            gfx.atlas().cursor() == (Cursor { x: 1, y: 0, shelf_height: 1 }),
            gfx.glyph_cache().regions() == Map::<crate::glyphs::GlyphKey, AtlasRegion>::empty(),
            pending(gfx.uploads()) == seq![
                Pending { rect: blank_texel(), texels: seq![0xffu8, 0xffu8, 0xffu8, 0xffu8] },
            ],
    {
        let mut atlas = Atlas::new(TEXTURE_SIZE);
        let mut queue: Vec<TextureUpload> = Vec::new();
        let mut white: Vec<u8> = Vec::new();
        white.push(0xff);
        white.push(0xff);
        white.push(0xff);
        white.push(0xff);
        assert(white@ =~= seq![0xffu8, 0xffu8, 0xffu8, 0xffu8]);
        assert(pending(queue@) =~= Seq::<Pending>::empty());
        let blank = place_texels(&mut atlas, &mut queue, white, 1, 1);
        assert(blank.is_ok());
        assert(atlas.allocated() =~= seq![blank_texel()]);
        assert(pending(queue@) =~= seq![
            Pending { rect: blank_texel(), texels: seq![0xffu8, 0xffu8, 0xffu8, 0xffu8] },
        ]);
        Graphics {
            scale: ScaleState::new(width, height, scale),
            buffer: GeometryBuffer::new(MAX_N_VERTICES, MAX_N_INDICES),
            atlas,
            cache: GlyphCache::new(),
            queue,
        }
    }

    /// The width of the surface in logical pixels.
    pub fn width(&self) -> (width: Fixed)
        ensures
            width == self.scale_state().width,
    {
        self.scale.width
    }

    /// The height of the surface in logical pixels.
    pub fn height(&self) -> (height: Fixed)
        ensures
            height == self.scale_state().height,
    {
        self.scale.height
    }

    /// The number of device pixels in one logical pixel.
    pub fn scale(&self) -> (scale: Fixed)
        ensures
            scale == self.scale_state().scale,
    {
        self.scale.scale
    }

    /// The size of the surface in device pixels.
    pub fn device_size(&self) -> (size: (u32, u32))
        ensures
            size == (self.scale_state().device_width, self.scale_state().device_height),
    {
        (self.scale.device_width, self.scale.device_height)
    }

    /// Takes a new device size and scale, and works out the logical size of
    /// the surface anew. The frame, the atlas and the cache stay.
    pub fn resize(&mut self, width: u32, height: u32, scale: Fixed)
        requires
            old(self).wf(),
        ensures
            final(self).wf(),
            final(self).scale_state() == resized(old(self).scale_state(), width, height, scale),
            final(self).geometry() == old(self).geometry(),
            final(self).atlas() == old(self).atlas(),
            final(self).glyph_cache() == old(self).glyph_cache(),
            final(self).uploads() == old(self).uploads(),
    {
        self.scale.resize(width, height, scale);
    }

    /// Appends geometry to the frame: the vertices as they are, the indices
    /// moved up by the number of vertices that the frame held.
    pub fn add_geom(&mut self, vertices: &[Vertex], indices: &[u32]) -> (result: Result<
        (),
        BatchError,
    >)
        requires
            old(self).wf(),
        ensures
            final(self).wf(),
            final(self).scale_state() == old(self).scale_state(),
            final(self).atlas() == old(self).atlas(),
            final(self).glyph_cache() == old(self).glyph_cache(),
            final(self).uploads() == old(self).uploads(),
            final(self).geometry().committed() == old(self).geometry().committed(),
            !indices_within(indices@, vertices@.len() as int) ==> result == Err::<(), BatchError>(
                BatchError::IndexOutOfRange,
            ),
            indices_within(indices@, vertices@.len() as int) && !fits(
                old(self).geometry(),
                vertices@.len() as int,
                indices@.len() as int,
            ) ==> result == Err::<(), BatchError>(BatchError::CapacityExceeded),
            indices_within(indices@, vertices@.len() as int) && fits(
                old(self).geometry(),
                vertices@.len() as int,
                indices@.len() as int,
            ) ==> result == Ok::<(), BatchError>(()),
            result.is_ok() ==> final(self).geometry().vertices() == old(self).geometry().vertices()
                + vertices@,
            result.is_ok() ==> final(self).geometry().indices() == old(self).geometry().indices()
                + rebased(indices@, old(self).geometry().vertices().len() as int),
            result.is_err() ==> final(self).geometry().vertices() == old(
                self,
            ).geometry().vertices(),
            result.is_err() ==> final(self).geometry().indices() == old(self).geometry().indices(),
            indices_within(
                final(self).geometry().indices(),
                final(self).geometry().vertices().len() as int,
            ),
    {
        self.buffer.add_geom(vertices, indices)
    }

    /// Ends the frame: hands over its vertices and indices for the device
    /// buffers, empties it, and keeps the number of indices for the draw
    /// call.
    pub fn commit_geom(&mut self) -> (frame: Frame)
        requires
            old(self).wf(),
        ensures
            final(self).wf(),
            final(self).scale_state() == old(self).scale_state(),
            final(self).atlas() == old(self).atlas(),
            final(self).glyph_cache() == old(self).glyph_cache(),
            final(self).uploads() == old(self).uploads(),
            frame.vertices@ == old(self).geometry().vertices(),
            frame.indices@ == old(self).geometry().indices(),
            frame.index_bytes@ == little_endian(frame.indices@) || frame.index_bytes@
                == big_endian(frame.indices@),
            indices_within(frame.indices@, frame.vertices@.len() as int),
            final(self).geometry().vertices() == Seq::<Vertex>::empty(),
            final(self).geometry().indices() == Seq::<u32>::empty(),
            final(self).geometry().committed() == old(self).geometry().indices().len(),
    {
        self.buffer.commit_geom()
    }

    /// Hands over the uploads that wait for the device, oldest first.
    pub fn take_uploads(&mut self) -> (uploads: Vec<TextureUpload>)
        requires
            old(self).wf(),
        ensures
            final(self).wf(),
            uploads@ == old(self).uploads(),
            final(self).uploads() == Seq::<TextureUpload>::empty(),
            final(self).scale_state() == old(self).scale_state(),
            final(self).geometry() == old(self).geometry(),
            final(self).atlas() == old(self).atlas(),
            final(self).glyph_cache() == old(self).glyph_cache(),
    {
        let mut uploads: Vec<TextureUpload> = Vec::new();
        std::mem::swap(&mut self.queue, &mut uploads);
        uploads
    }

    /// Takes a bitmap of `width` by `height` RGBA texels into the atlas and
    /// queues it for upload.
    pub fn add_texture(&mut self, data: &[u8], width: u32, height: u32) -> (result: Result<
        AtlasRegion,
        TextureError,
    >)
        requires
            old(self).wf(),
        ensures
            final(self).wf(),
            final(self).scale_state() == old(self).scale_state(),
            final(self).geometry() == old(self).geometry(),
            final(self).glyph_cache() == old(self).glyph_cache(),
            ({
                let size = TEXTURE_SIZE as int;
                let cursor = shelf_for(old(self).atlas().cursor(), size, width as int);
                if data@.len() != 4 * (width * height) {
                    &&& result == Err::<AtlasRegion, TextureError>(TextureError::SizeMismatch)
                    &&& final(self).atlas() == old(self).atlas()
                    &&& final(self).uploads() == old(self).uploads()
                } else if has_room(cursor, size, width as int, height as int) {
                    let rect = rect_at(cursor, width as int, height as int);
                    &&& result == Ok::<AtlasRegion, TextureError>(region_of(rect, size))
                    &&& final(self).atlas().cursor() == advanced(
                        cursor,
                        width as int,
                        height as int,
                    )
                    &&& final(self).atlas().allocated() == old(self).atlas().allocated().push(rect)
                    &&& pending(final(self).uploads()) == pending(old(self).uploads()).push(
                        Pending { rect, texels: data@ },
                    )
                } else {
                    &&& result == Err::<AtlasRegion, TextureError>(TextureError::OutOfSpace)
                    &&& final(self).atlas().cursor() == cursor
                    &&& final(self).atlas().allocated() == old(self).atlas().allocated()
                    &&& final(self).uploads() == old(self).uploads()
                }
            }),
    {
        let count: u64 = texel_count(width, height);
        if data.len() as u128 != 4 * (count as u128) {
            return Err(TextureError::SizeMismatch);
        }
        let n: usize = data.len();
        let mut texels: Vec<u8> = Vec::new();
        let mut i: usize = 0;
        while i < n
            invariant
                i <= n,
                n == data@.len(),
                texels@ == data@.take(i as int),
            decreases n - i,
        {
            texels.push(data[i]);
            assert(texels@ =~= data@.take(i + 1));
            i += 1;
        }
        assert(data@.take(n as int) =~= data@);
        match place_texels(&mut self.atlas, &mut self.queue, texels, width, height) {
            Ok(region) => Ok(region),
            Err(_) => Err(TextureError::OutOfSpace),
        }
    }

    /// The render pass that shows the committed frame: the target is
    /// cleared, and the committed indices, if there are any, are drawn in
    /// one call.
    pub fn render(&self) -> (pass: RenderPass)
        requires
            self.wf(),
        ensures
            pass.clear == (Color { r: 0, g: 0, b: 0, a: 0 }),
            pass.viewport == [self.scale_state().width, self.scale_state().height],
            pass.draw == if self.geometry().committed() > 0 {
                Some(
                    DrawCall { first_index: 0, index_count: self.geometry().committed() as u32 },
                )
            } else {
                None
            },
    {
        RenderPass {
            clear: Color::rgba(0, 0, 0, 0),
            viewport: [self.scale.width, self.scale.height],
            draw: self.buffer.draw_call(),
        }
    }

    /// Asks for the stroke of `path` in `color`.
    pub fn draw_path(path: Path, color: &Color) -> (job: Result<PathJob, PathError>)
        ensures
            job == if well_formed(path.commands@) {
                Ok::<PathJob, PathError>(
                    PathJob { mode: TessellationMode::Stroke, path, color: *color },
                )
            } else {
                Err::<PathJob, PathError>(PathError::Malformed)
            },
    {
        if path.is_well_formed() {
            Ok(PathJob { mode: TessellationMode::Stroke, path, color: *color })
        } else {
            Err(PathError::Malformed)
        }
    }

    /// Asks for the filling of `path` in `color`.
    pub fn fill_path(path: Path, color: &Color) -> (job: Result<PathJob, PathError>)
        ensures
            job == if well_formed(path.commands@) {
                Ok::<PathJob, PathError>(
                    PathJob { mode: TessellationMode::Fill, path, color: *color },
                )
            } else {
                Err::<PathJob, PathError>(PathError::Malformed)
            },
    {
        if path.is_well_formed() {
            Ok(PathJob { mode: TessellationMode::Fill, path, color: *color })
        } else {
            Err(PathError::Malformed)
        }
    }

    /// Draws what the tessellator made of a path: each point of the mesh in
    /// `color`, sampling the blank texel. A failure of the tessellator is
    /// passed on, and the frame stays as it was.
    pub fn add_mesh(&mut self, outcome: &Result<Mesh, PathError>, color: &Color) -> (result: Result<
        (),
        DrawError,
    >)
        requires
            old(self).wf(),
        ensures
            final(self).wf(),
            final(self).scale_state() == old(self).scale_state(),
            final(self).atlas() == old(self).atlas(),
            final(self).glyph_cache() == old(self).glyph_cache(),
            final(self).uploads() == old(self).uploads(),
            final(self).geometry().committed() == old(self).geometry().committed(),
            match *outcome {
                Err(error) => result == Err::<(), DrawError>(DrawError::Tessellation(error)),
                Ok(mesh) => {
                    if !indices_within(mesh.indices@, mesh.positions@.len() as int) {
                        result == Err::<(), DrawError>(
                            DrawError::Geometry(BatchError::IndexOutOfRange),
                        )
                    } else if !fits(
                        old(self).geometry(),
                        mesh.positions@.len() as int,
                        mesh.indices@.len() as int,
                    ) {
                        result == Err::<(), DrawError>(
                            DrawError::Geometry(BatchError::CapacityExceeded),
                        )
                    } else {
                        &&& result == Ok::<(), DrawError>(())
                        &&& final(self).geometry().vertices() == old(self).geometry().vertices()
                            + colored(mesh.positions@, *color)
                        &&& final(self).geometry().indices() == old(self).geometry().indices()
                            + rebased(mesh.indices@, old(self).geometry().vertices().len() as int)
                    }
                },
            },
            result.is_err() ==> final(self).geometry().vertices() == old(
                self,
            ).geometry().vertices(),
            result.is_err() ==> final(self).geometry().indices() == old(self).geometry().indices(),
    {
        match outcome {
            Err(error) => Err(DrawError::Tessellation(*error)),
            Ok(mesh) => {
                let vertices: Vec<Vertex> = color_points(mesh.positions.as_slice(), color);
                match self.buffer.add_geom(vertices.as_slice(), mesh.indices.as_slice()) {
                    Ok(()) => Ok(()),
                    Err(error) => Err(DrawError::Geometry(error)),
                }
            },
        }
    }

    /// Draws a filled rectangle with the corners `(x1, y1)` and `(x2, y2)`:
    /// four vertices and two triangles.
    pub fn fill_rect(&mut self, x1: Fixed, y1: Fixed, x2: Fixed, y2: Fixed, color: &Color) -> (result:
        Result<(), BatchError>)
        requires
            old(self).wf(),
        ensures
            final(self).wf(),
            final(self).scale_state() == old(self).scale_state(),
            final(self).atlas() == old(self).atlas(),
            final(self).glyph_cache() == old(self).glyph_cache(),
            final(self).uploads() == old(self).uploads(),
            final(self).geometry().committed() == old(self).geometry().committed(),
            if fits(old(self).geometry(), 4, 6) {
                &&& result == Ok::<(), BatchError>(())
                &&& final(self).geometry().vertices() == old(self).geometry().vertices()
                    + rect_vertices(x1, y1, x2, y2, *color)
                &&& final(self).geometry().indices() == old(self).geometry().indices() + rebased(
                    quad_indices(1),
                    old(self).geometry().vertices().len() as int,
                )
            } else {
                &&& result == Err::<(), BatchError>(BatchError::CapacityExceeded)
                &&& final(self).geometry().vertices() == old(self).geometry().vertices()
                &&& final(self).geometry().indices() == old(self).geometry().indices()
            },
    {
        let vertices: [Vertex; 4] = [
            make_vertex(x1, y1, 0, 0, color),
            make_vertex(x1, y2, 0, 0, color),
            make_vertex(x2, y2, 0, 0, color),
            make_vertex(x2, y1, 0, 0, color),
        ];
        let indices: [u32; 6] = [0, 1, 2, 0, 2, 3];
        assert(vertices@ =~= rect_vertices(x1, y1, x2, y2, *color));
        assert(indices@ =~= quad_indices(1));
        self.buffer.add_geom(vertices.as_slice(), indices.as_slice())
    }

    /// Draws a filled triangle: three vertices and one triangle.
    pub fn fill_tri(
        &mut self,
        x1: Fixed,
        y1: Fixed,
        x2: Fixed,
        y2: Fixed,
        x3: Fixed,
        y3: Fixed,
        color: &Color,
    ) -> (result: Result<(), BatchError>)
        requires
            old(self).wf(),
        ensures
            final(self).wf(),
            final(self).scale_state() == old(self).scale_state(),
            final(self).atlas() == old(self).atlas(),
            final(self).glyph_cache() == old(self).glyph_cache(),
            final(self).uploads() == old(self).uploads(),
            final(self).geometry().committed() == old(self).geometry().committed(),
            if fits(old(self).geometry(), 3, 3) {
                &&& result == Ok::<(), BatchError>(())
                &&& final(self).geometry().vertices() == old(self).geometry().vertices()
                    + tri_vertices(x1, y1, x2, y2, x3, y3, *color)
                &&& final(self).geometry().indices() == old(self).geometry().indices() + rebased(
                    seq![0u32, 1u32, 2u32],
                    old(self).geometry().vertices().len() as int,
                )
            } else {
                &&& result == Err::<(), BatchError>(BatchError::CapacityExceeded)
                &&& final(self).geometry().vertices() == old(self).geometry().vertices()
                &&& final(self).geometry().indices() == old(self).geometry().indices()
            },
    {
        let vertices: [Vertex; 3] = [
            make_vertex(x1, y1, 0, 0, color),
            make_vertex(x2, y2, 0, 0, color),
            make_vertex(x3, y3, 0, 0, color),
        ];
        let indices: [u32; 3] = [0, 1, 2];
        assert(vertices@ =~= tri_vertices(x1, y1, x2, y2, x3, y3, *color));
        assert(indices@ =~= seq![0u32, 1u32, 2u32]);
        self.buffer.add_geom(vertices.as_slice(), indices.as_slice())
    }

    /// Asks for the stroke of the segment from `(x1, y1)` to `(x2, y2)`.
    pub fn draw_line(x1: Fixed, y1: Fixed, x2: Fixed, y2: Fixed, color: &Color) -> (job: PathJob)
        ensures
            job.mode == TessellationMode::Stroke,
            job.path.commands@ == line_commands(x1, y1, x2, y2),
            well_formed(job.path.commands@),
            job.color == *color,
    {
        proof {
            lemma_outlines_well_formed(x1, y1, x2, y2, x1, y1);
        }
        PathJob { mode: TessellationMode::Stroke, path: line_outline(x1, y1, x2, y2), color: *color }
    }

    /// Asks for the stroke of the rectangle with the corners `(x1, y1)` and
    /// `(x2, y2)`.
    pub fn draw_rect(x1: Fixed, y1: Fixed, x2: Fixed, y2: Fixed, color: &Color) -> (job: PathJob)
        ensures
            job.mode == TessellationMode::Stroke,
            job.path.commands@ == rect_commands(x1, y1, x2, y2),
            well_formed(job.path.commands@),
            job.color == *color,
    {
        proof {
            lemma_outlines_well_formed(x1, y1, x2, y2, x1, y1);
        }
        PathJob { mode: TessellationMode::Stroke, path: rect_outline(x1, y1, x2, y2), color: *color }
    }

    /// Asks for the stroke of the triangle with the three corners given.
    pub fn draw_tri(
        x1: Fixed,
        y1: Fixed,
        x2: Fixed,
        y2: Fixed,
        x3: Fixed,
        y3: Fixed,
        color: &Color,
    ) -> (job: PathJob)
        ensures
            job.mode == TessellationMode::Stroke,
            job.path.commands@ == tri_commands(x1, y1, x2, y2, x3, y3),
            well_formed(job.path.commands@),
            job.color == *color,
    {
        proof {
            lemma_outlines_well_formed(x1, y1, x2, y2, x3, y3);
        }
        PathJob {
            mode: TessellationMode::Stroke,
            path: tri_outline(x1, y1, x2, y2, x3, y3),
            color: *color,
        }
    }

    /// What the layout is asked for a text of logical size `size`: every
    /// length in device pixels.
    pub fn text_layout(&self, size: Fixed, max_width: Option<Fixed>, max_height: Option<Fixed>) -> (request:
        LayoutRequest)
        ensures
            request == (LayoutRequest {
                px: crate::fixed::device_of(size as int, self.scale_state().scale as int) as i32,
                max_width: device_of_some(max_width, self.scale_state().scale as int),
                max_height: device_of_some(max_height, self.scale_state().scale as int),
            }),
    {
        self.scale.layout_request(size, max_width, max_height)
    }

    /// Cuts the laid-out line `glyphs` to the logical width `max_width`:
    /// the text to draw in its place.
    pub fn draw_fitted_text_line(&self, glyphs: &[Glyph], max_width: Fixed) -> (line: Vec<char>)
        ensures
            line@ == fitted_line(glyphs@, max_width as int, self.scale_state().scale as int),
    {
        fit_line(glyphs, max_width, self.scale.scale)
    }

    /// Lists the glyphs of the laid-out text `glyphs` that must be
    /// rasterised before the text is drawn.
    pub fn glyphs_to_rasterize(&self, glyphs: &[Glyph], max_height: Option<Fixed>) -> (wanted: Vec<
        Glyph,
    >)
        ensures
            wanted@ == uncached(
                visible(glyphs@, max_height, self.scale_state().scale as int),
                self.glyph_cache().regions(),
            ),
    {
        glyphs_to_rasterize(&self.cache, glyphs, max_height, self.scale.scale)
    }

    /// Draws the laid-out text `glyphs` with its origin at the logical
    /// point `(x, y)`, after the rasterised `bitmaps` were placed in the
    /// atlas.
    pub fn draw_text(
        &mut self,
        glyphs: &[Glyph],
        bitmaps: &[Coverage],
        x: Fixed,
        y: Fixed,
        max_height: Option<Fixed>,
        color: &Color,
    ) -> (result: Result<TextReport, BatchError>)
        requires
            old(self).wf(),
        ensures
            final(self).wf(),
            final(self).scale_state() == old(self).scale_state(),
            final(self).geometry().committed() == old(self).geometry().committed(),
            placed(final(self).atlas(), final(self).glyph_cache(), final(self).uploads())
                == place_all(
                placed(old(self).atlas(), old(self).glyph_cache(), old(self).uploads()),
                TEXTURE_SIZE as int,
                bitmaps@,
            ),
            ({
                let scale = old(self).scale_state().scale as int;
                let regions = final(self).glyph_cache().regions();
                let drawn = visible(glyphs@, max_height, scale);
                let quads = drawn_count(drawn, regions);
                if quads_fit(old(self).geometry(), quads as int) {
                    &&& result matches Ok(report) && report.drawn == quads && report.missing == drawn.len() - quads
                    &&& final(self).geometry().vertices() == old(self).geometry().vertices()
                        + text_vertices(drawn, regions, x as int, y as int, scale, *color)
                    &&& final(self).geometry().indices() == old(self).geometry().indices()
                        + rebased(
                        quad_indices(quads as int),
                        old(self).geometry().vertices().len() as int,
                    )
                } else {
                    &&& result == Err::<TextReport, BatchError>(BatchError::CapacityExceeded)
                    &&& final(self).geometry().vertices() == old(self).geometry().vertices()
                    &&& final(self).geometry().indices() == old(self).geometry().indices()
                }
            }),
    {
        let scale: Fixed = self.scale.scale;
        proof {
            lemma_place_all_keeps(
                placed(self.atlas, self.cache, self.queue@),
                TEXTURE_SIZE as int,
                bitmaps@,
            );
        }
        draw_glyphs(
            &mut self.buffer,
            &mut self.atlas,
            &mut self.cache,
            &mut self.queue,
            glyphs,
            bitmaps,
            x,
            y,
            max_height,
            scale,
            color,
        )
    }

    /// Draws a laid-out text as `draw_text` does, with the glyph cache
    /// `cache` in place of the renderer's own.
    pub fn draw_text_from(
        &mut self,
        cache: &mut GlyphCache,
        glyphs: &[Glyph],
        bitmaps: &[Coverage],
        x: Fixed,
        y: Fixed,
        max_height: Option<Fixed>,
        color: &Color,
    ) -> (result: Result<TextReport, BatchError>)
        requires
            old(self).wf(),
        ensures
            final(self).wf(),
            final(self).scale_state() == old(self).scale_state(),
            final(self).glyph_cache() == old(self).glyph_cache(),
            final(self).geometry().committed() == old(self).geometry().committed(),
            placed(final(self).atlas(), *final(cache), final(self).uploads()) == place_all(
                placed(old(self).atlas(), *old(cache), old(self).uploads()),
                TEXTURE_SIZE as int,
                bitmaps@,
            ),
            ({
                let scale = old(self).scale_state().scale as int;
                let regions = final(cache).regions();
                let drawn = visible(glyphs@, max_height, scale);
                let quads = drawn_count(drawn, regions);
                if quads_fit(old(self).geometry(), quads as int) {
                    &&& result matches Ok(report) && report.drawn == quads && report.missing == drawn.len() - quads
                    &&& final(self).geometry().vertices() == old(self).geometry().vertices()
                        + text_vertices(drawn, regions, x as int, y as int, scale, *color)
                    &&& final(self).geometry().indices() == old(self).geometry().indices()
                        + rebased(
                        quad_indices(quads as int),
                        old(self).geometry().vertices().len() as int,
                    )
                } else {
                    &&& result == Err::<TextReport, BatchError>(BatchError::CapacityExceeded)
                    &&& final(self).geometry().vertices() == old(self).geometry().vertices()
                    &&& final(self).geometry().indices() == old(self).geometry().indices()
                }
            }),
    {
        let scale: Fixed = self.scale.scale;
        proof {
            lemma_place_all_keeps(
                placed(self.atlas, *cache, self.queue@),
                TEXTURE_SIZE as int,
                bitmaps@,
            );
        }
        draw_glyphs(
            &mut self.buffer,
            &mut self.atlas,
            cache,
            &mut self.queue,
            glyphs,
            bitmaps,
            x,
            y,
            max_height,
            scale,
            color,
        )
    }
}

} // verus!
