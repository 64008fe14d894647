//! The texture atlas: one square bitmap that is handed out in rectangles,
//! shelf by shelf, and never taken back.

use vstd::prelude::*;
use crate::fixed::ONE;
use crate::geometry::Rect;

verus! {

/// A rectangle of whole texels: `width` by `height` from `(x, y)`.
#[derive(Clone, Copy, Debug, PartialEq, Eq)]
pub struct PixelRect {
    pub x: u32,
    pub y: u32,
    pub width: u32,
    pub height: u32,
}

/// A region of the atlas, in texels for the upload and in normalised
/// coordinates for sampling.
#[derive(Clone, Copy, Debug, PartialEq, Eq)]
pub struct AtlasRegion {
    pub pixels: PixelRect,
    pub uv: Rect,
}

/// Why a rectangle was not handed out.
#[derive(Clone, Copy, Debug, PartialEq, Eq)]
pub enum AtlasError {
    /// No shelf of the atlas has room for the rectangle.
    OutOfSpace,
}

/// The cursor of the shelf packer: where the next rectangle goes, and the
/// height of the tallest rectangle on the current shelf.
pub struct Cursor {
    pub x: int,
    pub y: int,
    pub shelf_height: int,
}

/// The cursor from which a rectangle of width `width` is placed: where the
/// current shelf has no room for it, the start of a new shelf below.
pub open spec fn shelf_for(cursor: Cursor, size: int, width: int) -> Cursor {
    if cursor.x + width > size {
        Cursor { x: 0, y: cursor.y + cursor.shelf_height, shelf_height: 0 }
    } else {
        cursor
    }
}

/// Whether a rectangle of `width` by `height` placed at `cursor` stays
/// inside an atlas of `size` by `size` texels.
pub open spec fn has_room(cursor: Cursor, size: int, width: int, height: int) -> bool {
    cursor.x + width <= size && cursor.y + height <= size
}

/// The cursor after a rectangle of `width` by `height` was placed at it.
pub open spec fn advanced(cursor: Cursor, width: int, height: int) -> Cursor {
    Cursor {
        x: cursor.x + width,
        y: cursor.y,
        shelf_height: if height > cursor.shelf_height {
            height
        } else {
            cursor.shelf_height
        },
    }
}

/// The rectangle of `width` by `height` at `cursor`.
pub open spec fn rect_at(cursor: Cursor, width: int, height: int) -> PixelRect {
    PixelRect { x: cursor.x as u32, y: cursor.y as u32, width: width as u32, height: height as u32 }
}

/// Whether two rectangles have a texel in common.
pub open spec fn overlaps(a: PixelRect, b: PixelRect) -> bool {
    &&& a.x < b.x + b.width
    &&& b.x < a.x + a.width
    &&& a.y < b.y + b.height
    &&& b.y < a.y + a.height
}

/// Whether `rect` lies inside an atlas of `size` by `size` texels.
pub open spec fn inside(rect: PixelRect, size: int) -> bool {
    rect.x + rect.width <= size && rect.y + rect.height <= size
}

/// The texel coordinate `texel` of an atlas of `size` texels, normalised to
/// the range from zero to `ONE` and rounded down.
pub open spec fn normalized(texel: int, size: int) -> int {
    if size > 0 {
        (texel * ONE as int) / size
    } else {
        0
    }
}

/// The region of `rect` in normalised coordinates.
pub open spec fn uv_of(rect: PixelRect, size: int) -> Rect {
    Rect {
        x1: normalized(rect.x as int, size) as i32,
        y1: normalized(rect.y as int, size) as i32,
        x2: normalized(rect.x + rect.width, size) as i32,
        y2: normalized(rect.y + rect.height, size) as i32,
    }
}

/// The region that stands for `rect` in an atlas of `size` texels.
pub open spec fn region_of(rect: PixelRect, size: int) -> AtlasRegion {
    AtlasRegion { pixels: rect, uv: uv_of(rect, size) }
}

/// A normalised coordinate of a texel inside the atlas lies between zero
/// and `ONE`, and grows with the texel.
pub proof fn lemma_normalized_range(texel: int, other: int, size: int)
    requires
        0 <= texel <= other <= size,
    ensures
        0 <= normalized(texel, size) <= normalized(other, size) <= ONE,
{
    if size > 0 {
        let one = ONE as int;
        assert(0 <= (texel * one) / size <= (other * one) / size <= one) by (nonlinear_arith)
            requires
                0 <= texel <= other <= size,
                size > 0,
                one == 65536,
        ;
    }
}

/// The shelf packer of one atlas.
pub struct Atlas {
    size: u32,
    cursor_x: u32,
    cursor_y: u32,
    shelf_height: u32,
    allocated: Ghost<Seq<PixelRect>>,
}

impl Atlas {
    /// The side of the atlas, in texels.
    pub closed spec fn size(&self) -> int {
        self.size as int
    }

    pub closed spec fn cursor(&self) -> Cursor {
        Cursor {
            x: self.cursor_x as int,
            y: self.cursor_y as int,
            shelf_height: self.shelf_height as int,
        }
    }

    /// Every rectangle that the atlas has handed out, oldest first.
    pub closed spec fn allocated(&self) -> Seq<PixelRect> {
        self.allocated@
    }

    /// The cursor is inside the atlas, and every rectangle handed out lies
    /// inside the atlas, above the current shelf or on it left of the cursor.
    pub closed spec fn wf(&self) -> bool {
        &&& self.cursor_x <= self.size
        &&& self.cursor_y + self.shelf_height <= self.size
        &&& self.order_kept()
        &&& forall|i: int|
            0 <= i < self.allocated@.len() ==> {
                let r = #[trigger] self.allocated@[i];
                &&& inside(r, self.size as int)
                &&& (r.y + r.height <= self.cursor_y || (r.y == self.cursor_y && r.x + r.width
                    <= self.cursor_x && r.height <= self.shelf_height))
            }
    }

    /// An empty atlas of `size` by `size` texels.
    pub fn new(size: u32) -> (atlas: Self)
        ensures
            atlas.wf(),
            atlas.size() == size,
            atlas.cursor() == (Cursor { x: 0, y: 0, shelf_height: 0 }),
            atlas.allocated() == Seq::<PixelRect>::empty(),
    {
        Atlas { size, cursor_x: 0, cursor_y: 0, shelf_height: 0, allocated: Ghost(Seq::empty()) }
    }

    pub fn side(&self) -> (size: u32)
        ensures
            size == self.size(),
    {
        self.size
    }

    /// No two rectangles that the atlas has handed out overlap, and each
    /// lies inside the atlas.
    pub proof fn lemma_disjoint(&self, i: int, j: int)
        requires
            self.wf(),
            0 <= i < j < self.allocated().len(),
        ensures
            !overlaps(self.allocated()[i], self.allocated()[j]),
            inside(self.allocated()[i], self.size()),
            inside(self.allocated()[j], self.size()),
    {
        let a = self.allocated@[i];
        let b = self.allocated@[j];
        assert(a.y + a.height <= b.y || (a.y == b.y && a.x + a.width <= b.x));
    }

    /// Each rectangle was placed clear of every older one: it starts right
    /// of an older one on its shelf, or below it.
    closed spec fn order_kept(&self) -> bool {
        forall|i: int, j: int|
            0 <= i < j < self.allocated@.len() ==> {
                let a = #[trigger] self.allocated@[i];
                let b = #[trigger] self.allocated@[j];
                a.y + a.height <= b.y || (a.y == b.y && a.x + a.width <= b.x)
            }
    }

    /// Hands out a rectangle of `width` by `height` texels. The rectangle
    /// goes on the current shelf where that has room, else on a new shelf
    /// below it; where it does not fit there either, nothing is handed out
    /// and the cursor stays at the shelf that was tried.
    pub fn allocate(&mut self, width: u32, height: u32) -> (result: Result<AtlasRegion, AtlasError>)
        requires
            old(self).wf(),
        ensures
            final(self).wf(),
            final(self).size() == old(self).size(),
            ({
                let size = old(self).size();
                let cursor = shelf_for(old(self).cursor(), size, width as int);
                if has_room(cursor, size, width as int, height as int) {
                    let rect = rect_at(cursor, width as int, height as int);
                    &&& result == Ok::<AtlasRegion, AtlasError>(region_of(rect, size))
                    &&& final(self).cursor() == advanced(cursor, width as int, height as int)
                    &&& final(self).allocated() == old(self).allocated().push(rect)
                } else {
                    &&& result == Err::<AtlasRegion, AtlasError>(AtlasError::OutOfSpace)
                    &&& final(self).cursor() == cursor
                    &&& final(self).allocated() == old(self).allocated()
                }
            }),
    {
        if self.cursor_x as u64 + width as u64 > self.size as u64 {
            self.cursor_x = 0;
            self.cursor_y = self.cursor_y + self.shelf_height;
            self.shelf_height = 0;
        }
        if self.cursor_x as u64 + width as u64 > self.size as u64 || self.cursor_y as u64
            + height as u64 > self.size as u64 {
            return Err(AtlasError::OutOfSpace);
        }
        let rect = PixelRect { x: self.cursor_x, y: self.cursor_y, width, height };
        let uv = Rect {
            x1: normalize(rect.x, self.size),
            y1: normalize(rect.y, self.size),
            x2: normalize(rect.x + width, self.size),
            y2: normalize(rect.y + height, self.size),
        };
        self.cursor_x = self.cursor_x + width;
        if height > self.shelf_height {
            self.shelf_height = height;
        }
        proof {
            self.allocated@ = self.allocated@.push(rect);
        }
        Ok(AtlasRegion { pixels: rect, uv })
    }
}

/// Normalises the texel coordinate `texel` of an atlas of `size` texels.
fn normalize(texel: u32, size: u32) -> (uv: i32)
    requires
        texel <= size,
    ensures
        uv == normalized(texel as int, size as int),
{
    if size > 0 {
        proof {
            lemma_normalized_range(texel as int, texel as int, size as int);
        }
        ((texel as u64 * 65536) / (size as u64)) as i32
    } else {
        0
    }
}

} // verus!
