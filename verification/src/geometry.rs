//! The plain values of the renderer: vertices, rectangles and colours.

use vstd::prelude::*;
use crate::fixed::{Fixed, ONE};

verus! {

/// One corner of a triangle: a position in logical pixels, a texture
/// coordinate normalised to the atlas, and a straight RGBA colour.
#[derive(Clone, Copy, Debug, PartialEq, Eq)]
pub struct Vertex {
    pub pos: [Fixed; 2],
    pub uv: [Fixed; 2],
    pub color: [Fixed; 4],
}

/// An axis-aligned box given by two corners. It serves as a rectangle on the
/// screen and as a region of the atlas in normalised coordinates.
#[derive(Clone, Copy, Debug, PartialEq, Eq)]
pub struct Rect {
    pub x1: Fixed,
    pub y1: Fixed,
    pub x2: Fixed,
    pub y2: Fixed,
}

impl Rect {
    pub fn new(x1: Fixed, y1: Fixed, x2: Fixed, y2: Fixed) -> (rect: Self)
        ensures
            rect == (Rect { x1, y1, x2, y2 }),
    {
        Self { x1, y1, x2, y2 }
    }

    pub fn zero() -> (rect: Self)
        ensures
            rect == (Rect { x1: 0, y1: 0, x2: 0, y2: 0 }),
    {
        Self { x1: 0, y1: 0, x2: 0, y2: 0 }
    }
}

/// A straight RGBA colour; each channel runs from zero to `ONE`.
#[derive(Clone, Copy, Debug, PartialEq, Eq)]
pub struct Color {
    pub r: Fixed,
    pub g: Fixed,
    pub b: Fixed,
    pub a: Fixed,
}

impl Color {
    /// An opaque colour.
    pub fn rgb(r: Fixed, g: Fixed, b: Fixed) -> (color: Self)
        ensures
            color == (Color { r, g, b, a: ONE }),
    {
        Self { r, g, b, a: ONE }
    }

    pub fn rgba(r: Fixed, g: Fixed, b: Fixed, a: Fixed) -> (color: Self)
        ensures
            color == (Color { r, g, b, a }),
    {
        Self { r, g, b, a }
    }
}

/// The vertex at `(x, y)` that samples the atlas at `(u, v)` in `color`.
pub open spec fn vertex_at(x: int, y: int, u: int, v: int, color: Color) -> Vertex {
    Vertex {
        pos: [x as i32, y as i32],
        uv: [u as i32, v as i32],
        color: [color.r, color.g, color.b, color.a],
    }
}

/// Builds the vertex at `(x, y)` that samples the atlas at `(u, v)`.
pub fn make_vertex(x: Fixed, y: Fixed, u: Fixed, v: Fixed, color: &Color) -> (vertex: Vertex)
    ensures
        vertex == vertex_at(x as int, y as int, u as int, v as int, *color),
{
    Vertex { pos: [x, y], uv: [u, v], color: [color.r, color.g, color.b, color.a] }
}

} // verus!
