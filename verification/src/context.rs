//! What a frame callback draws with.

use vstd::prelude::*;
use crate::graphics::Graphics;
use crate::renderer::Renderer;

verus! {

/// A `Graphics` and a `Renderer` that draws into it.
pub struct Context {
    pub gfx: Graphics,
    pub renderer: Renderer,
}

} // verus!
