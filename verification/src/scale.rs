//! The scale state: the size of the surface in device pixels, the scale
//! factor, and the logical size that client code draws in.

use vstd::prelude::*;
use crate::fixed::{
    device_of, device_pixels, lemma_scale_round_trip, logical_of, to_device, to_logical, Fixed,
    ONE_SQUARED,
};

verus! {

/// The size of the surface in device pixels, the number of device pixels
/// in one logical pixel, and the size of the surface in logical pixels.
#[derive(Clone, Copy, Debug, PartialEq, Eq)]
pub struct ScaleState {
    pub device_width: u32,
    pub device_height: u32,
    pub scale: Fixed,
    pub width: Fixed,
    pub height: Fixed,
}

/// The least width or height that a surface can have.
pub open spec fn at_least_one(pixels: u32) -> u32 {
    if pixels < 1 {
        1
    } else {
        pixels
    }
}

/// The state of a surface of `width` by `height` device pixels at `scale`:
/// each side is at least one device pixel, and the logical size is the
/// device size divided by the scale.
pub open spec fn scale_state(width: u32, height: u32, scale: Fixed) -> ScaleState {
    ScaleState {
        device_width: at_least_one(width),
        device_height: at_least_one(height),
        scale,
        width: logical_of(at_least_one(width) as int, scale as int) as i32,
        height: logical_of(at_least_one(height) as int, scale as int) as i32,
    }
}

/// The state after `state` was resized to `width` by `height` device pixels
/// at `scale`: nothing of the state before is kept.
pub open spec fn resized(state: ScaleState, width: u32, height: u32, scale: Fixed) -> ScaleState {
    scale_state(width, height, scale)
}

/// What the text layout is asked for, in device pixels: the size of the
/// font and the width and height at which lines break and end.
#[derive(Clone, Copy, Debug, PartialEq, Eq)]
pub struct LayoutRequest {
    pub px: Fixed,
    pub max_width: Option<Fixed>,
    pub max_height: Option<Fixed>,
}

/// A logical length that may be absent, in device pixels.
pub open spec fn device_of_some(logical: Option<Fixed>, scale: int) -> Option<Fixed> {
    match logical {
        Some(length) => Some(device_of(length as int, scale) as i32),
        None => None,
    }
}

impl ScaleState {
    /// The logical size is the device size divided by the scale, and no
    /// side is shorter than one device pixel.
    pub open spec fn wf(&self) -> bool {
        &&& self.device_width >= 1
        &&& self.device_height >= 1
        &&& self.width == logical_of(self.device_width as int, self.scale as int)
        &&& self.height == logical_of(self.device_height as int, self.scale as int)
    }

    /// The state of a surface of `width` by `height` device pixels at
    /// `scale`.
    pub fn new(width: u32, height: u32, scale: Fixed) -> (state: Self)
        ensures
            state.wf(),
            state == scale_state(width, height, scale),
    {
        let device_width: u32 = if width < 1 {
            1
        } else {
            width
        };
        let device_height: u32 = if height < 1 {
            1
        } else {
            height
        };
        ScaleState {
            device_width,
            device_height,
            scale,
            width: to_logical(device_width as i64, scale),
            height: to_logical(device_height as i64, scale),
        }
    }

    /// Takes a new device size and scale, and works out the logical size.
    pub fn resize(&mut self, width: u32, height: u32, scale: Fixed)
        ensures
            final(self).wf(),
            *final(self) == resized(*old(self), width, height, scale),
    {
        *self = ScaleState::new(width, height, scale);
    }

    /// The layout request for a text of logical size `size`: every length
    /// multiplied by the scale.
    pub fn layout_request(
        &self,
        size: Fixed,
        max_width: Option<Fixed>,
        max_height: Option<Fixed>,
    ) -> (request: LayoutRequest)
        ensures
            request == (LayoutRequest {
                px: device_of(size as int, self.scale as int) as i32,
                max_width: device_of_some(max_width, self.scale as int),
                max_height: device_of_some(max_height, self.scale as int),
            }),
    {
        let max_width: Option<Fixed> = match max_width {
            Some(length) => Some(to_device(length, self.scale)),
            None => None,
        };
        let max_height: Option<Fixed> = match max_height {
            Some(length) => Some(to_device(length, self.scale)),
            None => None,
        };
        LayoutRequest { px: to_device(size, self.scale), max_width, max_height }
    }
}

/// Resizing twice to the same size and scale gives what resizing once
/// gives.
pub proof fn lemma_resize_idempotent(state: ScaleState, width: u32, height: u32, scale: Fixed)
    ensures
        resized(resized(state, width, height, scale), width, height, scale) == resized(
            state,
            width,
            height,
            scale,
        ),
{
}

/// After a resize at a positive scale, the logical size multiplied by the
/// scale and rounded is the device size again, on each side whose logical
/// length is within the range of a fixed-point number.
pub proof fn lemma_resize_round_trip(state: ScaleState, width: u32, height: u32, scale: Fixed)
    requires
        scale > 0,
    ensures
        (at_least_one(width) * ONE_SQUARED as int) / (scale as int) <= i32::MAX ==> device_pixels(
            resized(state, width, height, scale).width as int,
            scale as int,
        ) == resized(state, width, height, scale).device_width,
        (at_least_one(height) * ONE_SQUARED as int) / (scale as int) <= i32::MAX ==> device_pixels(
            resized(state, width, height, scale).height as int,
            scale as int,
        ) == resized(state, width, height, scale).device_height,
{
    let w = at_least_one(width) as int;
    let h = at_least_one(height) as int;
    let s = scale as int;
    assert(0 <= (w * ONE_SQUARED as int) / s && 0 <= (h * ONE_SQUARED as int) / s)
        by (nonlinear_arith)
        requires
            w >= 1,
            h >= 1,
            s > 0,
            ONE_SQUARED as int == 4294967296,
    ;
    if (w * ONE_SQUARED as int) / s <= i32::MAX {
        lemma_scale_round_trip(w, s);
    }
    if (h * ONE_SQUARED as int) / s <= i32::MAX {
        lemma_scale_round_trip(h, s);
    }
}

} // verus!
