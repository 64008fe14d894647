//! An immediate-mode 2D rendering core.
//!
//! Client code issues drawing commands against a logical coordinate space;
//! the core accumulates the geometry of one frame, packs bitmaps into a
//! texture atlas and hands the frame over in one batch. Every number is an
//! integer: coordinates, scale factors and colour channels are 16.16
//! fixed-point values, so that each rule of the core is stated and proved
//! exactly.

pub mod fixed;
pub mod geometry;
pub mod scale;
pub mod batch;
pub mod atlas;
pub mod glyphs;
pub mod placement;
pub mod text;
pub mod path;
pub mod typeset;
pub mod graphics;
pub mod renderer;
pub mod context;
pub mod settings;
pub mod ui;
