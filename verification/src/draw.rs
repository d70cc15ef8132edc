//! Draw commands produced by the core and consumed by the external
//! renderer. The core never owns a frame buffer or display surface.

use vstd::prelude::*;

verus! {

use crate::geometry::Point;

/// An 8-bit-per-channel color.
#[derive(Clone, Copy, PartialEq, Eq, Structural, Debug)]
pub struct Color {
    pub r: u8,
    pub g: u8,
    pub b: u8,
}

/// A line between two world-space points.
#[derive(Clone, Copy, PartialEq, Eq, Structural, Debug)]
pub struct LineCmd {
    pub start: Point,
    pub end: Point,
    pub color: Color,
}

/// A circle, used as a hit or endpoint marker.
#[derive(Clone, Copy, PartialEq, Eq, Structural, Debug)]
pub struct CircleCmd {
    pub center: Point,
    pub radius: i64,
    pub color: Color,
}

/// A filled rectangle, used for wall-slice projection and minimap tiles.
#[derive(Clone, Copy, PartialEq, Eq, Structural, Debug)]
pub struct RectCmd {
    pub center: Point,
    pub width: i64,
    pub height: i64,
    pub color: Color,
}

} // verus!
