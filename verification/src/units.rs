//! Device-space integer geometry: points, sizes, rectangles and side offsets,
//! all measured in whole device pixels.

use vstd::prelude::*;

verus! {

/// A point in device pixels.
#[derive(Clone, Copy, Debug, PartialEq, Eq, Structural, Hash)]
pub struct DeviceIntPoint {
    pub x: i32,
    pub y: i32,
}

/// A size in device pixels.
#[derive(Clone, Copy, Debug, PartialEq, Eq, Structural, Hash)]
pub struct DeviceIntSize {
    pub width: i32,
    pub height: i32,
}

/// A rectangle in device pixels, given by its top-left corner and its size.
#[derive(Clone, Copy, Debug, PartialEq, Eq, Structural, Hash)]
pub struct DeviceIntRect {
    pub origin: DeviceIntPoint,
    pub size: DeviceIntSize,
}

/// Offsets from the four sides of a rectangle, in device pixels.
#[derive(Clone, Copy, Debug, PartialEq, Eq, Structural, Hash)]
pub struct DeviceIntSideOffsets {
    pub top: i32,
    pub right: i32,
    pub bottom: i32,
    pub left: i32,
}

impl DeviceIntPoint {
    /// The point (`x`, `y`).
    pub fn new(x: i32, y: i32) -> (p: Self)
        ensures
            p == (DeviceIntPoint { x, y }),
    {
        DeviceIntPoint { x, y }
    }

    /// The point (0, 0).
    pub fn origin() -> (p: Self)
        ensures
            p == (DeviceIntPoint { x: 0, y: 0 }),
    {
        DeviceIntPoint { x: 0, y: 0 }
    }
}

impl DeviceIntSize {
    /// The size `width` by `height`.
    pub fn new(width: i32, height: i32) -> (s: Self)
        ensures
            s == (DeviceIntSize { width, height }),
    {
        DeviceIntSize { width, height }
    }

    /// The empty size.
    pub fn zero() -> (s: Self)
        ensures
            s == (DeviceIntSize { width: 0, height: 0 }),
    {
        DeviceIntSize { width: 0, height: 0 }
    }
}

impl DeviceIntRect {
    /// The rectangle of the given size with its top-left corner at `origin`.
    pub fn new(origin: DeviceIntPoint, size: DeviceIntSize) -> (r: Self)
        ensures
            r == (DeviceIntRect { origin, size }),
    {
        DeviceIntRect { origin, size }
    }

    /// The empty rectangle at the origin.
    pub open spec fn spec_zero() -> Self {
        DeviceIntRect {
            origin: DeviceIntPoint { x: 0, y: 0 },
            size: DeviceIntSize { width: 0, height: 0 },
        }
    }

    /// The empty rectangle at the origin.
    pub fn zero() -> (r: Self)
        ensures
            r == Self::spec_zero(),
    {
        DeviceIntRect { origin: DeviceIntPoint::origin(), size: DeviceIntSize::zero() }
    }
}

impl DeviceIntSideOffsets {
    /// The offsets of the four sides, clockwise from the top.
    pub fn new(top: i32, right: i32, bottom: i32, left: i32) -> (o: Self)
        ensures
            o == (DeviceIntSideOffsets { top, right, bottom, left }),
    {
        DeviceIntSideOffsets { top, right, bottom, left }
    }

    /// No offset on any side.
    pub fn zero() -> (o: Self)
        ensures
            o == (DeviceIntSideOffsets { top: 0, right: 0, bottom: 0, left: 0 }),
    {
        DeviceIntSideOffsets { top: 0, right: 0, bottom: 0, left: 0 }
    }

    /// Sum of the left and right offsets.
    pub open spec fn spec_horizontal(self) -> int {
        self.left + self.right
    }

    /// Sum of the top and bottom offsets.
    pub open spec fn spec_vertical(self) -> int {
        self.top + self.bottom
    }
}

} // verus!
