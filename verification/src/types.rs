//! Plain identifiers, enumerations and fractional geometry shared by the
//! task graph, the task cache and their collaborators.

use vstd::prelude::*;
use crate::scalar::Scalar;
use crate::units::{DeviceIntRect, DeviceIntSize};

verus! {

/// Identity of one frame. Task identifiers carry it, so that an identifier
/// kept from an earlier frame is told apart from one of the current frame.
#[derive(Clone, Copy, Debug, PartialEq, Eq, Structural, Hash)]
pub struct FrameId(pub u64);

impl FrameId {
    /// The identity no frame has.
    pub open spec fn spec_invalid() -> Self {
        FrameId(0)
    }

    /// The identity no frame has.
    pub fn invalid() -> (f: Self)
        ensures
            f == Self::spec_invalid(),
    {
        FrameId(0)
    }

    /// The identity of the first frame.
    pub fn first() -> (f: Self)
        ensures
            f == FrameId(1),
    {
        FrameId(1)
    }
}

/// Slot of a target that is kept alive after its pass.
#[derive(Clone, Copy, Debug, PartialEq, Eq, Structural, Hash)]
pub struct SavedTargetIndex(pub usize);

impl SavedTargetIndex {
    /// The slot of a task that asked to be saved and has no slot yet.
    pub open spec fn spec_pending() -> Self {
        SavedTargetIndex(usize::MAX)
    }

    /// The slot of a task that asked to be saved and has no slot yet.
    pub fn pending() -> (s: Self)
        ensures
            s == Self::spec_pending(),
    {
        SavedTargetIndex(usize::MAX)
    }
}

/// Index of a render target within its pass.
#[derive(Clone, Copy, Debug, PartialEq, Eq, Structural, Hash)]
pub struct RenderTargetIndex(pub usize);

/// Whether a target holds four colour channels or one alpha channel.
#[derive(Clone, Copy, Debug, PartialEq, Eq, Structural, Hash)]
pub enum RenderTargetKind {
    Color,
    Alpha,
}

/// A texture of the persistent store.
#[derive(Clone, Copy, Debug, PartialEq, Eq, Structural, Hash)]
pub struct CacheTextureId(pub u64);

/// A layer of a texture array.
pub type LayerIndex = usize;

/// Position of a block in the GPU value cache.
#[derive(Clone, Copy, Debug, PartialEq, Eq, Structural, Hash)]
pub struct GpuCacheAddress {
    pub u: u16,
    pub v: u16,
}

/// A slot of the GPU value cache, with the generation it was handed out in.
#[derive(Clone, Copy, Debug, PartialEq, Eq, Structural, Hash)]
pub struct GpuCacheLocation {
    pub block_index: u32,
    pub epoch: u32,
}

/// Handle to per-task data in the GPU value cache; empty until first used.
#[derive(Clone, Copy, Debug, PartialEq, Eq, Structural, Hash)]
pub struct GpuCacheHandle {
    pub location: Option<GpuCacheLocation>,
}

impl GpuCacheHandle {
    /// A handle that refers to nothing yet.
    pub fn new() -> (h: Self)
        ensures
            h == (GpuCacheHandle { location: None }),
    {
        GpuCacheHandle { location: None }
    }
}

/// A slot of the persistent texture store, with its generation.
#[derive(Clone, Copy, Debug, PartialEq, Eq, Structural, Hash)]
pub struct TextureCacheSlot {
    pub index: u32,
    pub epoch: u32,
}

/// Handle to an allocation in the persistent texture store.
#[derive(Clone, Copy, Debug, PartialEq, Eq, Structural, Hash)]
pub struct TextureCacheHandle {
    pub entry: Option<TextureCacheSlot>,
}

impl TextureCacheHandle {
    /// A handle that refers to no allocation.
    pub open spec fn spec_invalid() -> Self {
        TextureCacheHandle { entry: None }
    }

    /// A handle that refers to no allocation.
    pub fn invalid() -> (h: Self)
        ensures
            h == Self::spec_invalid(),
    {
        TextureCacheHandle { entry: None }
    }
}

/// Index of a node of the spatial tree.
#[derive(Clone, Copy, Debug, PartialEq, Eq, Structural, Hash)]
pub struct SpatialNodeIndex(pub u32);

/// Index of a picture in the primitive store.
#[derive(Clone, Copy, Debug, PartialEq, Eq, Structural, Hash)]
pub struct PictureIndex(pub usize);

/// A fractional point in device pixels.
#[derive(Clone, Copy, Debug, PartialEq, Eq, Structural, Hash)]
pub struct DevicePoint {
    pub x: Scalar,
    pub y: Scalar,
}

/// A fractional size in device pixels.
#[derive(Clone, Copy, Debug, PartialEq, Eq, Structural, Hash)]
pub struct DeviceSize {
    pub width: Scalar,
    pub height: Scalar,
}

/// A fractional offset in device pixels.
#[derive(Clone, Copy, Debug, PartialEq, Eq, Structural, Hash)]
pub struct DeviceVector2D {
    pub x: Scalar,
    pub y: Scalar,
}

/// A point in layout space.
#[derive(Clone, Copy, Debug, PartialEq, Eq, Structural, Hash)]
pub struct LayoutPoint {
    pub x: Scalar,
    pub y: Scalar,
}

/// A size in layout space.
#[derive(Clone, Copy, Debug, PartialEq, Eq, Structural, Hash)]
pub struct LayoutSize {
    pub width: Scalar,
    pub height: Scalar,
}

/// A rectangle in layout space.
#[derive(Clone, Copy, Debug, PartialEq, Eq, Structural, Hash)]
pub struct LayoutRect {
    pub origin: LayoutPoint,
    pub size: LayoutSize,
}

impl DeviceSize {
    /// The size `width` by `height`.
    pub fn new(width: Scalar, height: Scalar) -> (s: Self)
        ensures
            s == (DeviceSize { width, height }),
    {
        DeviceSize { width, height }
    }
}

/// Number of device pixels per layout pixel.
#[derive(Clone, Copy, Debug, PartialEq, Eq, Structural, Hash)]
pub struct DevicePixelScale(pub Scalar);

/// Sub-pixel corrections applied to the corners of clip and mask geometry.
#[derive(Clone, Copy, Debug, PartialEq, Eq, Structural, Hash)]
pub struct SnapOffsets {
    pub top_left: DeviceVector2D,
    pub bottom_right: DeviceVector2D,
}

/// How the texture coordinates of a task's output are laid out.
#[derive(Clone, Copy, Debug, PartialEq, Eq, Structural, Hash)]
pub enum UvRectKind {
    /// An axis-aligned rectangle.
    Rect,
    /// An arbitrary quadrilateral, given by its corners.
    Quad {
        top_left: DevicePoint,
        top_right: DevicePoint,
        bottom_left: DevicePoint,
        bottom_right: DevicePoint,
    },
}

/// A run of consecutive clip nodes.
#[derive(Clone, Copy, Debug, PartialEq, Eq, Structural, Hash)]
pub struct ClipNodeRange {
    pub first: u32,
    pub count: u32,
}

/// Stroke style of a line decoration.
#[derive(Clone, Copy, Debug, PartialEq, Eq, Structural, Hash)]
pub enum LineStyle {
    Solid,
    Dotted,
    Dashed,
    Wavy,
}

/// Direction of a line decoration.
#[derive(Clone, Copy, Debug, PartialEq, Eq, Structural, Hash)]
pub enum LineOrientation {
    Vertical,
    Horizontal,
}

/// One border segment as the border shader draws it.
#[derive(Clone, Copy, Debug, PartialEq, Eq, Structural, Hash)]
pub struct BorderInstance {
    pub task_origin: DevicePoint,
    pub local_rect: DeviceIntRect,
    pub flags: i32,
    pub widths: DeviceSize,
    pub radius: DeviceSize,
}

/// Pixel format of a texture.
#[derive(Clone, Copy, Debug, PartialEq, Eq, Structural, Hash)]
pub enum ImageFormat {
    /// One 8-bit channel.
    R8,
    /// One 16-bit channel.
    R16,
    /// Four 8-bit channels.
    BGRA8,
    /// Four floating-point channels.
    RGBAF32,
    /// Two 8-bit channels.
    RG8,
    /// Four 32-bit integer channels.
    RGBAI32,
}

/// Shape and format of an image handed to the persistent store.
#[derive(Clone, Copy, Debug, PartialEq, Eq, Structural, Hash)]
pub struct ImageDescriptor {
    pub format: ImageFormat,
    pub size: DeviceIntSize,
    pub stride: Option<i32>,
    pub offset: i32,
    pub is_opaque: bool,
    pub allow_mipmaps: bool,
}

impl ImageDescriptor {
    /// The descriptor of a tightly packed image of the given size.
    pub open spec fn spec_new(
        width: i32,
        height: i32,
        format: ImageFormat,
        is_opaque: bool,
        allow_mipmaps: bool,
    ) -> Self {
        ImageDescriptor {
            format,
            size: DeviceIntSize { width, height },
            stride: None,
            offset: 0,
            is_opaque,
            allow_mipmaps,
        }
    }

    /// The descriptor of a tightly packed image of the given size.
    pub fn new(
        width: i32,
        height: i32,
        format: ImageFormat,
        is_opaque: bool,
        allow_mipmaps: bool,
    ) -> (d: Self)
        ensures
            d == Self::spec_new(width, height, format, is_opaque, allow_mipmaps),
    {
        ImageDescriptor {
            format,
            size: DeviceIntSize { width, height },
            stride: None,
            offset: 0,
            is_opaque,
            allow_mipmaps,
        }
    }
}

/// How a texture is sampled.
#[derive(Clone, Copy, Debug, PartialEq, Eq, Structural, Hash)]
pub enum TextureFilter {
    Nearest,
    Linear,
    Trilinear,
}

/// When the persistent store may drop an allocation.
#[derive(Clone, Copy, Debug, PartialEq, Eq, Structural, Hash)]
pub enum Eviction {
    /// Dropped when not used for a while.
    Auto,
    /// Dropped only on request.
    Manual,
    /// Dropped as soon as a frame does not use it.
    Eager,
}

/// What the frame builder knows of the device.
#[derive(Clone, Copy, Debug, PartialEq, Eq, Structural, Hash)]
pub struct FrameBuilderConfig {
    /// Whether clearing a whole target is cheap on this device.
    pub gpu_supports_fast_clears: bool,
}

} // verus!
