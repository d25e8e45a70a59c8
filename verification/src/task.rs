//! The task node: one GPU operation with its output location, its
//! dependencies, its operation-specific parameters and its clear policy.

use vstd::prelude::*;
use crate::keys::ImageCacheKey;
use crate::scalar::Scalar;
use crate::types::{
    BorderInstance, CacheTextureId, ClipNodeRange, DevicePixelScale, DevicePoint,
    DeviceVector2D, FrameId, GpuCacheAddress, GpuCacheHandle, LayerIndex, LayoutPoint, LayoutSize,
    LineOrientation, LineStyle, PictureIndex, RenderTargetIndex, RenderTargetKind,
    SavedTargetIndex, SnapOffsets, SpatialNodeIndex, UvRectKind,
};
use crate::units::{DeviceIntPoint, DeviceIntRect, DeviceIntSideOffsets, DeviceIntSize};

verus! {

/// Largest width or height, in device pixels, that a task may ask for.
pub const RENDER_TASK_SIZE_SANITY_CHECK: i32 = 16000;

/// Largest blur deviation, in device pixels, that is blurred without
/// downscaling first.
pub const MAX_BLUR_STD_DEVIATION: i32 = 4;

/// Smallest width or height, in device pixels, that is still downscaled.
pub const MIN_DOWNSCALING_RT_SIZE: i32 = 8;

/// Whether `size` is positive and within the sanity bound in both dimensions.
pub open spec fn valid_task_size(size: DeviceIntSize) -> bool {
    &&& 0 < size.width <= RENDER_TASK_SIZE_SANITY_CHECK
    &&& 0 < size.height <= RENDER_TASK_SIZE_SANITY_CHECK
}

/// Whether neither dimension of `size` exceeds the sanity bound.
pub open spec fn within_sanity_bound(size: DeviceIntSize) -> bool {
    &&& size.width <= RENDER_TASK_SIZE_SANITY_CHECK
    &&& size.height <= RENDER_TASK_SIZE_SANITY_CHECK
}

/// Tells whether neither dimension of `size` exceeds the sanity bound.
pub fn render_task_sanity_check(size: &DeviceIntSize) -> (ok: bool)
    ensures
        ok == within_sanity_bound(*size),
{
    !(size.width > RENDER_TASK_SIZE_SANITY_CHECK || size.height > RENDER_TASK_SIZE_SANITY_CHECK)
}

/// Identifier of a task: its index in the arena of the frame that made it.
#[derive(Clone, Copy, Debug, PartialEq, Eq, Structural, Hash)]
pub struct RenderTaskId {
    pub index: u32,
    pub frame_id: FrameId,
}

impl RenderTaskId {
    /// The identifier that no task has.
    pub fn invalid() -> (id: Self)
        ensures
            id == (RenderTaskId { index: u32::MAX, frame_id: FrameId::spec_invalid() }),
    {
        RenderTaskId { index: u32::MAX, frame_id: FrameId::invalid() }
    }
}

/// Row of a task in the table of GPU records.
#[derive(Clone, Copy, Debug, PartialEq, Eq, Structural)]
pub struct RenderTaskAddress(pub u32);

/// Where the output of a task goes.
#[derive(Clone, Copy, Debug)]
pub enum RenderTaskLocation {
    /// A fixed region of the final framebuffer.
    Fixed(DeviceIntRect),
    /// A region of the given size in a target that the atlas allocator picks.
    /// The first member is empty until the allocator has placed the task.
    Dynamic(Option<(DeviceIntPoint, RenderTargetIndex)>, DeviceIntSize),
    /// A region of the persistent store, kept across frames.
    TextureCache {
        /// The texture to draw into.
        texture: CacheTextureId,
        /// The layer of that texture.
        layer: LayerIndex,
        /// The region within that layer.
        rect: DeviceIntRect,
    },
}

impl RenderTaskLocation {
    /// Tells whether this is a dynamic location.
    pub fn is_dynamic(&self) -> (b: bool)
        ensures
            b == (*self is Dynamic),
    {
        match *self {
            RenderTaskLocation::Dynamic(..) => true,
            _ => false,
        }
    }

    /// The size that this location names.
    pub open spec fn size(self) -> DeviceIntSize {
        match self {
            RenderTaskLocation::Fixed(rect) => rect.size,
            RenderTaskLocation::Dynamic(_, size) => size,
            RenderTaskLocation::TextureCache { rect, .. } => rect.size,
        }
    }
}

/// Parameters of a task that draws a clip mask.
#[derive(Clone, Copy, Debug, PartialEq, Eq, Structural)]
pub struct CacheMaskTask {
    pub actual_rect: DeviceIntRect,
    pub root_spatial_node_index: SpatialNodeIndex,
    pub clip_node_range: ClipNodeRange,
    pub snap_offsets: SnapOffsets,
    pub device_pixel_scale: DevicePixelScale,
}

/// Parameters of a task that rasterises one rounded-rectangle clip.
#[derive(Clone, Copy, Debug, PartialEq, Eq, Structural)]
pub struct ClipRegionTask {
    pub clip_data_address: GpuCacheAddress,
    pub local_pos: LayoutPoint,
    pub device_pixel_scale: DevicePixelScale,
}

/// Which texture a cached item lives in.
#[derive(Clone, Copy, Debug, PartialEq, Eq, Structural)]
pub enum TextureSource {
    Invalid,
    TextureCache(CacheTextureId),
    RenderTaskCache(SavedTargetIndex),
    PrevPassAlpha,
    PrevPassColor,
}

/// An item of the persistent store, as a consumer samples it.
#[derive(Clone, Copy, Debug, PartialEq, Eq, Structural)]
pub struct CacheItem {
    pub texture_id: TextureSource,
    pub uv_rect_handle: GpuCacheHandle,
    pub uv_rect: DeviceIntRect,
    pub texture_layer: i32,
}

/// A copy of one tile into a cached item.
#[derive(Clone, Copy, Debug, PartialEq, Eq, Structural)]
pub struct TileBlit {
    pub target: CacheItem,
    pub src_offset: DeviceIntPoint,
    pub dest_offset: DeviceIntPoint,
    pub size: DeviceIntSize,
}

/// Parameters of a task that draws a picture.
#[derive(Clone, Copy, Debug, PartialEq, Eq, Structural)]
pub struct PictureTask {
    pub pic_index: PictureIndex,
    pub can_merge: bool,
    pub content_origin: DeviceIntPoint,
    pub uv_rect_handle: GpuCacheHandle,
    pub root_spatial_node_index: SpatialNodeIndex,
    pub uv_rect_kind: UvRectKind,
    pub device_pixel_scale: DevicePixelScale,
}

/// Parameters of one pass of a separable blur.
#[derive(Clone, Copy, Debug, PartialEq, Eq, Structural)]
pub struct BlurTask {
    pub blur_std_deviation: Scalar,
    pub target_kind: RenderTargetKind,
    pub uv_rect_handle: GpuCacheHandle,
    pub uv_rect_kind: UvRectKind,
}

/// Parameters of a task that scales its source down.
#[derive(Clone, Copy, Debug, PartialEq, Eq, Structural)]
pub struct ScalingTask {
    pub target_kind: RenderTargetKind,
    pub uv_rect_handle: GpuCacheHandle,
    pub uv_rect_kind: UvRectKind,
}

/// How a glyph is rasterised.
#[derive(Clone, Copy, Debug, PartialEq, Eq, Structural)]
pub enum FontRenderMode {
    Mono,
    Alpha,
    Subpixel,
}

/// Parameters of a task that rasterises a glyph. The outline itself stays
/// with the rasteriser.
#[derive(Clone, Copy, Debug, PartialEq, Eq, Structural)]
pub struct GlyphTask {
    pub origin: DeviceIntPoint,
    pub subpixel_offset: DevicePoint,
    pub render_mode: FontRenderMode,
    pub embolden_amount: DeviceVector2D,
}

/// Where the pixels of a blit come from.
#[derive(Clone, Copy, Debug, PartialEq, Eq, Structural)]
pub enum BlitSource {
    Image { key: ImageCacheKey },
    RenderTask { task_id: RenderTaskId },
}

/// Parameters of a task that draws border segments.
#[derive(Debug)]
pub struct BorderTask {
    pub instances: Vec<BorderInstance>,
}

/// Parameters of a task that copies pixels.
#[derive(Clone, Copy, Debug, PartialEq, Eq, Structural)]
pub struct BlitTask {
    pub source: BlitSource,
    pub padding: DeviceIntSideOffsets,
}

/// Parameters of a task that draws a line decoration.
#[derive(Clone, Copy, Debug, PartialEq, Eq, Structural)]
pub struct LineDecorationTask {
    pub wavy_line_thickness: Scalar,
    pub style: LineStyle,
    pub orientation: LineOrientation,
    pub local_size: LayoutSize,
}

/// The record of one task as the GPU reads it: eight numbers.
#[derive(Clone, Copy, Debug)]
pub struct RenderTaskData {
    pub data: [Scalar; 8],
}

/// The operation of a task, with its parameters.
#[derive(Debug)]
pub enum RenderTaskKind {
    Picture(PictureTask),
    CacheMask(CacheMaskTask),
    ClipRegion(ClipRegionTask),
    VerticalBlur(BlurTask),
    HorizontalBlur(BlurTask),
    Glyph(GlyphTask),
    Scaling(ScalingTask),
    Blit(BlitTask),
    Border(BorderTask),
    LineDecoration(LineDecorationTask),
}

/// A task kind as a mathematical value.
pub enum RenderTaskKindView {
    Picture(PictureTask),
    CacheMask(CacheMaskTask),
    ClipRegion(ClipRegionTask),
    VerticalBlur(BlurTask),
    HorizontalBlur(BlurTask),
    Glyph(GlyphTask),
    Scaling(ScalingTask),
    Blit(BlitTask),
    Border(Seq<BorderInstance>),
    LineDecoration(LineDecorationTask),
}

impl View for RenderTaskKind {
    type V = RenderTaskKindView;

    open spec fn view(&self) -> RenderTaskKindView {
        match *self {
            RenderTaskKind::Picture(t) => RenderTaskKindView::Picture(t),
            RenderTaskKind::CacheMask(t) => RenderTaskKindView::CacheMask(t),
            RenderTaskKind::ClipRegion(t) => RenderTaskKindView::ClipRegion(t),
            RenderTaskKind::VerticalBlur(t) => RenderTaskKindView::VerticalBlur(t),
            RenderTaskKind::HorizontalBlur(t) => RenderTaskKindView::HorizontalBlur(t),
            RenderTaskKind::Glyph(t) => RenderTaskKindView::Glyph(t),
            RenderTaskKind::Scaling(t) => RenderTaskKindView::Scaling(t),
            RenderTaskKind::Blit(t) => RenderTaskKindView::Blit(t),
            RenderTaskKind::Border(t) => RenderTaskKindView::Border(t.instances@),
            RenderTaskKind::LineDecoration(t) => RenderTaskKindView::LineDecoration(t),
        }
    }
}

/// What a target is cleared to before a task draws into it.
#[derive(Clone, Copy, Debug, PartialEq, Eq, Structural)]
pub enum ClearMode {
    /// All channels zero.
    Zero,
    /// All channels one.
    One,
    /// Anything: the task overwrites every pixel.
    DontCare,
    /// Transparent black; colour targets only.
    Transparent,
}

/// One node of the task graph.
#[derive(Debug)]
pub struct RenderTask {
    pub location: RenderTaskLocation,
    pub children: Vec<RenderTaskId>,
    pub kind: RenderTaskKind,
    pub clear_mode: ClearMode,
    pub saved_index: Option<SavedTargetIndex>,
}

/// A task as a mathematical value.
pub struct RenderTaskView {
    pub location: RenderTaskLocation,
    pub children: Seq<RenderTaskId>,
    pub kind: RenderTaskKindView,
    pub clear_mode: ClearMode,
    pub saved_index: Option<SavedTargetIndex>,
}

impl View for RenderTask {
    type V = RenderTaskView;

    open spec fn view(&self) -> RenderTaskView {
        RenderTaskView {
            location: self.location,
            children: self.children@,
            kind: self.kind@,
            clear_mode: self.clear_mode,
            saved_index: self.saved_index,
        }
    }
}

impl RenderTask {
    /// The texture-coordinate layout of the task's output. Mask tasks have
    /// none.
    pub open spec fn spec_uv_rect_kind(self) -> UvRectKind {
        match self.kind {
            RenderTaskKind::Picture(task) => task.uv_rect_kind,
            RenderTaskKind::VerticalBlur(task) => task.uv_rect_kind,
            RenderTaskKind::HorizontalBlur(task) => task.uv_rect_kind,
            RenderTaskKind::Scaling(task) => task.uv_rect_kind,
            _ => UvRectKind::Rect,
        }
    }

    /// The texture-coordinate layout of the task's output: the one stored
    /// with a picture, blur or scaling task, a plain rectangle for the rest.
    pub fn uv_rect_kind(&self) -> (k: UvRectKind)
        requires
            !(self.kind is CacheMask),
        ensures
            k == self.spec_uv_rect_kind(),
    {
        match self.kind {
            RenderTaskKind::Picture(ref task) => task.uv_rect_kind,
            RenderTaskKind::VerticalBlur(ref task) => task.uv_rect_kind,
            RenderTaskKind::HorizontalBlur(ref task) => task.uv_rect_kind,
            RenderTaskKind::Scaling(ref task) => task.uv_rect_kind,
            RenderTaskKind::CacheMask(..) => UvRectKind::Rect,
            RenderTaskKind::ClipRegion(..) => UvRectKind::Rect,
            RenderTaskKind::Glyph(..) => UvRectKind::Rect,
            RenderTaskKind::Border(..) => UvRectKind::Rect,
            RenderTaskKind::LineDecoration(..) => UvRectKind::Rect,
            RenderTaskKind::Blit(..) => UvRectKind::Rect,
        }
    }

    /// The size that the atlas allocator has to find room for: nothing for a
    /// fixed location, the task's size otherwise.
    pub open spec fn spec_dynamic_size(self) -> DeviceIntSize {
        match self.location {
            RenderTaskLocation::Fixed(_) => DeviceIntSize { width: 0, height: 0 },
            RenderTaskLocation::Dynamic(_, size) => size,
            RenderTaskLocation::TextureCache { rect, .. } => rect.size,
        }
    }

    /// The size that the atlas allocator has to find room for.
    pub fn get_dynamic_size(&self) -> (size: DeviceIntSize)
        ensures
            size == self.spec_dynamic_size(),
    {
        match self.location {
            RenderTaskLocation::Fixed(..) => DeviceIntSize::zero(),
            RenderTaskLocation::Dynamic(_, size) => size,
            RenderTaskLocation::TextureCache { rect, .. } => rect.size,
        }
    }

    /// The rectangle the task draws into and the index of its target. A
    /// dynamic task that no pass has placed yet has the empty rectangle in
    /// target 0.
    pub open spec fn spec_target_rect(self) -> (DeviceIntRect, RenderTargetIndex) {
        match self.location {
            RenderTaskLocation::Fixed(rect) => (rect, RenderTargetIndex(0)),
            RenderTaskLocation::Dynamic(Some((origin, target_index)), size) => (
                DeviceIntRect { origin, size },
                target_index,
            ),
            RenderTaskLocation::Dynamic(None, _) => (
                DeviceIntRect::spec_zero(),
                RenderTargetIndex(0),
            ),
            RenderTaskLocation::TextureCache { layer, rect, .. } => (
                rect,
                RenderTargetIndex(layer),
            ),
        }
    }

    /// The rectangle the task draws into and the index of its target.
    pub fn get_target_rect(&self) -> (r: (DeviceIntRect, RenderTargetIndex))
        ensures
            r == self.spec_target_rect(),
            self.location matches RenderTaskLocation::Dynamic(None, _) ==> r == (
                DeviceIntRect::spec_zero(),
                RenderTargetIndex(0),
            ),
    {
        match self.location {
            RenderTaskLocation::Fixed(rect) => (rect, RenderTargetIndex(0)),
            RenderTaskLocation::Dynamic(Some((origin, target_index)), size) => (
                DeviceIntRect::new(origin, size),
                target_index,
            ),
            RenderTaskLocation::Dynamic(None, _) => (DeviceIntRect::zero(), RenderTargetIndex(0)),
            RenderTaskLocation::TextureCache { layer, rect, .. } => (
                rect,
                RenderTargetIndex(layer),
            ),
        }
    }

    /// The kind of target the task draws into. Line decorations, pictures,
    /// borders, blits and glyphs draw colour; masks draw alpha; blur and
    /// scaling tasks draw what they were made for.
    pub open spec fn spec_target_kind(self) -> RenderTargetKind {
        match self.kind {
            RenderTaskKind::ClipRegion(_) => RenderTargetKind::Alpha,
            RenderTaskKind::CacheMask(_) => RenderTargetKind::Alpha,
            RenderTaskKind::VerticalBlur(info) => info.target_kind,
            RenderTaskKind::HorizontalBlur(info) => info.target_kind,
            RenderTaskKind::Scaling(info) => info.target_kind,
            _ => RenderTargetKind::Color,
        }
    }

    /// The kind of target the task draws into.
    pub fn target_kind(&self) -> (k: RenderTargetKind)
        ensures
            k == self.spec_target_kind(),
    {
        match self.kind {
            RenderTaskKind::LineDecoration(..) => RenderTargetKind::Color,
            RenderTaskKind::ClipRegion(..) => RenderTargetKind::Alpha,
            RenderTaskKind::CacheMask(..) => RenderTargetKind::Alpha,
            RenderTaskKind::VerticalBlur(ref info) => info.target_kind,
            RenderTaskKind::HorizontalBlur(ref info) => info.target_kind,
            RenderTaskKind::Glyph(..) => RenderTargetKind::Color,
            RenderTaskKind::Scaling(ref info) => info.target_kind,
            RenderTaskKind::Border(..) => RenderTargetKind::Color,
            RenderTaskKind::Picture(..) => RenderTargetKind::Color,
            RenderTaskKind::Blit(..) => RenderTargetKind::Color,
        }
    }

    /// Last step before drawing, once every resource is resolved. No kind of
    /// task defers anything to it: the task is left as it is.
    pub fn prepare_for_render(&mut self)
        ensures
            *final(self) == *old(self),
    {
    }

    /// Whether the task owns a handle to its texture coordinates in the GPU
    /// value cache: pictures and blurs do.
    pub open spec fn has_uv_rect_handle(self) -> bool {
        self.kind is Picture || self.kind is VerticalBlur || self.kind is HorizontalBlur
    }

    /// The handle to the task's texture coordinates in the GPU value cache.
    pub open spec fn spec_uv_rect_handle(self) -> GpuCacheHandle {
        match self.kind {
            RenderTaskKind::Picture(info) => info.uv_rect_handle,
            RenderTaskKind::VerticalBlur(info) => info.uv_rect_handle,
            RenderTaskKind::HorizontalBlur(info) => info.uv_rect_handle,
            _ => GpuCacheHandle { location: None },
        }
    }

    /// Tells whether the task owns a handle to its texture coordinates.
    pub fn supports_texture_address(&self) -> (b: bool)
        ensures
            b == self.has_uv_rect_handle(),
    {
        match self.kind {
            RenderTaskKind::Picture(..) => true,
            RenderTaskKind::VerticalBlur(..) => true,
            RenderTaskKind::HorizontalBlur(..) => true,
            _ => false,
        }
    }

    /// The address of the task's texture coordinates: what `address_of`
    /// answers for the task's handle. Only pictures and blurs have one.
    pub fn get_texture_address<F>(&self, address_of: F) -> (address: GpuCacheAddress) where
        F: FnOnce(&GpuCacheHandle) -> GpuCacheAddress,

        requires
            self.has_uv_rect_handle(),
            address_of.requires((&self.spec_uv_rect_handle(),)),
        ensures
            address_of.ensures((&self.spec_uv_rect_handle(),), address),
    {
        let handle = self.uv_rect_handle();
        address_of(&handle)
    }

    /// The handle to the task's texture coordinates in the GPU value cache;
    /// an empty handle for a task that owns none.
    pub fn uv_rect_handle(&self) -> (handle: GpuCacheHandle)
        ensures
            handle == self.spec_uv_rect_handle(),
    {
        match self.kind {
            RenderTaskKind::Picture(ref info) => info.uv_rect_handle,
            RenderTaskKind::VerticalBlur(ref info) => info.uv_rect_handle,
            RenderTaskKind::HorizontalBlur(ref info) => info.uv_rect_handle,
            _ => GpuCacheHandle::new(),
        }
    }

    /// Whether the output of the task can be kept until the end of the
    /// frame: not if it already lives in the persistent store.
    pub open spec fn can_be_saved(self) -> bool {
        !(self.location is TextureCache)
    }

    /// Tells whether `mark_for_saving` accepts the task.
    pub fn is_saveable(&self) -> (b: bool)
        ensures
            b == self.can_be_saved(),
    {
        match self.location {
            RenderTaskLocation::TextureCache { .. } => false,
            _ => true,
        }
    }

    /// Marks the task for keeping its output alive until the end of the
    /// frame, unless it lives in the persistent store: such a task is left
    /// exactly as it is, and the answer is no.
    pub fn try_mark_for_saving(&mut self) -> (marked: bool)
        ensures
            marked == old(self).can_be_saved(),
            !marked ==> *final(self) == *old(self),
            marked ==> {
                &&& final(self).saved_index == Some(SavedTargetIndex::spec_pending())
                &&& final(self).location == old(self).location
                &&& final(self).children == old(self).children
                &&& final(self).kind == old(self).kind
                &&& final(self).clear_mode == old(self).clear_mode
            },
    {
        if self.is_saveable() {
            self.mark_for_saving();
            true
        } else {
            false
        }
    }

    /// Marks the task for keeping its output alive until the end of the
    /// frame. A task in the persistent store is not accepted.
    pub fn mark_for_saving(&mut self)
        requires
            old(self).can_be_saved(),
        ensures
            final(self).saved_index == Some(SavedTargetIndex::spec_pending()),
            final(self).location == old(self).location,
            final(self).children == old(self).children,
            final(self).kind == old(self).kind,
            final(self).clear_mode == old(self).clear_mode,
    {
        self.saved_index = Some(SavedTargetIndex::pending());
    }
}

} // verus!
