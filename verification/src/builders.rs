//! Constructors of task nodes, one per kind of operation.

use vstd::prelude::*;
use crate::scalar::Scalar;
use crate::task::{
    valid_task_size, within_sanity_bound, BlitSource, BlitTask, BorderTask, ClearMode,
    ClipRegionTask, FontRenderMode, GlyphTask, LineDecorationTask, PictureTask, RenderTask,
    RenderTaskId, RenderTaskKind, RenderTaskLocation, RENDER_TASK_SIZE_SANITY_CHECK,
};
use crate::types::{
    BorderInstance, DevicePixelScale, DevicePoint, DeviceSize, DeviceVector2D,
    FrameBuilderConfig, GpuCacheAddress, GpuCacheHandle, LayoutPoint, LayoutSize,
    LineOrientation, LineStyle, PictureIndex, SpatialNodeIndex, UvRectKind,
};
use crate::units::{DeviceIntPoint, DeviceIntSideOffsets, DeviceIntSize};

verus! {

/// The clear policy of a mask drawn on its own: one where clearing is cheap,
/// anything otherwise.
pub open spec fn mask_clear_mode(fast_clears: bool) -> ClearMode {
    if fast_clears {
        ClearMode::One
    } else {
        ClearMode::DontCare
    }
}

impl RenderTask {
    /// A task of the given kind whose output of `size` pixels is placed by
    /// the atlas allocator. It is not placed yet and not marked for saving.
    pub fn with_dynamic_location(
        size: DeviceIntSize,
        children: Vec<RenderTaskId>,
        kind: RenderTaskKind,
        clear_mode: ClearMode,
    ) -> (task: Self)
        requires
            valid_task_size(size),
        ensures
            task.location matches RenderTaskLocation::Dynamic(None, s) && s == size,
            task.children == children,
            task.kind == kind,
            task.clear_mode == clear_mode,
            task.saved_index is None,
    {
        RenderTask {
            location: RenderTaskLocation::Dynamic(None, size),
            children,
            kind,
            clear_mode,
            saved_index: None,
        }
    }

    /// A task that draws picture `pic_index` at `location`, cleared to
    /// transparent. The picture can be merged into its parent's target when
    /// its unclipped size is no larger than the location in either dimension.
    pub fn new_picture(
        location: RenderTaskLocation,
        unclipped_size: DeviceSize,
        pic_index: PictureIndex,
        content_origin: DeviceIntPoint,
        children: Vec<RenderTaskId>,
        uv_rect_kind: UvRectKind,
        root_spatial_node_index: SpatialNodeIndex,
        device_pixel_scale: DevicePixelScale,
    ) -> (task: Self)
        requires
            within_sanity_bound(location.size()),
            location is Dynamic ==> valid_task_size(location.size()),
        ensures
            task.location == location,
            task.children == children,
            task.clear_mode == ClearMode::Transparent,
            task.saved_index is None,
            task.kind == RenderTaskKind::Picture(
                PictureTask {
                    pic_index,
                    can_merge: unclipped_size.width.le_int(location.size().width as int)
                        && unclipped_size.height.le_int(location.size().height as int),
                    content_origin,
                    uv_rect_handle: GpuCacheHandle { location: None },
                    root_spatial_node_index,
                    uv_rect_kind,
                    device_pixel_scale,
                },
            ),
    {
        let size = match location {
            RenderTaskLocation::Dynamic(_, size) => size,
            RenderTaskLocation::Fixed(rect) => rect.size,
            RenderTaskLocation::TextureCache { rect, .. } => rect.size,
        };
        let can_merge = unclipped_size.width.at_most(size.width) && unclipped_size.height.at_most(
            size.height,
        );
        RenderTask {
            location,
            children,
            kind: RenderTaskKind::Picture(
                PictureTask {
                    pic_index,
                    content_origin,
                    can_merge,
                    uv_rect_handle: GpuCacheHandle::new(),
                    uv_rect_kind,
                    root_spatial_node_index,
                    device_pixel_scale,
                },
            ),
            clear_mode: ClearMode::Transparent,
            saved_index: None,
        }
    }

    /// A task that copies `size` pixels from `source`, without padding. A
    /// copy overwrites its whole output, so the output is not cleared.
    pub fn new_blit(size: DeviceIntSize, source: BlitSource) -> (task: Self)
        requires
            valid_task_size(size),
        ensures
            task.location matches RenderTaskLocation::Dynamic(None, s) && s == size,
            task.children@ == blit_children(source),
            task.kind == RenderTaskKind::Blit(
                BlitTask {
                    source,
                    padding: DeviceIntSideOffsets { top: 0, right: 0, bottom: 0, left: 0 },
                },
            ),
            task.clear_mode == ClearMode::DontCare,
            task.saved_index is None,
    {
        let padding = DeviceIntSideOffsets::zero();
        RenderTask::new_blit_with_padding(size, &padding, source)
    }

    /// A task that copies `size` pixels from `source` into an output that is
    /// larger by `padding` on each side. A source that is a task becomes the
    /// one dependency, so that it is drawn in an earlier pass. The output is
    /// not cleared before the copy.
    pub fn new_blit_with_padding(
        size: DeviceIntSize,
        padding: &DeviceIntSideOffsets,
        source: BlitSource,
    ) -> (task: Self)
        requires
            0 < size.width + padding.spec_horizontal() <= RENDER_TASK_SIZE_SANITY_CHECK,
            0 < size.height + padding.spec_vertical() <= RENDER_TASK_SIZE_SANITY_CHECK,
        ensures
            task.location matches RenderTaskLocation::Dynamic(None, s) && s.width == size.width
                + padding.spec_horizontal() && s.height == size.height + padding.spec_vertical(),
            task.children@ == blit_children(source),
            task.kind == RenderTaskKind::Blit(BlitTask { source, padding: *padding }),
            task.clear_mode == ClearMode::DontCare,
            task.saved_index is None,
    {
        let mut children: Vec<RenderTaskId> = Vec::new();
        if let BlitSource::RenderTask { task_id } = source {
            children.push(task_id);
        }
        assert(children@ =~= blit_children(source));
        let width: i64 = size.width as i64 + padding.left as i64 + padding.right as i64;
        let height: i64 = size.height as i64 + padding.top as i64 + padding.bottom as i64;
        let padded = DeviceIntSize { width: width as i32, height: height as i32 };
        RenderTask::with_dynamic_location(
            padded,
            children,
            RenderTaskKind::Blit(BlitTask { source, padding: *padding }),
            ClearMode::DontCare,
        )
    }

    /// A task that draws a line decoration of `size` pixels.
    pub fn new_line_decoration(
        size: DeviceIntSize,
        style: LineStyle,
        orientation: LineOrientation,
        wavy_line_thickness: Scalar,
        local_size: LayoutSize,
    ) -> (task: Self)
        requires
            valid_task_size(size),
        ensures
            task.location matches RenderTaskLocation::Dynamic(None, s) && s == size,
            task.children@ == Seq::<RenderTaskId>::empty(),
            task.kind == RenderTaskKind::LineDecoration(
                LineDecorationTask { wavy_line_thickness, style, orientation, local_size },
            ),
            task.clear_mode == ClearMode::Transparent,
            task.saved_index is None,
    {
        RenderTask::with_dynamic_location(
            size,
            Vec::new(),
            RenderTaskKind::LineDecoration(
                LineDecorationTask { style, orientation, wavy_line_thickness, local_size },
            ),
            ClearMode::Transparent,
        )
    }

    /// A task that rasterises one rounded-rectangle clip into `size` pixels.
    pub fn new_rounded_rect_mask(
        size: DeviceIntSize,
        clip_data_address: GpuCacheAddress,
        local_pos: LayoutPoint,
        device_pixel_scale: DevicePixelScale,
        fb_config: &FrameBuilderConfig,
    ) -> (task: Self)
        requires
            valid_task_size(size),
        ensures
            task.location matches RenderTaskLocation::Dynamic(None, s) && s == size,
            task.children@ == Seq::<RenderTaskId>::empty(),
            task.kind == RenderTaskKind::ClipRegion(
                ClipRegionTask { clip_data_address, local_pos, device_pixel_scale },
            ),
            task.clear_mode == mask_clear_mode(fb_config.gpu_supports_fast_clears),
            task.saved_index is None,
    {
        let clear_mode = if fb_config.gpu_supports_fast_clears {
            ClearMode::One
        } else {
            ClearMode::DontCare
        };
        RenderTask::with_dynamic_location(
            size,
            Vec::new(),
            RenderTaskKind::ClipRegion(
                ClipRegionTask { clip_data_address, local_pos, device_pixel_scale },
            ),
            clear_mode,
        )
    }

    /// A task that draws the given border segments into `size` pixels.
    pub fn new_border_segment(size: DeviceIntSize, instances: Vec<BorderInstance>) -> (task: Self)
        requires
            valid_task_size(size),
        ensures
            task.location matches RenderTaskLocation::Dynamic(None, s) && s == size,
            task.children@ == Seq::<RenderTaskId>::empty(),
            task.kind == RenderTaskKind::Border(BorderTask { instances }),
            task.clear_mode == ClearMode::Transparent,
            task.saved_index is None,
    {
        RenderTask::with_dynamic_location(
            size,
            Vec::new(),
            RenderTaskKind::Border(BorderTask { instances }),
            ClearMode::Transparent,
        )
    }

    /// A task that rasterises a glyph at `location`.
    pub fn new_glyph(
        location: RenderTaskLocation,
        origin: &DeviceIntPoint,
        subpixel_offset: &DevicePoint,
        render_mode: FontRenderMode,
        embolden_amount: &DeviceVector2D,
    ) -> (task: Self)
        ensures
            task.location == location,
            task.children@ == Seq::<RenderTaskId>::empty(),
            task.kind == RenderTaskKind::Glyph(
                GlyphTask {
                    origin: *origin,
                    subpixel_offset: *subpixel_offset,
                    render_mode,
                    embolden_amount: *embolden_amount,
                },
            ),
            task.clear_mode == ClearMode::Transparent,
            task.saved_index is None,
    {
        RenderTask {
            children: Vec::new(),
            location,
            kind: RenderTaskKind::Glyph(
                GlyphTask {
                    origin: *origin,
                    subpixel_offset: *subpixel_offset,
                    render_mode,
                    embolden_amount: *embolden_amount,
                },
            ),
            clear_mode: ClearMode::Transparent,
            saved_index: None,
        }
    }
}

/// The dependencies of a blit: its source where that is a task, none
/// otherwise.
pub open spec fn blit_children(source: BlitSource) -> Seq<RenderTaskId> {
    match source {
        BlitSource::RenderTask { task_id } => seq![task_id],
        BlitSource::Image { .. } => Seq::empty(),
    }
}

} // verus!
