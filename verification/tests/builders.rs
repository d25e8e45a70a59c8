use render_task::keys::{ImageCacheKey, ImageKey, ImageRendering, ImageRequest};
use render_task::packing::ImageSource;
use render_task::scalar::Scalar;
use render_task::task::{
    render_task_sanity_check, BlitSource, ClearMode, FontRenderMode, RenderTask,
    RenderTaskAddress, RenderTaskId, RenderTaskKind, RenderTaskLocation,
};
use render_task::types::{
    BorderInstance, CacheTextureId, DevicePixelScale, DevicePoint, DeviceSize, DeviceVector2D,
    FrameBuilderConfig, FrameId, GpuCacheAddress, GpuCacheHandle, GpuCacheLocation, LayoutPoint,
    LayoutSize, LineOrientation, LineStyle, PictureIndex, RenderTargetIndex, RenderTargetKind,
    SavedTargetIndex, SpatialNodeIndex, UvRectKind,
};
use render_task::units::{DeviceIntPoint, DeviceIntRect, DeviceIntSideOffsets, DeviceIntSize};

fn image_source() -> BlitSource {
    BlitSource::Image {
        key: ImageCacheKey {
            request: ImageRequest {
                key: ImageKey { namespace: 1, id: 2 },
                rendering: ImageRendering::Auto,
                tile: None,
            },
            texel_rect: None,
        },
    }
}

fn zero_point() -> DevicePoint {
    DevicePoint { x: Scalar::zero(), y: Scalar::zero() }
}

fn picture_at(location: RenderTaskLocation, unclipped: DeviceSize) -> RenderTask {
    RenderTask::new_picture(
        location,
        unclipped,
        PictureIndex(0),
        DeviceIntPoint::new(-4, 12),
        Vec::new(),
        UvRectKind::Rect,
        SpatialNodeIndex(1),
        DevicePixelScale(Scalar::from_int(2)),
    )
}

#[test]
fn sanity_check_accepts_up_to_the_bound() {
    assert!(render_task_sanity_check(&DeviceIntSize::new(16000, 16000)));
    assert!(!render_task_sanity_check(&DeviceIntSize::new(16001, 1)));
    assert!(!render_task_sanity_check(&DeviceIntSize::new(1, 16001)));
}

#[test]
fn picture_merges_only_if_unclipped_size_fits() {
    let location = RenderTaskLocation::Dynamic(None, DeviceIntSize::new(64, 48));
    let fits = picture_at(location, DeviceSize::new(Scalar::from_int(64), Scalar::new(95, 2)));
    assert!(matches!(fits.kind, RenderTaskKind::Picture(p) if p.can_merge));
    let wider = picture_at(location, DeviceSize::new(Scalar::new(129, 2), Scalar::from_int(1)));
    assert!(matches!(wider.kind, RenderTaskKind::Picture(p) if !p.can_merge));
    assert_eq!(fits.target_kind(), RenderTargetKind::Color);
    assert!(fits.saved_index.is_none());
}

#[test]
fn fixed_location_reports_zero_origin_and_no_dynamic_size() {
    let rect = DeviceIntRect::new(DeviceIntPoint::new(30, 40), DeviceIntSize::new(800, 600));
    let task = picture_at(
        RenderTaskLocation::Fixed(rect),
        DeviceSize::new(Scalar::from_int(1), Scalar::from_int(1)),
    );
    assert_eq!(task.get_dynamic_size(), DeviceIntSize::zero());
    assert_eq!(task.get_target_rect(), (rect, RenderTargetIndex(0)));
    let record = task.write_task_data();
    let expected = [
        Scalar::from_int(0),
        Scalar::from_int(0),
        Scalar::from_int(800),
        Scalar::from_int(600),
        Scalar::from_int(0),
        Scalar::from_int(2),
        Scalar::from_int(-4),
        Scalar::from_int(12),
    ];
    assert_eq!(record.data, expected);
}

#[test]
fn persistent_location_uses_its_layer_as_target_index() {
    let rect = DeviceIntRect::new(DeviceIntPoint::new(3, 4), DeviceIntSize::new(5, 6));
    let location = RenderTaskLocation::TextureCache { texture: CacheTextureId(9), layer: 7, rect };
    let task = RenderTask::new_glyph(
        location,
        &DeviceIntPoint::new(1, 2),
        &zero_point(),
        FontRenderMode::Alpha,
        &DeviceVector2D { x: Scalar::zero(), y: Scalar::zero() },
    );
    assert_eq!(task.get_target_rect(), (rect, RenderTargetIndex(7)));
    assert_eq!(task.get_dynamic_size(), DeviceIntSize::new(5, 6));
    let record = task.write_task_data();
    let expected = [
        Scalar::from_int(3),
        Scalar::from_int(4),
        Scalar::from_int(5),
        Scalar::from_int(6),
        Scalar::from_int(7),
        Scalar::from_int(0),
        Scalar::from_int(1),
        Scalar::from_int(0),
    ];
    assert_eq!(record.data, expected);
    assert_eq!(task.target_kind(), RenderTargetKind::Color);
}

#[test]
fn persistent_task_cannot_be_marked_for_saving() {
    let rect = DeviceIntRect::new(DeviceIntPoint::new(3, 4), DeviceIntSize::new(5, 6));
    let location = RenderTaskLocation::TextureCache { texture: CacheTextureId(9), layer: 7, rect };
    let task = picture_at(location, DeviceSize::new(Scalar::from_int(1), Scalar::from_int(1)));
    assert!(!task.is_saveable());
    assert!(!task.location.is_dynamic());
    assert!(task.saved_index.is_none());
}

#[test]
fn dynamic_and_fixed_tasks_are_marked_pending() {
    let mut dynamic = RenderTask::new_blit(DeviceIntSize::new(4, 4), image_source());
    assert!(dynamic.is_saveable());
    assert!(dynamic.location.is_dynamic());
    dynamic.mark_for_saving();
    assert_eq!(dynamic.saved_index, Some(SavedTargetIndex(usize::MAX)));
    assert_eq!(SavedTargetIndex::pending(), SavedTargetIndex(usize::MAX));
    let rect = DeviceIntRect::new(DeviceIntPoint::origin(), DeviceIntSize::new(5, 6));
    let mut fixed = picture_at(
        RenderTaskLocation::Fixed(rect),
        DeviceSize::new(Scalar::from_int(1), Scalar::from_int(1)),
    );
    fixed.mark_for_saving();
    assert_eq!(fixed.saved_index, Some(SavedTargetIndex::pending()));
    fixed.prepare_for_render();
    assert_eq!(fixed.clear_mode, ClearMode::Transparent);
}

#[test]
fn blit_from_a_task_depends_on_it_and_padding_grows_the_output() {
    let source = RenderTaskId { index: 5, frame_id: FrameId::first() };
    let padding = DeviceIntSideOffsets::new(1, 2, 3, 4);
    let task = RenderTask::new_blit_with_padding(
        DeviceIntSize::new(10, 20),
        &padding,
        BlitSource::RenderTask { task_id: source },
    );
    assert_eq!(task.children, vec![source]);
    assert_eq!(task.get_dynamic_size(), DeviceIntSize::new(16, 24));
    assert_eq!(task.clear_mode, ClearMode::DontCare);
    assert!(matches!(task.kind, RenderTaskKind::Blit(b) if b.padding == padding));
    let plain = RenderTask::new_blit(DeviceIntSize::new(10, 20), image_source());
    assert!(plain.children.is_empty());
    assert_eq!(plain.clear_mode, ClearMode::DontCare);
    assert_eq!(plain.get_dynamic_size(), DeviceIntSize::new(10, 20));
    assert!(
        matches!(plain.kind, RenderTaskKind::Blit(b) if b.padding == DeviceIntSideOffsets::zero())
    );
    assert_eq!(plain.write_task_data().data, [Scalar::zero(); 8]);
}

#[test]
fn mask_region_clear_mode_follows_fast_clears() {
    let make = |fast: bool| {
        RenderTask::new_rounded_rect_mask(
            DeviceIntSize::new(8, 8),
            GpuCacheAddress { u: 1, v: 2 },
            LayoutPoint { x: Scalar::from_int(3), y: Scalar::from_int(4) },
            DevicePixelScale(Scalar::new(3, 2)),
            &FrameBuilderConfig { gpu_supports_fast_clears: fast },
        )
    };
    assert_eq!(make(true).clear_mode, ClearMode::One);
    assert_eq!(make(false).clear_mode, ClearMode::DontCare);
    assert_eq!(make(true).target_kind(), RenderTargetKind::Alpha);
    let record = make(true).write_task_data();
    assert_eq!(record.data[5], Scalar::new(3, 2));
    assert_eq!(record.data[6], Scalar::zero());
    assert_eq!(record.data[7], Scalar::zero());
}

#[test]
fn line_decoration_and_border_are_colour_leaves() {
    let line = RenderTask::new_line_decoration(
        DeviceIntSize::new(30, 4),
        LineStyle::Wavy,
        LineOrientation::Horizontal,
        Scalar::new(3, 2),
        LayoutSize { width: Scalar::from_int(30), height: Scalar::from_int(4) },
    );
    assert!(line.children.is_empty());
    assert_eq!(line.target_kind(), RenderTargetKind::Color);
    assert_eq!(line.clear_mode, ClearMode::Transparent);
    assert!(matches!(line.kind, RenderTaskKind::LineDecoration(l) if l.style == LineStyle::Wavy));
    let instance = BorderInstance {
        task_origin: zero_point(),
        local_rect: DeviceIntRect::zero(),
        flags: 3,
        widths: DeviceSize::new(Scalar::from_int(1), Scalar::from_int(1)),
        radius: DeviceSize::new(Scalar::from_int(0), Scalar::from_int(0)),
    };
    let border = RenderTask::new_border_segment(DeviceIntSize::new(12, 12), vec![instance]);
    assert!(matches!(&border.kind, RenderTaskKind::Border(b) if b.instances == vec![instance]));
    assert_eq!(border.target_kind(), RenderTargetKind::Color);
    assert_eq!(border.uv_rect_kind(), UvRectKind::Rect);
    assert!(!border.supports_texture_address());
}

#[test]
fn texture_address_is_what_the_value_cache_answers() {
    let location = RenderTaskLocation::Dynamic(None, DeviceIntSize::new(64, 48));
    let task = picture_at(location, DeviceSize::new(Scalar::from_int(1), Scalar::from_int(1)));
    assert!(task.supports_texture_address());
    let address = task.get_texture_address(|handle: &GpuCacheHandle| {
        assert_eq!(*handle, GpuCacheHandle::new());
        GpuCacheAddress { u: 11, v: 22 }
    });
    assert_eq!(address, GpuCacheAddress { u: 11, v: 22 });
}

#[test]
fn gpu_blocks_give_both_corners_and_keep_the_new_handle() {
    let location = RenderTaskLocation::Dynamic(
        Some((DeviceIntPoint::new(10, 20), RenderTargetIndex(3))),
        DeviceIntSize::new(64, 48),
    );
    let mut task = picture_at(location, DeviceSize::new(Scalar::from_int(1), Scalar::from_int(1)));
    let fresh = GpuCacheHandle { location: Some(GpuCacheLocation { block_index: 5, epoch: 1 }) };
    task.write_gpu_blocks(|handle: GpuCacheHandle, source: ImageSource| {
        assert_eq!(handle, GpuCacheHandle::new());
        assert_eq!(source.p0.x, Scalar::from_int(10));
        assert_eq!(source.p0.y, Scalar::from_int(20));
        assert_eq!(source.p1.x, Scalar::from_int(74));
        assert_eq!(source.p1.y, Scalar::from_int(68));
        assert_eq!(source.texture_layer, Scalar::from_int(3));
        assert_eq!(source.user_data, [Scalar::zero(); 3]);
        assert_eq!(source.uv_rect_kind, UvRectKind::Rect);
        fresh
    });
    assert!(matches!(task.kind, RenderTaskKind::Picture(p) if p.uv_rect_handle == fresh));
    let mut blit = RenderTask::new_blit(DeviceIntSize::new(4, 4), image_source());
    blit.write_gpu_blocks(|_handle: GpuCacheHandle, _source: ImageSource| {
        panic!("a blit has no texture coordinates to offer")
    });
    assert!(matches!(blit.kind, RenderTaskKind::Blit(_)));
}

#[test]
fn invalid_identifier_and_address() {
    let id = RenderTaskId::invalid();
    assert_eq!(id.index, u32::MAX);
    assert_eq!(id.frame_id, FrameId::invalid());
    assert_eq!(RenderTaskAddress(4), RenderTaskAddress(4));
}

#[test]
fn persistent_task_is_left_as_it_is_when_marking_is_tried() {
    let rect = DeviceIntRect::new(DeviceIntPoint::new(3, 4), DeviceIntSize::new(5, 6));
    let location = RenderTaskLocation::TextureCache { texture: CacheTextureId(9), layer: 7, rect };
    let mut task = picture_at(location, DeviceSize::new(Scalar::from_int(1), Scalar::from_int(1)));
    assert!(!task.try_mark_for_saving());
    assert!(task.saved_index.is_none());
    assert!(matches!(task.location, RenderTaskLocation::TextureCache { layer: 7, .. }));
    assert_eq!(task.clear_mode, ClearMode::Transparent);
    let mut dynamic = RenderTask::new_blit(DeviceIntSize::new(4, 4), image_source());
    assert!(dynamic.try_mark_for_saving());
    assert_eq!(dynamic.saved_index, Some(SavedTargetIndex::pending()));
}
