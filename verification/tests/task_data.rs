use render_task::scalar::Scalar;
use render_task::task::{
    ClearMode, PictureTask, RenderTask, RenderTaskKind, RenderTaskLocation,
};
use render_task::types::{
    DevicePixelScale, DeviceSize, PictureIndex, RenderTargetIndex, SpatialNodeIndex, UvRectKind,
};
use render_task::units::{DeviceIntPoint, DeviceIntRect, DeviceIntSize};

fn picture(location: RenderTaskLocation) -> RenderTask {
    RenderTask::new_picture(
        location,
        DeviceSize::new(Scalar::from_int(10), Scalar::from_int(10)),
        PictureIndex(3),
        DeviceIntPoint::new(7, 9),
        Vec::new(),
        UvRectKind::Rect,
        SpatialNodeIndex(0),
        DevicePixelScale(Scalar::new(3, 2)),
    )
}

#[test]
fn picture_record_lists_rect_index_scale_and_origin() {
    let location = RenderTaskLocation::Dynamic(
        Some((DeviceIntPoint::new(16, 32), RenderTargetIndex(2))),
        DeviceIntSize::new(64, 48),
    );
    let task = picture(location);
    let record = task.write_task_data();
    let expected = [
        Scalar::from_int(16),
        Scalar::from_int(32),
        Scalar::from_int(64),
        Scalar::from_int(48),
        Scalar::from_int(2),
        Scalar::new(3, 2),
        Scalar::from_int(7),
        Scalar::from_int(9),
    ];
    assert_eq!(record.data, expected);
}

#[test]
fn unplaced_dynamic_task_has_zero_rect_in_target_zero() {
    let task = picture(RenderTaskLocation::Dynamic(None, DeviceIntSize::new(64, 48)));
    let (rect, index) = task.get_target_rect();
    assert_eq!(rect, DeviceIntRect::zero());
    assert_eq!(index, RenderTargetIndex(0));
    assert_eq!(task.clear_mode, ClearMode::Transparent);
    assert!(matches!(task.kind, RenderTaskKind::Picture(PictureTask { can_merge: true, .. })));
}
