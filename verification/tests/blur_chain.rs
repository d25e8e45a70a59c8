use render_task::cache::to_cache_size;
use render_task::scalar::Scalar;
use render_task::task::{
    ClearMode, RenderTask, RenderTaskId, RenderTaskKind, RenderTaskLocation,
    MAX_BLUR_STD_DEVIATION, MIN_DOWNSCALING_RT_SIZE, RENDER_TASK_SIZE_SANITY_CHECK,
};
use render_task::tree::{RenderTaskTree, RenderTaskTreeCounters};
use render_task::types::{
    DevicePixelScale, DeviceSize, FrameBuilderConfig, FrameId, GpuCacheAddress, LayoutPoint,
    RenderTargetKind, UvRectKind,
};
use render_task::units::DeviceIntSize;

fn tree_with_source(width: i32, height: i32) -> (RenderTaskTree, RenderTaskId) {
    let mut tree = RenderTaskTree::new(FrameId::first(), &RenderTaskTreeCounters::new());
    let source = RenderTask::new_rounded_rect_mask(
        DeviceIntSize::new(width, height),
        GpuCacheAddress { u: 0, v: 0 },
        LayoutPoint { x: Scalar::zero(), y: Scalar::zero() },
        DevicePixelScale(Scalar::from_int(1)),
        &FrameBuilderConfig { gpu_supports_fast_clears: false },
    );
    let id = tree.add(source);
    (tree, id)
}

fn deviation(width: Scalar, height: Scalar) -> DeviceSize {
    DeviceSize::new(width, height)
}

fn size_of(task: &RenderTask) -> DeviceIntSize {
    match task.location {
        RenderTaskLocation::Dynamic(None, size) => size,
        _ => panic!("a fresh task has a dynamic location"),
    }
}

#[test]
fn constants_of_the_chain() {
    assert_eq!(MAX_BLUR_STD_DEVIATION, 4);
    assert_eq!(MIN_DOWNSCALING_RT_SIZE, 8);
    assert_eq!(RENDER_TASK_SIZE_SANITY_CHECK, 16000);
}

#[test]
fn small_deviation_gives_two_blurs_and_no_scaling() {
    let (mut tree, src) = tree_with_source(100, 60);
    let four = Scalar::from_int(4);
    let task = RenderTask::new_blur(
        deviation(four, four),
        src,
        &mut tree,
        RenderTargetKind::Color,
        ClearMode::Transparent,
    );
    assert_eq!(tree.tasks.len(), 2);
    let vertical = &tree.tasks[1];
    assert!(matches!(vertical.kind, RenderTaskKind::VerticalBlur(_)));
    assert_eq!(vertical.children, vec![src]);
    assert_eq!(size_of(vertical), DeviceIntSize::new(100, 60));
    assert_eq!(vertical.clear_mode, ClearMode::Transparent);
    match task.kind {
        RenderTaskKind::HorizontalBlur(info) => {
            assert_eq!(info.blur_std_deviation, Scalar::new(4, 1));
            assert_eq!(info.target_kind, RenderTargetKind::Color);
            assert_eq!(info.uv_rect_kind, UvRectKind::Rect);
        },
        _ => panic!("the chain ends with the horizontal blur"),
    }
    assert_eq!(task.children, vec![RenderTaskId { index: 1, frame_id: FrameId::first() }]);
    assert_eq!(size_of(&task), DeviceIntSize::new(100, 60));
}

#[test]
fn one_small_axis_is_enough_to_skip_scaling() {
    let (mut tree, src) = tree_with_source(100, 60);
    let task = RenderTask::new_blur(
        deviation(Scalar::from_int(50), Scalar::from_int(3)),
        src,
        &mut tree,
        RenderTargetKind::Alpha,
        ClearMode::Zero,
    );
    assert_eq!(tree.tasks.len(), 2);
    match (&tree.tasks[1].kind, &task.kind) {
        (RenderTaskKind::VerticalBlur(v), RenderTaskKind::HorizontalBlur(h)) => {
            assert_eq!(v.blur_std_deviation, Scalar::from_int(3));
            assert_eq!(h.blur_std_deviation, Scalar::from_int(50));
        },
        _ => panic!("vertical blur first, horizontal blur last"),
    }
}

#[test]
fn deviation_twenty_is_halved_three_times_on_forty_pixels() {
    let (mut tree, src) = tree_with_source(40, 40);
    let twenty = Scalar::from_int(20);
    let task = RenderTask::new_blur(
        deviation(twenty, twenty),
        src,
        &mut tree,
        RenderTargetKind::Alpha,
        ClearMode::Zero,
    );
    assert_eq!(tree.tasks.len(), 5);
    let sizes: Vec<i32> = (1..4).map(|i| size_of(&tree.tasks[i]).width).collect();
    assert_eq!(sizes, vec![20, 10, 5]);
    for i in 1..4 {
        let scaling = &tree.tasks[i];
        assert!(matches!(scaling.kind, RenderTaskKind::Scaling(_)));
        assert_eq!(scaling.clear_mode, ClearMode::DontCare);
        assert_eq!(scaling.children.len(), 1);
        assert_eq!(scaling.children[0].index as usize, i - 1);
        assert_eq!(scaling.target_kind(), RenderTargetKind::Alpha);
    }
    let vertical = &tree.tasks[4];
    assert_eq!(vertical.children[0].index, 3);
    assert_eq!(size_of(vertical), DeviceIntSize::new(5, 5));
    match (&vertical.kind, &task.kind) {
        (RenderTaskKind::VerticalBlur(v), RenderTaskKind::HorizontalBlur(h)) => {
            assert_eq!(v.blur_std_deviation, Scalar::new(20, 8));
            assert_eq!(h.blur_std_deviation, Scalar::new(20, 8));
        },
        _ => panic!("vertical blur first, horizontal blur last"),
    }
    assert_eq!(task.children[0].index, 4);
    assert_eq!(size_of(&task), DeviceIntSize::new(5, 5));
}

#[test]
fn scaling_stops_at_the_floor() {
    let (mut tree, src) = tree_with_source(16, 16);
    let twenty = Scalar::from_int(20);
    let task = RenderTask::new_blur(
        deviation(twenty, twenty),
        src,
        &mut tree,
        RenderTargetKind::Alpha,
        ClearMode::Zero,
    );
    // 16 -> 8 -> 4: the third halving would start under eight pixels.
    assert_eq!(tree.tasks.len(), 4);
    assert_eq!(size_of(&tree.tasks[1]), DeviceIntSize::new(8, 8));
    assert_eq!(size_of(&tree.tasks[2]), DeviceIntSize::new(4, 4));
    match task.kind {
        RenderTaskKind::HorizontalBlur(h) => {
            assert_eq!(h.blur_std_deviation, Scalar::new(20, 4));
            assert!(h.blur_std_deviation.exceeds(4));
        },
        _ => panic!("the chain ends with the horizontal blur"),
    }
}

#[test]
fn odd_sizes_are_rounded_up_at_every_step() {
    let (mut tree, src) = tree_with_source(37, 101);
    let nine = Scalar::from_int(9);
    let _ = RenderTask::new_blur(
        deviation(nine, nine),
        src,
        &mut tree,
        RenderTargetKind::Color,
        ClearMode::Transparent,
    );
    // 9 -> 4.5 -> 2.25
    assert_eq!(tree.tasks.len(), 4);
    assert_eq!(size_of(&tree.tasks[1]), DeviceIntSize::new(19, 51));
    assert_eq!(size_of(&tree.tasks[2]), DeviceIntSize::new(10, 26));
    assert_eq!(size_of(&tree.tasks[3]), DeviceIntSize::new(10, 26));
}

#[test]
fn source_size_is_grown_to_a_multiple_of_the_last_scale() {
    let nine = Scalar::from_int(9);
    let grown = RenderTask::adjusted_blur_source_size(
        DeviceIntSize::new(37, 101),
        deviation(nine, nine),
    );
    assert_eq!(grown, DeviceIntSize::new(40, 104));
    let three = Scalar::from_int(3);
    let same = RenderTask::adjusted_blur_source_size(
        DeviceIntSize::new(37, 101),
        deviation(three, three),
    );
    assert_eq!(same, DeviceIntSize::new(37, 101));
    let small = RenderTask::adjusted_blur_source_size(
        DeviceIntSize::new(7, 101),
        deviation(nine, nine),
    );
    assert_eq!(small, DeviceIntSize::new(7, 101));
}

#[test]
fn new_scaling_depends_on_its_source() {
    let (mut tree, src) = tree_with_source(64, 64);
    let task = RenderTask::new_scaling(
        src,
        &mut tree,
        RenderTargetKind::Color,
        DeviceIntSize::new(32, 32),
    );
    assert_eq!(tree.tasks.len(), 1);
    assert_eq!(task.children, vec![src]);
    assert_eq!(task.clear_mode, ClearMode::DontCare);
    assert_eq!(task.target_kind(), RenderTargetKind::Color);
    assert_eq!(task.get_dynamic_size(), DeviceIntSize::new(32, 32));
    assert_eq!(task.uv_rect_kind(), UvRectKind::Rect);
}

#[test]
fn scalar_compares_halves_and_rounds_exactly() {
    let nine_halves = Scalar::new(9, 2);
    assert!(nine_halves.exceeds(4));
    assert!(!nine_halves.exceeds(5));
    assert!(nine_halves.at_most(5));
    assert!(!Scalar::from_int(4).exceeds(4));
    assert_eq!(nine_halves.halved(), Scalar::new(9, 4));
    assert!(!nine_halves.halved().exceeds(4));
    assert_eq!(nine_halves.rounded(), 5);
    assert_eq!(Scalar::new(-9, 2).rounded(), -5);
    assert_eq!(Scalar::new(7, 4).rounded(), 2);
    assert_eq!(Scalar::new(5, 4).rounded(), 1);
    assert_eq!(Scalar::new(i128::MAX, 1).rounded(), i32::MAX);
    assert_eq!(Scalar::new(i128::MIN, 1).rounded(), i32::MIN);
    assert_eq!(Scalar::from_usize(7), Scalar::new(7, 1));
    assert_eq!(Scalar::zero(), Scalar::from_int(0));
}

#[test]
fn cache_size_is_rounded_and_at_least_one() {
    let size = to_cache_size(DeviceSize::new(Scalar::new(81, 2), Scalar::new(1, 4)));
    assert_eq!(size, DeviceIntSize::new(41, 1));
    let negative = to_cache_size(DeviceSize::new(Scalar::from_int(-3), Scalar::new(3, 2)));
    assert_eq!(negative, DeviceIntSize::new(1, 2));
}

#[test]
fn grown_source_size_is_refused_where_it_cannot_be_counted() {
    let nine = Scalar::from_int(9);
    let grown = RenderTask::try_adjusted_blur_source_size(
        DeviceIntSize::new(37, 101),
        deviation(nine, nine),
    );
    assert_eq!(grown, Some(DeviceIntSize::new(40, 104)));
    let huge = Scalar::new(1 << 40, 1);
    let too_wide = RenderTask::try_adjusted_blur_source_size(
        DeviceIntSize::new(i32::MAX, i32::MAX),
        deviation(huge, huge),
    );
    assert_eq!(too_wide, None);
    let fine = Scalar::new(1 << 40, 1 << 33);
    let too_fine = RenderTask::try_adjusted_blur_source_size(
        DeviceIntSize::new(37, 101),
        deviation(fine, fine),
    );
    assert_eq!(too_fine, None);
    let unscaled = RenderTask::try_adjusted_blur_source_size(
        DeviceIntSize::new(i32::MAX, 3),
        deviation(huge, huge),
    );
    assert_eq!(unscaled, Some(DeviceIntSize::new(i32::MAX, 3)));
}
