//! Blur chains: a source is scaled down by halves until its blur deviation
//! is small enough, then blurred vertically and horizontally.

use vstd::prelude::*;
use vstd::arithmetic::power2::{lemma_pow2_pos, lemma_pow2_unfold, pow2};
use crate::scalar::Scalar;
use crate::task::{
    valid_task_size, BlurTask, ClearMode, RenderTask, RenderTaskId, RenderTaskKind,
    RenderTaskLocation, ScalingTask, MAX_BLUR_STD_DEVIATION, MIN_DOWNSCALING_RT_SIZE,
};
use crate::tree::RenderTaskTree;
use crate::types::{DeviceSize, FrameId, GpuCacheHandle, RenderTargetKind};
use crate::units::DeviceIntSize;

verus! {

/// `a / b` rounded up, for positive `b`.
pub open spec fn ceil_div(a: int, b: int) -> int {
    (a + b - 1) / b
}

/// `size` scaled down by `scale`, each dimension rounded up.
pub open spec fn scaled_down(size: DeviceIntSize, scale: int) -> DeviceIntSize {
    DeviceIntSize {
        width: ceil_div(size.width as int, scale) as i32,
        height: ceil_div(size.height as int, scale) as i32,
    }
}

/// Whether a source of `size` pixels with deviation `std_dev`, already scaled
/// down by `scale`, is scaled down once more: both deviations still exceed
/// the ceiling and neither dimension has fallen under the floor.
pub open spec fn downscale_continues(std_dev: DeviceSize, size: DeviceIntSize, scale: int) -> bool {
    &&& std_dev.width.gt_int(MAX_BLUR_STD_DEVIATION * scale)
    &&& std_dev.height.gt_int(MAX_BLUR_STD_DEVIATION * scale)
    &&& ceil_div(size.width as int, scale) >= MIN_DOWNSCALING_RT_SIZE
    &&& ceil_div(size.height as int, scale) >= MIN_DOWNSCALING_RT_SIZE
}

/// How many more times a source already scaled down by `scale` is halved.
pub open spec fn downscale_steps(std_dev: DeviceSize, size: DeviceIntSize, scale: int) -> nat
    decreases size.width - scale,
    when scale >= 1
{
    if downscale_continues(std_dev, size, scale) {
        proof {
            lemma_floor_bounds_scale(size.width as int, scale);
        }
        1 + downscale_steps(std_dev, size, 2 * scale)
    } else {
        0
    }
}

/// `std_dev` divided by `scale`.
pub open spec fn scaled_deviation(std_dev: Scalar, scale: int) -> Scalar {
    Scalar { numer: std_dev.numer, denom: (std_dev.denom * scale) as u64 }
}

/// A dimension that is at least the floor after scaling is more than seven
/// times the scale.
pub proof fn lemma_floor_bounds_scale(a: int, scale: int)
    requires
        scale >= 1,
        ceil_div(a, scale) >= MIN_DOWNSCALING_RT_SIZE,
    ensures
        a > 7 * scale,
{
    assert(a > 7 * scale) by (nonlinear_arith)
        requires
            scale >= 1,
            (a + scale - 1) / scale >= 8,
    {
        assert(((a + scale - 1) / scale) * scale <= a + scale - 1);
    }
}

/// A source no wider than `7 * scale * 2^k` pixels is halved at most `k`
/// more times.
pub proof fn lemma_downscale_steps_bound(
    std_dev: DeviceSize,
    size: DeviceIntSize,
    scale: int,
    k: nat,
)
    requires
        scale >= 1,
        size.width <= 7 * scale * pow2(k),
    ensures
        downscale_steps(std_dev, size, scale) <= k,
    decreases k,
{
    if downscale_continues(std_dev, size, scale) {
        lemma_floor_bounds_scale(size.width as int, scale);
        if k == 0 {
            vstd::arithmetic::power2::lemma2_to64();
        } else {
            lemma_pow2_unfold(k);
            assert(7 * scale * pow2(k) == 7 * (2 * scale) * pow2((k - 1) as nat))
                by (nonlinear_arith)
                requires
                    pow2(k) == 2 * pow2((k - 1) as nat),
            ;
            lemma_downscale_steps_bound(std_dev, size, 2 * scale, (k - 1) as nat);
        }
    }
}

/// A source within the sanity bound is halved at most twelve times.
pub proof fn lemma_downscale_steps_of_valid_size(std_dev: DeviceSize, size: DeviceIntSize)
    requires
        valid_task_size(size),
    ensures
        downscale_steps(std_dev, size, 1) <= 12,
{
    vstd::arithmetic::power2::lemma2_to64();
    lemma_downscale_steps_bound(std_dev, size, 1, 12);
}

/// Scaling a positive dimension down gives a positive dimension that is no
/// larger.
proof fn lemma_ceil_div_range(a: int, scale: int)
    requires
        scale >= 1,
        a >= 1,
    ensures
        1 <= ceil_div(a, scale) <= a,
{
    assert(1 <= (a + scale - 1) / scale <= a) by (nonlinear_arith)
        requires
            scale >= 1,
            a >= 1,
    {
        assert((a + scale - 1) >= scale);
        assert((a + scale - 1) / scale >= 1);
        assert(a * scale >= a + scale - 1);
        assert((a * scale) / scale == a);
    }
}

/// Computes `a / b` rounded up.
fn ceil_div_exec(a: i32, b: i32) -> (q: i32)
    requires
        a >= 1,
        b >= 1,
    ensures
        q == ceil_div(a as int, b as int),
        1 <= q <= a,
{
    proof {
        lemma_ceil_div_range(a as int, b as int);
    }
    let q: i64 = (a as i64 + b as i64 - 1) / (b as i64);
    q as i32
}

impl RenderTask {
    /// The source size grown to a multiple of the scale that a blur chain
    /// with deviation `std_dev` ends at, so that every halving samples whole
    /// pixels.
    pub open spec fn spec_adjusted_blur_source_size(
        original_size: DeviceIntSize,
        std_dev: DeviceSize,
    ) -> (int, int) {
        let scale = pow2(downscale_steps(std_dev, original_size, 1)) as int;
        (
            ceil_div(original_size.width as int, scale) * scale,
            ceil_div(original_size.height as int, scale) * scale,
        )
    }

    /// Grows `original_size` so that a blur chain with deviation `std_dev`
    /// halves whole pixels at every step: each dimension is rounded up to a
    /// multiple of the scale the chain ends at.
    pub fn adjusted_blur_source_size(original_size: DeviceIntSize, std_dev: DeviceSize) -> (size:
        DeviceIntSize)
        requires
            std_dev.width.denom <= u32::MAX,
            std_dev.height.denom <= u32::MAX,
            Self::spec_adjusted_blur_source_size(original_size, std_dev).0 <= i32::MAX,
            Self::spec_adjusted_blur_source_size(original_size, std_dev).1 <= i32::MAX,
        ensures
            size.width == Self::spec_adjusted_blur_source_size(original_size, std_dev).0,
            size.height == Self::spec_adjusted_blur_source_size(original_size, std_dev).1,
    {
        let (width, height) = Self::adjusted_size_wide(original_size, std_dev);
        DeviceIntSize::new(width as i32, height as i32)
    }

    /// Grows `original_size` as `adjusted_blur_source_size` does, where the
    /// deviation can be halved exactly and the grown size can be counted in
    /// 32 bits; answers nothing otherwise.
    pub fn try_adjusted_blur_source_size(original_size: DeviceIntSize, std_dev: DeviceSize) -> (size:
        Option<DeviceIntSize>)
        ensures
            size is Some <==> std_dev.width.denom <= u32::MAX && std_dev.height.denom <= u32::MAX
                && Self::spec_adjusted_blur_source_size(original_size, std_dev).0 <= i32::MAX
                && Self::spec_adjusted_blur_source_size(original_size, std_dev).1 <= i32::MAX,
            size matches Some(s) ==> s.width == Self::spec_adjusted_blur_source_size(
                original_size,
                std_dev,
            ).0 && s.height == Self::spec_adjusted_blur_source_size(original_size, std_dev).1,
    {
        if std_dev.width.denom > 0xffff_ffff || std_dev.height.denom > 0xffff_ffff {
            return None;
        }
        let (width, height) = Self::adjusted_size_wide(original_size, std_dev);
        if width > 0x7fff_ffff || height > 0x7fff_ffff {
            None
        } else {
            Some(DeviceIntSize::new(width as i32, height as i32))
        }
    }

    /// The grown size of `adjusted_blur_source_size`, counted in 64 bits.
    fn adjusted_size_wide(original_size: DeviceIntSize, std_dev: DeviceSize) -> (size: (i64, i64))
        requires
            std_dev.width.denom <= u32::MAX,
            std_dev.height.denom <= u32::MAX,
        ensures
            size.0 == Self::spec_adjusted_blur_source_size(original_size, std_dev).0,
            size.1 == Self::spec_adjusted_blur_source_size(original_size, std_dev).1,
            size.0 >= original_size.width,
            size.1 >= original_size.height,
    {
        let mut std_width = std_dev.width;
        let mut std_height = std_dev.height;
        let mut adjusted_size = original_size;
        let mut scale_factor: i32 = 1;
        let ghost mut steps: nat = 0;
        let ghost total = downscale_steps(std_dev, original_size, 1);
        proof {
            vstd::arithmetic::power2::lemma2_to64();
            assert(ceil_div(original_size.width as int, 1) == original_size.width);
            assert(ceil_div(original_size.height as int, 1) == original_size.height);
        }
        loop
            invariant
                std_dev.width.denom <= u32::MAX,
                std_dev.height.denom <= u32::MAX,
                total == downscale_steps(std_dev, original_size, 1),
                1 <= scale_factor,
                scale_factor == 1 || 7 * (scale_factor / 2) < original_size.width,
                scale_factor == 1 || 7 * (scale_factor / 2) < original_size.height,
                scale_factor == pow2(steps),
                steps + downscale_steps(std_dev, original_size, scale_factor as int) == total,
                std_width == scaled_deviation(std_dev.width, scale_factor as int),
                std_height == scaled_deviation(std_dev.height, scale_factor as int),
                adjusted_size.width == ceil_div(original_size.width as int, scale_factor as int),
                adjusted_size.height == ceil_div(original_size.height as int, scale_factor as int),
            ensures
                !downscale_continues(std_dev, original_size, scale_factor as int),
            decreases i32::MAX - scale_factor,
        {
            let above_ceiling = std_width.exceeds(MAX_BLUR_STD_DEVIATION) && std_height.exceeds(
                MAX_BLUR_STD_DEVIATION,
            );
            proof {
                lemma_scaled_gt(std_dev.width, scale_factor as int);
                lemma_scaled_gt(std_dev.height, scale_factor as int);
            }
            if !above_ceiling || adjusted_size.width < MIN_DOWNSCALING_RT_SIZE
                || adjusted_size.height < MIN_DOWNSCALING_RT_SIZE {
                break ;
            }
            proof {
                lemma_floor_bounds_scale(original_size.width as int, scale_factor as int);
                lemma_floor_bounds_scale(original_size.height as int, scale_factor as int);
                lemma_pow2_unfold(steps + 1);
                lemma_mul_assoc_2(std_dev.width.denom as int, scale_factor as int);
                lemma_mul_assoc_2(std_dev.height.denom as int, scale_factor as int);
                lemma_mul_bound(std_dev.width.denom as int, 2 * scale_factor);
                lemma_mul_bound(std_dev.height.denom as int, 2 * scale_factor);
                steps = steps + 1;
            }
            std_width = std_width.halved();
            std_height = std_height.halved();
            scale_factor = scale_factor * 2;
            adjusted_size = DeviceIntSize::new(
                ceil_div_exec(original_size.width, scale_factor),
                ceil_div_exec(original_size.height, scale_factor),
            );
        }
        proof {
            lemma_product_fits(adjusted_size.width as int, scale_factor as int);
            lemma_product_fits(adjusted_size.height as int, scale_factor as int);
        }
        let width: i64 = adjusted_size.width as i64 * scale_factor as i64;
        let height: i64 = adjusted_size.height as i64 * scale_factor as i64;
        proof {
            lemma_round_up_at_least(original_size.width as int, scale_factor as int);
            lemma_round_up_at_least(original_size.height as int, scale_factor as int);
        }
        (width, height)
    }


    /// A task that scales the output of `src_task_id` down to `target_size`
    /// pixels. The source is its one dependency; it overwrites its whole
    /// output, so the clear policy is `DontCare`.
    pub fn new_scaling(
        src_task_id: RenderTaskId,
        render_tasks: &mut RenderTaskTree,
        target_kind: RenderTargetKind,
        target_size: DeviceIntSize,
    ) -> (task: Self)
        requires
            old(render_tasks).contains(src_task_id),
            !(old(render_tasks).tasks[src_task_id.index as int].kind is CacheMask),
            valid_task_size(target_size),
        ensures
            *final(render_tasks) == *old(render_tasks),
            task@ == scaling_task(
                src_task_id,
                old(render_tasks).tasks[src_task_id.index as int],
                target_kind,
                target_size,
            ),
    {
        let uv_rect_kind = render_tasks.index(src_task_id).uv_rect_kind();
        let mut children: Vec<RenderTaskId> = Vec::new();
        children.push(src_task_id);
        let task = RenderTask::with_dynamic_location(
            target_size,
            children,
            RenderTaskKind::Scaling(
                ScalingTask { target_kind, uv_rect_handle: GpuCacheHandle::new(), uv_rect_kind },
            ),
            ClearMode::DontCare,
        );
        assert(task@.children =~= seq![src_task_id]);
        task
    }
}

/// The scaling task that halves `src`, as a mathematical value.
pub open spec fn scaling_task(
    src_id: RenderTaskId,
    src: RenderTask,
    target_kind: RenderTargetKind,
    target_size: DeviceIntSize,
) -> crate::task::RenderTaskView {
    crate::task::RenderTaskView {
        location: RenderTaskLocation::Dynamic(None, target_size),
        children: seq![src_id],
        kind: crate::task::RenderTaskKindView::Scaling(
            ScalingTask {
                target_kind,
                uv_rect_handle: GpuCacheHandle { location: None },
                uv_rect_kind: src.spec_uv_rect_kind(),
            },
        ),
        clear_mode: ClearMode::DontCare,
        saved_index: None,
    }
}

/// One pass of a separable blur, as a mathematical value.
pub open spec fn blur_task(
    vertical: bool,
    src_id: RenderTaskId,
    src: RenderTask,
    size: DeviceIntSize,
    std_deviation: Scalar,
    target_kind: RenderTargetKind,
    clear_mode: ClearMode,
) -> crate::task::RenderTaskView {
    let info = BlurTask {
        blur_std_deviation: std_deviation,
        target_kind,
        uv_rect_handle: GpuCacheHandle { location: None },
        uv_rect_kind: src.spec_uv_rect_kind(),
    };
    crate::task::RenderTaskView {
        location: RenderTaskLocation::Dynamic(None, size),
        children: seq![src_id],
        kind: if vertical {
            crate::task::RenderTaskKindView::VerticalBlur(info)
        } else {
            crate::task::RenderTaskKindView::HorizontalBlur(info)
        },
        clear_mode,
        saved_index: None,
    }
}

/// The identifier of the task at position `index` in the tree of frame
/// `frame_id`.
pub open spec fn id_at(frame_id: FrameId, index: int) -> RenderTaskId {
    RenderTaskId { index: index as u32, frame_id }
}

/// The dependency of the `i`-th task of a chain appended at position `base`:
/// the source for the first, the task appended just before for the others.
pub open spec fn chain_source(frame_id: FrameId, src_id: RenderTaskId, base: int, i: int)
    -> RenderTaskId {
    if i == 0 {
        src_id
    } else {
        id_at(frame_id, base + i - 1)
    }
}

/// Whether `after` is the arena `before` with the chain that blurs task
/// `src_task_id` appended, and `task` is the horizontal blur that ends the
/// chain.
///
/// The chain has one scaling task for every halving, each of them half the
/// size of the one before, rounded up, and depending on the one before; then
/// the vertical blur, which depends on the last scaling task, or on the
/// source where there is none. Both blurs have the size and the deviations
/// that the halvings end at.
pub open spec fn blur_chain_appended(
    before: Seq<RenderTask>,
    frame_id: FrameId,
    src_task_id: RenderTaskId,
    std_deviation: DeviceSize,
    target_kind: RenderTargetKind,
    clear_mode: ClearMode,
    after: Seq<RenderTask>,
    task: crate::task::RenderTaskView,
) -> bool {
    let src = before[src_task_id.index as int];
    let size = src.spec_dynamic_size();
    let steps = downscale_steps(std_deviation, size, 1);
    let base = before.len() as int;
    let scale = pow2(steps) as int;
    &&& after.len() == base + steps + 1
    &&& forall|i: int| 0 <= i < base ==> after[i] == before[i]
    &&& forall|i: int|
        0 <= i < steps ==> (#[trigger] after[base + i])@ == scaling_task(
            chain_source(frame_id, src_task_id, base, i),
            src,
            target_kind,
            scaled_down(size, pow2((i + 1) as nat) as int),
        )
    &&& after[base + steps]@ == blur_task(
        true,
        chain_source(frame_id, src_task_id, base, steps as int),
        src,
        scaled_down(size, scale),
        scaled_deviation(std_deviation.height, scale),
        target_kind,
        clear_mode,
    )
    &&& task == blur_task(
        false,
        id_at(frame_id, base + steps),
        src,
        scaled_down(size, scale),
        scaled_deviation(std_deviation.width, scale),
        target_kind,
        clear_mode,
    )
}

impl RenderTask {
    /// Builds the chain that blurs the output of `src_task_id` with the given
    /// deviation. While both deviations exceed the ceiling and the target is
    /// not under the floor, a scaling task halves the target and the
    /// deviations; then a vertical blur is appended. All of these are added
    /// to `render_tasks`. The horizontal blur, which depends on the vertical
    /// one, is returned for the caller to add.
    pub fn new_blur(
        blur_std_deviation: DeviceSize,
        src_task_id: RenderTaskId,
        render_tasks: &mut RenderTaskTree,
        target_kind: RenderTargetKind,
        clear_mode: ClearMode,
    ) -> (task: Self)
        requires
            old(render_tasks).contains(src_task_id),
            !(old(render_tasks).tasks[src_task_id.index as int].kind is CacheMask),
            valid_task_size(old(render_tasks).tasks[src_task_id.index as int].spec_dynamic_size()),
            blur_std_deviation.width.denom <= u32::MAX,
            blur_std_deviation.height.denom <= u32::MAX,
            old(render_tasks).tasks.len() + downscale_steps(
                blur_std_deviation,
                old(render_tasks).tasks[src_task_id.index as int].spec_dynamic_size(),
                1,
            ) + 1 <= u32::MAX,
        ensures
            final(render_tasks).task_data == old(render_tasks).task_data,
            final(render_tasks).cacheable_render_tasks == old(render_tasks).cacheable_render_tasks,
            final(render_tasks).next_saved == old(render_tasks).next_saved,
            final(render_tasks).frame_id == old(render_tasks).frame_id,
            blur_chain_appended(
                old(render_tasks).tasks@,
                old(render_tasks).frame_id,
                src_task_id,
                blur_std_deviation,
                target_kind,
                clear_mode,
                final(render_tasks).tasks@,
                task@,
            ),
            final(render_tasks).tasks.len() == old(render_tasks).tasks.len() + downscale_steps(
                blur_std_deviation,
                old(render_tasks).tasks[src_task_id.index as int].spec_dynamic_size(),
                1,
            ) + 1,
            blur_std_deviation.width.le_int(MAX_BLUR_STD_DEVIATION as int)
                || blur_std_deviation.height.le_int(MAX_BLUR_STD_DEVIATION as int) ==> final(render_tasks).tasks.len() == old(render_tasks).tasks.len() + 1,
            final(render_tasks).tasks[final(render_tasks).tasks.len() - 1]@.kind is VerticalBlur,
            task@.kind is HorizontalBlur,
    {
        let src_task = render_tasks.index(src_task_id);
        let blur_target_size = src_task.get_dynamic_size();
        let uv_rect_kind = src_task.uv_rect_kind();
        let ghost src = render_tasks.tasks[src_task_id.index as int];
        let ghost base = render_tasks.tasks.len() as int;
        let ghost total = downscale_steps(blur_std_deviation, blur_target_size, 1);

        let mut std_width = blur_std_deviation.width;
        let mut std_height = blur_std_deviation.height;
        let mut target_size = blur_target_size;
        let mut downscaling_src_task_id = src_task_id;
        let mut scale_factor: i32 = 1;
        let ghost mut steps: nat = 0;
        proof {
            lemma_pow2_unfold(1);
            vstd::arithmetic::power2::lemma2_to64();
            assert(ceil_div(blur_target_size.width as int, 1) == blur_target_size.width);
            assert(ceil_div(blur_target_size.height as int, 1) == blur_target_size.height);
        }
        loop
            invariant
                valid_task_size(blur_target_size),
                blur_std_deviation.width.denom <= u32::MAX,
                blur_std_deviation.height.denom <= u32::MAX,
                base == old(render_tasks).tasks.len(),
                src == old(render_tasks).tasks[src_task_id.index as int],
                !(src.kind is CacheMask),
                uv_rect_kind == src.spec_uv_rect_kind(),
                total == downscale_steps(blur_std_deviation, blur_target_size, 1),
                base + total + 1 <= u32::MAX,
                render_tasks.task_data == old(render_tasks).task_data,
                render_tasks.cacheable_render_tasks == old(render_tasks).cacheable_render_tasks,
                render_tasks.next_saved == old(render_tasks).next_saved,
                render_tasks.frame_id == old(render_tasks).frame_id,
                1 <= scale_factor <= 16000,
                scale_factor == pow2(steps),
                steps + downscale_steps(blur_std_deviation, blur_target_size, scale_factor as int)
                    == total,
                std_width == scaled_deviation(blur_std_deviation.width, scale_factor as int),
                std_height == scaled_deviation(blur_std_deviation.height, scale_factor as int),
                target_size == scaled_down(blur_target_size, scale_factor as int),
                valid_task_size(target_size),
                render_tasks.tasks.len() == base + steps,
                downscaling_src_task_id == chain_source(
                    old(render_tasks).frame_id,
                    src_task_id,
                    base,
                    steps as int,
                ),
                render_tasks.contains(downscaling_src_task_id),
                render_tasks.tasks[downscaling_src_task_id.index as int].spec_uv_rect_kind()
                    == src.spec_uv_rect_kind(),
                !(render_tasks.tasks[downscaling_src_task_id.index as int].kind is CacheMask),
                forall|i: int| 0 <= i < base ==> render_tasks.tasks[i] == old(render_tasks).tasks[i],
                forall|i: int|
                    0 <= i < steps ==> (#[trigger] render_tasks.tasks[base + i])@ == scaling_task(
                        chain_source(old(render_tasks).frame_id, src_task_id, base, i),
                        src,
                        target_kind,
                        scaled_down(blur_target_size, pow2((i + 1) as nat) as int),
                    ),
            ensures
                !downscale_continues(blur_std_deviation, blur_target_size, scale_factor as int),
            decreases 16000 - scale_factor,
        {
            let above_ceiling = std_width.exceeds(MAX_BLUR_STD_DEVIATION) && std_height.exceeds(
                MAX_BLUR_STD_DEVIATION,
            );
            proof {
                lemma_scaled_gt(blur_std_deviation.width, scale_factor as int);
                lemma_scaled_gt(blur_std_deviation.height, scale_factor as int);
            }
            if !above_ceiling || target_size.width < MIN_DOWNSCALING_RT_SIZE || target_size.height
                < MIN_DOWNSCALING_RT_SIZE {
                break ;
            }
            proof {
                lemma_floor_bounds_scale(blur_target_size.width as int, scale_factor as int);
                lemma_pow2_unfold(steps + 1);
                lemma_mul_assoc_2(blur_std_deviation.width.denom as int, scale_factor as int);
                lemma_mul_assoc_2(blur_std_deviation.height.denom as int, scale_factor as int);
                lemma_mul_bound(blur_std_deviation.width.denom as int, 2 * scale_factor);
                lemma_mul_bound(blur_std_deviation.height.denom as int, 2 * scale_factor);
            }
            std_width = std_width.halved();
            std_height = std_height.halved();
            scale_factor = scale_factor * 2;
            target_size = DeviceIntSize::new(
                ceil_div_exec(blur_target_size.width, scale_factor),
                ceil_div_exec(blur_target_size.height, scale_factor),
            );
            let ghost before = *render_tasks;
            let downscaling_task = RenderTask::new_scaling(
                downscaling_src_task_id,
                render_tasks,
                target_kind,
                target_size,
            );
            downscaling_src_task_id = render_tasks.add(downscaling_task);
            proof {
                assert(render_tasks.tasks[base + steps] == downscaling_task);
                steps = steps + 1;
            }
        }

        let mut children_v: Vec<RenderTaskId> = Vec::new();
        children_v.push(downscaling_src_task_id);
        let blur_task_v = RenderTask::with_dynamic_location(
            target_size,
            children_v,
            RenderTaskKind::VerticalBlur(
                BlurTask {
                    blur_std_deviation: std_height,
                    target_kind,
                    uv_rect_handle: GpuCacheHandle::new(),
                    uv_rect_kind,
                },
            ),
            clear_mode,
        );
        assert(blur_task_v@.children =~= seq![downscaling_src_task_id]);
        let blur_task_v_id = render_tasks.add(blur_task_v);

        let mut children_h: Vec<RenderTaskId> = Vec::new();
        children_h.push(blur_task_v_id);
        let task = RenderTask::with_dynamic_location(
            target_size,
            children_h,
            RenderTaskKind::HorizontalBlur(
                BlurTask {
                    blur_std_deviation: std_width,
                    target_kind,
                    uv_rect_handle: GpuCacheHandle::new(),
                    uv_rect_kind,
                },
            ),
            clear_mode,
        );
        assert(task@.children =~= seq![blur_task_v_id]);
        task
    }
}

/// A deviation divided by `scale` exceeds the ceiling exactly when the
/// deviation exceeds the ceiling times `scale`.
proof fn lemma_scaled_gt(std_dev: Scalar, scale: int)
    requires
        1 <= scale <= i32::MAX,
        std_dev.denom <= u32::MAX,
    ensures
        scaled_deviation(std_dev, scale).gt_int(MAX_BLUR_STD_DEVIATION as int) == std_dev.gt_int(
            MAX_BLUR_STD_DEVIATION * scale,
        ),
{
    lemma_mul_bound(std_dev.denom as int, scale);
    assert(4 * (std_dev.denom * scale) == (4 * scale) * std_dev.denom) by (nonlinear_arith);
}

/// A 32-bit denominator times a 31-bit scale fits in 64 bits.
proof fn lemma_mul_bound(d: int, scale: int)
    requires
        0 <= d <= u32::MAX,
        1 <= scale <= i32::MAX,
    ensures
        0 <= d * scale <= u64::MAX,
{
    assert(0 <= d * scale <= 0xffff_ffff * 0x7fff_ffff) by (nonlinear_arith)
        requires
            0 <= d <= 0xffff_ffff,
            1 <= scale <= 0x7fff_ffff,
    ;
}

/// Rounding up to a multiple of `scale` does not make a number smaller.
proof fn lemma_round_up_at_least(a: int, scale: int)
    requires
        scale >= 1,
    ensures
        ceil_div(a, scale) * scale >= a,
{
    assert(((a + scale - 1) / scale) * scale >= a) by (nonlinear_arith)
        requires
            scale >= 1,
    {
        assert((a + scale - 1) == scale * ((a + scale - 1) / scale) + (a + scale - 1) % scale);
        assert((a + scale - 1) % scale < scale);
    }
}

/// The product of two 32-bit numbers fits in 64 bits.
proof fn lemma_product_fits(a: int, b: int)
    requires
        i32::MIN <= a <= i32::MAX,
        1 <= b <= i32::MAX,
    ensures
        i64::MIN <= a * b <= i64::MAX,
{
    assert(-0x8000_0000 * 0x8000_0000 <= a * b <= 0x8000_0000 * 0x8000_0000) by (nonlinear_arith)
        requires
            -0x8000_0000 <= a <= 0x8000_0000,
            1 <= b <= 0x8000_0000,
    ;
}

/// Doubling a product doubles either factor.
proof fn lemma_mul_assoc_2(d: int, scale: int)
    ensures
        2 * (d * scale) == d * (2 * scale),
{
    assert(2 * (d * scale) == d * (2 * scale)) by (nonlinear_arith);
}

/// Rounding up after dividing by `2 * scale` is rounding up after dividing by
/// `scale` and then by two.
pub proof fn lemma_ceil_div_twice(a: int, scale: int)
    requires
        a >= 1,
        scale >= 1,
    ensures
        ceil_div(a, 2 * scale) == ceil_div(ceil_div(a, scale), 2),
        ceil_div(a, 2 * scale) <= ceil_div(a, scale),
{
    let x = a + 2 * scale - 1;
    vstd::arithmetic::div_mod::lemma_div_denominator(x, scale, 2);
    assert(scale * 2 == 2 * scale);
    vstd::arithmetic::div_mod::lemma_div_plus_one(a - 1, scale);
    assert(scale + (a - 1) == a + scale - 1);
    assert(x == scale + (a + scale - 1));
    vstd::arithmetic::div_mod::lemma_div_plus_one(a + scale - 1, scale);
    lemma_ceil_div_range(a, scale);
}

/// A chain whose deviation is at most the ceiling in one direction has no
/// scaling task: the vertical blur is all that is appended, it depends on
/// the source, and the horizontal blur depends on it.
pub proof fn lemma_small_deviation_is_not_scaled(
    before: Seq<RenderTask>,
    frame_id: FrameId,
    src_task_id: RenderTaskId,
    std_deviation: DeviceSize,
    target_kind: RenderTargetKind,
    clear_mode: ClearMode,
    after: Seq<RenderTask>,
    task: crate::task::RenderTaskView,
)
    requires
        std_deviation.width.le_int(MAX_BLUR_STD_DEVIATION as int) || std_deviation.height.le_int(
            MAX_BLUR_STD_DEVIATION as int,
        ),
        blur_chain_appended(
            before,
            frame_id,
            src_task_id,
            std_deviation,
            target_kind,
            clear_mode,
            after,
            task,
        ),
    ensures
        downscale_steps(std_deviation, before[src_task_id.index as int].spec_dynamic_size(), 1)
            == 0,
        after.len() == before.len() + 1,
        after[before.len() as int]@.kind is VerticalBlur,
        after[before.len() as int]@.children == seq![src_task_id],
        task.kind is HorizontalBlur,
        task.children == seq![id_at(frame_id, before.len() as int)],
        forall|i: int|
            before.len() <= i < after.len() ==> !((#[trigger] after[i])@.kind is Scaling),
{
    vstd::arithmetic::power2::lemma2_to64();
}

/// A source that is halved at every scale `scale * 2^k` with `k < n`, and
/// not at `scale * 2^n`, is halved exactly `n` times.
pub proof fn lemma_downscale_steps_count(
    std_dev: DeviceSize,
    size: DeviceIntSize,
    scale: int,
    n: nat,
)
    requires
        scale >= 1,
        forall|k: nat| k < n ==> downscale_continues(std_dev, size, #[trigger] (scale * pow2(k))),
        !downscale_continues(std_dev, size, scale * pow2(n)),
    ensures
        downscale_steps(std_dev, size, scale) == n,
    decreases n,
{
    vstd::arithmetic::power2::lemma2_to64();
    if n == 0 {
        assert(scale * pow2(0) == scale);
    } else {
        assert(downscale_continues(std_dev, size, scale * pow2(0)));
        assert(scale * pow2(0) == scale);
        assert forall|k: nat| k < (n - 1) as nat implies downscale_continues(
            std_dev,
            size,
            #[trigger] ((2 * scale) * pow2(k)),
        ) by {
            lemma_pow2_unfold(k + 1);
            assert((2 * scale) * pow2(k) == scale * pow2(k + 1)) by (nonlinear_arith)
                requires
                    pow2(k + 1) == 2 * pow2(k),
            ;
            assert(downscale_continues(std_dev, size, scale * pow2(k + 1)));
        }
        lemma_pow2_unfold(n);
        assert((2 * scale) * pow2((n - 1) as nat) == scale * pow2(n)) by (nonlinear_arith)
            requires
                pow2(n) == 2 * pow2((n - 1) as nat),
        ;
        lemma_downscale_steps_count(std_dev, size, 2 * scale, (n - 1) as nat);
    }
}

/// Every scaling task of a chain is half the size of the step before it,
/// rounded up, and so no larger in either dimension.
pub proof fn lemma_scaling_sizes_halve(size: DeviceIntSize, i: nat)
    requires
        size.width >= 1,
        size.height >= 1,
    ensures
        ceil_div(size.width as int, pow2(i + 1) as int) == ceil_div(
            ceil_div(size.width as int, pow2(i) as int),
            2,
        ),
        ceil_div(size.height as int, pow2(i + 1) as int) == ceil_div(
            ceil_div(size.height as int, pow2(i) as int),
            2,
        ),
        ceil_div(size.width as int, pow2(i + 1) as int) <= ceil_div(
            size.width as int,
            pow2(i) as int,
        ),
        ceil_div(size.height as int, pow2(i + 1) as int) <= ceil_div(
            size.height as int,
            pow2(i) as int,
        ),
{
    lemma_pow2_unfold(i + 1);
    lemma_pow2_pos(i);
    lemma_ceil_div_twice(size.width as int, pow2(i) as int);
    lemma_ceil_div_twice(size.height as int, pow2(i) as int);
}

/// The number of halvings of a chain is the least number at which halving
/// stops: the source is halved at every scale `scale * 2^k` below it, and
/// not at the scale it ends at.
pub proof fn lemma_downscale_steps_is_least(std_dev: DeviceSize, size: DeviceIntSize, scale: int)
    requires
        scale >= 1,
    ensures
        !downscale_continues(
            std_dev,
            size,
            scale * pow2(downscale_steps(std_dev, size, scale)),
        ),
        forall|k: nat|
            k < downscale_steps(std_dev, size, scale) ==> downscale_continues(
                std_dev,
                size,
                #[trigger] (scale * pow2(k)),
            ),
    decreases downscale_steps(std_dev, size, scale),
{
    vstd::arithmetic::power2::lemma2_to64();
    let n = downscale_steps(std_dev, size, scale);
    assert(scale * pow2(0) == scale);
    if downscale_continues(std_dev, size, scale) {
        lemma_floor_bounds_scale(size.width as int, scale);
        let m = downscale_steps(std_dev, size, 2 * scale);
        assert(n == m + 1);
        lemma_downscale_steps_is_least(std_dev, size, 2 * scale);
        lemma_pow2_unfold(n);
        assert((2 * scale) * pow2(m) == scale * pow2(n)) by (nonlinear_arith)
            requires
                pow2(n) == 2 * pow2(m),
        ;
        assert forall|k: nat| k < n implies downscale_continues(
            std_dev,
            size,
            #[trigger] (scale * pow2(k)),
        ) by {
            if k > 0 {
                let j = (k - 1) as nat;
                lemma_pow2_unfold(k);
                assert((2 * scale) * pow2(j) == scale * pow2(k)) by (nonlinear_arith)
                    requires
                        pow2(k) == 2 * pow2(j),
                ;
                assert(downscale_continues(std_dev, size, (2 * scale) * pow2(j)));
            }
        }
    }
}

/// The shape of every blur chain. It has one scaling task for each halving
/// and one vertical blur, in that order. Every scaling task is cleared to
/// nothing, depends on the step before it and has the size of the source
/// divided by the next power of two, rounded up, which is no larger than
/// the step before. The two blurs have the size and the deviations that the
/// halvings end at; the vertical blur depends on the last step and the
/// horizontal blur, which is not in the arena, on the vertical one.
pub proof fn lemma_blur_chain_shape(
    before: Seq<RenderTask>,
    frame_id: FrameId,
    src_task_id: RenderTaskId,
    std_deviation: DeviceSize,
    target_kind: RenderTargetKind,
    clear_mode: ClearMode,
    after: Seq<RenderTask>,
    task: crate::task::RenderTaskView,
)
    requires
        before[src_task_id.index as int].spec_dynamic_size().width >= 1,
        before[src_task_id.index as int].spec_dynamic_size().height >= 1,
        blur_chain_appended(
            before,
            frame_id,
            src_task_id,
            std_deviation,
            target_kind,
            clear_mode,
            after,
            task,
        ),
    ensures
        ({
            let size = before[src_task_id.index as int].spec_dynamic_size();
            let steps = downscale_steps(std_deviation, size, 1);
            let base = before.len() as int;
            let scale = pow2(steps) as int;
            let vertical = after[base + steps]@;
            &&& after.len() == base + steps + 1
            &&& forall|i: int|
                #![trigger after[base + i]]
                0 <= i < steps ==> {
                    let step = after[base + i]@;
                    let now = scaled_down(size, pow2((i + 1) as nat) as int);
                    let then = scaled_down(size, pow2(i as nat) as int);
                    &&& step.kind is Scaling
                    &&& step.clear_mode == ClearMode::DontCare
                    &&& step.children == seq![chain_source(frame_id, src_task_id, base, i)]
                    &&& step.location matches RenderTaskLocation::Dynamic(None, s) && s == now
                    &&& now.width == ceil_div(then.width as int, 2)
                    &&& now.height == ceil_div(then.height as int, 2)
                    &&& now.width <= then.width
                    &&& now.height <= then.height
                }
            &&& vertical.kind matches crate::task::RenderTaskKindView::VerticalBlur(info)
                && info.blur_std_deviation == scaled_deviation(std_deviation.height, scale)
            &&& vertical.children == seq![
                chain_source(frame_id, src_task_id, base, steps as int),
            ]
            &&& task.kind matches crate::task::RenderTaskKindView::HorizontalBlur(info)
                && info.blur_std_deviation == scaled_deviation(std_deviation.width, scale)
            &&& task.children == seq![id_at(frame_id, base + steps)]
            &&& vertical.location matches RenderTaskLocation::Dynamic(None, s) && s == scaled_down(
                size,
                scale,
            )
            &&& task.location matches RenderTaskLocation::Dynamic(None, s) && s == scaled_down(
                size,
                scale,
            )
        }),
{
    let size = before[src_task_id.index as int].spec_dynamic_size();
    let steps = downscale_steps(std_deviation, size, 1);
    let base = before.len() as int;
    assert forall|i: int|
        #![trigger after[base + i]]
        0 <= i < steps implies {
        let step = after[base + i]@;
        let now = scaled_down(size, pow2((i + 1) as nat) as int);
        let then = scaled_down(size, pow2(i as nat) as int);
        &&& step.kind is Scaling
        &&& step.clear_mode == ClearMode::DontCare
        &&& step.children == seq![chain_source(frame_id, src_task_id, base, i)]
        &&& step.location matches RenderTaskLocation::Dynamic(None, s) && s == now
        &&& now.width == ceil_div(then.width as int, 2)
        &&& now.height == ceil_div(then.height as int, 2)
        &&& now.width <= then.width
        &&& now.height <= then.height
    } by {
        lemma_scaling_sizes_halve(size, i as nat);
        lemma_pow2_pos(i as nat);
        lemma_pow2_pos((i + 1) as nat);
        lemma_ceil_div_range(size.width as int, pow2(i as nat) as int);
        lemma_ceil_div_range(size.height as int, pow2(i as nat) as int);
        lemma_ceil_div_range(size.width as int, pow2((i + 1) as nat) as int);
        lemma_ceil_div_range(size.height as int, pow2((i + 1) as nat) as int);
    }
}

} // verus!
