use std::cell::Cell;

use render_task::cache::{CacheAllocation, RenderTaskCache, TextureCacheUpdate};
use render_task::keys::{
    BoxShadowCacheKey, BoxShadowClipMode, RenderTaskCacheKey, RenderTaskCacheKeyKind,
};
use render_task::mask::{
    clip_range_is_ready, BoxShadowChain, BoxShadowClipSource, ClipItem, ClipMode, ClipNode, ClipNodeFlags,
    SizedBoxShadowKey,
};
use render_task::scalar::Scalar;
use render_task::task::{ClearMode, RenderTask, RenderTaskKind, RenderTaskLocation};
use render_task::tree::{RenderTaskTree, RenderTaskTreeCounters};
use render_task::types::{
    CacheTextureId, ClipNodeRange, DevicePixelScale, DeviceVector2D, FrameBuilderConfig, FrameId,
    GpuCacheAddress, LayoutPoint, LayoutRect, LayoutSize, RenderTargetKind, SnapOffsets,
    SpatialNodeIndex, TextureCacheHandle, TextureCacheSlot,
};
use render_task::units::{DeviceIntPoint, DeviceIntRect, DeviceIntSize};

fn new_tree(frame: u64) -> RenderTaskTree {
    RenderTaskTree::new(FrameId(frame), &RenderTaskTreeCounters::new())
}

fn layout_rect(x: i32, y: i32, w: i32, h: i32) -> LayoutRect {
    LayoutRect {
        origin: LayoutPoint { x: Scalar::from_int(x), y: Scalar::from_int(y) },
        size: LayoutSize { width: Scalar::from_int(w), height: Scalar::from_int(h) },
    }
}

fn shadow_key(blur_radius_dp: i32) -> BoxShadowCacheKey {
    let corner = DeviceIntSize::new(2, 2);
    BoxShadowCacheKey {
        blur_radius_dp,
        clip_mode: BoxShadowClipMode::Outset,
        original_alloc_size: DeviceIntSize::new(40, 40),
        br_top_left: corner,
        br_top_right: corner,
        br_bottom_right: corner,
        br_bottom_left: corner,
    }
}

fn box_shadow(blur_radius_dp: i32, side: i32) -> ClipNode {
    ClipNode {
        item: ClipItem::BoxShadow(BoxShadowClipSource {
            cache_key: Some(SizedBoxShadowKey {
                size: DeviceIntSize::new(side, side),
                key: shadow_key(blur_radius_dp),
            }),
            cache_handle: None,
            clip_data_address: GpuCacheAddress { u: 3, v: 4 },
            minimal_shadow_rect: layout_rect(5, 6, side, side),
        }),
        flags: ClipNodeFlags { same_spatial_node: true, same_coord_system: true },
    }
}

fn rectangle(mode: ClipMode, same_coord_system: bool) -> ClipNode {
    ClipNode {
        item: ClipItem::Rectangle(layout_rect(0, 0, 10, 10), mode),
        flags: ClipNodeFlags { same_spatial_node: false, same_coord_system },
    }
}

fn snap() -> SnapOffsets {
    let zero = DeviceVector2D { x: Scalar::zero(), y: Scalar::zero() };
    SnapOffsets { top_left: zero, bottom_right: zero }
}

fn outer() -> DeviceIntRect {
    DeviceIntRect::new(DeviceIntPoint::new(20, 30), DeviceIntSize::new(100, 100))
}

fn wants_unallocated(handle: &TextureCacheHandle) -> bool {
    handle.entry.is_none()
}

fn mask_over(
    nodes: &mut Vec<ClipNode>,
    range: ClipNodeRange,
    cache: &mut RenderTaskCache,
    tree: &mut RenderTaskTree,
    fast_clears: bool,
) -> RenderTask {
    RenderTask::new_mask(
        outer(),
        range,
        SpatialNodeIndex(7),
        nodes,
        cache,
        &wants_unallocated,
        tree,
        snap(),
        DevicePixelScale(Scalar::from_int(1)),
        &FrameBuilderConfig { gpu_supports_fast_clears: fast_clears },
    )
}

fn kinds(tree: &RenderTaskTree) -> Vec<&'static str> {
    tree.tasks
        .iter()
        .map(|t| match t.kind {
            RenderTaskKind::ClipRegion(_) => "region",
            RenderTaskKind::Scaling(_) => "scaling",
            RenderTaskKind::VerticalBlur(_) => "vertical",
            RenderTaskKind::HorizontalBlur(_) => "horizontal",
            _ => "other",
        })
        .collect()
}

#[test]
fn box_shadow_mask_is_built_once_and_reused_in_the_next_frame() {
    let mut cache = RenderTaskCache::new();
    let mut nodes = vec![box_shadow(20, 40)];
    let range = ClipNodeRange { first: 0, count: 1 };

    // First frame: the chain is built and the entry is pending.
    let mut tree = new_tree(1);
    let mask = mask_over(&mut nodes, range, &mut cache, &mut tree, false);
    assert!(mask.children.is_empty());
    assert_eq!(mask.get_dynamic_size(), DeviceIntSize::new(100, 100));
    assert_eq!(mask.target_kind(), RenderTargetKind::Alpha);
    match mask.kind {
        RenderTaskKind::CacheMask(info) => {
            assert_eq!(info.actual_rect, outer());
            assert_eq!(info.clip_node_range, range);
            assert_eq!(info.root_spatial_node_index, SpatialNodeIndex(7));
        },
        _ => panic!("a mask task"),
    }
    // Deviation 20 on 40 pixels: 20 -> 10 -> 5 -> 2.5 and 40 -> 20 -> 10 -> 5.
    assert_eq!(
        kinds(&tree),
        vec!["region", "scaling", "scaling", "scaling", "vertical", "horizontal"]
    );
    assert_eq!(tree.tasks[0].get_dynamic_size(), DeviceIntSize::new(40, 40));
    assert_eq!(tree.tasks[1].get_dynamic_size(), DeviceIntSize::new(20, 20));
    assert_eq!(tree.tasks[2].get_dynamic_size(), DeviceIntSize::new(10, 10));
    assert_eq!(tree.tasks[3].get_dynamic_size(), DeviceIntSize::new(5, 5));
    assert_eq!(tree.tasks[5].get_dynamic_size(), DeviceIntSize::new(5, 5));
    assert_eq!(tree.tasks[5].clear_mode, ClearMode::Zero);
    assert_eq!(tree.tasks[5].target_kind(), RenderTargetKind::Alpha);
    assert_eq!(tree.tasks[0].clear_mode, ClearMode::DontCare);
    match tree.tasks[0].kind {
        RenderTaskKind::ClipRegion(region) => {
            assert_eq!(region.clip_data_address, GpuCacheAddress { u: 3, v: 4 });
            assert_eq!(region.local_pos.x, Scalar::from_int(5));
            assert_eq!(region.local_pos.y, Scalar::from_int(6));
        },
        _ => panic!("the chain starts with the rounded rectangle"),
    }
    assert_eq!(tree.cacheable_render_tasks.len(), 1);
    assert_eq!(tree.cacheable_render_tasks[0].index, 5);
    let handle = match nodes[0].item {
        ClipItem::BoxShadow(info) => info.cache_handle.unwrap(),
        _ => panic!("still a box shadow"),
    };
    let key = RenderTaskCacheKey {
        size: DeviceIntSize::new(40, 40),
        kind: RenderTaskCacheKeyKind::BoxShadow(shadow_key(20)),
    };
    assert_eq!(cache.find(&key), Some(handle.index));
    assert_eq!(
        cache.get_cache_entry(&handle).pending_render_task_id,
        Some(tree.cacheable_render_tasks[0])
    );

    // The entry is promoted into the persistent store.
    let stored = TextureCacheHandle { entry: Some(TextureCacheSlot { index: 1, epoch: 1 }) };
    cache.update(
        |request: TextureCacheUpdate| {
            assert_eq!(request.descriptor.size, DeviceIntSize::new(5, 5));
            CacheAllocation {
                handle: stored,
                texture: CacheTextureId(1),
                layer: 0,
                rect: DeviceIntRect::new(DeviceIntPoint::new(0, 0), DeviceIntSize::new(5, 5)),
            }
        },
        &mut tree,
    );
    assert!(matches!(tree.tasks[5].location, RenderTaskLocation::TextureCache { .. }));
    assert!(cache.get_cache_entry(&handle).pending_render_task_id.is_none());
    assert_eq!(cache.get_cache_entry(&handle).handle, stored);

    // Second frame, same shadow: the handle is reused and nothing is built.
    cache.begin_frame(|h: &TextureCacheHandle| *h == stored);
    let mut tree = new_tree(2);
    let mut nodes = vec![box_shadow(20, 40)];
    let _ = mask_over(&mut nodes, range, &mut cache, &mut tree, false);
    assert!(tree.tasks.is_empty());
    assert!(tree.cacheable_render_tasks.is_empty());
    let again = match nodes[0].item {
        ClipItem::BoxShadow(info) => info.cache_handle.unwrap(),
        _ => panic!("still a box shadow"),
    };
    assert_eq!((again.index, again.epoch), (handle.index, handle.epoch));
}

#[test]
fn two_equal_shadows_in_one_mask_share_one_chain() {
    let mut cache = RenderTaskCache::new();
    let mut nodes = vec![box_shadow(10, 40), rectangle(ClipMode::ClipOut, false), box_shadow(10, 40)];
    let mut tree = new_tree(1);
    let builds = Cell::new(0);
    let store = |handle: &TextureCacheHandle| {
        builds.set(builds.get() + 1);
        handle.entry.is_none()
    };
    let mask = RenderTask::new_mask(
        outer(),
        ClipNodeRange { first: 0, count: 3 },
        SpatialNodeIndex(0),
        &mut nodes,
        &mut cache,
        &store,
        &mut tree,
        snap(),
        DevicePixelScale(Scalar::from_int(1)),
        &FrameBuilderConfig { gpu_supports_fast_clears: false },
    );
    // Deviation 10: 10 -> 5 -> 2.5, two halvings.
    assert_eq!(kinds(&tree), vec!["region", "scaling", "scaling", "vertical", "horizontal"]);
    assert_eq!(builds.get(), 1);
    assert_eq!(mask.clear_mode, ClearMode::DontCare);
    let handles: Vec<(u32, u32)> = nodes
        .iter()
        .filter_map(|n| match n.item {
            ClipItem::BoxShadow(info) => info.cache_handle.map(|h| (h.index, h.epoch.0)),
            _ => None,
        })
        .collect();
    assert_eq!(handles.len(), 2);
    assert_eq!(handles[0], handles[1]);
}

#[test]
fn clips_outside_the_range_are_not_looked_at() {
    let mut cache = RenderTaskCache::new();
    let mut nodes = vec![
        box_shadow(10, 40),
        rectangle(ClipMode::Clip, true),
        rectangle(ClipMode::Clip, false),
    ];
    let mut tree = new_tree(1);
    let mask = mask_over(
        &mut nodes,
        ClipNodeRange { first: 1, count: 1 },
        &mut cache,
        &mut tree,
        false,
    );
    assert!(tree.tasks.is_empty());
    assert_eq!(mask.clear_mode, ClearMode::DontCare);
    assert!(matches!(nodes[0].item, ClipItem::BoxShadow(info) if info.cache_handle.is_none()));
}

#[test]
fn mask_is_cleared_for_fast_clears_or_a_rectangle_in_another_coordinate_system() {
    let clear_mode = |node: ClipNode, fast_clears: bool| {
        let mut cache = RenderTaskCache::new();
        let mut tree = new_tree(1);
        let mut nodes = vec![node];
        let range = ClipNodeRange { first: 0, count: 1 };
        mask_over(&mut nodes, range, &mut cache, &mut tree, fast_clears).clear_mode
    };
    assert_eq!(clear_mode(rectangle(ClipMode::Clip, false), false), ClearMode::One);
    assert_eq!(clear_mode(rectangle(ClipMode::Clip, true), false), ClearMode::DontCare);
    assert_eq!(clear_mode(rectangle(ClipMode::ClipOut, false), false), ClearMode::DontCare);
    assert_eq!(clear_mode(rectangle(ClipMode::ClipOut, false), true), ClearMode::One);
    let rounded = ClipNode {
        item: ClipItem::RoundedRectangle(layout_rect(0, 0, 5, 5), ClipMode::Clip),
        flags: ClipNodeFlags { same_spatial_node: false, same_coord_system: false },
    };
    assert_eq!(clear_mode(rounded, false), ClearMode::DontCare);
    let image = ClipNode {
        item: ClipItem::Image { rect: layout_rect(0, 0, 5, 5) },
        flags: ClipNodeFlags { same_spatial_node: false, same_coord_system: false },
    };
    assert_eq!(clear_mode(image, false), ClearMode::DontCare);
    assert_eq!(clear_mode(box_shadow(2, 8), false), ClearMode::DontCare);
    let empty = {
        let mut cache = RenderTaskCache::new();
        let mut tree = new_tree(1);
        let mut nodes: Vec<ClipNode> = Vec::new();
        let range = ClipNodeRange { first: 0, count: 0 };
        mask_over(&mut nodes, range, &mut cache, &mut tree, true).clear_mode
    };
    assert_eq!(empty, ClearMode::One);
}

#[test]
fn mask_record_holds_the_pixel_scale_alone() {
    let mut cache = RenderTaskCache::new();
    let mut tree = new_tree(1);
    let mut nodes: Vec<ClipNode> = Vec::new();
    let mask = mask_over(
        &mut nodes,
        ClipNodeRange { first: 0, count: 0 },
        &mut cache,
        &mut tree,
        false,
    );
    let record = mask.write_task_data();
    let expected = [
        Scalar::from_int(0),
        Scalar::from_int(0),
        Scalar::from_int(0),
        Scalar::from_int(0),
        Scalar::from_int(0),
        Scalar::from_int(1),
        Scalar::from_int(0),
        Scalar::from_int(0),
    ];
    assert_eq!(record.data, expected);
}

#[test]
fn chain_of_a_small_blur_is_region_and_two_blurs() {
    let chain = BoxShadowChain {
        cache_size: DeviceIntSize::new(9, 9),
        clip_data_address: GpuCacheAddress { u: 0, v: 0 },
        local_pos: LayoutPoint { x: Scalar::zero(), y: Scalar::zero() },
        device_pixel_scale: DevicePixelScale(Scalar::from_int(2)),
        gpu_supports_fast_clears: true,
        blur_radius_dp: 4,
    };
    let mut tree = new_tree(1);
    let id = chain.build(&mut tree);
    assert_eq!(kinds(&tree), vec!["region", "vertical", "horizontal"]);
    assert_eq!(id.index, 2);
    assert_eq!(tree.tasks[0].clear_mode, ClearMode::One);
    assert_eq!(tree.tasks[2].children[0].index, 1);
    assert_eq!(tree.tasks[1].children[0].index, 0);
    let record = tree.tasks[2].write_task_data();
    assert_eq!(record.data[5], Scalar::from_int(4));
}

#[test]
fn clip_range_is_ready_inside_the_nodes_with_keyed_shadows_of_valid_size() {
    let nodes = vec![box_shadow(3, 40), rectangle(ClipMode::Clip, true)];
    assert!(clip_range_is_ready(&nodes, &ClipNodeRange { first: 0, count: 2 }));
    assert!(clip_range_is_ready(&nodes, &ClipNodeRange { first: 2, count: 0 }));
    assert!(!clip_range_is_ready(&nodes, &ClipNodeRange { first: 1, count: 2 }));
    assert!(!clip_range_is_ready(&nodes, &ClipNodeRange { first: u32::MAX, count: u32::MAX }));
    let mut unkeyed = box_shadow(3, 40);
    if let ClipItem::BoxShadow(ref mut info) = unkeyed.item {
        info.cache_key = None;
    }
    assert!(!clip_range_is_ready(&vec![unkeyed], &ClipNodeRange { first: 0, count: 1 }));
    let huge = vec![box_shadow(3, 16001)];
    assert!(!clip_range_is_ready(&huge, &ClipNodeRange { first: 0, count: 1 }));
    let empty = vec![box_shadow(3, 0)];
    assert!(!clip_range_is_ready(&empty, &ClipNodeRange { first: 0, count: 1 }));
    // A shadow outside the range is not looked at.
    assert!(clip_range_is_ready(
        &vec![box_shadow(3, 0), rectangle(ClipMode::ClipOut, false)],
        &ClipNodeRange { first: 1, count: 1 },
    ));
}
