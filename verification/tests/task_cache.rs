use std::cell::Cell;

use render_task::cache::{
    CacheAllocation, RenderTaskCache, RenderTaskCacheMarker, TextureCacheUpdate,
};
use render_task::freelist::{Epoch, FreeList};
use render_task::keys::{GpuGlyphCacheKey, RenderTaskCacheKey, RenderTaskCacheKeyKind};
use render_task::scalar::Scalar;
use render_task::task::{
    BlitSource, CacheItem, RenderTask, RenderTaskId, RenderTaskLocation, TextureSource,
};
use render_task::tree::{RenderTaskTree, RenderTaskTreeCounters};
use render_task::types::{
    CacheTextureId, Eviction, FrameId, GpuCacheHandle, ImageFormat, TextureCacheHandle,
    TextureCacheSlot, TextureFilter, UvRectKind,
};
use render_task::units::{DeviceIntPoint, DeviceIntRect, DeviceIntSize};
use render_task::keys::{ImageCacheKey, ImageKey, ImageRendering, ImageRequest};

type Built = (RenderTaskTree, Result<RenderTaskId, ()>);

fn new_tree(frame: u64) -> RenderTaskTree {
    RenderTaskTree::new(FrameId(frame), &RenderTaskTreeCounters::new())
}

fn glyph_key(id: u32) -> RenderTaskCacheKey {
    RenderTaskCacheKey {
        size: DeviceIntSize::new(12, 10),
        kind: RenderTaskCacheKeyKind::Glyph(GpuGlyphCacheKey(id)),
    }
}

fn image_source() -> BlitSource {
    BlitSource::Image {
        key: ImageCacheKey {
            request: ImageRequest {
                key: ImageKey { namespace: 1, id: 2 },
                rendering: ImageRendering::Auto,
                tile: None,
            },
            texel_rect: None,
        },
    }
}

fn build_blit(mut tree: RenderTaskTree) -> Built {
    let id = tree.add(RenderTask::new_blit(DeviceIntSize::new(12, 10), image_source()));
    (tree, Ok(id))
}

fn wants_unallocated(handle: &TextureCacheHandle) -> bool {
    handle.entry.is_none()
}

fn room(index: u32) -> CacheAllocation {
    CacheAllocation {
        handle: TextureCacheHandle { entry: Some(TextureCacheSlot { index, epoch: 1 }) },
        texture: CacheTextureId(40 + index as u64),
        layer: 2,
        rect: DeviceIntRect::new(DeviceIntPoint::new(64, 128), DeviceIntSize::new(12, 10)),
    }
}

#[test]
fn first_request_builds_and_leaves_the_task_pending() {
    let mut cache = RenderTaskCache::new();
    let mut tree = new_tree(1);
    let data = [Scalar::from_int(1), Scalar::from_int(2), Scalar::from_int(3)];
    let handle = cache
        .request_render_task(glyph_key(1), &wants_unallocated, &mut tree, Some(data), true, build_blit)
        .unwrap();
    assert_eq!(tree.tasks.len(), 1);
    assert_eq!(tree.cacheable_render_tasks.len(), 1);
    assert_eq!(tree.cacheable_render_tasks[0].index, 0);
    let entry = cache.get_cache_entry(&handle);
    assert_eq!(entry.pending_render_task_id, Some(tree.cacheable_render_tasks[0]));
    assert_eq!(entry.user_data, Some(data));
    assert!(entry.is_opaque);
    assert_eq!(entry.handle, TextureCacheHandle::invalid());
    assert_eq!(cache.find(&glyph_key(1)), Some(handle.index));
    assert_eq!(cache.find(&glyph_key(2)), None);
}

#[test]
fn second_request_in_the_frame_does_not_build_again() {
    let mut cache = RenderTaskCache::new();
    let mut tree = new_tree(1);
    let builds = Cell::new(0);
    let asked = Cell::new(0);
    let store = |handle: &TextureCacheHandle| {
        asked.set(asked.get() + 1);
        handle.entry.is_none()
    };
    let first = cache
        .request_render_task(glyph_key(1), &store, &mut tree, None, false, |tree| {
            builds.set(builds.get() + 1);
            build_blit(tree)
        })
        .unwrap();
    let second = cache
        .request_render_task(glyph_key(1), &store, &mut tree, None, false, |tree| {
            builds.set(builds.get() + 1);
            build_blit(tree)
        })
        .unwrap();
    assert_eq!(builds.get(), 1);
    assert_eq!(asked.get(), 1);
    assert_eq!(tree.tasks.len(), 1);
    assert_eq!(tree.cacheable_render_tasks.len(), 1);
    assert_eq!((first.index, first.epoch), (second.index, second.epoch));
}

#[test]
fn content_that_the_store_still_has_is_not_built() {
    let mut cache = RenderTaskCache::new();
    let mut tree = new_tree(1);
    let handle = cache
        .request_render_task(glyph_key(1), &|_: &TextureCacheHandle| false, &mut tree, None, false, |_| {
            panic!("nothing to build")
        })
        .unwrap();
    assert!(tree.tasks.is_empty());
    assert!(tree.cacheable_render_tasks.is_empty());
    assert!(cache.get_cache_entry(&handle).pending_render_task_id.is_none());
}

#[test]
fn failing_builder_fails_the_request_and_leaves_nothing_pending() {
    let mut cache = RenderTaskCache::new();
    let mut tree = new_tree(1);
    let result = cache.request_render_task(
        glyph_key(1),
        &wants_unallocated,
        &mut tree,
        None,
        false,
        |tree: RenderTaskTree| (tree, Err(())),
    );
    assert!(result.is_err());
    assert!(tree.tasks.is_empty());
    assert!(tree.cacheable_render_tasks.is_empty());
    assert_eq!(tree.frame_id(), FrameId(1));
    // The next request for the key runs its builder.
    let handle = cache
        .request_render_task(glyph_key(1), &wants_unallocated, &mut tree, None, false, build_blit)
        .unwrap();
    assert!(cache.get_cache_entry(&handle).pending_render_task_id.is_some());
    assert_eq!(tree.tasks.len(), 1);
}

#[test]
fn update_moves_pending_tasks_into_the_store() {
    let mut cache = RenderTaskCache::new();
    let mut tree = new_tree(1);
    let other = tree.add(RenderTask::new_blit(DeviceIntSize::new(3, 3), image_source()));
    let data = [Scalar::from_int(7), Scalar::from_int(8), Scalar::from_int(9)];
    let handle = cache
        .request_render_task(glyph_key(1), &wants_unallocated, &mut tree, Some(data), true, build_blit)
        .unwrap();
    let kept = cache
        .request_render_task(glyph_key(2), &|_: &TextureCacheHandle| false, &mut tree, None, false, |_| {
            panic!("nothing to build")
        })
        .unwrap();
    let calls = Cell::new(0);
    cache.update(
        |request: TextureCacheUpdate| {
            calls.set(calls.get() + 1);
            assert_eq!(request.handle, TextureCacheHandle::invalid());
            assert_eq!(request.descriptor.size, DeviceIntSize::new(12, 10));
            assert_eq!(request.descriptor.format, ImageFormat::BGRA8);
            assert!(request.descriptor.is_opaque);
            assert!(!request.descriptor.allow_mipmaps);
            assert_eq!(request.descriptor.stride, None);
            assert_eq!(request.filter, TextureFilter::Linear);
            assert_eq!(request.eviction, Eviction::Eager);
            assert_eq!(request.user_data, data);
            assert_eq!(request.uv_rect_kind, UvRectKind::Rect);
            room(3)
        },
        &mut tree,
    );
    assert_eq!(calls.get(), 1);
    let entry = cache.get_cache_entry(&handle);
    assert!(entry.pending_render_task_id.is_none());
    assert_eq!(entry.handle, room(3).handle);
    assert_eq!(entry.user_data, Some(data));
    assert!(cache.get_cache_entry(&kept).pending_render_task_id.is_none());
    assert_eq!(cache.get_cache_entry(&kept).handle, TextureCacheHandle::invalid());
    match tree.tasks[1].location {
        RenderTaskLocation::TextureCache { texture, layer, rect } => {
            assert_eq!(texture, CacheTextureId(43));
            assert_eq!(layer, 2);
            assert_eq!(rect, room(3).rect);
        },
        _ => panic!("the pending task lives in the store now"),
    }
    assert!(!tree.tasks[1].is_saveable());
    assert!(tree.index(other).location.is_dynamic());
    // Nothing is pending any more: a second update asks for nothing.
    cache.update(|_: TextureCacheUpdate| panic!("nothing is pending"), &mut tree);
}

#[test]
fn update_without_payload_sends_zeros_and_alpha_uses_one_channel() {
    let mut cache = RenderTaskCache::new();
    let mut tree = new_tree(1);
    let _ = cache
        .request_render_task(glyph_key(1), &wants_unallocated, &mut tree, None, false, |mut tree| {
            let mask = RenderTask::new_rounded_rect_mask(
                DeviceIntSize::new(5, 6),
                render_task::types::GpuCacheAddress { u: 0, v: 0 },
                render_task::types::LayoutPoint { x: Scalar::zero(), y: Scalar::zero() },
                render_task::types::DevicePixelScale(Scalar::from_int(1)),
                &render_task::types::FrameBuilderConfig { gpu_supports_fast_clears: true },
            );
            let id = tree.add(mask);
            (tree, Ok(id))
        })
        .unwrap();
    cache.update(
        |request: TextureCacheUpdate| {
            assert_eq!(request.descriptor.format, ImageFormat::R8);
            assert_eq!(request.descriptor.size, DeviceIntSize::new(5, 6));
            assert!(!request.descriptor.is_opaque);
            assert_eq!(request.user_data, [Scalar::zero(); 3]);
            room(0)
        },
        &mut tree,
    );
    assert!(matches!(tree.tasks[0].location, RenderTaskLocation::TextureCache { .. }));
}

#[test]
fn begin_frame_drops_evicted_entries_and_a_new_request_builds_again() {
    let mut cache = RenderTaskCache::new();
    let mut tree = new_tree(1);
    let first = cache
        .request_render_task(glyph_key(1), &wants_unallocated, &mut tree, None, false, build_blit)
        .unwrap();
    let second = cache
        .request_render_task(glyph_key(2), &wants_unallocated, &mut tree, None, false, build_blit)
        .unwrap();
    let next_index = Cell::new(0);
    cache.update(
        |_: TextureCacheUpdate| {
            next_index.set(next_index.get() + 1);
            room(next_index.get())
        },
        &mut tree,
    );
    let evicted = cache.get_cache_entry(&first).handle;
    // The store has dropped the content of the first key.
    cache.begin_frame(|handle: &TextureCacheHandle| *handle != evicted);
    assert_eq!(cache.find(&glyph_key(1)), None);
    assert!(cache.find(&glyph_key(2)).is_some());
    assert!(cache.cache_entries.get_opt(&first).is_none());
    assert!(cache.cache_entries.get_opt(&second).is_some());

    let mut tree = new_tree(2);
    let builds = Cell::new(0);
    let again = cache
        .request_render_task(glyph_key(1), &wants_unallocated, &mut tree, None, false, |tree| {
            builds.set(builds.get() + 1);
            build_blit(tree)
        })
        .unwrap();
    assert_eq!(builds.get(), 1);
    let entry = cache.get_cache_entry(&again);
    assert_eq!(entry.handle, TextureCacheHandle::invalid());
    assert!(entry.pending_render_task_id.is_some());
    // The slot is used again, under a new generation: the old handle stays stale.
    assert_eq!(again.index, first.index);
    assert_ne!(again.epoch, first.epoch);
    assert!(cache.cache_entries.get_opt(&first).is_none());
    // The key that stayed is served without building.
    let _ = cache
        .request_render_task(glyph_key(2), &|_: &TextureCacheHandle| false, &mut tree, None, false, |_| {
            panic!("nothing to build")
        })
        .unwrap();
    assert_eq!(tree.tasks.len(), 1);
}

#[test]
fn read_accessors_ask_the_store_about_the_entry() {
    let mut cache = RenderTaskCache::new();
    let mut tree = new_tree(1);
    let _ = cache
        .request_render_task(glyph_key(1), &wants_unallocated, &mut tree, None, false, build_blit)
        .unwrap();
    cache.update(|_: TextureCacheUpdate| room(6), &mut tree);
    let item = CacheItem {
        texture_id: TextureSource::TextureCache(CacheTextureId(46)),
        uv_rect_handle: GpuCacheHandle::new(),
        uv_rect: room(6).rect,
        texture_layer: 2,
    };
    let got = cache.get_cache_item_for_render_task(
        |handle: &TextureCacheHandle| {
            assert_eq!(*handle, room(6).handle);
            item
        },
        &glyph_key(1),
    );
    assert_eq!(got, item);
    assert!(cache.cache_item_is_allocated_for_render_task(
        |handle: &TextureCacheHandle| *handle == room(6).handle,
        &glyph_key(1),
    ));
}

#[test]
fn clear_empties_the_cache_and_stales_every_handle() {
    let mut cache = RenderTaskCache::new();
    let mut tree = new_tree(1);
    let handle = cache
        .request_render_task(glyph_key(1), &wants_unallocated, &mut tree, None, false, build_blit)
        .unwrap();
    cache.clear();
    assert_eq!(cache.find(&glyph_key(1)), None);
    assert!(cache.cache_entries.get_opt(&handle).is_none());
}

#[test]
fn free_list_reuses_slots_under_a_new_generation() {
    let mut list: FreeList<u32, RenderTaskCacheMarker> = FreeList::new();
    let a = list.insert(10);
    let b = list.insert(20);
    assert_eq!((a.index, a.epoch), (0, Epoch(0)));
    assert_eq!((b.index, b.epoch), (1, Epoch(0)));
    assert_eq!(*list.get(&a), 10);
    let weak_a = a.weak();
    let copy = weak_a;
    assert_eq!(list.get_opt(&weak_a), Some(&10));
    list.set(a.index, 11);
    assert_eq!(list.get_opt(&copy), Some(&11));
    assert_eq!(list.free(a), 11);
    assert_eq!(list.get_opt(&weak_a), None);
    let c = list.insert(30);
    assert_eq!((c.index, c.epoch), (0, Epoch(1)));
    assert_eq!(list.get_opt(&weak_a), None);
    assert_eq!(list.get_opt(&c.weak()), Some(&30));
    assert_eq!(list.get_opt(&b.weak()), Some(&20));
    list.clear();
    assert_eq!(list.get_opt(&b.weak()), None);
    assert_eq!(list.get_opt(&c.weak()), None);
    let d = list.insert(40);
    assert!(d.epoch.0 >= 1);
    assert_eq!(list.slots.len(), 2);
}

#[test]
fn update_is_ready_only_for_distinct_dynamic_pending_tasks() {
    let mut cache = RenderTaskCache::new();
    let mut tree = new_tree(1);
    assert!(cache.ready_for_update(&tree));
    let _ = cache
        .request_render_task(glyph_key(1), &wants_unallocated, &mut tree, None, false, build_blit)
        .unwrap();
    assert!(cache.ready_for_update(&tree));
    // A second entry whose builder hands back the task of the first.
    let shared = tree.cacheable_render_tasks[0];
    let _ = cache
        .request_render_task(glyph_key(2), &wants_unallocated, &mut tree, None, false, |tree| {
            (tree, Ok(shared))
        })
        .unwrap();
    assert!(!cache.ready_for_update(&tree));
    // A pending task that is no task of the tree at hand.
    let other_frame = new_tree(2);
    assert!(!cache.ready_for_update(&other_frame));

    let mut promoted = RenderTaskCache::new();
    let mut tree = new_tree(1);
    let _ = promoted
        .request_render_task(glyph_key(1), &wants_unallocated, &mut tree, None, false, build_blit)
        .unwrap();
    tree.tasks[0].location = RenderTaskLocation::TextureCache {
        texture: CacheTextureId(1),
        layer: 0,
        rect: DeviceIntRect::zero(),
    };
    assert!(!promoted.ready_for_update(&tree));
}

#[test]
fn cache_invariant_can_be_tested_at_run_time() {
    let mut cache = RenderTaskCache::new();
    let mut tree = new_tree(1);
    assert!(cache.is_well_formed());
    let first = cache
        .request_render_task(glyph_key(1), &wants_unallocated, &mut tree, None, false, build_blit)
        .unwrap();
    let _ = cache
        .request_render_task(glyph_key(2), &wants_unallocated, &mut tree, None, false, build_blit)
        .unwrap();
    assert!(cache.is_well_formed());
    cache.begin_frame(|_: &TextureCacheHandle| false);
    assert!(cache.is_well_formed());
    assert!(cache.cache_entries.is_well_formed());
    // A slot on the list of empty slots twice.
    let mut twice = RenderTaskCache::new();
    let mut tree = new_tree(1);
    let _ = twice
        .request_render_task(glyph_key(1), &wants_unallocated, &mut tree, None, false, build_blit)
        .unwrap();
    twice.begin_frame(|_: &TextureCacheHandle| false);
    twice.cache_entries.free.push(first.index);
    assert!(!twice.cache_entries.is_well_formed());
    assert!(!twice.is_well_formed());
    // One key in two slots.
    let mut doubled = RenderTaskCache::new();
    let mut tree = new_tree(1);
    let _ = doubled
        .request_render_task(glyph_key(1), &wants_unallocated, &mut tree, None, false, build_blit)
        .unwrap();
    let copy = doubled.cache_entries.slots[0].value.unwrap();
    let _ = doubled.cache_entries.insert(copy);
    assert!(doubled.cache_entries.is_well_formed());
    assert!(!doubled.is_well_formed());
}
