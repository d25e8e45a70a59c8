//! Clip masks: the task that composes the clips of a primitive into one
//! mask, and the cached chains that draw blurred box-shadow masks for it.

use vstd::prelude::*;
use crate::blur::{blur_chain_appended, id_at, lemma_downscale_steps_of_valid_size};
use crate::builders::mask_clear_mode;
use crate::cache::{
    made_cacheable, requested_entry, RenderTaskCache, RenderTaskCacheEntry,
    RenderTaskCacheEntryHandle,
};
use crate::keys::{BoxShadowCacheKey, RenderTaskCacheKey, RenderTaskCacheKeyKind};
use crate::scalar::Scalar;
use crate::task::{
    valid_task_size, CacheMaskTask, ClearMode, ClipRegionTask, RenderTask, RenderTaskId,
    RenderTaskKind, RenderTaskKindView, RenderTaskLocation, RenderTaskView,
};
use crate::tree::RenderTaskTree;
use crate::types::{
    ClipNodeRange, DevicePixelScale, DeviceSize, FrameBuilderConfig, GpuCacheAddress, LayoutPoint,
    LayoutRect, RenderTargetKind, SnapOffsets, SpatialNodeIndex, TextureCacheHandle,
};
use crate::units::{DeviceIntRect, DeviceIntSize};

verus! {

/// Whether a clip keeps what is inside its shape or what is outside.
#[derive(Clone, Copy, Debug, PartialEq, Eq, Structural)]
pub enum ClipMode {
    Clip,
    ClipOut,
}

/// How a clip node relates to the primitive it clips.
#[derive(Clone, Copy, Debug, PartialEq, Eq, Structural)]
pub struct ClipNodeFlags {
    pub same_spatial_node: bool,
    pub same_coord_system: bool,
}

/// The key of a blurred box-shadow mask with the size of the mask in device
/// pixels.
#[derive(Clone, Copy, Debug)]
pub struct SizedBoxShadowKey {
    pub size: DeviceIntSize,
    pub key: BoxShadowCacheKey,
}

/// A box-shadow clip: the blurred mask it needs and where that mask is
/// cached.
#[derive(Clone, Copy, Debug)]
pub struct BoxShadowClipSource {
    /// Size and key of the cached mask, once they are known.
    pub cache_key: Option<SizedBoxShadowKey>,
    /// The cache entry of the mask, once it has been requested.
    pub cache_handle: Option<RenderTaskCacheEntryHandle>,
    /// Where the rounded rectangle of the shadow is described in the GPU
    /// value cache.
    pub clip_data_address: GpuCacheAddress,
    /// The smallest rectangle that shows every distinct part of the shadow.
    pub minimal_shadow_rect: LayoutRect,
}

/// The shape of a clip node.
#[derive(Clone, Copy, Debug)]
pub enum ClipItem {
    Rectangle(LayoutRect, ClipMode),
    RoundedRectangle(LayoutRect, ClipMode),
    Image { rect: LayoutRect },
    BoxShadow(BoxShadowClipSource),
}

/// One clip node as the clip resolver hands it over.
#[derive(Clone, Copy, Debug)]
pub struct ClipNode {
    pub item: ClipItem,
    pub flags: ClipNodeFlags,
}

/// What a cached box-shadow mask is drawn from.
#[derive(Clone, Copy, Debug)]
pub struct BoxShadowChain {
    /// Size of the mask in device pixels.
    pub cache_size: DeviceIntSize,
    pub clip_data_address: GpuCacheAddress,
    pub local_pos: LayoutPoint,
    pub device_pixel_scale: DevicePixelScale,
    pub gpu_supports_fast_clears: bool,
    /// Blur deviation in device pixels, the same in both directions.
    pub blur_radius_dp: i32,
}

impl BoxShadowChain {
    /// The deviation of the blur, as a size.
    pub open spec fn std_deviation(self) -> DeviceSize {
        DeviceSize {
            width: Scalar::spec_from_int(self.blur_radius_dp as int),
            height: Scalar::spec_from_int(self.blur_radius_dp as int),
        }
    }

    /// The task that rasterises the rounded rectangle of the shadow.
    pub open spec fn mask_task(self) -> RenderTaskView {
        RenderTaskView {
            location: RenderTaskLocation::Dynamic(None, self.cache_size),
            children: Seq::empty(),
            kind: RenderTaskKindView::ClipRegion(
                ClipRegionTask {
                    clip_data_address: self.clip_data_address,
                    local_pos: self.local_pos,
                    device_pixel_scale: self.device_pixel_scale,
                },
            ),
            clear_mode: mask_clear_mode(self.gpu_supports_fast_clears),
            saved_index: None,
        }
    }

    /// Whether `after` is `before` with the chain of this shadow appended and
    /// `id` names the last task of the chain: first the task that rasterises
    /// the rounded rectangle, then the chain that blurs it into an alpha
    /// target cleared to zero, then the horizontal blur that ends that chain.
    pub open spec fn built(self, before: RenderTaskTree, after: RenderTaskTree, id: RenderTaskId)
        -> bool {
        let base = before.tasks.len() as int;
        let last = after.tasks.len() - 1;
        &&& after.task_data == before.task_data
        &&& after.cacheable_render_tasks == before.cacheable_render_tasks
        &&& after.next_saved == before.next_saved
        &&& after.frame_id == before.frame_id
        &&& last >= base + 2
        &&& forall|i: int| 0 <= i < base ==> after.tasks[i] == before.tasks[i]
        &&& after.tasks[base]@ == self.mask_task()
        &&& blur_chain_appended(
            after.tasks@.take(base + 1),
            before.frame_id,
            id_at(before.frame_id, base),
            self.std_deviation(),
            RenderTargetKind::Alpha,
            ClearMode::Zero,
            after.tasks@.take(last),
            after.tasks[last]@,
        )
        &&& id == id_at(before.frame_id, last)
    }

    /// Appends the chain of this shadow to `render_tasks` and returns the
    /// identifier of its last task.
    pub fn build(&self, render_tasks: &mut RenderTaskTree) -> (id: RenderTaskId)
        requires
            valid_task_size(self.cache_size),
            old(render_tasks).tasks.len() + 16 <= u32::MAX,
        ensures
            self.built(*old(render_tasks), *final(render_tasks), id),
            final(render_tasks).tasks.len() <= old(render_tasks).tasks.len() + 15,
    {
        let ghost before = *render_tasks;
        let fb_config = FrameBuilderConfig {
            gpu_supports_fast_clears: self.gpu_supports_fast_clears,
        };
        let mask_task = RenderTask::new_rounded_rect_mask(
            self.cache_size,
            self.clip_data_address,
            self.local_pos,
            self.device_pixel_scale,
            &fb_config,
        );
        assert(mask_task@ == self.mask_task());
        let mask_task_id = render_tasks.add(mask_task);
        let ghost with_mask = *render_tasks;
        let radius = Scalar::from_int(self.blur_radius_dp);
        proof {
            lemma_downscale_steps_of_valid_size(self.std_deviation(), self.cache_size);
        }
        let blur_render_task = RenderTask::new_blur(
            DeviceSize::new(radius, radius),
            mask_task_id,
            render_tasks,
            RenderTargetKind::Alpha,
            ClearMode::Zero,
        );
        let ghost with_blur = *render_tasks;
        let id = render_tasks.add(blur_render_task);
        proof {
            let base = before.tasks.len() as int;
            let last = render_tasks.tasks.len() - 1;
            assert(render_tasks.tasks@.take(base + 1) =~= with_mask.tasks@);
            assert(render_tasks.tasks@.take(last) =~= with_blur.tasks@);
        }
        id
    }
}

/// Whether a clip forces the mask to be cleared before it is drawn: a
/// rectangle that keeps its inside and lives in another coordinate system
/// than the mask.
pub open spec fn clip_needs_clear(node: ClipNode) -> bool {
    node.item matches ClipItem::Rectangle(_, ClipMode::Clip) && !node.flags.same_coord_system
}

/// Whether a mask over the clips of `range` is cleared before it is drawn:
/// always where clearing is cheap, else where a clip of the range forces it.
pub open spec fn mask_needs_clear(nodes: Seq<ClipNode>, range: ClipNodeRange, fast_clears: bool)
    -> bool {
    fast_clears || exists|i: int|
        0 <= i < range.count && clip_needs_clear(#[trigger] nodes[range.first + i])
}

/// The cache key of the blurred mask of a box shadow.
pub open spec fn box_shadow_key(info: BoxShadowClipSource) -> RenderTaskCacheKey {
    RenderTaskCacheKey {
        size: info.cache_key->0.size,
        kind: RenderTaskCacheKeyKind::BoxShadow(info.cache_key->0.key),
    }
}

/// What the blurred mask of a box shadow is drawn from.
pub open spec fn box_shadow_chain(
    info: BoxShadowClipSource,
    device_pixel_scale: DevicePixelScale,
    fast_clears: bool,
) -> BoxShadowChain {
    BoxShadowChain {
        cache_size: info.cache_key->0.size,
        clip_data_address: info.clip_data_address,
        local_pos: info.minimal_shadow_rect.origin,
        device_pixel_scale,
        gpu_supports_fast_clears: fast_clears,
        blur_radius_dp: info.cache_key->0.key.blur_radius_dp,
    }
}

/// What requesting the blurred mask of one box shadow does to the cache and
/// to the tree, given what the persistent store answers.
///
/// The entry of the shadow's key is looked up, or created without payload
/// and not opaque. If a task is pending for it, or the store answers that
/// the content need not be drawn, nothing else happens. Otherwise the
/// shadow's chain is appended to the tree, its last task is appended to the
/// tasks that are drawn unconditionally, and it becomes the pending task of
/// the entry.
pub open spec fn box_shadow_requested<R>(
    info: BoxShadowClipSource,
    device_pixel_scale: DevicePixelScale,
    fast_clears: bool,
    store_request: R,
    cache: Map<RenderTaskCacheKey, RenderTaskCacheEntry>,
    tree: RenderTaskTree,
    cache_after: Map<RenderTaskCacheKey, RenderTaskCacheEntry>,
    tree_after: RenderTaskTree,
) -> bool where R: Fn(&TextureCacheHandle) -> bool {
    let key = box_shadow_key(info);
    let found = requested_entry(cache, key, None, false);
    let untouched = cache_after == cache.insert(key, found) && tree_after == tree;
    if found.pending_render_task_id is Some {
        untouched
    } else {
        ||| store_request.ensures((&found.handle,), false) && untouched
        ||| store_request.ensures((&found.handle,), true) && exists|
            built: RenderTaskTree,
            id: RenderTaskId,
        | #[trigger]
            box_shadow_chain(info, device_pixel_scale, fast_clears).built(tree, built, id)
                && made_cacheable(built, id, tree_after) && cache_after == cache.insert(
                key,
                RenderTaskCacheEntry {
                    pending_render_task_id: Some(id),
                    user_data: None,
                    is_opaque: false,
                    handle: found.handle,
                },
            )
    }
}

/// What looking at one clip node does to the cache and to the tree: a box
/// shadow has its blurred mask requested, any other clip changes nothing.
pub open spec fn clip_node_requested<R>(
    node: ClipNode,
    device_pixel_scale: DevicePixelScale,
    fast_clears: bool,
    store_request: R,
    cache: Map<RenderTaskCacheKey, RenderTaskCacheEntry>,
    tree: RenderTaskTree,
    cache_after: Map<RenderTaskCacheKey, RenderTaskCacheEntry>,
    tree_after: RenderTaskTree,
) -> bool where R: Fn(&TextureCacheHandle) -> bool {
    match node.item {
        ClipItem::BoxShadow(info) => box_shadow_requested(
            info,
            device_pixel_scale,
            fast_clears,
            store_request,
            cache,
            tree,
            cache_after,
            tree_after,
        ),
        _ => cache_after == cache && tree_after == tree,
    }
}

/// Names a cache and a tree as the state between two clips.
pub open spec fn between(
    cache: Map<RenderTaskCacheKey, RenderTaskCacheEntry>,
    tree: RenderTaskTree,
) -> bool {
    true
}

/// Whether `cache_after` and `tree_after` are what `cache` and `tree` become
/// when the first `upto` clips of `range` are looked at in order.
pub open spec fn clip_nodes_requested<R>(
    nodes: Seq<ClipNode>,
    range: ClipNodeRange,
    upto: int,
    device_pixel_scale: DevicePixelScale,
    fast_clears: bool,
    store_request: R,
    cache: Map<RenderTaskCacheKey, RenderTaskCacheEntry>,
    tree: RenderTaskTree,
    cache_after: Map<RenderTaskCacheKey, RenderTaskCacheEntry>,
    tree_after: RenderTaskTree,
) -> bool where R: Fn(&TextureCacheHandle) -> bool
    decreases upto,
{
    if upto <= 0 {
        cache_after == cache && tree_after == tree
    } else {
        exists|cache_mid: Map<RenderTaskCacheKey, RenderTaskCacheEntry>, tree_mid: RenderTaskTree|
            #![trigger between(cache_mid, tree_mid)]
            between(cache_mid, tree_mid) && clip_nodes_requested(
                nodes,
                range,
                upto - 1,
                device_pixel_scale,
                fast_clears,
                store_request,
                cache,
                tree,
                cache_mid,
                tree_mid,
            ) && clip_node_requested(
                nodes[range.first + upto - 1],
                device_pixel_scale,
                fast_clears,
                store_request,
                cache_mid,
                tree_mid,
                cache_after,
                tree_after,
            )
    }
}

/// Whether the clips of `range` can be composed into a mask: the range lies
/// within `nodes`, and every box shadow in it has its cache key, with a
/// mask size that a task may have.
pub open spec fn clip_range_ready(nodes: Seq<ClipNode>, range: ClipNodeRange) -> bool {
    &&& range.first + range.count <= nodes.len()
    &&& forall|i: int|
        0 <= i < range.count ==> (#[trigger] nodes[range.first + i].item matches ClipItem::BoxShadow(
            info,
        ) ==> info.cache_key is Some && valid_task_size(info.cache_key->0.size))
}

/// `node` once its box shadow, if it is one, has been given `handle`.
pub open spec fn with_cache_handle(node: ClipNode, handle: RenderTaskCacheEntryHandle) -> ClipNode {
    match node.item {
        ClipItem::BoxShadow(info) => ClipNode {
            item: ClipItem::BoxShadow(BoxShadowClipSource { cache_handle: Some(handle), ..info }),
            flags: node.flags,
        },
        _ => node,
    }
}

impl RenderTask {
    /// The task that composes the clips of `clip_node_range` into a mask of
    /// the size of `outer_rect`.
    ///
    /// The clips are looked at in order. For every box shadow the blurred
    /// mask is requested from `cache`, which appends the chain that draws it
    /// to `render_tasks` where the content is not cached, and the shadow
    /// keeps the handle of its cache entry. The mask task itself depends on
    /// no task: the chains are drawn because the cache asked for them. It is
    /// cleared to one if the mask needs clearing, and otherwise not cleared.
    pub fn new_mask<R>(
        outer_rect: DeviceIntRect,
        clip_node_range: ClipNodeRange,
        root_spatial_node_index: SpatialNodeIndex,
        clip_nodes: &mut Vec<ClipNode>,
        cache: &mut RenderTaskCache,
        store_request: &R,
        render_tasks: &mut RenderTaskTree,
        snap_offsets: SnapOffsets,
        device_pixel_scale: DevicePixelScale,
        fb_config: &FrameBuilderConfig,
    ) -> (task: Self) where R: Fn(&TextureCacheHandle) -> bool
        requires
            valid_task_size(outer_rect.size),
            clip_range_ready(old(clip_nodes)@, clip_node_range),
            old(cache).wf(),
            old(cache).slot_count() + clip_node_range.count <= u32::MAX,
            old(render_tasks).tasks.len() + 16 * clip_node_range.count <= u32::MAX,
            forall|handle: TextureCacheHandle| store_request.requires((&handle,)),
        ensures
            task.location matches RenderTaskLocation::Dynamic(None, s) && s == outer_rect.size,
            task.children@ == Seq::<RenderTaskId>::empty(),
            task.kind == RenderTaskKind::CacheMask(
                CacheMaskTask {
                    actual_rect: outer_rect,
                    root_spatial_node_index,
                    clip_node_range,
                    snap_offsets,
                    device_pixel_scale,
                },
            ),
            task.clear_mode == mask_clear_mode(
                mask_needs_clear(
                    old(clip_nodes)@,
                    clip_node_range,
                    fb_config.gpu_supports_fast_clears,
                ),
            ),
            task.saved_index is None,
            final(cache).wf(),
            clip_nodes_requested(
                old(clip_nodes)@,
                clip_node_range,
                clip_node_range.count as int,
                device_pixel_scale,
                fb_config.gpu_supports_fast_clears,
                *store_request,
                old(cache)@,
                *old(render_tasks),
                final(cache)@,
                *final(render_tasks),
            ),
            final(clip_nodes).len() == old(clip_nodes).len(),
            forall|j: int|
                0 <= j < old(clip_nodes).len() && !(clip_node_range.first <= j
                    < clip_node_range.first + clip_node_range.count) ==> final(clip_nodes)[j] == old(
                    clip_nodes,
                )[j],
            forall|i: int|
                0 <= i < clip_node_range.count ==> {
                    let was = old(clip_nodes)[clip_node_range.first + i];
                    let now = #[trigger] final(clip_nodes)[clip_node_range.first + i];
                    match was.item {
                        ClipItem::BoxShadow(info) => now.item is BoxShadow
                            && now.item->BoxShadow_0.cache_handle is Some && now
                            == with_cache_handle(was, now.item->BoxShadow_0.cache_handle->0)
                            && final(cache).names(
                            now.item->BoxShadow_0.cache_handle->0,
                            box_shadow_key(info),
                        ),
                        _ => now == was,
                    }
                },
            old(cache).cache_entries.advances_to(final(cache).cache_entries),
            forall|handle: RenderTaskCacheEntryHandle, key: RenderTaskCacheKey|
                old(cache).names(handle, key) ==> final(cache).names(handle, key),
    {
        let fast_clears = fb_config.gpu_supports_fast_clears;
        let ghost nodes = clip_nodes@;
        let ghost cache0 = *cache;
        let ghost tree0 = *render_tasks;
        let mut needs_clear = fast_clears;
        let first: usize = clip_node_range.first as usize;
        let mut i: u32 = 0;
        while i < clip_node_range.count
            invariant
                nodes == old(clip_nodes)@,
                cache0 == *old(cache),
                tree0 == *old(render_tasks),
                fast_clears == fb_config.gpu_supports_fast_clears,
                first == clip_node_range.first,
                clip_range_ready(nodes, clip_node_range),
                forall|handle: TextureCacheHandle| store_request.requires((&handle,)),
                i <= clip_node_range.count,
                clip_nodes.len() == nodes.len(),
                cache.wf(),
                cache.slot_count() <= cache0.slot_count() + i,
                cache0.slot_count() + clip_node_range.count <= u32::MAX,
                render_tasks.tasks.len() <= tree0.tasks.len() + 16 * i,
                tree0.tasks.len() + 16 * clip_node_range.count <= u32::MAX,
                cache0.cache_entries.advances_to(cache.cache_entries),
                forall|handle: RenderTaskCacheEntryHandle, key: RenderTaskCacheKey|
                    cache0.names(handle, key) ==> cache.names(handle, key),
                needs_clear == (fast_clears || exists|k: int|
                    0 <= k < i && clip_needs_clear(#[trigger] nodes[clip_node_range.first + k])),
                clip_nodes_requested(
                    nodes,
                    clip_node_range,
                    i as int,
                    device_pixel_scale,
                    fast_clears,
                    *store_request,
                    cache0@,
                    tree0,
                    cache@,
                    *render_tasks,
                ),
                forall|j: int|
                    0 <= j < nodes.len() && !(clip_node_range.first <= j < clip_node_range.first
                        + i) ==> clip_nodes[j] == nodes[j],
                forall|k: int|
                    0 <= k < i ==> {
                        let was = nodes[clip_node_range.first + k];
                        let now = #[trigger] clip_nodes[clip_node_range.first + k];
                        match was.item {
                            ClipItem::BoxShadow(info) => now.item is BoxShadow
                                && now.item->BoxShadow_0.cache_handle is Some && now
                                == with_cache_handle(was, now.item->BoxShadow_0.cache_handle->0)
                                && cache.names(
                                now.item->BoxShadow_0.cache_handle->0,
                                box_shadow_key(info),
                            ),
                            _ => now == was,
                        }
                    },
            decreases clip_node_range.count - i,
        {
            let position: usize = first + i as usize;
            let node = clip_nodes[position];
            let ghost cache_mid = *cache;
            let ghost tree_mid = *render_tasks;
            assert(node == nodes[clip_node_range.first + i]);
            match node.item {
                ClipItem::BoxShadow(info) => {
                    let sized = info.cache_key.unwrap();
                    let chain = BoxShadowChain {
                        cache_size: sized.size,
                        clip_data_address: info.clip_data_address,
                        local_pos: info.minimal_shadow_rect.origin,
                        device_pixel_scale,
                        gpu_supports_fast_clears: fast_clears,
                        blur_radius_dp: sized.key.blur_radius_dp,
                    };
                    assert(chain == box_shadow_chain(info, device_pixel_scale, fast_clears));
                    let key = RenderTaskCacheKey {
                        size: sized.size,
                        kind: RenderTaskCacheKeyKind::BoxShadow(sized.key),
                    };
                    let builder = |tree: RenderTaskTree| -> (out: (
                        RenderTaskTree,
                        Result<RenderTaskId, ()>,
                    ))
                        requires
                            valid_task_size(chain.cache_size),
                            tree.tasks.len() + 16 <= u32::MAX,
                        ensures
                            out.1 is Ok,
                            chain.built(tree, out.0, out.1->Ok_0),
                            out.0.tasks.len() <= tree.tasks.len() + 15,
                        {
                            let mut tree = tree;
                            let id = chain.build(&mut tree);
                            (tree, Ok(id))
                        };
                    let requested = cache.request_render_task(
                        key,
                        store_request,
                        render_tasks,
                        None,
                        false,
                        builder,
                    );
                    proof {
                        assert(box_shadow_requested(
                            info,
                            device_pixel_scale,
                            fast_clears,
                            *store_request,
                            cache_mid@,
                            tree_mid,
                            cache@,
                            *render_tasks,
                        ));
                    }
                    let handle = requested.unwrap();
                    clip_nodes[position] = ClipNode {
                        item: ClipItem::BoxShadow(
                            BoxShadowClipSource { cache_handle: Some(handle), ..info },
                        ),
                        flags: node.flags,
                    };
                },
                ClipItem::Rectangle(_, ClipMode::Clip) => {
                    if !node.flags.same_coord_system {
                        needs_clear = true;
                    }
                },
                ClipItem::Rectangle(_, ClipMode::ClipOut) => {},
                ClipItem::RoundedRectangle(..) => {},
                ClipItem::Image { .. } => {},
            }
            proof {
                assert(between(cache_mid@, tree_mid));
                assert(clip_node_requested(
                    nodes[clip_node_range.first + i],
                    device_pixel_scale,
                    fast_clears,
                    *store_request,
                    cache_mid@,
                    tree_mid,
                    cache@,
                    *render_tasks,
                ));
                assert(clip_nodes_requested(
                    nodes,
                    clip_node_range,
                    i as int,
                    device_pixel_scale,
                    fast_clears,
                    *store_request,
                    cache0@,
                    tree0,
                    cache_mid@,
                    tree_mid,
                ));
                assert(clip_nodes_requested(
                    nodes,
                    clip_node_range,
                    i + 1,
                    device_pixel_scale,
                    fast_clears,
                    *store_request,
                    cache0@,
                    tree0,
                    cache@,
                    *render_tasks,
                ));
            }
            i += 1;
        }

        let clear_mode = if needs_clear {
            ClearMode::One
        } else {
            ClearMode::DontCare
        };
        RenderTask::with_dynamic_location(
            outer_rect.size,
            Vec::new(),
            RenderTaskKind::CacheMask(
                CacheMaskTask {
                    actual_rect: outer_rect,
                    clip_node_range,
                    root_spatial_node_index,
                    snap_offsets,
                    device_pixel_scale,
                },
            ),
            clear_mode,
        )
    }
}

/// Tells whether the clips of `range` can be composed into a mask: the range
/// lies within `nodes`, and every box shadow in it has its cache key, with a
/// mask size that a task may have.
pub fn clip_range_is_ready(nodes: &Vec<ClipNode>, range: &ClipNodeRange) -> (ready: bool)
    ensures
        ready == clip_range_ready(nodes@, *range),
{
    if range.first as u64 + range.count as u64 > nodes.len() as u64 {
        return false;
    }
    let first: usize = range.first as usize;
    let mut i: u32 = 0;
    while i < range.count
        invariant
            first == range.first,
            range.first + range.count <= nodes.len(),
            i <= range.count,
            forall|k: int|
                0 <= k < i ==> (#[trigger] nodes[range.first + k].item matches ClipItem::BoxShadow(
                    info,
                ) ==> info.cache_key is Some && valid_task_size(info.cache_key->0.size)),
        decreases range.count - i,
    {
        let node = nodes[first + i as usize];
        assert(node == nodes[range.first + i]);
        if let ClipItem::BoxShadow(info) = node.item {
            let ok = match info.cache_key {
                Some(sized) => 0 < sized.size.width && sized.size.width
                    <= crate::task::RENDER_TASK_SIZE_SANITY_CHECK && 0 < sized.size.height
                    && sized.size.height <= crate::task::RENDER_TASK_SIZE_SANITY_CHECK,
                None => false,
            };
            if !ok {
                return false;
            }
        }
        i += 1;
    }
    true
}

/// A mask over one clip that is a box shadow requests the blurred mask of
/// that shadow, once, under its size and key, and does nothing else to the
/// cache and to the tree.
pub proof fn lemma_single_shadow_is_requested<R>(
    nodes: Seq<ClipNode>,
    range: ClipNodeRange,
    device_pixel_scale: DevicePixelScale,
    fast_clears: bool,
    store_request: R,
    cache: Map<RenderTaskCacheKey, RenderTaskCacheEntry>,
    tree: RenderTaskTree,
    cache_after: Map<RenderTaskCacheKey, RenderTaskCacheEntry>,
    tree_after: RenderTaskTree,
) where R: Fn(&TextureCacheHandle) -> bool
    requires
        range.count == 1,
        nodes[range.first as int].item is BoxShadow,
        clip_nodes_requested(
            nodes,
            range,
            1,
            device_pixel_scale,
            fast_clears,
            store_request,
            cache,
            tree,
            cache_after,
            tree_after,
        ),
    ensures
        box_shadow_requested(
            nodes[range.first as int].item->BoxShadow_0,
            device_pixel_scale,
            fast_clears,
            store_request,
            cache,
            tree,
            cache_after,
            tree_after,
        ),
{
    let (cache_mid, tree_mid) = choose|
        cache_mid: Map<RenderTaskCacheKey, RenderTaskCacheEntry>,
        tree_mid: RenderTaskTree,
    |
        #![trigger between(cache_mid, tree_mid)]
        between(cache_mid, tree_mid) && clip_nodes_requested(
            nodes,
            range,
            0,
            device_pixel_scale,
            fast_clears,
            store_request,
            cache,
            tree,
            cache_mid,
            tree_mid,
        ) && clip_node_requested(
            nodes[range.first + 1 - 1],
            device_pixel_scale,
            fast_clears,
            store_request,
            cache_mid,
            tree_mid,
            cache_after,
            tree_after,
        );
    assert(cache_mid == cache && tree_mid == tree);
}

/// Requesting the blurred mask of a shadow whose entry has a task pending,
/// or whose content the store still has, builds nothing: the tree and the
/// cache stay as they are.
pub proof fn lemma_cached_shadow_builds_nothing<R>(
    info: BoxShadowClipSource,
    device_pixel_scale: DevicePixelScale,
    fast_clears: bool,
    store_request: R,
    cache: Map<RenderTaskCacheKey, RenderTaskCacheEntry>,
    tree: RenderTaskTree,
    cache_after: Map<RenderTaskCacheKey, RenderTaskCacheEntry>,
    tree_after: RenderTaskTree,
) where R: Fn(&TextureCacheHandle) -> bool
    requires
        cache.contains_key(box_shadow_key(info)),
        cache[box_shadow_key(info)].pending_render_task_id is Some || forall|wanted: bool|
            store_request.ensures((&cache[box_shadow_key(info)].handle,), wanted) ==> !wanted,
        box_shadow_requested(
            info,
            device_pixel_scale,
            fast_clears,
            store_request,
            cache,
            tree,
            cache_after,
            tree_after,
        ),
    ensures
        cache_after == cache,
        tree_after == tree,
{
    let key = box_shadow_key(info);
    assert(cache.insert(key, cache[key]) =~= cache);
}

/// Requesting the blurred mask of a shadow that has no entry, from a store
/// that wants the content of every handle without allocation drawn,
/// appends the chain of the shadow to the tree. The last task of the chain
/// becomes the last of the tasks that are drawn unconditionally and the
/// pending task of a new entry, which has no payload, is not opaque and has
/// no place in the store yet.
pub proof fn lemma_new_shadow_is_built<R>(
    info: BoxShadowClipSource,
    device_pixel_scale: DevicePixelScale,
    fast_clears: bool,
    store_request: R,
    cache: Map<RenderTaskCacheKey, RenderTaskCacheEntry>,
    tree: RenderTaskTree,
    cache_after: Map<RenderTaskCacheKey, RenderTaskCacheEntry>,
    tree_after: RenderTaskTree,
) where R: Fn(&TextureCacheHandle) -> bool
    requires
        !cache.contains_key(box_shadow_key(info)),
        forall|wanted: bool|
            store_request.ensures((&TextureCacheHandle::spec_invalid(),), wanted) ==> wanted,
        box_shadow_requested(
            info,
            device_pixel_scale,
            fast_clears,
            store_request,
            cache,
            tree,
            cache_after,
            tree_after,
        ),
    ensures
        exists|built: RenderTaskTree, id: RenderTaskId| #[trigger]
            box_shadow_chain(info, device_pixel_scale, fast_clears).built(tree, built, id)
                && made_cacheable(built, id, tree_after)
                && tree_after.cacheable_render_tasks@.last() == id && cache_after
                == cache.insert(
                box_shadow_key(info),
                RenderTaskCacheEntry {
                    pending_render_task_id: Some(id),
                    user_data: None,
                    is_opaque: false,
                    handle: TextureCacheHandle::spec_invalid(),
                },
            ),
{
    let key = box_shadow_key(info);
    let found = requested_entry(cache, key, None, false);
    assert(!store_request.ensures((&found.handle,), false));
    let (built, id) = choose|built: RenderTaskTree, id: RenderTaskId| #[trigger]
        box_shadow_chain(info, device_pixel_scale, fast_clears).built(tree, built, id)
            && made_cacheable(built, id, tree_after) && cache_after == cache.insert(
            key,
            RenderTaskCacheEntry {
                pending_render_task_id: Some(id),
                user_data: None,
                is_opaque: false,
                handle: found.handle,
            },
        );
    assert(box_shadow_chain(info, device_pixel_scale, fast_clears).built(tree, built, id)
        && made_cacheable(built, id, tree_after) && tree_after.cacheable_render_tasks@.last()
        == id && cache_after == cache.insert(
        box_shadow_key(info),
        RenderTaskCacheEntry {
            pending_render_task_id: Some(id),
            user_data: None,
            is_opaque: false,
            handle: TextureCacheHandle::spec_invalid(),
        },
    ));
}

} // verus!
