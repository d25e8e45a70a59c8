//! The cross-frame task cache: which content already lives in the persistent
//! texture store, and which tasks of the current frame are about to draw
//! content into it.

use vstd::prelude::*;
use crate::freelist::{FreeList, WeakFreeListHandle};
use crate::keys::RenderTaskCacheKey;
use crate::scalar::Scalar;
use crate::task::{CacheItem, RenderTask, RenderTaskId, RenderTaskLocation};
use crate::tree::RenderTaskTree;
use crate::types::{
    CacheTextureId, DeviceSize, Eviction, FrameId, ImageDescriptor, ImageFormat, LayerIndex,
    RenderTargetKind, SavedTargetIndex, TextureCacheHandle, TextureFilter, UvRectKind,
};
use crate::units::{DeviceIntRect, DeviceIntSize};

verus! {

/// Names the free list of the task cache in the type of its handles. Nothing
/// stores a value of it.
#[derive(Clone, Copy, Debug)]
pub enum RenderTaskCacheMarker {
    Marker,
}

/// Non-owning handle to a cache entry. It goes stale when the entry is
/// removed.
pub type RenderTaskCacheEntryHandle = WeakFreeListHandle<RenderTaskCacheMarker>;

/// One piece of cached content.
#[derive(Clone, Copy, Debug)]
pub struct RenderTaskCacheEntry {
    /// The task that draws the content in the current frame, until its
    /// output has been given a place in the persistent store.
    pub pending_render_task_id: Option<RenderTaskId>,
    /// Three numbers handed through to the GPU with the content.
    pub user_data: Option<[Scalar; 3]>,
    pub is_opaque: bool,
    /// Where the content lives in the persistent store.
    pub handle: TextureCacheHandle,
}

/// A cache entry with the key it is found by.
#[derive(Clone, Copy, Debug)]
pub struct KeyedEntry {
    pub key: RenderTaskCacheKey,
    pub entry: RenderTaskCacheEntry,
}

/// The cache: entries in a free list, at most one per key.
#[derive(Debug)]
pub struct RenderTaskCache {
    pub cache_entries: FreeList<KeyedEntry, RenderTaskCacheMarker>,
}

impl RenderTaskCache {
    /// Whether slot `i` holds the entry of `key`.
    pub open spec fn slot_has_key(self, i: int, key: RenderTaskCacheKey) -> bool {
        &&& 0 <= i < self.cache_entries.slots.len()
        &&& self.cache_entries.slots[i].value matches Some(keyed) && keyed.key == key
    }

    /// The invariant of the cache: its free list is well formed and no key
    /// has two entries.
    pub open spec fn wf(self) -> bool {
        &&& self.cache_entries.wf()
        &&& forall|i: int, j: int, key: RenderTaskCacheKey|
            #![trigger self.slot_has_key(i, key), self.slot_has_key(j, key)]
            self.slot_has_key(i, key) && self.slot_has_key(j, key) ==> i == j
    }

    /// Whether `key` has an entry.
    pub open spec fn has_key(self, key: RenderTaskCacheKey) -> bool {
        exists|i: int| self.slot_has_key(i, key)
    }

    /// The slot of the entry of `key`.
    pub open spec fn slot_of(self, key: RenderTaskCacheKey) -> int {
        choose|i: int| self.slot_has_key(i, key)
    }

    /// Whether `handle` names the entry of `key`.
    pub open spec fn names(self, handle: RenderTaskCacheEntryHandle, key: RenderTaskCacheKey)
        -> bool {
        &&& self.cache_entries.holds(handle.index, handle.epoch)
        &&& self.cache_entries.value_at(handle.index).key == key
    }

    /// Number of slots the cache has ever used at once.
    pub open spec fn slot_count(self) -> nat {
        self.cache_entries.slots.len() as nat
    }
}

impl View for RenderTaskCache {
    type V = Map<RenderTaskCacheKey, RenderTaskCacheEntry>;

    /// The cache as a map from keys to entries.
    open spec fn view(&self) -> Map<RenderTaskCacheKey, RenderTaskCacheEntry> {
        Map::new(
            |key: RenderTaskCacheKey| self.has_key(key),
            |key: RenderTaskCacheKey|
                self.cache_entries.slots[self.slot_of(key)].value->0.entry,
        )
    }
}

impl RenderTaskCache {
    /// An empty cache.
    pub fn new() -> (cache: Self)
        ensures
            cache.wf(),
            cache@ == Map::<RenderTaskCacheKey, RenderTaskCacheEntry>::empty(),
            cache.slot_count() == 0,
    {
        let cache = RenderTaskCache { cache_entries: FreeList::new() };
        assert(cache@ =~= Map::<RenderTaskCacheKey, RenderTaskCacheEntry>::empty());
        cache
    }

    /// Removes every entry. Handles to them go stale for good: the
    /// generation of every slot that was in use is over.
    pub fn clear(&mut self)
        requires
            old(self).wf(),
        ensures
            final(self).wf(),
            final(self)@ == Map::<RenderTaskCacheKey, RenderTaskCacheEntry>::empty(),
            final(self).slot_count() == old(self).slot_count(),
            old(self).cache_entries.advances_to(final(self).cache_entries),
            forall|handle: RenderTaskCacheEntryHandle, key: RenderTaskCacheKey|
                !final(self).names(handle, key),
            forall|handle: RenderTaskCacheEntryHandle, key: RenderTaskCacheKey|
                #![trigger old(self).names(handle, key)]
                old(self).names(handle, key) ==> final(self).cache_entries.retired(
                    handle.index,
                    handle.epoch,
                ),
    {
        self.cache_entries.clear();
        assert(self@ =~= Map::<RenderTaskCacheKey, RenderTaskCacheEntry>::empty());
    }

    /// The slot of the entry of `key`, if it has one.
    pub fn find(&self, key: &RenderTaskCacheKey) -> (found: Option<u32>)
        requires
            self.wf(),
        ensures
            found matches Some(i) ==> self.slot_has_key(i as int, *key),
            found is None ==> !self.has_key(*key),
            found is Some <==> self@.contains_key(*key),
    {
        let mut i: usize = 0;
        while i < self.cache_entries.slots.len()
            invariant
                self.wf(),
                i <= self.cache_entries.slots.len(),
                forall|j: int| 0 <= j < i ==> !self.slot_has_key(j, *key),
            decreases self.cache_entries.slots.len() - i,
        {
            match &self.cache_entries.slots[i].value {
                Some(keyed) => {
                    if keyed.key == *key {
                        assert(self.slot_has_key(i as int, *key));
                        return Some(i as u32);
                    }
                },
                None => {},
            }
            i += 1;
        }
        None
    }

    /// The entry that `handle` names. A stale handle is not accepted.
    pub fn get_cache_entry(&self, handle: &RenderTaskCacheEntryHandle) -> (entry:
        &RenderTaskCacheEntry)
        requires
            self.cache_entries.holds(handle.index, handle.epoch),
        ensures
            *entry == self.cache_entries.value_at(handle.index).entry,
            forall|key: RenderTaskCacheKey|
                self.wf() && self.names(*handle, key) ==> self@.contains_key(key) && *entry
                    == self@[key],
    {
        proof {
            if self.wf() {
                let key = self.cache_entries.value_at(handle.index).key;
                self.lemma_slot_is_entry(handle.index as int, key);
            }
        }
        &self.cache_entries.slots[handle.index as usize].value.as_ref().unwrap().entry
    }

    /// The slot that holds the entry of `key` holds what the map view has
    /// for `key`.
    pub proof fn lemma_slot_is_entry(self, i: int, key: RenderTaskCacheKey)
        requires
            self.wf(),
            self.slot_has_key(i, key),
        ensures
            self@.contains_key(key),
            self.slot_of(key) == i,
            self@[key] == self.cache_entries.slots[i].value->0.entry,
    {
        assert(self.has_key(key));
        assert(self.slot_has_key(self.slot_of(key), key));
    }
}

/// The entry that a key gets when it is first requested: nothing pending,
/// no place in the persistent store yet.
pub open spec fn fresh_entry(user_data: Option<[Scalar; 3]>, is_opaque: bool)
    -> RenderTaskCacheEntry {
    RenderTaskCacheEntry {
        pending_render_task_id: None,
        user_data,
        is_opaque,
        handle: TextureCacheHandle::spec_invalid(),
    }
}

/// The entry that a request for `key` finds: the one the cache has, or a
/// fresh one.
pub open spec fn requested_entry(
    cache: Map<RenderTaskCacheKey, RenderTaskCacheEntry>,
    key: RenderTaskCacheKey,
    user_data: Option<[Scalar; 3]>,
    is_opaque: bool,
) -> RenderTaskCacheEntry {
    if cache.contains_key(key) {
        cache[key]
    } else {
        fresh_entry(user_data, is_opaque)
    }
}

/// Whether `after` is `built` with `id` appended to the tasks that are drawn
/// unconditionally.
pub open spec fn made_cacheable(built: RenderTaskTree, id: RenderTaskId, after: RenderTaskTree)
    -> bool {
    &&& after.tasks == built.tasks
    &&& after.task_data == built.task_data
    &&& after.cacheable_render_tasks@ == built.cacheable_render_tasks@.push(id)
    &&& after.next_saved == built.next_saved
    &&& after.frame_id == built.frame_id
}

/// What a request for `key` does, given what the persistent store answers
/// (`store_request`) and what the builder of the content does (`builder`).
///
/// The entry of `key` is looked up, or created. If a task is already pending
/// for it, nothing else happens. Otherwise the store is asked whether the
/// entry's content has to be drawn. If not, nothing else happens. If so, the
/// builder runs on the tree. Where it succeeds with a task, that task is
/// appended to the tasks that are drawn unconditionally and becomes the
/// pending task of the entry, which takes the given payload and opacity.
/// Where it fails, the request fails, the tree is as the builder left it and
/// the entry is as it was found.
pub open spec fn request_outcome<R, F>(
    before: Map<RenderTaskCacheKey, RenderTaskCacheEntry>,
    key: RenderTaskCacheKey,
    user_data: Option<[Scalar; 3]>,
    is_opaque: bool,
    tree: RenderTaskTree,
    store_request: R,
    builder: F,
    after: Map<RenderTaskCacheKey, RenderTaskCacheEntry>,
    tree_after: RenderTaskTree,
    succeeded: bool,
) -> bool where
    R: Fn(&TextureCacheHandle) -> bool,
    F: FnOnce(RenderTaskTree) -> (RenderTaskTree, Result<RenderTaskId, ()>),
 {
    let found = requested_entry(before, key, user_data, is_opaque);
    let untouched = after == before.insert(key, found) && tree_after == tree && succeeded;
    if found.pending_render_task_id is Some {
        untouched
    } else {
        ||| store_request.ensures((&found.handle,), false) && untouched
        ||| store_request.ensures((&found.handle,), true) && exists|
            built: RenderTaskTree,
            outcome: Result<RenderTaskId, ()>,
        | #[trigger]
            builder.ensures((tree,), (built, outcome)) && match outcome {
                Ok(id) => {
                    &&& made_cacheable(built, id, tree_after)
                    &&& after == before.insert(
                        key,
                        RenderTaskCacheEntry {
                            pending_render_task_id: Some(id),
                            user_data,
                            is_opaque,
                            handle: found.handle,
                        },
                    )
                    &&& succeeded
                },
                Err(_) => {
                    &&& tree_after == built
                    &&& after == before.insert(key, found)
                    &&& !succeeded
                },
            }
    }
}

impl RenderTaskCache {
    /// Storing an entry for `key` in slot `i`, which was empty or held the
    /// entry of `key`, gives the map with that entry for `key`.
    proof fn lemma_put(self, later: Self, i: int, key: RenderTaskCacheKey, entry: RenderTaskCacheEntry)
        requires
            self.wf(),
            later.cache_entries.wf(),
            0 <= i < later.cache_entries.slots.len(),
            self.cache_entries.slots.len() <= later.cache_entries.slots.len()
                <= self.cache_entries.slots.len() + 1,
            forall|j: int|
                0 <= j < self.cache_entries.slots.len() && j != i
                    ==> later.cache_entries.slots[j] == self.cache_entries.slots[j],
            i < self.cache_entries.slots.len() ==> later.cache_entries.slots.len()
                == self.cache_entries.slots.len(),
            later.cache_entries.slots[i].value == Some(KeyedEntry { key, entry }),
            self.slot_has_key(i, key) || (!self.has_key(key) && (i
                < self.cache_entries.slots.len() ==> self.cache_entries.slots[i].value is None)),
        ensures
            later.wf(),
            later@ == self@.insert(key, entry),
    {
        assert forall|a: int, b: int, k: RenderTaskCacheKey|
            #![trigger later.slot_has_key(a, k), later.slot_has_key(b, k)]
            later.slot_has_key(a, k) && later.slot_has_key(b, k) implies a == b by {
            if a != i {
                assert(self.slot_has_key(a, k));
            }
            if b != i {
                assert(self.slot_has_key(b, k));
            }
        }
        assert(later.slot_has_key(i, key));
        later.lemma_slot_is_entry(i, key);
        assert forall|k: RenderTaskCacheKey| k != key implies (later.has_key(k) == self.has_key(k))
            && (self.has_key(k) ==> later@[k] == self@[k]) by {
            if later.has_key(k) {
                let a = later.slot_of(k);
                assert(later.slot_has_key(a, k));
                assert(a != i);
                assert(self.slot_has_key(a, k));
            }
            if self.has_key(k) {
                let a = self.slot_of(k);
                assert(self.slot_has_key(a, k));
                assert(a != i);
                assert(later.slot_has_key(a, k));
                later.lemma_slot_is_entry(a, k);
                self.lemma_slot_is_entry(a, k);
            }
        }
        assert(later@ =~= self@.insert(key, entry));
    }

    /// Requests the content of `key`. See `request_outcome` for what happens
    /// to the cache and to the tree. The handle returned names the entry of
    /// `key`; handles to other entries are not affected.
    pub fn request_render_task<R, F>(
        &mut self,
        key: RenderTaskCacheKey,
        store_request: &R,
        render_tasks: &mut RenderTaskTree,
        user_data: Option<[Scalar; 3]>,
        is_opaque: bool,
        f: F,
    ) -> (result: Result<RenderTaskCacheEntryHandle, ()>) where
        R: Fn(&TextureCacheHandle) -> bool,
        F: FnOnce(RenderTaskTree) -> (RenderTaskTree, Result<RenderTaskId, ()>),

        requires
            old(self).wf(),
            old(self)@.contains_key(key) || old(self).slot_count() < u32::MAX,
            forall|handle: TextureCacheHandle| store_request.requires((&handle,)),
            f.requires((*old(render_tasks),)),
        ensures
            final(self).wf(),
            request_outcome(
                old(self)@,
                key,
                user_data,
                is_opaque,
                *old(render_tasks),
                *store_request,
                f,
                final(self)@,
                *final(render_tasks),
                result is Ok,
            ),
            final(self)@.contains_key(key),
            result matches Ok(handle) ==> final(self).names(handle, key),
            old(self).cache_entries.advances_to(final(self).cache_entries),
            old(self).slot_count() <= final(self).slot_count() <= old(self).slot_count() + 1,
            forall|handle: RenderTaskCacheEntryHandle, other: RenderTaskCacheKey|
                old(self).names(handle, other) ==> final(self).names(handle, other),
    {
        let ghost before = *self;
        let ghost found = requested_entry(self@, key, user_data, is_opaque);
        let index: u32 = match self.find(&key) {
            Some(index) => {
                proof {
                    self.lemma_slot_is_entry(index as int, key);
                    assert(self@ =~= before@.insert(key, found));
                }
                index
            },
            None => {
                let entry = RenderTaskCacheEntry {
                    pending_render_task_id: None,
                    user_data,
                    is_opaque,
                    handle: TextureCacheHandle::invalid(),
                };
                let id = self.cache_entries.insert(KeyedEntry { key, entry });
                proof {
                    before.lemma_put(*self, id.index as int, key, entry);
                }
                id.index
            },
        };
        let ghost looked_up = *self;
        proof {
            assert(self.slot_has_key(index as int, key));
            self.lemma_slot_is_entry(index as int, key);
        }
        let epoch = self.cache_entries.slots[index as usize].epoch;
        let keyed: KeyedEntry = self.cache_entries.slots[index as usize].value.unwrap();
        assert(keyed.entry == found);
        let handle = WeakFreeListHandle { index, epoch, _marker: core::marker::PhantomData };
        if keyed.entry.pending_render_task_id.is_none() {
            if store_request(&keyed.entry.handle) {
                let mut taken = RenderTaskTree {
                    tasks: Vec::new(),
                    task_data: Vec::new(),
                    cacheable_render_tasks: Vec::new(),
                    next_saved: SavedTargetIndex(0),
                    frame_id: FrameId::invalid(),
                };
                core::mem::swap(render_tasks, &mut taken);
                let (built, outcome) = f(taken);
                *render_tasks = built;
                match outcome {
                    Err(_) => {
                        return Err(());
                    },
                    Ok(render_task_id) => {
                        render_tasks.cacheable_render_tasks.push(render_task_id);
                        let entry = RenderTaskCacheEntry {
                            pending_render_task_id: Some(render_task_id),
                            user_data,
                            is_opaque,
                            handle: keyed.entry.handle,
                        };
                        self.cache_entries.set(index, KeyedEntry { key, entry });
                        proof {
                            looked_up.lemma_put(*self, index as int, key, entry);
                            assert(self@ =~= before@.insert(key, entry));
                        }
                    },
                }
            }
        }
        Ok(handle)
    }
}

/// What the persistent store is asked to make room for.
#[derive(Clone, Copy, Debug)]
pub struct TextureCacheUpdate {
    /// The allocation to reuse or replace.
    pub handle: TextureCacheHandle,
    pub descriptor: ImageDescriptor,
    pub filter: TextureFilter,
    pub user_data: [Scalar; 3],
    pub uv_rect_kind: UvRectKind,
    pub eviction: Eviction,
}

/// The room that the persistent store made.
#[derive(Clone, Copy, Debug)]
pub struct CacheAllocation {
    pub handle: TextureCacheHandle,
    pub texture: CacheTextureId,
    pub layer: LayerIndex,
    pub rect: DeviceIntRect,
}

/// The pixel format of the persistent copy of a target: four channels for
/// colour, one for alpha.
pub open spec fn format_for(kind: RenderTargetKind) -> ImageFormat {
    match kind {
        RenderTargetKind::Color => ImageFormat::BGRA8,
        RenderTargetKind::Alpha => ImageFormat::R8,
    }
}

/// What the store is asked for the pending task of an entry: room of the
/// task's size in the format of its target, sampled linearly, evicted
/// eagerly, with the entry's payload or zeros.
pub open spec fn update_request(entry: RenderTaskCacheEntry, task: RenderTask)
    -> TextureCacheUpdate {
    let size = task.spec_dynamic_size();
    TextureCacheUpdate {
        handle: entry.handle,
        descriptor: ImageDescriptor::spec_new(
            size.width,
            size.height,
            format_for(task.spec_target_kind()),
            entry.is_opaque,
            false,
        ),
        filter: TextureFilter::Linear,
        user_data: match entry.user_data {
            Some(data) => data,
            None => [Scalar::spec_from_int(0), Scalar::spec_from_int(0), Scalar::spec_from_int(0)],
        },
        uv_rect_kind: task.spec_uv_rect_kind(),
        eviction: Eviction::Eager,
    }
}

/// `task` moved to the room that the store made for it.
pub open spec fn promoted(task: RenderTask, room: CacheAllocation) -> RenderTask {
    RenderTask {
        location: RenderTaskLocation::TextureCache {
            texture: room.texture,
            layer: room.layer,
            rect: room.rect,
        },
        ..task
    }
}

/// `entry` once its pending task has been given the room `room`.
pub open spec fn settled(entry: RenderTaskCacheEntry, room: CacheAllocation)
    -> RenderTaskCacheEntry {
    RenderTaskCacheEntry { pending_render_task_id: None, handle: room.handle, ..entry }
}

impl RenderTaskCache {
    /// Whether `update` can run: every pending task is a task of `tree` with
    /// a dynamic location and texture coordinates, and no task is pending
    /// for two entries.
    pub open spec fn pending_tasks_ready(self, tree: RenderTaskTree) -> bool {
        &&& forall|key: RenderTaskCacheKey|
            #![trigger self@[key]]
            self@.contains_key(key) && self@[key].pending_render_task_id is Some ==> {
                let id = self@[key].pending_render_task_id->0;
                &&& tree.contains(id)
                &&& tree.tasks[id.index as int].location is Dynamic
                &&& !(tree.tasks[id.index as int].kind is CacheMask)
            }
        &&& forall|a: RenderTaskCacheKey, b: RenderTaskCacheKey|
            #![trigger self@[a], self@[b]]
            self@.contains_key(a) && self@.contains_key(b) && a != b
                && self@[a].pending_render_task_id is Some
                && self@[b].pending_render_task_id is Some
                ==> self@[a].pending_render_task_id->0.index
                != self@[b].pending_render_task_id->0.index
    }

    /// Drops the entries whose content the persistent store has evicted:
    /// an entry stays exactly if `is_allocated` answers yes for its handle.
    /// Handles to dropped entries go stale for good: the generation of
    /// their slot is over, so that no later entry in that slot answers to
    /// them. The other handles keep naming their entries.
    pub fn begin_frame<A>(&mut self, is_allocated: A) where A: Fn(&TextureCacheHandle) -> bool
        requires
            old(self).wf(),
            forall|handle: TextureCacheHandle| is_allocated.requires((&handle,)),
        ensures
            final(self).wf(),
            forall|key: RenderTaskCacheKey|
                #![trigger final(self)@.contains_key(key)]
                final(self)@.contains_key(key) ==> old(self)@.contains_key(key) && final(self)@[key]
                    == old(self)@[key] && is_allocated.ensures((&old(self)@[key].handle,), true),
            forall|key: RenderTaskCacheKey|
                #![trigger old(self)@.contains_key(key)]
                old(self)@.contains_key(key) && !final(self)@.contains_key(key)
                    ==> is_allocated.ensures((&old(self)@[key].handle,), false),
            old(self).cache_entries.advances_to(final(self).cache_entries),
            final(self).slot_count() == old(self).slot_count(),
            forall|handle: RenderTaskCacheEntryHandle, key: RenderTaskCacheKey|
                #![trigger final(self).names(handle, key)]
                final(self).names(handle, key) <==> old(self).names(handle, key) && final(
                    self
                )@.contains_key(key),
            forall|handle: RenderTaskCacheEntryHandle, key: RenderTaskCacheKey|
                #![trigger old(self).names(handle, key)]
                old(self).names(handle, key) && !final(self)@.contains_key(key) ==> final(
                    self
                ).cache_entries.retired(handle.index, handle.epoch),
    {
        let ghost before = *self;
        let mut i: usize = 0;
        while i < self.cache_entries.slots.len()
            invariant
                before == *old(self),
                before.wf(),
                self.cache_entries.wf(),
                forall|handle: TextureCacheHandle| is_allocated.requires((&handle,)),
                self.cache_entries.slots.len() == before.cache_entries.slots.len(),
                i <= self.cache_entries.slots.len(),
                before.cache_entries.advances_to(self.cache_entries),
                forall|j: int|
                    i <= j < self.cache_entries.slots.len() ==> self.cache_entries.slots[j]
                        == before.cache_entries.slots[j],
                forall|j: int|
                    #![trigger self.cache_entries.slots[j]]
                    0 <= j < i ==> {
                        let was = before.cache_entries.slots[j];
                        let now = self.cache_entries.slots[j];
                        match was.value {
                            None => now == was,
                            Some(keyed) => {
                                ||| now == was && is_allocated.ensures((&keyed.entry.handle,), true)
                                ||| now.value is None && now.epoch.0 > was.epoch.0
                                    && is_allocated.ensures((&keyed.entry.handle,), false)
                            },
                        }
                    },
            decreases self.cache_entries.slots.len() - i,
        {
            let retain = match &self.cache_entries.slots[i].value {
                Some(keyed) => is_allocated(&keyed.entry.handle),
                None => true,
            };
            if !retain {
                let _ = self.cache_entries.free_slot(i as u32);
            }
            i += 1;
        }
        proof {
            before.lemma_after_removals(*self, is_allocated);
        }
    }

    /// What the map view and the handles are after some entries were
    /// removed, slot by slot, by what `is_allocated` answered.
    proof fn lemma_after_removals<A>(self, later: Self, is_allocated: A) where
        A: Fn(&TextureCacheHandle) -> bool,

        requires
            self.wf(),
            later.cache_entries.wf(),
            later.cache_entries.slots.len() == self.cache_entries.slots.len(),
            forall|j: int|
                #![trigger later.cache_entries.slots[j]]
                0 <= j < self.cache_entries.slots.len() ==> {
                    let was = self.cache_entries.slots[j];
                    let now = later.cache_entries.slots[j];
                    match was.value {
                        None => now == was,
                        Some(keyed) => {
                            ||| now == was && is_allocated.ensures((&keyed.entry.handle,), true)
                            ||| now.value is None && now.epoch.0 > was.epoch.0
                                && is_allocated.ensures((&keyed.entry.handle,), false)
                        },
                    }
                },
        ensures
            later.wf(),
            forall|key: RenderTaskCacheKey|
                #![trigger later@.contains_key(key)]
                later@.contains_key(key) ==> self@.contains_key(key) && later@[key] == self@[key]
                    && is_allocated.ensures((&self@[key].handle,), true),
            forall|key: RenderTaskCacheKey|
                #![trigger self@.contains_key(key)]
                self@.contains_key(key) && !later@.contains_key(key) ==> is_allocated.ensures(
                    (&self@[key].handle,),
                    false,
                ),
            forall|handle: RenderTaskCacheEntryHandle, key: RenderTaskCacheKey|
                #![trigger later.names(handle, key)]
                later.names(handle, key) <==> self.names(handle, key) && later@.contains_key(key),
            forall|handle: RenderTaskCacheEntryHandle, key: RenderTaskCacheKey|
                #![trigger self.names(handle, key)]
                self.names(handle, key) && !later@.contains_key(key) ==> later.cache_entries.retired(
                    handle.index,
                    handle.epoch,
                ),
    {
        assert forall|handle: RenderTaskCacheEntryHandle, key: RenderTaskCacheKey|
            #![trigger self.names(handle, key)]
            self.names(handle, key) && !later@.contains_key(
                key,
            ) implies later.cache_entries.retired(handle.index, handle.epoch) by {
            let a = handle.index as int;
            assert(self.slot_has_key(a, key));
            let _ = later.cache_entries.slots[a];
            if later.cache_entries.slots[a] == self.cache_entries.slots[a] {
                assert(later.slot_has_key(a, key));
                assert(later.has_key(key));
            }
        }
        assert forall|a: int, key: RenderTaskCacheKey| later.slot_has_key(a, key) implies (
        #[trigger] self.slot_has_key(a, key)) && later.cache_entries.slots[a]
            == self.cache_entries.slots[a] by {
            let _ = later.cache_entries.slots[a];
        }
        assert forall|a: int, b: int, key: RenderTaskCacheKey|
            #![trigger later.slot_has_key(a, key), later.slot_has_key(b, key)]
            later.slot_has_key(a, key) && later.slot_has_key(b, key) implies a == b by {
            assert(self.slot_has_key(a, key));
            assert(self.slot_has_key(b, key));
        }
        assert(later.wf());
        assert forall|key: RenderTaskCacheKey|
            #![trigger later@.contains_key(key)]
            later@.contains_key(key) implies self@.contains_key(key) && later@[key] == self@[key]
            && is_allocated.ensures((&self@[key].handle,), true) by {
            let a = later.slot_of(key);
            assert(later.slot_has_key(a, key));
            assert(self.slot_has_key(a, key));
            later.lemma_slot_is_entry(a, key);
            self.lemma_slot_is_entry(a, key);
        }
        assert forall|key: RenderTaskCacheKey|
            #![trigger self@.contains_key(key)]
            self@.contains_key(key) && !later@.contains_key(key) implies is_allocated.ensures(
            (&self@[key].handle,),
            false,
        ) by {
            let a = self.slot_of(key);
            assert(self.slot_has_key(a, key));
            self.lemma_slot_is_entry(a, key);
            let _ = later.cache_entries.slots[a];
            if later.cache_entries.slots[a] == self.cache_entries.slots[a] {
                assert(later.slot_has_key(a, key));
                assert(later.has_key(key));
            }
        }
        assert forall|handle: RenderTaskCacheEntryHandle, key: RenderTaskCacheKey|
            #![trigger later.names(handle, key)]
            later.names(handle, key) <==> self.names(handle, key) && later@.contains_key(
                key,
            ) by {
            if later.names(handle, key) {
                assert(later.slot_has_key(handle.index as int, key));
                assert(later.has_key(key));
            }
            if self.names(handle, key) && later@.contains_key(key) {
                let a = later.slot_of(key);
                assert(later.slot_has_key(a, key));
                assert(self.slot_has_key(a, key));
                assert(self.slot_has_key(handle.index as int, key));
                let _ = later.cache_entries.slots[a];
            }
        }
    }

    /// What the persistent store holds for the content of `key`: the answer
    /// of `get` for the handle of its entry. The key must have been
    /// requested and its content must not be pending.
    pub fn get_cache_item_for_render_task<G>(&self, get: G, key: &RenderTaskCacheKey) -> (item:
        CacheItem) where G: FnOnce(&TextureCacheHandle) -> CacheItem
        requires
            self.wf(),
            self@.contains_key(*key),
            self@[*key].pending_render_task_id is None,
            get.requires((&self@[*key].handle,)),
        ensures
            get.ensures((&self@[*key].handle,), item),
    {
        let index = self.find(key).unwrap();
        proof {
            self.lemma_slot_is_entry(index as int, *key);
        }
        let keyed = self.cache_entries.slots[index as usize].value.as_ref().unwrap();
        get(&keyed.entry.handle)
    }

    /// Tells whether the content of `key` is in the persistent store: the
    /// answer of `is_allocated` for the handle of its entry. The key must
    /// have been requested.
    pub fn cache_item_is_allocated_for_render_task<A>(
        &self,
        is_allocated: A,
        key: &RenderTaskCacheKey,
    ) -> (allocated: bool) where A: FnOnce(&TextureCacheHandle) -> bool
        requires
            self.wf(),
            self@.contains_key(*key),
            is_allocated.requires((&self@[*key].handle,)),
        ensures
            is_allocated.ensures((&self@[*key].handle,), allocated),
    {
        let index = self.find(key).unwrap();
        proof {
            self.lemma_slot_is_entry(index as int, *key);
        }
        let keyed = self.cache_entries.slots[index as usize].value.as_ref().unwrap();
        is_allocated(&keyed.entry.handle)
    }
}

/// What `update` does to one entry. An entry with no pending task stays as
/// it is. For an entry with a pending task, the store is asked for room by
/// `allocate`; the entry takes the handle of that room and has no pending
/// task any more, and the task is moved to that room.
pub open spec fn entry_updated<U>(
    was: RenderTaskCacheEntry,
    now: RenderTaskCacheEntry,
    tree: RenderTaskTree,
    tree_after: RenderTaskTree,
    allocate: U,
) -> bool where U: Fn(TextureCacheUpdate) -> CacheAllocation {
    match was.pending_render_task_id {
        None => now == was,
        Some(id) => exists|room: CacheAllocation| #[trigger]
            allocate.ensures((update_request(was, tree.tasks[id.index as int]),), room) && now
                == settled(was, room) && tree_after.tasks[id.index as int] == promoted(
                tree.tasks[id.index as int],
                room,
            ),
    }
}

impl RenderTaskCache {
    /// Whether some entry has the task at position `t` pending.
    pub open spec fn is_pending(self, t: int) -> bool {
        exists|key: RenderTaskCacheKey|
            #![trigger self@[key]]
            self@.contains_key(key) && self@[key].pending_render_task_id is Some
                && self@[key].pending_render_task_id->0.index == t
    }

    /// The task that is pending for the entry in slot `j`, if any.
    pub open spec fn slot_pending(self, j: int) -> Option<RenderTaskId> {
        if 0 <= j < self.cache_entries.slots.len() {
            match self.cache_entries.slots[j].value {
                Some(keyed) => keyed.entry.pending_render_task_id,
                None => None,
            }
        } else {
            None
        }
    }

    /// Whether one of the slots before `upto` has the task at position `t`
    /// pending.
    spec fn slot_pending_before(self, upto: int, t: int) -> bool {
        exists|j: int|
            #![trigger self.slot_pending(j)]
            0 <= j < upto && self.slot_pending(j) is Some && self.slot_pending(j)->0.index == t
    }

    /// Whether slot `j` of `later` is slot `j` of this cache after `update`.
    spec fn slot_updated<U>(
        self,
        later: Self,
        j: int,
        tree: RenderTaskTree,
        tree_after: RenderTaskTree,
        allocate: U,
    ) -> bool where U: Fn(TextureCacheUpdate) -> CacheAllocation {
        let was = self.cache_entries.slots[j];
        let now = later.cache_entries.slots[j];
        match was.value {
            None => now == was,
            Some(keyed) => now.epoch == was.epoch && now.value is Some && now.value->0.key
                == keyed.key && entry_updated(
                keyed.entry,
                now.value->0.entry,
                tree,
                tree_after,
                allocate,
            ),
        }
    }

    /// What `pending_tasks_ready` says of the slots.
    proof fn lemma_pending_slots(self, tree: RenderTaskTree)
        requires
            self.wf(),
            self.pending_tasks_ready(tree),
        ensures
            self.slots_ready(tree),
    {
        assert forall|j: int| #[trigger] self.slot_pending(j) is Some implies {
            let id = self.slot_pending(j)->0;
            &&& tree.contains(id)
            &&& tree.tasks[id.index as int].location is Dynamic
            &&& !(tree.tasks[id.index as int].kind is CacheMask)
        } by {
            let key = self.cache_entries.slots[j].value->0.key;
            assert(self.slot_has_key(j, key));
            self.lemma_slot_is_entry(j, key);
            let _ = self@[key];
        }
        assert forall|a: int, b: int|
            a != b && #[trigger] self.slot_pending(a) is Some && #[trigger] self.slot_pending(b)
                is Some implies self.slot_pending(a)->0.index != self.slot_pending(b)->0.index by {
            let ka = self.cache_entries.slots[a].value->0.key;
            let kb = self.cache_entries.slots[b].value->0.key;
            assert(self.slot_has_key(a, ka));
            assert(self.slot_has_key(b, kb));
            self.lemma_slot_is_entry(a, ka);
            self.lemma_slot_is_entry(b, kb);
            if ka == kb {
                assert(self.slot_has_key(b, ka));
            }
            let _ = self@[ka];
            let _ = self@[kb];
        }
    }

    /// `pending_tasks_ready`, said of the slots.
    spec fn slots_ready(self, tree: RenderTaskTree) -> bool {
        &&& forall|j: int| #[trigger]
            self.slot_pending(j) is Some ==> {
                let id = self.slot_pending(j)->0;
                &&& tree.contains(id)
                &&& tree.tasks[id.index as int].location is Dynamic
                &&& !(tree.tasks[id.index as int].kind is CacheMask)
            }
        &&& forall|a: int, b: int|
            a != b && #[trigger] self.slot_pending(a) is Some && #[trigger] self.slot_pending(b)
                is Some ==> self.slot_pending(a)->0.index != self.slot_pending(b)->0.index
    }

    /// What the map view is after every slot was updated.
    proof fn lemma_after_update<U>(
        self,
        later: Self,
        tree: RenderTaskTree,
        tree_after: RenderTaskTree,
        allocate: U,
    ) where U: Fn(TextureCacheUpdate) -> CacheAllocation
        requires
            self.wf(),
            later.cache_entries.wf(),
            later.cache_entries.slots.len() == self.cache_entries.slots.len(),
            forall|j: int|
                0 <= j < self.cache_entries.slots.len() ==> #[trigger] self.slot_updated(
                    later,
                    j,
                    tree,
                    tree_after,
                    allocate,
                ),
            forall|t: int|
                0 <= t < tree.tasks.len() ==> #[trigger] tree_after.tasks[t] == tree.tasks[t]
                    || self.slot_pending_before(self.cache_entries.slots.len() as int, t),
        ensures
            later.wf(),
            forall|key: RenderTaskCacheKey|
                #![trigger later@.contains_key(key)]
                later@.contains_key(key) == self@.contains_key(key),
            forall|key: RenderTaskCacheKey|
                #![trigger later@[key]]
                self@.contains_key(key) ==> entry_updated(
                    self@[key],
                    later@[key],
                    tree,
                    tree_after,
                    allocate,
                ),
            forall|handle: RenderTaskCacheEntryHandle, key: RenderTaskCacheKey|
                #![trigger later.names(handle, key)]
                later.names(handle, key) == self.names(handle, key),
            forall|t: int|
                0 <= t < tree.tasks.len() ==> #[trigger] tree_after.tasks[t] == tree.tasks[t]
                    || self.is_pending(t),
    {
        assert forall|a: int, key: RenderTaskCacheKey| later.slot_has_key(a, key)
            == #[trigger] self.slot_has_key(a, key) by {
            if 0 <= a < self.cache_entries.slots.len() {
                assert(self.slot_updated(later, a, tree, tree_after, allocate));
            }
        }
        assert forall|a: int, b: int, key: RenderTaskCacheKey|
            #![trigger later.slot_has_key(a, key), later.slot_has_key(b, key)]
            later.slot_has_key(a, key) && later.slot_has_key(b, key) implies a == b by {
            assert(self.slot_has_key(a, key));
            assert(self.slot_has_key(b, key));
        }
        assert(later.wf());
        assert forall|key: RenderTaskCacheKey|
            #![trigger later@.contains_key(key)]
            later@.contains_key(key) == self@.contains_key(key) by {
            if later.has_key(key) {
                assert(self.slot_has_key(later.slot_of(key), key));
            }
            if self.has_key(key) {
                assert(self.slot_has_key(self.slot_of(key), key));
                assert(later.slot_has_key(self.slot_of(key), key));
            }
        }
        assert forall|key: RenderTaskCacheKey|
            #![trigger later@[key]]
            self@.contains_key(key) implies entry_updated(
            self@[key],
            later@[key],
            tree,
            tree_after,
            allocate,
        ) by {
            let a = self.slot_of(key);
            assert(self.slot_has_key(a, key));
            assert(later.slot_has_key(a, key));
            self.lemma_slot_is_entry(a, key);
            later.lemma_slot_is_entry(a, key);
            assert(self.slot_updated(later, a, tree, tree_after, allocate));
        }
        assert forall|handle: RenderTaskCacheEntryHandle, key: RenderTaskCacheKey|
            #![trigger later.names(handle, key)]
            later.names(handle, key) == self.names(handle, key) by {
            if 0 <= handle.index < self.cache_entries.slots.len() {
                assert(self.slot_updated(later, handle.index as int, tree, tree_after, allocate));
            }
        }
        assert forall|t: int| 0 <= t < tree.tasks.len() implies #[trigger] tree_after.tasks[t]
            == tree.tasks[t] || self.is_pending(t) by {
            if tree_after.tasks[t] != tree.tasks[t] {
                assert(self.slot_pending_before(self.cache_entries.slots.len() as int, t));
                let j = choose|j: int|
                    #![trigger self.slot_pending(j)]
                    0 <= j < self.cache_entries.slots.len() && self.slot_pending(j) is Some
                        && self.slot_pending(j)->0.index == t;
                let key = self.cache_entries.slots[j].value->0.key;
                assert(self.slot_has_key(j, key));
                self.lemma_slot_is_entry(j, key);
                let _ = self@[key];
                assert(self.is_pending(t));
            }
        }
    }

    /// Gives the output of every pending task a place in the persistent
    /// store: see `entry_updated` for what happens to each entry and its
    /// task. The cache keeps its keys, handles keep naming their entries,
    /// and tasks that are pending for no entry stay as they are.
    pub fn update<U>(&mut self, allocate: U, render_tasks: &mut RenderTaskTree) where
        U: Fn(TextureCacheUpdate) -> CacheAllocation,

        requires
            old(self).wf(),
            old(self).pending_tasks_ready(*old(render_tasks)),
            forall|request: TextureCacheUpdate| allocate.requires((request,)),
        ensures
            final(self).wf(),
            forall|key: RenderTaskCacheKey|
                #![trigger final(self)@.contains_key(key)]
                final(self)@.contains_key(key) == old(self)@.contains_key(key),
            forall|key: RenderTaskCacheKey|
                #![trigger final(self)@[key]]
                old(self)@.contains_key(key) ==> entry_updated(
                    old(self)@[key],
                    final(self)@[key],
                    *old(render_tasks),
                    *final(render_tasks),
                    allocate,
                ),
            forall|key: RenderTaskCacheKey|
                #![trigger final(self)@[key]]
                final(self)@.contains_key(key) ==> final(self)@[key].pending_render_task_id
                    is None,
            forall|handle: RenderTaskCacheEntryHandle, key: RenderTaskCacheKey|
                #![trigger final(self).names(handle, key)]
                final(self).names(handle, key) == old(self).names(handle, key),
            final(render_tasks).tasks.len() == old(render_tasks).tasks.len(),
            forall|t: int|
                0 <= t < old(render_tasks).tasks.len() ==> #[trigger] final(render_tasks).tasks[t]
                    == old(render_tasks).tasks[t] || old(self).is_pending(t),
            final(render_tasks).task_data == old(render_tasks).task_data,
            final(render_tasks).cacheable_render_tasks == old(render_tasks).cacheable_render_tasks,
            final(render_tasks).next_saved == old(render_tasks).next_saved,
            final(render_tasks).frame_id == old(render_tasks).frame_id,
            final(self).slot_count() == old(self).slot_count(),
            old(self).cache_entries.advances_to(final(self).cache_entries),
    {
        let ghost before = *self;
        let ghost tree = *render_tasks;
        proof {
            before.lemma_pending_slots(tree);
        }
        let mut i: usize = 0;
        while i < self.cache_entries.slots.len()
            invariant
                before == *old(self),
                tree == *old(render_tasks),
                before.wf(),
                self.cache_entries.wf(),
                forall|request: TextureCacheUpdate| allocate.requires((request,)),
                self.cache_entries.slots.len() == before.cache_entries.slots.len(),
                i <= self.cache_entries.slots.len(),
                before.cache_entries.advances_to(self.cache_entries),
                render_tasks.tasks.len() == tree.tasks.len(),
                render_tasks.task_data == tree.task_data,
                render_tasks.cacheable_render_tasks == tree.cacheable_render_tasks,
                render_tasks.next_saved == tree.next_saved,
                render_tasks.frame_id == tree.frame_id,
                before.slots_ready(tree),
                forall|j: int|
                    i <= j < self.cache_entries.slots.len() ==> self.cache_entries.slots[j]
                        == before.cache_entries.slots[j],
                forall|j: int|
                    0 <= j < i ==> #[trigger] before.slot_updated(
                        *self,
                        j,
                        tree,
                        *render_tasks,
                        allocate,
                    ),
                forall|t: int|
                    0 <= t < tree.tasks.len() ==> #[trigger] render_tasks.tasks[t] == tree.tasks[t]
                        || before.slot_pending_before(i as int, t),
            decreases self.cache_entries.slots.len() - i,
        {
            let ghost cache_then = *self;
            let ghost tree_then = *render_tasks;
            let pending: Option<(KeyedEntry, RenderTaskId)> =
                match &self.cache_entries.slots[i].value {
                Some(keyed) => match keyed.entry.pending_render_task_id {
                    Some(id) => Some((*keyed, id)),
                    None => None,
                },
                None => None,
            };
            if let Some((keyed, pending_render_task_id)) = pending {
                proof {
                    assert(before.slot_pending(i as int) == Some(pending_render_task_id));
                    if render_tasks.tasks[pending_render_task_id.index as int]
                        != tree.tasks[pending_render_task_id.index as int] {
                        assert(before.slot_pending_before(
                            i as int,
                            pending_render_task_id.index as int,
                        ));
                        let j = choose|j: int|
                            #![trigger before.slot_pending(j)]
                            0 <= j < i && before.slot_pending(j) is Some && before.slot_pending(
                                j,
                            )->0.index == pending_render_task_id.index;
                        assert(before.slot_pending(i as int) is Some);
                        assert(false);
                    }
                }
                let render_task = render_tasks.index(pending_render_task_id);
                let target_kind = render_task.target_kind();
                let size = render_task.get_dynamic_size();
                let image_format = match target_kind {
                    RenderTargetKind::Color => ImageFormat::BGRA8,
                    RenderTargetKind::Alpha => ImageFormat::R8,
                };
                let descriptor = ImageDescriptor::new(
                    size.width,
                    size.height,
                    image_format,
                    keyed.entry.is_opaque,
                    false,
                );
                let zero = Scalar::zero();
                let user_data: [Scalar; 3] = match keyed.entry.user_data {
                    Some(data) => data,
                    None => [zero, zero, zero],
                };
                let request = TextureCacheUpdate {
                    handle: keyed.entry.handle,
                    descriptor,
                    filter: TextureFilter::Linear,
                    user_data,
                    uv_rect_kind: render_task.uv_rect_kind(),
                    eviction: Eviction::Eager,
                };
                assert(request.user_data@ =~= update_request(
                    keyed.entry,
                    tree.tasks[pending_render_task_id.index as int],
                ).user_data@);
                assert(request == update_request(
                    keyed.entry,
                    tree.tasks[pending_render_task_id.index as int],
                ));
                let room = allocate(request);
                render_tasks.tasks[pending_render_task_id.index as usize].location =
                    RenderTaskLocation::TextureCache {
                    texture: room.texture,
                    layer: room.layer,
                    rect: room.rect,
                };
                let entry = RenderTaskCacheEntry {
                    pending_render_task_id: None,
                    user_data: keyed.entry.user_data,
                    is_opaque: keyed.entry.is_opaque,
                    handle: room.handle,
                };
                self.cache_entries.set(i as u32, KeyedEntry { key: keyed.key, entry });
                proof {
                    assert(render_tasks.tasks[pending_render_task_id.index as int] == promoted(
                        tree.tasks[pending_render_task_id.index as int],
                        room,
                    ));
                    assert(entry == settled(keyed.entry, room));
                    assert(entry_updated(keyed.entry, entry, tree, *render_tasks, allocate));
                    assert(before.slot_updated(*self, i as int, tree, *render_tasks, allocate));
                    assert forall|j: int| 0 <= j < i implies #[trigger] before.slot_updated(
                        *self,
                        j,
                        tree,
                        *render_tasks,
                        allocate,
                    ) by {
                        assert(before.slot_updated(cache_then, j, tree, tree_then, allocate));
                        let was = before.cache_entries.slots[j];
                        if was.value is Some && was.value->0.entry.pending_render_task_id is Some {
                            let id = was.value->0.entry.pending_render_task_id->0;
                            assert(before.slot_pending(j) is Some);
                            assert(before.slot_pending(i as int) is Some);
                            assert(id.index != pending_render_task_id.index);
                            let now = cache_then.cache_entries.slots[j].value->0.entry;
                            assert(entry_updated(
                                was.value->0.entry,
                                now,
                                tree,
                                tree_then,
                                allocate,
                            ));
                            let witness = choose|room: CacheAllocation| #[trigger]
                                allocate.ensures(
                                    (update_request(was.value->0.entry, tree.tasks[id.index as int]),),
                                    room,
                                ) && now == settled(was.value->0.entry, room)
                                    && tree_then.tasks[id.index as int] == promoted(
                                    tree.tasks[id.index as int],
                                    room,
                                );
                            assert(allocate.ensures(
                                (update_request(was.value->0.entry, tree.tasks[id.index as int]),),
                                witness,
                            ));
                            assert(render_tasks.tasks[id.index as int]
                                == tree_then.tasks[id.index as int]);
                        }
                    }
                    assert forall|t: int| 0 <= t < tree.tasks.len() implies #[trigger] render_tasks.tasks[t]
                        == tree.tasks[t] || before.slot_pending_before(i + 1, t) by {
                        if t == pending_render_task_id.index {
                            assert(before.slot_pending(i as int) is Some);
                            assert(before.slot_pending_before(i + 1, t));
                        } else if tree_then.tasks[t] != tree.tasks[t] {
                            assert(before.slot_pending_before(i as int, t));
                            let j = choose|j: int|
                                #![trigger before.slot_pending(j)]
                                0 <= j < i && before.slot_pending(j) is Some
                                    && before.slot_pending(j)->0.index == t;
                            assert(before.slot_pending(j) is Some);
                            assert(before.slot_pending_before(i + 1, t));
                        }
                    }
                }
            } else {
                proof {
                    assert(before.slot_updated(*self, i as int, tree, *render_tasks, allocate));
                    assert forall|t: int| 0 <= t < tree.tasks.len() implies #[trigger] render_tasks.tasks[t]
                        == tree.tasks[t] || before.slot_pending_before(i + 1, t) by {
                        if tree_then.tasks[t] != tree.tasks[t] {
                            assert(before.slot_pending_before(i as int, t));
                            let j = choose|j: int|
                                #![trigger before.slot_pending(j)]
                                0 <= j < i && before.slot_pending(j) is Some
                                    && before.slot_pending(j)->0.index == t;
                            assert(before.slot_pending(j) is Some);
                            assert(before.slot_pending_before(i + 1, t));
                        }
                    }
                }
            }
            i += 1;
        }
        proof {
            before.lemma_after_update(*self, tree, *render_tasks, allocate);
            assert forall|key: RenderTaskCacheKey|
                #![trigger self@[key]]
                self@.contains_key(key) implies self@[key].pending_render_task_id is None by {
                assert(before@.contains_key(key));
                assert(entry_updated(before@[key], self@[key], tree, *render_tasks, allocate));
            }
        }
    }
}

/// A request for a key whose entry has a task pending changes neither the
/// cache nor the tree, whatever the store and the builder would do: the
/// builder of a piece of content that is already being drawn does not run
/// again.
pub proof fn lemma_pending_request_builds_nothing<R, F>(
    before: Map<RenderTaskCacheKey, RenderTaskCacheEntry>,
    key: RenderTaskCacheKey,
    user_data: Option<[Scalar; 3]>,
    is_opaque: bool,
    tree: RenderTaskTree,
    store_request: R,
    builder: F,
    after: Map<RenderTaskCacheKey, RenderTaskCacheEntry>,
    tree_after: RenderTaskTree,
    succeeded: bool,
) where
    R: Fn(&TextureCacheHandle) -> bool,
    F: FnOnce(RenderTaskTree) -> (RenderTaskTree, Result<RenderTaskId, ()>),

    requires
        before.contains_key(key),
        before[key].pending_render_task_id is Some,
        request_outcome(
            before,
            key,
            user_data,
            is_opaque,
            tree,
            store_request,
            builder,
            after,
            tree_after,
            succeeded,
        ),
    ensures
        after == before,
        tree_after == tree,
        succeeded,
{
    assert(before.insert(key, before[key]) =~= before);
}

/// Two requests for one key in one frame build at most once. If the first
/// request left a task pending for the key, the second one, whatever its
/// store and builder, changes neither the cache nor the tree and succeeds.
pub proof fn lemma_second_request_reuses_pending<R1, F1, R2, F2>(
    before: Map<RenderTaskCacheKey, RenderTaskCacheEntry>,
    key: RenderTaskCacheKey,
    user_data: Option<[Scalar; 3]>,
    is_opaque: bool,
    tree: RenderTaskTree,
    first_store: R1,
    first_builder: F1,
    between: Map<RenderTaskCacheKey, RenderTaskCacheEntry>,
    tree_between: RenderTaskTree,
    first_succeeded: bool,
    second_store: R2,
    second_builder: F2,
    after: Map<RenderTaskCacheKey, RenderTaskCacheEntry>,
    tree_after: RenderTaskTree,
    second_succeeded: bool,
) where
    R1: Fn(&TextureCacheHandle) -> bool,
    F1: FnOnce(RenderTaskTree) -> (RenderTaskTree, Result<RenderTaskId, ()>),
    R2: Fn(&TextureCacheHandle) -> bool,
    F2: FnOnce(RenderTaskTree) -> (RenderTaskTree, Result<RenderTaskId, ()>),

    requires
        request_outcome(
            before,
            key,
            user_data,
            is_opaque,
            tree,
            first_store,
            first_builder,
            between,
            tree_between,
            first_succeeded,
        ),
        between.contains_key(key) ==> between[key].pending_render_task_id is Some,
        request_outcome(
            between,
            key,
            user_data,
            is_opaque,
            tree_between,
            second_store,
            second_builder,
            after,
            tree_after,
            second_succeeded,
        ),
    ensures
        between.contains_key(key),
        after == between,
        tree_after == tree_between,
        second_succeeded,
{
    let found = requested_entry(before, key, user_data, is_opaque);
    assert(before.insert(key, found).contains_key(key));
    assert(between.contains_key(key));
    lemma_pending_request_builds_nothing(
        between,
        key,
        user_data,
        is_opaque,
        tree_between,
        second_store,
        second_builder,
        after,
        tree_after,
        second_succeeded,
    );
}

/// A request for a key that has no entry, made to a store that wants the
/// content of every handle without allocation drawn, runs the builder. Where
/// the builder succeeds, the key gets a fresh entry with the task pending.
pub proof fn lemma_request_of_absent_key_builds<R, F>(
    before: Map<RenderTaskCacheKey, RenderTaskCacheEntry>,
    key: RenderTaskCacheKey,
    user_data: Option<[Scalar; 3]>,
    is_opaque: bool,
    tree: RenderTaskTree,
    store_request: R,
    builder: F,
    after: Map<RenderTaskCacheKey, RenderTaskCacheEntry>,
    tree_after: RenderTaskTree,
    succeeded: bool,
) where
    R: Fn(&TextureCacheHandle) -> bool,
    F: FnOnce(RenderTaskTree) -> (RenderTaskTree, Result<RenderTaskId, ()>),

    requires
        !before.contains_key(key),
        forall|wanted: bool|
            store_request.ensures((&TextureCacheHandle::spec_invalid(),), wanted) ==> wanted,
        request_outcome(
            before,
            key,
            user_data,
            is_opaque,
            tree,
            store_request,
            builder,
            after,
            tree_after,
            succeeded,
        ),
    ensures
        exists|built: RenderTaskTree, outcome: Result<RenderTaskId, ()>| #[trigger]
            builder.ensures((tree,), (built, outcome)) && (outcome is Ok <==> succeeded),
        after.contains_key(key),
        succeeded ==> after[key].pending_render_task_id is Some && after[key].handle
            == TextureCacheHandle::spec_invalid() && after[key].user_data == user_data
            && after[key].is_opaque == is_opaque,
        !succeeded ==> after[key] == fresh_entry(user_data, is_opaque),
{
    let found = fresh_entry(user_data, is_opaque);
    assert(requested_entry(before, key, user_data, is_opaque) == found);
    assert(!store_request.ensures((&found.handle,), false));
    let (built, outcome) = choose|built: RenderTaskTree, outcome: Result<RenderTaskId, ()>| #[trigger]
        builder.ensures((tree,), (built, outcome)) && match outcome {
            Ok(id) => {
                &&& made_cacheable(built, id, tree_after)
                &&& after == before.insert(
                    key,
                    RenderTaskCacheEntry {
                        pending_render_task_id: Some(id),
                        user_data,
                        is_opaque,
                        handle: found.handle,
                    },
                )
                &&& succeeded
            },
            Err(_) => {
                &&& tree_after == built
                &&& after == before.insert(key, found)
                &&& !succeeded
            },
        };
    assert(builder.ensures((tree,), (built, outcome)) && (outcome is Ok <==> succeeded));
}

/// An entry whose content the store reports as gone does not survive the
/// start of a frame: where `is_allocated` can only answer no for the handle
/// of an entry, a cache that kept exactly the entries for which it answered
/// yes has no entry for that key.
pub proof fn lemma_evicted_entry_is_dropped<A>(
    before: Map<RenderTaskCacheKey, RenderTaskCacheEntry>,
    after: Map<RenderTaskCacheKey, RenderTaskCacheEntry>,
    is_allocated: A,
    key: RenderTaskCacheKey,
) where A: Fn(&TextureCacheHandle) -> bool
    requires
        before.contains_key(key),
        forall|kept: bool| is_allocated.ensures((&before[key].handle,), kept) ==> !kept,
        forall|k: RenderTaskCacheKey|
            #![trigger after.contains_key(k)]
            after.contains_key(k) ==> before.contains_key(k) && after[k] == before[k]
                && is_allocated.ensures((&before[k].handle,), true),
    ensures
        !after.contains_key(key),
{
}

/// The size of the cached copy of content of `size` device pixels: each
/// dimension rounded to the nearest whole pixel, and at least one pixel.
pub open spec fn spec_to_cache_size(size: DeviceSize) -> DeviceIntSize {
    DeviceIntSize {
        width: if size.width.round_to_i32() < 1 {
            1i32
        } else {
            size.width.round_to_i32() as i32
        },
        height: if size.height.round_to_i32() < 1 {
            1i32
        } else {
            size.height.round_to_i32() as i32
        },
    }
}

/// Rounds `size` to whole device pixels, at least one in each dimension: a
/// task of no size is not allowed in the tree.
pub fn to_cache_size(size: DeviceSize) -> (cache_size: DeviceIntSize)
    requires
        size.width.wf(),
        size.height.wf(),
    ensures
        cache_size == spec_to_cache_size(size),
        cache_size.width >= 1,
        cache_size.height >= 1,
{
    let width = size.width.rounded();
    let height = size.height.rounded();
    DeviceIntSize::new(
        if width < 1 {
            1
        } else {
            width
        },
        if height < 1 {
            1
        } else {
            height
        },
    )
}

impl RenderTaskCache {
    /// What the slots say of the pending tasks is what the map says of them.
    proof fn lemma_slots_ready(self, tree: RenderTaskTree)
        requires
            self.wf(),
            self.slots_ready(tree),
        ensures
            self.pending_tasks_ready(tree),
    {
        assert forall|key: RenderTaskCacheKey|
            #![trigger self@[key]]
            self@.contains_key(key) && self@[key].pending_render_task_id is Some implies {
            let id = self@[key].pending_render_task_id->0;
            &&& tree.contains(id)
            &&& tree.tasks[id.index as int].location is Dynamic
            &&& !(tree.tasks[id.index as int].kind is CacheMask)
        } by {
            let a = self.slot_of(key);
            assert(self.slot_has_key(a, key));
            self.lemma_slot_is_entry(a, key);
            assert(self.slot_pending(a) is Some);
        }
        assert forall|a: RenderTaskCacheKey, b: RenderTaskCacheKey|
            #![trigger self@[a], self@[b]]
            self@.contains_key(a) && self@.contains_key(b) && a != b
                && self@[a].pending_render_task_id is Some
                && self@[b].pending_render_task_id is Some implies self@[a].pending_render_task_id->0.index
            != self@[b].pending_render_task_id->0.index by {
            let i = self.slot_of(a);
            let j = self.slot_of(b);
            assert(self.slot_has_key(i, a));
            assert(self.slot_has_key(j, b));
            self.lemma_slot_is_entry(i, a);
            self.lemma_slot_is_entry(j, b);
            assert(self.slot_pending(i) is Some);
            assert(self.slot_pending(j) is Some);
        }
    }

    /// The task that is pending for the entry in slot `j`, if any.
    fn pending_in_slot(&self, j: usize) -> (pending: Option<RenderTaskId>)
        requires
            j < self.cache_entries.slots.len(),
        ensures
            pending == self.slot_pending(j as int),
    {
        match &self.cache_entries.slots[j].value {
            Some(keyed) => keyed.entry.pending_render_task_id,
            None => None,
        }
    }

    /// Tells whether `update` can run on `tree`: every pending task is a
    /// task of `tree` with a dynamic location and texture coordinates, and
    /// no task is pending for two entries.
    pub fn ready_for_update(&self, tree: &RenderTaskTree) -> (ready: bool)
        requires
            self.wf(),
        ensures
            ready == self.pending_tasks_ready(*tree),
    {
        let n = self.cache_entries.slots.len();
        let mut i: usize = 0;
        while i < n
            invariant
                self.wf(),
                n == self.cache_entries.slots.len(),
                i <= n,
                forall|j: int|
                    0 <= j < i && #[trigger] self.slot_pending(j) is Some ==> {
                        let id = self.slot_pending(j)->0;
                        &&& tree.contains(id)
                        &&& tree.tasks[id.index as int].location is Dynamic
                        &&& !(tree.tasks[id.index as int].kind is CacheMask)
                    },
                forall|a: int, b: int|
                    0 <= a < i && 0 <= b < i && a != b && #[trigger] self.slot_pending(a) is Some
                        && #[trigger] self.slot_pending(b) is Some ==> self.slot_pending(a)->0.index
                        != self.slot_pending(b)->0.index,
            decreases n - i,
        {
            if let Some(id) = self.pending_in_slot(i) {
                let inside = id.frame_id == tree.frame_id && (id.index as usize) < tree.tasks.len();
                if !inside {
                    proof {
                        if self.pending_tasks_ready(*tree) {
                            self.lemma_pending_slots(*tree);
                            assert(self.slot_pending(i as int) is Some);
                        }
                    }
                    return false;
                }
                let task = &tree.tasks[id.index as usize];
                let mask = match task.kind {
                    crate::task::RenderTaskKind::CacheMask(..) => true,
                    _ => false,
                };
                if !task.location.is_dynamic() || mask {
                    proof {
                        if self.pending_tasks_ready(*tree) {
                            self.lemma_pending_slots(*tree);
                            assert(self.slot_pending(i as int) is Some);
                        }
                    }
                    return false;
                }
                let mut j: usize = 0;
                while j < i
                    invariant
                        self.wf(),
                        n == self.cache_entries.slots.len(),
                        i < n,
                        j <= i,
                        self.slot_pending(i as int) == Some(id),
                        forall|b: int|
                            0 <= b < j && #[trigger] self.slot_pending(b) is Some
                                ==> self.slot_pending(b)->0.index != id.index,
                    decreases i - j,
                {
                    if let Some(other) = self.pending_in_slot(j) {
                        if other.index == id.index {
                            proof {
                                if self.pending_tasks_ready(*tree) {
                                    self.lemma_pending_slots(*tree);
                                    assert(self.slot_pending(i as int) is Some);
                                    assert(self.slot_pending(j as int) is Some);
                                }
                            }
                            return false;
                        }
                    }
                    j += 1;
                }
            }
            i += 1;
        }
        proof {
            assert(self.slots_ready(*tree)) by {
                assert forall|j: int| #[trigger] self.slot_pending(j) is Some implies {
                    let id = self.slot_pending(j)->0;
                    &&& tree.contains(id)
                    &&& tree.tasks[id.index as int].location is Dynamic
                    &&& !(tree.tasks[id.index as int].kind is CacheMask)
                } by {}
                assert forall|a: int, b: int|
                    a != b && #[trigger] self.slot_pending(a) is Some && #[trigger] self.slot_pending(
                        b,
                    ) is Some implies self.slot_pending(a)->0.index != self.slot_pending(
                    b,
                )->0.index by {}
            }
            self.lemma_slots_ready(*tree);
        }
        true
    }
}

/// A handle to an entry that was dropped names no entry of the cache at any
/// later time, whatever is requested, updated or dropped in between: also a
/// new entry in the slot of the dropped one does not answer to it.
pub proof fn lemma_dropped_handle_names_nothing(
    dropped: RenderTaskCache,
    later: RenderTaskCache,
    handle: RenderTaskCacheEntryHandle,
    key: RenderTaskCacheKey,
)
    requires
        dropped.cache_entries.retired(handle.index, handle.epoch),
        dropped.cache_entries.advances_to(later.cache_entries),
    ensures
        later.cache_entries.retired(handle.index, handle.epoch),
        !later.names(handle, key),
{
    crate::freelist::lemma_retired_forever(
        dropped.cache_entries,
        later.cache_entries,
        handle.index,
        handle.epoch,
    );
}

impl RenderTaskCache {
    /// Tells whether the invariant of the cache holds.
    pub fn is_well_formed(&self) -> (ok: bool)
        ensures
            ok == self.wf(),
    {
        if !self.cache_entries.is_well_formed() {
            return false;
        }
        let n = self.cache_entries.slots.len();
        let mut i: usize = 0;
        while i < n
            invariant
                n == self.cache_entries.slots.len(),
                i <= n,
                forall|a: int, b: int, key: RenderTaskCacheKey|
                    #![trigger self.slot_has_key(a, key), self.slot_has_key(b, key)]
                    a < i && b < i && self.slot_has_key(a, key) && self.slot_has_key(b, key) ==> a
                        == b,
            decreases n - i,
        {
            if let Some(keyed) = &self.cache_entries.slots[i].value {
                let mut j: usize = 0;
                while j < i
                    invariant
                        n == self.cache_entries.slots.len(),
                        i < n,
                        j <= i,
                        self.cache_entries.slots[i as int].value == Some(*keyed),
                        forall|b: int| 0 <= b < j ==> !self.slot_has_key(b, keyed.key),
                    decreases i - j,
                {
                    if let Some(other) = &self.cache_entries.slots[j].value {
                        if other.key == keyed.key {
                            assert(self.slot_has_key(i as int, keyed.key));
                            assert(self.slot_has_key(j as int, keyed.key));
                            return false;
                        }
                    }
                    j += 1;
                }
            }
            i += 1;
        }
        true
    }
}

/// Two handles that name the entry of one key are one handle: they have the
/// same slot and the same generation.
pub proof fn lemma_names_one_handle(
    cache: RenderTaskCache,
    first: RenderTaskCacheEntryHandle,
    second: RenderTaskCacheEntryHandle,
    key: RenderTaskCacheKey,
)
    requires
        cache.wf(),
        cache.names(first, key),
        cache.names(second, key),
    ensures
        first.index == second.index,
        first.epoch == second.epoch,
{
    assert(cache.slot_has_key(first.index as int, key));
    assert(cache.slot_has_key(second.index as int, key));
}

/// A request for a key whose entry has no task pending, made to a store
/// that wants the content of the entry drawn, runs the builder on the tree.
/// Where the request succeeds, the builder gave a task; that task is the
/// last of the tasks that are drawn unconditionally and the pending task of
/// the entry, which has the payload and the opacity of the request and
/// keeps its handle.
pub proof fn lemma_wanted_request_builds<R, F>(
    before: Map<RenderTaskCacheKey, RenderTaskCacheEntry>,
    key: RenderTaskCacheKey,
    user_data: Option<[Scalar; 3]>,
    is_opaque: bool,
    tree: RenderTaskTree,
    store_request: R,
    builder: F,
    after: Map<RenderTaskCacheKey, RenderTaskCacheEntry>,
    tree_after: RenderTaskTree,
    succeeded: bool,
) where
    R: Fn(&TextureCacheHandle) -> bool,
    F: FnOnce(RenderTaskTree) -> (RenderTaskTree, Result<RenderTaskId, ()>),

    requires
        requested_entry(before, key, user_data, is_opaque).pending_render_task_id is None,
        forall|wanted: bool|
            store_request.ensures(
                (&requested_entry(before, key, user_data, is_opaque).handle,),
                wanted,
            ) ==> wanted,
        request_outcome(
            before,
            key,
            user_data,
            is_opaque,
            tree,
            store_request,
            builder,
            after,
            tree_after,
            succeeded,
        ),
    ensures
        exists|built: RenderTaskTree, outcome: Result<RenderTaskId, ()>| #[trigger]
            builder.ensures((tree,), (built, outcome)) && (outcome is Ok <==> succeeded) && (
            outcome matches Ok(id) ==> {
                &&& made_cacheable(built, id, tree_after)
                &&& tree_after.cacheable_render_tasks@.last() == id
                &&& after[key].pending_render_task_id == Some(id)
            }),
        after.contains_key(key),
        succeeded ==> after[key].pending_render_task_id is Some && after[key].handle
            == requested_entry(before, key, user_data, is_opaque).handle && after[key].user_data
            == user_data && after[key].is_opaque == is_opaque,
        !succeeded ==> after[key] == requested_entry(before, key, user_data, is_opaque),
{
    let found = requested_entry(before, key, user_data, is_opaque);
    assert(!store_request.ensures((&found.handle,), false));
    let (built, outcome) = choose|built: RenderTaskTree, outcome: Result<RenderTaskId, ()>| #[trigger]
        builder.ensures((tree,), (built, outcome)) && match outcome {
            Ok(id) => {
                &&& made_cacheable(built, id, tree_after)
                &&& after == before.insert(
                    key,
                    RenderTaskCacheEntry {
                        pending_render_task_id: Some(id),
                        user_data,
                        is_opaque,
                        handle: found.handle,
                    },
                )
                &&& succeeded
            },
            Err(_) => {
                &&& tree_after == built
                &&& after == before.insert(key, found)
                &&& !succeeded
            },
        };
    assert(builder.ensures((tree,), (built, outcome)) && (outcome is Ok <==> succeeded) && (
    outcome matches Ok(id) ==> {
        &&& made_cacheable(built, id, tree_after)
        &&& tree_after.cacheable_render_tasks@.last() == id
        &&& after[key].pending_render_task_id == Some(id)
    }));
}

} // verus!
