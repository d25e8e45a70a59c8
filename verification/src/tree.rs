//! The per-frame arena of tasks.

use vstd::prelude::*;
use crate::task::{RenderTask, RenderTaskAddress, RenderTaskData, RenderTaskId};
use crate::types::{FrameId, SavedTargetIndex};

verus! {

/// All tasks of one frame, with their GPU records, the tasks that a cache
/// entry waits for, and the counter of saved targets.
#[derive(Debug)]
pub struct RenderTaskTree {
    pub tasks: Vec<RenderTask>,
    pub task_data: Vec<RenderTaskData>,
    /// Tasks that are drawn before the rest of the graph whether or not
    /// anything depends on them.
    pub cacheable_render_tasks: Vec<RenderTaskId>,
    /// The slot that the next saved target gets.
    pub next_saved: SavedTargetIndex,
    /// The frame this tree belongs to.
    pub frame_id: FrameId,
}

/// How many items a tree held, kept to size the next frame's tree.
#[derive(Debug)]
pub struct RenderTaskTreeCounters {
    tasks_len: usize,
    task_data_len: usize,
    cacheable_render_tasks_len: usize,
}

impl RenderTaskTreeCounters {
    /// Number of tasks counted.
    pub closed spec fn spec_tasks_len(self) -> nat {
        self.tasks_len as nat
    }

    /// Number of GPU records counted.
    pub closed spec fn spec_task_data_len(self) -> nat {
        self.task_data_len as nat
    }

    /// Number of cacheable tasks counted.
    pub closed spec fn spec_cacheable_render_tasks_len(self) -> nat {
        self.cacheable_render_tasks_len as nat
    }

    /// Counters of an empty tree.
    pub fn new() -> (c: Self)
        ensures
            c.spec_tasks_len() == 0,
            c.spec_task_data_len() == 0,
            c.spec_cacheable_render_tasks_len() == 0,
    {
        RenderTaskTreeCounters { tasks_len: 0, task_data_len: 0, cacheable_render_tasks_len: 0 }
    }
}

/// Room for eight more items than the previous frame held, so that a frame
/// that is a little larger does not grow its arena; just `len` where eight
/// more cannot be counted.
fn capacity_hint(len: usize) -> (cap: usize)
    ensures
        cap == if len + 8 <= usize::MAX {
            len + 8
        } else {
            len as int
        },
{
    let extra_items: usize = 8;
    if len <= usize::MAX - extra_items {
        len + extra_items
    } else {
        len
    }
}

impl RenderTaskTree {
    /// Whether `id` names a task of this tree: it was made in this tree's
    /// frame and its index is within the arena.
    pub open spec fn contains(self, id: RenderTaskId) -> bool {
        &&& id.frame_id == self.frame_id
        &&& id.index < self.tasks.len()
    }

    /// An empty tree for frame `frame_id`, with room for about as many items
    /// as `counters` tells.
    pub fn new(frame_id: FrameId, counters: &RenderTaskTreeCounters) -> (tree: Self)
        ensures
            tree.tasks@.len() == 0,
            tree.task_data@.len() == 0,
            tree.cacheable_render_tasks@.len() == 0,
            tree.next_saved == SavedTargetIndex(0),
            tree.frame_id == frame_id,
    {
        RenderTaskTree {
            tasks: Vec::with_capacity(capacity_hint(counters.tasks_len)),
            task_data: Vec::with_capacity(capacity_hint(counters.task_data_len)),
            cacheable_render_tasks: Vec::with_capacity(
                capacity_hint(counters.cacheable_render_tasks_len),
            ),
            next_saved: SavedTargetIndex(0),
            frame_id,
        }
    }

    /// How many items this tree holds.
    pub fn counters(&self) -> (c: RenderTaskTreeCounters)
        ensures
            c.spec_tasks_len() == self.tasks.len(),
            c.spec_task_data_len() == self.task_data.len(),
            c.spec_cacheable_render_tasks_len() == self.cacheable_render_tasks.len(),
    {
        RenderTaskTreeCounters {
            tasks_len: self.tasks.len(),
            task_data_len: self.task_data.len(),
            cacheable_render_tasks_len: self.cacheable_render_tasks.len(),
        }
    }

    /// Appends `task` to the arena and returns its identifier.
    pub fn add(&mut self, task: RenderTask) -> (id: RenderTaskId)
        requires
            old(self).tasks.len() <= u32::MAX,
        ensures
            final(self).tasks@ == old(self).tasks@.push(task),
            id.index == old(self).tasks.len(),
            id.frame_id == old(self).frame_id,
            final(self).contains(id),
            final(self).task_data == old(self).task_data,
            final(self).cacheable_render_tasks == old(self).cacheable_render_tasks,
            final(self).next_saved == old(self).next_saved,
            final(self).frame_id == old(self).frame_id,
    {
        let index = self.tasks.len() as u32;
        self.tasks.push(task);
        RenderTaskId { index, frame_id: self.frame_id }
    }

    /// The task that `id` names.
    pub fn index(&self, id: RenderTaskId) -> (task: &RenderTask)
        requires
            self.contains(id),
        ensures
            *task == self.tasks@[id.index as int],
    {
        &self.tasks[id.index as usize]
    }

    /// The task that `id` names, for changing it in place.
    pub fn index_mut(&mut self, id: RenderTaskId) -> (task: &mut RenderTask)
        requires
            old(self).contains(id),
        ensures
            *task == old(self).tasks@[id.index as int],
            final(self).tasks@ == old(self).tasks@.update(id.index as int, *final(task)),
            final(self).task_data == old(self).task_data,
            final(self).cacheable_render_tasks == old(self).cacheable_render_tasks,
            final(self).next_saved == old(self).next_saved,
            final(self).frame_id == old(self).frame_id,
    {
        &mut self.tasks[id.index as usize]
    }

    /// Gives every task its last chance to prepare for drawing. No kind of
    /// task defers anything to this step: the tree is left as it is.
    pub fn prepare_for_render(&mut self)
        ensures
            *final(self) == *old(self),
    {
    }

    /// The row of task `id` in the table of GPU records.
    pub fn get_task_address(&self, id: RenderTaskId) -> (address: RenderTaskAddress)
        requires
            id.frame_id == self.frame_id,
        ensures
            address == RenderTaskAddress(id.index),
    {
        RenderTaskAddress(id.index)
    }

    /// Appends the GPU record of every task, in arena order, to the records
    /// already written.
    pub fn write_task_data(&mut self)
        ensures
            final(self).tasks == old(self).tasks,
            final(self).cacheable_render_tasks == old(self).cacheable_render_tasks,
            final(self).next_saved == old(self).next_saved,
            final(self).frame_id == old(self).frame_id,
            final(self).task_data@.len() == old(self).task_data@.len() + old(self).tasks@.len(),
            forall|i: int|
                0 <= i < old(self).task_data@.len() ==> final(self).task_data@[i] == old(self).task_data@[i],
            forall|i: int|
                0 <= i < old(self).tasks@.len() ==> (#[trigger] final(self).task_data@[old(self).task_data@.len() + i]).data@ == old(self).tasks@[i].spec_task_data(),
    {
        let mut i: usize = 0;
        let ghost before = self.task_data@;
        while i < self.tasks.len()
            invariant
                i <= self.tasks.len(),
                self.tasks == old(self).tasks,
                self.cacheable_render_tasks == old(self).cacheable_render_tasks,
                self.next_saved == old(self).next_saved,
                self.frame_id == old(self).frame_id,
                before == old(self).task_data@,
                self.task_data@.len() == before.len() + i,
                forall|j: int| 0 <= j < before.len() ==> self.task_data@[j] == before[j],
                forall|j: int|
                    0 <= j < i ==> (#[trigger] self.task_data@[before.len() + j]).data@
                        == self.tasks@[j].spec_task_data(),
            decreases self.tasks.len() - i,
        {
            let record = self.tasks[i].write_task_data();
            self.task_data.push(record);
            i += 1;
        }
    }

    /// Hands out the next slot for a target that is kept past its pass.
    pub fn save_target(&mut self) -> (slot: SavedTargetIndex)
        requires
            old(self).next_saved.0 < usize::MAX,
        ensures
            slot == old(self).next_saved,
            final(self).next_saved == SavedTargetIndex((slot.0 + 1) as usize),
            final(self).tasks == old(self).tasks,
            final(self).task_data == old(self).task_data,
            final(self).cacheable_render_tasks == old(self).cacheable_render_tasks,
            final(self).frame_id == old(self).frame_id,
    {
        let id = self.next_saved;
        self.next_saved = SavedTargetIndex(id.0 + 1);
        id
    }

    /// The frame this tree belongs to.
    pub fn frame_id(&self) -> (f: FrameId)
        ensures
            f == self.frame_id,
    {
        self.frame_id
    }
}

} // verus!
