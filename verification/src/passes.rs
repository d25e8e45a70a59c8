//! Render passes as the task graph fills them: each pass records the tasks
//! registered into it, with what the target allocator needs of each.

use vstd::prelude::*;
use crate::task::{RenderTaskId, RenderTaskLocation};
use crate::types::RenderTargetKind;
use crate::units::DeviceIntSize;

verus! {

/// Whether a pass draws to the screen or to off-screen targets.
#[derive(Clone, Copy, Debug, PartialEq, Eq, Structural)]
pub enum RenderPassKind {
    MainFramebuffer,
    OffScreen,
}

/// One task as a pass knows it: the room it needs, the kind of target it
/// draws into, and where its output goes.
#[derive(Clone, Copy, Debug)]
pub struct PassTask {
    pub id: RenderTaskId,
    pub size: DeviceIntSize,
    pub target_kind: RenderTargetKind,
    pub location: RenderTaskLocation,
}

/// A batch of tasks that can be drawn together.
#[derive(Debug)]
pub struct RenderPass {
    pub kind: RenderPassKind,
    pub screen_size: DeviceIntSize,
    pub gpu_supports_fast_clears: bool,
    pub tasks: Vec<PassTask>,
}

/// A pass as a mathematical value.
pub struct RenderPassView {
    pub kind: RenderPassKind,
    pub screen_size: DeviceIntSize,
    pub gpu_supports_fast_clears: bool,
    pub tasks: Seq<PassTask>,
}

impl View for RenderPass {
    type V = RenderPassView;

    open spec fn view(&self) -> RenderPassView {
        RenderPassView {
            kind: self.kind,
            screen_size: self.screen_size,
            gpu_supports_fast_clears: self.gpu_supports_fast_clears,
            tasks: self.tasks@,
        }
    }
}

impl RenderPassView {
    /// An off-screen pass with no task in it.
    pub open spec fn off_screen(screen_size: DeviceIntSize, fast_clears: bool) -> Self {
        RenderPassView {
            kind: RenderPassKind::OffScreen,
            screen_size,
            gpu_supports_fast_clears: fast_clears,
            tasks: Seq::empty(),
        }
    }

    /// This pass with one more task registered after those it holds.
    pub open spec fn with_task(self, task: PassTask) -> Self {
        RenderPassView { tasks: self.tasks.push(task), ..self }
    }
}

impl RenderPass {
    /// The pass that draws to the screen, with no task in it.
    pub fn new_main_framebuffer(screen_size: DeviceIntSize, gpu_supports_fast_clears: bool) -> (pass:
        Self)
        ensures
            pass@ == (RenderPassView {
                kind: RenderPassKind::MainFramebuffer,
                screen_size,
                gpu_supports_fast_clears,
                tasks: Seq::empty(),
            }),
    {
        RenderPass {
            kind: RenderPassKind::MainFramebuffer,
            screen_size,
            gpu_supports_fast_clears,
            tasks: Vec::new(),
        }
    }

    /// An off-screen pass with no task in it.
    pub fn new_off_screen(screen_size: DeviceIntSize, gpu_supports_fast_clears: bool) -> (pass:
        Self)
        ensures
            pass@ == RenderPassView::off_screen(screen_size, gpu_supports_fast_clears),
    {
        RenderPass {
            kind: RenderPassKind::OffScreen,
            screen_size,
            gpu_supports_fast_clears,
            tasks: Vec::new(),
        }
    }

    /// Registers a task after those already in this pass.
    pub fn add_render_task(
        &mut self,
        task_id: RenderTaskId,
        size: DeviceIntSize,
        target_kind: RenderTargetKind,
        location: &RenderTaskLocation,
    )
        ensures
            final(self)@ == old(self)@.with_task(
                PassTask { id: task_id, size, target_kind, location: *location },
            ),
    {
        self.tasks.push(PassTask { id: task_id, size, target_kind, location: *location });
    }
}

/// The passes of a list as mathematical values.
pub open spec fn passes_view(passes: Seq<RenderPass>) -> Seq<RenderPassView> {
    passes.map_values(|p: RenderPass| p@)
}

} // verus!
