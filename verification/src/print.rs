//! The task graph as a tree of labelled levels and items, for a debugger to
//! show. What is shown is computed here; turning it into text is left to
//! whoever shows it.

use vstd::prelude::*;
use crate::scalar::Scalar;
use crate::task::{
    BlitSource, ClearMode, RenderTask, RenderTaskId, RenderTaskKind, ScalingTask,
};
use crate::tree::RenderTaskTree;
use crate::types::{PictureIndex, RenderTargetKind};
use crate::units::DeviceIntRect;

verus! {

/// The heading of a level: the kind of the task shown there.
#[derive(Clone, Copy, Debug)]
pub enum PrintLabel {
    Picture(PictureIndex),
    /// A clip mask, with the number of its clips.
    CacheMask(u32),
    LineDecoration,
    ClipRegion,
    VerticalBlur,
    HorizontalBlur,
    Scaling,
    Border,
    Blit,
    Glyph,
}

/// One line below a heading.
#[derive(Clone, Copy, Debug)]
pub enum PrintItem {
    Rect(DeviceIntRect),
    StdDeviation(Scalar),
    Target(RenderTargetKind),
    Kind(ScalingTask),
    Source(BlitSource),
    ClearTo(ClearMode),
    /// The identifier of the task whose level has just been closed.
    SelfId(RenderTaskId),
}

/// One step of showing a tree.
#[derive(Clone, Copy, Debug)]
pub enum PrintEvent {
    NewLevel(PrintLabel),
    AddItem(PrintItem),
    EndLevel,
}

/// A task whose dependencies are being shown, and how many of them have
/// been taken up.
#[derive(Clone, Copy, Debug)]
pub struct PrintVisit {
    pub id: RenderTaskId,
    pub next: usize,
}

impl RenderTask {
    /// What opens the level of a task: its heading, the items of its kind,
    /// and its clear policy.
    pub open spec fn print_header(self) -> Seq<PrintEvent> {
        let clear = seq![PrintEvent::AddItem(PrintItem::ClearTo(self.clear_mode))];
        match self.kind {
            RenderTaskKind::Picture(task) => seq![
                PrintEvent::NewLevel(PrintLabel::Picture(task.pic_index)),
            ] + clear,
            RenderTaskKind::CacheMask(task) => seq![
                PrintEvent::NewLevel(PrintLabel::CacheMask(task.clip_node_range.count)),
                PrintEvent::AddItem(PrintItem::Rect(task.actual_rect)),
            ] + clear,
            RenderTaskKind::LineDecoration(_) => seq![
                PrintEvent::NewLevel(PrintLabel::LineDecoration),
            ] + clear,
            RenderTaskKind::ClipRegion(_) => seq![PrintEvent::NewLevel(PrintLabel::ClipRegion)]
                + clear,
            RenderTaskKind::VerticalBlur(task) => seq![
                PrintEvent::NewLevel(PrintLabel::VerticalBlur),
                PrintEvent::AddItem(PrintItem::StdDeviation(task.blur_std_deviation)),
                PrintEvent::AddItem(PrintItem::Target(task.target_kind)),
            ] + clear,
            RenderTaskKind::HorizontalBlur(task) => seq![
                PrintEvent::NewLevel(PrintLabel::HorizontalBlur),
                PrintEvent::AddItem(PrintItem::StdDeviation(task.blur_std_deviation)),
                PrintEvent::AddItem(PrintItem::Target(task.target_kind)),
            ] + clear,
            RenderTaskKind::Scaling(task) => seq![
                PrintEvent::NewLevel(PrintLabel::Scaling),
                PrintEvent::AddItem(PrintItem::Kind(task)),
            ] + clear,
            RenderTaskKind::Border(_) => seq![PrintEvent::NewLevel(PrintLabel::Border)] + clear,
            RenderTaskKind::Blit(task) => seq![
                PrintEvent::NewLevel(PrintLabel::Blit),
                PrintEvent::AddItem(PrintItem::Source(task.source)),
            ] + clear,
            RenderTaskKind::Glyph(_) => seq![PrintEvent::NewLevel(PrintLabel::Glyph)] + clear,
        }
    }

    /// Appends what opens the level of the task.
    pub fn push_header(&self, out: &mut Vec<PrintEvent>)
        ensures
            final(out)@ == old(out)@ + self.print_header(),
    {
        match self.kind {
            RenderTaskKind::Picture(ref task) => {
                out.push(PrintEvent::NewLevel(PrintLabel::Picture(task.pic_index)));
            },
            RenderTaskKind::CacheMask(ref task) => {
                out.push(PrintEvent::NewLevel(PrintLabel::CacheMask(task.clip_node_range.count)));
                out.push(PrintEvent::AddItem(PrintItem::Rect(task.actual_rect)));
            },
            RenderTaskKind::LineDecoration(..) => {
                out.push(PrintEvent::NewLevel(PrintLabel::LineDecoration));
            },
            RenderTaskKind::ClipRegion(..) => {
                out.push(PrintEvent::NewLevel(PrintLabel::ClipRegion));
            },
            RenderTaskKind::VerticalBlur(ref task) => {
                out.push(PrintEvent::NewLevel(PrintLabel::VerticalBlur));
                out.push(PrintEvent::AddItem(PrintItem::StdDeviation(task.blur_std_deviation)));
                out.push(PrintEvent::AddItem(PrintItem::Target(task.target_kind)));
            },
            RenderTaskKind::HorizontalBlur(ref task) => {
                out.push(PrintEvent::NewLevel(PrintLabel::HorizontalBlur));
                out.push(PrintEvent::AddItem(PrintItem::StdDeviation(task.blur_std_deviation)));
                out.push(PrintEvent::AddItem(PrintItem::Target(task.target_kind)));
            },
            RenderTaskKind::Scaling(ref task) => {
                out.push(PrintEvent::NewLevel(PrintLabel::Scaling));
                out.push(PrintEvent::AddItem(PrintItem::Kind(*task)));
            },
            RenderTaskKind::Border(..) => {
                out.push(PrintEvent::NewLevel(PrintLabel::Border));
            },
            RenderTaskKind::Blit(ref task) => {
                out.push(PrintEvent::NewLevel(PrintLabel::Blit));
                out.push(PrintEvent::AddItem(PrintItem::Source(task.source)));
            },
            RenderTaskKind::Glyph(..) => {
                out.push(PrintEvent::NewLevel(PrintLabel::Glyph));
            },
        }
        out.push(PrintEvent::AddItem(PrintItem::ClearTo(self.clear_mode)));
        assert(out@ =~= old(out)@ + self.print_header());
    }

    /// What shows the dependencies of the task from position `from` on, each
    /// as its own level followed by its identifier.
    pub open spec fn printed_children(self, tree: RenderTaskTree, from: int) -> Seq<PrintEvent>
        decreases self.children.len() - from,
    {
        if from < 0 || from >= self.children.len() {
            Seq::empty()
        } else {
            tree.printed(self.children[from]) + seq![
                PrintEvent::AddItem(PrintItem::SelfId(self.children[from])),
            ] + self.printed_children(tree, from + 1)
        }
    }

    /// What shows the task and everything it depends on.
    pub open spec fn printed(self, tree: RenderTaskTree) -> Seq<PrintEvent> {
        self.print_header() + self.printed_children(tree, 0) + seq![PrintEvent::EndLevel]
    }

    /// Appends to `out` what shows the task and, level by level, everything
    /// it depends on in `tree`. Tells that something was shown.
    pub fn print_with(&self, out: &mut Vec<PrintEvent>, tree: &RenderTaskTree) -> (shown: bool)
        requires
            tree.is_dag(),
            forall|c: int| 0 <= c < self.children.len() ==> tree.contains(#[trigger] self.children[c]),
        ensures
            shown,
            final(out)@ == old(out)@ + self.printed(*tree),
    {
        self.push_header(out);
        let mut k: usize = 0;
        while k < self.children.len()
            invariant
                tree.is_dag(),
                forall|c: int|
                    0 <= c < self.children.len() ==> tree.contains(#[trigger] self.children[c]),
                k <= self.children.len(),
                out@ + self.printed_children(*tree, k as int) == old(out)@ + self.print_header()
                    + self.printed_children(*tree, 0),
            decreases self.children.len() - k,
        {
            let child_id = self.children[k];
            let ghost before = out@;
            tree.print_task(child_id, out);
            out.push(PrintEvent::AddItem(PrintItem::SelfId(child_id)));
            proof {
                let rest = self.printed_children(*tree, k + 1);
                assert(out@ + rest =~= before + (tree.printed(child_id) + seq![
                    PrintEvent::AddItem(PrintItem::SelfId(child_id)),
                ] + rest));
            }
            k += 1;
        }
        let ghost before = out@;
        out.push(PrintEvent::EndLevel);
        proof {
            assert(self.printed_children(*tree, k as int) =~= Seq::<PrintEvent>::empty());
            assert(before + Seq::<PrintEvent>::empty() =~= before);
            assert(out@ =~= old(out)@ + self.printed(*tree));
        }
        true
    }
}

impl RenderTaskTree {
    /// What shows task `id` and everything it depends on: what opens its
    /// level, its dependencies in order, and the end of the level.
    pub open spec fn printed(self, id: RenderTaskId) -> Seq<PrintEvent>
        decreases self.rank()[id.index as int], self.tasks[id.index as int].children.len() + 1,
        when self.is_dag() && self.contains(id)
    {
        self.tasks[id.index as int].print_header() + self.printed_from(id, 0) + seq![
            PrintEvent::EndLevel,
        ]
    }

    /// What shows the dependencies of task `id` from position `from` on,
    /// each as its own level followed by its identifier.
    pub open spec fn printed_from(self, id: RenderTaskId, from: int) -> Seq<PrintEvent>
        decreases self.rank()[id.index as int], self.tasks[id.index as int].children.len() - from,
        when self.is_dag() && self.contains(id) && 0 <= from
    {
        let children = self.tasks[id.index as int].children@;
        if from >= children.len() {
            Seq::empty()
        } else {
            self.printed(children[from]) + seq![
                PrintEvent::AddItem(PrintItem::SelfId(children[from])),
            ] + self.printed_from(id, from + 1)
        }
    }

    /// What is still to be shown to finish every visit of a stack, the last
    /// one first: the dependencies not taken up yet, the end of the level,
    /// and for a visit that is not the first its identifier.
    pub open spec fn to_print(self, stack: Seq<PrintVisit>) -> Seq<PrintEvent>
        decreases stack.len(),
    {
        if stack.len() == 0 {
            Seq::empty()
        } else {
            let top = stack.last();
            let rest = stack.drop_last();
            self.printed_from(top.id, top.next as int) + seq![PrintEvent::EndLevel] + (if rest.len()
                > 0 {
                seq![PrintEvent::AddItem(PrintItem::SelfId(top.id))]
            } else {
                Seq::empty()
            }) + self.to_print(rest)
        }
    }

    /// Number of steps it takes to finish every visit of a stack.
    pub open spec fn print_steps_left(self, stack: Seq<PrintVisit>) -> nat
        decreases stack.len(),
    {
        if stack.len() == 0 {
            0
        } else {
            1 + self.steps_of_children(stack.last().id, stack.last().next as int)
                + self.print_steps_left(stack.drop_last())
        }
    }

    /// Taking up the next dependency of the last visit of a stack shows what
    /// opens the level of that dependency, and leaves the rest to be shown.
    proof fn lemma_print_take_up(self, rest: Seq<PrintVisit>, top: PrintVisit)
        requires
            self.is_dag(),
            self.contains(top.id),
            top.next < self.tasks[top.id.index as int].children.len(),
        ensures
            ({
                let child = self.tasks[top.id.index as int].children[top.next as int];
                let taken = PrintVisit { id: top.id, next: (top.next + 1) as usize };
                let visit = PrintVisit { id: child, next: 0 };
                &&& self.contains(child)
                &&& self.tasks[child.index as int].print_header() + self.to_print(
                    rest.push(taken).push(visit),
                ) == self.to_print(rest.push(top))
                &&& self.print_steps_left(rest.push(taken).push(visit)) + 1
                    == self.print_steps_left(rest.push(top))
            }),
    {
        let child = self.tasks[top.id.index as int].children[top.next as int];
        let taken = PrintVisit { id: top.id, next: (top.next + 1) as usize };
        let visit = PrintVisit { id: child, next: 0 };
        assert(self.ranked_by(self.rank()));
        assert(self.contains(child));
        let header = self.tasks[child.index as int].print_header();
        let end = seq![PrintEvent::EndLevel];
        let own = seq![PrintEvent::AddItem(PrintItem::SelfId(child))];
        let later = self.printed_from(top.id, top.next + 1);
        let inner = self.printed_from(child, 0);
        let mark = if rest.len() > 0 {
            seq![PrintEvent::AddItem(PrintItem::SelfId(top.id))]
        } else {
            Seq::<PrintEvent>::empty()
        };
        let tail = self.to_print(rest);
        assert(rest.push(top).drop_last() =~= rest);
        assert(rest.push(taken).drop_last() =~= rest);
        assert(rest.push(taken).push(visit).drop_last() =~= rest.push(taken));
        assert(self.to_print(rest.push(top)) == self.printed_from(top.id, top.next as int) + end
            + mark + tail);
        assert(self.to_print(rest.push(taken)) == later + end + mark + tail);
        assert(self.to_print(rest.push(taken).push(visit)) == inner + end + own + self.to_print(
            rest.push(taken),
        ));
        assert(self.printed(child) == header + inner + end);
        assert(self.printed_from(top.id, top.next as int) == self.printed(child) + own + later);
        assert(header + (inner + end + own + (later + end + mark + tail)) =~= (header + inner + end
            + own + later) + end + mark + tail);
        assert(self.print_steps_left(rest.push(top)) == 1 + self.steps_of_children(
            top.id,
            top.next as int,
        ) + self.print_steps_left(rest));
        assert(self.print_steps_left(rest.push(taken)) == 1 + self.steps_of_children(
            top.id,
            top.next + 1,
        ) + self.print_steps_left(rest));
        assert(self.print_steps_left(rest.push(taken).push(visit)) == 1 + self.steps_of_children(
            child,
            0,
        ) + self.print_steps_left(rest.push(taken)));
        assert(self.steps(child) == 1 + self.steps_of_children(child, 0));
    }

    /// Finishing the last visit of a stack, with every dependency taken up,
    /// shows the end of its level and, unless it is the first visit, its
    /// identifier.
    proof fn lemma_print_finish(self, rest: Seq<PrintVisit>, top: PrintVisit)
        requires
            self.is_dag(),
            self.contains(top.id),
            top.next == self.tasks[top.id.index as int].children.len(),
        ensures
            self.to_print(rest.push(top)) == seq![PrintEvent::EndLevel] + (if rest.len() > 0 {
                seq![PrintEvent::AddItem(PrintItem::SelfId(top.id))]
            } else {
                Seq::<PrintEvent>::empty()
            }) + self.to_print(rest),
            self.print_steps_left(rest.push(top)) == 1 + self.print_steps_left(rest),
    {
        let end = seq![PrintEvent::EndLevel];
        let mark = if rest.len() > 0 {
            seq![PrintEvent::AddItem(PrintItem::SelfId(top.id))]
        } else {
            Seq::<PrintEvent>::empty()
        };
        assert(rest.push(top).drop_last() =~= rest);
        assert(self.printed_from(top.id, top.next as int) =~= Seq::<PrintEvent>::empty());
        assert(self.to_print(rest.push(top)) == self.printed_from(top.id, top.next as int) + end
            + mark + self.to_print(rest));
        assert(Seq::<PrintEvent>::empty() + end + mark + self.to_print(rest) =~= end + mark
            + self.to_print(rest));
        assert(self.steps_of_children(top.id, top.next as int) == 0);
    }

    /// Appends to `out` what shows task `id` and, level by level, everything
    /// it depends on. The graph is walked with a stack of its own, so that a
    /// long chain of dependencies costs memory and no call depth.
    pub fn print_task(&self, id: RenderTaskId, out: &mut Vec<PrintEvent>)
        requires
            self.is_dag(),
            self.contains(id),
        ensures
            final(out)@ == old(out)@ + self.printed(id),
    {
        let ghost target = old(out)@ + self.printed(id);
        let mut stack: Vec<PrintVisit> = Vec::new();
        self.tasks[id.index as usize].push_header(out);
        stack.push(PrintVisit { id, next: 0 });
        proof {
            assert(stack@.drop_last() =~= Seq::<PrintVisit>::empty());
            assert(self.to_print(stack@.drop_last()) =~= Seq::<PrintEvent>::empty());
            assert(out@ + self.to_print(stack@) =~= target);
        }
        while stack.len() > 0
            invariant
                self.is_dag(),
                forall|j: int|
                    0 <= j < stack.len() ==> self.contains((#[trigger] stack[j]).id) && stack[j].next
                        <= self.tasks[stack[j].id.index as int].children.len(),
                out@ + self.to_print(stack@) == target,
            decreases self.print_steps_left(stack@),
        {
            let ghost stack_then = stack@;
            let ghost out_then = out@;
            let top = stack[stack.len() - 1];
            let task = &self.tasks[top.id.index as usize];
            let ghost rest = stack_then.drop_last();
            assert(stack_then =~= rest.push(top));
            if top.next < task.children.len() {
                let child = task.children[top.next];
                proof {
                    self.lemma_print_take_up(rest, top);
                }
                let _ = stack.pop();
                let taken = PrintVisit { id: top.id, next: top.next + 1 };
                stack.push(taken);
                let visit = PrintVisit { id: child, next: 0 };
                self.tasks[child.index as usize].push_header(out);
                stack.push(visit);
                proof {
                    let header = self.tasks[child.index as int].print_header();
                    assert(stack@ =~= rest.push(taken).push(visit));
                    assert((out_then + header) + self.to_print(stack@) =~= out_then + (header
                        + self.to_print(stack@)));
                    assert forall|j: int| 0 <= j < stack.len() implies self.contains(
                        (#[trigger] stack[j]).id,
                    ) && stack[j].next <= self.tasks[stack[j].id.index as int].children.len() by {
                        if j < rest.len() {
                            assert(stack[j] == stack_then[j]);
                        }
                    }
                }
            } else {
                proof {
                    self.lemma_print_finish(rest, top);
                }
                out.push(PrintEvent::EndLevel);
                let _ = stack.pop();
                if stack.len() > 0 {
                    out.push(PrintEvent::AddItem(PrintItem::SelfId(top.id)));
                }
                proof {
                    assert(stack@ =~= rest);
                    let end = seq![PrintEvent::EndLevel];
                    let mark = if rest.len() > 0 {
                        seq![PrintEvent::AddItem(PrintItem::SelfId(top.id))]
                    } else {
                        Seq::<PrintEvent>::empty()
                    };
                    assert(out@ =~= out_then + end + mark);
                    assert((out_then + end + mark) + self.to_print(rest) =~= out_then + (end + mark
                        + self.to_print(rest)));
                }
            }
        }
        proof {
            assert(self.to_print(stack@) =~= Seq::<PrintEvent>::empty());
            assert(out@ + Seq::<PrintEvent>::empty() =~= out@);
        }
    }
}

} // verus!
