//! Pass assignment: every task goes into a pass after the passes of the
//! tasks that depend on it, so that the reversed pass list draws
//! dependencies first.

use vstd::prelude::*;
use crate::passes::{passes_view, PassTask, RenderPass, RenderPassView};
use crate::task::RenderTaskId;
use crate::tree::RenderTaskTree;
use crate::units::DeviceIntSize;

verus! {

impl RenderTaskTree {
    /// Whether `rank` orders the arena so that every dependency of every
    /// task names a task of this tree of strictly smaller rank.
    pub open spec fn ranked_by(self, rank: Seq<nat>) -> bool {
        &&& rank.len() == self.tasks.len()
        &&& forall|i: int, k: int|
            0 <= i < self.tasks.len() && 0 <= k < self.tasks[i].children.len() ==> {
                let child = #[trigger] self.tasks[i].children[k];
                &&& self.contains(child)
                &&& rank[child.index as int] < rank[i]
            }
    }

    /// Whether the dependencies form a directed acyclic graph within this
    /// tree: some ranking decreases along every dependency.
    pub open spec fn is_dag(self) -> bool {
        exists|rank: Seq<nat>| self.ranked_by(rank)
    }

    /// A ranking that decreases along every dependency, if there is one.
    pub open spec fn rank(self) -> Seq<nat> {
        choose|rank: Seq<nat>| self.ranked_by(rank)
    }

    /// What a pass records of task `id`.
    pub open spec fn pass_task(self, id: RenderTaskId) -> PassTask {
        let task = self.tasks[id.index as int];
        PassTask {
            id,
            size: task.spec_dynamic_size(),
            target_kind: task.spec_target_kind(),
            location: task.location,
        }
    }

    /// The passes after assigning task `id` to pass `pass_index`: where the
    /// task has dependencies, the pass after `pass_index` is created if it is
    /// missing and every dependency is assigned to it, in order; then the
    /// task itself is registered into pass `pass_index`.
    pub open spec fn assigned(
        self,
        id: RenderTaskId,
        pass_index: int,
        screen_size: DeviceIntSize,
        fast_clears: bool,
        passes: Seq<RenderPassView>,
    ) -> Seq<RenderPassView>
        decreases self.rank()[id.index as int], self.tasks[id.index as int].children.len() + 1,
        when self.is_dag() && self.contains(id)
    {
        let children = self.tasks[id.index as int].children@;
        let below = if children.len() > 0 {
            let grown = if passes.len() == pass_index + 1 {
                passes.push(RenderPassView::off_screen(screen_size, fast_clears))
            } else {
                passes
            };
            self.assigned_children(id, 0, pass_index + 1, screen_size, fast_clears, grown)
        } else {
            passes
        };
        below.update(pass_index, below[pass_index].with_task(self.pass_task(id)))
    }

    /// The passes after assigning the dependencies of task `id` from
    /// position `from` on, in order, to pass `child_index`.
    pub open spec fn assigned_children(
        self,
        id: RenderTaskId,
        from: int,
        child_index: int,
        screen_size: DeviceIntSize,
        fast_clears: bool,
        passes: Seq<RenderPassView>,
    ) -> Seq<RenderPassView>
        decreases self.rank()[id.index as int], self.tasks[id.index as int].children.len() - from,
        when self.is_dag() && self.contains(id) && 0 <= from
    {
        let children = self.tasks[id.index as int].children@;
        if from >= children.len() {
            passes
        } else {
            self.assigned_children(
                id,
                from + 1,
                child_index,
                screen_size,
                fast_clears,
                self.assigned(children[from], child_index, screen_size, fast_clears, passes),
            )
        }
    }
}

/// A task whose dependencies are being assigned: the task, its pass, and how
/// many of its dependencies have been taken up.
#[derive(Clone, Copy, Debug)]
pub struct Visit {
    pub id: RenderTaskId,
    pub pass_index: usize,
    pub next: usize,
}

impl RenderTaskTree {
    /// The passes after finishing one visit: the dependencies that were not
    /// taken up yet are assigned, then the task is registered.
    pub open spec fn finished(
        self,
        visit: Visit,
        screen_size: DeviceIntSize,
        fast_clears: bool,
        passes: Seq<RenderPassView>,
    ) -> Seq<RenderPassView> {
        if visit.next == 0 {
            self.assigned(visit.id, visit.pass_index as int, screen_size, fast_clears, passes)
        } else {
            let below = self.assigned_children(
                visit.id,
                visit.next as int,
                visit.pass_index + 1,
                screen_size,
                fast_clears,
                passes,
            );
            below.update(
                visit.pass_index as int,
                below[visit.pass_index as int].with_task(self.pass_task(visit.id)),
            )
        }
    }

    /// The passes after finishing every visit of a stack, the last one
    /// first.
    pub open spec fn unwound(
        self,
        stack: Seq<Visit>,
        screen_size: DeviceIntSize,
        fast_clears: bool,
        passes: Seq<RenderPassView>,
    ) -> Seq<RenderPassView>
        decreases stack.len(),
    {
        if stack.len() == 0 {
            passes
        } else {
            self.unwound(
                stack.drop_last(),
                screen_size,
                fast_clears,
                self.finished(stack.last(), screen_size, fast_clears, passes),
            )
        }
    }

    /// Number of steps it takes to assign task `id`: one to register it, and
    /// for each dependency one to take it up and those it takes to assign
    /// it.
    pub open spec fn steps(self, id: RenderTaskId) -> nat
        decreases self.rank()[id.index as int], self.tasks[id.index as int].children.len() + 1,
        when self.is_dag() && self.contains(id)
    {
        1 + self.steps_of_children(id, 0)
    }

    /// Number of steps it takes to take up and assign the dependencies of
    /// task `id` from position `from` on.
    pub open spec fn steps_of_children(self, id: RenderTaskId, from: int) -> nat
        decreases self.rank()[id.index as int], self.tasks[id.index as int].children.len() - from,
        when self.is_dag() && self.contains(id) && 0 <= from
    {
        let children = self.tasks[id.index as int].children@;
        if from >= children.len() {
            0
        } else {
            1 + self.steps(children[from]) + self.steps_of_children(id, from + 1)
        }
    }

    /// Number of steps it takes to finish every visit of a stack.
    pub open spec fn steps_left(self, stack: Seq<Visit>) -> nat
        decreases stack.len(),
    {
        if stack.len() == 0 {
            0
        } else {
            1 + self.steps_of_children(stack.last().id, stack.last().next as int)
                + self.steps_left(stack.drop_last())
        }
    }

    /// Whether a visit can be finished on `passes`: its task is a task of
    /// the tree, its pass exists, and so does the next pass once a
    /// dependency has been taken up.
    pub open spec fn visit_ok(self, visit: Visit, pass_count: int) -> bool {
        &&& self.contains(visit.id)
        &&& visit.pass_index < pass_count
        &&& visit.next <= self.tasks[visit.id.index as int].children.len()
        &&& visit.next > 0 ==> visit.pass_index + 1 < pass_count
    }

    /// Assigns the tasks of the graph rooted at `id` to `passes`, the root
    /// into pass `pass_index` and every dependency into the pass after that
    /// of the task that depends on it. Passes are appended as needed. The
    /// caller reverses the list so that dependencies are drawn first.
    ///
    /// The graph is walked with a stack of its own, so that a long chain of
    /// dependencies costs memory and no call depth.
    pub fn assign_to_passes(
        &self,
        id: RenderTaskId,
        pass_index: usize,
        screen_size: DeviceIntSize,
        passes: &mut Vec<RenderPass>,
        gpu_supports_fast_clears: bool,
    )
        requires
            self.is_dag(),
            self.contains(id),
            pass_index < old(passes).len(),
        ensures
            passes_view(final(passes)@) == self.assigned(
                id,
                pass_index as int,
                screen_size,
                gpu_supports_fast_clears,
                passes_view(old(passes)@),
            ),
            final(passes).len() >= old(passes).len(),
    {
        let ghost target = self.assigned(
            id,
            pass_index as int,
            screen_size,
            gpu_supports_fast_clears,
            passes_view(passes@),
        );
        let mut stack: Vec<Visit> = Vec::new();
        stack.push(Visit { id, pass_index, next: 0 });
        proof {
            assert(stack@.drop_last() =~= Seq::<Visit>::empty());
            assert(self.unwound(
                stack@.drop_last(),
                screen_size,
                gpu_supports_fast_clears,
                target,
            ) == target);
        }
        while stack.len() > 0
            invariant
                self.is_dag(),
                passes.len() >= old(passes).len(),
                forall|j: int|
                    0 <= j < stack.len() ==> self.visit_ok(#[trigger] stack[j], passes.len() as int),
                self.unwound(
                    stack@,
                    screen_size,
                    gpu_supports_fast_clears,
                    passes_view(passes@),
                ) == target,
            decreases self.steps_left(stack@),
        {
            let ghost stack_then = stack@;
            let ghost passes_then = passes_view(passes@);
            let top = stack[stack.len() - 1];
            let task = &self.tasks[top.id.index as usize];
            let child_count = task.children.len();
            assert(stack_then.last() == top);
            if top.next == 0 && child_count > 0 && passes.len() == top.pass_index + 1 {
                passes.push(RenderPass::new_off_screen(screen_size, gpu_supports_fast_clears));
                assert(passes_view(passes@) =~= passes_then.push(
                    RenderPassView::off_screen(screen_size, gpu_supports_fast_clears),
                ));
            }
            let ghost passes_grown = passes_view(passes@);
            proof {
                // A pass appended for the dependencies is the pass that the
                // assignment of the task would have appended.
                assert(self.finished(top, screen_size, gpu_supports_fast_clears, passes_grown)
                    == self.finished(top, screen_size, gpu_supports_fast_clears, passes_then));
            }
            if top.next < child_count {
                let child = task.children[top.next];
                let ghost rest = stack_then.drop_last();
                let _ = stack.pop();
                let taken = Visit { id: top.id, pass_index: top.pass_index, next: top.next + 1 };
                stack.push(taken);
                let visit = Visit { id: child, pass_index: top.pass_index + 1, next: 0 };
                stack.push(visit);
                proof {
                    self.lemma_child_ranked(top.id, top.next as int);
                    assert(stack@.drop_last() =~= rest.push(taken));
                    assert(stack@.last() == visit);
                    assert(rest.push(taken).drop_last() =~= rest);
                    assert(rest.push(taken).last() == taken);
                    let after_child = self.finished(
                        visit,
                        screen_size,
                        gpu_supports_fast_clears,
                        passes_grown,
                    );
                    assert(self.finished(taken, screen_size, gpu_supports_fast_clears, after_child)
                        == self.finished(top, screen_size, gpu_supports_fast_clears, passes_grown));
                    assert(self.steps_left(rest.push(taken)) == 1 + self.steps_of_children(
                        top.id,
                        top.next + 1,
                    ) + self.steps_left(rest));
                    assert(self.steps_left(stack@) == 1 + self.steps_of_children(child, 0)
                        + self.steps_left(rest.push(taken)));
                    assert(self.steps_left(stack_then) == 1 + self.steps_of_children(
                        top.id,
                        top.next as int,
                    ) + self.steps_left(rest));
                    assert(self.steps(child) == 1 + self.steps_of_children(child, 0));
                    assert(self.unwound(
                        stack_then,
                        screen_size,
                        gpu_supports_fast_clears,
                        passes_then,
                    ) == self.unwound(
                        rest,
                        screen_size,
                        gpu_supports_fast_clears,
                        self.finished(top, screen_size, gpu_supports_fast_clears, passes_then),
                    ));
                    assert(self.unwound(
                        rest.push(taken),
                        screen_size,
                        gpu_supports_fast_clears,
                        after_child,
                    ) == self.unwound(
                        rest,
                        screen_size,
                        gpu_supports_fast_clears,
                        self.finished(taken, screen_size, gpu_supports_fast_clears, after_child),
                    ));
                    assert(self.unwound(
                        stack@,
                        screen_size,
                        gpu_supports_fast_clears,
                        passes_grown,
                    ) == self.unwound(
                        rest.push(taken),
                        screen_size,
                        gpu_supports_fast_clears,
                        after_child,
                    ));
                    assert forall|j: int| 0 <= j < stack.len() implies self.visit_ok(
                        #[trigger] stack[j],
                        passes.len() as int,
                    ) by {
                        if j < rest.len() {
                            assert(stack[j] == stack_then[j]);
                        }
                    }
                }
            } else {
                let size = task.get_dynamic_size();
                let kind = task.target_kind();
                passes[top.pass_index].add_render_task(top.id, size, kind, &task.location);
                let _ = stack.pop();
                proof {
                    assert(passes_view(passes@) =~= passes_grown.update(
                        top.pass_index as int,
                        passes_grown[top.pass_index as int].with_task(self.pass_task(top.id)),
                    ));
                    assert(stack@ =~= stack_then.drop_last());
                    assert(passes_view(passes@) == self.finished(
                        top,
                        screen_size,
                        gpu_supports_fast_clears,
                        passes_grown,
                    ));
                    assert(self.unwound(
                        stack_then,
                        screen_size,
                        gpu_supports_fast_clears,
                        passes_then,
                    ) == self.unwound(
                        stack_then.drop_last(),
                        screen_size,
                        gpu_supports_fast_clears,
                        self.finished(top, screen_size, gpu_supports_fast_clears, passes_then),
                    ));
                    assert(self.steps_left(stack_then) == 1 + self.steps_of_children(
                        top.id,
                        top.next as int,
                    ) + self.steps_left(stack_then.drop_last()));
                }
            }
        }
    }
}

/// Whether pass `q` of `passes` has a registration of task `id`.
pub open spec fn registered(passes: Seq<RenderPassView>, q: int, id: RenderTaskId) -> bool {
    &&& 0 <= q < passes.len()
    &&& exists|k: int| 0 <= k < passes[q].tasks.len() && (#[trigger] passes[q].tasks[k]).id == id
}

/// How many registrations pass `q` of `passes` has; none if there is no such
/// pass.
pub open spec fn registrations(passes: Seq<RenderPassView>, q: int) -> int {
    if 0 <= q < passes.len() {
        passes[q].tasks.len() as int
    } else {
        0
    }
}

/// Whether `later` is `earlier` with registrations and passes added at the
/// end: every earlier pass is there, with what it was made with, and its
/// earlier registrations come first.
pub open spec fn extends(earlier: Seq<RenderPassView>, later: Seq<RenderPassView>) -> bool {
    &&& earlier.len() <= later.len()
    &&& forall|q: int|
        0 <= q < earlier.len() ==> {
            &&& (#[trigger] later[q]).kind == earlier[q].kind
            &&& later[q].screen_size == earlier[q].screen_size
            &&& later[q].gpu_supports_fast_clears == earlier[q].gpu_supports_fast_clears
            &&& earlier[q].tasks.len() <= later[q].tasks.len()
            &&& forall|k: int|
                0 <= k < earlier[q].tasks.len() ==> #[trigger] later[q].tasks[k]
                    == earlier[q].tasks[k]
        }
}

/// Whether registration `k` of pass `q` of `later` is not in `earlier`.
pub open spec fn is_new(
    earlier: Seq<RenderPassView>,
    later: Seq<RenderPassView>,
    q: int,
    k: int,
) -> bool {
    0 <= q < later.len() && registrations(earlier, q) <= k < later[q].tasks.len()
}

impl RenderTaskTree {
    /// Number of tasks on the longest chain of dependencies that starts at
    /// task `id`.
    pub open spec fn chain_length(self, id: RenderTaskId) -> nat
        decreases self.rank()[id.index as int], self.tasks[id.index as int].children.len() + 1,
        when self.is_dag() && self.contains(id)
    {
        1 + self.longest_child_chain(id, 0)
    }

    /// Number of tasks on the longest chain that starts at one of the
    /// dependencies of task `id` from position `from` on.
    pub open spec fn longest_child_chain(self, id: RenderTaskId, from: int) -> nat
        decreases self.rank()[id.index as int], self.tasks[id.index as int].children.len() - from,
        when self.is_dag() && self.contains(id) && 0 <= from
    {
        let children = self.tasks[id.index as int].children@;
        if from >= children.len() {
            0
        } else {
            let first = self.chain_length(children[from]);
            let rest = self.longest_child_chain(id, from + 1);
            if first >= rest {
                first
            } else {
                rest
            }
        }
    }

    /// Whether every registration that `later` has and `earlier` has not is
    /// of a task of this tree, each of whose dependencies is registered in
    /// the next pass of `later`.
    pub open spec fn dependencies_follow(
        self,
        earlier: Seq<RenderPassView>,
        later: Seq<RenderPassView>,
    ) -> bool {
        forall|q: int, k: int| #[trigger]
            is_new(earlier, later, q, k) ==> {
                let id = later[q].tasks[k].id;
                &&& self.contains(id)
                &&& forall|c: int|
                    0 <= c < self.tasks[id.index as int].children.len() ==> registered(
                        later,
                        q + 1,
                        #[trigger] self.tasks[id.index as int].children[c],
                    )
            }
    }

    /// Every dependency of a task of a graph without cycles is a task of
    /// the tree, of smaller rank.
    proof fn lemma_child_ranked(self, id: RenderTaskId, c: int)
        requires
            self.is_dag(),
            self.contains(id),
            0 <= c < self.tasks[id.index as int].children.len(),
        ensures
            self.contains(self.tasks[id.index as int].children[c]),
            self.rank()[self.tasks[id.index as int].children[c].index as int]
                < self.rank()[id.index as int],
    {
        assert(self.ranked_by(self.rank()));
        let _ = self.tasks[id.index as int].children[c];
    }

    /// Assigning task `id` to pass `pass_index` leaves as many passes as
    /// there were, or as many as the longest chain of dependencies from `id`
    /// needs after `pass_index`, whichever is more. Starting from one pass
    /// and pass 0, the number of passes is the length of the longest chain.
    pub proof fn lemma_pass_count(
        self,
        id: RenderTaskId,
        pass_index: int,
        screen_size: DeviceIntSize,
        fast_clears: bool,
        passes: Seq<RenderPassView>,
    )
        requires
            self.is_dag(),
            self.contains(id),
            0 <= pass_index < passes.len(),
        ensures
            self.assigned(id, pass_index, screen_size, fast_clears, passes).len() == if passes.len()
                >= pass_index + self.chain_length(id) {
                passes.len() as int
            } else {
                pass_index + self.chain_length(id)
            },
            passes.len() == 1 && pass_index == 0 ==> self.assigned(
                id,
                pass_index,
                screen_size,
                fast_clears,
                passes,
            ).len() == self.chain_length(id),
        decreases self.rank()[id.index as int], self.tasks[id.index as int].children.len() + 1,
    {
        let children = self.tasks[id.index as int].children@;
        if children.len() > 0 {
            let grown = if passes.len() == pass_index + 1 {
                passes.push(RenderPassView::off_screen(screen_size, fast_clears))
            } else {
                passes
            };
            self.lemma_children_pass_count(id, 0, pass_index + 1, screen_size, fast_clears, grown);
            self.lemma_child_ranked(id, 0);
            assert(self.chain_length(children[0]) >= 1);
        } else {
            assert(self.longest_child_chain(id, 0) == 0);
        }
    }

    /// The pass count after assigning the dependencies of task `id` from
    /// position `from` on.
    proof fn lemma_children_pass_count(
        self,
        id: RenderTaskId,
        from: int,
        child_index: int,
        screen_size: DeviceIntSize,
        fast_clears: bool,
        passes: Seq<RenderPassView>,
    )
        requires
            self.is_dag(),
            self.contains(id),
            0 <= from,
            0 <= child_index < passes.len(),
        ensures
            self.assigned_children(id, from, child_index, screen_size, fast_clears, passes).len()
                == if from >= self.tasks[id.index as int].children.len() || passes.len()
                >= child_index + self.longest_child_chain(id, from) {
                passes.len() as int
            } else {
                child_index + self.longest_child_chain(id, from)
            },
        decreases self.rank()[id.index as int], self.tasks[id.index as int].children.len() - from,
    {
        let children = self.tasks[id.index as int].children@;
        if from < children.len() {
            self.lemma_child_ranked(id, from);
            self.lemma_pass_count(children[from], child_index, screen_size, fast_clears, passes);
            let next = self.assigned(children[from], child_index, screen_size, fast_clears, passes);
            self.lemma_children_pass_count(
                id,
                from + 1,
                child_index,
                screen_size,
                fast_clears,
                next,
            );
            if from + 1 >= children.len() {
                assert(self.longest_child_chain(id, from + 1) == 0);
            }
        }
    }

    /// Registrations stay where passes are extended.
    proof fn lemma_registered_stays(
        earlier: Seq<RenderPassView>,
        later: Seq<RenderPassView>,
        q: int,
        id: RenderTaskId,
    )
        requires
            extends(earlier, later),
            registered(earlier, q, id),
        ensures
            registered(later, q, id),
    {
        let k = choose|k: int|
            0 <= k < earlier[q].tasks.len() && (#[trigger] earlier[q].tasks[k]).id == id;
        let _ = later[q];
        assert(later[q].tasks[k] == earlier[q].tasks[k]);
    }

    /// Extending twice is extending, and what follows the new registrations
    /// of each step follows those of both.
    proof fn lemma_extends_twice(
        self,
        a: Seq<RenderPassView>,
        b: Seq<RenderPassView>,
        c: Seq<RenderPassView>,
    )
        requires
            extends(a, b),
            extends(b, c),
            self.dependencies_follow(a, b),
            self.dependencies_follow(b, c),
        ensures
            extends(a, c),
            self.dependencies_follow(a, c),
    {
        assert forall|q: int| 0 <= q < a.len() implies {
            &&& (#[trigger] c[q]).kind == a[q].kind
            &&& c[q].screen_size == a[q].screen_size
            &&& c[q].gpu_supports_fast_clears == a[q].gpu_supports_fast_clears
            &&& a[q].tasks.len() <= c[q].tasks.len()
            &&& forall|k: int|
                0 <= k < a[q].tasks.len() ==> #[trigger] c[q].tasks[k] == a[q].tasks[k]
        } by {
            let _ = b[q];
            assert forall|k: int| 0 <= k < a[q].tasks.len() implies #[trigger] c[q].tasks[k]
                == a[q].tasks[k] by {
                assert(b[q].tasks[k] == a[q].tasks[k]);
            }
        }
        assert forall|q: int, k: int| #[trigger] is_new(a, c, q, k) implies {
            let id = c[q].tasks[k].id;
            &&& self.contains(id)
            &&& forall|d: int|
                0 <= d < self.tasks[id.index as int].children.len() ==> registered(
                    c,
                    q + 1,
                    #[trigger] self.tasks[id.index as int].children[d],
                )
        } by {
            let id = c[q].tasks[k].id;
            if q < b.len() && k < b[q].tasks.len() {
                let _ = c[q];
                assert(c[q].tasks[k] == b[q].tasks[k]);
                assert(is_new(a, b, q, k));
                assert forall|d: int|
                    0 <= d < self.tasks[id.index as int].children.len() implies registered(
                    c,
                    q + 1,
                    #[trigger] self.tasks[id.index as int].children[d],
                ) by {
                    Self::lemma_registered_stays(
                        b,
                        c,
                        q + 1,
                        self.tasks[id.index as int].children[d],
                    );
                }
            } else {
                assert(is_new(b, c, q, k));
            }
        }
    }

    /// Every task that an assignment registers has each of its dependencies
    /// registered in the next pass, so that a task is never drawn in the
    /// pass of a task it depends on, nor in an earlier one, once the list is
    /// reversed. The registrations and passes that were there stay, and the
    /// task assigned is registered in pass `pass_index`.
    pub proof fn lemma_dependencies_in_next_pass(
        self,
        id: RenderTaskId,
        pass_index: int,
        screen_size: DeviceIntSize,
        fast_clears: bool,
        passes: Seq<RenderPassView>,
    )
        requires
            self.is_dag(),
            self.contains(id),
            0 <= pass_index < passes.len(),
        ensures
            extends(passes, self.assigned(id, pass_index, screen_size, fast_clears, passes)),
            registered(
                self.assigned(id, pass_index, screen_size, fast_clears, passes),
                pass_index,
                id,
            ),
            self.dependencies_follow(
                passes,
                self.assigned(id, pass_index, screen_size, fast_clears, passes),
            ),
        decreases self.rank()[id.index as int], self.tasks[id.index as int].children.len() + 1,
    {
        let children = self.tasks[id.index as int].children@;
        let grown = if children.len() > 0 && passes.len() == pass_index + 1 {
            passes.push(RenderPassView::off_screen(screen_size, fast_clears))
        } else {
            passes
        };
        let below = if children.len() > 0 {
            self.assigned_children(id, 0, pass_index + 1, screen_size, fast_clears, grown)
        } else {
            passes
        };
        let result = below.update(pass_index, below[pass_index].with_task(self.pass_task(id)));
        assert(result == self.assigned(id, pass_index, screen_size, fast_clears, passes));
        assert(extends(passes, grown));
        assert(self.dependencies_follow(passes, grown)) by {
            assert forall|q: int, k: int| #[trigger] is_new(passes, grown, q, k) implies false by {}
        }
        if children.len() > 0 {
            self.lemma_children_in_next_pass(
                id,
                0,
                pass_index + 1,
                screen_size,
                fast_clears,
                grown,
            );
            self.lemma_extends_twice(passes, grown, below);
        }
        let last = below[pass_index].tasks.len() as int;
        assert(result[pass_index].tasks[last].id == id);
        assert(extends(below, result)) by {
            assert forall|q: int| 0 <= q < below.len() implies {
                &&& (#[trigger] result[q]).kind == below[q].kind
                &&& result[q].screen_size == below[q].screen_size
                &&& result[q].gpu_supports_fast_clears == below[q].gpu_supports_fast_clears
                &&& below[q].tasks.len() <= result[q].tasks.len()
                &&& forall|k: int|
                    0 <= k < below[q].tasks.len() ==> #[trigger] result[q].tasks[k]
                        == below[q].tasks[k]
            } by {}
        }
        assert(self.dependencies_follow(below, result)) by {
            assert forall|q: int, k: int| #[trigger] is_new(below, result, q, k) implies {
                let t = result[q].tasks[k].id;
                &&& self.contains(t)
                &&& forall|c: int|
                    0 <= c < self.tasks[t.index as int].children.len() ==> registered(
                        result,
                        q + 1,
                        #[trigger] self.tasks[t.index as int].children[c],
                    )
            } by {
                assert(q == pass_index && k == last);
                assert forall|c: int|
                    0 <= c < self.tasks[id.index as int].children.len() implies registered(
                    result,
                    q + 1,
                    #[trigger] self.tasks[id.index as int].children[c],
                ) by {
                    Self::lemma_registered_stays(
                        below,
                        result,
                        pass_index + 1,
                        self.tasks[id.index as int].children[c],
                    );
                }
            }
        }
        self.lemma_extends_twice(passes, below, result);
    }

    /// What holds after assigning the dependencies of task `id` from
    /// position `from` on: what was there stays, each of those dependencies
    /// is registered in pass `child_index`, and every new registration has
    /// its dependencies in the next pass.
    proof fn lemma_children_in_next_pass(
        self,
        id: RenderTaskId,
        from: int,
        child_index: int,
        screen_size: DeviceIntSize,
        fast_clears: bool,
        passes: Seq<RenderPassView>,
    )
        requires
            self.is_dag(),
            self.contains(id),
            0 <= from,
            0 <= child_index < passes.len(),
        ensures
            extends(
                passes,
                self.assigned_children(id, from, child_index, screen_size, fast_clears, passes),
            ),
            self.dependencies_follow(
                passes,
                self.assigned_children(id, from, child_index, screen_size, fast_clears, passes),
            ),
            forall|c: int|
                from <= c < self.tasks[id.index as int].children.len() ==> registered(
                    self.assigned_children(id, from, child_index, screen_size, fast_clears, passes),
                    child_index,
                    #[trigger] self.tasks[id.index as int].children[c],
                ),
        decreases self.rank()[id.index as int], self.tasks[id.index as int].children.len() - from,
    {
        let children = self.tasks[id.index as int].children@;
        if from < children.len() {
            self.lemma_child_ranked(id, from);
            let next = self.assigned(children[from], child_index, screen_size, fast_clears, passes);
            self.lemma_dependencies_in_next_pass(
                children[from],
                child_index,
                screen_size,
                fast_clears,
                passes,
            );
            self.lemma_children_in_next_pass(
                id,
                from + 1,
                child_index,
                screen_size,
                fast_clears,
                next,
            );
            let result = self.assigned_children(
                id,
                from + 1,
                child_index,
                screen_size,
                fast_clears,
                next,
            );
            self.lemma_extends_twice(passes, next, result);
            Self::lemma_registered_stays(next, result, child_index, children[from]);
            assert forall|c: int|
                from <= c < self.tasks[id.index as int].children.len() implies registered(
                result,
                child_index,
                #[trigger] self.tasks[id.index as int].children[c],
            ) by {
                if c == from {
                } else {
                }
            }
        } else {
            assert forall|q: int, k: int| #[trigger] is_new(passes, passes, q, k) implies false by {}
        }
    }
}

/// Whether no task is registered twice in `passes`.
pub open spec fn registered_once(passes: Seq<RenderPassView>) -> bool {
    forall|q: int, k: int, r: int, l: int|
        0 <= q < passes.len() && 0 <= k < passes[q].tasks.len() && 0 <= r < passes.len() && 0 <= l
            < passes[r].tasks.len() && (#[trigger] passes[q].tasks[k]).id == (
        #[trigger] passes[r].tasks[l]).id ==> q == r && k == l
}

impl RenderTaskTree {
    /// Where an assignment into passes without registrations registers no
    /// task twice, every task is in the pass just before the pass of each of
    /// its dependencies: its pass index is smaller than theirs.
    pub proof fn lemma_task_before_its_dependencies(
        self,
        id: RenderTaskId,
        pass_index: int,
        screen_size: DeviceIntSize,
        fast_clears: bool,
        passes: Seq<RenderPassView>,
    )
        requires
            self.is_dag(),
            self.contains(id),
            0 <= pass_index < passes.len(),
            forall|q: int| 0 <= q < passes.len() ==> (#[trigger] passes[q]).tasks.len() == 0,
            registered_once(self.assigned(id, pass_index, screen_size, fast_clears, passes)),
        ensures
            ({
                let result = self.assigned(id, pass_index, screen_size, fast_clears, passes);
                forall|q: int, k: int, c: int, r: int, l: int|
                    #![trigger result[q].tasks[k], self.tasks[result[q].tasks[k].id.index as int].children[c], result[r].tasks[l]]
                    0 <= q < result.len() && 0 <= k < result[q].tasks.len() && 0 <= c
                        < self.tasks[result[q].tasks[k].id.index as int].children.len() && 0 <= r
                        < result.len() && 0 <= l < result[r].tasks.len() && result[r].tasks[l].id
                        == self.tasks[result[q].tasks[k].id.index as int].children[c] ==> r == q
                        + 1
            }),
    {
        let result = self.assigned(id, pass_index, screen_size, fast_clears, passes);
        self.lemma_dependencies_in_next_pass(id, pass_index, screen_size, fast_clears, passes);
        assert forall|q: int, k: int, c: int, r: int, l: int|
            #![trigger result[q].tasks[k], self.tasks[result[q].tasks[k].id.index as int].children[c], result[r].tasks[l]]
            0 <= q < result.len() && 0 <= k < result[q].tasks.len() && 0 <= c
                < self.tasks[result[q].tasks[k].id.index as int].children.len() && 0 <= r
                < result.len() && 0 <= l < result[r].tasks.len() && result[r].tasks[l].id
                == self.tasks[result[q].tasks[k].id.index as int].children[c] implies r == q
            + 1 by {
            let task = result[q].tasks[k].id;
            let child = self.tasks[task.index as int].children[c];
            if q < passes.len() {
                let _ = passes[q];
            }
            assert(is_new(passes, result, q, k));
            assert(registered(result, q + 1, child));
            let m = choose|m: int|
                0 <= m < result[q + 1].tasks.len() && (#[trigger] result[q + 1].tasks[m]).id
                    == child;
            assert(result[q + 1].tasks[m].id == result[r].tasks[l].id);
        }
    }
}

} // verus!
