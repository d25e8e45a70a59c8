//! Telling whether the dependencies of a tree form a directed acyclic graph.

use vstd::prelude::*;
use crate::tree::RenderTaskTree;

verus! {

/// How many entries of `flags` are false.
pub open spec fn count_false(flags: Seq<bool>) -> nat
    decreases flags.len(),
{
    if flags.len() == 0 {
        0
    } else {
        count_false(flags.drop_last()) + if flags.last() {
            0nat
        } else {
            1nat
        }
    }
}

/// Setting a false entry to true leaves one false entry less.
proof fn lemma_count_after_set(flags: Seq<bool>, i: int)
    requires
        0 <= i < flags.len(),
        !flags[i],
    ensures
        count_false(flags.update(i, true)) + 1 == count_false(flags),
    decreases flags.len(),
{
    let after = flags.update(i, true);
    if i == flags.len() - 1 {
        assert(after.drop_last() =~= flags.drop_last());
    } else {
        assert(after.drop_last() =~= flags.drop_last().update(i, true));
        lemma_count_after_set(flags.drop_last(), i);
    }
}

/// No entry is false exactly if the count of false entries is zero.
proof fn lemma_count_zero(flags: Seq<bool>)
    ensures
        count_false(flags) == 0 <==> forall|i: int| 0 <= i < flags.len() ==> flags[i],
    decreases flags.len(),
{
    if flags.len() > 0 {
        lemma_count_zero(flags.drop_last());
        if count_false(flags) == 0 {
            assert forall|i: int| 0 <= i < flags.len() implies flags[i] by {
                if i < flags.len() - 1 {
                    assert(flags.drop_last()[i] == flags[i]);
                }
            }
        } else if forall|i: int| 0 <= i < flags.len() ==> flags[i] {
            assert forall|i: int| 0 <= i < flags.drop_last().len() implies flags.drop_last()[i] by {
                assert(flags.drop_last()[i] == flags[i]);
            }
        }
    }
}

/// A sequence of all false entries has as many false entries as it is long.
proof fn lemma_count_all_false(flags: Seq<bool>)
    requires
        forall|i: int| 0 <= i < flags.len() ==> !flags[i],
    ensures
        count_false(flags) == flags.len(),
    decreases flags.len(),
{
    if flags.len() > 0 {
        assert forall|i: int| 0 <= i < flags.drop_last().len() implies !flags.drop_last()[i] by {
            assert(flags.drop_last()[i] == flags[i]);
        }
        lemma_count_all_false(flags.drop_last());
    }
}

impl RenderTaskTree {
    /// Whether every dependency of the task at position `i` is a task of the
    /// tree that `settled` marks.
    pub open spec fn dependencies_settled(self, i: int, settled: Seq<bool>) -> bool {
        forall|k: int|
            0 <= k < self.tasks[i].children.len() ==> {
                let child = #[trigger] self.tasks[i].children[k];
                self.contains(child) && settled[child.index as int]
            }
    }

    /// Tells whether every dependency of the task at position `i` is a task
    /// of the tree that `settled` marks.
    fn all_dependencies_settled(&self, i: usize, settled: &Vec<bool>) -> (yes: bool)
        requires
            i < self.tasks.len(),
            settled.len() == self.tasks.len(),
        ensures
            yes == self.dependencies_settled(i as int, settled@),
    {
        let task = &self.tasks[i];
        let mut k: usize = 0;
        while k < task.children.len()
            invariant
                i < self.tasks.len(),
                settled.len() == self.tasks.len(),
                *task == self.tasks[i as int],
                k <= task.children.len(),
                forall|j: int|
                    0 <= j < k ==> {
                        let child = #[trigger] self.tasks[i as int].children[j];
                        self.contains(child) && settled[child.index as int]
                    },
            decreases task.children.len() - k,
        {
            let child = task.children[k];
            let inside = child.frame_id == self.frame_id && (child.index as usize)
                < self.tasks.len();
            if !inside || !settled[child.index as usize] {
                assert(!self.dependencies_settled(i as int, settled@)) by {
                    let _ = self.tasks[i as int].children[k as int];
                }
                return false;
            }
            k += 1;
        }
        true
    }

    /// A graph in which every task that is not settled waits for a
    /// dependency that is not settled has no ranking: from any such task a
    /// chain of such tasks would descend in rank for ever.
    proof fn lemma_unsettled_has_no_rank(self, settled: Seq<bool>, rank: Seq<nat>, u: int)
        requires
            settled.len() == self.tasks.len(),
            0 <= u < self.tasks.len(),
            !settled[u],
            forall|i: int|
                0 <= i < self.tasks.len() && !settled[i] ==> !#[trigger] self.dependencies_settled(
                    i,
                    settled,
                ),
        ensures
            !self.ranked_by(rank),
        decreases rank[u],
    {
        if self.ranked_by(rank) {
            assert(!self.dependencies_settled(u, settled));
            let k = choose|k: int|
                0 <= k < self.tasks[u].children.len() && !({
                    let child = #[trigger] self.tasks[u].children[k];
                    self.contains(child) && settled[child.index as int]
                });
            let child = self.tasks[u].children[k];
            assert(self.contains(child));
            assert(rank[child.index as int] < rank[u]);
            self.lemma_unsettled_has_no_rank(settled, rank, child.index as int);
        }
    }

    /// Tells whether the dependencies form a directed acyclic graph within
    /// the tree: every dependency names a task of the tree, and no task
    /// depends on itself through any chain.
    ///
    /// Tasks are settled one by one, each once all its dependencies are
    /// settled. The graph is acyclic exactly if every task gets settled.
    pub fn forms_dag(&self) -> (ok: bool)
        ensures
            ok == self.is_dag(),
    {
        let n = self.tasks.len();
        let mut settled: Vec<bool> = vec![false; n];
        let mut order: Vec<usize> = vec![0; n];
        let mut count: usize = 0;
        proof {
            lemma_count_all_false(settled@);
        }
        loop
            invariant
                n == self.tasks.len(),
                settled.len() == n,
                order.len() == n,
                count + count_false(settled@) == n,
                forall|i: int|
                    0 <= i < n && settled[i] ==> #[trigger] order[i] < count
                        && self.dependencies_settled(i, settled@),
                forall|i: int, k: int|
                    0 <= i < n && settled[i] && 0 <= k < self.tasks[i].children.len() ==> order[(
                    #[trigger] self.tasks[i].children[k]).index as int] < order[i],
            ensures
                n == self.tasks.len(),
                settled.len() == n,
                order.len() == n,
                count + count_false(settled@) == n,
                forall|i: int|
                    0 <= i < n && settled[i] ==> #[trigger] order[i] < count
                        && self.dependencies_settled(i, settled@),
                forall|i: int, k: int|
                    0 <= i < n && settled[i] && 0 <= k < self.tasks[i].children.len() ==> order[(
                    #[trigger] self.tasks[i].children[k]).index as int] < order[i],
                forall|i: int|
                    0 <= i < n && !settled[i] ==> !#[trigger] self.dependencies_settled(
                        i,
                        settled@,
                    ),
            decreases n - count,
        {
            let ghost count_then = count;
            let ghost settled_then = settled@;
            let mut progress = false;
            let mut i: usize = 0;
            while i < n
                invariant
                    n == self.tasks.len(),
                    settled.len() == n,
                    order.len() == n,
                    i <= n,
                    count + count_false(settled@) == n,
                    count >= count_then,
                    progress == (count > count_then),
                    !progress ==> settled@ == settled_then,
                    forall|j: int|
                        0 <= j < n && settled[j] ==> #[trigger] order[j] < count
                            && self.dependencies_settled(j, settled@),
                    forall|j: int, k: int|
                        0 <= j < n && settled[j] && 0 <= k < self.tasks[j].children.len()
                            ==> order[(#[trigger] self.tasks[j].children[k]).index as int]
                            < order[j],
                    !progress ==> forall|j: int|
                        0 <= j < i && !settled[j] ==> !#[trigger] self.dependencies_settled(
                            j,
                            settled@,
                        ),
                decreases n - i,
            {
                if !settled[i] && self.all_dependencies_settled(i, &settled) {
                    let ghost before = settled@;
                    let ghost order_before = order@;
                    proof {
                        lemma_count_after_set(before, i as int);
                    }
                    order[i] = count;
                    settled[i] = true;
                    count += 1;
                    progress = true;
                    proof {
                        assert(settled@ == before.update(i as int, true));
                        assert forall|j: int| 0 <= j < n && settled[j] implies #[trigger] order[j]
                            < count && self.dependencies_settled(j, settled@) by {
                            if j != i {
                                assert(order_before[j] < count - 1);
                            }
                            assert(self.dependencies_settled(j, before));
                            assert forall|k: int|
                                0 <= k < self.tasks[j].children.len() implies {
                                let child = #[trigger] self.tasks[j].children[k];
                                self.contains(child) && settled[child.index as int]
                            } by {}
                        }
                        assert forall|j: int, k: int|
                            0 <= j < n && settled[j] && 0 <= k
                                < self.tasks[j].children.len() implies order[(
                        #[trigger] self.tasks[j].children[k]).index as int] < order[j] by {
                            let child = self.tasks[j].children[k];
                            assert(self.dependencies_settled(j, before));
                            assert(before[child.index as int]);
                            assert(child.index != i);
                            if j == i {
                                assert(order_before[child.index as int] < count - 1);
                            }
                        }
                    }
                }
                i += 1;
            }
            if !progress {
                break ;
            }
        }
        if count == n {
            proof {
                lemma_count_zero(settled@);
                let rank = Seq::new(n as nat, |i: int| order[i] as nat);
                assert(self.ranked_by(rank)) by {
                    assert forall|i: int, k: int|
                        0 <= i < self.tasks.len() && 0 <= k
                            < self.tasks[i].children.len() implies {
                        let child = #[trigger] self.tasks[i].children[k];
                        &&& self.contains(child)
                        &&& rank[child.index as int] < rank[i]
                    } by {
                        assert(self.dependencies_settled(i, settled@));
                    }
                }
            }
            true
        } else {
            proof {
                lemma_count_zero(settled@);
                if self.is_dag() {
                    let u = choose|u: int| 0 <= u < settled@.len() && !settled@[u];
                    self.lemma_unsettled_has_no_rank(settled@, self.rank(), u);
                }
            }
            false
        }
    }
}

} // verus!
