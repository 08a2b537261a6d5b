//! What the operations on a plan guarantee, stated over their inputs and
//! results: which level changes are accepted, where the cursor goes when a
//! task is removed, what a forced completion does, and which level is
//! reported as current.

use vstd::prelude::*;
use crate::context::{
    change_level_post, complete_task_post, distill, level_violation, next_depth, remove_task_post, ContextView,
};
use crate::plan::{current_with_history, PlanView};
use crate::task::{has_task, lemma_edit_at_target, lemma_task_at_push, task_at, Edit, TaskView};

verus! {

/// The depth `k` levels below a task at `depth`, as levels are counted:
/// it stops growing at the largest `usize`.
pub open spec fn depth_level(depth: int, k: int) -> int {
    if depth + k <= usize::MAX {
        depth + k
    } else {
        usize::MAX as int
    }
}

/// The level of the task reached from `t` by the non-empty path `q`, where
/// `t` itself lies at `depth`: the task's explicit level, or else its
/// depth.
pub open spec fn level_below(t: TaskView, depth: int, q: Seq<usize>) -> int {
    match task_at(t, q)->0.level_index {
        Some(l) => l as int,
        None => depth_level(depth, q.len() as int),
    }
}

/// Whether the non-empty path `q` leads to a task among `subs` and their
/// descendants (its first step picks among `subs`).
pub open spec fn path_in(subs: Seq<TaskView>, q: Seq<usize>) -> bool {
    q.len() > 0 && q[0] < subs.len() && has_task(subs[q[0] as int], q.drop_first())
}

/// The level of the task that `q` leads to among `subs` and their
/// descendants, where `subs` lie one level below `depth`.
pub open spec fn level_in(subs: Seq<TaskView>, depth: int, q: Seq<usize>) -> int {
    match task_at(subs[q[0] as int], q.drop_first())->0.level_index {
        Some(l) => l as int,
        None => depth_level(depth, q.len() as int),
    }
}

/// Whether every list of subtasks in the forest `ts`, `ts` included, has
/// at most `usize::MAX` entries, as every list held in memory does.
pub open spec fn fits(ts: Seq<TaskView>) -> bool
    decreases ts,
{
    ts.len() <= usize::MAX && (ts.len() > 0 ==> fits(ts[0].subtasks) && fits(ts.subrange(1, ts.len() as int)))
}

proof fn lemma_violation_in(subs: Seq<TaskView>, depth: int, max: int)
    requires
        0 <= depth <= usize::MAX,
        fits(subs),
    ensures
        match level_violation(subs, depth, max) {
            Some(v) => v > max && exists|q: Seq<usize>|
                #![trigger level_in(subs, depth, q)]
                path_in(subs, q) && level_in(subs, depth, q) == v,
            None => forall|q: Seq<usize>|
                #![trigger level_in(subs, depth, q)]
                path_in(subs, q) ==> level_in(subs, depth, q) <= max,
        },
    decreases subs,
{
    if subs.len() > 0 {
        let c = subs[0];
        let nd = next_depth(depth);
        let lvl: int = match c.level_index {
            Some(l) => l as int,
            None => nd,
        };
        let rest = subs.subrange(1, subs.len() as int);
        assert(forall|k: int| k >= 0 ==> depth_level(nd, k) == depth_level(depth, k + 1));
        if lvl > max {
            let q = seq![0usize];
            assert(q.drop_first() =~= Seq::<usize>::empty());
            assert(path_in(subs, q) && level_in(subs, depth, q) == lvl);
        } else {
            lemma_violation_in(c.subtasks, nd, max);
            match level_violation(c.subtasks, nd, max) {
                Some(v) => {
                    let q2 = choose|q: Seq<usize>|
                        #![trigger level_in(c.subtasks, nd, q)]
                        path_in(c.subtasks, q) && level_in(c.subtasks, nd, q) == v;
                    let q = seq![0usize] + q2;
                    assert(q.drop_first() =~= q2);
                    assert(task_at(c, q2) == task_at(c.subtasks[q2[0] as int], q2.drop_first()));
                    assert(path_in(subs, q) && level_in(subs, depth, q) == v);
                },
                None => {
                    lemma_violation_in(rest, depth, max);
                    match level_violation(rest, depth, max) {
                        Some(v) => {
                            let q2 = choose|q: Seq<usize>|
                                #![trigger level_in(rest, depth, q)]
                                path_in(rest, q) && level_in(rest, depth, q) == v;
                            let q = q2.update(0, (q2[0] + 1) as usize);
                            assert(q.drop_first() =~= q2.drop_first());
                            assert(subs[q[0] as int] == rest[q2[0] as int]);
                            assert(path_in(subs, q) && level_in(subs, depth, q) == v);
                        },
                        None => {
                            assert forall|q: Seq<usize>|
                                #![trigger level_in(subs, depth, q)]
                                path_in(subs, q) implies level_in(subs, depth, q) <= max by {
                                if q[0] == 0 {
                                    let q2 = q.drop_first();
                                    if q2.len() == 0 {
                                        assert(task_at(c, q2) == Some(c));
                                    } else {
                                        assert(task_at(c, q2) == task_at(c.subtasks[q2[0] as int], q2.drop_first()));
                                        assert(path_in(c.subtasks, q2));
                                        assert(level_in(c.subtasks, nd, q2) <= max);
                                    }
                                } else {
                                    let q2 = q.update(0, (q[0] - 1) as usize);
                                    assert(q2.drop_first() =~= q.drop_first());
                                    assert(rest[q2[0] as int] == subs[q[0] as int]);
                                    assert(path_in(rest, q2));
                                    assert(level_in(rest, depth, q2) <= max);
                                }
                            }
                        },
                    }
                },
            }
        }
    }
}

proof fn lemma_paths_of(t: TaskView, depth: int, q: Seq<usize>)
    requires
        q.len() > 0,
    ensures
        has_task(t, q) == path_in(t.subtasks, q),
        has_task(t, q) ==> level_below(t, depth, q) == level_in(t.subtasks, depth, q),
{
}

/// The check of a level change on the tasks below a task refuses only a
/// level that is strictly higher than the new one: where it names a level,
/// that level is higher than `max` and is the level of some task below
/// `t`; where every task below `t` (at its explicit level, or else at its
/// depth, `t` lying at `depth`) is at `max` or lower, it names none.
pub proof fn law_descendant_check(t: TaskView, depth: int, max: int)
    requires
        0 <= depth <= usize::MAX,
        fits(t.subtasks),
    ensures
        level_violation(t.subtasks, depth, max) matches Some(v) ==> v > max && exists|q: Seq<usize>|
            #![trigger level_below(t, depth, q)]
            q.len() > 0 && has_task(t, q) && level_below(t, depth, q) == v,
        (forall|q: Seq<usize>|
            #![trigger level_below(t, depth, q)]
            q.len() > 0 && has_task(t, q) ==> level_below(t, depth, q) <= max) <==> level_violation(
            t.subtasks,
            depth,
            max,
        ) is None,
{
    lemma_violation_in(t.subtasks, depth, max);
    match level_violation(t.subtasks, depth, max) {
        Some(v) => {
            let q = choose|q: Seq<usize>|
                #![trigger level_in(t.subtasks, depth, q)]
                path_in(t.subtasks, q) && level_in(t.subtasks, depth, q) == v;
            lemma_paths_of(t, depth, q);
            assert(q.len() > 0 && has_task(t, q) && level_below(t, depth, q) == v);
            if forall|q: Seq<usize>|
                #![trigger level_below(t, depth, q)]
                q.len() > 0 && has_task(t, q) ==> level_below(t, depth, q) <= max {
                assert(level_below(t, depth, q) <= max);
            }
        },
        None => {
            assert forall|q: Seq<usize>|
                #![trigger level_below(t, depth, q)]
                q.len() > 0 && has_task(t, q) implies level_below(t, depth, q) <= max by {
                lemma_paths_of(t, depth, q);
                assert(level_in(t.subtasks, depth, q) <= max);
            }
        },
    }
}

/// Setting an existing task to a level the plan has, no higher than its
/// parent's level (explicit, or else the parent's depth), where every task
/// below it is at that level or lower, is accepted and gives the task that
/// level; a task below at a strictly higher level makes it refused.
pub proof fn law_change_level_accepts(c: ContextView, f: ContextView, index: Seq<usize>, level: usize, res: Result<(), Seq<char>>)
    requires
        index.len() <= usize::MAX,
        has_task(c.plan.root, index),
        fits(task_at(c.plan.root, index)->0.subtasks),
        change_level_post(c, f, index, level, res),
    ensures
        (level < c.plan.levels.len() && (index.len() == 0 || level <= level_below(
            c.plan.root,
            0,
            index.drop_last(),
        )) && (forall|q: Seq<usize>|
            #![trigger level_below(task_at(c.plan.root, index)->0, index.len() as int, q)]
            q.len() > 0 && has_task(task_at(c.plan.root, index)->0, q) ==> level_below(
                task_at(c.plan.root, index)->0,
                index.len() as int,
                q,
            ) <= level)) ==> res == Ok::<(), Seq<char>>(()) && task_at(f.plan.root, index)->0.level_index == Some(
            level,
        ),
        (exists|q: Seq<usize>|
            #![trigger level_below(task_at(c.plan.root, index)->0, index.len() as int, q)]
            q.len() > 0 && has_task(task_at(c.plan.root, index)->0, q) && level_below(
                task_at(c.plan.root, index)->0,
                index.len() as int,
                q,
            ) > level) ==> res is Err,
{
    let t = task_at(c.plan.root, index)->0;
    law_descendant_check(t, index.len() as int, level as int);
    if index.len() > 0 {
        let parent = index.drop_last();
        assert(parent.push(index.last()) =~= index);
        lemma_task_at_push(c.plan.root, parent, index.last());
        assert(depth_level(0, parent.len() as int) == parent.len());
        if parent.len() == 0 {
            assert(task_at(c.plan.root, parent) == Some(c.plan.root));
        }
    }
    if res is Ok {
        lemma_edit_at_target(c.plan.root, index, Edit::SetLevel(level));
    }
    if exists|q: Seq<usize>|
        #![trigger level_below(t, index.len() as int, q)]
        q.len() > 0 && has_task(t, q) && level_below(t, index.len() as int, q) > level {
        let q = choose|q: Seq<usize>|
            #![trigger level_below(t, index.len() as int, q)]
            q.len() > 0 && has_task(t, q) && level_below(t, index.len() as int, q) > level;
        assert(level_violation(t.subtasks, index.len() as int, level as int) is Some);
    }
}

/// Removing a task that exists, other than the root, moves a cursor that
/// was on it or below it to the removed task's parent, which still exists;
/// a cursor elsewhere stays where it was.
pub proof fn law_remove_moves_cursor_up(c: ContextView, f: ContextView, index: Seq<usize>, res: Result<TaskView, Seq<char>>)
    requires
        index.len() > 0,
        has_task(c.plan.root, index),
        remove_task_post(c, f, index, res),
    ensures
        res is Ok,
        index.is_prefix_of(c.cursor) ==> f.cursor == index.drop_last() && has_task(f.plan.root, f.cursor),
        !index.is_prefix_of(c.cursor) ==> f.cursor == c.cursor,
{
    let parent = index.drop_last();
    assert(parent.push(index.last()) =~= index);
    lemma_task_at_push(c.plan.root, parent, index.last());
    lemma_edit_at_target(c.plan.root, parent, Edit::RemoveSubtask(index.last()));
}

/// A forced completion of a task that exists succeeds whatever lease is
/// given, or none, and with or without a summary: the task is completed
/// and its lease, if it had one, is released.
pub proof fn law_forced_completion(
    c: ContextView,
    f: ContextView,
    index: Seq<usize>,
    lease: Option<u8>,
    summary: Option<Seq<char>>,
    res: Result<bool, Seq<char>>,
)
    requires
        has_task(c.plan.root, index),
        complete_task_post(c, f, index, lease, true, summary, res),
    ensures
        res == Ok::<bool, Seq<char>>(true),
        task_at(f.plan.root, index) is Some,
        task_at(f.plan.root, index)->0.completed,
        task_at(f.plan.root, index)->0.completion_summary == summary,
        !f.leases.contains_key(index),
        f.cursor == c.cursor,
{
    lemma_edit_at_target(c.plan.root, index, Edit::Complete(summary));
}

/// The level reported for the task at a non-empty path is the task's own
/// explicit level where it has one the plan knows, and otherwise the level
/// of its depth (the path's length less one) where the plan has that
/// level; where the level named does not exist, nothing is reported.
pub proof fn law_current_level(plan: PlanView, p: Seq<usize>)
    requires
        p.len() > 0,
        has_task(plan.root, p),
    ensures
        ({
            let t = task_at(plan.root, p)->0;
            let l: int = match t.level_index {
                Some(x) => x as int,
                None => p.len() - 1,
            };
            &&& l < plan.levels.len() ==> (current_with_history(plan, p) matches Some(r) && r.0 == plan.levels[l]
                && r.1 == t)
            &&& l >= plan.levels.len() ==> current_with_history(plan, p) is None
        }),
        match task_at(plan.root, p)->0.level_index {
            Some(x) => x < plan.levels.len() ==> (current_with_history(plan, p) matches Some(r) && r.0
                == plan.levels[x as int]),
            None => true,
        },
{
}

/// With the cursor at the root, the distilled context reports the plan's
/// first level as the current level and no current task; with the cursor
/// on a task whose level the plan has, it reports that task and the level
/// the task is at (its explicit level, or else its depth).
pub proof fn law_distilled_current(c: ContextView)
    ensures
        c.cursor.len() == 0 && c.plan.levels.len() > 0 ==> distill(c).current_level == Some(c.plan.levels[0])
            && distill(c).current_task is None,
        c.cursor.len() == 0 && c.plan.levels.len() == 0 ==> distill(c).current_level is None
            && distill(c).current_task is None,
        c.cursor.len() > 0 && has_task(c.plan.root, c.cursor) ==> ({
            let t = task_at(c.plan.root, c.cursor)->0;
            let l: int = match t.level_index {
                Some(x) => x as int,
                None => c.cursor.len() - 1,
            };
            l < c.plan.levels.len() ==> distill(c).current_level == Some(c.plan.levels[l]) && distill(c).current_task
                == Some(t)
        }),
{
}

} // verus!
