//! Properties that relate the operations on a plan to one another: what a
//! lease lets through, what a read gives back of a write, and what
//! completing and reopening a task do to the tree.

use vstd::prelude::*;
use crate::context::{
    distill, add_task_post, complete_task_post, generate_lease_post, move_to_post, notes_post, remove_task_post,
    task_notes_result, uncomplete_task_post, ContextView,
};
use crate::plans::fresh_plan;
use crate::distilled::{lemma_node_at, lemma_tree_nodes, node_at, tree_nodes, NodeView};
use crate::report::find_current;
use crate::task::{
    lemma_task_at_extend_none, lemma_task_at_push, edit_node, has_task, lemma_add_places_task, lemma_complete_all_completed, lemma_complete_all_seq,
    lemma_add_reopens_path, lemma_complete_then_reopen_leaf, lemma_edit_at_target, lemma_edit_twice_restores, lemma_task_at_concat, task_at, Edit, TaskView,
};

verus! {

/// A lease drawn for a task lets the task be completed with it: a
/// completion that gives that lease and a summary succeeds, marks the task
/// completed with the summary, and releases the lease.
pub proof fn law_lease_admits_completion(
    c: ContextView,
    f: ContextView,
    g: ContextView,
    index: Seq<usize>,
    lease: u8,
    suggestions: Seq<Seq<char>>,
    summary: Seq<char>,
    res: Result<bool, Seq<char>>,
)
    requires
        has_task(c.plan.root, index),
        generate_lease_post(c, f, index, lease, suggestions),
        complete_task_post(f, g, index, Some(lease), false, Some(summary), res),
    ensures
        res == Ok::<bool, Seq<char>>(true),
        task_at(g.plan.root, index) is Some,
        task_at(g.plan.root, index)->0.completed,
        task_at(g.plan.root, index)->0.completion_summary == Some(summary),
        !g.leases.contains_key(index),
{
    lemma_edit_at_target(f.plan.root, index, Edit::Complete(Some(summary)));
}

/// A completion that gives another lease than the one bound to the task is
/// refused, and changes neither the tree, nor the cursor, nor the leases.
pub proof fn law_wrong_lease_refused(
    c: ContextView,
    f: ContextView,
    index: Seq<usize>,
    attempt: u8,
    summary: Option<Seq<char>>,
    res: Result<bool, Seq<char>>,
)
    requires
        c.leases.contains_key(index),
        c.leases[index] != attempt,
        complete_task_post(c, f, index, Some(attempt), false, summary, res),
    ensures
        res is Err,
        f.plan == c.plan,
        f.cursor == c.cursor,
        f.leases == c.leases,
{
}

/// Notes written to a task are read back as written: set notes read back
/// as set, deleted notes read back as absent.
pub proof fn law_notes_read_back(
    c: ContextView,
    f: ContextView,
    index: Seq<usize>,
    notes: Option<Seq<char>>,
    res: Result<(), Seq<char>>,
)
    requires
        has_task(c.plan.root, index),
        notes_post(c, f, index, notes, res),
    ensures
        res is Ok,
        task_notes_result(f, index) == Ok::<Option<Seq<char>>, Seq<char>>(notes),
{
    lemma_edit_at_target(c.plan.root, index, Edit::SetNotes(notes));
}

/// Moving to a task that exists, the root included, puts the cursor on it
/// and answers with its description (`root` for the root).
pub proof fn law_move_reaches(c: ContextView, f: ContextView, index: Seq<usize>, res: Option<Seq<char>>)
    requires
        has_task(c.plan.root, index),
        move_to_post(c, f, index, res),
    ensures
        f.cursor == index,
        res == Some(
            if index.len() == 0 {
                "root"@
            } else {
                task_at(c.plan.root, index)->0.description
            },
        ),
{
    if index.len() == 0 {
        assert(f.cursor =~= index);
    }
}

/// Completing a task completes it and every task below it.
pub proof fn law_completion_covers_subtree(
    c: ContextView,
    f: ContextView,
    index: Seq<usize>,
    lease: Option<u8>,
    force: bool,
    summary: Option<Seq<char>>,
    below: Seq<usize>,
)
    requires
        complete_task_post(c, f, index, lease, force, summary, Ok(true)),
        has_task(f.plan.root, index + below),
    ensures
        task_at(f.plan.root, index + below)->0.completed,
{
    let x = task_at(c.plan.root, index)->0;
    lemma_edit_at_target(c.plan.root, index, Edit::Complete(summary));
    lemma_task_at_concat(f.plan.root, index, below);
    let done = edit_node(x, Edit::Complete(summary));
    if below.len() > 0 {
        lemma_complete_all_seq(x.subtasks);
        assert(done.subtasks[below[0] as int] == crate::task::complete_all(x.subtasks[below[0] as int]));
        lemma_complete_all_completed(x.subtasks[below[0] as int], below.drop_first());
    }
}

/// Reopening a task that was just completed succeeds, marks it not
/// completed, and clears its summary.
pub proof fn law_uncomplete_reopens(
    c: ContextView,
    f: ContextView,
    g: ContextView,
    index: Seq<usize>,
    lease: Option<u8>,
    force: bool,
    summary: Option<Seq<char>>,
    res: Result<bool, Seq<char>>,
)
    requires
        complete_task_post(c, f, index, lease, force, summary, Ok(true)),
        uncomplete_task_post(f, g, index, res),
    ensures
        res == Ok::<bool, Seq<char>>(true),
        task_at(g.plan.root, index) is Some,
        !task_at(g.plan.root, index)->0.completed,
        task_at(g.plan.root, index)->0.completion_summary is None,
{
    lemma_edit_at_target(c.plan.root, index, Edit::Complete(summary));
    lemma_edit_at_target(f.plan.root, index, Edit::Uncomplete);
}

/// Completing an open task that has no subtasks and no summary, then
/// reopening it, gives back the task tree as it was; the cursor is kept and
/// only the lease bound to that task, if any, is gone.
pub proof fn law_complete_then_reopen_restores(
    c: ContextView,
    f: ContextView,
    g: ContextView,
    index: Seq<usize>,
    lease: Option<u8>,
    force: bool,
    summary: Option<Seq<char>>,
    res: Result<bool, Seq<char>>,
)
    requires
        has_task(c.plan.root, index),
        task_at(c.plan.root, index)->0.subtasks.len() == 0,
        !task_at(c.plan.root, index)->0.completed,
        task_at(c.plan.root, index)->0.completion_summary is None,
        complete_task_post(c, f, index, lease, force, summary, Ok(true)),
        uncomplete_task_post(f, g, index, res),
    ensures
        res == Ok::<bool, Seq<char>>(true),
        g.plan == c.plan,
        g.cursor == c.cursor,
        g.leases == c.leases.remove(index),
{
    lemma_edit_at_target(c.plan.root, index, Edit::Complete(summary));
    lemma_complete_then_reopen_leaf(task_at(c.plan.root, index)->0, summary);
    lemma_edit_twice_restores(c.plan.root, index, Edit::Complete(summary), Edit::Uncomplete);
}

/// A task added under the cursor is found at the index the addition
/// answers with.
pub proof fn law_added_task_found(
    c: ContextView,
    f: ContextView,
    description: Seq<char>,
    level_index: usize,
    notes: Option<Seq<char>>,
    task: TaskView,
    index: Seq<usize>,
)
    requires
        has_task(c.plan.root, c.cursor),
        add_task_post(c, f, description, level_index, notes, task, index),
    ensures
        task_at(f.plan.root, index) == Some(task),
{
    lemma_add_places_task(c.plan.root, c.cursor, task);
}

/// Adding a task under the cursor reopens the task under the cursor and
/// every task above it up to the root: none of them is marked completed
/// after the addition.
pub proof fn law_add_reopens_ancestors(
    c: ContextView,
    f: ContextView,
    description: Seq<char>,
    level_index: usize,
    notes: Option<Seq<char>>,
    task: TaskView,
    index: Seq<usize>,
)
    requires
        has_task(c.plan.root, c.cursor),
        add_task_post(c, f, description, level_index, notes, task, index),
    ensures
        forall|k: int| 1 <= k <= c.cursor.len() ==> #[trigger] task_at(f.plan.root, c.cursor.take(k)) is Some
            && !task_at(f.plan.root, c.cursor.take(k))->0.completed,
{
    assert forall|k: int| 1 <= k <= c.cursor.len() implies #[trigger] task_at(f.plan.root, c.cursor.take(k)) is Some
        && !task_at(f.plan.root, c.cursor.take(k))->0.completed by {
        lemma_add_reopens_path(c.plan.root, c.cursor, task, k);
    }
}

proof fn lemma_find_skip(ns: Seq<NodeView>, j: int, i: int)
    requires
        0 <= j <= i < ns.len(),
        forall|k: int| j <= k < i ==> !(#[trigger] ns[k]).is_current && ns[k].children.len() == 0,
    ensures
        find_current(ns, j) == find_current(ns, i),
    decreases i - j,
{
    if j < i {
        assert(find_current(ns[j].children, 0) is None);
        lemma_find_skip(ns, j + 1, i);
    }
}

proof fn lemma_find_cursor(root: TaskView, base: Seq<usize>, cursor: Seq<usize>)
    requires
        base.is_prefix_of(cursor),
        base.len() < cursor.len(),
        has_task(root, cursor),
    ensures
        find_current(tree_nodes(task_at(root, base)->0.subtasks, base, cursor), 0) matches Some(n) && n.index
            == cursor && n.description == task_at(root, cursor)->0.description,
    decreases cursor.len() - base.len(),
{
    let i = cursor[base.len() as int];
    let step = base.push(i);
    assert(step.is_prefix_of(cursor)) by {
        assert forall|k: int| 0 <= k < step.len() implies step[k] == cursor[k] by {
            if k < base.len() {
                assert(step[k] == base[k]);
            }
        }
    }
    assert(cursor.take(base.len() as int) =~= base);
    assert(cursor.take(step.len() as int) =~= step);
    assert(cursor =~= base + cursor.skip(base.len() as int));
    if !has_task(root, base) {
        lemma_task_at_extend_none(root, base, cursor);
    }
    let t = task_at(root, base)->0;
    let subs = t.subtasks;
    lemma_task_at_concat(root, base, cursor.skip(base.len() as int));
    assert(cursor.skip(base.len() as int)[0] == i);
    assert(i < subs.len());
    lemma_task_at_push(root, base, i);
    let ns = tree_nodes(subs, base, cursor);
    lemma_tree_nodes(subs, base, cursor);
    assert forall|k: int| 0 <= k < i implies !(#[trigger] ns[k]).is_current && ns[k].children.len() == 0 by {
        let idx = base.push(k as usize);
        assert(idx[base.len() as int] != cursor[base.len() as int]);
        assert(!idx.is_prefix_of(cursor));
        assert(idx != cursor);
    }
    lemma_find_skip(ns, 0, i as int);
    if step.len() == cursor.len() {
        assert(step =~= cursor);
    } else {
        lemma_find_cursor(root, step, cursor);
        assert(task_at(root, step)->0 == subs[i as int]);
        assert(ns[i as int].children == tree_nodes(subs[i as int].subtasks, step, cursor));
    }
}

/// In the distilled context, the task tree marks as current the node of the
/// task under the cursor, wherever the cursor points below the root.
pub proof fn law_tree_marks_cursor(c: ContextView)
    requires
        c.cursor.len() > 0,
        has_task(c.plan.root, c.cursor),
    ensures
        find_current(distill(c).task_tree, 0) matches Some(n) && n.index == c.cursor && n.description == task_at(
            c.plan.root,
            c.cursor,
        )->0.description,
{
    assert(Seq::<usize>::empty().is_prefix_of(c.cursor));
    lemma_find_cursor(c.plan.root, Seq::empty(), c.cursor);
}

/// Removing a task other than the root answers with that task and leaves
/// its parent with one subtask fewer, the later siblings moving up by one
/// place; the lease bound to the removed index is dropped.
pub proof fn law_remove_takes_task(c: ContextView, f: ContextView, index: Seq<usize>, res: Result<TaskView, Seq<char>>)
    requires
        index.len() > 0,
        has_task(c.plan.root, index),
        remove_task_post(c, f, index, res),
    ensures
        res == Ok::<TaskView, Seq<char>>(task_at(c.plan.root, index)->0),
        task_at(f.plan.root, index.drop_last()) is Some,
        task_at(f.plan.root, index.drop_last())->0.subtasks
            == task_at(c.plan.root, index.drop_last())->0.subtasks.remove(index.last() as int),
        !f.leases.contains_key(index),
{
    let parent = index.drop_last();
    assert(parent.push(index.last()) =~= index);
    lemma_task_at_push(c.plan.root, parent, index.last());
    lemma_edit_at_target(c.plan.root, parent, Edit::RemoveSubtask(index.last()));
}

/// A plan that is created can be found under the id it was given, holding
/// the goal and notes it was created with, an empty task tree and the
/// cursor at the root; the plans already there are left as they were.
pub proof fn law_created_plan_found(
    before: Map<u8, ContextView>,
    after: Map<u8, ContextView>,
    id: u8,
    goal: Seq<char>,
    notes: Option<Seq<char>>,
)
    requires
        !before.contains_key(id),
        after == before.insert(id, fresh_plan(goal, notes)),
    ensures
        after.contains_key(id),
        after[id].plan.goal == Some(goal),
        after[id].plan.notes == notes,
        after[id].plan.root.subtasks.len() == 0,
        after[id].cursor.len() == 0,
        forall|k: u8| k != id ==> (#[trigger] after.contains_key(k) <==> before.contains_key(k)),
        forall|k: u8| k != id && #[trigger] before.contains_key(k) ==> after[k] == before[k],
{
}

/// A plan that is deleted is gone, so every later request on its id is
/// refused as a missing plan; the other plans are left as they were.
pub proof fn law_deleted_plan_gone(before: Map<u8, ContextView>, after: Map<u8, ContextView>, id: u8)
    requires
        before.contains_key(id),
        after == before.remove(id),
    ensures
        !after.contains_key(id),
        forall|k: u8| k != id ==> (#[trigger] after.contains_key(k) <==> before.contains_key(k)),
        forall|k: u8| k != id && #[trigger] before.contains_key(k) ==> after[k] == before[k],
{
}

/// The task tree of the distilled context has one node per task of the
/// root, in order. Every task whose parent lies on the way to the cursor
/// has a node at its own index path; the node copies the task's
/// description, completion, summary and notes, is marked current exactly
/// when it is the task under the cursor, and shows a node for each of the
/// task's subtasks when the task lies on the way to the cursor, and none
/// otherwise.
pub proof fn law_task_tree_shape(c: ContextView, p: Seq<usize>)
    requires
        p.len() > 0,
        has_task(c.plan.root, p),
        p.drop_last().is_prefix_of(c.cursor),
    ensures
        distill(c).task_tree.len() == c.plan.root.subtasks.len(),
        node_at(distill(c).task_tree, p) matches Some(n) && {
            let t = task_at(c.plan.root, p)->0;
            &&& n.index == p
            &&& n.description == t.description
            &&& n.completed == t.completed
            &&& n.completion_summary == t.completion_summary
            &&& n.notes == t.notes
            &&& n.is_current == (p == c.cursor)
            &&& n.children.len() == if p.is_prefix_of(c.cursor) {
                t.subtasks.len()
            } else {
                0
            }
        },
{
    let t = task_at(c.plan.root, p)->0;
    lemma_tree_nodes(c.plan.root.subtasks, Seq::empty(), c.cursor);
    assert(Seq::<usize>::empty() + p.drop_last() =~= p.drop_last());
    lemma_node_at(c.plan.root, Seq::empty(), c.cursor, p);
    assert(Seq::<usize>::empty() + p =~= p);
    lemma_tree_nodes(t.subtasks, p, c.cursor);
}

} // verus!
