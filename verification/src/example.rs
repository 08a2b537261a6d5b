//! An example task tree, for trying out the web view and the tools: a web
//! application broken down into frontend and backend work, a few tasks of
//! it completed, with the cursor left on an open task.

use vstd::prelude::*;
use crate::context::{
    add_task_msg, index_msg, item, new_task_view, uncomplete_parent_items, with_root, Context, ContextView,
};
use crate::history::{appended_log, law_log_composes, EntryView, LogItem, MAX_HISTORY_SIZE};
use crate::text::{bool_text, debug_list};
use crate::lease::{lease_value, Lease};
use crate::plans::{Core, PlanError};
use crate::task::{
    edit_at, has_task, lemma_add_grows_target, lemma_add_places_task, lemma_edit_below_keeps_count,
    lemma_edit_elsewhere, lemma_edit_keeps_paths, task_at, Edit, TaskView,
};

verus! {

/// `t` with a new open task, without notes, added under the task at `p`.
pub open spec fn added(t: TaskView, p: Seq<usize>, description: Seq<char>, level: usize) -> TaskView {
    edit_at(t, p, Edit::AddSubtask(new_task_view(description, level, None)))
}

/// `t` with the task at `p` and its descendants completed with `summary`.
pub open spec fn completed_at(t: TaskView, p: Seq<usize>, summary: Seq<char>) -> TaskView {
    edit_at(t, p, Edit::Complete(Some(summary)))
}

/// The number of subtasks of the task at `p`.
pub open spec fn count(t: TaskView, p: Seq<usize>) -> int {
    task_at(t, p)->0.subtasks.len() as int
}

/// The frontend part, added under `c0`: the application task at
/// `c0 + [k]`, its frontend at `+ [0]`, the UI components below that with a
/// completed authentication UI, and the state management task.
pub open spec fn example_front(t: TaskView, c0: Seq<usize>, k: usize) -> TaskView {
    let app = c0.push(k);
    let front = app.push(0);
    let ui = front.push(0);
    let t1 = added(t, c0, "Build Web Application"@, 0);
    let t2 = added(t1, app, "Implement Frontend"@, 1);
    let t3 = added(t2, front, "Design UI Components"@, 2);
    let t4 = added(t3, ui, "Implement User Authentication UI"@, 3);
    let t5 = completed_at(t4, ui.push(0), "Auth UI done."@);
    added(t5, front, "Set up State Management"@, 2)
}

/// The backend part, added under the application task `app`: the backend
/// at `app + [1]`, its database, a completed API task and two more tasks
/// under the database.
pub open spec fn example_back(t: TaskView, app: Seq<usize>) -> TaskView {
    let back = app.push(1);
    let db = back.push(0);
    let t1 = added(t, app, "Implement Backend"@, 1);
    let t2 = added(t1, back, "Set up Database"@, 2);
    let t3 = added(t2, db, "Create API Endpoints"@, 3);
    let t4 = completed_at(t3, db.push(0), "Basic CRUD endpoints added."@);
    let t5 = added(t4, db, "Implement Authentication Logic"@, 3);
    added(t5, db, "Create Data Models"@, 3)
}

/// The last part: the product model under the database with two tasks, and
/// documentation and testing under the application task `app`.
pub open spec fn example_rest(t: TaskView, app: Seq<usize>) -> TaskView {
    let db = app.push(1).push(0);
    let model = db.push(3);
    let t1 = added(t, db, "Product Model"@, 3);
    let t2 = added(t1, model, "Define Product Fields"@, 3);
    let t3 = added(t2, model, "Implement Relationships"@, 3);
    let t4 = added(t3, app, "Write Documentation"@, 0);
    added(t4, app, "Test Application"@, 0)
}

/// The whole example tree added to `t` under the task at `c0`, which has
/// `k` subtasks before.
pub open spec fn example_tree(t: TaskView, c0: Seq<usize>, k: usize) -> TaskView {
    let app = c0.push(k);
    example_rest(example_back(example_front(t, c0, k), app), app)
}

/// What an edit other than a removal at `p` keeps of the tree `a` in `b`:
/// every task stays reachable; a task not on the path to `p` (nor below it,
/// unless the edit adds a subtask) stays as it was; a task strictly above
/// `p` keeps its number of subtasks.
pub open spec fn keeps(a: TaskView, b: TaskView, p: Seq<usize>, adds: bool) -> bool {
    &&& forall|q: Seq<usize>| #[trigger] has_task(a, q) ==> has_task(b, q)
    &&& forall|q: Seq<usize>|
        #![trigger task_at(b, q)]
        has_task(a, q) && !q.is_prefix_of(p) && (adds || !p.is_prefix_of(q)) ==> task_at(b, q) == task_at(a, q)
    &&& forall|q: Seq<usize>|
        #![trigger count(b, q)]
        has_task(a, q) && q.is_prefix_of(p) && q.len() < p.len() ==> count(b, q) == count(a, q)
}

proof fn lemma_keeps(t: TaskView, p: Seq<usize>, e: Edit)
    requires
        !(e is RemoveSubtask),
    ensures
        keeps(t, edit_at(t, p, e), p, e is AddSubtask),
{
    assert forall|q: Seq<usize>| #[trigger] has_task(t, q) implies has_task(edit_at(t, p, e), q) by {
        lemma_edit_keeps_paths(t, p, e, q);
    }
    assert forall|q: Seq<usize>|
        #![trigger task_at(edit_at(t, p, e), q)]
        has_task(t, q) && !q.is_prefix_of(p) && (e is AddSubtask || !p.is_prefix_of(q)) implies task_at(
            edit_at(t, p, e),
            q,
        ) == task_at(t, q) by {
        lemma_edit_elsewhere(t, p, e, q);
    }
    assert forall|q: Seq<usize>|
        #![trigger count(edit_at(t, p, e), q)]
        has_task(t, q) && q.is_prefix_of(p) && q.len() < p.len() implies count(edit_at(t, p, e), q) == count(
            t,
            q,
        ) by {
        lemma_edit_below_keeps_count(t, p, e, q);
    }
}

/// What adding an open task without notes under the cursor `at` logs.
pub open spec fn add_items(at: Seq<usize>, description: Seq<char>, level: usize) -> Seq<LogItem> {
    seq![item("add_task"@, add_task_msg(description, level, false, at))] + uncomplete_parent_items(at)
}

/// What moving the cursor to `to` logs.
pub open spec fn move_items(to: Seq<usize>) -> Seq<LogItem> {
    seq![item("move_to"@, index_msg("Moving cursor to index: "@, to, ""@))]
}

/// What a forced completion of the task at `at`, below the root, logs.
pub open spec fn complete_items(at: Seq<usize>) -> Seq<LogItem> {
    seq![item("complete_task"@, "Completing task at index: "@ + debug_list(at) + " (force: "@ + bool_text(true) + ")"@)]
}

/// What building the frontend part under `c0`, which has `k` subtasks
/// before, logs.
pub open spec fn front_log(c0: Seq<usize>, k: usize) -> Seq<LogItem> {
    let app = c0.push(k);
    let front = app.push(0);
    let ui = front.push(0);
    add_items(c0, "Build Web Application"@, 0) + move_items(app) + add_items(app, "Implement Frontend"@, 1)
        + move_items(front) + add_items(front, "Design UI Components"@, 2) + move_items(ui) + add_items(
        ui,
        "Implement User Authentication UI"@,
        3,
    ) + complete_items(ui.push(0)) + move_items(front) + add_items(front, "Set up State Management"@, 2)
}

/// What building the backend part under the application task `app` logs.
pub open spec fn back_log(app: Seq<usize>) -> Seq<LogItem> {
    let back = app.push(1);
    let db = back.push(0);
    move_items(app) + add_items(app, "Implement Backend"@, 1) + move_items(back) + add_items(back, "Set up Database"@, 2)
        + move_items(db) + add_items(db, "Create API Endpoints"@, 3) + complete_items(db.push(0)) + add_items(
        db,
        "Implement Authentication Logic"@,
        3,
    ) + add_items(db, "Create Data Models"@, 3)
}

/// What building the last part under the application task `app` logs.
pub open spec fn rest_log(app: Seq<usize>) -> Seq<LogItem> {
    let db = db_path(app);
    let model = db.push(3);
    move_items(db) + add_items(db, "Product Model"@, 3) + move_items(model) + add_items(model, "Define Product Fields"@, 3)
        + add_items(model, "Implement Relationships"@, 3) + move_items(app) + add_items(app, "Write Documentation"@, 0)
        + add_items(app, "Test Application"@, 0)
}

/// Everything filling a plan with the example logs, from the cursor `c0`
/// with `k` subtasks below it.
pub open spec fn example_log(c0: Seq<usize>, k: usize) -> Seq<LogItem> {
    let app = c0.push(k);
    front_log(c0, k) + back_log(app) + rest_log(app) + move_items(app.push(0).push(1))
}

/// Extends a log built from `h0` by what one more operation logged.
proof fn extend(h0: Seq<EntryView>, hp: Seq<EntryView>, h: Seq<EntryView>, acc: Seq<LogItem>, items: Seq<LogItem>) -> (r: Seq<
    LogItem,
>)
    requires
        h0.len() <= MAX_HISTORY_SIZE,
        appended_log(h0, hp, acc),
        appended_log(hp, h, items),
    ensures
        r == acc + items,
        appended_log(h0, h, r),
{
    law_log_composes(h0, hp, h, acc, items);
    acc + items
}

/// Whether `f` differs from `c` only in its task tree, which is `root`.
pub open spec fn only_root(c: ContextView, f: ContextView, root: TaskView) -> bool {
    &&& f.plan == with_root(c, root)
    &&& f.cursor == c.cursor
    &&& f.leases == c.leases
}

fn add_here(ctx: &mut Context, description: &str, level: usize) -> (index: Vec<usize>)
    requires
        old(ctx).wf(),
        has_task(old(ctx)@.plan.root, old(ctx)@.cursor),
    ensures
        final(ctx).wf(),
        only_root(old(ctx)@, final(ctx)@, added(old(ctx)@.plan.root, old(ctx)@.cursor, description@, level)),
        count(old(ctx)@.plan.root, old(ctx)@.cursor) <= usize::MAX,
        index@ == old(ctx)@.cursor.push(count(old(ctx)@.plan.root, old(ctx)@.cursor) as usize),
        task_at(final(ctx)@.plan.root, index@) == Some(new_task_view(description@, level, None)),
        has_task(final(ctx)@.plan.root, old(ctx)@.cursor),
        count(final(ctx)@.plan.root, old(ctx)@.cursor) == count(old(ctx)@.plan.root, old(ctx)@.cursor) + 1,
        keeps(old(ctx)@.plan.root, final(ctx)@.plan.root, old(ctx)@.cursor, true),
        appended_log(old(ctx)@.history, final(ctx)@.history, add_items(old(ctx)@.cursor, description@, level)),
{
    let ghost r0 = ctx@.plan.root;
    let ghost c0 = ctx@.cursor;
    let resp = ctx.add_task(String::from_str(description), level, None);
    let index = resp.into_inner().1;
    proof {
        let x = new_task_view(description@, level, None);
        lemma_add_places_task(r0, c0, x);
        lemma_add_grows_target(r0, c0, x);
        lemma_keeps(r0, c0, Edit::AddSubtask(x));
    }
    index
}

fn complete_here(ctx: &mut Context, index: &Vec<usize>, summary: &str)
    requires
        old(ctx).wf(),
        index@.len() > 0,
        has_task(old(ctx)@.plan.root, index@),
    ensures
        final(ctx).wf(),
        final(ctx)@.plan == with_root(old(ctx)@, completed_at(old(ctx)@.plan.root, index@, summary@)),
        final(ctx)@.cursor == old(ctx)@.cursor,
        final(ctx)@.leases == old(ctx)@.leases.remove(index@),
        keeps(old(ctx)@.plan.root, final(ctx)@.plan.root, index@, false),
        appended_log(old(ctx)@.history, final(ctx)@.history, complete_items(index@)),
{
    let ghost r0 = ctx@.plan.root;
    let _ = ctx.complete_task(index.clone(), None, true, Some(String::from_str(summary)));
    proof {
        lemma_keeps(r0, index@, Edit::Complete(Some(summary@)));
    }
}

fn go(ctx: &mut Context, index: &Vec<usize>)
    requires
        old(ctx).wf(),
        index@.len() > 0,
        has_task(old(ctx)@.plan.root, index@),
    ensures
        final(ctx).wf(),
        final(ctx)@.plan == old(ctx)@.plan,
        final(ctx)@.cursor == index@,
        final(ctx)@.leases == old(ctx)@.leases,
        appended_log(old(ctx)@.history, final(ctx)@.history, move_items(index@)),
{
    let _ = ctx.move_to(index.clone());
}

fn add_front(ctx: &mut Context) -> (indices: (Vec<usize>, Vec<usize>))
    requires
        old(ctx).wf(),
        has_task(old(ctx)@.plan.root, old(ctx)@.cursor),
    ensures
        final(ctx).wf(),
        ({
            let c0 = old(ctx)@.cursor;
            let r0 = old(ctx)@.plan.root;
            let k = count(r0, c0);
            let app = c0.push(k as usize);
            let state = app.push(0).push(1);
            &&& k <= usize::MAX
            &&& final(ctx)@.plan == with_root(old(ctx)@, example_front(r0, c0, k as usize))
            &&& indices.0@ == app
            &&& indices.1@ == state
            &&& has_task(final(ctx)@.plan.root, app)
            &&& count(final(ctx)@.plan.root, app) == 1
            &&& task_at(final(ctx)@.plan.root, state) == Some(new_task_view("Set up State Management"@, 2, None))
            &&& final(ctx)@.leases == old(ctx)@.leases.remove(app.push(0).push(0).push(0))
            &&& appended_log(old(ctx)@.history, final(ctx)@.history, front_log(c0, k as usize))
        }),
{
    let ghost c0 = ctx@.cursor;
    let ghost r0 = ctx@.plan.root;
    let ghost h0 = ctx@.history;
    proof {
        ctx.law_log_bounded();
    }
    let app = add_here(ctx, "Build Web Application", 0);
    let ghost mut acc = add_items(c0, "Build Web Application"@, 0);
    let ghost mut hp = ctx@.history;
    let ghost r1 = ctx@.plan.root;
    go(ctx, &app);
    proof {
        acc = extend(h0, hp, ctx@.history, acc, move_items(app@));
        hp = ctx@.history;
    }
    let ghost c1 = ctx@.cursor;
    let front = add_here(ctx, "Implement Frontend", 1);
    proof {
        acc = extend(h0, hp, ctx@.history, acc, add_items(c1, "Implement Frontend"@, 1));
        hp = ctx@.history;
    }
    let ghost r2 = ctx@.plan.root;
    go(ctx, &front);
    proof {
        acc = extend(h0, hp, ctx@.history, acc, move_items(front@));
        hp = ctx@.history;
    }
    let ghost c2 = ctx@.cursor;
    let ui = add_here(ctx, "Design UI Components", 2);
    proof {
        acc = extend(h0, hp, ctx@.history, acc, add_items(c2, "Design UI Components"@, 2));
        hp = ctx@.history;
    }
    let ghost r3 = ctx@.plan.root;
    go(ctx, &ui);
    proof {
        acc = extend(h0, hp, ctx@.history, acc, move_items(ui@));
        hp = ctx@.history;
    }
    let ghost c3 = ctx@.cursor;
    let auth = add_here(ctx, "Implement User Authentication UI", 3);
    proof {
        acc = extend(h0, hp, ctx@.history, acc, add_items(c3, "Implement User Authentication UI"@, 3));
        hp = ctx@.history;
    }
    let ghost r4 = ctx@.plan.root;
    proof {
        assert(front@.is_prefix_of(auth@));
        assert(app@.is_prefix_of(auth@));
        assert(app@.is_prefix_of(ui@));
        assert(count(r3, front@) == count(r2, front@) + 1);
        assert(count(r4, front@) == count(r3, front@));
        assert(count(r3, app@) == count(r2, app@));
        assert(count(r4, app@) == count(r3, app@));
        assert(has_task(r4, front@));
        assert(has_task(r4, app@));
    }
    complete_here(ctx, &auth, "Auth UI done.");
    proof {
        acc = extend(h0, hp, ctx@.history, acc, complete_items(auth@));
        hp = ctx@.history;
    }
    let ghost r5 = ctx@.plan.root;
    proof {
        assert(count(r5, front@) == count(r4, front@));
        assert(count(r5, app@) == count(r4, app@));
        assert(has_task(r5, front@));
        assert(has_task(r5, app@));
    }
    go(ctx, &front);
    proof {
        acc = extend(h0, hp, ctx@.history, acc, move_items(front@));
        hp = ctx@.history;
    }
    let ghost c4 = ctx@.cursor;
    let state = add_here(ctx, "Set up State Management", 2);
    proof {
        acc = extend(h0, hp, ctx@.history, acc, add_items(c4, "Set up State Management"@, 2));
        assert(acc == front_log(c0, count(r0, c0) as usize));
    }
    let ghost r6 = ctx@.plan.root;
    proof {
        assert(app@.is_prefix_of(front@));
        assert(count(r6, app@) == count(r5, app@));
        assert(has_task(r6, app@));
        assert(state@ =~= app@.push(0).push(1));
    }
    (app, state)
}

/// The path of the database task below the application task `app`.
pub open spec fn db_path(app: Seq<usize>) -> Seq<usize> {
    app.push(1).push(0)
}

fn add_back(ctx: &mut Context, app: &Vec<usize>, Ghost(state): Ghost<Seq<usize>>) -> (db: Vec<usize>)
    requires
        old(ctx).wf(),
        app@.len() > 0,
        has_task(old(ctx)@.plan.root, app@),
        count(old(ctx)@.plan.root, app@) == 1,
        state == app@.push(0).push(1),
        has_task(old(ctx)@.plan.root, state),
    ensures
        final(ctx).wf(),
        final(ctx)@.plan == with_root(old(ctx)@, example_back(old(ctx)@.plan.root, app@)),
        db@ == db_path(app@),
        has_task(final(ctx)@.plan.root, app@),
        has_task(final(ctx)@.plan.root, db@),
        count(final(ctx)@.plan.root, db@) == 3,
        task_at(final(ctx)@.plan.root, state) == task_at(old(ctx)@.plan.root, state),
        final(ctx)@.leases == old(ctx)@.leases.remove(db_path(app@).push(0)),
        appended_log(old(ctx)@.history, final(ctx)@.history, back_log(app@)),
{
    let ghost r0 = ctx@.plan.root;
    let ghost n = app@.len();
    let ghost h0 = ctx@.history;
    proof {
        ctx.law_log_bounded();
    }
    go(ctx, app);
    let ghost mut acc = move_items(app@);
    let ghost mut hp = ctx@.history;
    let back = add_here(ctx, "Implement Backend", 1);
    proof {
        acc = extend(h0, hp, ctx@.history, acc, add_items(app@, "Implement Backend"@, 1));
        hp = ctx@.history;
    }
    let ghost r1 = ctx@.plan.root;
    proof {
        assert(back@ =~= app@.push(1));
        assert(!state.is_prefix_of(app@));
    }
    go(ctx, &back);
    proof {
        acc = extend(h0, hp, ctx@.history, acc, move_items(back@));
        hp = ctx@.history;
    }
    let db = add_here(ctx, "Set up Database", 2);
    proof {
        acc = extend(h0, hp, ctx@.history, acc, add_items(back@, "Set up Database"@, 2));
        hp = ctx@.history;
    }
    let ghost r2 = ctx@.plan.root;
    proof {
        assert(db@ =~= app@.push(1).push(0));
        assert(!state.is_prefix_of(back@));
        assert(app@.is_prefix_of(back@));
        assert(has_task(r2, app@));
    }
    go(ctx, &db);
    proof {
        acc = extend(h0, hp, ctx@.history, acc, move_items(db@));
        hp = ctx@.history;
    }
    let api = add_here(ctx, "Create API Endpoints", 3);
    proof {
        acc = extend(h0, hp, ctx@.history, acc, add_items(db@, "Create API Endpoints"@, 3));
        hp = ctx@.history;
    }
    let ghost r3 = ctx@.plan.root;
    proof {
        assert(!state.is_prefix_of(db@)) by {
            assert(state[n as int] != db@[n as int]);
        }
        assert(has_task(r3, app@));
        assert(has_task(r3, db@));
        assert(count(r3, db@) == 1);
    }
    complete_here(ctx, &api, "Basic CRUD endpoints added.");
    proof {
        acc = extend(h0, hp, ctx@.history, acc, complete_items(api@));
        hp = ctx@.history;
    }
    let ghost r4 = ctx@.plan.root;
    proof {
        assert(api@ =~= db@.push(0));
        assert(!state.is_prefix_of(api@)) by {
            assert(state[n as int] != api@[n as int]);
        }
        assert(!api@.is_prefix_of(state));
        assert(db@.is_prefix_of(api@));
        assert(count(r4, db@) == count(r3, db@));
        assert(has_task(r4, app@));
        assert(has_task(r4, db@));
    }
    let _ = add_here(ctx, "Implement Authentication Logic", 3);
    proof {
        acc = extend(h0, hp, ctx@.history, acc, add_items(db@, "Implement Authentication Logic"@, 3));
        hp = ctx@.history;
    }
    let _ = add_here(ctx, "Create Data Models", 3);
    proof {
        acc = extend(h0, hp, ctx@.history, acc, add_items(db@, "Create Data Models"@, 3));
        assert(acc == back_log(app@));
        assert(has_task(ctx@.plan.root, app@));
    }
    db
}

fn add_rest(ctx: &mut Context, app: &Vec<usize>, db: &Vec<usize>, Ghost(state): Ghost<Seq<usize>>)
    requires
        old(ctx).wf(),
        app@.len() > 0,
        db@ == db_path(app@),
        has_task(old(ctx)@.plan.root, app@),
        has_task(old(ctx)@.plan.root, db@),
        count(old(ctx)@.plan.root, db@) == 3,
        state == app@.push(0).push(1),
        has_task(old(ctx)@.plan.root, state),
    ensures
        final(ctx).wf(),
        final(ctx)@.plan == with_root(old(ctx)@, example_rest(old(ctx)@.plan.root, app@)),
        task_at(final(ctx)@.plan.root, state) == task_at(old(ctx)@.plan.root, state),
        final(ctx)@.leases == old(ctx)@.leases,
        appended_log(old(ctx)@.history, final(ctx)@.history, rest_log(app@)),
{
    let ghost n = app@.len();
    let ghost h0 = ctx@.history;
    proof {
        ctx.law_log_bounded();
    }
    go(ctx, db);
    let ghost mut acc = move_items(db@);
    let ghost mut hp = ctx@.history;
    let model = add_here(ctx, "Product Model", 3);
    proof {
        acc = extend(h0, hp, ctx@.history, acc, add_items(db@, "Product Model"@, 3));
        hp = ctx@.history;
        assert(model@ =~= db@.push(3));
        assert(!state.is_prefix_of(db@)) by {
            assert(state[n as int] != db@[n as int]);
        }
        assert(has_task(ctx@.plan.root, app@));
    }
    go(ctx, &model);
    proof {
        acc = extend(h0, hp, ctx@.history, acc, move_items(model@));
        hp = ctx@.history;
    }
    let _ = add_here(ctx, "Define Product Fields", 3);
    proof {
        acc = extend(h0, hp, ctx@.history, acc, add_items(model@, "Define Product Fields"@, 3));
        hp = ctx@.history;
        assert(!state.is_prefix_of(model@)) by {
            assert(state[n as int] != model@[n as int]);
        }
        assert(has_task(ctx@.plan.root, app@));
    }
    let _ = add_here(ctx, "Implement Relationships", 3);
    proof {
        acc = extend(h0, hp, ctx@.history, acc, add_items(model@, "Implement Relationships"@, 3));
        hp = ctx@.history;
        assert(has_task(ctx@.plan.root, app@));
        assert(!state.is_prefix_of(app@));
    }
    go(ctx, app);
    proof {
        acc = extend(h0, hp, ctx@.history, acc, move_items(app@));
        hp = ctx@.history;
    }
    let _ = add_here(ctx, "Write Documentation", 0);
    proof {
        acc = extend(h0, hp, ctx@.history, acc, add_items(app@, "Write Documentation"@, 0));
        hp = ctx@.history;
    }
    let _ = add_here(ctx, "Test Application", 0);
    proof {
        acc = extend(h0, hp, ctx@.history, acc, add_items(app@, "Test Application"@, 0));
        assert(acc == rest_log(app@));
    }
}

/// Fills the plan in `ctx` with the example tree below its current task,
/// and leaves the cursor on the open state management task.
fn populate_example(ctx: &mut Context)
    requires
        old(ctx).wf(),
        has_task(old(ctx)@.plan.root, old(ctx)@.cursor),
    ensures
        final(ctx).wf(),
        example_done(old(ctx)@, final(ctx)@),
{
    let ghost c0 = ctx@.cursor;
    let ghost r0 = ctx@.plan.root;
    let ghost k = count(r0, c0);
    let ghost h0 = ctx@.history;
    proof {
        ctx.law_log_bounded();
    }
    let (app, state) = add_front(ctx);
    let ghost mut acc = front_log(c0, k as usize);
    let ghost mut hp = ctx@.history;
    let ghost r1 = ctx@.plan.root;
    let db = add_back(ctx, &app, Ghost(state@));
    proof {
        acc = extend(h0, hp, ctx@.history, acc, back_log(app@));
        hp = ctx@.history;
    }
    let ghost r2 = ctx@.plan.root;
    add_rest(ctx, &app, &db, Ghost(state@));
    proof {
        acc = extend(h0, hp, ctx@.history, acc, rest_log(app@));
        hp = ctx@.history;
    }
    go(ctx, &state);
    proof {
        acc = extend(h0, hp, ctx@.history, acc, move_items(state@));
        assert(acc == example_log(c0, k as usize));
    }
}

/// What filling a plan's state `c` with the example gives, in `f`: the
/// example tree below the task under the cursor, the cursor on the state
/// management task (an open task at level 2), the leases of the two tasks
/// completed dropped, and the log extended by what each step logs
/// (`example_log`).
pub open spec fn example_done(c: ContextView, f: ContextView) -> bool {
    let k = count(c.plan.root, c.cursor);
    let app = c.cursor.push(k as usize);
    let state = app.push(0).push(1);
    &&& k <= usize::MAX
    &&& f.plan == with_root(c, example_tree(c.plan.root, c.cursor, k as usize))
    &&& f.cursor == state
    &&& task_at(f.plan.root, state) == Some(new_task_view("Set up State Management"@, 2, None))
    &&& f.leases == c.leases.remove(app.push(0).push(0).push(0)).remove(db_path(app).push(0))
    &&& appended_log(c.history, f.history, example_log(c.cursor, k as usize))
}

/// Fills the plan `plan_id` with the example tree below its current task
/// and leaves its cursor on an open task of it; other plans are left as
/// they are.
pub fn create_example_tasks_for_plan(core: &mut Core, plan_id: &Lease) -> (r: Result<(), PlanError>)
    requires
        old(core).wf(),
        old(core)@.contains_key(lease_value(*plan_id)) ==> has_task(
            old(core)@[lease_value(*plan_id)].plan.root,
            old(core)@[lease_value(*plan_id)].cursor,
        ),
    ensures
        final(core).wf(),
        !old(core)@.contains_key(lease_value(*plan_id)) ==> r == Err::<(), PlanError>(PlanError::PlanNotFound(*plan_id))
            && final(core)@ == old(core)@,
        old(core)@.contains_key(lease_value(*plan_id)) ==> {
            &&& r is Ok
            &&& final(core)@ == old(core)@.insert(lease_value(*plan_id), final(core)@[lease_value(*plan_id)])
            &&& example_done(old(core)@[lease_value(*plan_id)], final(core)@[lease_value(*plan_id)])
        },
{
    match core.take_context(plan_id) {
        None => Err(PlanError::PlanNotFound(*plan_id)),
        Some(mut context) => {
            populate_example(&mut context);
            core.put_context(plan_id, context);
            proof {
                assert(core@ =~= old(core)@.insert(lease_value(*plan_id), context@));
            }
            Ok(())
        },
    }
}

} // verus!
