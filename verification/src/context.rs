//! The state of one plan in progress: the plan, a cursor on its task tree,
//! the log of recent transitions, the leases handed out for completion, and
//! the generator the leases are drawn from.

use vstd::prelude::*;
use std::collections::VecDeque;
use rand::rngs::StdRng;
use crate::distilled::{build_nodes, tree_nodes, DistilledContext, DistilledView, PlanResponse, TaskTreeNode};
use crate::external::{next_byte, seeded_rng};
use crate::history::{
    appended_log, history_entries, lemma_appended_step, log_transition, log_view, EntryView,
    LogItem, TransitionLogEntry, MAX_HISTORY_SIZE,
};
use crate::lease::{copy_path, lease_value, Lease, LeaseTable};
use crate::levels::{default_levels, Level, LevelView};
use crate::plan::{current_with_history, levels_view, Plan, PlanView};
use crate::task::{opt_text, task_at, Task, TaskView};
use crate::text::{bool_text, debug_list, decimal, push_bool, push_decimal, push_debug_list};

verus! {

/// The content of a context.
pub struct ContextView {
    pub plan: PlanView,
    pub cursor: Seq<usize>,
    pub history: Seq<EntryView>,
    pub leases: Map<Seq<usize>, u8>,
}

/// Context for managing the planning process of a single plan.
pub struct Context {
    plan: Plan,
    cursor: Vec<usize>,
    history: VecDeque<TransitionLogEntry>,
    leases: LeaseTable,
    rng: StdRng,
}

impl View for Context {
    type V = ContextView;

    closed spec fn view(&self) -> ContextView {
        ContextView {
            plan: self.plan@,
            cursor: self.cursor@,
            history: log_view(self.history),
            leases: self.leases@,
        }
    }
}

/// The summary of how to use the tool that every distilled context carries.
pub open spec fn usage_summary_text() -> Seq<char> {
    "Scatterbrain is a hierarchical planning tool that helps break down complex tasks into manageable pieces. Use 'task add' to add tasks, 'move <index>' to navigate, and 'task complete' to mark tasks as done. Use '--help' on any command (e.g., `scatterbrain task --help`) for more details. Tasks are organized in levels from high-level planning to specific implementation details."@
}

/// The level and task shown as current: at the root, the first level and no
/// task; elsewhere, the level and task under the cursor when they resolve.
pub open spec fn current_level_and_task(c: ContextView) -> (Option<LevelView>, Option<TaskView>) {
    if c.cursor.len() > 0 {
        match current_with_history(c.plan, c.cursor) {
            Some(x) => (Some(x.0), Some(x.1)),
            None => (None, None),
        }
    } else if c.plan.levels.len() > 0 {
        (Some(c.plan.levels[0]), None)
    } else {
        (None, None)
    }
}

/// The distilled context of a state.
pub open spec fn distill(c: ContextView) -> DistilledView {
    DistilledView {
        goal: c.plan.goal,
        usage_summary: usage_summary_text(),
        task_tree: tree_nodes(c.plan.root.subtasks, Seq::empty(), c.cursor),
        current_task: current_level_and_task(c).1,
        current_level: current_level_and_task(c).0,
        levels: c.plan.levels,
        transition_history: c.history,
        plan_notes: c.plan.notes,
    }
}

/// `c` with another task tree.
pub open spec fn with_root(c: ContextView, root: TaskView) -> PlanView {
    PlanView { root, levels: c.plan.levels, goal: c.plan.goal, notes: c.plan.notes }
}

/// `prefix`, the `Debug` rendering of an index path, then `suffix`.
pub open spec fn index_msg(prefix: Seq<char>, index: Seq<usize>, suffix: Seq<char>) -> Seq<char> {
    prefix + debug_list(index) + suffix
}

fn index_message(prefix: &str, index: &[usize], suffix: &str) -> (s: String)
    ensures
        s@ == index_msg(prefix@, index@, suffix@),
{
    let mut s = String::from_str(prefix);
    push_debug_list(&mut s, index);
    s.append(suffix);
    s
}

/// A log item with details.
pub open spec fn item(action: Seq<char>, details: Seq<char>) -> LogItem {
    (action, Some(details))
}


/// The task a new subtask starts as.
pub open spec fn new_task_view(description: Seq<char>, level_index: usize, notes: Option<Seq<char>>) -> TaskView {
    TaskView {
        description,
        completed: false,
        subtasks: Seq::empty(),
        level_index: Some(level_index),
        completion_summary: None,
        notes,
    }
}

/// The details logged when a task is added under `parent`.
pub open spec fn add_task_msg(description: Seq<char>, level_index: usize, has_notes: bool, parent: Seq<usize>) -> Seq<char> {
    "Adding task: '"@ + description + "' with level "@ + decimal(level_index as nat) + " (notes: "@ + bool_text(
        has_notes,
    ) + ") to parent index "@ + debug_list(parent)
}

/// The entries logged for the tasks on the path to `cursor` that adding a
/// subtask marks not completed, deepest first.
pub open spec fn uncomplete_parent_items(cursor: Seq<usize>) -> Seq<LogItem> {
    Seq::new(
        cursor.len(),
        |j: int|
            item(
                "uncomplete_parent"@,
                index_msg("Uncompleted parent task at index: "@, cursor.take(cursor.len() - j), ""@),
            ),
    )
}

/// The suggestions handed out with a lease on the root task.
pub open spec fn root_verification_suggestions() -> Seq<Seq<char>> {
    seq![
        "Ensure compilation passes successfully."@,
        "Ensure new logic is tested in the most concise and isolated way possible."@,
        "Ensure the code written is DRY, idiomatic, and conforms to existing conventions."@,
        "Review code for clarity, maintainability, and potential edge cases."@,
    ]
}

/// The level a task without an explicit level takes below a parent at
/// `depth`: one deeper, stopping at the largest `usize`.
pub open spec fn next_depth(depth: int) -> int {
    if depth < usize::MAX {
        depth + 1
    } else {
        usize::MAX as int
    }
}

/// The first level, in depth-first order, among the tasks `subs` (at one
/// level below `depth`) and their descendants that is higher than `max`.
/// A task without an explicit level counts as being at its depth.
pub open spec fn level_violation(subs: Seq<TaskView>, depth: int, max: int) -> Option<int>
    decreases subs,
{
    if subs.len() == 0 {
        None
    } else {
        let c = subs[0];
        let lvl: int = match c.level_index {
            Some(l) => l as int,
            None => next_depth(depth),
        };
        if lvl > max {
            Some(lvl)
        } else {
            match level_violation(c.subtasks, next_depth(depth), max) {
                Some(v) => Some(v),
                None => level_violation(subs.subrange(1, subs.len() as int), depth, max),
            }
        }
    }
}

/// The verdict on setting the level of the task at `index` to `level`.
pub open spec fn change_level_outcome(plan: PlanView, index: Seq<usize>, level: usize) -> Result<(), Seq<char>> {
    if level >= plan.levels.len() {
        Err("Level index "@ + decimal(level as nat) + " is out of bounds"@)
    } else if index.len() > 0 && task_at(plan.root, index.drop_last()) is Some && level as int > parent_level(
        plan.root,
        index,
    ) {
        Err(
            "Child task cannot have a higher abstraction level ("@ + decimal(level as nat) + ") than its parent ("@
                + decimal(parent_level(plan.root, index) as nat) + ")"@,
        )
    } else {
        match task_at(plan.root, index) {
            Some(t) => match level_violation(t.subtasks, index.len() as int, level as int) {
                Some(v) => Err(
                    "Cannot set level to "@ + decimal(level as nat) + " because a child task has a higher level ("@
                        + decimal(v as nat) + ")"@,
                ),
                None => Ok(()),
            },
            None => Err("Task not found"@),
        }
    }
}

/// The level of the parent of the task at `index`: its explicit level, or
/// else its depth.
pub open spec fn parent_level(root: TaskView, index: Seq<usize>) -> int {
    match task_at(root, index.drop_last())->0.level_index {
        Some(l) => l as int,
        None => index.len() - 1,
    }
}

fn check_children(task: &Task, depth: usize, max_level: usize) -> (r: Option<usize>)
    ensures
        match r {
            Some(v) => level_violation(task@.subtasks, depth as int, max_level as int) == Some(v as int),
            None => level_violation(task@.subtasks, depth as int, max_level as int) is None,
        },
    decreases task@,
{
    let subs = task.subtasks();
    let ghost sv = task@.subtasks;
    let child_depth = if depth < usize::MAX {
        depth + 1
    } else {
        usize::MAX
    };
    assert(sv.subrange(0, sv.len() as int) =~= sv);
    let mut i: usize = 0;
    while i < subs.len()
        invariant
            i <= subs@.len(),
            subs@.len() == sv.len(),
            sv == task@.subtasks,
            child_depth as int == next_depth(depth as int),
            forall|j: int| 0 <= j < subs@.len() ==> #[trigger] subs@[j]@ == sv[j],
            level_violation(sv, depth as int, max_level as int) == level_violation(
                sv.subrange(i as int, sv.len() as int),
                depth as int,
                max_level as int,
            ),
        decreases subs@.len() - i,
    {
        let ghost rest = sv.subrange(i as int, sv.len() as int);
        proof {
            assert(rest[0] == sv[i as int]);
            assert(rest.subrange(1, rest.len() as int) =~= sv.subrange(i + 1, sv.len() as int));
        }
        let sub = &subs[i];
        let lvl = match sub.level_index() {
            Some(l) => l,
            None => child_depth,
        };
        if lvl > max_level {
            return Some(lvl);
        }
        proof {
            assert(decreases_to!(task@ => task@.subtasks));
            assert(decreases_to!(task@.subtasks => task@.subtasks[i as int]));
        }
        match check_children(sub, child_depth, max_level) {
            Some(v) => {
                return Some(v);
            },
            None => {},
        }
        i = i + 1;
    }
    None
}

/// The texts of a result whose error is a string.
pub open spec fn res_text<T>(r: Result<T, String>) -> Result<T, Seq<char>> {
    match r {
        Ok(v) => Ok(v),
        Err(e) => Err(e@),
    }
}

/// The view of a result holding a task or an error string.
pub open spec fn res_task(r: Result<Task, String>) -> Result<TaskView, Seq<char>> {
    match r {
        Ok(t) => Ok(t@),
        Err(e) => Err(e@),
    }
}

/// The view of a result holding optional notes or an error string.
pub open spec fn res_notes(r: Result<Option<String>, String>) -> Result<Option<Seq<char>>, Seq<char>> {
    match r {
        Ok(n) => Ok(opt_text(n)),
        Err(e) => Err(e@),
    }
}

/// The value of an optional lease.
pub open spec fn opt_lease_value(l: Option<Lease>) -> Option<u8> {
    match l {
        Some(x) => Some(lease_value(x)),
        None => None,
    }
}

/// Adding a task under the cursor: the new task, its index, and the state
/// after, from the state before.
pub open spec fn add_task_post(
    c: ContextView,
    f: ContextView,
    description: Seq<char>,
    level_index: usize,
    notes: Option<Seq<char>>,
    task: TaskView,
    index: Seq<usize>,
) -> bool {
    let t = new_task_view(description, level_index, notes);
    &&& f.cursor == c.cursor
    &&& f.leases == c.leases
    &&& f.plan == with_root(c, crate::task::edit_at(c.plan.root, c.cursor, crate::task::Edit::AddSubtask(t)))
    &&& task == t
    &&& task_at(c.plan.root, c.cursor)->0.subtasks.len() <= usize::MAX
    &&& index == c.cursor.push(task_at(c.plan.root, c.cursor)->0.subtasks.len() as usize)
    &&& appended_log(
        c.history,
        f.history,
        seq![item("add_task"@, add_task_msg(description, level_index, notes is Some, c.cursor))]
            + uncomplete_parent_items(c.cursor),
    )
}

/// Removing the task at `index`: the answer and the state after.
pub open spec fn remove_task_post(c: ContextView, f: ContextView, index: Seq<usize>, res: Result<TaskView, Seq<char>>) -> bool {
    let start = item("remove_task"@, index_msg("Attempting to remove task at index: "@, index, ""@));
    let parent = index.drop_last();
    if index.len() == 0 {
        &&& f.plan == c.plan && f.cursor == c.cursor && f.leases == c.leases
        &&& res == Err::<TaskView, Seq<char>>("Cannot remove the root task."@)
        &&& appended_log(c.history, f.history, seq![start, item("remove_task_failed"@, "Cannot remove the root task."@)])
    } else {
        match task_at(c.plan.root, parent) {
            None => {
                let msg = index_msg("Parent task at index "@, parent, " not found."@);
                &&& f.plan == c.plan && f.cursor == c.cursor && f.leases == c.leases
                &&& res == Err::<TaskView, Seq<char>>(msg)
                &&& appended_log(c.history, f.history, seq![start, item("remove_task_failed"@, msg)])
            },
            Some(p) => if index.last() >= p.subtasks.len() {
                let msg = "Child index "@ + decimal(index.last() as nat) + " out of bounds for parent "@ + debug_list(parent);
                &&& f.plan == c.plan && f.cursor == c.cursor && f.leases == c.leases
                &&& res == Err::<TaskView, Seq<char>>(msg)
                &&& appended_log(c.history, f.history, seq![start, item("remove_task_failed"@, msg)])
            } else {
                let removed = p.subtasks[index.last() as int];
                let success = item("remove_task_success"@, "Removed task: '"@ + removed.description + "'"@);
                &&& f.plan == with_root(c, crate::task::edit_at(c.plan.root, parent, crate::task::Edit::RemoveSubtask(index.last())))
                &&& f.leases == c.leases.remove(index)
                &&& res == Ok::<TaskView, Seq<char>>(removed)
                &&& if index.is_prefix_of(c.cursor) {
                    &&& f.cursor == parent
                    &&& appended_log(c.history, f.history, seq![
                        start,
                        item("cursor_adjusted_after_removal"@, index_msg("Cursor moved to parent "@, parent, ""@)),
                        success,
                    ])
                } else {
                    &&& f.cursor == c.cursor
                    &&& appended_log(c.history, f.history, seq![start, success])
                }
            },
        }
    }
}

/// Completing the task at `index`: the answer and the state after.
pub open spec fn complete_task_post(
    c: ContextView,
    f: ContextView,
    index: Seq<usize>,
    lease_attempt: Option<u8>,
    force: bool,
    summary: Option<Seq<char>>,
    res: Result<bool, Seq<char>>,
) -> bool {
    let bound = c.leases.contains_key(index);
    &&& f.cursor == c.cursor
    &&& if !force && bound && lease_attempt is None {
        let msg = index_msg("Task at index "@, index, " requires a lease to be completed."@);
        &&& f.plan == c.plan && f.leases == c.leases
        &&& res == Err::<bool, Seq<char>>(msg)
        &&& appended_log(c.history, f.history, seq![item("complete_task_failed"@, msg)])
    } else if !force && bound && lease_attempt->0 != c.leases[index] {
        let msg = "Lease mismatch for task "@ + debug_list(index) + ". Provided: "@ + crate::text::debug_opt_u8(lease_attempt)
            + ", Required: "@ + decimal(c.leases[index] as nat);
        &&& f.plan == c.plan && f.leases == c.leases
        &&& res == Err::<bool, Seq<char>>(msg)
        &&& appended_log(c.history, f.history, seq![item("complete_task_failed"@, msg)])
    } else if !force && summary is None {
        let msg = index_msg("Task at index "@, index, " requires a summary for non-forced completion."@);
        &&& f.plan == c.plan && f.leases == c.leases
        &&& res == Err::<bool, Seq<char>>(msg)
        &&& appended_log(c.history, f.history, seq![item("complete_task_failed"@, msg)])
    } else {
        let start = item("complete_task"@, "Completing task at index: "@ + debug_list(index) + " (force: "@ + bool_text(force) + ")"@);
        match task_at(c.plan.root, index) {
            Some(_) => {
                &&& f.plan == with_root(c, crate::task::edit_at(c.plan.root, index, crate::task::Edit::Complete(summary)))
                &&& f.leases == c.leases.remove(index)
                &&& res == Ok::<bool, Seq<char>>(true)
                &&& if index.len() == 0 {
                    appended_log(c.history, f.history, seq![start, ("plan_complete_root_task"@, None)])
                } else {
                    appended_log(c.history, f.history, seq![start])
                }
            },
            None => {
                &&& f.plan == c.plan && f.leases == c.leases
                &&& res == Ok::<bool, Seq<char>>(false)
                &&& appended_log(c.history, f.history, seq![start])
            },
        }
    }
}

/// Changing the level of the task at `index`: the answer and the state
/// after.
pub open spec fn change_level_post(c: ContextView, f: ContextView, index: Seq<usize>, level_index: usize, res: Result<(), Seq<char>>) -> bool {
    &&& f.cursor == c.cursor
    &&& f.leases == c.leases
    &&& appended_log(
        c.history,
        f.history,
        seq![item("change_level"@, "Changing level for task "@ + debug_list(index) + " to "@ + decimal(level_index as nat))],
    )
    &&& res == change_level_outcome(c.plan, index, level_index)
    &&& f.plan == match res {
        Ok(_) => with_root(c, crate::task::edit_at(c.plan.root, index, crate::task::Edit::SetLevel(level_index))),
        Err(_) => c.plan,
    }
}

/// Drawing a lease for `index`: the lease, the suggestions, and the state
/// after.
pub open spec fn generate_lease_post(c: ContextView, f: ContextView, index: Seq<usize>, lease: u8, suggestions: Seq<Seq<char>>) -> bool {
    &&& f.plan == c.plan
    &&& f.cursor == c.cursor
    &&& f.leases == c.leases.insert(index, lease)
    &&& suggestions == if index.len() == 0 {
        root_verification_suggestions()
    } else {
        Seq::empty()
    }
    &&& appended_log(
        c.history,
        f.history,
        seq![item("generate_lease"@, "Generated lease "@ + decimal(lease as nat) + " for task "@ + debug_list(index)
            + ". Suggestions provided: "@ + bool_text(index.len() == 0))],
    )
}

/// Moving the cursor to `index`: the answer and the state after.
pub open spec fn move_to_post(c: ContextView, f: ContextView, index: Seq<usize>, res: Option<Seq<char>>) -> bool {
    &&& f.plan == c.plan
    &&& f.leases == c.leases
    &&& appended_log(c.history, f.history, seq![item("move_to"@, index_msg("Moving cursor to index: "@, index, ""@))])
    &&& if index.len() == 0 {
        f.cursor.len() == 0 && res == Some("root"@)
    } else {
        match task_at(c.plan.root, index) {
            Some(t) => f.cursor == index && res == Some(t.description),
            None => f.cursor == c.cursor && res is None,
        }
    }
}

/// Replacing (`Some`) or deleting (`None`) the notes of the task at
/// `index`: the answer and the state after.
pub open spec fn notes_post(c: ContextView, f: ContextView, index: Seq<usize>, notes: Option<Seq<char>>, res: Result<(), Seq<char>>) -> bool {
    let entry = if notes is Some {
        item("set_task_notes"@, index_msg("Setting notes for task at index: "@, index, ""@))
    } else {
        item("delete_task_notes"@, index_msg("Deleting notes for task at index: "@, index, ""@))
    };
    &&& f.cursor == c.cursor
    &&& f.leases == c.leases
    &&& appended_log(c.history, f.history, seq![entry])
    &&& match task_at(c.plan.root, index) {
        Some(_) => res is Ok && f.plan == with_root(c, crate::task::edit_at(c.plan.root, index, crate::task::Edit::SetNotes(notes))),
        None => f.plan == c.plan && res == Err::<(), Seq<char>>(index_msg("Task not found at index: "@, index, ""@)),
    }
}

/// The notes of the task at `index`, or the error for a missing task.
pub open spec fn task_notes_result(c: ContextView, index: Seq<usize>) -> Result<Option<Seq<char>>, Seq<char>> {
    match task_at(c.plan.root, index) {
        Some(t) => Ok(t.notes),
        None => Err(index_msg("Task not found at index: "@, index, ""@)),
    }
}

/// Marking the task at `index` not completed: the answer and the state
/// after.
pub open spec fn uncomplete_task_post(c: ContextView, f: ContextView, index: Seq<usize>, res: Result<bool, Seq<char>>) -> bool {
    match task_at(c.plan.root, index) {
        None => f == c && res == Err::<bool, Seq<char>>("Task not found"@),
        Some(t) => if !t.completed {
            f == c && res == Err::<bool, Seq<char>>("Task is already incomplete"@)
        } else {
            &&& res == Ok::<bool, Seq<char>>(true)
            &&& f.cursor == c.cursor
            &&& f.leases == c.leases
            &&& f.plan == with_root(c, crate::task::edit_at(c.plan.root, index, crate::task::Edit::Uncomplete))
            &&& appended_log(c.history, f.history, seq![item("Uncomplete Task"@, "Uncompleted task \""@ + t.description + "\" at index "@ + crate::text::dotted(index))])
        },
    }
}

impl Context {
    /// The context's internal consistency: the log is within its bound and
    /// no path holds two leases.
    pub closed spec fn wf(&self) -> bool {
        &&& self.history@.len() <= MAX_HISTORY_SIZE
        &&& self.leases.wf()
    }

    /// Every state of a plan keeps at most `MAX_HISTORY_SIZE` entries in its
    /// log of transitions: the oldest are dropped first.
    pub proof fn law_log_bounded(&self)
        requires
            self.wf(),
        ensures
            self@.history.len() <= MAX_HISTORY_SIZE,
    {
    }

    /// Creates a context for the plan, with the cursor at the root, an empty
    /// log, no leases, and a generator seeded with 0.
    pub fn new(plan: Plan) -> (c: Self)
        ensures
            c.wf(),
            c@ == (ContextView {
                plan: plan@,
                cursor: Seq::empty(),
                history: Seq::empty(),
                leases: Map::empty(),
            }),
    {
        Self::new_with_seed(plan, 0)
    }

    /// Creates a context for the plan whose generator is seeded with `seed`.
    pub fn new_with_seed(plan: Plan, seed: u64) -> (c: Self)
        ensures
            c.wf(),
            c@ == (ContextView {
                plan: plan@,
                cursor: Seq::empty(),
                history: Seq::empty(),
                leases: Map::empty(),
            }),
    {
        let c = Context {
            plan,
            cursor: Vec::new(),
            history: VecDeque::with_capacity(MAX_HISTORY_SIZE),
            leases: LeaseTable::new(),
            rng: seeded_rng(seed),
        };
        assert(log_view(c.history) =~= Seq::<EntryView>::empty());
        c
    }

    /// Creates a context for a plan with the default levels and no goal or
    /// notes.
    pub fn default_with_seed(seed: u64) -> (c: Self)
        ensures
            c.wf(),
            c@.plan.levels == crate::levels::default_levels_view(),
            c@.plan.goal is None,
            c@.plan.notes is None,
            c@.plan.root == (TaskView {
                description: "root"@,
                completed: false,
                subtasks: Seq::empty(),
                level_index: None,
                completion_summary: None,
                notes: None,
            }),
            c@.cursor.len() == 0,
            c@.history.len() == 0,
            c@.leases == Map::<Seq<usize>, u8>::empty(),
    {
        let levels = default_levels();
        assert(levels_view(levels@) =~= levels@.map_values(|l: Level| l@));
        let plan = Plan::new(levels, None, None);
        Self::new_with_seed(plan, seed)
    }

    /// Whether the cursor points at a task of the tree.
    pub fn cursor_is_valid(&self) -> (b: bool)
        ensures
            b == crate::task::has_task(self@.plan.root, self@.cursor),
    {
        self.plan.task(self.cursor.as_slice()).is_some()
    }

    /// Builds the task tree focused on the path to the cursor: every node on
    /// that path shows its children, other nodes show none.
    pub fn build_task_tree(&self) -> (r: Vec<TaskTreeNode>)
        ensures
            crate::distilled::nodes_view(r@) == tree_nodes(self@.plan.root.subtasks, Seq::empty(), self@.cursor),
    {
        let base: Vec<usize> = Vec::new();
        self.plan.root().subtasks();
        build_nodes(self.plan.root().subtasks(), &base, self.cursor.as_slice())
    }

    /// The task under the cursor with its level and the descriptions passed
    /// on the way to it.
    pub fn get_current_with_history(&self) -> (r: Option<(Level, Task, Vec<String>)>)
        ensures
            match r {
                Some((l, t, h)) => current_with_history(self@.plan, self@.cursor) == Some(
                    (l@, t@, crate::plan::strings_view(h@)),
                ),
                None => current_with_history(self@.plan, self@.cursor) is None,
            },
    {
        self.plan.get_with_history(self.cursor.as_slice())
    }

    /// A distilled context describing the current planning state.
    pub fn distilled_context(&self) -> (r: PlanResponse<()>)
        ensures
            r.distilled_context@ == distill(self@),
    {
        let usage_summary = String::from_str("Scatterbrain is a hierarchical planning tool that helps break down complex tasks into manageable pieces. Use 'task add' to add tasks, 'move <index>' to navigate, and 'task complete' to mark tasks as done. Use '--help' on any command (e.g., `scatterbrain task --help`) for more details. Tasks are organized in levels from high-level planning to specific implementation details.");
        let task_tree = self.build_task_tree();
        let (current_level, current_task) = if self.cursor.len() > 0 {
            match self.get_current_with_history() {
                Some((level, task, _)) => (Some(level), Some(task)),
                None => (None, None),
            }
        } else {
            let levels = self.plan.levels();
            if levels.len() > 0 {
                (Some(levels[0].clone()), None)
            } else {
                (None, None)
            }
        };
        let levels_slice = self.plan.levels();
        let mut levels: Vec<Level> = Vec::new();
        let mut i: usize = 0;
        while i < levels_slice.len()
            invariant
                i <= levels_slice@.len(),
                levels@.len() == i,
                forall|j: int| 0 <= j < i ==> #[trigger] levels@[j]@ == levels_slice@[j]@,
            decreases levels_slice@.len() - i,
        {
            levels.push(levels_slice[i].clone());
            i = i + 1;
        }
        assert(levels_view(levels@) =~= levels_view(levels_slice@));
        let goal = self.plan.goal_copy();
        let plan_notes = self.plan.notes_copy();
        let distilled = DistilledContext::builder()
            .usage_summary(usage_summary)
            .task_tree(task_tree)
            .current_task(current_task)
            .current_level(current_level)
            .levels(levels)
            .transition_history(history_entries(&self.history))
            .goal(goal)
            .plan_notes(plan_notes)
            .build();
        PlanResponse::new((), distilled)
    }

    /// Adds a new task, at the given level and with the given notes, as the
    /// last subtask of the task under the cursor; every task on the path
    /// to the cursor below the root is marked not completed. Answers with
    /// the new task and its index.
    pub fn add_task(&mut self, description: String, level_index: usize, notes: Option<String>) -> (r: PlanResponse<(Task, Vec<usize>)>)
        requires
            old(self).wf(),
            crate::task::has_task(old(self)@.plan.root, old(self)@.cursor),
        ensures
            final(self).wf(),
            add_task_post(old(self)@, final(self)@, description@, level_index, opt_text(notes), r.res.0@, r.res.1@),
            r.distilled_context@ == distill(final(self)@),

    {
        let ghost h0 = self@.history;
        let mut details = String::from_str("Adding task: '");
        details.append(description.as_str());
        details.append("' with level ");
        push_decimal(&mut details, level_index);
        details.append(" (notes: ");
        push_bool(&mut details, notes.is_some());
        details.append(") to parent index ");
        push_debug_list(&mut details, self.cursor.as_slice());
        log_transition(&mut self.history, String::from_str("add_task"), Some(details));
        let ghost first = seq![item("add_task"@, add_task_msg(description@, level_index, notes is Some, old(self)@.cursor))];
        let mut task = Task::with_level(description, level_index);
        task.set_notes(notes);
        let task_clone = task.clone();
        let position = match self.plan.task(self.cursor.as_slice()) {
            Some(parent) => parent.subtasks().len(),
            None => 0,
        };
        self.plan.edit_task(self.cursor.as_slice(), crate::task::TaskEdit::AddSubtask(task));
        let mut new_index = copy_path(self.cursor.as_slice());
        new_index.push(position);
        let ghost full = uncomplete_parent_items(old(self)@.cursor);
        let mut ancestor = copy_path(self.cursor.as_slice());
        let ghost n = old(self)@.cursor.len();
        assert(full.take(0) =~= Seq::<LogItem>::empty());
        assert(first + full.take(0) =~= first);
        while ancestor.len() > 0
            invariant
                self.wf(),
                self@.cursor == old(self)@.cursor,
                n == self@.cursor.len(),
                ancestor@.len() <= n,
                ancestor@ == self@.cursor.take(ancestor@.len() as int),
                full == uncomplete_parent_items(self@.cursor),
                h0.len() <= MAX_HISTORY_SIZE,
                appended_log(h0, self@.history, first + full.take(n - ancestor@.len())),
                self@.plan == with_root(
                    old(self)@,
                    crate::task::edit_at(
                        old(self)@.plan.root,
                        old(self)@.cursor,
                        crate::task::Edit::AddSubtask(task_clone@),
                    ),
                ),
                self@.leases == old(self)@.leases,
            decreases ancestor@.len(),
        {
            let ghost h1 = self@.history;
            let ghost done = first + full.take(n - ancestor@.len());
            let details = index_message("Uncompleted parent task at index: ", ancestor.as_slice(), "");
            log_transition(&mut self.history, String::from_str("uncomplete_parent"), Some(details));
            proof {
                let x = item("uncomplete_parent"@, index_msg("Uncompleted parent task at index: "@, ancestor@, ""@));
                lemma_appended_step(h0, h1, self@.history, done, x);
                let j = n - ancestor@.len();
                assert(self@.cursor.take(n - j) == ancestor@);
                assert(full[j] == x);
                assert(done.push(x) =~= first + full.take(j + 1));
            }
            ancestor.pop();
            proof {
                assert(ancestor@ =~= self@.cursor.take(ancestor@.len() as int));
            }
        }
        assert(full.take(n as int) =~= full);
        let d = self.distilled_context().context();
        PlanResponse::new((task_clone, new_index), d)
    }

    /// Removes the task at `index`, answering with it. The root cannot be
    /// removed, nor a task that does not exist. The lease bound to exactly
    /// `index` is dropped, and a cursor at or below the removed task moves
    /// to its parent.
    pub fn remove_task(&mut self, index: Vec<usize>) -> (r: PlanResponse<Result<Task, String>>)
        requires
            old(self).wf(),
        ensures
            final(self).wf(),
            remove_task_post(old(self)@, final(self)@, index@, res_task(r.res)),
            r.distilled_context@ == distill(final(self)@),

    {
        let ghost h0 = self@.history;
        let details = index_message("Attempting to remove task at index: ", index.as_slice(), "");
        log_transition(&mut self.history, String::from_str("remove_task"), Some(details));
        let ghost start = item("remove_task"@, index_msg("Attempting to remove task at index: "@, index@, ""@));
        let ghost h1 = self@.history;
        if index.len() == 0 {
            let err_msg = String::from_str("Cannot remove the root task.");
            log_transition(&mut self.history, String::from_str("remove_task_failed"), Some(err_msg.clone()));
            proof {
                lemma_appended_step(h0, h1, self@.history, seq![start], item("remove_task_failed"@, err_msg@));
                assert(seq![start].push(item("remove_task_failed"@, err_msg@)) =~= seq![start, item("remove_task_failed"@, err_msg@)]);
            }
            let d = self.distilled_context().context();
            return PlanResponse::new(Err(err_msg), d);
        }
        let child_idx = index[index.len() - 1];
        let mut parent_index = copy_path(index.as_slice());
        parent_index.pop();
        assert(parent_index@ =~= index@.drop_last());
        let child_count = match self.plan.task(parent_index.as_slice()) {
            Some(parent) => Some(parent.subtasks().len()),
            None => None,
        };
        match child_count {
            None => {
                let err_msg = index_message("Parent task at index ", parent_index.as_slice(), " not found.");
                log_transition(&mut self.history, String::from_str("remove_task_failed"), Some(err_msg.clone()));
                proof {
                    lemma_appended_step(h0, h1, self@.history, seq![start], item("remove_task_failed"@, err_msg@));
                    assert(seq![start].push(item("remove_task_failed"@, err_msg@)) =~= seq![start, item("remove_task_failed"@, err_msg@)]);
                }
                let d = self.distilled_context().context();
                PlanResponse::new(Err(err_msg), d)
            },
            Some(count) => {
                if child_idx >= count {
                    let mut err_msg = String::from_str("Child index ");
                    push_decimal(&mut err_msg, child_idx);
                    err_msg.append(" out of bounds for parent ");
                    push_debug_list(&mut err_msg, parent_index.as_slice());
                    log_transition(&mut self.history, String::from_str("remove_task_failed"), Some(err_msg.clone()));
                    proof {
                        lemma_appended_step(h0, h1, self@.history, seq![start], item("remove_task_failed"@, err_msg@));
                        assert(seq![start].push(item("remove_task_failed"@, err_msg@)) =~= seq![start, item("remove_task_failed"@, err_msg@)]);
                    }
                    let d = self.distilled_context().context();
                    return PlanResponse::new(Err(err_msg), d);
                }
                let removed = self.plan.edit_task(
                    parent_index.as_slice(),
                    crate::task::TaskEdit::RemoveSubtask(child_idx),
                );
                let removed_task = match removed {
                    Some(t) => t,
                    None => Task::new(String::new()),
                };
                self.leases.remove(index.as_slice());
                let ghost mut mid: Seq<LogItem> = seq![start];
                let ghost h2 = self@.history;
                if crate::distilled::is_prefix(index.as_slice(), self.cursor.as_slice()) {
                    self.cursor = copy_path(parent_index.as_slice());
                    let details = index_message("Cursor moved to parent ", self.cursor.as_slice(), "");
                    log_transition(&mut self.history, String::from_str("cursor_adjusted_after_removal"), Some(details));
                    proof {
                        let x = item("cursor_adjusted_after_removal"@, index_msg("Cursor moved to parent "@, parent_index@, ""@));
                        lemma_appended_step(h0, h2, self@.history, mid, x);
                        mid = mid.push(x);
                    }
                }
                let ghost h3 = self@.history;
                let mut details = String::from_str("Removed task: '");
                details.append(removed_task.description());
                details.append("'");
                log_transition(&mut self.history, String::from_str("remove_task_success"), Some(details));
                proof {
                    let x = item("remove_task_success"@, "Removed task: '"@ + removed_task@.description + "'"@);
                    lemma_appended_step(h0, h3, self@.history, mid, x);
                    assert(seq![start].push(x) =~= seq![start, x]);
                    assert(seq![start].push(item("cursor_adjusted_after_removal"@, index_msg("Cursor moved to parent "@, parent_index@, ""@))).push(x)
                        =~= seq![start, item("cursor_adjusted_after_removal"@, index_msg("Cursor moved to parent "@, parent_index@, ""@)), x]);
                }
                let d = self.distilled_context().context();
                PlanResponse::new(Ok(removed_task), d)
            },
        }
    }

    /// Completes the task at `index` and all of its descendants, recording
    /// the summary. Unless `force` is set, a lease bound to `index` must be
    /// matched by `lease_attempt`, and a summary must be given; a refusal
    /// changes nothing but the log. Answers `Ok(true)` when the task was
    /// completed and `Ok(false)` when no task is at `index`; completion drops
    /// the lease bound to `index`.
    pub fn complete_task(
        &mut self,
        index: Vec<usize>,
        lease_attempt: Option<Lease>,
        force: bool,
        summary: Option<String>,
    ) -> (r: PlanResponse<Result<bool, String>>)
        requires
            old(self).wf(),
        ensures
            final(self).wf(),
            complete_task_post(old(self)@, final(self)@, index@, opt_lease_value(lease_attempt), force, opt_text(summary), res_text(r.res)),
            r.distilled_context@ == distill(final(self)@),

    {
        if !force {
            match self.leases.get(index.as_slice()) {
                Some(required) => {
                    match lease_attempt {
                        None => {
                            let msg = index_message("Task at index ", index.as_slice(), " requires a lease to be completed.");
                            log_transition(&mut self.history, String::from_str("complete_task_failed"), Some(msg.clone()));
                            let d = self.distilled_context().context();
                            return PlanResponse::new(Err(msg), d);
                        },
                        Some(attempt) => {
                            if attempt.value() != required {
                                let mut msg = String::from_str("Lease mismatch for task ");
                                push_debug_list(&mut msg, index.as_slice());
                                msg.append(". Provided: ");
                                crate::text::push_debug_opt_u8(&mut msg, Some(attempt.value()));
                                msg.append(", Required: ");
                                push_decimal(&mut msg, required as usize);
                                log_transition(&mut self.history, String::from_str("complete_task_failed"), Some(msg.clone()));
                                let d = self.distilled_context().context();
                                return PlanResponse::new(Err(msg), d);
                            }
                        },
                    }
                },
                None => {},
            }
        }
        if !force && summary.is_none() {
            let msg = index_message("Task at index ", index.as_slice(), " requires a summary for non-forced completion.");
            log_transition(&mut self.history, String::from_str("complete_task_failed"), Some(msg.clone()));
            let d = self.distilled_context().context();
            return PlanResponse::new(Err(msg), d);
        }
        let ghost h0 = self@.history;
        let mut details = String::from_str("Completing task at index: ");
        push_debug_list(&mut details, index.as_slice());
        details.append(" (force: ");
        push_bool(&mut details, force);
        details.append(")");
        log_transition(&mut self.history, String::from_str("complete_task"), Some(details));
        let ghost start = item("complete_task"@, "Completing task at index: "@ + debug_list(index@) + " (force: "@ + bool_text(force) + ")"@);
        let ghost h1 = self@.history;
        let success = if self.plan.task(index.as_slice()).is_some() {
            self.plan.edit_task(index.as_slice(), crate::task::TaskEdit::Complete(summary));
            self.leases.remove(index.as_slice());
            true
        } else {
            false
        };
        if success && index.len() == 0 {
            log_transition(&mut self.history, String::from_str("plan_complete_root_task"), None);
            proof {
                lemma_appended_step(h0, h1, self@.history, seq![start], ("plan_complete_root_task"@, None));
                assert(seq![start].push(("plan_complete_root_task"@, None::<Seq<char>>)) =~= seq![start, ("plan_complete_root_task"@, None)]);
            }
        }
        let d = self.distilled_context().context();
        PlanResponse::new(Ok(success), d)
    }

    /// Sets the level of the task at `index`, refusing a level that does
    /// not exist, one higher than the parent's, and one lower than that of
    /// some descendant (see `change_level_outcome`).
    pub fn change_level(&mut self, index: Vec<usize>, level_index: usize) -> (r: PlanResponse<Result<(), String>>)
        requires
            old(self).wf(),
        ensures
            final(self).wf(),
            change_level_post(old(self)@, final(self)@, index@, level_index, res_text(r.res)),
            r.distilled_context@ == distill(final(self)@),

    {
        let mut details = String::from_str("Changing level for task ");
        push_debug_list(&mut details, index.as_slice());
        details.append(" to ");
        push_decimal(&mut details, level_index);
        log_transition(&mut self.history, String::from_str("change_level"), Some(details));
        if level_index >= self.plan.level_count() {
            let mut msg = String::from_str("Level index ");
            push_decimal(&mut msg, level_index);
            msg.append(" is out of bounds");
            let d = self.distilled_context().context();
            return PlanResponse::new(Err(msg), d);
        }
        if index.len() > 0 {
            let mut parent_index = copy_path(index.as_slice());
            parent_index.pop();
            assert(parent_index@ =~= index@.drop_last());
            match self.plan.task(parent_index.as_slice()) {
                Some(parent) => {
                    let parent_level = match parent.level_index() {
                        Some(l) => l,
                        None => parent_index.len(),
                    };
                    if level_index > parent_level {
                        let mut msg = String::from_str("Child task cannot have a higher abstraction level (");
                        push_decimal(&mut msg, level_index);
                        msg.append(") than its parent (");
                        push_decimal(&mut msg, parent_level);
                        msg.append(")");
                        let d = self.distilled_context().context();
                        return PlanResponse::new(Err(msg), d);
                    }
                },
                None => {},
            }
        }
        let violation = match self.plan.task(index.as_slice()) {
            Some(task) => check_children(task, index.len(), level_index),
            None => None,
        };
        match violation {
            Some(v) => {
                let mut msg = String::from_str("Cannot set level to ");
                push_decimal(&mut msg, level_index);
                msg.append(" because a child task has a higher level (");
                push_decimal(&mut msg, v);
                msg.append(")");
                let d = self.distilled_context().context();
                return PlanResponse::new(Err(msg), d);
            },
            None => {},
        }
        if self.plan.task(index.as_slice()).is_some() {
            self.plan.edit_task(index.as_slice(), crate::task::TaskEdit::SetLevel(level_index));
            let d = self.distilled_context().context();
            PlanResponse::new(Ok(()), d)
        } else {
            let d = self.distilled_context().context();
            PlanResponse::new(Err(String::from_str("Task not found")), d)
        }
    }

    /// Draws a lease from the generator and binds it to `index` (whether or
    /// not a task is there), replacing any earlier lease. A lease on the
    /// root comes with verification suggestions.
    pub fn generate_lease(&mut self, index: Vec<usize>) -> (r: PlanResponse<(Lease, Vec<String>)>)
        requires
            old(self).wf(),
        ensures
            final(self).wf(),
            generate_lease_post(old(self)@, final(self)@, index@, lease_value(r.res.0), crate::plan::strings_view(r.res.1@)),
            r.distilled_context@ == distill(final(self)@),

    {
        let lease_val = next_byte(&mut self.rng);
        let lease = Lease::new(lease_val);
        let key = copy_path(index.as_slice());
        self.leases.insert(key, lease);
        let verification_suggestions = if index.len() == 0 {
            let v = vec![
                String::from_str("Ensure compilation passes successfully."),
                String::from_str("Ensure new logic is tested in the most concise and isolated way possible."),
                String::from_str("Ensure the code written is DRY, idiomatic, and conforms to existing conventions."),
                String::from_str("Review code for clarity, maintainability, and potential edge cases."),
            ];
            assert(crate::plan::strings_view(v@) =~= root_verification_suggestions());
            v
        } else {
            let v: Vec<String> = Vec::new();
            assert(crate::plan::strings_view(v@) =~= Seq::<Seq<char>>::empty());
            v
        };
        let mut details = String::from_str("Generated lease ");
        push_decimal(&mut details, lease_val as usize);
        details.append(" for task ");
        push_debug_list(&mut details, index.as_slice());
        details.append(". Suggestions provided: ");
        push_bool(&mut details, verification_suggestions.len() > 0);
        log_transition(&mut self.history, String::from_str("generate_lease"), Some(details));
        let d = self.distilled_context().context();
        PlanResponse::new((lease, verification_suggestions), d)
    }

    /// Moves the cursor to the task at `index`; the root is always reachable.
    /// Answers with the description of the task moved to (`root` for the
    /// root), or `None`, leaving the cursor in place, when no task is there.
    pub fn move_to(&mut self, index: Vec<usize>) -> (r: PlanResponse<Option<String>>)
        requires
            old(self).wf(),
        ensures
            final(self).wf(),
            move_to_post(old(self)@, final(self)@, index@, opt_text(r.res)),
            r.distilled_context@ == distill(final(self)@),

    {
        let details = index_message("Moving cursor to index: ", index.as_slice(), "");
        log_transition(&mut self.history, String::from_str("move_to"), Some(details));
        if index.len() == 0 {
            self.cursor = Vec::new();
            let d = self.distilled_context().context();
            return PlanResponse::new(Some(String::from_str("root")), d);
        }
        let description = match self.plan.task(index.as_slice()) {
            Some(task) => Some(String::from_str(task.description())),
            None => None,
        };
        match description {
            Some(desc) => {
                self.cursor = index;
                let d = self.distilled_context().context();
                PlanResponse::new(Some(desc), d)
            },
            None => {
                let d = self.distilled_context().context();
                PlanResponse::new(None, d)
            },
        }
    }

    /// The task under the cursor, if the cursor points at one.
    pub fn get_current_task(&self) -> (r: Option<&Task>)
        ensures
            match r {
                Some(t) => task_at(self@.plan.root, self@.cursor) == Some(t@),
                None => task_at(self@.plan.root, self@.cursor) is None,
            },
    {
        self.plan.task(self.cursor.as_slice())
    }

    /// The cursor.
    pub fn get_current_index(&self) -> (r: PlanResponse<Vec<usize>>)
        ensures
            r.res@ == self@.cursor,
            r.distilled_context@ == distill(self@),
    {
        let d = self.distilled_context().context();
        PlanResponse::new(copy_path(self.cursor.as_slice()), d)
    }

    /// The depth of the cursor below the root.
    pub fn get_current_level(&self) -> (n: usize)
        ensures
            n == self@.cursor.len(),
    {
        self.get_current_index().into_inner().len()
    }

    /// Moves the cursor up to the given depth; a cursor no deeper than that
    /// stays where it is.
    pub fn set_current_level(&mut self, level: usize)
        requires
            old(self).wf(),
        ensures
            final(self).wf(),
            final(self)@.plan == old(self)@.plan,
            final(self)@.leases == old(self)@.leases,
            final(self)@.cursor == if level < old(self)@.cursor.len() {
                old(self)@.cursor.take(level as int)
            } else {
                old(self)@.cursor
            },
            appended_log(old(self)@.history, final(self)@.history, seq![item("set_current_level"@, "Setting current level to: "@ + crate::text::decimal(level as nat))]),
    {
        let mut details = String::from_str("Setting current level to: ");
        crate::text::push_decimal(&mut details, level);
        log_transition(&mut self.history, String::from_str("set_current_level"), Some(details));
        if self.cursor.len() > level {
            self.cursor.truncate(level);
        }
    }

    /// The subtasks of the task at `index`, each with its own index; empty
    /// when no task is there.
    pub fn get_subtasks(&self, index: &[usize]) -> (r: Vec<(Vec<usize>, &Task)>)
        ensures
            match task_at(self@.plan.root, index@) {
                Some(t) => r@.len() == t.subtasks.len() && forall|i: int| 0 <= i < r@.len() ==> {
                    &&& (#[trigger] r@[i]).0@ == index@.push(i as usize)
                    &&& r@[i].1@ == t.subtasks[i]
                },
                None => r@.len() == 0,
            },
    {
        let mut result: Vec<(Vec<usize>, &Task)> = Vec::new();
        match self.plan.task(index) {
            Some(task) => {
                let subs = task.subtasks();
                let mut i: usize = 0;
                while i < subs.len()
                    invariant
                        i <= subs@.len(),
                        subs@.len() == task@.subtasks.len(),
                        forall|j: int| 0 <= j < subs@.len() ==> #[trigger] subs@[j]@ == task@.subtasks[j],
                        result@.len() == i,
                        forall|j: int| 0 <= j < i ==> {
                            &&& (#[trigger] result@[j]).0@ == index@.push(j as usize)
                            &&& result@[j].1@ == task@.subtasks[j]
                        },
                    decreases subs@.len() - i,
                {
                    let mut child_index = copy_path(index);
                    child_index.push(i);
                    result.push((child_index, &subs[i]));
                    i = i + 1;
                }
                result
            },
            None => result,
        }
    }

    /// A copy of the plan.
    pub fn get_plan(&self) -> (r: PlanResponse<Plan>)
        ensures
            r.res@ == self@.plan,
            r.distilled_context@ == distill(self@),
    {
        let d = self.distilled_context().context();
        PlanResponse::new(self.plan.clone(), d)
    }

    /// Replaces the notes of the task at `index`.
    pub fn set_task_notes(&mut self, index: Vec<usize>, notes: String) -> (r: PlanResponse<Result<(), String>>)
        requires
            old(self).wf(),
        ensures
            final(self).wf(),
            notes_post(old(self)@, final(self)@, index@, Some(notes@), res_text(r.res)),
            r.distilled_context@ == distill(final(self)@),

    {
        let details = index_message("Setting notes for task at index: ", index.as_slice(), "");
        log_transition(&mut self.history, String::from_str("set_task_notes"), Some(details));
        let result = if self.plan.task(index.as_slice()).is_some() {
            self.plan.edit_task(index.as_slice(), crate::task::TaskEdit::SetNotes(Some(notes)));
            Ok(())
        } else {
            Err(index_message("Task not found at index: ", index.as_slice(), ""))
        };
        let d = self.distilled_context().context();
        PlanResponse::new(result, d)
    }

    /// The notes of the task at `index`.
    pub fn get_task_notes(&self, index: Vec<usize>) -> (r: PlanResponse<Result<Option<String>, String>>)
        ensures
            res_notes(r.res) == task_notes_result(self@, index@),
            r.distilled_context@ == distill(self@),

    {
        let result = match self.plan.task(index.as_slice()) {
            Some(task) => Ok(
                match task.notes() {
                    Some(n) => Some(String::from_str(n)),
                    None => None,
                },
            ),
            None => Err(index_message("Task not found at index: ", index.as_slice(), "")),
        };
        let d = self.distilled_context().context();
        PlanResponse::new(result, d)
    }

    /// Deletes the notes of the task at `index`.
    pub fn delete_task_notes(&mut self, index: Vec<usize>) -> (r: PlanResponse<Result<(), String>>)
        requires
            old(self).wf(),
        ensures
            final(self).wf(),
            notes_post(old(self)@, final(self)@, index@, None, res_text(r.res)),
            r.distilled_context@ == distill(final(self)@),

    {
        let details = index_message("Deleting notes for task at index: ", index.as_slice(), "");
        log_transition(&mut self.history, String::from_str("delete_task_notes"), Some(details));
        let result = if self.plan.task(index.as_slice()).is_some() {
            self.plan.edit_task(index.as_slice(), crate::task::TaskEdit::SetNotes(None));
            Ok(())
        } else {
            Err(index_message("Task not found at index: ", index.as_slice(), ""))
        };
        let d = self.distilled_context().context();
        PlanResponse::new(result, d)
    }

    /// Marks the completed task at `index` not completed, clearing its
    /// summary. A missing task and a task that is not completed are refused
    /// and change nothing, the log included.
    pub fn uncomplete_task(&mut self, index: Vec<usize>) -> (r: PlanResponse<Result<bool, String>>)
        requires
            old(self).wf(),
        ensures
            final(self).wf(),
            uncomplete_task_post(old(self)@, final(self)@, index@, res_text(r.res)),
            r.distilled_context@ == distill(final(self)@),

    {
        let found = match self.plan.task(index.as_slice()) {
            None => None,
            Some(task) => Some((String::from_str(task.description()), task.is_completed())),
        };
        let result = match found {
            None => Err(String::from_str("Task not found")),
            Some((description, completed)) => {
                if !completed {
                    Err(String::from_str("Task is already incomplete"))
                } else {
                    self.plan.edit_task(index.as_slice(), crate::task::TaskEdit::Uncomplete);
                    let mut details = String::from_str("Uncompleted task \"");
                    details.append(description.as_str());
                    details.append("\" at index ");
                    crate::text::push_joined_decimals(&mut details, index.as_slice(), ".");
                    log_transition(&mut self.history, String::from_str("Uncomplete Task"), Some(details));
                    Ok(true)
                }
            },
        };
        let d = self.distilled_context().context();
        PlanResponse::new(result, d)
    }
}

} // verus!
