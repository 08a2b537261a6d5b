//! A plan: the root of a task tree, the abstraction levels its tasks are
//! placed at, and the goal and notes it was made with.

use vstd::prelude::*;
use crate::levels::{Level, LevelView};
use crate::task::{Task, TaskView, TaskEdit, edit_at, edit_view, has_task, opt_text, task_at, lemma_task_at_push, lemma_task_at_extend_none};


verus! {

/// A plan of work.
pub struct Plan {
    root: Task,
    levels: Vec<Level>,
    /// The original prompt or high-level goal for this plan.
    pub goal: Option<String>,
    pub notes: Option<String>,
}

/// The content of a plan.
pub struct PlanView {
    pub root: TaskView,
    pub levels: Seq<LevelView>,
    pub goal: Option<Seq<char>>,
    pub notes: Option<Seq<char>>,
}

/// The views of a list of levels.
pub open spec fn levels_view(v: Seq<Level>) -> Seq<LevelView> {
    v.map_values(|l: Level| l@)
}

impl View for Plan {
    type V = PlanView;

    closed spec fn view(&self) -> PlanView {
        PlanView {
            root: self.root@,
            levels: levels_view(self.levels@),
            goal: opt_text(self.goal),
            notes: opt_text(self.notes),
        }
    }
}

/// The descriptions collected while walking the path `p` from the root:
/// after each step to position `i`, the description of the task reached is
/// kept when `i` is less than `n - 1`.
pub open spec fn path_history(root: TaskView, p: Seq<usize>, n: int) -> Seq<Seq<char>>
    decreases p.len(),
{
    if p.len() == 0 {
        Seq::empty()
    } else {
        let prev = path_history(root, p.drop_last(), n);
        if p.last() < n - 1 {
            prev.push(task_at(root, p)->0.description)
        } else {
            prev
        }
    }
}

/// The level of the task at the non-empty path `p`, the task itself, and
/// the descriptions gathered on the way; `None` where the path is empty or
/// leads nowhere, or where the level it resolves to does not exist. A task
/// without an explicit level takes the level of its depth below the root.
pub open spec fn current_with_history(plan: PlanView, p: Seq<usize>) -> Option<
    (LevelView, TaskView, Seq<Seq<char>>),
> {
    if p.len() == 0 {
        None
    } else {
        match task_at(plan.root, p) {
            None => None,
            Some(t) => {
                let li: int = match t.level_index {
                    Some(l) => l as int,
                    None => p.len() - 1,
                };
                if li < plan.levels.len() {
                    Some((plan.levels[li], t, path_history(plan.root, p, p.len() as int)))
                } else {
                    None
                }
            },
        }
    }
}

fn clone_levels(v: &Vec<Level>) -> (r: Vec<Level>)
    ensures
        levels_view(r@) == levels_view(v@),
{
    let mut r: Vec<Level> = Vec::new();
    let mut i: usize = 0;
    while i < v.len()
        invariant
            i <= v@.len(),
            r@.len() == i,
            forall|j: int| 0 <= j < i ==> #[trigger] r@[j]@ == v@[j]@,
        decreases v@.len() - i,
    {
        r.push(v[i].clone());
        i = i + 1;
    }
    assert(levels_view(r@) =~= levels_view(v@));
    r
}

fn clone_opt(o: &Option<String>) -> (r: Option<String>)
    ensures
        opt_text(r) == opt_text(*o),
{
    match o {
        Some(s) => Some(s.clone()),
        None => None,
    }
}

impl Clone for Plan {
    fn clone(&self) -> (r: Self)
        ensures
            r@ == self@,
    {
        Plan {
            root: self.root.clone(),
            levels: clone_levels(&self.levels),
            goal: clone_opt(&self.goal),
            notes: clone_opt(&self.notes),
        }
    }
}

/// Strings with the given texts.
pub open spec fn strings_view(v: Seq<String>) -> Seq<Seq<char>> {
    v.map_values(|s: String| s@)
}

impl Plan {
    /// Creates a new plan with the given levels, goal and notes; its root
    /// task is named `root` and has no subtasks.
    pub fn new(levels: Vec<Level>, goal: Option<String>, notes: Option<String>) -> (p: Self)
        ensures
            p@ == (PlanView {
                root: TaskView {
                    description: "root"@,
                    completed: false,
                    subtasks: Seq::empty(),
                    level_index: None,
                    completion_summary: None,
                    notes: None,
                },
                levels: levels_view(levels@),
                goal: opt_text(goal),
                notes: opt_text(notes),
            }),
    {
        Plan { root: Task::new(String::from_str("root")), levels, goal, notes }
    }

    /// Assembles a plan from all of its parts.
    pub fn from_parts(root: Task, levels: Vec<Level>, goal: Option<String>, notes: Option<String>) -> (p: Self)
        ensures
            p@ == (PlanView {
                root: root@,
                levels: levels_view(levels@),
                goal: opt_text(goal),
                notes: opt_text(notes),
            }),
    {
        Plan { root, levels, goal, notes }
    }

    /// The task at the given index, the level it is at, and the descriptions
    /// of the tasks passed on the way to it.
    pub fn get_with_history(&self, index: &[usize]) -> (r: Option<(Level, Task, Vec<String>)>)
        ensures
            match r {
                Some((l, t, h)) => current_with_history(self@, index@) == Some(
                    (l@, t@, strings_view(h@)),
                ),
                None => current_with_history(self@, index@) is None,
            },
    {
        let mut current: &Task = &self.root;
        let mut history: Vec<String> = Vec::new();
        let mut k: usize = 0;
        while k < index.len()
            invariant
                k <= index@.len(),
                task_at(self.root@, index@.take(k as int)) == Some(current@),
                strings_view(history@) == path_history(self.root@, index@.take(k as int), index@.len() as int),
            decreases index@.len() - k,
        {
            let i = index[k];
            proof {
                lemma_task_at_push(self.root@, index@.take(k as int), i);
                assert(index@.take(k + 1) =~= index@.take(k as int).push(i));
                assert(index@.take(k + 1).drop_last() =~= index@.take(k as int));
            }
            let subs = current.subtasks();
            if i >= subs.len() {
                proof {
                    lemma_task_at_extend_none(self.root@, index@.take(k + 1), index@);
                }
                return None;
            }
            current = &subs[i];
            if i < index.len() - 1 {
                let ghost before = history@;
                history.push(String::from_str(current.description()));
                proof {
                    assert(strings_view(history@) =~= strings_view(before).push(current@.description));
                }
            }
            k = k + 1;
        }
        assert(index@.take(index@.len() as int) =~= index@);
        if index.len() == 0 {
            return None;
        }
        let level_idx = match current.level_index() {
            Some(l) => l,
            None => index.len() - 1,
        };
        if level_idx < self.levels.len() {
            Some((self.levels[level_idx].clone(), current.clone(), history))
        } else {
            None
        }
    }

    /// The root task.
    pub fn root(&self) -> (t: &Task)
        ensures
            t@ == self@.root,
    {
        &self.root
    }

    /// Applies an edit to the task at `path`, returning the subtask that a
    /// removal takes out.
    pub(crate) fn edit_task(&mut self, path: &[usize], e: TaskEdit) -> (r: Option<Task>)
        requires
            has_task(old(self)@.root, path@),
            e matches TaskEdit::RemoveSubtask(i) ==> i < task_at(old(self)@.root, path@)->0.subtasks.len(),
        ensures
            final(self)@ == (PlanView {
                root: edit_at(old(self)@.root, path@, edit_view(e)),
                levels: old(self)@.levels,
                goal: old(self)@.goal,
                notes: old(self)@.notes,
            }),
            match e {
                TaskEdit::RemoveSubtask(i) => r matches Some(x) && x@ == task_at(old(self)@.root, path@)->0.subtasks[i as int],
                _ => r is None,
            },
    {
        assert(path@.skip(0) =~= path@);
        self.root.edit(path, 0, e)
    }

    /// The task at `path`, if there is one.
    pub(crate) fn task(&self, path: &[usize]) -> (r: Option<&Task>)
        ensures
            match r {
                Some(t) => task_at(self@.root, path@) == Some(t@),
                None => task_at(self@.root, path@) is None,
            },
    {
        assert(path@.skip(0) =~= path@);
        self.root.get(path, 0)
    }

    /// A copy of the goal.
    pub(crate) fn goal_copy(&self) -> (g: Option<String>)
        ensures
            opt_text(g) == self@.goal,
    {
        clone_opt(&self.goal)
    }

    /// A copy of the notes.
    pub(crate) fn notes_copy(&self) -> (n: Option<String>)
        ensures
            opt_text(n) == self@.notes,
    {
        clone_opt(&self.notes)
    }

    /// The goal of this plan.
    pub fn goal_ref(&self) -> (g: &Option<String>)
        ensures
            opt_text(*g) == self@.goal,
    {
        &self.goal
    }

    /// The notes of this plan.
    pub fn notes_ref(&self) -> (n: &Option<String>)
        ensures
            opt_text(*n) == self@.notes,
    {
        &self.notes
    }

    /// The levels of this plan.
    pub fn levels(&self) -> (l: &[Level])
        ensures
            levels_view(l@) == self@.levels,
    {
        self.levels.as_slice()
    }

    /// The number of levels in this plan.
    pub fn level_count(&self) -> (n: usize)
        ensures
            n == self@.levels.len(),
    {
        self.levels.len()
    }
}

} // verus!
