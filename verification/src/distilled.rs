//! What every operation answers with: its result together with a distilled
//! view of the planning state, including a task tree focused on the path to
//! the cursor.

use vstd::prelude::*;
use crate::history::{entries_view, EntryView, TransitionLogEntry};
use crate::levels::{Level, LevelView};
use crate::plan::levels_view;
use crate::task::{lemma_tasks_view, opt_text, task_at, tasks_view, Task, TaskView};

verus! {

/// A node of the focused task tree.
#[derive(Debug, PartialEq)]
pub struct TaskTreeNode {
    /// The description of the task
    pub description: String,
    /// The index path to the task
    pub index: Vec<usize>,
    /// Whether the task is completed
    pub completed: bool,
    /// Whether this is the current task
    pub is_current: bool,
    /// Optional completion summary
    pub completion_summary: Option<String>,
    /// Optional task notes
    pub notes: Option<String>,
    /// Child tasks (only included for the current task and its ancestors)
    pub children: Vec<TaskTreeNode>,
}

/// The content of a tree node and of the nodes below it.
pub struct NodeView {
    pub description: Seq<char>,
    pub index: Seq<usize>,
    pub completed: bool,
    pub is_current: bool,
    pub completion_summary: Option<Seq<char>>,
    pub notes: Option<Seq<char>>,
    pub children: Seq<NodeView>,
}

/// The view of one node.
pub closed spec fn node_view(n: TaskTreeNode) -> NodeView
    decreases n,
{
    NodeView {
        description: n.description@,
        index: n.index@,
        completed: n.completed,
        is_current: n.is_current,
        completion_summary: opt_text(n.completion_summary),
        notes: opt_text(n.notes),
        children: nodes_view(n.children@),
    }
}

/// The views of a sequence of nodes.
pub closed spec fn nodes_view(s: Seq<TaskTreeNode>) -> Seq<NodeView>
    decreases s,
{
    if s.len() == 0 {
        Seq::empty()
    } else {
        nodes_view(s.subrange(0, s.len() - 1)).push(node_view(s[s.len() - 1]))
    }
}

impl View for TaskTreeNode {
    type V = NodeView;

    open spec fn view(&self) -> NodeView {
        node_view(*self)
    }
}

/// The view of a node is made of its fields' views.
pub broadcast proof fn lemma_node_view(n: TaskTreeNode)
    ensures
        #[trigger] node_view(n) == (NodeView {
            description: n.description@,
            index: n.index@,
            completed: n.completed,
            is_current: n.is_current,
            completion_summary: opt_text(n.completion_summary),
            notes: opt_text(n.notes),
            children: nodes_view(n.children@),
        }),
{
}

/// The views of nodes are taken position by position.
pub broadcast proof fn lemma_nodes_view(s: Seq<TaskTreeNode>)
    ensures
        #[trigger] nodes_view(s).len() == s.len(),
        forall|i: int| 0 <= i < s.len() ==> #[trigger] nodes_view(s)[i] == s[i]@,
    decreases s.len(),
{
    if s.len() > 0 {
        lemma_nodes_view(s.subrange(0, s.len() - 1));
        assert forall|i: int| 0 <= i < s.len() implies #[trigger] nodes_view(s)[i] == s[i]@ by {
            if i < s.len() - 1 {
                assert(s.subrange(0, s.len() - 1)[i] == s[i]);
            }
        }
    }
}

/// The node for task `t` at index path `idx`: its children are shown only
/// when the node lies on the path to the cursor.
pub open spec fn tree_node(t: TaskView, idx: Seq<usize>, cursor: Seq<usize>) -> NodeView
    decreases t,
{
    NodeView {
        description: t.description,
        index: idx,
        completed: t.completed,
        is_current: idx == cursor,
        completion_summary: t.completion_summary,
        notes: t.notes,
        children: if idx.is_prefix_of(cursor) {
            tree_nodes(t.subtasks, idx, cursor)
        } else {
            Seq::empty()
        },
    }
}

/// The nodes for the tasks `subs` placed under the index path `base`.
pub open spec fn tree_nodes(subs: Seq<TaskView>, base: Seq<usize>, cursor: Seq<usize>) -> Seq<NodeView>
    decreases subs,
{
    if subs.len() == 0 {
        Seq::empty()
    } else {
        tree_nodes(subs.subrange(0, subs.len() - 1), base, cursor).push(
            tree_node(subs[subs.len() - 1], base.push((subs.len() - 1) as usize), cursor),
        )
    }
}

/// The focused tree has one node per task, in order, each at the index
/// path of its position.
pub proof fn lemma_tree_nodes(subs: Seq<TaskView>, base: Seq<usize>, cursor: Seq<usize>)
    ensures
        tree_nodes(subs, base, cursor).len() == subs.len(),
        forall|i: int| 0 <= i < subs.len() ==> #[trigger] tree_nodes(subs, base, cursor)[i]
            == tree_node(subs[i], base.push(i as usize), cursor),
    decreases subs.len(),
{
    if subs.len() > 0 {
        let t = subs.subrange(0, subs.len() - 1);
        lemma_tree_nodes(t, base, cursor);
        assert forall|i: int| 0 <= i < subs.len() implies #[trigger] tree_nodes(subs, base, cursor)[i]
            == tree_node(subs[i], base.push(i as usize), cursor) by {
            if i < subs.len() - 1 {
                assert(t[i] == subs[i]);
            }
        }
    }
}

/// Whether `p` is a prefix of `q`.
pub fn is_prefix(p: &[usize], q: &[usize]) -> (r: bool)
    ensures
        r == p@.is_prefix_of(q@),
{
    if p.len() > q.len() {
        return false;
    }
    let mut i: usize = 0;
    while i < p.len()
        invariant
            p@.len() <= q@.len(),
            i <= p@.len(),
            forall|j: int| 0 <= j < i ==> p@[j] == q@[j],
        decreases p@.len() - i,
    {
        if p[i] != q[i] {
            return false;
        }
        i = i + 1;
    }
    true
}

/// Whether two index paths are equal.
pub fn same_index(p: &[usize], q: &[usize]) -> (r: bool)
    ensures
        r == (p@ == q@),
{
    let r = p.len() == q.len() && is_prefix(p, q);
    proof {
        if r {
            assert(p@ =~= q@);
        }
    }
    r
}

fn clone_opt(o: Option<&String>) -> (r: Option<String>)
    ensures
        match o {
            Some(s) => r == Some(*s),
            None => r is None,
        },
{
    match o {
        Some(s) => Some(s.clone()),
        None => None,
    }
}

fn opt_str_to_string(o: Option<&str>) -> (r: Option<String>)
    ensures
        match o {
            Some(s) => r matches Some(x) && x@ == s@,
            None => r is None,
        },
{
    match o {
        Some(s) => Some(String::from_str(s)),
        None => None,
    }
}

/// Builds the focused nodes for the tasks `subs` placed under `base`.
pub fn build_nodes(subs: &[Task], base: &Vec<usize>, cursor: &[usize]) -> (r: Vec<TaskTreeNode>)
    ensures
        nodes_view(r@) == tree_nodes(tasks_view(subs@), base@, cursor@),
    decreases tasks_view(subs@),
{
    proof {
        lemma_tasks_view(subs@);
        lemma_tree_nodes(tasks_view(subs@), base@, cursor@);
    }
    let mut r: Vec<TaskTreeNode> = Vec::new();
    let mut i: usize = 0;
    while i < subs.len()
        invariant
            i <= subs@.len(),
            r@.len() == i,
            tasks_view(subs@).len() == subs@.len(),
            forall|j: int| 0 <= j < subs@.len() ==> #[trigger] tasks_view(subs@)[j] == subs@[j]@,
            forall|j: int| 0 <= j < i ==> #[trigger] r@[j]@ == tree_node(
                subs@[j]@,
                base@.push(j as usize),
                cursor@,
            ),
        decreases subs@.len() - i,
    {
        let task = &subs[i];
        let mut idx = base.clone();
        idx.push(i);
        let on_path = is_prefix(idx.as_slice(), cursor);
        let children = if on_path {
            let child_subs = task.subtasks();
            proof {
                assert(tasks_view(child_subs@) == task@.subtasks);
                assert(task@ == tasks_view(subs@)[i as int]);
                assert(decreases_to!(tasks_view(subs@) => tasks_view(subs@)[i as int]));
                assert(decreases_to!(task@ => task@.subtasks));
            }
            build_nodes(child_subs, &idx, cursor)
        } else {
            Vec::new()
        };
        let is_current = same_index(idx.as_slice(), cursor);
        let node = TaskTreeNode {
            description: String::from_str(task.description()),
            index: idx,
            completed: task.is_completed(),
            is_current,
            completion_summary: clone_opt(task.completion_summary()),
            notes: opt_str_to_string(task.notes()),
            children,
        };
        proof {
            lemma_nodes_view(node.children@);
            assert(node@ == tree_node(subs@[i as int]@, base@.push(i), cursor@));
        }
        r.push(node);
        i = i + 1;
    }
    proof {
        lemma_nodes_view(r@);
        assert(nodes_view(r@) =~= tree_nodes(tasks_view(subs@), base@, cursor@));
    }
    r
}

/// The content of a distilled context.
pub struct DistilledView {
    pub goal: Option<Seq<char>>,
    pub usage_summary: Seq<char>,
    pub task_tree: Seq<NodeView>,
    pub current_task: Option<TaskView>,
    pub current_level: Option<LevelView>,
    pub levels: Seq<LevelView>,
    pub transition_history: Seq<EntryView>,
    pub plan_notes: Option<Seq<char>>,
}

/// Distilled context containing focused information about the current
/// planning state.
pub struct DistilledContext {
    /// The original goal of the plan, if any.
    pub goal: Option<String>,
    /// A summary of what the tool is and how to use it
    pub usage_summary: String,
    /// The task tree from root to the current node, plus one level of children
    pub task_tree: Vec<TaskTreeNode>,
    /// The current task
    pub current_task: Option<Task>,
    /// The current level information
    pub current_level: Option<Level>,
    /// All available abstraction levels
    pub levels: Vec<Level>,
    /// Recent state transition history
    pub transition_history: Vec<TransitionLogEntry>,
    /// Optional notes associated with the plan.
    pub plan_notes: Option<String>,
}

/// The view of an optional task.
pub open spec fn opt_task_view(o: Option<Task>) -> Option<TaskView> {
    match o {
        Some(t) => Some(t@),
        None => None,
    }
}

/// The view of an optional level.
pub open spec fn opt_level_view(o: Option<Level>) -> Option<LevelView> {
    match o {
        Some(l) => Some(l@),
        None => None,
    }
}

impl View for DistilledContext {
    type V = DistilledView;

    open spec fn view(&self) -> DistilledView {
        DistilledView {
            goal: opt_text(self.goal),
            usage_summary: self.usage_summary@,
            task_tree: nodes_view(self.task_tree@),
            current_task: opt_task_view(self.current_task),
            current_level: opt_level_view(self.current_level),
            levels: levels_view(self.levels@),
            transition_history: entries_view(self.transition_history@),
            plan_notes: opt_text(self.plan_notes),
        }
    }
}

/// Builder for a distilled context.
pub struct DistilledContextBuilder {
    usage_summary: Option<String>,
    task_tree: Option<Vec<TaskTreeNode>>,
    current_task: Option<Task>,
    current_level: Option<Level>,
    levels: Option<Vec<Level>>,
    transition_history: Option<Vec<TransitionLogEntry>>,
    goal: Option<String>,
    plan_notes: Option<String>,
}

/// The parts set so far on a builder.
pub struct BuilderView {
    pub usage_summary: Option<Seq<char>>,
    pub task_tree: Option<Seq<NodeView>>,
    pub current_task: Option<TaskView>,
    pub current_level: Option<LevelView>,
    pub levels: Option<Seq<LevelView>>,
    pub transition_history: Option<Seq<EntryView>>,
    pub goal: Option<Seq<char>>,
    pub plan_notes: Option<Seq<char>>,
}

impl View for DistilledContextBuilder {
    type V = BuilderView;

    closed spec fn view(&self) -> BuilderView {
        BuilderView {
            usage_summary: opt_text(self.usage_summary),
            task_tree: match self.task_tree {
                Some(v) => Some(nodes_view(v@)),
                None => None,
            },
            current_task: opt_task_view(self.current_task),
            current_level: opt_level_view(self.current_level),
            levels: match self.levels {
                Some(v) => Some(levels_view(v@)),
                None => None,
            },
            transition_history: match self.transition_history {
                Some(v) => Some(entries_view(v@)),
                None => None,
            },
            goal: opt_text(self.goal),
            plan_notes: opt_text(self.plan_notes),
        }
    }
}

impl DistilledContext {
    /// Creates a new builder with nothing set.
    pub fn builder() -> (b: DistilledContextBuilder)
        ensures
            b@ == (BuilderView {
                usage_summary: None,
                task_tree: None,
                current_task: None,
                current_level: None,
                levels: None,
                transition_history: None,
                goal: None,
                plan_notes: None,
            }),
    {
        DistilledContextBuilder::new()
    }
}

impl DistilledContextBuilder {
    fn new() -> (b: Self)
        ensures
            b@ == (BuilderView {
                usage_summary: None,
                task_tree: None,
                current_task: None,
                current_level: None,
                levels: None,
                transition_history: None,
                goal: None,
                plan_notes: None,
            }),
    {
        DistilledContextBuilder {
            usage_summary: None,
            task_tree: None,
            current_task: None,
            current_level: None,
            levels: None,
            transition_history: None,
            goal: None,
            plan_notes: None,
        }
    }

    /// Sets the usage summary.
    pub fn usage_summary(self, usage_summary: String) -> (b: Self)
        ensures
            b@ == (BuilderView { usage_summary: Some(usage_summary@), ..self@ }),
    {
        DistilledContextBuilder { usage_summary: Some(usage_summary), ..self }
    }

    /// Sets the task tree.
    pub fn task_tree(self, task_tree: Vec<TaskTreeNode>) -> (b: Self)
        ensures
            b@ == (BuilderView { task_tree: Some(nodes_view(task_tree@)), ..self@ }),
    {
        DistilledContextBuilder { task_tree: Some(task_tree), ..self }
    }

    /// Sets the current task.
    pub fn current_task(self, current_task: Option<Task>) -> (b: Self)
        ensures
            b@ == (BuilderView { current_task: opt_task_view(current_task), ..self@ }),
    {
        DistilledContextBuilder { current_task, ..self }
    }

    /// Sets the current level.
    pub fn current_level(self, current_level: Option<Level>) -> (b: Self)
        ensures
            b@ == (BuilderView { current_level: opt_level_view(current_level), ..self@ }),
    {
        DistilledContextBuilder { current_level, ..self }
    }

    /// Sets the levels.
    pub fn levels(self, levels: Vec<Level>) -> (b: Self)
        ensures
            b@ == (BuilderView { levels: Some(levels_view(levels@)), ..self@ }),
    {
        DistilledContextBuilder { levels: Some(levels), ..self }
    }

    /// Sets the transition history.
    pub fn transition_history(self, transition_history: Vec<TransitionLogEntry>) -> (b: Self)
        ensures
            b@ == (BuilderView { transition_history: Some(entries_view(transition_history@)), ..self@ }),
    {
        DistilledContextBuilder { transition_history: Some(transition_history), ..self }
    }

    /// Sets the goal.
    pub fn goal(self, goal: Option<String>) -> (b: Self)
        ensures
            b@ == (BuilderView { goal: opt_text(goal), ..self@ }),
    {
        DistilledContextBuilder { goal, ..self }
    }

    /// Sets the plan notes.
    pub fn plan_notes(self, plan_notes: Option<String>) -> (b: Self)
        ensures
            b@ == (BuilderView { plan_notes: opt_text(plan_notes), ..self@ }),
    {
        DistilledContextBuilder { plan_notes, ..self }
    }

    /// Builds the distilled context; parts not set are empty.
    pub fn build(self) -> (d: DistilledContext)
        ensures
            d@ == (DistilledView {
                goal: self@.goal,
                usage_summary: match self@.usage_summary {
                    Some(s) => s,
                    None => Seq::empty(),
                },
                task_tree: match self@.task_tree {
                    Some(s) => s,
                    None => Seq::empty(),
                },
                current_task: self@.current_task,
                current_level: self@.current_level,
                levels: match self@.levels {
                    Some(s) => s,
                    None => Seq::empty(),
                },
                transition_history: match self@.transition_history {
                    Some(s) => s,
                    None => Seq::empty(),
                },
                plan_notes: self@.plan_notes,
            }),
    {
        let usage_summary = match self.usage_summary {
            Some(s) => s,
            None => String::new(),
        };
        let task_tree = match self.task_tree {
            Some(v) => v,
            None => Vec::new(),
        };
        let levels = match self.levels {
            Some(v) => v,
            None => Vec::new(),
        };
        let transition_history = match self.transition_history {
            Some(v) => v,
            None => Vec::new(),
        };
        proof {
            lemma_nodes_view(task_tree@);
            assert(levels_view(levels@) =~= match self@.levels { Some(s) => s, None => Seq::empty() });
            assert(entries_view(transition_history@) =~= match self@.transition_history { Some(s) => s, None => Seq::empty() });
            assert(nodes_view(task_tree@) =~= match self@.task_tree { Some(s) => s, None => Seq::empty() });
        }
        DistilledContext {
            usage_summary,
            task_tree,
            current_task: self.current_task,
            current_level: self.current_level,
            levels,
            transition_history,
            goal: self.goal,
            plan_notes: self.plan_notes,
        }
    }
}

/// An answer: the result of an operation, suggested follow-ups, an optional
/// reminder, and the distilled context after the operation.
pub struct PlanResponse<T> {
    pub res: T,
    pub suggested_followups: Vec<String>,
    pub reminder: Option<String>,
    pub distilled_context: DistilledContext,
}

impl<T> PlanResponse<T> {
    /// An answer with no follow-ups and no reminder.
    pub fn new(res: T, distilled_context: DistilledContext) -> (r: Self)
        ensures
            r.res == res,
            r.suggested_followups@.len() == 0,
            r.reminder is None,
            r.distilled_context == distilled_context,
    {
        PlanResponse { res, suggested_followups: Vec::new(), reminder: None, distilled_context }
    }

    /// The result.
    pub fn inner(&self) -> (r: &T)
        ensures
            *r == self.res,
    {
        &self.res
    }

    /// The result, taken out.
    pub fn into_inner(self) -> (r: T)
        ensures
            r == self.res,
    {
        self.res
    }

    /// The same context with another result, and no follow-ups or reminder.
    pub fn replace<B>(self, res: B) -> (r: PlanResponse<B>)
        ensures
            r.res == res,
            r.suggested_followups@.len() == 0,
            r.reminder is None,
            r.distilled_context == self.distilled_context,
    {
        PlanResponse { res, suggested_followups: Vec::new(), reminder: None, distilled_context: self.distilled_context }
    }

    /// The distilled context, taken out.
    pub fn context(self) -> (d: DistilledContext)
        ensures
            d == self.distilled_context,
    {
        self.distilled_context
    }
}

/// The task under the cursor, with its index, its level, and the
/// descriptions passed on the way to it.
pub struct Current {
    pub index: Vec<usize>,
    pub level: Level,
    pub task: Task,
    pub history: Vec<String>,
}

/// The node reached in a tree of nodes by following the index path `p`:
/// the first step picks among the nodes themselves, each later step among
/// the children of the node reached so far.
pub open spec fn node_at(ns: Seq<NodeView>, p: Seq<usize>) -> Option<NodeView>
    decreases p.len(),
{
    if p.len() == 0 || p[0] >= ns.len() {
        None
    } else if p.len() == 1 {
        Some(ns[p[0] as int])
    } else {
        node_at(ns[p[0] as int].children, p.drop_first())
    }
}

/// In the tree of the subtasks of `t` placed under `base`, the path `p` to
/// a task of `t` whose parent lies on the way to the cursor reaches the
/// node of that task.
pub proof fn lemma_node_at(t: TaskView, base: Seq<usize>, cursor: Seq<usize>, p: Seq<usize>)
    requires
        p.len() > 0,
        task_at(t, p) is Some,
        (base + p.drop_last()).is_prefix_of(cursor),
    ensures
        node_at(tree_nodes(t.subtasks, base, cursor), p) == Some(tree_node(task_at(t, p)->0, base + p, cursor)),
    decreases p.len(),
{
    let i = p[0];
    let sub = t.subtasks[i as int];
    let ns = tree_nodes(t.subtasks, base, cursor);
    lemma_tree_nodes(t.subtasks, base, cursor);
    assert(ns[i as int] == tree_node(sub, base.push(i), cursor));
    let rest = p.drop_first();
    assert(task_at(t, p) == task_at(sub, rest));
    if p.len() == 1 {
        assert(rest =~= Seq::<usize>::empty());
        assert(base + p =~= base.push(i));
    } else {
        let step = base.push(i);
        let whole = base + p.drop_last();
        assert(step.is_prefix_of(cursor)) by {
            assert(whole[base.len() as int] == i);
            assert forall|k: int| 0 <= k < step.len() implies step[k] == cursor[k] by {
                assert(step[k] == whole[k]);
                assert(whole[k] == cursor.subrange(0, whole.len() as int)[k]);
            }
            assert(step =~= cursor.subrange(0, step.len() as int));
        }
        assert(ns[i as int].children == tree_nodes(sub.subtasks, step, cursor));
        assert(step + rest.drop_last() =~= whole);
        lemma_node_at(sub, step, cursor, rest);
        assert(step + rest =~= base + p);
    }
}

} // verus!
