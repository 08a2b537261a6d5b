//! The text the command line shows: a task and its subtasks, the focused
//! task tree, a whole plan, and the distilled context that follows every
//! answer.

use vstd::prelude::*;
use crate::distilled::{
    lemma_node_view, lemma_nodes_view, nodes_view, opt_level_view, opt_task_view, Current, DistilledContext,
    DistilledView, NodeView, PlanResponse, TaskTreeNode,
};
use crate::guide::PLAN_ID_ENV_VAR;
use crate::index::{int_parse_message, parse_u8, parse_u8_spec, trim, IntParseError};
use crate::lease::{lease_value, Lease};
use crate::external::{bright_blue, is_bright_blue};
use crate::levels::{guidance, texts, Level, LevelView};
use crate::plan::{levels_view, strings_view, Plan, PlanView};
use crate::task::{lemma_tasks_view, opt_text, tasks_view, Task, TaskView};
use crate::text::{bool_text, decimal, dotted, join, lemma_join_push, push_bool, push_decimal, push_joined_decimals};
use vstd::utf8::encode_utf8;

verus! {

/// `n` levels of indentation, two spaces each.
pub open spec fn spaces(n: nat) -> Seq<char>
    decreases n,
{
    if n == 0 {
        Seq::empty()
    } else {
        spaces((n - 1) as nat) + "  "@
    }
}

/// `s` with each line break followed by `with` in place of the break alone,
/// as `str::replace('\n', with)` gives it.
pub open spec fn replace_newlines(s: Seq<char>, with: Seq<char>) -> Seq<char>
    decreases s.len(),
{
    if s.len() == 0 {
        Seq::empty()
    } else {
        replace_newlines(s.drop_last(), with) + (if s.last() == '\n' {
            with
        } else {
            seq![s.last()]
        })
    }
}

/// Appends `n` levels of indentation.
pub fn push_spaces(out: &mut String, n: usize)
    ensures
        final(out)@ == old(out)@ + spaces(n as nat),
{
    let ghost start = out@;
    let mut i: usize = 0;
    while i < n
        invariant
            i <= n,
            out@ == start + spaces(i as nat),
        decreases n - i,
    {
        out.append("  ");
        i = i + 1;
    }
}

proof fn lemma_replace_plain(s: Seq<char>, with: Seq<char>, k: int)
    requires
        0 <= k <= s.len(),
        forall|j: int| k <= j < s.len() ==> #[trigger] s[j] != '\n',
    ensures
        replace_newlines(s, with) == replace_newlines(s.take(k), with) + s.subrange(k, s.len() as int),
    decreases s.len() - k,
{
    if k == s.len() {
        assert(s.take(k) =~= s);
        assert(s.subrange(k, s.len() as int) =~= Seq::<char>::empty());
    } else {
        let t = s.drop_last();
        assert forall|j: int| k <= j < t.len() implies #[trigger] t[j] != '\n' by {
            assert(t[j] == s[j]);
        }
        lemma_replace_plain(t, with, k);
        assert(t.take(k) =~= s.take(k));
        assert(s.subrange(k, s.len() as int) =~= t.subrange(k, t.len() as int).push(s.last()));
    }
}

/// Appends `s` with each line break followed by `with`.
pub fn push_replaced_newlines(out: &mut String, s: &str, with: &str)
    ensures
        final(out)@ == old(out)@ + replace_newlines(s@, with@),
{
    let cs = crate::index::chars_of(s);
    let n = cs.len();
    let ghost start = out@;
    let mut from: usize = 0;
    let mut i: usize = 0;
    while i < n
        invariant
            n == cs@.len(),
            cs@ == s@,
            from <= i <= n,
            forall|j: int| from <= j < i ==> #[trigger] cs@[j] != '\n',
            out@ == start + replace_newlines(cs@.take(from as int), with@),
        decreases n - i,
    {
        if cs[i] == '\n' {
            let part = s.substring_char(from, i);
            out.append(part);
            out.append(with);
            proof {
                let t = cs@.take(i + 1);
                assert(t.drop_last() =~= cs@.take(i as int));
                assert forall|j: int| from <= j < i implies #[trigger] cs@.take(i as int)[j] != '\n' by {}
                lemma_replace_plain(cs@.take(i as int), with@, from as int);
                assert(cs@.take(i as int).take(from as int) =~= cs@.take(from as int));
                assert(cs@.take(i as int).subrange(from as int, i as int) =~= s@.subrange(from as int, i as int));
                assert(t.last() == '\n');
            }
            from = i + 1;
        }
        i = i + 1;
    }
    let part = s.substring_char(from, n);
    out.append(part);
    proof {
        lemma_replace_plain(cs@, with@, from as int);
        assert(cs@.subrange(from as int, n as int) =~= s@.subrange(from as int, n as int));
    }
}

/// An index path written with dots, such as `0.1.2`.
pub fn format_index(index: &[usize]) -> (s: String)
    ensures
        s@ == dotted(index@),
{
    let mut s = String::new();
    push_joined_decimals(&mut s, index, ".");
    s
}

/// The level shown for a task: its own level, or `unknown`.
pub open spec fn level_text(level_index: Option<usize>) -> Seq<char> {
    match level_index {
        Some(l) => "level: "@ + decimal(l as nat),
        None => "level: unknown"@,
    }
}

/// The notes of an entry indented by `pad`, one level further in and after
/// `marker`, with the indentation and marker repeated after each line break.
pub open spec fn notes_block(notes: Seq<char>, pad: Seq<char>, marker: Seq<char>) -> Seq<char> {
    pad + "  "@ + marker + replace_newlines(notes, "\n"@ + pad + "  "@ + marker) + "\n"@
}

/// The line for task `t` at index path `index`, with its notes.
pub open spec fn task_line(t: TaskView, index: Seq<usize>) -> Seq<char> {
    spaces(index.len()) + "(index: ["@ + dotted(index) + "]) ("@ + level_text(t.level_index) + "), "@ + t.description
        + " (completed: "@ + bool_text(t.completed) + ")\n"@ + match t.notes {
        Some(n) => notes_block(n, spaces(index.len()), Seq::empty()),
        None => Seq::empty(),
    }
}

/// Task `t` at index path `index` and, below it, its subtasks.
pub open spec fn task_text(t: TaskView, index: Seq<usize>) -> Seq<char>
    decreases t, 1int,
{
    task_line(t, index) + subtasks_text(t.subtasks, index)
}

/// The tasks `ts`, placed under the index path `base`, each with its
/// subtasks.
pub open spec fn subtasks_text(ts: Seq<TaskView>, base: Seq<usize>) -> Seq<char>
    decreases ts, 0int,
{
    if ts.len() == 0 {
        Seq::empty()
    } else {
        subtasks_text(ts.subrange(0, ts.len() - 1), base) + task_text(
            ts[ts.len() - 1],
            base.push((ts.len() - 1) as usize),
        )
    }
}

fn push_notes_block(out: &mut String, notes: &str, pad: &str, marker: &str)
    ensures
        final(out)@ == old(out)@ + notes_block(notes@, pad@, marker@),
{
    let ghost s0 = out@;
    out.append(pad);
    out.append("  ");
    out.append(marker);
    let mut with = String::from_str("\n");
    with.append(pad);
    with.append("  ");
    with.append(marker);
    push_replaced_newlines(out, notes, with.as_str());
    out.append("\n");
    assert(out@ =~= s0 + notes_block(notes@, pad@, marker@));
}

fn push_task_line(out: &mut String, task: &Task, index: &Vec<usize>)
    ensures
        final(out)@ == old(out)@ + task_line(task@, index@),
{
    let ghost s0 = out@;
    push_spaces(out, index.len());
    out.append("(index: [");
    push_joined_decimals(out, index.as_slice(), ".");
    out.append("]) (");
    match task.level_index() {
        Some(l) => {
            out.append("level: ");
            push_decimal(out, l);
        },
        None => out.append("level: unknown"),
    }
    out.append("), ");
    out.append(task.description());
    out.append(" (completed: ");
    push_bool(out, task.is_completed());
    out.append(")\n");
    let ghost s1 = out@;
    assert(s1 =~= s0 + (spaces(index@.len()) + "(index: ["@ + dotted(index@) + "]) ("@ + level_text(task@.level_index)
        + "), "@ + task@.description + " (completed: "@ + bool_text(task@.completed) + ")\n"@));
    match task.notes() {
        Some(n) => {
            let mut pad = String::new();
            push_spaces(&mut pad, index.len());
            push_notes_block(out, n, pad.as_str(), "");
        },
        None => {},
    }
    proof {
        reveal_strlit("");
        assert(""@ =~= Seq::<char>::empty());
    }
    assert(out@ =~= s0 + task_line(task@, index@));
}

/// Appends task `task` at index path `index` and, below it, its subtasks,
/// as the command line shows them.
pub fn push_task_text(out: &mut String, task: &Task, index: Vec<usize>)
    ensures
        final(out)@ == old(out)@ + task_text(task@, index@),
    decreases task@, 1int,
{
    let ghost s0 = out@;
    push_task_line(out, task, &index);
    proof {
        assert(decreases_to!(task@ => task@.subtasks));
    }
    push_subtasks_text(out, task.subtasks(), &index);
}

/// Appends the tasks `tasks`, placed under `base`, each with its subtasks.
pub fn push_subtasks_text(out: &mut String, tasks: &[Task], base: &Vec<usize>)
    ensures
        final(out)@ == old(out)@ + subtasks_text(tasks_view(tasks@), base@),
    decreases tasks_view(tasks@), 0int,
{
    proof {
        lemma_tasks_view(tasks@);
    }
    let ghost ts = tasks_view(tasks@);
    let ghost start = out@;
    let mut i: usize = 0;
    while i < tasks.len()
        invariant
            i <= tasks@.len(),
            ts == tasks_view(tasks@),
            ts.len() == tasks@.len(),
            forall|j: int| 0 <= j < tasks@.len() ==> #[trigger] ts[j] == tasks@[j]@,
            out@ == start + subtasks_text(ts.subrange(0, i as int), base@),
        decreases tasks@.len() - i,
    {
        let mut index = base.clone();
        index.push(i);
        proof {
            assert(decreases_to!(ts => ts[i as int]));
        }
        push_task_text(out, &tasks[i], index);
        proof {
            assert(ts.subrange(0, i + 1).subrange(0, i as int) =~= ts.subrange(0, i as int));
            assert(ts.subrange(0, i + 1)[i as int] == ts[i as int]);
        }
        i = i + 1;
    }
    assert(ts.subrange(0, tasks@.len() as int) =~= ts);
}

/// The line for node `n` of the focused tree, indented by `pad`.
pub open spec fn node_head(n: NodeView, pad: Seq<char>) -> Seq<char> {
    pad + (if n.is_current {
        "→ "@
    } else {
        "  "@
    }) + (if n.completed {
        "[✓]"@
    } else {
        "[ ]"@
    }) + " "@ + dotted(n.index) + " "@ + n.description + "\n"@
}

/// The line for node `n` of the focused tree, indented by `pad`, with its
/// notes.
pub open spec fn node_line(n: NodeView, pad: Seq<char>) -> Seq<char> {
    node_head(n, pad) + match n.notes {
        Some(notes) => notes_block(notes, pad, "> "@),
        None => Seq::empty(),
    }
}

/// Node `n` indented by `pad` and, one level further in, its children.
pub open spec fn node_text(n: NodeView, pad: Seq<char>) -> Seq<char>
    decreases n, 1int,
{
    node_line(n, pad) + (if n.children.len() > 0 {
        nodes_text(n.children, pad + "  "@)
    } else {
        Seq::empty()
    })
}

/// The nodes `ns`, each indented by `pad` and followed by its children.
pub open spec fn nodes_text(ns: Seq<NodeView>, pad: Seq<char>) -> Seq<char>
    decreases ns, 0int,
{
    if ns.len() == 0 {
        Seq::empty()
    } else {
        nodes_text(ns.subrange(0, ns.len() - 1), pad) + node_text(ns[ns.len() - 1], pad)
    }
}

fn push_node_line(out: &mut String, node: &TaskTreeNode, pad: &str)
    ensures
        final(out)@ == old(out)@ + node_line(node@, pad@),
{
    proof {
        lemma_node_view(*node);
    }
    let ghost s0 = out@;
    out.append(pad);
    if node.is_current {
        out.append("→ ");
    } else {
        out.append("  ");
    }
    if node.completed {
        out.append("[✓]");
    } else {
        out.append("[ ]");
    }
    out.append(" ");
    push_joined_decimals(out, node.index.as_slice(), ".");
    out.append(" ");
    out.append(node.description.as_str());
    out.append("\n");
    let ghost s1 = out@;
    assert(s1 =~= s0 + node_head(node@, pad@));
    match &node.notes {
        Some(n) => push_notes_block(out, n.as_str(), pad, "> "),
        None => {},
    }
    assert(out@ =~= s0 + node_line(node@, pad@));
}

fn push_node_text(out: &mut String, node: &TaskTreeNode, pad: &str)
    ensures
        final(out)@ == old(out)@ + node_text(node@, pad@),
    decreases node@, 1int,
{
    proof {
        lemma_node_view(*node);
        lemma_nodes_view(node.children@);
    }
    let ghost s0 = out@;
    push_node_line(out, node, pad);
    let ghost s1 = out@;
    if node.children.len() > 0 {
        let mut inner = String::from_str(pad);
        inner.append("  ");
        proof {
            lemma_nodes_view(node.children@);
            assert(decreases_to!(node@ => node@.children));
        }
        push_nodes_text(out, node.children.as_slice(), inner.as_str());
    }
    proof {
        lemma_nodes_view(node.children@);
    }
    assert(out@ =~= s0 + node_text(node@, pad@));
}

fn push_nodes_text(out: &mut String, nodes: &[TaskTreeNode], pad: &str)
    ensures
        final(out)@ == old(out)@ + nodes_text(nodes_view(nodes@), pad@),
    decreases nodes_view(nodes@), 0int,
{
    proof {
        lemma_nodes_view(nodes@);
    }
    let ghost ns = nodes_view(nodes@);
    let ghost start = out@;
    let mut i: usize = 0;
    while i < nodes.len()
        invariant
            i <= nodes@.len(),
            ns == nodes_view(nodes@),
            ns.len() == nodes@.len(),
            forall|j: int| 0 <= j < nodes@.len() ==> #[trigger] ns[j] == nodes@[j]@,
            out@ == start + nodes_text(ns.subrange(0, i as int), pad@),
        decreases nodes@.len() - i,
    {
        proof {
            assert(decreases_to!(ns => ns[i as int]));
        }
        push_node_text(out, &nodes[i], pad);
        proof {
            assert(ns.subrange(0, i + 1).subrange(0, i as int) =~= ns.subrange(0, i as int));
            assert(ns.subrange(0, i + 1)[i as int] == ns[i as int]);
        }
        i = i + 1;
    }
    assert(ns.subrange(0, nodes@.len() as int) =~= ns);
}

/// Appends the focused tree `nodes`, indented by `indent` levels, each
/// node marked as current or not and as completed or not, with its notes
/// and its children.
pub fn push_task_tree(out: &mut String, nodes: &[TaskTreeNode], indent: usize)
    ensures
        final(out)@ == old(out)@ + nodes_text(nodes_view(nodes@), spaces(indent as nat)),
{
    let mut pad = String::new();
    push_spaces(&mut pad, indent);
    push_nodes_text(out, nodes, pad.as_str());
}

/// The goal line, where a goal is shown.
pub open spec fn goal_line(shown_goal: Option<Seq<char>>) -> Seq<char> {
    match shown_goal {
        Some(g) => "Goal: "@ + g + "\n"@,
        None => Seq::empty(),
    }
}

/// Whether `shown` is how `goal` may be shown: in bright blue where there is
/// a goal, and not at all where there is none.
pub open spec fn goal_shown_as(goal: Option<Seq<char>>, shown: Option<Seq<char>>) -> bool {
    match goal {
        Some(g) => shown matches Some(s) && is_bright_blue(g, s),
        None => shown is None,
    }
}

/// The numbered guidance of the levels `ls`, one per line.
pub open spec fn level_list(ls: Seq<LevelView>) -> Seq<char>
    decreases ls.len(),
{
    if ls.len() == 0 {
        Seq::empty()
    } else {
        level_list(ls.drop_last()) + "  "@ + decimal((ls.len() - 1) as nat) + ". "@ + guidance(ls.last()) + "\n"@
    }
}

/// The heading of a plan: its goal as shown, its notes, and the number of
/// its levels.
pub open spec fn plan_head(plan: PlanView, shown_goal: Option<Seq<char>>) -> Seq<char> {
    "Scatterbrain Plan:\n"@ + goal_line(shown_goal) + (match plan.notes {
        Some(n) => "Notes:\n"@ + n + "\n"@ + "---\n"@,
        None => Seq::empty(),
    }) + "Levels: "@ + decimal(plan.levels.len()) + "\n"@
}

/// The body of a plan: its tasks with their subtasks, and the guidance of
/// each level.
pub open spec fn plan_body(plan: PlanView) -> Seq<char> {
    "\nRoot Tasks:\n"@ + (if plan.root.subtasks.len() == 0 {
        "  No tasks yet. Add some with 'scatterbrain task add'\n"@
    } else {
        subtasks_text(plan.root.subtasks, Seq::empty())
    }) + "\nAvailable Levels:\n"@ + level_list(plan.levels)
}

/// A whole plan: its goal as shown, its notes, the number of levels, the
/// tasks with their subtasks, and the guidance of each level.
pub open spec fn plan_text(plan: PlanView, shown_goal: Option<Seq<char>>) -> Seq<char> {
    plan_head(plan, shown_goal) + plan_body(plan)
}

fn push_goal_line(out: &mut String, shown_goal: Option<&str>)
    ensures
        final(out)@ == old(out)@ + goal_line(
            match shown_goal {
                Some(g) => Some(g@),
                None => None,
            },
        ),
{
    let ghost s0 = out@;
    match shown_goal {
        Some(g) => {
            out.append("Goal: ");
            out.append(g);
            out.append("\n");
        },
        None => {},
    }
    assert(out@ =~= s0 + goal_line(
        match shown_goal {
            Some(g) => Some(g@),
            None => None,
        },
    ));
}

fn push_level_list(out: &mut String, levels: &[Level])
    ensures
        final(out)@ == old(out)@ + level_list(levels_view(levels@)),
{
    let ghost ls = levels_view(levels@);
    let ghost start = out@;
    let mut i: usize = 0;
    while i < levels.len()
        invariant
            i <= levels@.len(),
            ls == levels_view(levels@),
            out@ == start + level_list(ls.take(i as int)),
        decreases levels@.len() - i,
    {
        proof {
            assert(ls.take(i + 1).drop_last() =~= ls.take(i as int));
            assert(ls.take(i + 1).last() == levels@[i as int]@);
        }
        let ghost before = out@;
        out.append("  ");
        push_decimal(out, i);
        out.append(". ");
        let g = levels[i].get_guidance();
        out.append(g.as_str());
        out.append("\n");
        assert(out@ =~= before + ("  "@ + decimal(i as nat) + ". "@ + guidance(levels@[i as int]@) + "\n"@));
        i = i + 1;
    }
    assert(ls.take(levels@.len() as int) =~= ls);
}

fn push_plan_head(out: &mut String, plan: &Plan, shown_goal: Option<&str>)
    ensures
        final(out)@ == old(out)@ + plan_head(
            plan@,
            match shown_goal {
                Some(g) => Some(g@),
                None => None,
            },
        ),
{
    let ghost s0 = out@;
    out.append("Scatterbrain Plan:\n");
    push_goal_line(out, shown_goal);
    let ghost s1 = out@;
    let notes = plan.notes_ref();
    match notes {
        Some(n) => {
            out.append("Notes:\n");
            out.append(n.as_str());
            out.append("\n");
            out.append("---\n");
        },
        None => {},
    }
    assert(out@ =~= s1 + match plan@.notes {
        Some(n) => "Notes:\n"@ + n + "\n"@ + "---\n"@,
        None => Seq::empty(),
    });
    out.append("Levels: ");
    push_decimal(out, plan.level_count());
    out.append("\n");
}

fn push_plan_body(out: &mut String, plan: &Plan)
    ensures
        final(out)@ == old(out)@ + plan_body(plan@),
{
    let ghost s0 = out@;
    out.append("\nRoot Tasks:\n");
    let top = plan.root().subtasks();
    let ghost s1 = out@;
    if top.len() == 0 {
        out.append("  No tasks yet. Add some with 'scatterbrain task add'\n");
    } else {
        let base: Vec<usize> = Vec::new();
        assert(base@ =~= Seq::<usize>::empty());
        push_subtasks_text(out, top, &base);
    }
    let ghost s2 = out@;
    assert(s2 =~= s1 + (if plan@.root.subtasks.len() == 0 {
        "  No tasks yet. Add some with 'scatterbrain task add'\n"@
    } else {
        subtasks_text(plan@.root.subtasks, Seq::empty())
    }));
    out.append("\nAvailable Levels:\n");
    push_level_list(out, plan.levels());
}

/// Appends a whole plan, with the goal shown as `shown_goal`.
pub fn push_plan_text(out: &mut String, plan: &Plan, shown_goal: Option<&str>)
    ensures
        final(out)@ == old(out)@ + plan_text(
            plan@,
            match shown_goal {
                Some(g) => Some(g@),
                None => None,
            },
        ),
{
    let ghost s0 = out@;
    push_plan_head(out, plan, shown_goal);
    push_plan_body(out, plan);
}

/// The current node of a focused tree: the first node marked current,
/// looking at each node before its children and its children before the
/// nodes after it.
pub open spec fn find_current(ns: Seq<NodeView>, i: int) -> Option<NodeView>
    decreases ns, ns.len() - i,
{
    if i < 0 || i >= ns.len() {
        None
    } else if ns[i].is_current {
        Some(ns[i])
    } else {
        proof {
            assert(decreases_to!(ns => ns[i]));
        }
        match find_current(ns[i].children, 0) {
            Some(n) => Some(n),
            None => find_current(ns, i + 1),
        }
    }
}

/// The first of the nodes `nodes`, from position `i` on, marked current,
/// looking at each node's children before the nodes after it.
fn find_current_node(nodes: &[TaskTreeNode], i: usize) -> (r: Option<&TaskTreeNode>)
    requires
        i <= nodes@.len(),
    ensures
        match find_current(nodes_view(nodes@), i as int) {
            Some(n) => r matches Some(x) && x@ == n,
            None => r is None,
        },
    decreases nodes_view(nodes@), nodes@.len() - i,
{
    proof {
        lemma_nodes_view(nodes@);
    }
    if i >= nodes.len() {
        return None;
    }
    let node = &nodes[i];
    proof {
        lemma_node_view(*node);
        lemma_nodes_view(node.children@);
    }
    if node.is_current {
        return Some(node);
    }
    proof {
        assert(decreases_to!(nodes_view(nodes@) => nodes_view(nodes@)[i as int]));
    }
    match find_current_node(node.children.as_slice(), 0) {
        Some(n) => Some(n),
        None => find_current_node(nodes, i + 1),
    }
}

/// The plan notes as the context shows them: cut to their first 400
/// characters and trimmed, with a pointer to the full notes, where they are
/// longer than 400 bytes.
pub open spec fn notes_shown(n: Seq<char>) -> Seq<char> {
    if (encode_utf8(n).len() as usize) > 400 {
        trim(
            if n.len() > 400 {
                n.take(400)
            } else {
                n
            },
        ) + "... (use 'plan show' for full notes)"@
    } else {
        n
    }
}

/// The line with the plan notes, if there are any.
pub open spec fn plan_notes_line(notes: Option<Seq<char>>) -> Seq<char> {
    match notes {
        Some(n) => "Plan Notes: "@ + notes_shown(n) + "\n"@,
        None => Seq::empty(),
    }
}

/// The line naming the current task, with the index of the current node.
pub open spec fn current_task_line(task: Option<TaskView>, node: Option<NodeView>) -> Seq<char> {
    match task {
        Some(t) => "Current Task: ["@ + (match node {
            Some(n) => dotted(n.index),
            None => "?"@,
        }) + "] "@ + t.description + (match t.level_index {
            Some(l) => " (level: "@ + decimal(l as nat) + ")"@,
            None => Seq::empty(),
        }) + "\n"@,
        None => "No current task selected\n"@,
    }
}

/// The position of the first level of `ls` with description `d`.
pub open spec fn level_position(ls: Seq<LevelView>, d: Seq<char>) -> Option<nat>
    decreases ls.len(),
{
    if ls.len() == 0 {
        None
    } else {
        match level_position(ls.drop_last(), d) {
            Some(p) => Some(p),
            None => if ls.last().description == d {
                Some((ls.len() - 1) as nat)
            } else {
                None
            },
        }
    }
}

/// The sample questions of a level, one per line.
pub open spec fn question_lines(qs: Seq<Seq<char>>) -> Seq<char>
    decreases qs.len(),
{
    if qs.len() == 0 {
        Seq::empty()
    } else {
        question_lines(qs.drop_last()) + "    - "@ + qs.last() + "\n"@
    }
}

/// The details of the current level, found among `levels` by its
/// description.
pub open spec fn level_details(current: Option<LevelView>, levels: Seq<LevelView>) -> Seq<char> {
    match current {
        Some(l) => match level_position(levels, l.description) {
            Some(i) => "CURRENT LEVEL DETAILS (Level "@ + decimal(i) + ": "@ + l.description + "):\n"@ + "  Focus: "@
                + l.abstraction_focus + "\n"@ + (if l.questions.len() > 0 {
                "  Sample Questions:\n"@ + question_lines(l.questions)
            } else {
                Seq::empty()
            }) + "  Guidance: "@ + guidance(l) + "\n"@,
            None => "CURRENT LEVEL DETAILS (Unknown Index: "@ + l.description + "):\n"@ + "  Focus: "@
                + l.abstraction_focus + "\n"@,
        },
        None => "CURRENT LEVEL DETAILS: No specific level context available for the current task.\n"@,
    }
}

/// Each level as its position and description, such as `0:Planning`.
pub open spec fn level_labels(ls: Seq<LevelView>) -> Seq<Seq<char>> {
    Seq::new(ls.len(), |i: int| decimal(i as nat) + ":"@ + ls[i].description)
}

/// The suggested follow-ups after the context, if there are any.
pub open spec fn followup_lines(fs: Seq<Seq<char>>) -> Seq<char>
    decreases fs.len(),
{
    if fs.len() == 0 {
        Seq::empty()
    } else {
        followup_lines(fs.drop_last()) + "  • "@ + fs.last() + "\n"@
    }
}

/// The first part of the distilled context: the goal as shown, the plan
/// notes, the current task and the details of the current level.
pub open spec fn context_head(d: DistilledView, shown_goal: Option<Seq<char>>) -> Seq<char> {
    "\n--- Current Context ---\n"@ + goal_line(shown_goal) + plan_notes_line(d.plan_notes) + current_task_line(
        d.current_task,
        find_current(d.task_tree, 0),
    ) + level_details(d.current_level, d.levels)
}

/// The focused tree and the levels of a distilled context.
pub open spec fn context_tree_part(d: DistilledView) -> Seq<char> {
    "\n\n"@ + "TASK TREE (slim, see `plan show` for full tree):\n"@ + nodes_text(d.task_tree, Seq::empty())
        + "\n\n"@ + "AVAILABLE LEVELS (more level information availabe via the `plan` command):\n"@ + "  "@ + join(
        level_labels(d.levels),
        " | "@,
    ) + "\n"@ + "\n\n"@
}

/// The follow-ups `fs` and reminder `reminder` after a distilled context.
pub open spec fn context_extras(fs: Seq<Seq<char>>, reminder: Option<Seq<char>>) -> Seq<char> {
    (if fs.len() > 0 {
        "Suggested next steps:\n"@ + followup_lines(fs) + "\n\n"@
    } else {
        Seq::empty()
    }) + (match reminder {
        Some(r) => "Reminder: "@ + r + "\n"@ + "\n\n"@,
        None => Seq::empty(),
    })
}

/// The second part of the distilled context: the focused tree, the levels,
/// and the follow-ups `fs` and reminder `reminder` of the answer.
pub open spec fn context_tail(d: DistilledView, fs: Seq<Seq<char>>, reminder: Option<Seq<char>>) -> Seq<char> {
    context_tree_part(d) + context_extras(fs, reminder)
}

/// The distilled context as the command line shows it after an answer
/// with follow-ups `fs` and reminder `reminder`, with the goal shown as
/// `shown_goal`.
pub open spec fn context_text(
    d: DistilledView,
    fs: Seq<Seq<char>>,
    reminder: Option<Seq<char>>,
    shown_goal: Option<Seq<char>>,
) -> Seq<char> {
    context_head(d, shown_goal) + context_tail(d, fs, reminder)
}

fn push_plan_notes_line(out: &mut String, notes: &Option<String>)
    ensures
        final(out)@ == old(out)@ + plan_notes_line(opt_text(*notes)),
{
    let ghost s0 = out@;
    match notes {
        Some(n) => {
            out.append("Plan Notes: ");
            let text = n.as_str();
            if text.len() > 400 {
                let count = text.unicode_len();
                let k: usize = if count > 400 {
                    400
                } else {
                    count
                };
                let part = text.substring_char(0, k);
                let cs = crate::index::chars_of(part);
                let (a, b) = crate::index::trim_bounds(&cs, 0, cs.len());
                let trimmed = part.substring_char(a, b);
                proof {
                    assert(cs@.subrange(0, cs@.len() as int) =~= cs@);
                    if n@.len() > 400 {
                        assert(part@ =~= n@.take(400));
                    } else {
                        assert(part@ =~= n@);
                    }
                }
                out.append(trimmed);
                out.append("... (use 'plan show' for full notes)");
            } else {
                out.append(text);
            }
            out.append("\n");
        },
        None => {},
    }
    assert(out@ =~= s0 + plan_notes_line(opt_text(*notes)));
}

fn push_current_task_line(out: &mut String, task: &Option<Task>, nodes: &[TaskTreeNode])
    ensures
        final(out)@ == old(out)@ + current_task_line(opt_task_view(*task), find_current(nodes_view(nodes@), 0)),
{
    let ghost s0 = out@;
    match task {
        Some(t) => {
            out.append("Current Task: [");
            match find_current_node(nodes, 0) {
                Some(node) => {
                    proof {
                        lemma_node_view(*node);
                    }
                    push_joined_decimals(out, node.index.as_slice(), ".");
                },
                None => out.append("?"),
            }
            out.append("] ");
            out.append(t.description());
            match t.level_index() {
                Some(l) => {
                    out.append(" (level: ");
                    push_decimal(out, l);
                    out.append(")");
                },
                None => {},
            }
            out.append("\n");
        },
        None => out.append("No current task selected\n"),
    }
    assert(out@ =~= s0 + current_task_line(opt_task_view(*task), find_current(nodes_view(nodes@), 0)));
}

fn find_level(levels: &[Level], description: &str) -> (r: Option<usize>)
    ensures
        match level_position(levels_view(levels@), description@) {
            Some(p) => r matches Some(i) && i == p && i < levels@.len(),
            None => r is None,
        },
{
    let ghost ls = levels_view(levels@);
    let target = String::from_str(description);
    let mut i: usize = 0;
    while i < levels.len()
        invariant
            i <= levels@.len(),
            ls == levels_view(levels@),
            target@ == description@,
            level_position(ls.take(i as int), description@) is None,
        decreases levels@.len() - i,
    {
        let here = String::from_str(levels[i].description());
        proof {
            assert(ls.take(i + 1).drop_last() =~= ls.take(i as int));
            assert(ls.take(i + 1).last() == levels@[i as int]@);
        }
        if here == target {
            proof {
                lemma_level_position_prefix(ls, i as int + 1, description@);
            }
            return Some(i);
        }
        i = i + 1;
    }
    assert(ls.take(levels@.len() as int) =~= ls);
    None
}

proof fn lemma_level_position_prefix(ls: Seq<LevelView>, k: int, d: Seq<char>)
    requires
        0 <= k <= ls.len(),
        level_position(ls.take(k), d) is Some,
    ensures
        level_position(ls, d) == level_position(ls.take(k), d),
    decreases ls.len() - k,
{
    if k < ls.len() {
        assert(ls.take(k + 1).drop_last() =~= ls.take(k));
        lemma_level_position_prefix(ls, k + 1, d);
    } else {
        assert(ls.take(k) =~= ls);
    }
}

fn push_question_lines(out: &mut String, questions: &[String])
    ensures
        final(out)@ == old(out)@ + question_lines(texts(questions@)),
{
    let ghost qs = texts(questions@);
    let ghost start = out@;
    let mut i: usize = 0;
    while i < questions.len()
        invariant
            i <= questions@.len(),
            qs == texts(questions@),
            out@ == start + question_lines(qs.take(i as int)),
        decreases questions@.len() - i,
    {
        proof {
            assert(qs.take(i + 1).drop_last() =~= qs.take(i as int));
            assert(qs.take(i + 1).last() == questions@[i as int]@);
        }
        let ghost before = out@;
        out.append("    - ");
        out.append(questions[i].as_str());
        out.append("\n");
        assert(out@ =~= before + ("    - "@ + questions@[i as int]@ + "\n"@));
        i = i + 1;
    }
    assert(qs.take(questions@.len() as int) =~= qs);
}

fn push_level_found(out: &mut String, l: &Level, i: usize)
    ensures
        final(out)@ == old(out)@ + ("CURRENT LEVEL DETAILS (Level "@ + decimal(i as nat) + ": "@ + l@.description
            + "):\n"@ + "  Focus: "@ + l@.abstraction_focus + "\n"@ + (if l@.questions.len() > 0 {
            "  Sample Questions:\n"@ + question_lines(l@.questions)
        } else {
            Seq::empty()
        }) + "  Guidance: "@ + guidance(l@) + "\n"@),
{
    let ghost s0 = out@;
    out.append("CURRENT LEVEL DETAILS (Level ");
    push_decimal(out, i);
    out.append(": ");
    out.append(l.description());
    out.append("):\n");
    out.append("  Focus: ");
    out.append(l.abstraction_focus());
    out.append("\n");
    let ghost s1 = out@;
    let questions = l.questions();
    if questions.len() > 0 {
        out.append("  Sample Questions:\n");
        push_question_lines(out, questions);
    }
    let ghost s2 = out@;
    assert(s2 =~= s1 + (if l@.questions.len() > 0 {
        "  Sample Questions:\n"@ + question_lines(l@.questions)
    } else {
        Seq::empty()
    }));
    out.append("  Guidance: ");
    let g = l.get_guidance();
    out.append(g.as_str());
    out.append("\n");
    assert(out@ =~= s0 + ("CURRENT LEVEL DETAILS (Level "@ + decimal(i as nat) + ": "@ + l@.description + "):\n"@
        + "  Focus: "@ + l@.abstraction_focus + "\n"@ + (if l@.questions.len() > 0 {
        "  Sample Questions:\n"@ + question_lines(l@.questions)
    } else {
        Seq::empty()
    }) + "  Guidance: "@ + guidance(l@) + "\n"@));
}

fn push_level_details(out: &mut String, current: &Option<Level>, levels: &[Level])
    ensures
        final(out)@ == old(out)@ + level_details(opt_level_view(*current), levels_view(levels@)),
{
    let ghost s0 = out@;
    match current {
        Some(l) => {
            match find_level(levels, l.description()) {
                Some(i) => {
                    push_level_found(out, l, i);
                },
                None => {
                    out.append("CURRENT LEVEL DETAILS (Unknown Index: ");
                    out.append(l.description());
                    out.append("):\n");
                    out.append("  Focus: ");
                    out.append(l.abstraction_focus());
                    out.append("\n");
                    assert(out@ =~= s0 + ("CURRENT LEVEL DETAILS (Unknown Index: "@ + l@.description + "):\n"@
                        + "  Focus: "@ + l@.abstraction_focus + "\n"@));
                },
            }
        },
        None => out.append("CURRENT LEVEL DETAILS: No specific level context available for the current task.\n"),
    }
}

fn push_level_labels(out: &mut String, levels: &[Level])
    ensures
        final(out)@ == old(out)@ + join(level_labels(levels_view(levels@)), " | "@),
{
    let ghost ls = levels_view(levels@);
    let ghost start = out@;
    let mut i: usize = 0;
    while i < levels.len()
        invariant
            i <= levels@.len(),
            ls == levels_view(levels@),
            out@ == start + join(level_labels(ls.take(i as int)), " | "@),
        decreases levels@.len() - i,
    {
        let ghost label = decimal(i as nat) + ":"@ + levels@[i as int]@.description;
        proof {
            assert(level_labels(ls.take(i + 1)) =~= level_labels(ls.take(i as int)).push(label));
            lemma_join_push(level_labels(ls.take(i as int)), " | "@, label);
        }
        if i > 0 {
            out.append(" | ");
        }
        let ghost before = out@;
        push_decimal(out, i);
        out.append(":");
        out.append(levels[i].description());
        assert(out@ =~= before + label);
        i = i + 1;
    }
    assert(ls.take(levels@.len() as int) =~= ls);
}

fn push_followup_lines(out: &mut String, fs: &[String])
    ensures
        final(out)@ == old(out)@ + followup_lines(strings_view(fs@)),
{
    let ghost ss = strings_view(fs@);
    let ghost start = out@;
    let mut i: usize = 0;
    while i < fs.len()
        invariant
            i <= fs@.len(),
            ss == strings_view(fs@),
            out@ == start + followup_lines(ss.take(i as int)),
        decreases fs@.len() - i,
    {
        proof {
            assert(ss.take(i + 1).drop_last() =~= ss.take(i as int));
            assert(ss.take(i + 1).last() == fs@[i as int]@);
        }
        let ghost before = out@;
        out.append("  • ");
        out.append(fs[i].as_str());
        out.append("\n");
        assert(out@ =~= before + ("  • "@ + fs@[i as int]@ + "\n"@));
        i = i + 1;
    }
    assert(ss.take(fs@.len() as int) =~= ss);
}

fn push_context_head(out: &mut String, d: &DistilledContext, shown_goal: Option<&str>)
    ensures
        final(out)@ == old(out)@ + context_head(
            d@,
            match shown_goal {
                Some(g) => Some(g@),
                None => None,
            },
        ),
{
    let ghost s0 = out@;
    out.append("\n--- Current Context ---\n");
    push_goal_line(out, shown_goal);
    push_plan_notes_line(out, &d.plan_notes);
    push_current_task_line(out, &d.current_task, d.task_tree.as_slice());
    push_level_details(out, &d.current_level, d.levels.as_slice());
    assert(out@ =~= s0 + context_head(
        d@,
        match shown_goal {
            Some(g) => Some(g@),
            None => None,
        },
    ));
}

fn push_context_tree_part(out: &mut String, d: &DistilledContext)
    ensures
        final(out)@ == old(out)@ + context_tree_part(d@),
{
    let ghost s0 = out@;
    out.append("\n\n");
    out.append("TASK TREE (slim, see `plan show` for full tree):\n");
    push_nodes_text(out, d.task_tree.as_slice(), "");
    proof {
        reveal_strlit("");
        assert(""@ =~= Seq::<char>::empty());
    }
    out.append("\n\n");
    out.append("AVAILABLE LEVELS (more level information availabe via the `plan` command):\n");
    out.append("  ");
    push_level_labels(out, d.levels.as_slice());
    out.append("\n");
    out.append("\n\n");
    assert(out@ =~= s0 + context_tree_part(d@));
}

fn push_context_extras(out: &mut String, fs: &[String], reminder: &Option<String>)
    ensures
        final(out)@ == old(out)@ + context_extras(strings_view(fs@), opt_text(*reminder)),
{
    let ghost s1 = out@;
    if fs.len() > 0 {
        out.append("Suggested next steps:\n");
        push_followup_lines(out, fs);
        out.append("\n\n");
    }
    let ghost s2 = out@;
    assert(s2 =~= s1 + (if fs@.len() > 0 {
        "Suggested next steps:\n"@ + followup_lines(strings_view(fs@)) + "\n\n"@
    } else {
        Seq::empty()
    }));
    match reminder {
        Some(r) => {
            out.append("Reminder: ");
            out.append(r.as_str());
            out.append("\n");
            out.append("\n\n");
        },
        None => {},
    }
    assert(out@ =~= s2 + (match opt_text(*reminder) {
        Some(r) => "Reminder: "@ + r + "\n"@ + "\n\n"@,
        None => Seq::empty(),
    }));
    assert(out@ =~= s1 + context_extras(strings_view(fs@), opt_text(*reminder)));
}

fn push_context_tail(out: &mut String, d: &DistilledContext, fs: &[String], reminder: &Option<String>)
    ensures
        final(out)@ == old(out)@ + context_tail(d@, strings_view(fs@), opt_text(*reminder)),
{
    let ghost s0 = out@;
    push_context_tree_part(out, d);
    push_context_extras(out, fs, reminder);
    assert(out@ =~= s0 + context_tail(d@, strings_view(fs@), opt_text(*reminder)));
}

/// Appends the distilled context of an answer as the command line shows
/// it, with the goal shown as `shown_goal`.
pub fn push_context_text<T>(out: &mut String, response: &PlanResponse<T>, shown_goal: Option<&str>)
    ensures
        final(out)@ == old(out)@ + context_text(
            response.distilled_context@,
            strings_view(response.suggested_followups@),
            opt_text(response.reminder),
            match shown_goal {
                Some(g) => Some(g@),
                None => None,
            },
        ),
{
    let ghost s0 = out@;
    push_context_head(out, &response.distilled_context, shown_goal);
    push_context_tail(out, &response.distilled_context, response.suggested_followups.as_slice(), &response.reminder);
    assert(out@ =~= s0 + context_text(
        response.distilled_context@,
        strings_view(response.suggested_followups@),
        opt_text(response.reminder),
        match shown_goal {
            Some(g) => Some(g@),
            None => None,
        },
    ));
}

fn shown_goal_of(goal: &Option<String>) -> (r: Option<String>)
    ensures
        goal_shown_as(
            opt_text(*goal),
            match r {
                Some(g) => Some(g@),
                None => None,
            },
        ),
{
    match goal {
        Some(g) => Some(bright_blue(g.as_str())),
        None => None,
    }
}

fn as_text(o: &Option<String>) -> (r: Option<&str>)
    ensures
        match r {
            Some(s) => opt_text(*o) == Some(s@),
            None => o is None,
        },
{
    match o {
        Some(s) => Some(s.as_str()),
        None => None,
    }
}

/// The distilled context of an answer as the command line shows it, with
/// the goal in bright blue where colours are on.
pub fn distilled_context_report<T>(response: &PlanResponse<T>) -> (r: String)
    ensures
        exists|g: Option<Seq<char>>|
            {
                &&& goal_shown_as(response.distilled_context@.goal, g)
                &&& r@ == context_text(
                    response.distilled_context@,
                    strings_view(response.suggested_followups@),
                    opt_text(response.reminder),
                    g,
                )
            },
{
    let shown = shown_goal_of(&response.distilled_context.goal);
    let mut out = String::new();
    push_context_text(&mut out, response, as_text(&shown));
    assert(out@ =~= context_text(
        response.distilled_context@,
        strings_view(response.suggested_followups@),
        opt_text(response.reminder),
        opt_text(shown),
    ));
    out
}

/// An answer with a plan as the command line shows it: the plan, then the
/// distilled context, each goal in bright blue where colours are on.
pub fn plan_response_report(response: &PlanResponse<Plan>) -> (r: String)
    ensures
        exists|g1: Option<Seq<char>>, g2: Option<Seq<char>>|
            {
                &&& goal_shown_as(response.res@.goal, g1)
                &&& goal_shown_as(response.distilled_context@.goal, g2)
                &&& r@ == plan_text(response.res@, g1) + context_text(
                    response.distilled_context@,
                    strings_view(response.suggested_followups@),
                    opt_text(response.reminder),
                    g2,
                )
            },
{
    let plan = &response.res;
    let shown_plan_goal = shown_goal_of(plan.goal_ref());
    let shown_goal = shown_goal_of(&response.distilled_context.goal);
    let mut out = String::new();
    push_plan_text(&mut out, plan, as_text(&shown_plan_goal));
    push_context_text(&mut out, response, as_text(&shown_goal));
    assert(out@ =~= plan_text(response.res@, opt_text(shown_plan_goal)) + context_text(
        response.distilled_context@,
        strings_view(response.suggested_followups@),
        opt_text(response.reminder),
        opt_text(shown_goal),
    ));
    out
}

/// What the command line shows after the result of an answer: its
/// suggested next steps, its reminder, and the distilled context.
pub open spec fn response_tail(fs: Seq<Seq<char>>, reminder: Option<Seq<char>>) -> Seq<char> {
    (if fs.len() > 0 {
        "\nSuggested next steps:\n"@ + followup_lines(fs)
    } else {
        Seq::empty()
    }) + (match reminder {
        Some(r) => "\nReminder: "@ + r + "\n"@,
        None => Seq::empty(),
    })
}

/// What the command line shows after the result of an answer: its
/// suggested next steps and reminder, then the distilled context with the
/// goal in bright blue where colours are on.
pub fn response_report<T>(response: &PlanResponse<T>) -> (r: String)
    ensures
        exists|g: Option<Seq<char>>|
            {
                &&& goal_shown_as(response.distilled_context@.goal, g)
                &&& r@ == response_tail(strings_view(response.suggested_followups@), opt_text(response.reminder))
                    + context_text(
                    response.distilled_context@,
                    strings_view(response.suggested_followups@),
                    opt_text(response.reminder),
                    g,
                )
            },
{
    let mut out = String::new();
    if response.suggested_followups.len() > 0 {
        out.append("\nSuggested next steps:\n");
        push_followup_lines(&mut out, response.suggested_followups.as_slice());
    }
    let ghost s1 = out@;
    match &response.reminder {
        Some(r) => {
            out.append("\nReminder: ");
            out.append(r.as_str());
            out.append("\n");
        },
        None => {},
    }
    let ghost s2 = out@;
    assert(s2 =~= response_tail(strings_view(response.suggested_followups@), opt_text(response.reminder)));
    let shown = shown_goal_of(&response.distilled_context.goal);
    push_context_text(&mut out, response, as_text(&shown));
    assert(out@ =~= s2 + context_text(
        response.distilled_context@,
        strings_view(response.suggested_followups@),
        opt_text(response.reminder),
        opt_text(shown),
    ));
    out
}

/// Task `task` at index path `index` and its subtasks, as the command line
/// shows them.
pub fn task_report(task: &Task, index: Vec<usize>) -> (r: String)
    ensures
        r@ == task_text(task@, index@),
{
    let mut out = String::new();
    push_task_text(&mut out, task, index);
    assert(out@ =~= task_text(task@, index@));
    out
}

/// The focused tree `nodes` indented by `indent` levels, as the command
/// line shows it.
pub fn task_tree_report(nodes: &[TaskTreeNode], indent: usize) -> (r: String)
    ensures
        r@ == nodes_text(nodes_view(nodes@), spaces(indent as nat)),
{
    let mut out = String::new();
    push_task_tree(&mut out, nodes, indent);
    assert(out@ =~= nodes_text(nodes_view(nodes@), spaces(indent as nat)));
    out
}

/// The message when no plan id is given.
pub open spec fn no_plan_id_text() -> Seq<char> {
    "Error: Plan ID not specified. Use the --plan=<id> flag or set the "@ + PLAN_ID_ENV_VAR@
        + " environment variable (e.g., export "@ + PLAN_ID_ENV_VAR@
        + "=<id>). Use 'scatterbrain plan list' to see available IDs."@
}

/// The message when the environment names a plan id that is not a byte.
pub open spec fn bad_plan_id_text(value: Seq<char>, e: IntParseError) -> Seq<char> {
    "Invalid value in "@ + PLAN_ID_ENV_VAR@ + ": '"@ + value + "'. Must be a number between 0 and 255. Error: "@
        + int_parse_message(e)
}

/// The plan a command acts on: the id given with `--plan` where there is
/// one, else the id in the environment variable `PLAN_ID_ENV_VAR` (given
/// here as `env_value`, `None` where it is unset or not Unicode), read as
/// `str::parse::<u8>` reads it.
pub fn get_plan_id(flag: Option<u8>, env_value: Option<&str>) -> (r: Result<Lease, String>)
    ensures
        match flag {
            Some(v) => r == Ok::<Lease, String>(Lease(v)),
            None => match env_value {
                None => r matches Err(m) && m@ == no_plan_id_text(),
                Some(text) => match parse_u8_spec(text@) {
                    Ok(v) => r == Ok::<Lease, String>(Lease(v)),
                    Err(e) => r matches Err(m) && m@ == bad_plan_id_text(text@, e),
                },
            },
        },
{
    match flag {
        Some(v) => Ok(Lease::new(v)),
        None => match env_value {
            None => {
                let mut m = String::from_str("Error: Plan ID not specified. Use the --plan=<id> flag or set the ");
                m.append(PLAN_ID_ENV_VAR);
                m.append(" environment variable (e.g., export ");
                m.append(PLAN_ID_ENV_VAR);
                m.append("=<id>). Use 'scatterbrain plan list' to see available IDs.");
                Err(m)
            },
            Some(text) => match parse_u8(text) {
                Ok(v) => Ok(Lease::new(v)),
                Err(e) => {
                    let mut m = String::from_str("Invalid value in ");
                    m.append(PLAN_ID_ENV_VAR);
                    m.append(": '");
                    m.append(text);
                    m.append("'. Must be a number between 0 and 255. Error: ");
                    let msg = e.message();
                    m.append(msg.as_str());
                    Err(m)
                },
            },
        },
    }
}

/// The subtasks of the current task, one per line with its position.
pub open spec fn current_subtask_lines(ts: Seq<TaskView>) -> Seq<char>
    decreases ts.len(),
{
    if ts.len() == 0 {
        Seq::empty()
    } else {
        current_subtask_lines(ts.drop_last()) + "  "@ + decimal((ts.len() - 1) as nat) + ". "@ + ts.last().description
            + " (completed: "@ + bool_text(ts.last().completed) + ")\n"@
    }
}

/// The current task of plan `id` as the command line shows it: its
/// description, state, level and index, and its subtasks; or a hint where
/// no task is selected.
pub open spec fn current_text(id: u8, current: Option<(Seq<usize>, LevelView, TaskView)>) -> Seq<char> {
    match current {
        Some(c) => "Current Task for Plan ID: "@ + decimal(id as nat) + "\n"@ + "  Description: "@ + c.2.description
            + "\n"@ + "  Completed: "@ + bool_text(c.2.completed) + "\n"@ + "  Level: "@ + c.1.description + "\n"@
            + "  Index: "@ + crate::text::debug_list(c.0) + "\n"@ + (if c.2.subtasks.len() > 0 {
            "\nSubtasks:\n"@ + current_subtask_lines(c.2.subtasks)
        } else {
            Seq::empty()
        }),
        None => "No current task selected in this plan. Use 'move' to select a task.\n"@,
    }
}

fn push_current_subtask_lines(out: &mut String, tasks: &[Task])
    ensures
        final(out)@ == old(out)@ + current_subtask_lines(tasks_view(tasks@)),
{
    proof {
        lemma_tasks_view(tasks@);
    }
    let ghost ts = tasks_view(tasks@);
    let ghost start = out@;
    let mut i: usize = 0;
    while i < tasks.len()
        invariant
            i <= tasks@.len(),
            ts == tasks_view(tasks@),
            ts.len() == tasks@.len(),
            forall|j: int| 0 <= j < tasks@.len() ==> #[trigger] ts[j] == tasks@[j]@,
            out@ == start + current_subtask_lines(ts.take(i as int)),
        decreases tasks@.len() - i,
    {
        proof {
            assert(ts.take(i + 1).drop_last() =~= ts.take(i as int));
            assert(ts.take(i + 1).last() == ts[i as int]);
        }
        let ghost before = out@;
        out.append("  ");
        push_decimal(out, i);
        out.append(". ");
        out.append(tasks[i].description());
        out.append(" (completed: ");
        push_bool(out, tasks[i].is_completed());
        out.append(")\n");
        assert(out@ =~= before + ("  "@ + decimal(i as nat) + ". "@ + ts[i as int].description + " (completed: "@
            + bool_text(ts[i as int].completed) + ")\n"@));
        i = i + 1;
    }
    assert(ts.take(tasks@.len() as int) =~= ts);
}

/// The current task of plan `id` as the command line shows it.
pub fn current_report(id: &Lease, current: Option<&Current>) -> (r: String)
    ensures
        r@ == current_text(lease_value(*id), crate::ui::current_view(current)),
{
    let mut out = String::new();
    match current {
        Some(c) => {
            out.append("Current Task for Plan ID: ");
            push_decimal(&mut out, id.value() as usize);
            out.append("\n");
            out.append("  Description: ");
            out.append(c.task.description());
            out.append("\n");
            out.append("  Completed: ");
            push_bool(&mut out, c.task.is_completed());
            out.append("\n");
            out.append("  Level: ");
            out.append(c.level.description());
            out.append("\n");
            out.append("  Index: ");
            crate::text::push_debug_list(&mut out, c.index.as_slice());
            out.append("\n");
            let ghost s1 = out@;
            let subs = c.task.subtasks();
            if subs.len() > 0 {
                out.append("\nSubtasks:\n");
                push_current_subtask_lines(&mut out, subs);
            }
            assert(out@ =~= s1 + (if c.task@.subtasks.len() > 0 {
                "\nSubtasks:\n"@ + current_subtask_lines(c.task@.subtasks)
            } else {
                Seq::empty()
            }));
        },
        None => out.append("No current task selected in this plan. Use 'move' to select a task.\n"),
    }
    assert(out@ =~= current_text(lease_value(*id), crate::ui::current_view(current)));
    out
}

} // verus!
