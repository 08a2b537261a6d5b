//! Tasks form a tree: each task has a description, a completion state, an
//! optional abstraction level, optional notes and summary, and subtasks.
//! A task is found by its index path: the positions taken from the root.

use vstd::prelude::*;

verus! {

/// A unit of work in a plan.
pub struct Task {
    description: String,
    completed: bool,
    subtasks: Vec<Task>,
    level_index: Option<usize>,
    completion_summary: Option<String>,
    notes: Option<String>,
}

/// The mathematical content of a task and of all its subtasks.
pub struct TaskView {
    pub description: Seq<char>,
    pub completed: bool,
    pub subtasks: Seq<TaskView>,
    pub level_index: Option<usize>,
    pub completion_summary: Option<Seq<char>>,
    pub notes: Option<Seq<char>>,
}

/// The text of an optional string.
pub open spec fn opt_text(o: Option<String>) -> Option<Seq<char>> {
    match o {
        Some(s) => Some(s@),
        None => None,
    }
}

/// The view of one task.
pub closed spec fn task_view(t: Task) -> TaskView
    decreases t,
{
    TaskView {
        description: t.description@,
        completed: t.completed,
        subtasks: tasks_view(t.subtasks@),
        level_index: t.level_index,
        completion_summary: opt_text(t.completion_summary),
        notes: opt_text(t.notes),
    }
}

/// The views of a sequence of tasks.
pub closed spec fn tasks_view(s: Seq<Task>) -> Seq<TaskView>
    decreases s,
{
    if s.len() == 0 {
        Seq::empty()
    } else {
        tasks_view(s.subrange(0, s.len() - 1)).push(task_view(s[s.len() - 1]))
    }
}

impl View for Task {
    type V = TaskView;

    open spec fn view(&self) -> TaskView {
        task_view(*self)
    }
}

/// The views of a sequence of tasks have the same length and are taken
/// position by position.
pub broadcast proof fn lemma_tasks_view(s: Seq<Task>)
    ensures
        #[trigger] tasks_view(s).len() == s.len(),
        forall|i: int| 0 <= i < s.len() ==> #[trigger] tasks_view(s)[i] == s[i]@,
    decreases s.len(),
{
    if s.len() > 0 {
        lemma_tasks_view(s.subrange(0, s.len() - 1));
        assert forall|i: int| 0 <= i < s.len() implies #[trigger] tasks_view(s)[i] == s[i]@ by {
            if i < s.len() - 1 {
                assert(s.subrange(0, s.len() - 1)[i] == s[i]);
            }
        }
    }
}

/// Views of task sequences are determined by the views of their elements.
pub proof fn lemma_tasks_view_ext(a: Seq<Task>, b: Seq<Task>)
    requires
        a.len() == b.len(),
        forall|i: int| 0 <= i < a.len() ==> #[trigger] a[i]@ == b[i]@,
    ensures
        tasks_view(a) == tasks_view(b),
{
    lemma_tasks_view(a);
    lemma_tasks_view(b);
    assert forall|i: int| 0 <= i < a.len() implies tasks_view(a)[i] == tasks_view(b)[i] by {
        assert(a[i]@ == b[i]@);
    }
    assert(tasks_view(a) =~= tasks_view(b));
}


/// The task reached from `t` by following the index path `p`.
pub open spec fn task_at(t: TaskView, p: Seq<usize>) -> Option<TaskView>
    decreases p.len(),
{
    if p.len() == 0 {
        Some(t)
    } else if p[0] < t.subtasks.len() {
        task_at(t.subtasks[p[0] as int], p.drop_first())
    } else {
        None
    }
}

/// Whether the index path `p` leads to a task of `t`.
pub open spec fn has_task(t: TaskView, p: Seq<usize>) -> bool {
    task_at(t, p) is Some
}

/// Following one more step from a path extends the walk by that step.
pub proof fn lemma_task_at_push(t: TaskView, p: Seq<usize>, i: usize)
    ensures
        task_at(t, p.push(i)) == match task_at(t, p) {
            Some(x) => if i < x.subtasks.len() {
                Some(x.subtasks[i as int])
            } else {
                None
            },
            None => None,
        },
    decreases p.len(),
{
    if p.len() == 0 {
        assert(p.push(i).drop_first() =~= Seq::<usize>::empty());
        if i < t.subtasks.len() {
            assert(task_at(t.subtasks[i as int], Seq::<usize>::empty()) == Some(t.subtasks[i as int]));
        }
    } else {
        assert(p.push(i).drop_first() =~= p.drop_first().push(i));
        assert(p.push(i)[0] == p[0]);
        if p[0] < t.subtasks.len() {
            lemma_task_at_push(t.subtasks[p[0] as int], p.drop_first(), i);
        }
    }
}

/// A path that leads nowhere cannot be extended into one that does.
pub proof fn lemma_task_at_extend_none(t: TaskView, p: Seq<usize>, q: Seq<usize>)
    requires
        task_at(t, p) is None,
        p.is_prefix_of(q),
    ensures
        task_at(t, q) is None,
    decreases p.len(),
{
    if p.len() > 0 && p[0] < t.subtasks.len() {
        assert(p.drop_first().is_prefix_of(q.drop_first())) by {
            assert forall|i: int| 0 <= i < p.drop_first().len() implies p.drop_first()[i] == q.drop_first()[i] by {
                assert(p[i + 1] == q[i + 1]);
            }
        }
        assert(q[0] == p[0]);
        lemma_task_at_extend_none(t.subtasks[p[0] as int], p.drop_first(), q.drop_first());
    } else {
        assert(q[0] == p[0]);
    }
}

/// `t` with it and all of its descendants marked completed.
pub open spec fn complete_all(t: TaskView) -> TaskView
    decreases t,
{
    TaskView {
        description: t.description,
        completed: true,
        subtasks: complete_all_seq(t.subtasks),
        level_index: t.level_index,
        completion_summary: t.completion_summary,
        notes: t.notes,
    }
}

/// Every task of `s`, with its descendants, marked completed.
pub open spec fn complete_all_seq(s: Seq<TaskView>) -> Seq<TaskView>
    decreases s,
{
    if s.len() == 0 {
        Seq::empty()
    } else {
        complete_all_seq(s.subrange(0, s.len() - 1)).push(complete_all(s[s.len() - 1]))
    }
}

/// `t` marked not completed, with its completion summary cleared; its
/// subtasks are left as they are.
pub open spec fn uncompleted(t: TaskView) -> TaskView {
    TaskView {
        description: t.description,
        completed: false,
        subtasks: t.subtasks,
        level_index: t.level_index,
        completion_summary: None,
        notes: t.notes,
    }
}

/// `t` with its subtasks replaced.
pub open spec fn with_subtasks(t: TaskView, subtasks: Seq<TaskView>) -> TaskView {
    TaskView {
        description: t.description,
        completed: t.completed,
        subtasks,
        level_index: t.level_index,
        completion_summary: t.completion_summary,
        notes: t.notes,
    }
}

/// A change to one task of the tree.
pub enum Edit {
    /// Complete the task and its descendants, recording a summary.
    Complete(Option<Seq<char>>),
    /// Mark the task not completed and clear its summary.
    Uncomplete,
    /// Set the abstraction level of the task.
    SetLevel(usize),
    /// Replace the notes of the task.
    SetNotes(Option<Seq<char>>),
    /// Append a subtask.
    AddSubtask(TaskView),
    /// Remove the subtask at a position.
    RemoveSubtask(usize),
}

/// The effect of an edit on the task it applies to.
pub open spec fn edit_node(t: TaskView, e: Edit) -> TaskView {
    match e {
        Edit::Complete(summary) => {
            let c = complete_all(t);
            TaskView {
                description: c.description,
                completed: c.completed,
                subtasks: c.subtasks,
                level_index: c.level_index,
                completion_summary: summary,
                notes: c.notes,
            }
        },
        Edit::Uncomplete => uncompleted(t),
        Edit::SetLevel(l) => TaskView {
            description: t.description,
            completed: t.completed,
            subtasks: t.subtasks,
            level_index: Some(l),
            completion_summary: t.completion_summary,
            notes: t.notes,
        },
        Edit::SetNotes(n) => TaskView {
            description: t.description,
            completed: t.completed,
            subtasks: t.subtasks,
            level_index: t.level_index,
            completion_summary: t.completion_summary,
            notes: n,
        },
        Edit::AddSubtask(x) => with_subtasks(t, t.subtasks.push(x)),
        Edit::RemoveSubtask(i) => with_subtasks(t, t.subtasks.remove(i as int)),
    }
}

/// `t` with the edit applied to the task at path `p`. Adding a subtask also
/// marks every task on the path below the root as not completed, the
/// target included.
pub open spec fn edit_at(t: TaskView, p: Seq<usize>, e: Edit) -> TaskView
    decreases p.len(),
{
    if p.len() == 0 {
        edit_node(t, e)
    } else if p[0] < t.subtasks.len() {
        let c = edit_at(t.subtasks[p[0] as int], p.drop_first(), e);
        let c2 = if e is AddSubtask {
            uncompleted(c)
        } else {
            c
        };
        with_subtasks(t, t.subtasks.update(p[0] as int, c2))
    } else {
        t
    }
}

/// A change to one task, carrying the owned values it installs.
pub enum TaskEdit {
    Complete(Option<String>),
    Uncomplete,
    SetLevel(usize),
    SetNotes(Option<String>),
    AddSubtask(Task),
    RemoveSubtask(usize),
}

/// The mathematical content of an edit.
pub open spec fn edit_view(e: TaskEdit) -> Edit {
    match e {
        TaskEdit::Complete(s) => Edit::Complete(opt_text(s)),
        TaskEdit::Uncomplete => Edit::Uncomplete,
        TaskEdit::SetLevel(l) => Edit::SetLevel(l),
        TaskEdit::SetNotes(n) => Edit::SetNotes(opt_text(n)),
        TaskEdit::AddSubtask(t) => Edit::AddSubtask(t@),
        TaskEdit::RemoveSubtask(i) => Edit::RemoveSubtask(i),
    }
}

fn clone_opt_string(o: &Option<String>) -> (r: Option<String>)
    ensures
        opt_text(r) == opt_text(*o),
{
    match o {
        Some(s) => Some(s.clone()),
        None => None,
    }
}

impl Clone for Task {
    fn clone(&self) -> (r: Self)
        ensures
            r@ == self@,
        decreases self,
    {
        let mut subtasks: Vec<Task> = Vec::new();
        let mut i: usize = 0;
        while i < self.subtasks.len()
            invariant
                i <= self.subtasks.len(),
                subtasks.len() == i,
                forall|j: int| 0 <= j < i ==> #[trigger] subtasks@[j]@ == self.subtasks@[j]@,
            decreases self.subtasks.len() - i,
        {
            let c = self.subtasks[i].clone();
            subtasks.push(c);
            i = i + 1;
        }
        proof {
            lemma_tasks_view_ext(subtasks@, self.subtasks@);
        }
        Task {
            description: self.description.clone(),
            completed: self.completed,
            subtasks,
            level_index: self.level_index,
            completion_summary: clone_opt_string(&self.completion_summary),
            notes: clone_opt_string(&self.notes),
        }
    }
}

impl Task {
    /// Creates a new task with the given description and no level.
    pub fn new(description: String) -> (t: Self)
        ensures
            t@ == (TaskView {
                description: description@,
                completed: false,
                subtasks: Seq::empty(),
                level_index: None,
                completion_summary: None,
                notes: None,
            }),
    {
        let t = Task {
            description,
            completed: false,
            subtasks: Vec::new(),
            level_index: None,
            completion_summary: None,
            notes: None,
        };
        proof {
            lemma_tasks_view(t.subtasks@);
        }
        t
    }

    /// Creates a new task with a specific level index.
    pub fn with_level(description: String, level_index: usize) -> (t: Self)
        ensures
            t@ == (TaskView {
                description: description@,
                completed: false,
                subtasks: Seq::empty(),
                level_index: Some(level_index),
                completion_summary: None,
                notes: None,
            }),
    {
        let t = Task {
            description,
            completed: false,
            subtasks: Vec::new(),
            level_index: Some(level_index),
            completion_summary: None,
            notes: None,
        };
        proof {
            lemma_tasks_view(t.subtasks@);
        }
        t
    }

    /// Assembles a task from all of its parts.
    pub fn from_parts(
        description: String,
        completed: bool,
        subtasks: Vec<Task>,
        level_index: Option<usize>,
        completion_summary: Option<String>,
        notes: Option<String>,
    ) -> (t: Self)
        ensures
            t@.description == description@,
            t@.completed == completed,
            t@.subtasks == tasks_view(subtasks@),
            t@.level_index == level_index,
            t@.completion_summary == opt_text(completion_summary),
            t@.notes == opt_text(notes),
    {
        Task { description, completed, subtasks, level_index, completion_summary, notes }
    }

    /// Appends a subtask.
    pub(crate) fn add_subtask(&mut self, subtask: Task)
        ensures
            final(self)@ == with_subtasks(old(self)@, old(self)@.subtasks.push(subtask@)),
    {
        let ghost old_subs = self.subtasks@;
        self.subtasks.push(subtask);
        proof {
            lemma_tasks_view(old_subs);
            lemma_tasks_view(self.subtasks@);
            assert(tasks_view(self.subtasks@) =~= tasks_view(old_subs).push(subtask@));
        }
    }

    /// Marks the task, and recursively all of its subtasks, completed.
    pub(crate) fn complete(&mut self)
        ensures
            final(self)@ == complete_all(old(self)@),
        decreases old(self)@,
    {
        self.completed = true;
        let ghost old_subs = self.subtasks@;
        proof {
            lemma_tasks_view(old_subs);
        }
        let mut i: usize = 0;
        while i < self.subtasks.len()
            invariant
                i <= self.subtasks.len(),
                self.completed,
                self.description == old(self).description,
                self.level_index == old(self).level_index,
                self.completion_summary == old(self).completion_summary,
                self.notes == old(self).notes,
                self.subtasks.len() == old_subs.len(),
                tasks_view(old_subs) == old(self)@.subtasks,
                tasks_view(old_subs).len() == old_subs.len(),
                forall|j: int| 0 <= j < old_subs.len() ==> tasks_view(old_subs)[j] == #[trigger] old_subs[j]@,
                forall|j: int| 0 <= j < i ==> #[trigger] self.subtasks@[j]@ == complete_all(old_subs[j]@),
                forall|j: int| i <= j < old_subs.len() ==> #[trigger] self.subtasks@[j] == old_subs[j],
            decreases self.subtasks.len() - i,
        {
            self.subtasks[i].complete();
            i = i + 1;
        }
        proof {
            lemma_complete_all_seq(tasks_view(old_subs));
            lemma_tasks_view(self.subtasks@);
            assert(tasks_view(self.subtasks@) =~= complete_all_seq(tasks_view(old_subs)));
        }
    }
}

impl Task {
    /// The description of the task.
    pub fn description(&self) -> (s: &str)
        ensures
            s@ == self@.description,
    {
        self.description.as_str()
    }

    /// Whether the task is completed.
    pub fn is_completed(&self) -> (b: bool)
        ensures
            b == self@.completed,
    {
        self.completed
    }

    /// The subtasks of the task.
    pub fn subtasks(&self) -> (s: &[Task])
        ensures
            tasks_view(s@) == self@.subtasks,
            s@.len() == self@.subtasks.len(),
            forall|i: int| 0 <= i < s@.len() ==> #[trigger] s@[i]@ == self@.subtasks[i],
    {
        proof {
            lemma_tasks_view(self.subtasks@);
        }
        self.subtasks.as_slice()
    }

    /// The level index, if it is set explicitly.
    pub fn level_index(&self) -> (l: Option<usize>)
        ensures
            l == self@.level_index,
    {
        self.level_index
    }

    /// The completion summary, if there is one.
    pub fn completion_summary(&self) -> (s: Option<&String>)
        ensures
            match s {
                Some(x) => self@.completion_summary == Some(x@),
                None => self@.completion_summary is None,
            },
    {
        self.completion_summary.as_ref()
    }

    /// The notes, if there are any.
    pub fn notes(&self) -> (s: Option<&str>)
        ensures
            match s {
                Some(x) => self@.notes == Some(x@),
                None => self@.notes is None,
            },
    {
        match &self.notes {
            Some(n) => Some(n.as_str()),
            None => None,
        }
    }

    /// Marks the task not completed and clears its completion summary.
    pub(crate) fn uncomplete(&mut self)
        ensures
            final(self)@ == uncompleted(old(self)@),
    {
        self.completed = false;
        self.completion_summary = None;
    }

    /// Sets the level index of the task.
    pub(crate) fn set_level(&mut self, level_index: usize)
        ensures
            final(self)@ == edit_node(old(self)@, Edit::SetLevel(level_index)),
    {
        self.level_index = Some(level_index);
    }

    /// Replaces the notes of the task.
    pub(crate) fn set_notes(&mut self, notes: Option<String>)
        ensures
            final(self)@ == edit_node(old(self)@, Edit::SetNotes(opt_text(notes))),
    {
        self.notes = notes;
    }

    /// The task at the index path `path[pos..]` below this one.
    pub(crate) fn get(&self, path: &[usize], pos: usize) -> (r: Option<&Task>)
        requires
            pos <= path@.len(),
        ensures
            match r {
                Some(t) => task_at(self@, path@.skip(pos as int)) == Some(t@),
                None => task_at(self@, path@.skip(pos as int)) is None,
            },
        decreases path@.len() - pos,
    {
        if pos == path.len() {
            assert(path@.skip(pos as int).len() == 0);
            return Some(self);
        }
        let i = path[pos];
        proof {
            lemma_tasks_view(self.subtasks@);
            assert(path@.skip(pos as int).drop_first() =~= path@.skip(pos + 1));
        }
        if i >= self.subtasks.len() {
            None
        } else {
            self.subtasks[i].get(path, pos + 1)
        }
    }

    /// Applies an edit to the task at the index path `path[pos..]` below
    /// this one, returning the subtask that a removal takes out.
    pub(crate) fn edit(&mut self, path: &[usize], pos: usize, e: TaskEdit) -> (r: Option<Task>)
        requires
            pos <= path@.len(),
            has_task(old(self)@, path@.skip(pos as int)),
            e matches TaskEdit::RemoveSubtask(i) ==> i < task_at(
                old(self)@,
                path@.skip(pos as int),
            )->0.subtasks.len(),
        ensures
            final(self)@ == edit_at(old(self)@, path@.skip(pos as int), edit_view(e)),
            match e {
                TaskEdit::RemoveSubtask(i) => r matches Some(x) && x@ == task_at(
                    old(self)@,
                    path@.skip(pos as int),
                )->0.subtasks[i as int],
                _ => r is None,
            },
        decreases path@.len() - pos,
    {
        let ghost old_subs = self.subtasks@;
        proof {
            lemma_tasks_view(old_subs);
        }
        if pos == path.len() {
            assert(path@.skip(pos as int).len() == 0);
            match e {
                TaskEdit::Complete(summary) => {
                    self.complete();
                    self.completion_summary = summary;
                    None
                },
                TaskEdit::Uncomplete => {
                    self.uncomplete();
                    None
                },
                TaskEdit::SetLevel(l) => {
                    self.set_level(l);
                    None
                },
                TaskEdit::SetNotes(n) => {
                    self.set_notes(n);
                    None
                },
                TaskEdit::AddSubtask(t) => {
                    self.add_subtask(t);
                    None
                },
                TaskEdit::RemoveSubtask(i) => {
                    let removed = self.subtasks.remove(i);
                    proof {
                        lemma_tasks_view(self.subtasks@);
                        assert(tasks_view(self.subtasks@) =~= tasks_view(old_subs).remove(i as int));
                    }
                    Some(removed)
                },
            }
        } else {
            let i = path[pos];
            let is_add = matches!(e, TaskEdit::AddSubtask(_));
            proof {
                assert(path@.skip(pos as int).drop_first() =~= path@.skip(pos + 1));
            }
            let r = self.subtasks[i].edit(path, pos + 1, e);
            if is_add {
                self.subtasks[i].uncomplete();
            }
            proof {
                lemma_tasks_view(self.subtasks@);
                assert(tasks_view(self.subtasks@) =~= old(self)@.subtasks.update(
                    i as int,
                    self.subtasks@[i as int]@,
                ));
            }
            r
        }
    }
}

/// Completing a sequence of tasks completes each of them.
pub proof fn lemma_complete_all_seq(s: Seq<TaskView>)
    ensures
        complete_all_seq(s).len() == s.len(),
        forall|i: int| 0 <= i < s.len() ==> #[trigger] complete_all_seq(s)[i] == complete_all(s[i]),
    decreases s.len(),
{
    if s.len() > 0 {
        lemma_complete_all_seq(s.subrange(0, s.len() - 1));
        assert forall|i: int| 0 <= i < s.len() implies #[trigger] complete_all_seq(s)[i] == complete_all(s[i]) by {
            if i < s.len() - 1 {
                assert(s.subrange(0, s.len() - 1)[i] == s[i]);
            }
        }
    }
}

/// Marking a tree completed keeps every task of it reachable.
pub proof fn lemma_complete_all_keeps_paths(t: TaskView, q: Seq<usize>)
    requires
        has_task(t, q),
    ensures
        has_task(complete_all(t), q),
    decreases q.len(),
{
    if q.len() > 0 {
        lemma_complete_all_seq(t.subtasks);
        lemma_complete_all_keeps_paths(t.subtasks[q[0] as int], q.drop_first());
    }
}

/// An edit of one task, other than a removal, keeps every task reachable.
pub proof fn lemma_edit_node_keeps_paths(t: TaskView, e: Edit, q: Seq<usize>)
    requires
        !(e is RemoveSubtask),
        has_task(t, q),
    ensures
        has_task(edit_node(t, e), q),
{
    if q.len() > 0 {
        match e {
            Edit::Complete(_) => {
                lemma_complete_all_seq(t.subtasks);
                lemma_complete_all_keeps_paths(t.subtasks[q[0] as int], q.drop_first());
            },
            Edit::AddSubtask(x) => {
                assert(edit_node(t, e).subtasks[q[0] as int] == t.subtasks[q[0] as int]);
            },
            _ => {},
        }
    }
}

/// An edit anywhere in the tree, other than a removal, keeps every task
/// reachable.
pub proof fn lemma_edit_keeps_paths(t: TaskView, p: Seq<usize>, e: Edit, q: Seq<usize>)
    requires
        !(e is RemoveSubtask),
        has_task(t, q),
    ensures
        has_task(edit_at(t, p, e), q),
    decreases p.len(),
{
    if p.len() == 0 {
        lemma_edit_node_keeps_paths(t, e, q);
    } else if p[0] < t.subtasks.len() && q.len() > 0 {
        let c = edit_at(t.subtasks[p[0] as int], p.drop_first(), e);
        if q[0] == p[0] {
            lemma_edit_keeps_paths(t.subtasks[p[0] as int], p.drop_first(), e, q.drop_first());
            if q.drop_first().len() > 0 {
                assert(task_at(uncompleted(c), q.drop_first()) == task_at(c, q.drop_first()));
            }
        }
    }
}

/// Adding a subtask to the task at `p` places it at the next position below
/// `p`.
pub proof fn lemma_add_places_task(t: TaskView, p: Seq<usize>, x: TaskView)
    requires
        has_task(t, p),
        task_at(t, p)->0.subtasks.len() <= usize::MAX,
    ensures
        task_at(edit_at(t, p, Edit::AddSubtask(x)), p.push(task_at(t, p)->0.subtasks.len() as usize)) == Some(x),
    decreases p.len(),
{
    let n = task_at(t, p)->0.subtasks.len();
    if p.len() == 0 {
        assert(p.push(n as usize).drop_first() =~= Seq::<usize>::empty());
        assert(p.push(n as usize)[0] == n as usize);
        let e = edit_at(t, p, Edit::AddSubtask(x));
        assert(e.subtasks[n as int] == x);
        assert(task_at(x, Seq::<usize>::empty()) == Some(x));
        assert(task_at(e, p.push(n as usize)) == task_at(x, p.push(n as usize).drop_first()));
    } else {
        let sub = t.subtasks[p[0] as int];
        let q = p.push(n as usize);
        assert(task_at(t, p) == task_at(sub, p.drop_first()));
        lemma_add_places_task(sub, p.drop_first(), x);
        assert(q.drop_first() =~= p.drop_first().push(n as usize));
        assert(q[0] == p[0]);
        let c = edit_at(sub, p.drop_first(), Edit::AddSubtask(x));
        let e = edit_at(t, p, Edit::AddSubtask(x));
        assert(e.subtasks[p[0] as int] == uncompleted(c));
        assert(task_at(uncompleted(c), q.drop_first()) == task_at(c, q.drop_first()));
        assert(task_at(e, q) == task_at(e.subtasks[q[0] as int], q.drop_first()));
        assert(task_at(e, q) == Some(x));
    }
}

/// An edit leaves a task where it was and as it was when the task is not
/// on the path to the edited one, and, for an edit other than adding a
/// subtask, not below it either.
pub proof fn lemma_edit_elsewhere(t: TaskView, p: Seq<usize>, e: Edit, q: Seq<usize>)
    requires
        !(e is RemoveSubtask),
        has_task(t, q),
        !q.is_prefix_of(p),
        e is AddSubtask || !p.is_prefix_of(q),
    ensures
        task_at(edit_at(t, p, e), q) == task_at(t, q),
    decreases p.len(),
{
    if p.len() == 0 {
        assert(q.len() > 0);
        match e {
            Edit::AddSubtask(x) => {
                assert(edit_node(t, e).subtasks[q[0] as int] == t.subtasks[q[0] as int]);
            },
            _ => {
                assert(p.is_prefix_of(q));
            },
        }
    } else if p[0] < t.subtasks.len() {
        assert(q.len() > 0);
        if q[0] == p[0] {
            let c = edit_at(t.subtasks[p[0] as int], p.drop_first(), e);
            assert(!q.drop_first().is_prefix_of(p.drop_first())) by {
                if q.drop_first().is_prefix_of(p.drop_first()) {
                    assert forall|i: int| 0 <= i < q.len() implies q[i] == p[i] by {
                        if i > 0 {
                            assert(q.drop_first()[i - 1] == p.drop_first()[i - 1]);
                        }
                    }
                    assert(q.is_prefix_of(p));
                }
            }
            assert(e is AddSubtask || !p.drop_first().is_prefix_of(q.drop_first())) by {
                if !(e is AddSubtask) && p.drop_first().is_prefix_of(q.drop_first()) {
                    assert forall|i: int| 0 <= i < p.len() implies p[i] == q[i] by {
                        if i > 0 {
                            assert(p.drop_first()[i - 1] == q.drop_first()[i - 1]);
                        }
                    }
                    assert(p.is_prefix_of(q));
                }
            }
            lemma_edit_elsewhere(t.subtasks[p[0] as int], p.drop_first(), e, q.drop_first());
            assert(q.drop_first().len() > 0);
            assert(task_at(uncompleted(c), q.drop_first()) == task_at(c, q.drop_first()));
        }
    }
}

/// Adding a subtask to the task at `p` gives it one subtask more.
pub proof fn lemma_add_grows_target(t: TaskView, p: Seq<usize>, x: TaskView)
    requires
        has_task(t, p),
    ensures
        task_at(edit_at(t, p, Edit::AddSubtask(x)), p) is Some,
        task_at(edit_at(t, p, Edit::AddSubtask(x)), p)->0.subtasks.len() == task_at(t, p)->0.subtasks.len() + 1,
    decreases p.len(),
{
    if p.len() > 0 {
        let sub = t.subtasks[p[0] as int];
        lemma_add_grows_target(sub, p.drop_first(), x);
        let c = edit_at(sub, p.drop_first(), Edit::AddSubtask(x));
        let e = edit_at(t, p, Edit::AddSubtask(x));
        assert(e.subtasks[p[0] as int] == uncompleted(c));
        if p.drop_first().len() > 0 {
            assert(task_at(uncompleted(c), p.drop_first()) == task_at(c, p.drop_first()));
        }
    }
}

/// An edit below the task at `q`, other than a removal, leaves it with as
/// many subtasks as before.
pub proof fn lemma_edit_below_keeps_count(t: TaskView, p: Seq<usize>, e: Edit, q: Seq<usize>)
    requires
        !(e is RemoveSubtask),
        has_task(t, q),
        q.is_prefix_of(p),
        q.len() < p.len(),
    ensures
        task_at(edit_at(t, p, e), q) is Some,
        task_at(edit_at(t, p, e), q)->0.subtasks.len() == task_at(t, q)->0.subtasks.len(),
    decreases q.len(),
{
    if q.len() > 0 {
        assert(q[0] == p[0]);
        let sub = t.subtasks[p[0] as int];
        assert(p.drop_first().len() > q.drop_first().len());
        assert(q.drop_first().is_prefix_of(p.drop_first())) by {
            assert forall|i: int| 0 <= i < q.drop_first().len() implies q.drop_first()[i] == p.drop_first()[i] by {
                assert(q[i + 1] == p[i + 1]);
            }
        }
        lemma_edit_below_keeps_count(sub, p.drop_first(), e, q.drop_first());
        let c = edit_at(sub, p.drop_first(), e);
        if q.drop_first().len() > 0 {
            assert(task_at(uncompleted(c), q.drop_first()) == task_at(c, q.drop_first()));
        }
    }
}

/// Following `p` and then `q` is following `p + q`.
pub proof fn lemma_task_at_concat(t: TaskView, p: Seq<usize>, q: Seq<usize>)
    ensures
        task_at(t, p + q) == match task_at(t, p) {
            Some(x) => task_at(x, q),
            None => None,
        },
    decreases p.len(),
{
    if p.len() == 0 {
        assert(p + q =~= q);
    } else {
        assert((p + q)[0] == p[0]);
        assert((p + q).drop_first() =~= p.drop_first() + q);
        if p[0] < t.subtasks.len() {
            lemma_task_at_concat(t.subtasks[p[0] as int], p.drop_first(), q);
        }
    }
}

/// An edit other than adding a subtask turns the task at `p` into its
/// edited form.
pub proof fn lemma_edit_at_target(t: TaskView, p: Seq<usize>, e: Edit)
    requires
        !(e is AddSubtask),
        has_task(t, p),
    ensures
        task_at(edit_at(t, p, e), p) == Some(edit_node(task_at(t, p)->0, e)),
    decreases p.len(),
{
    if p.len() > 0 {
        let sub = t.subtasks[p[0] as int];
        lemma_edit_at_target(sub, p.drop_first(), e);
        let n = edit_at(t, p, e);
        assert(n.subtasks[p[0] as int] == edit_at(sub, p.drop_first(), e));
    }
}

/// Every task of a tree marked completed is completed.
pub proof fn lemma_complete_all_completed(t: TaskView, q: Seq<usize>)
    requires
        has_task(complete_all(t), q),
    ensures
        task_at(complete_all(t), q)->0.completed,
    decreases q.len(),
{
    if q.len() > 0 {
        lemma_complete_all_seq(t.subtasks);
        lemma_complete_all_completed(t.subtasks[q[0] as int], q.drop_first());
    }
}

/// Adding a subtask at `p` leaves every task on the path to `p` below the
/// root, `p`'s own task included, marked not completed.
pub proof fn lemma_add_reopens_path(t: TaskView, p: Seq<usize>, x: TaskView, k: int)
    requires
        has_task(t, p),
        1 <= k <= p.len(),
    ensures
        task_at(edit_at(t, p, Edit::AddSubtask(x)), p.take(k)) is Some,
        !task_at(edit_at(t, p, Edit::AddSubtask(x)), p.take(k))->0.completed,
    decreases p.len(),
{
    let sub = t.subtasks[p[0] as int];
    let rest = p.drop_first();
    let c = edit_at(sub, rest, Edit::AddSubtask(x));
    let c2 = uncompleted(c);
    let e = edit_at(t, p, Edit::AddSubtask(x));
    assert(e.subtasks[p[0] as int] == c2);
    let q = p.take(k);
    assert(q[0] == p[0]);
    assert(task_at(t, p) == task_at(sub, rest));
    assert(task_at(e, q) == task_at(c2, q.drop_first()));
    if k == 1 {
        assert(q.drop_first() =~= Seq::<usize>::empty());
    } else {
        let r = rest.take(k - 1);
        assert(q.drop_first() =~= r);
        lemma_add_reopens_path(sub, rest, x, k - 1);
        assert(r[0] == rest[0]);
        assert(task_at(c2, r) == task_at(c, r));
    }
}

/// Two edits of the task at `p` that together leave that task as it was
/// leave the whole tree as it was.
pub proof fn lemma_edit_twice_restores(t: TaskView, p: Seq<usize>, e1: Edit, e2: Edit)
    requires
        !(e1 is AddSubtask),
        !(e2 is AddSubtask),
        has_task(t, p),
        edit_node(edit_node(task_at(t, p)->0, e1), e2) == task_at(t, p)->0,
    ensures
        edit_at(edit_at(t, p, e1), p, e2) == t,
    decreases p.len(),
{
    if p.len() > 0 {
        let i = p[0] as int;
        let sub = t.subtasks[i];
        assert(task_at(t, p) == task_at(sub, p.drop_first()));
        lemma_edit_twice_restores(sub, p.drop_first(), e1, e2);
        let once = edit_at(t, p, e1);
        assert(once.subtasks[i] == edit_at(sub, p.drop_first(), e1));
        let twice = edit_at(once, p, e2);
        assert(twice.subtasks =~= t.subtasks);
    }
}

/// Completing a leaf that is open and has no summary, then reopening it,
/// gives back the leaf.
pub proof fn lemma_complete_then_reopen_leaf(x: TaskView, summary: Option<Seq<char>>)
    requires
        x.subtasks.len() == 0,
        !x.completed,
        x.completion_summary is None,
    ensures
        edit_node(edit_node(x, Edit::Complete(summary)), Edit::Uncomplete) == x,
{
    assert(complete_all_seq(x.subtasks) =~= x.subtasks);
}

} // verus!
