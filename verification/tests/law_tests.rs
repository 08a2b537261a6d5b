use scatterbrain::index::{parse_index, IntParseError};
use scatterbrain::levels::default_levels;
use scatterbrain::models::{Context, Core, Lease, Plan, PlanError};
use scatterbrain::report::{distilled_context_report, format_index};

fn fresh_context() -> Context {
    Context::new_with_seed(Plan::new(default_levels(), Some("Goal".to_string()), None), 7)
}

#[test]
fn lease_admits_completion_with_summary() {
    let mut ctx = fresh_context();
    let (_, idx) = ctx.add_task("T".to_string(), 0, None).into_inner();
    let (lease, suggestions) = ctx.generate_lease(idx.clone()).into_inner();
    assert!(suggestions.is_empty());
    let res = ctx
        .complete_task(idx.clone(), Some(lease), false, Some("done".to_string()))
        .into_inner();
    assert_eq!(res, Ok(true));
    let plan = ctx.get_plan().into_inner();
    let task = &plan.root().subtasks()[0];
    assert!(task.is_completed());
    assert_eq!(task.completion_summary(), Some(&"done".to_string()));
}

#[test]
fn wrong_lease_is_refused_and_changes_nothing() {
    let mut ctx = fresh_context();
    let (_, idx) = ctx.add_task("T".to_string(), 0, None).into_inner();
    let (lease, _) = ctx.generate_lease(idx.clone()).into_inner();
    let other = Lease::new(lease.value().wrapping_add(1));
    let res = ctx
        .complete_task(idx.clone(), Some(other), false, Some("done".to_string()))
        .into_inner();
    assert_eq!(
        res,
        Err(format!(
            "Lease mismatch for task [0]. Provided: Some({}), Required: {}",
            other.value(),
            lease.value()
        ))
    );
    let plan = ctx.get_plan().into_inner();
    assert!(!plan.root().subtasks()[0].is_completed());

    let res = ctx
        .complete_task(idx.clone(), None, false, Some("done".to_string()))
        .into_inner();
    assert_eq!(
        res,
        Err("Task at index [0] requires a lease to be completed.".to_string())
    );

    let res = ctx.complete_task(idx.clone(), Some(lease), false, None).into_inner();
    assert_eq!(
        res,
        Err("Task at index [0] requires a summary for non-forced completion.".to_string())
    );
}

#[test]
fn root_lease_comes_with_verification_suggestions() {
    let mut ctx = fresh_context();
    let (_, suggestions) = ctx.generate_lease(vec![]).into_inner();
    assert!(!suggestions.is_empty());
}

#[test]
fn notes_read_back_as_written() {
    let mut ctx = fresh_context();
    let (_, idx) = ctx.add_task("T".to_string(), 0, None).into_inner();
    assert_eq!(ctx.get_task_notes(idx.clone()).into_inner(), Ok(None));
    assert_eq!(
        ctx.set_task_notes(idx.clone(), "line one\nline two".to_string()).into_inner(),
        Ok(())
    );
    assert_eq!(
        ctx.get_task_notes(idx.clone()).into_inner(),
        Ok(Some("line one\nline two".to_string()))
    );
    assert_eq!(ctx.delete_task_notes(idx.clone()).into_inner(), Ok(()));
    assert_eq!(ctx.get_task_notes(idx.clone()).into_inner(), Ok(None));
    assert_eq!(
        ctx.get_task_notes(vec![4]).into_inner(),
        Err("Task not found at index: [4]".to_string())
    );
}

#[test]
fn move_reaches_existing_tasks_only() {
    let mut ctx = fresh_context();
    let (_, idx) = ctx.add_task("First".to_string(), 0, None).into_inner();
    assert_eq!(ctx.move_to(idx.clone()).into_inner(), Some("First".to_string()));
    assert_eq!(ctx.get_current_index().into_inner(), vec![0]);
    assert_eq!(ctx.move_to(vec![5]).into_inner(), None);
    assert_eq!(ctx.get_current_index().into_inner(), vec![0]);
    assert_eq!(ctx.move_to(vec![]).into_inner(), Some("root".to_string()));
    assert_eq!(ctx.get_current_index().into_inner(), Vec::<usize>::new());
}

#[test]
fn completion_covers_the_subtree() {
    let mut ctx = fresh_context();
    let (_, parent) = ctx.add_task("Parent".to_string(), 0, None).into_inner();
    ctx.move_to(parent.clone());
    let (_, child) = ctx.add_task("Child".to_string(), 1, None).into_inner();
    ctx.move_to(child.clone());
    ctx.add_task("Grandchild".to_string(), 2, None);
    let res = ctx.complete_task(parent.clone(), None, true, None).into_inner();
    assert_eq!(res, Ok(true));
    let plan = ctx.get_plan().into_inner();
    let p = &plan.root().subtasks()[0];
    assert!(p.is_completed());
    assert!(p.subtasks()[0].is_completed());
    assert!(p.subtasks()[0].subtasks()[0].is_completed());
}

#[test]
fn uncomplete_reopens_a_completed_task() {
    let mut ctx = fresh_context();
    let (_, idx) = ctx.add_task("T".to_string(), 0, None).into_inner();
    ctx.complete_task(idx.clone(), None, false, Some("sum".to_string()));
    assert_eq!(ctx.uncomplete_task(idx.clone()).into_inner(), Ok(true));
    let plan = ctx.get_plan().into_inner();
    let t = &plan.root().subtasks()[0];
    assert!(!t.is_completed());
    assert_eq!(t.completion_summary(), None);
    assert_eq!(
        ctx.uncomplete_task(idx.clone()).into_inner(),
        Err("Task is already incomplete".to_string())
    );
    assert_eq!(
        ctx.uncomplete_task(vec![9]).into_inner(),
        Err("Task not found".to_string())
    );
}

#[test]
fn added_task_is_found_at_its_index_and_reopens_its_parents() {
    let mut ctx = fresh_context();
    let (_, parent) = ctx.add_task("Parent".to_string(), 0, None).into_inner();
    ctx.complete_task(parent.clone(), None, true, None);
    ctx.move_to(parent.clone());
    let (task, idx) = ctx
        .add_task("Child".to_string(), 1, Some("n".to_string()))
        .into_inner();
    assert_eq!(idx, vec![0, 0]);
    assert_eq!(task.description(), "Child");
    assert_eq!(task.notes(), Some("n"));
    let plan = ctx.get_plan().into_inner();
    let p = &plan.root().subtasks()[0];
    assert!(!p.is_completed());
    assert_eq!(p.subtasks()[0].description(), "Child");
    assert_eq!(p.subtasks()[0].level_index(), Some(1));
}

#[test]
fn log_keeps_the_newest_twenty_entries() {
    let mut ctx = fresh_context();
    for i in 0..25 {
        ctx.add_task(format!("Task {i}"), 0, None);
    }
    let d = ctx.distilled_context().context();
    assert_eq!(d.transition_history.len(), 20);
    let last = d.transition_history.last().unwrap();
    assert_eq!(last.action, "add_task");
    assert_eq!(
        last.details,
        Some("Adding task: 'Task 24' with level 0 (notes: false) to parent index []".to_string())
    );
    let first = &d.transition_history[0];
    assert_eq!(
        first.details,
        Some("Adding task: 'Task 5' with level 0 (notes: false) to parent index []".to_string())
    );
}

#[test]
fn index_paths_read_back() {
    for v in [vec![0usize], vec![1, 2, 3], vec![10, 255, 4096]] {
        let text = v.iter().map(|i| i.to_string()).collect::<Vec<_>>().join(",");
        assert_eq!(parse_index(&text), Ok(v.clone()));
    }
    assert_eq!(parse_index(" 1 , 2 "), Ok(vec![1, 2]));
    assert_eq!(parse_index("+3"), Ok(vec![3]));
    assert_eq!(parse_index(""), Err(IntParseError::Empty));
    assert_eq!(parse_index("1,,2"), Err(IntParseError::Empty));
    assert_eq!(parse_index("-1"), Err(IntParseError::InvalidDigit));
    assert_eq!(parse_index("+"), Err(IntParseError::InvalidDigit));
    assert_eq!(parse_index("1.2"), Err(IntParseError::InvalidDigit));
    assert_eq!(
        parse_index("99999999999999999999999"),
        Err(IntParseError::PosOverflow)
    );
    assert_eq!(format_index(&[0, 1, 2]), "0.1.2");
}

#[test]
fn tree_marks_the_task_under_the_cursor() {
    let mut ctx = fresh_context();
    let (_, a) = ctx.add_task("A".to_string(), 0, None).into_inner();
    ctx.move_to(a.clone());
    ctx.add_task("A0".to_string(), 1, None);
    let (_, a1) = ctx.add_task("A1".to_string(), 1, None).into_inner();
    ctx.move_to(a1.clone());
    let d = ctx.distilled_context();
    let tree = &d.distilled_context.task_tree;
    assert!(tree[0].children[1].is_current);
    assert_eq!(tree[0].children[1].index, vec![0, 1]);
    let text = distilled_context_report(&d);
    assert!(text.contains("Current Task: [0.1] A1 (level: 1)\n"));
}

#[test]
fn removed_task_is_answered_and_siblings_move_up() {
    let mut ctx = fresh_context();
    ctx.add_task("A".to_string(), 0, None);
    ctx.add_task("B".to_string(), 0, None);
    ctx.add_task("C".to_string(), 0, None);
    let removed = ctx.remove_task(vec![1]).into_inner().unwrap();
    assert_eq!(removed.description(), "B");
    let plan = ctx.get_plan().into_inner();
    let names: Vec<&str> = plan.root().subtasks().iter().map(|t| t.description()).collect();
    assert_eq!(names, vec!["A", "C"]);
}

#[test]
fn created_plan_is_found_and_deleted_plan_is_gone() {
    let mut core = Core::new();
    let first = core.create_plan("First".to_string(), None).unwrap();
    let second = core.create_plan("Second".to_string(), Some("n".to_string())).unwrap();
    assert_ne!(first, second);
    let plan = core.get_plan(&second).unwrap().into_inner();
    assert_eq!(plan.goal_ref(), &Some("Second".to_string()));
    assert_eq!(plan.notes_ref(), &Some("n".to_string()));
    assert!(plan.root().subtasks().is_empty());
    core.delete_plan(&second).unwrap();
    assert!(matches!(core.get_plan(&second), Err(PlanError::PlanNotFound(l)) if l == second));
    assert!(matches!(core.delete_plan(&second), Err(PlanError::PlanNotFound(l)) if l == second));
    let kept = core.get_plan(&first).unwrap().into_inner();
    assert_eq!(kept.goal_ref(), &Some("First".to_string()));
}

#[test]
fn adding_below_a_completed_task_reopens_it() {
    let mut ctx = fresh_context();
    let (_, a) = ctx.add_task("A".to_string(), 0, None).into_inner();
    ctx.move_to(a.clone());
    let (_, b) = ctx.add_task("B".to_string(), 1, None).into_inner();
    assert_eq!(ctx.complete_task(a.clone(), None, true, None).into_inner(), Ok(true));
    ctx.move_to(b.clone());
    ctx.add_task("C".to_string(), 2, None);
    let plan = ctx.get_plan().into_inner();
    let a_task = &plan.root().subtasks()[0];
    assert!(!a_task.is_completed());
    assert!(!a_task.subtasks()[0].is_completed());
    assert_eq!(a_task.subtasks()[0].subtasks()[0].description(), "C");
}

#[test]
fn completing_then_reopening_a_leaf_gives_it_back() {
    let mut ctx = fresh_context();
    let (_, idx) = ctx.add_task("Leaf".to_string(), 0, Some("n".to_string())).into_inner();
    let before = ctx.get_plan().into_inner();
    assert_eq!(ctx.complete_task(idx.clone(), None, true, Some("s".to_string())).into_inner(), Ok(true));
    assert_eq!(ctx.uncomplete_task(idx.clone()).into_inner(), Ok(true));
    let after = ctx.get_plan().into_inner();
    let (b, a) = (&before.root().subtasks()[0], &after.root().subtasks()[0]);
    assert_eq!(a.description(), b.description());
    assert_eq!(a.is_completed(), b.is_completed());
    assert_eq!(a.completion_summary(), b.completion_summary());
    assert_eq!(a.notes(), b.notes());
    assert_eq!(a.level_index(), b.level_index());
}

#[test]
fn log_keeps_the_newest_entries_across_kinds_of_operation() {
    let mut ctx = fresh_context();
    for _ in 0..25 {
        ctx.move_to(vec![]);
    }
    ctx.add_task("A".to_string(), 0, None);
    let history = ctx.distilled_context().context().transition_history;
    assert_eq!(history.len(), 20);
    assert!(history[..19].iter().all(|e| e.action == "move_to"));
    assert_eq!(history[19].action, "add_task");
}

#[test]
fn blank_index_pieces_are_refused() {
    assert!(parse_index("").is_err());
    assert!(parse_index("1,,2").is_err());
    assert!(parse_index(",1").is_err());
    assert!(parse_index("1,").is_err());
    assert!(parse_index("1, ,2").is_err());
    assert_eq!(parse_index(" 1 , 2"), Ok(vec![1, 2]));
}

#[test]
fn task_tree_nodes_follow_the_cursor() {
    let mut ctx = fresh_context();
    let (_, a) = ctx.add_task("A".to_string(), 0, None).into_inner();
    ctx.add_task("B".to_string(), 0, None);
    ctx.move_to(a.clone());
    ctx.add_task("A0".to_string(), 1, Some("note".to_string()));
    let tree = ctx.build_task_tree();
    assert_eq!(tree.len(), 2);
    assert_eq!(tree[0].index, vec![0]);
    assert!(tree[0].is_current);
    assert_eq!(tree[0].children.len(), 1);
    assert_eq!(tree[0].children[0].index, vec![0, 0]);
    assert_eq!(tree[0].children[0].notes, Some("note".to_string()));
    assert_eq!(tree[1].index, vec![1]);
    assert!(!tree[1].is_current);
    assert!(tree[1].children.is_empty());
}

#[test]
fn plan_created_at_an_id_is_found_there() {
    let mut core = Core::new();
    let id = Lease::new(0);
    core.create_plan_at(&id, "Example plan".to_string(), None).unwrap();
    let plan = core.get_plan(&id).unwrap().into_inner();
    assert_eq!(plan.goal_ref(), &Some("Example plan".to_string()));
    assert!(matches!(
        core.create_plan_at(&id, "Other".to_string(), None),
        Err(PlanError::Internal(m)) if m == "Plan 0 already exists"
    ));
}
