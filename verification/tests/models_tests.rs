use scatterbrain::models::{Context, Core, Lease, Level, Plan, PlanError, TaskTreeNode};

fn setup_context() -> Context {
    let levels = vec![
        Level::new(
            "L0".to_string(),
            vec!["Q0?".to_string()],
            "Level 0 Focus".to_string(),
        ),
        Level::new(
            "L1".to_string(),
            vec!["Q1?".to_string()],
            "Level 1 Focus".to_string(),
        ),
        Level::new(
            "L2".to_string(),
            vec!["Q2?".to_string()],
            "Level 2 Focus".to_string(),
        ),
    ];
    let plan = Plan::new(levels, Some("Test Goal".to_string()), None);
    Context::new_with_seed(plan, 0)
}

#[test]
fn test_build_task_tree_empty() {
    let context = setup_context();
    let tree = context.build_task_tree();
    assert!(tree.is_empty(), "Tree should be empty for a new plan");
}

#[test]
fn test_build_task_tree_single_task() {
    let mut context = setup_context();
    let (_, task_idx) = context.add_task("Task 0".to_string(), 0, None).into_inner();
    context.move_to(task_idx.clone()).inner();

    let tree = context.build_task_tree();

    assert_eq!(tree.len(), 1, "Tree should have one root node");
    assert_eq!(
        tree[0],
        TaskTreeNode {
            description: "Task 0".to_string(),
            index: vec![0],
            completed: false,
            is_current: true,
            completion_summary: None,
            notes: None,
            children: vec![],
        }
    );
}

#[test]
fn test_build_task_tree_nested_tasks_cursor_at_root() {
    let mut context = setup_context();
    context.add_task("Task 0".to_string(), 0, None).into_inner();
    context.move_to(vec![0]).inner();
    context.add_task("Task 0.0".to_string(), 1, None).into_inner();
    context.move_to(vec![]).inner();

    let tree = context.build_task_tree();

    assert_eq!(tree.len(), 1, "Tree should have one root node (Task 0)");
    assert_eq!(tree[0].description, "Task 0");
    assert_eq!(tree[0].index, vec![0]);
    assert_eq!(tree[0].is_current, false);
    assert_eq!(
        tree[0].children.len(),
        0,
        "Children of non-path nodes should not be included when cursor is at root"
    );
}

#[test]
fn test_build_task_tree_nested_tasks_cursor_at_parent() {
    let mut context = setup_context();
    let (_, idx0) = context.add_task("Task 0".to_string(), 0, None).into_inner();
    context.move_to(idx0.clone()).inner();
    let (_, idx00) = context.add_task("Task 0.0".to_string(), 1, None).into_inner();
    context.add_task("Task 0.1".to_string(), 1, None).into_inner();
    context.move_to(idx0.clone()).inner();

    let tree = context.build_task_tree();

    assert_eq!(tree.len(), 1, "Tree should have one root node (Task 0)");
    assert_eq!(tree[0].description, "Task 0");
    assert_eq!(tree[0].index, idx0);
    assert_eq!(tree[0].is_current, true);
    assert_eq!(
        tree[0].children.len(),
        2,
        "Children of current node should be included"
    );

    assert_eq!(tree[0].children[0].description, "Task 0.0");
    assert_eq!(tree[0].children[0].index, idx00);
    assert_eq!(tree[0].children[0].is_current, false);
    assert_eq!(tree[0].children[0].children.len(), 0);

    assert_eq!(tree[0].children[1].description, "Task 0.1");
    assert_eq!(tree[0].children[1].index, vec![0, 1]);
    assert_eq!(tree[0].children[1].is_current, false);
    assert_eq!(tree[0].children[1].children.len(), 0);
}

#[test]
fn test_build_task_tree_nested_tasks_cursor_at_child() {
    let mut context = setup_context();
    let (_, idx0) = context.add_task("Task 0".to_string(), 0, None).into_inner();
    context.move_to(idx0.clone()).inner();
    let (_, idx00) = context.add_task("Task 0.0".to_string(), 1, None).into_inner();
    context.move_to(idx00.clone()).inner();
    context.add_task("Task 0.0.0".to_string(), 2, None).into_inner();
    context.move_to(idx0.clone()).inner();
    context.add_task("Task 0.1".to_string(), 1, None).into_inner();
    context.move_to(idx00.clone()).inner();

    let tree = context.build_task_tree();

    assert_eq!(tree.len(), 1, "Tree should have one root node (Task 0)");
    let node0 = &tree[0];
    assert_eq!(node0.description, "Task 0");
    assert_eq!(node0.index, idx0);
    assert_eq!(node0.is_current, false);
    assert_eq!(
        node0.children.len(),
        2,
        "Parent of current node should show siblings"
    );

    let node00 = &node0.children[0];
    assert_eq!(node00.description, "Task 0.0");
    assert_eq!(node00.index, idx00);
    assert_eq!(node00.is_current, true);
    assert_eq!(
        node00.children.len(),
        1,
        "Current node should show its children"
    );
    assert_eq!(node00.children[0].description, "Task 0.0.0");
    assert_eq!(node00.children[0].index, vec![0, 0, 0]);
    assert_eq!(node00.children[0].is_current, false);
    assert_eq!(node00.children[0].children.len(), 0);
    assert_eq!(node00.notes, None);

    let node01 = &node0.children[1];
    assert_eq!(node01.description, "Task 0.1");
    assert_eq!(node01.index, vec![0, 1]);
    assert_eq!(node01.is_current, false);
    assert_eq!(
        node01.children.len(),
        0,
        "Siblings of current node shouldn't show their children"
    );
}

#[test]
fn test_build_task_tree_completed_task() {
    let mut context = setup_context();
    let (_, idx0) = context.add_task("Task 0".to_string(), 0, None).into_inner();
    context.move_to(idx0.clone()).inner();
    context
        .complete_task(idx0.clone(), None, true, Some("Done".to_string()))
        .inner();

    let tree = context.build_task_tree();

    assert_eq!(tree.len(), 1);
    assert_eq!(tree[0].description, "Task 0");
    assert_eq!(tree[0].index, vec![0]);
    assert_eq!(tree[0].completed, true);
    assert_eq!(tree[0].is_current, true);
    assert_eq!(tree[0].completion_summary, Some("Done".to_string()));
    assert_eq!(tree[0].children.len(), 0);
}

#[test]
fn test_build_task_tree_multiple_roots_cursor_set() {
    let mut context = setup_context();
    let (_, idx0) = context.add_task("Task 0".to_string(), 0, None).into_inner();
    context.move_to(idx0).inner();
    let (_, idx00) = context.add_task("Task 0.0".to_string(), 1, None).into_inner();
    context.move_to(vec![]).inner();

    let (_, idx1) = context.add_task("Task 1".to_string(), 0, None).into_inner();
    context.move_to(idx1.clone()).inner();
    context.add_task("Task 1.0".to_string(), 1, None).into_inner();

    context.move_to(idx00.clone()).inner();

    let tree = context.build_task_tree();

    assert_eq!(tree.len(), 2, "Should show both root tasks");

    let node0 = &tree[0];
    assert_eq!(node0.description, "Task 0");
    assert_eq!(node0.is_current, false);
    assert_eq!(
        node0.children.len(),
        1,
        "Path to current should show children"
    );
    assert_eq!(node0.children[0].description, "Task 0.0");
    assert_eq!(node0.children[0].is_current, true);
    assert_eq!(node0.children[0].children.len(), 0);

    let node1 = &tree[1];
    assert_eq!(node1.description, "Task 1");
    assert_eq!(node1.is_current, false);
    assert_eq!(
        node1.children.len(),
        0,
        "Nodes not on path to current shouldn't show children"
    );
}

#[test]
fn test_build_task_tree_path_expansion() {
    let mut context = setup_context();

    let (_, idx_root_a) = context.add_task("RootA".to_string(), 0, None).into_inner();
    context.move_to(idx_root_a.clone()).inner();
    let (_, idx_child_a1) = context.add_task("ChildA1".to_string(), 1, None).into_inner();
    let (_, idx_child_a2) = context.add_task("ChildA2".to_string(), 1, None).into_inner();

    context.move_to(idx_child_a1.clone()).inner();
    let (_, idx_grandchild_a1a) = context
        .add_task("GrandchildA1a".to_string(), 2, None)
        .into_inner();
    context
        .add_task("GrandchildA1b".to_string(), 2, None)
        .into_inner();

    context.move_to(idx_child_a2.clone()).inner();
    context
        .add_task("GrandchildA2a".to_string(), 2, None)
        .into_inner();

    context.move_to(vec![]).inner();
    let (_, idx_root_b) = context.add_task("RootB".to_string(), 0, None).into_inner();
    context.move_to(idx_root_b.clone()).inner();
    context.add_task("ChildB1".to_string(), 1, None).into_inner();

    context.move_to(idx_grandchild_a1a.clone()).inner();

    let tree = context.build_task_tree();

    assert_eq!(tree.len(), 2, "Should have RootA and RootB");
    let node_root_a = &tree[0];
    let node_root_b = &tree[1];
    assert_eq!(node_root_a.description, "RootA");
    assert_eq!(node_root_b.description, "RootB");
    assert!(!node_root_a.is_current);
    assert!(!node_root_b.is_current);

    assert_eq!(
        node_root_b.children.len(),
        0,
        "RootB children should not be expanded"
    );

    assert_eq!(
        node_root_a.children.len(),
        2,
        "RootA should have 2 children"
    );
    let node_child_a1 = &node_root_a.children[0];
    let node_child_a2 = &node_root_a.children[1];
    assert_eq!(node_child_a1.description, "ChildA1");
    assert_eq!(node_child_a2.description, "ChildA2");
    assert!(!node_child_a1.is_current);
    assert!(!node_child_a2.is_current);

    assert_eq!(
        node_child_a2.children.len(),
        0,
        "ChildA2 children should not be expanded"
    );

    assert_eq!(
        node_child_a1.children.len(),
        2,
        "ChildA1 should have 2 children"
    );
    let node_grandchild_a1a = &node_child_a1.children[0];
    let node_grandchild_a1b = &node_child_a1.children[1];
    assert_eq!(node_grandchild_a1a.description, "GrandchildA1a");
    assert_eq!(node_grandchild_a1b.description, "GrandchildA1b");

    assert!(node_grandchild_a1a.is_current);
    assert!(!node_grandchild_a1b.is_current);

    assert_eq!(
        node_grandchild_a1a.children.len(),
        0,
        "GrandchildA1a children should be empty"
    );
    assert_eq!(
        node_grandchild_a1b.children.len(),
        0,
        "GrandchildA1b children should be empty"
    );
    assert_eq!(node_grandchild_a1a.notes, None);
    assert_eq!(node_grandchild_a1b.notes, None);
}

#[test]
fn test_core_notes_crud() {
    let mut core = Core::new();
    let plan_id = core.create_plan("Test Plan".to_string(), None).unwrap();

    let (_, task_index) = core
        .add_task(&plan_id, "Task with notes".to_string(), 0, None)
        .unwrap()
        .into_inner();
    assert_eq!(task_index, vec![0]);

    let notes_response = core.get_task_notes(&plan_id, task_index.clone()).unwrap();
    assert_eq!(notes_response.into_inner().unwrap(), None);

    let set_response = core
        .set_task_notes(
            &plan_id,
            task_index.clone(),
            "These are my notes".to_string(),
        )
        .unwrap();
    assert!(set_response.into_inner().is_ok());

    let notes_response = core.get_task_notes(&plan_id, task_index.clone()).unwrap();
    assert_eq!(
        notes_response.into_inner().unwrap(),
        Some("These are my notes".to_string())
    );

    let distilled_resp = core.distilled_context(&plan_id).unwrap();
    let distilled = distilled_resp.context();
    assert_eq!(distilled.task_tree.len(), 1);
    assert_eq!(
        distilled.task_tree[0].notes,
        Some("These are my notes".to_string())
    );

    let delete_response = core
        .delete_task_notes(&plan_id, task_index.clone())
        .unwrap();
    assert!(delete_response.into_inner().is_ok());

    let notes_response = core.get_task_notes(&plan_id, task_index.clone()).unwrap();
    assert_eq!(notes_response.into_inner().unwrap(), None);

    let (_, task_index_2) = core
        .add_task(
            &plan_id,
            "Task initially with notes".to_string(),
            0,
            Some("Initial notes".to_string()),
        )
        .unwrap()
        .into_inner();
    assert_eq!(task_index_2, vec![1]);
    let notes_response_2 = core.get_task_notes(&plan_id, task_index_2.clone()).unwrap();
    assert_eq!(
        notes_response_2.into_inner().unwrap(),
        Some("Initial notes".to_string())
    );

    let bad_index = vec![99];
    let get_err = core
        .get_task_notes(&plan_id, bad_index.clone())
        .unwrap()
        .into_inner();
    assert!(get_err.is_err());
    assert!(get_err.unwrap_err().contains("Task not found"));

    let set_err = core
        .set_task_notes(&plan_id, bad_index.clone(), "fail".to_string())
        .unwrap()
        .into_inner();
    assert!(set_err.is_err());
    assert!(set_err.unwrap_err().contains("Task not found"));

    let delete_err = core
        .delete_task_notes(&plan_id, bad_index.clone())
        .unwrap()
        .into_inner();
    assert!(delete_err.is_err());
    assert!(delete_err.unwrap_err().contains("Task not found"));

    let bad_plan_id = if plan_id.value() == 99 {
        Lease::new(98)
    } else {
        Lease::new(99)
    };
    let get_plan_err = core.get_task_notes(&bad_plan_id, task_index.clone());
    assert!(matches!(get_plan_err, Err(PlanError::PlanNotFound(_))));
}

#[test]
fn plan_context_runs_closure_on_one_plan() {
    let mut core = Core::new();
    let id = core.create_plan("Goal".to_string(), None).unwrap();
    let index = core
        .with_plan_context(&id, |ctx: &mut Context| {
            ctx.add_task("Inside".to_string(), 0, None).into_inner().1
        })
        .unwrap();
    assert_eq!(index, vec![0]);
    let plan = core.get_plan(&id).unwrap().into_inner();
    assert_eq!(plan.root().subtasks()[0].description(), "Inside");
    let other = Lease::new(id.value().wrapping_add(1));
    assert!(matches!(
        core.with_plan_context(&other, |ctx: &mut Context| ctx.get_current_level()),
        Err(PlanError::PlanNotFound(l)) if l == other
    ));
}

#[test]
fn refused_completion_is_answered_false_with_its_reason() {
    let mut core = Core::new();
    let id = core.create_plan("Goal".to_string(), None).unwrap();
    core.add_task(&id, "T".to_string(), 0, None).unwrap();
    let outcome = core.complete_task_outcome(&id, vec![0], None, false, None).unwrap();
    let (answer, reason) = scatterbrain::plans::completion_answer(outcome);
    assert!(!answer.res);
    assert_eq!(reason, Some("Task at index [0] requires a summary for non-forced completion.".to_string()));
    let done = core.complete_task(&id, vec![0], None, false, Some("ok".to_string())).unwrap();
    assert!(done.res);
}
