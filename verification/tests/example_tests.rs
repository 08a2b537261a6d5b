use scatterbrain::example::create_example_tasks_for_plan;
use scatterbrain::models::{Core, Lease, PlanError};

#[test]
fn example_tree_is_built_below_the_cursor() {
    let mut core = Core::new();
    let id = core.create_plan("Example".to_string(), None).unwrap();
    assert!(create_example_tasks_for_plan(&mut core, &id).is_ok());

    let index = core.get_current_index(&id).unwrap().into_inner();
    assert_eq!(index, vec![0, 0, 1]);
    let current = core.current(&id).unwrap().into_inner().unwrap();
    assert_eq!(current.task.description(), "Set up State Management");
    assert!(!current.task.is_completed());
    assert_eq!(current.task.level_index(), Some(2));

    let plan = core.get_plan(&id).unwrap().into_inner();
    let app = &plan.root().subtasks()[0];
    assert_eq!(app.description(), "Build Web Application");
    let names: Vec<&str> = app.subtasks().iter().map(|t| t.description()).collect();
    assert_eq!(
        names,
        vec!["Implement Frontend", "Implement Backend", "Write Documentation", "Test Application"]
    );
    let auth = &app.subtasks()[0].subtasks()[0].subtasks()[0];
    assert_eq!(auth.description(), "Implement User Authentication UI");
    assert!(auth.is_completed());
    assert_eq!(auth.completion_summary(), Some(&"Auth UI done.".to_string()));
    let db = &app.subtasks()[1].subtasks()[0];
    let db_names: Vec<&str> = db.subtasks().iter().map(|t| t.description()).collect();
    assert_eq!(
        db_names,
        vec!["Create API Endpoints", "Implement Authentication Logic", "Create Data Models", "Product Model"]
    );
    assert!(db.subtasks()[0].is_completed());
    assert_eq!(db.subtasks()[3].subtasks().len(), 2);
}

#[test]
fn example_for_a_missing_plan_is_refused() {
    let mut core = Core::new();
    let r = create_example_tasks_for_plan(&mut core, &Lease::new(3));
    assert!(matches!(r, Err(PlanError::PlanNotFound(l)) if l == Lease::new(3)));
}

#[test]
fn every_created_plan_gets_its_own_id() {
    let mut core = Core::new();
    let mut seen = std::collections::HashSet::new();
    for _ in 0..256 {
        assert!(core.has_free_id());
        let id = core.create_plan("P".to_string(), None).unwrap();
        assert!(seen.insert(id.value()));
    }
    assert!(!core.has_free_id());
    let listed: Vec<u8> = core.list_plans().unwrap().iter().map(|l| l.value()).collect();
    assert_eq!(listed, (0..=255u8).collect::<Vec<u8>>());
    assert!(core.delete_plan(&Lease::new(17)).is_ok());
    assert!(matches!(core.delete_plan(&Lease::new(17)), Err(PlanError::PlanNotFound(_))));
    assert!(core.has_free_id());
}

#[test]
fn example_log_ends_with_the_last_steps() {
    let mut core = Core::new();
    let id = core.create_plan("Example".to_string(), None).unwrap();
    create_example_tasks_for_plan(&mut core, &id).unwrap();
    let history = core.distilled_context(&id).unwrap().context().transition_history;
    assert_eq!(history.len(), 20);
    let n = history.len();
    let last: Vec<(&str, Option<&str>)> = history[n - 3..]
        .iter()
        .map(|e| (e.action.as_str(), e.details.as_deref()))
        .collect();
    assert_eq!(
        last,
        vec![
            ("add_task", Some("Adding task: 'Test Application' with level 0 (notes: false) to parent index [0]")),
            ("uncomplete_parent", Some("Uncompleted parent task at index: [0]")),
            ("move_to", Some("Moving cursor to index: [0, 0, 1]")),
        ]
    );
}
