use scatterbrain::levels::default_levels;
use scatterbrain::models::{parse_index, Context, Core, Plan, Task};

#[test]
fn test_task_creation() {
    let task = Task::with_level("Test task".to_string(), 2);

    assert_eq!(task.description(), "Test task");
    assert_eq!(task.level_index(), Some(2));
    assert!(!task.is_completed());
    assert!(task.subtasks().is_empty());
}

#[test]
fn test_task_default_level() {
    let task = Task::new("Test task".to_string());

    assert_eq!(task.level_index(), None);
}

#[test]
fn test_task_change_level() {
    let plan = Plan::new(default_levels(), None, None);
    let mut context = Context::new(plan);

    let (_, task_index) = context.add_task("Task 1".to_string(), 1, None).into_inner();
    context.change_level(task_index.clone(), 0).into_inner().unwrap();

    assert!(context.move_to(task_index.clone()).into_inner().is_some());
    let current = context.get_current_with_history().unwrap();
    let (_, task, _) = current;
    assert_eq!(task.level_index(), Some(0));
}

#[test]
fn test_plan_with_default_levels() {
    let plan = Plan::new(default_levels(), None, None);

    assert_eq!(plan.levels().len(), 4);
}

#[test]
fn test_context_get_current_with_history() {
    let plan = Plan::new(default_levels(), None, None);
    let mut context = Context::new(plan);

    let (_, task0_index) = context.add_task("Root Task".to_string(), 0, None).into_inner();
    assert!(context.move_to(task0_index.clone()).into_inner().is_some());

    let (_, task1_index) = context.add_task("Task 1".to_string(), 1, None).into_inner();
    assert!(context.move_to(task1_index.clone()).into_inner().is_some());

    let (_, task2_index) = context.add_task("Task 2".to_string(), 2, None).into_inner();
    assert!(context.move_to(task2_index.clone()).into_inner().is_some());

    let (level, task, history) = context.get_current_with_history().unwrap();

    assert_eq!(task.description(), "Task 2");
    let expected_level = task.level_index().unwrap_or(task2_index.len() - 1);
    assert_eq!(
        level.description(),
        default_levels()[expected_level].description()
    );

    assert_eq!(history.len(), 3);
}

#[test]
fn test_task_completion() {
    let plan = Plan::new(default_levels(), None, None);
    let mut context = Context::new(plan);

    let (_, task1_index) = context.add_task("Task 1".to_string(), 0, None).into_inner();
    let (_, task2_index) = context.add_task("Task 2".to_string(), 0, None).into_inner();

    context.complete_task(task1_index.clone(), None, true, None);

    assert!(context.move_to(task1_index.clone()).into_inner().is_some());
    let (_, task1, _) = context.get_current_with_history().unwrap();

    assert!(context.move_to(task2_index.clone()).into_inner().is_some());
    let (_, task2, _) = context.get_current_with_history().unwrap();

    assert!(task1.is_completed());
    assert!(!task2.is_completed());
}

#[test]
fn test_core_functionality() {
    let mut core = Core::new();
    let id = core.create_plan("Core plan".to_string(), None).unwrap();

    let (_, task_index) = core
        .add_task(&id, "Task via Core".to_string(), 0, None)
        .unwrap()
        .into_inner();

    core.move_to(&id, task_index.clone()).unwrap();

    let current = core.current(&id).unwrap().into_inner().unwrap();

    assert_eq!(current.task.description(), "Task via Core");
    assert!(!current.task.is_completed());

    assert!(core
        .complete_task(&id, task_index.clone(), None, true, None)
        .unwrap()
        .into_inner());

    let current = core.current(&id).unwrap().into_inner().unwrap();
    assert!(current.task.is_completed());

    let result = core.change_level(&id, task_index.clone(), 0).unwrap().into_inner();
    assert!(result.is_ok());

    let current = core.current(&id).unwrap().into_inner().unwrap();
    assert_eq!(current.task.level_index(), Some(0));
}

#[test]
fn test_level_validation() {
    let plan = Plan::new(default_levels(), None, None);
    let mut context = Context::new(plan);

    let (_, root_index) = context.add_task("Root Task".to_string(), 0, None).into_inner();

    let result = context.change_level(root_index.clone(), 0).into_inner();
    assert!(result.is_ok(), "Root task should accept level 0");

    assert!(context.move_to(root_index.clone()).into_inner().is_some());
    let (_, child_index) = context.add_task("Child Task".to_string(), 1, None).into_inner();

    let result = context.change_level(child_index.clone(), 0).into_inner();
    assert!(result.is_ok(), "Child should accept same level as parent");

    let result = context.change_level(child_index.clone(), 1).into_inner();
    assert!(
        result.is_err(),
        "Child should not accept level higher than parent"
    );

    let result = context.change_level(root_index.clone(), 1).into_inner();
    assert!(
        result.is_err(),
        "Root task with child at level 0 should not accept level change to 1"
    );
}

#[test]
fn test_parse_index() {
    let index = parse_index("0,1,2").unwrap();
    assert_eq!(index, vec![0, 1, 2]);

    let index = parse_index("0").unwrap();
    assert_eq!(index, vec![0]);

    let result = parse_index("a,b,c");
    assert!(result.is_err());
}
