use scatterbrain::index::parse_u8;
use scatterbrain::index::IntParseError;
use scatterbrain::levels::default_levels;
use scatterbrain::models::{Context, Core, Lease, Plan, Task};
use scatterbrain::report::{
    current_report, distilled_context_report, get_plan_id, plan_response_report, response_report, task_report, task_tree_report,
};

fn blue_or_plain(text: &str, goal: &str) -> bool {
    text.contains(&format!("Goal: {goal}\n")) || text.contains(&format!("Goal: \u{1b}[94m{goal}\u{1b}[0m\n"))
}

#[test]
fn task_lines_show_index_level_notes_and_subtasks() {
    let child = Task::new("Child".to_string());
    let task = Task::from_parts("T".to_string(), false, vec![child], Some(2), None, Some("a\nb".to_string()));
    assert_eq!(
        task_report(&task, vec![0, 1]),
        "    (index: [0.1]) (level: 2), T (completed: false)\n      a\n      b\n      (index: [0.1.0]) (level: unknown), Child (completed: false)\n"
    );
}

#[test]
fn focused_tree_lines_mark_current_and_completed() {
    let mut ctx = Context::new_with_seed(Plan::new(default_levels(), None, None), 2);
    let (_, a) = ctx.add_task("A".to_string(), 0, Some("x\ny".to_string())).into_inner();
    ctx.move_to(a.clone());
    let (_, b) = ctx.add_task("B".to_string(), 1, None).into_inner();
    ctx.complete_task(b.clone(), None, true, None);
    let tree = ctx.build_task_tree();
    assert_eq!(
        task_tree_report(&tree, 0),
        "→ [ ] 0 A\n  > x\n  > y\n    [✓] 0.0 B\n"
    );
}

#[test]
fn plan_id_comes_from_flag_then_environment() {
    assert_eq!(get_plan_id(Some(5), Some("9")), Ok(Lease::new(5)));
    assert_eq!(get_plan_id(None, Some("42")), Ok(Lease::new(42)));
    assert_eq!(
        get_plan_id(None, None),
        Err("Error: Plan ID not specified. Use the --plan=<id> flag or set the SCATTERBRAIN_PLAN_ID environment variable (e.g., export SCATTERBRAIN_PLAN_ID=<id>). Use 'scatterbrain plan list' to see available IDs.".to_string())
    );
    assert_eq!(
        get_plan_id(None, Some("300")),
        Err("Invalid value in SCATTERBRAIN_PLAN_ID: '300'. Must be a number between 0 and 255. Error: number too large to fit in target type".to_string())
    );
    assert_eq!(
        get_plan_id(None, Some(" 4")),
        Err("Invalid value in SCATTERBRAIN_PLAN_ID: ' 4'. Must be a number between 0 and 255. Error: invalid digit found in string".to_string())
    );
    assert_eq!(parse_u8("255"), Ok(255));
    assert_eq!(parse_u8("+7"), Ok(7));
    assert_eq!(parse_u8("256"), Err(IntParseError::PosOverflow));
    assert_eq!(parse_u8(""), Err(IntParseError::Empty));
}

#[test]
fn distilled_context_text() {
    let mut ctx = Context::new_with_seed(Plan::new(default_levels(), Some("Build it".to_string()), None), 2);
    let (_, a) = ctx.add_task("A".to_string(), 0, None).into_inner();
    ctx.move_to(a.clone());
    let d = ctx.distilled_context();
    let text = distilled_context_report(&d);
    assert!(text.starts_with("\n--- Current Context ---\n"));
    assert!(blue_or_plain(&text, "Build it"));
    assert!(text.contains("Current Task: [0] A (level: 0)\n"));
    let levels = default_levels();
    assert!(text.contains(&format!(
        "CURRENT LEVEL DETAILS (Level 0: {}):\n  Focus: {}\n",
        levels[0].description(),
        levels[0].abstraction_focus()
    )));
    assert!(text.contains("\n\nTASK TREE (slim, see `plan show` for full tree):\n→ [ ] 0 A\n\n\n"));
    let labels = levels
        .iter()
        .enumerate()
        .map(|(i, l)| format!("{}:{}", i, l.description()))
        .collect::<Vec<_>>()
        .join(" | ");
    assert!(text.ends_with(&format!(
        "AVAILABLE LEVELS (more level information availabe via the `plan` command):\n  {labels}\n\n\n"
    )));
}

#[test]
fn long_plan_notes_are_cut() {
    let long = "x".repeat(500);
    let ctx = Context::new_with_seed(Plan::new(default_levels(), None, Some(long)), 2);
    let text = distilled_context_report(&ctx.distilled_context());
    assert!(text.contains(&format!(
        "Plan Notes: {}... (use 'plan show' for full notes)\n",
        "x".repeat(400)
    )));
    let wide = "é".repeat(150);
    let ctx = Context::new_with_seed(Plan::new(default_levels(), None, Some(wide.clone())), 2);
    let text = distilled_context_report(&ctx.distilled_context());
    assert!(text.contains(&format!("Plan Notes: {wide}\n")));
    assert!(text.contains("No current task selected\n"));
}

#[test]
fn plan_text_lists_tasks_and_levels() {
    let mut ctx = Context::new_with_seed(Plan::new(default_levels(), Some("G".to_string()), Some("N".to_string())), 2);
    ctx.add_task("A".to_string(), 0, None);
    let resp = ctx.get_plan();
    let text = plan_response_report(&resp);
    assert!(text.starts_with("Scatterbrain Plan:\n"));
    assert!(blue_or_plain(&text, "G"));
    assert!(text.contains("Notes:\nN\n---\nLevels: 4\n\nRoot Tasks:\n  (index: [0]) (level: 0), A (completed: false)\n\nAvailable Levels:\n  0. Abstraction level: "));
    assert!(text.contains("\n--- Current Context ---\n"));
}

#[test]
fn response_footer_shows_suggestions_and_reminder() {
    let ctx = Context::new_with_seed(Plan::new(default_levels(), None, None), 2);
    let mut resp = ctx.distilled_context();
    resp.suggested_followups = vec!["Do X".to_string()];
    resp.reminder = Some("Check".to_string());
    let text = response_report(&resp);
    assert!(text.starts_with("\nSuggested next steps:\n  • Do X\n\nReminder: Check\n\n--- Current Context ---\n"));
    assert!(text.ends_with("Suggested next steps:\n  • Do X\n\n\nReminder: Check\n\n\n"));
}

#[test]
fn current_task_text() {
    let mut core = Core::new();
    let id = core.create_plan("G".to_string(), None).unwrap();
    let none = core.current(&id).unwrap().into_inner();
    assert_eq!(
        current_report(&id, none.as_ref()),
        "No current task selected in this plan. Use 'move' to select a task.\n"
    );
    let (_, a) = core.add_task(&id, "A".to_string(), 0, None).unwrap().into_inner();
    core.move_to(&id, a.clone()).unwrap();
    core.add_task(&id, "A0".to_string(), 1, None).unwrap();
    let cur = core.current(&id).unwrap().into_inner();
    let levels = default_levels();
    assert_eq!(
        current_report(&id, cur.as_ref()),
        format!(
            "Current Task for Plan ID: {}\n  Description: A\n  Completed: false\n  Level: {}\n  Index: [0]\n\nSubtasks:\n  0. A0 (completed: false)\n",
            id.value(),
            levels[0].description()
        )
    );
}
