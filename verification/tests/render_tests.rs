use scatterbrain::levels::default_levels;
use scatterbrain::models::{Context, Core, Current, DistilledContext, Lease, Plan, Task};
use scatterbrain::ui::{
    render_plan_list_html, render_plan_page, render_tasks_html, render_ui_template, HTML_TEMPLATE_FOOTER,
    HTML_TEMPLATE_HEADER,
};

#[test]
fn empty_task_list_says_so() {
    let plan = Plan::new(default_levels(), None, None);
    let mut html = String::new();
    render_tasks_html(&mut html, &[], None, &plan, vec![]);
    assert_eq!(html, "<p>No tasks yet.</p>");
}

#[test]
fn task_list_marks_the_current_task() {
    let plan = Plan::new(default_levels(), None, None);
    let tasks = vec![Task::with_level("A".to_string(), 0), Task::new("B".to_string())];
    let current = Current {
        index: vec![0],
        level: default_levels()[0].clone(),
        task: Task::with_level("A".to_string(), 0),
        history: vec![],
    };
    let mut html = String::new();
    render_tasks_html(&mut html, &tasks, Some(&current), &plan, vec![]);
    assert_eq!(
        html,
        "<ul class='task-tree'>\
<li class='current'><div class='task-item'><span class='task-level level-0'>0</span><span class='task-path'>0</span><span class='task-desc'>A</span><span class='task-status'>○</span></div></li>\
<li class=''><div class='task-item'><span class='task-level level-1'>1</span><span class='task-path'>1</span><span class='task-desc'>B</span><span class='task-status'>○</span></div></li>\
</ul>"
    );
}

#[test]
fn completed_task_shows_summary_notes_and_subtasks() {
    let plan = Plan::new(default_levels(), None, None);
    let child = Task::new("C".to_string());
    let task = Task::from_parts(
        "P".to_string(),
        true,
        vec![child],
        Some(2),
        Some("sum".to_string()),
        Some("note".to_string()),
    );
    let mut html = String::new();
    render_tasks_html(&mut html, &[task], None, &plan, vec![3]);
    assert_eq!(
        html,
        "<ul class='task-tree'>\
<li class='completed'><div class='task-item'><span class='task-level level-2'>2</span><span class='task-path'>3.0</span><span class='task-desc'>P</span><span class='task-summary'>sum</span><span class='task-status'>✓</span></div><div class='task-notes'>note</div>\
<ul class='task-tree'><li class=''><div class='task-item'><span class='task-level level-3'>3</span><span class='task-path'>3.0.0</span><span class='task-desc'>C</span><span class='task-status'>○</span></div></li></ul>\
</li></ul>"
    );
}

#[test]
fn plan_list_page_links_each_plan() {
    assert_eq!(
        render_plan_list_html(&[]),
        "<!DOCTYPE html><html><head><title>Scatterbrain Plans</title></head><body><h1>Available Scatterbrain Plans</h1><p>No plans found. Create one using the CLI: <code>scatterbrain plan create</code></p></body></html>"
    );
    assert_eq!(
        render_plan_list_html(&[Lease::new(3), Lease::new(12)]),
        "<!DOCTYPE html><html><head><title>Scatterbrain Plans</title></head><body><h1>Available Scatterbrain Plans</h1><ul><li><a href=\"/ui/3\">Plan 3</a></li><li><a href=\"/ui/12\">Plan 12</a></li></ul></body></html>"
    );
}

#[test]
fn page_for_a_missing_plan_says_so() {
    let core = Core::new();
    assert_eq!(render_plan_page(&core, &Lease::new(5)), "<h1>Plan Lease(5) not found</h1>");
}

fn is_utc_time(s: &str) -> bool {
    let b = s.as_bytes();
    b.len() == 23
        && b[0..4].iter().all(|c| c.is_ascii_digit())
        && b[4] == b'-'
        && b[7] == b'-'
        && b[10] == b' '
        && b[13] == b':'
        && b[16] == b':'
        && &s[19..] == " UTC"
}

#[test]
fn page_for_a_plan_shows_tabs_goal_levels_tasks_and_history() {
    let mut core = Core::new();
    let id = core.create_plan("Ship it".to_string(), None).unwrap();
    let empty = render_plan_page(&core, &id);
    assert!(empty.starts_with(HTML_TEMPLATE_HEADER));
    assert!(empty.ends_with(HTML_TEMPLATE_FOOTER));
    assert!(empty.contains("<li>No history yet.</li>"));
    assert!(empty.contains("<p>No tasks yet.</p>"));

    let (_, idx) = core.add_task(&id, "First".to_string(), 0, None).unwrap().into_inner();
    core.move_to(&id, idx).unwrap();
    let html = render_plan_page(&core, &id);
    let v = id.value();
    assert!(html.contains(&format!(
        "<nav class='plan-tabs'><a href='/ui/{v}' class='active'>Plan {v}</a>&nbsp;</nav>"
    )));
    assert!(html.contains("<div class='plan-goal'><h2>Goal: Ship it</h2></div>"));
    assert!(html.contains(&format!(
        "<div class='level-item'><span class='task-level level-0'>0</span><div class='level-description'><strong>{}</strong><div class='level-focus'>{}</div></div></div>",
        default_levels()[0].description(),
        default_levels()[0].abstraction_focus()
    )));
    assert!(html.contains("<li class='current'><div class='task-item'><span class='task-level level-0'>0</span><span class='task-path'>0</span><span class='task-desc'>First</span>"));
    assert!(html.contains("<div class='current-task'><h3>First</h3><p><strong>Status:</strong> In Progress</p>"));
    assert!(html.contains(&format!(
        "<p><strong>Level:</strong> 0 - {}</p><p><strong>Index:</strong> 0</p>",
        default_levels()[0].description()
    )));
    assert!(html.contains(&format!("<script>const CURRENT_PLAN_ID = {v};</script>")));

    let marker = "<li class='history-item'><span class='history-ts'>";
    let first = html.find(marker).unwrap() + marker.len();
    let end = html[first..].find("</span>").unwrap();
    assert!(is_utc_time(&html[first..first + end]));
    let newest = &html[first..];
    assert!(newest.contains("<span class='history-action'>move_to</span><span class='history-details'>Moving cursor to index: [0]</span>"));
}

#[test]
fn ui_template_lists_history_newest_first() {
    let mut ctx = Context::new_with_seed(Plan::new(default_levels(), None, None), 1);
    ctx.add_task("One".to_string(), 0, None);
    ctx.add_task("Two".to_string(), 0, None);
    let plan = ctx.get_plan().into_inner();
    let d = ctx.distilled_context().context();
    let html = render_ui_template(&Lease::new(9), &[Lease::new(2), Lease::new(9)], &plan, None, &d);
    let two = html.find("Adding task: 'Two'").unwrap();
    let one = html.find("Adding task: 'One'").unwrap();
    assert!(two < one);
    assert!(html.contains("<a href='/ui/2' class=''>Plan 2</a>&nbsp;<a href='/ui/9' class='active'>Plan 9</a>&nbsp;"));
    assert!(!html.contains("<div class='current-section'>"));
}

#[test]
fn page_shows_plan_notes_and_current_task_notes() {
    let dc = DistilledContext::builder()
        .goal(Some("G".to_string()))
        .plan_notes(Some("PLANNOTE-X".to_string()))
        .build();
    let task = Task::from_parts("T".to_string(), false, vec![], Some(0), None, Some("TASKNOTE-Y".to_string()));
    let cur = Current { index: vec![0], level: default_levels()[0].clone(), task, history: vec![] };
    let plan = Plan::new(default_levels(), None, None);
    let html = render_ui_template(&Lease::new(1), &[Lease::new(1)], &plan, Some(&cur), &dc);
    assert!(html.contains("<div class='plan-goal'><h2>Goal: G</h2><p class='plan-notes'>PLANNOTE-X</p></div>"));
    assert!(html.contains("<p><strong>Index:</strong> 0</p><div class='task-notes'>TASKNOTE-Y</div></div></div>"));

    let bare = DistilledContext::builder().build();
    let html = render_ui_template(&Lease::new(1), &[Lease::new(1)], &plan, None, &bare);
    assert!(!html.contains("plan-goal"));
    let notes_only = DistilledContext::builder().plan_notes(Some("N".to_string())).build();
    let html = render_ui_template(&Lease::new(1), &[Lease::new(1)], &plan, None, &notes_only);
    assert!(html.contains("<div class='plan-goal'><p class='plan-notes'>N</p></div>"));
}

#[test]
fn task_list_opens_one_item_per_task() {
    let plan = Plan::new(default_levels(), None, None);
    let grandchild = Task::new("G".to_string());
    let child = Task::from_parts("C".to_string(), true, vec![grandchild], Some(1), Some("s".to_string()), Some("n".to_string()));
    let tasks = vec![
        Task::from_parts("A".to_string(), false, vec![child, Task::new("D".to_string())], Some(0), None, None),
        Task::new("B".to_string()),
    ];
    let mut html = String::from("prefix");
    render_tasks_html(&mut html, &tasks, None, &plan, vec![]);
    assert!(html.starts_with("prefix"));
    assert_eq!(html.matches("<li class='").count(), 5);
    let paths: Vec<&str> = html
        .split("<span class='task-path'>")
        .skip(1)
        .map(|rest| rest.split("</span>").next().unwrap())
        .collect();
    assert_eq!(paths, vec!["0", "0.0", "0.0.0", "0.1", "1"]);
}
