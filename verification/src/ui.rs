//! The HTML pages of the web view: the list of plans, and one plan with
//! its levels, its task tree, its current task and its recent transitions.

use vstd::prelude::*;
use crate::context::ContextView;
use crate::distilled::{same_index, Current, DistilledContext};
use crate::external::{format_utc, utc_text, Timestamp};
use crate::history::{entries_view, EntryView, TransitionLogEntry};
use crate::lease::{lease_value, Lease};
use crate::levels::{Level, LevelView};
use crate::plan::{current_with_history, levels_view, Plan, PlanView};
use crate::plans::{plan_error_text, Core, PlanError};
use crate::task::{lemma_tasks_view, opt_text, tasks_view, Task, TaskView};
use crate::text::{decimal, decimals, dotted, join, push_decimal, push_joined_decimals};

verus! {

/// The opening of the page for one plan: document head, styles, and the
/// start of the body.
pub const HTML_TEMPLATE_HEADER: &'static str = "<!DOCTYPE html>\n<html lang=\"en\">\n<head>\n    <meta charset=\"UTF-8\">\n    <meta name=\"viewport\" content=\"width=device-width, initial-scale=1.0\">\n    <title>Scatterbrain UI</title>\n    <style>\n        body {\n            font-family: -apple-system, BlinkMacSystemFont, 'Segoe UI', Roboto, Oxygen, Ubuntu, Cantarell, 'Open Sans', 'Helvetica Neue', sans-serif;\n            line-height: 1.6;\n            color: #333;\n            max-width: 1200px;\n            margin: 0 auto;\n            padding: 20px;\n            background-color: #f7f9fc;\n        }\n        h1 {\n            color: #2c3e50;\n            border-bottom: 2px solid #3498db;\n            padding-bottom: 10px;\n        }\n        h2 {\n            color: #3498db;\n            margin-top: 30px;\n        }\n        .container {\n            display: flex;\n            flex-wrap: wrap;\n            gap: 20px;\n        }\n        .plan-section,\n        .current-section,\n        .history-panel {\n            flex: 1;\n            min-width: 300px;\n            background: white;\n            padding: 20px;\n            border-radius: 8px;\n            box-shadow: 0 2px 10px rgba(0,0,0,0.1);\n            align-self: flex-start;\n        }\n        .plan-section {\n            /* Specific styles for plan if needed */\n        }\n        .current-section {\n            /* Specific styles for current task if needed */\n             /* Ensure it aligns even if not always present */\n             order: 1;\n        }\n        .history-panel {\n             order: 2;\n        }\n        .task-tree {\n            list-style-type: none;\n            padding-left: 20px;\n        }\n        .task-item {\n            display: flex;\n            align-items: center;\n            padding: 8px 0;\n            gap: 10px;\n        }\n        .task-path {\n            font-family: monospace;\n            color: #7f8c8d;\n            min-width: 50px;\n        }\n        .task-desc {\n            flex-grow: 1;\n        }\n        .task-status {\n            color: #7f8c8d;\n            font-weight: bold;\n        }\n        .task-level {\n            display: inline-block;\n            width: 24px;\n            height: 24px;\n            border-radius: 12px;\n            color: white;\n            text-align: center;\n            line-height: 24px;\n            font-size: 12px;\n            font-weight: bold;\n            margin-right: 8px;\n        }\n        .level-0 {\n            background-color: #3498db; /* Blue - High Level */\n            border: 2px solid #2980b9;\n        }\n        .level-1 {\n            background-color: #9b59b6; /* Purple - Isolation */\n            border: 2px solid #8e44ad;\n        }\n        .level-2 {\n            background-color: #2ecc71; /* Green - Ordering */\n            border: 2px solid #27ae60;\n        }\n        .level-3 {\n            background-color: #e67e22; /* Orange - Implementation */\n            border: 2px solid #d35400;\n        }\n        .current {\n            background-color: #e8f4fc;\n            border-left: 4px solid #3498db;\n            padding-left: 10px;\n            margin-left: -14px;\n        }\n        .completed .task-status {\n            color: #27ae60;\n            text-decoration: none !important; /* Ensure status icon is never struck through */\n        }\n        .task-summary {\n            font-style: italic;\n            color: #555;\n            font-size: 0.9em;\n            margin-left: 10px;\n            flex-basis: 100%; /* Ensure summary wraps if needed */\n            order: 2; /* Place summary after main task items */\n        }\n        .current-task {\n            background-color: #f8f9fa;\n            padding: 15px;\n            border-radius: 5px;\n            border-left: 4px solid #3498db;\n        }\n        .subtasks ul {\n            margin-top: 5px;\n            padding-left: 20px;\n        }\n        .subtasks li {\n            margin-bottom: 5px;\n        }\n        .controls {\n            margin-top: 30px;\n            padding: 15px;\n            background: #f0f4f8;\n            border-radius: 5px;\n        }\n        .reactive-status {\n            display: flex;\n            align-items: center;\n            gap: 10px;\n            margin-top: 10px;\n        }\n        .status-indicator {\n            display: inline-block;\n            width: 10px;\n            height: 10px;\n            border-radius: 50%;\n            background-color: #95a5a6;\n        }\n        .status-indicator.connected {\n            background-color: #2ecc71;\n        }\n        .status-indicator.updating {\n            background-color: #f39c12;\n        }\n        .status-text {\n            font-size: 14px;\n            color: #7f8c8d;\n        }\n        .manual-refresh {\n            margin-left: auto;\n        }\n        .level-legend {\n            margin-top: 20px;\n            background: white;\n            padding: 15px;\n            border-radius: 5px;\n            box-shadow: 0 2px 5px rgba(0,0,0,0.1);\n        }\n        .level-legend h3 {\n            margin-top: 0;\n            border-bottom: 1px solid #eee;\n            padding-bottom: 8px;\n        }\n        .level-item {\n            display: flex;\n            align-items: center;\n            margin-bottom: 10px;\n        }\n        .level-description {\n            margin-left: 10px;\n        }\n        .level-focus {\n            font-size: 0.9em;\n            color: #666;\n            margin-top: 5px;\n        }\n        .history-list {\n            list-style-type: none;\n            padding-left: 0;\n            max-height: 400px;\n            overflow-y: auto;\n        }\n        .history-item {\n            border-bottom: 1px solid #eee;\n            padding: 8px 0;\n            font-size: 0.9em;\n            display: flex;\n            gap: 10px;\n        }\n        .history-ts {\n            color: #7f8c8d;\n            min-width: 160px;\n            white-space: nowrap;\n        }\n        .history-action {\n            font-weight: bold;\n            color: #3498db;\n        }\n        .history-details {\n            color: #555;\n            flex-grow: 1;\n        }\n        /* Style completed task description */\n        .completed .task-desc {\n            color: #7f8c8d;\n            text-decoration: line-through;\n        }\n        /* Style completed subtask description */\n        .subtasks li.completed .task-desc {\n            color: #7f8c8d;\n            text-decoration: line-through;\n        }\n        .task-notes {\n            font-size: 0.9em;\n            color: #666;\n            margin-left: 30px; /* Indent notes slightly */\n            margin-top: 5px;\n            padding: 5px 8px;\n            background-color: #f0f0f0;\n            border-left: 3px solid #ccc;\n            white-space: pre-wrap; /* Preserve whitespace and wrap */\n            word-break: break-word;\n        }\n    </style>\n</head>\n<body>\n    <h1>Scatterbrain UI</h1>\n    <div class=\"controls\">\n        <p>Use the CLI to interact with tasks:</p>\n        <code>$ scatterbrain task add \"New task\"</code> | \n        <code>$ scatterbrain move 0,1</code> | \n        <code>$ scatterbrain task complete</code> |\n        <code>$ scatterbrain task change-level 1</code>\n        <div class=\"reactive-status\">\n            <span class=\"status-indicator\" id=\"connection-status\"></span>\n            <span class=\"status-text\" id=\"status-text\">Waiting to connect...</span>\n        </div>\n    </div>\n    <div class=\"container\">\n        <!-- HISTORY PANEL -->\n\n        <div class=\"plan-section\">\n";

/// The close of the page for one plan, with the script that reloads it on
/// updates.
pub const HTML_TEMPLATE_FOOTER: &'static str = "\n    </div>\n    <script>\n        // EventSource for reactive updates\n        const statusIndicator = document.getElementById('connection-status');\n        const statusText = document.getElementById('status-text');\n        let eventSource;\n        \n        function connectEvents() {\n            // Use the CURRENT_PLAN_ID injected by the template\n            if (typeof CURRENT_PLAN_ID === 'undefined') {\n                console.error('CURRENT_PLAN_ID is not defined.');\n                statusText.textContent = 'Error: Plan ID missing.';\n                return;\n            }\n            const eventSourceUrl = '/ui/events/' + CURRENT_PLAN_ID;\n            console.log('Connecting to SSE:', eventSourceUrl); \n            eventSource = new EventSource(eventSourceUrl);\n            \n            eventSource.onopen = () => {\n                statusIndicator.classList.add('connected');\n                statusText.textContent = 'Connected: Listening for changes';\n            };\n            \n            eventSource.addEventListener('update', (event) => {\n                // Show updating status\n                statusIndicator.classList.remove('connected');\n                statusIndicator.classList.add('updating');\n                statusText.textContent = 'Updating...';\n                \n                // Reload the page to reflect changes\n                window.location.reload();\n            });\n            \n            eventSource.addEventListener('ping', (event) => {\n                // Just keep the connection alive\n            });\n            \n            eventSource.onerror = () => {\n                statusIndicator.classList.remove('connected');\n                statusIndicator.classList.remove('updating');\n                statusText.textContent = 'Connection lost. Reconnecting...';\n                \n                // Close connection and try again after a delay\n                eventSource.close();\n                setTimeout(connectEvents, 3000);\n            };\n        }\n        \n        // Start event connection when page loads\n        window.addEventListener('load', connectEvents);\n        \n        // Clean up on unload\n        window.addEventListener('beforeunload', () => {\n            if (eventSource) {\n                eventSource.close();\n            }\n        });\n    </script>\n</body>\n</html>\n";

/// The format in which transition times are shown.
pub const HISTORY_TIME_FORMAT: &'static str = "%Y-%m-%d %H:%M:%S UTC";

/// The class of a task's list item.
pub open spec fn task_class(is_current: bool, completed: bool) -> Seq<char> {
    if is_current {
        if completed {
            "current completed"@
        } else {
            "current"@
        }
    } else if completed {
        "completed"@
    } else {
        ""@
    }
}

/// The opening of a task's list item: its class, level, index path and
/// description.
pub open spec fn item_head(t: TaskView, p: Seq<usize>, is_current: bool) -> Seq<char> {
    let level: nat = match t.level_index {
        Some(l) => l as nat,
        None => p.len(),
    };
    "<li class='"@ + task_class(is_current, t.completed) + "'><div class='task-item'>"@ + "<span class='task-level level-"@
        + decimal(level) + "'>"@ + decimal(level) + "</span>"@ + "<span class='task-path'>"@ + dotted(p) + "</span>"@
        + "<span class='task-desc'>"@ + t.description + "</span>"@
}

/// The completion summary of a completed task, if it has one.
pub open spec fn item_summary(t: TaskView) -> Seq<char> {
    if t.completed && t.completion_summary is Some {
        "<span class='task-summary'>"@ + t.completion_summary->0 + "</span>"@
    } else {
        Seq::empty()
    }
}

/// The completion mark of a task, closing its line.
pub open spec fn item_status(t: TaskView) -> Seq<char> {
    "<span class='task-status'>"@ + (if t.completed {
        "✓"@
    } else {
        "○"@
    }) + "</span>"@ + "</div>"@
}

/// The notes of a task, if it has any.
pub open spec fn item_notes(t: TaskView) -> Seq<char> {
    match t.notes {
        Some(n) => "<div class='task-notes'>"@ + n + "</div>"@,
        None => Seq::empty(),
    }
}

/// The list item for task `t` at index path `p`, with its subtasks.
pub open spec fn task_html(t: TaskView, p: Seq<usize>, current: Option<Seq<usize>>) -> Seq<char>
    decreases t, 2int,
{
    item_head(t, p, current == Some(p)) + item_summary(t) + item_status(t) + item_notes(t) + (if t.subtasks.len() > 0 {
        tasks_html(t.subtasks, current, p)
    } else {
        Seq::empty()
    }) + "</li>"@
}

/// The list items for the tasks `ts` placed under `path`.
pub open spec fn task_items_html(ts: Seq<TaskView>, current: Option<Seq<usize>>, path: Seq<usize>) -> Seq<char>
    decreases ts, 0int,
{
    if ts.len() == 0 {
        Seq::empty()
    } else {
        task_items_html(ts.subrange(0, ts.len() - 1), current, path) + task_html(
            ts[ts.len() - 1],
            path.push((ts.len() - 1) as usize),
            current,
        )
    }
}

/// The nested list for the tasks `ts` placed under `path`.
pub open spec fn tasks_html(ts: Seq<TaskView>, current: Option<Seq<usize>>, path: Seq<usize>) -> Seq<char>
    decreases ts, 1int,
{
    if ts.len() == 0 {
        "<p>No tasks yet.</p>"@
    } else {
        "<ul class='task-tree'>"@ + task_items_html(ts, current, path) + "</ul>"@
    }
}

fn push_item_head(out: &mut String, task: &Task, current_path: &Vec<usize>, is_current: bool)
    ensures
        final(out)@ == old(out)@ + item_head(task@, current_path@, is_current),
{
    let level_idx = match task.level_index() {
        Some(l) => l,
        None => current_path.len(),
    };
    let completed = task.is_completed();
    let class = if is_current {
        if completed {
            "current completed"
        } else {
            "current"
        }
    } else if completed {
        "completed"
    } else {
        ""
    };
    out.append("<li class='");
    out.append(class);
    out.append("'><div class='task-item'>");
    out.append("<span class='task-level level-");
    push_decimal(out, level_idx);
    out.append("'>");
    push_decimal(out, level_idx);
    out.append("</span>");
    out.append("<span class='task-path'>");
    push_joined_decimals(out, current_path.as_slice(), ".");
    out.append("</span>");
    out.append("<span class='task-desc'>");
    out.append(task.description());
    out.append("</span>");
}

fn push_item_tail(out: &mut String, task: &Task)
    ensures
        final(out)@ == old(out)@ + item_summary(task@) + item_status(task@) + item_notes(task@),
{
    let completed = task.is_completed();
    let ghost s0 = out@;
    if completed {
        match task.completion_summary() {
            Some(summary) => {
                out.append("<span class='task-summary'>");
                out.append(summary.as_str());
                out.append("</span>");
            },
            None => {},
        }
    }
    assert(out@ =~= s0 + item_summary(task@));
    let ghost s1 = out@;
    out.append("<span class='task-status'>");
    if completed {
        out.append("✓");
    } else {
        out.append("○");
    }
    out.append("</span>");
    out.append("</div>");
    assert(out@ =~= s1 + item_status(task@));
    let ghost s2 = out@;
    match task.notes() {
        Some(notes) => {
            out.append("<div class='task-notes'>");
            out.append(notes);
            out.append("</div>");
        },
        None => {},
    }
    assert(out@ =~= s2 + item_notes(task@));
}

proof fn lemma_task_html_parts(t: TaskView, p: Seq<usize>, current: Option<Seq<usize>>)
    ensures
        task_html(t, p, current) == item_head(t, p, current == Some(p)) + item_summary(t) + item_status(t)
            + item_notes(t) + (if t.subtasks.len() > 0 {
            tasks_html(t.subtasks, current, p)
        } else {
            Seq::<char>::empty()
        }) + "</li>"@,
{
}

#[verifier::rlimit(40)]
fn render_task_item(html: &mut String, task: &Task, current: Option<&Current>, plan: &Plan, current_path: Vec<usize>)
    ensures
        final(html)@ == old(html)@ + task_html(
            task@,
            current_path@,
            match current {
                Some(c) => Some(c.index@),
                None => None,
            },
        ),
    decreases task@, 2int,
{
    let ghost cur = match current {
        Some(c) => Some(c.index@),
        None => None::<Seq<usize>>,
    };
    let is_current = match current {
        Some(c) => same_index(c.index.as_slice(), current_path.as_slice()),
        None => false,
    };
    assert(is_current == (cur == Some(current_path@)));
    let ghost h0 = html@;
    push_item_head(html, task, &current_path, is_current);
    push_item_tail(html, task);
    let ghost h1 = html@;
    let ghost line = item_head(task@, current_path@, is_current) + item_summary(task@) + item_status(task@)
        + item_notes(task@);
    assert(h1 =~= h0 + line);
    let subs = task.subtasks();
    let ghost nested = if task@.subtasks.len() > 0 {
        tasks_html(task@.subtasks, cur, current_path@)
    } else {
        Seq::<char>::empty()
    };
    if subs.len() > 0 {
        proof {
            assert(decreases_to!(task@ => task@.subtasks));
        }
        render_tasks_html(html, subs, current, plan, current_path);
    }
    assert(html@ =~= h1 + nested);
    html.append("</li>");
    proof {
        lemma_task_html_parts(task@, current_path@, cur);
        assert(html@ =~= h0 + (line + nested + "</li>"@));
    }
}

/// Appends the nested list for the tasks `tasks` placed under `path`,
/// marking the task at `current`'s index.
pub fn render_tasks_html(html: &mut String, tasks: &[Task], current: Option<&Current>, plan: &Plan, path: Vec<usize>)
    ensures
        final(html)@ == old(html)@ + tasks_html(
            tasks_view(tasks@),
            match current {
                Some(c) => Some(c.index@),
                None => None,
            },
            path@,
        ),
    decreases tasks_view(tasks@), 1int,
{
    let ghost cur = match current {
        Some(c) => Some(c.index@),
        None => None::<Seq<usize>>,
    };
    proof {
        lemma_tasks_view(tasks@);
    }
    if tasks.len() == 0 {
        html.append("<p>No tasks yet.</p>");
        return;
    }
    html.append("<ul class='task-tree'>");
    let ghost start = html@;
    let mut i: usize = 0;
    while i < tasks.len()
        invariant
            i <= tasks@.len(),
            tasks_view(tasks@).len() == tasks@.len(),
            forall|j: int| 0 <= j < tasks@.len() ==> #[trigger] tasks_view(tasks@)[j] == tasks@[j]@,
            cur == match current {
                Some(c) => Some(c.index@),
                None => None::<Seq<usize>>,
            },
            html@ == start + task_items_html(tasks_view(tasks@).subrange(0, i as int), cur, path@),
        decreases tasks@.len() - i,
    {
        let task = &tasks[i];
        let mut current_path = path.clone();
        current_path.push(i);
        proof {
            assert(decreases_to!(tasks_view(tasks@) => tasks_view(tasks@)[i as int]));
        }
        let ghost before = html@;
        render_task_item(html, task, current, plan, current_path);
        proof {
            let t = tasks_view(tasks@)[i as int];
            assert(tasks_view(tasks@).subrange(0, i + 1).subrange(0, i as int) =~= tasks_view(tasks@).subrange(0, i as int));
            assert(tasks_view(tasks@).subrange(0, i + 1)[i as int] == t);
            assert(html@ =~= start + task_items_html(tasks_view(tasks@).subrange(0, i + 1), cur, path@));
        }
        i = i + 1;
    }
    assert(tasks_view(tasks@).subrange(0, tasks@.len() as int) =~= tasks_view(tasks@));
    html.append("</ul>");
}

/// The link to one plan in the tab bar; the shown plan's tab is marked
/// active.
pub open spec fn tab_link(shown: u8, id: u8) -> Seq<char> {
    "<a href='/ui/"@ + decimal(id as nat) + "' class='"@ + (if id == shown {
        "active"@
    } else {
        Seq::empty()
    }) + "'>Plan "@ + decimal(id as nat) + "</a>&nbsp;"@
}

/// The links to the plans `ids`, in order.
pub open spec fn tab_links(shown: u8, ids: Seq<u8>) -> Seq<char>
    decreases ids.len(),
{
    if ids.len() == 0 {
        Seq::empty()
    } else {
        tab_links(shown, ids.drop_last()) + tab_link(shown, ids.last())
    }
}

/// The tab bar over all plans.
pub open spec fn plan_tabs(shown: u8, ids: Seq<u8>) -> Seq<char> {
    "<nav class='plan-tabs'>"@ + (if ids.len() == 0 {
        "<span class='no-plans'>No plans loaded.</span>"@
    } else {
        tab_links(shown, ids)
    }) + "</nav>"@
}

/// The heading with the plan's goal, if it has one.
pub open spec fn goal_heading(goal: Option<Seq<char>>) -> Seq<char> {
    match goal {
        Some(g) => "<h2>Goal: "@ + g + "</h2>"@,
        None => Seq::empty(),
    }
}

/// The paragraph with the plan's notes, if it has any.
pub open spec fn plan_notes_line(notes: Option<Seq<char>>) -> Seq<char> {
    match notes {
        Some(n) => "<p class='plan-notes'>"@ + n + "</p>"@,
        None => Seq::empty(),
    }
}

/// The panel with the plan's goal and notes; nothing where the plan has
/// neither.
pub open spec fn plan_info_html(goal: Option<Seq<char>>, notes: Option<Seq<char>>) -> Seq<char> {
    if goal is None && notes is None {
        Seq::empty()
    } else {
        "<div class='plan-goal'>"@ + goal_heading(goal) + plan_notes_line(notes) + "</div>"@
    }
}

/// The legend entry for level `i`.
pub open spec fn level_item(i: nat, l: LevelView) -> Seq<char> {
    "<div class='level-item'><span class='task-level level-"@ + decimal(i) + "'>"@ + decimal(i) + "</span>"@
        + "<div class='level-description'><strong>"@ + l.description + "</strong>"@ + "<div class='level-focus'>"@
        + l.abstraction_focus + "</div></div></div>"@
}

/// The legend entries for the levels `ls`, numbered from zero.
pub open spec fn level_items(ls: Seq<LevelView>) -> Seq<char>
    decreases ls.len(),
{
    if ls.len() == 0 {
        Seq::empty()
    } else {
        level_items(ls.drop_last()) + level_item((ls.len() - 1) as nat, ls.last())
    }
}

/// The legend of the abstraction levels.
pub open spec fn level_legend(ls: Seq<LevelView>) -> Seq<char> {
    "<div class='level-legend'>"@ + "<h3>Abstraction Levels</h3>"@ + level_items(ls) + "</div>"@
}

/// The section with the whole task tree.
pub open spec fn plan_section(top: Seq<TaskView>, current: Option<Seq<usize>>) -> Seq<char> {
    "<div class='plan-section'>"@ + "<h2>Plan</h2>"@ + tasks_html(top, current, Seq::empty()) + "</div>"@
}

/// One line of the current task's subtask list.
pub open spec fn subtask_item(t: TaskView) -> Seq<char> {
    "<li class='"@ + (if t.completed {
        "completed"@
    } else {
        "pending"@
    }) + "'>"@ + t.description + "</li>"@
}

/// The lines for the subtasks `ts`, in order.
pub open spec fn subtask_items(ts: Seq<TaskView>) -> Seq<char>
    decreases ts.len(),
{
    if ts.len() == 0 {
        Seq::empty()
    } else {
        subtask_items(ts.drop_last()) + subtask_item(ts.last())
    }
}

/// The list of the current task's subtasks, if it has any.
pub open spec fn subtask_list(ts: Seq<TaskView>) -> Seq<char> {
    if ts.len() == 0 {
        Seq::empty()
    } else {
        "<div class='subtasks'>"@ + "<h4>Subtasks:</h4>"@ + "<ul>"@ + subtask_items(ts) + "</ul>"@ + "</div>"@
    }
}

/// The level number shown for the current task: its own level if it has
/// one, else its depth below the top tasks.
pub open spec fn shown_level(t: TaskView, index: Seq<usize>) -> int {
    match t.level_index {
        Some(l) => l as int,
        None => index.len() - 1,
    }
}

/// The heading of the current task section, with the task's description.
pub open spec fn current_title(t: TaskView) -> Seq<char> {
    "<div class='current-section'>"@ + "<h2>Current Task</h2>"@ + "<div class='current-task'><h3>"@ + t.description
        + "</h3>"@
}

/// Whether the current task is done.
pub open spec fn current_status(t: TaskView) -> Seq<char> {
    "<p><strong>Status:</strong> "@ + (if t.completed {
        "Completed"@
    } else {
        "In Progress"@
    }) + "</p>"@
}

/// The level of the current task at `index`, with the description of
/// level `l`.
pub open spec fn current_level_line(index: Seq<usize>, l: LevelView, t: TaskView) -> Seq<char> {
    "<p><strong>Level:</strong> "@ + decimal(shown_level(t, index) as nat) + " - "@ + l.description + "</p>"@
}

/// The index path of the current task, separated by commas.
pub open spec fn current_index_line(index: Seq<usize>) -> Seq<char> {
    "<p><strong>Index:</strong> "@ + join(decimals(index), ","@) + "</p>"@
}

/// The heading and facts of the current task at `index`, placed at level
/// `l`.
pub open spec fn current_facts(index: Seq<usize>, l: LevelView, t: TaskView) -> Seq<char> {
    current_title(t) + current_status(t) + current_level_line(index, l, t) + current_index_line(index)
}

/// The notes of the current task, if it has any.
pub open spec fn current_notes(notes: Option<Seq<char>>) -> Seq<char> {
    match notes {
        Some(n) => "<div class='task-notes'>"@ + n + "</div>"@,
        None => Seq::empty(),
    }
}

/// The section on the current task at `index`, placed at level `l`.
pub open spec fn current_html(index: Seq<usize>, l: LevelView, t: TaskView) -> Seq<char> {
    current_facts(index, l, t) + current_notes(t.notes) + subtask_list(t.subtasks) + "</div></div>"@
}

/// The section on the current task, if there is one.
pub open spec fn current_section(current: Option<(Seq<usize>, LevelView, TaskView)>) -> Seq<char> {
    match current {
        Some(c) => current_html(c.0, c.1, c.2),
        None => Seq::empty(),
    }
}

/// How a transition's time is shown: its rendering in
/// `HISTORY_TIME_FORMAT`, or nothing where the moment cannot be rendered.
pub open spec fn time_text(t: Timestamp) -> Seq<char> {
    match utc_text(t.secs, t.nanos, HISTORY_TIME_FORMAT@) {
        Some(s) => s,
        None => Seq::empty(),
    }
}

/// One line of the transition history.
pub open spec fn history_item(e: EntryView) -> Seq<char> {
    "<li class='history-item'><span class='history-ts'>"@ + time_text(e.timestamp)
        + "</span><span class='history-action'>"@ + e.action + "</span><span class='history-details'>"@
        + (match e.details {
        Some(d) => d,
        None => Seq::empty(),
    }) + "</span></li>"@
}

/// The lines of the transitions `h`, newest first.
pub open spec fn history_items(h: Seq<EntryView>) -> Seq<char>
    decreases h.len(),
{
    if h.len() == 0 {
        Seq::empty()
    } else {
        history_items(h.drop_first()) + history_item(h[0])
    }
}

/// The panel with the transition history.
pub open spec fn history_panel(h: Seq<EntryView>) -> Seq<char> {
    "<div class='history-panel'>"@ + "<h2>Transition History</h2>"@ + "<ul class='history-list'>"@ + (if h.len()
        == 0 {
        "<li>No history yet.</li>"@
    } else {
        history_items(h)
    }) + "</ul></div>"@
}

/// The script line that tells the page which plan it shows.
pub open spec fn plan_id_script(id: u8) -> Seq<char> {
    "<script>const CURRENT_PLAN_ID = "@ + decimal(id as nat) + ";</script>"@
}

/// The whole page for plan `shown`.
pub open spec fn ui_page(
    shown: u8,
    ids: Seq<u8>,
    plan: PlanView,
    current: Option<(Seq<usize>, LevelView, TaskView)>,
    goal: Option<Seq<char>>,
    notes: Option<Seq<char>>,
    history: Seq<EntryView>,
) -> Seq<char> {
    HTML_TEMPLATE_HEADER@ + plan_tabs(shown, ids) + plan_info_html(goal, notes) + level_legend(plan.levels) + plan_section(
        plan.root.subtasks,
        match current {
            Some(c) => Some(c.0),
            None => None,
        },
    ) + current_section(current) + history_panel(history) + plan_id_script(shown) + HTML_TEMPLATE_FOOTER@
}

/// The values of a list of plan ids.
pub open spec fn lease_values(ids: Seq<Lease>) -> Seq<u8> {
    ids.map_values(|l: Lease| lease_value(l))
}

/// The index, level and task of an optional current task.
pub open spec fn current_view(c: Option<&Current>) -> Option<(Seq<usize>, LevelView, TaskView)> {
    match c {
        Some(c) => Some((c.index@, c.level@, c.task@)),
        None => None,
    }
}

fn push_tab_links(out: &mut String, shown: u8, ids: &[Lease])
    ensures
        final(out)@ == old(out)@ + tab_links(shown, lease_values(ids@)),
{
    let ghost start = out@;
    let mut i: usize = 0;
    while i < ids.len()
        invariant
            i <= ids@.len(),
            out@ == start + tab_links(shown, lease_values(ids@).take(i as int)),
        decreases ids@.len() - i,
    {
        let id = ids[i].value();
        proof {
            assert(lease_values(ids@).take(i + 1).drop_last() =~= lease_values(ids@).take(i as int));
            assert(lease_values(ids@).take(i + 1).last() == id);
        }
        let ghost before = out@;
        out.append("<a href='/ui/");
        push_decimal(out, id as usize);
        out.append("' class='");
        if id == shown {
            out.append("active");
        }
        out.append("'>Plan ");
        push_decimal(out, id as usize);
        out.append("</a>&nbsp;");
        assert(out@ =~= before + tab_link(shown, id));
        i = i + 1;
    }
    assert(lease_values(ids@).take(ids@.len() as int) =~= lease_values(ids@));
}

fn push_level_items(out: &mut String, levels: &[Level])
    ensures
        final(out)@ == old(out)@ + level_items(levels_view(levels@)),
{
    let ghost start = out@;
    let mut i: usize = 0;
    while i < levels.len()
        invariant
            i <= levels@.len(),
            out@ == start + level_items(levels_view(levels@).take(i as int)),
        decreases levels@.len() - i,
    {
        let level = &levels[i];
        proof {
            assert(levels_view(levels@).take(i + 1).drop_last() =~= levels_view(levels@).take(i as int));
            assert(levels_view(levels@).take(i + 1).last() == level@);
        }
        let ghost before = out@;
        out.append("<div class='level-item'><span class='task-level level-");
        push_decimal(out, i);
        out.append("'>");
        push_decimal(out, i);
        out.append("</span>");
        out.append("<div class='level-description'><strong>");
        out.append(level.description());
        out.append("</strong>");
        out.append("<div class='level-focus'>");
        out.append(level.abstraction_focus());
        out.append("</div></div></div>");
        assert(out@ =~= before + level_item(i as nat, level@));
        i = i + 1;
    }
    assert(levels_view(levels@).take(levels@.len() as int) =~= levels_view(levels@));
}

fn push_subtask_items(out: &mut String, tasks: &[Task])
    ensures
        final(out)@ == old(out)@ + subtask_items(tasks_view(tasks@)),
{
    proof {
        lemma_tasks_view(tasks@);
    }
    let ghost start = out@;
    let mut i: usize = 0;
    while i < tasks.len()
        invariant
            i <= tasks@.len(),
            tasks_view(tasks@).len() == tasks@.len(),
            forall|j: int| 0 <= j < tasks@.len() ==> #[trigger] tasks_view(tasks@)[j] == tasks@[j]@,
            out@ == start + subtask_items(tasks_view(tasks@).take(i as int)),
        decreases tasks@.len() - i,
    {
        let task = &tasks[i];
        proof {
            assert(tasks_view(tasks@).take(i + 1).drop_last() =~= tasks_view(tasks@).take(i as int));
            assert(tasks_view(tasks@).take(i + 1).last() == task@);
        }
        let ghost before = out@;
        out.append("<li class='");
        if task.is_completed() {
            out.append("completed");
        } else {
            out.append("pending");
        }
        out.append("'>");
        out.append(task.description());
        out.append("</li>");
        assert(out@ =~= before + subtask_item(task@));
        i = i + 1;
    }
    assert(tasks_view(tasks@).take(tasks@.len() as int) =~= tasks_view(tasks@));
}

fn push_current_facts(out: &mut String, current: &Current)
    requires
        current.index@.len() > 0,
    ensures
        final(out)@ == old(out)@ + current_facts(current.index@, current.level@, current.task@),
{
    let task = &current.task;
    let ghost s0 = out@;
    out.append("<div class='current-section'>");
    out.append("<h2>Current Task</h2>");
    out.append("<div class='current-task'><h3>");
    out.append(task.description());
    out.append("</h3>");
    assert(out@ =~= s0 + current_title(task@));
    let ghost s1 = out@;
    out.append("<p><strong>Status:</strong> ");
    if task.is_completed() {
        out.append("Completed");
    } else {
        out.append("In Progress");
    }
    out.append("</p>");
    assert(out@ =~= s1 + current_status(task@));
    let ghost s2 = out@;
    let level = match task.level_index() {
        Some(l) => l,
        None => current.index.len() - 1,
    };
    out.append("<p><strong>Level:</strong> ");
    push_decimal(out, level);
    out.append(" - ");
    out.append(current.level.description());
    out.append("</p>");
    assert(out@ =~= s2 + current_level_line(current.index@, current.level@, task@));
    let ghost s3 = out@;
    out.append("<p><strong>Index:</strong> ");
    push_joined_decimals(out, current.index.as_slice(), ",");
    out.append("</p>");
    assert(out@ =~= s3 + current_index_line(current.index@));
}

fn push_current_section(out: &mut String, current: &Current)
    requires
        current.index@.len() > 0,
    ensures
        final(out)@ == old(out)@ + current_html(current.index@, current.level@, current.task@),
{
    let task = &current.task;
    let ghost start = out@;
    push_current_facts(out, current);
    let ghost facts = out@;
    match task.notes() {
        Some(n) => {
            out.append("<div class='task-notes'>");
            out.append(n);
            out.append("</div>");
        },
        None => {},
    }
    assert(out@ =~= facts + current_notes(task@.notes));
    let ghost mid = out@;
    let subs = task.subtasks();
    if subs.len() > 0 {
        out.append("<div class='subtasks'>");
        out.append("<h4>Subtasks:</h4>");
        out.append("<ul>");
        push_subtask_items(out, subs);
        out.append("</ul>");
        out.append("</div>");
    }
    assert(out@ =~= mid + subtask_list(task@.subtasks));
    out.append("</div></div>");
    assert(out@ =~= start + current_html(current.index@, current.level@, task@));
}

fn push_history_items(out: &mut String, history: &[TransitionLogEntry])
    ensures
        final(out)@ == old(out)@ + history_items(entries_view(history@)),
{
    let ghost h = entries_view(history@);
    let ghost start = out@;
    let mut i: usize = history.len();
    while i > 0
        invariant
            i <= history@.len(),
            h == entries_view(history@),
            out@ == start + history_items(h.subrange(i as int, h.len() as int)),
        decreases i,
    {
        i = i - 1;
        let entry = &history[i];
        proof {
            assert(h.subrange(i as int, h.len() as int).drop_first() =~= h.subrange(i + 1, h.len() as int));
            assert(h.subrange(i as int, h.len() as int)[0] == entry@);
        }
        let ghost before = out@;
        out.append("<li class='history-item'><span class='history-ts'>");
        match format_utc(entry.timestamp.secs, entry.timestamp.nanos, HISTORY_TIME_FORMAT) {
            Some(text) => out.append(text.as_str()),
            None => {},
        }
        out.append("</span><span class='history-action'>");
        out.append(entry.action.as_str());
        out.append("</span><span class='history-details'>");
        match &entry.details {
            Some(d) => out.append(d.as_str()),
            None => {},
        }
        out.append("</span></li>");
        assert(out@ =~= before + history_item(entry@));
    }
    assert(h.subrange(0, h.len() as int) =~= h);
}

fn push_plan_tabs(out: &mut String, shown: u8, all_ids: &[Lease])
    ensures
        final(out)@ == old(out)@ + plan_tabs(shown, lease_values(all_ids@)),
{
    let ghost s0 = out@;
    out.append("<nav class='plan-tabs'>");
    if all_ids.len() == 0 {
        out.append("<span class='no-plans'>No plans loaded.</span>");
    } else {
        push_tab_links(out, shown, all_ids);
    }
    out.append("</nav>");
    assert(out@ =~= s0 + plan_tabs(shown, lease_values(all_ids@)));
}

fn push_plan_info(out: &mut String, goal: &Option<String>, notes: &Option<String>)
    ensures
        final(out)@ == old(out)@ + plan_info_html(opt_text(*goal), opt_text(*notes)),
{
    let ghost s0 = out@;
    if goal.is_none() && notes.is_none() {
        assert(out@ =~= s0 + plan_info_html(opt_text(*goal), opt_text(*notes)));
        return;
    }
    out.append("<div class='plan-goal'>");
    let ghost s1 = out@;
    match goal {
        Some(g) => {
            out.append("<h2>Goal: ");
            out.append(g.as_str());
            out.append("</h2>");
        },
        None => {},
    }
    assert(out@ =~= s1 + goal_heading(opt_text(*goal)));
    let ghost s2 = out@;
    match notes {
        Some(n) => {
            out.append("<p class='plan-notes'>");
            out.append(n.as_str());
            out.append("</p>");
        },
        None => {},
    }
    assert(out@ =~= s2 + plan_notes_line(opt_text(*notes)));
    out.append("</div>");
    assert(out@ =~= s0 + plan_info_html(opt_text(*goal), opt_text(*notes)));
}

fn push_level_legend(out: &mut String, levels: &[Level])
    ensures
        final(out)@ == old(out)@ + level_legend(levels_view(levels@)),
{
    let ghost s0 = out@;
    out.append("<div class='level-legend'>");
    out.append("<h3>Abstraction Levels</h3>");
    push_level_items(out, levels);
    out.append("</div>");
    assert(out@ =~= s0 + level_legend(levels_view(levels@)));
}

fn push_plan_section(out: &mut String, plan: &Plan, current: Option<&Current>)
    ensures
        final(out)@ == old(out)@ + plan_section(
            plan@.root.subtasks,
            match current {
                Some(c) => Some(c.index@),
                None => None,
            },
        ),
{
    let ghost s0 = out@;
    out.append("<div class='plan-section'>");
    out.append("<h2>Plan</h2>");
    let top = plan.root().subtasks();
    let path: Vec<usize> = Vec::new();
    assert(path@ =~= Seq::<usize>::empty());
    render_tasks_html(out, top, current, plan, path);
    out.append("</div>");
    let ghost cur = match current {
        Some(c) => Some(c.index@),
        None => None::<Seq<usize>>,
    };
    assert(out@ =~= s0 + plan_section(plan@.root.subtasks, cur));
}

fn push_history_panel(out: &mut String, history: &Vec<TransitionLogEntry>)
    ensures
        final(out)@ == old(out)@ + history_panel(entries_view(history@)),
{
    let ghost s0 = out@;
    out.append("<div class='history-panel'>");
    out.append("<h2>Transition History</h2>");
    out.append("<ul class='history-list'>");
    if history.len() == 0 {
        out.append("<li>No history yet.</li>");
    } else {
        push_history_items(out, history.as_slice());
    }
    out.append("</ul></div>");
    assert(out@ =~= s0 + history_panel(entries_view(history@)));
}

fn push_plan_id_script(out: &mut String, shown: u8)
    ensures
        final(out)@ == old(out)@ + plan_id_script(shown),
{
    let ghost s0 = out@;
    out.append("<script>const CURRENT_PLAN_ID = ");
    push_decimal(out, shown as usize);
    out.append(";</script>");
    assert(out@ =~= s0 + plan_id_script(shown));
}

/// Renders the page for plan `current_plan_id`: the tabs over all plans,
/// the plan's goal and notes, the level legend, the task tree, the current
/// task with its notes, the recent transitions newest first, and the script
/// that keeps the page live.
/// A current task must have a non-empty index, whether or not it has a
/// level of its own: the page is only ever given the task under a cursor
/// below the root.
pub fn render_ui_template(
    current_plan_id: &Lease,
    all_ids: &[Lease],
    plan: &Plan,
    current: Option<&Current>,
    distilled_context: &DistilledContext,
) -> (html: String)
    requires
        match current {
            Some(c) => c.index@.len() > 0,
            None => true,
        },
    ensures
        html@ == ui_page(
            lease_value(*current_plan_id),
            lease_values(all_ids@),
            plan@,
            current_view(current),
            opt_text(distilled_context.goal),
            opt_text(distilled_context.plan_notes),
            entries_view(distilled_context.transition_history@),
        ),
{
    let shown = current_plan_id.value();
    let mut html = String::new();
    html.append(HTML_TEMPLATE_HEADER);
    assert(html@ =~= HTML_TEMPLATE_HEADER@);
    push_plan_tabs(&mut html, shown, all_ids);
    push_plan_info(&mut html, &distilled_context.goal, &distilled_context.plan_notes);
    push_level_legend(&mut html, plan.levels());
    push_plan_section(&mut html, plan, current);
    let ghost s4 = html@;
    match current {
        Some(c) => push_current_section(&mut html, c),
        None => {},
    }
    assert(html@ == s4 + current_section(current_view(current)));
    push_history_panel(&mut html, &distilled_context.transition_history);
    push_plan_id_script(&mut html, shown);
    html.append(HTML_TEMPLATE_FOOTER);
    html
}

/// The link to one plan in the list of plans.
pub open spec fn plan_list_item(id: u8) -> Seq<char> {
    "<li><a href=\"/ui/"@ + decimal(id as nat) + "\">Plan "@ + decimal(id as nat) + "</a></li>"@
}

/// The links to the plans `ids`, in order.
pub open spec fn plan_list_items(ids: Seq<u8>) -> Seq<char>
    decreases ids.len(),
{
    if ids.len() == 0 {
        Seq::empty()
    } else {
        plan_list_items(ids.drop_last()) + plan_list_item(ids.last())
    }
}

/// The page that lists the plans `ids`.
pub open spec fn plan_list_page(ids: Seq<u8>) -> Seq<char> {
    "<!DOCTYPE html><html><head><title>Scatterbrain Plans</title></head><body>"@
        + "<h1>Available Scatterbrain Plans</h1>"@ + (if ids.len() == 0 {
        "<p>No plans found. Create one using the CLI: <code>scatterbrain plan create</code></p>"@
    } else {
        "<ul>"@ + plan_list_items(ids) + "</ul>"@
    }) + "</body></html>"@
}

/// Renders the page that lists the plans `ids`, each linking to its own
/// page.
pub fn render_plan_list_html(ids: &[Lease]) -> (html: String)
    ensures
        html@ == plan_list_page(lease_values(ids@)),
{
    let mut html = String::new();
    html.append("<!DOCTYPE html><html><head><title>Scatterbrain Plans</title></head><body>");
    html.append("<h1>Available Scatterbrain Plans</h1>");
    let ghost s0 = html@;
    if ids.len() == 0 {
        html.append("<p>No plans found. Create one using the CLI: <code>scatterbrain plan create</code></p>");
    } else {
        html.append("<ul>");
        let ghost start = html@;
        let mut i: usize = 0;
        while i < ids.len()
            invariant
                i <= ids@.len(),
                html@ == start + plan_list_items(lease_values(ids@).take(i as int)),
            decreases ids@.len() - i,
        {
            let id = ids[i].value();
            proof {
                assert(lease_values(ids@).take(i + 1).drop_last() =~= lease_values(ids@).take(i as int));
                assert(lease_values(ids@).take(i + 1).last() == id);
            }
            let ghost before = html@;
            html.append("<li><a href=\"/ui/");
            push_decimal(&mut html, id as usize);
            html.append("\">Plan ");
            push_decimal(&mut html, id as usize);
            html.append("</a></li>");
            assert(html@ =~= before + plan_list_item(id));
            i = i + 1;
        }
        assert(lease_values(ids@).take(ids@.len() as int) =~= lease_values(ids@));
        html.append("</ul>");
    }
    html.append("</body></html>");
    html
}

/// The index, level and task of the current task of a plan's state, where
/// its cursor resolves to one.
pub open spec fn current_of(c: ContextView) -> Option<(Seq<usize>, LevelView, TaskView)> {
    match current_with_history(c.plan, c.cursor) {
        Some(x) => Some((c.cursor, x.0, x.1)),
        None => None,
    }
}

/// The page for a plan with id `id` in state `c`, among the plans `ids`.
pub open spec fn plan_page(id: u8, ids: Seq<u8>, c: ContextView) -> Seq<char> {
    ui_page(id, ids, c.plan, current_of(c), c.plan.goal, c.plan.notes, c.history)
}

/// The page for a plan id that names no plan.
pub open spec fn missing_plan_page(id: u8) -> Seq<char> {
    "<h1>Plan Lease("@ + decimal(id as nat) + ") not found</h1>"@
}

fn error_page(prefix: &str, id: &Lease, error: &PlanError) -> (html: String)
    ensures
        html@ == prefix@ + "Lease("@ + decimal(lease_value(*id) as nat) + "): "@ + plan_error_text(*error)
            + "</h1>"@,
{
    let mut html = String::from_str(prefix);
    html.append("Lease(");
    push_decimal(&mut html, id.value() as usize);
    html.append("): ");
    let m = error.message();
    html.append(m.as_str());
    html.append("</h1>");
    html
}

/// Renders the page for the plan with id `id`: the page of its state among
/// all plans (listed in increasing order), or a short page saying that the
/// plan was not found.
pub fn render_plan_page(core: &Core, id: &Lease) -> (html: String)
    requires
        core.wf(),
    ensures
        !core@.contains_key(lease_value(*id)) ==> html@ == missing_plan_page(lease_value(*id)),
        core@.contains_key(lease_value(*id)) ==> exists|ids: Seq<u8>|
            {
                &&& ids.to_set() == core@.dom()
                &&& forall|i: int, j: int| 0 <= i < j < ids.len() ==> #[trigger] ids[i] < #[trigger] ids[j]
                &&& html@ == plan_page(lease_value(*id), ids, core@[lease_value(*id)])
            },
{
    let all_ids = match core.list_plans() {
        Ok(ids) => ids,
        Err(e) => {
            let mut html = String::from_str("<h1>Error loading plan list: ");
            let m = e.message();
            html.append(m.as_str());
            html.append("</h1>");
            return html;
        },
    };
    let ghost ids = lease_values(all_ids@);
    assert(ids =~= all_ids@.map_values(|l: Lease| lease_value(l)));
    match core.get_plan(id) {
        Ok(plan_response) => {
            let plan = plan_response.inner();
            let current = match core.current(id) {
                Ok(r) => r.into_inner(),
                Err(_) => None,
            };
            match core.distilled_context(id) {
                Ok(r) => {
                    let dc = r.context();
                    let ghost c = core@[lease_value(*id)];
                    proof {
                        match current_with_history(c.plan, c.cursor) {
                            Some(x) => {
                                assert(c.cursor.len() > 0);
                            },
                            None => {},
                        }
                        assert forall|i: int, j: int| 0 <= i < j < ids.len() implies #[trigger] ids[i]
                            < #[trigger] ids[j] by {
                            assert(ids[i] == lease_value(all_ids@[i]));
                            assert(ids[j] == lease_value(all_ids@[j]));
                        }
                    }
                    let cur_ref = current.as_ref();
                    proof {
                        assert(current_view(cur_ref) == current_of(c));
                    }
                    let html = render_ui_template(id, all_ids.as_slice(), plan, cur_ref, &dc);
                    html
                },
                Err(e) => error_page("<h1>Error loading context for plan ", id, &e),
            }
        },
        Err(PlanError::PlanNotFound(_)) => {
            let mut html = String::from_str("<h1>Plan Lease(");
            push_decimal(&mut html, id.value() as usize);
            html.append(") not found</h1>");
            html
        },
        Err(e) => error_page("<h1>Error loading plan ", id, &e),
    }
}

} // verus!
