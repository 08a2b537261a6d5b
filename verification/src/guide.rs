//! The usage guide, in a form for the command line and a form for tool
//! calls over the Model Context Protocol.

use vstd::prelude::*;

verus! {

/// Which interface the guide is written for.
#[derive(Debug, Clone, Copy)]
pub enum GuideMode {
    /// Command-line interface mode
    Cli,
    /// Model Context Protocol mode
    Mcp,
}

/// The environment variable that names the active plan on the command line.
pub const PLAN_ID_ENV_VAR: &'static str = "SCATTERBRAIN_PLAN_ID";
/// The command-line section on plans, up to the first mention of the variable.
pub const CLI_GETTING_STARTED_0: &'static str = "== GETTING STARTED: PLANS ==\n\nScatterbrain organizes work into separate \"plans\". Each command needs to know which plan you're working on.\n\n1. CREATE A PLAN FROM A PROMPT:\n   $ scatterbrain plan create \"My new project goal\" [--notes <TEXT>]\n   > Created new plan with ID: 42\n   > Plan 42 created with goal: \"My new project goal\"\n   > Use 'export ";
/// The command-line section on plans, between the mentions of the variable.
pub const CLI_GETTING_STARTED_1: &'static str = "=42' to set this plan as default for your session.\n   > --- Scatterbrain Guide ---\n   > (The rest of this guide will be printed here)\n   > --------------------------\n   Tip: Keep the <prompt> concise (like a title). Use the optional --notes flag\n   to add more detailed descriptions, context, or acceptance criteria, especially\n   for non-trivial plans.\n\n2. SPECIFY THE ACTIVE PLAN:\n   You MUST tell scatterbrain which plan to use in one of two ways:\n\n   a) ENVIRONMENT VARIABLE (Recommended for sessions):\n      $ export ";
/// The command-line section on plans, after the last mention of the variable.
pub const CLI_GETTING_STARTED_2: &'static str = "=42\n      $ scatterbrain current  # Now works with plan 42\n\n   b) --plan FLAG (Overrides env var for a single command):\n      $ scatterbrain --plan=42 current\n\n3. LIST PLANS:\n   $ scatterbrain plan list";
/// The command-line workflow guide, before the mention of the variable.
pub const CLI_WORKFLOW_0: &'static str = "== WORKFLOW GUIDE ==\n\n(Ensure ";
/// The command-line workflow guide, after the mention of the variable.
pub const CLI_WORKFLOW_1: &'static str = "=42 is set or use --plan=<id> for each command)\n\n1. CREATE A PLAN AND NAVIGATE THE LEVELS\n   - Begin at Level 0 with high-level planning:\n     $ scatterbrain task add --level 0 \"Design system architecture\"\n     $ scatterbrain move 0\n\n   - Add subtasks at appropriate levels:\n     $ scatterbrain task add --level 1 \"Identify core components\"\n     $ scatterbrain move 0,0\n\n   - Continue adding more granular tasks at deeper levels\n\n2. STAY ON TRACK\n   - Regularly review your plan:\n     $ scatterbrain plan show\n\n   - Focus on your current task:\n     $ scatterbrain current\n\n   - Get a distilled context:\n     $ scatterbrain distilled\n\n   - Complete tasks when finished:\n     $ scatterbrain task complete --summary \"Implemented the feature\"\n\n   - Complete tasks requiring a lease:\n     Some tasks require a 'lease' token for completion, ensuring only one agent\n     attempts completion at a time.\n     1. Generate the lease for the task:\n        $ scatterbrain task lease <INDEX>  # e.g., scatterbrain task lease 0,1,2\n        > Generated lease 123 for task at index: 0,1,2\n     2. Complete the task using the generated lease ID and provide a summary:\n        $ scatterbrain task complete --lease 123 --summary \"Completed task with lease\"\n\n     Note: If the lease doesn't match, completion will fail unless you use --force.\n     Using --force bypasses both lease and summary checks; use it sparingly.\n     $ scatterbrain task complete --force\n\n   - Move between tasks to adapt to changing priorities:\n     $ scatterbrain move 1,2\n\n3. PROGRESSIVE REFINEMENT\n   - Start with broad strokes at Level 0\n   - Refine details as you move to deeper levels\n   - Complete higher-level tasks only when all subtasks are done\n   - Use completed tasks to validate your approach";
/// The command-line command reference.
pub const CLI_COMMAND_REFERENCE: &'static str = "== COMMAND REFERENCE ==\n\nGLOBAL FLAGS:\n  --plan=<id>                                            Specify the plan ID for this command (overrides env var)\n  --server=<url>                                         Specify the server URL (default: http://localhost:3000)\n\nPLAN MANAGEMENT (scatterbrain plan ...):\n  $ scatterbrain plan create \"<prompt>\" [--notes <TEXT>] Create a new plan. Use a short prompt/title and add details via --notes. Prints ID and guide.\n  $ scatterbrain plan delete <id>                        Delete a plan by its ID\n  $ scatterbrain plan list                               List available plan IDs\n  $ scatterbrain plan show                               View the full plan with all tasks\n\nTASK MANAGEMENT (scatterbrain task ...):\n  $ scatterbrain task add --level <LEVEL> --notes <TEXT> \"Description\" Create new task (level required, notes required)\n                                                         Note: Adding a subtask marks parents incomplete.\n  $ scatterbrain task complete --index <INDEX> [--lease <ID>] [--force] [--summary <TEXT>] Complete task at specified index (summary required unless --force)\n  $ scatterbrain task change-level <LEVEL_INDEX>         Change current task's abstraction level\n  $ scatterbrain task lease <INDEX>                      Generate a lease for a task\n  $ scatterbrain task remove <INDEX>                     Remove a task by its index (e.g., 0,1,2)\n  $ scatterbrain task uncomplete <INDEX>                 Uncomplete a task by its index\n  $ scatterbrain task notes view <INDEX>                 View notes for a specific task\n  $ scatterbrain task notes set <INDEX> \"<NOTES>\"        Set notes for a specific task\n  $ scatterbrain task notes delete <INDEX>               Delete notes for a specific task\n\nNAVIGATION & VIEWING (scatterbrain ...):\n  $ scatterbrain move <INDEX>                            Navigate to a task (e.g., 0 or 0,1,2)\n  $ scatterbrain current                                 View details of the current task\n  $ scatterbrain distilled                               View a distilled context of your plan\n\nSERVER MANAGEMENT (scatterbrain serve ...):\n  $ scatterbrain serve                                   Start API server (default port 3000)\n  $ scatterbrain serve --port <PORT>                     Start API server on a custom port\n  $ scatterbrain serve --example                         Start with example task tree (plan ID 0)\n\nHELP & UTILITIES (scatterbrain ...):\n  $ scatterbrain guide                                   Show this guide\n  $ scatterbrain completions <SHELL>                     Generate shell completions\n  $ scatterbrain <COMMAND> --help                        Show help for a specific command";
/// Command-line advice on managing plans, before the mention of the variable.
pub const CLI_PLAN_SPECIFICS_0: &'static str = "• Use `export ";
/// Command-line advice on managing plans, after the mention of the variable.
pub const CLI_PLAN_SPECIFICS_1: &'static str = "=<id>` for most work within a shell session.\n  • Use `--plan=<id>` for one-off commands targeting a different plan.\n  • Regularly use `plan list` to see available plans.";
/// The tool-call section on plans.
pub const MCP_GETTING_STARTED: &'static str = "== GETTING STARTED: PLANS ==\n\nScatterbrain organizes work into separate \"plans\". Each MCP tool call needs to specify which plan you're working on via the plan_id parameter.\n\n1. CREATE A PLAN:\n   Use: mcp_scatterbrain_create_plan\n   Parameters: prompt (required), notes (optional)\n   Returns: Plan ID (0-255)\n   \n   Example: Create a plan with prompt \"Build web application\" and optional notes\n   The plan ID returned (e.g., 42) will be used in all subsequent operations.\n\n2. LIST AVAILABLE PLANS:\n   Use: mcp_scatterbrain_list_plans\n   Returns: List of all plan IDs\n\n3. DELETE A PLAN:\n   Use: mcp_scatterbrain_delete_plan\n   Parameters: plan_id";
/// The tool-call workflow guide.
pub const MCP_WORKFLOW: &'static str = "== WORKFLOW GUIDE ==\n\n1. CREATE AND STRUCTURE YOUR PLAN\n   a) Create a plan:\n      mcp_scatterbrain_create_plan(prompt=\"Your project goal\", notes=\"Optional details\")\n      \n   b) Add high-level tasks (Level 0):\n      mcp_scatterbrain_add_task(plan_id=42, description=\"Design system architecture\", level_index=0)\n      \n   c) Navigate to the task:\n      mcp_scatterbrain_move_to(plan_id=42, index=\"0\")\n      \n   d) Add subtasks at appropriate levels:\n      mcp_scatterbrain_add_task(plan_id=42, description=\"Identify core components\", level_index=1)\n\n2. TRACK PROGRESS AND STAY FOCUSED\n   a) View your current position:\n      mcp_scatterbrain_get_current(plan_id=42)\n      \n   b) Get distilled context:\n      mcp_scatterbrain_get_distilled_context(plan_id=42)\n      \n   c) View the full plan:\n      mcp_scatterbrain_get_plan(plan_id=42)\n\n3. COMPLETE TASKS AND MANAGE WORKFLOW\n   a) Generate a lease for task completion (when required):\n      mcp_scatterbrain_generate_lease(plan_id=42, index=\"0,1,2\")\n      \n   b) Complete tasks:\n      mcp_scatterbrain_complete_task(plan_id=42, index=\"0,1,2\", lease=123, summary=\"Task completed\")\n      \n   c) Navigate between tasks:\n      mcp_scatterbrain_move_to(plan_id=42, index=\"1,2\")\n      \n   d) Change task abstraction levels:\n      mcp_scatterbrain_change_level(plan_id=42, index=\"0,1\", level_index=2)\n\n4. MANAGE TASK NOTES\n   a) Add notes to tasks:\n      mcp_scatterbrain_set_task_notes(plan_id=42, index=\"0,1\", notes=\"Implementation details...\")\n      \n   b) View task notes:\n      mcp_scatterbrain_get_task_notes(plan_id=42, index=\"0,1\")\n      \n   c) Delete task notes:\n      mcp_scatterbrain_delete_task_notes(plan_id=42, index=\"0,1\")";
/// The tool-call reference.
pub const MCP_TOOL_REFERENCE: &'static str = "== MCP TOOL REFERENCE ==\n\nPLAN MANAGEMENT:\n  mcp_scatterbrain_create_plan(prompt, notes?)     Create a new plan with required prompt and optional notes\n  mcp_scatterbrain_delete_plan(plan_id)           Delete a plan by its ID\n  mcp_scatterbrain_list_plans()                   List all available plan IDs\n  mcp_scatterbrain_get_plan(plan_id)              Get full plan details\n\nNAVIGATION & VIEWING:\n  mcp_scatterbrain_get_current(plan_id)           Get details of the current task\n  mcp_scatterbrain_get_distilled_context(plan_id) Get distilled context of the plan\n  mcp_scatterbrain_move_to(plan_id, index)        Navigate to a specific task (e.g., \"0,1,2\")\n\nTASK MANAGEMENT:\n  mcp_scatterbrain_add_task(plan_id, description, level_index, notes?) Create new task at specified level\n  mcp_scatterbrain_complete_task(plan_id, index, lease?, force?, summary?) Complete a task\n  mcp_scatterbrain_uncomplete_task(plan_id, index) Uncomplete a task\n  mcp_scatterbrain_remove_task(plan_id, index)    Remove a task by its index\n  mcp_scatterbrain_change_level(plan_id, index, level_index) Change task's abstraction level\n  mcp_scatterbrain_generate_lease(plan_id, index) Generate a lease token for task completion\n\nNOTES MANAGEMENT:\n  mcp_scatterbrain_get_task_notes(plan_id, index) Get notes for a specific task\n  mcp_scatterbrain_set_task_notes(plan_id, index, notes) Set notes for a specific task\n  mcp_scatterbrain_delete_task_notes(plan_id, index) Delete notes for a specific task\n\nHELP:\n  mcp_scatterbrain_get_guide()                    Show this comprehensive guide";
/// The tool-call sections on index format, leases and help.
pub const MCP_ADDITIONAL_SECTIONS: &'static str = "== INDEX FORMAT ==\n\nTask indices use comma-separated format to represent the hierarchical path:\n- \"0\" = First top-level task\n- \"0,1\" = Second subtask of the first top-level task\n- \"0,1,2\" = Third subtask of the second subtask of the first top-level task\n\n== TASK COMPLETION AND LEASES ==\n\nSome tasks may require a 'lease' token for completion, ensuring proper coordination:\n\n1. Generate a lease:\n   mcp_scatterbrain_generate_lease(plan_id=42, index=\"0,1,2\")\n   Returns: lease token (e.g., 123) and verification suggestions\n\n2. Complete with lease:\n   mcp_scatterbrain_complete_task(plan_id=42, index=\"0,1,2\", lease=123, summary=\"Completed task\")\n\n3. Force completion (bypass lease and summary requirements):\n   mcp_scatterbrain_complete_task(plan_id=42, index=\"0,1,2\", force=true)\n\nNote: Use force completion sparingly, as it bypasses important coordination mechanisms.\n\n== GETTING HELP ==\n\n- Use mcp_scatterbrain_get_guide() to view this guide anytime\n- Use mcp_scatterbrain_get_distilled_context() to understand your current planning state\n- Each tool provides detailed error messages for invalid parameters or operations";
/// The closing message of the tool-call guide.
pub const MCP_CLOSING_MESSAGE: &'static str = "Remember: Scatterbrain is designed to help you think systematically about complex problems.\nUse the abstraction levels to guide your thinking from high-level architecture down to\nspecific implementation tasks.";
/// Tool-call advice on managing plans.
pub const MCP_PLAN_SPECIFICS: &'static str = "• Keep plan prompts concise but descriptive\n  • Use notes for detailed requirements and context\n  • Create separate plans for different projects or major features";
/// The overview shared by both guides.
pub const OVERVIEW_SECTION: &'static str = "Scatterbrain is a hierarchical planning and task management tool designed to help\nbreak down complex projects into manageable tasks through multiple abstraction levels.\n\n== OVERVIEW ==\n\nScatterbrain helps you:\n- Structure complex tasks in a logical hierarchy\n- Navigate between different levels of abstraction\n- Track progress and maintain focus\n- Adapt your plan as work progresses\n- Manage multiple, separate plans simultaneously";
/// The explanation of the abstraction levels shared by both guides.
pub const ABSTRACTION_LEVELS_SECTION: &'static str = "== ABSTRACTION LEVELS EXPLAINED ==\n\nScatterbrain uses a multi-level approach to planning:\n\nLevel 0 - High-level planning: Identifying architecture, scope, and approach\n   - Focus on simplicity, extensibility, and good abstractions\n   - Set the overall direction and boundaries of your project\n   - Ask: \"What's the overall architecture?\" \"Which approach should we take?\"\n\nLevel 1 - Isolation: Breaking down the plan into discrete, independent parts\n   - Define boundaries between components\n   - Establish interfaces and contracts\n   - Ensure each part can be completed and verified independently\n   - Ask: \"What are the interfaces?\" \"How should we divide this into parts?\"\n\nLevel 2 - Ordering: Sequencing the parts in a logical flow\n   - Start with foundational building blocks\n   - Identify dependencies between tasks\n   - Plan the critical path\n   - Ask: \"What order should we implement these?\" \"Which parts come first?\"\n\nLevel 3 - Implementation: Converting each part into specific, actionable tasks\n   - Define concrete, actionable steps\n   - Detail exact implementation requirements\n   - Make tasks independently completable\n   - Ask: \"What specific changes are needed?\" \"What files need modification?\"";
/// The advice on moving between levels shared by both guides.
pub const TRANSITIONING_LEVELS_SECTION: &'static str = "== TRANSITIONING BETWEEN LEVELS ==\n\nMOVING DOWN (Higher to Lower Level Numbers):\n  Level 0 → Level 1:\n  • When your high-level approach is clear\n  • When you're ready to define component boundaries\n  • When you need to establish contracts between components\n\n  Level 1 → Level 2:\n  • When component boundaries are well-defined\n  • When you need to determine implementation sequence\n  • When you're ready to identify dependencies\n\n  Level 2 → Level 3:\n  • When the implementation sequence is clear\n  • When you're ready to define specific tasks\n  • When you're prepared to execute the implementation plan\n\nMOVING UP (Lower to Higher Level Numbers):\n  Level 3 → Level 2:\n  • When you've completed implementation tasks\n  • When you need to reorganize remaining task sequence\n  • When you need to reprioritize work\n\n  Level 2 → Level 1:\n  • When you discover issues with component interfaces\n  • When integration is more complex than expected\n  • When you need to redefine component boundaries\n\n  Level 1 → Level 0:\n  • When you find fundamental flaws in the approach\n  • When components don't form a coherent system\n  • When you need to rethink the entire architecture";
/// The best-practices section, before the mode's advice on plans.
pub const BEST_PRACTICES_0: &'static str = "== BEST PRACTICES ==\n\nPLAN MANAGEMENT:\n  ";
/// The best-practices section, after the mode's advice on plans.
pub const BEST_PRACTICES_1: &'static str = "\n\nTASK ORGANIZATION:\n  • Start with broad, high-level tasks (Level 0)\n  • Break down into components and interfaces (Level 1)\n  • Define implementation sequence (Level 2)\n  • Create specific, actionable tasks (Level 3)\n\nWORKFLOW:\n  • Use current task and distilled context views regularly to stay oriented\n  • Complete higher-level tasks only when all subtasks are done\n  • Use task notes to capture important implementation details\n  • Generate leases for critical tasks to ensure proper completion tracking\n\nPROGRESSIVE REFINEMENT:\n  • Start with broad strokes at higher abstraction levels\n  • Refine details as you move to lower levels\n  • Use completed tasks to validate your approach\n  • Adapt the plan as you discover new requirements or constraints";

/// The parts of the guide that differ between the two modes.
struct GuideConfig {
    title: &'static str,
    getting_started: String,
    workflow_guide: String,
    command_reference: String,
    additional_sections: String,
    closing_message: &'static str,
    plan_management_specifics: String,
}

/// The content of the mode-specific parts of the guide.
pub struct GuideConfigView {
    pub title: Seq<char>,
    pub getting_started: Seq<char>,
    pub workflow_guide: Seq<char>,
    pub command_reference: Seq<char>,
    pub additional_sections: Seq<char>,
    pub closing_message: Seq<char>,
    pub plan_management_specifics: Seq<char>,
}

/// The mode-specific parts of the command-line guide.
pub open spec fn cli_config() -> GuideConfigView {
    GuideConfigView {
        title: "SCATTERBRAIN GUIDE"@,
        getting_started: CLI_GETTING_STARTED_0@ + PLAN_ID_ENV_VAR@ + CLI_GETTING_STARTED_1@ + PLAN_ID_ENV_VAR@
            + CLI_GETTING_STARTED_2@,
        workflow_guide: CLI_WORKFLOW_0@ + PLAN_ID_ENV_VAR@ + CLI_WORKFLOW_1@,
        command_reference: CLI_COMMAND_REFERENCE@,
        additional_sections: Seq::empty(),
        closing_message: ""@,
        plan_management_specifics: CLI_PLAN_SPECIFICS_0@ + PLAN_ID_ENV_VAR@ + CLI_PLAN_SPECIFICS_1@,
    }
}

/// The mode-specific parts of the tool-call guide.
pub open spec fn mcp_config() -> GuideConfigView {
    GuideConfigView {
        title: "SCATTERBRAIN MCP GUIDE"@,
        getting_started: MCP_GETTING_STARTED@,
        workflow_guide: MCP_WORKFLOW@,
        command_reference: MCP_TOOL_REFERENCE@,
        additional_sections: MCP_ADDITIONAL_SECTIONS@,
        closing_message: MCP_CLOSING_MESSAGE@,
        plan_management_specifics: MCP_PLAN_SPECIFICS@,
    }
}

/// The best-practices section around a mode's advice on plans.
pub open spec fn best_practices_text(plan_specifics: Seq<char>) -> Seq<char> {
    BEST_PRACTICES_0@ + plan_specifics + BEST_PRACTICES_1@
}

/// The whole guide for the given mode-specific parts.
pub open spec fn guide_text(c: GuideConfigView) -> Seq<char> {
    "=== "@ + c.title + " ===\n\n"@ + OVERVIEW_SECTION@ + "\n\n"@ + c.getting_started + "\n\n"@
        + ABSTRACTION_LEVELS_SECTION@ + "\n\n"@ + TRANSITIONING_LEVELS_SECTION@ + "\n\n"@ + c.workflow_guide
        + "\n\n"@ + c.command_reference + "\n\n"@ + best_practices_text(c.plan_management_specifics) + "\n\n"@
        + c.additional_sections + "\n\n"@ + c.closing_message
}

/// The guide for a mode.
pub open spec fn guide_for(mode: GuideMode) -> Seq<char> {
    match mode {
        GuideMode::Cli => guide_text(cli_config()),
        GuideMode::Mcp => guide_text(mcp_config()),
    }
}

impl GuideConfig {
    closed spec fn view(&self) -> GuideConfigView {
        GuideConfigView {
            title: self.title@,
            getting_started: self.getting_started@,
            workflow_guide: self.workflow_guide@,
            command_reference: self.command_reference@,
            additional_sections: self.additional_sections@,
            closing_message: self.closing_message@,
            plan_management_specifics: self.plan_management_specifics@,
        }
    }

    fn cli() -> (c: Self)
        ensures
            c.view() == cli_config(),
    {
        let env_var = PLAN_ID_ENV_VAR;
        let mut getting_started = String::from_str(CLI_GETTING_STARTED_0);
        getting_started.append(env_var);
        getting_started.append(CLI_GETTING_STARTED_1);
        getting_started.append(env_var);
        getting_started.append(CLI_GETTING_STARTED_2);
        let mut workflow_guide = String::from_str(CLI_WORKFLOW_0);
        workflow_guide.append(env_var);
        workflow_guide.append(CLI_WORKFLOW_1);
        let mut plan_management_specifics = String::from_str(CLI_PLAN_SPECIFICS_0);
        plan_management_specifics.append(env_var);
        plan_management_specifics.append(CLI_PLAN_SPECIFICS_1);
        let additional_sections = String::new();
        GuideConfig {
            title: "SCATTERBRAIN GUIDE",
            getting_started,
            workflow_guide,
            command_reference: String::from_str(CLI_COMMAND_REFERENCE),
            additional_sections,
            closing_message: "",
            plan_management_specifics,
        }
    }

    fn mcp() -> (c: Self)
        ensures
            c.view() == mcp_config(),
    {
        GuideConfig {
            title: "SCATTERBRAIN MCP GUIDE",
            getting_started: String::from_str(MCP_GETTING_STARTED),
            workflow_guide: String::from_str(MCP_WORKFLOW),
            command_reference: String::from_str(MCP_TOOL_REFERENCE),
            additional_sections: String::from_str(MCP_ADDITIONAL_SECTIONS),
            closing_message: MCP_CLOSING_MESSAGE,
            plan_management_specifics: String::from_str(MCP_PLAN_SPECIFICS),
        }
    }
}

/// The overview shared by both guides.
pub fn get_overview_section() -> (s: &'static str)
    ensures
        s@ == OVERVIEW_SECTION@,
{
    OVERVIEW_SECTION
}

/// The explanation of the abstraction levels shared by both guides.
pub fn get_abstraction_levels_section() -> (s: &'static str)
    ensures
        s@ == ABSTRACTION_LEVELS_SECTION@,
{
    ABSTRACTION_LEVELS_SECTION
}

/// The advice on moving between levels shared by both guides.
pub fn get_transitioning_levels_section() -> (s: &'static str)
    ensures
        s@ == TRANSITIONING_LEVELS_SECTION@,
{
    TRANSITIONING_LEVELS_SECTION
}

fn get_best_practices_section(config: &GuideConfig) -> (s: String)
    ensures
        s@ == best_practices_text(config.view().plan_management_specifics),
{
    let mut s = String::from_str(BEST_PRACTICES_0);
    s.append(config.plan_management_specifics.as_str());
    s.append(BEST_PRACTICES_1);
    s
}

/// The complete guide for the given mode.
pub fn get_guide_string(mode: GuideMode) -> (s: String)
    ensures
        s@ == guide_for(mode),
{
    let config = match mode {
        GuideMode::Cli => GuideConfig::cli(),
        GuideMode::Mcp => GuideConfig::mcp(),
    };
    let mut s = String::from_str("=== ");
    s.append(config.title);
    s.append(" ===\n\n");
    s.append(get_overview_section());
    s.append("\n\n");
    s.append(config.getting_started.as_str());
    s.append("\n\n");
    s.append(get_abstraction_levels_section());
    s.append("\n\n");
    s.append(get_transitioning_levels_section());
    s.append("\n\n");
    s.append(config.workflow_guide.as_str());
    s.append("\n\n");
    s.append(config.command_reference.as_str());
    s.append("\n\n");
    let best_practices = get_best_practices_section(&config);
    s.append(best_practices.as_str());
    s.append("\n\n");
    s.append(config.additional_sections.as_str());
    s.append("\n\n");
    s.append(config.closing_message);
    s
}

} // verus!
