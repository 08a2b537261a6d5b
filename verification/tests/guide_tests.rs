use scatterbrain::guide::{get_guide_string, GuideMode, PLAN_ID_ENV_VAR};

#[test]
fn test_get_guide_string_formatting() {
    let guide = get_guide_string(GuideMode::Cli);
    let env_var = PLAN_ID_ENV_VAR;

    assert!(
        guide.contains(&format!("Use 'export {env_var}=42'")),
        "Check export example format"
    );
    assert!(
        guide.contains(&format!("export {}={}", env_var, "42")),
        "Check export explanation format"
    );
    assert!(
        guide.contains("$ scatterbrain --plan=42 current"),
        "Check --plan flag example format"
    );
    assert!(
        guide.contains(&format!("(Ensure {}={} is set", env_var, "42")),
        "Check workflow guide format"
    );
    assert!(
        guide.contains(&format!("Use `export {env_var}=<id>`")),
        "Check best practices format"
    );

    assert!(guide.contains("== OVERVIEW =="), "Check overview section");
    assert!(
        guide.contains("== ABSTRACTION LEVELS EXPLAINED =="),
        "Check abstraction levels section"
    );
    assert!(
        guide.contains("== WORKFLOW GUIDE =="),
        "Check workflow section"
    );
    assert!(
        guide.contains("== COMMAND REFERENCE =="),
        "Check command reference section"
    );
    assert!(
        guide.contains("== BEST PRACTICES =="),
        "Check best practices section"
    );
}

#[test]
fn mcp_guide_names_the_tools_and_not_the_command_line() {
    let guide = get_guide_string(GuideMode::Mcp);
    assert!(guide.contains("== MCP TOOL REFERENCE =="));
    assert!(guide.contains("mcp_scatterbrain_create_plan"));
    assert!(guide.contains("== INDEX FORMAT =="));
    assert!(guide.contains("== OVERVIEW =="));
    assert!(guide.contains("== BEST PRACTICES =="));
    assert!(!guide.contains("== COMMAND REFERENCE =="));
    assert!(!guide.contains(PLAN_ID_ENV_VAR));
}

#[test]
fn cli_guide_sections_come_in_order() {
    let guide = get_guide_string(GuideMode::Cli);
    let overview = guide.find("== OVERVIEW ==").unwrap();
    let levels = guide.find("== ABSTRACTION LEVELS EXPLAINED ==").unwrap();
    let workflow = guide.find("== WORKFLOW GUIDE ==").unwrap();
    let reference = guide.find("== COMMAND REFERENCE ==").unwrap();
    let practices = guide.find("== BEST PRACTICES ==").unwrap();
    assert!(overview < levels);
    assert!(levels < workflow);
    assert!(workflow < reference);
    assert!(reference < practices);
}
