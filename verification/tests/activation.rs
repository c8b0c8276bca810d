use octos_agent::activate_tools::{ActivateToolsTool, ACTIVATE_TOOLS_NAME};
use octos_agent::context::HostHandle;
use octos_agent::json::{Json, JsonMember};
use octos_agent::policy::ToolPolicy;
use octos_agent::registry::{ToolRegistry, ToolSpec};
use octos_agent::tool::Tool;
use octos_agent::tool_entry::ToolEntry;

fn object(members: Vec<(&str, Json)>) -> Json {
    Json::Object(
        members
            .into_iter()
            .map(|(key, value)| JsonMember { key: key.to_string(), value })
            .collect(),
    )
}

fn text(s: &str) -> Json {
    Json::Str(s.to_string())
}

fn names(items: &[&str]) -> Json {
    Json::Array(items.iter().map(|s| text(s)).collect())
}

fn entry(tool: &ActivateToolsTool) -> ToolEntry {
    let mut entry = ToolEntry::named(tool.name());
    entry.description = tool.description().to_string();
    entry.input_schema = tool.input_schema();
    entry.tags = tool.tags();
    entry
}

fn ready() -> ActivateToolsTool {
    let mut tool = ActivateToolsTool::new();
    tool.set_registry(HostHandle { id: 1 });
    tool
}

fn activate_spec(registry: &mut ToolRegistry) -> ToolSpec {
    registry
        .specs()
        .into_iter()
        .find(|s| s.name == ACTIVATE_TOOLS_NAME)
        .expect("activate_tools registered above")
}

#[test]
fn activate_tools_spec_description_surfaces_deferred_names() {
    let mut registry = ToolRegistry::with_builtins("/tmp", &[]);
    registry.register(entry(&ActivateToolsTool::new()));
    registry.defer(&["web_search".to_string(), "web_fetch".to_string()]);

    let spec = activate_spec(&mut registry);

    assert!(spec.description.contains("Load additional tools"), "{}", spec.description);
    assert!(spec.description.contains("web_search"), "{}", spec.description);
    assert!(spec.description.contains("web_fetch"), "{}", spec.description);
}

#[test]
fn activate_tools_spec_description_filters_policy_denied_deferred_names() {
    let mut registry = ToolRegistry::with_builtins("/tmp", &[]);
    registry.register(entry(&ActivateToolsTool::new()));
    registry.defer(&["web_search".to_string(), "web_fetch".to_string()]);
    let mut policy = ToolPolicy::default();
    policy.deny.push("web_search".to_string());
    registry.set_provider_policy(policy);

    let spec = activate_spec(&mut registry);

    assert!(spec.description.contains("web_fetch"), "{}", spec.description);
    assert!(!spec.description.contains("web_search"), "{}", spec.description);
}

#[test]
fn activate_tools_execute_output_filters_policy_denied_group_members() {
    let mut registry = ToolRegistry::with_builtins("/tmp", &[]);
    registry.defer_group("group:web");
    let mut policy = ToolPolicy::default();
    policy.deny.push("web_search".to_string());
    registry.set_provider_policy(policy);

    let tool = ready();

    let list = tool.execute(&mut registry, &object(vec![])).unwrap();
    assert!(list.success);
    assert!(list.output.contains("web_fetch"), "{}", list.output);
    assert!(!list.output.contains("web_search"), "{}", list.output);

    let loaded = tool
        .execute(&mut registry, &object(vec![("tools", names(&["web_fetch"]))]))
        .unwrap();
    assert!(loaded.success);
    assert!(loaded.output.contains("web_fetch"), "{}", loaded.output);
    assert!(!loaded.output.contains("web_search"), "{}", loaded.output);
}

#[test]
fn activate_tools_spec_description_unchanged_when_nothing_deferred() {
    let mut registry = ToolRegistry::with_builtins("/tmp", &[]);
    registry.register(entry(&ActivateToolsTool::new()));
    let spec = activate_spec(&mut registry);
    assert!(!spec.description.contains("Currently deferred"), "{}", spec.description);
    assert_eq!(spec.description, ActivateToolsTool::new().description());
}

#[test]
fn should_list_deferred_groups_when_no_args() {
    let mut registry = ToolRegistry::with_builtins("/tmp", &[]);
    registry.defer_group("group:web");

    let result = ready().execute(&mut registry, &object(vec![])).unwrap();
    assert!(result.success);
    assert!(result.output.contains("web_search"));
    assert!(result.output.contains("web_fetch"));
}

#[test]
fn only_deferred_tools_are_offered() {
    let mut registry = ToolRegistry::with_builtins("/tmp", &[]);
    registry.defer(&["web_search".to_string()]);
    let result = ready().execute(&mut registry, &object(vec![])).unwrap();
    assert!(result.success);
    assert_eq!(
        result.output,
        "Available tools to load: web_search. Call activate_tools with [\"tool1\", \"tool2\"] to load them."
    );
}

#[test]
fn should_activate_group_and_return_names() {
    let mut registry = ToolRegistry::with_builtins("/tmp", &[]);
    registry.defer_group("group:web");
    assert!(!registry.specs().iter().any(|s| s.name == "web_search"));

    let result = ready()
        .execute(&mut registry, &object(vec![("group", text("group:web"))]))
        .unwrap();
    assert!(result.success);
    assert!(result.output.contains("web_search"));

    assert!(registry.specs().iter().any(|s| s.name == "web_search"));
}

#[test]
fn should_report_no_deferred_when_all_active() {
    let mut registry = ToolRegistry::with_builtins("/tmp", &[]);
    let result = ready().execute(&mut registry, &object(vec![])).unwrap();
    assert!(result.success);
    assert!(result.output.contains("already active"));
}

#[test]
fn should_fail_on_unknown_group() {
    let mut registry = ToolRegistry::with_builtins("/tmp", &[]);
    registry.defer_group("group:web");
    let result = ready()
        .execute(&mut registry, &object(vec![("group", text("group:nonexistent"))]))
        .unwrap();
    assert!(!result.success);
    assert_eq!(
        result.output,
        "No tools matched. Call activate_tools with no arguments to see available tools."
    );
}

#[test]
fn should_report_tool_already_active() {
    let mut registry = ToolRegistry::with_builtins("/tmp", &[]);
    let result = ready()
        .execute(&mut registry, &object(vec![("tools", names(&["shell"]))]))
        .unwrap();
    assert!(result.success);
    assert!(result.output.contains("Already active"));
    assert!(result.output.contains("shell"));
}

#[test]
fn should_report_group_already_active() {
    let mut registry = ToolRegistry::with_builtins("/tmp", &[]);
    let result = ready()
        .execute(&mut registry, &object(vec![("group", text("group:web"))]))
        .unwrap();
    assert!(result.success);
    assert!(result.output.contains("Already active"));
    assert!(result.output.contains("web_search"));
    assert!(result.output.contains("browser"));
}

#[test]
fn loaded_and_active_tools_are_told_apart() {
    let mut registry = ToolRegistry::with_builtins("/tmp", &[]);
    registry.register(ToolEntry::named("mofa_slides"));
    registry.defer(&["mofa_slides".to_string()]);
    let result = ready()
        .execute(&mut registry, &object(vec![("tools", names(&["mofa_slides", "shell"]))]))
        .unwrap();
    assert!(result.success);
    assert_eq!(result.output, "Loaded 1 tool(s): mofa_slides. Already active: shell");
}

#[test]
fn without_a_registry_nothing_is_activated() {
    let mut registry = ToolRegistry::with_builtins("/tmp", &[]);
    registry.defer_group("group:web");
    let error = ActivateToolsTool::new()
        .execute(&mut registry, &object(vec![("group", text("group:web"))]))
        .unwrap_err();
    assert_eq!(error, "tool registry not available");
    assert!(registry.has_deferred());
}
