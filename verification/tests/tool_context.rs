use octos_agent::context::{ConcurrencyClass, ToolContext, ToolResult, TurnAttachmentContext};
use octos_agent::json::Json;
use octos_agent::permissions::ToolPermissions;
use octos_agent::profile::{
    PermissionMode, ProfileDefinition, ProfileTools, PROFILE_SCHEMA_VERSION,
};
use octos_agent::tool::Tool;

struct PlainTool;

impl Tool for PlainTool {
    fn name(&self) -> &str {
        "legacy"
    }
    fn description(&self) -> &str {
        "legacy"
    }
    fn input_schema(&self) -> Json {
        Json::Object(Vec::new())
    }
}

struct ContextAwareTool;

impl Tool for ContextAwareTool {
    fn name(&self) -> &str {
        "ctx_aware"
    }
    fn description(&self) -> &str {
        "ctx"
    }
    fn input_schema(&self) -> Json {
        Json::Object(Vec::new())
    }
}

struct ExclusiveStubTool;

impl Tool for ExclusiveStubTool {
    fn name(&self) -> &str {
        "exclusive_stub"
    }
    fn description(&self) -> &str {
        "stub"
    }
    fn input_schema(&self) -> Json {
        Json::Object(Vec::new())
    }
    fn concurrency_class(&self) -> ConcurrencyClass {
        ConcurrencyClass::Exclusive
    }
}

#[test]
fn should_construct_zero_value_tool_context() {
    let ctx = ToolContext::zero();
    assert!(ctx.tool_id.is_empty());
    assert!(ctx.harness_event_sink.is_none());
    assert!(ctx.attachment_paths.is_empty());
    assert!(ctx.audio_attachment_paths.is_empty());
    assert!(ctx.file_attachment_paths.is_empty());
    assert!(ctx.agent_definitions.is_empty());
    assert!(ctx.permissions.is_tool_allowed("any_tool"));
    assert!(ctx.file_state_cache.is_none());
    assert!(ctx.notifications.is_empty());
    let _cloned = ctx.app_state.clone();
}

#[test]
fn a_zero_context_holds_nothing_of_a_parent() {
    let ctx = ToolContext::zero();
    assert!(ctx.subagent_output_router.is_none());
    assert!(ctx.subagent_summary_generator.is_none());
    assert!(ctx.task_supervisor.is_none());
    assert!(ctx.cost_accountant.is_none());
    assert!(ctx.parent_session_key.is_none());
    assert_eq!(ctx.spawn_depth, 0);
}

#[test]
fn default_concurrency_class_is_safe() {
    let tool = PlainTool;
    assert_eq!(tool.concurrency_class(), ConcurrencyClass::Safe);
    let ctx_tool = ContextAwareTool;
    assert_eq!(ctx_tool.concurrency_class(), ConcurrencyClass::Safe);
}

#[test]
fn default_tags_are_empty() {
    assert!(PlainTool.tags().is_empty());
}

#[test]
fn override_returns_exclusive() {
    let tool = ExclusiveStubTool;
    assert_eq!(tool.concurrency_class(), ConcurrencyClass::Exclusive);
}

#[test]
fn concurrency_class_is_copy_eq_default() {
    let a: ConcurrencyClass = ConcurrencyClass::default();
    let b = a;
    assert_eq!(a, b);
    assert_eq!(ConcurrencyClass::default(), ConcurrencyClass::Safe);
}

#[test]
fn a_default_result_is_an_empty_failure() {
    let r = ToolResult::default();
    assert_eq!(r.output, "");
    assert!(!r.success);
    assert!(r.file_modified.is_none());
    assert!(r.files_to_send.is_empty());
    assert!(r.tokens_used.is_none());
    assert!(r.structured_metadata.is_none());
}

#[test]
fn a_default_attachment_context_is_empty() {
    let c = TurnAttachmentContext::default();
    assert!(c.attachment_paths.is_empty());
    assert!(c.audio_attachment_paths.is_empty());
    assert!(c.file_attachment_paths.is_empty());
    assert!(c.prompt_summary.is_none());
}

fn make_profile(name: &str, tools: ProfileTools) -> ProfileDefinition {
    ProfileDefinition {
        name: name.to_string(),
        version: PROFILE_SCHEMA_VERSION,
        tools,
        ..Default::default()
    }
}

#[test]
fn should_allow_all_tools_when_profile_uses_default_filter() {
    let profile = make_profile("default", ProfileTools::Default);
    let permissions = ToolPermissions::from_profile(&profile);
    assert!(permissions.is_tool_allowed("read_file"));
    assert!(permissions.is_tool_allowed("shell"));
    assert!(permissions.is_tool_allowed("anything_else"));
}

#[test]
fn should_deny_listed_tools_when_profile_uses_deny_list() {
    let profile =
        make_profile("no-shell", ProfileTools::DenyList { tools: vec!["shell".to_string()] });
    let permissions = ToolPermissions::from_profile(&profile);
    assert!(!permissions.is_tool_allowed("shell"), "shell must be denied");
    assert!(permissions.is_tool_allowed("read_file"));
}

#[test]
fn should_only_allow_listed_tools_when_profile_uses_allow_list() {
    let profile =
        make_profile("ro", ProfileTools::AllowList { tools: vec!["read_file".to_string()] });
    let permissions = ToolPermissions::from_profile(&profile);
    assert!(permissions.is_tool_allowed("read_file"));
    assert!(!permissions.is_tool_allowed("shell"), "non-allow-listed tools must be denied");
    assert!(!permissions.is_tool_allowed("write_file"));
}

#[test]
fn should_expand_group_references_in_deny_list() {
    let profile =
        make_profile("no-fs", ProfileTools::DenyList { tools: vec!["group:fs".to_string()] });
    let permissions = ToolPermissions::from_profile(&profile);
    assert!(!permissions.is_tool_allowed("read_file"));
    assert!(!permissions.is_tool_allowed("write_file"));
    assert!(!permissions.is_tool_allowed("edit_file"));
    assert!(!permissions.is_tool_allowed("diff_edit"));
    assert!(permissions.is_tool_allowed("shell"));
}

#[test]
fn should_expand_group_references_in_allow_list() {
    let profile = make_profile(
        "search-only",
        ProfileTools::AllowList { tools: vec!["group:search".to_string()] },
    );
    let permissions = ToolPermissions::from_profile(&profile);
    assert!(permissions.is_tool_allowed("glob"));
    assert!(permissions.is_tool_allowed("grep"));
    assert!(permissions.is_tool_allowed("list_dir"));
    assert!(!permissions.is_tool_allowed("shell"));
    assert!(!permissions.is_tool_allowed("read_file"));
}

#[test]
fn should_pass_through_when_allow_list_is_empty() {
    let profile = make_profile("empty-allow", ProfileTools::AllowList { tools: Vec::new() });
    let permissions = ToolPermissions::from_profile(&profile);
    assert!(permissions.is_tool_allowed("anything"));
}

#[test]
fn should_record_permission_mode_from_profile() {
    let profile = ProfileDefinition {
        name: "restricted".to_string(),
        version: PROFILE_SCHEMA_VERSION,
        permissions: PermissionMode::Restricted,
        ..Default::default()
    };
    let permissions = ToolPermissions::from_profile(&profile);
    assert_eq!(permissions.mode(), PermissionMode::Restricted);
}

#[test]
fn default_tool_permissions_remain_allow_all() {
    let permissions = ToolPermissions::default();
    assert!(permissions.is_tool_allowed("anything"));
    assert!(permissions.is_tool_allowed("shell"));
}
