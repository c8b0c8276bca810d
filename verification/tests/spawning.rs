use octos_agent::agents::{AgentDefinition, AgentDefinitions, UnenforcedField};
use octos_agent::child_gate::{
    finish_mcp, finish_sync, refuse_for_budget, ChildGate, GateStage, McpResponse, SpawnMode,
};
use octos_agent::child_session::TaskResult;
use octos_agent::child_tools::{child_hook_context, prepare_child_tools};
use octos_agent::context::{ConcurrencyClass, HostHandle, TokenUsage, ToolContext};
use octos_agent::delivery::relay_message;
use octos_agent::json::{to_text, Json};
use octos_agent::payloads::{
    dispatch_payload, encode_workflow_detail, phase_detail, write_fraction,
};
use octos_agent::policy::ToolPolicy;
use octos_agent::registry::ToolRegistry;
use octos_agent::spawn::{
    check_dispatch_event, estimate_tokens, resolve_sub_provider, HookContext, ModelInfo, SpawnStart, SpawnTool,
    DEFAULT_MCP_AGENT_TOOL_NAME, MAX_SPAWN_DEPTH,
};
use octos_agent::spawn_input::{
    apply_agent_definition, build_spawn_recovery_prompt, build_subagent_tool_policy, task_label,
    SpawnInput,
};
use octos_agent::tool::Tool;
use octos_agent::tool_entry::ToolEntry;
use octos_agent::workflow::{
    workflow_phase_progress, WorkflowMetadata, WorkflowTerminalOutputPolicy,
};

fn list(items: &[&str]) -> Vec<String> {
    items.iter().map(|s| s.to_string()).collect()
}

fn slides_workflow() -> WorkflowMetadata {
    WorkflowMetadata {
        workflow_kind: "slides".to_string(),
        current_phase: "deliver_result".to_string(),
        allowed_tools: vec!["mofa_slides".to_string(), "send_file".to_string()],
        terminal_output: Some(WorkflowTerminalOutputPolicy {
            deliver_final_artifact_only: true,
            forbid_intermediate_files: true,
            required_artifact_kind: "presentation".to_string(),
        }),
        progress: None,
    }
}

#[test]
fn contract_owned_workflow_denies_send_file_in_subagent_policy() {
    let workflow = slides_workflow();

    let policy =
        build_subagent_tool_policy(workflow.allowed_tools.clone(), Some(&workflow));

    assert!(policy.deny.contains(&"spawn".to_string()));
    assert!(policy.deny.contains(&"send_file".to_string()));
}

#[test]
fn other_workers_may_send_files_but_never_spawn() {
    let policy = build_subagent_tool_policy(list(&["shell", "send_file"]), None);
    assert_eq!(policy.deny, list(&["spawn"]));
    assert!(policy.is_allowed("send_file"));
    assert!(!policy.is_allowed("spawn"));
}

#[test]
fn workflow_phase_progress_is_coarse_but_non_null_and_monotonic() {
    for initial_phase in &["research", "design", "scaffold", "outline"] {
        let value = workflow_phase_progress(initial_phase);
        assert!(
            value > 0 && value <= 50,
            "initial phase {initial_phase} should map to a small non-null fraction, got {value}"
        );
    }

    let initial = workflow_phase_progress("research");
    let verifying = workflow_phase_progress("verify_outputs");
    let deliver = workflow_phase_progress("deliver_result");
    assert!(verifying > initial);
    assert!(deliver > verifying);
    assert!(deliver < 100);
}

#[test]
fn build_spawn_recovery_prompt_includes_task_and_error_text() {
    let prompt = build_spawn_recovery_prompt(
        "Generate a 5-slide deck on AI",
        "validator rejected child artifact: deck.pptx missing",
    );
    assert!(prompt.contains("[system-internal]"));
    assert!(prompt.contains("Generate a 5-slide deck on AI"));
    assert!(
        prompt.contains("validator rejected child artifact: deck.pptx missing"),
        "recovery prompt must surface the verbatim failure: {prompt}"
    );
    assert!(
        prompt.contains("different strategy") || prompt.contains("smaller scope"),
        "recovery prompt must direct the LLM toward an alternative"
    );
}

#[test]
fn build_spawn_recovery_prompt_handles_empty_task_desc() {
    let prompt = build_spawn_recovery_prompt("", "boom");
    assert!(prompt.contains("Original task: "));
    assert!(prompt.contains("Failure: boom"));
}

fn definition(name: &str, tools: &[&str], disallowed: &[&str]) -> AgentDefinition {
    AgentDefinition {
        name: name.to_string(),
        tools: list(tools),
        disallowed_tools: list(disallowed),
        model: None,
        unenforced: Vec::new(),
    }
}

fn with_research_worker() -> AgentDefinitions {
    let mut registry = AgentDefinitions::new();
    registry.insert(
        "research-worker",
        definition(
            "research-worker",
            &["search", "web_fetch", "web_search"],
            &["shell", "write_file", "edit_file"],
        ),
    );
    registry
}

fn with_id(task: &str, id: &str) -> SpawnInput {
    let mut input = SpawnInput::for_task(task);
    input.agent_definition_id = Some(id.to_string());
    input
}

#[test]
fn should_resolve_manifest_in_spawn_tool() {
    let registry = with_research_worker();
    let mut input = with_id("research this topic", "research-worker");
    apply_agent_definition(&mut input, &registry).expect("apply");

    for expected in ["search", "web_fetch", "web_search"] {
        assert!(
            input.allowed_tools.contains(&expected.to_string()),
            "manifest tool {expected} did not flow into allowed_tools"
        );
    }
    for forbidden in ["shell", "write_file", "edit_file"] {
        assert!(
            !input.allowed_tools.contains(&forbidden.to_string()),
            "manifest disallowed_tool {forbidden} leaked into allowed_tools"
        );
    }
}

#[test]
fn should_let_inline_fields_override_manifest() {
    let mut registry = AgentDefinitions::new();
    let mut def = definition("with-model", &["read_file"], &[]);
    def.model = Some("manifest-model".to_string());
    registry.insert("with-model", def);

    let mut input = with_id("do it", "with-model");
    input.model = Some("inline-model".to_string());
    apply_agent_definition(&mut input, &registry).expect("apply");

    assert_eq!(input.model.as_deref(), Some("inline-model"));

    let mut other = with_id("do it", "with-model");
    apply_agent_definition(&mut other, &registry).expect("apply");
    assert_eq!(other.model.as_deref(), Some("manifest-model"));
}

#[test]
fn should_let_inline_allowed_tools_override_manifest_allowed_tools() {
    let mut registry = AgentDefinitions::new();
    registry.insert("example", definition("example", &["read_file", "shell"], &["shell"]));

    let mut input = with_id("do it", "example");
    input.allowed_tools = list(&["shell", "grep"]);
    apply_agent_definition(&mut input, &registry).expect("apply");

    assert!(input.allowed_tools.contains(&"grep".to_string()));
    assert!(!input.allowed_tools.contains(&"shell".to_string()));
}

#[test]
fn should_error_when_agent_definition_id_unknown() {
    let registry = with_research_worker();
    let mut input = with_id("do it", "no-such-manifest");
    let msg = apply_agent_definition(&mut input, &registry).unwrap_err();
    assert!(msg.contains("no-such-manifest"), "message: {msg}");
}

#[test]
fn should_not_mutate_input_when_agent_definition_id_missing() {
    let registry = with_research_worker();
    let mut input = SpawnInput::for_task("plain spawn");
    input.allowed_tools = list(&["shell"]);
    apply_agent_definition(&mut input, &registry).expect("apply");

    assert_eq!(input.allowed_tools, list(&["shell"]));
    assert!(input.model.is_none());
}

#[test]
fn definitions_with_fields_that_are_not_enforced_are_refused() {
    let mut registry = AgentDefinitions::new();
    let mut def = definition("strict", &["read_file"], &[]);
    def.unenforced = vec![UnenforcedField::MaxTurns];
    registry.insert("strict", def);
    let mut input = with_id("do it", "strict");
    let msg = apply_agent_definition(&mut input, &registry).unwrap_err();
    assert!(msg.contains("max_turns"), "{msg}");
}

#[test]
fn spawn_tool_default_has_no_parent_caches() {
    let tool = SpawnTool::new("/tmp");
    assert!(tool.parent_file_state_cache().is_none());
    assert!(tool.parent_subagent_output_router().is_none());
    assert!(tool.parent_subagent_summary_generator().is_none());
}

#[test]
fn spawn_tool_propagates_parent_caches_via_builders() {
    let tool = SpawnTool::new("/tmp")
        .with_parent_file_state_cache(HostHandle { id: 1 })
        .with_parent_subagent_output_router(HostHandle { id: 2 })
        .with_parent_subagent_summary_generator(HostHandle { id: 3 });
    assert_eq!(tool.parent_file_state_cache(), Some(HostHandle { id: 1 }));
    assert_eq!(tool.parent_subagent_output_router(), Some(HostHandle { id: 2 }));
    assert_eq!(tool.parent_subagent_summary_generator(), Some(HostHandle { id: 3 }));
}

#[test]
fn the_tool_keeps_what_is_attached_to_it() {
    let mut tool = SpawnTool::with_context("/w", "telegram", "7")
        .with_background_result_sender(HostHandle { id: 1 })
        .with_child_session_sender(HostHandle { id: 2 })
        .with_hooks(HostHandle { id: 3 })
        .with_hook_context(HookContext {
            session_id: Some("s".to_string()),
            profile_id: None,
        })
        .with_provider_policy(Some(ToolPolicy {
            allow: Vec::new(),
            deny: list(&["shell"]),
            require_tags: Vec::new(),
        }))
        .with_provider_router(Vec::new())
        .with_worker_prompt("be brief".to_string())
        .with_plugin_dirs(list(&["/p"]), vec![("A".to_string(), "b".to_string())])
        .with_child_tool_factory(ToolEntry::named("one"))
        .with_child_tool_factory(ToolEntry::named("two"))
        .with_task_supervisor(HostHandle { id: 4 }, "api:s".to_string(), "/l".to_string())
        .with_agent_config(HostHandle { id: 5 })
        .with_cost_accountant(HostHandle { id: 6 });
    assert_eq!(tool.background_result_sender, Some(HostHandle { id: 1 }));
    assert_eq!(tool.child_session_sender, Some(HostHandle { id: 2 }));
    assert_eq!(tool.hooks, Some(HostHandle { id: 3 }));
    assert_eq!(tool.hook_context.as_ref().unwrap().session_id.as_deref(), Some("s"));
    assert!(!tool.provider_policy.as_ref().unwrap().is_allowed("shell"));
    assert!(tool.models.is_some());
    assert_eq!(tool.worker_prompt.as_deref(), Some("be brief"));
    assert_eq!(tool.plugin_dirs, list(&["/p"]));
    assert_eq!(tool.plugin_extra_env, vec![("A".to_string(), "b".to_string())]);
    let made: Vec<&str> = tool.child_tool_factories.iter().map(|t| t.name.as_str()).collect();
    assert_eq!(made, ["one", "two"]);
    assert_eq!(tool.task_supervisor, Some(HostHandle { id: 4 }));
    assert_eq!(tool.session_key.as_deref(), Some("api:s"));
    assert_eq!(tool.task_ledger_path.as_deref(), Some("/l"));
    assert_eq!(tool.agent_config, Some(HostHandle { id: 5 }));
    assert_eq!(tool.cost_accountant, Some(HostHandle { id: 6 }));
    tool.set_context("slack", "9");
    assert_eq!(tool.origin_channel, "slack");
    assert_eq!(tool.origin_chat_id, "9");
    assert_eq!(tool.working_dir, "/w");
}

#[test]
fn the_attached_remote_agent_is_called() {
    let task = || Json::Str("t".to_string());
    let bare = SpawnTool::new("/w");
    assert_eq!(
        bare.dispatch_to_mcp_agent(task(), "s", "t1", None, None).unwrap_err(),
        "no MCP agent backend configured on SpawnTool"
    );
    let plain = SpawnTool::new("/w").with_mcp_agent_backend(HostHandle { id: 1 }, None);
    let request = plain.dispatch_to_mcp_agent(task(), "s", "t1", None, None).unwrap();
    assert_eq!(request.backend, HostHandle { id: 1 });
    assert_eq!(request.tool_name, DEFAULT_MCP_AGENT_TOOL_NAME);
    assert!(request.event.workflow.is_none());
    let named = SpawnTool::new("/w")
        .with_mcp_agent_backend_config(Ok(HostHandle { id: 2 }), Some("go".to_string()))
        .unwrap();
    let request =
        named.dispatch_to_mcp_agent(task(), "s", "t1", Some("slides"), Some("design")).unwrap();
    assert_eq!((request.backend, request.tool_name.as_str()), (HostHandle { id: 2 }, "go"));
    assert_eq!(to_text(&request.task), "\"t\"");
    assert_eq!(request.event.session_id, "s");
    assert_eq!(request.event.task_id, "t1");
    assert_eq!(request.event.workflow.as_deref(), Some("slides"));
    assert_eq!(request.event.phase.as_deref(), Some("design"));
    let failed = SpawnTool::new("/w").with_mcp_agent_backend_config(Err("no".to_string()), None);
    assert_eq!(failed.unwrap_err(), "no");
}

#[test]
fn an_event_of_the_wrong_form_fails_a_dispatch() {
    assert!(check_dispatch_event(Ok(()), true).is_ok());
    assert_eq!(
        check_dispatch_event(Err("no session".to_string()), true).unwrap_err(),
        "dispatch event failed validation: no session"
    );
    assert_eq!(
        check_dispatch_event(Err("no session".to_string()), false).unwrap_err(),
        "sub-agent dispatch event failed validation: no session"
    );
}

#[test]
fn a_bare_tool_sends_its_results_to_the_command_line() {
    let tool = SpawnTool::new("/w");
    let outcome = Err("lost".to_string());
    let message =
        relay_message(&outcome, "subagent-0", "t", &tool.origin_channel, &tool.origin_chat_id);
    assert_eq!(message.chat_id, "cli:default");
}

#[test]
fn a_dispatch_is_told_to_the_sink_if_there_is_one() {
    assert!(SpawnTool::emit_dispatch_event(None, Err("full".to_string())).is_ok());
    assert!(SpawnTool::emit_dispatch_event(Some("/s"), Ok(())).is_ok());
    assert_eq!(
        SpawnTool::emit_dispatch_event(Some("/s"), Err("full".to_string())).unwrap_err(),
        "failed to write dispatch event to sink: full"
    );
}

#[test]
fn spawn_refuses_at_depth_4() {
    let mut tool = SpawnTool::new("/tmp");
    let mut ctx = ToolContext::zero();
    ctx.spawn_depth = MAX_SPAWN_DEPTH;

    let input = SpawnInput::for_task("do something deeply nested");
    match tool.execute_with_context(&ctx, Some(input)) {
        SpawnStart::Refused(result) => {
            assert!(!result.success, "spawn at the cap must report failure");
            assert!(result
                .output
                .contains(&format!("spawn depth limit ({MAX_SPAWN_DEPTH}) exceeded")));
            assert!(result.output.contains("refusing further nesting"));
        }
        other => panic!("depth refusal should be an answer: {other:?}"),
    }

    match tool.execute_with_context(&ToolContext::zero(), None) {
        SpawnStart::Invalid(error) => assert!(!error.contains("spawn depth limit")),
        other => panic!("{other:?}"),
    }
}

#[test]
fn spawn_allows_depth_below_cap() {
    let mut tool = SpawnTool::new("/tmp");
    let mut ctx = ToolContext::zero();
    ctx.spawn_depth = MAX_SPAWN_DEPTH - 1;
    match tool.execute_with_context(&ctx, None) {
        SpawnStart::Invalid(error) => assert!(!error.contains("spawn depth limit")),
        other => panic!("{other:?}"),
    }
    match tool.execute_with_context(&ctx, Some(SpawnInput::for_task("x"))) {
        SpawnStart::Run(plan) => assert_eq!(plan.child_depth, MAX_SPAWN_DEPTH),
        other => panic!("{other:?}"),
    }
}

#[test]
fn the_depth_is_looked_at_before_the_request() {
    let mut tool = SpawnTool::new("/tmp");
    let mut ctx = ToolContext::zero();
    ctx.spawn_depth = MAX_SPAWN_DEPTH;
    assert!(matches!(tool.execute_with_context(&ctx, None), SpawnStart::Refused(_)));
    assert_eq!(tool.worker_count, 0);
}

#[test]
fn workers_are_numbered() {
    let mut tool = SpawnTool::new("/tmp");
    let ctx = ToolContext::zero();
    for n in 0..3 {
        match tool.execute_with_context(&ctx, Some(SpawnInput::for_task("x"))) {
            SpawnStart::Run(plan) => {
                assert_eq!(plan.worker_id, format!("subagent-{n}"));
                assert!(!plan.sync);
            }
            other => panic!("{other:?}"),
        }
    }
    let mut input = SpawnInput::for_task("x");
    input.mode = "sync".to_string();
    match tool.execute_with_context(&ctx, Some(input)) {
        SpawnStart::Run(plan) => assert!(plan.sync),
        other => panic!("{other:?}"),
    }
}

#[test]
fn a_remote_agent_must_be_configured() {
    let ctx = ToolContext::zero();
    let mut input = SpawnInput::for_task("x");
    input.backend = "agent_mcp".to_string();
    let mut tool = SpawnTool::new("/tmp");
    match tool.execute_with_context(&ctx, Some(input)) {
        SpawnStart::Invalid(error) => {
            assert!(error.contains("requires a configured MCP agent backend"), "{error}")
        }
        other => panic!("{other:?}"),
    }
}

#[test]
fn a_dispatch_carries_the_request() {
    let ctx = ToolContext::zero();
    let mut tool =
        SpawnTool::new("/tmp").with_mcp_agent_backend(HostHandle { id: 9 }, None);
    let mut input = SpawnInput::for_task("write it up");
    input.backend = "agent_mcp".to_string();
    input.label = Some("Report".to_string());
    input.allowed_tools = list(&["shell"]);
    match tool.execute_with_context(&ctx, Some(input)) {
        SpawnStart::Dispatch(dispatch) => {
            assert_eq!(dispatch.backend, HostHandle { id: 9 });
            assert_eq!(dispatch.tool_name, DEFAULT_MCP_AGENT_TOOL_NAME);
            assert_eq!(dispatch.label, "Report");
            let event = dispatch.event();
            assert_eq!(event.session_id, "sub-agent:unknown-session");
            assert_eq!(event.task_id, "subagent-0");
            assert!(event.workflow.is_none() && event.phase.is_none());
            assert_eq!(
                to_text(&dispatch_payload(&dispatch)),
                "{\"additional_instructions\":null,\"allowed_tools\":[\"shell\"],\
                 \"label\":\"Report\",\"task\":\"write it up\",\"workflow\":null}"
            );
        }
        other => panic!("{other:?}"),
    }
}

#[test]
fn a_dispatched_workflow_is_written_by_name() {
    let ctx = ToolContext::zero();
    let mut tool =
        SpawnTool::new("/tmp").with_mcp_agent_backend(HostHandle { id: 9 }, None);
    let mut input = SpawnInput::for_task("x");
    input.backend = "agent_mcp".to_string();
    let mut workflow = slides_workflow();
    workflow.progress = Some("0.25".to_string());
    input.workflow = Some(workflow);
    match tool.execute_with_context(&ctx, Some(input)) {
        SpawnStart::Dispatch(dispatch) => {
            assert_eq!(dispatch.contract_id, "slides");
            let text = to_text(&dispatch_payload(&dispatch));
            let value: serde_json::Value = serde_json::from_str(&text).unwrap();
            assert_eq!(value["workflow"]["workflow_kind"], "slides");
            assert_eq!(value["workflow"]["current_phase"], "deliver_result");
            assert_eq!(value["workflow"]["progress"], 0.25);
            assert_eq!(
                value["workflow"]["terminal_output"]["required_artifact_kind"],
                "presentation"
            );
            assert_eq!(value.to_string(), text);
        }
        other => panic!("{other:?}"),
    }
}

#[test]
fn the_detail_of_a_workflow_says_how_far_it_is() {
    let mut workflow = slides_workflow();
    workflow.allowed_tools = Vec::new();
    workflow.terminal_output = None;
    assert_eq!(
        encode_workflow_detail(&workflow),
        "{\"workflow_kind\":\"slides\",\"current_phase\":\"deliver_result\"}"
    );
    workflow.progress = Some(write_fraction(5));
    assert_eq!(
        encode_workflow_detail(&workflow),
        "{\"workflow_kind\":\"slides\",\"current_phase\":\"deliver_result\",\"progress\":0.05}"
    );
    assert_eq!(
        phase_detail(&workflow, "verify_outputs"),
        "{\"workflow_kind\":\"slides\",\"current_phase\":\"verify_outputs\",\"progress\":0.9}"
    );
    for n in 1..100u64 {
        workflow.progress = Some(write_fraction(n));
        let text = encode_workflow_detail(&workflow);
        let value: serde_json::Value = serde_json::from_str(&text).unwrap();
        assert_eq!(value["progress"], (n as f64) / 100.0);
        assert!(text.ends_with(&format!("\"progress\":{}}}", (n as f64) / 100.0)));
    }
}

#[test]
fn test_sync_spawn_registers_child_tool_factory_before_preflight() {
    let mut tool =
        SpawnTool::new("/tmp").with_child_tool_factory(ToolEntry::named("run_pipeline"));
    let mut input = SpawnInput::for_task("Use the injected pipeline tool if needed");
    input.label = Some("Deep research".to_string());
    input.mode = "sync".to_string();
    input.allowed_tools = list(&["run_pipeline"]);
    let plan = match tool.execute_with_context(&ToolContext::zero(), Some(input)) {
        SpawnStart::Run(plan) => plan,
        other => panic!("{other:?}"),
    };
    assert!(plan.sync);
    let mut tools = ToolRegistry::with_builtins("/tmp", &[]);
    prepare_child_tools(
        &mut tools,
        &tool.child_tool_factories,
        &plan.allowed_tools,
        &plan.tool_policy,
        &tool.provider_policy,
    )
    .unwrap();
    assert_eq!(tools.tool_names(), list(&["run_pipeline"]));
    let outcome = Ok(TaskResult {
        success: true,
        output: "done".to_string(),
        files_modified: Vec::new(),
        files_to_send: Vec::new(),
        token_usage: TokenUsage { input_tokens: 0, output_tokens: 0 },
    });
    let result = finish_sync(&outcome, &None);
    assert!(result.success);
    assert_eq!(result.output, "done");
}

#[test]
fn children_have_no_tool_to_spawn_with() {
    let mut tools = ToolRegistry::with_builtins("/tmp", &[]);
    tools.register(ToolEntry::named("spawn"));
    tools.register(ToolEntry::named("send_file"));
    tools.mark_spawn_only("shell", None);
    let policy = build_subagent_tool_policy(Vec::new(), Some(&slides_workflow()));
    prepare_child_tools(&mut tools, &[], &[], &policy, &None).unwrap();
    assert!(tools.get("spawn").is_none());
    assert!(tools.get("send_file").is_none());
    assert!(tools.get("shell").is_some());
    assert!(!tools.is_spawn_only("shell"));
}

#[test]
fn a_missing_child_tool_is_reported() {
    let mut tools = ToolRegistry::with_builtins("/tmp", &[]);
    let allowed = list(&["shell", "nowhere"]);
    let policy = build_subagent_tool_policy(allowed.clone(), None);
    let provider = Some(ToolPolicy { deny: list(&["shell"]), ..Default::default() });
    let error =
        prepare_child_tools(&mut tools, &[], &allowed, &policy, &provider).unwrap_err();
    assert_eq!(error, "required tool(s) not available on this host: nowhere");
    assert!(!tools.is_tool_visible("shell"));
}

#[test]
fn hooks_hear_of_the_child() {
    let template = HookContext {
        session_id: Some("api:parent".to_string()),
        profile_id: Some("p".to_string()),
    };
    let own = child_hook_context(&template, &Some("api:child".to_string()));
    assert_eq!(own.session_id.as_deref(), Some("api:child"));
    assert_eq!(own.profile_id.as_deref(), Some("p"));
    let same = child_hook_context(&template, &None);
    assert_eq!(same.session_id.as_deref(), Some("api:parent"));
}

fn model(key: &str, window: Option<u32>) -> ModelInfo {
    ModelInfo {
        key: key.to_string(),
        model_id: "m".to_string(),
        provider_name: "p".to_string(),
        cost_info: None,
        context_window: 1000,
        max_output_tokens: 100,
        default_context_window: window,
        description: None,
    }
}

#[test]
fn the_window_of_a_model_is_chosen() {
    let models = Some(vec![model("a", None), model("b", Some(500))]);
    let asked = resolve_sub_provider(&Some("b/large".to_string()), Some(7), &models);
    assert_eq!(asked.model.as_deref(), Some("b/large"));
    assert_eq!(asked.window, Some(7));
    let default = resolve_sub_provider(&Some("b/large".to_string()), None, &models);
    assert_eq!(default.window, Some(500));
    let none = resolve_sub_provider(&None, None, &models);
    assert!(none.model.is_none());
}

#[test]
fn labels_are_cut_from_tasks() {
    let mut input = SpawnInput::for_task("short");
    assert_eq!(task_label(&input), "short");
    input.label = Some("named".to_string());
    assert_eq!(task_label(&input), "named");
}

#[test]
fn estimates_grow_with_the_text() {
    assert!(estimate_tokens("a longer text than that") > estimate_tokens("ab"));
}

#[test]
fn the_tool_says_what_it_is() {
    let tool = SpawnTool::new("/tmp");
    assert_eq!(tool.name(), "spawn");
    assert!(tool.description().contains("subagent"));
    assert_eq!(tool.concurrency_class(), ConcurrencyClass::Exclusive);
    let schema: serde_json::Value =
        serde_json::from_str(&to_text(&tool.input_schema())).unwrap();
    assert_eq!(schema["required"][0], "task");
    assert!(schema["properties"]["agent_definition_id"].is_object());
}

fn done() -> Result<TaskResult, String> {
    Ok(TaskResult {
        success: true,
        output: "done".to_string(),
        files_modified: Vec::new(),
        files_to_send: list(&["/tmp/a.md"]),
        token_usage: TokenUsage { input_tokens: 1, output_tokens: 2 },
    })
}

#[test]
fn a_child_passes_its_checks_one_by_one() {
    let gate = ChildGate::open(SpawnMode::Background, true, true);
    assert_eq!(gate.stage, GateStage::SessionValidators);
    let mut steps = 0;
    let mut gate = gate;
    while gate.stage != GateStage::Done {
        gate = gate.advance(None, true);
        steps += 1;
        assert!(steps <= 3);
    }
    assert!(gate.failure.is_none());
}

#[test]
fn a_rejected_child_is_not_looked_at_again() {
    let gate = ChildGate::open(SpawnMode::Sync, true, true);
    let gate = gate.advance(Some("deck missing".to_string()), false);
    assert_eq!(gate.stage, GateStage::Done);
    assert_eq!(
        gate.failure.as_deref(),
        Some("Subagent failed: contract validator rejected child artifact: deck missing")
    );
    let result = finish_sync(&done(), &gate.failure);
    assert!(!result.success);
    assert!(result.output.contains("deck missing"));
    let passed = finish_sync(&done(), &None);
    assert!(passed.success);
    assert_eq!(passed.output, "done");
}

#[test]
fn a_failed_child_is_not_checked() {
    let gate = ChildGate::open(SpawnMode::AgentMcp, false, true);
    assert_eq!(gate.stage, GateStage::Done);
    assert!(gate.failure.is_none());
}

#[test]
fn remote_answers_are_told_as_they_are() {
    let response = McpResponse {
        success: true,
        output: "all good".to_string(),
        error: None,
        files_to_send: list(&["/tmp/x"]),
    };
    let result = finish_mcp(&response, &None, &None);
    assert!(result.success);
    assert_eq!(result.output, "Status: SUCCESS\n\nall good");
    assert_eq!(result.files_to_send, list(&["/tmp/x"]));
    let owned = finish_mcp(&response, &None, &Some(list(&["/tmp/deck.pptx"])));
    assert_eq!(owned.files_to_send, list(&["/tmp/deck.pptx"]));
    let rejected = finish_mcp(&response, &Some("no".to_string()), &None);
    assert!(!rejected.success);
    assert_eq!(rejected.output, "no");
    let failed = McpResponse { success: false, error: Some("boom".to_string()), ..response };
    assert_eq!(finish_mcp(&failed, &None, &None).output, "Status: FAILED\nboom");
    assert!(refuse_for_budget("too dear").output.contains("too dear"));
}
