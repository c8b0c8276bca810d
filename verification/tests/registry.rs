use octos_agent::context::{ConcurrencyClass, HostHandle, ToolContext};
use octos_agent::json::{to_text, Json, JsonMember};
use octos_agent::policy::ToolPolicy;
use octos_agent::profile::{ProfileDefinition, ProfileTools};
use octos_agent::registry::{ensure_subagent_tools_available, ToolRegistry, MAX_ARGS_SIZE};
use octos_agent::tool_entry::ToolEntry;

fn list(items: &[&str]) -> Vec<String> {
    items.iter().map(|s| s.to_string()).collect()
}

fn no_args() -> Json {
    Json::Object(Vec::new())
}

fn make_registry(max_active: usize, idle_threshold: u32) -> ToolRegistry {
    let mut reg = ToolRegistry::with_builtins("/tmp", &[]);
    reg.set_limits(max_active, idle_threshold);
    reg
}

fn active_tool_names(reg: &mut ToolRegistry) -> Vec<String> {
    let mut names: Vec<String> = reg.specs().iter().map(|s| s.name.clone()).collect();
    names.sort();
    names
}

fn deferred_tool_names(reg: &ToolRegistry) -> Vec<String> {
    let mut names: Vec<String> = reg.deferred_tools().items().to_vec();
    names.sort();
    names
}

fn builtin_names(reg: &ToolRegistry) -> Vec<String> {
    let mut names = reg.tool_names();
    names.sort();
    names
}

#[test]
fn test_rebind_cwd_preserves_non_cwd_tools() {
    let registry = ToolRegistry::with_builtins_and_sandbox("/tmp/initial", None, &[]);
    let rebound = registry.rebind_cwd("/tmp/narrow", None, &[]);
    assert!(rebound.get("web_fetch").is_some(), "web_fetch should survive rebind");
    assert!(rebound.get("web_search").is_some(), "web_search should survive rebind");
    assert!(rebound.get("read_file").is_some(), "read_file should be re-registered");
    assert!(rebound.get("shell").is_some(), "shell should be re-registered");
    assert!(rebound.get("write_file").is_some(), "write_file should be re-registered");
}

#[test]
fn rebinding_moves_the_tools_of_the_workspace() {
    let registry = ToolRegistry::with_builtins_and_sandbox("/tmp", Some(HostHandle { id: 1 }), &[]);
    assert_eq!(registry.workspace_root(), Some("/tmp"));
    assert_eq!(registry.get("read_file").unwrap().work_dir.as_deref(), Some("/tmp"));
    let rebound = registry.rebind_cwd("/tmp/narrow", Some(HostHandle { id: 2 }), &[]);
    assert_eq!(rebound.workspace_root(), Some("/tmp/narrow"));
    assert_eq!(rebound.get("read_file").unwrap().work_dir.as_deref(), Some("/tmp/narrow"));
    assert_eq!(rebound.get("shell").unwrap().sandbox, Some(HostHandle { id: 2 }));
    assert!(rebound.get("web_fetch").unwrap().work_dir.is_none());
    assert_eq!(registry.get("read_file").unwrap().work_dir.as_deref(), Some("/tmp"));
}

#[test]
fn test_rebind_cwd_isolates_session_runtime_state() {
    let mut registry = ToolRegistry::with_builtins_and_sandbox("/tmp/initial", None, &[]);
    registry.set_session_key("api:base-session".to_string());
    registry.mark_spawn_only_invoked();
    let base_task = registry.register_task("task-1".to_string(), "deep_search", "call-base");
    let known = registry.supervisor().get_task(&base_task).expect("base task should be tracked");
    assert_eq!(known.session_key.as_deref(), Some("api:base-session"));

    let mut rebound = registry.rebind_cwd("/tmp/new", None, &[]);

    assert!(
        rebound.supervisor().get_task(&base_task).is_none(),
        "rebound registry must not inherit another session's task ledger"
    );
    assert!(
        !rebound.spawn_only_was_invoked(),
        "spawn-only invocation state is per agent run/session"
    );
    let rebound_task =
        rebound.register_task("task-2".to_string(), "deep_search", "call-rebound");
    let rebound_task =
        rebound.supervisor().get_task(&rebound_task).expect("rebound task should be tracked");
    assert!(
        rebound_task.session_key.is_none(),
        "session key must be supplied by the new session actor, not inherited"
    );
    assert_eq!(rebound_task.tool_name, "deep_search");
    assert_eq!(rebound_task.tool_call_id, "call-rebound");
}

#[test]
fn set_workspace_root_records_path_for_session_tool_registry_fallback() {
    let mut reg = ToolRegistry::new();
    assert!(
        reg.workspace_root().is_none(),
        "fresh registry must not advertise a workspace_root"
    );
    let cwd = "/tmp/test-default-cwd".to_string();
    reg.set_workspace_root(cwd.clone());
    assert_eq!(reg.workspace_root(), Some(cwd.as_str()));
}

#[test]
fn idle_tools_evicted_when_over_threshold() {
    let mut reg = make_registry(3, 2);
    reg.set_base_tools(&list(&["read_file", "write_file"]));

    let initial_count = reg.specs().len();
    assert!(initial_count > 3, "builtins should exceed threshold");

    for _ in 0..3 {
        reg.tick();
        reg.record_usage("read_file");
        reg.record_usage("write_file");
    }

    let evicted = reg.auto_evict();
    assert!(!evicted.is_empty(), "should evict idle tools");

    let active = active_tool_names(&mut reg);
    assert!(active.contains(&"read_file".to_string()), "base tool read_file must survive");
    assert!(active.contains(&"write_file".to_string()), "base tool write_file must survive");

    let deferred = deferred_tool_names(&reg);
    for name in &evicted {
        assert!(deferred.contains(name), "{name} should be deferred after eviction");
    }
    assert!(active.len() <= 3, "should be at or under threshold");
}

#[test]
fn recently_used_tools_not_evicted() {
    let mut reg = make_registry(3, 2);
    reg.set_base_tools(&list(&["read_file"]));

    for _ in 0..3 {
        reg.tick();
        reg.record_usage("read_file");
        reg.record_usage("shell");
    }

    let evicted = reg.auto_evict();
    assert!(
        !evicted.contains(&"shell".to_string()),
        "recently used 'shell' should not be evicted"
    );

    let active = active_tool_names(&mut reg);
    assert!(active.contains(&"shell".to_string()), "shell must remain active");
}

#[test]
fn activated_tool_gets_usage_tracking() {
    let mut reg = make_registry(3, 2);
    reg.set_base_tools(&list(&["read_file", "write_file"]));

    for _ in 0..3 {
        reg.tick();
        reg.record_usage("read_file");
        reg.record_usage("write_file");
    }
    let evicted = reg.auto_evict();
    assert!(!evicted.is_empty());

    let deferred = deferred_tool_names(&reg);
    if deferred.contains(&"shell".to_string()) {
        let activated = reg.activate("group:runtime");
        assert!(activated.contains(&"shell".to_string()));

        reg.tick();
        reg.record_usage("shell");

        let evicted2 = reg.auto_evict();
        assert!(
            !evicted2.contains(&"shell".to_string()),
            "freshly used shell should survive eviction"
        );
    }
}

#[test]
fn base_tools_never_evicted() {
    let mut reg = make_registry(2, 1);
    reg.set_base_tools(&list(&["read_file", "write_file", "shell"]));

    for _ in 0..5 {
        reg.tick();
    }

    let evicted = reg.auto_evict();
    for name in &["read_file", "write_file", "shell"] {
        assert!(
            !evicted.contains(&name.to_string()),
            "base tool {name} must never be evicted"
        );
    }
}

#[test]
fn spawn_only_tools_never_evicted_even_when_idle() {
    let mut reg = make_registry(2, 1);
    reg.mark_spawn_only("glob", None);

    for _ in 0..10 {
        reg.tick();
    }

    let evicted = reg.auto_evict();
    assert!(
        !evicted.contains(&"glob".to_string()),
        "spawn_only tool glob must never be evicted. Evicted set was: {evicted:?}"
    );
}

#[test]
fn spawn_only_tools_stay_visible_in_specs_after_eviction_sweep() {
    let mut reg = make_registry(2, 1);
    reg.mark_spawn_only("glob", None);

    for _ in 0..10 {
        reg.tick();
    }
    let _ = reg.auto_evict();

    let names: Vec<String> = reg.specs().into_iter().map(|s| s.name).collect();
    assert!(
        names.contains(&"glob".to_string()),
        "spawn_only tool glob must remain in specs() after eviction sweep; specs were: {names:?}"
    );
}

#[test]
fn stalest_evicted_first() {
    let mut reg = make_registry(5, 2);
    reg.set_base_tools(&list(&["read_file"]));

    reg.tick();
    reg.record_usage("read_file");
    reg.record_usage("shell");
    reg.record_usage("write_file");
    reg.record_usage("edit_file");
    reg.record_usage("glob");
    reg.record_usage("grep");
    reg.record_usage("list_dir");

    for _ in 0..3 {
        reg.tick();
        reg.record_usage("shell");
        reg.record_usage("write_file");
    }

    let evicted = reg.auto_evict();
    if !evicted.is_empty() {
        assert!(
            !evicted.contains(&"shell".to_string()),
            "shell (iter 4) should survive over stale tools"
        );
        assert!(
            !evicted.contains(&"write_file".to_string()),
            "write_file (iter 4) should survive over stale tools"
        );
    }
}

#[test]
fn no_eviction_when_under_threshold() {
    let mut reg = make_registry(100, 1);

    for _ in 0..5 {
        reg.tick();
    }

    let evicted = reg.auto_evict();
    assert!(evicted.is_empty(), "should not evict when under threshold");
}

#[test]
fn full_session_lifecycle() {
    let mut reg = make_registry(5, 3);
    reg.set_base_tools(&list(&["read_file", "write_file"]));

    reg.tick();
    reg.record_usage("read_file");
    reg.record_usage("shell");

    for _ in 2..=4 {
        reg.tick();
        reg.record_usage("read_file");
        reg.record_usage("write_file");
        let _ = reg.auto_evict();
    }
    let deferred = deferred_tool_names(&reg);
    if deferred.contains(&"shell".to_string()) {
        let _ = reg.activate("group:runtime");
    }
    reg.tick();
    reg.record_usage("shell");
    let active = active_tool_names(&mut reg);
    assert!(active.contains(&"shell".to_string()), "shell should be active again");

    for _ in 6..=8 {
        reg.tick();
        reg.record_usage("read_file");
        reg.record_usage("shell");
        let _ = reg.auto_evict();
    }
    let active = active_tool_names(&mut reg);
    assert!(active.contains(&"read_file".to_string()));
    assert!(active.contains(&"write_file".to_string()));
    assert!(active.contains(&"shell".to_string()));
}

#[test]
fn spawn_only_message_uses_runtime_output_dir_hint() {
    let mut reg = make_registry(5, 3);
    reg.mark_spawn_only("mofa_slides", None);
    reg.set_output_dir_hint("/tmp/octos-profile/skill-output");

    let msg = reg.spawn_only_message("mofa_slides");

    assert!(msg.contains("Output directory: /tmp/octos-profile/skill-output/"));
}

#[test]
fn a_message_of_its_own_is_used() {
    let mut reg = make_registry(5, 3);
    reg.mark_spawn_only("mofa_slides", Some("Slides are on their way.".to_string()));
    assert!(reg.spawn_only_message("mofa_slides").contains("Slides are on their way."));
}

#[test]
fn spawn_only_handle_message_returns_task_handle_envelope() {
    let mut reg = make_registry(5, 3);
    reg.mark_spawn_only("deep_search", None);
    reg.set_output_dir_hint("/tmp/octos/skill-output");

    let payload = reg.spawn_only_handle_message(
        "deep_search",
        "task_abc123",
        &["research/_report.md".to_string()],
    );

    let value: serde_json::Value = serde_json::from_str(&payload)
        .expect("spawn_only_handle_message must produce valid JSON");
    assert_eq!(value["ok"], true);
    assert_eq!(value["task_handle"], "task_abc123");
    assert_eq!(value["read_with"], "read_task_output");
    assert!(value["expected_files"]
        .as_array()
        .unwrap()
        .iter()
        .any(|v| v == "research/_report.md"));
    assert!(value["summary"].as_str().unwrap().contains("read_task_output"));
}

#[test]
fn is_tool_visible_respects_provider_policy_deny() {
    let mut reg = make_registry(5, 3);
    assert!(reg.is_tool_visible("shell"));

    let policy = ToolPolicy { deny: vec!["shell".to_string()], ..Default::default() };
    reg.set_provider_policy(policy);

    assert!(
        !reg.is_tool_visible("shell"),
        "provider-policy-denied tools must not be reported as visible"
    );
}

#[test]
fn is_tool_visible_returns_false_for_unregistered_tools() {
    let reg = make_registry(5, 3);
    assert!(!reg.is_tool_visible("nope_does_not_exist"));
}

#[test]
fn spawn_only_handle_message_payload_stays_under_one_kb() {
    let mut reg = make_registry(5, 3);
    reg.mark_spawn_only("deep_search", None);

    let payload = reg.spawn_only_handle_message("deep_search", "task_xyz", &[]);

    assert!(
        payload.len() < 1024,
        "spawn_only handle envelope must be < 1KB, got {} bytes",
        payload.len()
    );
}

#[test]
fn should_not_filter_when_profile_mode_is_default() {
    let mut reg = ToolRegistry::with_builtins("/tmp/project", &[]);
    let before = builtin_names(&reg);

    reg.filter_by_profile(&ProfileTools::Default);

    let after = builtin_names(&reg);
    assert_eq!(before, after, "default mode must not narrow the registry");
}

#[test]
fn should_filter_tool_registry_by_allow_list() {
    let mut reg = ToolRegistry::with_builtins("/tmp/project", &[]);

    reg.filter_by_profile(&ProfileTools::AllowList {
        tools: vec!["read_file".into(), "group:search".into()],
    });

    let names = reg.tool_names();
    assert!(names.contains(&"read_file".to_string()));
    assert!(names.contains(&"glob".to_string()));
    assert!(names.contains(&"grep".to_string()));
    assert!(names.contains(&"list_dir".to_string()));
    assert!(!names.contains(&"shell".to_string()));
    assert!(!names.contains(&"web_fetch".to_string()));
}

#[test]
fn should_filter_tool_registry_by_deny_list() {
    let mut reg = ToolRegistry::with_builtins("/tmp/project", &[]);
    let before = builtin_names(&reg);

    reg.filter_by_profile(&ProfileTools::DenyList {
        tools: vec!["web_fetch".into(), "browser".into()],
    });

    let after = builtin_names(&reg);
    assert!(!after.contains(&"web_fetch".to_string()));
    assert!(!after.contains(&"browser".to_string()));
    let expected_survivors: Vec<String> = before
        .iter()
        .filter(|n| n.as_str() != "web_fetch" && n.as_str() != "browser")
        .cloned()
        .collect();
    for n in expected_survivors {
        assert!(after.contains(&n), "{n} should survive the deny-list filter");
    }
}

#[test]
fn should_not_filter_spawn_only_tools_from_allow_list() {
    let mut reg = ToolRegistry::with_builtins("/tmp/project", &[]);
    reg.mark_spawn_only("mofa_slides", None);
    reg.register(ToolEntry::named("mofa_slides"));

    reg.filter_by_profile(&ProfileTools::AllowList { tools: vec!["read_file".into()] });

    let names = reg.tool_names();
    assert!(
        names.contains(&"mofa_slides".to_string()),
        "spawn_only tools must survive an allow-list filter"
    );
    assert!(names.contains(&"read_file".to_string()));
    assert!(!names.contains(&"shell".to_string()));
}

#[test]
fn should_not_filter_spawn_only_tools_from_deny_list() {
    let mut reg = ToolRegistry::with_builtins("/tmp/project", &[]);
    reg.mark_spawn_only("mofa_slides", None);
    reg.register(ToolEntry::named("mofa_slides"));

    reg.filter_by_profile(&ProfileTools::DenyList { tools: vec!["mofa_slides".into()] });

    let names = reg.tool_names();
    assert!(
        names.contains(&"mofa_slides".to_string()),
        "spawn_only tools cannot be evicted by a profile deny list"
    );
}

#[test]
fn empty_allow_list_is_a_pass_through_with_warning() {
    let mut reg = ToolRegistry::with_builtins("/tmp/project", &[]);
    let before = builtin_names(&reg);

    reg.filter_by_profile(&ProfileTools::AllowList { tools: Vec::new() });

    let after = builtin_names(&reg);
    assert_eq!(before, after);
}

#[test]
fn empty_deny_list_is_a_pass_through() {
    let mut reg = ToolRegistry::with_builtins("/tmp/project", &[]);
    let before = builtin_names(&reg);

    reg.filter_by_profile(&ProfileTools::DenyList { tools: Vec::new() });

    let after = builtin_names(&reg);
    assert_eq!(before, after);
}

#[test]
fn allow_list_wildcard_matches_prefix() {
    let mut reg = ToolRegistry::with_builtins("/tmp/project", &[]);

    reg.filter_by_profile(&ProfileTools::AllowList { tools: vec!["workspace_*".into()] });

    let names = reg.tool_names();
    assert!(names.contains(&"workspace_log".to_string()));
    assert!(names.contains(&"workspace_show".to_string()));
    assert!(names.contains(&"workspace_diff".to_string()));
    assert!(!names.contains(&"shell".to_string()));
}

#[test]
fn coding_profile_produces_same_registry_as_default_builtins() {
    let reference = ToolRegistry::with_builtins("/tmp/project", &[]);
    let reference_names = builtin_names(&reference);

    let coding = ProfileDefinition { name: "coding".to_string(), ..Default::default() };
    let mut profiled = ToolRegistry::with_builtins("/tmp/project", &[]);
    profiled.filter_by_profile(&coding.tools);

    let profiled_names = builtin_names(&profiled);
    assert_eq!(
        reference_names, profiled_names,
        "coding profile must preserve behaviour parity with the default path"
    );
}

#[test]
fn subagent_tool_preflight_activates_deferred_allowed_tool() {
    let mut tools = ToolRegistry::with_builtins("/tmp", &[]);
    tools.defer(&list(&["shell"]));
    assert!(tools.specs().iter().all(|spec| spec.name != "shell"));

    ensure_subagent_tools_available(&mut tools, &[String::from("shell")]).unwrap();

    assert!(tools.specs().iter().any(|spec| spec.name == "shell"));
}

#[test]
fn subagent_tool_preflight_reports_missing_allowed_tool() {
    let mut tools = ToolRegistry::with_builtins("/tmp", &[]);

    let error =
        ensure_subagent_tools_available(&mut tools, &[String::from("podcast_generate")])
            .unwrap_err();

    assert!(error.contains("required tool(s) not available on this host"));
    assert!(error.contains("podcast_generate"));
}

#[test]
fn unknown_tools_are_refused() {
    let mut reg = ToolRegistry::new();
    let error = reg.execute("nothing", &no_args()).unwrap_err();
    assert!(error.contains("nothing"), "{error}");
}

#[test]
fn calls_denied_by_the_provider_policy_are_refused() {
    let mut reg = ToolRegistry::with_builtins("/tmp", &[]);
    assert!(reg.execute("shell", &no_args()).is_ok());
    reg.set_provider_policy(ToolPolicy {
        deny: vec!["shell".to_string()],
        ..Default::default()
    });
    assert!(reg.execute("shell", &no_args()).is_err());
    assert!(reg.execute("glob", &no_args()).is_ok());
}

#[test]
fn calls_with_too_much_to_say_are_refused() {
    let mut reg = ToolRegistry::with_builtins("/tmp", &[]);
    let fits = Json::Str("x".repeat(MAX_ARGS_SIZE - 2));
    let over = Json::Str("x".repeat(MAX_ARGS_SIZE - 1));
    assert!(reg.execute_with_context(&ToolContext::zero(), "shell", &fits).is_ok());
    assert!(reg.execute_with_context(&ToolContext::zero(), "shell", &over).is_err());
}

#[test]
fn a_call_loads_a_deferred_tool() {
    let mut reg = ToolRegistry::with_builtins("/tmp", &[]);
    reg.defer_group("group:web");
    assert!(!reg.is_tool_visible("web_search"));
    assert!(reg.is_tool_visible_post_activation("web_search"));
    assert!(reg.execute("web_search", &no_args()).is_ok());
    assert!(reg.is_tool_visible("web_search"));
}

#[test]
fn deferral_and_activation_undo_each_other() {
    let mut reg = ToolRegistry::with_builtins("/tmp", &[]);
    let before = active_tool_names(&mut reg);
    assert!(!reg.has_deferred());
    reg.defer_group("group:web");
    assert!(reg.has_deferred());
    let groups = reg.deferred_groups();
    assert_eq!(groups.len(), 1);
    assert_eq!(groups[0].name, "group:web");
    assert_eq!(groups[0].description, "Search and read the web");
    let activated = reg.activate("group:web");
    assert_eq!(activated.len(), groups[0].count);
    assert!(!reg.has_deferred());
    assert_eq!(active_tool_names(&mut reg), before);
}

#[test]
fn a_lone_deferred_tool_is_listed_under_its_name() {
    let mut reg = ToolRegistry::new();
    reg.register(ToolEntry::named("mofa_slides"));
    reg.defer(&list(&["mofa_slides"]));
    let groups = reg.deferred_groups();
    assert_eq!(groups.len(), 1);
    assert_eq!(groups[0].name, "mofa_slides");
    assert_eq!(groups[0].description, "Plugin tool");
    assert_eq!(groups[0].count, 1);
    assert_eq!(reg.activate("mofa_slides"), list(&["mofa_slides"]));
}

#[test]
fn context_filters_hide_tools_with_other_tags() {
    let mut reg = ToolRegistry::new();
    let mut tagged = ToolEntry::named("tagged");
    tagged.tags = list(&["gateway"]);
    reg.register(tagged);
    reg.register(ToolEntry::named("plain"));
    reg.set_context_filter(list(&["code"]));
    assert!(!reg.is_tool_visible("tagged"));
    assert!(reg.is_tool_visible("plain"));
    reg.set_context_filter(list(&["gateway", "code"]));
    assert!(reg.is_tool_visible("tagged"));
}

#[test]
fn removed_tools_cannot_be_activated_again() {
    let mut reg = ToolRegistry::new();
    reg.register(ToolEntry::named("a"));
    reg.register(ToolEntry::named("b"));
    reg.mark_as_plugin("a");
    reg.mark_spawn_only("a", Some("note".to_string()));
    reg.defer(&list(&["a"]));
    reg.retain(|name: &str| name != "a");
    assert_eq!(reg.tool_names(), list(&["b"]));
    assert!(!reg.is_spawn_only("a"));
    assert!(!reg.has_deferred());
    assert!(reg.activate("a").is_empty());
    assert_eq!(reg.len(), 1);
    assert!(!reg.is_empty());
}

#[test]
fn a_policy_removes_what_it_does_not_allow() {
    let mut reg = ToolRegistry::with_builtins("/tmp", &[]);
    reg.apply_policy(&ToolPolicy {
        allow: list(&["group:search", "shell"]),
        deny: list(&["grep"]),
        ..Default::default()
    });
    let mut names = reg.tool_names();
    names.sort();
    assert_eq!(names, list(&["glob", "list_dir", "shell"]));
}

#[test]
fn an_empty_policy_removes_nothing() {
    let mut reg = ToolRegistry::with_builtins("/tmp", &[]);
    let before = builtin_names(&reg);
    reg.apply_policy(&ToolPolicy::default());
    assert_eq!(builtin_names(&reg), before);
}

#[test]
fn snapshots_leave_the_session_behind() {
    let mut reg = ToolRegistry::with_builtins("/tmp", &[]);
    reg.set_session_key("api:s".to_string());
    reg.register_task("task-1".to_string(), "t", "c");
    reg.set_background_result_sender(HostHandle { id: 4 });
    reg.mark_spawn_only_invoked();
    let mut copy = reg.snapshot_excluding(&list(&["shell"]));
    assert!(copy.get("shell").is_none());
    assert!(copy.get("glob").is_some());
    assert!(copy.supervisor().get_task("task-1").is_none());
    assert_eq!(copy.bg_task_count(), 0);
    assert!(copy.background_result_sender().is_none());
    assert!(!copy.spawn_only_was_invoked());
    copy.register_task("task-2".to_string(), "t", "c");
    assert!(copy.supervisor().get_task("task-2").unwrap().session_key.is_none());
    assert!(reg.supervisor().get_task("task-2").is_none());
}

#[test]
fn plugins_move_to_another_directory() {
    let mut reg = ToolRegistry::with_builtins("/tmp", &[]);
    let mut plugin = ToolEntry::named("fm_tts");
    plugin.from_plugin = true;
    reg.register(plugin);
    reg.mark_as_plugin("fm_tts");
    reg.rebind_plugin_work_dirs("/w");
    assert!(reg.is_plugin("fm_tts"));
    assert!(!reg.is_plugin("shell"));
    assert_eq!(reg.get("fm_tts").unwrap().work_dir.as_deref(), Some("/w"));
    assert_eq!(reg.get("shell").unwrap().work_dir.as_deref(), Some("/tmp"));
}

#[test]
fn tools_of_the_web_read_a_configuration() {
    let config = HostHandle { id: 8 };
    let mut reg = ToolRegistry::with_builtins("/tmp", &[]);
    reg.inject_tool_config(config, &[]);
    for name in ["web_search", "web_fetch", "browser", "configure_tool"] {
        assert_eq!(reg.get(name).unwrap().config, Some(config), "{name}");
    }
    assert!(reg.get("shell").unwrap().config.is_none());
    let mut empty = ToolRegistry::new();
    empty.inject_tool_config(config, &[]);
    assert_eq!(empty.tool_names(), list(&["configure_tool"]));
}

#[test]
fn builtin_tools_are_described_as_made() {
    let mut shell = ToolEntry::named("shell");
    shell.description = "Runs a command.".to_string();
    shell.input_schema = Json::Object(vec![JsonMember {
        key: "type".to_string(),
        value: Json::Str("object".to_string()),
    }]);
    shell.tags = list(&["runtime"]);
    let mut search = ToolEntry::named("web_search");
    search.description = "Searches.".to_string();
    search.tags = list(&["web"]);
    let mut own = ToolEntry::named("own_tool");
    own.description = "Is not built in.".to_string();
    let made = [shell, search, own];
    let mut reg = ToolRegistry::with_builtins("/tmp", &made);
    assert!(reg.get("own_tool").is_none());
    assert_eq!(reg.tool_names().len(), 15);
    let moved = reg.rebind_cwd("/w", None, &made);
    reg.inject_tool_config(HostHandle { id: 2 }, &made);
    for (registry, dir) in [(&reg, "/tmp"), (&moved, "/w")] {
        let shell = registry.get("shell").unwrap();
        assert_eq!(shell.description, "Runs a command.");
        assert_eq!(to_text(&shell.input_schema), "{\"type\":\"object\"}");
        assert_eq!(shell.tags, list(&["runtime"]));
        assert_eq!(shell.work_dir.as_deref(), Some(dir));
        let search = registry.get("web_search").unwrap();
        assert_eq!(search.description, "Searches.");
        assert_eq!(search.tags, list(&["web"]));
    }
    assert_eq!(reg.get("web_search").unwrap().config, Some(HostHandle { id: 2 }));
    let told = reg.specs();
    assert!(told.iter().any(|s| s.name == "shell" && s.description == "Runs a command."));
}

#[test]
fn background_calls_are_noted_until_they_are_reset() {
    let mut reg = ToolRegistry::new();
    reg.register(ToolEntry::named("fm_tts"));
    reg.mark_spawn_only("fm_tts", None);
    assert!(reg.spawn_only_tools().contains("fm_tts"));
    assert!(!reg.spawn_only_was_invoked());
    reg.mark_spawn_only_invoked();
    assert!(reg.spawn_only_was_invoked());
    reg.reset_spawn_only_invoked();
    assert!(!reg.spawn_only_was_invoked());
}

#[test]
fn background_tasks_are_counted_by_the_supervisor() {
    let mut reg = ToolRegistry::new();
    assert_eq!(reg.bg_task_count(), 0);
    assert!(reg.supervisor().get_task("a").is_none());
    reg.register_task("a".to_string(), "t", "c-1");
    reg.register_task("b".to_string(), "t", "c-2");
    assert_eq!(reg.bg_task_count(), 2);
    reg.finish_task("a");
    assert_eq!(reg.bg_task_count(), 1);
    assert!(!reg.supervisor().get_task("a").unwrap().active);
    assert!(reg.supervisor().get_task("b").unwrap().active);
    assert_eq!(reg.supervisor().get_task("b").unwrap().tool_call_id, "c-2");
    reg.finish_task("unknown");
    assert_eq!(reg.bg_task_count(), 1);
    assert_eq!(ToolRegistry::default().bg_task_count(), 0);
}

#[test]
fn tools_that_change_files_run_alone() {
    let reg = ToolRegistry::with_builtins("/tmp", &[]);
    let moved = reg.rebind_cwd("/w", None, &[]);
    for name in ["shell", "write_file", "edit_file", "diff_edit"] {
        assert_eq!(reg.concurrency_class(name), ConcurrencyClass::Exclusive, "{name}");
        assert_eq!(moved.concurrency_class(name), ConcurrencyClass::Exclusive, "{name}");
    }
    for name in ["read_file", "glob", "grep", "list_dir", "web_fetch"] {
        assert_eq!(reg.concurrency_class(name), ConcurrencyClass::Safe, "{name}");
    }
}

#[test]
fn each_visible_tool_is_described_once() {
    let mut reg = ToolRegistry::with_builtins("/tmp", &[]);
    reg.register(ToolEntry::named("shell"));
    reg.defer(&list(&["glob"]));
    let names = active_tool_names(&mut reg);
    for name in reg.tool_names() {
        let count = names.iter().filter(|n| **n == name).count();
        assert_eq!(count, usize::from(reg.is_tool_visible(&name)), "{name}");
    }
}

#[test]
fn used_tools_are_not_put_aside_soon() {
    let mut reg = make_registry(0, 3);
    reg.record_usage("shell");
    for _ in 0..2 {
        reg.tick();
        assert!(!reg.auto_evict().contains(&"shell".to_string()));
    }
    reg.tick();
    assert!(reg.auto_evict().contains(&"shell".to_string()));
}

#[test]
fn registering_again_replaces_a_tool() {
    let mut reg = ToolRegistry::new();
    reg.register(ToolEntry::named("a"));
    let mut again = ToolEntry::named("a");
    again.concurrency_class = ConcurrencyClass::Exclusive;
    reg.register_arc(&again);
    assert_eq!(reg.len(), 1);
    assert_eq!(reg.concurrency_class("a"), ConcurrencyClass::Exclusive);
    assert_eq!(reg.concurrency_class("unknown"), ConcurrencyClass::Safe);
    assert_eq!(reg.get_tool("a").unwrap().concurrency_class, ConcurrencyClass::Exclusive);
}

#[test]
fn specs_follow_every_change() {
    let mut reg = ToolRegistry::new();
    assert!(reg.specs().is_empty());
    reg.register(ToolEntry::named("a"));
    assert_eq!(reg.specs().len(), 1);
    reg.defer(&list(&["a"]));
    assert!(reg.specs().is_empty());
    reg.activate("a");
    assert_eq!(reg.specs()[0].name, "a");
}

#[test]
fn tasks_are_registered_with_their_input() {
    let mut reg = ToolRegistry::new();
    reg.set_session_key("api:s".to_string());
    let args = Json::Object(vec![JsonMember {
        key: "q".to_string(),
        value: Json::Str("x".to_string()),
    }]);
    let id = reg.register_task_with_input("a".to_string(), "t", "c", Some(args));
    let plain = reg.supervisor().get_task(&id).unwrap();
    assert_eq!(to_text(plain.tool_input.as_ref().unwrap()), "{\"q\":\"x\"}");
    assert!(plain.client_message_id.is_none());
    let id = reg.register_task_with_input_and_cmid(
        "b".to_string(),
        "t",
        "c",
        None,
        Some("m-1".to_string()),
    );
    let named = reg.supervisor().get_task(&id).unwrap();
    assert!(named.tool_input.is_none());
    assert_eq!(named.client_message_id.as_deref(), Some("m-1"));
    assert_eq!(named.session_key.as_deref(), Some("api:s"));
}
