use octos_agent::child_session::{
    background_result_kind_label, child_session_failure_action,
    child_session_failure_action_label, child_session_lifecycle_kind_label,
    classify_child_session_lifecycle_kind, is_retryable_child_failure, BackgroundResultKind,
    ChildSessionFailureAction, ChildSessionLifecycleKind, TaskOutcome, TaskResult,
};
use octos_agent::conclusion::{
    add_generated_podcast, after_verify_hook, announce_spawned, conclude_background,
    delivery_detail, denied_by_hook, inline_podcast_script, lineage_of,
    parse_modified_spawn_verify_output_files, relay_content, run_before_spawn_verify_hook,
    run_task_with_m8_9_recovery, spawned_result, terminal_reason_label, verified_for,
    BackgroundTask, HookVerdict, Lineage, SupervisorMark, TerminalReason,
};
use octos_agent::delivery::{
    before_verify_hook, child_session_outcome, conclusion_hook, deliver_background_result,
    dispatch_child_session_lifecycle, lifecycle_outcome_label, relay_message, verify_hook,
    ChildSessionJoinState, ChildSessionTerminalState, SpawnHookEvent,
};
use octos_agent::context::{TokenUsage, ToolResult};
use octos_agent::json::{to_text, Json, JsonMember};
use octos_agent::podcast::{extract_inline_podcast_script, script_from_spans};
use octos_agent::workflow::{WorkflowMetadata, WorkflowTerminalOutputPolicy};

fn list(items: &[&str]) -> Vec<String> {
    items.iter().map(|s| s.to_string()).collect()
}

fn task_result(success: bool, output: &str, files: &[&str]) -> TaskResult {
    TaskResult {
        success,
        output: output.to_string(),
        files_modified: Vec::new(),
        files_to_send: list(files),
        token_usage: TokenUsage { input_tokens: 0, output_tokens: 0 },
    }
}

#[test]
fn classify_child_session_failure_as_retryable_when_budget_exhausted() {
    let result: TaskOutcome =
        Ok(task_result(false, "Token budget exceeded (120 of 100).", &[]));
    assert_eq!(
        classify_child_session_lifecycle_kind(&result),
        ChildSessionLifecycleKind::RetryableFailed
    );
}

#[test]
fn outcomes_are_told_apart() {
    let ok: TaskOutcome = Ok(task_result(true, "done", &[]));
    assert_eq!(
        classify_child_session_lifecycle_kind(&ok),
        ChildSessionLifecycleKind::Completed
    );
    let failed: TaskOutcome = Err("schema mismatch".to_string());
    assert_eq!(
        classify_child_session_lifecycle_kind(&failed),
        ChildSessionLifecycleKind::TerminalFailed
    );
    let late: TaskOutcome = Err("request TIMED OUT".to_string());
    assert_eq!(
        classify_child_session_lifecycle_kind(&late),
        ChildSessionLifecycleKind::RetryableFailed
    );
    assert!(!is_retryable_child_failure("nothing of the kind"));
}

#[test]
fn child_session_failure_action_matches_terminal_kind() {
    assert_eq!(child_session_failure_action(ChildSessionLifecycleKind::Completed), None);
    assert_eq!(
        child_session_failure_action(ChildSessionLifecycleKind::RetryableFailed),
        Some(ChildSessionFailureAction::Retry)
    );
    assert_eq!(
        child_session_failure_action(ChildSessionLifecycleKind::TerminalFailed),
        Some(ChildSessionFailureAction::Escalate)
    );
}

#[test]
fn labels_are_snake_case() {
    assert_eq!(
        child_session_lifecycle_kind_label(ChildSessionLifecycleKind::RetryableFailed),
        "retryable_failed"
    );
    assert_eq!(
        child_session_failure_action_label(ChildSessionFailureAction::Escalate),
        "escalate"
    );
    assert_eq!(background_result_kind_label(BackgroundResultKind::Report), "report");
    assert_eq!(terminal_reason_label(TerminalReason::ContractFailure), "workspace_contract_failure");
}

#[test]
fn run_task_with_m8_9_recovery_retries_once_after_initial_failure() {
    let failed: TaskOutcome = Err("provider exploded".to_string());
    let prompt = run_task_with_m8_9_recovery(&failed, "count to three").unwrap();
    assert!(prompt.contains("count to three"));
    assert!(prompt.contains("provider exploded"));
    let fine: TaskOutcome = Ok(task_result(true, "done", &[]));
    assert!(run_task_with_m8_9_recovery(&fine, "count to three").is_none());
}

fn text(s: &str) -> Json {
    Json::Str(s.to_string())
}

fn object(key: &str, value: Json) -> Json {
    Json::Object(vec![JsonMember { key: key.to_string(), value }])
}

#[test]
fn test_before_spawn_verify_hook_can_replace_output_files() {
    let files = list(&["/tmp/original-deck.pptx"]);
    let modified =
        HookVerdict::Modified(object("output_files", Json::Array(vec![text("/tmp/final-reviewed.pptx")])));
    let r = run_before_spawn_verify_hook(&files, &modified).unwrap();
    assert_eq!(r, list(&["/tmp/final-reviewed.pptx"]));
}

#[test]
fn hooks_may_let_files_pass_or_deny_them() {
    let files = list(&["/tmp/a"]);
    assert_eq!(run_before_spawn_verify_hook(&files, &HookVerdict::Allow).unwrap(), files);
    assert_eq!(
        run_before_spawn_verify_hook(&files, &HookVerdict::Error("x".to_string())).unwrap(),
        files
    );
    let denied = run_before_spawn_verify_hook(&files, &HookVerdict::Deny("no".to_string()));
    assert_eq!(denied.unwrap_err(), "no");
    assert!(denied_by_hook("no").contains("no"));
    assert!(parse_modified_spawn_verify_output_files(&text("x")).is_err());
    assert_eq!(
        parse_modified_spawn_verify_output_files(&Json::Array(vec![text("/a"), text("/b")]))
            .unwrap(),
        list(&["/a", "/b"])
    );
}

fn background(lineage: bool) -> BackgroundTask {
    BackgroundTask {
        label: "Deck".to_string(),
        task_desc: "make a deck".to_string(),
        workflow: None,
        task_id: Some("task-1".to_string()),
        lineage: if lineage {
            Some(Lineage {
                task_id: "task-1".to_string(),
                parent_session_key: "api:parent".to_string(),
                child_session_key: "api:parent#child-task-1".to_string(),
            })
        } else {
            None
        },
        thread_id: Some("t".to_string()),
        tool_call_id: Some("c".to_string()),
    }
}

#[test]
fn test_background_spawn_emits_child_session_lifecycle_events() {
    let task = background(true);
    let spawned = announce_spawned(&task, task.lineage.as_ref().unwrap());
    assert_eq!(spawned.kind, ChildSessionLifecycleKind::Spawned);
    assert_eq!(spawned.child_session_key, "api:parent#child-task-1");
    let outcome: TaskOutcome = Ok(task_result(true, "done", &[]));
    let end = conclude_background(&task, &outcome, &None, &list(&["/tmp/deck.pptx"]));
    assert_eq!(end.kind, ChildSessionLifecycleKind::Completed);
    let lifecycle = end.lifecycle.unwrap();
    assert_eq!(lifecycle.kind, ChildSessionLifecycleKind::Completed);
    assert!(lifecycle.failure_action.is_none());
    match end.mark {
        SupervisorMark::Completed(files) => assert_eq!(files, list(&["/tmp/deck.pptx"])),
        other => panic!("{other:?}"),
    }
    assert_eq!(end.payload.task_id.as_deref(), Some("task-1"));
    assert_eq!(end.payload.tool_call_id.as_deref(), Some("c"));
}

#[test]
fn test_background_spawn_fails_when_contract_owned_workflow_is_not_ready() {
    let task = background(true);
    let outcome: TaskOutcome = Ok(task_result(true, "done", &["/tmp/x"]));
    let end = conclude_background(&task, &outcome, &Some("contract not ready".to_string()), &[]);
    assert_eq!(end.kind, ChildSessionLifecycleKind::TerminalFailed);
    assert_eq!(end.reason, TerminalReason::ContractFailure);
    match end.mark {
        SupervisorMark::Failed(error) => assert_eq!(error, "contract not ready"),
        other => panic!("{other:?}"),
    }
    assert!(end.payload.content.contains("contract not ready"));
    assert!(end.payload.media.is_empty());
    assert_eq!(
        end.lifecycle.unwrap().failure_action,
        Some(ChildSessionFailureAction::Escalate)
    );
}

#[test]
fn without_a_lineage_nobody_is_told() {
    let outcome: TaskOutcome = Err("boom".to_string());
    let end = conclude_background(&background(false), &outcome, &None, &[]);
    assert!(end.lifecycle.is_none());
    assert_eq!(end.reason, TerminalReason::TaskFailure);
    assert_eq!(end.payload.content, "Status: FAILED\nError: boom");
}

#[test]
fn results_are_relayed_in_words() {
    let outcome: TaskOutcome = Ok(task_result(true, "42", &[]));
    let content = relay_content(&outcome, "subagent-0", "count");
    assert!(content.starts_with("[Subagent subagent-0 completed]\nTask: count\nStatus: SUCCESS"));
    let failed: TaskOutcome = Err("boom".to_string());
    assert!(relay_content(&failed, "w", "t").contains("Error: boom"));
    assert!(spawned_result("Deck").output.contains("Deck"));
}

fn podcast_workflow() -> WorkflowMetadata {
    WorkflowMetadata {
        workflow_kind: "research_podcast".to_string(),
        current_phase: "generate_audio".to_string(),
        allowed_tools: list(&["podcast_generate"]),
        terminal_output: Some(WorkflowTerminalOutputPolicy {
            deliver_final_artifact_only: true,
            forbid_intermediate_files: true,
            required_artifact_kind: "audio".to_string(),
        }),
        progress: None,
    }
}

#[test]
fn a_script_in_the_task_is_found() {
    let desc = "Make a podcast of this:\n[Ann - vivian, calm] Hello.\n[Bob - clone:bob, happy] Hi!";
    let script = extract_inline_podcast_script(desc).expect("a script");
    assert!(script.contains("[Ann - vivian, calm]"), "{script}");
    assert!(script.contains("[Bob - clone:bob, happy]"), "{script}");
    assert!(!script.contains("Make a podcast"), "{script}");
    assert!(extract_inline_podcast_script("no script at all").is_none());
    assert!(script_from_spans("no script at all", &[]).is_none());
    let result = task_result(true, "done", &[]);
    assert_eq!(inline_podcast_script(Some(&podcast_workflow()), &result, desc), Some(script));
    let audio = task_result(true, "done", &["/tmp/final.mp3"]);
    assert!(inline_podcast_script(Some(&podcast_workflow()), &audio, desc).is_none());
    assert!(inline_podcast_script(None, &result, desc).is_none());
}

#[test]
fn a_generated_podcast_is_added_to_the_result() {
    let mut result = task_result(true, "done", &[]);
    let mut made = ToolResult::plain(true, "made".to_string());
    made.files_to_send = list(&["/tmp/pod.mp3"]);
    add_generated_podcast(&mut result, &Ok(made));
    assert!(result.files_to_send.contains(&"/tmp/pod.mp3".to_string()));
    let mut other = task_result(true, "done", &[]);
    add_generated_podcast(&mut other, &Err("tts is down".to_string()));
    assert!(other.files_to_send.is_empty());
}

#[test]
fn child_session_lifecycle_dispatch_defaults_to_not_joined_without_sender() {
    let joined = dispatch_child_session_lifecycle(None);
    assert!(!joined);
    assert_eq!(lifecycle_outcome_label(joined), "not_joined");
    assert!(dispatch_child_session_lifecycle(Some(true)));
    assert!(!dispatch_child_session_lifecycle(Some(false)));
    assert_eq!(lifecycle_outcome_label(true), "dispatched");
}

#[test]
fn the_supervisor_notes_how_a_child_ended() {
    assert_eq!(
        child_session_outcome(ChildSessionLifecycleKind::RetryableFailed, false),
        (ChildSessionTerminalState::RetryableFailure, ChildSessionJoinState::Orphaned)
    );
    assert_eq!(
        child_session_outcome(ChildSessionLifecycleKind::Completed, true),
        (ChildSessionTerminalState::Completed, ChildSessionJoinState::Joined)
    );
}

#[test]
fn test_direct_background_result_short_circuits_legacy_fallback() {
    assert_eq!(deliver_background_result(Some(true)), (true, "accepted"));
    assert_eq!(deliver_background_result(Some(false)), (false, "unavailable"));
    assert_eq!(deliver_background_result(None), (false, "missing_sender"));
}

#[test]
fn undelivered_results_are_relayed() {
    let outcome: TaskOutcome = Ok(task_result(true, "42", &[]));
    let message = relay_message(&outcome, "subagent-0", "count", "telegram", "12345");
    assert_eq!(message.channel, "system");
    assert_eq!(message.sender_id, "subagent");
    assert_eq!(message.chat_id, "telegram:12345");
    assert_eq!(message.content, relay_content(&outcome, "subagent-0", "count"));
    assert_eq!(
        to_text(&message.metadata),
        "{\"deliver_to_channel\":\"telegram\",\"deliver_to_chat_id\":\"12345\"}"
    );
}

#[test]
fn test_background_spawn_emits_verify_and_complete_hooks() {
    let task = background(true);
    let lineage = task.lineage.as_ref().unwrap();
    let files = list(&["/tmp/deck.pptx"]);
    let before = before_verify_hook(&task, lineage, &files);
    assert_eq!(before.event, SpawnHookEvent::BeforeVerify);
    assert_eq!(before.phase.as_deref(), Some("verify_outputs"));
    assert_eq!(before.text, "candidate terminal outputs resolved");
    let verify = verify_hook(&task, lineage, &files);
    assert_eq!(verify.event, SpawnHookEvent::Verify);
    assert_eq!(verify.output_files, files);
    let end =
        conclusion_hook(&task, lineage, ChildSessionLifecycleKind::Completed, "done", &files)
            .unwrap();
    assert_eq!(end.event, SpawnHookEvent::Complete);
    assert_eq!(end.phase.as_deref(), Some("deliver_result"));
    assert_eq!(end.text, "done");
    assert!(end.failure_action.is_none());
}

#[test]
fn test_background_spawn_emits_failure_hook_for_contract_failure() {
    let mut task = background(true);
    task.label = "Slides deliverable".to_string();
    task.task_desc = "Build the deck".to_string();
    task.workflow = Some(WorkflowMetadata {
        workflow_kind: "slides".to_string(),
        current_phase: "design".to_string(),
        allowed_tools: list(&["mofa_slides"]),
        terminal_output: Some(WorkflowTerminalOutputPolicy {
            deliver_final_artifact_only: true,
            forbid_intermediate_files: true,
            required_artifact_kind: "presentation".to_string(),
        }),
        progress: None,
    });
    let lineage = task.lineage.as_ref().unwrap();
    let end = conclusion_hook(
        &task,
        lineage,
        ChildSessionLifecycleKind::TerminalFailed,
        "contract not ready",
        &[],
    )
    .unwrap();
    assert_eq!(end.event, SpawnHookEvent::Failure);
    assert_eq!(end.workflow_kind.as_deref(), Some("slides"));
    assert_eq!(end.phase.as_deref(), Some("design"));
    assert_eq!(end.failure_action, Some(ChildSessionFailureAction::Escalate));
    assert_eq!(end.text, "contract not ready");
    assert!(conclusion_hook(&task, lineage, ChildSessionLifecycleKind::Spawned, "", &[]).is_none());
}

#[test]
fn a_lineage_takes_a_task_and_two_sessions() {
    let some = |s: &str| Some(s.to_string());
    let lineage = lineage_of(&some("t"), &some("p"), &some("c")).unwrap();
    assert_eq!(lineage.task_id, "t");
    assert_eq!(lineage.parent_session_key, "p");
    assert_eq!(lineage.child_session_key, "c");
    assert!(lineage_of(&None, &some("p"), &some("c")).is_none());
    assert!(lineage_of(&some("t"), &None, &some("c")).is_none());
    assert!(lineage_of(&some("t"), &some("p"), &None).is_none());
}

#[test]
fn only_accepted_work_is_verified() {
    let task = background(true);
    let good: TaskOutcome = Ok(task_result(true, "done", &[]));
    let bad: TaskOutcome = Ok(task_result(false, "no", &[]));
    assert!(verified_for(&task, &good, &None).is_some());
    assert!(verified_for(&task, &bad, &None).is_none());
    assert!(verified_for(&task, &good, &Some("rejected".to_string())).is_none());
    let mut alone = background(true);
    alone.lineage = None;
    assert!(verified_for(&alone, &good, &None).is_none());
}

#[test]
fn a_denied_verification_leaves_no_files() {
    let files = list(&["/w/a"]);
    assert_eq!(after_verify_hook(&files, &HookVerdict::Allow), (files.clone(), None));
    assert_eq!(
        after_verify_hook(&files, &HookVerdict::Deny("bad".to_string())),
        (Vec::new(), Some("spawn verify denied by hook: bad".to_string()))
    );
}

#[test]
fn deliveries_of_workflows_are_told() {
    let mut task = background(true);
    let good: TaskOutcome = Ok(task_result(true, "done", &[]));
    assert!(delivery_detail(&task, &good).is_none());
    task.workflow = Some(podcast_workflow());
    let detail = delivery_detail(&task, &good).unwrap();
    let value: serde_json::Value = serde_json::from_str(&detail).unwrap();
    assert_eq!(value["current_phase"], "deliver_result");
    assert_eq!(value["progress"], 0.95);
    assert!(delivery_detail(&task, &Err("gone".to_string())).is_none());
}
