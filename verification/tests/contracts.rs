use octos_agent::artifacts::{
    bind_explicit_files_to_artifacts, resolve_artifacts, resolve_glob_matches, search_pattern,
    ArtifactPattern, GlobEntry, GlobMatch, GlobScan, ReportedFile,
};
use octos_agent::checks::{
    completion_run, judge_validators, label_of, run_declared_validators, run_delivery_actions,
    run_project_root_validators, run_verify_actions, runs_project, send_args, send_target,
    ActionOutcome, ActionResult, DeliveryStep, ProjectRootValidatorReport, ProjectRun, Validator,
    ValidatorOutcome, ValidatorPhase,
};
use octos_agent::json::{to_text, Json, JsonMember};
use octos_agent::terminal::WorkspaceProjectKind;
use octos_agent::workspace_contract::{
    default_session_policy_requires_contract, enforce_spawn_task_contract,
    enforce_spawn_task_contract_with_args, enforce_spawn_task_contract_with_args_and_output,
    extract_notify_user, resolving_mark, run_failure_actions, ContractEvent, ContractGate,
    ContractStage, PolicyRead, SpawnTaskContractResult, SpawnTaskPolicy, TaskRuntimeState,
};

fn list(items: &[&str]) -> Vec<String> {
    items.iter().map(|s| s.to_string()).collect()
}

fn task(artifacts: &[&str], deliver: &[&str], on_failure: &[&str]) -> SpawnTaskPolicy {
    SpawnTaskPolicy {
        artifact_sources: list(artifacts),
        on_verify: Vec::new(),
        delivery_actions: list(deliver),
        on_failure: list(on_failure),
    }
}

fn found(task: SpawnTaskPolicy) -> PolicyRead {
    PolicyRead::Found { is_session: true, task: Some(task) }
}

fn pattern(name: &str, pattern: &str) -> ArtifactPattern {
    ArtifactPattern { name: name.to_string(), pattern: pattern.to_string() }
}

fn at(path: &str, modified: i128) -> GlobEntry {
    GlobEntry::Found {
        found: GlobMatch { path: path.to_string(), is_file: true, modified: Some(modified) },
    }
}

fn scan(entries: Vec<GlobEntry>) -> GlobScan {
    GlobScan::Entries { entries }
}

fn present(path: &str) -> ReportedFile {
    ReportedFile { path: path.to_string(), present: true }
}

/// Runs a contract whose stages all pass.
fn run_through(mut gate: ContractGate, paths: Vec<String>, delivered: Vec<String>) -> ContractGate {
    gate.advance(ContractEvent::Resolved { paths }, "t", false);
    gate.advance(ContractEvent::Passed, "t", false);
    gate.advance(ContractEvent::Passed, "t", false);
    gate.advance(ContractEvent::Delivered { files: delivered }, "t", false);
    gate
}

fn result(gate: ContractGate) -> SpawnTaskContractResult {
    match gate.stage {
        ContractStage::Finished { result } => result,
        other => panic!("not finished: {other:?}"),
    }
}

#[test]
fn tts_contract_resolves_new_mp3_for_actor_delivery() {
    let policy = task(&["audio"], &[], &["notify_user:TTS generation failed"]);
    let resolved = resolve_artifacts(
        &policy,
        &[pattern("audio", "*.mp3")],
        &[],
        &[scan(vec![at("/w/tts_result.mp3", 5)])],
        0,
    )
    .unwrap();
    assert_eq!(resolved.paths, list(&["/w/tts_result.mp3"]));
    let gate = enforce_spawn_task_contract(true, &found(policy), "fm_tts", true);
    match result(run_through(gate, resolved.paths, Vec::new())) {
        SpawnTaskContractResult::Satisfied { output_files } => {
            assert_eq!(output_files, list(&["/w/tts_result.mp3"]))
        }
        other => panic!("expected success, got {other:?}"),
    }
}

#[test]
fn tts_contract_fails_when_no_mp3_exists() {
    let policy = task(&["audio"], &[], &["notify_user:TTS generation failed"]);
    let error = resolve_artifacts(
        &policy,
        &[pattern("audio", "*.mp3")],
        &[],
        &[scan(Vec::new())],
        0,
    )
    .unwrap_err();
    let mut gate = enforce_spawn_task_contract(true, &found(policy), "fm_tts", true);
    gate.advance(ContractEvent::Failed { error }, "fm_tts", false);
    gate.advance(ContractEvent::CleanedUp, "fm_tts", false);
    match result(gate) {
        SpawnTaskContractResult::Failed { error, notify_user } => {
            assert!(error.contains("artifact"), "{error}");
            assert_eq!(notify_user.as_deref(), Some("TTS generation failed"));
        }
        other => panic!("expected failure, got {other:?}"),
    }
}

#[test]
fn podcast_contract_resolves_generated_audio_for_actor_delivery() {
    let policy = task(&["audio"], &[], &[]);
    let path = "/w/skill-output/mofa-podcast/podcast_full_123.wav";
    let resolved =
        resolve_artifacts(&policy, &[pattern("audio", "*.wav")], &[present(path)], &[], 0)
            .unwrap();
    assert_eq!(resolved.paths, list(&[path]));
    let gate = enforce_spawn_task_contract(true, &found(policy), "podcast_generate", true);
    match result(run_through(gate, resolved.paths, Vec::new())) {
        SpawnTaskContractResult::Satisfied { output_files } => {
            assert_eq!(output_files, list(&[path]))
        }
        other => panic!("expected success, got {other:?}"),
    }
}

#[test]
fn session_contract_resolves_multiple_artifact_sources_for_runtime_verification() {
    let mut policy = task(&["report", "audio"], &[], &[]);
    policy.on_verify =
        list(&["file_exists:$report", "file_exists:$audio", "file_size_min:$audio:1024"]);
    let resolved = resolve_artifacts(
        &policy,
        &[pattern("report", "report.md"), pattern("audio", "audio.mp3")],
        &[],
        &[scan(vec![at("/w/report.md", 1)]), scan(vec![at("/w/audio.mp3", 1)])],
        0,
    )
    .unwrap();
    assert_eq!(resolved.paths, list(&["/w/report.md", "/w/audio.mp3"]));
    let checks: Vec<ActionOutcome> =
        policy.on_verify.iter().map(|check| outcome(check, ActionResult::Pass)).collect();
    run_verify_actions(&checks).unwrap();
    let gate = enforce_spawn_task_contract(true, &found(policy), "bundle_generate", false);
    match result(run_through(gate, resolved.paths, Vec::new())) {
        SpawnTaskContractResult::Satisfied { output_files } => {
            assert_eq!(output_files, list(&["/w/report.md", "/w/audio.mp3"]))
        }
        other => panic!("expected success, got {other:?}"),
    }
}

#[test]
fn session_contract_binds_explicit_files_to_named_artifacts_for_delivery_actions() {
    let policy =
        task(&["report", "audio"], &["send_file:$report", "send_file:$audio"], &[]);
    let files = [present("/w/report.md"), present("/w/audio.mp3")];
    let resolved = resolve_artifacts(&policy, &[], &files, &[], 0).unwrap();
    assert_eq!(resolved.paths, list(&["/w/report.md", "/w/audio.mp3"]));
    let of = |name: &str| {
        resolved.targets.iter().find(|t| t.name.trim_start_matches('$') == name).unwrap()
    };
    assert_eq!(of("report").paths, list(&["/w/report.md"]));
    assert_eq!(of("audio").paths, list(&["/w/audio.mp3"]));
    assert_eq!(send_target("send_file:$report").as_deref(), Some("$report"));
    let steps = vec![
        DeliveryStep::Sent {
            path: "/w/report.md".to_string(),
            success: true,
            output: "sent".to_string(),
        },
        DeliveryStep::Sent {
            path: "/w/audio.mp3".to_string(),
            success: true,
            output: "sent".to_string(),
        },
    ];
    let delivered = run_delivery_actions(&resolved.paths, &steps).unwrap();
    assert_eq!(delivered, list(&["/w/report.md", "/w/audio.mp3"]));
    let gate = enforce_spawn_task_contract(true, &found(policy), "bundle_generate", false);
    match result(run_through(gate, resolved.paths, delivered)) {
        SpawnTaskContractResult::Satisfied { output_files } => {
            assert_eq!(output_files, list(&["/w/report.md", "/w/audio.mp3"]))
        }
        other => panic!("expected success, got {other:?}"),
    }
}

#[test]
fn session_contract_rejects_mismatched_explicit_output_counts() {
    let policy = task(&["report", "audio"], &[], &[]);
    let error =
        resolve_artifacts(&policy, &[], &[present("/w/report.md")], &[], 0).unwrap_err();
    let mut gate = enforce_spawn_task_contract(true, &found(policy), "bundle_generate", false);
    gate.advance(ContractEvent::Failed { error }, "bundle_generate", false);
    gate.advance(ContractEvent::CleanedUp, "bundle_generate", false);
    match result(gate) {
        SpawnTaskContractResult::Failed { error, .. } => {
            assert!(error.contains("expects 2 explicit output files"), "{error}")
        }
        other => panic!("expected failure, got {other:?}"),
    }
}

#[test]
fn reported_files_must_exist() {
    let policy = task(&["report"], &[], &[]);
    let gone = ReportedFile { path: "/w/report.md".to_string(), present: false };
    let error = resolve_artifacts(&policy, &[], &[gone], &[], 0).unwrap_err();
    assert_eq!(error, "contract expected output files but tool-reported files do not exist");
}

#[test]
fn session_tts_contract_is_required_when_policy_file_is_missing() {
    let required = default_session_policy_requires_contract(&list(&["fm_tts"]), "fm_tts");
    match result(enforce_spawn_task_contract(true, &PolicyRead::Missing, "fm_tts", required)) {
        SpawnTaskContractResult::NotConfigured { required, reason } => {
            assert!(required);
            assert_eq!(reason.as_deref(), Some("workspace policy not found"));
        }
        other => panic!("{other:?}"),
    }
}

#[test]
fn unrelated_spawn_tool_without_contract_is_not_required() {
    let name = "unknown_background_tool";
    let required = default_session_policy_requires_contract(&list(&["fm_tts"]), name);
    match result(enforce_spawn_task_contract(true, &PolicyRead::Missing, name, required)) {
        SpawnTaskContractResult::NotConfigured { required, reason } => {
            assert!(!required);
            assert!(reason.is_none());
        }
        other => panic!("{other:?}"),
    }
}

#[test]
fn what_is_missing_is_told() {
    match result(enforce_spawn_task_contract(false, &PolicyRead::Missing, "fm_tts", true)) {
        SpawnTaskContractResult::NotConfigured { reason, .. } => {
            assert_eq!(reason.as_deref(), Some("workspace root unavailable"))
        }
        other => panic!("{other:?}"),
    }
    let empty = PolicyRead::Found { is_session: true, task: None };
    match result(enforce_spawn_task_contract(true, &empty, "fm_tts", true)) {
        SpawnTaskContractResult::NotConfigured { required, reason } => {
            assert!(required);
            assert_eq!(
                reason.as_deref(),
                Some("workspace policy is missing spawn_tasks.fm_tts")
            );
        }
        other => panic!("{other:?}"),
    }
    let project = PolicyRead::Found { is_session: false, task: None };
    match result(enforce_spawn_task_contract(true, &project, "fm_tts", true)) {
        SpawnTaskContractResult::NotConfigured { required, .. } => assert!(!required),
        other => panic!("{other:?}"),
    }
    let broken = PolicyRead::Failed { error: "bad toml".to_string() };
    match result(enforce_spawn_task_contract(true, &broken, "fm_tts", true)) {
        SpawnTaskContractResult::Failed { error, notify_user } => {
            assert_eq!(error, "workspace contract read failed: bad toml");
            assert!(notify_user.is_none());
        }
        other => panic!("{other:?}"),
    }
}

#[test]
fn the_course_of_a_contract_is_announced() {
    let policy = task(&["a"], &["send_file:$a"], &["cleanup:$a"]);
    assert!(run_failure_actions(&policy.on_failure));
    let mut gate = enforce_spawn_task_contract(true, &found(policy), "t", false);
    assert_eq!(resolving_mark("t").1, "resolve outputs for t");
    let mark = gate
        .advance(ContractEvent::Resolved { paths: list(&["/w/a"]) }, "t", true)
        .unwrap();
    assert_eq!(mark.0, TaskRuntimeState::VerifyingOutputs);
    assert_eq!(mark.1, "verify outputs for t");
    assert!(gate.advance(ContractEvent::Passed, "t", true).is_none());
    let mark = gate.advance(ContractEvent::Passed, "t", true).unwrap();
    assert_eq!(mark.0, TaskRuntimeState::DeliveringOutputs);
    let mark =
        gate.advance(ContractEvent::Failed { error: "x".to_string() }, "t", true).unwrap();
    assert_eq!(mark.0, TaskRuntimeState::CleaningUp);
    assert!(gate.advance(ContractEvent::Passed, "t", true).is_none());
    gate.advance(ContractEvent::CleanedUp, "t", true);
    assert!(matches!(result(gate), SpawnTaskContractResult::Failed { .. }));
}

#[test]
fn notices_are_found_among_failure_actions() {
    assert_eq!(
        extract_notify_user(&list(&["cleanup:$a", "notify_user:sorry", "notify_user:x"])),
        Some("sorry".to_string())
    );
    assert_eq!(extract_notify_user(&list(&["cleanup:$a"])), None);
    assert!(!run_failure_actions(&list(&["notify_user:x"])));
}

fn outcome(action: &str, result: ActionResult) -> ActionOutcome {
    ActionOutcome { action: action.to_string(), result }
}

#[test]
fn runtime_verification_uses_shared_validator_semantics_for_file_size_checks() {
    let error = run_verify_actions(&[outcome(
        "file_size_min:$artifact:1024",
        ActionResult::Fail { reason: "output.mp3 is 1 bytes, minimum is 1024".to_string() },
    )])
    .unwrap_err();
    assert!(error.contains("file_size_min:$artifact:1024"), "{error}");
    assert!(error.contains("output.mp3 is 1 bytes, minimum is 1024"), "{error}");
    assert!(run_verify_actions(&[outcome("file_exists:$a", ActionResult::Pass)]).is_ok());
}

#[test]
fn deliveries_stop_at_the_first_failure() {
    let steps = vec![
        DeliveryStep::Sent { path: "/w/a".to_string(), success: true, output: String::new() },
        DeliveryStep::NotSent { path: "/w/b".to_string(), error: "no tool".to_string() },
    ];
    let error = run_delivery_actions(&list(&["/w/a", "/w/b"]), &steps).unwrap_err();
    assert!(error.contains("no tool"), "{error}");
    assert_eq!(run_delivery_actions(&list(&["/w/a"]), &[]).unwrap(), list(&["/w/a"]));
    assert_eq!(
        to_text(&send_args("/w/a", "call-1")),
        "{\"file_path\":\"/w/a\",\"tool_call_id\":\"call-1\"}"
    );
}

#[test]
fn newest_matches_come_first() {
    let entries = vec![at("/w/a.mp3", 10), at("/w/b.mp3", 30), at("/w/c.mp3", 20)];
    let matches = resolve_glob_matches("*.mp3", &scan(entries), None).unwrap();
    assert_eq!(matches, list(&["/w/b.mp3", "/w/c.mp3", "/w/a.mp3"]));
    assert_eq!(search_pattern("/w", "*.mp3"), "/w/*.mp3");
    let error = resolve_glob_matches(
        "[",
        &GlobScan::Invalid { error: "bad range".to_string() },
        None,
    )
    .unwrap_err();
    assert!(error.contains("bad range"), "{error}");
}

#[test]
fn files_are_bound_in_order() {
    let bound = bind_explicit_files_to_artifacts(&list(&["one"]), &list(&["/w/1"])).unwrap();
    assert!(bound.iter().any(|t| t.paths == list(&["/w/1"])));
}

fn validator(id: &str, required: bool, phase: ValidatorPhase) -> Validator {
    Validator { id: id.to_string(), required, phase }
}

#[test]
fn spawn_only_envelope_named_outputs_threads_through_contract_to_validator() {
    let args = Some(Json::Object(vec![JsonMember {
        key: "slug".to_string(),
        value: Json::Str("demo".to_string()),
    }]));
    let output = Some(Json::Object(vec![JsonMember {
        key: "deploy_url".to_string(),
        value: Json::Str("http://127.0.0.1/".to_string()),
    }]));
    let policy = found(task(&[], &[], &[]));
    let gate = enforce_spawn_task_contract_with_args_and_output(
        true,
        &policy,
        "mofa_publish",
        true,
        &args,
        &output,
    );
    let run = completion_run(
        &gate,
        &[validator("turn", true, ValidatorPhase::TurnEnd)],
        &[validator("probe", true, ValidatorPhase::Completion)],
        "/w",
        "mofa_publish",
    )
    .unwrap();
    assert_eq!(run.scoped.len(), 1);
    assert_eq!(run.scoped[0].id, "probe");
    assert_eq!(run.invocation.repo_label, "mofa_publish");
    assert_eq!(to_text(run.invocation.input_args.as_ref().unwrap()), "{\"slug\":\"demo\"}");
    assert_eq!(
        to_text(run.invocation.tool_output.as_ref().unwrap()),
        "{\"deploy_url\":\"http://127.0.0.1/\"}"
    );
    let gate = enforce_spawn_task_contract_with_args(true, &policy, "mofa_publish", true, &args);
    assert!(gate.tool_output.is_none());
    assert!(gate.input_args.is_some());
}

#[test]
fn phases_without_validators_are_not_run() {
    let all = [validator("probe", true, ValidatorPhase::Completion)];
    assert!(run_declared_validators(&all, "/w", "t", ValidatorPhase::TurnEnd, None).is_none());
    assert!(run_declared_validators(&all, "/w", "t", ValidatorPhase::Completion, None).is_some());
}

fn judged(id: &str, required: bool, passed: bool) -> ValidatorOutcome {
    ValidatorOutcome {
        validator_id: id.to_string(),
        required,
        passed,
        reason: "sha mismatch".to_string(),
    }
}

#[test]
fn enforce_spawn_task_contract_with_args_treats_soft_fail_validator_as_warning() {
    assert!(judge_validators(&[judged("soft", false, false), judged("hard", true, true)]).is_ok());
}

#[test]
fn enforce_spawn_task_contract_with_args_fails_when_sha256_does_not_match() {
    let error =
        judge_validators(&[judged("soft", false, false), judged("sum", true, false)]).unwrap_err();
    assert!(error.contains("sum: sha mismatch"), "{error}");
    assert!(!error.contains("soft"), "{error}");
}

#[test]
fn the_first_failing_project_is_told() {
    let project = |slug: &str, failure: Option<&str>| ProjectRun {
        kind: WorkspaceProjectKind::Slides,
        slug: slug.to_string(),
        validators: Some(1),
        failure: failure.map(|f| f.to_string()),
    };
    let all = vec![project("a", None), project("b", Some("no deck")), project("c", Some("x"))];
    let report = run_project_root_validators(&all, Some(WorkspaceProjectKind::Slides));
    assert_eq!(report.projects_run, 3);
    assert_eq!(report.failures.len(), 2);
    assert!(report.first_failure_reason().unwrap().contains("no deck"));
    assert!(!report.is_empty());
    let other = run_project_root_validators(&all, Some(WorkspaceProjectKind::Sites));
    assert_eq!(other.projects_run, 0);
    assert!(ProjectRootValidatorReport::default().is_empty());
    assert!(!runs_project(WorkspaceProjectKind::Slides, Some(0), None));
    assert_eq!(label_of(WorkspaceProjectKind::Slides, "demo"), "slides/demo");
}
