use octos_agent::terminal::{
    artifacts_to_resolve, contract_terminal_files, directories_to_probe,
    resolve_background_terminal_files, resolve_contract_terminal_files,
    resolve_contract_workspace_root, ArtifactPaths, ContractArtifact, ContractCheck,
    ContractObservation, TerminalPlan, WorkspaceContractStatus,
    WorkspaceProjectKind, WorkspaceRepo,
};
use octos_agent::workflow::{
    select_workflow_terminal_files, WorkflowMetadata, WorkflowTerminalOutputPolicy,
};

fn list(items: &[&str]) -> Vec<String> {
    items.iter().map(|s| s.to_string()).collect()
}

fn workflow(kind: &str, phase: &str, tool: &str, artifact: &str) -> WorkflowMetadata {
    WorkflowMetadata {
        workflow_kind: kind.to_string(),
        current_phase: phase.to_string(),
        allowed_tools: list(&[tool]),
        terminal_output: Some(WorkflowTerminalOutputPolicy {
            deliver_final_artifact_only: true,
            forbid_intermediate_files: true,
            required_artifact_kind: artifact.to_string(),
        }),
        progress: None,
    }
}

#[test]
fn workflow_terminal_output_prefers_final_audio_and_skips_intermediates() {
    let workflow = workflow("research_podcast", "generate_audio", "podcast_generate", "audio");
    let files_to_send = list(&[
        "/tmp/podcast_part_1.mp3",
        "/tmp/research_report.md",
        "/tmp/podcast_full_final.mp3",
    ]);
    let files_modified = list(&["/tmp/script.md"]);

    let selected =
        select_workflow_terminal_files(&files_to_send, &files_modified, Some(&workflow)).unwrap();

    assert_eq!(selected, list(&["/tmp/podcast_full_final.mp3"]));
}

#[test]
fn workflow_terminal_output_accepts_audio_from_modified_files_when_explicit_send_missing() {
    let workflow = workflow("research_podcast", "generate_audio", "podcast_generate", "audio");
    let files_modified = list(&["/tmp/podcast_script.md", "/tmp/podcast_full_final.mp3"]);

    let selected =
        select_workflow_terminal_files(&[], &files_modified, Some(&workflow)).unwrap();

    assert_eq!(selected, list(&["/tmp/podcast_full_final.mp3"]));
}

#[test]
fn workflow_terminal_output_requires_required_audio_artifact() {
    let workflow = workflow("research_podcast", "deliver_result", "podcast_generate", "audio");
    let plan = resolve_background_terminal_files(
        "/tmp/work",
        &[],
        &[],
        Some(&workflow),
        &[],
        &Ok(Vec::new()),
    );
    match plan {
        TerminalPlan::Failed(error) => {
            assert!(error.contains("required audio terminal artifact"), "{error}")
        }
        other => panic!("research_podcast must not complete without audio: {other:?}"),
    }
}

#[test]
fn workflow_terminal_output_prefers_final_presentation_and_skips_scratch_files() {
    let workflow = workflow("slides", "deliver_result", "mofa_slides", "presentation");
    let files_to_send = list(&[
        "/tmp/output/slide-01.png",
        "/tmp/output/deck.pptx",
        "/tmp/output/notes.txt",
    ]);

    let selected = select_workflow_terminal_files(&files_to_send, &[], Some(&workflow)).unwrap();

    assert_eq!(selected, list(&["/tmp/output/deck.pptx"]));
}

#[test]
fn workflow_terminal_output_prefers_site_entrypoint_and_skips_assets() {
    let workflow = workflow("site", "deliver_result", "shell", "site");
    let files_to_send = list(&[
        "/tmp/site/dist/assets/logo.png",
        "/tmp/site/dist/index.html",
        "/tmp/site/dist/about.html",
    ]);

    let selected = select_workflow_terminal_files(&files_to_send, &[], Some(&workflow)).unwrap();

    assert_eq!(selected, list(&["/tmp/site/dist/index.html"]));
}

#[test]
fn without_a_workflow_nothing_is_selected() {
    assert!(select_workflow_terminal_files(&list(&["/tmp/a"]), &[], None).is_none());
}

fn status(ready: bool, artifact: &str, present: bool) -> WorkspaceContractStatus {
    WorkspaceContractStatus {
        repo_label: "slides/demo".to_string(),
        policy_managed: true,
        ready,
        error: None,
        turn_end_checks: Vec::new(),
        completion_checks: vec![ContractCheck {
            spec: format!("file_exists:{artifact}"),
            passed: present,
            reason: None,
        }],
        artifacts: vec![ContractArtifact {
            name: "primary".to_string(),
            pattern: artifact.to_string(),
            present,
        }],
    }
}

fn resolved(name: &str, paths: &[&str]) -> ArtifactPaths {
    ArtifactPaths { name: name.to_string(), paths: Ok(list(paths)) }
}

#[test]
fn only_present_artifacts_are_delivered() {
    let mut workflow = workflow("slides", "deliver_result", "mofa_slides", "presentation");
    workflow.terminal_output.as_mut().unwrap().deliver_final_artifact_only = false;
    let mut found = status(true, "output/deck.pptx", true);
    for (name, present) in [("draft", false), ("notes", true)] {
        found.artifacts.push(ContractArtifact {
            name: name.to_string(),
            pattern: format!("{name}.md"),
            present,
        });
    }
    assert_eq!(artifacts_to_resolve(&found), list(&["primary", "notes"]));
    let mut seen = ContractObservation {
        status: Ok(found),
        primary_path: Ok(None),
        artifact_paths: vec![
            resolved("primary", &["/w/z.pptx"]),
            resolved("draft", &["/w/draft.md"]),
            resolved("notes", &["/w/notes.md"]),
        ],
    };
    let selected = resolve_contract_terminal_files(Some(&workflow), &seen).unwrap().unwrap();
    assert_eq!(selected, list(&["/w/notes.md", "/w/z.pptx"]));
    seen.artifact_paths[1].paths = Err("unreadable".to_string());
    assert!(resolve_contract_terminal_files(Some(&workflow), &seen).is_ok());
    seen.artifact_paths[2].paths = Err("unreadable".to_string());
    assert_eq!(
        resolve_contract_terminal_files(Some(&workflow), &seen).unwrap_err(),
        "workspace contract resolution failed: unreadable"
    );
}

#[test]
fn contract_terminal_output_prefers_declared_slides_deck_name_over_newer_draft() {
    let workflow = workflow("slides", "deliver_result", "mofa_slides", "presentation");
    let deck = "/tmp/w/slides/demo/output/deck.pptx";
    let draft = "/tmp/w/slides/demo/output/deck-draft.pptx";
    let seen = ContractObservation {
        status: Ok(status(true, "output/deck.pptx", true)),
        primary_path: Ok(Some(deck.to_string())),
        artifact_paths: vec![resolved("primary", &[draft, deck])],
    };

    let selected =
        resolve_contract_terminal_files(Some(&workflow), &seen).unwrap().unwrap();

    assert_eq!(selected, list(&[deck]));
    assert_eq!(contract_terminal_files(Ok(Some(selected))).unwrap(), list(&[deck]));
    assert!(contract_terminal_files(Ok(None)).is_err());
}

#[test]
fn contract_terminal_output_fails_when_site_entrypoint_is_missing() {
    let workflow = workflow("site", "deliver_result", "shell", "site");
    let seen = ContractObservation {
        status: Ok(status(false, "out/index.html", false)),
        primary_path: Ok(None),
        artifact_paths: vec![resolved("primary", &[])],
    };
    let error = resolve_contract_terminal_files(Some(&workflow), &seen).unwrap_err();
    assert!(error.contains("workspace contract"), "{error}");
    assert!(error.contains("out/index.html"), "{error}");
}

#[test]
fn the_project_of_a_file_is_found() {
    let workflow = workflow("slides", "deliver_result", "mofa_slides", "presentation");
    let files = list(&["slides/demo/output/deck.pptx"]);
    let root = resolve_contract_workspace_root(
        "/tmp/w",
        &files,
        &[],
        &workflow,
        &list(&["/tmp/w/slides/demo"]),
        &Ok(Vec::new()),
    )
    .unwrap();
    assert_eq!(root, "/tmp/w/slides/demo");
    assert!(directories_to_probe("/tmp/w", &files, &[])
        .contains(&"/tmp/w/slides/demo".to_string()));
}

#[test]
fn a_lone_project_is_taken_without_files() {
    let workflow = workflow("slides", "deliver_result", "mofa_slides", "presentation");
    let one = Ok(vec![WorkspaceRepo {
        kind: WorkspaceProjectKind::Slides,
        root: "/tmp/w/slides/demo".to_string(),
    }]);
    assert_eq!(
        resolve_contract_workspace_root("/tmp/w", &[], &[], &workflow, &[], &one).unwrap(),
        "/tmp/w/slides/demo"
    );
    let none = Ok(Vec::new());
    assert!(resolve_contract_workspace_root("/tmp/w", &[], &[], &workflow, &[], &none).is_err());
    let two = Ok(vec![
        WorkspaceRepo { kind: WorkspaceProjectKind::Slides, root: "/tmp/w/slides/a".to_string() },
        WorkspaceRepo { kind: WorkspaceProjectKind::Slides, root: "/tmp/w/slides/b".to_string() },
    ]);
    assert!(resolve_contract_workspace_root("/tmp/w", &[], &[], &workflow, &[], &two).is_err());
}
