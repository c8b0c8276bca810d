use octos_agent::access::{Resolution, ResolvedToolPath, ToolPathError, ToolPathScope};
use octos_agent::context::HostHandle;
use octos_agent::read_task_output::{
    ancestors_to_check, apply_mode, finish_read, mode_hint, no_matches, read_offset,
    reject_symlinked_ancestors, resolve_handle_path, truncate_to_cap, AncestorSeen, ReadDirection,
    ReadInput, ReadMode, ReadStep, ReadTaskOutputTool, SeenPaths, TaskRecord, DEFAULT_LINE_LIMIT,
    MAX_GREP_MATCHES, MAX_LINE_LIMIT, MAX_OUTPUT_BYTES, MAX_READ_BYTES,
};
use std::path::{Component, Path, PathBuf};

const UPLOADS: &str = "/tmp/octos-uploads";
const ROOT: &str = "/data/workspace";

/// A resolver like the host's: it takes the detours out of a path and looks which
/// directory the path lies in. Handles and names of uploads are given to it.
fn resolve(base: &str, known: &[(&str, &str, ToolPathScope)], path: &str) -> Resolution {
    if let Some((_, target, scope)) = known.iter().find(|(given, _, _)| *given == path) {
        return Ok(ResolvedToolPath { absolute: target.to_string(), scope: *scope });
    }
    let mut whole = PathBuf::new();
    for part in Path::new(base).join(path).components() {
        match part {
            Component::ParentDir => {
                whole.pop();
            }
            Component::CurDir => {}
            other => whole.push(other),
        }
    }
    let scope = if whole.starts_with(UPLOADS) {
        ToolPathScope::Upload
    } else if whole.starts_with(base) {
        ToolPathScope::Workspace
    } else if Path::new(path).is_absolute() {
        return Err(ToolPathError::OutsideAllowedRoots);
    } else {
        return Err(ToolPathError::Traversal);
    };
    Ok(ResolvedToolPath { absolute: whole.to_string_lossy().into_owned(), scope })
}

/// Runs a call with what the resolver gives for its paths.
fn execute(
    tool: &ReadTaskOutputTool,
    input: Option<ReadInput>,
    task: Option<TaskRecord>,
) -> ReadStep {
    let path = match input.as_ref().map(|i| &i.mode) {
        Some(ReadMode::File { path, .. }) => path.clone(),
        _ => String::new(),
    };
    let files = task.as_ref().map(|t| t.output_files.clone()).unwrap_or_default();
    tool.execute(&seen(&path, &files), input, task)
}

fn seen(path: &str, files: &[String]) -> SeenPaths {
    SeenPaths {
        asked: resolve(ROOT, &[], path),
        files: files.iter().map(|f| resolve(ROOT, &[], f)).collect(),
    }
}

fn make_tool() -> ReadTaskOutputTool {
    ReadTaskOutputTool::new(
        HostHandle { id: 1 },
        "session-A".to_string(),
        Some(HostHandle { id: 2 }),
        ROOT.to_string(),
    )
}

fn seed_task(tc_id: &str, files: &[&str]) -> TaskRecord {
    TaskRecord {
        id: "task-1".to_string(),
        tool_call_id: tc_id.to_string(),
        session_key: Some("session-A".to_string()),
        output_files: files.iter().map(|f| f.to_string()).collect(),
    }
}

fn ask(mode: ReadMode) -> Option<ReadInput> {
    Some(ReadInput { task_handle: "task-1".to_string(), mode })
}

fn head(lines: usize) -> ReadMode {
    ReadMode::Head { lines }
}

fn file(path: &str, mode: ReadMode) -> ReadMode {
    ReadMode::File { path: path.to_string(), mode: Box::new(mode) }
}

/// Asks for a part of the log of a task and finishes the read with its text.
fn read_log(tc_id: &str, body: &str, mode: ReadMode) -> String {
    match execute(&make_tool(), ask(mode), Some(seed_task(tc_id, &[]))) {
        ReadStep::Log { key, mode, .. } => {
            let key = key.unwrap();
            assert_eq!(key.session_id, format!("agent:{tc_id}"));
            assert_eq!(key.task_id, "task-1");
            let result = finish_read(body, &mode).unwrap();
            assert!(result.success);
            result.output
        }
        other => panic!("no log: {other:?}"),
    }
}

fn refused(step: ReadStep) -> bool {
    match step {
        ReadStep::Failed { .. } => true,
        ReadStep::Answer { result } => !result.success,
        _ => false,
    }
}

#[test]
fn head_returns_first_n_lines() {
    let body = "line1\nline2\nline3\nline4\nline5\n";
    assert_eq!(read_log("tc-1", body, head(2)), "line1\nline2");
}

#[test]
fn tail_returns_last_n_lines() {
    let body = "a\nb\nc\nd\ne\n";
    assert_eq!(read_log("tc-2", body, ReadMode::Tail { lines: 3 }), "c\nd\ne");
}

#[test]
fn grep_returns_matching_lines_with_line_numbers() {
    let body = "rust is fast\npython is dynamic\nrust is safe\ngo is concurrent\n";
    let output = read_log(
        "tc-3",
        body,
        ReadMode::Grep { pattern: "rust".to_string(), max_matches: 10 },
    );
    assert!(output.contains("1:rust is fast"));
    assert!(output.contains("3:rust is safe"));
    assert!(!output.contains("python"));
}

#[test]
fn line_range_returns_inclusive_slice() {
    let body = "1\n2\n3\n4\n5\n";
    assert_eq!(read_log("tc-4", body, ReadMode::LineRange { start: 2, end: 4 }), "2\n3\n4");
}

#[test]
fn file_mode_reads_expected_file_with_inner_mode() {
    let step = execute(
        &make_tool(),
        ask(file("research/_report.md", head(2))),
        Some(seed_task("tc-5", &["research/_report.md"])),
    );
    match step {
        ReadStep::File { path, direction, mode } => {
            assert_eq!(path, "/data/workspace/research/_report.md");
            assert_eq!(direction, ReadDirection::FromStart);
            let result =
                finish_read("# Report\nLine A\nLine B\nLine C\n", &mode).unwrap();
            assert_eq!(result.output, "# Report\nLine A");
        }
        other => panic!("no file: {other:?}"),
    }
}

#[test]
fn file_mode_rejects_path_outside_expected_files() {
    assert!(refused(execute(
        &make_tool(),
        ask(file("research/secret.md", head(2))),
        Some(seed_task("tc-6", &["research/_report.md"])),
    )));
}

#[test]
fn unknown_task_handle_fails_cleanly() {
    let input = ReadInput { task_handle: "task_nope".to_string(), mode: ReadMode::default() };
    match execute(&make_tool(), Some(input), None) {
        ReadStep::Answer { result } => {
            assert!(!result.success);
            assert!(result.output.contains("not found"));
        }
        other => panic!("{other:?}"),
    }
}

#[test]
fn input_that_cannot_be_read_is_an_error() {
    match execute(&make_tool(), None, None) {
        ReadStep::Failed { reason } => assert_eq!(reason, "invalid read_task_output input"),
        other => panic!("{other:?}"),
    }
}

#[test]
fn cross_session_handle_is_rejected() {
    let mut task = seed_task("tc-x", &[]);
    task.session_key = Some("session-OTHER".to_string());
    match execute(&make_tool(), ask(ReadMode::default()), Some(task)) {
        ReadStep::Answer { result } => {
            assert!(!result.success);
            assert!(result.output.contains("different session"));
        }
        other => panic!("{other:?}"),
    }
}

#[test]
fn output_is_capped_at_4kb() {
    let huge: String = "x".repeat(MAX_OUTPUT_BYTES * 4);
    let output = read_log("tc-7", &huge, head(1));
    assert!(output.len() <= MAX_OUTPUT_BYTES + 32);
    assert!(output.ends_with("[truncated]"));
}

#[test]
fn the_cap_never_splits_a_character() {
    let text = "é".repeat(MAX_OUTPUT_BYTES);
    let capped = truncate_to_cap(text);
    assert!(capped.starts_with(&"é".repeat(MAX_OUTPUT_BYTES / 2)));
    let odd = format!("x{}", "é".repeat(MAX_OUTPUT_BYTES));
    let capped = truncate_to_cap(odd);
    assert!(capped.starts_with(&format!("x{}", "é".repeat((MAX_OUTPUT_BYTES - 1) / 2))));
    let short = "short".to_string();
    assert_eq!(truncate_to_cap(short), "short");
}

#[test]
fn nested_file_mode_inside_file_mode_rejected() {
    let tool = make_tool();
    let task = seed_task("tc-8", &["x.md"]);
    let res = tool.read_file(&seen("x.md", &task.output_files), &task, "x.md", &file("y.md", head(1)));
    assert!(res.is_err());
}

#[test]
fn file_mode_rejects_when_task_has_no_recorded_outputs() {
    assert!(refused(execute(
        &make_tool(),
        ask(file("secret.md", head(1))),
        Some(seed_task("tc-pre", &[])),
    )));
}

#[test]
fn file_mode_basename_does_not_satisfy_path_whitelist() {
    assert!(refused(execute(
        &make_tool(),
        ask(file("_report.md", head(1))),
        Some(seed_task("tc-prefix", &["research/_report.md"])),
    )));
}

#[test]
fn file_mode_rejects_symlinked_parent_directory() {
    let dirs = ancestors_to_check(ROOT, ROOT, "/data/workspace/out/passwd").unwrap();
    assert_eq!(dirs, vec!["/data/workspace/out".to_string()]);
    let seen = vec![AncestorSeen::Link];
    assert!(reject_symlinked_ancestors("/data/workspace/out/passwd", &dirs, &seen).is_err());
    let seen = vec![AncestorSeen::NoLink];
    assert!(reject_symlinked_ancestors("/data/workspace/out/passwd", &dirs, &seen).is_ok());
}

#[test]
fn every_ancestor_is_looked_at() {
    let path = "/data/workspace/a/b/c/f.txt";
    let dirs = ancestors_to_check(ROOT, ROOT, path).unwrap();
    assert_eq!(dirs.len(), 3);
    assert!(dirs.contains(&"/data/workspace/a".to_string()));
    assert!(dirs.contains(&"/data/workspace/a/b".to_string()));
    assert!(dirs.contains(&"/data/workspace/a/b/c".to_string()));
    for k in 0..3 {
        let seen: Vec<AncestorSeen> = (0..3)
            .map(|i| if i == k { AncestorSeen::Link } else { AncestorSeen::NoLink })
            .collect();
        assert!(reject_symlinked_ancestors(path, &dirs, &seen).is_err());
    }
}

#[test]
fn file_mode_accepts_absolute_path_recorded_in_output_files() {
    let abs = "/data/workspace/research/_report.md";
    match execute(
        &make_tool(),
        ask(file(abs, head(1))),
        Some(seed_task("tc-abs", &[abs])),
    ) {
        ReadStep::File { path, .. } => assert_eq!(path, abs),
        other => panic!("{other:?}"),
    }
}

#[test]
fn file_mode_rejects_absolute_path_outside_workspace() {
    assert!(refused(execute(
        &make_tool(),
        ask(file("/data/escape.md", head(1))),
        Some(seed_task("tc-esc", &["/data/escape.md"])),
    )));
}

#[test]
fn file_mode_tail_reads_from_end_for_large_expected_files() {
    match execute(
        &make_tool(),
        ask(file("research/big_report.md", ReadMode::Tail { lines: 5 })),
        Some(seed_task("tc-big-file", &["research/big_report.md"])),
    ) {
        ReadStep::File { direction, mode, .. } => {
            assert_eq!(direction, ReadDirection::FromEnd);
            let bulk = "filler-line-pad-pad-pad-pad-pad-pad-pad-pad-pad-pad\n";
            let chunk_count = (MAX_READ_BYTES / bulk.len()) + 100;
            let mut body = bulk.repeat(chunk_count);
            body.push_str("UNIQUE_FILE_TAIL_MARKER\n");
            let from = read_offset(direction, body.len() as u64) as usize;
            assert_eq!(body.len() - from, MAX_READ_BYTES);
            let result = finish_read(&body[from..], &mode).unwrap();
            assert!(result.output.contains("UNIQUE_FILE_TAIL_MARKER"));
        }
        other => panic!("{other:?}"),
    }
}

#[test]
fn tail_reads_from_end_for_logs_larger_than_max_read_bytes() {
    assert_eq!(mode_hint(&ReadMode::Tail { lines: 5 }), ReadDirection::FromEnd);
    assert_eq!(mode_hint(&head(5)), ReadDirection::FromStart);
    let len = (MAX_READ_BYTES as u64) + 10;
    assert_eq!(read_offset(ReadDirection::FromEnd, len), 10);
    assert_eq!(read_offset(ReadDirection::FromStart, len), 0);
    assert_eq!(read_offset(ReadDirection::FromEnd, 10), 0);
}

#[test]
fn counts_are_kept_within_bounds() {
    let body: String = (1..=1000).map(|i| format!("{i}\n")).collect();
    let all = apply_mode(&body, &head(100000)).unwrap();
    assert_eq!(all.lines().count(), MAX_LINE_LIMIT);
    let all = apply_mode(&body, &ReadMode::Tail { lines: 100000 }).unwrap();
    assert_eq!(all.lines().next(), Some("501"));
    let found = apply_mode(
        &body,
        &ReadMode::Grep { pattern: "1".to_string(), max_matches: 100000 },
    )
    .unwrap();
    assert!(found.lines().count() <= MAX_GREP_MATCHES + 1);
    match ReadMode::default() {
        ReadMode::Head { lines } => assert_eq!(lines, DEFAULT_LINE_LIMIT),
        other => panic!("{other:?}"),
    }
}

#[test]
fn a_pattern_without_matches_is_shown() {
    let mode = ReadMode::Grep { pattern: "a\"b".to_string(), max_matches: 5 };
    assert_eq!(apply_mode("x\n", &mode).unwrap(), "(no matches for \"a\\\"b\")");
    assert_eq!(no_matches("\"x\""), "(no matches for \"x\")");
    let empty = ReadMode::Grep { pattern: String::new(), max_matches: 5 };
    assert!(apply_mode("x\n", &empty).is_err());
}

#[test]
fn a_range_that_ends_before_it_starts_is_refused() {
    assert!(apply_mode("a\nb\n", &ReadMode::LineRange { start: 3, end: 2 }).is_err());
    assert!(apply_mode("a\nb\n", &ReadMode::LineRange { start: 0, end: 2 }).is_err());
}

#[test]
fn handle_paths_stay_in_the_workspace() {
    let at = |path: &str| resolve_handle_path(&resolve(ROOT, &[], path), path);
    assert_eq!(at("a/b.txt").unwrap(), "/data/workspace/a/b.txt");
    assert_eq!(at("../b.txt").unwrap_err(), "path must stay inside the workspace: ../b.txt");
    assert_eq!(
        at("/tmp/octos-uploads/b.txt").unwrap_err(),
        "path '/tmp/octos-uploads/b.txt' resolved outside the workspace (Upload); only workspace paths are permitted"
    );
    assert_eq!(at("/etc/b").unwrap_err(), "absolute path '/etc/b' is outside the workspace");
    assert_eq!(
        resolve_handle_path(&Err(ToolPathError::DecodeFailed), "pf/!").unwrap_err(),
        "path must stay inside the workspace: pf/!"
    );
}

#[test]
fn uploads_and_profile_files_are_not_read() {
    for (path, scope) in
        [("up/YWJj", ToolPathScope::Upload), ("pf/YWJj", ToolPathScope::Profile)]
    {
        let target = || {
            Ok(ResolvedToolPath { absolute: "/data/workspace/abc".to_string(), scope })
        };
        let paths = SeenPaths { asked: target(), files: vec![target()] };
        let step =
            make_tool().execute(&paths, ask(file(path, head(1))), Some(seed_task("tc", &[path])));
        assert!(refused(step));
    }
}

#[test]
fn file_mode_rejects_symlinked_parent_pointing_inside_workspace() {
    let recorded = "out/report.md";
    match execute(
        &make_tool(),
        ask(file(recorded, head(1))),
        Some(seed_task("tc-parent-sym-inside", &[recorded])),
    ) {
        ReadStep::File { path, .. } => {
            let dirs = ancestors_to_check(ROOT, ROOT, &path).unwrap();
            assert_eq!(dirs, vec!["/data/workspace/out".to_string()]);
            let refusal =
                reject_symlinked_ancestors(&path, &dirs, &[AncestorSeen::Link]).unwrap_err();
            assert!(refusal.contains("refusing to follow"), "{refusal}");
        }
        other => panic!("{other:?}"),
    }
    assert!(ancestors_to_check(ROOT, "/private/data/workspace", "/etc/passwd").is_err());
}
