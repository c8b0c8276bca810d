use octos_agent::access::{Resolution, ResolvedToolPath, ToolPathError, ToolPathScope};
use octos_agent::context::HostHandle;
use octos_agent::json::{get, to_text, Json};
use octos_agent::send_file::{
    is_stale_slides_backup, send_failure, FileFacts, OutboundMessage, SendFileTool, SendInput,
    SendStep,
};
use octos_agent::context::ToolResult;

const UPLOADS: &str = "/tmp/octos-uploads";

fn out_tx() -> HostHandle {
    HostHandle { id: 1 }
}

fn telegram() -> SendFileTool {
    SendFileTool::with_context(out_tx(), "telegram".to_string(), "12345".to_string())
}

fn api() -> SendFileTool {
    SendFileTool::with_context(out_tx(), "api".to_string(), "sess-1".to_string())
}

fn input(path: &str) -> SendInput {
    SendInput {
        file_path: path.to_string(),
        caption: None,
        channel: None,
        chat_id: None,
        tool_call_id: None,
        topic: None,
    }
}

/// A file that is there, at this canonical path.
fn there(canonical: &str, base: &str) -> FileFacts {
    FileFacts {
        canonical: Some(canonical.to_string()),
        base: base.to_string(),
        tmp: "/tmp".to_string(),
        uploads: UPLOADS.to_string(),
        extra: Vec::new(),
        exists: true,
        is_file: true,
    }
}

fn missing(base: &str) -> FileFacts {
    FileFacts { canonical: None, exists: false, is_file: false, ..there("", base) }
}

/// What the resolver gives for a path outside of every directory that it knows.
fn unresolved() -> Resolution {
    Err(ToolPathError::OutsideAllowedRoots)
}

fn resolved(path: &str, scope: ToolPathScope) -> Resolution {
    Ok(ResolvedToolPath { absolute: path.to_string(), scope })
}

fn call(tool: &SendFileTool, input: SendInput, facts: &FileFacts, companion: bool) -> SendStep {
    tool.execute(Some(input), &unresolved(), facts, companion)
}

fn sent(step: SendStep) -> (OutboundMessage, ToolResult) {
    match step {
        SendStep::Send { message, result } => (message, result),
        other => panic!("not sent: {other:?}"),
    }
}

fn answered(step: SendStep) -> ToolResult {
    match step {
        SendStep::Answer { result } => result,
        other => panic!("not answered: {other:?}"),
    }
}

fn metadata<'a>(message: &'a OutboundMessage, key: &str) -> Option<&'a Json> {
    match &message.metadata {
        Json::Object(members) => get(members, key),
        _ => None,
    }
}

#[test]
fn test_send_file() {
    let mut tool = SendFileTool::new(out_tx());
    tool.set_context("telegram", "12345");
    let mut asked = input("/tmp/hello.txt");
    asked.caption = Some("Here is the file".to_string());

    let (msg, result) = sent(call(&tool, asked, &there("/tmp/hello.txt", ""), false));

    assert!(result.success);
    assert!(result.output.contains("sent to telegram:12345"));
    assert_eq!(result.output, "File 'hello.txt' sent to telegram:12345");
    assert_eq!(msg.channel, "telegram");
    assert_eq!(msg.chat_id, "12345");
    assert_eq!(msg.content, "Here is the file");
    assert_eq!(msg.media.len(), 1);
    assert_eq!(msg.media[0], "/tmp/hello.txt");
}

#[test]
fn test_file_not_found() {
    let mut tool = SendFileTool::new(out_tx());
    tool.set_context("telegram", "12345");
    let result = answered(call(&tool, input("/nonexistent/file.txt"), &missing(""), false));
    assert!(!result.success);
    assert!(result.output.contains("not found"));
}

#[test]
fn only_files_are_sent() {
    let mut facts = there("/tmp/dir", "");
    facts.is_file = false;
    let result = answered(call(&telegram(), input("/tmp/dir"), &facts, false));
    assert!(!result.success);
}

#[test]
fn test_with_context_routes_correctly() {
    let tool =
        SendFileTool::with_context(out_tx(), "feishu".to_string(), "ctx-chat".to_string());
    let (msg, result) = sent(call(&tool, input("/tmp/data"), &there("/tmp/data", ""), false));
    assert!(result.success);
    assert_eq!(msg.channel, "feishu");
    assert_eq!(msg.chat_id, "ctx-chat");
}

#[test]
fn the_request_may_name_another_chat() {
    let mut asked = input("/tmp/data");
    asked.channel = Some("feishu".to_string());
    asked.chat_id = Some("other".to_string());
    let (msg, _) = sent(call(&telegram(), asked, &there("/tmp/data", ""), false));
    assert_eq!(msg.channel, "feishu");
    assert_eq!(msg.chat_id, "other");
}

#[test]
fn test_no_target() {
    let tool = SendFileTool::new(out_tx());
    let result = answered(call(&tool, input("/tmp/data"), &there("/tmp/data", ""), false));
    assert!(!result.success);
    assert!(result.output.contains("No target"));
}

#[test]
fn test_base_dir_blocks_outside_path() {
    let tool = telegram().with_base_dir("/tmp/octos-test-send-file/allowed".to_string());
    let path = "/tmp/octos-test-send-file/forbidden/secret.txt";
    let facts = there(path, "/tmp/octos-test-send-file/allowed");
    let (_, result) = sent(call(&tool, input(path), &facts, false));
    assert!(result.success, "file under /tmp/ should be allowed");
    let path = "/var/folders/octos-test-send-file/forbidden/secret.txt";
    let facts = there(path, "/var/folders/octos-test-send-file/allowed");
    let result = answered(call(&tool, input(path), &facts, false));
    assert!(!result.success, "file outside base_dir and /tmp/ should be blocked");
    assert!(result.output.contains("outside the allowed directory"));
}

#[test]
fn test_base_dir_blocks_non_tmp_outside_path() {
    let tool = telegram().with_base_dir("/tmp/base".to_string());
    let path = "/home/user/octos-send-file-outside-1/secret.txt";
    let result = answered(call(&tool, input(path), &there(path, "/tmp/base"), false));
    assert!(!result.success);
    assert!(result.output.contains("outside the allowed directory"), "{}", result.output);
}

#[test]
fn test_base_dir_allows_inside_path() {
    let tool = telegram().with_base_dir("/home/user/base".to_string());
    let path = "/home/user/base/report.pdf";
    let (msg, result) = sent(call(&tool, input(path), &there(path, "/home/user/base"), false));
    assert!(result.success);
    assert_eq!(msg.media.len(), 1);
}

#[test]
fn extra_directories_are_allowed() {
    let tool = telegram()
        .with_base_dir("/home/user/base".to_string())
        .with_extra_allowed_dir("/home/user/extra".to_string());
    let path = "/home/user/extra/report.pdf";
    let mut facts = there(path, "/home/user/base");
    facts.extra = vec!["/home/user/extra".to_string()];
    let (_, result) = sent(call(&tool, input(path), &facts, false));
    assert!(result.success);
}

#[test]
fn test_base_dir_blocks_nonexistent_path() {
    let tool = telegram().with_base_dir("/tmp/base".to_string());
    let result = answered(call(
        &tool,
        input("/tmp/nonexistent-secret-file.txt"),
        &missing("/tmp/base"),
        false,
    ));
    assert!(!result.success);
    assert!(result.output.contains("Cannot resolve file path"));
}

#[test]
fn test_base_dir_resolves_relative_path() {
    let tool = telegram().with_base_dir("/home/user/base".to_string());
    let facts = there("/home/user/base/skill-output/deck.pptx", "/home/user/base");
    assert_eq!(
        tool.path_to_send(&unresolved(), "skill-output/deck.pptx"),
        "/home/user/base/skill-output/deck.pptx"
    );
    let (msg, result) = sent(call(&tool, input("skill-output/deck.pptx"), &facts, false));
    assert!(result.success, "{}", result.output);
    assert_eq!(msg.media.len(), 1);
    assert!(msg.media[0].contains("skill-output/deck.pptx"), "{}", msg.media[0]);
}

#[test]
fn test_base_dir_blocks_traversal() {
    let tool = telegram().with_base_dir("/tmp/base".to_string());
    let traversal = "/tmp/base/../../../etc/hostname";
    let result =
        answered(call(&tool, input(traversal), &there("/etc/hostname", "/tmp/base"), false));
    assert!(!result.success);
}

#[test]
fn should_include_tool_call_id_in_metadata_when_provided() {
    let mut asked = input("/tmp/a.mp3");
    asked.tool_call_id = Some("call_abc123".to_string());
    let (msg, result) = sent(call(&api(), asked, &there("/tmp/a.mp3", ""), false));
    assert!(result.success);
    assert_eq!(to_text(metadata(&msg, "tool_call_id").unwrap()), "\"call_abc123\"");
}

#[test]
fn should_omit_tool_call_id_from_metadata_when_absent() {
    let (msg, result) = sent(call(&api(), input("/tmp/a"), &there("/tmp/a", ""), false));
    assert!(result.success);
    assert!(metadata(&msg, "tool_call_id").is_none());
}

#[test]
fn should_set_spawn_complete_companion_metadata_when_scope_active() {
    let (msg, result) = sent(call(&api(), input("/tmp/a"), &there("/tmp/a", ""), true));
    assert!(result.success);
    assert_eq!(to_text(metadata(&msg, "spawn_complete_companion").unwrap()), "true");
}

#[test]
fn should_omit_spawn_complete_companion_metadata_outside_scope() {
    let (msg, result) = sent(call(&api(), input("/tmp/a"), &there("/tmp/a", ""), false));
    assert!(result.success);
    assert!(metadata(&msg, "spawn_complete_companion").is_none());
}

#[test]
fn should_include_default_topic_in_metadata_when_configured() {
    let tool = api().with_topic(Some("slides demo".to_string()));
    let mut asked = input("/tmp/deck.pptx");
    asked.caption = Some("deck".to_string());
    let (msg, result) = sent(call(&tool, asked, &there("/tmp/deck.pptx", ""), false));
    assert!(result.success);
    assert_eq!(to_text(metadata(&msg, "topic").unwrap()), "\"slides demo\"");
}

#[test]
fn stale_slides_backup_detection_matches_output_old_paths() {
    assert!(is_stale_slides_backup("/tmp/workspace/slides/demo/output_old/deck.pptx"));
    assert!(!is_stale_slides_backup("/tmp/workspace/slides/demo/output/deck.pptx"));
}

#[test]
fn relative_path_prefers_base_dir_over_upload_tmpdir_collision() {
    let tool = telegram().with_base_dir("/home/user/base".to_string());
    let facts = there("/home/user/base/report.pdf", "/home/user/base");
    let upload = resolved("/tmp/octos-uploads/report.pdf", ToolPathScope::Upload);
    assert_eq!(tool.path_to_send(&upload, "report.pdf"), "/home/user/base/report.pdf");
    let (msg, result) =
        sent(tool.execute(Some(input("report.pdf")), &upload, &facts, false));
    assert!(result.success, "{}", result.output);
    assert_eq!(msg.media, vec!["/home/user/base/report.pdf".to_string()]);
}

#[test]
fn handles_and_absolute_paths_are_resolved() {
    let tool = telegram().with_base_dir("/home/user/base".to_string());
    let upload = resolved("/tmp/octos-uploads/abc", ToolPathScope::Upload);
    assert_eq!(tool.path_to_send(&upload, "up/YWJj"), "/tmp/octos-uploads/abc");
    let profile = resolved("/home/user/.octos/abc", ToolPathScope::Profile);
    assert_eq!(tool.path_to_send(&profile, "pf/YWJj"), "/home/user/.octos/abc");
    let inside = resolved("/home/user/base/b", ToolPathScope::Workspace);
    assert_eq!(tool.path_to_send(&inside, "/home/user/base/a/../b"), "/home/user/base/b");
    let unread = Err(ToolPathError::DecodeFailed);
    assert_eq!(tool.path_to_send(&unread, "pf/!"), "pf/!");
    assert_eq!(telegram().path_to_send(&upload, "up/YWJj"), "up/YWJj");
    let facts = there("/tmp/octos-uploads/abc", "/home/user/base");
    let (msg, _) = sent(tool.execute(Some(input("up/YWJj")), &upload, &facts, false));
    assert_eq!(msg.media, vec!["/tmp/octos-uploads/abc".to_string()]);
}

#[test]
fn should_ignore_spawn_complete_companion_field_in_args() {
    // The arguments have no place for the mark: whatever they hold, it comes
    // from the caller alone.
    for topic in [None, Some("spawn_complete_companion"), Some("_spawn_complete_companion")] {
        let mut asked = input("/tmp/a");
        asked.topic = topic.map(|t| t.to_string());
        asked.tool_call_id = topic.map(|t| t.to_string());
        let (msg, result) = sent(call(&api(), asked, &there("/tmp/a", ""), false));
        assert!(result.success);
        assert!(metadata(&msg, "spawn_complete_companion").is_none());
    }
}

#[test]
fn rejects_stale_slides_backup_artifacts() {
    let tool = telegram().with_base_dir("/home/user/base".to_string());
    let facts =
        there("/home/user/base/slides/demo/output_old/deck.pptx", "/home/user/base");
    let result =
        answered(call(&tool, input("slides/demo/output_old/deck.pptx"), &facts, false));
    assert!(!result.success);
    assert!(result.output.contains("stale slides backup artifact"));
}

#[test]
fn a_send_without_readable_input_is_an_error() {
    match telegram().execute(None, &unresolved(), &missing(""), false) {
        SendStep::Failed { reason } => assert_eq!(reason, "invalid send_file tool input"),
        other => panic!("{other:?}"),
    }
    assert!(send_failure("closed").contains("closed"));
}
