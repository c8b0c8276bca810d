//! How a background task is concluded: recovery, hooks, and what is reported.
use vstd::prelude::*;
use vstd::string::*;

use crate::child_session::{
    action_for, child_session_failure_action, classify_child_session_lifecycle_kind, is_success, outcome_text,
    outcome_view, succeeded, terminal_kind, text_of_outcome, BackgroundPayloadView, BackgroundResultKind,
    BackgroundResultPayload, ChildSessionLifecycleKind, ChildSessionLifecyclePayload,
    LifecyclePayloadView, TaskOutcome, TaskResult, TaskResultView,
};
use crate::conclusion_laws::reports_tell_the_status;
use crate::context::ToolResult;
use crate::json::{get, lookup, Json};
use crate::payloads::{phase_detail, phase_text};
use crate::podcast::{extract_inline_podcast_script, inline_script};
use crate::spawn_input::{build_spawn_recovery_prompt, recovery_text};
use crate::terminal::result_texts;
use crate::text::{copy_list, copy_opt, lemma_texts_push, opt_text, texts, trim, trimmed, Text};
use crate::workflow::{
    chain_lists, deliverable, of_kind, required_kind, should_deliver_output_files,
    workflow_artifact_matches_kind, workflow_is_research_podcast, workflow_terminal_artifact_kind,
    workflow_view, WorkflowMetadata, WorkflowView,
};

verus! {

// ---------------------------------------------------------------------------
// One more attempt
// ---------------------------------------------------------------------------

/// Why the first attempt failed, as the worker is told.
pub open spec fn failure_message(outcome: Result<TaskResultView, Text>) -> Text {
    match outcome {
        Err(error) => error,
        Ok(result) => if trimmed(result.output).len() == 0 {
            "task ended unsuccessfully without an explanatory message"@
        } else {
            result.output
        },
    }
}

/// The instruction for a second attempt; none after a success.
pub open spec fn second_attempt(outcome: Result<TaskResultView, Text>, task: Text) -> Option<Text> {
    if succeeded(outcome) {
        None
    } else {
        Some(recovery_text(task, failure_message(outcome)))
    }
}

/// The instruction for the one second attempt that a worker gets after it
/// failed. What the second attempt gives is final.
pub fn run_task_with_m8_9_recovery(initial: &TaskOutcome, task_desc: &str) -> (r: Option<String>)
    ensures
        opt_text(r) == second_attempt(outcome_view(*initial), task_desc@),
{
    match initial {
        Err(error) => Some(build_spawn_recovery_prompt(task_desc, error.as_str())),
        Ok(result) => {
            if result.success {
                return None;
            }
            let said = trim(result.output.as_str());
            if said.as_str().is_empty() {
                Some(
                    build_spawn_recovery_prompt(
                        task_desc,
                        "task ended unsuccessfully without an explanatory message",
                    ),
                )
            } else {
                Some(build_spawn_recovery_prompt(task_desc, result.output.as_str()))
            }
        },
    }
}

// ---------------------------------------------------------------------------
// Audio for a podcast that was only written
// ---------------------------------------------------------------------------

/// A worker named or changed a file of the kind that its workflow must end with.
pub open spec fn has_terminal_candidate(result: TaskResultView, workflow: Option<WorkflowView>) -> bool {
    match required_kind(workflow) {
        None => true,
        Some(kind) => exists|i: int|
            0 <= i < (result.files_to_send + result.files_modified).len() && of_kind(
                #[trigger] (result.files_to_send + result.files_modified)[i],
                kind,
            ),
    }
}

pub fn task_result_has_terminal_artifact_candidate(
    task_result: &TaskResult,
    workflow: Option<&WorkflowMetadata>,
) -> (r: bool)
    ensures
        r == has_terminal_candidate(task_result@, workflow_view(workflow)),
{
    let kind = match workflow_terminal_artifact_kind(workflow) {
        Some(kind) => kind,
        None => {
            return true;
        },
    };
    let files = chain_lists(task_result.files_to_send.as_slice(), task_result.files_modified.as_slice());
    let ghost all = texts(files@);
    let mut i: usize = 0;
    while i < files.len()
        invariant
            i <= files.len(),
            all == texts(files@),
            all == task_result@.files_to_send + task_result@.files_modified,
            required_kind(workflow_view(workflow)) == Some(kind@),
            forall|j: int| 0 <= j < i ==> !of_kind(#[trigger] all[j], kind@),
        decreases files.len() - i,
    {
        if workflow_artifact_matches_kind(files[i].as_str(), kind.as_str()) {
            proof {
                assert(of_kind(
                    (task_result@.files_to_send + task_result@.files_modified)[i as int],
                    kind@,
                ));
            }
            return true;
        }
        i += 1;
    }
    false
}

/// The script to generate audio from: only for a podcast workflow whose
/// worker succeeded without audio, and whose task holds a script.
pub open spec fn podcast_to_generate(
    workflow: Option<WorkflowView>,
    result: TaskResultView,
    task: Text,
) -> Option<Text> {
    if workflow is Some && workflow->0.kind == "research_podcast"@ && result.success
        && !has_terminal_candidate(result, workflow) {
        inline_script(task)
    } else {
        None
    }
}

pub fn inline_podcast_script(
    workflow: Option<&WorkflowMetadata>,
    task_result: &TaskResult,
    task_desc: &str,
) -> (r: Option<String>)
    ensures
        opt_text(r) == podcast_to_generate(workflow_view(workflow), task_result@, task_desc@),
{
    if !workflow_is_research_podcast(workflow) || !task_result.success || task_result_has_terminal_artifact_candidate(
        task_result,
        workflow,
    ) {
        return None;
    }
    extract_inline_podcast_script(task_desc)
}

/// A result with the audio that was generated for it, or failed because none
/// could be generated.
pub open spec fn with_podcast(result: TaskResultView, generated: Result<ToolResult, String>) -> TaskResultView {
    match generated {
        Ok(tool) => if tool.success {
            TaskResultView {
                files_modified: match tool.file_modified {
                    Some(path) => result.files_modified.push(path@),
                    None => result.files_modified,
                },
                files_to_send: result.files_to_send + texts(tool.files_to_send@),
                output: if trimmed(result.output).len() == 0 {
                    tool.output@
                } else {
                    trimmed(result.output) + "\n\n"@ + tool.output@
                },
                ..result
            }
        } else {
            TaskResultView {
                success: false,
                output: "research_podcast completed without audio, and direct podcast_generate failed: "@
                    + tool.output@,
                ..result
            }
        },
        Err(error) => TaskResultView {
            success: false,
            output: "research_podcast completed without audio, and direct podcast_generate errored: "@
                + error@,
            ..result
        },
    }
}

pub fn add_generated_podcast(task_result: &mut TaskResult, generated: &Result<ToolResult, String>)
    ensures
        final(task_result)@ == with_podcast(old(task_result)@, *generated),
{
    match generated {
        Ok(tool) => {
            if tool.success {
                match &tool.file_modified {
                    Some(path) => {
                        proof {
                            lemma_texts_push(task_result.files_modified@, *path);
                        }
                        task_result.files_modified.push(path.clone());
                    },
                    None => {},
                }
                task_result.files_to_send = chain_lists(
                    task_result.files_to_send.as_slice(),
                    tool.files_to_send.as_slice(),
                );
                let existing = trim(task_result.output.as_str());
                if existing.as_str().is_empty() {
                    task_result.output = tool.output.clone();
                } else {
                    let mut text = existing;
                    text.append("\n\n");
                    text.append(tool.output.as_str());
                    task_result.output = text;
                }
            } else {
                task_result.success = false;
                let mut text = "research_podcast completed without audio, and direct podcast_generate failed: ".to_owned();
                text.append(tool.output.as_str());
                task_result.output = text;
            }
        },
        Err(error) => {
            task_result.success = false;
            let mut text = "research_podcast completed without audio, and direct podcast_generate errored: ".to_owned();
            text.append(error.as_str());
            task_result.output = text;
        },
    }
}

// ---------------------------------------------------------------------------
// The hook before verification
// ---------------------------------------------------------------------------

/// What a hook said about the files to deliver.
#[derive(Debug)]
pub enum HookVerdict {
    Allow,
    Modified(Json),
    Deny(String),
    Error(String),
}

pub open spec fn malformed_files_text() -> Text {
    "before_spawn_verify hook must return {\"output_files\": [...]} or a JSON string array"@
}

pub open spec fn nontext_file_text() -> Text {
    "before_spawn_verify output_files entries must be strings"@
}

/// The texts of an array, if it holds nothing else.
pub open spec fn all_strings(items: Seq<Json>) -> bool {
    forall|i: int| 0 <= i < items.len() ==> (#[trigger] items[i]) is Str
}

pub open spec fn string_items(items: Seq<Json>) -> Seq<Text> {
    items.map_values(|j: Json| j->Str_0@)
}

/// The array in which a hook names the files.
pub open spec fn named_files(modified: Json) -> Option<Seq<Json>> {
    match modified {
        Json::Array(items) => Some(items@),
        Json::Object(members) => match lookup(members@, "output_files"@) {
            Some(value) => match value {
                Json::Array(items) => Some(items@),
                _ => None,
            },
            None => None,
        },
        _ => None,
    }
}

/// The files that a hook names, or why its answer cannot be used.
pub open spec fn modified_files(modified: Json) -> Result<Seq<Text>, Text> {
    match named_files(modified) {
        None => Err(malformed_files_text()),
        Some(items) => if all_strings(items) {
            Ok(string_items(items))
        } else {
            Err(nontext_file_text())
        },
    }
}

fn strings_of(items: &[Json]) -> (r: Result<Vec<String>, String>)
    ensures
        result_texts(r) == if all_strings(items@) {
            Ok::<Seq<Text>, Text>(string_items(items@))
        } else {
            Err::<Seq<Text>, Text>(nontext_file_text())
        },
{
    let mut out: Vec<String> = Vec::new();
    let ghost all = string_items(items@);
    let mut i: usize = 0;
    while i < items.len()
        invariant
            i <= items.len(),
            all == string_items(items@),
            texts(out@) == all.take(i as int),
            forall|j: int| 0 <= j < i ==> (#[trigger] items@[j]) is Str,
        decreases items.len() - i,
    {
        match &items[i] {
            Json::Str(path) => {
                proof {
                    lemma_texts_push(out@, *path);
                    assert(all.take(i + 1) =~= all.take(i as int).push(path@));
                }
                out.push(path.clone());
            },
            _ => {
                proof {
                    assert(!(items@[i as int] is Str));
                }
                return Err("before_spawn_verify output_files entries must be strings".to_owned());
            },
        }
        i += 1;
    }
    proof {
        assert(all.take(all.len() as int) =~= all);
    }
    Ok(out)
}

pub fn parse_modified_spawn_verify_output_files(modified: &Json) -> (r: Result<Vec<String>, String>)
    ensures
        result_texts(r) == modified_files(*modified),
{
    match modified {
        Json::Array(items) => strings_of(items.as_slice()),
        Json::Object(members) => {
            match get(members.as_slice(), "output_files") {
                Some(value) => match value {
                    Json::Array(items) => strings_of(items.as_slice()),
                    _ => Err(
                        "before_spawn_verify hook must return {\"output_files\": [...]} or a JSON string array".to_owned(),
                    ),
                },
                None => Err(
                    "before_spawn_verify hook must return {\"output_files\": [...]} or a JSON string array".to_owned(),
                ),
            }
        },
        _ => Err(
            "before_spawn_verify hook must return {\"output_files\": [...]} or a JSON string array".to_owned(),
        ),
    }
}

/// The files after the hook, or the reason why it denied them. A hook that
/// failed changes nothing.
pub open spec fn verified_files(files: Seq<Text>, verdict: HookVerdict) -> Result<Seq<Text>, Text> {
    match verdict {
        HookVerdict::Allow => Ok(files),
        HookVerdict::Modified(modified) => modified_files(modified),
        HookVerdict::Deny(reason) => Err(reason@),
        HookVerdict::Error(_) => Ok(files),
    }
}

pub fn run_before_spawn_verify_hook(files: &[String], verdict: &HookVerdict) -> (r: Result<
    Vec<String>,
    String,
>)
    ensures
        result_texts(r) == verified_files(texts(files@), *verdict),
{
    match verdict {
        HookVerdict::Allow => Ok(copy_list(files)),
        HookVerdict::Modified(modified) => parse_modified_spawn_verify_output_files(modified),
        HookVerdict::Deny(reason) => Err(reason.clone()),
        HookVerdict::Error(_) => Ok(copy_list(files)),
    }
}

/// What a hook's denial means for the task.
pub open spec fn denial_text(reason: Text) -> Text {
    "spawn verify denied by hook: "@ + reason
}

/// What a hook's denial means for the task.
pub fn denied_by_hook(reason: &str) -> (r: String)
    ensures
        r@ == denial_text(reason@),
{
    let mut r = "spawn verify denied by hook: ".to_owned();
    r.append(reason);
    r
}

/// The files that are left once a hook has looked at them, and why the work is
/// rejected, if it is: of rejected work no file is left.
pub fn after_verify_hook(files: &[String], verdict: &HookVerdict) -> (r: (
    Vec<String>,
    Option<String>,
))
    ensures
        match verified_files(texts(files@), *verdict) {
            Ok(kept) => texts(r.0@) == kept && r.1 is None,
            Err(reason) => r.0@.len() == 0 && opt_text(r.1) == Some(denial_text(reason)),
        },
{
    match run_before_spawn_verify_hook(files, verdict) {
        Ok(kept) => (kept, None),
        Err(reason) => (Vec::new(), Some(denied_by_hook(reason.as_str()))),
    }
}

// ---------------------------------------------------------------------------
// The conclusion
// ---------------------------------------------------------------------------

/// Who a tracked task belongs to.
#[derive(Debug)]
pub struct Lineage {
    pub task_id: String,
    pub parent_session_key: String,
    pub child_session_key: String,
}

/// Who a task belongs to: nobody if it is not tracked, or if it or its parent
/// has no session.
pub fn lineage_of(
    task_id: &Option<String>,
    parent_session_key: &Option<String>,
    child_session_key: &Option<String>,
) -> (r: Option<Lineage>)
    ensures
        match r {
            Some(lineage) => {
                &&& opt_text(*task_id) == Some(lineage.task_id@)
                &&& opt_text(*parent_session_key) == Some(lineage.parent_session_key@)
                &&& opt_text(*child_session_key) == Some(lineage.child_session_key@)
            },
            None => task_id is None || parent_session_key is None || child_session_key is None,
        },
{
    match (task_id, parent_session_key, child_session_key) {
        (Some(task_id), Some(parent), Some(child)) => Some(
            Lineage {
                task_id: task_id.clone(),
                parent_session_key: parent.clone(),
                child_session_key: child.clone(),
            },
        ),
        _ => None,
    }
}

/// A background task and where its result goes.
#[derive(Debug)]
pub struct BackgroundTask {
    pub label: String,
    pub task_desc: String,
    pub workflow: Option<WorkflowMetadata>,
    pub task_id: Option<String>,
    pub lineage: Option<Lineage>,
    pub thread_id: Option<String>,
    pub tool_call_id: Option<String>,
}

/// How the supervisor is told that a task ended.
#[derive(Debug)]
pub enum SupervisorMark {
    Completed(Vec<String>),
    Failed(String),
}

/// Why a result is reported the way it is.
#[derive(Debug, Clone, Copy, PartialEq, Eq, Structural)]
pub enum TerminalReason {
    ContractFailure,
    TerminalArtifact,
    ExplicitFiles,
    ReportSummary,
    TaskFailure,
}

/// Everything that is reported about a background task that ended.
#[derive(Debug)]
pub struct BackgroundConclusion {
    pub kind: ChildSessionLifecycleKind,
    pub mark: SupervisorMark,
    pub result_text: String,
    pub lifecycle: Option<ChildSessionLifecyclePayload>,
    pub payload: BackgroundResultPayload,
    pub reason: TerminalReason,
}

/// The work counts: the worker succeeded and nothing rejected its work.
pub open spec fn accepted(outcome: Result<TaskResultView, Text>, failure: Option<Text>) -> bool {
    succeeded(outcome) && failure is None
}

pub open spec fn final_kind(outcome: Result<TaskResultView, Text>, failure: Option<Text>) -> ChildSessionLifecycleKind {
    if failure is Some {
        ChildSessionLifecycleKind::TerminalFailed
    } else {
        terminal_kind(outcome)
    }
}

/// What is said of the task: why its work was rejected, or what the worker said.
pub open spec fn final_text(outcome: Result<TaskResultView, Text>, failure: Option<Text>) -> Text {
    if outcome is Ok && failure is Some {
        failure->0
    } else {
        outcome_text(outcome)
    }
}

pub open spec fn final_content(outcome: Result<TaskResultView, Text>, failure: Option<Text>) -> Text {
    match outcome {
        Err(error) => "Status: FAILED\nError: "@ + error,
        Ok(result) => match failure {
            Some(error) => "Status: FAILED\nError: "@ + error,
            None => "Status: "@ + (if result.success {
                "SUCCESS"@
            } else {
                "FAILED"@
            }) + "\n\n"@ + result.output,
        },
    }
}

pub open spec fn any_deliverable(files: Seq<Text>) -> bool {
    exists|i: int| 0 <= i < files.len() && deliverable(#[trigger] files[i])
}

pub open spec fn final_reason(
    outcome: Result<TaskResultView, Text>,
    failure: Option<Text>,
    files: Seq<Text>,
) -> TerminalReason {
    if outcome is Ok && failure is Some {
        TerminalReason::ContractFailure
    } else if !succeeded(outcome) {
        TerminalReason::TaskFailure
    } else if files.len() > 0 {
        TerminalReason::TerminalArtifact
    } else if any_deliverable(outcome->Ok_0.files_to_send) {
        TerminalReason::ExplicitFiles
    } else {
        TerminalReason::ReportSummary
    }
}

pub open spec fn reported_kind(reason: TerminalReason) -> BackgroundResultKind {
    match reason {
        TerminalReason::TerminalArtifact => BackgroundResultKind::Notification,
        TerminalReason::ExplicitFiles => BackgroundResultKind::Notification,
        _ => BackgroundResultKind::Report,
    }
}

pub open spec fn reported_media(
    reason: TerminalReason,
    outcome: Result<TaskResultView, Text>,
    files: Seq<Text>,
) -> Seq<Text> {
    match reason {
        TerminalReason::TerminalArtifact => files,
        TerminalReason::ExplicitFiles => outcome->Ok_0.files_to_send,
        _ => Seq::empty(),
    }
}

pub open spec fn workflow_of(task: BackgroundTask) -> Option<WorkflowView> {
    match task.workflow {
        Some(w) => Some(w@),
        None => None,
    }
}

/// The phase in which a task ended: delivery, if its worker got that far.
pub open spec fn final_phase(
    task: BackgroundTask,
    outcome: Result<TaskResultView, Text>,
    failure: Option<Text>,
) -> Option<Text> {
    if outcome is Ok && (failure is Some || succeeded(outcome)) {
        Some("deliver_result"@)
    } else {
        match workflow_of(task) {
            Some(w) => Some(w.phase),
            None => None,
        }
    }
}

pub open spec fn final_lifecycle(
    task: BackgroundTask,
    lineage: Lineage,
    outcome: Result<TaskResultView, Text>,
    failure: Option<Text>,
    files: Seq<Text>,
) -> LifecyclePayloadView {
    LifecyclePayloadView {
        kind: final_kind(outcome, failure),
        task_id: lineage.task_id@,
        task_label: task.label@,
        instruction: task.task_desc@,
        parent_session_key: lineage.parent_session_key@,
        child_session_key: lineage.child_session_key@,
        workflow_kind: match workflow_of(task) {
            Some(w) => Some(w.kind),
            None => None,
        },
        current_phase: final_phase(task, outcome, failure),
        output_files: files,
        failure_action: action_for(final_kind(outcome, failure)),
        error: if accepted(outcome, failure) {
            None
        } else {
            Some(final_text(outcome, failure))
        },
    }
}

pub open spec fn final_payload(
    task: BackgroundTask,
    outcome: Result<TaskResultView, Text>,
    failure: Option<Text>,
    files: Seq<Text>,
) -> BackgroundPayloadView {
    let reason = final_reason(outcome, failure, files);
    BackgroundPayloadView {
        task_label: task.label@,
        content: final_content(outcome, failure),
        kind: reported_kind(reason),
        media: reported_media(reason, outcome, files),
        envelope_media: Seq::empty(),
        originating_thread_id: opt_text(task.thread_id),
        task_id: opt_text(task.task_id),
        tool_call_id: opt_text(task.tool_call_id),
        originating_client_message_id: opt_text(task.thread_id),
    }
}

/// The announcement that a task has been started.
pub open spec fn spawned_lifecycle(task: BackgroundTask, lineage: Lineage) -> LifecyclePayloadView {
    LifecyclePayloadView {
        kind: ChildSessionLifecycleKind::Spawned,
        task_id: lineage.task_id@,
        task_label: task.label@,
        instruction: task.task_desc@,
        parent_session_key: lineage.parent_session_key@,
        child_session_key: lineage.child_session_key@,
        workflow_kind: match workflow_of(task) {
            Some(w) => Some(w.kind),
            None => None,
        },
        current_phase: match workflow_of(task) {
            Some(w) => Some(w.phase),
            None => None,
        },
        output_files: Seq::empty(),
        failure_action: None,
        error: None,
    }
}

pub(crate) fn kind_of_workflow(workflow: &Option<WorkflowMetadata>) -> (r: Option<String>)
    ensures
        opt_text(r) == match *workflow {
            Some(w) => Some(w@.kind),
            None => None,
        },
{
    match workflow {
        Some(w) => Some(w.workflow_kind.clone()),
        None => None,
    }
}

pub(crate) fn phase_of_workflow(workflow: &Option<WorkflowMetadata>) -> (r: Option<String>)
    ensures
        opt_text(r) == match *workflow {
            Some(w) => Some(w@.phase),
            None => None,
        },
{
    match workflow {
        Some(w) => Some(w.current_phase.clone()),
        None => None,
    }
}

pub fn announce_spawned(task: &BackgroundTask, lineage: &Lineage) -> (r: ChildSessionLifecyclePayload)
    ensures
        r@ == spawned_lifecycle(*task, *lineage),
{
    let r = ChildSessionLifecyclePayload {
        kind: ChildSessionLifecycleKind::Spawned,
        task_id: lineage.task_id.clone(),
        task_label: task.label.clone(),
        instruction: task.task_desc.clone(),
        parent_session_key: lineage.parent_session_key.clone(),
        child_session_key: lineage.child_session_key.clone(),
        workflow_kind: kind_of_workflow(&task.workflow),
        current_phase: phase_of_workflow(&task.workflow),
        output_files: Vec::new(),
        failure_action: None,
        error: None,
    };
    proof {
        assert(r@ =~= spawned_lifecycle(*task, *lineage));
    }
    r
}

fn word_content(outcome: &TaskOutcome, failure: &Option<String>) -> (r: String)
    ensures
        r@ == final_content(outcome_view(*outcome), opt_text(*failure)),
{
    match outcome {
        Err(error) => {
            let mut r = "Status: FAILED\nError: ".to_owned();
            r.append(error.as_str());
            r
        },
        Ok(result) => match failure {
            Some(error) => {
                let mut r = "Status: FAILED\nError: ".to_owned();
                r.append(error.as_str());
                r
            },
            None => {
                let mut r = "Status: ".to_owned();
                if result.success {
                    r.append("SUCCESS");
                } else {
                    r.append("FAILED");
                }
                r.append("\n\n");
                r.append(result.output.as_str());
                r
            },
        },
    }
}

fn reason_for(outcome: &TaskOutcome, failure: &Option<String>, files: &[String]) -> (r: TerminalReason)
    ensures
        r == final_reason(outcome_view(*outcome), opt_text(*failure), texts(files@)),
{
    match outcome {
        Err(_) => TerminalReason::TaskFailure,
        Ok(result) => {
            if failure.is_some() {
                TerminalReason::ContractFailure
            } else if !result.success {
                TerminalReason::TaskFailure
            } else if files.len() > 0 {
                TerminalReason::TerminalArtifact
            } else if should_deliver_output_files(result.files_to_send.as_slice()) {
                TerminalReason::ExplicitFiles
            } else {
                TerminalReason::ReportSummary
            }
        },
    }
}

fn media_for(reason: TerminalReason, outcome: &TaskOutcome, files: &[String]) -> (r: Vec<String>)
    requires
        reason == TerminalReason::ExplicitFiles ==> outcome is Ok,
    ensures
        texts(r@) == reported_media(reason, outcome_view(*outcome), texts(files@)),
{
    match reason {
        TerminalReason::TerminalArtifact => copy_list(files),
        TerminalReason::ExplicitFiles => match outcome {
            Ok(result) => copy_list(result.files_to_send.as_slice()),
            Err(_) => Vec::new(),
        },
        _ => {
            let r: Vec<String> = Vec::new();
            proof {
                assert(texts(r@) =~= Seq::empty());
            }
            r
        },
    }
}

/// Who hears of a task whose work is verified: accepted work of a task that
/// belongs to somebody.
pub fn verified_for<'a>(
    task: &'a BackgroundTask,
    outcome: &TaskOutcome,
    failure: &Option<String>,
) -> (r: Option<&'a Lineage>)
    ensures
        match r {
            Some(lineage) => accepted(outcome_view(*outcome), opt_text(*failure)) && task.lineage
                == Some(*lineage),
            None => !accepted(outcome_view(*outcome), opt_text(*failure)) || task.lineage is None,
        },
{
    if is_success(outcome) && failure.is_none() {
        task.lineage.as_ref()
    } else {
        None
    }
}

/// What the supervisor is told when a task starts to deliver: something about
/// its workflow if it has one and its worker succeeded.
pub fn delivery_detail(task: &BackgroundTask, outcome: &TaskOutcome) -> (r: Option<String>)
    ensures
        match r {
            Some(detail) => succeeded(outcome_view(*outcome)) && task.workflow is Some && detail@
                == phase_text(task.workflow->0@, "deliver_result"@),
            None => !succeeded(outcome_view(*outcome)) || task.workflow is None,
        },
{
    match &task.workflow {
        Some(workflow) => if is_success(outcome) {
            Some(phase_detail(workflow, "deliver_result"))
        } else {
            None
        },
        None => None,
    }
}

/// Concludes a background task from what came of its worker, why its work
/// was rejected, if it was, and the files to deliver.
pub fn conclude_background(
    task: &BackgroundTask,
    outcome: &TaskOutcome,
    failure: &Option<String>,
    files: &[String],
) -> (r: BackgroundConclusion)
    ensures
        r.kind == final_kind(outcome_view(*outcome), opt_text(*failure)),
        match r.mark {
            SupervisorMark::Completed(done) => accepted(outcome_view(*outcome), opt_text(*failure))
                && texts(done@) == texts(files@),
            SupervisorMark::Failed(error) => !accepted(outcome_view(*outcome), opt_text(*failure))
                && error@ == final_text(outcome_view(*outcome), opt_text(*failure)),
        },
        r.result_text@ == final_text(outcome_view(*outcome), opt_text(*failure)),
        match r.lifecycle {
            Some(payload) => task.lineage is Some && payload@ == final_lifecycle(
                *task,
                task.lineage->0,
                outcome_view(*outcome),
                opt_text(*failure),
                texts(files@),
            ),
            None => task.lineage is None,
        },
        r.payload@ == final_payload(*task, outcome_view(*outcome), opt_text(*failure), texts(files@)),
        r.reason == final_reason(outcome_view(*outcome), opt_text(*failure), texts(files@)),
        // The report begins with the status of the work.
        "Status: SUCCESS"@.is_prefix_of(r.payload.content@) <==> (outcome matches Ok(result)
            && result.success && failure is None),
        "Status: FAILED"@.is_prefix_of(r.payload.content@) <==> !(outcome matches Ok(result)
            && result.success && failure is None),
        // It ends with what the worker said, unless that was rejected.
        outcome matches Ok(result) ==> (failure is None ==> result.output@.is_suffix_of(
            r.payload.content@,
        )),
        r.mark is Completed <==> (outcome matches Ok(result) && result.success && failure is None),
{
    proof {
        reports_tell_the_status(*task, outcome_view(*outcome), opt_text(*failure), texts(files@));
    }
    let kind = if failure.is_some() {
        ChildSessionLifecycleKind::TerminalFailed
    } else {
        classify_child_session_lifecycle_kind(outcome)
    };
    let done: bool = is_success(outcome) && failure.is_none();
    let result_text = match (outcome, failure) {
        (Ok(_), Some(error)) => error.clone(),
        _ => text_of_outcome(outcome),
    };
    let mark = if done {
        SupervisorMark::Completed(copy_list(files))
    } else {
        SupervisorMark::Failed(result_text.clone())
    };
    let lifecycle = match &task.lineage {
        Some(lineage) => {
            let delivered: bool = match outcome {
                Ok(result) => failure.is_some() || result.success,
                Err(_) => false,
            };
            let payload = ChildSessionLifecyclePayload {
                kind,
                task_id: lineage.task_id.clone(),
                task_label: task.label.clone(),
                instruction: task.task_desc.clone(),
                parent_session_key: lineage.parent_session_key.clone(),
                child_session_key: lineage.child_session_key.clone(),
                workflow_kind: kind_of_workflow(&task.workflow),
                current_phase: if delivered {
                    Some("deliver_result".to_owned())
                } else {
                    phase_of_workflow(&task.workflow)
                },
                output_files: copy_list(files),
                failure_action: child_session_failure_action(kind),
                error: if done {
                    None
                } else {
                    Some(result_text.clone())
                },
            };
            Some(payload)
        },
        None => None,
    };
    let reason = reason_for(outcome, failure, files);
    let media = media_for(reason, outcome, files);
    let payload = BackgroundResultPayload {
        task_label: task.label.clone(),
        content: word_content(outcome, failure),
        kind: match reason {
            TerminalReason::TerminalArtifact => BackgroundResultKind::Notification,
            TerminalReason::ExplicitFiles => BackgroundResultKind::Notification,
            _ => BackgroundResultKind::Report,
        },
        media,
        envelope_media: Vec::new(),
        originating_thread_id: copy_opt(&task.thread_id),
        task_id: copy_opt(&task.task_id),
        tool_call_id: copy_opt(&task.tool_call_id),
        originating_client_message_id: copy_opt(&task.thread_id),
    };
    proof {
        assert(payload@ =~= final_payload(
            *task,
            outcome_view(*outcome),
            opt_text(*failure),
            texts(files@),
        ));
    }
    BackgroundConclusion { kind, mark, result_text, lifecycle, payload, reason }
}

pub open spec fn reason_text(reason: TerminalReason) -> Text {
    match reason {
        TerminalReason::ContractFailure => "workspace_contract_failure"@,
        TerminalReason::TerminalArtifact => "workflow_terminal_artifact"@,
        TerminalReason::ExplicitFiles => "explicit_output_files"@,
        TerminalReason::ReportSummary => "report_summary"@,
        TerminalReason::TaskFailure => "task_failure_report"@,
    }
}

pub fn terminal_reason_label(reason: TerminalReason) -> (r: &'static str)
    ensures
        r@ == reason_text(reason),
{
    match reason {
        TerminalReason::ContractFailure => "workspace_contract_failure",
        TerminalReason::TerminalArtifact => "workflow_terminal_artifact",
        TerminalReason::ExplicitFiles => "explicit_output_files",
        TerminalReason::ReportSummary => "report_summary",
        TerminalReason::TaskFailure => "task_failure_report",
    }
}

/// The message that asks the agent to pass a result on, where it cannot be
/// delivered directly.
pub open spec fn relay_text(outcome: Result<TaskResultView, Text>, worker: Text, task: Text) -> Text {
    match outcome {
        Ok(result) => "[Subagent "@ + worker + " completed]\nTask: "@ + task + "\nStatus: "@ + (if result.success {
            "SUCCESS"@
        } else {
            "FAILED"@
        }) + "\n\nResult:\n"@ + result.output
            + "\n\nPlease summarize this result naturally for the user."@,
        Err(error) => "[Subagent "@ + worker + " failed]\nTask: "@ + task + "\nError: "@ + error
            + "\n\nPlease inform the user about this failure."@,
    }
}

pub fn relay_content(outcome: &TaskOutcome, worker: &str, task_desc: &str) -> (r: String)
    ensures
        r@ == relay_text(outcome_view(*outcome), worker@, task_desc@),
{
    let mut r = "[Subagent ".to_owned();
    r.append(worker);
    match outcome {
        Ok(result) => {
            r.append(" completed]\nTask: ");
            r.append(task_desc);
            r.append("\nStatus: ");
            if result.success {
                r.append("SUCCESS");
            } else {
                r.append("FAILED");
            }
            r.append("\n\nResult:\n");
            r.append(result.output.as_str());
            r.append("\n\nPlease summarize this result naturally for the user.");
        },
        Err(error) => {
            r.append(" failed]\nTask: ");
            r.append(task_desc);
            r.append("\nError: ");
            r.append(error.as_str());
            r.append("\n\nPlease inform the user about this failure.");
        },
    }
    r
}

/// The answer to the caller of a background request.
pub fn spawned_result(label: &str) -> (r: ToolResult)
    ensures
        r@ == crate::context::plain_result(true, "Spawned background task: "@ + label@),
{
    let mut text = "Spawned background task: ".to_owned();
    text.append(label);
    ToolResult::plain(true, text)
}

/// A task is marked completed exactly if its session completed, and asks for
/// an action exactly otherwise.
pub proof fn conclusion_is_consistent(outcome: Result<TaskResultView, Text>, failure: Option<Text>)
    ensures
        final_kind(outcome, failure) == ChildSessionLifecycleKind::Completed <==> accepted(outcome, failure),
        action_for(final_kind(outcome, failure)) is Some <==> !accepted(outcome, failure),
{
}

/// Files are attached only to work that was accepted.
pub proof fn rejected_work_attaches_nothing(
    outcome: Result<TaskResultView, Text>,
    failure: Option<Text>,
    files: Seq<Text>,
)
    requires
        !accepted(outcome, failure),
    ensures
        reported_media(final_reason(outcome, failure, files), outcome, files).len() == 0,
        reported_kind(final_reason(outcome, failure, files)) == BackgroundResultKind::Report,
{
}

} // verus!
