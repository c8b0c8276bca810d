//! How a child session ended, and what is reported about it.
use vstd::prelude::*;
use vstd::string::*;

use crate::context::TokenUsage;
use crate::text::{ascii_lower, contains, contains_text, opt_text, texts, to_ascii_lower, Text};

verus! {

/// How the result of a background task reaches the user.
#[derive(Debug, Clone, Copy, PartialEq, Eq, Structural)]
pub enum BackgroundResultKind {
    Notification,
    Report,
}

/// The result of a background task on its way to the session.
#[derive(Debug)]
pub struct BackgroundResultPayload {
    pub task_label: String,
    pub content: String,
    pub kind: BackgroundResultKind,
    /// Files attached to the persisted message.
    pub media: Vec<String>,
    /// Files shown on the completion event only.
    pub envelope_media: Vec<String>,
    pub originating_thread_id: Option<String>,
    pub task_id: Option<String>,
    pub tool_call_id: Option<String>,
    pub originating_client_message_id: Option<String>,
}

/// The stations of a child session.
#[derive(Debug, Clone, Copy, PartialEq, Eq, Structural)]
pub enum ChildSessionLifecycleKind {
    Spawned,
    Completed,
    RetryableFailed,
    TerminalFailed,
}

/// What to do about a failed child session.
#[derive(Debug, Clone, Copy, PartialEq, Eq, Structural)]
pub enum ChildSessionFailureAction {
    Retry,
    Escalate,
}

/// A station of a child session on its way to the parent.
#[derive(Debug)]
pub struct ChildSessionLifecyclePayload {
    pub kind: ChildSessionLifecycleKind,
    pub task_id: String,
    pub task_label: String,
    pub instruction: String,
    pub parent_session_key: String,
    pub child_session_key: String,
    pub workflow_kind: Option<String>,
    pub current_phase: Option<String>,
    pub output_files: Vec<String>,
    pub failure_action: Option<ChildSessionFailureAction>,
    pub error: Option<String>,
}

#[verifier::ext_equal]
pub struct LifecyclePayloadView {
    pub kind: ChildSessionLifecycleKind,
    pub task_id: Text,
    pub task_label: Text,
    pub instruction: Text,
    pub parent_session_key: Text,
    pub child_session_key: Text,
    pub workflow_kind: Option<Text>,
    pub current_phase: Option<Text>,
    pub output_files: Seq<Text>,
    pub failure_action: Option<ChildSessionFailureAction>,
    pub error: Option<Text>,
}

impl View for ChildSessionLifecyclePayload {
    type V = LifecyclePayloadView;

    open spec fn view(&self) -> LifecyclePayloadView {
        LifecyclePayloadView {
            kind: self.kind,
            task_id: self.task_id@,
            task_label: self.task_label@,
            instruction: self.instruction@,
            parent_session_key: self.parent_session_key@,
            child_session_key: self.child_session_key@,
            workflow_kind: opt_text(self.workflow_kind),
            current_phase: opt_text(self.current_phase),
            output_files: texts(self.output_files@),
            failure_action: self.failure_action,
            error: opt_text(self.error),
        }
    }
}

#[verifier::ext_equal]
pub struct BackgroundPayloadView {
    pub task_label: Text,
    pub content: Text,
    pub kind: BackgroundResultKind,
    pub media: Seq<Text>,
    pub envelope_media: Seq<Text>,
    pub originating_thread_id: Option<Text>,
    pub task_id: Option<Text>,
    pub tool_call_id: Option<Text>,
    pub originating_client_message_id: Option<Text>,
}

impl View for BackgroundResultPayload {
    type V = BackgroundPayloadView;

    open spec fn view(&self) -> BackgroundPayloadView {
        BackgroundPayloadView {
            task_label: self.task_label@,
            content: self.content@,
            kind: self.kind,
            media: texts(self.media@),
            envelope_media: texts(self.envelope_media@),
            originating_thread_id: opt_text(self.originating_thread_id),
            task_id: opt_text(self.task_id),
            tool_call_id: opt_text(self.tool_call_id),
            originating_client_message_id: opt_text(self.originating_client_message_id),
        }
    }
}

/// What a worker hands back.
#[derive(Debug)]
pub struct TaskResult {
    pub success: bool,
    pub output: String,
    pub files_modified: Vec<String>,
    pub files_to_send: Vec<String>,
    pub token_usage: TokenUsage,
}

#[verifier::ext_equal]
pub struct TaskResultView {
    pub success: bool,
    pub output: Text,
    pub files_modified: Seq<Text>,
    pub files_to_send: Seq<Text>,
    pub token_usage: TokenUsage,
}

impl View for TaskResult {
    type V = TaskResultView;

    open spec fn view(&self) -> TaskResultView {
        TaskResultView {
            success: self.success,
            output: self.output@,
            files_modified: texts(self.files_modified@),
            files_to_send: texts(self.files_to_send@),
            token_usage: self.token_usage,
        }
    }
}

/// What came of a worker: its result, or the error that stopped it.
pub type TaskOutcome = Result<TaskResult, String>;

pub open spec fn outcome_view(outcome: TaskOutcome) -> Result<TaskResultView, Text> {
    match outcome {
        Ok(result) => Ok(result@),
        Err(error) => Err(error@),
    }
}

/// The worker finished and said that it succeeded.
pub open spec fn succeeded(outcome: Result<TaskResultView, Text>) -> bool {
    outcome is Ok && outcome->Ok_0.success
}

pub fn is_success(outcome: &TaskOutcome) -> (r: bool)
    ensures
        r == succeeded(outcome_view(*outcome)),
{
    match outcome {
        Ok(result) => result.success,
        Err(_) => false,
    }
}

/// The text that says what came of a worker.
pub open spec fn outcome_text(outcome: Result<TaskResultView, Text>) -> Text {
    match outcome {
        Ok(result) => result.output,
        Err(error) => error,
    }
}

pub fn text_of_outcome(outcome: &TaskOutcome) -> (r: String)
    ensures
        r@ == outcome_text(outcome_view(*outcome)),
{
    match outcome {
        Ok(result) => result.output.clone(),
        Err(error) => error.clone(),
    }
}

// ---------------------------------------------------------------------------
// Classification
// ---------------------------------------------------------------------------

/// A failure text that speaks of something passing: case does not matter.
pub open spec fn retryable_text(text: Text) -> bool {
    let t = ascii_lower(text);
    ||| contains_text(t, "token budget exceeded"@)
    ||| contains_text(t, "timed out"@)
    ||| contains_text(t, "timeout"@)
    ||| contains_text(t, "temporarily"@)
    ||| contains_text(t, "retry"@)
    ||| contains_text(t, "rate limit"@)
    ||| contains_text(t, "connection reset"@)
    ||| contains_text(t, "overloaded"@)
    ||| contains_text(t, "unavailable"@)
}

pub fn is_retryable_child_failure(text: &str) -> (r: bool)
    ensures
        r == retryable_text(text@),
{
    let low = to_ascii_lower(text);
    let t = low.as_str();
    contains(t, "token budget exceeded") || contains(t, "timed out") || contains(t, "timeout") || contains(
        t,
        "temporarily",
    ) || contains(t, "retry") || contains(t, "rate limit") || contains(t, "connection reset") || contains(
        t,
        "overloaded",
    ) || contains(t, "unavailable")
}

/// The station at which a worker's session ends.
pub open spec fn terminal_kind(outcome: Result<TaskResultView, Text>) -> ChildSessionLifecycleKind {
    if succeeded(outcome) {
        ChildSessionLifecycleKind::Completed
    } else if retryable_text(outcome_text(outcome)) {
        ChildSessionLifecycleKind::RetryableFailed
    } else {
        ChildSessionLifecycleKind::TerminalFailed
    }
}

pub fn classify_child_session_lifecycle_kind(outcome: &TaskOutcome) -> (r: ChildSessionLifecycleKind)
    ensures
        r == terminal_kind(outcome_view(*outcome)),
{
    match outcome {
        Ok(result) => if result.success {
            ChildSessionLifecycleKind::Completed
        } else if is_retryable_child_failure(result.output.as_str()) {
            ChildSessionLifecycleKind::RetryableFailed
        } else {
            ChildSessionLifecycleKind::TerminalFailed
        },
        Err(error) => if is_retryable_child_failure(error.as_str()) {
            ChildSessionLifecycleKind::RetryableFailed
        } else {
            ChildSessionLifecycleKind::TerminalFailed
        },
    }
}

pub open spec fn kind_text(kind: ChildSessionLifecycleKind) -> Text {
    match kind {
        ChildSessionLifecycleKind::Spawned => "spawned"@,
        ChildSessionLifecycleKind::Completed => "completed"@,
        ChildSessionLifecycleKind::RetryableFailed => "retryable_failed"@,
        ChildSessionLifecycleKind::TerminalFailed => "terminal_failed"@,
    }
}

pub fn child_session_lifecycle_kind_label(kind: ChildSessionLifecycleKind) -> (r: &'static str)
    ensures
        r@ == kind_text(kind),
{
    match kind {
        ChildSessionLifecycleKind::Spawned => "spawned",
        ChildSessionLifecycleKind::Completed => "completed",
        ChildSessionLifecycleKind::RetryableFailed => "retryable_failed",
        ChildSessionLifecycleKind::TerminalFailed => "terminal_failed",
    }
}

/// What to do at a station: retry what may pass, escalate the rest.
pub open spec fn action_for(kind: ChildSessionLifecycleKind) -> Option<ChildSessionFailureAction> {
    match kind {
        ChildSessionLifecycleKind::Spawned => None,
        ChildSessionLifecycleKind::Completed => None,
        ChildSessionLifecycleKind::RetryableFailed => Some(ChildSessionFailureAction::Retry),
        ChildSessionLifecycleKind::TerminalFailed => Some(ChildSessionFailureAction::Escalate),
    }
}

pub fn child_session_failure_action(kind: ChildSessionLifecycleKind) -> (r: Option<
    ChildSessionFailureAction,
>)
    ensures
        r == action_for(kind),
{
    match kind {
        ChildSessionLifecycleKind::Spawned => None,
        ChildSessionLifecycleKind::Completed => None,
        ChildSessionLifecycleKind::RetryableFailed => Some(ChildSessionFailureAction::Retry),
        ChildSessionLifecycleKind::TerminalFailed => Some(ChildSessionFailureAction::Escalate),
    }
}

pub open spec fn action_text(action: ChildSessionFailureAction) -> Text {
    match action {
        ChildSessionFailureAction::Retry => "retry"@,
        ChildSessionFailureAction::Escalate => "escalate"@,
    }
}

pub fn child_session_failure_action_label(action: ChildSessionFailureAction) -> (r: &'static str)
    ensures
        r@ == action_text(action),
{
    match action {
        ChildSessionFailureAction::Retry => "retry",
        ChildSessionFailureAction::Escalate => "escalate",
    }
}

pub open spec fn result_kind_text(kind: BackgroundResultKind) -> Text {
    match kind {
        BackgroundResultKind::Notification => "notification"@,
        BackgroundResultKind::Report => "report"@,
    }
}

pub fn background_result_kind_label(kind: BackgroundResultKind) -> (r: &'static str)
    ensures
        r@ == result_kind_text(kind),
{
    match kind {
        BackgroundResultKind::Notification => "notification",
        BackgroundResultKind::Report => "report",
    }
}

/// A worker's session never ends at the station where it began, and asks for
/// an action exactly if the worker did not succeed.
pub proof fn failed_sessions_ask_for_an_action(outcome: Result<TaskResultView, Text>)
    ensures
        terminal_kind(outcome) != ChildSessionLifecycleKind::Spawned,
        action_for(terminal_kind(outcome)) is Some <==> !succeeded(outcome),
{
}

} // verus!
