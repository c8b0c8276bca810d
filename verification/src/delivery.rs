//! Who is told about a background task, and in which words.
use vstd::prelude::*;

use crate::child_session::{
    action_for, child_session_failure_action, outcome_view, ChildSessionFailureAction,
    ChildSessionLifecycleKind, TaskOutcome,
};
use crate::conclusion::{
    kind_of_workflow, phase_of_workflow, relay_content, relay_text, workflow_of, BackgroundTask,
    Lineage,
};
use crate::json::{members_view, put, str_value, Json, JsonMember, JsonView};
use crate::text::{copy_list, opt_text, texts, Text};

verus! {

// ---------------------------------------------------------------------------
// Hooks

/// What a hook is called for.
#[derive(Debug, Clone, Copy, PartialEq, Eq, Structural)]
pub enum SpawnHookEvent {
    /// The files to deliver are known; a hook may change them.
    BeforeVerify,
    /// The files to deliver are settled.
    Verify,
    Complete,
    Failure,
}

/// What a hook is told about a background task.
#[derive(Debug)]
pub struct SpawnHook {
    pub event: SpawnHookEvent,
    pub task_id: String,
    pub task_label: String,
    pub parent_session_key: String,
    pub child_session_key: String,
    pub workflow_kind: Option<String>,
    pub phase: Option<String>,
    pub text: String,
    pub output_files: Vec<String>,
    pub failure_action: Option<ChildSessionFailureAction>,
}

#[verifier::ext_equal]
pub struct SpawnHookView {
    pub event: SpawnHookEvent,
    pub task_id: Text,
    pub task_label: Text,
    pub parent_session_key: Text,
    pub child_session_key: Text,
    pub workflow_kind: Option<Text>,
    pub phase: Option<Text>,
    pub text: Text,
    pub output_files: Seq<Text>,
    pub failure_action: Option<ChildSessionFailureAction>,
}

impl View for SpawnHook {
    type V = SpawnHookView;

    open spec fn view(&self) -> SpawnHookView {
        SpawnHookView {
            event: self.event,
            task_id: self.task_id@,
            task_label: self.task_label@,
            parent_session_key: self.parent_session_key@,
            child_session_key: self.child_session_key@,
            workflow_kind: opt_text(self.workflow_kind),
            phase: opt_text(self.phase),
            text: self.text@,
            output_files: texts(self.output_files@),
            failure_action: self.failure_action,
        }
    }
}

pub open spec fn workflow_kind_of(task: BackgroundTask) -> Option<Text> {
    match workflow_of(task) {
        Some(w) => Some(w.kind),
        None => None,
    }
}

pub open spec fn workflow_phase_of(task: BackgroundTask) -> Option<Text> {
    match workflow_of(task) {
        Some(w) => Some(w.phase),
        None => None,
    }
}

/// What a hook is told, whatever it is called for.
pub open spec fn hook_for(
    task: BackgroundTask,
    lineage: Lineage,
    event: SpawnHookEvent,
    phase: Option<Text>,
    text: Text,
    files: Seq<Text>,
    action: Option<ChildSessionFailureAction>,
) -> SpawnHookView {
    SpawnHookView {
        event,
        task_id: lineage.task_id@,
        task_label: task.label@,
        parent_session_key: lineage.parent_session_key@,
        child_session_key: lineage.child_session_key@,
        workflow_kind: workflow_kind_of(task),
        phase,
        text,
        output_files: files,
        failure_action: action,
    }
}

fn make_hook(
    task: &BackgroundTask,
    lineage: &Lineage,
    event: SpawnHookEvent,
    phase: Option<String>,
    text: &str,
    files: &[String],
    action: Option<ChildSessionFailureAction>,
) -> (r: SpawnHook)
    ensures
        r@ == hook_for(*task, *lineage, event, opt_text(phase), text@, texts(files@), action),
{
    SpawnHook {
        event,
        task_id: lineage.task_id.clone(),
        task_label: task.label.clone(),
        parent_session_key: lineage.parent_session_key.clone(),
        child_session_key: lineage.child_session_key.clone(),
        workflow_kind: kind_of_workflow(&task.workflow),
        phase,
        text: text.to_owned(),
        output_files: copy_list(files),
        failure_action: action,
    }
}

/// The phase in which results are verified: that of the workflow, if there is
/// one.
pub open spec fn verify_phase(task: BackgroundTask) -> Option<Text> {
    match workflow_phase_of(task) {
        Some(phase) => Some(phase),
        None => Some("verify_outputs"@),
    }
}

fn word_verify_phase(task: &BackgroundTask) -> (r: Option<String>)
    ensures
        opt_text(r) == verify_phase(*task),
{
    match phase_of_workflow(&task.workflow) {
        Some(phase) => Some(phase),
        None => Some("verify_outputs".to_owned()),
    }
}

/// What the hook is told that may change the files to deliver.
pub fn before_verify_hook(task: &BackgroundTask, lineage: &Lineage, files: &[String]) -> (r: SpawnHook)
    ensures
        r@ == hook_for(
            *task,
            *lineage,
            SpawnHookEvent::BeforeVerify,
            verify_phase(*task),
            "candidate terminal outputs resolved"@,
            texts(files@),
            None,
        ),
{
    make_hook(
        task,
        lineage,
        SpawnHookEvent::BeforeVerify,
        word_verify_phase(task),
        "candidate terminal outputs resolved",
        files,
        None,
    )
}

/// What hooks are told when the files to deliver are settled.
pub fn verify_hook(task: &BackgroundTask, lineage: &Lineage, files: &[String]) -> (r: SpawnHook)
    ensures
        r@ == hook_for(
            *task,
            *lineage,
            SpawnHookEvent::Verify,
            verify_phase(*task),
            "terminal outputs resolved"@,
            texts(files@),
            None,
        ),
{
    make_hook(
        task,
        lineage,
        SpawnHookEvent::Verify,
        word_verify_phase(task),
        "terminal outputs resolved",
        files,
        None,
    )
}

/// What hooks are told when a task ends; nothing while it has only started.
pub open spec fn end_hook(
    task: BackgroundTask,
    lineage: Lineage,
    kind: ChildSessionLifecycleKind,
    text: Text,
    files: Seq<Text>,
) -> Option<SpawnHookView> {
    match kind {
        ChildSessionLifecycleKind::Spawned => None,
        ChildSessionLifecycleKind::Completed => Some(
            hook_for(
                task,
                lineage,
                SpawnHookEvent::Complete,
                Some("deliver_result"@),
                text,
                files,
                None,
            ),
        ),
        _ => Some(
            hook_for(
                task,
                lineage,
                SpawnHookEvent::Failure,
                workflow_phase_of(task),
                text,
                files,
                action_for(kind),
            ),
        ),
    }
}

/// What hooks are told when a task ends.
pub fn conclusion_hook(
    task: &BackgroundTask,
    lineage: &Lineage,
    kind: ChildSessionLifecycleKind,
    result_text: &str,
    files: &[String],
) -> (r: Option<SpawnHook>)
    ensures
        match r {
            Some(hook) => end_hook(*task, *lineage, kind, result_text@, texts(files@)) == Some(
                hook@,
            ),
            None => end_hook(*task, *lineage, kind, result_text@, texts(files@)) is None,
        },
{
    match kind {
        ChildSessionLifecycleKind::Spawned => None,
        ChildSessionLifecycleKind::Completed => Some(
            make_hook(
                task,
                lineage,
                SpawnHookEvent::Complete,
                Some("deliver_result".to_owned()),
                result_text,
                files,
                None,
            ),
        ),
        _ => Some(
            make_hook(
                task,
                lineage,
                SpawnHookEvent::Failure,
                phase_of_workflow(&task.workflow),
                result_text,
                files,
                child_session_failure_action(kind),
            ),
        ),
    }
}

/// Hooks hear of every end of a task, and of every failure they hear what is
/// done about it.
pub proof fn every_end_is_told(
    task: BackgroundTask,
    lineage: Lineage,
    kind: ChildSessionLifecycleKind,
    text: Text,
    files: Seq<Text>,
)
    requires
        kind != ChildSessionLifecycleKind::Spawned,
    ensures
        end_hook(task, lineage, kind, text, files) is Some,
        end_hook(task, lineage, kind, text, files)->0.event == SpawnHookEvent::Complete <==> kind
            == ChildSessionLifecycleKind::Completed,
        end_hook(task, lineage, kind, text, files)->0.failure_action is Some <==> kind
            != ChildSessionLifecycleKind::Completed,
{
}

// ---------------------------------------------------------------------------
// The parent session

/// How a child session ended, for the supervisor.
#[derive(Debug, Clone, Copy, PartialEq, Eq, Structural)]
pub enum ChildSessionTerminalState {
    Completed,
    RetryableFailure,
    TerminalFailure,
}

/// Whether the parent session heard of the end of a child session.
#[derive(Debug, Clone, Copy, PartialEq, Eq, Structural)]
pub enum ChildSessionJoinState {
    Joined,
    Orphaned,
}

/// Whether the parent session heard of a child session. `answer` is what its
/// receiver said; there is none without a receiver.
pub fn dispatch_child_session_lifecycle(answer: Option<bool>) -> (r: bool)
    ensures
        r == (answer == Some(true)),
{
    match answer {
        Some(heard) => heard,
        None => false,
    }
}

/// How a message to the parent session is counted.
pub fn lifecycle_outcome_label(joined: bool) -> (r: &'static str)
    ensures
        r@ == if joined {
            "dispatched"@
        } else {
            "not_joined"@
        },
{
    if joined {
        "dispatched"
    } else {
        "not_joined"
    }
}

/// What the supervisor notes about the end of a child session.
pub fn child_session_outcome(kind: ChildSessionLifecycleKind, joined: bool) -> (r: (
    ChildSessionTerminalState,
    ChildSessionJoinState,
))
    requires
        kind != ChildSessionLifecycleKind::Spawned,
    ensures
        r.0 == match kind {
            ChildSessionLifecycleKind::Completed => ChildSessionTerminalState::Completed,
            ChildSessionLifecycleKind::RetryableFailed => {
                ChildSessionTerminalState::RetryableFailure
            },
            _ => ChildSessionTerminalState::TerminalFailure,
        },
        r.1 == if joined {
            ChildSessionJoinState::Joined
        } else {
            ChildSessionJoinState::Orphaned
        },
{
    let state = match kind {
        ChildSessionLifecycleKind::Completed => ChildSessionTerminalState::Completed,
        ChildSessionLifecycleKind::RetryableFailed => ChildSessionTerminalState::RetryableFailure,
        _ => ChildSessionTerminalState::TerminalFailure,
    };
    let join = if joined {
        ChildSessionJoinState::Joined
    } else {
        ChildSessionJoinState::Orphaned
    };
    (state, join)
}

// ---------------------------------------------------------------------------
// The result

/// Whether a result reached its session directly, and how that is counted.
/// `answer` is what the receiver said; there is none without a receiver.
pub fn deliver_background_result(answer: Option<bool>) -> (r: (bool, &'static str))
    ensures
        r.0 == (answer == Some(true)),
        r.1@ == match answer {
            Some(true) => "accepted"@,
            Some(false) => "unavailable"@,
            None => "missing_sender"@,
        },
{
    match answer {
        Some(delivered) => if delivered {
            (true, "accepted")
        } else {
            (false, "unavailable")
        },
        None => (false, "missing_sender"),
    }
}

/// A message that an agent receives.
#[derive(Debug)]
pub struct InboundMessage {
    pub channel: String,
    pub sender_id: String,
    pub chat_id: String,
    pub content: String,
    pub media: Vec<String>,
    pub metadata: Json,
    pub message_id: Option<String>,
}

/// Where a relayed result is to be delivered.
pub open spec fn relay_metadata(channel: Text, chat_id: Text) -> JsonView {
    JsonView::Object(
        seq![
            ("deliver_to_channel"@, JsonView::Str(channel)),
            ("deliver_to_chat_id"@, JsonView::Str(chat_id)),
        ],
    )
}

/// The message that has the agent tell the user about a result. It is sent if
/// the result could not be delivered directly.
pub fn relay_message(
    outcome: &TaskOutcome,
    worker: &str,
    task_desc: &str,
    origin_channel: &str,
    origin_chat_id: &str,
) -> (r: InboundMessage)
    ensures
        r.channel@ == "system"@,
        r.sender_id@ == "subagent"@,
        r.chat_id@ == origin_channel@ + ":"@ + origin_chat_id@,
        r.content@ == relay_text(outcome_view(*outcome), worker@, task_desc@),
        r.media@.len() == 0,
        r.metadata@ == relay_metadata(origin_channel@, origin_chat_id@),
        r.message_id is None,
{
    let mut chat_id = origin_channel.to_owned();
    chat_id.append(":");
    chat_id.append(origin_chat_id);
    let mut m: Vec<JsonMember> = Vec::new();
    put(&mut m, "deliver_to_channel", str_value(origin_channel));
    put(&mut m, "deliver_to_chat_id", str_value(origin_chat_id));
    proof {
        assert(members_view(m@) =~= relay_metadata(
            origin_channel@,
            origin_chat_id@,
        )->Object_0);
    }
    InboundMessage {
        channel: "system".to_owned(),
        sender_id: "subagent".to_owned(),
        chat_id,
        content: relay_content(outcome, worker, task_desc),
        media: Vec::new(),
        metadata: Json::Object(m),
        message_id: None,
    }
}

} // verus!
