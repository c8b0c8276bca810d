//! The context that tools run in, and what they hand back.
use vstd::prelude::*;

use crate::agents::AgentDefinitions;
use crate::json::{opt_json, Json, JsonView};
use crate::permissions::{ToolPermissions, ToolPermissionsView};
use crate::text::{texts, Text};

verus! {

/// Inbox of notifications for tools and the agent loop. It is always empty.
#[derive(Clone, Copy, Debug)]
pub struct Notifications {}

impl Notifications {
    pub fn new() -> (r: Notifications)
        ensures
            r.pending() == 0,
    {
        Notifications {  }
    }

    /// How many notifications wait.
    pub open spec fn pending(self) -> nat {
        0
    }

    pub fn is_empty(&self) -> (r: bool)
        ensures
            r == (self.pending() == 0),
    {
        true
    }
}

/// Handle to the application state shared across tools. It holds nothing.
#[derive(Clone, Copy, Debug, PartialEq, Eq, Structural)]
pub struct AppStateHandle {}

impl AppStateHandle {
    pub fn new() -> (r: AppStateHandle)
        ensures
            r == (AppStateHandle {  }),
    {
        AppStateHandle {  }
    }
}

/// Names a service of the host (a cache, a supervisor, a router) that the
/// library carries but never looks into.
#[derive(Clone, Copy, Debug, PartialEq, Eq, Structural)]
pub struct HostHandle {
    pub id: u64,
}

/// What a tool knows about the call it is executed for.
#[derive(Debug)]
pub struct ToolContext {
    pub tool_id: String,
    pub harness_event_sink: Option<String>,
    pub attachment_paths: Vec<String>,
    pub audio_attachment_paths: Vec<String>,
    pub file_attachment_paths: Vec<String>,
    pub agent_definitions: AgentDefinitions,
    pub permissions: ToolPermissions,
    pub file_state_cache: Option<HostHandle>,
    pub notifications: Notifications,
    pub app_state: AppStateHandle,
    pub subagent_output_router: Option<HostHandle>,
    pub subagent_summary_generator: Option<HostHandle>,
    pub task_supervisor: Option<HostHandle>,
    pub cost_accountant: Option<HostHandle>,
    pub parent_session_key: Option<String>,
    /// How many spawns this call is nested in.
    pub spawn_depth: u8,
}

impl ToolContext {
    /// A context with nothing in it that permits everything.
    pub fn zero() -> (r: ToolContext)
        ensures
            r.tool_id@ == Seq::<char>::empty(),
            r.harness_event_sink is None,
            r.attachment_paths@.len() == 0,
            r.audio_attachment_paths@.len() == 0,
            r.file_attachment_paths@.len() == 0,
            r.agent_definitions.order().len() == 0,
            forall|id: Text| r.agent_definitions.find(id) is None,
            r.permissions@ == ToolPermissionsView::allow_all(),
            r.file_state_cache is None,
            r.notifications.pending() == 0,
            r.app_state == (AppStateHandle {  }),
            r.subagent_output_router is None,
            r.subagent_summary_generator is None,
            r.task_supervisor is None,
            r.cost_accountant is None,
            r.parent_session_key is None,
            r.spawn_depth == 0,
    {
        ToolContext {
            tool_id: String::new(),
            harness_event_sink: None,
            attachment_paths: Vec::new(),
            audio_attachment_paths: Vec::new(),
            file_attachment_paths: Vec::new(),
            agent_definitions: AgentDefinitions::new(),
            permissions: ToolPermissions::default(),
            file_state_cache: None,
            notifications: Notifications::new(),
            app_state: AppStateHandle::new(),
            subagent_output_router: None,
            subagent_summary_generator: None,
            task_supervisor: None,
            cost_accountant: None,
            parent_session_key: None,
            spawn_depth: 0,
        }
    }
}

/// What a tool asks the user to approve.
#[derive(Debug, Clone, PartialEq, Eq)]
pub struct ToolApprovalRequest {
    pub tool_id: String,
    pub tool_name: String,
    pub title: String,
    pub body: String,
    pub command: Option<String>,
    pub cwd: Option<String>,
}

/// What the user answered.
#[derive(Debug, Clone, Copy, PartialEq, Eq, Structural)]
pub enum ToolApprovalDecision {
    Approve,
    Deny,
}

/// Something that can put a request to the user. Nothing is promised of the answer.
pub trait ToolApprovalRequester {
    fn request_approval(&self, request: ToolApprovalRequest) -> (decision: ToolApprovalDecision);
}

/// The attachments of the current turn.
#[derive(Clone, Debug)]
pub struct TurnAttachmentContext {
    pub attachment_paths: Vec<String>,
    pub audio_attachment_paths: Vec<String>,
    pub file_attachment_paths: Vec<String>,
    pub prompt_summary: Option<String>,
}

impl Default for TurnAttachmentContext {
    fn default() -> (r: TurnAttachmentContext)
        ensures
            r.attachment_paths@.len() == 0,
            r.audio_attachment_paths@.len() == 0,
            r.file_attachment_paths@.len() == 0,
            r.prompt_summary is None,
    {
        TurnAttachmentContext {
            attachment_paths: Vec::new(),
            audio_attachment_paths: Vec::new(),
            file_attachment_paths: Vec::new(),
            prompt_summary: None,
        }
    }
}

/// Progress of a long-running tool.
#[derive(Debug, Clone)]
pub enum ToolProgress {
    /// A line of status text.
    Status(String),
    /// Percentage of completion.
    Percent(u8),
    /// A partial result.
    Intermediate { summary: String },
}

/// How a tool may run beside others.
#[derive(Debug, Clone, Copy, PartialEq, Eq, Structural)]
pub enum ConcurrencyClass {
    /// Without side effects: may run beside other safe calls.
    Safe,
    /// Changes state: no other call may run at the same time.
    Exclusive,
}

impl Default for ConcurrencyClass {
    fn default() -> (r: ConcurrencyClass)
        ensures
            r == ConcurrencyClass::Safe,
    {
        ConcurrencyClass::Safe
    }
}

/// Tokens spent on behalf of a tool.
#[derive(Debug, Clone, Copy, PartialEq, Eq, Structural)]
pub struct TokenUsage {
    pub input_tokens: u32,
    pub output_tokens: u32,
}

/// What a tool hands back.
#[derive(Debug)]
pub struct ToolResult {
    /// Text for the model.
    pub output: String,
    pub success: bool,
    /// The file that the tool changed.
    pub file_modified: Option<String>,
    /// Files to send to the user.
    pub files_to_send: Vec<String>,
    pub tokens_used: Option<TokenUsage>,
    /// What the tool tells the host beside its text.
    pub structured_metadata: Option<Json>,
}

#[verifier::ext_equal]
pub struct ToolResultView {
    pub output: Text,
    pub success: bool,
    pub file_modified: Option<Text>,
    pub files_to_send: Seq<Text>,
    pub tokens_used: Option<TokenUsage>,
    pub structured_metadata: Option<JsonView>,
}

impl View for ToolResult {
    type V = ToolResultView;

    open spec fn view(&self) -> ToolResultView {
        ToolResultView {
            output: self.output@,
            success: self.success,
            file_modified: crate::text::opt_text(self.file_modified),
            files_to_send: texts(self.files_to_send@),
            tokens_used: self.tokens_used,
            structured_metadata: opt_json(self.structured_metadata),
        }
    }
}

/// A result that is nothing but a text.
pub open spec fn plain_result(success: bool, output: Text) -> ToolResultView {
    ToolResultView {
        output,
        success,
        file_modified: None,
        files_to_send: Seq::empty(),
        tokens_used: None,
        structured_metadata: None,
    }
}

impl ToolResult {
    /// A result that is nothing but a text.
    pub fn plain(success: bool, output: String) -> (r: ToolResult)
        ensures
            r@ == plain_result(success, output@),
    {
        let r = ToolResult {
            output,
            success,
            file_modified: None,
            files_to_send: Vec::new(),
            tokens_used: None,
            structured_metadata: None,
        };
        proof {
            assert(r@ =~= plain_result(success, output@));
        }
        r
    }
}

impl Default for ToolResult {
    fn default() -> (r: ToolResult)
        ensures
            r@ == plain_result(false, Seq::empty()),
    {
        ToolResult::plain(false, String::new())
    }
}

} // verus!
