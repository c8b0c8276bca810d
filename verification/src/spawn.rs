//! The `spawn` tool: what it is configured with, and how a request starts.
use vstd::prelude::*;
use vstd::string::*;

use crate::agents::AgentDefinitions;
use crate::context::{plain_result, HostHandle, ToolContext, ToolResult, ToolResultView};
use crate::json::Json;
use crate::policy::{ToolPolicy, ToolPolicyView};
use crate::spawn_input::{
    apply_agent_definition, build_subagent_tool_policy, child_policy, description_of, filled_in,
    label_of, task_description, task_label, unenforced_text, unknown_definition_text, SpawnInput,
    SpawnInputView,
};
use crate::spawn_laws::children_are_told_their_task;
use crate::text::{
    copy_list, decimal, lemma_split_pieces, opt_text, or_text, render, same, split, split_text, texts,
    Text,
};
use crate::tool_entry::ToolEntry;
use crate::widths::byte_len;
use crate::workflow::{WorkflowMetadata, WorkflowView};

verus! {

/// How deep spawns may nest: a call nested this deep is refused.
pub const MAX_SPAWN_DEPTH: u8 = 4;

/// The tool called on a remote agent when none is named.
pub const DEFAULT_MCP_AGENT_TOOL_NAME: &'static str = "run_task";

/// A model that child agents can run on.
#[derive(Debug)]
pub struct ModelInfo {
    pub key: String,
    pub model_id: String,
    pub provider_name: String,
    pub cost_info: Option<String>,
    pub context_window: u32,
    pub max_output_tokens: u32,
    pub default_context_window: Option<u32>,
    pub description: Option<String>,
}

/// Whom lifecycle hooks are told about.
#[derive(Debug)]
pub struct HookContext {
    pub session_id: Option<String>,
    pub profile_id: Option<String>,
}

/// The `spawn` tool.
#[derive(Debug)]
pub struct SpawnTool {
    pub working_dir: String,
    pub origin_channel: String,
    pub origin_chat_id: String,
    /// How many workers were started.
    pub worker_count: u32,
    /// Applied to the tools of every child.
    pub provider_policy: Option<ToolPolicy>,
    /// The models to choose from, if there is a provider router.
    pub models: Option<Vec<ModelInfo>>,
    pub worker_prompt: Option<String>,
    pub session_key: Option<String>,
    pub task_ledger_path: Option<String>,
    pub plugin_dirs: Vec<String>,
    pub plugin_extra_env: Vec<(String, String)>,
    /// Tools that every worker gets anew.
    pub child_tool_factories: Vec<ToolEntry>,
    pub hook_context: Option<HookContext>,
    pub mcp_agent_tool_name: Option<String>,
    pub mcp_agent_backend: Option<HostHandle>,
    pub background_result_sender: Option<HostHandle>,
    pub child_session_sender: Option<HostHandle>,
    pub hooks: Option<HostHandle>,
    pub task_supervisor: Option<HostHandle>,
    pub agent_config: Option<HostHandle>,
    pub cost_accountant: Option<HostHandle>,
    pub parent_file_state_cache: Option<HostHandle>,
    pub parent_subagent_output_router: Option<HostHandle>,
    pub parent_subagent_summary_generator: Option<HostHandle>,
}

// ---------------------------------------------------------------------------
// Which model a child runs on
// ---------------------------------------------------------------------------

/// Which provider a child runs on: the model to ask the router for (the
/// parent's provider without one), and an override of its context window.
#[derive(Debug)]
pub struct ProviderPlan {
    pub model: Option<String>,
    pub window: Option<u32>,
}

#[verifier::ext_equal]
pub struct ProviderPlanView {
    pub model: Option<Text>,
    pub window: Option<u32>,
}

impl View for ProviderPlan {
    type V = ProviderPlanView;

    open spec fn view(&self) -> ProviderPlanView {
        ProviderPlanView { model: opt_text(self.model), window: self.window }
    }
}

/// What stands before the first slash of a model name.
pub open spec fn model_key(model: Text) -> Text {
    split_text(model, '/')[0]
}

/// The default window of the first model with a key.
pub open spec fn default_window(models: Seq<ModelInfo>, key: Text) -> Option<u32>
    decreases models.len(),
{
    if models.len() == 0 {
        None
    } else if models[0].key@ == key {
        models[0].default_context_window
    } else {
        default_window(models.drop_first(), key)
    }
}

/// The requested window wins over the model's default. A model can only be
/// chosen where there is a router.
pub open spec fn provider_plan(
    model: Option<Text>,
    window: Option<u32>,
    models: Option<Vec<ModelInfo>>,
) -> ProviderPlanView {
    if model is Some && models is Some {
        ProviderPlanView {
            model,
            window: if window is Some {
                window
            } else {
                default_window(models->0@, model_key(model->0))
            },
        }
    } else {
        ProviderPlanView { model: None, window }
    }
}

fn find_default_window(models: &[ModelInfo], key: &str) -> (r: Option<u32>)
    ensures
        r == default_window(models@, key@),
{
    let mut i: usize = 0;
    proof {
        assert(models@.skip(0) =~= models@);
    }
    while i < models.len()
        invariant
            i <= models.len(),
            default_window(models@, key@) == default_window(models@.skip(i as int), key@),
        decreases models.len() - i,
    {
        proof {
            assert(models@.skip(i as int).drop_first() =~= models@.skip(i + 1));
        }
        if same(models[i].key.as_str(), key) {
            return models[i].default_context_window;
        }
        i += 1;
    }
    None
}

/// Which provider a child runs on.
pub fn resolve_sub_provider(
    model: &Option<String>,
    context_window: Option<u32>,
    models: &Option<Vec<ModelInfo>>,
) -> (r: ProviderPlan)
    ensures
        r@ == provider_plan(opt_text(*model), context_window, *models),
{
    match (model, models) {
        (Some(name), Some(known)) => {
            let window = match context_window {
                Some(w) => Some(w),
                None => {
                    let pieces = split(name.as_str(), '/');
                    proof {
                        lemma_split_pieces(name@, '/');
                        assert(texts(pieces@)[0] == pieces@[0]@);
                    }
                    find_default_window(known.as_slice(), pieces[0].as_str())
                },
            };
            ProviderPlan { model: Some(name.clone()), window }
        },
        _ => ProviderPlan { model: None, window: context_window },
    }
}

// ---------------------------------------------------------------------------
// How a request starts
// ---------------------------------------------------------------------------

/// A worker to be run.
#[derive(Debug)]
pub struct WorkerPlan {
    pub worker_id: String,
    pub label: String,
    /// The instruction of the worker.
    pub task_desc: String,
    /// The tools that have to be there.
    pub allowed_tools: Vec<String>,
    pub tool_policy: ToolPolicy,
    pub workflow: Option<WorkflowMetadata>,
    /// Wait for the result.
    pub sync: bool,
    /// The nesting depth of the worker.
    pub child_depth: u8,
    pub provider: ProviderPlan,
    pub additional_instructions: Option<String>,
    /// The call that this worker answers, if it was made by a model.
    pub tool_call_id: Option<String>,
}

#[verifier::ext_equal]
pub struct WorkerPlanView {
    pub worker_id: Text,
    pub label: Text,
    pub task_desc: Text,
    pub allowed_tools: Seq<Text>,
    pub tool_policy: ToolPolicyView,
    pub workflow: Option<WorkflowView>,
    pub sync: bool,
    pub child_depth: int,
    pub provider: ProviderPlanView,
    pub additional_instructions: Option<Text>,
    pub tool_call_id: Option<Text>,
}

impl View for WorkerPlan {
    type V = WorkerPlanView;

    open spec fn view(&self) -> WorkerPlanView {
        WorkerPlanView {
            worker_id: self.worker_id@,
            label: self.label@,
            task_desc: self.task_desc@,
            allowed_tools: texts(self.allowed_tools@),
            tool_policy: self.tool_policy@,
            workflow: match self.workflow {
                Some(w) => Some(w@),
                None => None,
            },
            sync: self.sync,
            child_depth: self.child_depth as int,
            provider: self.provider@,
            additional_instructions: opt_text(self.additional_instructions),
            tool_call_id: opt_text(self.tool_call_id),
        }
    }
}

/// A request to be sent to a remote agent.
#[derive(Debug)]
pub struct McpDispatch {
    pub backend: HostHandle,
    /// The tool to call on the remote agent.
    pub tool_name: String,
    /// The id under which the request is tracked.
    pub task_id: String,
    pub session_key: String,
    pub label: String,
    pub task_desc: String,
    pub allowed_tools: Vec<String>,
    pub workflow: Option<WorkflowMetadata>,
    pub additional_instructions: Option<String>,
    /// What the cost is booked on.
    pub contract_id: String,
    pub model: String,
    /// About how many tokens the request is long.
    pub tokens_in: u32,
}

#[verifier::ext_equal]
pub struct McpDispatchView {
    pub backend: HostHandle,
    pub tool_name: Text,
    pub task_id: Text,
    pub session_key: Text,
    pub label: Text,
    pub task_desc: Text,
    pub allowed_tools: Seq<Text>,
    pub workflow: Option<WorkflowView>,
    pub additional_instructions: Option<Text>,
    pub contract_id: Text,
    pub model: Text,
    pub tokens_in: u32,
}

impl View for McpDispatch {
    type V = McpDispatchView;

    open spec fn view(&self) -> McpDispatchView {
        McpDispatchView {
            backend: self.backend,
            tool_name: self.tool_name@,
            task_id: self.task_id@,
            session_key: self.session_key@,
            label: self.label@,
            task_desc: self.task_desc@,
            allowed_tools: texts(self.allowed_tools@),
            workflow: match self.workflow {
                Some(w) => Some(w@),
                None => None,
            },
            additional_instructions: opt_text(self.additional_instructions),
            contract_id: self.contract_id@,
            model: self.model@,
            tokens_in: self.tokens_in,
        }
    }
}

/// What is told about a dispatch, beside what the remote agent answered.
#[derive(Debug)]
pub struct DispatchEvent {
    pub backend: HostHandle,
    pub session_id: String,
    pub task_id: String,
    pub workflow: Option<String>,
    pub phase: Option<String>,
}

#[verifier::ext_equal]
pub struct DispatchEventView {
    pub backend: HostHandle,
    pub session_id: Text,
    pub task_id: Text,
    pub workflow: Option<Text>,
    pub phase: Option<Text>,
}

impl View for DispatchEvent {
    type V = DispatchEventView;

    open spec fn view(&self) -> DispatchEventView {
        DispatchEventView {
            backend: self.backend,
            session_id: self.session_id@,
            task_id: self.task_id@,
            workflow: opt_text(self.workflow),
            phase: opt_text(self.phase),
        }
    }
}

/// A call on a remote agent, and what is told about it.
#[derive(Debug)]
pub struct McpRequest {
    pub backend: HostHandle,
    pub tool_name: String,
    pub task: Json,
    pub event: DispatchEvent,
}

/// The content of a text, if there is one.
pub open spec fn opt_str(value: Option<&str>) -> Option<Text> {
    match value {
        Some(text) => Some(text@),
        None => None,
    }
}

fn owned_opt(value: Option<&str>) -> (r: Option<String>)
    ensures
        opt_text(r) == opt_str(value),
{
    match value {
        Some(text) => Some(text.to_owned()),
        None => None,
    }
}

impl McpDispatch {
    /// What is told about the dispatch.
    pub fn event(&self) -> (r: DispatchEvent)
        ensures
            r@ == (DispatchEventView {
                backend: self@.backend,
                session_id: self@.session_key,
                task_id: self@.task_id,
                workflow: match self@.workflow {
                    Some(w) => Some(w.kind),
                    None => None,
                },
                phase: match self@.workflow {
                    Some(w) => Some(w.phase),
                    None => None,
                },
            }),
    {
        DispatchEvent {
            backend: self.backend,
            session_id: self.session_key.clone(),
            task_id: self.task_id.clone(),
            workflow: match &self.workflow {
                Some(w) => Some(w.workflow_kind.clone()),
                None => None,
            },
            phase: match &self.workflow {
                Some(w) => Some(w.current_phase.clone()),
                None => None,
            },
        }
    }
}

/// What comes of a dispatch whose event was held against the form of events: an
/// event of the wrong form fails it. `direct` is a dispatch that no request of a
/// model led to.
pub fn check_dispatch_event(validation: Result<(), String>, direct: bool) -> (r: Result<(), String>)
    ensures
        match validation {
            Ok(_) => r is Ok,
            Err(error) => r matches Err(text) && text@ == (if direct {
                "dispatch event failed validation: "@
            } else {
                "sub-agent dispatch event failed validation: "@
            }) + error@,
        },
{
    match validation {
        Ok(_) => Ok(()),
        Err(error) => {
            let mut text = if direct {
                "dispatch event failed validation: ".to_owned()
            } else {
                "sub-agent dispatch event failed validation: ".to_owned()
            };
            text.append(error.as_str());
            Err(text)
        },
    }
}

/// What a request comes to.
#[derive(Debug)]
pub enum SpawnStart {
    /// Answered at once with a failure.
    Refused(ToolResult),
    /// Not a valid request.
    Invalid(String),
    /// To be sent to a remote agent.
    Dispatch(McpDispatch),
    /// To be given to a worker.
    Run(WorkerPlan),
}

pub enum SpawnStartView {
    Refused(ToolResultView),
    Invalid(Text),
    Dispatch(McpDispatchView),
    Run(WorkerPlanView),
}

impl View for SpawnStart {
    type V = SpawnStartView;

    open spec fn view(&self) -> SpawnStartView {
        match self {
            SpawnStart::Refused(result) => SpawnStartView::Refused(result@),
            SpawnStart::Invalid(error) => SpawnStartView::Invalid(error@),
            SpawnStart::Dispatch(dispatch) => SpawnStartView::Dispatch(dispatch@),
            SpawnStart::Run(plan) => SpawnStartView::Run(plan@),
        }
    }
}

/// About how many tokens a text is long: a token for four bytes.
pub open spec fn token_estimate(text: Text) -> u32 {
    ((byte_len(text) / 4 + if byte_len(text) % 4 == 0 { 0nat } else { 1nat }) as int) as u32
}

pub fn estimate_tokens(text: &str) -> (r: u32)
    ensures
        r == token_estimate(text@),
{
    let n: usize = text.as_bytes().len();
    let whole: usize = n / 4;
    let tokens: usize = if n % 4 == 0 {
        whole
    } else {
        whole + 1
    };
    tokens as u32
}

pub open spec fn worker_id(n: u32) -> Text {
    "subagent-"@ + decimal(n as nat)
}

pub open spec fn next_count(n: u32) -> u32 {
    if n == u32::MAX {
        0
    } else {
        (n + 1) as u32
    }
}

fn or_str(value: &Option<String>, default: &str) -> (r: String)
    ensures
        r@ == or_text(opt_text(*value), default@),
{
    match value {
        Some(s) => s.clone(),
        None => default.to_owned(),
    }
}

pub open spec fn depth_refusal() -> Text {
    "Status: FAILED\nspawn depth limit ("@ + decimal(MAX_SPAWN_DEPTH as nat)
        + ") exceeded; refusing further nesting"@
}

pub open spec fn invalid_input_text() -> Text {
    "invalid spawn tool input"@
}

pub open spec fn no_backend_text() -> Text {
    "spawn backend='agent_mcp' requires a configured MCP agent backend; use SpawnTool::with_mcp_agent_backend() to attach one"@
}

/// The request that goes to a remote agent.
pub open spec fn dispatch_plan(tool: SpawnTool, input: SpawnInputView) -> McpDispatchView {
    let session = or_text(opt_text(tool.session_key), "sub-agent:unknown-session"@);
    McpDispatchView {
        backend: tool.mcp_agent_backend->0,
        tool_name: match input.agent_mcp_tool_name {
            Some(name) => name,
            None => or_text(opt_text(tool.mcp_agent_tool_name), DEFAULT_MCP_AGENT_TOOL_NAME@),
        },
        task_id: worker_id(tool.worker_count),
        session_key: session,
        label: label_of(input),
        task_desc: description_of(input),
        allowed_tools: input.allowed_tools,
        workflow: input.workflow,
        additional_instructions: input.additional_instructions,
        contract_id: match input.workflow {
            Some(w) => w.kind,
            None => session,
        },
        model: or_text(input.model, "unknown-model"@),
        tokens_in: token_estimate(description_of(input)),
    }
}

/// The worker that a request is given to.
pub open spec fn run_plan(tool: SpawnTool, ctx: ToolContext, input: SpawnInputView) -> WorkerPlanView {
    WorkerPlanView {
        worker_id: worker_id(tool.worker_count),
        label: label_of(input),
        task_desc: description_of(input),
        allowed_tools: input.allowed_tools,
        tool_policy: child_policy(input.allowed_tools, input.workflow),
        workflow: input.workflow,
        sync: input.mode == "sync"@,
        child_depth: ctx.spawn_depth + 1,
        provider: provider_plan(input.model, input.context_window, tool.models),
        additional_instructions: input.additional_instructions,
        tool_call_id: if ctx.tool_id@.len() == 0 {
            None
        } else {
            Some(ctx.tool_id@)
        },
    }
}

/// What a valid, filled-in request comes to.
pub open spec fn start_valid(tool: SpawnTool, ctx: ToolContext, input: SpawnInputView) -> SpawnStartView {
    if input.backend == "agent_mcp"@ {
        if tool.mcp_agent_backend is Some {
            SpawnStartView::Dispatch(dispatch_plan(tool, input))
        } else {
            SpawnStartView::Invalid(no_backend_text())
        }
    } else {
        SpawnStartView::Run(run_plan(tool, ctx, input))
    }
}

/// The request after the agent definition it names has filled it in, or why
/// there is none.
pub open spec fn defined_input(input: SpawnInputView, definitions: AgentDefinitions) -> Result<
    SpawnInputView,
    Text,
> {
    match input.agent_definition_id {
        None => Ok(input),
        Some(id) => match definitions.find(id) {
            None => Err(unknown_definition_text(id, definitions.order())),
            Some(def) => if def.unenforced.len() == 0 {
                Ok(filled_in(input, def))
            } else {
                Err(unenforced_text(def))
            },
        },
    }
}

/// What a request comes to. The depth is looked at first, before the request
/// itself.
pub open spec fn spawn_start(
    tool: SpawnTool,
    ctx: ToolContext,
    input: Option<SpawnInputView>,
) -> SpawnStartView {
    if ctx.spawn_depth >= MAX_SPAWN_DEPTH {
        SpawnStartView::Refused(plain_result(false, depth_refusal()))
    } else {
        match input {
            None => SpawnStartView::Invalid(invalid_input_text()),
            Some(asked) => match defined_input(asked, ctx.agent_definitions) {
                Err(error) => SpawnStartView::Invalid(error),
                Ok(filled) => start_valid(tool, ctx, filled),
            },
        }
    }
}

/// A request is counted as a worker once it is valid.
pub open spec fn is_counted(ctx: ToolContext, input: Option<SpawnInputView>) -> bool {
    &&& ctx.spawn_depth < MAX_SPAWN_DEPTH
    &&& input is Some
    &&& defined_input(input->0, ctx.agent_definitions) is Ok
}

impl SpawnTool {
    /// A tool that works in a directory, with nothing else attached. Its results
    /// go to the command line.
    pub fn new(working_dir: &str) -> (r: SpawnTool)
        ensures
            r.working_dir@ == working_dir@,
            r.origin_channel@ == "cli"@,
            r.origin_chat_id@ == "default"@,
            r.is_bare(),
    {
        SpawnTool {
            working_dir: working_dir.to_owned(),
            origin_channel: "cli".to_owned(),
            origin_chat_id: "default".to_owned(),
            worker_count: 0,
            provider_policy: None,
            models: None,
            worker_prompt: None,
            session_key: None,
            task_ledger_path: None,
            plugin_dirs: Vec::new(),
            plugin_extra_env: Vec::new(),
            child_tool_factories: Vec::new(),
            hook_context: None,
            mcp_agent_tool_name: None,
            mcp_agent_backend: None,
            background_result_sender: None,
            child_session_sender: None,
            hooks: None,
            task_supervisor: None,
            agent_config: None,
            cost_accountant: None,
            parent_file_state_cache: None,
            parent_subagent_output_router: None,
            parent_subagent_summary_generator: None,
        }
    }

    /// Nothing attached and no worker started.
    pub open spec fn is_bare(self) -> bool {
        &&& self.worker_count == 0
        &&& self.provider_policy is None
        &&& self.models is None
        &&& self.worker_prompt is None
        &&& self.session_key is None
        &&& self.task_ledger_path is None
        &&& self.plugin_dirs@.len() == 0
        &&& self.plugin_extra_env@.len() == 0
        &&& self.child_tool_factories@.len() == 0
        &&& self.hook_context is None
        &&& self.mcp_agent_tool_name is None
        &&& self.mcp_agent_backend is None
        &&& self.background_result_sender is None
        &&& self.child_session_sender is None
        &&& self.hooks is None
        &&& self.task_supervisor is None
        &&& self.agent_config is None
        &&& self.cost_accountant is None
        &&& self.parent_file_state_cache is None
        &&& self.parent_subagent_output_router is None
        &&& self.parent_subagent_summary_generator is None
    }

    /// A tool whose results go to a given chat.
    pub fn with_context(working_dir: &str, channel: &str, chat_id: &str) -> (r: SpawnTool)
        ensures
            r.working_dir@ == working_dir@,
            r.origin_channel@ == channel@,
            r.origin_chat_id@ == chat_id@,
            r.is_bare(),
    {
        let mut r = SpawnTool::new(working_dir);
        r.set_context(channel, chat_id);
        r
    }

    /// Sends later results to another chat.
    pub fn set_context(&mut self, channel: &str, chat_id: &str)
        ensures
            final(self).origin_channel@ == channel@,
            final(self).origin_chat_id@ == chat_id@,
            *final(self) == (SpawnTool {
                origin_channel: final(self).origin_channel,
                origin_chat_id: final(self).origin_chat_id,
                ..*old(self)
            }),
    {
        self.origin_channel = channel.to_owned();
        self.origin_chat_id = chat_id.to_owned();
    }

    pub fn with_background_result_sender(self, sender: HostHandle) -> (r: SpawnTool)
        ensures
            r == (SpawnTool { background_result_sender: Some(sender), ..self }),
    {
        SpawnTool { background_result_sender: Some(sender), ..self }
    }

    pub fn with_child_session_sender(self, sender: HostHandle) -> (r: SpawnTool)
        ensures
            r == (SpawnTool { child_session_sender: Some(sender), ..self }),
    {
        SpawnTool { child_session_sender: Some(sender), ..self }
    }

    pub fn with_hooks(self, hooks: HostHandle) -> (r: SpawnTool)
        ensures
            r == (SpawnTool { hooks: Some(hooks), ..self }),
    {
        SpawnTool { hooks: Some(hooks), ..self }
    }

    pub fn with_hook_context(self, ctx: HookContext) -> (r: SpawnTool)
        ensures
            r == (SpawnTool { hook_context: Some(ctx), ..self }),
    {
        SpawnTool { hook_context: Some(ctx), ..self }
    }

    pub fn with_provider_policy(self, policy: Option<ToolPolicy>) -> (r: SpawnTool)
        ensures
            r == (SpawnTool { provider_policy: policy, ..self }),
    {
        SpawnTool { provider_policy: policy, ..self }
    }

    /// Lets requests choose among the models of a provider router.
    pub fn with_provider_router(self, models: Vec<ModelInfo>) -> (r: SpawnTool)
        ensures
            r == (SpawnTool { models: Some(models), ..self }),
    {
        SpawnTool { models: Some(models), ..self }
    }

    pub fn with_worker_prompt(self, prompt: String) -> (r: SpawnTool)
        ensures
            r == (SpawnTool { worker_prompt: Some(prompt), ..self }),
    {
        SpawnTool { worker_prompt: Some(prompt), ..self }
    }

    /// Where the plugins of workers are, and what their programs see in their
    /// environment.
    pub fn with_plugin_dirs(self, dirs: Vec<String>, extra_env: Vec<(String, String)>) -> (r: SpawnTool)
        ensures
            r == (SpawnTool { plugin_dirs: dirs, plugin_extra_env: extra_env, ..self }),
    {
        SpawnTool { plugin_dirs: dirs, plugin_extra_env: extra_env, ..self }
    }

    /// Adds a tool that every worker gets anew.
    pub fn with_child_tool_factory(self, tool: ToolEntry) -> (r: SpawnTool)
        ensures
            r == (SpawnTool { child_tool_factories: r.child_tool_factories, ..self }),
            r.child_tool_factories@ == self.child_tool_factories@.push(tool),
    {
        let mut r = self;
        r.child_tool_factories.push(tool);
        r
    }

    /// Tracks workers under the owning session.
    pub fn with_task_supervisor(self, supervisor: HostHandle, session_key: String, task_ledger_path: String) -> (r:
        SpawnTool)
        ensures
            r == (SpawnTool {
                task_supervisor: Some(supervisor),
                session_key: Some(session_key),
                task_ledger_path: Some(task_ledger_path),
                ..self
            }),
    {
        SpawnTool {
            task_supervisor: Some(supervisor),
            session_key: Some(session_key),
            task_ledger_path: Some(task_ledger_path),
            ..self
        }
    }

    pub fn with_agent_config(self, config: HostHandle) -> (r: SpawnTool)
        ensures
            r == (SpawnTool { agent_config: Some(config), ..self }),
    {
        SpawnTool { agent_config: Some(config), ..self }
    }

    /// Attaches a remote agent and the tool to call on it.
    pub fn with_mcp_agent_backend(self, backend: HostHandle, tool_name: Option<String>) -> (r: SpawnTool)
        ensures
            r == (SpawnTool { mcp_agent_backend: Some(backend), mcp_agent_tool_name: tool_name, ..self }),
    {
        SpawnTool { mcp_agent_backend: Some(backend), mcp_agent_tool_name: tool_name, ..self }
    }

    /// Attaches a remote agent that was made from its configuration, unless that
    /// failed.
    pub fn with_mcp_agent_backend_config(
        self,
        built: Result<HostHandle, String>,
        tool_name: Option<String>,
    ) -> (r: Result<SpawnTool, String>)
        ensures
            match built {
                Ok(backend) => r == Ok::<SpawnTool, String>(
                    SpawnTool {
                        mcp_agent_backend: Some(backend),
                        mcp_agent_tool_name: tool_name,
                        ..self
                    },
                ),
                Err(error) => r == Err::<SpawnTool, String>(error),
            },
    {
        match built {
            Ok(backend) => Ok(self.with_mcp_agent_backend(backend, tool_name)),
            Err(error) => Err(error),
        }
    }

    /// What a task that is handed to the remote agent comes to: the call on the
    /// agent, and what is told about it.
    pub fn dispatch_to_mcp_agent(
        &self,
        task: Json,
        session_id: &str,
        task_id: &str,
        workflow: Option<&str>,
        phase: Option<&str>,
    ) -> (r: Result<McpRequest, String>)
        ensures
            match r {
                Ok(request) => {
                    &&& self.mcp_agent_backend == Some(request.backend)
                    &&& request.tool_name@ == or_text(
                        opt_text(self.mcp_agent_tool_name),
                        DEFAULT_MCP_AGENT_TOOL_NAME@,
                    )
                    &&& request.task == task
                    &&& request.event@ == (DispatchEventView {
                        backend: request.backend,
                        session_id: session_id@,
                        task_id: task_id@,
                        workflow: opt_str(workflow),
                        phase: opt_str(phase),
                    })
                },
                Err(error) => self.mcp_agent_backend is None && error@
                    == "no MCP agent backend configured on SpawnTool"@,
            },
    {
        match self.mcp_agent_backend {
            Some(backend) => {
                let event = DispatchEvent {
                    backend,
                    session_id: session_id.to_owned(),
                    task_id: task_id.to_owned(),
                    workflow: owned_opt(workflow),
                    phase: owned_opt(phase),
                };
                Ok(
                    McpRequest {
                        backend,
                        tool_name: or_str(&self.mcp_agent_tool_name, DEFAULT_MCP_AGENT_TOOL_NAME),
                        task,
                        event,
                    },
                )
            },
            None => Err("no MCP agent backend configured on SpawnTool".to_owned()),
        }
    }

    /// What comes of telling a sink about a dispatch. Without a sink there is
    /// nobody to tell; `written` is what writing to the sink gave.
    pub fn emit_dispatch_event(sink_path: Option<&str>, written: Result<(), String>) -> (r: Result<
        (),
        String,
    >)
        ensures
            match r {
                Ok(_) => sink_path is None || written is Ok,
                Err(error) => {
                    &&& sink_path is Some
                    &&& written is Err
                    &&& error@ == "failed to write dispatch event to sink: "@ + written->Err_0@
                },
            },
    {
        match (sink_path, written) {
            (Some(_), Err(error)) => {
                let mut text = "failed to write dispatch event to sink: ".to_owned();
                text.append(error.as_str());
                Err(text)
            },
            _ => Ok(()),
        }
    }

    pub fn with_cost_accountant(self, accountant: HostHandle) -> (r: SpawnTool)
        ensures
            r == (SpawnTool { cost_accountant: Some(accountant), ..self }),
    {
        SpawnTool { cost_accountant: Some(accountant), ..self }
    }

    pub fn with_parent_file_state_cache(self, cache: HostHandle) -> (r: SpawnTool)
        ensures
            r == (SpawnTool { parent_file_state_cache: Some(cache), ..self }),
    {
        SpawnTool { parent_file_state_cache: Some(cache), ..self }
    }

    pub fn with_parent_subagent_output_router(self, router: HostHandle) -> (r: SpawnTool)
        ensures
            r == (SpawnTool { parent_subagent_output_router: Some(router), ..self }),
    {
        SpawnTool { parent_subagent_output_router: Some(router), ..self }
    }

    pub fn with_parent_subagent_summary_generator(self, generator: HostHandle) -> (r: SpawnTool)
        ensures
            r == (SpawnTool { parent_subagent_summary_generator: Some(generator), ..self }),
    {
        SpawnTool { parent_subagent_summary_generator: Some(generator), ..self }
    }

    pub fn parent_file_state_cache(&self) -> (r: Option<HostHandle>)
        ensures
            r == self.parent_file_state_cache,
    {
        self.parent_file_state_cache
    }

    pub fn parent_subagent_output_router(&self) -> (r: Option<HostHandle>)
        ensures
            r == self.parent_subagent_output_router,
    {
        self.parent_subagent_output_router
    }

    pub fn parent_subagent_summary_generator(&self) -> (r: Option<HostHandle>)
        ensures
            r == self.parent_subagent_summary_generator,
    {
        self.parent_subagent_summary_generator
    }

    /// Decides what a request comes to, and counts it as a worker if it is
    /// valid. `input` is `None` if the arguments could not be read.
    pub fn execute_with_context(&mut self, ctx: &ToolContext, input: Option<SpawnInput>) -> (r: SpawnStart)
        ensures
            r@ == spawn_start(*old(self), *ctx, match input {
                Some(asked) => Some(asked@),
                None => None,
            }),
            *final(self) == (SpawnTool {
                worker_count: if is_counted(*ctx, match input {
                    Some(asked) => Some(asked@),
                    None => None,
                }) {
                    next_count(old(self).worker_count)
                } else {
                    old(self).worker_count
                },
                ..*old(self)
            }),
            // The child is told its task, with the context before it.
            input matches Some(asked) ==> match r {
                SpawnStart::Run(plan) => {
                    &&& asked.task@.is_suffix_of(plan.task_desc@)
                    &&& asked.context matches Some(context) ==> context@.is_prefix_of(
                        plan.task_desc@,
                    )
                },
                SpawnStart::Dispatch(request) => {
                    &&& asked.task@.is_suffix_of(request.task_desc@)
                    &&& asked.context matches Some(context) ==> context@.is_prefix_of(
                        request.task_desc@,
                    )
                },
                _ => true,
            },
    {
        proof {
            if input is Some {
                children_are_told_their_task(*self, *ctx, input->0@);
            }
        }
        if ctx.spawn_depth >= MAX_SPAWN_DEPTH {
            let mut text = "Status: FAILED\nspawn depth limit (".to_owned();
            let limit = render(MAX_SPAWN_DEPTH as u64);
            text.append(limit.as_str());
            text.append(") exceeded; refusing further nesting");
            return SpawnStart::Refused(ToolResult::plain(false, text));
        }
        let mut asked = match input {
            Some(asked) => asked,
            None => {
                return SpawnStart::Invalid("invalid spawn tool input".to_owned());
            },
        };
        match apply_agent_definition(&mut asked, &ctx.agent_definitions) {
            Ok(_) => {},
            Err(error) => {
                return SpawnStart::Invalid(error);
            },
        }
        let n: u32 = self.worker_count;
        let mut id = "subagent-".to_owned();
        let number = render(n as u64);
        id.append(number.as_str());
        self.worker_count = n.wrapping_add(1);
        let label = task_label(&asked);
        let task_desc = task_description(&asked);
        if same(asked.backend.as_str(), "agent_mcp") {
            let backend = match self.mcp_agent_backend {
                Some(backend) => backend,
                None => {
                    return SpawnStart::Invalid(
                        "spawn backend='agent_mcp' requires a configured MCP agent backend; use SpawnTool::with_mcp_agent_backend() to attach one".to_owned(),
                    );
                },
            };
            let tool_name = match &asked.agent_mcp_tool_name {
                Some(name) => name.clone(),
                None => or_str(&self.mcp_agent_tool_name, DEFAULT_MCP_AGENT_TOOL_NAME),
            };
            let session_key = or_str(&self.session_key, "sub-agent:unknown-session");
            let contract_id = match &asked.workflow {
                Some(w) => w.workflow_kind.clone(),
                None => session_key.clone(),
            };
            let model = or_str(&asked.model, "unknown-model");
            let tokens_in: u32 = estimate_tokens(task_desc.as_str());
            let dispatch = McpDispatch {
                backend,
                tool_name,
                task_id: id,
                session_key,
                label,
                task_desc,
                allowed_tools: asked.allowed_tools,
                workflow: asked.workflow,
                additional_instructions: asked.additional_instructions,
                contract_id,
                model,
                tokens_in,
            };
            return SpawnStart::Dispatch(dispatch);
        }
        let provider = resolve_sub_provider(&asked.model, asked.context_window, &self.models);
        let policy_tools = copy_list(asked.allowed_tools.as_slice());
        let tool_policy = build_subagent_tool_policy(policy_tools, asked.workflow.as_ref());
        let plan = WorkerPlan {
            worker_id: id,
            label,
            task_desc,
            allowed_tools: asked.allowed_tools,
            tool_policy,
            workflow: asked.workflow,
            sync: same(asked.mode.as_str(), "sync"),
            child_depth: ctx.spawn_depth + 1,
            provider,
            additional_instructions: asked.additional_instructions,
            tool_call_id: if ctx.tool_id.as_str().is_empty() {
                None
            } else {
                Some(ctx.tool_id.clone())
            },
        };
        SpawnStart::Run(plan)
    }
}

/// A worker is nested one deeper than the call that started it, and never
/// deeper than the limit; a call at the limit starts nothing.
pub proof fn nesting_is_bounded(tool: SpawnTool, ctx: ToolContext, input: Option<SpawnInputView>)
    ensures
        spawn_start(tool, ctx, input) matches SpawnStartView::Run(plan) ==> {
            &&& plan.child_depth == ctx.spawn_depth + 1
            &&& plan.child_depth <= MAX_SPAWN_DEPTH
        },
        ctx.spawn_depth >= MAX_SPAWN_DEPTH ==> spawn_start(tool, ctx, input) is Refused,
        ctx.spawn_depth < MAX_SPAWN_DEPTH ==> !(spawn_start(tool, ctx, input) is Refused),
{
}

} // verus!
