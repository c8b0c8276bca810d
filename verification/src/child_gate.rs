//! The checks that the work of a child passes before it counts as done.
use vstd::prelude::*;
use vstd::string::*;

use crate::child_session::{outcome_view, succeeded, TaskOutcome, TaskResultView};
use crate::context::{plain_result, ToolResult, ToolResultView};
use crate::text::{copy_list, opt_text, texts, Text};

verus! {

/// How a child runs.
#[derive(Debug, Clone, Copy, PartialEq, Eq, Structural)]
pub enum SpawnMode {
    AgentMcp,
    Sync,
    Background,
}

/// What has to be done next before the child's work counts.
#[derive(Debug, Clone, Copy, PartialEq, Eq, Structural)]
pub enum GateStage {
    /// Run the validators of the session's workspace.
    SessionValidators,
    /// Run the validators of each project.
    ProjectValidators,
    /// Find the files to deliver.
    TerminalFiles,
    /// Nothing more.
    Done,
}

/// Where the child's work stands, and why it was rejected, if it was.
#[derive(Debug)]
pub struct ChildGate {
    pub mode: SpawnMode,
    pub stage: GateStage,
    pub failure: Option<String>,
}

#[verifier::ext_equal]
pub struct ChildGateView {
    pub mode: SpawnMode,
    pub stage: GateStage,
    pub failure: Option<Text>,
}

impl View for ChildGate {
    type V = ChildGateView;

    open spec fn view(&self) -> ChildGateView {
        ChildGateView { mode: self.mode, stage: self.stage, failure: opt_text(self.failure) }
    }
}

/// The checks at the start: a child that did not succeed is not looked at.
pub open spec fn gate_opened(mode: SpawnMode, child_succeeded: bool, has_validators: bool) -> ChildGateView {
    ChildGateView {
        mode,
        stage: if !child_succeeded {
            GateStage::Done
        } else if has_validators {
            GateStage::SessionValidators
        } else {
            GateStage::ProjectValidators
        },
        failure: None,
    }
}

/// The stage after one that was passed.
pub open spec fn stage_after(mode: SpawnMode, stage: GateStage, contract_owned: bool) -> GateStage {
    match stage {
        GateStage::SessionValidators => GateStage::ProjectValidators,
        GateStage::ProjectValidators => match mode {
            SpawnMode::Background => GateStage::TerminalFiles,
            SpawnMode::AgentMcp => if contract_owned {
                GateStage::TerminalFiles
            } else {
                GateStage::Done
            },
            SpawnMode::Sync => GateStage::Done,
        },
        GateStage::TerminalFiles => GateStage::Done,
        GateStage::Done => GateStage::Done,
    }
}

/// How a rejection is worded.
pub open spec fn rejection(mode: SpawnMode, stage: GateStage, reason: Text) -> Text {
    match (mode, stage) {
        (SpawnMode::AgentMcp, GateStage::SessionValidators) => {
            "Status: FAILED\nremote_agent_mcp: completion validator rejected child artifact: "@ + reason
        },
        (SpawnMode::AgentMcp, GateStage::ProjectValidators) => {
            "Status: FAILED\nremote_agent_mcp: project-scope validator rejected child artifact: "@ + reason
        },
        (SpawnMode::AgentMcp, _) => "Status: FAILED\n"@ + reason,
        (SpawnMode::Sync, GateStage::SessionValidators) => {
            "Subagent failed: contract validator rejected child artifact: "@ + reason
        },
        (SpawnMode::Sync, GateStage::ProjectValidators) => {
            "Subagent failed: project-scope validator rejected child artifact: "@ + reason
        },
        (SpawnMode::Background, GateStage::ProjectValidators) => {
            "project-scope validator rejected child artifact: "@ + reason
        },
        _ => reason,
    }
}

/// The checks after a stage was done, with a reason if it rejected the work.
pub open spec fn gate_after(gate: ChildGateView, verdict: Option<Text>, contract_owned: bool) -> ChildGateView {
    if gate.stage == GateStage::Done {
        gate
    } else {
        match verdict {
            None => ChildGateView {
                stage: stage_after(gate.mode, gate.stage, contract_owned),
                ..gate
            },
            Some(reason) => ChildGateView {
                stage: GateStage::Done,
                failure: Some(rejection(gate.mode, gate.stage, reason)),
                ..gate
            },
        }
    }
}

fn word_rejection(mode: SpawnMode, stage: GateStage, reason: &str) -> (r: String)
    ensures
        r@ == rejection(mode, stage, reason@),
{
    let prefix: &str = match (mode, stage) {
        (SpawnMode::AgentMcp, GateStage::SessionValidators) => {
            "Status: FAILED\nremote_agent_mcp: completion validator rejected child artifact: "
        },
        (SpawnMode::AgentMcp, GateStage::ProjectValidators) => {
            "Status: FAILED\nremote_agent_mcp: project-scope validator rejected child artifact: "
        },
        (SpawnMode::AgentMcp, _) => "Status: FAILED\n",
        (SpawnMode::Sync, GateStage::SessionValidators) => {
            "Subagent failed: contract validator rejected child artifact: "
        },
        (SpawnMode::Sync, GateStage::ProjectValidators) => {
            "Subagent failed: project-scope validator rejected child artifact: "
        },
        (SpawnMode::Background, GateStage::ProjectValidators) => {
            "project-scope validator rejected child artifact: "
        },
        _ => {
            return reason.to_owned();
        },
    };
    let mut r = prefix.to_owned();
    r.append(reason);
    r
}

impl ChildGate {
    pub fn open(mode: SpawnMode, child_succeeded: bool, has_validators: bool) -> (r: ChildGate)
        ensures
            r@ == gate_opened(mode, child_succeeded, has_validators),
    {
        let stage = if !child_succeeded {
            GateStage::Done
        } else if has_validators {
            GateStage::SessionValidators
        } else {
            GateStage::ProjectValidators
        };
        ChildGate { mode, stage, failure: None }
    }

    /// Goes on after the current stage. `verdict` is the reason if the stage
    /// rejected the work.
    pub fn advance(self, verdict: Option<String>, contract_owned: bool) -> (r: ChildGate)
        ensures
            r@ == gate_after(self@, opt_text(verdict), contract_owned),
    {
        if self.stage == GateStage::Done {
            return self;
        }
        match verdict {
            None => {
                let stage = match self.stage {
                    GateStage::SessionValidators => GateStage::ProjectValidators,
                    GateStage::ProjectValidators => match self.mode {
                        SpawnMode::Background => GateStage::TerminalFiles,
                        SpawnMode::AgentMcp => if contract_owned {
                            GateStage::TerminalFiles
                        } else {
                            GateStage::Done
                        },
                        SpawnMode::Sync => GateStage::Done,
                    },
                    GateStage::TerminalFiles => GateStage::Done,
                    GateStage::Done => GateStage::Done,
                };
                ChildGate { mode: self.mode, stage, failure: self.failure }
            },
            Some(reason) => {
                let failure = word_rejection(self.mode, self.stage, reason.as_str());
                ChildGate { mode: self.mode, stage: GateStage::Done, failure: Some(failure) }
            },
        }
    }
}

/// The checks after a series of verdicts.
pub open spec fn gate_run(gate: ChildGateView, verdicts: Seq<Option<Text>>, contract_owned: bool) -> ChildGateView
    decreases verdicts.len(),
{
    if verdicts.len() == 0 {
        gate
    } else {
        gate_after(gate_run(gate, verdicts.drop_last(), contract_owned), verdicts.last(), contract_owned)
    }
}

/// How many stages a gate has to go through at most.
pub open spec fn stages_left(stage: GateStage) -> nat {
    match stage {
        GateStage::SessionValidators => 3,
        GateStage::ProjectValidators => 2,
        GateStage::TerminalFiles => 1,
        GateStage::Done => 0,
    }
}

/// Each verdict brings the checks closer to their end.
pub proof fn gate_ends(gate: ChildGateView, verdict: Option<Text>, contract_owned: bool)
    requires
        gate.stage != GateStage::Done,
    ensures
        stages_left(gate_after(gate, verdict, contract_owned).stage) < stages_left(gate.stage),
{
}

/// Work that was rejected stays rejected, whatever comes after.
pub proof fn rejection_is_final(gate: ChildGateView, verdicts: Seq<Option<Text>>, contract_owned: bool)
    requires
        gate.stage == GateStage::Done,
    ensures
        gate_run(gate, verdicts, contract_owned) == gate,
    decreases verdicts.len(),
{
    if verdicts.len() > 0 {
        rejection_is_final(gate, verdicts.drop_last(), contract_owned);
    }
}

/// A gate opened for a child that succeeded ends without a failure only if
/// every stage that it went through was passed.
pub proof fn accepted_work_passed_every_stage(
    mode: SpawnMode,
    has_validators: bool,
    verdicts: Seq<Option<Text>>,
    contract_owned: bool,
    i: int,
)
    requires
        gate_run(gate_opened(mode, true, has_validators), verdicts, contract_owned).failure is None,
        0 <= i < verdicts.len(),
        gate_run(gate_opened(mode, true, has_validators), verdicts.take(i), contract_owned).stage
            != GateStage::Done,
    ensures
        verdicts[i] is None,
    decreases verdicts.len(),
{
    let start = gate_opened(mode, true, has_validators);
    if i == verdicts.len() - 1 {
        assert(verdicts.drop_last() =~= verdicts.take(i));
    } else {
        assert(verdicts.drop_last().take(i) =~= verdicts.take(i));
        let before = gate_run(start, verdicts.drop_last(), contract_owned);
        assert(before.failure is None);
        accepted_work_passed_every_stage(mode, has_validators, verdicts.drop_last(), contract_owned, i);
        assert(verdicts.drop_last()[i] == verdicts[i]);
    }
}

// ---------------------------------------------------------------------------
// Results of the two modes that answer at once
// ---------------------------------------------------------------------------

/// What a remote agent answered.
#[derive(Debug)]
pub struct McpResponse {
    pub success: bool,
    pub output: String,
    pub error: Option<String>,
    pub files_to_send: Vec<String>,
}

/// The answer to a request that went to a remote agent. `contract_files` are
/// the files of the workspace contract that owns the delivery, if one does.
pub open spec fn mcp_result(
    response: McpResponse,
    failure: Option<Text>,
    contract_files: Option<Seq<Text>>,
) -> ToolResultView {
    match failure {
        Some(text) => plain_result(false, text),
        None => if response.success {
            ToolResultView {
                files_to_send: match contract_files {
                    Some(files) => files,
                    None => texts(response.files_to_send@),
                },
                ..plain_result(true, "Status: SUCCESS\n\n"@ + response.output@)
            }
        } else {
            plain_result(
                false,
                "Status: FAILED\n"@ + match response.error {
                    Some(error) => error@,
                    None => response.output@,
                },
            )
        },
    }
}

pub fn finish_mcp(
    response: &McpResponse,
    failure: &Option<String>,
    contract_files: &Option<Vec<String>>,
) -> (r: ToolResult)
    ensures
        r@ == mcp_result(*response, opt_text(*failure), match contract_files {
            Some(files) => Some(texts(files@)),
            None => None,
        }),
{
    match failure {
        Some(text) => ToolResult::plain(false, text.clone()),
        None => {
            if response.success {
                let mut text = "Status: SUCCESS\n\n".to_owned();
                text.append(response.output.as_str());
                let files = match contract_files {
                    Some(files) => copy_list(files.as_slice()),
                    None => copy_list(response.files_to_send.as_slice()),
                };
                let mut r = ToolResult::plain(true, text);
                r.files_to_send = files;
                r
            } else {
                let mut text = "Status: FAILED\n".to_owned();
                match &response.error {
                    Some(error) => {
                        text.append(error.as_str());
                    },
                    None => {
                        text.append(response.output.as_str());
                    },
                }
                ToolResult::plain(false, text)
            }
        },
    }
}

/// The answer to a request whose cost would break the budget.
pub fn refuse_for_budget(breach: &str) -> (r: ToolResult)
    ensures
        r@ == plain_result(
            false,
            "Status: FAILED\nDispatch rejected by cost budget policy: "@ + breach@,
        ),
{
    let mut text = "Status: FAILED\nDispatch rejected by cost budget policy: ".to_owned();
    text.append(breach);
    ToolResult::plain(false, text)
}

/// The answer to a request whose worker was waited for.
pub open spec fn sync_result(outcome: Result<TaskResultView, Text>, failure: Option<Text>) -> ToolResultView {
    match outcome {
        Err(error) => plain_result(false, "Subagent failed: "@ + error),
        Ok(result) => ToolResultView {
            tokens_used: Some(result.token_usage),
            ..plain_result(
                result.success && failure is None,
                match failure {
                    Some(text) => text,
                    None => result.output,
                },
            )
        },
    }
}

pub fn finish_sync(outcome: &TaskOutcome, failure: &Option<String>) -> (r: ToolResult)
    ensures
        r@ == sync_result(outcome_view(*outcome), opt_text(*failure)),
{
    match outcome {
        Err(error) => {
            let mut text = "Subagent failed: ".to_owned();
            text.append(error.as_str());
            ToolResult::plain(false, text)
        },
        Ok(result) => {
            let text = match failure {
                Some(text) => text.clone(),
                None => result.output.clone(),
            };
            let mut r = ToolResult::plain(result.success && failure.is_none(), text);
            r.tokens_used = Some(result.token_usage);
            r
        },
    }
}

/// Neither mode reports success for work that was rejected, and rejected work
/// delivers no files.
pub proof fn rejected_work_is_never_a_success(
    response: McpResponse,
    outcome: Result<TaskResultView, Text>,
    failure: Text,
    files: Option<Seq<Text>>,
)
    ensures
        !mcp_result(response, Some(failure), files).success,
        mcp_result(response, Some(failure), files).files_to_send.len() == 0,
        !sync_result(outcome, Some(failure)).success,
{
}

/// Nor is success reported for a child that did not succeed.
pub proof fn failed_child_is_never_a_success(
    response: McpResponse,
    outcome: Result<TaskResultView, Text>,
    failure: Option<Text>,
    files: Option<Seq<Text>>,
)
    ensures
        !response.success ==> !mcp_result(response, failure, files).success,
        !succeeded(outcome) ==> !sync_result(outcome, failure).success,
{
}

} // verus!
