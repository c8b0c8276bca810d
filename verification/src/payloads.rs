//! The JSON texts that go to remote agents and to the supervisor.
use vstd::prelude::*;

use crate::json::{
    json_text, members_view, put, str_array, str_array_view, str_value, to_text, Json, JsonMember,
    JsonView,
};
use crate::spawn::{McpDispatch, McpDispatchView};
use crate::text::{decimal, opt_text, render, texts, Text};
use crate::workflow::{
    phase_progress, progress_is_strictly_between, workflow_phase_progress, TerminalPolicyView,
    WorkflowMetadata, WorkflowTerminalOutputPolicy, WorkflowView,
};

verus! {

pub open spec fn opt_json(value: Option<Text>) -> JsonView {
    match value {
        Some(text) => JsonView::Str(text),
        None => JsonView::Null,
    }
}

fn opt_value(value: &Option<String>) -> (r: Json)
    ensures
        r@ == opt_json(opt_text(*value)),
{
    match value {
        Some(text) => str_value(text.as_str()),
        None => Json::Null,
    }
}

/// The rules of a delivery.
pub open spec fn terminal_json(policy: TerminalPolicyView) -> JsonView {
    JsonView::Object(
        seq![
            ("deliver_final_artifact_only"@, JsonView::Bool(policy.final_only)),
            ("forbid_intermediate_files"@, JsonView::Bool(policy.forbid_intermediate)),
            ("required_artifact_kind"@, JsonView::Str(policy.kind)),
        ],
    )
}

fn terminal_value(policy: &WorkflowTerminalOutputPolicy) -> (r: Json)
    ensures
        r@ == terminal_json(policy@),
{
    let mut m: Vec<JsonMember> = Vec::new();
    put(&mut m, "deliver_final_artifact_only", Json::Bool(policy.deliver_final_artifact_only));
    put(&mut m, "forbid_intermediate_files", Json::Bool(policy.forbid_intermediate_files));
    put(&mut m, "required_artifact_kind", str_value(policy.required_artifact_kind.as_str()));
    proof {
        assert(members_view(m@) =~= terminal_json(policy@)->Object_0);
    }
    Json::Object(m)
}

pub open spec fn tools_member(tools: Seq<Text>) -> Seq<(Text, JsonView)> {
    if tools.len() == 0 {
        Seq::empty()
    } else {
        seq![("allowed_tools"@, str_array_view(tools))]
    }
}

pub open spec fn terminal_member(policy: Option<TerminalPolicyView>) -> Seq<(Text, JsonView)> {
    match policy {
        Some(policy) => seq![("terminal_output"@, terminal_json(policy))],
        None => Seq::empty(),
    }
}

pub open spec fn progress_member(progress: Option<Text>) -> Seq<(Text, JsonView)> {
    match progress {
        Some(number) => seq![("progress"@, JsonView::Number(number))],
        None => Seq::empty(),
    }
}

/// A workflow inside another value: its members by name.
pub open spec fn workflow_json(workflow: WorkflowView) -> JsonView {
    JsonView::Object(
        tools_member(workflow.allowed_tools) + seq![
            ("current_phase"@, JsonView::Str(workflow.phase)),
        ] + progress_member(workflow.progress) + terminal_member(workflow.terminal) + seq![
            ("workflow_kind"@, JsonView::Str(workflow.kind)),
        ],
    )
}

fn put_tools(m: &mut Vec<JsonMember>, tools: &[String])
    ensures
        members_view(final(m)@) == members_view(old(m)@) + tools_member(texts(tools@)),
{
    if tools.len() > 0 {
        put(m, "allowed_tools", str_array(tools));
    }
    proof {
        assert(members_view(m@) =~= members_view(old(m)@) + tools_member(texts(tools@)));
    }
}

fn put_terminal(m: &mut Vec<JsonMember>, workflow: &WorkflowMetadata)
    ensures
        members_view(final(m)@) == members_view(old(m)@) + terminal_member(workflow@.terminal),
{
    if let Some(policy) = &workflow.terminal_output {
        put(m, "terminal_output", terminal_value(policy));
    }
    proof {
        assert(members_view(m@) =~= members_view(old(m)@) + terminal_member(workflow@.terminal));
    }
}

fn put_progress(m: &mut Vec<JsonMember>, workflow: &WorkflowMetadata)
    ensures
        members_view(final(m)@) == members_view(old(m)@) + progress_member(workflow@.progress),
{
    if let Some(number) = &workflow.progress {
        put(m, "progress", Json::Number(number.clone()));
    }
    proof {
        assert(members_view(m@) =~= members_view(old(m)@) + progress_member(workflow@.progress));
    }
}

fn workflow_value(workflow: &WorkflowMetadata) -> (r: Json)
    ensures
        r@ == workflow_json(workflow@),
{
    let mut m: Vec<JsonMember> = Vec::new();
    put_tools(&mut m, workflow.allowed_tools.as_slice());
    put(&mut m, "current_phase", str_value(workflow.current_phase.as_str()));
    put_progress(&mut m, workflow);
    put_terminal(&mut m, workflow);
    put(&mut m, "workflow_kind", str_value(workflow.workflow_kind.as_str()));
    proof {
        assert(members_view(m@) =~= workflow_json(workflow@)->Object_0);
    }
    Json::Object(m)
}

/// What a remote agent is asked.
pub open spec fn dispatch_json(dispatch: McpDispatchView) -> JsonView {
    JsonView::Object(
        seq![
            ("additional_instructions"@, opt_json(dispatch.additional_instructions)),
            ("allowed_tools"@, str_array_view(dispatch.allowed_tools)),
            ("label"@, JsonView::Str(dispatch.label)),
            ("task"@, JsonView::Str(dispatch.task_desc)),
            (
                "workflow"@,
                match dispatch.workflow {
                    Some(workflow) => workflow_json(workflow),
                    None => JsonView::Null,
                },
            ),
        ],
    )
}

/// What a remote agent is asked.
pub fn dispatch_payload(dispatch: &McpDispatch) -> (r: Json)
    ensures
        r@ == dispatch_json(dispatch@),
{
    let mut m: Vec<JsonMember> = Vec::new();
    put(&mut m, "additional_instructions", opt_value(&dispatch.additional_instructions));
    put(&mut m, "allowed_tools", str_array(dispatch.allowed_tools.as_slice()));
    put(&mut m, "label", str_value(dispatch.label.as_str()));
    put(&mut m, "task", str_value(dispatch.task_desc.as_str()));
    let workflow = match &dispatch.workflow {
        Some(workflow) => workflow_value(workflow),
        None => Json::Null,
    };
    put(&mut m, "workflow", workflow);
    proof {
        assert(members_view(m@) =~= dispatch_json(dispatch@)->Object_0);
    }
    Json::Object(m)
}

/// A number of hundredths below one, as the shortest decimal fraction.
pub open spec fn fraction_text(hundredths: nat) -> Text {
    if hundredths % 10 == 0 {
        "0."@ + decimal(hundredths / 10)
    } else if hundredths < 10 {
        "0.0"@ + decimal(hundredths)
    } else {
        "0."@ + decimal(hundredths)
    }
}

/// A number of hundredths below one, as the shortest decimal fraction.
pub fn write_fraction(hundredths: u64) -> (r: String)
    requires
        hundredths < 100,
    ensures
        r@ == fraction_text(hundredths as nat),
{
    let mut r = "0.".to_owned();
    if hundredths % 10 == 0 {
        let n = render(hundredths / 10);
        r.append(n.as_str());
        r
    } else if hundredths < 10 {
        let mut r = "0.0".to_owned();
        let n = render(hundredths);
        r.append(n.as_str());
        r
    } else {
        let n = render(hundredths);
        r.append(n.as_str());
        r
    }
}

/// What the supervisor is told about a workflow: its members as they are
/// declared.
pub open spec fn detail_json(workflow: WorkflowView) -> JsonView {
    JsonView::Object(
        seq![
            ("workflow_kind"@, JsonView::Str(workflow.kind)),
            ("current_phase"@, JsonView::Str(workflow.phase)),
        ] + tools_member(workflow.allowed_tools) + terminal_member(workflow.terminal) + progress_member(
            workflow.progress,
        ),
    )
}

/// What the supervisor is told about a workflow.
pub fn encode_workflow_detail(workflow: &WorkflowMetadata) -> (r: String)
    ensures
        r@ == json_text(detail_json(workflow@)),
{
    let mut m: Vec<JsonMember> = Vec::new();
    put(&mut m, "workflow_kind", str_value(workflow.workflow_kind.as_str()));
    put(&mut m, "current_phase", str_value(workflow.current_phase.as_str()));
    put_tools(&mut m, workflow.allowed_tools.as_slice());
    put_terminal(&mut m, workflow);
    put_progress(&mut m, workflow);
    let detail = Json::Object(m);
    proof {
        assert(detail@->Object_0 =~= detail_json(workflow@)->Object_0);
    }
    to_text(&detail)
}

/// What the supervisor is told about a workflow that enters a phase: it has
/// come as far as the phase stands for.
pub open spec fn phase_text(workflow: WorkflowView, phase: Text) -> Text {
    json_text(
        detail_json(
            WorkflowView {
                phase,
                progress: Some(fraction_text(phase_progress(phase) as nat)),
                ..workflow
            },
        ),
    )
}

/// What the supervisor is told about a workflow that enters a phase.
pub fn phase_detail(workflow: &WorkflowMetadata, phase: &str) -> (r: String)
    ensures
        r@ == phase_text(workflow@, phase@),
{
    proof {
        progress_is_strictly_between(phase@);
    }
    let mut entered = workflow.in_phase(phase);
    entered.progress = Some(write_fraction(workflow_phase_progress(phase) as u64));
    encode_workflow_detail(&entered)
}

} // verus!
