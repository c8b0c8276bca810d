//! What holds of every request to start a child agent.
use vstd::prelude::*;

use crate::context::ToolContext;
use crate::spawn::{
    default_window, model_key, spawn_start, worker_id, ModelInfo, SpawnStartView, SpawnTool,
};
use crate::spawn_input::SpawnInputView;
use crate::text::{decimal, lemma_three_parts, lemma_two_parts, Text};
use crate::text_laws::decimals_tell_numbers_apart;

verus! {

/// A child agent is told its task. Its instruction ends with the task, and a
/// context stands before it, with a blank line between the two. So is a remote
/// agent.
pub proof fn children_are_told_their_task(tool: SpawnTool, ctx: ToolContext, asked: SpawnInputView)
    ensures
        match spawn_start(tool, ctx, Some(asked)) {
            SpawnStartView::Run(plan) => {
                &&& asked.task.is_suffix_of(plan.task_desc)
                &&& asked.context is None ==> plan.task_desc == asked.task
                &&& asked.context matches Some(context) ==> {
                    &&& context.is_prefix_of(plan.task_desc)
                    &&& plan.task_desc.len() == context.len() + 2 + asked.task.len()
                    &&& plan.task_desc[context.len() as int] == '\n'
                    &&& plan.task_desc[context.len() as int + 1] == '\n'
                }
            },
            SpawnStartView::Dispatch(request) => {
                &&& asked.task.is_suffix_of(request.task_desc)
                &&& asked.context is None ==> request.task_desc == asked.task
                &&& asked.context matches Some(context) ==> {
                    &&& context.is_prefix_of(request.task_desc)
                    &&& request.task_desc.len() == context.len() + 2 + asked.task.len()
                    &&& request.task_desc[context.len() as int] == '\n'
                    &&& request.task_desc[context.len() as int + 1] == '\n'
                }
            },
            _ => true,
        },
{
    reveal_strlit("\n\n");
    match asked.context {
        Some(context) => {
            lemma_three_parts(context, "\n\n"@, asked.task);
            let told = context + "\n\n"@ + asked.task;
            assert(told[context.len() as int] == "\n\n"@[0]);
            assert(told[context.len() as int + 1] == "\n\n"@[1]);
        },
        None => {
            assert(asked.task.subrange(0, asked.task.len() as int) =~= asked.task);
        },
    }
}

/// A call that is nested four deep is refused, and no other is. A request that
/// names no agent definition then goes to the remote agent exactly if it asks
/// for it, and to a worker otherwise.
pub proof fn requests_go_where_they_are_meant_to(
    tool: SpawnTool,
    ctx: ToolContext,
    asked: SpawnInputView,
)
    ensures
        spawn_start(tool, ctx, Some(asked)) is Refused <==> ctx.spawn_depth >= 4,
        spawn_start(tool, ctx, None) is Refused <==> ctx.spawn_depth >= 4,
        spawn_start(tool, ctx, None) is Refused || spawn_start(tool, ctx, None) is Invalid,
        ctx.spawn_depth < 4 && asked.agent_definition_id is None && asked.backend != "agent_mcp"@
            ==> spawn_start(tool, ctx, Some(asked)) is Run,
        ctx.spawn_depth < 4 && asked.agent_definition_id is None && asked.backend == "agent_mcp"@
            && tool.mcp_agent_backend is Some ==> spawn_start(tool, ctx, Some(asked)) is Dispatch,
        ctx.spawn_depth < 4 && asked.backend == "agent_mcp"@ && tool.mcp_agent_backend is None
            ==> spawn_start(tool, ctx, Some(asked)) is Invalid,
        spawn_start(tool, ctx, Some(asked)) is Run ==> asked.backend != "agent_mcp"@,
        spawn_start(tool, ctx, Some(asked)) matches SpawnStartView::Dispatch(request) ==> {
            &&& asked.backend == "agent_mcp"@
            &&& tool.mcp_agent_backend == Some(request.backend)
        },
        spawn_start(tool, ctx, Some(asked)) matches SpawnStartView::Refused(answer) ==> {
            &&& !answer.success
            &&& "Status: FAILED"@.is_prefix_of(answer.output)
            &&& answer.files_to_send.len() == 0
        },
{
    reveal_strlit("Status: FAILED");
    reveal_strlit("Status: FAILED\nspawn depth limit (");
    let limit = decimal(4);
    let rest = limit + ") exceeded; refusing further nesting"@;
    let whole = "Status: FAILED\nspawn depth limit ("@ + limit
        + ") exceeded; refusing further nesting"@;
    assert(whole =~= "Status: FAILED\nspawn depth limit ("@ + rest);
    assert("Status: FAILED"@ =~= whole.subrange(0, "Status: FAILED"@.len() as int));
}

/// An agent definition that is not known, or that asks for what nothing
/// enforces, starts nothing.
pub proof fn definitions_must_be_known_and_enforced(
    tool: SpawnTool,
    ctx: ToolContext,
    asked: SpawnInputView,
)
    requires
        ctx.spawn_depth < 4,
        asked.agent_definition_id is Some,
    ensures
        ctx.agent_definitions.find(asked.agent_definition_id->0) is None ==> spawn_start(
            tool,
            ctx,
            Some(asked),
        ) is Invalid,
        ctx.agent_definitions.find(asked.agent_definition_id->0) matches Some(def) && def.unenforced.len()
            > 0 ==> spawn_start(tool, ctx, Some(asked)) is Invalid,
        ctx.agent_definitions.find(asked.agent_definition_id->0) matches Some(def) && def.unenforced.len()
            == 0 && asked.backend != "agent_mcp"@ ==> spawn_start(tool, ctx, Some(asked)) is Run,
{
}

/// What a request says itself reaches the worker as it is: its label, its
/// workflow, its instructions, the call that it answers and whether it is waited
/// for. Without a label the beginning of the task stands for it.
pub proof fn workers_get_what_was_asked(tool: SpawnTool, ctx: ToolContext, asked: SpawnInputView)
    ensures
        spawn_start(tool, ctx, Some(asked)) matches SpawnStartView::Run(plan) ==> {
            &&& asked.label matches Some(label) ==> plan.label == label
            &&& asked.label is None ==> plan.label.is_prefix_of(asked.task)
            &&& asked.label is None && asked.task.len() <= 60 ==> plan.label == asked.task
            &&& asked.label is None && asked.task.len() > 60 ==> plan.label.len() == 60
            &&& plan.workflow == asked.workflow
            &&& plan.additional_instructions == asked.additional_instructions
            &&& plan.sync <==> asked.mode == "sync"@
            &&& plan.child_depth == ctx.spawn_depth + 1
            &&& plan.child_depth <= 4
            &&& plan.tool_call_id matches Some(id) ==> id == ctx.tool_id@
            &&& plan.tool_call_id is None <==> ctx.tool_id@.len() == 0
        },
        spawn_start(tool, ctx, Some(asked)) matches SpawnStartView::Dispatch(request) ==> {
            &&& asked.label matches Some(label) ==> request.label == label
            &&& asked.label is None ==> request.label.is_prefix_of(asked.task)
            &&& asked.label is None && asked.task.len() <= 60 ==> request.label == asked.task
            &&& asked.label is None && asked.task.len() > 60 ==> request.label.len() == 60
            &&& request.workflow == asked.workflow
            &&& request.additional_instructions == asked.additional_instructions
            &&& asked.agent_mcp_tool_name matches Some(name) ==> request.tool_name == name
            &&& asked.agent_mcp_tool_name is None ==> (tool.mcp_agent_tool_name matches Some(name)
                ==> request.tool_name == name@)
            &&& asked.agent_mcp_tool_name is None && tool.mcp_agent_tool_name is None
                ==> request.tool_name == "run_task"@
            &&& tool.session_key matches Some(key) ==> request.session_key == key@
            &&& asked.workflow matches Some(workflow) ==> request.contract_id == workflow.kind
            &&& asked.workflow is None ==> request.contract_id == request.session_key
        },
{
    assert(asked.task.subrange(0, asked.task.len() as int) =~= asked.task);
}

/// A request without an agent definition gets the tools that it lists. With one
/// it never gets a tool that the definition disallows; of its own tools it gets
/// all others and no more, and without tools of its own those of the definition.
/// The policy of the worker allows these tools, and never the tool that starts
/// children.
pub proof fn workers_get_their_tools(
    tool: SpawnTool,
    ctx: ToolContext,
    asked: SpawnInputView,
    name: Text,
)
    ensures
        spawn_start(tool, ctx, Some(asked)) matches SpawnStartView::Run(plan) ==> {
            &&& plan.tool_policy.allow == plan.allowed_tools
            &&& plan.tool_policy.deny.contains("spawn"@)
            &&& plan.tool_policy.require_tags.len() == 0
            &&& plan.tool_policy.deny.contains(name) ==> name == "spawn"@ || name == "send_file"@
            &&& asked.workflow is None ==> (plan.tool_policy.deny.contains(name) <==> name
                == "spawn"@)
            &&& asked.agent_definition_id is None ==> plan.allowed_tools == asked.allowed_tools
            &&& asked.agent_definition_id matches Some(id) ==> {
                &&& ctx.agent_definitions.find(id) matches Some(def)
                &&& plan.allowed_tools.contains(name) <==> (!def.disallowed_tools.contains(name)
                    && (if asked.allowed_tools.len() == 0 {
                    def.tools.contains(name)
                } else {
                    asked.allowed_tools.contains(name)
                }))
            }
        },
        spawn_start(tool, ctx, Some(asked)) matches SpawnStartView::Dispatch(request) ==> {
            &&& asked.agent_definition_id is None ==> request.allowed_tools == asked.allowed_tools
            &&& asked.agent_definition_id matches Some(id) ==> {
                &&& ctx.agent_definitions.find(id) matches Some(def)
                &&& request.allowed_tools.contains(name) <==> (!def.disallowed_tools.contains(name)
                    && (if asked.allowed_tools.len() == 0 {
                    def.tools.contains(name)
                } else {
                    asked.allowed_tools.contains(name)
                }))
            }
        },
{
    assert(seq!["spawn"@][0] == "spawn"@);
    assert(seq!["spawn"@, "send_file"@][0] == "spawn"@);
    if let Some(id) = asked.agent_definition_id {
        if let Some(def) = ctx.agent_definitions.find(id) {
            let listed = if asked.allowed_tools.len() == 0 {
                def.tools
            } else {
                asked.allowed_tools
            };
            crate::text::lemma_filter_holds(
                listed,
                |t: Text| !def.disallowed_tools.contains(t),
                name,
            );
        }
    }
}

/// A worker whose workflow must end with a presentation or a site may not send
/// files itself; any other may.
pub proof fn contracts_own_their_delivery(tool: SpawnTool, ctx: ToolContext, asked: SpawnInputView)
    ensures
        spawn_start(tool, ctx, Some(asked)) matches SpawnStartView::Run(plan) ==> (
        plan.tool_policy.deny.contains("send_file"@) <==> (asked.workflow matches Some(workflow)
            && workflow.terminal matches Some(rules) && (rules.kind == "presentation"@ || rules.kind
            == "site"@))),
{
    reveal_strlit("spawn");
    reveal_strlit("send_file");
    assert("spawn"@.len() == 5 && "send_file"@.len() == 9);
    assert(seq!["spawn"@, "send_file"@][1] == "send_file"@);
}

/// A worker runs on the model that the request names, else on that of the agent
/// definition; without a router no model can be chosen, and without a name the
/// parent's is used. A context window that the request names wins over the
/// default of the model.
pub proof fn workers_run_on_the_model_that_was_asked_for(
    tool: SpawnTool,
    ctx: ToolContext,
    asked: SpawnInputView,
)
    ensures
        spawn_start(tool, ctx, Some(asked)) matches SpawnStartView::Run(plan) ==> {
            &&& tool.models is None ==> plan.provider.model is None
            &&& tool.models is Some && asked.model is Some ==> plan.provider.model == asked.model
            &&& tool.models is Some && asked.model is None && asked.agent_definition_id is None
                ==> plan.provider.model is None
            &&& tool.models is Some && asked.model is None ==> (asked.agent_definition_id matches Some(
                id,
            ) ==> {
                &&& ctx.agent_definitions.find(id) matches Some(def)
                &&& plan.provider.model == def.model
            })
            &&& asked.context_window is Some ==> plan.provider.window == asked.context_window
            &&& asked.context_window is None && plan.provider.model is None
                ==> plan.provider.window is None
        },
        spawn_start(tool, ctx, Some(asked)) matches SpawnStartView::Dispatch(request) ==> {
            &&& asked.model matches Some(model) ==> request.model == model
            &&& asked.model is None && asked.agent_definition_id is None ==> request.model
                == "unknown-model"@
        },
{
}

/// The default window of a model is that of the first model of the router whose
/// key stands before the first slash of its name.
pub proof fn windows_come_from_the_named_model(models: Seq<ModelInfo>, key: Text, k: int)
    requires
        0 <= k < models.len(),
        models[k].key@ == key,
        forall|j: int| 0 <= j < k ==> (#[trigger] models[j]).key@ != key,
    ensures
        default_window(models, key) == models[k].default_context_window,
    decreases k,
{
    if k > 0 {
        assert(models[0].key@ != key);
        let rest = models.drop_first();
        assert forall|j: int| 0 <= j < k - 1 implies (#[trigger] rest[j]).key@ != key by {
            assert(rest[j] == models[j + 1]);
        }
        windows_come_from_the_named_model(rest, key, k - 1);
    }
}

/// The key of a model name is its beginning, up to the first slash.
pub proof fn keys_end_at_the_first_slash(key: Text, rest: Text)
    requires
        !key.contains('/'),
    ensures
        model_key(key) == key,
        model_key(key.push('/') + rest) == key,
    decreases rest.len(),
{
    crate::text_laws::lemma_unsplit(key, '/');
    let whole = key.push('/') + rest;
    crate::text::lemma_split_pieces(whole.drop_last(), '/');
    if rest.len() == 0 {
        assert(whole =~= key.push('/'));
        assert(whole.drop_last() =~= key);
    } else {
        keys_end_at_the_first_slash(key, rest.drop_last());
        assert(whole.drop_last() =~= key.push('/') + rest.drop_last());
        crate::text_laws::lemma_split_at_least_two(key, '/', rest.drop_last());
    }
}

/// Two workers that are started one after the other never have the same id.
pub proof fn workers_have_different_ids(m: u32, n: u32)
    ensures
        worker_id(m) == worker_id(n) <==> m == n,
        "subagent-"@.is_prefix_of(worker_id(m)),
{
    lemma_two_parts("subagent-"@, decimal(m as nat));
    lemma_two_parts("subagent-"@, decimal(n as nat));
    if worker_id(m) == worker_id(n) {
        let k = "subagent-"@.len() as int;
        assert(decimal(m as nat) =~= worker_id(m).skip(k));
        assert(decimal(n as nat) =~= worker_id(n).skip(k));
        decimals_tell_numbers_apart(m as nat, n as nat);
    }
}

} // verus!
