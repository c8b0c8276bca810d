//! What a caller asks of `spawn`, and how agent definitions fill it in.
use vstd::prelude::*;
use vstd::string::*;

use crate::agents::{field_name, field_text, AgentDefinitionView, AgentDefinitions, UnenforcedField};
use crate::policy::{ToolPolicy, ToolPolicyView};
use crate::text::{
    copy_list, copy_opt, in_list, join, joined, lemma_texts_push, opt_text, texts, Text,
};
use crate::workflow::{contract_owned, workflow_uses_contract_terminal_delivery, workflow_view, WorkflowMetadata, WorkflowView};

verus! {

/// The arguments of `spawn`.
#[derive(Debug)]
pub struct SpawnInput {
    pub task: String,
    pub label: Option<String>,
    /// `background` or `sync`.
    pub mode: String,
    /// The tools the child may use; empty stands for all.
    pub allowed_tools: Vec<String>,
    /// Put before the task.
    pub context: Option<String>,
    pub model: Option<String>,
    pub context_window: Option<u32>,
    /// Put after the child's system prompt.
    pub additional_instructions: Option<String>,
    pub workflow: Option<WorkflowMetadata>,
    /// `builtin` or `agent_mcp`.
    pub backend: String,
    pub agent_mcp_tool_name: Option<String>,
    /// The agent definition that fills in what is missing here.
    pub agent_definition_id: Option<String>,
}

#[verifier::ext_equal]
pub struct SpawnInputView {
    pub task: Text,
    pub label: Option<Text>,
    pub mode: Text,
    pub allowed_tools: Seq<Text>,
    pub context: Option<Text>,
    pub model: Option<Text>,
    pub context_window: Option<u32>,
    pub additional_instructions: Option<Text>,
    pub workflow: Option<WorkflowView>,
    pub backend: Text,
    pub agent_mcp_tool_name: Option<Text>,
    pub agent_definition_id: Option<Text>,
}

impl View for SpawnInput {
    type V = SpawnInputView;

    open spec fn view(&self) -> SpawnInputView {
        SpawnInputView {
            task: self.task@,
            label: opt_text(self.label),
            mode: self.mode@,
            allowed_tools: texts(self.allowed_tools@),
            context: opt_text(self.context),
            model: opt_text(self.model),
            context_window: self.context_window,
            additional_instructions: opt_text(self.additional_instructions),
            workflow: match self.workflow {
                Some(w) => Some(w@),
                None => None,
            },
            backend: self.backend@,
            agent_mcp_tool_name: opt_text(self.agent_mcp_tool_name),
            agent_definition_id: opt_text(self.agent_definition_id),
        }
    }
}

/// The backend when none is named.
pub fn default_backend() -> (r: String)
    ensures
        r@ == "builtin"@,
{
    "builtin".to_owned()
}

/// The mode when none is named.
pub fn default_mode() -> (r: String)
    ensures
        r@ == "background"@,
{
    "background".to_owned()
}

impl SpawnInput {
    /// A request with nothing but a task.
    pub fn for_task(task: &str) -> (r: SpawnInput)
        ensures
            r@ == plain_request(task@),
    {
        let r = SpawnInput {
            task: task.to_owned(),
            label: None,
            mode: default_mode(),
            allowed_tools: Vec::new(),
            context: None,
            model: None,
            context_window: None,
            additional_instructions: None,
            workflow: None,
            backend: default_backend(),
            agent_mcp_tool_name: None,
            agent_definition_id: None,
        };
        proof {
            assert(r@ =~= plain_request(task@));
        }
        r
    }
}

pub open spec fn plain_request(task: Text) -> SpawnInputView {
    SpawnInputView {
        task,
        label: None,
        mode: "background"@,
        allowed_tools: Seq::empty(),
        context: None,
        model: None,
        context_window: None,
        additional_instructions: None,
        workflow: None,
        backend: "builtin"@,
        agent_mcp_tool_name: None,
        agent_definition_id: None,
    }
}

// ---------------------------------------------------------------------------
// Agent definitions
// ---------------------------------------------------------------------------

/// A request with what a definition fills in. What the request says itself
/// stays, except for tools that the definition disallows.
pub open spec fn filled_in(input: SpawnInputView, def: AgentDefinitionView) -> SpawnInputView {
    let listed = if input.allowed_tools.len() == 0 {
        def.tools
    } else {
        input.allowed_tools
    };
    SpawnInputView {
        allowed_tools: listed.filter(|name: Text| !def.disallowed_tools.contains(name)),
        model: if input.model is None {
            def.model
        } else {
            input.model
        },
        ..input
    }
}

pub open spec fn unknown_definition_text(id: Text, ids: Seq<Text>) -> Text {
    "spawn: agent_definition_id '"@ + id + "' not found in registry; available: ["@ + joined(ids, ", "@) + "]"@
}

/// Field names as a list of quoted names.
pub open spec fn quoted_names(fields: Seq<UnenforcedField>) -> Seq<Text> {
    fields.map_values(|f: UnenforcedField| "\""@ + field_text(f) + "\""@)
}

pub open spec fn unenforced_text(def: AgentDefinitionView) -> Text {
    "spawn: agent_definition_id '"@ + def.name + "' sets unimplemented fields ["@ + joined(
        quoted_names(def.unenforced),
        ", "@,
    ) + "]; remove them from the manifest until the runtime wires them in"@
}

fn quote_fields(fields: &[UnenforcedField]) -> (out: Vec<String>)
    ensures
        texts(out@) == quoted_names(fields@),
{
    let ghost all = quoted_names(fields@);
    let mut out: Vec<String> = Vec::new();
    let mut i: usize = 0;
    while i < fields.len()
        invariant
            i <= fields.len(),
            all == quoted_names(fields@),
            texts(out@) == all.take(i as int),
        decreases fields.len() - i,
    {
        let mut one = "\"".to_owned();
        one.append(field_name(fields[i]));
        one.append("\"");
        proof {
            lemma_texts_push(out@, one);
            assert(all.take(i + 1) =~= all.take(i as int).push(one@));
        }
        out.push(one);
        i += 1;
    }
    proof {
        assert(all.take(all.len() as int) =~= all);
    }
    out
}

/// The names of a list that are not in another.
fn without(list: &[String], dropped: &[String]) -> (out: Vec<String>)
    ensures
        texts(out@) == texts(list@).filter(|name: Text| !texts(dropped@).contains(name)),
{
    let ghost all = texts(list@);
    let ghost pred = |name: Text| !texts(dropped@).contains(name);
    let mut out: Vec<String> = Vec::new();
    let mut i: usize = 0;
    proof {
        assert(all.take(0).filter(pred) =~= Seq::empty());
        assert(texts(out@) =~= Seq::empty());
    }
    while i < list.len()
        invariant
            i <= list.len(),
            all == texts(list@),
            pred == (|name: Text| !texts(dropped@).contains(name)),
            texts(out@) == all.take(i as int).filter(pred),
        decreases list.len() - i,
    {
        proof {
            assert(all.take(i + 1) =~= all.take(i as int).push(list@[i as int]@));
            all.take(i as int).lemma_filter_push(list@[i as int]@, pred);
            lemma_texts_push(out@, list@[i as int]);
        }
        if !in_list(dropped, list[i].as_str()) {
            out.push(list[i].clone());
        }
        i += 1;
    }
    proof {
        assert(all.take(all.len() as int) =~= all);
    }
    out
}

/// Fills a request in from the agent definition that it names. An unknown id
/// is an error and leaves the request as it was; so is a definition with
/// settings that nothing enforces, after the request has been filled in.
pub fn apply_agent_definition(input: &mut SpawnInput, registry: &AgentDefinitions) -> (r: Result<
    (),
    String,
>)
    ensures
        match old(input)@.agent_definition_id {
            None => r is Ok && final(input)@ == old(input)@,
            Some(id) => match registry.find(id) {
                None => {
                    &&& r matches Err(e) && e@ == unknown_definition_text(id, registry.order())
                    &&& final(input)@ == old(input)@
                },
                Some(def) => {
                    &&& final(input)@ == filled_in(old(input)@, def)
                    &&& if def.unenforced.len() == 0 {
                        r is Ok
                    } else {
                        r matches Err(e) && e@ == unenforced_text(def)
                    }
                },
            },
        },
{
    let id = match &input.agent_definition_id {
        Some(id) => id.clone(),
        None => {
            return Ok(());
        },
    };
    let def = match registry.get(id.as_str()) {
        Some(def) => def,
        None => {
            let ids = registry.ids();
            let list = join(ids.as_slice(), ", ");
            let mut e = "spawn: agent_definition_id '".to_owned();
            e.append(id.as_str());
            e.append("' not found in registry; available: [");
            e.append(list.as_str());
            e.append("]");
            return Err(e);
        },
    };
    let listed = if input.allowed_tools.len() == 0 {
        copy_list(def.tools.as_slice())
    } else {
        copy_list(input.allowed_tools.as_slice())
    };
    input.allowed_tools = without(listed.as_slice(), def.disallowed_tools.as_slice());
    if input.model.is_none() {
        input.model = copy_opt(&def.model);
    }
    proof {
        assert(input@ =~= filled_in(old(input)@, def@));
    }
    if def.unenforced.len() > 0 {
        let names = quote_fields(def.unenforced.as_slice());
        let list = join(names.as_slice(), ", ");
        let mut e = "spawn: agent_definition_id '".to_owned();
        e.append(def.name.as_str());
        e.append("' sets unimplemented fields [");
        e.append(list.as_str());
        e.append("]; remove them from the manifest until the runtime wires them in");
        return Err(e);
    }
    Ok(())
}

/// A tool that the definition disallows never ends up allowed, and inline
/// settings win over the definition.
pub proof fn definition_limits_and_inline_wins(
    input: SpawnInputView,
    def: AgentDefinitionView,
    tool: Text,
)
    ensures
        def.disallowed_tools.contains(tool) ==> !filled_in(input, def).allowed_tools.contains(tool),
        input.model is Some ==> filled_in(input, def).model == input.model,
        input.allowed_tools.len() > 0 && input.allowed_tools.contains(tool)
            && !def.disallowed_tools.contains(tool) ==> filled_in(input, def).allowed_tools.contains(tool),
        input.allowed_tools.len() > 0 && filled_in(input, def).allowed_tools.contains(tool)
            ==> input.allowed_tools.contains(tool),
{
    let listed = if input.allowed_tools.len() == 0 {
        def.tools
    } else {
        input.allowed_tools
    };
    let pred = |name: Text| !def.disallowed_tools.contains(name);
    let kept = listed.filter(pred);
    if kept.contains(tool) {
        listed.lemma_filter_contains_rev(pred, tool);
        let i = choose|i: int| 0 <= i < kept.len() && kept[i] == tool;
        listed.lemma_filter_pred(pred, i);
    }
    if listed.contains(tool) && pred(tool) {
        let i = choose|i: int| 0 <= i < listed.len() && listed[i] == tool;
        listed.lemma_filter_contains(pred, i);
    }
}

// ---------------------------------------------------------------------------
// Derived texts
// ---------------------------------------------------------------------------

/// The label of a task: the given one, or the first 60 characters of the task.
pub open spec fn label_of(input: SpawnInputView) -> Text {
    match input.label {
        Some(label) => label,
        None => if input.task.len() <= 60 {
            input.task
        } else {
            input.task.subrange(0, 60)
        },
    }
}

pub fn task_label(input: &SpawnInput) -> (r: String)
    ensures
        r@ == label_of(input@),
{
    match &input.label {
        Some(label) => label.clone(),
        None => {
            let n = input.task.as_str().unicode_len();
            if n <= 60 {
                input.task.clone()
            } else {
                input.task.as_str().substring_char(0, 60).to_owned()
            }
        },
    }
}

/// The task with the context put before it.
pub open spec fn description_of(input: SpawnInputView) -> Text {
    match input.context {
        Some(context) => context + "\n\n"@ + input.task,
        None => input.task,
    }
}

pub fn task_description(input: &SpawnInput) -> (r: String)
    ensures
        r@ == description_of(input@),
{
    match &input.context {
        Some(context) => {
            let mut r = context.clone();
            r.append("\n\n");
            r.append(input.task.as_str());
            r
        },
        None => input.task.clone(),
    }
}

/// A system prompt with additional instructions after it.
pub open spec fn prompt_with(base: Text, extra: Option<Text>) -> Text {
    match extra {
        Some(more) => if more.len() > 0 {
            base + "\n\n"@ + more
        } else {
            base
        },
        None => base,
    }
}

pub fn worker_system_prompt(base: &str, extra: &Option<String>) -> (r: String)
    ensures
        r@ == prompt_with(base@, opt_text(*extra)),
{
    let mut r = base.to_owned();
    match extra {
        Some(more) => {
            if !more.as_str().is_empty() {
                r.append("\n\n");
                r.append(more.as_str());
            }
        },
        None => {},
    }
    r
}

/// Additional instructions never replace the base prompt.
pub proof fn base_prompt_is_kept(base: Text, extra: Option<Text>)
    ensures
        base.is_prefix_of(prompt_with(base, extra)),
{
    let whole = prompt_with(base, extra);
    assert(base =~= whole.subrange(0, base.len() as int));
}

// ---------------------------------------------------------------------------
// The child's tool policy
// ---------------------------------------------------------------------------

/// A child may not spawn. Where a contract owns the delivery, it may not send
/// files either.
pub open spec fn child_policy(allowed: Seq<Text>, workflow: Option<WorkflowView>) -> ToolPolicyView {
    ToolPolicyView {
        allow: allowed,
        deny: if workflow is Some && contract_owned(workflow->0) {
            seq!["spawn"@, "send_file"@]
        } else {
            seq!["spawn"@]
        },
        require_tags: Seq::empty(),
    }
}

pub fn build_subagent_tool_policy(allowed_tools: Vec<String>, workflow: Option<&WorkflowMetadata>) -> (r:
    ToolPolicy)
    ensures
        r@ == child_policy(texts(allowed_tools@), workflow_view(workflow)),
{
    let mut deny: Vec<String> = Vec::new();
    deny.push("spawn".to_owned());
    proof {
        assert(texts(deny@) =~= seq!["spawn"@]);
    }
    match workflow {
        Some(w) => {
            if workflow_uses_contract_terminal_delivery(w) {
                deny.push("send_file".to_owned());
                proof {
                    assert(texts(deny@) =~= seq!["spawn"@, "send_file"@]);
                }
            }
        },
        None => {},
    }
    let r = ToolPolicy { allow: allowed_tools, deny, require_tags: Vec::new() };
    proof {
        assert(r@ =~= child_policy(texts(allowed_tools@), workflow_view(workflow)));
    }
    r
}

// ---------------------------------------------------------------------------
// Recovery
// ---------------------------------------------------------------------------

/// What a worker is told after its first attempt failed.
pub open spec fn recovery_text(task: Text, error: Text) -> Text {
    "[system-internal] Your previous attempt at the task below failed.\nOriginal task: "@ + task
        + "\nFailure: "@ + error
        + "\n\nRe-attempt the task. Diagnose the root cause from the failure text, pick a different strategy if appropriate (different tool, different inputs, a smaller scope), and either complete the task or end with a clear explanation of why the task cannot be completed. Do not repeat the same failing step verbatim."@
}

pub fn build_spawn_recovery_prompt(task_desc: &str, error_message: &str) -> (r: String)
    ensures
        r@ == recovery_text(task_desc@, error_message@),
{
    let mut r = "[system-internal] Your previous attempt at the task below failed.\nOriginal task: ".to_owned();
    r.append(task_desc);
    r.append("\nFailure: ");
    r.append(error_message);
    r.append(
        "\n\nRe-attempt the task. Diagnose the root cause from the failure text, pick a different strategy if appropriate (different tool, different inputs, a smaller scope), and either complete the task or end with a clear explanation of why the task cannot be completed. Do not repeat the same failing step verbatim.",
    );
    r
}

} // verus!
