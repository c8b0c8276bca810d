//! The JSON schemas of the arguments that the tools take.
use vstd::prelude::*;
use vstd::string::*;

use crate::json::{members_view, put, str_array, str_array_view, str_value, Json, JsonMember, JsonView};
use crate::spawn::{ModelInfo, SpawnTool};
use crate::text::{decimal, join, joined, lemma_texts_push, render, texts, Text};

verus! {

pub const TASK_TEXT: &'static str = "The task for the subagent to complete";

pub const LABEL_TEXT: &'static str = "Optional short label for display";

pub const MODE_TEXT: &'static str = "background: returns immediately, result announced later. sync: waits and returns the result.";

pub const ALLOWED_TOOLS_TEXT: &'static str = "Tool names the subagent may use. Empty = all builtins.";

pub const CONTEXT_TEXT: &'static str = "Extra context prepended to the task prompt.";

pub const CONTEXT_WINDOW_TEXT: &'static str = "Override the context window size (tokens) for the subagent.";

pub const INSTRUCTIONS_TEXT: &'static str = "Extra instructions appended to the subagent's system prompt. Use to specialize behavior (e.g. 'Focus on OWASP Top 10 security issues.'). Cannot override or replace the base system prompt.";

pub const WORKFLOW_TEXT: &'static str = "Optional structured workflow metadata for runtime-owned background workflows.";

pub const WORKFLOW_KIND_TEXT: &'static str = "Stable workflow family identifier.";

pub const CURRENT_PHASE_TEXT: &'static str = "Current workflow phase.";

pub const WORKFLOW_TOOLS_TEXT: &'static str = "Workflow-owned tool allowlist snapshot.";

pub const TERMINAL_OUTPUT_TEXT: &'static str = "Runtime-owned final output policy for workflow families.";

pub const BACKEND_TEXT: &'static str = "Sub-agent backend. 'builtin' runs an in-process Agent (default). 'agent_mcp' dispatches to the configured MCP agent backend (Codex / hermes / jiuwenclaw) so the sub-agent's internal tool calls never leak back to the parent context.";

pub const MCP_TOOL_TEXT: &'static str = "Override the MCP tool name dispatched on the remote agent when backend='agent_mcp'. Defaults to 'run_task'.";

pub const DEFINITION_TEXT: &'static str = "Optional id of an AgentDefinition manifest (see crates/octos-agent/src/agents). The manifest's fields (tools, model, max_turns, etc.) become defaults for this spawn; any inline field on the spawn args overrides the manifest (inline wins).";

pub const MODEL_NO_ROUTER_TEXT: &'static str = "Prefixed model ID for the subagent (e.g. 'anthropic/haiku'). Requires a provider router.";

pub const MODEL_NONE_TEXT: &'static str = "Prefixed model ID for the subagent. No sub-providers currently configured.";

pub const MODEL_LIST_TEXT: &'static str = "Model key for the subagent. Available models:";

pub const ACT_TOOLS_TEXT: &'static str = "Tool names to activate (e.g. [\"fm_tts\", \"voice_synthesize\"]). Call with no args to list available deferred tools.";

pub const ACT_GROUP_TEXT: &'static str = "Alternatively, a group name to activate all tools in it (e.g. 'group:memory').";

pub const SK_ACTION_TEXT: &'static str = "Action to perform";

pub const SK_REPO_TEXT: &'static str = "GitHub path user/repo or user/repo/skill-name (required for install)";

pub const SK_NAME_TEXT: &'static str = "Skill name (required for remove)";

pub const SK_QUERY_TEXT: &'static str = "Search query (optional for search)";

pub const SK_FORCE_TEXT: &'static str = "Overwrite existing skills (for install, default false)";

pub const SK_BRANCH_TEXT: &'static str = "Git branch or tag (default: main)";

pub const RT_HANDLE_TEXT: &'static str = "The task_handle returned by a spawn_only tool's task_handle field.";

pub const RT_MODE_TEXT: &'static str = "Inspection mode. Default: {\"kind\":\"head\",\"lines\":50}.";

pub const SF_PATH_TEXT: &'static str = "Absolute path to the file to send";

pub const SF_CAPTION_TEXT: &'static str = "Optional caption/description for the file";

pub const SF_CHANNEL_TEXT: &'static str = "Target channel. Defaults to current.";

pub const SF_CHAT_TEXT: &'static str = "Target chat/user ID. Defaults to current.";

// ---------------------------------------------------------------------------
// Building blocks
// ---------------------------------------------------------------------------

/// A property with a type and a description.
pub open spec fn described(kind: Text, description: Text) -> JsonView {
    JsonView::Object(
        seq![("type"@, JsonView::Str(kind)), ("description"@, JsonView::Str(description))],
    )
}

/// A property with nothing but a type.
pub open spec fn bare(kind: Text) -> JsonView {
    JsonView::Object(seq![("type"@, JsonView::Str(kind))])
}

/// A list of strings.
pub open spec fn string_list(description: Text) -> JsonView {
    JsonView::Object(
        seq![
            ("type"@, JsonView::Str("array"@)),
            ("items"@, bare("string"@)),
            ("description"@, JsonView::Str(description)),
        ],
    )
}

/// A string out of a few, with a description.
pub open spec fn choice(options: Seq<Text>, description: Text) -> JsonView {
    JsonView::Object(
        seq![
            ("type"@, JsonView::Str("string"@)),
            ("enum"@, str_array_view(options)),
            ("description"@, JsonView::Str(description)),
        ],
    )
}

/// A string out of a few, with a description and a default.
pub open spec fn choice_or(options: Seq<Text>, description: Text, default: Text) -> JsonView {
    JsonView::Object(
        seq![
            ("type"@, JsonView::Str("string"@)),
            ("enum"@, str_array_view(options)),
            ("description"@, JsonView::Str(description)),
            ("default"@, JsonView::Str(default)),
        ],
    )
}

/// An object with properties.
pub open spec fn object_of(properties: Seq<(Text, JsonView)>) -> JsonView {
    JsonView::Object(
        seq![("type"@, JsonView::Str("object"@)), ("properties"@, JsonView::Object(properties))],
    )
}

/// An object with properties, some of them required.
pub open spec fn object_with(properties: Seq<(Text, JsonView)>, required: Seq<Text>) -> JsonView {
    JsonView::Object(
        seq![
            ("type"@, JsonView::Str("object"@)),
            ("properties"@, JsonView::Object(properties)),
            ("required"@, str_array_view(required)),
        ],
    )
}

fn describe(kind: &str, description: &str) -> (r: Json)
    ensures
        r@ == described(kind@, description@),
{
    let mut m: Vec<JsonMember> = Vec::new();
    put(&mut m, "type", str_value(kind));
    put(&mut m, "description", str_value(description));
    proof {
        assert(members_view(m@) =~= described(kind@, description@)->Object_0);
    }
    Json::Object(m)
}

fn type_only(kind: &str) -> (r: Json)
    ensures
        r@ == bare(kind@),
{
    let mut m: Vec<JsonMember> = Vec::new();
    put(&mut m, "type", str_value(kind));
    proof {
        assert(members_view(m@) =~= bare(kind@)->Object_0);
    }
    Json::Object(m)
}

fn list_of_strings(description: &str) -> (r: Json)
    ensures
        r@ == string_list(description@),
{
    let mut m: Vec<JsonMember> = Vec::new();
    put(&mut m, "type", str_value("array"));
    put(&mut m, "items", type_only("string"));
    put(&mut m, "description", str_value(description));
    proof {
        assert(members_view(m@) =~= string_list(description@)->Object_0);
    }
    Json::Object(m)
}

fn choose_from(options: &[String], description: &str) -> (r: Json)
    ensures
        r@ == choice(texts(options@), description@),
{
    let mut m: Vec<JsonMember> = Vec::new();
    put(&mut m, "type", str_value("string"));
    put(&mut m, "enum", str_array(options));
    put(&mut m, "description", str_value(description));
    proof {
        assert(members_view(m@) =~= choice(texts(options@), description@)->Object_0);
    }
    Json::Object(m)
}

fn choose_from_or(options: &[String], description: &str, default: &str) -> (r: Json)
    ensures
        r@ == choice_or(texts(options@), description@, default@),
{
    let mut m: Vec<JsonMember> = Vec::new();
    put(&mut m, "type", str_value("string"));
    put(&mut m, "enum", str_array(options));
    put(&mut m, "description", str_value(description));
    put(&mut m, "default", str_value(default));
    proof {
        assert(members_view(m@) =~= choice_or(texts(options@), description@, default@)->Object_0);
    }
    Json::Object(m)
}

fn object(properties: Vec<JsonMember>) -> (r: Json)
    ensures
        r@ == object_of(members_view(properties@)),
{
    let mut m: Vec<JsonMember> = Vec::new();
    put(&mut m, "type", str_value("object"));
    put(&mut m, "properties", Json::Object(properties));
    proof {
        assert(members_view(m@) =~= object_of(members_view(properties@))->Object_0);
    }
    Json::Object(m)
}

fn object_requiring(properties: Vec<JsonMember>, required: &[String]) -> (r: Json)
    ensures
        r@ == object_with(members_view(properties@), texts(required@)),
{
    let mut m: Vec<JsonMember> = Vec::new();
    put(&mut m, "type", str_value("object"));
    put(&mut m, "properties", Json::Object(properties));
    put(&mut m, "required", str_array(required));
    proof {
        assert(members_view(m@) =~= object_with(
            members_view(properties@),
            texts(required@),
        )->Object_0);
    }
    Json::Object(m)
}

fn names1(a: &str) -> (r: Vec<String>)
    ensures
        texts(r@) == seq![a@],
{
    let mut r: Vec<String> = Vec::new();
    r.push(a.to_owned());
    proof {
        assert(texts(r@) =~= seq![a@]);
    }
    r
}

fn names2(a: &str, b: &str) -> (r: Vec<String>)
    ensures
        texts(r@) == seq![a@, b@],
{
    let mut r: Vec<String> = Vec::new();
    r.push(a.to_owned());
    r.push(b.to_owned());
    proof {
        assert(texts(r@) =~= seq![a@, b@]);
    }
    r
}

fn names5(a: &str, b: &str, c: &str, d: &str, e: &str) -> (r: Vec<String>)
    ensures
        texts(r@) == seq![a@, b@, c@, d@, e@],
{
    let mut r: Vec<String> = Vec::new();
    r.push(a.to_owned());
    r.push(b.to_owned());
    r.push(c.to_owned());
    r.push(d.to_owned());
    r.push(e.to_owned());
    proof {
        assert(texts(r@) =~= seq![a@, b@, c@, d@, e@]);
    }
    r
}

// ---------------------------------------------------------------------------
// spawn
// ---------------------------------------------------------------------------

/// The line that describes a model.
pub open spec fn model_line(m: ModelInfo) -> Text {
    let head = "- '"@ + m.key@ + "': "@ + m.model_id@ + " ("@ + m.provider_name@ + ")"@;
    let priced = match m.cost_info {
        Some(cost) => head + ", "@ + cost@,
        None => head,
    };
    let sized = priced + ", "@ + decimal((m.context_window / 1000) as nat) + "k max ctx"@ + ", "@ + decimal(
        (m.max_output_tokens / 1000) as nat,
    ) + "k max output"@;
    let budgeted = match m.default_context_window {
        Some(window) => sized + ", "@ + decimal((window / 1000) as nat) + "k default budget"@,
        None => sized,
    };
    match m.description {
        Some(text) => budgeted + ". "@ + text@,
        None => budgeted,
    }
}

pub open spec fn model_lines(models: Seq<ModelInfo>) -> Seq<Text>
    decreases models.len(),
{
    if models.len() == 0 {
        seq![model_list_head()]
    } else {
        model_lines(models.drop_last()).push(model_line(models.last()))
    }
}

pub open spec fn model_list_head() -> Text {
    MODEL_LIST_TEXT@
}

/// A model is chosen by its key, alone or with the model's id.
pub open spec fn model_choices(models: Seq<ModelInfo>) -> Seq<Text>
    decreases models.len(),
{
    if models.len() == 0 {
        Seq::empty()
    } else {
        model_choices(models.drop_last()).push(models.last().key@).push(
            models.last().key@ + "/"@ + models.last().model_id@,
        )
    }
}

/// The property by which a model is chosen.
pub open spec fn model_property(models: Option<Vec<ModelInfo>>) -> JsonView {
    match models {
        None => described("string"@, MODEL_NO_ROUTER_TEXT@),
        Some(list) => if list@.len() == 0 {
            described("string"@, MODEL_NONE_TEXT@)
        } else {
            JsonView::Object(
                seq![
                    ("type"@, JsonView::Str("string"@)),
                    ("description"@, JsonView::Str(joined(model_lines(list@), "\n"@))),
                    ("enum"@, str_array_view(model_choices(list@))),
                ],
            )
        },
    }
}

pub open spec fn workflow_property() -> JsonView {
    let terminal = JsonView::Object(
        seq![
            ("type"@, JsonView::Str("object"@)),
            ("description"@, JsonView::Str(TERMINAL_OUTPUT_TEXT@)),
            (
                "properties"@,
                JsonView::Object(
                    seq![
                        ("deliver_final_artifact_only"@, bare("boolean"@)),
                        ("forbid_intermediate_files"@, bare("boolean"@)),
                        ("required_artifact_kind"@, bare("string"@)),
                    ],
                ),
            ),
        ],
    );
    JsonView::Object(
        seq![
            ("type"@, JsonView::Str("object"@)),
            ("description"@, JsonView::Str(WORKFLOW_TEXT@)),
            (
                "properties"@,
                JsonView::Object(
                    seq![
                        ("workflow_kind"@, described("string"@, WORKFLOW_KIND_TEXT@)),
                        ("current_phase"@, described("string"@, CURRENT_PHASE_TEXT@)),
                        ("allowed_tools"@, string_list(WORKFLOW_TOOLS_TEXT@)),
                        ("terminal_output"@, terminal),
                    ],
                ),
            ),
            ("required"@, str_array_view(seq!["workflow_kind"@, "current_phase"@])),
        ],
    )
}

/// The arguments of `spawn`.
pub open spec fn spawn_schema(models: Option<Vec<ModelInfo>>) -> JsonView {
    object_with(
        seq![
            ("task"@, described("string"@, TASK_TEXT@)),
            ("label"@, described("string"@, LABEL_TEXT@)),
            ("mode"@, choice_or(seq!["background"@, "sync"@], MODE_TEXT@, "background"@)),
            ("allowed_tools"@, string_list(ALLOWED_TOOLS_TEXT@)),
            ("context"@, described("string"@, CONTEXT_TEXT@)),
            ("model"@, model_property(models)),
            ("context_window"@, described("integer"@, CONTEXT_WINDOW_TEXT@)),
            ("additional_instructions"@, described("string"@, INSTRUCTIONS_TEXT@)),
            ("workflow"@, workflow_property()),
            ("backend"@, choice_or(seq!["builtin"@, "agent_mcp"@], BACKEND_TEXT@, "builtin"@)),
            ("agent_mcp_tool_name"@, described("string"@, MCP_TOOL_TEXT@)),
            ("agent_definition_id"@, described("string"@, DEFINITION_TEXT@)),
        ],
        seq!["task"@],
    )
}

fn describe_model(m: &ModelInfo) -> (r: String)
    ensures
        r@ == model_line(*m),
{
    let mut r = "- '".to_owned();
    r.append(m.key.as_str());
    r.append("': ");
    r.append(m.model_id.as_str());
    r.append(" (");
    r.append(m.provider_name.as_str());
    r.append(")");
    match &m.cost_info {
        Some(cost) => {
            r.append(", ");
            r.append(cost.as_str());
        },
        None => {},
    }
    let window = render((m.context_window / 1000) as u64);
    let output = render((m.max_output_tokens / 1000) as u64);
    r.append(", ");
    r.append(window.as_str());
    r.append("k max ctx");
    r.append(", ");
    r.append(output.as_str());
    r.append("k max output");
    match m.default_context_window {
        Some(w) => {
            let budget = render((w / 1000) as u64);
            r.append(", ");
            r.append(budget.as_str());
            r.append("k default budget");
        },
        None => {},
    }
    match &m.description {
        Some(text) => {
            r.append(". ");
            r.append(text.as_str());
        },
        None => {},
    }
    r
}

fn model_prop(models: &Option<Vec<ModelInfo>>) -> (r: Json)
    ensures
        r@ == model_property(*models),
{
    let list = match models {
        None => {
            return describe("string", MODEL_NO_ROUTER_TEXT);
        },
        Some(list) => list,
    };
    if list.len() == 0 {
        return describe("string", MODEL_NONE_TEXT);
    }
    let mut lines: Vec<String> = Vec::new();
    let mut choices: Vec<String> = Vec::new();
    lines.push(MODEL_LIST_TEXT.to_owned());
    proof {
        assert(texts(lines@) =~= seq![model_list_head()]);
        assert(texts(choices@) =~= Seq::empty());
    }
    let mut i: usize = 0;
    while i < list.len()
        invariant
            i <= list.len(),
            texts(lines@) == model_lines(list@.take(i as int)),
            texts(choices@) == model_choices(list@.take(i as int)),
        decreases list.len() - i,
    {
        let line = describe_model(&list[i]);
        let mut both = list[i].key.clone();
        both.append("/");
        both.append(list[i].model_id.as_str());
        proof {
            assert(list@.take(i + 1).drop_last() =~= list@.take(i as int));
            lemma_texts_push(lines@, line);
            lemma_texts_push(choices@, list@[i as int].key);
            lemma_texts_push(choices@.push(list@[i as int].key), both);
        }
        lines.push(line);
        let key = list[i].key.clone();
        proof {
            lemma_texts_push(choices@, key);
        }
        choices.push(key);
        proof {
            lemma_texts_push(choices@, both);
        }
        choices.push(both);
        i += 1;
    }
    proof {
        assert(list@.take(list@.len() as int) =~= list@);
    }
    let text = join(lines.as_slice(), "\n");
    let mut m: Vec<JsonMember> = Vec::new();
    put(&mut m, "type", str_value("string"));
    put(&mut m, "description", str_value(text.as_str()));
    put(&mut m, "enum", str_array(choices.as_slice()));
    proof {
        assert(members_view(m@) =~= model_property(*models)->Object_0);
    }
    Json::Object(m)
}

fn workflow_prop() -> (r: Json)
    ensures
        r@ == workflow_property(),
{
    let mut flags: Vec<JsonMember> = Vec::new();
    put(&mut flags, "deliver_final_artifact_only", type_only("boolean"));
    put(&mut flags, "forbid_intermediate_files", type_only("boolean"));
    put(&mut flags, "required_artifact_kind", type_only("string"));
    let ghost flag_views = seq![
        ("deliver_final_artifact_only"@, bare("boolean"@)),
        ("forbid_intermediate_files"@, bare("boolean"@)),
        ("required_artifact_kind"@, bare("string"@)),
    ];
    proof {
        assert(members_view(flags@) =~= flag_views);
    }
    let mut terminal: Vec<JsonMember> = Vec::new();
    put(&mut terminal, "type", str_value("object"));
    put(&mut terminal, "description", str_value(TERMINAL_OUTPUT_TEXT));
    put(&mut terminal, "properties", Json::Object(flags));
    let ghost terminal_views = seq![
        ("type"@, JsonView::Str("object"@)),
        ("description"@, JsonView::Str(TERMINAL_OUTPUT_TEXT@)),
        ("properties"@, JsonView::Object(flag_views)),
    ];
    proof {
        assert(members_view(terminal@) =~= terminal_views);
    }
    let mut props: Vec<JsonMember> = Vec::new();
    put(&mut props, "workflow_kind", describe("string", WORKFLOW_KIND_TEXT));
    put(&mut props, "current_phase", describe("string", CURRENT_PHASE_TEXT));
    put(&mut props, "allowed_tools", list_of_strings(WORKFLOW_TOOLS_TEXT));
    put(&mut props, "terminal_output", Json::Object(terminal));
    let ghost prop_views = seq![
        ("workflow_kind"@, described("string"@, WORKFLOW_KIND_TEXT@)),
        ("current_phase"@, described("string"@, CURRENT_PHASE_TEXT@)),
        ("allowed_tools"@, string_list(WORKFLOW_TOOLS_TEXT@)),
        ("terminal_output"@, JsonView::Object(terminal_views)),
    ];
    proof {
        assert(members_view(props@) =~= prop_views);
    }
    let needed = names2("workflow_kind", "current_phase");
    let mut m: Vec<JsonMember> = Vec::new();
    put(&mut m, "type", str_value("object"));
    put(&mut m, "description", str_value(WORKFLOW_TEXT));
    put(&mut m, "properties", Json::Object(props));
    put(&mut m, "required", str_array(needed.as_slice()));
    proof {
        assert(members_view(m@) =~= workflow_property()->Object_0);
    }
    Json::Object(m)
}

impl SpawnTool {
    /// The schema of the arguments; the models to choose from are listed in it.
    pub fn arguments_schema(&self) -> (r: Json)
        ensures
            r@ == spawn_schema(self.models),
    {
        let modes = names2("background", "sync");
        let backends = names2("builtin", "agent_mcp");
        let mut props: Vec<JsonMember> = Vec::new();
        put(&mut props, "task", describe("string", TASK_TEXT));
        put(&mut props, "label", describe("string", LABEL_TEXT));
        put(&mut props, "mode", choose_from_or(modes.as_slice(), MODE_TEXT, "background"));
        put(&mut props, "allowed_tools", list_of_strings(ALLOWED_TOOLS_TEXT));
        put(&mut props, "context", describe("string", CONTEXT_TEXT));
        put(&mut props, "model", model_prop(&self.models));
        put(&mut props, "context_window", describe("integer", CONTEXT_WINDOW_TEXT));
        put(&mut props, "additional_instructions", describe("string", INSTRUCTIONS_TEXT));
        put(&mut props, "workflow", workflow_prop());
        put(&mut props, "backend", choose_from_or(backends.as_slice(), BACKEND_TEXT, "builtin"));
        put(&mut props, "agent_mcp_tool_name", describe("string", MCP_TOOL_TEXT));
        put(&mut props, "agent_definition_id", describe("string", DEFINITION_TEXT));
        let needed = names1("task");
        proof {
            assert(members_view(props@) =~= seq![
                ("task"@, described("string"@, TASK_TEXT@)),
                ("label"@, described("string"@, LABEL_TEXT@)),
                ("mode"@, choice_or(seq!["background"@, "sync"@], MODE_TEXT@, "background"@)),
                ("allowed_tools"@, string_list(ALLOWED_TOOLS_TEXT@)),
                ("context"@, described("string"@, CONTEXT_TEXT@)),
                ("model"@, model_property(self.models)),
                ("context_window"@, described("integer"@, CONTEXT_WINDOW_TEXT@)),
                ("additional_instructions"@, described("string"@, INSTRUCTIONS_TEXT@)),
                ("workflow"@, workflow_property()),
                ("backend"@, choice_or(seq!["builtin"@, "agent_mcp"@], BACKEND_TEXT@, "builtin"@)),
                ("agent_mcp_tool_name"@, described("string"@, MCP_TOOL_TEXT@)),
                ("agent_definition_id"@, described("string"@, DEFINITION_TEXT@)),
            ]);
        }
        object_requiring(props, needed.as_slice())
    }
}

// ---------------------------------------------------------------------------
// The other tools
// ---------------------------------------------------------------------------

/// The arguments of `activate_tools`.
pub open spec fn activate_tools_schema() -> JsonView {
    object_of(seq![("tools"@, string_list(ACT_TOOLS_TEXT@)), ("group"@, described("string"@, ACT_GROUP_TEXT@))])
}

pub fn activate_tools_input_schema() -> (r: Json)
    ensures
        r@ == activate_tools_schema(),
{
    let mut props: Vec<JsonMember> = Vec::new();
    put(&mut props, "tools", list_of_strings(ACT_TOOLS_TEXT));
    put(&mut props, "group", describe("string", ACT_GROUP_TEXT));
    proof {
        assert(members_view(props@) =~= seq![
            ("tools"@, string_list(ACT_TOOLS_TEXT@)),
            ("group"@, described("string"@, ACT_GROUP_TEXT@)),
        ]);
    }
    object(props)
}

/// The arguments of `manage_skills`.
pub open spec fn manage_skills_schema() -> JsonView {
    object_with(
        seq![
            (
                "action"@,
                choice(seq!["list"@, "install"@, "update"@, "remove"@, "search"@], SK_ACTION_TEXT@),
            ),
            ("repo"@, described("string"@, SK_REPO_TEXT@)),
            ("name"@, described("string"@, SK_NAME_TEXT@)),
            ("query"@, described("string"@, SK_QUERY_TEXT@)),
            ("force"@, described("boolean"@, SK_FORCE_TEXT@)),
            ("branch"@, described("string"@, SK_BRANCH_TEXT@)),
        ],
        seq!["action"@],
    )
}

pub fn manage_skills_input_schema() -> (r: Json)
    ensures
        r@ == manage_skills_schema(),
{
    let actions = names5("list", "install", "update", "remove", "search");
    let mut props: Vec<JsonMember> = Vec::new();
    put(&mut props, "action", choose_from(actions.as_slice(), SK_ACTION_TEXT));
    put(&mut props, "repo", describe("string", SK_REPO_TEXT));
    put(&mut props, "name", describe("string", SK_NAME_TEXT));
    put(&mut props, "query", describe("string", SK_QUERY_TEXT));
    put(&mut props, "force", describe("boolean", SK_FORCE_TEXT));
    put(&mut props, "branch", describe("string", SK_BRANCH_TEXT));
    let needed = names1("action");
    proof {
        assert(members_view(props@) =~= seq![
            (
                "action"@,
                choice(seq!["list"@, "install"@, "update"@, "remove"@, "search"@], SK_ACTION_TEXT@),
            ),
            ("repo"@, described("string"@, SK_REPO_TEXT@)),
            ("name"@, described("string"@, SK_NAME_TEXT@)),
            ("query"@, described("string"@, SK_QUERY_TEXT@)),
            ("force"@, described("boolean"@, SK_FORCE_TEXT@)),
            ("branch"@, described("string"@, SK_BRANCH_TEXT@)),
        ]);
    }
    object_requiring(props, needed.as_slice())
}

/// The arguments of `send_file`.
pub open spec fn send_file_schema() -> JsonView {
    object_with(
        seq![
            ("file_path"@, described("string"@, SF_PATH_TEXT@)),
            ("caption"@, described("string"@, SF_CAPTION_TEXT@)),
            ("channel"@, described("string"@, SF_CHANNEL_TEXT@)),
            ("chat_id"@, described("string"@, SF_CHAT_TEXT@)),
        ],
        seq!["file_path"@],
    )
}

pub fn send_file_input_schema() -> (r: Json)
    ensures
        r@ == send_file_schema(),
{
    let mut props: Vec<JsonMember> = Vec::new();
    put(&mut props, "file_path", describe("string", SF_PATH_TEXT));
    put(&mut props, "caption", describe("string", SF_CAPTION_TEXT));
    put(&mut props, "channel", describe("string", SF_CHANNEL_TEXT));
    put(&mut props, "chat_id", describe("string", SF_CHAT_TEXT));
    let needed = names1("file_path");
    proof {
        assert(members_view(props@) =~= seq![
            ("file_path"@, described("string"@, SF_PATH_TEXT@)),
            ("caption"@, described("string"@, SF_CAPTION_TEXT@)),
            ("channel"@, described("string"@, SF_CHANNEL_TEXT@)),
            ("chat_id"@, described("string"@, SF_CHAT_TEXT@)),
        ]);
    }
    object_requiring(props, needed.as_slice())
}

/// An integer from 1 on, perhaps with a maximum.
pub open spec fn bounded_integer(maximum: Option<nat>) -> JsonView {
    match maximum {
        Some(n) => JsonView::Object(
            seq![
                ("type"@, JsonView::Str("integer"@)),
                ("minimum"@, JsonView::Number("1"@)),
                ("maximum"@, JsonView::Number(decimal(n))),
            ],
        ),
        None => JsonView::Object(
            seq![("type"@, JsonView::Str("integer"@)), ("minimum"@, JsonView::Number("1"@))],
        ),
    }
}

fn integer_up_to(maximum: Option<u64>) -> (r: Json)
    ensures
        r@ == bounded_integer(match maximum {
            Some(n) => Some(n as nat),
            None => None,
        }),
{
    let mut m: Vec<JsonMember> = Vec::new();
    put(&mut m, "type", str_value("integer"));
    put(&mut m, "minimum", Json::Number("1".to_owned()));
    match maximum {
        Some(n) => {
            put(&mut m, "maximum", Json::Number(render(n)));
            proof {
                assert(members_view(m@) =~= bounded_integer(Some(n as nat))->Object_0);
            }
        },
        None => {
            proof {
                assert(members_view(m@) =~= bounded_integer(None)->Object_0);
            }
        },
    }
    Json::Object(m)
}

/// The arguments of `read_task_output`, with its limits on lines and matches.
pub open spec fn read_task_output_schema(max_lines: nat, max_matches: nat) -> JsonView {
    let kinds = JsonView::Object(
        seq![
            ("type"@, JsonView::Str("string"@)),
            (
                "enum"@,
                str_array_view(seq!["head"@, "tail"@, "grep"@, "line_range"@, "file"@]),
            ),
        ],
    );
    let modes = JsonView::Object(
        seq![
            ("kind"@, kinds),
            ("lines"@, bounded_integer(Some(max_lines))),
            ("pattern"@, bare("string"@)),
            ("max_matches"@, bounded_integer(Some(max_matches))),
            ("start"@, bounded_integer(None)),
            ("end"@, bounded_integer(None)),
            ("path"@, bare("string"@)),
            ("mode"@, bare("object"@)),
        ],
    );
    JsonView::Object(
        seq![
            ("type"@, JsonView::Str("object"@)),
            ("required"@, str_array_view(seq!["task_handle"@])),
            (
                "properties"@,
                JsonView::Object(
                    seq![
                        ("task_handle"@, described("string"@, RT_HANDLE_TEXT@)),
                        (
                            "mode"@,
                            JsonView::Object(
                                seq![
                                    ("type"@, JsonView::Str("object"@)),
                                    ("description"@, JsonView::Str(RT_MODE_TEXT@)),
                                    ("properties"@, modes),
                                ],
                            ),
                        ),
                    ],
                ),
            ),
        ],
    )
}

pub fn read_task_output_input_schema(max_lines: u64, max_matches: u64) -> (r: Json)
    ensures
        r@ == read_task_output_schema(max_lines as nat, max_matches as nat),
{
    let names = names5("head", "tail", "grep", "line_range", "file");
    let mut kinds: Vec<JsonMember> = Vec::new();
    put(&mut kinds, "type", str_value("string"));
    put(&mut kinds, "enum", str_array(names.as_slice()));
    let ghost kind_views = seq![
        ("type"@, JsonView::Str("string"@)),
        ("enum"@, str_array_view(seq!["head"@, "tail"@, "grep"@, "line_range"@, "file"@])),
    ];
    proof {
        assert(members_view(kinds@) =~= kind_views);
    }
    let mut modes: Vec<JsonMember> = Vec::new();
    put(&mut modes, "kind", Json::Object(kinds));
    put(&mut modes, "lines", integer_up_to(Some(max_lines)));
    put(&mut modes, "pattern", type_only("string"));
    put(&mut modes, "max_matches", integer_up_to(Some(max_matches)));
    put(&mut modes, "start", integer_up_to(None));
    put(&mut modes, "end", integer_up_to(None));
    put(&mut modes, "path", type_only("string"));
    put(&mut modes, "mode", type_only("object"));
    let ghost mode_views = seq![
        ("kind"@, JsonView::Object(kind_views)),
        ("lines"@, bounded_integer(Some(max_lines as nat))),
        ("pattern"@, bare("string"@)),
        ("max_matches"@, bounded_integer(Some(max_matches as nat))),
        ("start"@, bounded_integer(None)),
        ("end"@, bounded_integer(None)),
        ("path"@, bare("string"@)),
        ("mode"@, bare("object"@)),
    ];
    proof {
        assert(members_view(modes@) =~= mode_views);
    }
    let mut mode: Vec<JsonMember> = Vec::new();
    put(&mut mode, "type", str_value("object"));
    put(&mut mode, "description", str_value(RT_MODE_TEXT));
    put(&mut mode, "properties", Json::Object(modes));
    let ghost mode_prop = seq![
        ("type"@, JsonView::Str("object"@)),
        ("description"@, JsonView::Str(RT_MODE_TEXT@)),
        ("properties"@, JsonView::Object(mode_views)),
    ];
    proof {
        assert(members_view(mode@) =~= mode_prop);
    }
    let mut props: Vec<JsonMember> = Vec::new();
    put(&mut props, "task_handle", describe("string", RT_HANDLE_TEXT));
    put(&mut props, "mode", Json::Object(mode));
    let ghost prop_views = seq![
        ("task_handle"@, described("string"@, RT_HANDLE_TEXT@)),
        ("mode"@, JsonView::Object(mode_prop)),
    ];
    proof {
        assert(members_view(props@) =~= prop_views);
    }
    let needed = names1("task_handle");
    let mut m: Vec<JsonMember> = Vec::new();
    put(&mut m, "type", str_value("object"));
    put(&mut m, "required", str_array(needed.as_slice()));
    put(&mut m, "properties", Json::Object(props));
    proof {
        assert(members_view(m@) =~= read_task_output_schema(
            max_lines as nat,
            max_matches as nat,
        )->Object_0);
    }
    Json::Object(m)
}

} // verus!
