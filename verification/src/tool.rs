//! What every tool says about itself.
use vstd::prelude::*;

use crate::activate_tools::{ActivateToolsTool, ACTIVATE_TOOLS_NAME, ACTIVATE_TOOLS_TEXT};
use crate::context::ConcurrencyClass;
use crate::json::Json;
use crate::manage_skills::ManageSkillsTool;
use crate::read_task_output::{ReadTaskOutputTool, MAX_GREP_MATCHES, MAX_LINE_LIMIT};
use crate::schemas::{
    activate_tools_input_schema, activate_tools_schema, manage_skills_input_schema,
    manage_skills_schema, read_task_output_input_schema, read_task_output_schema,
    send_file_input_schema, send_file_schema, spawn_schema,
};
use crate::send_file::SendFileTool;
use crate::spawn::SpawnTool;
use crate::text::texts;

verus! {

/// A tool as it presents itself. Tools without tags pass every tag filter, and
/// tools that say nothing about it may run beside others.
pub trait Tool {
    /// The name, unlike that of any other tool.
    fn name(&self) -> &str;

    /// What a model is told about the tool.
    fn description(&self) -> &str;

    /// The shape of the arguments.
    fn input_schema(&self) -> Json;

    /// The capabilities by which tools are filtered.
    fn tags(&self) -> (r: Vec<String>)
        default_ensures
            r@.len() == 0,
    {
        Vec::new()
    }

    /// How the tool may run beside others.
    fn concurrency_class(&self) -> (r: ConcurrencyClass)
        default_ensures
            r == ConcurrencyClass::Safe,
    {
        ConcurrencyClass::Safe
    }
}

fn gateway() -> (r: Vec<String>)
    ensures
        texts(r@) == seq!["gateway"@],
{
    let mut r: Vec<String> = Vec::new();
    r.push("gateway".to_owned());
    proof {
        assert(texts(r@) =~= seq!["gateway"@]);
    }
    r
}

/// What a model is told about the tool that manages skills.
pub const MANAGE_SKILLS_TEXT: &'static str = "Manage agent skills: list installed, install from GitHub (user/repo or user/repo/skill-name), update installed skills, remove by name, or search the skill registry. Install checks versions — if already installed and up to date, it reports the version. Use update to force-reinstall from the source repo.";

/// What a model is told about the tool that sends files.
pub const SEND_FILE_TEXT: &'static str = "Send a file to the user as a document attachment. Use this to deliver files (reports, code, data, etc.) directly to the chat. The file is sent as-is, not rendered as text.";

/// What a model is told about the tool that reads the output of tasks.
pub const READ_TASK_OUTPUT_TEXT: &'static str = "Inspect the output of a background task started by a spawn_only tool. Use the `task_handle` returned by the spawn_only call. Modes: head, tail, grep, line_range (over captured stdout), or file (dive into one of the task's expected_files). Every call returns at most ~4KB so agent context stays small. Prefer head:50 first, then grep for specifics, before reading whole files.";

/// What a model is told about the tool that starts subagents.
pub const SPAWN_TEXT: &'static str = "Spawn a subagent to work on a task. Use mode='sync' to wait for the result, or 'background' (default) for fire-and-forget.";

impl Tool for ActivateToolsTool {
    fn name(&self) -> (r: &str)
        ensures
            r@ == ACTIVATE_TOOLS_NAME@,
    {
        ACTIVATE_TOOLS_NAME
    }

    fn description(&self) -> (r: &str)
        ensures
            r@ == ACTIVATE_TOOLS_TEXT@,
    {
        ACTIVATE_TOOLS_TEXT
    }

    fn input_schema(&self) -> (r: Json)
        ensures
            r@ == activate_tools_schema(),
    {
        activate_tools_input_schema()
    }
}

impl Tool for ManageSkillsTool {
    fn name(&self) -> (r: &str)
        ensures
            r@ == "manage_skills"@,
    {
        "manage_skills"
    }

    fn description(&self) -> (r: &str)
        ensures
            r@ == MANAGE_SKILLS_TEXT@,
    {
        MANAGE_SKILLS_TEXT
    }

    fn input_schema(&self) -> (r: Json)
        ensures
            r@ == manage_skills_schema(),
    {
        manage_skills_input_schema()
    }

    fn tags(&self) -> (r: Vec<String>)
        ensures
            texts(r@) == seq!["gateway"@],
    {
        gateway()
    }
}

impl Tool for SendFileTool {
    fn name(&self) -> (r: &str)
        ensures
            r@ == "send_file"@,
    {
        "send_file"
    }

    fn description(&self) -> (r: &str)
        ensures
            r@ == SEND_FILE_TEXT@,
    {
        SEND_FILE_TEXT
    }

    fn input_schema(&self) -> (r: Json)
        ensures
            r@ == send_file_schema(),
    {
        send_file_input_schema()
    }

    fn tags(&self) -> (r: Vec<String>)
        ensures
            texts(r@) == seq!["gateway"@],
    {
        gateway()
    }
}

impl Tool for ReadTaskOutputTool {
    fn name(&self) -> (r: &str)
        ensures
            r@ == "read_task_output"@,
    {
        "read_task_output"
    }

    fn description(&self) -> (r: &str)
        ensures
            r@ == READ_TASK_OUTPUT_TEXT@,
    {
        READ_TASK_OUTPUT_TEXT
    }

    fn input_schema(&self) -> (r: Json)
        ensures
            r@ == read_task_output_schema(MAX_LINE_LIMIT as nat, MAX_GREP_MATCHES as nat),
    {
        read_task_output_input_schema(MAX_LINE_LIMIT as u64, MAX_GREP_MATCHES as u64)
    }

    fn tags(&self) -> (r: Vec<String>)
        ensures
            texts(r@) == seq!["gateway"@],
    {
        gateway()
    }

    fn concurrency_class(&self) -> (r: ConcurrencyClass)
        ensures
            r == ConcurrencyClass::Safe,
    {
        ConcurrencyClass::Safe
    }
}

impl Tool for SpawnTool {
    fn name(&self) -> (r: &str)
        ensures
            r@ == "spawn"@,
    {
        "spawn"
    }

    fn description(&self) -> (r: &str)
        ensures
            r@ == SPAWN_TEXT@,
    {
        SPAWN_TEXT
    }

    fn input_schema(&self) -> (r: Json)
        ensures
            r@ == spawn_schema(self.models),
    {
        self.arguments_schema()
    }

    fn tags(&self) -> (r: Vec<String>)
        ensures
            texts(r@) == seq!["gateway"@],
    {
        gateway()
    }

    /// Starting a subagent changes state that other calls read.
    fn concurrency_class(&self) -> (r: ConcurrencyClass)
        ensures
            r == ConcurrencyClass::Exclusive,
    {
        ConcurrencyClass::Exclusive
    }
}

} // verus!
