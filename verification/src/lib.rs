use vstd::prelude::*;

pub mod access;
pub mod activate_tools;
pub mod agents;
pub mod answer_laws;
pub mod arguments;
pub mod artifact_laws;
pub mod artifacts;
pub mod checks;
pub mod child_gate;
pub mod child_session;
pub mod child_tools;
pub mod conclusion;
pub mod conclusion_laws;
pub mod context;
pub mod delivery;
pub mod gate_laws;
pub mod json;
pub mod json_laws;
pub mod lifecycle;
pub mod manage_skills;
pub mod names;
pub mod output_laws;
pub mod path_laws;
pub mod paths;
pub mod payload_laws;
pub mod payloads;
pub mod permissions;
pub mod policy;
pub mod policy_laws;
pub mod profile;
pub mod podcast;
pub mod program_laws;
pub mod read_task_output;
pub mod refusal_laws;
pub mod registry;
pub mod registry_laws;
pub mod schemas;
pub mod tool;
pub mod tool_entry;
pub mod tool_laws;
pub mod send_file;
pub mod send_laws;
pub mod skill_binary;
pub mod skill_laws;
pub mod sorting;
pub mod spawn;
pub mod spawn_input;
pub mod spawn_laws;
pub mod supervisor;
pub mod terminal;
pub mod text;
pub mod text_laws;
pub mod versions;
pub mod widths;
pub mod workflow;
pub mod workflow_laws;
pub mod workspace_contract;

verus! {

}
