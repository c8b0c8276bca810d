//! What holds of every answer and note of a tool.
use vstd::prelude::*;

use crate::agents::{field_text, AgentDefinitionView, UnenforcedField};
use crate::checks::{delivery_stop, stops_at, DeliveryStep};
use crate::conclusion::{modified_files, reason_text, TerminalReason};
use crate::json::{capped, lookup, quoted, str_array_view, Json, JsonView};
use crate::manage_skills::{
    install_text, json_list_len, missing_subdir, skill_line_with, skill_lines, source_members,
    source_note, tool_count, InstallPlanView,
};
use crate::paths::path_parts;
use crate::payload_laws::{holds, property_at};
use crate::policy::ToolGroupView;
use crate::read_task_output::handle_refusal;
use crate::registry::{deferred_count, groups_with_deferred};
use crate::schemas::{bounded_integer, manage_skills_schema, spawn_schema};
use crate::skill_binary::{first_offer, offers, published_at, BinaryInfo, RegistryEntry};
use crate::sorting::{less_at, part_key, path_key, text_less};
use crate::spawn::{next_count, token_estimate, ModelInfo};
use crate::spawn_input::{quoted_names, unenforced_text, unknown_definition_text};
use crate::terminal::{check_report, gathered, ready_but, ArtifactPaths, ContractCheck};
use crate::text::{contains_text, decimal, joined, lemma_filter_holds, texts, trimmed, Text};
use crate::text_laws::{joined_texts_hold_their_parts, lemma_held, lemma_held_within};
use crate::widths::byte_len;
use crate::workspace_contract::cleans_up;

verus! {

// ---------------------------------------------------------------------------
// Hooks

/// A hook names files by a list, or by the list in an object, and only if every item
/// is a text. The files are those of the list, in order; any other answer is an
/// error.
pub proof fn hooks_name_files_by_a_list(answer: Json)
    ensures
        answer matches Json::Array(items) ==> (modified_files(answer) is Ok <==> forall|i: int|
            0 <= i < items@.len() ==> (#[trigger] items@[i]) is Str),
        answer matches Json::Array(items) ==> (modified_files(answer) matches Ok(files) ==> {
            &&& files.len() == items@.len()
            &&& forall|i: int|
                0 <= i < files.len() ==> (#[trigger] files[i]) == (items@[i]->Str_0)@
        }),
        answer matches Json::Object(members) ==> (lookup(
            members@,
            "output_files"@,
        ) matches Some(value) ==> (value is Array ==> modified_files(answer) == modified_files(
            value,
        ))),
        answer matches Json::Object(members) ==> (!(lookup(
            members@,
            "output_files"@,
        ) matches Some(Json::Array(items))) ==> modified_files(answer) is Err),
        !(answer is Array) && !(answer is Object) ==> modified_files(answer) is Err,
{
}

/// Each reason for which a task ends has its own name.
pub proof fn reasons_have_their_own_names(a: TerminalReason, b: TerminalReason)
    ensures
        reason_text(a) == reason_text(b) ==> a == b,
        reason_text(TerminalReason::ContractFailure) == "workspace_contract_failure"@,
        reason_text(TerminalReason::TerminalArtifact) == "workflow_terminal_artifact"@,
        reason_text(TerminalReason::ExplicitFiles) == "explicit_output_files"@,
        reason_text(TerminalReason::ReportSummary) == "report_summary"@,
        reason_text(TerminalReason::TaskFailure) == "task_failure_report"@,
{
    reveal_strlit("workspace_contract_failure");
    reveal_strlit("workflow_terminal_artifact");
    reveal_strlit("explicit_output_files");
    reveal_strlit("report_summary");
    reveal_strlit("task_failure_report");
    assert("workspace_contract_failure"@[4] == 's' && "workflow_terminal_artifact"@[4] == 'f');
    assert("explicit_output_files"@[0] == 'e' && "report_summary"@[0] == 'r'
        && "task_failure_report"@[0] == 't');
    assert("workspace_contract_failure"@[0] == 'w' && "workflow_terminal_artifact"@[0] == 'w');
}

/// Something is cleaned up exactly if some failure action says so.
pub proof fn cleaning_up_is_asked_for(on_failure: Seq<Text>, action: Text, i: int)
    ensures
        0 <= i < on_failure.len() && on_failure[i] == "cleanup:"@ + action ==> cleans_up(on_failure),
        (forall|j: int|
            0 <= j < on_failure.len() ==> !"cleanup:"@.is_prefix_of(#[trigger] on_failure[j]))
            ==> !cleans_up(on_failure),
{
    crate::text::lemma_two_parts("cleanup:"@, action);
    if 0 <= i < on_failure.len() && on_failure[i] == "cleanup:"@ + action {
        assert("cleanup:"@.is_prefix_of(on_failure[i]));
    }
}

// ---------------------------------------------------------------------------
// Requests

/// A text is taken to be as many tokens long as it has groups of four bytes, the last
/// of which may be smaller.
pub proof fn tokens_are_four_bytes(text: Text)
    requires
        byte_len(text) <= u32::MAX,
    ensures
        4 * token_estimate(text) >= byte_len(text),
        4 * token_estimate(text) < byte_len(text) + 4,
{
}

/// Workers are counted one by one.
pub proof fn workers_are_counted(n: u32)
    ensures
        n < u32::MAX ==> next_count(n) == n + 1,
        next_count(n) != n,
{
}

/// A definition that is not known is named, with those that are; and one that makes
/// settings which are not enforced is named with the settings.
pub proof fn definitions_are_named(id: Text, ids: Seq<Text>, def: AgentDefinitionView, i: int)
    ensures
        contains_text(unknown_definition_text(id, ids), id),
        0 <= i < ids.len() ==> contains_text(unknown_definition_text(id, ids), ids[i]),
        contains_text(unenforced_text(def), def.name),
        0 <= i < def.unenforced.len() ==> contains_text(
            unenforced_text(def),
            field_text(def.unenforced[i]),
        ),
{
    let said = unknown_definition_text(id, ids);
    let open = "spawn: agent_definition_id '"@;
    let list = joined(ids, ", "@);
    let rest = "' not found in registry; available: ["@ + list + "]"@;
    assert(said =~= open + id + rest);
    lemma_held(open, id, rest);
    let head = open + id + "' not found in registry; available: ["@;
    assert(said =~= head + list + "]"@);
    lemma_held(head, list, "]"@);
    if 0 <= i < ids.len() {
        joined_texts_hold_their_parts(ids, ", "@, i);
        lemma_held_within(said, list, ids[i]);
    }
    let told = unenforced_text(def);
    let fields = joined(quoted_names(def.unenforced), ", "@);
    let end = "]; remove them from the manifest until the runtime wires them in"@;
    let after = "' sets unimplemented fields ["@ + fields + end;
    assert(told =~= open + def.name + after);
    lemma_held(open, def.name, after);
    let before = open + def.name + "' sets unimplemented fields ["@;
    assert(told =~= before + fields + end);
    lemma_held(before, fields, end);
    if 0 <= i < def.unenforced.len() {
        let names = quoted_names(def.unenforced);
        let field = field_text(def.unenforced[i]);
        lemma_held("\""@, field, "\""@);
        assert(names[i] == "\""@ + field + "\""@);
        joined_texts_hold_their_parts(names, ", "@, i);
        lemma_held_within(told, fields, names[i]);
        lemma_held_within(told, names[i], field);
    }
}

// ---------------------------------------------------------------------------
// Skills

/// The note of where a skill came from says the repository, the directory in it, the
/// branch and the time, each under its own key.
pub proof fn notes_say_where_a_skill_came_from(
    repo: Text,
    subdir: Option<Text>,
    branch: Text,
    at: Text,
)
    ensures
        ({
            let note = source_note(repo, subdir, branch, at);
            &&& contains_text(note, quoted("repo"@) + ": "@ + quoted(repo))
            &&& contains_text(note, quoted("branch"@) + ": "@ + quoted(branch))
            &&& contains_text(note, quoted("installed_at"@) + ": "@ + quoted(at))
            &&& subdir matches Some(dir) ==> contains_text(
                note,
                quoted("subdir"@) + ": "@ + quoted(dir),
            )
            &&& subdir is None ==> contains_text(note, quoted("subdir"@) + ": "@ + "null"@)
        }),
{
    let members = source_members(repo, subdir, branch, at);
    let note = source_note(repo, subdir, branch, at);
    let parts = members.map_values(
        |m: (Text, Option<Text>)| crate::manage_skills::flat_line(m.0, m.1),
    );
    let body = joined(parts, ",\n  "@);
    assert(note =~= "{\n  "@ + body + "\n}"@);
    lemma_held("{\n  "@, body, "\n}"@);
    assert forall|i: int| 0 <= i < 4 implies contains_text(note, #[trigger] parts[i]) by {
        joined_texts_hold_their_parts(parts, ",\n  "@, i);
        lemma_held_within(note, body, parts[i]);
    }
    assert(parts[0] == quoted("branch"@) + ": "@ + quoted(branch));
    assert(parts[1] == quoted("installed_at"@) + ": "@ + quoted(at));
    assert(parts[2] == quoted("repo"@) + ": "@ + quoted(repo));
    assert(contains_text(note, parts[3]));
}

/// Every skill that was installed is named in the answer.
pub proof fn answers_tell_what_was_installed(done: Seq<Text>, notes: Seq<Text>, name: Text)
    requires
        done.contains(name),
        name.len() > 0,
        forall|i: int| 0 <= i < name.len() ==> !crate::text::white_space(#[trigger] name[i]),
    ensures
        contains_text(install_text(done, notes), name),
{
    let list = joined(done, ", "@);
    let k = done.index_of(name);
    joined_texts_hold_their_parts(done, ", "@, k);
    let more = if notes.len() > 0 {
        "Skipped (already exists, use force=true): "@ + joined(notes, ", "@) + "\n"@
    } else {
        Seq::empty()
    };
    let whole = "Installed: "@ + list + "\n"@ + more;
    let rest = "\n"@ + more;
    assert(whole =~= "Installed: "@ + list + rest);
    lemma_held("Installed: "@, list, rest);
    lemma_held_within(whole, list, name);
    let none = Seq::<char>::empty();
    assert("Installed: "@ + list + "\n"@ + more + none =~= whole);
    assert(install_text(done, notes) == trimmed(whole)) by {
        if notes.len() > 0 {
            assert(("Installed: "@ + list + "\n"@) + more + none =~= whole);
        } else {
            assert(("Installed: "@ + list + "\n"@) + none + none =~= whole);
        }
    }
    lemma_trimming_keeps(whole, name);
}

/// Trimming keeps what holds no white space.
proof fn lemma_trimming_keeps(s: Text, part: Text)
    requires
        contains_text(s, part),
        part.len() > 0,
        forall|i: int| 0 <= i < part.len() ==> !crate::text::white_space(#[trigger] part[i]),
    ensures
        contains_text(trimmed(s), part),
{
    lemma_trimming_start_keeps(s, part);
    lemma_trimming_end_keeps(
        crate::text::trimmed_start(s, crate::text::CharClass::Space),
        part,
    );
}

proof fn lemma_trimming_start_keeps(s: Text, part: Text)
    requires
        contains_text(s, part),
        part.len() > 0,
        forall|i: int| 0 <= i < part.len() ==> !crate::text::white_space(#[trigger] part[i]),
    ensures
        contains_text(crate::text::trimmed_start(s, crate::text::CharClass::Space), part),
    decreases s.len(),
{
    let k = choose|k: int| crate::text::occurs_at(s, part, k);
    if s.len() > 0 && crate::text::in_class(s[0], crate::text::CharClass::Space) {
        if k == 0 {
            assert(part[0] == s.subrange(0, part.len() as int)[0]);
        }
        let rest = s.drop_first();
        assert(rest.subrange(k - 1, k - 1 + part.len()) =~= s.subrange(k, k + part.len()));
        assert(crate::text::occurs_at(rest, part, k - 1));
        lemma_trimming_start_keeps(rest, part);
    }
}

proof fn lemma_trimming_end_keeps(s: Text, part: Text)
    requires
        contains_text(s, part),
        part.len() > 0,
        forall|i: int| 0 <= i < part.len() ==> !crate::text::white_space(#[trigger] part[i]),
    ensures
        contains_text(crate::text::trimmed_end(s, crate::text::CharClass::Space), part),
    decreases s.len(),
{
    let k = choose|k: int| crate::text::occurs_at(s, part, k);
    if s.len() > 0 && crate::text::in_class(s.last(), crate::text::CharClass::Space) {
        if k + part.len() == s.len() {
            assert(part[part.len() - 1] == s.subrange(k, k + part.len())[part.len() - 1]);
        }
        let rest = s.drop_last();
        assert(rest.subrange(k, k + part.len()) =~= s.subrange(k, k + part.len()));
        assert(crate::text::occurs_at(rest, part, k));
        lemma_trimming_end_keeps(rest, part);
    }
}

/// A directory that a repository does not have is named, with the repository.
pub proof fn missing_directories_are_named(plan: InstallPlanView, subdir: Text)
    ensures
        !missing_subdir(plan, subdir).success,
        contains_text(missing_subdir(plan, subdir).output, subdir),
        (plan.owner + "/"@ + plan.repo).is_suffix_of(missing_subdir(plan, subdir).output),
{
    let said = missing_subdir(plan, subdir).output;
    let open = "Subdirectory '"@;
    let rest = "' not found in "@ + plan.owner + "/"@ + plan.repo;
    assert(said =~= open + subdir + rest);
    lemma_held(open, subdir, rest);
    let source = plan.owner + "/"@ + plan.repo;
    assert(said.subrange(said.len() - source.len(), said.len() as int) =~= source);
}

/// Every skill of a package is told with the request that installs it.
pub proof fn skills_are_told_with_their_request(repo: Text, skills: Seq<Text>, i: int)
    requires
        0 <= i < skills.len(),
    ensures
        contains_text(
            skill_lines(repo, skills),
            skills[i] + ": manage_skills(action=\"install\", repo=\""@ + repo + "/"@ + skills[i]
                + "\")"@,
        ),
    decreases skills.len(),
{
    let rest = skills.drop_last();
    let one = skills[i] + ": manage_skills(action=\"install\", repo=\""@ + repo + "/"@ + skills[i]
        + "\")"@;
    let all = skill_lines(repo, skills);
    let before = skill_lines(repo, rest);
    let none = Seq::<char>::empty();
    if i < rest.len() {
        assert(rest[i] == skills[i]);
        skills_are_told_with_their_request(repo, rest, i);
        let tail = all.skip(before.len() as int);
        assert(all =~= none + before + tail);
        lemma_held(none, before, tail);
        lemma_held_within(all, before, one);
    } else {
        let head = before + "\n    - "@;
        assert(all =~= head + one + none);
        lemma_held(head, one, none);
    }
}

// ---------------------------------------------------------------------------
// Paths and artifacts

/// A path that leads to no file of the workspace is named in the refusal.
pub proof fn refused_paths_are_named(seen: crate::access::Resolution, path: Text)
    ensures
        contains_text(handle_refusal(seen, path), path),
{
    let said = handle_refusal(seen, path);
    let none = Seq::<char>::empty();
    match seen {
        Ok(found) => {
            let rest = said.skip(("path '"@ + path).len() as int);
            assert(said =~= "path '"@ + path + rest);
            lemma_held("path '"@, path, rest);
        },
        Err(error) => {
            if error is OutsideAllowedRoots {
                let rest = "' is outside the workspace"@;
                assert(said =~= "absolute path '"@ + path + rest);
                lemma_held("absolute path '"@, path, rest);
            } else {
                let open = "path must stay inside the workspace: "@;
                assert(said =~= open + path + none);
                lemma_held(open, path, none);
            }
        },
    }
}

/// The paths that are gathered are those of the artifacts that are wanted, all of
/// them and no others; one that could not be found stops it.
pub proof fn wanted_artifacts_are_gathered(names: Seq<Text>, found: Seq<ArtifactPaths>, path: Text)
    ensures
        gathered(names, found) is Ok <==> forall|i: int|
            0 <= i < found.len() && names.contains((#[trigger] found[i]).name@)
                ==> found[i].paths is Ok,
        gathered(names, found) matches Ok(list) ==> (list.contains(path) <==> exists|i: int|
            0 <= i < found.len() && names.contains((#[trigger] found[i]).name@) && (
            found[i].paths matches Ok(paths) && texts(paths@).contains(path))),
    decreases found.len(),
{
    if found.len() > 0 {
        let rest = found.drop_last();
        let n = found.len() - 1;
        wanted_artifacts_are_gathered(names, rest, path);
        assert(forall|i: int| 0 <= i < n ==> #[trigger] rest[i] == found[i]);
        assert(found.last() == found[n]);
        if gathered(names, found) is Ok {
            assert forall|i: int|
                0 <= i < found.len() && names.contains(
                    (#[trigger] found[i]).name@,
                ) implies found[i].paths is Ok by {
                if i < n {
                    assert(rest[i] == found[i]);
                }
            }
            let before = gathered(names, rest)->Ok_0;
            let list = gathered(names, found)->Ok_0;
            let more = if names.contains(found[n].name@) {
                texts(found[n].paths->Ok_0@)
            } else {
                Seq::empty()
            };
            assert(list =~= before + more);
            if list.contains(path) {
                let k = list.index_of(path);
                if k < before.len() {
                    assert(before[k] == path);
                    assert(before.contains(path));
                    let i = choose|i: int|
                        0 <= i < rest.len() && names.contains((#[trigger] rest[i]).name@) && (
                        rest[i].paths matches Ok(paths) && texts(paths@).contains(path));
                    assert(found[i] == rest[i]);
                } else {
                    assert(more[k - before.len()] == path);
                    assert(texts(found[n].paths->Ok_0@).contains(path));
                }
            }
            if exists|i: int|
                0 <= i < found.len() && names.contains((#[trigger] found[i]).name@) && (
                found[i].paths matches Ok(paths) && texts(paths@).contains(path)) {
                let i = choose|i: int|
                    0 <= i < found.len() && names.contains((#[trigger] found[i]).name@) && (
                    found[i].paths matches Ok(paths) && texts(paths@).contains(path));
                if i < n {
                    assert(rest[i] == found[i]);
                    assert(before.contains(path));
                    assert(list[before.index_of(path)] == path);
                } else {
                    assert(list[before.len() + more.index_of(path)] == path);
                }
            }
        } else if forall|i: int|
            0 <= i < found.len() && names.contains((#[trigger] found[i]).name@)
                ==> found[i].paths is Ok {
            assert forall|i: int|
                0 <= i < rest.len() && names.contains(
                    (#[trigger] rest[i]).name@,
                ) implies rest[i].paths is Ok by {
                assert(found[i] == rest[i]);
            }
            assert(names.contains(found[n].name@) ==> found[n].paths is Ok);
        }
    }
}

/// What is said of a contract that does not give what is wanted names the contract and
/// ends with what is missing.
pub proof fn contracts_are_named_in_refusals(label: Text, what: Text)
    ensures
        contains_text(ready_but(label, what), label),
        what.is_suffix_of(ready_but(label, what)),
{
    let said = ready_but(label, what);
    let open = "workspace contract for "@;
    let rest = " is ready but "@ + what;
    assert(said =~= open + label + rest);
    lemma_held(open, label, rest);
    assert(said.subrange(said.len() - what.len(), said.len() as int) =~= what);
}

/// Files of one directory are ordered by their names.
pub proof fn files_are_ordered_by_name(p: Text, q: Text, dir: Seq<Text>, a: Text, b: Text)
    requires
        path_parts(p) == dir.push(a),
        path_parts(q) == dir.push(b),
        a != "/"@ && a != "."@ && a != ".."@,
        b != "/"@ && b != "."@ && b != ".."@,
        text_less(a, b),
    ensures
        text_less(path_key(p), path_key(q)),
{
    let key = |part: Text| part_key(part);
    let head = dir.map_values(key);
    let x = dir.push(a).map_values(key);
    let y = dir.push(b).map_values(key);
    assert(x.drop_last() =~= head && y.drop_last() =~= head);
    assert(x.last() == seq!['\u{4}'] + a && y.last() == seq!['\u{4}'] + b);
    let sep = seq!['\u{0}'];
    let before = if dir.len() == 0 {
        seq!['\u{4}']
    } else {
        joined(head, sep) + sep + seq!['\u{4}']
    };
    assert(joined(x, sep) =~= before + a);
    assert(joined(y, sep) =~= before + b);
    let k = choose|k: int| less_at(a, b, k);
    let u = before + a;
    let v = before + b;
    assert forall|j: int| 0 <= j < before.len() + k implies u[j] == v[j] by {
        if j >= before.len() {
            assert(a[j - before.len()] == b[j - before.len()]);
        }
    }
    assert(less_at(u, v, before.len() + k));
}

// ---------------------------------------------------------------------------
// What can be loaded and asked for

/// A group is offered exactly if some of its tools are deferred, with their number.
pub proof fn groups_are_offered_with_their_number(
    deferred: Set<Text>,
    table: Seq<ToolGroupView>,
    group: ToolGroupView,
)
    ensures
        table.contains(group) && deferred_count(deferred, group.tools) > 0 ==> exists|k: int|
            0 <= k < groups_with_deferred(deferred, table).len() && (
            #[trigger] groups_with_deferred(deferred, table)[k]).name == group.name
                && groups_with_deferred(deferred, table)[k].count == deferred_count(
                deferred,
                group.tools,
            ),
        deferred_count(deferred, group.tools) > 0 <==> exists|i: int|
            0 <= i < group.tools.len() && deferred.contains(#[trigger] group.tools[i]),
        deferred_count(deferred, group.tools) <= group.tools.len(),
{
    let some = |g: ToolGroupView| deferred_count(deferred, g.tools) > 0;
    let kept = table.filter(some);
    lemma_filter_holds(table, some, group);
    if table.contains(group) && deferred_count(deferred, group.tools) > 0 {
        let k = kept.index_of(group);
        assert(groups_with_deferred(deferred, table)[k].name == group.name);
    }
    let pred = |tool: Text| deferred.contains(tool);
    let hidden = group.tools.filter(pred);
    if hidden.len() > 0 {
        assert(hidden.contains(hidden[0]));
        lemma_filter_holds(group.tools, pred, hidden[0]);
        assert(deferred.contains(group.tools[group.tools.index_of(hidden[0])]));
    }
    if exists|i: int| 0 <= i < group.tools.len() && deferred.contains(#[trigger] group.tools[i]) {
        let i = choose|i: int|
            0 <= i < group.tools.len() && deferred.contains(#[trigger] group.tools[i]);
        assert(group.tools.contains(group.tools[i]));
        lemma_filter_holds(group.tools, pred, group.tools[i]);
        assert(hidden.contains(group.tools[i]));
    }
    group.tools.lemma_filter_len(pred);
}

/// The actions, modes and backends that can be asked for, and the largest number of
/// lines, are those of the schema.
pub proof fn schemas_list_the_choices(models: Option<Vec<ModelInfo>>, most: nat)
    ensures
        property_at(manage_skills_schema(), "action"@, 1, 0) && holds(
            manage_skills_schema()->Object_0[1].1->Object_0[0].1,
            "enum"@,
            str_array_view(seq!["list"@, "install"@, "update"@, "remove"@, "search"@]),
        ),
        property_at(spawn_schema(models), "mode"@, 1, 2) && holds(
            spawn_schema(models)->Object_0[1].1->Object_0[2].1,
            "enum"@,
            str_array_view(seq!["background"@, "sync"@]),
        ),
        property_at(spawn_schema(models), "backend"@, 1, 9) && holds(
            spawn_schema(models)->Object_0[1].1->Object_0[9].1,
            "enum"@,
            str_array_view(seq!["builtin"@, "agent_mcp"@]),
        ),
        holds(bounded_integer(Some(most)), "maximum"@, JsonView::Number(decimal(most))),
        holds(bounded_integer(Some(most)), "minimum"@, JsonView::Number("1"@)),
{
    let a = manage_skills_schema()->Object_0[1].1->Object_0[0].1->Object_0;
    assert(a[1] == (
        "enum"@,
        str_array_view(seq!["list"@, "install"@, "update"@, "remove"@, "search"@]),
    ));
    let b = spawn_schema(models)->Object_0[1].1->Object_0[2].1->Object_0;
    assert(b[1] == ("enum"@, str_array_view(seq!["background"@, "sync"@])));
    let c = spawn_schema(models)->Object_0[1].1->Object_0[9].1->Object_0;
    assert(c[1] == ("enum"@, str_array_view(seq!["builtin"@, "agent_mcp"@])));
    let d = bounded_integer(Some(most))->Object_0;
    assert(d[1] == ("minimum"@, JsonView::Number("1"@)));
    assert(d[2] == ("maximum"@, JsonView::Number(decimal(most))));
}

// ---------------------------------------------------------------------------
// Lists

/// A failed check is told by what it checks and by its reason, if it has one.
pub proof fn failed_checks_give_their_reason(check: ContractCheck)
    ensures
        check.spec@.is_prefix_of(check_report(check)),
        check.reason matches Some(reason) ==> reason@.is_suffix_of(check_report(check)),
        check.reason is None ==> "failed"@.is_suffix_of(check_report(check)),
{
    let said = check_report(check);
    reveal_strlit("failed");
    reveal_strlit(": failed");
    assert(said.subrange(0, check.spec@.len() as int) =~= check.spec@);
    if let Some(reason) = check.reason {
        assert(said.subrange(said.len() - reason@.len(), said.len() as int) =~= reason@);
    } else {
        assert(said.subrange(said.len() - 6, said.len() as int) =~= "failed"@);
    }
}

/// Settings that are not enforced go by the names that a manifest gives them.
pub proof fn settings_go_by_their_names()
    ensures
        field_text(UnenforcedField::MaxTurns) == "max_turns"@,
        field_text(UnenforcedField::Background) == "background"@,
        field_text(UnenforcedField::Memory) == "memory"@,
        field_text(UnenforcedField::Hooks) == "hooks"@,
        field_text(UnenforcedField::McpServers) == "mcp_servers"@,
        field_text(UnenforcedField::Isolation) == "isolation"@,
{
}

/// Where some package offers a skill, there is a first one that does.
pub proof fn some_package_is_the_first(entries: Seq<RegistryEntry>, package: Text, i: int)
    requires
        0 <= i < entries.len(),
        entries[i].name@ == package || texts(entries[i].skills@).contains(package),
    ensures
        exists|k: int| #[trigger] first_offer(entries, package, k),
    decreases i,
{
    if first_offer(entries, package, i) {
    } else {
        let j = choose|j: int| 0 <= j < i && offers(#[trigger] entries[j], package);
        assert(offers(entries[i], package));
        some_package_is_the_first(entries, package, j);
    }
}

/// The program for a system is the one that is published last under its key, and
/// there is one wherever the key is published.
pub proof fn the_last_program_counts(list: Seq<BinaryInfo>, key: Text, i: int, j: int)
    ensures
        published_at(list, key, i) ==> 0 <= i < list.len() && list[i].key@ == key,
        published_at(list, key, i) && 0 <= j < list.len() && list[j].key@ == key ==> j <= i,
        0 <= i < list.len() && list[i].key@ == key ==> exists|k: int| #[trigger]
            published_at(list, key, k),
    decreases list.len() - i,
{
    if published_at(list, key, i) && i < j < list.len() {
        assert(list[j].key@ != key);
    }
    if 0 <= i < list.len() && list[i].key@ == key {
        if published_at(list, key, i) {
        } else {
            let k = choose|k: int| i < k < list.len() && (#[trigger] list[k]).key@ == key;
            the_last_program_counts(list, key, k, j);
        }
    }
}

/// A delivery ends at the first step that fails, and at one if any does.
pub proof fn the_first_failure_ends_a_delivery(steps: Seq<DeliveryStep>, k: int, j: int)
    ensures
        stops_at(steps, k) ==> 0 <= k < steps.len() && delivery_stop(steps[k]) is Some,
        stops_at(steps, k) && 0 <= j < steps.len() && delivery_stop(steps[j]) is Some ==> k <= j,
        0 <= k < steps.len() && delivery_stop(steps[k]) is Some ==> exists|m: int| #[trigger]
            stops_at(steps, m),
    decreases k,
{
    if stops_at(steps, k) && 0 <= j < k {
        assert(delivery_stop(steps[j]) is None);
    }
    if 0 <= k < steps.len() && delivery_stop(steps[k]) is Some {
        if stops_at(steps, k) {
        } else {
            let m = choose|m: int| 0 <= m < k && delivery_stop(#[trigger] steps[m]) is Some;
            the_first_failure_ends_a_delivery(steps, m, j);
        }
    }
}

/// The line of a skill begins with its name, and tells how many tools its manifest
/// names, if it names any.
pub proof fn skills_are_listed_with_their_tools(
    name: Text,
    version: Option<Text>,
    manifest: Option<Text>,
)
    ensures
        name.is_prefix_of(skill_line_with(name, version, tool_count(manifest))),
        version matches Some(v) ==> contains_text(
            skill_line_with(name, version, tool_count(manifest)),
            "v"@ + v,
        ),
        manifest matches Some(text) ==> (json_list_len(text, "tools"@) matches Some(n) ==> (n > 0
            ==> contains_text(
            skill_line_with(name, version, tool_count(manifest)),
            "["@ + decimal(n as nat) + " tool(s)]"@,
        ))),
        manifest is None || json_list_len(manifest->0, "tools"@) is None || json_list_len(
            manifest->0,
            "tools"@,
        ) == Some(0usize) ==> tool_count(manifest) is None,
{
    let line = skill_line_with(name, version, tool_count(manifest));
    let none = Seq::<char>::empty();
    let second = match version {
        Some(v) => "  v"@ + v,
        None => none,
    };
    let third = match tool_count(manifest) {
        Some(n) => "  ["@ + decimal(n as nat) + " tool(s)]"@,
        None => none,
    };
    assert(line == name + second + third);
    assert(line.subrange(0, name.len() as int) =~= name);
    if let Some(v) = version {
        reveal_strlit("  v");
        reveal_strlit("  ");
        reveal_strlit("v");
        assert("  v"@ =~= "  "@ + "v"@);
        let one = "v"@ + v;
        assert(line =~= name + "  "@ + one + third);
        lemma_held(name + "  "@, one, third);
    }
    if let Some(n) = tool_count(manifest) {
        reveal_strlit("  [");
        reveal_strlit("  ");
        reveal_strlit("[");
        assert("  ["@ =~= "  "@ + "["@);
        let one = "["@ + decimal(n as nat) + " tool(s)]"@;
        assert(line =~= name + second + "  "@ + one + none);
        lemma_held(name + second + "  "@, one, none);
    }
}

/// A size is as it is computed unless no number of the machine can hold it.
pub proof fn sizes_stop_at_the_largest_number(n: nat)
    ensures
        n <= usize::MAX ==> capped(n) == n,
        n > usize::MAX ==> capped(n) == usize::MAX,
{
}

} // verus!
