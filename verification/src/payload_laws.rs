//! What holds of every value that is read, written or sent.
use vstd::prelude::*;

use crate::agents::{field_text, UnenforcedField};
use crate::arguments::{list_member, member, text_items, text_member};
use crate::child_session::{
    action_for, action_text, kind_text, result_kind_text, BackgroundResultKind,
    ChildSessionFailureAction, ChildSessionLifecycleKind,
};
use crate::conclusion::{BackgroundTask, Lineage};
use crate::context::plain_result;
use crate::delivery::{hook_for, relay_metadata, verify_phase, SpawnHookEvent};
use crate::json::{
    escaped, escaped_char, items_text, items_view, json_text, lookup, members_text, members_view,
    quoted, str_array_view, Json, JsonMember, JsonView,
};
use crate::json_laws::bare_text;
use crate::payloads::{detail_json, dispatch_json, fraction_text, phase_text, workflow_json};
use crate::schemas::{
    activate_tools_schema, manage_skills_schema, model_choices, model_line, model_lines,
    model_property, read_task_output_schema, send_file_schema, spawn_schema,
};
use crate::spawn::{McpDispatchView, ModelInfo};
use crate::spawn_input::{prompt_with, quoted_names, recovery_text};
use crate::text::{contains_text, decimal, digit, joined, Text};
use crate::text_laws::{joined_texts_hold_their_parts, lemma_held, lemma_held_within};
use crate::workflow::{phase_progress, WorkflowView};

verus! {

// ---------------------------------------------------------------------------
// Reading

/// Of the members with a key the last counts; without one there is none.
pub proof fn the_last_member_counts(members: Seq<JsonMember>, key: Text, i: int)
    ensures
        0 <= i < members.len() && members[i].key@ == key && (forall|j: int|
            i < j < members.len() ==> (#[trigger] members[j]).key@ != key) ==> lookup(members, key)
            == Some(members[i].value),
        (forall|j: int| 0 <= j < members.len() ==> (#[trigger] members[j]).key@ != key) ==> lookup(
            members,
            key,
        ) is None,
    decreases members.len(),
{
    if members.len() > 0 {
        let rest = members.drop_last();
        let n = members.len() - 1;
        the_last_member_counts(rest, key, i);
        assert(forall|j: int| 0 <= j < n ==> #[trigger] rest[j] == members[j]);
        if 0 <= i < n && members[i].key@ == key && (forall|j: int|
            i < j < members.len() ==> (#[trigger] members[j]).key@ != key) {
            assert(members[n].key@ != key);
            assert(rest[i] == members[i]);
            assert forall|j: int| i < j < rest.len() implies (#[trigger] rest[j]).key@ != key by {
                assert(members[j].key@ != key);
            }
        }
        if forall|j: int| 0 <= j < members.len() ==> (#[trigger] members[j]).key@ != key {
            assert(members[n].key@ != key);
            assert forall|j: int| 0 <= j < rest.len() implies (#[trigger] rest[j]).key@ != key by {
                assert(members[j].key@ != key);
            }
        }
    }
}

/// An argument is read as a text exactly if it is one, and as a list of the texts in
/// it exactly if it is a list. What is no object has no arguments.
pub proof fn arguments_are_read_by_key(args: Json, key: Text)
    ensures
        !(args is Object) ==> member(args, key) is None,
        args matches Json::Object(members) ==> member(args, key) == lookup(members@, key),
        member(args, key) matches Some(Json::Str(s)) ==> text_member(args, key) == Some(s@),
        !(member(args, key) matches Some(Json::Str(s))) ==> text_member(args, key) is None,
        member(args, key) matches Some(Json::Array(items)) ==> list_member(args, key) == text_items(
            items@,
        ),
        !(member(args, key) matches Some(Json::Array(items))) ==> list_member(args, key).len() == 0,
{
}

/// The texts in a list are taken in order, and what is no text is passed over.
pub proof fn lists_are_read_in_order(items: Seq<Json>, item: Json, text: Text)
    ensures
        item matches Json::Str(s) ==> text_items(items.push(item)) == text_items(items).push(s@),
        !(item is Str) ==> text_items(items.push(item)) == text_items(items),
        text_items(Seq::<Json>::empty()).len() == 0,
        text_items(items).contains(text) <==> exists|i: int|
            0 <= i < items.len() && ((#[trigger] items[i]) matches Json::Str(s) && s@ == text),
    decreases items.len(),
{
    assert(items.push(item).drop_last() =~= items);
    if items.len() > 0 {
        let rest = items.drop_last();
        let n = items.len() - 1;
        lists_are_read_in_order(rest, item, text);
        assert(forall|i: int| 0 <= i < n ==> #[trigger] rest[i] == items[i]);
        let before = text_items(rest);
        let all = text_items(items);
        if all.contains(text) {
            let k = all.index_of(text);
            if k < before.len() {
                assert(before[k] == text);
                assert(before.contains(text));
                let i = choose|i: int|
                    0 <= i < rest.len() && ((#[trigger] rest[i]) matches Json::Str(s) && s@ == text);
                assert(items[i] == rest[i]);
            } else {
                assert(items[n] is Str);
            }
        }
        if exists|i: int|
            0 <= i < items.len() && ((#[trigger] items[i]) matches Json::Str(s) && s@ == text) {
            let i = choose|i: int|
                0 <= i < items.len() && ((#[trigger] items[i]) matches Json::Str(s) && s@ == text);
            if i < n {
                assert(rest[i] == items[i]);
                assert(before.contains(text));
                assert(all[before.index_of(text)] == text);
            } else {
                assert(all[before.len() as int] == text);
            }
        }
    }
}

// ---------------------------------------------------------------------------
// Writing

/// Characters are written as they are but for quotes, backslashes and control
/// characters, which are written with a backslash before them. Different
/// characters are written differently.
pub proof fn special_characters_are_escaped(c: char, d: char)
    ensures
        c as u32 >= 32 && c != '"' && c != '\\' ==> escaped_char(c) == seq![c],
        c as u32 <= 31 || c == '"' || c == '\\' ==> escaped_char(c).len() >= 2 && escaped_char(
            c,
        )[0] == '\\',
        escaped_char('\n') == seq!['\\', 'n'],
        escaped_char('"') == seq!['\\', '"'],
        escaped_char('\\') == seq!['\\', '\\'],
        escaped_char('\t') == seq!['\\', 't'],
        escaped_char('\r') == seq!['\\', 'r'],
        escaped_char(c) == escaped_char(d) ==> c == d,
{
    if escaped_char(c) == escaped_char(d) {
        let x = escaped_char(c);
        let y = escaped_char(d);
        let u = c as u32;
        let v = d as u32;
        if x.len() == 1 {
            assert(x[0] == c && y[0] == d);
        } else if x.len() == 2 {
            assert(x[1] == y[1]);
        } else {
            assert(x[4] == y[4] && x[5] == y[5]);
            lemma_hex(u as int / 16, v as int / 16);
            lemma_hex(u as int % 16, v as int % 16);
        }
    }
}

proof fn lemma_hex(a: int, b: int)
    requires
        0 <= a < 16,
        0 <= b < 16,
        crate::json::hex_digit(a) == crate::json::hex_digit(b),
    ensures
        a == b,
{
}

/// A text is written character by character, between quotes; one without special
/// characters is written as it is.
pub proof fn texts_are_quoted(a: Text, b: Text)
    ensures
        escaped(a + b) == escaped(a) + escaped(b),
        bare_text(a) ==> escaped(a) == a,
        quoted(a).len() == escaped(a).len() + 2,
        quoted(a)[0] == '"' && quoted(a).last() == '"',
        quoted(a).subrange(1, quoted(a).len() - 1) == escaped(a),
    decreases b.len(), a.len(),
{
    assert(quoted(a).subrange(1, quoted(a).len() - 1) =~= escaped(a));
    if b.len() == 0 {
        assert(a + b =~= a);
        assert(escaped(b) =~= Seq::empty());
        assert(escaped(a) + escaped(b) =~= escaped(a));
    } else {
        let head = b.drop_last();
        texts_are_quoted(a, head);
        assert((a + b).drop_last() =~= a + head);
        assert(escaped(a + b) == escaped(a + head) + escaped_char(b.last()));
        assert(escaped(a) + escaped(head) + escaped_char(b.last()) =~= escaped(a) + (escaped(head)
            + escaped_char(b.last())));
    }
    if bare_text(a) {
        lemma_bare(a);
    }
}

proof fn lemma_bare(a: Text)
    requires
        bare_text(a),
    ensures
        escaped(a) == a,
    decreases a.len(),
{
    if a.len() > 0 {
        let head = a.drop_last();
        assert forall|i: int| 0 <= i < head.len() implies #[trigger] head[i] as u32 >= 32
            && !crate::json::needs_escape(head[i]) by {
            assert(head[i] == a[i]);
        }
        lemma_bare(head);
        assert(a[a.len() - 1] == a.last());
        special_characters_are_escaped(a.last(), a.last());
        assert(a =~= head + seq![a.last()]);
    }
}

/// Values are written as JSON: words for null and the truth values, numbers as they
/// are, texts between quotes, lists and objects between their brackets, with each
/// item and each member in them.
pub proof fn values_are_written_as_json(j: JsonView)
    ensures
        j is Null ==> json_text(j) == "null"@,
        j matches JsonView::Bool(b) ==> json_text(j) == if b {
            "true"@
        } else {
            "false"@
        },
        j matches JsonView::Number(n) ==> json_text(j) == n,
        j matches JsonView::Str(s) ==> json_text(j) == quoted(s),
        j matches JsonView::Array(items) ==> "["@.is_prefix_of(json_text(j)) && "]"@.is_suffix_of(
            json_text(j),
        ) && forall|i: int|
            0 <= i < items.len() ==> contains_text(json_text(j), json_text(#[trigger] items[i])),
        j matches JsonView::Object(members) ==> "{"@.is_prefix_of(json_text(j))
            && "}"@.is_suffix_of(json_text(j)) && forall|i: int|
            0 <= i < members.len() ==> contains_text(
                json_text(j),
                quoted((#[trigger] members[i]).0) + ":"@ + json_text(members[i].1),
            ),
{
    match j {
        JsonView::Array(items) => {
            let parts = items_text(items);
            let body = joined(parts, ","@);
            crate::text::lemma_three_parts("["@, body, "]"@);
            lemma_held("["@, body, "]"@);
            lemma_item_texts(items);
            assert forall|i: int| 0 <= i < items.len() implies contains_text(
                json_text(j),
                json_text(#[trigger] items[i]),
            ) by {
                joined_texts_hold_their_parts(parts, ","@, i);
                lemma_held_within(json_text(j), body, parts[i]);
            }
        },
        JsonView::Object(members) => {
            let parts = members_text(members);
            let body = joined(parts, ","@);
            crate::text::lemma_three_parts("{"@, body, "}"@);
            lemma_held("{"@, body, "}"@);
            lemma_member_texts(members);
            assert forall|i: int| 0 <= i < members.len() implies contains_text(
                json_text(j),
                quoted((#[trigger] members[i]).0) + ":"@ + json_text(members[i].1),
            ) by {
                joined_texts_hold_their_parts(parts, ","@, i);
                lemma_held_within(json_text(j), body, parts[i]);
            }
        },
        _ => {},
    }
}

proof fn lemma_item_texts(items: Seq<JsonView>)
    ensures
        items_text(items).len() == items.len(),
        forall|i: int|
            0 <= i < items.len() ==> #[trigger] items_text(items)[i] == json_text(items[i]),
    decreases items.len(),
{
    if items.len() > 0 {
        let rest = items.drop_last();
        lemma_item_texts(rest);
        assert forall|i: int| 0 <= i < items.len() implies #[trigger] items_text(items)[i]
            == json_text(items[i]) by {
            if i < rest.len() {
                assert(items_text(rest)[i] == json_text(rest[i]));
            }
        }
    }
}

proof fn lemma_member_texts(members: Seq<(Text, JsonView)>)
    ensures
        members_text(members).len() == members.len(),
        forall|i: int|
            0 <= i < members.len() ==> #[trigger] members_text(members)[i] == quoted(members[i].0)
                + ":"@ + json_text(members[i].1),
    decreases members.len(),
{
    if members.len() > 0 {
        let rest = members.drop_last();
        lemma_member_texts(rest);
        assert forall|i: int| 0 <= i < members.len() implies #[trigger] members_text(members)[i]
            == quoted(members[i].0) + ":"@ + json_text(members[i].1) by {
            if i < rest.len() {
                assert(members_text(rest)[i] == quoted(rest[i].0) + ":"@ + json_text(rest[i].1));
            }
        }
    }
}

/// Items and members stand for what they hold, in their order.
pub proof fn values_stand_for_what_they_hold(items: Seq<Json>, members: Seq<JsonMember>)
    ensures
        items_view(items).len() == items.len(),
        forall|i: int| 0 <= i < items.len() ==> #[trigger] items_view(items)[i] == items[i]@,
        members_view(members).len() == members.len(),
        forall|i: int|
            0 <= i < members.len() ==> #[trigger] members_view(members)[i] == (
                members[i].key@,
                members[i].value@,
            ),
    decreases items.len() + members.len(),
{
    if items.len() > 0 {
        let rest = items.drop_last();
        values_stand_for_what_they_hold(rest, members);
        assert forall|i: int| 0 <= i < items.len() implies #[trigger] items_view(items)[i]
            == items[i]@ by {
            if i < rest.len() {
                assert(items_view(rest)[i] == rest[i]@);
            }
        }
    } else if members.len() > 0 {
        let rest = members.drop_last();
        values_stand_for_what_they_hold(items, rest);
        assert forall|i: int| 0 <= i < members.len() implies #[trigger] members_view(members)[i]
            == (members[i].key@, members[i].value@) by {
            if i < rest.len() {
                assert(members_view(rest)[i] == (rest[i].key@, rest[i].value@));
            }
        }
    }
}

// ---------------------------------------------------------------------------
// What is sent

/// An object has a member.
pub open spec fn holds(j: JsonView, key: Text, value: JsonView) -> bool {
    j matches JsonView::Object(members) && members.contains((key, value))
}

/// What a remote agent is asked holds the task, its label, the tools, the additional
/// instructions and the workflow.
pub proof fn requests_hold_the_task(dispatch: McpDispatchView)
    ensures
        ({
            let j = dispatch_json(dispatch);
            &&& holds(j, "task"@, JsonView::Str(dispatch.task_desc))
            &&& holds(j, "label"@, JsonView::Str(dispatch.label))
            &&& holds(j, "allowed_tools"@, str_array_view(dispatch.allowed_tools))
            &&& dispatch.additional_instructions matches Some(more) ==> holds(
                j,
                "additional_instructions"@,
                JsonView::Str(more),
            )
            &&& dispatch.additional_instructions is None ==> holds(
                j,
                "additional_instructions"@,
                JsonView::Null,
            )
            &&& dispatch.workflow matches Some(workflow) ==> holds(
                j,
                "workflow"@,
                workflow_json(workflow),
            )
            &&& dispatch.workflow is None ==> holds(j, "workflow"@, JsonView::Null)
        }),
{
    let m = dispatch_json(dispatch)->Object_0;
    assert(m[0].0 == "additional_instructions"@);
    assert(m.contains(m[0]) && m.contains(m[1]) && m.contains(m[2]) && m.contains(m[3])
        && m.contains(m[4]));
}

/// A list of texts is written as those texts, in order.
pub proof fn lists_hold_their_texts(list: Seq<Text>)
    ensures
        str_array_view(list) matches JsonView::Array(items) && items.len() == list.len() && forall|
            i: int,
        |
            0 <= i < list.len() ==> #[trigger] items[i] == JsonView::Str(list[i]),
{
}

/// What is told of a workflow, to a remote agent and to the supervisor, holds its
/// kind, its phase, and, where they are set, its tools, its rules and its progress.
pub proof fn workflows_are_told(workflow: WorkflowView)
    ensures
        forall|j: JsonView| #![trigger holds(j, "workflow_kind"@, JsonView::Str(workflow.kind))]
            j == workflow_json(workflow) || j == detail_json(workflow) ==> {
                &&& holds(j, "workflow_kind"@, JsonView::Str(workflow.kind))
                &&& holds(j, "current_phase"@, JsonView::Str(workflow.phase))
                &&& workflow.allowed_tools.len() > 0 ==> holds(
                    j,
                    "allowed_tools"@,
                    str_array_view(workflow.allowed_tools),
                )
                &&& workflow.progress matches Some(number) ==> holds(
                    j,
                    "progress"@,
                    JsonView::Number(number),
                )
                &&& workflow.terminal matches Some(rules) ==> holds(
                    j,
                    "terminal_output"@,
                    JsonView::Object(
                        seq![
                            ("deliver_final_artifact_only"@, JsonView::Bool(rules.final_only)),
                            (
                                "forbid_intermediate_files"@,
                                JsonView::Bool(rules.forbid_intermediate),
                            ),
                            ("required_artifact_kind"@, JsonView::Str(rules.kind)),
                        ],
                    ),
                )
            },
{
    let tools = crate::payloads::tools_member(workflow.allowed_tools);
    let progress = crate::payloads::progress_member(workflow.progress);
    let terminal = crate::payloads::terminal_member(workflow.terminal);
    let phase = seq![("current_phase"@, JsonView::Str(workflow.phase))];
    let kind = seq![("workflow_kind"@, JsonView::Str(workflow.kind))];
    let both = seq![
        ("workflow_kind"@, JsonView::Str(workflow.kind)),
        ("current_phase"@, JsonView::Str(workflow.phase)),
    ];
    assert(phase[0].0 == "current_phase"@ && kind[0].0 == "workflow_kind"@);
    assert(both[0] == kind[0] && both[1] == phase[0]);
    let a = tools + phase + progress + terminal + kind;
    let b = both + tools + terminal + progress;
    assert(a[tools.len() as int] == phase[0]);
    assert(a[a.len() - 1] == kind[0]);
    assert(b[0] == kind[0] && b[1] == phase[0]);
    if workflow.allowed_tools.len() > 0 {
        assert(a[0] == tools[0] && b[2] == tools[0]);
    }
    if workflow.progress is Some {
        assert(a[tools.len() as int + 1] == progress[0]);
        assert(b[b.len() - 1] == progress[0]);
    }
    if workflow.terminal is Some {
        assert(a[a.len() - 2] == terminal[0]);
        assert(b[2 + tools.len() as int] == terminal[0]);
    }
}

/// Where a workflow enters a phase, the supervisor is told the phase, the kind and the
/// progress that the phase stands for.
pub proof fn phases_are_told(workflow: WorkflowView, phase: Text)
    ensures
        contains_text(
            phase_text(workflow, phase),
            quoted("current_phase"@) + ":"@ + quoted(phase),
        ),
        contains_text(
            phase_text(workflow, phase),
            quoted("workflow_kind"@) + ":"@ + quoted(workflow.kind),
        ),
        contains_text(
            phase_text(workflow, phase),
            quoted("progress"@) + ":"@ + fraction_text(phase_progress(phase) as nat),
        ),
{
    let entered = WorkflowView {
        phase,
        progress: Some(fraction_text(phase_progress(phase) as nat)),
        ..workflow
    };
    let j = detail_json(entered);
    let m = j->Object_0;
    values_are_written_as_json(j);
    assert(m[0] == ("workflow_kind"@, JsonView::Str(workflow.kind)));
    assert(m[1] == ("current_phase"@, JsonView::Str(phase)));
    assert(m[m.len() - 1] == (
        "progress"@,
        JsonView::Number(fraction_text(phase_progress(phase) as nat)),
    ));
}

/// A number of hundredths is written with its two digits behind the point, without a
/// zero at the end.
pub proof fn fractions_have_their_digits(hundredths: nat)
    requires
        0 < hundredths < 100,
    ensures
        hundredths % 10 == 0 ==> fraction_text(hundredths) == "0."@ + seq![digit(hundredths / 10)],
        hundredths % 10 != 0 ==> fraction_text(hundredths) == "0."@ + seq![
            digit(hundredths / 10),
            digit(hundredths % 10),
        ],
{
    reveal_with_fuel(decimal, 3);
    if hundredths % 10 == 0 {
        assert(hundredths / 10 < 10);
        assert(decimal(hundredths / 10) =~= seq![digit(hundredths / 10)]);
    } else if hundredths < 10 {
        reveal_strlit("0.");
        reveal_strlit("0.0");
        assert(decimal(hundredths) =~= seq![digit(hundredths)]);
        assert(hundredths / 10 == 0 && hundredths % 10 == hundredths);
        assert(digit(0) == '0');
        assert("0.0"@ + seq![digit(hundredths)] =~= "0."@ + seq![digit(0), digit(hundredths)]);
    } else {
        assert(hundredths / 10 < 10);
        assert(decimal(hundredths / 10) =~= seq![digit(hundredths / 10)]);
        assert(decimal(hundredths) =~= seq![digit(hundredths / 10), digit(hundredths % 10)]);
    }
}

/// A relayed result goes where the request came from.
pub proof fn relays_go_to_the_origin(channel: Text, chat_id: Text)
    ensures
        holds(relay_metadata(channel, chat_id), "deliver_to_channel"@, JsonView::Str(channel)),
        holds(relay_metadata(channel, chat_id), "deliver_to_chat_id"@, JsonView::Str(chat_id)),
{
    let m = relay_metadata(channel, chat_id)->Object_0;
    assert(m[0] == ("deliver_to_channel"@, JsonView::Str(channel)));
    assert(m[1] == ("deliver_to_chat_id"@, JsonView::Str(chat_id)));
}

/// Hooks are told which task of which session it is, what happened, and the files.
pub proof fn hooks_are_told_the_task(
    task: BackgroundTask,
    lineage: Lineage,
    event: SpawnHookEvent,
    phase: Option<Text>,
    text: Text,
    files: Seq<Text>,
    action: Option<ChildSessionFailureAction>,
)
    ensures
        ({
            let hook = hook_for(task, lineage, event, phase, text, files, action);
            &&& hook.event == event
            &&& hook.task_id == lineage.task_id@
            &&& hook.task_label == task.label@
            &&& hook.parent_session_key == lineage.parent_session_key@
            &&& hook.child_session_key == lineage.child_session_key@
            &&& hook.phase == phase
            &&& hook.text == text
            &&& hook.output_files == files
            &&& hook.failure_action == action
            &&& task.workflow matches Some(workflow) ==> hook.workflow_kind == Some(
                workflow@.kind,
            )
            &&& task.workflow is None ==> hook.workflow_kind is None
            &&& task.workflow matches Some(workflow) ==> verify_phase(task) == Some(workflow@.phase)
            &&& task.workflow is None ==> verify_phase(task) == Some("verify_outputs"@)
        }),
{
}

/// Stations, actions and results have their own names, and only failures ask for an
/// action: another attempt where the failure may pass, help where it does not.
pub proof fn stations_have_their_own_names(
    a: ChildSessionLifecycleKind,
    b: ChildSessionLifecycleKind,
)
    ensures
        kind_text(a) == kind_text(b) ==> a == b,
        kind_text(ChildSessionLifecycleKind::Completed) == "completed"@,
        kind_text(ChildSessionLifecycleKind::Spawned) == "spawned"@,
        kind_text(ChildSessionLifecycleKind::RetryableFailed) == "retryable_failed"@,
        kind_text(ChildSessionLifecycleKind::TerminalFailed) == "terminal_failed"@,
        action_for(a) is Some <==> a == ChildSessionLifecycleKind::RetryableFailed || a
            == ChildSessionLifecycleKind::TerminalFailed,
        action_for(a) == Some(ChildSessionFailureAction::Retry) <==> a
            == ChildSessionLifecycleKind::RetryableFailed,
        action_text(ChildSessionFailureAction::Retry) == "retry"@,
        action_text(ChildSessionFailureAction::Escalate) == "escalate"@,
        result_kind_text(BackgroundResultKind::Notification) == "notification"@,
        result_kind_text(BackgroundResultKind::Report) == "report"@,
{
    reveal_strlit("spawned");
    reveal_strlit("completed");
    reveal_strlit("retryable_failed");
    reveal_strlit("terminal_failed");
    assert("spawned"@.len() == 7 && "completed"@.len() == 9 && "retryable_failed"@.len() == 16
        && "terminal_failed"@.len() == 15);
}

/// A result that is nothing but a text carries nothing else.
pub proof fn plain_results_carry_nothing_else(success: bool, output: Text)
    ensures
        ({
            let answer = plain_result(success, output);
            &&& answer.success == success
            &&& answer.output == output
            &&& answer.file_modified is None
            &&& answer.files_to_send.len() == 0
            &&& answer.tokens_used is None
            &&& answer.structured_metadata is None
        }),
{
}

/// Additional instructions follow the prompt; a second attempt is told the task and
/// why the first one failed; and settings that are not enforced are named.
pub proof fn workers_are_told_more(
    base: Text,
    more: Text,
    task: Text,
    error: Text,
    fields: Seq<UnenforcedField>,
    i: int,
)
    requires
        0 <= i < fields.len(),
    ensures
        base.is_prefix_of(prompt_with(base, Some(more))),
        more.is_suffix_of(prompt_with(base, Some(more))),
        prompt_with(base, None) == base,
        contains_text(recovery_text(task, error), task),
        contains_text(recovery_text(task, error), error),
        contains_text(quoted_names(fields)[i], field_text(fields[i])),
        quoted_names(fields).len() == fields.len(),
{
    let said = prompt_with(base, Some(more));
    if more.len() > 0 {
        crate::text::lemma_three_parts(base, "\n\n"@, more);
    } else {
        assert(said.subrange(0, base.len() as int) =~= base);
        assert(said.subrange(said.len() as int, said.len() as int) =~= more);
    }
    let open = "[system-internal] Your previous attempt at the task below failed.\nOriginal task: "@;
    let told = recovery_text(task, error);
    let rest = told.skip((open + task).len() as int);
    assert(told =~= open + task + rest);
    lemma_held(open, task, rest);
    let head = open + task + "\nFailure: "@;
    let tail = told.skip((head + error).len() as int);
    assert(told =~= head + error + tail);
    lemma_held(head, error, tail);
    lemma_held("\""@, field_text(fields[i]), "\""@);
}

// ---------------------------------------------------------------------------
// What models are told

/// A model is told its key, its name, its provider, its price, its sizes in thousands
/// and its description.
pub proof fn models_are_described(m: ModelInfo)
    ensures
        ({
            let line = model_line(m);
            &&& ("- '"@ + m.key@ + "': "@ + m.model_id@ + " ("@ + m.provider_name@
                + ")"@).is_prefix_of(line)
            &&& m.cost_info matches Some(cost) ==> contains_text(line, cost@)
            &&& contains_text(line, decimal((m.context_window / 1000) as nat) + "k max ctx"@)
            &&& contains_text(line, decimal((m.max_output_tokens / 1000) as nat) + "k max output"@)
            &&& m.default_context_window matches Some(window) ==> contains_text(
                line,
                decimal((window / 1000) as nat) + "k default budget"@,
            )
            &&& m.description matches Some(text) ==> text@.is_suffix_of(line)
        }),
{
    let none = Seq::<char>::empty();
    let head = "- '"@ + m.key@ + "': "@ + m.model_id@ + " ("@ + m.provider_name@ + ")"@;
    let (priced, cost) = match m.cost_info {
        Some(cost) => (", "@, cost@),
        None => (none, none),
    };
    let window = decimal((m.context_window / 1000) as nat) + "k max ctx"@;
    let output = decimal((m.max_output_tokens / 1000) as nat) + "k max output"@;
    let (budgeted, budget) = match m.default_context_window {
        Some(n) => (", "@, decimal((n / 1000) as nat) + "k default budget"@),
        None => (none, none),
    };
    let (told, text) = match m.description {
        Some(words) => (". "@, words@),
        None => (none, none),
    };
    let line = head + priced + cost + ", "@ + window + ", "@ + output + budgeted + budget + told
        + text;
    assert(model_line(m) =~= line);
    lemma_line_parts(head, priced, cost, window, output, budgeted, budget, told, text);
}

proof fn lemma_line_parts(
    head: Text,
    priced: Text,
    cost: Text,
    window: Text,
    output: Text,
    budgeted: Text,
    budget: Text,
    told: Text,
    text: Text,
)
    ensures
        ({
            let line = head + priced + cost + ", "@ + window + ", "@ + output + budgeted + budget
                + told + text;
            &&& head.is_prefix_of(line)
            &&& contains_text(line, cost)
            &&& contains_text(line, window)
            &&& contains_text(line, output)
            &&& contains_text(line, budget)
            &&& text.is_suffix_of(line)
        }),
{
    let line = head + priced + cost + ", "@ + window + ", "@ + output + budgeted + budget + told
        + text;
    assert(line.subrange(0, head.len() as int) =~= head);
    assert(line.subrange(line.len() - text.len(), line.len() as int) =~= text);
    lemma_found_in(line, (head + priced).len() as int, cost);
    lemma_found_in(line, (head + priced + cost + ", "@).len() as int, window);
    lemma_found_in(line, (head + priced + cost + ", "@ + window + ", "@).len() as int, output);
    lemma_found_in(
        line,
        (head + priced + cost + ", "@ + window + ", "@ + output + budgeted).len() as int,
        budget,
    );
}

proof fn lemma_found_in(line: Text, at: int, part: Text)
    requires
        0 <= at,
        at + part.len() <= line.len(),
        line.subrange(at, at + part.len()) =~= part,
    ensures
        contains_text(line, part),
{
    let before = line.take(at);
    let after = line.skip(at + part.len());
    assert(line =~= before + line.subrange(at, at + part.len()) + after);
    lemma_held(before, part, after);
}

/// Every model has a line, after the opening one, and can be chosen by its key, alone
/// or with its name; nothing else can be chosen.
pub proof fn models_can_be_chosen(models: Seq<ModelInfo>, i: int)
    requires
        0 <= i < models.len(),
    ensures
        model_lines(models).len() == models.len() + 1,
        model_lines(models)[i + 1] == model_line(models[i]),
        model_choices(models).len() == 2 * models.len(),
        model_choices(models)[2 * i] == models[i].key@,
        model_choices(models)[2 * i + 1] == models[i].key@ + "/"@ + models[i].model_id@,
    decreases models.len(),
{
    let rest = models.drop_last();
    if i < rest.len() {
        models_can_be_chosen(rest, i);
        assert(rest[i] == models[i]);
    } else {
        lemma_model_counts(rest);
    }
}

proof fn lemma_model_counts(models: Seq<ModelInfo>)
    ensures
        model_lines(models).len() == models.len() + 1,
        model_choices(models).len() == 2 * models.len(),
    decreases models.len(),
{
    if models.len() > 0 {
        lemma_model_counts(models.drop_last());
    }
}

/// Where there are models to choose from, the choices are those of the models.
pub proof fn models_are_offered(models: Vec<ModelInfo>)
    requires
        models@.len() > 0,
    ensures
        holds(
            model_property(Some(models)),
            "enum"@,
            str_array_view(model_choices(models@)),
        ),
        holds(
            model_property(Some(models)),
            "description"@,
            JsonView::Str(joined(model_lines(models@), "\n"@)),
        ),
{
    let m = model_property(Some(models))->Object_0;
    assert(m[1].0 == "description"@ && m[2].0 == "enum"@);
    assert(m.contains(m[1]) && m.contains(m[2]));
}

/// Each tool asks for its arguments by name, and says which it needs.
pub proof fn schemas_name_the_arguments(models: Option<Vec<ModelInfo>>, lines: nat, hits: nat)
    ensures
        requires_only(spawn_schema(models), "task"@),
        requires_only(manage_skills_schema(), "action"@),
        requires_only(send_file_schema(), "file_path"@),
        requires_only(read_task_output_schema(lines, hits), "task_handle"@),
        has_property(spawn_schema(models), "task"@),
        has_property(spawn_schema(models), "context"@),
        has_property(spawn_schema(models), "mode"@),
        has_property(spawn_schema(models), "allowed_tools"@),
        has_property(spawn_schema(models), "model"@),
        has_property(spawn_schema(models), "agent_definition_id"@),
        has_property(manage_skills_schema(), "action"@),
        has_property(manage_skills_schema(), "repo"@),
        has_property(manage_skills_schema(), "branch"@),
        has_property(manage_skills_schema(), "force"@),
        has_property(send_file_schema(), "file_path"@),
        has_property(send_file_schema(), "chat_id"@),
        has_property(read_task_output_schema(lines, hits), "task_handle"@),
        has_property(read_task_output_schema(lines, hits), "mode"@),
        has_property(activate_tools_schema(), "tools"@),
        has_property(activate_tools_schema(), "group"@),
{
    let a = spawn_schema(models)->Object_0;
    let pa = a[1].1->Object_0;
    assert(a[2] == ("required"@, str_array_view(seq!["task"@])));
    assert(a.contains(a[2]));
    assert(a[1].0 == "properties"@ && a.contains(a[1]));
    assert(pa[0].0 == "task"@ && pa[4].0 == "context"@ && pa[2].0 == "mode"@ && pa[3].0
        == "allowed_tools"@ && pa[5].0 == "model"@ && pa[11].0 == "agent_definition_id"@);
    assert(property_at(spawn_schema(models), "task"@, 1, 0));
    assert(property_at(spawn_schema(models), "context"@, 1, 4));
    assert(property_at(spawn_schema(models), "mode"@, 1, 2));
    assert(property_at(spawn_schema(models), "allowed_tools"@, 1, 3));
    assert(property_at(spawn_schema(models), "model"@, 1, 5));
    assert(property_at(spawn_schema(models), "agent_definition_id"@, 1, 11));
    let b = manage_skills_schema()->Object_0;
    let pb = b[1].1->Object_0;
    assert(b[2] == ("required"@, str_array_view(seq!["action"@])));
    assert(b.contains(b[2]));
    assert(b[1].0 == "properties"@);
    assert(pb[0].0 == "action"@ && pb[1].0 == "repo"@ && pb[4].0 == "force"@ && pb[5].0
        == "branch"@);
    assert(property_at(manage_skills_schema(), "action"@, 1, 0));
    assert(property_at(manage_skills_schema(), "repo"@, 1, 1));
    assert(property_at(manage_skills_schema(), "force"@, 1, 4));
    assert(property_at(manage_skills_schema(), "branch"@, 1, 5));
    let c = send_file_schema()->Object_0;
    let pc = c[1].1->Object_0;
    assert(c[2] == ("required"@, str_array_view(seq!["file_path"@])));
    assert(c.contains(c[2]));
    assert(c[1].0 == "properties"@);
    assert(pc[0].0 == "file_path"@ && pc[3].0 == "chat_id"@);
    assert(property_at(send_file_schema(), "file_path"@, 1, 0));
    assert(property_at(send_file_schema(), "chat_id"@, 1, 3));
    let e = read_task_output_schema(lines, hits)->Object_0;
    let pe = e[2].1->Object_0;
    assert(e[1] == ("required"@, str_array_view(seq!["task_handle"@])));
    assert(e.contains(e[1]));
    assert(e[2].0 == "properties"@);
    assert(pe[0].0 == "task_handle"@ && pe[1].0 == "mode"@);
    assert(property_at(read_task_output_schema(lines, hits), "task_handle"@, 2, 0));
    assert(property_at(read_task_output_schema(lines, hits), "mode"@, 2, 1));
    let f = activate_tools_schema()->Object_0;
    let pf = f[1].1->Object_0;
    assert(f[1].0 == "properties"@);
    assert(pf[0].0 == "tools"@ && pf[1].0 == "group"@);
    assert(property_at(activate_tools_schema(), "tools"@, 1, 0));
    assert(property_at(activate_tools_schema(), "group"@, 1, 1));
}

/// A schema needs one argument and no other.
pub open spec fn requires_only(j: JsonView, key: Text) -> bool {
    holds(j, "required"@, str_array_view(seq![key]))
}

/// The properties of a schema stand at one place, and among them one at another.
pub open spec fn property_at(j: JsonView, key: Text, i: int, k: int) -> bool {
    &&& j is Object
    &&& 0 <= i < j->Object_0.len()
    &&& j->Object_0[i].0 == "properties"@
    &&& j->Object_0[i].1 is Object
    &&& 0 <= k < j->Object_0[i].1->Object_0.len()
    &&& j->Object_0[i].1->Object_0[k].0 == key
}

/// A schema has a property.
pub open spec fn has_property(j: JsonView, key: Text) -> bool {
    exists|i: int, k: int| #[trigger] property_at(j, key, i, k)
}

} // verus!
