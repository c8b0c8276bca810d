//! What holds of every background task that ends.
use vstd::prelude::*;

use crate::child_session::{
    action_for, retryable_text, terminal_kind, BackgroundResultKind, ChildSessionFailureAction,
    ChildSessionLifecycleKind, TaskResultView,
};
use crate::conclusion::{
    accepted, any_deliverable, final_content, final_kind, final_lifecycle, final_payload,
    final_reason, final_text, has_terminal_candidate, podcast_to_generate, relay_text,
    second_attempt, spawned_lifecycle, verified_files, with_podcast, BackgroundTask, HookVerdict,
    Lineage, TerminalReason,
};
use crate::context::ToolResult;
use crate::delivery::{end_hook, SpawnHookEvent};
use crate::json::Json;
use crate::podcast::inline_script;
use crate::text::{
    ascii_lower, contains_text, lemma_three_parts, lemma_two_parts, opt_text, texts, trimmed, Text,
};
use crate::text_laws::lemma_held;
use crate::workflow::{deliverable, of_kind, required_kind, WorkflowView};

verus! {

/// Work counts exactly if the worker finished, said that it succeeded, and
/// nothing rejected it.
pub proof fn only_unrejected_success_is_accepted(
    outcome: Result<TaskResultView, Text>,
    failure: Option<Text>,
)
    ensures
        accepted(outcome, failure) <==> (outcome matches Ok(result) && result.success && failure
            is None),
{
}

/// What is reported begins with the status: success exactly if the work was
/// accepted, and failure otherwise. It ends with what the worker said, where
/// nothing rejected it, and else with why it was rejected.
pub proof fn reports_tell_the_status(
    task: BackgroundTask,
    outcome: Result<TaskResultView, Text>,
    failure: Option<Text>,
    files: Seq<Text>,
)
    ensures
        ({
            let content = final_payload(task, outcome, failure, files).content;
            let done = outcome matches Ok(result) && result.success && failure is None;
            &&& "Status: SUCCESS"@.is_prefix_of(content) <==> done
            &&& "Status: FAILED"@.is_prefix_of(content) <==> !done
            &&& outcome matches Ok(result) ==> (failure is None ==> {
                &&& result.output.is_suffix_of(content)
                &&& content.len() == result.output.len() + (if done {
                    17int
                } else {
                    16int
                })
            })
            &&& outcome matches Ok(result) ==> (failure matches Some(error) ==> error.is_suffix_of(
                content,
            ))
            &&& outcome matches Err(error) ==> error.is_suffix_of(content)
        }),
{
    reveal_strlit("Status: SUCCESS");
    reveal_strlit("Status: FAILED");
    reveal_strlit("Status: FAILED\nError: ");
    reveal_strlit("Status: ");
    reveal_strlit("SUCCESS");
    reveal_strlit("FAILED");
    reveal_strlit("\n\n");
    let content = final_content(outcome, failure);
    let good = "Status: SUCCESS"@;
    let bad = "Status: FAILED"@;
    assert(good[8] == 'S' && bad[8] == 'F');
    match outcome {
        Err(error) => {
            lemma_two_parts("Status: FAILED\nError: "@, error);
            assert(content[8] == 'F');
            assert(bad =~= content.subrange(0, bad.len() as int));
        },
        Ok(result) => match failure {
            Some(error) => {
                lemma_two_parts("Status: FAILED\nError: "@, error);
                assert(content[8] == 'F');
                assert(bad =~= content.subrange(0, bad.len() as int));
            },
            None => {
                let word = if result.success {
                    "SUCCESS"@
                } else {
                    "FAILED"@
                };
                lemma_two_parts("Status: "@ + word + "\n\n"@, result.output);
                if result.success {
                    assert(content[8] == 'S');
                    assert(good =~= content.subrange(0, good.len() as int));
                } else {
                    assert(content[8] == 'F');
                    assert(bad =~= content.subrange(0, bad.len() as int));
                }
            },
        },
    }
    if good.is_prefix_of(content) {
        assert(content.subrange(0, good.len() as int)[8] == content[8]);
    }
    if bad.is_prefix_of(content) {
        assert(content.subrange(0, bad.len() as int)[8] == content[8]);
    }
}

/// Files are attached exactly to accepted work: those that the task must
/// deliver, or else those that the worker named, if one of them is worth it.
pub proof fn reports_carry_the_files(
    task: BackgroundTask,
    outcome: Result<TaskResultView, Text>,
    failure: Option<Text>,
    files: Seq<Text>,
)
    ensures
        ({
            let payload = final_payload(task, outcome, failure, files);
            let done = outcome matches Ok(result) && result.success && failure is None;
            &&& !done ==> payload.media.len() == 0 && payload.kind == BackgroundResultKind::Report
            &&& done && files.len() > 0 ==> payload.media == files && payload.kind
                == BackgroundResultKind::Notification
            &&& done && files.len() == 0 && any_deliverable(outcome->Ok_0.files_to_send)
                ==> payload.media == outcome->Ok_0.files_to_send && payload.kind
                == BackgroundResultKind::Notification
            &&& done && files.len() == 0 && !any_deliverable(outcome->Ok_0.files_to_send)
                ==> payload.media.len() == 0 && payload.kind == BackgroundResultKind::Report
            &&& payload.envelope_media.len() == 0
        }),
{
}

/// A report goes to where its task came from.
pub proof fn reports_belong_to_their_task(
    task: BackgroundTask,
    outcome: Result<TaskResultView, Text>,
    failure: Option<Text>,
    files: Seq<Text>,
)
    ensures
        ({
            let payload = final_payload(task, outcome, failure, files);
            &&& payload.task_label == task.label@
            &&& payload.task_id == opt_text(task.task_id)
            &&& payload.tool_call_id == opt_text(task.tool_call_id)
            &&& payload.originating_thread_id == opt_text(task.thread_id)
            &&& payload.originating_client_message_id == opt_text(task.thread_id)
        }),
{
}

/// The reason of a report tells accepted work from rejected work and from work
/// that failed.
pub proof fn reasons_tell_what_happened(
    outcome: Result<TaskResultView, Text>,
    failure: Option<Text>,
    files: Seq<Text>,
)
    ensures
        final_reason(outcome, failure, files) == TerminalReason::ContractFailure <==> outcome is Ok
            && failure is Some,
        final_reason(outcome, failure, files) == TerminalReason::TaskFailure <==> (outcome is Err || (
        failure is None && !outcome->Ok_0.success)),
        final_reason(outcome, failure, files) == TerminalReason::TerminalArtifact <==> outcome is Ok
            && outcome->Ok_0.success && failure is None && files.len() > 0,
        final_reason(outcome, failure, files) == TerminalReason::ExplicitFiles <==> outcome is Ok
            && outcome->Ok_0.success && failure is None && files.len() == 0 && exists|i: int|
            0 <= i < outcome->Ok_0.files_to_send.len() && deliverable(
                #[trigger] outcome->Ok_0.files_to_send[i],
            ),
{
}

/// The parent session hears that a child session completed exactly if its work
/// was accepted, and else why not and what to do. It hears of the task, the two
/// sessions and the files.
pub proof fn parents_hear_how_it_ended(
    task: BackgroundTask,
    lineage: Lineage,
    outcome: Result<TaskResultView, Text>,
    failure: Option<Text>,
    files: Seq<Text>,
)
    ensures
        ({
            let told = final_lifecycle(task, lineage, outcome, failure, files);
            let done = outcome matches Ok(result) && result.success && failure is None;
            &&& told.kind == ChildSessionLifecycleKind::Completed <==> done
            &&& told.kind != ChildSessionLifecycleKind::Spawned
            &&& failure is Some ==> told.kind == ChildSessionLifecycleKind::TerminalFailed
            &&& told.error is None <==> done
            &&& told.failure_action is None <==> done
            &&& told.kind == ChildSessionLifecycleKind::RetryableFailed <==> told.failure_action
                == Some(ChildSessionFailureAction::Retry)
            &&& told.kind == ChildSessionLifecycleKind::TerminalFailed <==> told.failure_action
                == Some(ChildSessionFailureAction::Escalate)
            &&& outcome matches Err(error) ==> told.error == Some(error)
            &&& outcome matches Ok(result) ==> (failure is None && !result.success ==> told.error
                == Some(result.output))
            &&& outcome is Ok && failure is Some ==> told.error == failure
            &&& told.output_files == files
            &&& told.task_id == lineage.task_id@
            &&& told.parent_session_key == lineage.parent_session_key@
            &&& told.child_session_key == lineage.child_session_key@
            &&& told.task_label == task.label@
            &&& told.instruction == task.task_desc@
            &&& done ==> told.current_phase == Some("deliver_result"@)
            &&& outcome is Err ==> (task.workflow matches Some(workflow) ==> told.current_phase
                == Some(workflow@.phase))
            &&& task.workflow matches Some(workflow) ==> told.workflow_kind == Some(workflow@.kind)
            &&& task.workflow is None ==> told.workflow_kind is None
        }),
{
}

/// The announcement of a task names the task and the two sessions, and no end.
pub proof fn parents_hear_of_the_start(task: BackgroundTask, lineage: Lineage)
    ensures
        ({
            let told = spawned_lifecycle(task, lineage);
            &&& told.kind == ChildSessionLifecycleKind::Spawned
            &&& told.task_id == lineage.task_id@
            &&& told.parent_session_key == lineage.parent_session_key@
            &&& told.child_session_key == lineage.child_session_key@
            &&& told.task_label == task.label@
            &&& told.instruction == task.task_desc@
            &&& told.error is None && told.failure_action is None && told.output_files.len() == 0
            &&& task.workflow matches Some(workflow) ==> {
                &&& told.workflow_kind == Some(workflow@.kind)
                &&& told.current_phase == Some(workflow@.phase)
            }
        }),
{
}

/// What is said of a task is what its worker said, or the error that stopped it,
/// or why its finished work was rejected.
pub proof fn the_last_word_is_the_rejection(
    outcome: Result<TaskResultView, Text>,
    failure: Option<Text>,
)
    ensures
        outcome matches Err(error) ==> final_text(outcome, failure) == error,
        outcome matches Ok(result) ==> (failure is None ==> final_text(outcome, failure)
            == result.output),
        outcome is Ok ==> (failure matches Some(why) ==> final_text(outcome, failure) == why),
{
}

/// Hooks hear of the task, its sessions, its files and its last word; of a
/// success as such and of a failure as such.
pub proof fn hooks_hear_how_it_ended(
    task: BackgroundTask,
    lineage: Lineage,
    kind: ChildSessionLifecycleKind,
    text: Text,
    files: Seq<Text>,
)
    ensures
        end_hook(task, lineage, kind, text, files) is None <==> kind
            == ChildSessionLifecycleKind::Spawned,
        end_hook(task, lineage, kind, text, files) matches Some(hook) ==> {
            &&& hook.event == SpawnHookEvent::Complete <==> kind
                == ChildSessionLifecycleKind::Completed
            &&& hook.event == SpawnHookEvent::Failure <==> kind
                != ChildSessionLifecycleKind::Completed
            &&& hook.task_id == lineage.task_id@
            &&& hook.parent_session_key == lineage.parent_session_key@
            &&& hook.child_session_key == lineage.child_session_key@
            &&& hook.task_label == task.label@
            &&& hook.text == text
            &&& hook.output_files == files
            &&& kind == ChildSessionLifecycleKind::RetryableFailed ==> hook.failure_action == Some(
                ChildSessionFailureAction::Retry,
            )
            &&& kind == ChildSessionLifecycleKind::TerminalFailed ==> hook.failure_action == Some(
                ChildSessionFailureAction::Escalate,
            )
            &&& kind == ChildSessionLifecycleKind::Completed ==> hook.failure_action is None
                && hook.phase == Some("deliver_result"@)
        },
{
}

/// A worker gets a second attempt exactly if it did not succeed. It is told its
/// task again and why the first attempt failed.
pub proof fn failed_workers_get_another_attempt(
    outcome: Result<TaskResultView, Text>,
    task: Text,
)
    ensures
        second_attempt(outcome, task) is None <==> (outcome matches Ok(result) && result.success),
        second_attempt(outcome, task) matches Some(prompt) ==> {
            &&& contains_text(prompt, task)
            &&& outcome matches Err(error) ==> contains_text(prompt, error)
            &&& outcome matches Ok(result) ==> (trimmed(result.output).len() > 0 ==> contains_text(
                prompt,
                result.output,
            ))
        },
{
    let head = "[system-internal] Your previous attempt at the task below failed.\nOriginal task: "@;
    let middle = "\nFailure: "@;
    let tail = "\n\nRe-attempt the task. Diagnose the root cause from the failure text, pick a different strategy if appropriate (different tool, different inputs, a smaller scope), and either complete the task or end with a clear explanation of why the task cannot be completed. Do not repeat the same failing step verbatim."@;
    if second_attempt(outcome, task) is Some {
        let prompt = second_attempt(outcome, task)->0;
        let why = match outcome {
            Err(error) => error,
            Ok(result) => result.output,
        };
        if outcome is Err || trimmed(why).len() > 0 {
            assert(prompt =~= (head + task + middle) + why + tail);
            lemma_held(head + task + middle, why, tail);
            assert(prompt =~= head + task + (middle + why + tail));
            lemma_held(head, task, middle + why + tail);
        } else {
            let told = "task ended unsuccessfully without an explanatory message"@;
            assert(prompt =~= head + task + (middle + told + tail));
            lemma_held(head, task, middle + told + tail);
        }
    }
}

/// A passed-on result names the worker and the task, says whether it succeeded,
/// and holds what the worker said.
pub proof fn relayed_results_tell_the_status(
    outcome: Result<TaskResultView, Text>,
    worker: Text,
    task: Text,
)
    ensures
        contains_text(relay_text(outcome, worker, task), worker),
        contains_text(relay_text(outcome, worker, task), task),
        outcome matches Ok(result) ==> {
            let text = relay_text(outcome, worker, task);
            &&& contains_text(text, result.output)
            &&& ("[Subagent "@ + worker + " completed]\nTask: "@ + task + "\nStatus: SUCCESS"@).is_prefix_of(
                text,
            ) <==> result.success
            &&& ("[Subagent "@ + worker + " completed]\nTask: "@ + task + "\nStatus: FAILED"@).is_prefix_of(
                text,
            ) <==> !result.success
        },
        outcome matches Err(error) ==> {
            let text = relay_text(outcome, worker, task);
            &&& contains_text(text, error)
            &&& ("[Subagent "@ + worker + " failed]"@).is_prefix_of(text)
        },
{
    reveal_strlit("\nStatus: ");
    reveal_strlit("\nStatus: SUCCESS");
    reveal_strlit("\nStatus: FAILED");
    reveal_strlit("SUCCESS");
    reveal_strlit("FAILED");
    reveal_strlit(" failed]\nTask: ");
    reveal_strlit(" failed]");
    let text = relay_text(outcome, worker, task);
    let open = "[Subagent "@;
    match outcome {
        Ok(result) => {
            let word = if result.success {
                "SUCCESS"@
            } else {
                "FAILED"@
            };
            let end = "\n\nPlease summarize this result naturally for the user."@;
            let a = open + worker + " completed]\nTask: "@;
            let rest = "\nStatus: "@ + word + "\n\nResult:\n"@ + result.output + end;
            assert(text =~= open + worker + (" completed]\nTask: "@ + task + rest));
            lemma_held(open, worker, " completed]\nTask: "@ + task + rest);
            assert(text =~= a + task + rest);
            lemma_held(a, task, rest);
            let b = a + task + "\nStatus: "@ + word + "\n\nResult:\n"@;
            assert(text =~= b + result.output + end);
            lemma_held(b, result.output, end);
            let good = a + task + "\nStatus: SUCCESS"@;
            let bad = a + task + "\nStatus: FAILED"@;
            let k = (a + task).len() + 9;
            assert(good[k as int] == 'S' && bad[k as int] == 'F');
            assert(text[k as int] == word[0]);
            if result.success {
                assert(good =~= text.subrange(0, good.len() as int));
            } else {
                assert(bad =~= text.subrange(0, bad.len() as int));
            }
            if good.is_prefix_of(text) {
                assert(text.subrange(0, good.len() as int)[k as int] == text[k as int]);
            }
            if bad.is_prefix_of(text) {
                assert(text.subrange(0, bad.len() as int)[k as int] == text[k as int]);
            }
        },
        Err(error) => {
            let end = "\n\nPlease inform the user about this failure."@;
            let a = open + worker + " failed]\nTask: "@;
            let rest = "\nError: "@ + error + end;
            assert(text =~= open + worker + (" failed]\nTask: "@ + task + rest));
            lemma_held(open, worker, " failed]\nTask: "@ + task + rest);
            assert(text =~= a + task + rest);
            lemma_held(a, task, rest);
            let b = a + task + "\nError: "@;
            assert(text =~= b + error + end);
            lemma_held(b, error, end);
            let head = open + worker + " failed]"@;
            assert(head =~= text.subrange(0, head.len() as int));
        },
    }
}

/// A hook that allows, or that fails, leaves the files as they are; one that
/// denies rejects them with its reason; one that names files replaces them by
/// these, in its order.
pub proof fn hooks_decide_about_the_files(files: Seq<Text>, verdict: HookVerdict)
    ensures
        verdict is Allow || verdict is Error ==> verified_files(files, verdict) == Ok::<
            Seq<Text>,
            Text,
        >(files),
        verdict matches HookVerdict::Deny(reason) ==> verified_files(files, verdict) == Err::<
            Seq<Text>,
            Text,
        >(reason@),
        verdict matches HookVerdict::Modified(answer) ==> (answer matches Json::Array(items) ==> {
            &&& verified_files(files, verdict) is Ok <==> (forall|i: int|
                0 <= i < items@.len() ==> (#[trigger] items@[i]) is Str)
            &&& verified_files(files, verdict) matches Ok(named) ==> {
                &&& named.len() == items@.len()
                &&& forall|i: int|
                    0 <= i < named.len() ==> items@[i] is Str && #[trigger] named[i]
                        == items@[i]->Str_0@
            }
        }),
{
}

/// Audio is generated exactly for a podcast workflow whose worker succeeded without
/// a file of the kind that it must end with, from the script in its task. Audio that
/// was generated is added to the result behind what was there; if it could
/// not be generated, the result counts as failed and says why.
pub proof fn podcasts_end_with_audio(
    workflow: Option<WorkflowView>,
    result: TaskResultView,
    task: Text,
    generated: Result<ToolResult, String>,
)
    ensures
        podcast_to_generate(workflow, result, task) is Some ==> {
            &&& result.success
            &&& workflow matches Some(known) && known.kind == "research_podcast"@
            &&& inline_script(task) == podcast_to_generate(workflow, result, task)
            &&& required_kind(workflow) matches Some(kind) && forall|path: Text| #[trigger]
                of_kind(path, kind) ==> !result.files_to_send.contains(path)
                    && !result.files_modified.contains(path)
        },
        workflow is Some && workflow->0.kind == "research_podcast"@ && result.success && (
        required_kind(workflow) matches Some(kind) && forall|path: Text| #[trigger]
            of_kind(path, kind) ==> !result.files_to_send.contains(path)
                && !result.files_modified.contains(path)) ==> podcast_to_generate(
            workflow,
            result,
            task,
        ) == inline_script(task),
        generated matches Ok(tool) ==> (tool.success ==> {
            let now = with_podcast(result, generated);
            &&& now.success == result.success
            &&& result.files_to_send.is_prefix_of(now.files_to_send)
            &&& texts(tool.files_to_send@).is_suffix_of(now.files_to_send)
            &&& now.files_to_send.len() == result.files_to_send.len() + tool.files_to_send@.len()
            &&& result.files_modified.is_prefix_of(now.files_modified)
            &&& tool.file_modified matches Some(path) ==> now.files_modified.last() == path@
            &&& tool.output@.is_suffix_of(now.output)
            &&& trimmed(result.output).is_prefix_of(now.output)
        }),
        generated matches Ok(tool) ==> (!tool.success ==> {
            let now = with_podcast(result, generated);
            &&& !now.success
            &&& tool.output@.is_suffix_of(now.output)
            &&& now.files_to_send == result.files_to_send
        }),
        generated matches Err(error) ==> {
            let now = with_podcast(result, generated);
            &&& !now.success
            &&& error@.is_suffix_of(now.output)
            &&& now.files_to_send == result.files_to_send
        },
{
    let all = result.files_to_send + result.files_modified;
    if let Some(kind) = required_kind(workflow) {
        if has_terminal_candidate(result, workflow) {
            let i = choose|i: int| 0 <= i < all.len() && of_kind(#[trigger] all[i], kind);
            if i < result.files_to_send.len() {
                assert(result.files_to_send[i] == all[i]);
            } else {
                assert(result.files_modified[i - result.files_to_send.len()] == all[i]);
            }
            assert(of_kind(all[i], kind));
        } else {
            assert forall|path: Text| #[trigger] of_kind(
                path,
                kind,
            ) implies !result.files_to_send.contains(path) && !result.files_modified.contains(
                path,
            ) by {
                if result.files_to_send.contains(path) {
                    assert(all[result.files_to_send.index_of(path)] == path);
                }
                if result.files_modified.contains(path) {
                    let k = result.files_to_send.len() + result.files_modified.index_of(path);
                    assert(all[k] == path);
                }
            }
        }
    }
    match generated {
        Ok(tool) => {
            if tool.success {
                let sent = texts(tool.files_to_send@);
                let all = result.files_to_send + sent;
                assert(all.subrange(0, result.files_to_send.len() as int) =~= result.files_to_send);
                assert(all.subrange(result.files_to_send.len() as int, all.len() as int) =~= sent);
                let changed = with_podcast(result, generated).files_modified;
                assert(changed.subrange(0, result.files_modified.len() as int)
                    =~= result.files_modified);
                let said = trimmed(result.output);
                lemma_three_parts(said, "\n\n"@, tool.output@);
                lemma_two_parts(said, tool.output@);
                if said.len() == 0 {
                    assert(said + tool.output@ =~= tool.output@);
                }
            } else {
                lemma_two_parts(
                    "research_podcast completed without audio, and direct podcast_generate failed: "@,
                    tool.output@,
                );
            }
        },
        Err(error) => {
            lemma_two_parts(
                "research_podcast completed without audio, and direct podcast_generate errored: "@,
                error@,
            );
        },
    }
}

/// A session ends as completed exactly if its worker succeeded; a failure that
/// speaks of something passing can be tried again, any other is escalated.
pub proof fn passing_failures_are_tried_again(outcome: Result<TaskResultView, Text>)
    ensures
        terminal_kind(outcome) == ChildSessionLifecycleKind::Completed <==> (outcome matches Ok(
            result,
        ) && result.success),
        outcome matches Err(error) ==> (terminal_kind(outcome)
            == ChildSessionLifecycleKind::RetryableFailed <==> retryable_text(error)),
        outcome matches Ok(result) ==> (!result.success ==> (terminal_kind(outcome)
            == ChildSessionLifecycleKind::RetryableFailed <==> retryable_text(result.output))),
        action_for(ChildSessionLifecycleKind::RetryableFailed) == Some(
            ChildSessionFailureAction::Retry,
        ),
        action_for(ChildSessionLifecycleKind::TerminalFailed) == Some(
            ChildSessionFailureAction::Escalate,
        ),
        action_for(ChildSessionLifecycleKind::Completed) is None,
        action_for(ChildSessionLifecycleKind::Spawned) is None,
        final_kind(outcome, None) == terminal_kind(outcome),
{
}

/// Whatever stands around it and in whatever case it is written, each of these
/// words marks a failure as passing.
pub proof fn words_mark_passing_failures(before: Text, word: Text, after: Text)
    requires
        seq![
            "token budget exceeded"@,
            "timed out"@,
            "timeout"@,
            "temporarily"@,
            "retry"@,
            "rate limit"@,
            "connection reset"@,
            "overloaded"@,
            "unavailable"@,
        ].contains(ascii_lower(word)),
    ensures
        retryable_text(before + word + after),
{
    let whole = before + word + after;
    assert(ascii_lower(whole) =~= ascii_lower(before) + ascii_lower(word) + ascii_lower(after));
    lemma_held(ascii_lower(before), ascii_lower(word), ascii_lower(after));
}

/// A text that holds none of the words is no passing failure; so is one that is
/// shorter than all of them.
pub proof fn other_failures_are_final(text: Text)
    requires
        text.len() < 5,
    ensures
        !retryable_text(text),
{
    reveal_strlit("token budget exceeded");
    reveal_strlit("timed out");
    reveal_strlit("timeout");
    reveal_strlit("temporarily");
    reveal_strlit("retry");
    reveal_strlit("rate limit");
    reveal_strlit("connection reset");
    reveal_strlit("overloaded");
    reveal_strlit("unavailable");
    assert(ascii_lower(text).len() < 5);
}

} // verus!
