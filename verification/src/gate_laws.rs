//! What holds of the checks that every piece of work goes through.
use vstd::prelude::*;

use crate::checks::{
    check_failures, delivery_stop, failure_text, failures_in, in_phase, is_run, project_label,
    required_failures, runs_in, sent_files, ActionOutcome, ActionResult, DeliveryStep, ProjectRun,
    ValidatorOutcome, ValidatorPhase, ValidatorView,
};
use crate::child_gate::{
    gate_after, gate_opened, mcp_result, sync_result, ChildGateView, GateStage, McpResponse,
    SpawnMode,
};
use crate::child_session::TaskResultView;
use crate::json::JsonView;
use crate::terminal::WorkspaceProjectKind;
use crate::text::{contains_text, lemma_filter_holds, texts, Text};
use crate::text_laws::lemma_held;
use crate::workspace_contract::{
    announced, contract_start, notice, ContractResultView, EventView, GateView, PolicyRead,
    StageView, TaskRuntimeState,
};

verus! {

// ---------------------------------------------------------------------------
// The checks of a child

/// A child that did not succeed is not checked. One that did is checked by the
/// validators of the session if there are any, and by those of the projects.
pub proof fn checks_begin_with_success(mode: SpawnMode, succeeded: bool, has_validators: bool)
    ensures
        ({
            let gate = gate_opened(mode, succeeded, has_validators);
            &&& gate.mode == mode
            &&& gate.failure is None
            &&& gate.stage == GateStage::Done <==> !succeeded
            &&& gate.stage == GateStage::SessionValidators <==> succeeded && has_validators
            &&& gate.stage == GateStage::ProjectValidators <==> succeeded && !has_validators
        }),
{
}

/// A stage that is passed leads to the next: from the validators of the session to
/// those of the projects, and from there to the files, if the child runs in the
/// background or a contract owns the delivery of a remote agent.
pub proof fn stages_follow_each_other(gate: ChildGateView, contract_owned: bool)
    ensures
        ({
            let next = gate_after(gate, None, contract_owned);
            &&& next.mode == gate.mode
            &&& next.failure == gate.failure
            &&& gate.stage == GateStage::SessionValidators ==> next.stage
                == GateStage::ProjectValidators
            &&& gate.stage == GateStage::ProjectValidators ==> (next.stage
                == GateStage::TerminalFiles <==> gate.mode == SpawnMode::Background || (gate.mode
                == SpawnMode::AgentMcp && contract_owned))
            &&& gate.stage == GateStage::ProjectValidators && next.stage
                != GateStage::TerminalFiles ==> next.stage == GateStage::Done
            &&& gate.stage == GateStage::TerminalFiles || gate.stage == GateStage::Done
                ==> next.stage == GateStage::Done
        }),
{
}

/// A stage that rejects the work ends the checks, and its reason stands at the end of
/// what is said. A remote agent's failure begins with its status, and that of a
/// child that is waited for says which validators rejected it.
pub proof fn rejections_give_their_reason(gate: ChildGateView, reason: Text, contract_owned: bool)
    requires
        gate.stage != GateStage::Done,
    ensures
        ({
            let next = gate_after(gate, Some(reason), contract_owned);
            &&& next.mode == gate.mode
            &&& next.stage == GateStage::Done
            &&& next.failure is Some
            &&& reason.is_suffix_of(next.failure->0)
            &&& gate.mode == SpawnMode::AgentMcp ==> "Status: FAILED\n"@.is_prefix_of(
                next.failure->0,
            )
            &&& gate.mode == SpawnMode::Sync && gate.stage != GateStage::TerminalFiles
                ==> "Subagent failed: "@.is_prefix_of(next.failure->0)
            &&& gate.stage == GateStage::ProjectValidators ==> contains_text(
                next.failure->0,
                "project-scope validator rejected child artifact: "@,
            )
            &&& gate.mode == SpawnMode::Background && gate.stage != GateStage::ProjectValidators
                ==> next.failure->0 == reason
        }),
{
    reveal_strlit("Status: FAILED\n");
    reveal_strlit("Subagent failed: ");
    reveal_strlit("Status: FAILED\nremote_agent_mcp: completion validator rejected child artifact: ");
    reveal_strlit(
        "Status: FAILED\nremote_agent_mcp: project-scope validator rejected child artifact: ",
    );
    reveal_strlit("Subagent failed: contract validator rejected child artifact: ");
    reveal_strlit("Subagent failed: project-scope validator rejected child artifact: ");
    reveal_strlit("project-scope validator rejected child artifact: ");
    reveal_strlit("Status: FAILED\nremote_agent_mcp: ");
    let said = gate_after(gate, Some(reason), contract_owned).failure->0;
    assert(said.subrange(said.len() - reason.len(), said.len() as int) =~= reason);
    let status = "Status: FAILED\n"@;
    let failed = "Subagent failed: "@;
    if gate.mode == SpawnMode::AgentMcp {
        assert(said.subrange(0, status.len() as int) =~= status);
    }
    if gate.mode == SpawnMode::Sync && gate.stage != GateStage::TerminalFiles {
        assert(said.subrange(0, failed.len() as int) =~= failed);
    }
    if gate.stage == GateStage::ProjectValidators {
        let word = "project-scope validator rejected child artifact: "@;
        let none = Seq::<char>::empty();
        let remote = "Status: FAILED\nremote_agent_mcp: "@;
        if gate.mode == SpawnMode::AgentMcp {
            assert(said =~= remote + word + reason);
            lemma_held(remote, word, reason);
        } else if gate.mode == SpawnMode::Sync {
            assert(said =~= failed + word + reason);
            lemma_held(failed, word, reason);
        } else {
            assert(said =~= none + word + reason);
            lemma_held(none, word, reason);
        }
    }
}

/// A remote agent's work counts exactly if it succeeded and nothing rejected it. The
/// answer tells the status first and the output last, and carries the files of the
/// contract if one owns the delivery, else those that the agent named. Work that
/// does not count carries no files; what is said of it is the rejection, else the
/// error, else the output.
pub proof fn remote_answers_tell_the_status(
    response: McpResponse,
    failure: Option<Text>,
    contract_files: Option<Seq<Text>>,
)
    ensures
        ({
            let answer = mcp_result(response, failure, contract_files);
            let counts = response.success && failure is None;
            &&& answer.success == counts
            &&& counts ==> "Status: SUCCESS"@.is_prefix_of(answer.output)
            &&& counts ==> response.output@.is_suffix_of(answer.output)
            &&& counts && contract_files is Some ==> answer.files_to_send == contract_files->0
            &&& counts && contract_files is None ==> answer.files_to_send == texts(
                response.files_to_send@,
            )
            &&& !counts ==> answer.files_to_send.len() == 0
            &&& failure is Some ==> answer.output == failure->0
            &&& !counts && failure is None ==> "Status: FAILED"@.is_prefix_of(answer.output)
            &&& !counts && failure is None && response.error is Some
                ==> response.error->0@.is_suffix_of(answer.output)
            &&& !counts && failure is None && response.error is None
                ==> response.output@.is_suffix_of(answer.output)
        }),
{
    reveal_strlit("Status: SUCCESS");
    reveal_strlit("Status: SUCCESS\n\n");
    reveal_strlit("Status: FAILED");
    reveal_strlit("Status: FAILED\n");
    let said = mcp_result(response, failure, contract_files).output;
    if failure is None {
        let last = if response.success || response.error is None {
            response.output@
        } else {
            response.error->0@
        };
        assert(said.subrange(said.len() - last.len(), said.len() as int) =~= last);
        if response.success {
            assert(said.subrange(0, "Status: SUCCESS"@.len() as int) =~= "Status: SUCCESS"@);
        } else {
            assert(said.subrange(0, "Status: FAILED"@.len() as int) =~= "Status: FAILED"@);
        }
    }
}

/// The work of a child that is waited for counts exactly if it succeeded and nothing
/// rejected it. The answer is the rejection, else the output, and tells what was
/// used; a child that broke off is told with its error.
pub proof fn awaited_answers_tell_the_outcome(
    outcome: Result<TaskResultView, Text>,
    failure: Option<Text>,
)
    ensures
        ({
            let answer = sync_result(outcome, failure);
            &&& answer.success <==> (outcome matches Ok(result) && result.success && failure is None)
            &&& outcome matches Ok(result) ==> answer.tokens_used == Some(result.token_usage)
            &&& outcome is Ok && failure is Some ==> answer.output == failure->0
            &&& outcome is Ok && failure is None ==> answer.output == outcome->Ok_0.output
            &&& outcome matches Err(error) ==> error.is_suffix_of(answer.output)
                && "Subagent failed: "@.is_prefix_of(answer.output)
            &&& answer.files_to_send.len() == 0
        }),
{
    if let Err(error) = outcome {
        crate::text::lemma_two_parts("Subagent failed: "@, error);
    }
}

// ---------------------------------------------------------------------------
// Checks of artifacts

/// Checks count as passed exactly if none failed and all could be run. Each one that
/// did not is told, with its name and the reason.
pub proof fn failed_checks_are_told(outcomes: Seq<ActionOutcome>)
    ensures
        check_failures(outcomes).len() == 0 <==> forall|i: int|
            0 <= i < outcomes.len() ==> !((#[trigger] outcomes[i]).result is Fail)
                && !(outcomes[i].result is Error),
        forall|i: int|
            0 <= i < outcomes.len() && ((#[trigger] outcomes[i]).result is Fail
                || outcomes[i].result is Error) ==> exists|k: int|
                0 <= k < check_failures(outcomes).len() && outcomes[i].action@.is_prefix_of(
                    #[trigger] check_failures(outcomes)[k],
                ) && (match outcomes[i].result {
                    ActionResult::Fail { reason } => reason@,
                    ActionResult::Error { error } => error@,
                    _ => Seq::empty(),
                }).is_suffix_of(check_failures(outcomes)[k]),
    decreases outcomes.len(),
{
    if outcomes.len() > 0 {
        let rest = outcomes.drop_last();
        let n = outcomes.len() - 1;
        failed_checks_are_told(rest);
        let before = check_failures(rest);
        let all = check_failures(outcomes);
        assert(forall|i: int| 0 <= i < n ==> #[trigger] rest[i] == outcomes[i]);
        assert(outcomes.last() == outcomes[n]);
        let failed = outcomes[n].result is Fail || outcomes[n].result is Error;
        assert(failed == failure_text(outcomes[n]) is Some);
        if all.len() == 0 {
            assert forall|i: int| 0 <= i < outcomes.len() implies !((
            #[trigger] outcomes[i]).result is Fail) && !(outcomes[i].result is Error) by {
                if i < n {
                    assert(rest[i] == outcomes[i]);
                }
            }
        } else {
            if !failed {
                assert(before.len() > 0);
                let i = choose|i: int|
                    0 <= i < rest.len() && ((#[trigger] rest[i]).result is Fail
                        || rest[i].result is Error);
                assert(outcomes[i] == rest[i]);
            }
        }
        assert forall|i: int|
            0 <= i < outcomes.len() && ((#[trigger] outcomes[i]).result is Fail
                || outcomes[i].result is Error) implies exists|k: int|
            0 <= k < all.len() && outcomes[i].action@.is_prefix_of(#[trigger] all[k]) && (
            match outcomes[i].result {
                ActionResult::Fail { reason } => reason@,
                ActionResult::Error { error } => error@,
                _ => Seq::empty(),
            }).is_suffix_of(all[k]) by {
            let why = match outcomes[i].result {
                ActionResult::Fail { reason } => reason@,
                ActionResult::Error { error } => error@,
                _ => Seq::empty(),
            };
            if i < n {
                assert(rest[i] == outcomes[i]);
                let k = choose|k: int|
                    0 <= k < before.len() && outcomes[i].action@.is_prefix_of(#[trigger] before[k])
                        && why.is_suffix_of(before[k]);
                assert(all[k] == before[k]);
            } else {
                let said = failure_text(outcomes[n])->0;
                let name = outcomes[n].action@;
                assert(said.subrange(0, name.len() as int) =~= name);
                assert(said.subrange(said.len() - why.len(), said.len() as int) =~= why);
                assert(all[before.len() as int] == said);
            }
        }
    }
}

/// A delivery ends at the first step at which something could not be found, sent or
/// done, and at no other. What is said of it names the file and ends with the
/// reason.
pub proof fn deliveries_stop_at_failures(step: DeliveryStep)
    ensures
        delivery_stop(step) is None <==> match step {
            DeliveryStep::NoTarget { .. } => false,
            DeliveryStep::Sent { success, .. } => success,
            DeliveryStep::NotSent { .. } => false,
            DeliveryStep::Acted { outcome } => outcome.result is Pass || outcome.result is Notify,
        },
        delivery_stop(step) matches Some(said) ==> match step {
            DeliveryStep::NoTarget { error } => error@.is_suffix_of(said),
            DeliveryStep::Sent { path, success, output } => output@.is_suffix_of(said)
                && contains_text(said, path@),
            DeliveryStep::NotSent { path, error } => error@.is_suffix_of(said) && contains_text(
                said,
                path@,
            ),
            DeliveryStep::Acted { outcome } => match outcome.result {
                ActionResult::Fail { reason } => reason@.is_suffix_of(said) && contains_text(
                    said,
                    outcome.action@,
                ),
                ActionResult::Error { error } => error@.is_suffix_of(said),
                _ => true,
            },
        },
{
    if let Some(said) = delivery_stop(step) {
        match step {
            DeliveryStep::NoTarget { error } => {
                assert(said.subrange(said.len() - error@.len(), said.len() as int) =~= error@);
            },
            DeliveryStep::Sent { path, success, output } => {
                let rest = ": "@ + output@;
                assert(said =~= "send_file failed for "@ + path@ + rest);
                lemma_held("send_file failed for "@, path@, rest);
                assert(said.subrange(said.len() - output@.len(), said.len() as int) =~= output@);
            },
            DeliveryStep::NotSent { path, error } => {
                let rest = ": "@ + error@;
                assert(said =~= "send_file failed for "@ + path@ + rest);
                lemma_held("send_file failed for "@, path@, rest);
                assert(said.subrange(said.len() - error@.len(), said.len() as int) =~= error@);
            },
            DeliveryStep::Acted { outcome } => match outcome.result {
                ActionResult::Fail { reason } => {
                    let rest = ": "@ + reason@;
                    assert(said =~= "delivery action failed: "@ + outcome.action@ + rest);
                    lemma_held("delivery action failed: "@, outcome.action@, rest);
                    assert(said.subrange(said.len() - reason@.len(), said.len() as int)
                        =~= reason@);
                },
                ActionResult::Error { error } => {
                    assert(said.subrange(said.len() - error@.len(), said.len() as int) =~= error@);
                },
                _ => {},
            },
        }
    }
}

/// The files of a delivery are those that were sent with success, and no others.
pub proof fn delivered_files_were_sent(steps: Seq<DeliveryStep>, path: Text)
    ensures
        sent_files(steps).contains(path) <==> exists|i: int|
            0 <= i < steps.len() && (match #[trigger] steps[i] {
                DeliveryStep::Sent { path: sent, success, output } => success && sent@ == path,
                _ => false,
            }),
    decreases steps.len(),
{
    if steps.len() > 0 {
        let rest = steps.drop_last();
        let n = steps.len() - 1;
        delivered_files_were_sent(rest, path);
        let before = sent_files(rest);
        let all = sent_files(steps);
        assert(forall|i: int| 0 <= i < n ==> #[trigger] rest[i] == steps[i]);
        assert(steps.last() == steps[n]);
        if all.contains(path) {
            let k = all.index_of(path);
            if k < before.len() {
                assert(before[k] == path);
                assert(before.contains(path));
                let i = choose|i: int|
                    0 <= i < rest.len() && (match #[trigger] rest[i] {
                        DeliveryStep::Sent { path: sent, success, output } => success && sent@
                            == path,
                        _ => false,
                    });
                assert(steps[i] == rest[i]);
            } else {
                assert(steps[n] is Sent);
            }
        }
        if exists|i: int|
            0 <= i < steps.len() && (match #[trigger] steps[i] {
                DeliveryStep::Sent { path: sent, success, output } => success && sent@ == path,
                _ => false,
            }) {
            let i = choose|i: int|
                0 <= i < steps.len() && (match #[trigger] steps[i] {
                    DeliveryStep::Sent { path: sent, success, output } => success && sent@ == path,
                    _ => false,
                });
            if i < n {
                assert(rest[i] == steps[i]);
                assert(before.contains(path));
                assert(all[before.index_of(path)] == path);
            } else {
                assert(all[before.len() as int] == path);
            }
        }
    }
}

// ---------------------------------------------------------------------------
// Validators

/// The validators that run are those of the phase, all of them and no others.
pub proof fn validators_run_in_their_phase(
    list: Seq<ValidatorView>,
    phase: ValidatorPhase,
    one: ValidatorView,
)
    ensures
        in_phase(list, phase).contains(one) <==> list.contains(one) && one.phase == phase,
{
    lemma_filter_holds(list, |v: ValidatorView| v.phase == phase, one);
}

/// A text says that a required validator did not pass, and why.
pub open spec fn tells_failure(said: Text, outcome: ValidatorOutcome) -> bool {
    &&& outcome.required
    &&& !outcome.passed
    &&& outcome.validator_id@.is_prefix_of(said)
    &&& outcome.reason@.is_suffix_of(said)
}

/// Every required validator that did not pass is told, with its name and reason.
pub proof fn required_failures_are_told(outcomes: Seq<ValidatorOutcome>, i: int)
    requires
        0 <= i < outcomes.len(),
        outcomes[i].required,
        !outcomes[i].passed,
    ensures
        exists|k: int|
            0 <= k < required_failures(outcomes).len() && tells_failure(
                #[trigger] required_failures(outcomes)[k],
                outcomes[i],
            ),
    decreases outcomes.len(),
{
    let rest = outcomes.drop_last();
    let before = required_failures(rest);
    let all = required_failures(outcomes);
    if i < outcomes.len() - 1 {
        assert(rest[i] == outcomes[i]);
        required_failures_are_told(rest, i);
        let k = choose|k: int|
            0 <= k < before.len() && tells_failure(#[trigger] before[k], rest[i]);
        assert(all[k] == before[k]);
    } else {
        lemma_failure_worded(outcomes[i]);
        let said = all[before.len() as int];
        assert(said == outcomes[i].validator_id@ + ": "@ + outcomes[i].reason@);
    }
}

proof fn lemma_failure_worded(outcome: ValidatorOutcome)
    requires
        outcome.required,
        !outcome.passed,
    ensures
        tells_failure(outcome.validator_id@ + ": "@ + outcome.reason@, outcome),
{
    let name = outcome.validator_id@;
    let why = outcome.reason@;
    let said = name + ": "@ + why;
    assert(said.subrange(0, name.len() as int) =~= name);
    assert(said.subrange(said.len() - why.len(), said.len() as int) =~= why);
}

/// Nothing is told but that a required validator did not pass.
pub proof fn only_required_failures_are_told(outcomes: Seq<ValidatorOutcome>, k: int)
    requires
        0 <= k < required_failures(outcomes).len(),
    ensures
        exists|i: int|
            0 <= i < outcomes.len() && tells_failure(
                required_failures(outcomes)[k],
                #[trigger] outcomes[i],
            ),
    decreases outcomes.len(),
{
    let rest = outcomes.drop_last();
    let n = outcomes.len() - 1;
    let before = required_failures(rest);
    let all = required_failures(outcomes);
    if k < before.len() {
        assert(all[k] == before[k]);
        only_required_failures_are_told(rest, k);
        let i = choose|i: int|
            0 <= i < rest.len() && tells_failure(before[k], #[trigger] rest[i]);
        assert(outcomes[i] == rest[i]);
    } else {
        lemma_failure_worded(outcomes[n]);
        assert(all[k] == outcomes[n].validator_id@ + ": "@ + outcomes[n].reason@);
    }
}

/// The validators of a project run exactly if it declares some and is of the family
/// that is asked for, if one is.
pub proof fn projects_run_their_validators(
    kind: WorkspaceProjectKind,
    validators: Option<usize>,
    expected: Option<WorkspaceProjectKind>,
)
    ensures
        is_run(kind, validators, expected) <==> (validators matches Some(n) && n > 0) && (
        expected is None || expected == Some(kind)),
{
}

/// A project is named by its family and its own name.
pub proof fn projects_are_named_by_family(slug: Text)
    ensures
        project_label(WorkspaceProjectKind::Slides, slug) == "slides/"@ + slug,
        project_label(WorkspaceProjectKind::Sites, slug) == "sites/"@ + slug,
{
    reveal_strlit("slides");
    reveal_strlit("sites");
    reveal_strlit("/");
    reveal_strlit("slides/");
    reveal_strlit("sites/");
    assert(project_label(WorkspaceProjectKind::Slides, slug) =~= "slides/"@ + slug);
    assert(project_label(WorkspaceProjectKind::Sites, slug) =~= "sites/"@ + slug);
}

/// The projects that are reported as failed are those whose validators ran and
/// failed, each with its reason; so many ran as are said to have run.
pub proof fn failed_projects_are_reported(
    projects: Seq<ProjectRun>,
    expected: Option<WorkspaceProjectKind>,
    label: Text,
    reason: Text,
)
    ensures
        failures_in(projects, expected).contains((label, reason)) <==> exists|i: int|
            0 <= i < projects.len() && (match (#[trigger] projects[i]).failure {
                Some(why) => why@ == reason && label == project_label(
                    projects[i].kind,
                    projects[i].slug@,
                ) && (projects[i].validators matches Some(n) && n > 0) && (expected is None
                    || expected == Some(projects[i].kind)),
                None => false,
            }),
        failures_in(projects, expected).len() <= runs_in(projects, expected) <= projects.len(),
        (forall|i: int|
            0 <= i < projects.len() ==> ((#[trigger] projects[i]).validators matches Some(n) && n
                > 0) && (expected is None || expected == Some(projects[i].kind))) ==> runs_in(
            projects,
            expected,
        ) == projects.len(),
        (forall|i: int|
            0 <= i < projects.len() ==> !((#[trigger] projects[i]).validators matches Some(n) && n
                > 0 && (expected is None || expected == Some(projects[i].kind)))) ==> runs_in(
            projects,
            expected,
        ) == 0,
    decreases projects.len(),
{
    if projects.len() > 0 {
        let rest = projects.drop_last();
        let n = projects.len() - 1;
        failed_projects_are_reported(rest, expected, label, reason);
        let before = failures_in(rest, expected);
        let all = failures_in(projects, expected);
        let one = (label, reason);
        assert(forall|i: int| 0 <= i < n ==> #[trigger] rest[i] == projects[i]);
        assert(projects.last() == projects[n]);
        if all.contains(one) {
            let k = all.index_of(one);
            if k < before.len() {
                assert(before[k] == one);
                assert(before.contains(one));
                let i = choose|i: int|
                    0 <= i < rest.len() && (match (#[trigger] rest[i]).failure {
                        Some(why) => why@ == reason && label == project_label(
                            rest[i].kind,
                            rest[i].slug@,
                        ) && (rest[i].validators matches Some(n) && n > 0) && (expected is None
                            || expected == Some(rest[i].kind)),
                        None => false,
                    });
                assert(projects[i] == rest[i]);
            } else {
                assert(projects[n].failure is Some);
            }
        }
        if exists|i: int|
            0 <= i < projects.len() && (match (#[trigger] projects[i]).failure {
                Some(why) => why@ == reason && label == project_label(
                    projects[i].kind,
                    projects[i].slug@,
                ) && (projects[i].validators matches Some(n) && n > 0) && (expected is None
                    || expected == Some(projects[i].kind)),
                None => false,
            }) {
            let i = choose|i: int|
                0 <= i < projects.len() && (match (#[trigger] projects[i]).failure {
                    Some(why) => why@ == reason && label == project_label(
                        projects[i].kind,
                        projects[i].slug@,
                    ) && (projects[i].validators matches Some(n) && n > 0) && (expected is None
                        || expected == Some(projects[i].kind)),
                    None => false,
                });
            if i < n {
                assert(rest[i] == projects[i]);
                assert(before.contains(one));
                assert(all[before.index_of(one)] == one);
            } else {
                assert(all[before.len() as int] == one);
            }
        }
        if forall|i: int|
            0 <= i < projects.len() ==> ((#[trigger] projects[i]).validators matches Some(n) && n
                > 0) && (expected is None || expected == Some(projects[i].kind)) {
            assert(projects[n].validators is Some);
            assert forall|i: int| 0 <= i < rest.len() implies ((
            #[trigger] rest[i]).validators matches Some(n) && n > 0) && (expected is None
                || expected == Some(rest[i].kind)) by {
                assert(projects[i].validators is Some);
            }
        }
        if forall|i: int|
            0 <= i < projects.len() ==> !((#[trigger] projects[i]).validators matches Some(n) && n
                > 0 && (expected is None || expected == Some(projects[i].kind))) {
            assert(projects[n].validators is None || projects[n].validators is Some);
            assert forall|i: int| 0 <= i < rest.len() implies !((
            #[trigger] rest[i]).validators matches Some(n) && n > 0 && (expected is None || expected
                == Some(rest[i].kind))) by {
                assert(projects[i].validators is None || projects[i].validators is Some);
            }
        }
    }
}

// ---------------------------------------------------------------------------
// The contract of a task

/// A contract begins only if the workspace is known and says something about the
/// task. It fails at once if the policy cannot be read; otherwise it is not
/// configured, which counts against the task exactly if a contract is required: by
/// the default policy of a session, where there is a policy only if that is one of
/// a session.
pub proof fn contracts_begin_where_they_are_configured(
    has_root: bool,
    policy: PolicyRead,
    tool_name: Text,
    required: bool,
    input_args: Option<JsonView>,
    tool_output: Option<JsonView>,
)
    ensures
        ({
            let gate = contract_start(
                has_root,
                policy,
                tool_name,
                required,
                input_args,
                tool_output,
            );
            &&& gate.stage is Finished <==> !(has_root && policy is Found && policy->task is Some)
            &&& has_root ==> (policy matches PolicyRead::Failed { error } ==> (
            gate.stage matches StageView::Finished { result: ContractResultView::Failed {
                error: said,
                notify_user,
            } } && error@.is_suffix_of(said) && notify_user is None))
            &&& !has_root || policy is Missing ==> (
            gate.stage matches StageView::Finished { result: ContractResultView::NotConfigured {
                required: counts,
                reason,
            } } && counts == required && reason is Some == required)
            &&& has_root && policy is Found && policy->task is None ==> (
            gate.stage matches StageView::Finished { result: ContractResultView::NotConfigured {
                required: counts,
                reason,
            } } && counts == (required && policy->is_session) && reason is Some == counts && (counts
                ==> tool_name.is_suffix_of(reason->0)))
            &&& has_root && policy is Found && policy->task is Some ==> {
                let task = policy->task->0;
                &&& gate.stage == StageView::Resolving
                &&& gate.delivers == (task.delivery_actions@.len() > 0)
                &&& gate.notify_user == notice(texts(task.on_failure@))
                &&& gate.input_args == input_args
                &&& gate.tool_output == tool_output
                &&& gate.paths.len() == 0
            }
        }),
{
    if has_root {
        if let PolicyRead::Failed { error } = policy {
            crate::text::lemma_two_parts("workspace contract read failed: "@, error@);
        }
        crate::text::lemma_two_parts("workspace policy is missing spawn_tasks."@, tool_name);
    }
}

/// What the user is told when a task fails is what stands behind the first action
/// that notifies.
pub proof fn the_first_notice_is_told(on_failure: Seq<Text>, i: int)
    requires
        0 <= i < on_failure.len(),
        "notify_user:"@.is_prefix_of(on_failure[i]),
        forall|j: int| 0 <= j < i ==> !"notify_user:"@.is_prefix_of(#[trigger] on_failure[j]),
    ensures
        notice(on_failure) matches Some(text) && on_failure[i] == "notify_user:"@ + text,
    decreases on_failure.len(),
{
    let prefix = "notify_user:"@;
    if i == 0 {
        let text = on_failure[0].skip(prefix.len() as int);
        assert(on_failure[0] =~= prefix + text);
    } else {
        assert(!prefix.is_prefix_of(on_failure[0]));
        let rest = on_failure.drop_first();
        assert forall|j: int| 0 <= j < i - 1 implies !prefix.is_prefix_of(#[trigger] rest[j]) by {
            assert(rest[j] == on_failure[j + 1]);
        }
        assert(rest[i - 1] == on_failure[i]);
        the_first_notice_is_told(rest, i - 1);
    }
}

/// Without an action that notifies the user is told nothing.
pub proof fn without_a_notice_nothing_is_told(on_failure: Seq<Text>)
    requires
        forall|j: int|
            0 <= j < on_failure.len() ==> !"notify_user:"@.is_prefix_of(#[trigger] on_failure[j]),
    ensures
        notice(on_failure) is None,
    decreases on_failure.len(),
{
    if on_failure.len() > 0 {
        assert(!"notify_user:"@.is_prefix_of(on_failure[0]));
        let rest = on_failure.drop_first();
        assert forall|j: int| 0 <= j < rest.len() implies !"notify_user:"@.is_prefix_of(
            #[trigger] rest[j],
        ) by {
            assert(rest[j] == on_failure[j + 1]);
        }
        without_a_notice_nothing_is_told(rest);
    }
}

/// A contract goes from finding the artifacts to verifying, to validating, to
/// delivering them, and is then satisfied; without anything to do for the delivery
/// it is satisfied by the validators. It is satisfied with the files that were
/// delivered, and without a delivery with the artifacts that were found.
pub proof fn contracts_go_through_their_stages(gate: GateView, paths: Seq<Text>, files: Seq<Text>)
    ensures
        ({
            let found = gate.after(EventView::Resolved { paths });
            let passed = gate.after(EventView::Passed);
            let delivered = gate.after(EventView::Delivered { files });
            &&& gate.stage == StageView::Resolving ==> found.stage == StageView::Verifying
                && found.paths == paths
            &&& gate.stage != StageView::Resolving ==> found == gate
            &&& gate.stage == StageView::Verifying ==> passed.stage == StageView::Validating
            &&& gate.stage == StageView::Validating && gate.delivers ==> passed.stage
                == StageView::Delivering
            &&& gate.stage == StageView::Validating && !gate.delivers ==> (
            passed.stage matches StageView::Finished {
                result: ContractResultView::Satisfied { output_files },
            } && output_files == gate.paths)
            &&& gate.stage != StageView::Verifying && gate.stage != StageView::Validating
                ==> passed == gate
            &&& passed.paths == gate.paths
            &&& gate.stage == StageView::Delivering ==> (delivered.stage matches StageView::Finished {
                result: ContractResultView::Satisfied { output_files },
            } && output_files == files)
            &&& gate.stage != StageView::Delivering ==> delivered == gate
        }),
{
}

/// A stage that fails fails the contract with its error and with what the user is to
/// be told, once the failure actions have run.
pub proof fn failures_end_the_contract(gate: GateView, error: Text)
    requires
        !(gate.stage is Failing),
        !(gate.stage is Finished),
    ensures
        gate.after(EventView::Failed { error }).after(EventView::CleanedUp).stage
            == (StageView::Finished {
            result: ContractResultView::Failed { error, notify_user: gate.notify_user },
        }),
{
}

/// The supervisor hears of the verification, of the delivery, and of cleaning up if
/// something is cleaned up, and is told the task.
pub proof fn supervisors_hear_of_the_stages(
    stage: StageView,
    event: EventView,
    tool_name: Text,
    cleans: bool,
)
    ensures
        ({
            let told = announced(stage, event, tool_name, cleans);
            &&& (told matches Some(mark) && mark.0 == TaskRuntimeState::VerifyingOutputs) <==> stage
                == StageView::Resolving && event is Resolved
            &&& (told matches Some(mark) && mark.0 == TaskRuntimeState::DeliveringOutputs) <==> stage
                == StageView::Validating && event is Passed
            &&& (told matches Some(mark) && mark.0 == TaskRuntimeState::CleaningUp) <==> cleans
                && event is Failed && !(stage is Failing) && !(stage is Finished)
            &&& told matches Some(mark) ==> (mark.0 != TaskRuntimeState::CleaningUp
                ==> tool_name.is_suffix_of(mark.1))
            &&& told matches Some(mark) ==> mark.0 != TaskRuntimeState::ResolvingOutputs
        }),
{
    crate::text::lemma_two_parts("verify outputs for "@, tool_name);
    crate::text::lemma_two_parts("handoff outputs for "@, tool_name);
}

} // verus!
