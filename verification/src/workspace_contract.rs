//! The contract of a workspace: what a background task must have written, how
//! it is verified, and what is delivered.
use vstd::prelude::*;

use crate::json::{copy_json, opt_json, Json, JsonView};
use crate::text::{copy_list, copy_opt, in_list, opt_text, starts_with, texts, Text};

verus! {

/// What the contract of a background task came to.
#[derive(Debug)]
pub enum SpawnTaskContractResult {
    NotConfigured { required: bool, reason: Option<String> },
    Satisfied { output_files: Vec<String> },
    Failed { error: String, notify_user: Option<String> },
}

#[verifier::ext_equal]
pub enum ContractResultView {
    NotConfigured { required: bool, reason: Option<Text> },
    Satisfied { output_files: Seq<Text> },
    Failed { error: Text, notify_user: Option<Text> },
}

impl View for SpawnTaskContractResult {
    type V = ContractResultView;

    open spec fn view(&self) -> ContractResultView {
        match *self {
            SpawnTaskContractResult::NotConfigured { required, reason } => {
                ContractResultView::NotConfigured { required, reason: opt_text(reason) }
            },
            SpawnTaskContractResult::Satisfied { output_files } => {
                ContractResultView::Satisfied { output_files: texts(output_files@) }
            },
            SpawnTaskContractResult::Failed { error, notify_user } => {
                ContractResultView::Failed { error: error@, notify_user: opt_text(notify_user) }
            },
        }
    }
}

/// What a workspace says about one kind of background task.
#[derive(Debug)]
pub struct SpawnTaskPolicy {
    /// The artifacts that the task writes.
    pub artifact_sources: Vec<String>,
    /// What is checked of them.
    pub on_verify: Vec<String>,
    /// How they are delivered.
    pub delivery_actions: Vec<String>,
    /// What is done if the task fails its contract.
    pub on_failure: Vec<String>,
}

/// What reading the policy of a workspace gave.
#[derive(Debug)]
pub enum PolicyRead {
    Failed { error: String },
    Missing,
    /// There is a policy. It may be that of a session, and it may say nothing
    /// about the task.
    Found { is_session: bool, task: Option<SpawnTaskPolicy> },
}

// ---------------------------------------------------------------------------
// What failure actions say

/// What follows a prefix in the first item of a list that begins with it.
pub open spec fn first_after(list: Seq<Text>, prefix: Text) -> Option<Text>
    decreases list.len(),
{
    if list.len() == 0 {
        None
    } else if prefix.is_prefix_of(list[0]) {
        Some(list[0].skip(prefix.len() as int))
    } else {
        first_after(list.drop_first(), prefix)
    }
}

/// What follows a prefix.
fn after_prefix(s: &str, prefix: &str) -> (r: Option<String>)
    ensures
        match r {
            Some(rest) => prefix@.is_prefix_of(s@) && rest@ == s@.skip(prefix@.len() as int),
            None => !prefix@.is_prefix_of(s@),
        },
{
    if !starts_with(s, prefix) {
        return None;
    }
    let n = s.unicode_len();
    let m = prefix.unicode_len();
    proof {
        assert(s@.subrange(m as int, n as int) =~= s@.skip(m as int));
    }
    Some(s.substring_char(m, n).to_owned())
}

/// What the user is told if the task fails its contract.
pub open spec fn notice(on_failure: Seq<Text>) -> Option<Text> {
    first_after(on_failure, "notify_user:"@)
}

/// What the user is told if the task fails its contract.
pub fn extract_notify_user(on_failure: &[String]) -> (r: Option<String>)
    ensures
        opt_text(r) == notice(texts(on_failure@)),
{
    let ghost all = texts(on_failure@);
    let mut i: usize = 0;
    proof {
        assert(all.skip(0) =~= all);
    }
    while i < on_failure.len()
        invariant
            i <= on_failure.len(),
            all == texts(on_failure@),
            notice(all) == first_after(all.skip(i as int), "notify_user:"@),
        decreases on_failure.len() - i,
    {
        proof {
            assert(all.skip(i as int)[0] == on_failure@[i as int]@);
            assert(all.skip(i as int).drop_first() =~= all.skip(i + 1));
        }
        if let Some(rest) = after_prefix(on_failure[i].as_str(), "notify_user:") {
            return Some(rest);
        }
        i += 1;
    }
    None
}

/// Some action of a list cleans up.
pub open spec fn cleans_up(on_failure: Seq<Text>) -> bool {
    exists|i: int| 0 <= i < on_failure.len() && "cleanup:"@.is_prefix_of(#[trigger] on_failure[i])
}

/// Whether the failure actions clean up.
pub fn run_failure_actions(on_failure: &[String]) -> (r: bool)
    ensures
        r == cleans_up(texts(on_failure@)),
{
    let ghost all = texts(on_failure@);
    let mut i: usize = 0;
    while i < on_failure.len()
        invariant
            i <= on_failure.len(),
            all == texts(on_failure@),
            forall|j: int| 0 <= j < i ==> !"cleanup:"@.is_prefix_of(#[trigger] all[j]),
        decreases on_failure.len() - i,
    {
        proof {
            assert(all[i as int] == on_failure@[i as int]@);
        }
        if starts_with(on_failure[i].as_str(), "cleanup:") {
            return true;
        }
        i += 1;
    }
    false
}

// ---------------------------------------------------------------------------
// The course of a contract

/// How far the contract of a task has come.
#[derive(Debug)]
pub enum ContractStage {
    Resolving,
    Verifying,
    Validating,
    Delivering,
    /// The failure actions run.
    Failing { error: String },
    Finished { result: SpawnTaskContractResult },
}

#[verifier::ext_equal]
pub enum StageView {
    Resolving,
    Verifying,
    Validating,
    Delivering,
    Failing { error: Text },
    Finished { result: ContractResultView },
}

impl View for ContractStage {
    type V = StageView;

    open spec fn view(&self) -> StageView {
        match *self {
            ContractStage::Resolving => StageView::Resolving,
            ContractStage::Verifying => StageView::Verifying,
            ContractStage::Validating => StageView::Validating,
            ContractStage::Delivering => StageView::Delivering,
            ContractStage::Failing { error } => StageView::Failing { error: error@ },
            ContractStage::Finished { result } => StageView::Finished { result: result@ },
        }
    }
}

/// What came of a stage.
#[derive(Debug)]
pub enum ContractEvent {
    /// The artifacts were found.
    Resolved { paths: Vec<String> },
    /// The check passed.
    Passed,
    /// The artifacts were delivered.
    Delivered { files: Vec<String> },
    /// The stage failed.
    Failed { error: String },
    /// The failure actions have run.
    CleanedUp,
}

#[verifier::ext_equal]
pub enum EventView {
    Resolved { paths: Seq<Text> },
    Passed,
    Delivered { files: Seq<Text> },
    Failed { error: Text },
    CleanedUp,
}

impl View for ContractEvent {
    type V = EventView;

    open spec fn view(&self) -> EventView {
        match *self {
            ContractEvent::Resolved { paths } => EventView::Resolved { paths: texts(paths@) },
            ContractEvent::Passed => EventView::Passed,
            ContractEvent::Delivered { files } => EventView::Delivered { files: texts(files@) },
            ContractEvent::Failed { error } => EventView::Failed { error: error@ },
            ContractEvent::CleanedUp => EventView::CleanedUp,
        }
    }
}

/// A contract under way.
#[derive(Debug)]
pub struct ContractGate {
    /// What the user is told if it fails.
    pub notify_user: Option<String>,
    /// There is something to do for the delivery.
    pub delivers: bool,
    /// The artifacts that were found.
    pub paths: Vec<String>,
    /// The arguments of the task, for the validators.
    pub input_args: Option<Json>,
    /// What the task gave out by name, for the validators.
    pub tool_output: Option<Json>,
    pub stage: ContractStage,
}

#[verifier::ext_equal]
pub struct GateView {
    pub notify_user: Option<Text>,
    pub delivers: bool,
    pub paths: Seq<Text>,
    pub input_args: Option<JsonView>,
    pub tool_output: Option<JsonView>,
    pub stage: StageView,
}

pub(crate) fn copy_opt_json(value: &Option<Json>) -> (r: Option<Json>)
    ensures
        opt_json(r) == opt_json(*value),
{
    match value {
        Some(value) => Some(copy_json(value)),
        None => None,
    }
}

impl View for ContractGate {
    type V = GateView;

    open spec fn view(&self) -> GateView {
        GateView {
            notify_user: opt_text(self.notify_user),
            delivers: self.delivers,
            paths: texts(self.paths@),
            input_args: opt_json(self.input_args),
            tool_output: opt_json(self.tool_output),
            stage: self.stage@,
        }
    }
}

impl GateView {
    pub open spec fn finished(result: ContractResultView) -> GateView {
        GateView {
            notify_user: None,
            delivers: false,
            paths: Seq::empty(),
            input_args: None,
            tool_output: None,
            stage: StageView::Finished { result },
        }
    }

    /// The contract after an event. An event that does not fit changes nothing.
    pub open spec fn after(self, event: EventView) -> GateView {
        match (self.stage, event) {
            (StageView::Resolving, EventView::Resolved { paths }) => GateView {
                paths,
                stage: StageView::Verifying,
                ..self
            },
            (StageView::Verifying, EventView::Passed) => GateView {
                stage: StageView::Validating,
                ..self
            },
            (StageView::Validating, EventView::Passed) => GateView {
                stage: if self.delivers {
                    StageView::Delivering
                } else {
                    StageView::Finished {
                        result: ContractResultView::Satisfied { output_files: self.paths },
                    }
                },
                ..self
            },
            (StageView::Delivering, EventView::Delivered { files }) => GateView {
                stage: StageView::Finished {
                    result: ContractResultView::Satisfied { output_files: files },
                },
                ..self
            },
            (StageView::Resolving, EventView::Failed { error }) => self.failing(error),
            (StageView::Verifying, EventView::Failed { error }) => self.failing(error),
            (StageView::Validating, EventView::Failed { error }) => self.failing(error),
            (StageView::Delivering, EventView::Failed { error }) => self.failing(error),
            (StageView::Failing { error }, EventView::CleanedUp) => GateView {
                stage: StageView::Finished {
                    result: ContractResultView::Failed { error, notify_user: self.notify_user },
                },
                ..self
            },
            _ => self,
        }
    }

    pub open spec fn failing(self, error: Text) -> GateView {
        GateView { stage: StageView::Failing { error }, ..self }
    }

    /// The contract after some events.
    pub open spec fn run(self, events: Seq<EventView>) -> GateView
        decreases events.len(),
    {
        if events.len() == 0 {
            self
        } else {
            self.run(events.drop_last()).after(events.last())
        }
    }
}

/// What is said if there is no contract where one is required.
pub open spec fn not_configured(required: bool, reason: Text) -> ContractResultView {
    ContractResultView::NotConfigured {
        required,
        reason: if required {
            Some(reason)
        } else {
            None
        },
    }
}

/// The contract of a task at its beginning. `required` says that the default
/// policy of a session has a contract for the task.
pub open spec fn contract_start(
    has_root: bool,
    policy: PolicyRead,
    tool_name: Text,
    required: bool,
    input_args: Option<JsonView>,
    tool_output: Option<JsonView>,
) -> GateView {
    if !has_root {
        GateView::finished(not_configured(required, "workspace root unavailable"@))
    } else {
        match policy {
            PolicyRead::Missing => GateView::finished(
                not_configured(required, "workspace policy not found"@),
            ),
            PolicyRead::Failed { error } => GateView::finished(
                ContractResultView::Failed {
                    error: "workspace contract read failed: "@ + error@,
                    notify_user: None,
                },
            ),
            PolicyRead::Found { is_session, task: None } => GateView::finished(
                not_configured(
                    is_session && required,
                    "workspace policy is missing spawn_tasks."@ + tool_name,
                ),
            ),
            PolicyRead::Found { is_session, task: Some(task) } => GateView {
                notify_user: notice(texts(task.on_failure@)),
                delivers: task.delivery_actions@.len() > 0,
                paths: Seq::empty(),
                input_args,
                tool_output,
                stage: StageView::Resolving,
            },
        }
    }
}

/// Whether the default policy of a session has a contract for a task.
pub fn default_session_policy_requires_contract(default_tasks: &[String], tool_name: &str) -> (r: bool)
    ensures
        r == texts(default_tasks@).contains(tool_name@),
{
    in_list(default_tasks, tool_name)
}

fn finished(result: SpawnTaskContractResult) -> (r: ContractGate)
    ensures
        r@ == GateView::finished(result@),
{
    let r = ContractGate {
        notify_user: None,
        delivers: false,
        paths: Vec::new(),
        input_args: None,
        tool_output: None,
        stage: ContractStage::Finished { result },
    };
    proof {
        assert(r@ =~= GateView::finished(result@));
    }
    r
}

fn unconfigured(required: bool, reason: String) -> (r: ContractGate)
    ensures
        r@ == GateView::finished(not_configured(required, reason@)),
{
    finished(
        SpawnTaskContractResult::NotConfigured {
            required,
            reason: if required {
                Some(reason)
            } else {
                None
            },
        },
    )
}

/// The contract of a task at its beginning, from what is known of the
/// workspace.
pub fn enforce_spawn_task_contract(
    has_root: bool,
    policy: &PolicyRead,
    tool_name: &str,
    required_by_default: bool,
) -> (r: ContractGate)
    ensures
        r@ == contract_start(has_root, *policy, tool_name@, required_by_default, None, None),
{
    enforce_spawn_task_contract_with_args_and_output(
        has_root,
        policy,
        tool_name,
        required_by_default,
        &None,
        &None,
    )
}

/// The contract of a task at its beginning. The validators will see the
/// arguments of the task.
pub fn enforce_spawn_task_contract_with_args(
    has_root: bool,
    policy: &PolicyRead,
    tool_name: &str,
    required_by_default: bool,
    input_args: &Option<Json>,
) -> (r: ContractGate)
    ensures
        r@ == contract_start(
            has_root,
            *policy,
            tool_name@,
            required_by_default,
            opt_json(*input_args),
            None,
        ),
{
    enforce_spawn_task_contract_with_args_and_output(
        has_root,
        policy,
        tool_name,
        required_by_default,
        input_args,
        &None,
    )
}

/// The contract of a task at its beginning. The validators will see the
/// arguments of the task and what it gave out by name.
pub fn enforce_spawn_task_contract_with_args_and_output(
    has_root: bool,
    policy: &PolicyRead,
    tool_name: &str,
    required_by_default: bool,
    input_args: &Option<Json>,
    tool_named_outputs: &Option<Json>,
) -> (r: ContractGate)
    ensures
        r@ == contract_start(
            has_root,
            *policy,
            tool_name@,
            required_by_default,
            opt_json(*input_args),
            opt_json(*tool_named_outputs),
        ),
{
    if !has_root {
        return unconfigured(required_by_default, "workspace root unavailable".to_owned());
    }
    match policy {
        PolicyRead::Missing => unconfigured(
            required_by_default,
            "workspace policy not found".to_owned(),
        ),
        PolicyRead::Failed { error } => {
            let mut text = "workspace contract read failed: ".to_owned();
            text.append(error.as_str());
            finished(SpawnTaskContractResult::Failed { error: text, notify_user: None })
        },
        PolicyRead::Found { is_session, task } => match task {
            None => {
                let mut text = "workspace policy is missing spawn_tasks.".to_owned();
                text.append(tool_name);
                unconfigured(*is_session && required_by_default, text)
            },
            Some(task) => {
                let r = ContractGate {
                    notify_user: extract_notify_user(task.on_failure.as_slice()),
                    delivers: task.delivery_actions.len() > 0,
                    paths: Vec::new(),
                    input_args: copy_opt_json(input_args),
                    tool_output: copy_opt_json(tool_named_outputs),
                    stage: ContractStage::Resolving,
                };
                proof {
                    assert(texts(r.paths@) =~= Seq::empty());
                }
                r
            },
        },
    }
}

/// What the supervisor of a task is told.
#[derive(Debug, Clone, Copy, PartialEq, Eq, Structural)]
pub enum TaskRuntimeState {
    ResolvingOutputs,
    VerifyingOutputs,
    DeliveringOutputs,
    CleaningUp,
}

/// What the supervisor is told when an event moves a contract on: the delivery
/// is announced even if there is nothing to do for it, and cleaning up only if
/// something is cleaned up.
pub open spec fn announced(
    stage: StageView,
    event: EventView,
    tool_name: Text,
    cleans: bool,
) -> Option<(TaskRuntimeState, Text)> {
    match (stage, event) {
        (StageView::Resolving, EventView::Resolved { .. }) => Some(
            (TaskRuntimeState::VerifyingOutputs, "verify outputs for "@ + tool_name),
        ),
        (StageView::Validating, EventView::Passed) => Some(
            (TaskRuntimeState::DeliveringOutputs, "handoff outputs for "@ + tool_name),
        ),
        (StageView::Resolving, EventView::Failed { .. }) => cleaning(cleans),
        (StageView::Verifying, EventView::Failed { .. }) => cleaning(cleans),
        (StageView::Validating, EventView::Failed { .. }) => cleaning(cleans),
        (StageView::Delivering, EventView::Failed { .. }) => cleaning(cleans),
        _ => None,
    }
}

pub open spec fn cleaning(cleans: bool) -> Option<(TaskRuntimeState, Text)> {
    if cleans {
        Some((TaskRuntimeState::CleaningUp, "cleanup failed outputs"@))
    } else {
        None
    }
}

fn announce(what: &str, tool_name: &str) -> (r: String)
    ensures
        r@ == what@ + tool_name@,
{
    let mut r = what.to_owned();
    r.append(tool_name);
    r
}

/// What the supervisor is told when the artifacts of a task are looked for.
pub fn resolving_mark(tool_name: &str) -> (r: (TaskRuntimeState, String))
    ensures
        r.0 == TaskRuntimeState::ResolvingOutputs,
        r.1@ == "resolve outputs for "@ + tool_name@,
{
    (TaskRuntimeState::ResolvingOutputs, announce("resolve outputs for ", tool_name))
}

impl ContractGate {
    /// Moves a contract on, and says what the supervisor is told.
    pub fn advance(&mut self, event: ContractEvent, tool_name: &str, cleans: bool) -> (r: Option<
        (TaskRuntimeState, String),
    >)
        ensures
            final(self)@ == old(self)@.after(event@),
            match r {
                Some(mark) => announced(old(self)@.stage, event@, tool_name@, cleans) == Some(
                    (mark.0, mark.1@),
                ),
                None => announced(old(self)@.stage, event@, tool_name@, cleans) is None,
            },
    {
        match event {
            ContractEvent::Resolved { paths } => match self.stage {
                ContractStage::Resolving => {
                    self.paths = paths;
                    self.stage = ContractStage::Verifying;
                    Some(
                        (
                            TaskRuntimeState::VerifyingOutputs,
                            announce("verify outputs for ", tool_name),
                        ),
                    )
                },
                _ => None,
            },
            ContractEvent::Passed => match self.stage {
                ContractStage::Verifying => {
                    self.stage = ContractStage::Validating;
                    None
                },
                ContractStage::Validating => {
                    if self.delivers {
                        self.stage = ContractStage::Delivering;
                    } else {
                        let output_files = copy_list(self.paths.as_slice());
                        self.stage = ContractStage::Finished {
                            result: SpawnTaskContractResult::Satisfied { output_files },
                        };
                    }
                    Some(
                        (
                            TaskRuntimeState::DeliveringOutputs,
                            announce("handoff outputs for ", tool_name),
                        ),
                    )
                },
                _ => None,
            },
            ContractEvent::Delivered { files } => match self.stage {
                ContractStage::Delivering => {
                    self.stage = ContractStage::Finished {
                        result: SpawnTaskContractResult::Satisfied { output_files: files },
                    };
                    None
                },
                _ => None,
            },
            ContractEvent::Failed { error } => match self.stage {
                ContractStage::Failing { .. } => None,
                ContractStage::Finished { .. } => None,
                _ => {
                    self.stage = ContractStage::Failing { error };
                    if cleans {
                        Some((TaskRuntimeState::CleaningUp, "cleanup failed outputs".to_owned()))
                    } else {
                        None
                    }
                },
            },
            ContractEvent::CleanedUp => {
                let failed = match &self.stage {
                    ContractStage::Failing { error } => Some(error.clone()),
                    _ => None,
                };
                if let Some(error) = failed {
                    let notify_user = copy_opt(&self.notify_user);
                    self.stage = ContractStage::Finished {
                        result: SpawnTaskContractResult::Failed { error, notify_user },
                    };
                }
                None
            },
        }
    }
}

/// A contract that failed a stage never ends as satisfied.
pub proof fn a_failed_contract_is_never_satisfied(start: GateView, events: Seq<EventView>, k: int)
    requires
        0 <= k < events.len(),
        events[k] is Failed,
        !(start.run(events.take(k)).stage is Finished),
    ensures
        !(start.run(events).stage matches StageView::Finished { result }
            && result is Satisfied),
    decreases events.len(),
{
    let rest = events.drop_last();
    assert(events.take(k) =~= rest.take(k));
    if k == events.len() - 1 {
        assert(rest =~= events.take(k));
    } else {
        a_failed_contract_is_never_satisfied(start, rest, k);
        lemma_failed_stays(start, rest, k);
    }
}

/// Once a stage failed, the contract is failing or has failed.
proof fn lemma_failed_stays(start: GateView, events: Seq<EventView>, k: int)
    requires
        0 <= k < events.len(),
        events[k] is Failed,
        !(start.run(events.take(k)).stage is Finished),
    ensures
        start.run(events).stage is Failing || (start.run(events).stage matches StageView::Finished {
            result,
        } && result is Failed),
    decreases events.len(),
{
    let rest = events.drop_last();
    assert(events.take(k) =~= rest.take(k));
    if k == events.len() - 1 {
        assert(rest =~= events.take(k));
    } else {
        lemma_failed_stays(start, rest, k);
    }
}

/// A satisfied contract that was under way passed every stage: its artifacts
/// were found, verified, and validated, and delivered where there was something
/// to deliver.
pub proof fn a_satisfied_contract_passed_every_stage(start: GateView, events: Seq<EventView>)
    requires
        start.stage is Resolving,
        start.run(events).stage matches StageView::Finished { result } && result is Satisfied,
    ensures
        exists|a: int, b: int, c: int|
            {
                &&& 0 <= a < b < c < events.len()
                &&& (#[trigger] events[a]) is Resolved
                &&& (#[trigger] events[b]) is Passed
                &&& (#[trigger] events[c]) is Passed
            },
        start.delivers ==> exists|d: int|
            0 <= d < events.len() && (#[trigger] events[d]) is Delivered,
{
    lemma_stage_history(start, events);
}

/// What must have happened for a contract to be at its stage.
spec fn history(start: GateView, events: Seq<EventView>) -> bool {
    let now = start.run(events);
    let found = exists|a: int| 0 <= a < events.len() && (#[trigger] events[a]) is Resolved;
    &&& now.delivers == start.delivers
    &&& now.stage is Verifying ==> found
    &&& now.stage is Validating ==> exists|a: int, b: int|
        0 <= a < b < events.len() && (#[trigger] events[a]) is Resolved && (#[trigger] events[b])
            is Passed
    &&& (now.stage is Delivering || (now.stage matches StageView::Finished { result } && result is
        Satisfied)) ==> exists|a: int, b: int, c: int|
        0 <= a < b < c < events.len() && (#[trigger] events[a]) is Resolved && (#[trigger] events[b])
            is Passed && (#[trigger] events[c]) is Passed
    &&& now.stage is Delivering ==> now.delivers
    &&& (now.stage matches StageView::Finished { result } && result is Satisfied)
        && now.delivers ==> exists|d: int|
        0 <= d < events.len() && (#[trigger] events[d]) is Delivered
}

proof fn lemma_stage_history(start: GateView, events: Seq<EventView>)
    requires
        start.stage is Resolving,
    ensures
        history(start, events),
    decreases events.len(),
{
    if events.len() > 0 {
        let rest = events.drop_last();
        lemma_stage_history(start, rest);
        let before = start.run(rest);
        let now = start.run(events);
        let last = events.len() - 1;
        assert(forall|i: int| 0 <= i < rest.len() ==> rest[i] == #[trigger] events[i]);
        if now.stage is Verifying {
            if before.stage is Verifying {
                let a = choose|a: int| 0 <= a < rest.len() && (#[trigger] rest[a]) is Resolved;
                assert(events[a] is Resolved);
            } else {
                assert(events[last] is Resolved);
            }
        }
        if now.stage is Validating {
            if before.stage is Validating {
                let (a, b) = choose|a: int, b: int|
                    0 <= a < b < rest.len() && (#[trigger] rest[a]) is Resolved && (
                    #[trigger] rest[b]) is Passed;
                assert(events[a] is Resolved && events[b] is Passed);
            } else {
                let a = choose|a: int| 0 <= a < rest.len() && (#[trigger] rest[a]) is Resolved;
                assert(events[a] is Resolved && events[last] is Passed);
            }
        }
        let good_now = now.stage is Delivering || (now.stage matches StageView::Finished { result }
            && result is Satisfied);
        let good_before = before.stage is Delivering || (before.stage matches StageView::Finished {
            result,
        } && result is Satisfied);
        if good_now {
            if good_before {
                let (a, b, c) = choose|a: int, b: int, c: int|
                    0 <= a < b < c < rest.len() && (#[trigger] rest[a]) is Resolved && (
                    #[trigger] rest[b]) is Passed && (#[trigger] rest[c]) is Passed;
                assert(events[a] is Resolved && events[b] is Passed && events[c] is Passed);
            } else {
                let (a, b) = choose|a: int, b: int|
                    0 <= a < b < rest.len() && (#[trigger] rest[a]) is Resolved && (
                    #[trigger] rest[b]) is Passed;
                assert(events[a] is Resolved && events[b] is Passed && events[last] is Passed);
            }
        }
        if (now.stage matches StageView::Finished { result } && result is Satisfied)
            && now.delivers {
            if before.stage is Finished {
                let d = choose|d: int| 0 <= d < rest.len() && (#[trigger] rest[d]) is Delivered;
                assert(events[d] is Delivered);
            } else {
                assert(events[last] is Delivered);
            }
        }
    }
}

} // verus!
