//! Checks of artifacts, their delivery, and the validators that a workspace
//! declares.
use vstd::prelude::*;

use crate::json::{members_view, opt_json, put, str_value, Json, JsonMember, JsonView};
use crate::terminal::{kind_directory, WorkspaceProjectKind};
use crate::text::{copy_list, join, joined, lemma_texts_push, opt_text, starts_with, texts, Text};
use crate::workspace_contract::{copy_opt_json, ContractGate};

verus! {

// ---------------------------------------------------------------------------
// Checks

/// What an action came to.
#[derive(Debug)]
pub enum ActionResult {
    Pass,
    Notify,
    Fail { reason: String },
    /// The action could not be run.
    Error { error: String },
}

/// An action and what it came to.
#[derive(Debug)]
pub struct ActionOutcome {
    pub action: String,
    pub result: ActionResult,
}

/// What a failed check says.
pub open spec fn failure_text(outcome: ActionOutcome) -> Option<Text> {
    match outcome.result {
        ActionResult::Pass => None,
        ActionResult::Notify => None,
        ActionResult::Fail { reason } => Some(outcome.action@ + ": "@ + reason@),
        ActionResult::Error { error } => Some(
            outcome.action@ + ": validator error: "@ + error@,
        ),
    }
}

/// What the failed checks say.
pub open spec fn check_failures(outcomes: Seq<ActionOutcome>) -> Seq<Text>
    decreases outcomes.len(),
{
    if outcomes.len() == 0 {
        Seq::empty()
    } else {
        let before = check_failures(outcomes.drop_last());
        match failure_text(outcomes.last()) {
            Some(text) => before.push(text),
            None => before,
        }
    }
}

/// Whether all checks passed, or what the failed ones say.
pub fn run_verify_actions(outcomes: &[ActionOutcome]) -> (r: Result<(), String>)
    ensures
        match r {
            Ok(_) => check_failures(outcomes@).len() == 0,
            Err(error) => check_failures(outcomes@).len() > 0 && error@ == joined(
                check_failures(outcomes@),
                "; "@,
            ),
        },
{
    let mut failures: Vec<String> = Vec::new();
    let mut i: usize = 0;
    proof {
        assert(outcomes@.take(0) =~= Seq::empty());
        assert(texts(failures@) =~= Seq::empty());
    }
    while i < outcomes.len()
        invariant
            i <= outcomes.len(),
            texts(failures@) == check_failures(outcomes@.take(i as int)),
        decreases outcomes.len() - i,
    {
        proof {
            assert(outcomes@.take(i + 1).drop_last() =~= outcomes@.take(i as int));
        }
        let outcome = &outcomes[i];
        let said = match &outcome.result {
            ActionResult::Pass => None,
            ActionResult::Notify => None,
            ActionResult::Fail { reason } => {
                let mut text = outcome.action.clone();
                text.append(": ");
                text.append(reason.as_str());
                Some(text)
            },
            ActionResult::Error { error } => {
                let mut text = outcome.action.clone();
                text.append(": validator error: ");
                text.append(error.as_str());
                Some(text)
            },
        };
        if let Some(text) = said {
            proof {
                lemma_texts_push(failures@, text);
            }
            failures.push(text);
        }
        i += 1;
    }
    proof {
        assert(outcomes@.take(outcomes@.len() as int) =~= outcomes@);
    }
    if failures.len() == 0 {
        Ok(())
    } else {
        Err(join(failures.as_slice(), "; "))
    }
}

// ---------------------------------------------------------------------------
// Delivery

/// What the action sends, if it sends files.
pub fn send_target(action: &str) -> (r: Option<String>)
    ensures
        match r {
            Some(target) => "send_file:"@.is_prefix_of(action@) && target@ == action@.skip(
                "send_file:"@.len() as int,
            ),
            None => !"send_file:"@.is_prefix_of(action@),
        },
{
    if !starts_with(action, "send_file:") {
        return None;
    }
    let n = action.unicode_len();
    let m = "send_file:".unicode_len();
    proof {
        assert(action@.subrange(m as int, n as int) =~= action@.skip(m as int));
    }
    Some(action.substring_char(m, n).to_owned())
}

/// The arguments of the call that sends a file.
pub fn send_args(path: &str, tool_call_id: &str) -> (r: Json)
    ensures
        r@ == JsonView::Object(
            seq![
                ("file_path"@, JsonView::Str(path@)),
                ("tool_call_id"@, JsonView::Str(tool_call_id@)),
            ],
        ),
{
    let mut members: Vec<JsonMember> = Vec::new();
    put(&mut members, "file_path", str_value(path));
    put(&mut members, "tool_call_id", str_value(tool_call_id));
    proof {
        assert(members_view(members@) =~= seq![
            ("file_path"@, JsonView::Str(path@)),
            ("tool_call_id"@, JsonView::Str(tool_call_id@)),
        ]);
    }
    Json::Object(members)
}

/// One step of a delivery.
#[derive(Debug)]
pub enum DeliveryStep {
    /// The files of a target could not be found.
    NoTarget { error: String },
    /// The tool that sends files answered.
    Sent { path: String, success: bool, output: String },
    /// The tool that sends files failed.
    NotSent { path: String, error: String },
    /// Another action ran.
    Acted { outcome: ActionOutcome },
}

/// Why a step ends a delivery, if it does.
pub open spec fn delivery_stop(step: DeliveryStep) -> Option<Text> {
    match step {
        DeliveryStep::NoTarget { error } => Some(
            "send_file target resolution failed: "@ + error@,
        ),
        DeliveryStep::Sent { path, success, output } => if success {
            None
        } else {
            Some("send_file failed for "@ + path@ + ": "@ + output@)
        },
        DeliveryStep::NotSent { path, error } => Some(
            "send_file failed for "@ + path@ + ": "@ + error@,
        ),
        DeliveryStep::Acted { outcome } => match outcome.result {
            ActionResult::Pass => None,
            ActionResult::Notify => None,
            ActionResult::Fail { reason } => Some(
                "delivery action failed: "@ + outcome.action@ + ": "@ + reason@,
            ),
            ActionResult::Error { error } => Some("delivery action error: "@ + error@),
        },
    }
}

/// The files that were sent.
pub open spec fn sent_files(steps: Seq<DeliveryStep>) -> Seq<Text>
    decreases steps.len(),
{
    if steps.len() == 0 {
        Seq::empty()
    } else {
        let before = sent_files(steps.drop_last());
        match steps.last() {
            DeliveryStep::Sent { path, success, output } => if success {
                before.push(path@)
            } else {
                before
            },
            _ => before,
        }
    }
}

/// `k` is the first step that ends a delivery.
pub open spec fn stops_at(steps: Seq<DeliveryStep>, k: int) -> bool {
    &&& 0 <= k < steps.len()
    &&& delivery_stop(steps[k]) is Some
    &&& forall|j: int| 0 <= j < k ==> delivery_stop(#[trigger] steps[j]) is None
}

fn stop_text(step: &DeliveryStep) -> (r: Option<String>)
    ensures
        opt_text(r) == delivery_stop(*step),
{
    match step {
        DeliveryStep::NoTarget { error } => {
            let mut text = "send_file target resolution failed: ".to_owned();
            text.append(error.as_str());
            Some(text)
        },
        DeliveryStep::Sent { path, success, output } => {
            if *success {
                None
            } else {
                let mut text = "send_file failed for ".to_owned();
                text.append(path.as_str());
                text.append(": ");
                text.append(output.as_str());
                Some(text)
            }
        },
        DeliveryStep::NotSent { path, error } => {
            let mut text = "send_file failed for ".to_owned();
            text.append(path.as_str());
            text.append(": ");
            text.append(error.as_str());
            Some(text)
        },
        DeliveryStep::Acted { outcome } => match &outcome.result {
            ActionResult::Pass => None,
            ActionResult::Notify => None,
            ActionResult::Fail { reason } => {
                let mut text = "delivery action failed: ".to_owned();
                text.append(outcome.action.as_str());
                text.append(": ");
                text.append(reason.as_str());
                Some(text)
            },
            ActionResult::Error { error } => {
                let mut text = "delivery action error: ".to_owned();
                text.append(error.as_str());
                Some(text)
            },
        },
    }
}

/// What a delivery came to: the first step that ends it, or the files that were
/// sent. If none was sent the artifacts count as delivered.
pub fn run_delivery_actions(artifacts: &[String], steps: &[DeliveryStep]) -> (r: Result<
    Vec<String>,
    String,
>)
    ensures
        match r {
            Ok(files) => {
                &&& forall|k: int| !stops_at(steps@, k)
                &&& texts(files@) == if sent_files(steps@).len() == 0 {
                    texts(artifacts@)
                } else {
                    sent_files(steps@)
                }
            },
            Err(error) => exists|k: int| #[trigger]
                stops_at(steps@, k) && delivery_stop(steps@[k]) == Some(error@),
        },
{
    let mut sent: Vec<String> = Vec::new();
    let mut i: usize = 0;
    proof {
        assert(steps@.take(0) =~= Seq::empty());
        assert(texts(sent@) =~= Seq::empty());
    }
    while i < steps.len()
        invariant
            i <= steps.len(),
            texts(sent@) == sent_files(steps@.take(i as int)),
            forall|j: int| 0 <= j < i ==> delivery_stop(#[trigger] steps@[j]) is None,
        decreases steps.len() - i,
    {
        proof {
            assert(steps@.take(i + 1).drop_last() =~= steps@.take(i as int));
        }
        if let Some(error) = stop_text(&steps[i]) {
            proof {
                assert(stops_at(steps@, i as int));
            }
            return Err(error);
        }
        if let DeliveryStep::Sent { path, .. } = &steps[i] {
            let item = path.clone();
            proof {
                lemma_texts_push(sent@, item);
            }
            sent.push(item);
        }
        i += 1;
    }
    proof {
        assert(steps@.take(steps@.len() as int) =~= steps@);
        assert(texts(sent@).len() == sent@.len());
    }
    if sent.len() == 0 {
        Ok(copy_list(artifacts))
    } else {
        Ok(sent)
    }
}

// ---------------------------------------------------------------------------
// Validators

/// When a validator runs.
#[derive(Debug, Clone, Copy, PartialEq, Eq, Structural)]
pub enum ValidatorPhase {
    TurnEnd,
    Completion,
}

/// A validator that a workspace declares.
#[derive(Debug)]
pub struct Validator {
    pub id: String,
    pub required: bool,
    pub phase: ValidatorPhase,
}

#[verifier::ext_equal]
pub struct ValidatorView {
    pub id: Text,
    pub required: bool,
    pub phase: ValidatorPhase,
}

impl View for Validator {
    type V = ValidatorView;

    open spec fn view(&self) -> ValidatorView {
        ValidatorView { id: self.id@, required: self.required, phase: self.phase }
    }
}

pub open spec fn validator_views(list: Seq<Validator>) -> Seq<ValidatorView> {
    Seq::new(list.len(), |i: int| list[i]@)
}

/// What validators are run on.
#[derive(Debug)]
pub struct ValidatorInvocation {
    pub phase: ValidatorPhase,
    pub workspace_root: String,
    pub repo_label: String,
    pub input_args: Option<Json>,
    pub tool_output: Option<Json>,
}

/// The validators of a phase and what they are run on.
#[derive(Debug)]
pub struct ValidatorRun {
    pub scoped: Vec<Validator>,
    pub invocation: ValidatorInvocation,
}

/// The validators of a phase.
pub open spec fn in_phase(list: Seq<ValidatorView>, phase: ValidatorPhase) -> Seq<ValidatorView> {
    list.filter(|v: ValidatorView| v.phase == phase)
}

fn copy_validator(v: &Validator) -> (r: Validator)
    ensures
        r@ == v@,
{
    Validator { id: v.id.clone(), required: v.required, phase: v.phase }
}

fn scope(list: &[Validator], phase: ValidatorPhase) -> (out: Vec<Validator>)
    ensures
        validator_views(out@) == in_phase(validator_views(list@), phase),
{
    let ghost all = validator_views(list@);
    let ghost pred = |v: ValidatorView| v.phase == phase;
    let mut out: Vec<Validator> = Vec::new();
    let mut i: usize = 0;
    proof {
        assert(all.take(0) =~= Seq::empty());
        assert(validator_views(out@) =~= all.take(0).filter(pred));
    }
    while i < list.len()
        invariant
            i <= list.len(),
            all == validator_views(list@),
            pred == (|v: ValidatorView| v.phase == phase),
            validator_views(out@) == all.take(i as int).filter(pred),
        decreases list.len() - i,
    {
        proof {
            assert(all.take(i + 1) =~= all.take(i as int).push(all[i as int]));
            all.take(i as int).lemma_filter_push(all[i as int], pred);
        }
        if list[i].phase == phase {
            let ghost before = validator_views(out@);
            out.push(copy_validator(&list[i]));
            proof {
                assert(validator_views(out@) =~= before.push(all[i as int]));
            }
        }
        i += 1;
    }
    proof {
        assert(all.take(all.len() as int) =~= all);
    }
    out
}

/// The run of the validators of a phase, if there are any. They see the
/// arguments of the task.
pub fn run_declared_validators(
    validators: &[Validator],
    workspace_root: &str,
    repo_label_hint: &str,
    phase: ValidatorPhase,
    input_args: Option<Json>,
) -> (r: Option<ValidatorRun>)
    ensures
        match r {
            Some(run) => {
                &&& validator_views(run.scoped@) == in_phase(validator_views(validators@), phase)
                &&& run.scoped@.len() > 0
                &&& run.invocation.phase == phase
                &&& run.invocation.workspace_root@ == workspace_root@
                &&& run.invocation.repo_label@ == repo_label_hint@
                &&& run.invocation.input_args == input_args
                &&& run.invocation.tool_output is None
            },
            None => in_phase(validator_views(validators@), phase).len() == 0,
        },
{
    run_declared_validators_with_output(
        validators,
        workspace_root,
        repo_label_hint,
        phase,
        input_args,
        None,
    )
}

/// The run of the validators of a phase, if there are any. They see the
/// arguments and the output of the task.
pub fn run_declared_validators_with_output(
    validators: &[Validator],
    workspace_root: &str,
    repo_label_hint: &str,
    phase: ValidatorPhase,
    input_args: Option<Json>,
    tool_output: Option<Json>,
) -> (r: Option<ValidatorRun>)
    ensures
        match r {
            Some(run) => {
                &&& validator_views(run.scoped@) == in_phase(validator_views(validators@), phase)
                &&& run.scoped@.len() > 0
                &&& run.invocation.phase == phase
                &&& run.invocation.workspace_root@ == workspace_root@
                &&& run.invocation.repo_label@ == repo_label_hint@
                &&& run.invocation.input_args == input_args
                &&& run.invocation.tool_output == tool_output
            },
            None => in_phase(validator_views(validators@), phase).len() == 0,
        },
{
    let scoped = scope(validators, phase);
    proof {
        assert(validator_views(scoped@).len() == scoped@.len());
    }
    if scoped.len() == 0 {
        return None;
    }
    Some(
        ValidatorRun {
            scoped,
            invocation: ValidatorInvocation {
                phase,
                workspace_root: workspace_root.to_owned(),
                repo_label: repo_label_hint.to_owned(),
                input_args,
                tool_output,
            },
        },
    )
}

/// The validators of a workspace, then those of one kind of task.
fn combined(workspace: &[Validator], task: &[Validator]) -> (out: Vec<Validator>)
    ensures
        validator_views(out@) == validator_views(workspace@) + validator_views(task@),
{
    let ghost all = validator_views(workspace@) + validator_views(task@);
    let mut out: Vec<Validator> = Vec::new();
    let mut i: usize = 0;
    while i < workspace.len()
        invariant
            i <= workspace.len(),
            validator_views(out@) =~= validator_views(workspace@).take(i as int),
        decreases workspace.len() - i,
    {
        let ghost before = out@;
        out.push(copy_validator(&workspace[i]));
        proof {
            assert(validator_views(out@) =~= validator_views(before).push(workspace@[i as int]@));
        }
        i += 1;
    }
    let mut k: usize = 0;
    while k < task.len()
        invariant
            k <= task.len(),
            validator_views(out@) =~= validator_views(workspace@) + validator_views(task@).take(
                k as int,
            ),
        decreases task.len() - k,
    {
        let ghost before = out@;
        out.push(copy_validator(&task[k]));
        proof {
            assert(validator_views(out@) =~= validator_views(before).push(task@[k as int]@));
        }
        k += 1;
    }
    proof {
        assert(validator_views(out@) =~= all);
    }
    out
}

/// The run of the validators that a contract calls for when its task is done:
/// those of the workspace and those of the task, on the arguments and the
/// output of the task.
pub fn completion_run(
    gate: &ContractGate,
    workspace: &[Validator],
    on_completion: &[Validator],
    workspace_root: &str,
    tool_name: &str,
) -> (r: Option<ValidatorRun>)
    ensures
        ({
            let scoped = in_phase(
                validator_views(workspace@) + validator_views(on_completion@),
                ValidatorPhase::Completion,
            );
            match r {
                Some(run) => {
                    &&& validator_views(run.scoped@) == scoped
                    &&& run.scoped@.len() > 0
                    &&& run.invocation.phase == ValidatorPhase::Completion
                    &&& run.invocation.workspace_root@ == workspace_root@
                    &&& run.invocation.repo_label@ == tool_name@
                    &&& opt_json(run.invocation.input_args) == gate@.input_args
                    &&& opt_json(run.invocation.tool_output) == gate@.tool_output
                },
                None => scoped.len() == 0,
            }
        }),
{
    let all = combined(workspace, on_completion);
    run_declared_validators_with_output(
        all.as_slice(),
        workspace_root,
        tool_name,
        ValidatorPhase::Completion,
        copy_opt_json(&gate.input_args),
        copy_opt_json(&gate.tool_output),
    )
}

/// What a validator came to.
#[derive(Debug)]
pub struct ValidatorOutcome {
    pub validator_id: String,
    pub required: bool,
    pub passed: bool,
    pub reason: String,
}

/// What the required validators that did not pass say.
pub open spec fn required_failures(outcomes: Seq<ValidatorOutcome>) -> Seq<Text>
    decreases outcomes.len(),
{
    if outcomes.len() == 0 {
        Seq::empty()
    } else {
        let o = outcomes.last();
        let before = required_failures(outcomes.drop_last());
        if o.required && !o.passed {
            before.push(o.validator_id@ + ": "@ + o.reason@)
        } else {
            before
        }
    }
}

/// Whether every required validator passed, or what the others say.
pub fn judge_validators(outcomes: &[ValidatorOutcome]) -> (r: Result<(), String>)
    ensures
        match r {
            Ok(_) => required_failures(outcomes@).len() == 0,
            Err(error) => required_failures(outcomes@).len() > 0 && error@
                == "required validator failure: "@ + joined(required_failures(outcomes@), "; "@),
        },
{
    let mut failures: Vec<String> = Vec::new();
    let mut i: usize = 0;
    proof {
        assert(outcomes@.take(0) =~= Seq::empty());
        assert(texts(failures@) =~= Seq::empty());
    }
    while i < outcomes.len()
        invariant
            i <= outcomes.len(),
            texts(failures@) == required_failures(outcomes@.take(i as int)),
        decreases outcomes.len() - i,
    {
        proof {
            assert(outcomes@.take(i + 1).drop_last() =~= outcomes@.take(i as int));
        }
        let o = &outcomes[i];
        if o.required && !o.passed {
            let mut text = o.validator_id.clone();
            text.append(": ");
            text.append(o.reason.as_str());
            proof {
                lemma_texts_push(failures@, text);
            }
            failures.push(text);
        }
        i += 1;
    }
    proof {
        assert(outcomes@.take(outcomes@.len() as int) =~= outcomes@);
    }
    if failures.len() == 0 {
        return Ok(());
    }
    let mut text = "required validator failure: ".to_owned();
    let list = join(failures.as_slice(), "; ");
    text.append(list.as_str());
    Err(text)
}

/// A required validator that did not pass fails the contract, whatever the
/// others say; optional ones never do.
pub proof fn required_validators_decide(outcomes: Seq<ValidatorOutcome>)
    ensures
        required_failures(outcomes).len() > 0 <==> exists|i: int|
            0 <= i < outcomes.len() && (#[trigger] outcomes[i]).required && !outcomes[i].passed,
    decreases outcomes.len(),
{
    if outcomes.len() > 0 {
        let rest = outcomes.drop_last();
        let last = outcomes[outcomes.len() - 1];
        required_validators_decide(rest);
        if required_failures(rest).len() > 0 {
            let i = choose|i: int|
                0 <= i < rest.len() && (#[trigger] rest[i]).required && !rest[i].passed;
            assert(outcomes[i].required && !outcomes[i].passed);
        }
        if exists|i: int|
            0 <= i < outcomes.len() && (#[trigger] outcomes[i]).required && !outcomes[i].passed {
            let i = choose|i: int|
                0 <= i < outcomes.len() && (#[trigger] outcomes[i]).required && !outcomes[i].passed;
            if i < rest.len() {
                assert(rest[i].required && !rest[i].passed);
            }
        }
    }
}

// ---------------------------------------------------------------------------
// Projects of a workspace

/// What came of the validators of one project.
#[derive(Debug)]
pub struct ProjectRun {
    pub kind: WorkspaceProjectKind,
    pub slug: String,
    /// How many validators the project declares; unknown if its policy is
    /// missing or cannot be read.
    pub validators: Option<usize>,
    /// Why they failed, if they did.
    pub failure: Option<String>,
}

/// What came of the validators of the projects of a workspace.
#[derive(Debug)]
pub struct ProjectRootValidatorReport {
    /// How many projects declared validators.
    pub projects_run: usize,
    /// The projects whose validators failed, each with the reason.
    pub failures: Vec<(String, String)>,
}

pub open spec fn pair_views(list: Seq<(String, String)>) -> Seq<(Text, Text)> {
    Seq::new(list.len(), |i: int| (list[i].0@, list[i].1@))
}

impl Default for ProjectRootValidatorReport {
    fn default() -> (r: ProjectRootValidatorReport)
        ensures
            r.projects_run == 0,
            r.failures@.len() == 0,
    {
        ProjectRootValidatorReport { projects_run: 0, failures: Vec::new() }
    }
}

impl ProjectRootValidatorReport {
    /// Whether no project was run.
    pub fn is_empty(&self) -> (r: bool)
        ensures
            r == (self.projects_run == 0),
    {
        self.projects_run == 0
    }

    /// What the first project that failed says.
    pub fn first_failure_reason(&self) -> (r: Option<String>)
        ensures
            match r {
                Some(text) => self.failures@.len() > 0 && text@ == self.failures@[0].0@ + ": "@
                    + self.failures@[0].1@,
                None => self.failures@.len() == 0,
            },
    {
        if self.failures.len() == 0 {
            return None;
        }
        let mut text = self.failures[0].0.clone();
        text.append(": ");
        text.append(self.failures[0].1.as_str());
        Some(text)
    }
}

/// The label of a project.
pub open spec fn project_label(kind: WorkspaceProjectKind, slug: Text) -> Text {
    kind_directory(kind) + "/"@ + slug
}

pub fn label_of(kind: WorkspaceProjectKind, slug: &str) -> (r: String)
    ensures
        r@ == project_label(kind, slug@),
{
    let mut r = match kind {
        WorkspaceProjectKind::Slides => "slides".to_owned(),
        WorkspaceProjectKind::Sites => "sites".to_owned(),
    };
    r.append("/");
    r.append(slug);
    r
}

/// The validators of a project are run: it is of the kind that is asked for, if
/// one is, and declares some.
pub open spec fn is_run(
    kind: WorkspaceProjectKind,
    validators: Option<usize>,
    expected: Option<WorkspaceProjectKind>,
) -> bool {
    (expected is Some ==> kind == expected->0) && validators is Some && validators->0 > 0
}

/// Whether the validators of a project are run.
pub fn runs_project(
    kind: WorkspaceProjectKind,
    validators: Option<usize>,
    expected: Option<WorkspaceProjectKind>,
) -> (r: bool)
    ensures
        r == is_run(kind, validators, expected),
{
    let wanted = match expected {
        Some(other) => kind == other,
        None => true,
    };
    let some = match validators {
        Some(n) => n > 0,
        None => false,
    };
    wanted && some
}

/// How many projects of a list are run.
pub open spec fn runs_in(
    projects: Seq<ProjectRun>,
    expected: Option<WorkspaceProjectKind>,
) -> nat
    decreases projects.len(),
{
    if projects.len() == 0 {
        0
    } else {
        let p = projects.last();
        runs_in(projects.drop_last(), expected) + if is_run(p.kind, p.validators, expected) {
            1nat
        } else {
            0nat
        }
    }
}

/// The projects of a list that were run and failed.
pub open spec fn failures_in(
    projects: Seq<ProjectRun>,
    expected: Option<WorkspaceProjectKind>,
) -> Seq<(Text, Text)>
    decreases projects.len(),
{
    if projects.len() == 0 {
        Seq::empty()
    } else {
        let p = projects.last();
        let before = failures_in(projects.drop_last(), expected);
        if is_run(p.kind, p.validators, expected) && p.failure is Some {
            before.push((project_label(p.kind, p.slug@), p.failure->0@))
        } else {
            before
        }
    }
}

/// Reports what came of the validators of the projects of a workspace.
pub fn run_project_root_validators(
    projects: &[ProjectRun],
    expected_kind: Option<WorkspaceProjectKind>,
) -> (r: ProjectRootValidatorReport)
    ensures
        r.projects_run == runs_in(projects@, expected_kind),
        pair_views(r.failures@) == failures_in(projects@, expected_kind),
{
    let mut r = ProjectRootValidatorReport::default();
    let mut i: usize = 0;
    proof {
        assert(projects@.take(0) =~= Seq::empty());
        assert(pair_views(r.failures@) =~= Seq::empty());
    }
    while i < projects.len()
        invariant
            i <= projects.len(),
            r.projects_run <= i,
            r.projects_run == runs_in(projects@.take(i as int), expected_kind),
            pair_views(r.failures@) == failures_in(projects@.take(i as int), expected_kind),
        decreases projects.len() - i,
    {
        proof {
            assert(projects@.take(i + 1).drop_last() =~= projects@.take(i as int));
        }
        let p = &projects[i];
        if runs_project(p.kind, p.validators, expected_kind) {
            r.projects_run = r.projects_run + 1;
            if let Some(reason) = &p.failure {
                let ghost before = pair_views(r.failures@);
                r.failures.push((label_of(p.kind, p.slug.as_str()), reason.clone()));
                proof {
                    assert(pair_views(r.failures@) =~= before.push(
                        (project_label(p.kind, p.slug@), reason@),
                    ));
                }
            }
        }
        i += 1;
    }
    proof {
        assert(projects@.take(projects@.len() as int) =~= projects@);
    }
    r
}

} // verus!
