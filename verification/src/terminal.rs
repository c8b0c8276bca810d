//! Where the terminal files of a background task come from: the workspace
//! contract of its project, or the files that the worker named and changed.
use vstd::prelude::*;
use vstd::string::*;

use crate::paths::{join_path, parts_of, parts_text, path_joined, path_parts, same_lists, same_path, text_of_parts};
use crate::sorting::{sort_paths, sorts_paths};
use crate::text::{copy_list, in_list, join, joined, lemma_texts_push, opt_text, same, texts, Text};
use crate::workflow::{
    chain_lists, contract_owned, delivers, required_kind, select_workflow_terminal_files,
    workflow_terminal_artifact_kind, workflow_uses_contract_terminal_delivery, workflow_view,
    WorkflowMetadata, WorkflowView,
};

verus! {

/// The content of a result of strings.
pub open spec fn result_text(r: Result<String, String>) -> Result<Text, Text> {
    match r {
        Ok(s) => Ok(s@),
        Err(e) => Err(e@),
    }
}

/// The content of a result of a list of strings.
pub open spec fn result_texts(r: Result<Vec<String>, String>) -> Result<Seq<Text>, Text> {
    match r {
        Ok(v) => Ok(texts(v@)),
        Err(e) => Err(e@),
    }
}

/// The families of projects that a workspace contract can own.
#[derive(Debug, Clone, Copy, PartialEq, Eq, Structural)]
pub enum WorkspaceProjectKind {
    Slides,
    Sites,
}

/// A project beneath a workspace.
#[derive(Debug)]
pub struct WorkspaceRepo {
    pub kind: WorkspaceProjectKind,
    pub root: String,
}

pub open spec fn kind_label(kind: WorkspaceProjectKind) -> Text {
    match kind {
        WorkspaceProjectKind::Slides => "slides"@,
        WorkspaceProjectKind::Sites => "site"@,
    }
}

pub fn workflow_contract_kind_label(kind: WorkspaceProjectKind) -> (r: &'static str)
    ensures
        r@ == kind_label(kind),
{
    match kind {
        WorkspaceProjectKind::Slides => "slides",
        WorkspaceProjectKind::Sites => "site",
    }
}

/// The directory under which the projects of a family lie.
pub open spec fn kind_directory(kind: WorkspaceProjectKind) -> Text {
    match kind {
        WorkspaceProjectKind::Slides => "slides"@,
        WorkspaceProjectKind::Sites => "sites"@,
    }
}

/// The family whose contract owns a workflow's delivery.
pub open spec fn project_kind(workflow: WorkflowView) -> Option<WorkspaceProjectKind> {
    match workflow.terminal {
        Some(policy) => if policy.kind == "presentation"@ {
            Some(WorkspaceProjectKind::Slides)
        } else if policy.kind == "site"@ {
            Some(WorkspaceProjectKind::Sites)
        } else {
            None
        },
        None => None,
    }
}

pub fn workflow_contract_project_kind(workflow: &WorkflowMetadata) -> (r: Option<
    WorkspaceProjectKind,
>)
    ensures
        r == project_kind(workflow@),
{
    match &workflow.terminal_output {
        Some(policy) => {
            if same(policy.required_artifact_kind.as_str(), "presentation") {
                Some(WorkspaceProjectKind::Slides)
            } else if same(policy.required_artifact_kind.as_str(), "site") {
                Some(WorkspaceProjectKind::Sites)
            } else {
                None
            }
        },
        None => None,
    }
}

/// A workflow is contract-owned exactly if its contract's family is known.
pub proof fn contract_owned_has_project_kind(workflow: WorkflowView)
    ensures
        contract_owned(workflow) <==> project_kind(workflow) is Some,
{
}

/// A path as seen from a directory; an absolute path stands for itself.
pub fn normalize_observed_path(base_dir: &str, path: &str) -> (r: String)
    ensures
        r@ == path_joined(base_dir@, path@),
{
    join_path(base_dir, path)
}

/// `dirs` names the directory with these parts.
pub open spec fn among_dirs(parts: Seq<Text>, dirs: Seq<Text>) -> bool {
    exists|i: int| 0 <= i < dirs.len() && path_parts(#[trigger] dirs[i]) == parts
}

/// A directory is the root of a project of a family: it holds a workspace
/// policy and lies directly in the family's directory.
pub open spec fn is_project_root(
    parts: Seq<Text>,
    kind: WorkspaceProjectKind,
    policy_dirs: Seq<Text>,
) -> bool {
    &&& among_dirs(parts, policy_dirs)
    &&& parts.len() >= 2
    &&& parts[parts.len() - 2] == kind_directory(kind)
}

fn parts_among(parts: &[String], dirs: &[String]) -> (r: bool)
    ensures
        r == among_dirs(texts(parts@), texts(dirs@)),
{
    let mut i: usize = 0;
    while i < dirs.len()
        invariant
            i <= dirs.len(),
            forall|j: int| 0 <= j < i ==> path_parts(#[trigger] texts(dirs@)[j]) != texts(parts@),
        decreases dirs.len() - i,
    {
        let other = parts_of(dirs[i].as_str());
        if same_lists(other.as_slice(), parts) {
            proof {
                assert(path_parts(texts(dirs@)[i as int]) == texts(parts@));
            }
            return true;
        }
        i += 1;
    }
    false
}

fn parts_are_root(parts: &[String], kind: WorkspaceProjectKind, policy_dirs: &[String]) -> (r: bool)
    ensures
        r == is_project_root(texts(parts@), kind, texts(policy_dirs@)),
{
    if !parts_among(parts, policy_dirs) {
        return false;
    }
    if parts.len() < 2 {
        return false;
    }
    proof {
        assert(texts(parts@)[parts@.len() - 2] == parts@[parts@.len() - 2]@);
    }
    match kind {
        WorkspaceProjectKind::Slides => same(parts[parts.len() - 2].as_str(), "slides"),
        WorkspaceProjectKind::Sites => same(parts[parts.len() - 2].as_str(), "sites"),
    }
}

/// Whether a directory is the root of a project of a family. `policy_dirs`
/// are the directories known to hold a workspace policy.
pub fn is_matching_workspace_root(
    path: &str,
    expected_kind: WorkspaceProjectKind,
    policy_dirs: &[String],
) -> (r: bool)
    ensures
        r == is_project_root(path_parts(path@), expected_kind, texts(policy_dirs@)),
{
    let parts = parts_of(path);
    parts_are_root(parts.as_slice(), expected_kind, policy_dirs)
}

/// The paths of a list have different parts.
pub open spec fn all_different(paths: Seq<Text>) -> bool {
    forall|i: int, j: int|
        0 <= i < j < paths.len() ==> path_parts(#[trigger] paths[i]) != path_parts(#[trigger] paths[j])
}

pub open spec fn holds_path(paths: Seq<Text>, path: Text) -> bool {
    exists|i: int| 0 <= i < paths.len() && path_parts(#[trigger] paths[i]) == path_parts(path)
}

/// A list with a path at its end, unless the list holds it.
pub open spec fn with_path(paths: Seq<Text>, path: Text) -> Seq<Text> {
    if holds_path(paths, path) {
        paths
    } else {
        paths.push(path)
    }
}

pub fn push_unique_path(paths: &mut Vec<String>, path: String)
    ensures
        texts(final(paths)@) == with_path(texts(old(paths)@), path@),
        all_different(texts(old(paths)@)) ==> all_different(texts(final(paths)@)),
{
    let mut i: usize = 0;
    while i < paths.len()
        invariant
            i <= paths.len(),
            *paths == *old(paths),
            forall|j: int| 0 <= j < i ==> path_parts(#[trigger] texts(paths@)[j]) != path_parts(path@),
        decreases paths.len() - i,
    {
        if same_path(paths[i].as_str(), path.as_str()) {
            proof {
                assert(path_parts(texts(paths@)[i as int]) == path_parts(path@));
            }
            return;
        }
        i += 1;
    }
    proof {
        lemma_texts_push(paths@, path);
    }
    paths.push(path);
}

/// The nearest directory at or above the first `n` parts of a path that is a
/// project root.
pub open spec fn nearest_root(
    parts: Seq<Text>,
    n: nat,
    kind: WorkspaceProjectKind,
    policy_dirs: Seq<Text>,
) -> Option<Text>
    decreases n,
{
    if is_project_root(parts.take(n as int), kind, policy_dirs) {
        Some(parts_text(parts.take(n as int)))
    } else if n == 0 {
        None
    } else {
        nearest_root(parts, (n - 1) as nat, kind, policy_dirs)
    }
}

fn find_nearest_root(path: &str, kind: WorkspaceProjectKind, policy_dirs: &[String]) -> (r: Option<
    String,
>)
    ensures
        opt_text(r) == nearest_root(
            path_parts(path@),
            path_parts(path@).len(),
            kind,
            texts(policy_dirs@),
        ),
{
    let parts = parts_of(path);
    let ghost all = path_parts(path@);
    let mut n: usize = parts.len();
    loop
        invariant
            n <= parts.len(),
            texts(parts@) == all,
            parts@.len() == all.len(),
            nearest_root(all, all.len(), kind, texts(policy_dirs@)) == nearest_root(
                all,
                n as nat,
                kind,
                texts(policy_dirs@),
            ),
            all == path_parts(path@),
        decreases n,
    {
        let head = vstd::slice::slice_subrange(parts.as_slice(), 0, n);
        proof {
            assert(texts(head@) =~= all.take(n as int));
        }
        if parts_are_root(head, kind, policy_dirs) {
            return Some(text_of_parts(head));
        }
        if n == 0 {
            return None;
        }
        n -= 1;
    }
}

/// The project roots above the observed files, each once.
pub open spec fn roots_above(
    files: Seq<Text>,
    working_dir: Text,
    kind: WorkspaceProjectKind,
    policy_dirs: Seq<Text>,
) -> Seq<Text>
    decreases files.len(),
{
    if files.len() == 0 {
        Seq::empty()
    } else {
        let before = roots_above(files.drop_last(), working_dir, kind, policy_dirs);
        let parts = path_parts(path_joined(working_dir, files.last()));
        match nearest_root(parts, parts.len(), kind, policy_dirs) {
            Some(root) => with_path(before, root),
            None => before,
        }
    }
}

/// The roots of the listed projects of a family.
pub open spec fn roots_of_kind(repos: Seq<WorkspaceRepo>, kind: WorkspaceProjectKind) -> Seq<Text>
    decreases repos.len(),
{
    if repos.len() == 0 {
        Seq::empty()
    } else if repos.last().kind == kind {
        roots_of_kind(repos.drop_last(), kind).push(repos.last().root@)
    } else {
        roots_of_kind(repos.drop_last(), kind)
    }
}

/// The root of the project that a contract-owned workflow worked on.
pub open spec fn contract_root(
    working_dir: Text,
    files: Seq<Text>,
    workflow: WorkflowView,
    policy_dirs: Seq<Text>,
    repos: Result<Vec<WorkspaceRepo>, String>,
) -> Result<Text, Text> {
    match project_kind(workflow) {
        None => Err("workflow contract root resolution requires a contract-owned artifact kind"@),
        Some(kind) => {
            let above = roots_above(files, working_dir, kind, policy_dirs);
            if above.len() == 1 {
                Ok(above[0])
            } else if above.len() > 1 {
                Err("multiple "@ + kind_label(kind) + " workspace contracts matched observed output paths"@)
            } else if is_project_root(path_parts(working_dir), kind, policy_dirs) {
                Ok(working_dir)
            } else {
                match repos {
                    Err(error) => Err("workspace contract discovery failed: "@ + error@),
                    Ok(list) => {
                        let beneath = roots_of_kind(list@, kind);
                        if beneath.len() == 1 {
                            Ok(beneath[0])
                        } else if beneath.len() == 0 {
                            Err(
                                "no "@ + kind_label(kind) + " workspace contract found beneath "@
                                    + working_dir,
                            )
                        } else {
                            Err(
                                "multiple "@ + kind_label(kind) + " workspace contracts found beneath "@
                                    + working_dir
                                    + "; unable to choose a terminal artifact root deterministically"@,
                            )
                        }
                    },
                }
            }
        },
    }
}

fn concat3(a: &str, b: &str, c: &str) -> (r: String)
    ensures
        r@ == a@ + b@ + c@,
{
    let mut r = a.to_owned();
    r.append(b);
    r.append(c);
    r
}

/// The root of the project that a contract-owned workflow worked on: the one
/// above the observed files, else the working directory, else the only one
/// beneath it. `policy_dirs` are the directories known to hold a workspace
/// policy, `repos` what was found beneath the working directory.
pub fn resolve_contract_workspace_root(
    working_dir: &str,
    files_to_send: &[String],
    files_modified: &[String],
    workflow: &WorkflowMetadata,
    policy_dirs: &[String],
    repos: &Result<Vec<WorkspaceRepo>, String>,
) -> (r: Result<String, String>)
    ensures
        result_text(r) == contract_root(
            working_dir@,
            texts(files_to_send@) + texts(files_modified@),
            workflow@,
            texts(policy_dirs@),
            *repos,
        ),
{
    let kind = match workflow_contract_project_kind(workflow) {
        Some(kind) => kind,
        None => {
            return Err(
                "workflow contract root resolution requires a contract-owned artifact kind".to_owned(),
            );
        },
    };
    let label = workflow_contract_kind_label(kind);
    let files = chain_lists(files_to_send, files_modified);
    let ghost all = texts(files@);
    let mut above: Vec<String> = Vec::new();
    let mut i: usize = 0;
    proof {
        assert(texts(above@) =~= Seq::empty());
    }
    while i < files.len()
        invariant
            i <= files.len(),
            all == texts(files@),
            texts(above@) == roots_above(
                all.take(i as int),
                working_dir@,
                kind,
                texts(policy_dirs@),
            ),
        decreases files.len() - i,
    {
        let observed = normalize_observed_path(working_dir, files[i].as_str());
        proof {
            assert(all.take(i + 1).drop_last() =~= all.take(i as int));
            assert(all.take(i + 1).last() == files@[i as int]@);
        }
        match find_nearest_root(observed.as_str(), kind, policy_dirs) {
            Some(root) => {
                push_unique_path(&mut above, root);
            },
            None => {},
        }
        i += 1;
    }
    proof {
        assert(all.take(all.len() as int) =~= all);
    }
    if above.len() == 1 {
        proof {
            assert(texts(above@)[0] == above@[0]@);
        }
        return Ok(above[0].clone());
    }
    if above.len() > 1 {
        return Err(concat3("multiple ", label, " workspace contracts matched observed output paths"));
    }
    if is_matching_workspace_root(working_dir, kind, policy_dirs) {
        return Ok(working_dir.to_owned());
    }
    match repos {
        Err(error) => {
            let mut e = "workspace contract discovery failed: ".to_owned();
            e.append(error.as_str());
            Err(e)
        },
        Ok(list) => {
            let beneath = keep_roots(list.as_slice(), kind);
            if beneath.len() == 1 {
                proof {
                    assert(texts(beneath@)[0] == beneath@[0]@);
                }
                Ok(beneath[0].clone())
            } else if beneath.len() == 0 {
                let mut e = concat3("no ", label, " workspace contract found beneath ");
                e.append(working_dir);
                Err(e)
            } else {
                let mut e = concat3("multiple ", label, " workspace contracts found beneath ");
                e.append(working_dir);
                e.append("; unable to choose a terminal artifact root deterministically");
                Err(e)
            }
        },
    }
}

fn keep_roots(repos: &[WorkspaceRepo], kind: WorkspaceProjectKind) -> (out: Vec<String>)
    ensures
        texts(out@) == roots_of_kind(repos@, kind),
{
    let mut out: Vec<String> = Vec::new();
    let mut i: usize = 0;
    proof {
        assert(texts(out@) =~= Seq::empty());
    }
    while i < repos.len()
        invariant
            i <= repos.len(),
            texts(out@) == roots_of_kind(repos@.take(i as int), kind),
        decreases repos.len() - i,
    {
        proof {
            assert(repos@.take(i + 1).drop_last() =~= repos@.take(i as int));
            lemma_texts_push(out@, repos@[i as int].root);
        }
        if repos[i].kind == kind {
            out.push(repos[i].root.clone());
        }
        i += 1;
    }
    proof {
        assert(repos@.take(repos@.len() as int) =~= repos@);
    }
    out
}

/// The directories to look for a workspace policy in: each observed path and
/// everything above it, and the working directory.
pub open spec fn probe_dirs(files: Seq<Text>, working_dir: Text) -> Seq<Text>
    decreases files.len(),
{
    if files.len() == 0 {
        seq![working_dir]
    } else {
        let parts = path_parts(path_joined(working_dir, files.last()));
        probe_dirs(files.drop_last(), working_dir) + Seq::new(
            parts.len() + 1,
            |k: int| parts_text(parts.take(parts.len() - k)),
        )
    }
}

pub fn directories_to_probe(
    working_dir: &str,
    files_to_send: &[String],
    files_modified: &[String],
) -> (out: Vec<String>)
    ensures
        texts(out@) == probe_dirs(texts(files_to_send@) + texts(files_modified@), working_dir@),
{
    let files = chain_lists(files_to_send, files_modified);
    let ghost all = texts(files@);
    let mut out: Vec<String> = Vec::new();
    out.push(working_dir.to_owned());
    proof {
        assert(texts(out@) =~= seq![working_dir@]);
    }
    let mut i: usize = 0;
    while i < files.len()
        invariant
            i <= files.len(),
            all == texts(files@),
            texts(out@) == probe_dirs(all.take(i as int), working_dir@),
        decreases files.len() - i,
    {
        let observed = normalize_observed_path(working_dir, files[i].as_str());
        let parts = parts_of(observed.as_str());
        let ghost ps = texts(parts@);
        let ghost before = texts(out@);
        proof {
            assert(all.take(i + 1).drop_last() =~= all.take(i as int));
            assert(all.take(i + 1).last() == files@[i as int]@);
        }
        let mut k: usize = 0;
        let n: usize = parts.len();
        proof {
            assert(before + Seq::new(0, |k: int| parts_text(ps.take(ps.len() - k))) =~= before);
        }
        while k < n
            invariant
                k <= n,
                n == parts@.len(),
                ps == texts(parts@),
                texts(out@) == before + Seq::new(
                    k as nat,
                    |k: int| parts_text(ps.take(ps.len() - k)),
                ),
            decreases n - k,
        {
            let head = vstd::slice::slice_subrange(parts.as_slice(), 0, n - k);
            let dir = text_of_parts(head);
            proof {
                assert(texts(head@) =~= ps.take(ps.len() - k));
                lemma_texts_push(out@, dir);
                assert((before + Seq::new(k as nat, |k: int| parts_text(ps.take(ps.len() - k)))).push(
                    dir@,
                ) =~= before + Seq::new((k + 1) as nat, |k: int| parts_text(ps.take(ps.len() - k))));
            }
            out.push(dir);
            k += 1;
        }
        let head = vstd::slice::slice_subrange(parts.as_slice(), 0, 0);
        let dir = text_of_parts(head);
        proof {
            assert(texts(head@) =~= ps.take(0));
            lemma_texts_push(out@, dir);
            assert((before + Seq::new(n as nat, |k: int| parts_text(ps.take(ps.len() - k)))).push(dir@)
                =~= before + Seq::new((n + 1) as nat, |k: int| parts_text(ps.take(ps.len() - k))));
        }
        out.push(dir);
        i += 1;
    }
    proof {
        assert(all.take(all.len() as int) =~= all);
    }
    out
}

// ---------------------------------------------------------------------------
// Contract status
// ---------------------------------------------------------------------------

/// The outcome of one check of a workspace contract.
#[derive(Debug)]
pub struct ContractCheck {
    pub spec: String,
    pub passed: bool,
    pub reason: Option<String>,
}

/// An artifact that a workspace contract declares.
#[derive(Debug)]
pub struct ContractArtifact {
    pub name: String,
    pub pattern: String,
    pub present: bool,
}

/// What an inspection of a workspace contract found.
#[derive(Debug)]
pub struct WorkspaceContractStatus {
    pub repo_label: String,
    pub policy_managed: bool,
    pub ready: bool,
    pub error: Option<String>,
    pub turn_end_checks: Vec<ContractCheck>,
    pub completion_checks: Vec<ContractCheck>,
    pub artifacts: Vec<ContractArtifact>,
}

/// How a failed check is reported.
pub open spec fn check_report(check: ContractCheck) -> Text {
    match check.reason {
        Some(reason) => if reason@.len() > 0 {
            check.spec@ + ": "@ + reason@
        } else {
            check.spec@ + ": failed"@
        },
        None => check.spec@ + ": failed"@,
    }
}

/// The reports of the failed checks of a list.
pub open spec fn failed_checks(checks: Seq<ContractCheck>) -> Seq<Text>
    decreases checks.len(),
{
    if checks.len() == 0 {
        Seq::empty()
    } else if checks.last().passed {
        failed_checks(checks.drop_last())
    } else {
        failed_checks(checks.drop_last()).push(check_report(checks.last()))
    }
}

pub open spec fn missing_report(artifact: ContractArtifact) -> Text {
    "missing artifact '"@ + artifact.name@ + "' matching '"@ + artifact.pattern@ + "'"@
}

/// The reports of the artifacts that are not there.
pub open spec fn missing_artifacts(artifacts: Seq<ContractArtifact>) -> Seq<Text>
    decreases artifacts.len(),
{
    if artifacts.len() == 0 {
        Seq::empty()
    } else if artifacts.last().present {
        missing_artifacts(artifacts.drop_last())
    } else {
        missing_artifacts(artifacts.drop_last()).push(missing_report(artifacts.last()))
    }
}

/// Everything that keeps a contract from being ready.
pub open spec fn contract_failures(status: WorkspaceContractStatus) -> Seq<Text> {
    let head = match status.error {
        Some(error) => seq![error@],
        None => Seq::empty(),
    };
    head + failed_checks(status.turn_end_checks@) + failed_checks(status.completion_checks@)
        + missing_artifacts(status.artifacts@)
}

pub open spec fn contract_failure_text(status: WorkspaceContractStatus) -> Text {
    let failures = contract_failures(status);
    if failures.len() == 0 {
        "workspace contract for "@ + status.repo_label@ + " is not ready"@
    } else {
        "workspace contract for "@ + status.repo_label@ + " is not ready: "@ + joined(failures, "; "@)
    }
}

fn report_failed_checks(out: &mut Vec<String>, checks: &[ContractCheck])
    ensures
        texts(final(out)@) == texts(old(out)@) + failed_checks(checks@),
{
    let ghost before = texts(out@);
    let mut i: usize = 0;
    proof {
        assert(before + Seq::<Text>::empty() =~= before);
    }
    while i < checks.len()
        invariant
            i <= checks.len(),
            texts(out@) == before + failed_checks(checks@.take(i as int)),
        decreases checks.len() - i,
    {
        proof {
            assert(checks@.take(i + 1).drop_last() =~= checks@.take(i as int));
        }
        if !checks[i].passed {
            let mut line = checks[i].spec.clone();
            match &checks[i].reason {
                Some(reason) => {
                    if !reason.as_str().is_empty() {
                        line.append(": ");
                        line.append(reason.as_str());
                    } else {
                        line.append(": failed");
                    }
                },
                None => {
                    line.append(": failed");
                },
            }
            proof {
                assert(line@ == check_report(checks@[i as int]));
                lemma_texts_push(out@, line);
                assert((before + failed_checks(checks@.take(i as int))).push(line@) =~= before
                    + failed_checks(checks@.take(i as int)).push(line@));
            }
            out.push(line);
        }
        i += 1;
    }
    proof {
        assert(checks@.take(checks@.len() as int) =~= checks@);
    }
}

fn report_missing_artifacts(out: &mut Vec<String>, artifacts: &[ContractArtifact])
    ensures
        texts(final(out)@) == texts(old(out)@) + missing_artifacts(artifacts@),
{
    let ghost before = texts(out@);
    let mut i: usize = 0;
    proof {
        assert(before + Seq::<Text>::empty() =~= before);
    }
    while i < artifacts.len()
        invariant
            i <= artifacts.len(),
            texts(out@) == before + missing_artifacts(artifacts@.take(i as int)),
        decreases artifacts.len() - i,
    {
        proof {
            assert(artifacts@.take(i + 1).drop_last() =~= artifacts@.take(i as int));
        }
        if !artifacts[i].present {
            let mut line = "missing artifact '".to_owned();
            line.append(artifacts[i].name.as_str());
            line.append("' matching '");
            line.append(artifacts[i].pattern.as_str());
            line.append("'");
            proof {
                assert(line@ == missing_report(artifacts@[i as int]));
                lemma_texts_push(out@, line);
                assert((before + missing_artifacts(artifacts@.take(i as int))).push(line@) =~= before
                    + missing_artifacts(artifacts@.take(i as int)).push(line@));
            }
            out.push(line);
        }
        i += 1;
    }
    proof {
        assert(artifacts@.take(artifacts@.len() as int) =~= artifacts@);
    }
}

/// Why a contract is not ready, in one line.
pub fn format_workspace_contract_failure(status: &WorkspaceContractStatus) -> (r: String)
    ensures
        r@ == contract_failure_text(*status),
{
    let mut failures: Vec<String> = Vec::new();
    match &status.error {
        Some(error) => {
            failures.push(error.clone());
            proof {
                assert(texts(failures@) =~= seq![error@]);
            }
        },
        None => {
            proof {
                assert(texts(failures@) =~= Seq::empty());
            }
        },
    }
    report_failed_checks(&mut failures, status.turn_end_checks.as_slice());
    report_failed_checks(&mut failures, status.completion_checks.as_slice());
    report_missing_artifacts(&mut failures, status.artifacts.as_slice());
    let mut r = "workspace contract for ".to_owned();
    r.append(status.repo_label.as_str());
    if failures.len() == 0 {
        r.append(" is not ready");
    } else {
        r.append(" is not ready: ");
        let list = join(failures.as_slice(), "; ");
        r.append(list.as_str());
    }
    r
}

/// Where the files of an artifact lie, or why that could not be found out.
#[derive(Debug)]
pub struct ArtifactPaths {
    pub name: String,
    pub paths: Result<Vec<String>, String>,
}

/// What was found out about the contract at a project root: its status, the
/// preferred path of its primary artifact, and the paths of the artifacts that
/// were resolved.
#[derive(Debug)]
pub struct ContractObservation {
    pub status: Result<WorkspaceContractStatus, String>,
    pub primary_path: Result<Option<String>, String>,
    pub artifact_paths: Vec<ArtifactPaths>,
}

/// The names of the artifacts that are present, in order.
pub open spec fn present_names(artifacts: Seq<ContractArtifact>) -> Seq<Text>
    decreases artifacts.len(),
{
    if artifacts.len() == 0 {
        Seq::empty()
    } else {
        let names = present_names(artifacts.drop_last());
        if artifacts.last().present {
            names.push(artifacts.last().name@)
        } else {
            names
        }
    }
}

/// The artifacts whose paths are to be found out: those that are present.
pub fn artifacts_to_resolve(status: &WorkspaceContractStatus) -> (r: Vec<String>)
    ensures
        texts(r@) == present_names(status.artifacts@),
{
    let ghost all = status.artifacts@;
    let mut r: Vec<String> = Vec::new();
    let mut i: usize = 0;
    proof {
        assert(texts(r@) =~= Seq::empty());
    }
    while i < status.artifacts.len()
        invariant
            i <= status.artifacts.len(),
            all == status.artifacts@,
            texts(r@) == present_names(all.take(i as int)),
        decreases status.artifacts.len() - i,
    {
        proof {
            assert(all.take(i + 1).drop_last() =~= all.take(i as int));
        }
        if status.artifacts[i].present {
            let name = status.artifacts[i].name.clone();
            proof {
                lemma_texts_push(r@, name);
            }
            r.push(name);
        }
        i += 1;
    }
    proof {
        assert(all.take(all.len() as int) =~= all);
    }
    r
}

pub const PRIMARY_CONTRACT_ARTIFACT: &'static str = "primary";

pub open spec fn primary_declared(artifacts: Seq<ContractArtifact>) -> bool {
    exists|i: int| 0 <= i < artifacts.len() && (#[trigger] artifacts[i]).name@ == PRIMARY_CONTRACT_ARTIFACT@
}

pub open spec fn primary_present(artifacts: Seq<ContractArtifact>) -> bool {
    exists|i: int|
        0 <= i < artifacts.len() && (#[trigger] artifacts[i]).name@ == PRIMARY_CONTRACT_ARTIFACT@
            && artifacts[i].present
}

/// The paths of the artifacts with some names in order, or the first error.
pub open spec fn gathered(names: Seq<Text>, found: Seq<ArtifactPaths>) -> Result<Seq<Text>, Text>
    decreases found.len(),
{
    if found.len() == 0 {
        Ok(Seq::empty())
    } else {
        match gathered(names, found.drop_last()) {
            Err(e) => Err(e),
            Ok(list) => if names.contains(found.last().name@) {
                match found.last().paths {
                    Ok(more) => Ok(list + texts(more@)),
                    Err(e) => Err(e@),
                }
            } else {
                Ok(list)
            },
        }
    }
}

/// The artifact has one of some names, and the path is one of its paths.
pub open spec fn is_path_of(names: Seq<Text>, artifact: ArtifactPaths, path: Text) -> bool {
    &&& names.contains(artifact.name@)
    &&& artifact.paths matches Ok(paths) && texts(paths@).contains(path)
}

/// The paths that are delivered are those of the artifacts that are present:
/// none of them is left out, and no other artifact adds one.
pub proof fn only_present_artifacts_are_delivered(
    status: WorkspaceContractStatus,
    found: Seq<ArtifactPaths>,
    path: Text,
)
    requires
        gathered(present_names(status.artifacts@), found) is Ok,
    ensures
        gathered(present_names(status.artifacts@), found)->Ok_0.contains(path) <==> exists|i: int|
            0 <= i < found.len() && is_path_of(
                present_names(status.artifacts@),
                #[trigger] found[i],
                path,
            ),
    decreases found.len(),
{
    let names = present_names(status.artifacts@);
    if found.len() > 0 {
        let rest = found.drop_last();
        only_present_artifacts_are_delivered(status, rest, path);
        let list = gathered(names, rest)->Ok_0;
        let all = gathered(names, found)->Ok_0;
        let held = |i: int| 0 <= i < found.len() && is_path_of(names, found[i], path);
        assert(forall|i: int| 0 <= i < rest.len() ==> #[trigger] rest[i] == found[i]);
        if exists|i: int| #[trigger] held(i) {
            let i = choose|i: int| #[trigger] held(i);
            assert(i < rest.len() ==> is_path_of(names, rest[i], path));
        }
        assert forall|i: int|
            0 <= i < found.len() && is_path_of(names, #[trigger] found[i], path) implies held(i) by {
        }
        assert(found[found.len() - 1] == found.last());
        if names.contains(found.last().name@) {
            let more = texts(found.last().paths->Ok_0@);
            assert(all == list + more);
            if list.contains(path) {
                assert(all[list.index_of(path)] == path);
            }
            if more.contains(path) {
                assert(all[list.len() + more.index_of(path)] == path);
            }
            if all.contains(path) {
                let k = all.index_of(path);
                if k < list.len() {
                    assert(list[k] == path);
                } else {
                    assert(more[k - list.len()] == path);
                }
            }
        }
    }
}

/// The refusal of a contract that is ready but does not give what is wanted.
pub open spec fn ready_but(label: Text, what: Text) -> Text {
    "workspace contract for "@ + label + " is ready but "@ + what
}

pub open spec fn no_primary_declared() -> Text {
    "does not declare a 'primary' artifact"@
}

pub open spec fn primary_missing() -> Text {
    "its 'primary' artifact is missing"@
}

pub open spec fn primary_unresolved() -> Text {
    "the 'primary' artifact could not be resolved"@
}

pub open spec fn nothing_resolved() -> Text {
    "has no resolved artifact paths"@
}

/// `r` is what a contract delivers for a workflow whose delivery it owns.
pub open spec fn contract_delivers(
    workflow: WorkflowView,
    seen: ContractObservation,
    r: Result<Seq<Text>, Text>,
) -> bool {
    match seen.status {
        Err(error) => r == Err::<Seq<Text>, Text>("workspace contract inspection failed: "@ + error@),
        Ok(status) => {
            let label = status.repo_label@;
            if !status.policy_managed {
                r == Err::<Seq<Text>, Text>("workspace contract missing for "@ + label)
            } else if !status.ready {
                r == Err::<Seq<Text>, Text>(contract_failure_text(status))
            } else if workflow.terminal->0.final_only {
                if !primary_declared(status.artifacts@) {
                    r == Err::<Seq<Text>, Text>(ready_but(label, no_primary_declared()))
                } else if !primary_present(status.artifacts@) {
                    r == Err::<Seq<Text>, Text>(ready_but(label, primary_missing()))
                } else {
                    match seen.primary_path {
                        Err(error) => r == Err::<Seq<Text>, Text>(
                            "workspace contract resolution failed: "@ + error@,
                        ),
                        Ok(Some(path)) => r == Ok::<Seq<Text>, Text>(seq![path@]),
                        Ok(None) => r == Err::<Seq<Text>, Text>(ready_but(label, primary_unresolved())),
                    }
                }
            } else {
                match gathered(present_names(status.artifacts@), seen.artifact_paths@) {
                    Err(error) => r == Err::<Seq<Text>, Text>(
                        "workspace contract resolution failed: "@ + error,
                    ),
                    Ok(list) => if list.len() == 0 {
                        r == Err::<Seq<Text>, Text>(ready_but(label, nothing_resolved()))
                    } else {
                        r matches Ok(out) && sorts_paths(out, list)
                    },
                }
            }
        },
    }
}

fn refuse_ready(label: &str, what: &str) -> (r: String)
    ensures
        r@ == ready_but(label@, what@),
{
    let mut r = "workspace contract for ".to_owned();
    r.append(label);
    r.append(" is ready but ");
    r.append(what);
    r
}

fn prefixed(prefix: &str, rest: &str) -> (r: String)
    ensures
        r@ == prefix@ + rest@,
{
    let mut r = prefix.to_owned();
    r.append(rest);
    r
}

fn gather_paths(names: &[String], found: &[ArtifactPaths]) -> (r: Result<Vec<String>, String>)
    ensures
        result_texts(r) == gathered(texts(names@), found@),
{
    let ghost wanted = texts(names@);
    let mut out: Vec<String> = Vec::new();
    let mut i: usize = 0;
    proof {
        assert(texts(out@) =~= Seq::empty());
    }
    while i < found.len()
        invariant
            i <= found.len(),
            wanted == texts(names@),
            gathered(wanted, found@.take(i as int)) == Ok::<Seq<Text>, Text>(texts(out@)),
        decreases found.len() - i,
    {
        proof {
            assert(found@.take(i + 1).drop_last() =~= found@.take(i as int));
        }
        if in_list(names, found[i].name.as_str()) {
            match &found[i].paths {
                Ok(more) => {
                    let ghost a = texts(out@);
                    let mut copied = copy_list(more.as_slice());
                    let ghost b = texts(copied@);
                    out.append(&mut copied);
                    proof {
                        assert(texts(out@) =~= a + b);
                    }
                },
                Err(error) => {
                    proof {
                        lemma_gathered_error(wanted, found@, i as int);
                    }
                    return Err(error.clone());
                },
            }
        }
        i += 1;
    }
    proof {
        assert(found@.take(found@.len() as int) =~= found@);
    }
    Ok(out)
}

proof fn lemma_gathered_error(names: Seq<Text>, found: Seq<ArtifactPaths>, i: int)
    requires
        0 <= i < found.len(),
        gathered(names, found.take(i)) is Ok,
        names.contains(found[i].name@),
        found[i].paths is Err,
    ensures
        gathered(names, found) == Err::<Seq<Text>, Text>(found[i].paths->Err_0@),
    decreases found.len(),
{
    if i == found.len() - 1 {
        assert(found.drop_last() =~= found.take(i));
    } else {
        assert(found.drop_last().take(i) =~= found.take(i));
        lemma_gathered_error(names, found.drop_last(), i);
    }
}

fn declares_primary(artifacts: &[ContractArtifact]) -> (r: (bool, bool))
    ensures
        r.0 == primary_declared(artifacts@),
        r.1 == primary_present(artifacts@),
{
    let mut declared: bool = false;
    let mut present: bool = false;
    let mut i: usize = 0;
    while i < artifacts.len()
        invariant
            i <= artifacts.len(),
            declared == primary_declared(artifacts@.take(i as int)),
            present == primary_present(artifacts@.take(i as int)),
        decreases artifacts.len() - i,
    {
        let ghost head = artifacts@.take(i as int);
        let ghost more = artifacts@.take(i + 1);
        proof {
            assert(more =~= head.push(artifacts@[i as int]));
            assert(more[i as int] == artifacts@[i as int]);
            assert(forall|j: int| 0 <= j < i ==> #[trigger] head[j] == more[j]);
        }
        if same(artifacts[i].name.as_str(), PRIMARY_CONTRACT_ARTIFACT) {
            declared = true;
            if artifacts[i].present {
                present = true;
            }
        }
        i += 1;
    }
    proof {
        assert(artifacts@.take(artifacts@.len() as int) =~= artifacts@);
    }
    (declared, present)
}

/// The files that a workspace contract delivers for a workflow: `None` if the
/// workflow's delivery is not owned by a contract.
pub fn resolve_contract_terminal_files(
    workflow: Option<&WorkflowMetadata>,
    seen: &ContractObservation,
) -> (r: Result<Option<Vec<String>>, String>)
    ensures
        match workflow {
            Some(w) => if contract_owned(w@) {
                match r {
                    Ok(Some(out)) => contract_delivers(w@, *seen, Ok(texts(out@))),
                    Ok(None) => false,
                    Err(e) => contract_delivers(w@, *seen, Err(e@)),
                }
            } else {
                r == Ok::<Option<Vec<String>>, String>(None)
            },
            None => r == Ok::<Option<Vec<String>>, String>(None),
        },
{
    let w = match workflow {
        Some(w) => w,
        None => {
            return Ok(None);
        },
    };
    if !workflow_uses_contract_terminal_delivery(w) {
        return Ok(None);
    }
    let status = match &seen.status {
        Ok(status) => status,
        Err(error) => {
            return Err(prefixed("workspace contract inspection failed: ", error.as_str()));
        },
    };
    let label = status.repo_label.as_str();
    if !status.policy_managed {
        return Err(prefixed("workspace contract missing for ", label));
    }
    if !status.ready {
        return Err(format_workspace_contract_failure(status));
    }
    let final_only: bool = match &w.terminal_output {
        Some(policy) => policy.deliver_final_artifact_only,
        None => false,
    };
    if final_only {
        let (declared, present) = declares_primary(status.artifacts.as_slice());
        if !declared {
            return Err(refuse_ready(label, "does not declare a 'primary' artifact"));
        }
        if !present {
            return Err(refuse_ready(label, "its 'primary' artifact is missing"));
        }
        return match &seen.primary_path {
            Err(error) => Err(prefixed("workspace contract resolution failed: ", error.as_str())),
            Ok(Some(path)) => {
                let mut out: Vec<String> = Vec::new();
                out.push(path.clone());
                proof {
                    assert(texts(out@) =~= seq![path@]);
                }
                Ok(Some(out))
            },
            Ok(None) => Err(refuse_ready(label, "the 'primary' artifact could not be resolved")),
        };
    }
    let names = artifacts_to_resolve(status);
    match gather_paths(names.as_slice(), seen.artifact_paths.as_slice()) {
        Err(error) => Err(prefixed("workspace contract resolution failed: ", error.as_str())),
        Ok(list) => {
            if list.len() == 0 {
                Err(refuse_ready(label, "has no resolved artifact paths"))
            } else {
                Ok(Some(sort_paths(list.as_slice())))
            }
        },
    }
}

// ---------------------------------------------------------------------------
// Terminal files of a background task
// ---------------------------------------------------------------------------

/// Where the terminal files come from.
#[derive(Debug)]
pub enum TerminalPlan {
    /// These files.
    Files(Vec<String>),
    /// There are none; this is why.
    Failed(String),
    /// Whatever the contract at this root delivers.
    Contract { root: String },
}

/// A workflow that ended without the file it must end with.
pub open spec fn missing_terminal_text(workflow: WorkflowView, kind: Text) -> Text {
    workflow.kind + " completed without required "@ + kind + " terminal artifact"@
}

/// `out` is what is delivered when no contract owns the delivery: what the
/// terminal policy selects, or all files without one.
pub open spec fn plain_terminal_files(
    to_send: Seq<Text>,
    modified: Seq<Text>,
    workflow: Option<WorkflowView>,
    out: Seq<Text>,
) -> bool {
    if workflow is Some && workflow->0.terminal is Some {
        delivers(to_send, modified, workflow->0.terminal->0, out)
    } else {
        out == to_send + modified
    }
}

/// Where the terminal files of a background task come from.
pub fn resolve_background_terminal_files(
    working_dir: &str,
    files_to_send: &[String],
    files_modified: &[String],
    workflow: Option<&WorkflowMetadata>,
    policy_dirs: &[String],
    repos: &Result<Vec<WorkspaceRepo>, String>,
) -> (r: TerminalPlan)
    ensures
        workflow is Some && contract_owned(workflow->0@) ==> match contract_root(
            working_dir@,
            texts(files_to_send@) + texts(files_modified@),
            workflow->0@,
            texts(policy_dirs@),
            *repos,
        ) {
            Ok(found) => r matches TerminalPlan::Contract { root } && root@ == found,
            Err(e) => r matches TerminalPlan::Failed(error) && error@ == e,
        },
        !(workflow is Some && contract_owned(workflow->0@)) ==> match r {
            TerminalPlan::Files(out) => {
                &&& plain_terminal_files(
                    texts(files_to_send@),
                    texts(files_modified@),
                    workflow_view(workflow),
                    texts(out@),
                )
                &&& out@.len() > 0 || required_kind(workflow_view(workflow)) is None
            },
            TerminalPlan::Failed(error) => {
                &&& required_kind(workflow_view(workflow)) is Some
                &&& plain_terminal_files(
                    texts(files_to_send@),
                    texts(files_modified@),
                    workflow_view(workflow),
                    Seq::empty(),
                )
                &&& error@ == missing_terminal_text(
                    workflow->0@,
                    required_kind(workflow_view(workflow))->0,
                )
            },
            TerminalPlan::Contract { .. } => false,
        },
{
    match workflow {
        Some(w) => {
            if workflow_uses_contract_terminal_delivery(w) {
                return match resolve_contract_workspace_root(
                    working_dir,
                    files_to_send,
                    files_modified,
                    w,
                    policy_dirs,
                    repos,
                ) {
                    Ok(root) => TerminalPlan::Contract { root },
                    Err(error) => TerminalPlan::Failed(error),
                };
            }
        },
        None => {},
    }
    let files = match select_workflow_terminal_files(files_to_send, files_modified, workflow) {
        Some(files) => files,
        None => chain_lists(files_to_send, files_modified),
    };
    if files.len() == 0 {
        proof {
            assert(texts(files@) =~= Seq::empty());
        }
        match workflow_terminal_artifact_kind(workflow) {
            Some(kind) => {
                let mut e = match workflow {
                    Some(w) => w.workflow_kind.clone(),
                    None => "workflow".to_owned(),
                };
                e.append(" completed without required ");
                e.append(kind.as_str());
                e.append(" terminal artifact");
                return TerminalPlan::Failed(e);
            },
            None => {},
        }
    }
    TerminalPlan::Files(files)
}

/// What a contract gave, as the terminal files of the task.
pub fn contract_terminal_files(resolved: Result<Option<Vec<String>>, String>) -> (r: Result<
    Vec<String>,
    String,
>)
    ensures
        match resolved {
            Ok(Some(out)) => r == Ok::<Vec<String>, String>(out),
            Ok(None) => r matches Err(e) && e@ == "workspace contract returned no terminal files"@,
            Err(e) => r == Err::<Vec<String>, String>(e),
        },
{
    match resolved {
        Ok(Some(out)) => Ok(out),
        Ok(None) => Err("workspace contract returned no terminal files".to_owned()),
        Err(e) => Err(e),
    }
}

/// A contract that is not ready never delivers anything.
pub proof fn unready_contract_delivers_nothing(
    workflow: WorkflowView,
    seen: ContractObservation,
    r: Result<Seq<Text>, Text>,
)
    requires
        contract_delivers(workflow, seen, r),
        seen.status is Err || !seen.status->Ok_0.policy_managed || !seen.status->Ok_0.ready,
    ensures
        r is Err,
{
}

} // verus!
