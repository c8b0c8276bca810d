//! What holds of the files that every workflow delivers.
use vstd::prelude::*;

use crate::paths::{extension_of, name_of, parts_text, path_joined, path_parts};
use crate::sorting::sorts_paths;
use crate::terminal::{
    check_report, contract_delivers, contract_failure_text, contract_failures, contract_root,
    failed_checks, gathered, is_project_root, kind_directory, missing_artifacts, missing_report,
    missing_terminal_text, nearest_root, plain_terminal_files, present_names, probe_dirs,
    project_kind, roots_above, roots_of_kind, ContractArtifact, ContractCheck,
    ContractObservation, WorkspaceContractStatus, WorkspaceProjectKind, WorkspaceRepo,
};
use crate::text::{
    ascii_lower, contains_text, joined, lemma_filter_holds, Text,
};
use crate::text_laws::{joined_texts_hold_their_parts, lemma_held, lemma_held_within};
use crate::workflow::{
    contract_owned, deliverable, delivers, low_name, of_kind, phase_progress, preference,
    preferred_at, required_kind, terminal_candidates, TerminalPolicyView, WorkflowView,
};

verus! {

// ---------------------------------------------------------------------------
// Files

/// A file is of a kind by its extension: audio, presentations and sites in
/// whatever case it is written, reports as it is written. A file without an
/// extension is of none of these kinds, and every file is of any other kind.
pub proof fn kinds_are_told_by_extension(path: Text, kind: Text)
    ensures
        of_kind(path, "audio"@) <==> (extension_of(path) matches Some(ext) && seq![
            "mp3"@,
            "wav"@,
            "m4a"@,
            "aac"@,
            "flac"@,
            "ogg"@,
        ].contains(ascii_lower(ext))),
        of_kind(path, "presentation"@) <==> (extension_of(path) matches Some(ext) && seq![
            "pptx"@,
            "ppt"@,
            "pdf"@,
        ].contains(ascii_lower(ext))),
        of_kind(path, "site"@) <==> (extension_of(path) matches Some(ext) && seq![
            "html"@,
            "htm"@,
            "xhtml"@,
        ].contains(ascii_lower(ext))),
        of_kind(path, "report"@) <==> (extension_of(path) matches Some(ext) && seq![
            "md"@,
            "txt"@,
            "pdf"@,
            "html"@,
        ].contains(ext)),
        !seq!["audio"@, "presentation"@, "site"@, "report"@].contains(kind) ==> of_kind(path, kind),
{
    reveal_strlit("audio");
    reveal_strlit("presentation");
    reveal_strlit("site");
    reveal_strlit("report");
    assert("audio"@.len() == 5 && "presentation"@.len() == 12 && "site"@.len() == 4
        && "report"@.len() == 6);
    let known = seq!["audio"@, "presentation"@, "site"@, "report"@];
    assert(known[0] == "audio"@ && known[1] == "presentation"@ && known[2] == "site"@ && known[3]
        == "report"@);
    if let Some(ext) = extension_of(path) {
        let low = ascii_lower(ext);
        let audio = seq!["mp3"@, "wav"@, "m4a"@, "aac"@, "flac"@, "ogg"@];
        assert(audio[0] == "mp3"@ && audio[1] == "wav"@ && audio[2] == "m4a"@ && audio[3] == "aac"@
            && audio[4] == "flac"@ && audio[5] == "ogg"@);
        let slides = seq!["pptx"@, "ppt"@, "pdf"@];
        assert(slides[0] == "pptx"@ && slides[1] == "ppt"@ && slides[2] == "pdf"@);
        let sites = seq!["html"@, "htm"@, "xhtml"@];
        assert(sites[0] == "html"@ && sites[1] == "htm"@ && sites[2] == "xhtml"@);
        let reports = seq!["md"@, "txt"@, "pdf"@, "html"@];
        assert(reports[0] == "md"@ && reports[1] == "txt"@ && reports[2] == "pdf"@ && reports[3]
            == "html"@);
    }
}

/// Plain text and data are told rather than delivered; every other file is
/// delivered.
pub proof fn plain_text_is_not_delivered(path: Text)
    ensures
        deliverable(path) <==> !(extension_of(path) matches Some(ext) && seq![
            "md"@,
            "txt"@,
            "json"@,
            "csv"@,
        ].contains(ext)),
{
    let plain = seq!["md"@, "txt"@, "json"@, "csv"@];
    assert(plain[0] == "md"@ && plain[1] == "txt"@ && plain[2] == "json"@ && plain[3] == "csv"@);
}

/// A workflow without a rule that only the final file counts delivers exactly the
/// files of the required kind that were named for delivery or changed; where
/// intermediate files are forbidden, changed ones count only if none was named.
pub proof fn all_files_of_the_kind_are_delivered(
    to_send: Seq<Text>,
    modified: Seq<Text>,
    rules: TerminalPolicyView,
    out: Seq<Text>,
    path: Text,
)
    requires
        delivers(to_send, modified, rules, out),
        !rules.final_only,
    ensures
        out.contains(path) <==> of_kind(path, rules.kind) && (to_send.contains(path) || (
        modified.contains(path) && (!rules.forbid_intermediate || to_send.len() == 0))),
{
    lemma_candidates(to_send, modified, rules, path);
}

proof fn lemma_candidates(
    to_send: Seq<Text>,
    modified: Seq<Text>,
    rules: TerminalPolicyView,
    path: Text,
)
    ensures
        terminal_candidates(to_send, modified, rules).contains(path) <==> of_kind(path, rules.kind)
            && (to_send.contains(path) || (modified.contains(path) && (!rules.forbid_intermediate
            || to_send.len() == 0))),
{
    let pred = |p: Text| of_kind(p, rules.kind);
    let both = to_send + modified;
    lemma_filter_holds(both, pred, path);
    lemma_filter_holds(to_send, pred, path);
    lemma_filter_holds(modified, pred, path);
    if to_send.contains(path) {
        assert(both[to_send.index_of(path)] == path);
    }
    if modified.contains(path) {
        assert(both[to_send.len() + modified.index_of(path)] == path);
    }
    if both.contains(path) {
        let k = both.index_of(path);
        if k < to_send.len() {
            assert(to_send[k] == path);
        } else {
            assert(modified[k - to_send.len()] == path);
        }
    }
}

/// Where only the final file counts, one file is delivered if there is one of the
/// kind, and no other file of the kind looks more like the final one.
pub proof fn the_most_final_file_is_delivered(
    to_send: Seq<Text>,
    modified: Seq<Text>,
    rules: TerminalPolicyView,
    out: Seq<Text>,
    path: Text,
)
    requires
        delivers(to_send, modified, rules, out),
        rules.final_only,
        of_kind(path, rules.kind),
        to_send.contains(path) || (modified.contains(path) && (!rules.forbid_intermediate
            || to_send.len() == 0)),
    ensures
        out.len() == 1,
        preference(path, rules.kind) <= preference(out[0], rules.kind),
        of_kind(out[0], rules.kind),
        to_send.contains(out[0]) || modified.contains(out[0]),
{
    lemma_candidates(to_send, modified, rules, path);
    let all = terminal_candidates(to_send, modified, rules);
    let i = choose|i: int| #[trigger]
        preferred_at(all, rules.kind, i) && out == seq![all[i]];
    let k = all.index_of(path);
    assert(all[k] == path);
    assert(all.contains(all[i]));
    lemma_candidates(to_send, modified, rules, all[i]);
}

/// A file whose name says that it is final or full looks more final than one whose
/// name does not. Of two that agree in that, a podcast, a deck or an index page
/// comes first, and then the usual extension or a name that speaks of a site. The
/// case does not matter.
pub proof fn final_names_are_preferred(a: Text, b: Text)
    ensures
        ({
            let x = low_name(a);
            let y = low_name(b);
            let more = contains_text(x, "final"@) || contains_text(x, "full"@);
            let less = contains_text(y, "final"@) || contains_text(y, "full"@);
            &&& more && !less ==> forall|kind: Text| #[trigger]
                preference(a, kind) > preference(b, kind)
            &&& more == less && contains_text(x, "podcast"@) && !contains_text(y, "podcast"@)
                ==> preference(a, "audio"@) > preference(b, "audio"@)
            &&& more == less && contains_text(x, "podcast"@) == contains_text(y, "podcast"@)
                && ".mp3"@.is_suffix_of(x) && !".mp3"@.is_suffix_of(y) ==> preference(a, "audio"@)
                > preference(b, "audio"@)
            &&& more == less && contains_text(x, "deck"@) && !contains_text(y, "deck"@)
                ==> preference(a, "presentation"@) > preference(b, "presentation"@)
            &&& more == less && contains_text(x, "deck"@) == contains_text(y, "deck"@)
                && ".pptx"@.is_suffix_of(x) && !".pptx"@.is_suffix_of(y) ==> preference(
                a,
                "presentation"@,
            ) > preference(b, "presentation"@)
            &&& more == less && "index.html"@.is_suffix_of(x) && !"index.html"@.is_suffix_of(y)
                ==> preference(a, "site"@) > preference(b, "site"@)
            &&& more == less && "index.html"@.is_suffix_of(x) == "index.html"@.is_suffix_of(y)
                && contains_text(x, "site"@) && !contains_text(y, "site"@) ==> preference(
                a,
                "site"@,
            ) > preference(b, "site"@)
            &&& name_of(a) matches Some(name) ==> x == ascii_lower(name)
        }),
{
    reveal_strlit("audio");
    reveal_strlit("presentation");
    reveal_strlit("site");
    assert("audio"@.len() == 5 && "presentation"@.len() == 12 && "site"@.len() == 4);
}

/// Of files that look equally final the last one is delivered.
pub proof fn the_last_of_equals_is_delivered(files: Seq<Text>, kind: Text, i: int, j: int)
    requires
        preferred_at(files, kind, i),
        i < j < files.len(),
    ensures
        preference(files[j], kind) < preference(files[i], kind),
{
}

/// A workflow starts with little progress, has almost all while its results are
/// verified, and still more while they are delivered, but never all.
pub proof fn progress_grows_with_the_phases(phase: Text)
    ensures
        phase_progress("deliver_result"@) == 95,
        phase_progress("verify_outputs"@) == 90,
        phase_progress("verify_contract"@) == 90,
        phase != "deliver_result"@ && phase != "verify_outputs"@ && phase != "verify_contract"@
            ==> phase_progress(phase) == 5,
{
    reveal_strlit("deliver_result");
    reveal_strlit("verify_outputs");
    reveal_strlit("verify_contract");
    assert("deliver_result"@[0] == 'd' && "verify_outputs"@[0] == 'v' && "verify_contract"@[0]
        == 'v');
}

/// A workflow must end with a file exactly if its rules name a kind. A contract
/// owns the delivery of presentations, in a project of slides, and of sites, in a
/// project of sites, and of nothing else.
pub proof fn rules_name_the_kind(workflow: WorkflowView)
    ensures
        required_kind(None) is None,
        workflow.terminal is None ==> required_kind(Some(workflow)) is None,
        workflow.terminal matches Some(rules) ==> (rules.kind.len() > 0 ==> required_kind(
            Some(workflow),
        ) == Some(rules.kind)),
        workflow.terminal matches Some(rules) ==> (rules.kind.len() == 0 ==> required_kind(
            Some(workflow),
        ) is None),
        contract_owned(workflow) <==> (workflow.terminal matches Some(rules) && (rules.kind
            == "presentation"@ || rules.kind == "site"@)),
        project_kind(workflow) == Some(WorkspaceProjectKind::Slides) <==> (
        workflow.terminal matches Some(rules) && rules.kind == "presentation"@),
        project_kind(workflow) == Some(WorkspaceProjectKind::Sites) <==> (
        workflow.terminal matches Some(rules) && rules.kind == "site"@),
        kind_directory(WorkspaceProjectKind::Slides) == "slides"@,
        kind_directory(WorkspaceProjectKind::Sites) == "sites"@,
{
    reveal_strlit("presentation");
    reveal_strlit("site");
    assert("presentation"@.len() == 12 && "site"@.len() == 4);
}

/// Without a contract and without rules all files are delivered, those that were
/// named first.
pub proof fn without_rules_everything_is_delivered(
    to_send: Seq<Text>,
    modified: Seq<Text>,
    workflow: Option<WorkflowView>,
    out: Seq<Text>,
)
    requires
        plain_terminal_files(to_send, modified, workflow, out),
        workflow matches Some(known) ==> known.terminal is None,
    ensures
        to_send.is_prefix_of(out),
        modified.is_suffix_of(out),
        out.len() == to_send.len() + modified.len(),
{
    assert(out.subrange(0, to_send.len() as int) =~= to_send);
    assert(out.subrange(to_send.len() as int, out.len() as int) =~= modified);
}

/// A workflow that ends without the file it must end with is named with the kind of
/// the file.
pub proof fn missing_files_are_named(workflow: WorkflowView, kind: Text)
    ensures
        workflow.kind.is_prefix_of(missing_terminal_text(workflow, kind)),
        contains_text(missing_terminal_text(workflow, kind), kind),
{
    let text = missing_terminal_text(workflow, kind);
    let head = workflow.kind + " completed without required "@;
    assert(text =~= head + kind + " terminal artifact"@);
    lemma_held(head, kind, " terminal artifact"@);
    assert(workflow.kind =~= text.subrange(0, workflow.kind.len() as int));
}

// ---------------------------------------------------------------------------
// The project

/// The root of a project lies directly in the directory of its family and holds a
/// policy.
pub proof fn roots_lie_in_their_family(
    parts: Seq<Text>,
    kind: WorkspaceProjectKind,
    dirs: Seq<Text>,
)
    ensures
        is_project_root(parts, kind, dirs) <==> {
            &&& parts.len() >= 2
            &&& parts[parts.len() - 2] == (if kind == WorkspaceProjectKind::Slides {
                "slides"@
            } else {
                "sites"@
            })
            &&& exists|i: int| 0 <= i < dirs.len() && path_parts(#[trigger] dirs[i]) == parts
        },
{
}

/// The project of a file is the nearest root at or above it: there is one exactly
/// if some beginning of the path is a root, and it is the longest.
pub proof fn the_nearest_root_counts(
    parts: Seq<Text>,
    n: nat,
    kind: WorkspaceProjectKind,
    dirs: Seq<Text>,
    k: int,
)
    requires
        n <= parts.len(),
        0 <= k <= n,
        is_project_root(parts.take(k), kind, dirs),
        forall|j: int| k < j <= n ==> !is_project_root(#[trigger] parts.take(j), kind, dirs),
    ensures
        nearest_root(parts, n, kind, dirs) == Some(parts_text(parts.take(k))),
    decreases n,
{
    if k < n {
        assert(!is_project_root(parts.take(n as int), kind, dirs));
        the_nearest_root_counts(parts, (n - 1) as nat, kind, dirs, k);
    }
}

/// A file above which there is no root belongs to no project.
pub proof fn without_a_root_there_is_no_project(
    parts: Seq<Text>,
    n: nat,
    kind: WorkspaceProjectKind,
    dirs: Seq<Text>,
)
    requires
        n <= parts.len(),
        forall|j: int| 0 <= j <= n ==> !is_project_root(#[trigger] parts.take(j), kind, dirs),
    ensures
        nearest_root(parts, n, kind, dirs) is None,
    decreases n,
{
    assert(!is_project_root(parts.take(n as int), kind, dirs));
    if n > 0 {
        without_a_root_there_is_no_project(parts, (n - 1) as nat, kind, dirs);
    }
}

/// The project that a file belongs to, if it belongs to one.
pub open spec fn project_of(
    file: Text,
    working_dir: Text,
    kind: WorkspaceProjectKind,
    dirs: Seq<Text>,
) -> Option<Text> {
    let parts = path_parts(path_joined(working_dir, file));
    nearest_root(parts, parts.len(), kind, dirs)
}

/// The roots above some files are the projects that they belong to, each once.
proof fn lemma_roots_above(
    files: Seq<Text>,
    working_dir: Text,
    kind: WorkspaceProjectKind,
    dirs: Seq<Text>,
)
    ensures
        ({
            let roots = roots_above(files, working_dir, kind, dirs);
            &&& forall|r: int|
                0 <= r < roots.len() ==> exists|i: int|
                    0 <= i < files.len() && project_of(
                        #[trigger] files[i],
                        working_dir,
                        kind,
                        dirs,
                    ) == Some(#[trigger] roots[r])
            &&& forall|i: int|
                0 <= i < files.len() && project_of(
                    #[trigger] files[i],
                    working_dir,
                    kind,
                    dirs,
                ) is Some ==> exists|r: int|
                    0 <= r < roots.len() && path_parts(#[trigger] roots[r]) == path_parts(
                        project_of(files[i], working_dir, kind, dirs)->0,
                    )
        }),
    decreases files.len(),
{
    if files.len() > 0 {
        let rest = files.drop_last();
        let n = files.len() - 1;
        lemma_roots_above(rest, working_dir, kind, dirs);
        let before = roots_above(rest, working_dir, kind, dirs);
        let roots = roots_above(files, working_dir, kind, dirs);
        assert(forall|i: int| 0 <= i < n ==> #[trigger] rest[i] == files[i]);
        assert(files.last() == files[n]);
        assert forall|r: int| 0 <= r < roots.len() implies exists|i: int|
            0 <= i < files.len() && project_of(#[trigger] files[i], working_dir, kind, dirs) == Some(
                #[trigger] roots[r],
            ) by {
            if r < before.len() {
                assert(roots[r] == before[r]);
                let i = choose|i: int|
                    0 <= i < rest.len() && project_of(
                        #[trigger] rest[i],
                        working_dir,
                        kind,
                        dirs,
                    ) == Some(before[r]);
                assert(files[i] == rest[i]);
            } else {
                assert(project_of(files[n], working_dir, kind, dirs) == Some(roots[r]));
            }
        }
        assert forall|i: int|
            0 <= i < files.len() && project_of(
                #[trigger] files[i],
                working_dir,
                kind,
                dirs,
            ) is Some implies exists|r: int|
            0 <= r < roots.len() && path_parts(#[trigger] roots[r]) == path_parts(
                project_of(files[i], working_dir, kind, dirs)->0,
            ) by {
            let root = project_of(files[i], working_dir, kind, dirs)->0;
            if i < n {
                assert(rest[i] == files[i]);
                let r = choose|r: int|
                    0 <= r < before.len() && path_parts(#[trigger] before[r]) == path_parts(root);
                assert(roots[r] == before[r]);
            } else if crate::terminal::holds_path(before, root) {
                let r = choose|r: int|
                    0 <= r < before.len() && path_parts(#[trigger] before[r]) == path_parts(root);
                assert(roots[r] == before[r]);
            } else {
                assert(roots[before.len() as int] == root);
            }
        }
    }
}

/// Where the observed files belong to one project, that project counts; where they
/// belong to several, none does.
pub proof fn the_project_of_the_files_counts(
    working_dir: Text,
    files: Seq<Text>,
    workflow: WorkflowView,
    kind: WorkspaceProjectKind,
    dirs: Seq<Text>,
    repos: Result<Vec<WorkspaceRepo>, String>,
    i: int,
)
    requires
        project_kind(workflow) == Some(kind),
        0 <= i < files.len(),
        project_of(files[i], working_dir, kind, dirs) is Some,
    ensures
        ({
            let root = project_of(files[i], working_dir, kind, dirs)->0;
            let found = contract_root(working_dir, files, workflow, dirs, repos);
            let alone = forall|j: int|
                0 <= j < files.len() ==> (project_of(
                    #[trigger] files[j],
                    working_dir,
                    kind,
                    dirs,
                ) matches Some(other) ==> path_parts(other) == path_parts(root));
            &&& found matches Ok(one) ==> path_parts(one) == path_parts(root)
            &&& alone ==> found is Ok
            &&& !alone ==> found is Err
        }),
{
    lemma_roots_above(files, working_dir, kind, dirs);
    lemma_roots_differ(files, working_dir, kind, dirs);
    let roots = roots_above(files, working_dir, kind, dirs);
    let root = project_of(files[i], working_dir, kind, dirs)->0;
    let r = choose|r: int|
        0 <= r < roots.len() && path_parts(#[trigger] roots[r]) == path_parts(root);
    if roots.len() > 1 {
        let other = if r == 0 {
            1int
        } else {
            0
        };
        assert(path_parts(roots[other]) != path_parts(roots[r])) by {
            if r == 0 {
                assert(path_parts(roots[0]) != path_parts(roots[1]));
            } else {
                assert(path_parts(roots[0]) != path_parts(roots[r]));
            }
        }
        let j = choose|j: int|
            0 <= j < files.len() && project_of(#[trigger] files[j], working_dir, kind, dirs) == Some(
                roots[other],
            );
        assert(project_of(files[j], working_dir, kind, dirs) == Some(roots[other]));
    } else {
        assert forall|j: int| 0 <= j < files.len() implies (project_of(
            #[trigger] files[j],
            working_dir,
            kind,
            dirs,
        ) matches Some(other) ==> path_parts(other) == path_parts(root)) by {
            if project_of(files[j], working_dir, kind, dirs) is Some {
                let q = choose|q: int|
                    0 <= q < roots.len() && path_parts(#[trigger] roots[q]) == path_parts(
                        project_of(files[j], working_dir, kind, dirs)->0,
                    );
                assert(q == r);
            }
        }
    }
}

proof fn lemma_roots_differ(
    files: Seq<Text>,
    working_dir: Text,
    kind: WorkspaceProjectKind,
    dirs: Seq<Text>,
)
    ensures
        forall|a: int, b: int|
            0 <= a < b < roots_above(files, working_dir, kind, dirs).len() ==> path_parts(
                #[trigger] roots_above(files, working_dir, kind, dirs)[a],
            ) != path_parts(#[trigger] roots_above(files, working_dir, kind, dirs)[b]),
    decreases files.len(),
{
    if files.len() > 0 {
        lemma_roots_differ(files.drop_last(), working_dir, kind, dirs);
        let before = roots_above(files.drop_last(), working_dir, kind, dirs);
        let roots = roots_above(files, working_dir, kind, dirs);
        assert forall|a: int, b: int| 0 <= a < b < roots.len() implies path_parts(
            #[trigger] roots[a],
        ) != path_parts(#[trigger] roots[b]) by {
            assert(roots[a] == before[a]);
            if b < before.len() {
                assert(roots[b] == before[b]);
            }
        }
    }
}

/// Where no observed file belongs to a project, the working directory counts if it
/// is one, and else the only project of the family beneath it.
pub proof fn without_files_the_only_project_counts(
    working_dir: Text,
    files: Seq<Text>,
    workflow: WorkflowView,
    kind: WorkspaceProjectKind,
    dirs: Seq<Text>,
    repos: Result<Vec<WorkspaceRepo>, String>,
)
    requires
        project_kind(workflow) == Some(kind),
        forall|j: int|
            0 <= j < files.len() ==> project_of(
                #[trigger] files[j],
                working_dir,
                kind,
                dirs,
            ) is None,
    ensures
        ({
            let found = contract_root(working_dir, files, workflow, dirs, repos);
            let here = is_project_root(path_parts(working_dir), kind, dirs);
            &&& here ==> found == Ok::<Text, Text>(working_dir)
            &&& !here && repos is Err ==> found is Err
            &&& !here && found is Ok ==> exists|i: int| #[trigger]
                only_of_kind(repos->Ok_0@, kind, i) && found->Ok_0 == repos->Ok_0@[i].root@
            &&& !here && repos is Ok ==> forall|i: int| #[trigger]
                only_of_kind(repos->Ok_0@, kind, i) ==> found == Ok::<Text, Text>(
                    repos->Ok_0@[i].root@,
                )
        }),
{
    lemma_no_roots_above(files, working_dir, kind, dirs);
    if repos is Ok {
        lemma_only_of_kind(repos->Ok_0@, kind);
    }
}

/// The project at one place of a list is the only one of its family in it.
pub open spec fn only_of_kind(
    repos: Seq<WorkspaceRepo>,
    kind: WorkspaceProjectKind,
    i: int,
) -> bool {
    &&& 0 <= i < repos.len()
    &&& repos[i].kind == kind
    &&& forall|j: int| 0 <= j < repos.len() && j != i ==> (#[trigger] repos[j]).kind != kind
}

proof fn lemma_no_roots_above(
    files: Seq<Text>,
    working_dir: Text,
    kind: WorkspaceProjectKind,
    dirs: Seq<Text>,
)
    requires
        forall|j: int|
            0 <= j < files.len() ==> project_of(
                #[trigger] files[j],
                working_dir,
                kind,
                dirs,
            ) is None,
    ensures
        roots_above(files, working_dir, kind, dirs).len() == 0,
{
    lemma_roots_above(files, working_dir, kind, dirs);
    let roots = roots_above(files, working_dir, kind, dirs);
    if roots.len() > 0 {
        let i = choose|i: int|
            0 <= i < files.len() && project_of(#[trigger] files[i], working_dir, kind, dirs) == Some(
                roots[0],
            );
        assert(project_of(files[i], working_dir, kind, dirs) is None);
    }
}

proof fn lemma_only_of_kind(repos: Seq<WorkspaceRepo>, kind: WorkspaceProjectKind)
    ensures
        ({
            let beneath = roots_of_kind(repos, kind);
            &&& beneath.len() == 1 ==> exists|i: int| #[trigger]
                only_of_kind(repos, kind, i) && beneath[0] == repos[i].root@
            &&& forall|i: int| #[trigger]
                only_of_kind(repos, kind, i) ==> beneath.len() == 1 && beneath[0] == repos[i].root@
        }),
{
    let places = lemma_roots_of_kind(repos, kind);
    let beneath = roots_of_kind(repos, kind);
    if beneath.len() == 1 {
        let i = places[0];
        assert forall|j: int| 0 <= j < repos.len() && j != i implies (#[trigger] repos[j]).kind
            != kind by {
            if repos[j].kind == kind {
                assert(places.contains(j));
                assert(places[places.index_of(j)] == j);
            }
        }
        assert(only_of_kind(repos, kind, i));
    }
    assert forall|i: int| #[trigger] only_of_kind(repos, kind, i) implies beneath.len() == 1
        && beneath[0] == repos[i].root@ by {
        assert(places.contains(i));
        let k = places.index_of(i);
        assert(places[k] == i);
        if beneath.len() > 1 {
            assert(places[0] < places[1]);
            assert(repos[places[0]].kind == kind && repos[places[1]].kind == kind);
        }
    }
}

proof fn lemma_roots_of_kind(repos: Seq<WorkspaceRepo>, kind: WorkspaceProjectKind) -> (places: Seq<
    int,
>)
    ensures
        places.len() == roots_of_kind(repos, kind).len(),
        forall|k: int|
            0 <= k < places.len() ==> 0 <= #[trigger] places[k] < repos.len() && repos[places[k]].kind
                == kind && repos[places[k]].root@ == roots_of_kind(repos, kind)[k],
        forall|k: int, m: int|
            0 <= k < m < places.len() ==> #[trigger] places[k] < #[trigger] places[m],
        forall|i: int|
            0 <= i < repos.len() && (#[trigger] repos[i]).kind == kind ==> places.contains(i),
    decreases repos.len(),
{
    if repos.len() == 0 {
        Seq::empty()
    } else {
        let rest = repos.drop_last();
        let n = repos.len() - 1;
        let before = lemma_roots_of_kind(rest, kind);
        let earlier = roots_of_kind(rest, kind);
        let roots = roots_of_kind(repos, kind);
        let places = if repos.last().kind == kind {
            before.push(n)
        } else {
            before
        };
        assert(forall|i: int| 0 <= i < n ==> #[trigger] rest[i] == repos[i]);
        assert forall|k: int| 0 <= k < places.len() implies 0 <= #[trigger] places[k] < repos.len()
            && repos[places[k]].kind == kind && repos[places[k]].root@ == roots[k] by {
            if k < before.len() {
                assert(places[k] == before[k]);
                assert(rest[before[k]] == repos[before[k]]);
                assert(roots[k] == earlier[k]);
            }
        }
        assert forall|k: int, m: int| 0 <= k < m < places.len() implies #[trigger] places[k]
            < #[trigger] places[m] by {
            if m < before.len() {
                assert(before[k] < before[m]);
            } else {
                assert(before[k] < rest.len());
            }
        }
        assert forall|i: int| 0 <= i < repos.len() && (#[trigger] repos[i]).kind
            == kind implies places.contains(i) by {
            if i < n {
                assert(rest[i] == repos[i]);
                assert(before.contains(i));
                assert(places[before.index_of(i)] == i);
            } else {
                assert(places[before.len() as int] == i);
            }
        }
        places
    }
}

/// Policies are looked for in the working directory, at every observed path and in
/// every directory above it.
pub proof fn every_directory_above_a_file_is_probed(
    files: Seq<Text>,
    working_dir: Text,
    i: int,
    n: int,
)
    requires
        0 <= i < files.len(),
        0 <= n <= path_parts(path_joined(working_dir, files[i])).len(),
    ensures
        probe_dirs(files, working_dir).contains(
            parts_text(path_parts(path_joined(working_dir, files[i])).take(n)),
        ),
        probe_dirs(files, working_dir).contains(working_dir),
    decreases files.len(),
{
    let rest = files.drop_last();
    let before = probe_dirs(rest, working_dir);
    let last = path_parts(path_joined(working_dir, files.last()));
    let more = Seq::new(last.len() + 1, |k: int| parts_text(last.take(last.len() - k)));
    let all = probe_dirs(files, working_dir);
    assert(all == before + more);
    lemma_working_dir_probed(files, working_dir);
    let dir = parts_text(path_parts(path_joined(working_dir, files[i])).take(n));
    if i == files.len() - 1 {
        assert(more[last.len() - n] == dir);
        assert(all[before.len() + (last.len() - n)] == dir);
    } else {
        assert(rest[i] == files[i]);
        every_directory_above_a_file_is_probed(rest, working_dir, i, n);
        assert(all[before.index_of(dir)] == dir);
    }
}

proof fn lemma_working_dir_probed(files: Seq<Text>, working_dir: Text)
    ensures
        probe_dirs(files, working_dir).len() > 0,
        probe_dirs(files, working_dir)[0] == working_dir,
        probe_dirs(files, working_dir).contains(working_dir),
    decreases files.len(),
{
    if files.len() > 0 {
        lemma_working_dir_probed(files.drop_last(), working_dir);
    }
    assert(probe_dirs(files, working_dir)[0] == working_dir);
}

// ---------------------------------------------------------------------------
// The contract

/// A contract delivers only if it could be inspected, is managed by a policy and is
/// ready. Where only the final file counts, it delivers the file of its primary
/// artifact, which must be declared and present; else the files of the artifacts
/// that are present, of which there must be some, in order and each once.
pub proof fn ready_contracts_deliver_their_artifacts(
    workflow: WorkflowView,
    seen: ContractObservation,
    r: Result<Seq<Text>, Text>,
)
    requires
        contract_delivers(workflow, seen, r),
        workflow.terminal is Some,
    ensures
        r is Ok ==> (seen.status matches Ok(status) && status.policy_managed && status.ready),
        r matches Ok(files) ==> (workflow.terminal->0.final_only ==> {
            &&& seen.primary_path matches Ok(Some(path)) && files.len() == 1 && files[0] == path@
            &&& exists|i: int|
                0 <= i < seen.status->Ok_0.artifacts@.len() && (
                #[trigger] seen.status->Ok_0.artifacts@[i]).name@ == "primary"@
                    && seen.status->Ok_0.artifacts@[i].present
        }),
        r matches Ok(files) ==> (!workflow.terminal->0.final_only ==> {
            let found = gathered(
                present_names(seen.status->Ok_0.artifacts@),
                seen.artifact_paths@,
            );
            &&& found is Ok
            &&& found->Ok_0.len() > 0
            &&& sorts_paths(files, found->Ok_0)
        }),
        seen.status matches Ok(status) ==> (status.policy_managed && !status.ready ==> (
        r matches Err(why) && contains_text(why, status.repo_label@))),
{
    if let Ok(status) = seen.status {
        if status.policy_managed && !status.ready {
            failures_are_told(status);
        }
    }
}

/// Every check that failed and every artifact that is missing is told, with what the
/// check and the artifact are; so is the error of the contract and its name.
pub proof fn failures_are_told(status: WorkspaceContractStatus)
    ensures
        ({
            let text = contract_failure_text(status);
            &&& contains_text(text, status.repo_label@)
            &&& status.error matches Some(error) ==> contains_text(text, error@)
            &&& forall|i: int|
                0 <= i < status.turn_end_checks@.len() && !(
                #[trigger] status.turn_end_checks@[i]).passed ==> contains_text(
                    text,
                    status.turn_end_checks@[i].spec@,
                )
            &&& forall|i: int|
                0 <= i < status.completion_checks@.len() && !(
                #[trigger] status.completion_checks@[i]).passed ==> contains_text(
                    text,
                    status.completion_checks@[i].spec@,
                )
            &&& forall|i: int|
                0 <= i < status.artifacts@.len() && !(#[trigger] status.artifacts@[i]).present
                    ==> contains_text(text, status.artifacts@[i].name@)
        }),
{
    let text = contract_failure_text(status);
    let all = contract_failures(status);
    let opening = "workspace contract for "@;
    let label = status.repo_label@;
    let tail = if all.len() == 0 {
        " is not ready"@
    } else {
        " is not ready: "@ + joined(all, "; "@)
    };
    assert(text =~= opening + label + tail);
    lemma_held(opening, label, tail);
    if status.error is Some {
        lemma_failures(status, status.error->0@);
        lemma_failure_told(status, status.error->0@);
    }
    assert forall|i: int|
        0 <= i < status.turn_end_checks@.len() && !(
        #[trigger] status.turn_end_checks@[i]).passed implies contains_text(
        text,
        status.turn_end_checks@[i].spec@,
    ) by {
        let said = check_report(status.turn_end_checks@[i]);
        lemma_failed(status.turn_end_checks@);
        lemma_failures(status, said);
        lemma_failure_told(status, said);
        lemma_check_named(status.turn_end_checks@[i]);
        lemma_held_within(text, said, status.turn_end_checks@[i].spec@);
    }
    assert forall|i: int|
        0 <= i < status.completion_checks@.len() && !(
        #[trigger] status.completion_checks@[i]).passed implies contains_text(
        text,
        status.completion_checks@[i].spec@,
    ) by {
        let said = check_report(status.completion_checks@[i]);
        lemma_failed(status.completion_checks@);
        lemma_failures(status, said);
        lemma_failure_told(status, said);
        lemma_check_named(status.completion_checks@[i]);
        lemma_held_within(text, said, status.completion_checks@[i].spec@);
    }
    assert forall|i: int|
        0 <= i < status.artifacts@.len() && !(
        #[trigger] status.artifacts@[i]).present implies contains_text(
        text,
        status.artifacts@[i].name@,
    ) by {
        let said = missing_report(status.artifacts@[i]);
        lemma_missing(status.artifacts@);
        lemma_failures(status, said);
        lemma_failure_told(status, said);
        let name = status.artifacts@[i].name@;
        let rest = "' matching '"@ + status.artifacts@[i].pattern@ + "'"@;
        assert(said =~= "missing artifact '"@ + name + rest);
        lemma_held("missing artifact '"@, name, rest);
        lemma_held_within(text, said, name);
    }
}

/// The failures of a contract are its error, its failed checks and its missing
/// artifacts.
proof fn lemma_failures(status: WorkspaceContractStatus, said: Text)
    ensures
        contract_failures(status).contains(said) <==> {
            ||| (status.error matches Some(error) && error@ == said)
            ||| failed_checks(status.turn_end_checks@).contains(said)
            ||| failed_checks(status.completion_checks@).contains(said)
            ||| missing_artifacts(status.artifacts@).contains(said)
        },
{
    let head = match status.error {
        Some(error) => seq![error@],
        None => Seq::<Text>::empty(),
    };
    let a = failed_checks(status.turn_end_checks@);
    let b = failed_checks(status.completion_checks@);
    let c = missing_artifacts(status.artifacts@);
    assert(contract_failures(status) == head + a + b + c);
    lemma_either(head, a, said);
    lemma_either(head + a, b, said);
    lemma_either(head + a + b, c, said);
    if status.error is Some {
        assert(head[0] == status.error->0@);
    }
}

proof fn lemma_either(a: Seq<Text>, b: Seq<Text>, one: Text)
    ensures
        (a + b).contains(one) <==> a.contains(one) || b.contains(one),
{
    if a.contains(one) {
        assert((a + b)[a.index_of(one)] == one);
    }
    if b.contains(one) {
        assert((a + b)[a.len() + b.index_of(one)] == one);
    }
    if (a + b).contains(one) {
        let k = (a + b).index_of(one);
        if k < a.len() {
            assert(a[k] == one);
        } else {
            assert(b[k - a.len()] == one);
        }
    }
}

proof fn lemma_failure_told(status: WorkspaceContractStatus, said: Text)
    requires
        contract_failures(status).contains(said),
    ensures
        contains_text(contract_failure_text(status), said),
{
    let text = contract_failure_text(status);
    let all = contract_failures(status);
    let k = all.index_of(said);
    joined_texts_hold_their_parts(all, "; "@, k);
    let head = "workspace contract for "@ + status.repo_label@ + " is not ready: "@;
    let none = Seq::<char>::empty();
    let body = joined(all, "; "@);
    assert(text =~= head + body + none);
    lemma_held(head, body, none);
    lemma_held_within(text, body, said);
}

/// A contract whose checks all passed, whose artifacts are all present and which met
/// no error has no failures.
pub proof fn nothing_failed_where_all_passed(status: WorkspaceContractStatus)
    requires
        status.error is None,
        forall|i: int|
            0 <= i < status.turn_end_checks@.len() ==> (#[trigger] status.turn_end_checks@[i]).passed,
        forall|i: int|
            0 <= i < status.completion_checks@.len() ==> (
            #[trigger] status.completion_checks@[i]).passed,
        forall|i: int|
            0 <= i < status.artifacts@.len() ==> (#[trigger] status.artifacts@[i]).present,
    ensures
        contract_failures(status).len() == 0,
{
    lemma_failed(status.turn_end_checks@);
    lemma_failed(status.completion_checks@);
    lemma_missing(status.artifacts@);
}

proof fn lemma_check_named(check: ContractCheck)
    ensures
        contains_text(check_report(check), check.spec@),
{
    let none = Seq::<char>::empty();
    let said = check_report(check);
    let rest = said.skip(check.spec@.len() as int);
    assert(said =~= none + check.spec@ + rest);
    lemma_held(none, check.spec@, rest);
}

proof fn lemma_failed(checks: Seq<ContractCheck>)
    ensures
        forall|i: int|
            0 <= i < checks.len() && !(#[trigger] checks[i]).passed ==> failed_checks(
                checks,
            ).contains(check_report(checks[i])),
        (forall|i: int| 0 <= i < checks.len() ==> (#[trigger] checks[i]).passed) ==> failed_checks(
            checks,
        ).len() == 0,
    decreases checks.len(),
{
    if checks.len() > 0 {
        let rest = checks.drop_last();
        let n = checks.len() - 1;
        lemma_failed(rest);
        let before = failed_checks(rest);
        let all = failed_checks(checks);
        assert(forall|i: int| 0 <= i < n ==> #[trigger] rest[i] == checks[i]);
        assert forall|i: int| 0 <= i < checks.len() && !(
        #[trigger] checks[i]).passed implies all.contains(check_report(checks[i])) by {
            let said = check_report(checks[i]);
            if i < n {
                assert(rest[i] == checks[i]);
                assert(before.contains(said));
                assert(all[before.index_of(said)] == said);
            } else {
                assert(all[before.len() as int] == said);
            }
        }
        if forall|i: int| 0 <= i < checks.len() ==> (#[trigger] checks[i]).passed {
            assert(checks[n].passed);
            assert forall|i: int| 0 <= i < rest.len() implies (#[trigger] rest[i]).passed by {
                assert(checks[i].passed);
            }
        }
    }
}

proof fn lemma_missing(artifacts: Seq<ContractArtifact>)
    ensures
        forall|i: int|
            0 <= i < artifacts.len() && !(#[trigger] artifacts[i]).present ==> missing_artifacts(
                artifacts,
            ).contains(missing_report(artifacts[i])),
        (forall|i: int| 0 <= i < artifacts.len() ==> (#[trigger] artifacts[i]).present)
            ==> missing_artifacts(artifacts).len() == 0,
    decreases artifacts.len(),
{
    if artifacts.len() > 0 {
        let rest = artifacts.drop_last();
        let n = artifacts.len() - 1;
        lemma_missing(rest);
        let before = missing_artifacts(rest);
        let all = missing_artifacts(artifacts);
        assert(forall|i: int| 0 <= i < n ==> #[trigger] rest[i] == artifacts[i]);
        assert forall|i: int| 0 <= i < artifacts.len() && !(
        #[trigger] artifacts[i]).present implies all.contains(missing_report(artifacts[i])) by {
            let said = missing_report(artifacts[i]);
            if i < n {
                assert(rest[i] == artifacts[i]);
                assert(before.contains(said));
                assert(all[before.index_of(said)] == said);
            } else {
                assert(all[before.len() as int] == said);
            }
        }
        if forall|i: int| 0 <= i < artifacts.len() ==> (#[trigger] artifacts[i]).present {
            assert(artifacts[n].present);
            assert forall|i: int| 0 <= i < rest.len() implies (#[trigger] rest[i]).present by {
                assert(artifacts[i].present);
            }
        }
    }
}

/// The artifacts that are resolved are those that are present.
pub proof fn present_artifacts_are_named(artifacts: Seq<ContractArtifact>, name: Text)
    ensures
        present_names(artifacts).contains(name) <==> exists|i: int|
            0 <= i < artifacts.len() && (#[trigger] artifacts[i]).present && artifacts[i].name@
                == name,
    decreases artifacts.len(),
{
    if artifacts.len() > 0 {
        let rest = artifacts.drop_last();
        let n = artifacts.len() - 1;
        present_artifacts_are_named(rest, name);
        let before = present_names(rest);
        let all = present_names(artifacts);
        assert(forall|i: int| 0 <= i < n ==> #[trigger] rest[i] == artifacts[i]);
        if all.contains(name) {
            let k = all.index_of(name);
            if k < before.len() {
                assert(before[k] == name);
                assert(before.contains(name));
                let i = choose|i: int|
                    0 <= i < rest.len() && (#[trigger] rest[i]).present && rest[i].name@ == name;
                assert(artifacts[i] == rest[i]);
            } else {
                assert(artifacts[n].present && artifacts[n].name@ == name);
            }
        }
        if exists|i: int|
            0 <= i < artifacts.len() && (#[trigger] artifacts[i]).present && artifacts[i].name@
                == name {
            let i = choose|i: int|
                0 <= i < artifacts.len() && (#[trigger] artifacts[i]).present && artifacts[i].name@
                    == name;
            if i < n {
                assert(rest[i].present);
                assert(before.contains(name));
                assert(all[before.index_of(name)] == name);
            } else {
                assert(all[before.len() as int] == name);
            }
        }
    }
}

} // verus!
