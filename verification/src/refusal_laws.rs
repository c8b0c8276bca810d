//! What holds of every answer that says why there is nothing else to say.
use vstd::prelude::*;

use crate::arguments::list_member;
use crate::artifacts::{artifact_files, counted, matching, pattern_of, ArtifactPattern, GlobScan};
use crate::json::Json;
use crate::manage_skills::{
    entry_text, found_packages, package_block, search_text, skill_lines, skip_note, up_to_date,
    CandidateView,
};
use crate::read_task_output::{ancestor_verdict, hits, part, AncestorSeen, ReadMode};
use crate::terminal::{contract_delivers, contract_root, ContractObservation, WorkspaceRepo};
use crate::text::{contains_text, debug_form, decimal, text_lines, Text};
use crate::text_laws::lemma_held;
use crate::versions::{newer, version_in};
use crate::workflow::WorkflowView;

verus! {

/// A text holds what stands in it after a beginning.
proof fn lemma_told(said: Text, head: Text, part: Text)
    requires
        (head + part).is_prefix_of(said),
    ensures
        contains_text(said, part),
{
    let all = head + part;
    let rest = said.skip(all.len() as int);
    assert(said =~= head + part + rest) by {
        assert(said.subrange(0, all.len() as int) =~= all);
    }
    lemma_held(head, part, rest);
}

// ---------------------------------------------------------------------------
// Artifacts

/// A search that fails is told with its pattern and the error.
pub proof fn failed_searches_are_told(pattern: Text, scan: GlobScan, started_at: Option<i128>)
    ensures
        matching(pattern, scan, started_at) matches Err(said) ==> contains_text(said, pattern),
        scan matches GlobScan::Invalid { error } ==> (matching(
            pattern,
            scan,
            started_at,
        ) matches Err(said) && error@.is_suffix_of(said)),
        scan matches GlobScan::Entries { entries } ==> (counted(
            entries@,
            started_at,
        ) matches Err(error) ==> (matching(pattern, scan, started_at) matches Err(said)
            && error.is_suffix_of(said))),
{
    match scan {
        GlobScan::Invalid { error } => {
            let head = "invalid artifact glob '"@;
            let said = head + pattern + "': "@ + error@;
            assert(said.subrange(0, (head + pattern).len() as int) =~= head + pattern);
            lemma_told(said, head, pattern);
            assert(said.subrange(said.len() - error@.len(), said.len() as int) =~= error@);
        },
        GlobScan::Entries { entries } => {
            if let Err(error) = counted(entries@, started_at) {
                let head = "artifact glob failed for '"@;
                let said = head + pattern + "': "@ + error;
                assert(said.subrange(0, (head + pattern).len() as int) =~= head + pattern);
                lemma_told(said, head, pattern);
                assert(said.subrange(said.len() - error.len(), said.len() as int) =~= error);
            }
        },
    }
}

/// An artifact that is not known is named, and one that is not found is told with its
/// pattern.
pub proof fn missing_artifacts_are_named(
    patterns: Seq<ArtifactPattern>,
    name: Text,
    scan: GlobScan,
    started_at: i128,
)
    ensures
        pattern_of(patterns, name) is None ==> (artifact_files(
            patterns,
            name,
            scan,
            started_at,
        ) matches Err(said) && contains_text(said, name)),
        pattern_of(patterns, name) matches Some(pattern) ==> (artifact_files(
            patterns,
            name,
            scan,
            started_at,
        ) matches Err(said) ==> contains_text(said, pattern)),
{
    match pattern_of(patterns, name) {
        None => {
            let open = "workspace contract references unknown artifact '"@;
            lemma_held(open, name, "'"@);
        },
        Some(pattern) => {
            failed_searches_are_told(pattern, scan, Some(started_at));
            failed_searches_are_told(pattern, scan, None);
            let head = "contract could not find artifact '"@ + name + "' matching '"@;
            lemma_held(head, pattern, "'"@);
        },
    }
}

// ---------------------------------------------------------------------------
// Output

/// A directory that stops a read is named: a link with the path that was asked for,
/// one that cannot be looked at with the error.
pub proof fn blocking_directories_are_named(path: Text, dir: Text, seen: AncestorSeen)
    ensures
        ancestor_verdict(path, dir, seen) matches Some(Err(said)) ==> contains_text(said, dir),
        seen is Link ==> (ancestor_verdict(path, dir, seen) matches Some(Err(said))
            && contains_text(said, path)),
        seen matches AncestorSeen::Failed { error } ==> (ancestor_verdict(
            path,
            dir,
            seen,
        ) matches Some(Err(said)) && error@.is_suffix_of(said)),
{
    match seen {
        AncestorSeen::Link => {
            let open = "ancestor of '"@;
            let tail = "' is a symlink ("@ + dir + "); refusing to follow"@;
            let said = open + path + "' is a symlink ("@ + dir + "); refusing to follow"@;
            assert(said =~= open + path + tail);
            lemma_held(open, path, tail);
            lemma_held(open + path + "' is a symlink ("@, dir, "); refusing to follow"@);
        },
        AncestorSeen::Failed { error } => {
            let open = "failed to stat ancestor "@;
            let said = open + dir + ": "@ + error@;
            assert(said.subrange(0, (open + dir).len() as int) =~= open + dir);
            lemma_told(said, open, dir);
            assert(said.subrange(said.len() - error@.len(), said.len() as int) =~= error@);
        },
        _ => {},
    }
}

/// A range that is refused is told with its lines, and a pattern that no line holds is
/// told.
pub proof fn refused_reads_are_told(text: Text, start: usize, end: usize, mode: ReadMode)
    ensures
        0 < end < start ==> (part(text, ReadMode::LineRange { start, end }) matches Err(said)
            && contains_text(said, decimal(end as nat)) && decimal(start as nat).is_suffix_of(
            said,
        )),
        0 < start <= end && end - start + 1 > 500 ==> (part(
            text,
            ReadMode::LineRange { start, end },
        ) matches Err(said) && contains_text(said, decimal(start as nat)) && contains_text(
            said,
            decimal(end as nat),
        )),
        mode matches ReadMode::Grep { pattern, max_matches } ==> (pattern@.len() > 0 && max_matches
            > 0 && hits(text_lines(text), pattern@).len() == 0 ==> (part(text, mode) matches Ok(said)
            && contains_text(said, debug_form(pattern@)))),
{
    let a = decimal(start as nat);
    let b = decimal(end as nat);
    if 0 < end < start {
        let open = "end line "@;
        let said = open + b + " must be >= start line "@ + a;
        assert(said.subrange(0, (open + b).len() as int) =~= open + b);
        lemma_told(said, open, b);
        assert(said.subrange(said.len() - a.len(), said.len() as int) =~= a);
    }
    if 0 < start <= end && end - start + 1 > 500 {
        let open = "line range "@;
        let said = open + a + "..="@ + b + " spans "@ + decimal((end - start + 1) as nat)
            + " lines (cap is 500)"@;
        assert(said.subrange(0, (open + a).len() as int) =~= open + a);
        lemma_told(said, open, a);
        let head = open + a + "..="@;
        assert(said.subrange(0, (head + b).len() as int) =~= head + b);
        lemma_told(said, head, b);
    }
    if let ReadMode::Grep { pattern, max_matches } = mode {
        lemma_held("(no matches for "@, debug_form(pattern@), ")"@);
    }
}

// ---------------------------------------------------------------------------
// Skills

/// A skill that is left alone is told with the version that is installed, and with
/// the newer one where there is one.
pub proof fn versions_of_skipped_skills_are_told(c: CandidateView, name: Text, registry: Text)
    ensures
        version_in(c.local_md) matches Some(local) ==> (version_in(c.remote_md) matches Some(remote)
            ==> contains_text(skip_note(c), local) && (newer(remote, local) ==> contains_text(
            skip_note(c),
            remote,
        ))),
        version_in(c.local_md) matches Some(local) ==> (up_to_date(
            name,
            Some(local),
            Some(registry),
        ) matches Some(said) ==> contains_text(said, name) && contains_text(said, local)),
{
    if let Some(local) = version_in(c.local_md) {
        let open = "'"@;
        let said = open + name + "' is up to date (v"@ + local + ")"@;
        assert(said.subrange(0, (open + name).len() as int) =~= open + name);
        lemma_told(said, open, name);
        lemma_held(open + name + "' is up to date (v"@, local, ")"@);
        if let Some(remote) = version_in(c.remote_md) {
            let note = skip_note(c);
            if newer(remote, local) {
                let head = c.name + " (update available: "@;
                assert(note.subrange(0, (head + local).len() as int) =~= head + local);
                lemma_told(note, head, local);
                let more = head + local + " → "@;
                lemma_held(more, remote, ", use force=true to update)"@);
            } else {
                lemma_held(c.name + " (up to date: "@, local, ")"@);
            }
        }
    }
}

/// A package is told by its name and its description, and then by its skills, or by
/// its repository where it lists none. A search that finds nothing tells the query.
pub proof fn packages_are_told(entry: Json, entries: Seq<Json>, query: Text)
    ensures
        (entry_text(entry, "name"@, "?"@) + ": "@ + entry_text(
            entry,
            "description"@,
            ""@,
        )).is_prefix_of(package_block(entry)),
        list_member(entry, "skills"@).len() > 0 ==> skill_lines(
            entry_text(entry, "repo"@, ""@),
            list_member(entry, "skills"@),
        ).is_suffix_of(package_block(entry)),
        list_member(entry, "skills"@).len() == 0 ==> contains_text(
            package_block(entry),
            entry_text(entry, "repo"@, ""@),
        ),
        found_packages(entries, Some(query)).len() == 0 ==> contains_text(
            search_text(entries, Some(query)),
            query,
        ),
{
    let head = entry_text(entry, "name"@, "?"@) + ": "@ + entry_text(entry, "description"@, ""@);
    let repo = entry_text(entry, "repo"@, ""@);
    let skills = list_member(entry, "skills"@);
    let block = package_block(entry);
    assert(block.subrange(0, head.len() as int) =~= head);
    if skills.len() == 0 {
        let open = head + "\n  Install: manage_skills(action=\"install\", repo=\""@;
        lemma_held(open, repo, "\")"@);
    } else {
        let lines = skill_lines(repo, skills);
        assert(block.subrange(block.len() - lines.len(), block.len() as int) =~= lines);
    }
    lemma_held("No packages matching '"@, query, "'"@);
}

// ---------------------------------------------------------------------------
// Contracts

/// Errors met while a contract is looked at are told at the end of the refusal.
pub proof fn errors_of_contracts_are_told(
    workflow: WorkflowView,
    seen: ContractObservation,
    r: Result<Seq<Text>, Text>,
)
    requires
        contract_delivers(workflow, seen, r),
    ensures
        seen.status matches Err(error) ==> (r matches Err(said) && error@.is_suffix_of(said)),
        seen.status matches Ok(status) ==> (!status.policy_managed ==> (r matches Err(said)
            && status.repo_label@.is_suffix_of(said))),
        r is Err && seen.status is Ok && seen.status->Ok_0.policy_managed
            && seen.status->Ok_0.ready && workflow.terminal->0.final_only
            && crate::terminal::primary_present(seen.status->Ok_0.artifacts@) ==> (
        seen.primary_path matches Err(error) ==> error@.is_suffix_of(r->Err_0)),
{
    match seen.status {
        Err(error) => {
            crate::text::lemma_two_parts("workspace contract inspection failed: "@, error@);
        },
        Ok(status) => {
            crate::text::lemma_two_parts("workspace contract missing for "@, status.repo_label@);
            if let Err(error) = seen.primary_path {
                crate::text::lemma_two_parts("workspace contract resolution failed: "@, error@);
            }
            if crate::terminal::primary_present(status.artifacts@) {
                assert(crate::terminal::primary_declared(status.artifacts@));
            }
        },
    }
}

/// A project that is not found is told with the directory beneath which it was looked
/// for.
pub proof fn missing_projects_are_told(
    working_dir: Text,
    files: Seq<Text>,
    workflow: WorkflowView,
    dirs: Seq<Text>,
    repos: Vec<WorkspaceRepo>,
)
    requires
        crate::terminal::project_kind(workflow) is Some,
        crate::terminal::roots_above(
            files,
            working_dir,
            crate::terminal::project_kind(workflow)->0,
            dirs,
        ).len() == 0,
    ensures
        contract_root(
            working_dir,
            files,
            workflow,
            dirs,
            Ok::<Vec<WorkspaceRepo>, String>(repos),
        ) matches Err(said) ==> contains_text(said, working_dir),
{
    let kind = crate::terminal::project_kind(workflow)->0;
    let label = crate::terminal::kind_label(kind);
    let none = Seq::<char>::empty();
    let open = "no "@ + label + " workspace contract found beneath "@;
    assert(open + working_dir =~= open + working_dir + none);
    lemma_held(open, working_dir, none);
    let head = "multiple "@ + label + " workspace contracts found beneath "@;
    lemma_held(
        head,
        working_dir,
        "; unable to choose a terminal artifact root deterministically"@,
    );
}

} // verus!
