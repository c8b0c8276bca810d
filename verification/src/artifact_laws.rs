//! What holds of the artifacts of every background task.
use vstd::prelude::*;

use crate::artifacts::{
    artifact_files, artifacts_of, bound, counted, found_artifacts, matching, newest_first,
    newest_files_come_first, paths_in, pattern_of, present_files, ArtifactPattern, DatedView,
    GlobEntry, GlobScan, ReportedFile, TargetView,
};
use crate::text::{texts, Text};
use crate::workspace_contract::SpawnTaskPolicy;

verus! {

/// A search found a file with a path.
pub open spec fn is_file_at(entry: GlobEntry, path: Text) -> bool {
    entry matches GlobEntry::Found { found } && found.is_file && found.path@ == path
}

/// A search found a file that was modified no earlier than two seconds before a
/// task started. A file whose time is not known counts as very old.
pub open spec fn is_recent(entry: GlobEntry, started_at: int) -> bool {
    entry matches GlobEntry::Found { found } && found.is_file && (match found.modified {
        Some(at) => at as int,
        None => 0,
    }) >= started_at - 2000000000
}

/// Some file that a search found is recent.
pub open spec fn any_recent(entries: Seq<GlobEntry>, started_at: int) -> bool {
    exists|i: int| 0 <= i < entries.len() && is_recent(#[trigger] entries[i], started_at)
}

/// A search found a recent file with a path.
pub open spec fn recent_at(entries: Seq<GlobEntry>, started_at: int, path: Text) -> bool {
    exists|i: int|
        0 <= i < entries.len() && is_recent(#[trigger] entries[i], started_at) && is_file_at(
            entries[i],
            path,
        )
}

/// A search found a file with a path.
pub open spec fn file_at(entries: Seq<GlobEntry>, path: Text) -> bool {
    exists|i: int| 0 <= i < entries.len() && is_file_at(#[trigger] entries[i], path)
}

/// A recent file is a file that was found.
pub proof fn recent_files_are_found(entries: Seq<GlobEntry>, started_at: int, path: Text)
    ensures
        recent_at(entries, started_at, path) ==> file_at(entries, path) && any_recent(
            entries,
            started_at,
        ),
{
    if recent_at(entries, started_at, path) {
        let i = choose|i: int|
            0 <= i < entries.len() && is_recent(#[trigger] entries[i], started_at) && is_file_at(
                entries[i],
                path,
            );
        assert(is_file_at(entries[i], path));
    }
}

/// Each file that counts is one that was found, and the other way round.
proof fn lemma_counted(entries: Seq<GlobEntry>, started_at: Option<i128>, path: Text)
    requires
        counted(entries, started_at) is Ok,
        started_at matches Some(at) ==> at >= i128::MIN + 2000000000,
    ensures
        ({
            let files = counted(entries, started_at)->Ok_0;
            &&& paths_in(files).contains(path) <==> match started_at {
                Some(at) => recent_at(entries, at as int, path),
                None => file_at(entries, path),
            }
            &&& files.len() > 0 <==> match started_at {
                Some(at) => any_recent(entries, at as int),
                None => exists|i: int|
                    0 <= i < entries.len() && (#[trigger] entries[i] matches GlobEntry::Found {
                        found,
                    } && found.is_file),
            }
            &&& forall|i: int| 0 <= i < entries.len() ==> (#[trigger] entries[i]) is Found
        }),
    decreases entries.len(),
{
    let files = counted(entries, started_at)->Ok_0;
    if entries.len() > 0 {
        let rest = entries.drop_last();
        let last = entries[entries.len() - 1];
        assert(entries.last() == last);
        lemma_counted(rest, started_at, path);
        let before = counted(rest, started_at)->Ok_0;
        assert forall|i: int| 0 <= i < entries.len() implies (#[trigger] entries[i]) is Found by {
            if i < rest.len() {
                assert(rest[i] is Found);
            }
        }
        if files.len() > before.len() {
            assert(paths_in(files) =~= paths_in(before).push(last->found.path@));
        }
        assert(paths_in(files).contains(path) <==> paths_in(before).contains(path) || (files.len()
            > before.len() && last->found.path@ == path)) by {
            if paths_in(before).contains(path) {
                let k = paths_in(before).index_of(path);
                assert(paths_in(files)[k] == path);
            }
            if files.len() > before.len() {
                assert(paths_in(files)[before.len() as int] == last->found.path@);
            }
            if paths_in(files).contains(path) {
                let k = paths_in(files).index_of(path);
                if k < before.len() {
                    assert(paths_in(before)[k] == path);
                }
            }
        }
        match started_at {
            Some(at) => {
                assert(recent_at(entries, at as int, path) <==> recent_at(rest, at as int, path) || (
                is_recent(last, at as int) && is_file_at(last, path))) by {
                    if recent_at(rest, at as int, path) {
                        let i = choose|i: int|
                            0 <= i < rest.len() && is_recent(#[trigger] rest[i], at as int)
                                && is_file_at(rest[i], path);
                        assert(entries[i] == rest[i]);
                    }
                    if recent_at(entries, at as int, path) {
                        let i = choose|i: int|
                            0 <= i < entries.len() && is_recent(#[trigger] entries[i], at as int)
                                && is_file_at(entries[i], path);
                        if i < rest.len() {
                            assert(entries[i] == rest[i]);
                        }
                    }
                }
                assert(any_recent(entries, at as int) <==> any_recent(rest, at as int) || is_recent(
                    last,
                    at as int,
                )) by {
                    if any_recent(rest, at as int) {
                        let i = choose|i: int|
                            0 <= i < rest.len() && is_recent(#[trigger] rest[i], at as int);
                        assert(entries[i] == rest[i]);
                    }
                    if any_recent(entries, at as int) {
                        let i = choose|i: int|
                            0 <= i < entries.len() && is_recent(#[trigger] entries[i], at as int);
                        if i < rest.len() {
                            assert(entries[i] == rest[i]);
                        }
                    }
                }
            },
            None => {
                assert(file_at(entries, path) <==> file_at(rest, path) || is_file_at(last, path)) by {
                    if file_at(rest, path) {
                        let i = choose|i: int|
                            0 <= i < rest.len() && is_file_at(#[trigger] rest[i], path);
                        assert(entries[i] == rest[i]);
                    }
                    if file_at(entries, path) {
                        let i = choose|i: int|
                            0 <= i < entries.len() && is_file_at(#[trigger] entries[i], path);
                        if i < rest.len() {
                            assert(entries[i] == rest[i]);
                        }
                    }
                }
                assert(forall|i: int| 0 <= i < rest.len() ==> #[trigger] rest[i] == entries[i]);
                assert forall|i: int| 0 <= i < rest.len() implies #[trigger] entries[i] == rest[i] by {
                }
            },
        }
    }
}

/// Putting files in order changes none of their paths.
proof fn lemma_same_paths(files: Seq<DatedView>, path: Text)
    ensures
        paths_in(newest_first(files)).contains(path) <==> paths_in(files).contains(path),
        newest_first(files).len() == files.len(),
{
    broadcast use vstd::seq_lib::group_to_multiset_ensures;

    newest_files_come_first(files);
    let out = newest_first(files);
    assert(out.len() == out.to_multiset().len());
    assert(files.len() == files.to_multiset().len());
    if paths_in(out).contains(path) {
        let k = paths_in(out).index_of(path);
        assert(out.to_multiset().contains(out[k]));
        assert(files.contains(out[k]));
        assert(paths_in(files)[files.index_of(out[k])] == path);
    }
    if paths_in(files).contains(path) {
        let k = paths_in(files).index_of(path);
        assert(files.to_multiset().contains(files[k]));
        assert(out.contains(files[k]));
        assert(paths_in(out)[out.index_of(files[k])] == path);
    }
}

/// A file from before a task counts only if there is no new one: if the search
/// for an artifact found a recent file, its files are exactly the recent ones,
/// and else they are all that were found.
pub proof fn old_files_give_way_to_new_ones(
    patterns: Seq<ArtifactPattern>,
    name: Text,
    entries: Vec<GlobEntry>,
    started_at: i128,
    path: Text,
)
    requires
        started_at >= i128::MIN + 2000000000,
        artifact_files(patterns, name, GlobScan::Entries { entries }, started_at) is Ok,
    ensures
        ({
            let paths = artifact_files(
                patterns,
                name,
                GlobScan::Entries { entries },
                started_at,
            )->Ok_0;
            &&& any_recent(entries@, started_at as int) ==> (paths.contains(path) <==> recent_at(
                entries@,
                started_at as int,
                path,
            ))
            &&& !any_recent(entries@, started_at as int) ==> (paths.contains(path) <==> file_at(
                entries@,
                path,
            ))
            &&& paths.len() > 0
        }),
{
    let scan = GlobScan::Entries { entries };
    let new = counted(entries@, Some(started_at));
    lemma_counted(entries@, Some(started_at), path);
    lemma_same_paths(new->Ok_0, path);
    if new->Ok_0.len() == 0 {
        lemma_counted(entries@, None, path);
        lemma_same_paths(counted(entries@, None)->Ok_0, path);
    }
}

/// The files of an artifact come newest first: they are the files of the search,
/// each with its time, and none is newer than one before it.
pub proof fn files_come_newest_first(
    pattern: Text,
    entries: Vec<GlobEntry>,
    started_at: Option<i128>,
)
    requires
        matching(pattern, GlobScan::Entries { entries }, started_at) is Ok,
    ensures
        exists|files: Seq<DatedView>|
            {
                &&& #[trigger] paths_in(files) == matching(
                    pattern,
                    GlobScan::Entries { entries },
                    started_at,
                )->Ok_0
                &&& forall|i: int, j: int|
                    0 <= i < j < files.len() ==> (#[trigger] files[i]).modified >= (
                    #[trigger] files[j]).modified
                &&& forall|i: int|
                    0 <= i < files.len() ==> found_with(entries@, #[trigger] files[i])
            },
{
    broadcast use vstd::seq_lib::group_to_multiset_ensures;

    let all = counted(entries@, started_at)->Ok_0;
    let files = newest_first(all);
    newest_files_come_first(all);
    lemma_found_with(entries@, started_at);
    assert forall|i: int| 0 <= i < files.len() implies found_with(entries@, #[trigger] files[i]) by {
        assert(files.to_multiset().contains(files[i]));
        assert(all.contains(files[i]));
        let k = all.index_of(files[i]);
        assert(all[k] == files[i]);
    }
    assert(paths_in(files) == matching(pattern, GlobScan::Entries { entries }, started_at)->Ok_0);
}

/// A search found a file with a path and a time.
pub open spec fn found_with(entries: Seq<GlobEntry>, file: DatedView) -> bool {
    exists|i: int|
        0 <= i < entries.len() && is_file_at(#[trigger] entries[i], file.path) && (
        entries[i]->found.modified matches Some(at) ==> at == file.modified)
}

proof fn lemma_found_with(entries: Seq<GlobEntry>, started_at: Option<i128>)
    requires
        counted(entries, started_at) is Ok,
    ensures
        forall|k: int|
            0 <= k < counted(entries, started_at)->Ok_0.len() ==> found_with(
                entries,
                #[trigger] counted(entries, started_at)->Ok_0[k],
            ),
    decreases entries.len(),
{
    if entries.len() > 0 {
        let rest = entries.drop_last();
        lemma_found_with(rest, started_at);
        let before = counted(rest, started_at)->Ok_0;
        let files = counted(entries, started_at)->Ok_0;
        assert forall|k: int| 0 <= k < files.len() implies found_with(
            entries,
            #[trigger] files[k],
        ) by {
            if k < before.len() {
                assert(files[k] == before[k]);
                let i = choose|i: int|
                    0 <= i < rest.len() && is_file_at(#[trigger] rest[i], files[k].path) && (
                    rest[i]->found.modified matches Some(at) ==> at == files[k].modified);
                assert(entries[i] == rest[i]);
            } else {
                let last = entries[entries.len() - 1];
                assert(is_file_at(last, files[k].path));
            }
        }
    }
}

/// Where a search failed, or could not be made, or found no file, an artifact is
/// missing; so is one without a pattern.
pub proof fn artifacts_must_be_found(
    patterns: Seq<ArtifactPattern>,
    name: Text,
    scan: GlobScan,
    started_at: i128,
)
    ensures
        pattern_of(patterns, name) is None ==> artifact_files(patterns, name, scan, started_at) is Err,
        scan is Invalid ==> artifact_files(patterns, name, scan, started_at) is Err,
        scan matches GlobScan::Entries { entries } ==> ((exists|i: int|
            0 <= i < entries@.len() && (#[trigger] entries@[i]) is Failed) ==> artifact_files(
            patterns,
            name,
            scan,
            started_at,
        ) is Err),
        artifact_files(patterns, name, scan, started_at) matches Ok(paths) ==> paths.len() > 0,
{
    if let GlobScan::Entries { entries } = scan {
        if exists|i: int| 0 <= i < entries@.len() && (#[trigger] entries@[i]) is Failed {
            let i = choose|i: int| 0 <= i < entries@.len() && (#[trigger] entries@[i]) is Failed;
            lemma_failed(entries@, Some(started_at), i);
        }
    }
}

proof fn lemma_failed(entries: Seq<GlobEntry>, started_at: Option<i128>, i: int)
    requires
        0 <= i < entries.len(),
        entries[i] is Failed,
    ensures
        counted(entries, started_at) is Err,
    decreases entries.len(),
{
    if i < entries.len() - 1 {
        assert(entries.drop_last()[i] == entries[i]);
        lemma_failed(entries.drop_last(), started_at, i);
    }
}

/// An artifact has the pattern under which it was last declared.
pub proof fn patterns_are_found_by_name(patterns: Seq<ArtifactPattern>, name: Text, k: int)
    requires
        0 <= k < patterns.len(),
        patterns[k].name@ == name,
        forall|j: int| k < j < patterns.len() ==> (#[trigger] patterns[j]).name@ != name,
    ensures
        pattern_of(patterns, name) == Some(patterns[k].pattern@),
    decreases patterns.len(),
{
    if k < patterns.len() - 1 {
        let rest = patterns.drop_last();
        assert(patterns[patterns.len() - 1].name@ != name);
        assert forall|j: int| k < j < rest.len() implies (#[trigger] rest[j]).name@ != name by {
            assert(rest[j] == patterns[j]);
        }
        patterns_are_found_by_name(rest, name, k);
    }
}

/// Each artifact of a list is resolved by its own search, and the paths of all
/// of them are gathered.
proof fn lemma_found_artifacts(
    patterns: Seq<ArtifactPattern>,
    sources: Seq<Text>,
    scans: Seq<GlobScan>,
    started_at: i128,
)
    requires
        found_artifacts(patterns, sources, scans, started_at) is Ok,
    ensures
        ({
            let found = found_artifacts(patterns, sources, scans, started_at)->Ok_0;
            &&& found.targets.len() == sources.len()
            &&& forall|k: int|
                0 <= k < sources.len() ==> {
                    &&& (#[trigger] found.targets[k]).name == "$"@ + sources[k]
                    &&& artifact_files(patterns, sources[k], scans[k], started_at) == Ok::<
                        Seq<Text>,
                        Text,
                    >(found.targets[k].paths)
                }
            &&& forall|path: Text| #[trigger]
                found.paths.contains(path) <==> exists|k: int|
                    0 <= k < sources.len() && (#[trigger] found.targets[k]).paths.contains(path)
            &&& found.paths == found.targets.map_values(|t: TargetView| t.paths).flatten()
        }),
    decreases sources.len(),
{
    let found = found_artifacts(patterns, sources, scans, started_at)->Ok_0;
    let taken = |t: TargetView| t.paths;
    if sources.len() > 0 {
        let n = sources.len() - 1;
        let rest = sources.drop_last();
        lemma_found_artifacts(patterns, rest, scans, started_at);
        let before = found_artifacts(patterns, rest, scans, started_at)->Ok_0;
        let paths = artifact_files(patterns, sources[n], scans[n], started_at)->Ok_0;
        assert(found.paths == before.paths + paths);
        assert forall|k: int| 0 <= k < sources.len() implies {
            &&& (#[trigger] found.targets[k]).name == "$"@ + sources[k]
            &&& artifact_files(patterns, sources[k], scans[k], started_at) == Ok::<Seq<Text>, Text>(
                found.targets[k].paths,
            )
        } by {
            if k < n {
                assert(found.targets[k] == before.targets[k]);
                assert(rest[k] == sources[k]);
            }
        }
        assert forall|path: Text| #[trigger]
            found.paths.contains(path) <==> exists|k: int|
                0 <= k < sources.len() && (#[trigger] found.targets[k]).paths.contains(path) by {
            if found.paths.contains(path) {
                let m = found.paths.index_of(path);
                if m < before.paths.len() {
                    assert(before.paths[m] == path);
                    assert(before.paths.contains(path));
                    let k = choose|k: int|
                        0 <= k < rest.len() && (#[trigger] before.targets[k]).paths.contains(path);
                    assert(found.targets[k].paths.contains(path));
                } else {
                    assert(paths[m - before.paths.len()] == path);
                    assert(found.targets[n].paths.contains(path));
                }
            }
            if exists|k: int|
                0 <= k < sources.len() && (#[trigger] found.targets[k]).paths.contains(path) {
                let k = choose|k: int|
                    0 <= k < sources.len() && (#[trigger] found.targets[k]).paths.contains(path);
                if k < n {
                    assert(before.targets[k].paths.contains(path));
                    assert(before.paths.contains(path));
                    assert(found.paths[before.paths.index_of(path)] == path);
                } else {
                    assert(found.paths[before.paths.len() + paths.index_of(path)] == path);
                }
            }
        }
        assert(found.targets.map_values(taken) =~= before.targets.map_values(taken).push(paths));
        before.targets.map_values(taken).lemma_flatten_push(paths);
    } else {
        assert(found.targets.map_values(taken) =~= Seq::<Seq<Text>>::empty());
        assert(found.paths =~= found.targets.map_values(taken).flatten());
    }
}

/// The artifacts of a task that reported no files are found by searching: those
/// of each source under its name, all of them under `$artifact`. If the search
/// for a source found a recent file, every path under its name is that of a
/// recent file; no older file is among them.
pub proof fn searched_artifacts_are_recent(
    task: SpawnTaskPolicy,
    patterns: Seq<ArtifactPattern>,
    scans: Seq<GlobScan>,
    started_at: i128,
)
    requires
        started_at >= i128::MIN + 2000000000,
        task.artifact_sources@.len() > 0,
        artifacts_of(task, patterns, Seq::empty(), scans, started_at) is Ok,
    ensures
        ({
            let found = artifacts_of(task, patterns, Seq::empty(), scans, started_at)->Ok_0;
            let n = task.artifact_sources@.len() as int;
            &&& found.targets.len() == n + 1
            &&& found.targets[n].name == "$artifact"@
            &&& found.targets[n].paths == found.paths
            &&& forall|k: int|
                0 <= k < n ==> (#[trigger] found.targets[k]).name == "$"@
                    + task.artifact_sources@[k]@
            &&& forall|path: Text| #[trigger]
                found.paths.contains(path) <==> exists|k: int|
                    0 <= k < n && (#[trigger] found.targets[k]).paths.contains(path)
            &&& forall|k: int, path: Text|
                0 <= k < n ==> (#[trigger] found.targets[k].paths.contains(path) <==> (scans[k] matches GlobScan::Entries {
                    entries,
                } && if any_recent(entries@, started_at as int) {
                    recent_at(entries@, started_at as int, path)
                } else {
                    file_at(entries@, path)
                }))
        }),
{
    let sources = texts(task.artifact_sources@);
    let n = sources.len() as int;
    lemma_found_artifacts(patterns, sources, scans, started_at);
    let inner = found_artifacts(patterns, sources, scans, started_at)->Ok_0;
    let found = artifacts_of(task, patterns, Seq::empty(), scans, started_at)->Ok_0;
    assert(forall|k: int| 0 <= k < n ==> #[trigger] found.targets[k] == inner.targets[k]);
    assert forall|path: Text| #[trigger]
        found.paths.contains(path) <==> exists|k: int|
            0 <= k < n && (#[trigger] found.targets[k]).paths.contains(path) by {
        assert(inner.paths.contains(path) == found.paths.contains(path));
        if found.paths.contains(path) {
            let k = choose|k: int|
                0 <= k < n && (#[trigger] inner.targets[k]).paths.contains(path);
            assert(found.targets[k].paths.contains(path));
        }
        if exists|k: int| 0 <= k < n && (#[trigger] found.targets[k]).paths.contains(path) {
            let k = choose|k: int|
                0 <= k < n && (#[trigger] found.targets[k]).paths.contains(path);
            assert(inner.targets[k].paths.contains(path));
        }
    }
    assert forall|k: int, path: Text| 0 <= k < n implies (#[trigger] found.targets[k].paths.contains(
        path,
    ) <==> (scans[k] matches GlobScan::Entries { entries } && if any_recent(
        entries@,
        started_at as int,
    ) {
        recent_at(entries@, started_at as int, path)
    } else {
        file_at(entries@, path)
    })) by {
        assert(found.targets[k] == inner.targets[k]);
        match scans[k] {
            GlobScan::Entries { entries } => {
                old_files_give_way_to_new_ones(patterns, sources[k], entries, started_at, path);
            },
            GlobScan::Invalid { error } => {
                artifacts_must_be_found(patterns, sources[k], scans[k], started_at);
            },
        }
    }
}

/// The artifacts of a task that reported files are those of them that are there,
/// in the order in which they were reported. Where none is there, the task has
/// failed.
pub proof fn reported_artifacts_are_there(
    task: SpawnTaskPolicy,
    patterns: Seq<ArtifactPattern>,
    files: Seq<ReportedFile>,
    scans: Seq<GlobScan>,
    started_at: i128,
    path: Text,
)
    requires
        files.len() > 0,
    ensures
        artifacts_of(task, patterns, files, scans, started_at) matches Ok(found) ==> {
            &&& found.paths.contains(path) <==> exists|i: int|
                0 <= i < files.len() && (#[trigger] files[i]).present && files[i].path@ == path
            &&& found.paths.len() <= files.len()
        },
        (forall|i: int| 0 <= i < files.len() ==> !(#[trigger] files[i]).present) ==> artifacts_of(
            task,
            patterns,
            files,
            scans,
            started_at,
        ) is Err,
        (forall|i: int| 0 <= i < files.len() ==> (#[trigger] files[i]).present) ==> (artifacts_of(
            task,
            patterns,
            files,
            scans,
            started_at,
        ) matches Ok(found) ==> found.paths.len() == files.len() && forall|i: int|
            0 <= i < files.len() ==> #[trigger] found.paths[i] == files[i].path@),
{
    lemma_present(files, path);
}

proof fn lemma_present(files: Seq<ReportedFile>, path: Text)
    ensures
        present_files(files).contains(path) <==> exists|i: int|
            0 <= i < files.len() && (#[trigger] files[i]).present && files[i].path@ == path,
        present_files(files).len() <= files.len(),
        (forall|i: int| 0 <= i < files.len() ==> !(#[trigger] files[i]).present) ==> present_files(
            files,
        ).len() == 0,
        (forall|i: int| 0 <= i < files.len() ==> (#[trigger] files[i]).present) ==> present_files(
            files,
        ).len() == files.len() && forall|i: int|
            0 <= i < files.len() ==> #[trigger] present_files(files)[i] == files[i].path@,
    decreases files.len(),
{
    if files.len() > 0 {
        let rest = files.drop_last();
        let last = files[files.len() - 1];
        lemma_present(rest, path);
        let before = present_files(rest);
        let now = present_files(files);
        assert(forall|i: int| 0 <= i < rest.len() ==> #[trigger] rest[i] == files[i]);
        if now.contains(path) {
            let k = now.index_of(path);
            if k < before.len() {
                assert(before[k] == path);
                assert(before.contains(path));
                let i = choose|i: int|
                    0 <= i < rest.len() && (#[trigger] rest[i]).present && rest[i].path@ == path;
                assert(files[i] == rest[i]);
            } else {
                assert(last.present && last.path@ == path);
            }
        }
        if exists|i: int|
            0 <= i < files.len() && (#[trigger] files[i]).present && files[i].path@ == path {
            let i = choose|i: int|
                0 <= i < files.len() && (#[trigger] files[i]).present && files[i].path@ == path;
            if i < rest.len() {
                assert(rest[i].present);
                assert(before.contains(path));
                assert(now[before.index_of(path)] == path);
            } else {
                assert(now[before.len() as int] == path);
            }
        }
        if forall|i: int| 0 <= i < files.len() ==> !(#[trigger] files[i]).present {
            assert(!files[files.len() - 1].present);
            assert forall|i: int| 0 <= i < rest.len() implies !(#[trigger] rest[i]).present by {
                assert(!files[i].present);
            }
        }
        if forall|i: int| 0 <= i < files.len() ==> (#[trigger] files[i]).present {
            assert(files[files.len() - 1].present);
            assert forall|i: int| 0 <= i < rest.len() implies (#[trigger] rest[i]).present by {
                assert(files[i].present);
            }
            assert forall|i: int| 0 <= i < files.len() implies #[trigger] now[i]
                == files[i].path@ by {
                if i < rest.len() {
                    assert(before[i] == rest[i].path@);
                    assert(now[i] == before[i]);
                }
            }
        }
    }
}

/// One artifact stands for all files; of several each stands for the file in its
/// place, and there must be as many files as artifacts. All of them together are
/// `$artifact`.
pub proof fn reported_files_are_bound_in_order(sources: Seq<Text>, files: Seq<Text>)
    ensures
        bound(sources, files) is Ok <==> sources.len() == 1 || (sources.len() > 1 && sources.len()
            == files.len()),
        bound(sources, files) matches Ok(targets) ==> {
            &&& targets.len() == sources.len() + 1
            &&& targets.last().name == "$artifact"@
            &&& targets.last().paths == files
            &&& forall|k: int|
                0 <= k < sources.len() ==> {
                    &&& (#[trigger] targets[k]).name == "$"@ + sources[k]
                    &&& if sources.len() == 1 {
                        targets[k].paths == files
                    } else {
                        targets[k].paths.len() == 1 && targets[k].paths[0] == files[k]
                    }
                }
        },
{
}

} // verus!
