//! The artifacts of a background task: finding them, checking them, and
//! delivering them.
use vstd::prelude::*;

use crate::artifact_laws::{
    any_recent, file_at, recent_at, recent_files_are_found, searched_artifacts_are_recent,
};
use crate::paths::{join_path, path_joined};
use crate::text::{
    copy_list, debug_forms, debug_list, decimal, joined, lemma_texts_push, render, same, texts,
    Text,
};
use crate::workspace_contract::SpawnTaskPolicy;

verus! {

// ---------------------------------------------------------------------------
// Files that match a pattern

/// A path that matches a pattern.
#[derive(Debug)]
pub struct GlobMatch {
    pub path: String,
    pub is_file: bool,
    /// When it was modified, in nanoseconds since the epoch, if that is known.
    pub modified: Option<i128>,
}

/// One result of a search.
#[derive(Debug)]
pub enum GlobEntry {
    Found { found: GlobMatch },
    Failed { error: String },
}

/// What a search for a pattern gave: its results in turn, or why the pattern is
/// no pattern.
#[derive(Debug)]
pub enum GlobScan {
    Invalid { error: String },
    Entries { entries: Vec<GlobEntry> },
}

/// A file and when it was modified.
#[derive(Debug)]
pub struct DatedFile {
    pub path: String,
    pub modified: i128,
}

#[verifier::ext_equal]
pub struct DatedView {
    pub path: Text,
    pub modified: i128,
}

impl View for DatedFile {
    type V = DatedView;

    open spec fn view(&self) -> DatedView {
        DatedView { path: self.path@, modified: self.modified }
    }
}

pub open spec fn dated_views(files: Seq<DatedFile>) -> Seq<DatedView> {
    Seq::new(files.len(), |i: int| files[i]@)
}

/// A file counts as new from two seconds before the task started on.
pub open spec fn threshold(started_at: Option<i128>) -> i128 {
    match started_at {
        Some(at) => if at - 2000000000 >= i128::MIN {
            (at - 2000000000) as i128
        } else {
            0
        },
        None => 0,
    }
}

/// When a file was modified; at the epoch if that is not known.
pub open spec fn dated(found: GlobMatch) -> i128 {
    match found.modified {
        Some(at) => at,
        None => 0,
    }
}

/// A match that counts: a file, and if the start of the task is known a new one.
pub open spec fn counts(found: GlobMatch, started_at: Option<i128>) -> bool {
    found.is_file && (started_at is Some ==> dated(found) >= threshold(started_at))
}

/// The files that count among some results, or the first error among them.
pub open spec fn counted(entries: Seq<GlobEntry>, started_at: Option<i128>) -> Result<
    Seq<DatedView>,
    Text,
>
    decreases entries.len(),
{
    if entries.len() == 0 {
        Ok(Seq::empty())
    } else {
        match counted(entries.drop_last(), started_at) {
            Err(error) => Err(error),
            Ok(before) => match entries.last() {
                GlobEntry::Failed { error } => Err(error@),
                GlobEntry::Found { found } => if counts(found, started_at) {
                    Ok(before.push(DatedView { path: found.path@, modified: dated(found) }))
                } else {
                    Ok(before)
                },
            },
        }
    }
}

/// A list with one file more, behind those that are not older.
pub open spec fn placed(list: Seq<DatedView>, file: DatedView) -> Seq<DatedView>
    decreases list.len(),
{
    if list.len() == 0 {
        seq![file]
    } else if list.last().modified >= file.modified {
        list.push(file)
    } else {
        placed(list.drop_last(), file).push(list.last())
    }
}

/// A list with the newest files first, in the given order among equally new ones.
pub open spec fn newest_first(list: Seq<DatedView>) -> Seq<DatedView>
    decreases list.len(),
{
    if list.len() == 0 {
        Seq::empty()
    } else {
        placed(newest_first(list.drop_last()), list.last())
    }
}

/// No file of a list is newer than one before it.
pub open spec fn no_newer_later(list: Seq<DatedView>) -> bool {
    forall|i: int, j: int|
        0 <= i < j < list.len() ==> (#[trigger] list[i]).modified >= (#[trigger] list[j]).modified
}

proof fn lemma_placed(list: Seq<DatedView>, file: DatedView)
    requires
        no_newer_later(list),
    ensures
        no_newer_later(placed(list, file)),
        placed(list, file).to_multiset() == list.to_multiset().insert(file),
        list.len() > 0 && list.last().modified < file.modified ==> forall|i: int|
            0 <= i < placed(list.drop_last(), file).len() ==> (#[trigger] placed(
                list.drop_last(),
                file,
            )[i]).modified >= list.last().modified,
    decreases list.len(),
{
    broadcast use vstd::seq_lib::group_to_multiset_ensures;

    if list.len() == 0 {
        assert(seq![file] =~= list.push(file));
    } else if list.last().modified >= file.modified {
        let after = list.push(file);
        assert forall|i: int, j: int| 0 <= i < j < after.len() implies (#[trigger] after[i]).modified
            >= (#[trigger] after[j]).modified by {
            assert(list[i].modified >= list[list.len() - 1].modified || i == list.len() - 1);
        }
    } else {
        let rest = list.drop_last();
        let last = list.last();
        assert forall|i: int, j: int| 0 <= i < j < rest.len() implies (#[trigger] rest[i]).modified
            >= (#[trigger] rest[j]).modified by {
            assert(list[i].modified >= list[j].modified);
        }
        lemma_placed(rest, file);
        let inner = placed(rest, file);
        assert forall|i: int| 0 <= i < inner.len() implies (#[trigger] inner[i]).modified
            >= last.modified by {
            assert(inner.to_multiset().contains(inner[i])) by {
                assert(inner.contains(inner[i]));
            }
            if inner[i] != file {
                assert(rest.to_multiset().contains(inner[i]));
                assert(rest.contains(inner[i]));
                let k = rest.index_of(inner[i]);
                assert(list[k].modified >= list[list.len() - 1].modified);
            }
        }
        let after = inner.push(last);
        assert forall|i: int, j: int| 0 <= i < j < after.len() implies (#[trigger] after[i]).modified
            >= (#[trigger] after[j]).modified by {
            if j < inner.len() {
                assert(inner[i].modified >= inner[j].modified);
            }
        }
        assert(rest.push(last) =~= list);
        assert(after.to_multiset() =~= list.to_multiset().insert(file));
    }
}

/// The newest files come first, and none is lost or added.
pub proof fn newest_files_come_first(list: Seq<DatedView>)
    ensures
        no_newer_later(newest_first(list)),
        newest_first(list).to_multiset() == list.to_multiset(),
    decreases list.len(),
{
    broadcast use vstd::seq_lib::group_to_multiset_ensures;

    if list.len() > 0 {
        newest_files_come_first(list.drop_last());
        lemma_placed(newest_first(list.drop_last()), list.last());
        assert(list.drop_last().push(list.last()) =~= list);
    } else {
        assert(newest_first(list) =~= list);
    }
}

/// The paths of some files.
pub open spec fn paths_in(files: Seq<DatedView>) -> Seq<Text> {
    files.map_values(|file: DatedView| file.path)
}

/// The files that match a pattern, the newest first, or why there are none.
pub open spec fn matching(pattern: Text, scan: GlobScan, started_at: Option<i128>) -> Result<
    Seq<Text>,
    Text,
> {
    match scan {
        GlobScan::Invalid { error } => Err(
            "invalid artifact glob '"@ + pattern + "': "@ + error@,
        ),
        GlobScan::Entries { entries } => match counted(entries@, started_at) {
            Err(error) => Err("artifact glob failed for '"@ + pattern + "': "@ + error),
            Ok(files) => Ok(paths_in(newest_first(files))),
        },
    }
}

/// The pattern that is searched for, seen from the workspace.
pub fn search_pattern(workspace_root: &str, pattern: &str) -> (r: String)
    ensures
        r@ == path_joined(workspace_root@, pattern@),
{
    join_path(workspace_root, pattern)
}

fn start_of(started_at: Option<i128>) -> (r: i128)
    ensures
        r == threshold(started_at),
{
    match started_at {
        Some(at) => match at.checked_sub(2000000000) {
            Some(t) => t,
            None => 0,
        },
        None => 0,
    }
}

fn place(list: &mut Vec<DatedFile>, file: DatedFile)
    ensures
        dated_views(final(list)@) == placed(dated_views(old(list)@), file@),
{
    let ghost all = dated_views(list@);
    let mut k: usize = list.len();
    proof {
        assert(all.take(all.len() as int) =~= all);
        assert(all.skip(all.len() as int) =~= Seq::empty());
        assert(placed(all, file@) =~= placed(all, file@) + Seq::<DatedView>::empty());
    }
    while k > 0 && list[k - 1].modified < file.modified
        invariant
            k <= list.len(),
            *list == *old(list),
            all == dated_views(list@),
            placed(all, file@) == placed(all.take(k as int), file@) + all.skip(k as int),
        decreases k,
    {
        proof {
            let head = all.take(k as int);
            assert(head.last() == all[k - 1]);
            assert(head.drop_last() =~= all.take(k - 1));
            assert(placed(all.take(k - 1), file@).push(all[k - 1]) + all.skip(k as int) =~= placed(
                all.take(k - 1),
                file@,
            ) + all.skip(k - 1));
        }
        k -= 1;
    }
    let ghost new = file@;
    proof {
        let head = all.take(k as int);
        if k > 0 {
            assert(head.last() == all[k - 1]);
        } else {
            assert(head =~= Seq::empty());
            assert(seq![new] =~= head.push(new));
        }
        assert(placed(head, new) == head.push(new));
    }
    list.insert(k, file);
    proof {
        assert(dated_views(list@) =~= all.take(k as int).push(new) + all.skip(k as int));
    }
}

fn sort_newest(list: Vec<DatedFile>) -> (out: Vec<DatedFile>)
    ensures
        dated_views(out@) == newest_first(dated_views(list@)),
{
    let ghost all = dated_views(list@);
    let mut out: Vec<DatedFile> = Vec::new();
    let mut i: usize = 0;
    proof {
        assert(all.take(0) =~= Seq::empty());
        assert(dated_views(out@) =~= Seq::empty());
    }
    while i < list.len()
        invariant
            i <= list.len(),
            all == dated_views(list@),
            dated_views(out@) == newest_first(all.take(i as int)),
        decreases list.len() - i,
    {
        proof {
            assert(all.take(i + 1).drop_last() =~= all.take(i as int));
            assert(all.take(i + 1).last() == list@[i as int]@);
        }
        place(&mut out, DatedFile { path: list[i].path.clone(), modified: list[i].modified });
        i += 1;
    }
    proof {
        assert(all.take(all.len() as int) =~= all);
    }
    out
}

fn collect(entries: &[GlobEntry], started_at: Option<i128>) -> (r: Result<Vec<DatedFile>, String>)
    ensures
        match r {
            Ok(files) => counted(entries@, started_at) == Ok::<Seq<DatedView>, Text>(
                dated_views(files@),
            ),
            Err(error) => counted(entries@, started_at) == Err::<Seq<DatedView>, Text>(error@),
        },
{
    let from: i128 = start_of(started_at);
    let mut out: Vec<DatedFile> = Vec::new();
    let mut i: usize = 0;
    proof {
        assert(entries@.take(0) =~= Seq::empty());
        assert(dated_views(out@) =~= Seq::empty());
    }
    while i < entries.len()
        invariant
            i <= entries.len(),
            from == threshold(started_at),
            counted(entries@.take(i as int), started_at) == Ok::<Seq<DatedView>, Text>(
                dated_views(out@),
            ),
        decreases entries.len() - i,
    {
        proof {
            assert(entries@.take(i + 1).drop_last() =~= entries@.take(i as int));
            assert(entries@.take(i + 1).last() == entries@[i as int]);
        }
        match &entries[i] {
            GlobEntry::Failed { error } => {
                proof {
                    lemma_first_error(entries@, started_at, i as int, error@);
                }
                return Err(error.clone());
            },
            GlobEntry::Found { found } => {
                let at: i128 = match found.modified {
                    Some(at) => at,
                    None => 0,
                };
                if found.is_file && (started_at.is_none() || at >= from) {
                    let ghost before = dated_views(out@);
                    out.push(DatedFile { path: found.path.clone(), modified: at });
                    proof {
                        assert(dated_views(out@) =~= before.push(
                            DatedView { path: found.path@, modified: at },
                        ));
                    }
                }
            },
        }
        i += 1;
    }
    proof {
        assert(entries@.take(entries@.len() as int) =~= entries@);
    }
    Ok(out)
}

/// Whatever follows an error, the error stays.
proof fn lemma_first_error(entries: Seq<GlobEntry>, started_at: Option<i128>, k: int, error: Text)
    requires
        0 <= k < entries.len(),
        counted(entries.take(k + 1), started_at) == Err::<Seq<DatedView>, Text>(error),
    ensures
        counted(entries, started_at) == Err::<Seq<DatedView>, Text>(error),
    decreases entries.len(),
{
    if k + 1 == entries.len() {
        assert(entries.take(k + 1) =~= entries);
    } else {
        let rest = entries.drop_last();
        assert(rest.take(k + 1) =~= entries.take(k + 1));
        lemma_first_error(rest, started_at, k, error);
    }
}

/// The files that match a pattern, the newest first.
pub fn resolve_glob_matches(pattern: &str, scan: &GlobScan, started_at: Option<i128>) -> (r: Result<
    Vec<String>,
    String,
>)
    ensures
        match r {
            Ok(paths) => matching(pattern@, *scan, started_at) == Ok::<Seq<Text>, Text>(
                texts(paths@),
            ),
            Err(error) => matching(pattern@, *scan, started_at) == Err::<Seq<Text>, Text>(error@),
        },
{
    match scan {
        GlobScan::Invalid { error } => {
            let mut text = "invalid artifact glob '".to_owned();
            text.append(pattern);
            text.append("': ");
            text.append(error.as_str());
            Err(text)
        },
        GlobScan::Entries { entries } => match collect(entries.as_slice(), started_at) {
            Err(error) => {
                let mut text = "artifact glob failed for '".to_owned();
                text.append(pattern);
                text.append("': ");
                text.append(error.as_str());
                Err(text)
            },
            Ok(files) => {
                let files = sort_newest(files);
                let mut out: Vec<String> = Vec::new();
                let mut i: usize = 0;
                while i < files.len()
                    invariant
                        i <= files.len(),
                        out@.len() == i,
                        forall|j: int| 0 <= j < i ==> (#[trigger] out@[j])@ == files@[j].path@,
                    decreases files.len() - i,
                {
                    out.push(files[i].path.clone());
                    i += 1;
                }
                proof {
                    assert(texts(out@) =~= paths_in(dated_views(files@)));
                }
                Ok(out)
            },
        },
    }
}

// ---------------------------------------------------------------------------
// Resolving artifacts

/// A name by which actions refer to files.
#[derive(Debug)]
pub struct NamedTarget {
    pub name: String,
    pub paths: Vec<String>,
}

#[verifier::ext_equal]
pub struct TargetView {
    pub name: Text,
    pub paths: Seq<Text>,
}

impl View for NamedTarget {
    type V = TargetView;

    open spec fn view(&self) -> TargetView {
        TargetView { name: self.name@, paths: texts(self.paths@) }
    }
}

pub open spec fn target_views(targets: Seq<NamedTarget>) -> Seq<TargetView> {
    Seq::new(targets.len(), |i: int| targets[i]@)
}

/// The artifacts of a task, and the names by which actions refer to them. Where
/// a name comes twice the later counts.
#[derive(Debug)]
pub struct ResolvedArtifacts {
    pub targets: Vec<NamedTarget>,
    pub paths: Vec<String>,
}

#[verifier::ext_equal]
pub struct ArtifactsView {
    pub targets: Seq<TargetView>,
    pub paths: Seq<Text>,
}

impl View for ResolvedArtifacts {
    type V = ArtifactsView;

    open spec fn view(&self) -> ArtifactsView {
        ArtifactsView { targets: target_views(self.targets@), paths: texts(self.paths@) }
    }
}

/// A file that the task reported.
#[derive(Debug)]
pub struct ReportedFile {
    pub path: String,
    pub present: bool,
}

/// The reported files that are there.
pub open spec fn present_files(files: Seq<ReportedFile>) -> Seq<Text>
    decreases files.len(),
{
    if files.len() == 0 {
        Seq::empty()
    } else if files.last().present {
        present_files(files.drop_last()).push(files.last().path@)
    } else {
        present_files(files.drop_last())
    }
}

/// The name by which actions refer to an artifact.
pub open spec fn target_name(artifact: Text) -> Text {
    "$"@ + artifact
}

/// Each artifact bound to one file.
pub open spec fn one_each(sources: Seq<Text>, files: Seq<Text>) -> Seq<TargetView> {
    Seq::new(
        sources.len(),
        |i: int| TargetView { name: target_name(sources[i]), paths: seq![files[i]] },
    )
}

/// The names of the files that a task reported: one artifact stands for all of
/// them, several for one each.
pub open spec fn bound(sources: Seq<Text>, files: Seq<Text>) -> Result<Seq<TargetView>, Text> {
    let whole = TargetView { name: "$artifact"@, paths: files };
    if sources.len() == 0 {
        Err("workspace contract has no artifact source"@)
    } else if sources.len() == 1 {
        Ok(seq![TargetView { name: target_name(sources[0]), paths: files }, whole])
    } else if sources.len() != files.len() {
        Err(
            "workspace contract expects "@ + decimal(sources.len())
                + " explicit output files for "@ + ("["@ + joined(debug_forms(sources), ", "@)
                + "]"@) + ", got "@ + decimal(files.len()),
        )
    } else {
        Ok(one_each(sources, files).push(whole))
    }
}

fn dollar(artifact: &str) -> (r: String)
    ensures
        r@ == target_name(artifact@),
{
    let mut r = "$".to_owned();
    r.append(artifact);
    r
}

fn single(path: &str) -> (out: Vec<String>)
    ensures
        texts(out@) == seq![path@],
{
    let mut out: Vec<String> = Vec::new();
    out.push(path.to_owned());
    proof {
        assert(texts(out@) =~= seq![path@]);
    }
    out
}

fn mismatch_text(sources: &[String], files: usize) -> (r: String)
    ensures
        r@ == "workspace contract expects "@ + decimal(sources@.len())
            + " explicit output files for "@ + ("["@ + joined(
            debug_forms(texts(sources@)),
            ", "@,
        ) + "]"@) + ", got "@ + decimal(files as nat),
{
    let mut r = "workspace contract expects ".to_owned();
    let n = render(sources.len() as u64);
    r.append(n.as_str());
    r.append(" explicit output files for ");
    let list = debug_list(sources);
    r.append(list.as_str());
    r.append(", got ");
    let m = render(files as u64);
    r.append(m.as_str());
    r
}

/// Names the files that a task reported.
pub fn bind_explicit_files_to_artifacts(sources: &[String], files: &[String]) -> (r: Result<
    Vec<NamedTarget>,
    String,
>)
    ensures
        match r {
            Ok(targets) => bound(texts(sources@), texts(files@)) == Ok::<Seq<TargetView>, Text>(
                target_views(targets@),
            ),
            Err(error) => bound(texts(sources@), texts(files@)) == Err::<Seq<TargetView>, Text>(
                error@,
            ),
        },
{
    if sources.len() == 0 {
        return Err("workspace contract has no artifact source".to_owned());
    }
    let ghost names = texts(sources@);
    let ghost all = texts(files@);
    let mut targets: Vec<NamedTarget> = Vec::new();
    if sources.len() == 1 {
        targets.push(NamedTarget { name: dollar(sources[0].as_str()), paths: copy_list(files) });
        targets.push(NamedTarget { name: "$artifact".to_owned(), paths: copy_list(files) });
        proof {
            assert(names[0] == sources@[0]@);
            assert(target_views(targets@) =~= seq![
                TargetView { name: target_name(names[0]), paths: all },
                TargetView { name: "$artifact"@, paths: all },
            ]);
        }
        return Ok(targets);
    }
    if sources.len() != files.len() {
        return Err(mismatch_text(sources, files.len()));
    }
    let mut i: usize = 0;
    while i < sources.len()
        invariant
            i <= sources.len(),
            sources@.len() == files@.len(),
            names == texts(sources@),
            all == texts(files@),
            targets@.len() == i,
            forall|j: int|
                0 <= j < i ==> (#[trigger] targets@[j])@ == (TargetView {
                    name: target_name(names[j]),
                    paths: seq![all[j]],
                }),
        decreases sources.len() - i,
    {
        targets.push(
            NamedTarget {
                name: dollar(sources[i].as_str()),
                paths: single(files[i].as_str()),
            },
        );
        i += 1;
    }
    targets.push(NamedTarget { name: "$artifact".to_owned(), paths: copy_list(files) });
    proof {
        assert(target_views(targets@) =~= one_each(names, all).push(
            TargetView { name: "$artifact"@, paths: all },
        ));
    }
    Ok(targets)
}

/// An artifact and the pattern of its files.
#[derive(Debug)]
pub struct ArtifactPattern {
    pub name: String,
    pub pattern: String,
}

/// The pattern of an artifact.
pub open spec fn pattern_of(patterns: Seq<ArtifactPattern>, name: Text) -> Option<Text>
    decreases patterns.len(),
{
    if patterns.len() == 0 {
        None
    } else if patterns.last().name@ == name {
        Some(patterns.last().pattern@)
    } else {
        pattern_of(patterns.drop_last(), name)
    }
}

fn find_pattern<'a>(patterns: &'a [ArtifactPattern], name: &str) -> (r: Option<&'a str>)
    ensures
        match r {
            Some(pattern) => pattern_of(patterns@, name@) == Some(pattern@),
            None => pattern_of(patterns@, name@) is None,
        },
{
    let mut i: usize = patterns.len();
    proof {
        assert(patterns@.take(patterns@.len() as int) =~= patterns@);
    }
    while i > 0
        invariant
            i <= patterns.len(),
            pattern_of(patterns@, name@) == pattern_of(patterns@.take(i as int), name@),
        decreases i,
    {
        proof {
            assert(patterns@.take(i as int).drop_last() =~= patterns@.take(i - 1));
        }
        if same(patterns[i - 1].name.as_str(), name) {
            return Some(patterns[i - 1].pattern.as_str());
        }
        i -= 1;
    }
    None
}

/// The files of an artifact: the new ones, or all if none is new.
pub open spec fn artifact_files(
    patterns: Seq<ArtifactPattern>,
    name: Text,
    scan: GlobScan,
    started_at: i128,
) -> Result<Seq<Text>, Text> {
    match pattern_of(patterns, name) {
        None => Err("workspace contract references unknown artifact '"@ + name + "'"@),
        Some(pattern) => match matching(pattern, scan, Some(started_at)) {
            Err(error) => Err(error),
            Ok(new) => if new.len() > 0 {
                Ok(new)
            } else {
                match matching(pattern, scan, None) {
                    Err(error) => Err(error),
                    Ok(any) => if any.len() > 0 {
                        Ok(any)
                    } else {
                        Err(
                            "contract could not find artifact '"@ + name + "' matching '"@ + pattern
                                + "'"@,
                        )
                    },
                }
            },
        },
    }
}

fn find_artifact(
    patterns: &[ArtifactPattern],
    name: &str,
    scan: &GlobScan,
    started_at: i128,
) -> (r: Result<Vec<String>, String>)
    ensures
        match r {
            Ok(paths) => artifact_files(patterns@, name@, *scan, started_at) == Ok::<
                Seq<Text>,
                Text,
            >(texts(paths@)),
            Err(error) => artifact_files(patterns@, name@, *scan, started_at) == Err::<
                Seq<Text>,
                Text,
            >(error@),
        },
{
    let pattern = match find_pattern(patterns, name) {
        Some(pattern) => pattern,
        None => {
            let mut text = "workspace contract references unknown artifact '".to_owned();
            text.append(name);
            text.append("'");
            return Err(text);
        },
    };
    let new = match resolve_glob_matches(pattern, scan, Some(started_at)) {
        Ok(paths) => paths,
        Err(error) => {
            return Err(error);
        },
    };
    if new.len() > 0 {
        return Ok(new);
    }
    let any = match resolve_glob_matches(pattern, scan, None) {
        Ok(paths) => paths,
        Err(error) => {
            return Err(error);
        },
    };
    if any.len() > 0 {
        return Ok(any);
    }
    let mut text = "contract could not find artifact '".to_owned();
    text.append(name);
    text.append("' matching '");
    text.append(pattern);
    text.append("'");
    Err(text)
}

/// The artifacts of a list of sources with their files, or the first failure.
pub open spec fn found_artifacts(
    patterns: Seq<ArtifactPattern>,
    sources: Seq<Text>,
    scans: Seq<GlobScan>,
    started_at: i128,
) -> Result<ArtifactsView, Text>
    decreases sources.len(),
{
    if sources.len() == 0 {
        Ok(ArtifactsView { targets: Seq::empty(), paths: Seq::empty() })
    } else {
        let n = sources.len() - 1;
        match found_artifacts(patterns, sources.drop_last(), scans, started_at) {
            Err(error) => Err(error),
            Ok(before) => match artifact_files(patterns, sources[n], scans[n], started_at) {
                Err(error) => Err(error),
                Ok(paths) => Ok(
                    ArtifactsView {
                        targets: before.targets.push(
                            TargetView { name: target_name(sources[n]), paths },
                        ),
                        paths: before.paths + paths,
                    },
                ),
            },
        }
    }
}

/// The artifacts of a task: the files that it reported, or those that match
/// the patterns of its artifacts. A task without artifacts, checks and
/// delivery has none.
pub open spec fn artifacts_of(
    task: SpawnTaskPolicy,
    patterns: Seq<ArtifactPattern>,
    files: Seq<ReportedFile>,
    scans: Seq<GlobScan>,
    started_at: i128,
) -> Result<ArtifactsView, Text> {
    let sources = texts(task.artifact_sources@);
    let there = present_files(files);
    if files.len() > 0 {
        if there.len() == 0 {
            Err("contract expected output files but tool-reported files do not exist"@)
        } else {
            match bound(sources, there) {
                Err(error) => Err(error),
                Ok(targets) => Ok(ArtifactsView { targets, paths: there }),
            }
        }
    } else if sources.len() == 0 {
        if task.on_verify@.len() == 0 && task.delivery_actions@.len() == 0 {
            Ok(ArtifactsView { targets: Seq::empty(), paths: Seq::empty() })
        } else {
            Err("workspace contract has no artifact source"@)
        }
    } else {
        match found_artifacts(patterns, sources, scans, started_at) {
            Err(error) => Err(error),
            Ok(found) => Ok(
                ArtifactsView {
                    targets: found.targets.push(
                        TargetView { name: "$artifact"@, paths: found.paths },
                    ),
                    ..found
                },
            ),
        }
    }
}

fn files_there(files: &[ReportedFile]) -> (out: Vec<String>)
    ensures
        texts(out@) == present_files(files@),
{
    let mut out: Vec<String> = Vec::new();
    let mut i: usize = 0;
    proof {
        assert(files@.take(0) =~= Seq::empty());
        assert(texts(out@) =~= Seq::empty());
    }
    while i < files.len()
        invariant
            i <= files.len(),
            texts(out@) == present_files(files@.take(i as int)),
        decreases files.len() - i,
    {
        proof {
            assert(files@.take(i + 1).drop_last() =~= files@.take(i as int));
        }
        if files[i].present {
            let path = files[i].path.clone();
            proof {
                lemma_texts_push(out@, path);
            }
            out.push(path);
        }
        i += 1;
    }
    proof {
        assert(files@.take(files@.len() as int) =~= files@);
    }
    out
}

/// Whatever follows a failure, the failure stays.
proof fn lemma_first_failure(
    patterns: Seq<ArtifactPattern>,
    sources: Seq<Text>,
    scans: Seq<GlobScan>,
    started_at: i128,
    k: int,
    error: Text,
)
    requires
        0 <= k <= sources.len(),
        found_artifacts(patterns, sources.take(k), scans, started_at) == Err::<ArtifactsView, Text>(
            error,
        ),
    ensures
        found_artifacts(patterns, sources, scans, started_at) == Err::<ArtifactsView, Text>(error),
    decreases sources.len(),
{
    if k == sources.len() {
        assert(sources.take(k) =~= sources);
    } else {
        let rest = sources.drop_last();
        assert(rest.take(k) =~= sources.take(k));
        lemma_first_failure(patterns, rest, scans, started_at, k, error);
    }
}

/// Resolves the artifacts of a task. `scans` holds what the search for each
/// artifact gave.
pub fn resolve_artifacts(
    task: &SpawnTaskPolicy,
    patterns: &[ArtifactPattern],
    files: &[ReportedFile],
    scans: &[GlobScan],
    started_at: i128,
) -> (r: Result<ResolvedArtifacts, String>)
    requires
        files@.len() > 0 || scans@.len() == task.artifact_sources@.len(),
    ensures
        match r {
            Ok(found) => artifacts_of(*task, patterns@, files@, scans@, started_at) == Ok::<
                ArtifactsView,
                Text,
            >(found@),
            Err(error) => artifacts_of(*task, patterns@, files@, scans@, started_at) == Err::<
                ArtifactsView,
                Text,
            >(error@),
        },
        // Where a search found a recent file, no older file is resolved.
        files@.len() == 0 && started_at >= i128::MIN + 2000000000 ==> (r matches Ok(found)
            ==> forall|path: Text| #[trigger]
            found@.paths.contains(path) ==> exists|k: int|
                0 <= k < scans@.len() && (#[trigger] scans@[k] matches GlobScan::Entries { entries }
                    && file_at(entries@, path) && (any_recent(entries@, started_at as int)
                    ==> recent_at(entries@, started_at as int, path)))),
{
    proof {
        if files@.len() == 0 && started_at >= i128::MIN + 2000000000
            && task.artifact_sources@.len() > 0 && artifacts_of(
            *task,
            patterns@,
            files@,
            scans@,
            started_at,
        ) is Ok {
            assert(files@ =~= Seq::empty());
            searched_artifacts_are_recent(*task, patterns@, scans@, started_at);
            let found = artifacts_of(*task, patterns@, files@, scans@, started_at)->Ok_0;
            assert forall|path: Text| #[trigger]
                found.paths.contains(path) implies exists|k: int|
                0 <= k < scans@.len() && (#[trigger] scans@[k] matches GlobScan::Entries { entries }
                    && file_at(entries@, path) && (any_recent(entries@, started_at as int)
                    ==> recent_at(entries@, started_at as int, path))) by {
                let k = choose|k: int|
                    0 <= k < task.artifact_sources@.len() && (#[trigger] found.targets[k]).paths.contains(
                        path,
                    );
                assert(found.targets[k].paths.contains(path));
                assert(scans@[k] is Entries);
                recent_files_are_found(scans@[k]->entries@, started_at as int, path);
            }
        }
    }
    if files.len() > 0 {
        let there = files_there(files);
        if there.len() == 0 {
            return Err(
                "contract expected output files but tool-reported files do not exist".to_owned(),
            );
        }
        return match bind_explicit_files_to_artifacts(
            task.artifact_sources.as_slice(),
            there.as_slice(),
        ) {
            Ok(targets) => Ok(ResolvedArtifacts { targets, paths: there }),
            Err(error) => Err(error),
        };
    }
    let sources = &task.artifact_sources;
    let ghost names = texts(sources@);
    let mut targets: Vec<NamedTarget> = Vec::new();
    let mut paths: Vec<String> = Vec::new();
    proof {
        assert(target_views(targets@) =~= Seq::empty());
        assert(texts(paths@) =~= Seq::empty());
    }
    if sources.len() == 0 {
        if task.on_verify.len() == 0 && task.delivery_actions.len() == 0 {
            return Ok(ResolvedArtifacts { targets, paths });
        }
        return Err("workspace contract has no artifact source".to_owned());
    }
    let mut i: usize = 0;
    proof {
        assert(names.take(0) =~= Seq::empty());
    }
    while i < sources.len()
        invariant
            i <= sources.len(),
            scans@.len() == sources@.len(),
            files@.len() == 0,
            names == texts(sources@),
            names == texts(task.artifact_sources@),
            names.len() > 0,
            found_artifacts(patterns@, names.take(i as int), scans@, started_at) == Ok::<
                ArtifactsView,
                Text,
            >(ArtifactsView { targets: target_views(targets@), paths: texts(paths@) }),
        decreases sources.len() - i,
    {
        proof {
            assert(names.take(i + 1).drop_last() =~= names.take(i as int));
            assert(names.take(i + 1)[i as int] == sources@[i as int]@);
        }
        let found = match find_artifact(patterns, sources[i].as_str(), &scans[i], started_at) {
            Ok(found) => found,
            Err(error) => {
                proof {
                    lemma_first_failure(patterns@, names, scans@, started_at, i + 1, error@);
                }
                return Err(error);
            },
        };
        let ghost before = target_views(targets@);
        let ghost earlier = texts(paths@);
        let mut more = copy_list(found.as_slice());
        let ghost added = texts(more@);
        targets.push(NamedTarget { name: dollar(sources[i].as_str()), paths: found });
        paths.append(&mut more);
        proof {
            assert(target_views(targets@) =~= before.push(
                TargetView { name: target_name(names[i as int]), paths: added },
            ));
            assert(texts(paths@) =~= earlier + added);
        }
        i += 1;
    }
    proof {
        assert(names.take(names.len() as int) =~= names);
    }
    let ghost before = target_views(targets@);
    targets.push(NamedTarget { name: "$artifact".to_owned(), paths: copy_list(paths.as_slice()) });
    proof {
        assert(target_views(targets@) =~= before.push(
            TargetView { name: "$artifact"@, paths: texts(paths@) },
        ));
    }
    Ok(ResolvedArtifacts { targets, paths })
}

} // verus!
