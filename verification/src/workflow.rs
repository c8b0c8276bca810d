//! Workflows of child agents: which files they deliver in the end.
use vstd::prelude::*;
use vstd::string::*;

use crate::paths::{extension, extension_of, file_name, name_of};
use crate::text::{
    ascii_lower, contains, contains_text, copy_list, copy_opt, ends_with, lemma_texts_push,
    opt_text, same, texts, to_ascii_lower, Text,
};

verus! {

/// What a workflow delivers in the end.
#[derive(Debug)]
pub struct WorkflowTerminalOutputPolicy {
    /// Deliver one file, the preferred one.
    pub deliver_final_artifact_only: bool,
    /// Files that were only changed count when no file was named for delivery.
    pub forbid_intermediate_files: bool,
    /// The kind of file that counts.
    pub required_artifact_kind: String,
}

/// The workflow that a child agent runs in.
#[derive(Debug)]
pub struct WorkflowMetadata {
    pub workflow_kind: String,
    pub current_phase: String,
    pub allowed_tools: Vec<String>,
    pub terminal_output: Option<WorkflowTerminalOutputPolicy>,
    /// How far the workflow has come: a fraction of one, as a JSON number.
    pub progress: Option<String>,
}

#[verifier::ext_equal]
pub struct TerminalPolicyView {
    pub final_only: bool,
    pub forbid_intermediate: bool,
    pub kind: Text,
}

#[verifier::ext_equal]
pub struct WorkflowView {
    pub kind: Text,
    pub phase: Text,
    pub allowed_tools: Seq<Text>,
    pub terminal: Option<TerminalPolicyView>,
    pub progress: Option<Text>,
}

impl View for WorkflowTerminalOutputPolicy {
    type V = TerminalPolicyView;

    open spec fn view(&self) -> TerminalPolicyView {
        TerminalPolicyView {
            final_only: self.deliver_final_artifact_only,
            forbid_intermediate: self.forbid_intermediate_files,
            kind: self.required_artifact_kind@,
        }
    }
}

impl View for WorkflowMetadata {
    type V = WorkflowView;

    open spec fn view(&self) -> WorkflowView {
        WorkflowView {
            kind: self.workflow_kind@,
            phase: self.current_phase@,
            allowed_tools: texts(self.allowed_tools@),
            terminal: match self.terminal_output {
                Some(policy) => Some(policy@),
                None => None,
            },
            progress: opt_text(self.progress),
        }
    }
}

/// The view of an optional workflow.
pub open spec fn workflow_view(workflow: Option<&WorkflowMetadata>) -> Option<WorkflowView> {
    match workflow {
        Some(w) => Some(w@),
        None => None,
    }
}

impl WorkflowMetadata {
    /// The same workflow in another phase.
    pub fn in_phase(&self, phase: &str) -> (r: WorkflowMetadata)
        ensures
            r@ == (WorkflowView { phase: phase@, ..self@ }),
    {
        WorkflowMetadata {
            workflow_kind: self.workflow_kind.clone(),
            current_phase: phase.to_owned(),
            allowed_tools: copy_list(self.allowed_tools.as_slice()),
            terminal_output: match &self.terminal_output {
                Some(policy) => Some(
                    WorkflowTerminalOutputPolicy {
                        deliver_final_artifact_only: policy.deliver_final_artifact_only,
                        forbid_intermediate_files: policy.forbid_intermediate_files,
                        required_artifact_kind: policy.required_artifact_kind.clone(),
                    },
                ),
                None => None,
            },
            progress: copy_opt(&self.progress),
        }
    }

    pub fn copy(&self) -> (r: WorkflowMetadata)
        ensures
            r@ == self@,
    {
        self.in_phase(self.current_phase.as_str())
    }
}

// ---------------------------------------------------------------------------
// Progress
// ---------------------------------------------------------------------------

/// The progress that a phase stands for, in hundredths.
pub open spec fn phase_progress(phase: Text) -> u32 {
    if phase == "deliver_result"@ {
        95
    } else if phase == "verify_outputs"@ || phase == "verify_contract"@ {
        90
    } else {
        5
    }
}

/// The progress that a phase stands for, in hundredths: small at the start,
/// near the end while results are checked and delivered.
pub fn workflow_phase_progress(phase: &str) -> (r: u32)
    ensures
        r == phase_progress(phase@),
{
    if same(phase, "deliver_result") {
        95
    } else if same(phase, "verify_outputs") || same(phase, "verify_contract") {
        90
    } else {
        5
    }
}

/// Progress is never nothing and never complete.
pub proof fn progress_is_strictly_between(phase: Text)
    ensures
        0 < phase_progress(phase) < 100,
{
}

// ---------------------------------------------------------------------------
// Kinds of artifacts
// ---------------------------------------------------------------------------

pub open spec fn audio_extension(ext: Text) -> bool {
    ext == "mp3"@ || ext == "wav"@ || ext == "m4a"@ || ext == "aac"@ || ext == "flac"@ || ext == "ogg"@
}

pub open spec fn presentation_extension(ext: Text) -> bool {
    ext == "pptx"@ || ext == "ppt"@ || ext == "pdf"@
}

pub open spec fn site_extension(ext: Text) -> bool {
    ext == "html"@ || ext == "htm"@ || ext == "xhtml"@
}

pub open spec fn report_extension(ext: Text) -> bool {
    ext == "md"@ || ext == "txt"@ || ext == "pdf"@ || ext == "html"@
}

/// A file is of a kind by its extension. Case does not matter except for
/// reports, and an unknown kind is met by every file.
pub open spec fn of_kind(path: Text, kind: Text) -> bool {
    let ext = extension_of(path);
    if kind == "audio"@ {
        ext is Some && audio_extension(ascii_lower(ext->0))
    } else if kind == "presentation"@ {
        ext is Some && presentation_extension(ascii_lower(ext->0))
    } else if kind == "site"@ {
        ext is Some && site_extension(ascii_lower(ext->0))
    } else if kind == "report"@ {
        ext is Some && report_extension(ext->0)
    } else {
        true
    }
}

fn has_audio_extension(ext: &str) -> (r: bool)
    ensures
        r == audio_extension(ext@),
{
    same(ext, "mp3") || same(ext, "wav") || same(ext, "m4a") || same(ext, "aac") || same(ext, "flac") || same(
        ext,
        "ogg",
    )
}

pub fn workflow_artifact_matches_kind(path: &str, kind: &str) -> (r: bool)
    ensures
        r == of_kind(path@, kind@),
{
    if same(kind, "audio") {
        match extension(path) {
            Some(ext) => {
                let low = to_ascii_lower(ext.as_str());
                has_audio_extension(low.as_str())
            },
            None => false,
        }
    } else if same(kind, "presentation") {
        match extension(path) {
            Some(ext) => {
                let low = to_ascii_lower(ext.as_str());
                same(low.as_str(), "pptx") || same(low.as_str(), "ppt") || same(low.as_str(), "pdf")
            },
            None => false,
        }
    } else if same(kind, "site") {
        match extension(path) {
            Some(ext) => {
                let low = to_ascii_lower(ext.as_str());
                same(low.as_str(), "html") || same(low.as_str(), "htm") || same(low.as_str(), "xhtml")
            },
            None => false,
        }
    } else if same(kind, "report") {
        match extension(path) {
            Some(ext) => same(ext.as_str(), "md") || same(ext.as_str(), "txt") || same(
                ext.as_str(),
                "pdf",
            ) || same(ext.as_str(), "html"),
            None => false,
        }
    } else {
        true
    }
}

/// Text files that are reported rather than delivered.
pub open spec fn plain_text_extension(ext: Text) -> bool {
    ext == "md"@ || ext == "txt"@ || ext == "json"@ || ext == "csv"@
}

pub open spec fn deliverable(path: Text) -> bool {
    match extension_of(path) {
        Some(ext) => !plain_text_extension(ext),
        None => true,
    }
}

/// Whether a list of files holds one that is more than plain text.
pub fn should_deliver_output_files(files: &[String]) -> (r: bool)
    ensures
        r == exists|i: int| 0 <= i < files@.len() && deliverable(#[trigger] texts(files@)[i]),
{
    let mut i: usize = 0;
    while i < files.len()
        invariant
            i <= files.len(),
            forall|j: int| 0 <= j < i ==> !deliverable(#[trigger] texts(files@)[j]),
        decreases files.len() - i,
    {
        let plain: bool = match extension(files[i].as_str()) {
            Some(ext) => same(ext.as_str(), "md") || same(ext.as_str(), "txt") || same(
                ext.as_str(),
                "json",
            ) || same(ext.as_str(), "csv"),
            None => false,
        };
        if !plain {
            proof {
                assert(deliverable(texts(files@)[i as int]));
            }
            return true;
        }
        i += 1;
    }
    false
}

// ---------------------------------------------------------------------------
// The preferred file
// ---------------------------------------------------------------------------

pub open spec fn low_name(path: Text) -> Text {
    match name_of(path) {
        Some(name) => ascii_lower(name),
        None => Seq::empty(),
    }
}

pub open spec fn points(holds: bool, n: int) -> int {
    if holds {
        n
    } else {
        0
    }
}

/// How much a file looks like the final one of its kind.
pub open spec fn preference(path: Text, kind: Text) -> int {
    let name = low_name(path);
    let general = points(contains_text(name, "final"@) || contains_text(name, "full"@), 20);
    if kind == "audio"@ {
        general + points(contains_text(name, "podcast"@), 10) + points(".mp3"@.is_suffix_of(name), 5)
    } else if kind == "presentation"@ {
        general + points(contains_text(name, "deck"@), 10) + points(".pptx"@.is_suffix_of(name), 5)
    } else if kind == "site"@ {
        general + points("index.html"@.is_suffix_of(name), 10) + points(
            contains_text(name, "site"@),
            5,
        )
    } else {
        general
    }
}

/// Position `i` holds the file with the highest preference, the last of them.
pub open spec fn preferred_at(files: Seq<Text>, kind: Text, i: int) -> bool {
    &&& 0 <= i < files.len()
    &&& forall|j: int|
        0 <= j < files.len() ==> preference(#[trigger] files[j], kind) < preference(files[i], kind)
            || preference(files[j], kind) == preference(files[i], kind) && j <= i
}

fn preference_of(path: &str, kind: &str) -> (r: i32)
    ensures
        r == preference(path@, kind@),
        0 <= r <= 35,
{
    let name = match file_name(path) {
        Some(n) => to_ascii_lower(n.as_str()),
        None => String::new(),
    };
    proof {
        assert(name@ == low_name(path@));
    }
    let mut score: i32 = 0;
    if contains(name.as_str(), "final") || contains(name.as_str(), "full") {
        score = score + 20;
    }
    if same(kind, "audio") {
        if contains(name.as_str(), "podcast") {
            score = score + 10;
        }
        if ends_with(name.as_str(), ".mp3") {
            score = score + 5;
        }
    } else if same(kind, "presentation") {
        if contains(name.as_str(), "deck") {
            score = score + 10;
        }
        if ends_with(name.as_str(), ".pptx") {
            score = score + 5;
        }
    } else if same(kind, "site") {
        if ends_with(name.as_str(), "index.html") {
            score = score + 10;
        }
        if contains(name.as_str(), "site") {
            score = score + 5;
        }
    }
    score
}

/// The file with the highest preference, the last one among equals.
pub fn select_preferred_terminal_output(files: &[String], required_artifact_kind: &str) -> (r: Option<
    String,
>)
    ensures
        match r {
            Some(path) => exists|i: int|
                #[trigger] preferred_at(texts(files@), required_artifact_kind@, i) && path@ == texts(
                    files@,
                )[i],
            None => files@.len() == 0,
        },
{
    if files.len() == 0 {
        return None;
    }
    let ghost all = texts(files@);
    let mut best: usize = 0;
    let mut best_score: i32 = preference_of(files[0].as_str(), required_artifact_kind);
    let mut i: usize = 1;
    while i < files.len()
        invariant
            1 <= i <= files.len(),
            best < i,
            all == texts(files@),
            best_score == preference(all[best as int], required_artifact_kind@),
            forall|j: int|
                0 <= j < i ==> preference(#[trigger] all[j], required_artifact_kind@) < best_score || preference(
                    all[j],
                    required_artifact_kind@,
                ) == best_score && j <= best,
        decreases files.len() - i,
    {
        let score: i32 = preference_of(files[i].as_str(), required_artifact_kind);
        if score >= best_score {
            best = i;
            best_score = score;
        }
        i += 1;
    }
    proof {
        assert(preferred_at(all, required_artifact_kind@, best as int));
    }
    Some(files[best].clone())
}

// ---------------------------------------------------------------------------
// Terminal files of a workflow
// ---------------------------------------------------------------------------

/// The files of a list that are of a kind.
pub open spec fn files_of_kind(files: Seq<Text>, kind: Text) -> Seq<Text> {
    files.filter(|path: Text| of_kind(path, kind))
}

/// The files that a policy considers.
pub open spec fn terminal_candidates(
    to_send: Seq<Text>,
    modified: Seq<Text>,
    policy: TerminalPolicyView,
) -> Seq<Text> {
    let considered = if !policy.forbid_intermediate {
        to_send + modified
    } else if to_send.len() == 0 {
        modified
    } else {
        to_send
    };
    files_of_kind(considered, policy.kind)
}

/// `out` is what a policy delivers: all candidates, or the preferred one.
pub open spec fn delivers(
    to_send: Seq<Text>,
    modified: Seq<Text>,
    policy: TerminalPolicyView,
    out: Seq<Text>,
) -> bool {
    let candidates = terminal_candidates(to_send, modified, policy);
    if !policy.final_only {
        out == candidates
    } else if candidates.len() == 0 {
        out.len() == 0
    } else {
        exists|i: int|
            #[trigger] preferred_at(candidates, policy.kind, i) && out == seq![candidates[i]]
    }
}

fn keep_of_kind(files: &[String], kind: &str) -> (out: Vec<String>)
    ensures
        texts(out@) == files_of_kind(texts(files@), kind@),
{
    let ghost all = texts(files@);
    let ghost pred = |path: Text| of_kind(path, kind@);
    let mut out: Vec<String> = Vec::new();
    let mut i: usize = 0;
    proof {
        assert(all.take(0).filter(pred) =~= Seq::empty());
        assert(texts(out@) =~= Seq::empty());
    }
    while i < files.len()
        invariant
            i <= files.len(),
            all == texts(files@),
            pred == (|path: Text| of_kind(path, kind@)),
            texts(out@) == all.take(i as int).filter(pred),
        decreases files.len() - i,
    {
        proof {
            assert(all.take(i + 1) =~= all.take(i as int).push(files@[i as int]@));
            all.take(i as int).lemma_filter_push(files@[i as int]@, pred);
            lemma_texts_push(out@, files@[i as int]);
        }
        if workflow_artifact_matches_kind(files[i].as_str(), kind) {
            out.push(files[i].clone());
        }
        i += 1;
    }
    proof {
        assert(all.take(all.len() as int) =~= all);
    }
    out
}

/// One list after the other.
pub fn chain_lists(first: &[String], second: &[String]) -> (out: Vec<String>)
    ensures
        texts(out@) == texts(first@) + texts(second@),
{
    let mut out = copy_list(first);
    let mut rest = copy_list(second);
    let ghost a = texts(out@);
    let ghost b = texts(rest@);
    out.append(&mut rest);
    proof {
        assert(texts(out@) =~= a + b);
    }
    out
}

/// The files that a workflow delivers in the end; nothing is said without a
/// terminal policy.
pub fn select_workflow_terminal_files(
    files_to_send: &[String],
    files_modified: &[String],
    workflow: Option<&WorkflowMetadata>,
) -> (r: Option<Vec<String>>)
    ensures
        match r {
            Some(out) => {
                &&& workflow is Some
                &&& workflow->0@.terminal is Some
                &&& delivers(
                    texts(files_to_send@),
                    texts(files_modified@),
                    workflow->0@.terminal->0,
                    texts(out@),
                )
            },
            None => workflow is None || workflow->0@.terminal is None,
        },
{
    let w = match workflow {
        Some(w) => w,
        None => {
            return None;
        },
    };
    let policy = match &w.terminal_output {
        Some(policy) => policy,
        None => {
            return None;
        },
    };
    let considered = if policy.forbid_intermediate_files {
        if files_to_send.len() == 0 {
            copy_list(files_modified)
        } else {
            copy_list(files_to_send)
        }
    } else {
        chain_lists(files_to_send, files_modified)
    };
    let candidates = keep_of_kind(considered.as_slice(), policy.required_artifact_kind.as_str());
    if policy.deliver_final_artifact_only {
        let mut out: Vec<String> = Vec::new();
        match select_preferred_terminal_output(
            candidates.as_slice(),
            policy.required_artifact_kind.as_str(),
        ) {
            Some(path) => {
                out.push(path);
                proof {
                    assert(texts(out@) =~= seq![path@]);
                }
            },
            None => {},
        }
        return Some(out);
    }
    Some(candidates)
}

/// The kind of file that a workflow must end with, if it asks for one.
pub open spec fn required_kind(workflow: Option<WorkflowView>) -> Option<Text> {
    match workflow {
        Some(w) => match w.terminal {
            Some(policy) => if policy.kind.len() > 0 {
                Some(policy.kind)
            } else {
                None
            },
            None => None,
        },
        None => None,
    }
}

pub fn workflow_terminal_artifact_kind(workflow: Option<&WorkflowMetadata>) -> (r: Option<String>)
    ensures
        crate::text::opt_text(r) == required_kind(workflow_view(workflow)),
{
    match workflow {
        Some(w) => match &w.terminal_output {
            Some(policy) => if !policy.required_artifact_kind.as_str().is_empty() {
                Some(policy.required_artifact_kind.clone())
            } else {
                None
            },
            None => None,
        },
        None => None,
    }
}

/// The kinds whose delivery a workspace contract owns.
pub open spec fn contract_owned(workflow: WorkflowView) -> bool {
    match workflow.terminal {
        Some(policy) => policy.kind == "presentation"@ || policy.kind == "site"@,
        None => false,
    }
}

pub fn workflow_uses_contract_terminal_delivery(workflow: &WorkflowMetadata) -> (r: bool)
    ensures
        r == contract_owned(workflow@),
{
    match &workflow.terminal_output {
        Some(policy) => same(policy.required_artifact_kind.as_str(), "presentation") || same(
            policy.required_artifact_kind.as_str(),
            "site",
        ),
        None => false,
    }
}

pub fn workflow_is_research_podcast(workflow: Option<&WorkflowMetadata>) -> (r: bool)
    ensures
        r == (workflow is Some && workflow->0@.kind == "research_podcast"@),
{
    match workflow {
        Some(w) => same(w.workflow_kind.as_str(), "research_podcast"),
        None => false,
    }
}

/// Whatever is delivered was named for delivery or changed, and is of the
/// required kind.
pub proof fn delivered_files_are_candidates(
    to_send: Seq<Text>,
    modified: Seq<Text>,
    policy: TerminalPolicyView,
    out: Seq<Text>,
    path: Text,
)
    requires
        delivers(to_send, modified, policy, out),
        out.contains(path),
    ensures
        to_send.contains(path) || modified.contains(path),
        of_kind(path, policy.kind),
{
    let candidates = terminal_candidates(to_send, modified, policy);
    let considered = if !policy.forbid_intermediate {
        to_send + modified
    } else if to_send.len() == 0 {
        modified
    } else {
        to_send
    };
    let pred = |p: Text| of_kind(p, policy.kind);
    let k = choose|k: int| 0 <= k < out.len() && out[k] == path;
    if policy.final_only {
        let i = choose|i: int|
            #[trigger] preferred_at(candidates, policy.kind, i) && out == seq![candidates[i]];
        assert(candidates[i] == path);
    }
    assert(candidates.contains(path));
    let c = choose|c: int| 0 <= c < candidates.len() && candidates[c] == path;
    considered.lemma_filter_pred(pred, c);
    considered.lemma_filter_contains_rev(pred, path);
    if considered == to_send + modified {
        let j = choose|j: int| 0 <= j < considered.len() && considered[j] == path;
        if j < to_send.len() {
            assert(to_send[j] == path);
        } else {
            assert(modified[j - to_send.len()] == path);
        }
    }
}

/// With a final-only policy at most one file is delivered.
pub proof fn final_only_delivers_at_most_one(
    to_send: Seq<Text>,
    modified: Seq<Text>,
    policy: TerminalPolicyView,
    out: Seq<Text>,
)
    requires
        delivers(to_send, modified, policy, out),
        policy.final_only,
    ensures
        out.len() <= 1,
        out.len() == 1 <==> terminal_candidates(to_send, modified, policy).len() > 0,
{
}

} // verus!
