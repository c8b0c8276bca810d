//! The tool that reads the output of background tasks, a little at a time.
use vstd::prelude::*;

use crate::access::{Resolution, ToolPathError, ToolPathScope};
use crate::context::{plain_result, HostHandle, ToolResult};
use crate::output_laws::{a_line_range_gives_its_lines, gives};
use crate::paths::{
    join_path, lies_within, parts_of, path_joined, path_parts, same_path, within,
};
use crate::text::{
    contains, contains_text, debug_form, debug_forms, debug_list, debug_text, decimal, join,
    joined, lemma_texts_push, lines, render, same, text_lines, texts, Text,
};
use crate::widths::{byte_len, bytes_in, cut_to, fits, fitting, lemma_joined_width};

verus! {

/// The most bytes of output that one call returns, beside the mark that more
/// was there.
pub const MAX_OUTPUT_BYTES: usize = 4096;

/// The most bytes that one call reads.
pub const MAX_READ_BYTES: usize = 1048576;

/// How many lines are returned if nothing is said.
pub const DEFAULT_LINE_LIMIT: usize = 50;

/// The most lines that one call returns.
pub const MAX_LINE_LIMIT: usize = 500;

/// The most matches that one call returns.
pub const MAX_GREP_MATCHES: usize = 100;

/// How many matches are returned if nothing is said.
pub const DEFAULT_GREP_MATCHES: usize = 20;

/// Which part of an output is read.
#[derive(Debug)]
pub enum ReadMode {
    /// The first lines.
    Head { lines: usize },
    /// The last lines.
    Tail { lines: usize },
    /// The lines that hold a text.
    Grep { pattern: String, max_matches: usize },
    /// The lines from one to another, counted from 1, both included.
    LineRange { start: usize, end: usize },
    /// A part of a file that the task has written.
    File { path: String, mode: Box<ReadMode> },
}

impl Default for ReadMode {
    fn default() -> (r: ReadMode)
        ensures
            r == (ReadMode::Head { lines: 50 }),
            r == (ReadMode::Head { lines: DEFAULT_LINE_LIMIT }),
    {
        ReadMode::Head { lines: DEFAULT_LINE_LIMIT }
    }
}

/// The arguments of a call.
#[derive(Debug)]
pub struct ReadInput {
    pub task_handle: String,
    pub mode: ReadMode,
}

/// A background task as its supervisor knows it.
#[derive(Debug)]
pub struct TaskRecord {
    pub id: String,
    pub tool_call_id: String,
    /// The session that the task belongs to.
    pub session_key: Option<String>,
    /// The files that the task has written, once it is done.
    pub output_files: Vec<String>,
}

/// From which end a file is read.
#[derive(Debug, Clone, Copy, PartialEq, Eq, Structural)]
pub enum ReadDirection {
    FromStart,
    FromEnd,
}

/// Under which names the captured output of a task is kept.
#[derive(Debug)]
pub struct RouterKey {
    pub session_id: String,
    pub task_id: String,
}

/// What a call comes to.
#[derive(Debug)]
pub enum ReadStep {
    /// The call fails.
    Failed { reason: String },
    /// The call is answered without a read.
    Answer { result: ToolResult },
    /// The captured output is read. Without a key there is none.
    Log { key: Option<RouterKey>, direction: ReadDirection, mode: ReadMode },
    /// A file that the task has written is read.
    File { path: String, direction: ReadDirection, mode: ReadMode },
}

/// The tool that reads the output of background tasks.
#[derive(Debug)]
pub struct ReadTaskOutputTool {
    pub supervisor: HostHandle,
    pub session_key: String,
    pub output_router: Option<HostHandle>,
    pub workspace_root: String,
}

// ---------------------------------------------------------------------------
// Taking a part of a text

/// A number brought into the range from 1 to `max`.
pub open spec fn clamped(n: usize, max: usize) -> nat {
    if n < 1 {
        1
    } else if n > max {
        max as nat
    } else {
        n as nat
    }
}

fn clamp(n: usize, max: usize) -> (r: usize)
    requires
        max >= 1,
    ensures
        r == clamped(n, max),
{
    if n < 1 {
        1
    } else if n > max {
        max
    } else {
        n
    }
}

/// The first items of a list.
pub open spec fn first(list: Seq<Text>, n: nat) -> Seq<Text> {
    if n < list.len() {
        list.take(n as int)
    } else {
        list
    }
}

/// The last items of a list.
pub open spec fn last(list: Seq<Text>, n: nat) -> Seq<Text> {
    if n < list.len() {
        list.skip(list.len() - n)
    } else {
        list
    }
}

/// A list without its first items.
pub open spec fn after(list: Seq<Text>, n: nat) -> Seq<Text> {
    if n < list.len() {
        list.skip(n as int)
    } else {
        Seq::empty()
    }
}

/// The lines that hold a text, each with its number.
pub open spec fn hits(list: Seq<Text>, pattern: Text) -> Seq<Text>
    decreases list.len(),
{
    if list.len() == 0 {
        Seq::empty()
    } else if contains_text(list.last(), pattern) {
        hits(list.drop_last(), pattern).push(decimal(list.len()) + ":"@ + list.last())
    } else {
        hits(list.drop_last(), pattern)
    }
}

/// What is said if no line holds a pattern.
pub open spec fn no_matches_text(shown: Text) -> Text {
    "(no matches for "@ + shown + ")"@
}

/// What is said if no line holds a pattern, which is given as it is shown.
pub fn no_matches(shown: &str) -> (r: String)
    ensures
        r@ == no_matches_text(shown@),
{
    let mut r = "(no matches for ".to_owned();
    r.append(shown);
    r.append(")");
    r
}

/// The part of a text that a mode asks for, or why there is none.
pub open spec fn part(text: Text, mode: ReadMode) -> Result<Text, Text> {
    let all = text_lines(text);
    match mode {
        ReadMode::Head { lines } => Ok(joined(first(all, clamped(lines, MAX_LINE_LIMIT)), "\n"@)),
        ReadMode::Tail { lines } => Ok(joined(last(all, clamped(lines, MAX_LINE_LIMIT)), "\n"@)),
        ReadMode::Grep { pattern, max_matches } => {
            let found = first(hits(all, pattern@), clamped(max_matches, MAX_GREP_MATCHES));
            if pattern@.len() == 0 {
                Err("grep pattern must not be empty"@)
            } else if found.len() == 0 {
                Ok(no_matches_text(debug_form(pattern@)))
            } else {
                Ok(joined(found, "\n"@))
            }
        },
        ReadMode::LineRange { start, end } => if start == 0 || end == 0 {
            Err("line numbers are 1-indexed"@)
        } else if end < start {
            Err(
                "end line "@ + decimal(end as nat) + " must be >= start line "@ + decimal(
                    start as nat,
                ),
            )
        } else if end - start + 1 > MAX_LINE_LIMIT {
            Err(
                "line range "@ + decimal(start as nat) + "..="@ + decimal(end as nat) + " spans "@
                    + decimal((end - start + 1) as nat) + " lines (cap is 500)"@,
            )
        } else {
            Ok(
                joined(
                    first(after(all, (start - 1) as nat), (end - start + 1) as nat),
                    "\n"@,
                ),
            )
        },
        ReadMode::File { .. } => Err("file mode does not nest inside file mode"@),
    }
}

/// The lines of a list from one position to another, on lines of their own.
fn join_range(list: &[String], from: usize, to: usize) -> (r: String)
    requires
        from <= to <= list@.len(),
    ensures
        r@ == joined(texts(list@).subrange(from as int, to as int), "\n"@),
{
    let slice = vstd::slice::slice_subrange(list, from, to);
    proof {
        assert(texts(slice@) =~= texts(list@).subrange(from as int, to as int));
    }
    join(slice, "\n")
}

/// The hits of a part of a list are the first hits of the list.
proof fn lemma_hits_grow(list: Seq<Text>, pattern: Text, n: int)
    requires
        0 <= n <= list.len(),
    ensures
        hits(list.take(n), pattern).len() <= hits(list, pattern).len(),
        hits(list, pattern).take(hits(list.take(n), pattern).len() as int) == hits(
            list.take(n),
            pattern,
        ),
    decreases list.len(),
{
    let part = hits(list.take(n), pattern);
    if n == list.len() {
        assert(list.take(n) =~= list);
        assert(part.take(part.len() as int) =~= part);
    } else {
        let rest = list.drop_last();
        lemma_hits_grow(rest, pattern, n);
        assert(rest.take(n) =~= list.take(n));
        assert(hits(list, pattern).take(part.len() as int) =~= hits(rest, pattern).take(
            part.len() as int,
        ));
    }
}

fn grep(all: &[String], pattern: &str, max: usize) -> (out: Vec<String>)
    requires
        max >= 1,
    ensures
        texts(out@) == first(hits(texts(all@), pattern@), max as nat),
{
    let ghost list = texts(all@);
    let mut out: Vec<String> = Vec::new();
    let mut i: usize = 0;
    proof {
        assert(list.take(0) =~= Seq::empty());
        assert(texts(out@) =~= Seq::empty());
    }
    while i < all.len()
        invariant
            i <= all.len(),
            list == texts(all@),
            max >= 1,
            texts(out@) == hits(list.take(i as int), pattern@),
            out@.len() < max,
        decreases all.len() - i,
    {
        proof {
            assert(list.take(i + 1).drop_last() =~= list.take(i as int));
            assert(list.take(i + 1).last() == all@[i as int]@);
        }
        if contains(all[i].as_str(), pattern) {
            let mut hit = render(i as u64 + 1);
            hit.append(":");
            hit.append(all[i].as_str());
            proof {
                lemma_texts_push(out@, hit);
            }
            out.push(hit);
            if out.len() >= max {
                proof {
                    let found = hits(list.take(i + 1), pattern@);
                    lemma_hits_grow(list, pattern@, i + 1);
                    assert(texts(out@) == found);
                    assert(texts(out@).len() == max);
                    if hits(list, pattern@).len() == max {
                        assert(hits(list, pattern@).take(max as int) =~= hits(list, pattern@));
                    }
                }
                return out;
            }
        }
        i += 1;
    }
    proof {
        assert(list.take(list.len() as int) =~= list);
        assert(texts(out@).len() == out@.len());
    }
    out
}

fn misordered_text(start: usize, end: usize) -> (r: String)
    ensures
        r@ == "end line "@ + decimal(end as nat) + " must be >= start line "@ + decimal(
            start as nat,
        ),
{
    let mut r = "end line ".to_owned();
    let a = render(end as u64);
    r.append(a.as_str());
    r.append(" must be >= start line ");
    let b = render(start as u64);
    r.append(b.as_str());
    r
}

fn too_long_text(start: usize, end: usize, span: usize) -> (r: String)
    ensures
        r@ == "line range "@ + decimal(start as nat) + "..="@ + decimal(end as nat) + " spans "@
            + decimal(span as nat) + " lines (cap is 500)"@,
{
    let mut r = "line range ".to_owned();
    let a = render(start as u64);
    r.append(a.as_str());
    r.append("..=");
    let b = render(end as u64);
    r.append(b.as_str());
    r.append(" spans ");
    let c = render(span as u64);
    r.append(c.as_str());
    r.append(" lines (cap is 500)");
    r
}

/// The part of a text that a mode asks for. A mode for files asks for none.
pub fn apply_mode(text: &str, mode: &ReadMode) -> (r: Result<String, String>)
    ensures
        match r {
            Ok(out) => part(text@, *mode) == Ok::<Text, Text>(out@),
            Err(reason) => part(text@, *mode) == Err::<Text, Text>(reason@),
        },
        // A line range gives its lines, the first and the last included.
        mode matches ReadMode::LineRange { start, end } ==> (1 <= *start <= *end && *end - *start
            < 500 && *end <= text_lines(text@).len() ==> (r matches Ok(out) && gives(
            Ok(out@),
            text@,
            *start - 1,
            *end - *start + 1,
        ))),
{
    proof {
        if let ReadMode::LineRange { start, end } = mode {
            if 1 <= *start <= *end && *end - *start < 500 {
                a_line_range_gives_its_lines(text@, *start, *end);
            }
        }
    }
    let all = lines(text);
    let ghost list = texts(all@);
    match mode {
        ReadMode::Head { lines } => {
            let n: usize = clamp(*lines, MAX_LINE_LIMIT);
            let to: usize = if n < all.len() {
                n
            } else {
                all.len()
            };
            proof {
                assert(list.subrange(0, to as int) =~= first(list, n as nat));
            }
            Ok(join_range(all.as_slice(), 0, to))
        },
        ReadMode::Tail { lines } => {
            let n: usize = clamp(*lines, MAX_LINE_LIMIT);
            let from: usize = if n < all.len() {
                all.len() - n
            } else {
                0
            };
            proof {
                assert(list.subrange(from as int, list.len() as int) =~= last(list, n as nat));
            }
            Ok(join_range(all.as_slice(), from, all.len()))
        },
        ReadMode::Grep { pattern, max_matches } => {
            if pattern.as_str().is_empty() {
                return Err("grep pattern must not be empty".to_owned());
            }
            let max: usize = clamp(*max_matches, MAX_GREP_MATCHES);
            let found = grep(all.as_slice(), pattern.as_str(), max);
            if found.len() == 0 {
                let shown = debug_text(pattern.as_str());
                return Ok(no_matches(shown.as_str()));
            }
            Ok(join(found.as_slice(), "\n"))
        },
        ReadMode::LineRange { start, end } => {
            if *start == 0 || *end == 0 {
                return Err("line numbers are 1-indexed".to_owned());
            }
            if *end < *start {
                return Err(misordered_text(*start, *end));
            }
            let span: usize = *end - *start + 1;
            if span > MAX_LINE_LIMIT {
                return Err(too_long_text(*start, *end, span));
            }
            let from: usize = if *start - 1 < all.len() {
                *start - 1
            } else {
                all.len()
            };
            let to: usize = if span < all.len() - from {
                from + span
            } else {
                all.len()
            };
            proof {
                assert(list.subrange(from as int, to as int) =~= first(
                    after(list, (*start - 1) as nat),
                    span as nat,
                ));
            }
            Ok(join_range(all.as_slice(), from, to))
        },
        ReadMode::File { .. } => Err("file mode does not nest inside file mode".to_owned()),
    }
}

/// From which end a mode reads.
pub open spec fn direction_of(mode: ReadMode) -> ReadDirection {
    match mode {
        ReadMode::Tail { .. } => ReadDirection::FromEnd,
        _ => ReadDirection::FromStart,
    }
}

pub fn mode_hint(mode: &ReadMode) -> (r: ReadDirection)
    ensures
        r == direction_of(*mode),
{
    match mode {
        ReadMode::Tail { .. } => ReadDirection::FromEnd,
        _ => ReadDirection::FromStart,
    }
}

/// Where in a file of a given length the reading begins, so that at most
/// `MAX_READ_BYTES` are read: at the beginning, or as far from the end as that.
pub fn read_offset(direction: ReadDirection, len: u64) -> (r: u64)
    ensures
        direction == ReadDirection::FromEnd && len > 1048576 ==> len - r == 1048576,
        direction != ReadDirection::FromEnd || len <= 1048576 ==> r == 0,
        r == if direction == ReadDirection::FromEnd && len > MAX_READ_BYTES {
            len - MAX_READ_BYTES
        } else {
            0
        },
{
    if direction == ReadDirection::FromEnd && len > MAX_READ_BYTES as u64 {
        len - MAX_READ_BYTES as u64
    } else {
        0
    }
}

/// A text cut to the most bytes that one call returns, with a mark if it was longer.
pub open spec fn capped_text(s: Text) -> Text {
    if byte_len(s) <= MAX_OUTPUT_BYTES {
        s
    } else {
        fitting(s, MAX_OUTPUT_BYTES as nat) + "\n…[truncated]"@
    }
}

pub fn truncate_to_cap(s: String) -> (r: String)
    ensures
        r@ == capped_text(s@),
{
    if bytes_in(s.as_str()) <= MAX_OUTPUT_BYTES {
        return s;
    }
    let mut r = cut_to(s.as_str(), MAX_OUTPUT_BYTES);
    r.append("\n…[truncated]");
    r
}

/// No call returns more than the cap and the mark.
pub proof fn output_is_bounded(s: Text)
    ensures
        byte_len(capped_text(s)) <= MAX_OUTPUT_BYTES + byte_len("\n…[truncated]"@),
{
    if byte_len(s) > MAX_OUTPUT_BYTES {
        lemma_some_fit(s, MAX_OUTPUT_BYTES as nat);
        lemma_joined_width(fitting(s, MAX_OUTPUT_BYTES as nat), "\n…[truncated]"@);
    }
}

pub(crate) proof fn lemma_some_fit(s: Text, cap: nat)
    ensures
        exists|n: int| fits(s, n, cap),
        byte_len(fitting(s, cap)) <= cap,
    decreases s.len(),
{
    if byte_len(s) <= cap {
        assert(s.take(s.len() as int) =~= s);
        assert(fits(s, s.len() as int, cap));
    } else {
        if s.len() == 0 {
            assert(byte_len(s) == 0);
        }
        let rest = s.drop_last();
        lemma_some_fit(rest, cap);
        let n = choose|n: int| fits(rest, n, cap);
        assert(rest.take(n) =~= s.take(n));
        if n < rest.len() {
            assert(rest.take(n + 1) =~= s.take(n + 1));
        } else {
            assert(s.take(n + 1) =~= s);
        }
        assert(fits(s, n, cap));
    }
}

// ---------------------------------------------------------------------------
// Which file is read

/// What the resolver gives for the paths that a read is about.
#[derive(Debug)]
pub struct SeenPaths {
    /// For the path that is asked for.
    pub asked: Resolution,
    /// For each output file of the task.
    pub files: Vec<Resolution>,
}

/// The workspace file that a resolution leads to.
pub open spec fn workspace_path(seen: Resolution) -> Option<Text> {
    match seen {
        Ok(found) => if found.scope == ToolPathScope::Workspace {
            Some(found.absolute@)
        } else {
            None
        },
        Err(_) => None,
    }
}

/// Why a path leads to no workspace file.
pub open spec fn handle_refusal(seen: Resolution, path: Text) -> Text {
    match seen {
        Ok(found) => "path '"@ + path + "' resolved outside the workspace ("@ + (match found.scope {
            ToolPathScope::Workspace => "Workspace"@,
            ToolPathScope::Upload => "Upload"@,
            ToolPathScope::Profile => "Profile"@,
        }) + "); only workspace paths are permitted"@,
        Err(ToolPathError::OutsideAllowedRoots) => "absolute path '"@ + path
            + "' is outside the workspace"@,
        Err(_) => "path must stay inside the workspace: "@ + path,
    }
}

/// The workspace file that a path leads to, from what the resolver gave for it.
pub fn resolve_handle_path(seen: &Resolution, user_path: &str) -> (r: Result<String, String>)
    ensures
        match r {
            Ok(found) => workspace_path(*seen) == Some(found@),
            Err(reason) => workspace_path(*seen) is None && reason@ == handle_refusal(
                *seen,
                user_path@,
            ),
        },
{
    match seen {
        Ok(found) => {
            let scope = match found.scope {
                ToolPathScope::Workspace => {
                    return Ok(found.absolute.clone());
                },
                ToolPathScope::Upload => "Upload",
                ToolPathScope::Profile => "Profile",
            };
            let mut text = "path '".to_owned();
            text.append(user_path);
            text.append("' resolved outside the workspace (");
            text.append(scope);
            text.append("); only workspace paths are permitted");
            Err(text)
        },
        Err(ToolPathError::OutsideAllowedRoots) => {
            let mut text = "absolute path '".to_owned();
            text.append(user_path);
            text.append("' is outside the workspace");
            Err(text)
        },
        Err(_) => {
            let mut text = "path must stay inside the workspace: ".to_owned();
            text.append(user_path);
            Err(text)
        },
    }
}

/// A resolution leads to a workspace file.
pub open spec fn leads_to(seen: Resolution, found: Text) -> bool {
    workspace_path(seen) is Some && path_parts(workspace_path(seen)->0) == path_parts(found)
}

/// Some file of a list is the file that was found.
pub open spec fn recorded(files: Seq<Resolution>, found: Text) -> bool {
    exists|i: int| 0 <= i < files.len() && leads_to(#[trigger] files[i], found)
}

fn is_recorded(files: &[Resolution], found: &str) -> (r: bool)
    ensures
        r == recorded(files@, found@),
{
    let mut i: usize = 0;
    while i < files.len()
        invariant
            i <= files.len(),
            forall|j: int| 0 <= j < i ==> !leads_to(#[trigger] files@[j], found@),
        decreases files.len() - i,
    {
        if let Ok(other) = resolve_handle_path(&files[i], "") {
            if same_path(other.as_str(), found) {
                proof {
                    assert(leads_to(files@[i as int], found@));
                }
                return true;
            }
        }
        i += 1;
    }
    false
}

/// The file of a task that is read for a path, or why none is.
pub open spec fn task_file(
    seen: SeenPaths,
    task: TaskRecord,
    path: Text,
    mode: ReadMode,
) -> Result<Text, Text> {
    let files = texts(task.output_files@);
    if mode is File {
        Err("file mode does not nest inside file mode"@)
    } else if files.len() == 0 {
        Err(
            "task '"@ + task.id@
                + "' has not yet declared output files; use head/tail/grep on the captured stdout instead, or wait for the task to complete"@,
        )
    } else {
        match workspace_path(seen.asked) {
            None => Err(handle_refusal(seen.asked, path)),
            Some(found) => if recorded(seen.files@, found) {
                Ok(found)
            } else {
                Err(
                    "path '"@ + path + "' is not in the task's expected_files; allowed: "@ + (
                    "["@ + joined(debug_forms(files), ", "@) + "]"@),
                )
            },
        }
    }
}

impl ReadTaskOutputTool {
    pub fn new(
        supervisor: HostHandle,
        session_key: String,
        output_router: Option<HostHandle>,
        workspace_root: String,
    ) -> (r: ReadTaskOutputTool)
        ensures
            r == (ReadTaskOutputTool { supervisor, session_key, output_router, workspace_root }),
    {
        ReadTaskOutputTool { supervisor, session_key, output_router, workspace_root }
    }

    /// Under which names the captured output of a task is kept, if it is kept.
    pub fn router_path_for(&self, task: &TaskRecord) -> (r: Option<RouterKey>)
        ensures
            match r {
                Some(key) => {
                    &&& self.output_router is Some
                    &&& key.session_id@ == "agent:"@ + task.tool_call_id@
                    &&& key.task_id@ == task.id@
                },
                None => self.output_router is None,
            },
    {
        match self.output_router {
            Some(_) => {
                let mut session_id = "agent:".to_owned();
                session_id.append(task.tool_call_id.as_str());
                Some(RouterKey { session_id, task_id: task.id.clone() })
            },
            None => None,
        }
    }

    /// The file of a task that is read for a path.
    pub fn read_file(&self, seen: &SeenPaths, task: &TaskRecord, path: &str, mode: &ReadMode) -> (r:
        Result<String, String>)
        ensures
            match r {
                Ok(found) => task_file(*seen, *task, path@, *mode) == Ok::<Text, Text>(found@),
                Err(reason) => task_file(*seen, *task, path@, *mode) == Err::<Text, Text>(reason@),
            },
    {
        if let ReadMode::File { .. } = mode {
            return Err("file mode does not nest inside file mode".to_owned());
        }
        if task.output_files.len() == 0 {
            let mut text = "task '".to_owned();
            text.append(task.id.as_str());
            text.append(
                "' has not yet declared output files; use head/tail/grep on the captured stdout instead, or wait for the task to complete",
            );
            return Err(text);
        }
        let found = match resolve_handle_path(&seen.asked, path) {
            Ok(found) => found,
            Err(reason) => {
                return Err(reason);
            },
        };
        if !is_recorded(seen.files.as_slice(), found.as_str()) {
            let mut text = "path '".to_owned();
            text.append(path);
            text.append("' is not in the task's expected_files; allowed: ");
            let allowed = debug_list(task.output_files.as_slice());
            text.append(allowed.as_str());
            return Err(text);
        }
        Ok(found)
    }

    /// Decides what a call comes to. `input` is missing if the arguments could
    /// not be read, `task` is what the supervisor knows under the handle, and
    /// `seen` is what the resolver gives for the paths of the two.
    pub fn execute(
        &self,
        seen: &SeenPaths,
        input: Option<ReadInput>,
        task: Option<TaskRecord>,
    ) -> (r: ReadStep)
        ensures
            self.decides(*seen, input, task, r),
    {
        let input = match input {
            Some(input) => input,
            None => {
                return ReadStep::Failed { reason: "invalid read_task_output input".to_owned() };
            },
        };
        let task = match task {
            Some(task) => task,
            None => {
                return ReadStep::Answer {
                    result: handle_answer(input.task_handle.as_str(), "' not found"),
                };
            },
        };
        if let Some(owner) = &task.session_key {
            if !same(owner.as_str(), self.session_key.as_str()) {
                return ReadStep::Answer {
                    result: handle_answer(
                        input.task_handle.as_str(),
                        "' belongs to a different session",
                    ),
                };
            }
        }
        match input.mode {
            ReadMode::File { path, mode } => {
                let inner = *mode;
                match self.read_file(seen, &task, path.as_str(), &inner) {
                    Ok(found) => ReadStep::File {
                        path: found,
                        direction: mode_hint(&inner),
                        mode: inner,
                    },
                    Err(reason) => ReadStep::Failed { reason },
                }
            },
            inline => ReadStep::Log {
                key: self.router_path_for(&task),
                direction: mode_hint(&inline),
                mode: inline,
            },
        }
    }
}

fn handle_answer(handle: &str, rest: &str) -> (r: ToolResult)
    ensures
        r@ == plain_result(false, "task_handle '"@ + handle@ + rest@),
{
    let mut text = "task_handle '".to_owned();
    text.append(handle);
    text.append(rest);
    ToolResult::plain(false, text)
}

impl ReadTaskOutputTool {
    /// What a call comes to.
    pub open spec fn decides(
        &self,
        seen: SeenPaths,
        input: Option<ReadInput>,
        task: Option<TaskRecord>,
        step: ReadStep,
    ) -> bool {
        match (input, task) {
            (None, _) => step matches ReadStep::Failed { reason } && reason@
                == "invalid read_task_output input"@,
            (Some(input), None) => step matches ReadStep::Answer { result } && result@
                == plain_result(
                false,
                "task_handle '"@ + input.task_handle@ + "' not found"@,
            ),
            (Some(input), Some(task)) => if foreign(task, self.session_key@) {
                step matches ReadStep::Answer { result } && result@ == plain_result(
                    false,
                    "task_handle '"@ + input.task_handle@ + "' belongs to a different session"@,
                )
            } else {
                match input.mode {
                    ReadMode::File { path, mode } => match task_file(
                        seen,
                        task,
                        path@,
                        *mode,
                    ) {
                        Ok(found) => {
                            &&& step matches ReadStep::File { path: p, direction, mode: m }
                            &&& p@ == found
                            &&& direction == direction_of(*mode)
                            &&& m == *mode
                        },
                        Err(why) => step matches ReadStep::Failed { reason } && reason@ == why,
                    },
                    inline => {
                        &&& step matches ReadStep::Log { key, direction, mode: m }
                        &&& direction == direction_of(inline)
                        &&& m == inline
                        &&& match key {
                            Some(key) => {
                                &&& self.output_router is Some
                                &&& key.session_id@ == "agent:"@ + task.tool_call_id@
                                &&& key.task_id@ == task.id@
                            },
                            None => self.output_router is None,
                        }
                    },
                }
            },
        }
    }
}

/// The task belongs to another session.
pub open spec fn foreign(task: TaskRecord, session_key: Text) -> bool {
    task.session_key is Some && task.session_key->0@ != session_key
}

/// What is answered once the text has been read.
pub fn finish_read(text: &str, mode: &ReadMode) -> (r: Result<ToolResult, String>)
    ensures
        match r {
            Ok(result) => part(text@, *mode) matches Ok(body) && result@ == plain_result(
                true,
                capped_text(body),
            ),
            Err(reason) => part(text@, *mode) == Err::<Text, Text>(reason@),
        },
{
    match apply_mode(text, mode) {
        Ok(body) => Ok(ToolResult::plain(true, truncate_to_cap(body))),
        Err(reason) => Err(reason),
    }
}

// ---------------------------------------------------------------------------
// Links on the way to a file

/// The directories between a root and a file beneath it.
pub open spec fn dirs_between(root: Text, names: Seq<Text>) -> Seq<Text> {
    Seq::new(
        if names.len() == 0 {
            0
        } else {
            (names.len() - 1) as nat
        },
        |k: int| path_joined(root, joined(names.take(k + 1), "/"@)),
    )
}

/// The directories on the way to a file, seen from the workspace as it was
/// given or, if the file does not lie beneath that, as the system names it.
pub open spec fn way_to(root: Text, canonical_root: Text, path: Text) -> Result<Seq<Text>, Text> {
    if within(path, root) {
        Ok(dirs_between(root, path_parts(path).skip(path_parts(root).len() as int)))
    } else if within(path, canonical_root) {
        Ok(
            dirs_between(
                canonical_root,
                path_parts(path).skip(path_parts(canonical_root).len() as int),
            ),
        )
    } else {
        Err("internal: resolved path "@ + path + " not inside workspace "@ + root)
    }
}

fn list_between(root: &str, path: &str) -> (out: Vec<String>)
    requires
        within(path@, root@),
    ensures
        texts(out@) == dirs_between(
            root@,
            path_parts(path@).skip(path_parts(root@).len() as int),
        ),
{
    let whole = parts_of(path);
    let head = parts_of(root);
    let ghost names = texts(whole@).skip(head@.len() as int);
    let mut out: Vec<String> = Vec::new();
    let mut k: usize = head.len();
    proof {
        assert(texts(head@).len() <= texts(whole@).len());
        assert(texts(out@) =~= dirs_between(root@, names).take(0));
    }
    while whole.len() - k > 1
        invariant
            head@.len() <= k,
            k <= whole@.len(),
            head@.len() <= whole@.len(),
            names == texts(whole@).skip(head@.len() as int),
            texts(out@) == dirs_between(root@, names).take(k - head@.len()),
            k - head@.len() <= dirs_between(root@, names).len(),
        decreases whole.len() - k,
    {
        let slice = vstd::slice::slice_subrange(whole.as_slice(), head.len(), k + 1);
        let tail = join(slice, "/");
        let dir = join_path(root, tail.as_str());
        proof {
            let n = k - head@.len();
            assert(texts(slice@) =~= names.take(n + 1));
            lemma_texts_push(out@, dir);
            assert(dirs_between(root@, names).take(n + 1) =~= dirs_between(root@, names).take(
                n,
            ).push(dir@));
        }
        out.push(dir);
        k += 1;
    }
    proof {
        let all = dirs_between(root@, names);
        assert(all.take(all.len() as int) =~= all);
        assert(k - head@.len() == all.len());
    }
    out
}

/// The directories on the way to a file: each of them must be no link.
pub fn ancestors_to_check(workspace_root: &str, canonical_root: &str, resolved: &str) -> (r: Result<
    Vec<String>,
    String,
>)
    ensures
        match r {
            Ok(dirs) => way_to(workspace_root@, canonical_root@, resolved@) == Ok::<
                Seq<Text>,
                Text,
            >(texts(dirs@)),
            Err(reason) => way_to(workspace_root@, canonical_root@, resolved@) == Err::<
                Seq<Text>,
                Text,
            >(reason@),
        },
{
    if lies_within(resolved, workspace_root) {
        return Ok(list_between(workspace_root, resolved));
    }
    if lies_within(resolved, canonical_root) {
        return Ok(list_between(canonical_root, resolved));
    }
    let mut text = "internal: resolved path ".to_owned();
    text.append(resolved);
    text.append(" not inside workspace ");
    text.append(workspace_root);
    Err(text)
}

/// What was found at a directory.
#[derive(Debug)]
pub enum AncestorSeen {
    Link,
    NoLink,
    Missing,
    Failed { error: String },
}

/// What one directory says about a read: go on, stop looking, or refuse.
pub open spec fn ancestor_verdict(path: Text, dir: Text, seen: AncestorSeen) -> Option<
    Result<(), Text>,
> {
    match seen {
        AncestorSeen::Link => Some(
            Err(
                "ancestor of '"@ + path + "' is a symlink ("@ + dir + "); refusing to follow"@,
            ),
        ),
        AncestorSeen::NoLink => None,
        AncestorSeen::Missing => Some(Ok(())),
        AncestorSeen::Failed { error } => Some(
            Err("failed to stat ancestor "@ + dir + ": "@ + error@),
        ),
    }
}

/// What the directories say about a read: the first that decides.
pub open spec fn ancestors_verdict(
    path: Text,
    dirs: Seq<Text>,
    seen: Seq<AncestorSeen>,
) -> Result<(), Text>
    decreases dirs.len(),
{
    if dirs.len() == 0 || seen.len() == 0 {
        Ok(())
    } else {
        match ancestor_verdict(path, dirs[0], seen[0]) {
            Some(verdict) => verdict,
            None => ancestors_verdict(path, dirs.drop_first(), seen.drop_first()),
        }
    }
}

/// Refuses a read if a directory on the way is a link.
pub fn reject_symlinked_ancestors(resolved: &str, dirs: &[String], seen: &[AncestorSeen]) -> (r:
    Result<(), String>)
    requires
        dirs@.len() == seen@.len(),
    ensures
        match r {
            Ok(_) => ancestors_verdict(resolved@, texts(dirs@), seen@) is Ok,
            Err(reason) => ancestors_verdict(resolved@, texts(dirs@), seen@) == Err::<(), Text>(
                reason@,
            ),
        },
{
    let ghost all = texts(dirs@);
    let mut i: usize = 0;
    proof {
        assert(all.skip(0) =~= all);
        assert(seen@.skip(0) =~= seen@);
    }
    while i < dirs.len()
        invariant
            i <= dirs.len(),
            dirs@.len() == seen@.len(),
            all == texts(dirs@),
            ancestors_verdict(resolved@, all, seen@) == ancestors_verdict(
                resolved@,
                all.skip(i as int),
                seen@.skip(i as int),
            ),
        decreases dirs.len() - i,
    {
        proof {
            assert(all.skip(i as int)[0] == dirs@[i as int]@);
            assert(all.skip(i as int).drop_first() =~= all.skip(i + 1));
            assert(seen@.skip(i as int).drop_first() =~= seen@.skip(i + 1));
        }
        match &seen[i] {
            AncestorSeen::Link => {
                let mut text = "ancestor of '".to_owned();
                text.append(resolved);
                text.append("' is a symlink (");
                text.append(dirs[i].as_str());
                text.append("); refusing to follow");
                return Err(text);
            },
            AncestorSeen::NoLink => {},
            AncestorSeen::Missing => {
                return Ok(());
            },
            AncestorSeen::Failed { error } => {
                let mut text = "failed to stat ancestor ".to_owned();
                text.append(dirs[i].as_str());
                text.append(": ");
                text.append(error.as_str());
                return Err(text);
            },
        }
        i += 1;
    }
    Ok(())
}

// ---------------------------------------------------------------------------
// Laws

/// Another session's task is never read.
pub proof fn foreign_tasks_are_never_read(
    tool: ReadTaskOutputTool,
    seen: SeenPaths,
    input: ReadInput,
    task: TaskRecord,
    step: ReadStep,
)
    requires
        tool.decides(seen, Some(input), Some(task), step),
        foreign(task, tool.session_key@),
    ensures
        step is Answer,
        !step->result@.success,
{
}

/// A file is read only if it is the one that was asked for, lies in the
/// workspace, and is recorded by the task. No upload and no profile file is read.
pub proof fn only_recorded_workspace_files_are_read(
    tool: ReadTaskOutputTool,
    seen: SeenPaths,
    input: ReadInput,
    task: TaskRecord,
    step: ReadStep,
)
    requires
        tool.decides(seen, Some(input), Some(task), step),
        step is File,
    ensures
        workspace_path(seen.asked) == Some(step->path@),
        recorded(seen.files@, step->path@),
        task.output_files@.len() > 0,
{
}

/// The way to a file is known only if the file lies in the workspace, by the name
/// that the tool or the system has for it.
pub proof fn files_outside_the_workspace_are_refused(root: Text, canonical: Text, path: Text)
    requires
        !within(path, root),
        !within(path, canonical),
    ensures
        way_to(root, canonical, path) is Err,
{
}

/// A read behind a link is refused: if every directory before it is no link,
/// the first link ends in an error.
pub proof fn a_link_on_the_way_is_refused(
    path: Text,
    dirs: Seq<Text>,
    seen: Seq<AncestorSeen>,
    k: int,
)
    requires
        dirs.len() == seen.len(),
        0 <= k < seen.len(),
        seen[k] is Link,
        forall|j: int| 0 <= j < k ==> (#[trigger] seen[j]) is NoLink,
    ensures
        ancestors_verdict(path, dirs, seen) is Err,
    decreases k,
{
    if k > 0 {
        assert(seen[0] is NoLink);
        let rest = seen.drop_first();
        assert(rest[k - 1] == seen[k]);
        assert forall|j: int| 0 <= j < k - 1 implies (#[trigger] rest[j]) is NoLink by {
            assert(rest[j] == seen[j + 1]);
        }
        a_link_on_the_way_is_refused(path, dirs.drop_first(), rest, k - 1);
    }
}

} // verus!
