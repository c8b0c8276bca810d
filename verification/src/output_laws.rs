//! What holds of every read of the output of a background task.
use vstd::prelude::*;

use crate::access::ToolPathScope;
use crate::paths::path_parts;
use crate::read_task_output::{
    ancestors_verdict, capped_text, direction_of, dirs_between, hits, part, AncestorSeen,
    ReadDirection, ReadInput, ReadMode, ReadStep, ReadTaskOutputTool, SeenPaths, TaskRecord,
    DEFAULT_GREP_MATCHES, DEFAULT_LINE_LIMIT, MAX_GREP_MATCHES, MAX_LINE_LIMIT, MAX_OUTPUT_BYTES,
    MAX_READ_BYTES,
};
use crate::text::{contains_text, decimal, joined, text_lines, Text};
use crate::widths::{byte_len, fits, fitting};

verus! {

/// `shown` is so many lines of a text, from the given one on, which is counted
/// from zero.
pub open spec fn shows(shown: Seq<Text>, text: Text, from: int, count: int) -> bool {
    &&& shown.len() == count
    &&& 0 <= from
    &&& from + count <= text_lines(text).len()
    &&& forall|k: int| 0 <= k < count ==> #[trigger] shown[k] == text_lines(text)[from + k]
}

/// What is given is so many lines of a text, from the given one on, with a line
/// break between neighbours.
pub open spec fn gives(given: Result<Text, Text>, text: Text, from: int, count: int) -> bool {
    exists|shown: Seq<Text>| #[trigger]
        shows(shown, text, from, count) && given == Ok::<Text, Text>(joined(shown, "\n"@))
}

/// A line range gives its lines, the first and the last included: of a range
/// that lies in the text as many lines as it spans, and the k-th of them is the
/// k-th line from its start on. A range that begins in the text and ends behind it
/// gives the lines up to the last, one that begins behind it gives nothing.
pub proof fn a_line_range_gives_its_lines(text: Text, start: usize, end: usize)
    requires
        1 <= start <= end,
        end - start < 500,
    ensures
        ({
            let n = text_lines(text).len();
            let given = part(text, ReadMode::LineRange { start, end });
            &&& end <= n ==> gives(given, text, start - 1, end - start + 1)
            &&& start <= n < end ==> gives(given, text, start - 1, n - start + 1)
            &&& n < start ==> given == Ok::<Text, Text>(Seq::empty())
        }),
{
    let all = text_lines(text);
    let n = all.len() as int;
    if start <= n {
        let to = if end <= n {
            end as int
        } else {
            n
        };
        let shown = all.subrange(start - 1, to);
        let given = crate::read_task_output::first(
            crate::read_task_output::after(all, (start - 1) as nat),
            (end - start + 1) as nat,
        );
        assert(given =~= shown);
        assert(shows(shown, text, start - 1, to - start + 1));
    }
}

/// A range that starts or ends before the first line, that ends before it starts,
/// or that spans more than five hundred lines is refused, and no other is.
pub proof fn only_proper_ranges_are_read(text: Text, start: usize, end: usize)
    ensures
        part(text, ReadMode::LineRange { start, end }) is Err <==> start == 0 || end == 0 || end
            < start || end - start + 1 > 500,
{
}

/// The number that is asked for, but at least one and at most so many.
pub open spec fn bounded(n: usize, most: int) -> int {
    if n == 0 {
        1
    } else if n > most {
        most
    } else {
        n as int
    }
}

/// The head of a text is its first lines and its tail its last, as many as are
/// asked for, but at least one and at most five hundred, and all of a text that has
/// no more.
pub proof fn head_and_tail_give_the_ends(text: Text, lines: usize)
    ensures
        ({
            let n = text_lines(text).len() as int;
            let count = if bounded(lines, 500) < n {
                bounded(lines, 500)
            } else {
                n
            };
            &&& gives(part(text, ReadMode::Head { lines }), text, 0, count)
            &&& gives(part(text, ReadMode::Tail { lines }), text, n - count, count)
        }),
{
    let all = text_lines(text);
    let n = all.len() as int;
    let asked = bounded(lines, 500);
    let count = if asked < n {
        asked
    } else {
        n
    };
    let head = all.subrange(0, count);
    assert(crate::read_task_output::first(all, asked as nat) =~= head);
    assert(shows(head, text, 0, count));
    assert(part(text, ReadMode::Head { lines }) == Ok::<Text, Text>(joined(head, "\n"@)));
    let from = n - count;
    let tail = all.subrange(from, n);
    assert(crate::read_task_output::last(all, asked as nat) =~= tail);
    assert(shows(tail, text, from, count));
    assert(part(text, ReadMode::Tail { lines }) == Ok::<Text, Text>(joined(tail, "\n"@)));
    assert(gives(part(text, ReadMode::Head { lines }), text, 0, count));
    assert(gives(part(text, ReadMode::Tail { lines }), text, from, count));
}

/// `places` are lines of a text that hold a pattern, from the top on, and no such
/// line before the last of them is missing.
pub open spec fn hit_places(places: Seq<int>, all: Seq<Text>, pattern: Text) -> bool {
    &&& forall|k: int|
        0 <= k < places.len() ==> 0 <= #[trigger] places[k] < all.len() && contains_text(
            all[places[k]],
            pattern,
        )
    &&& forall|k: int, m: int|
        0 <= k < m < places.len() ==> #[trigger] places[k] < #[trigger] places[m]
    &&& forall|i: int|
        0 <= i < all.len() && contains_text(#[trigger] all[i], pattern) && (exists|k: int|
            0 <= k < places.len() && i <= #[trigger] places[k]) ==> places.contains(i)
}

/// Where the hits of a list are.
proof fn lemma_hits(all: Seq<Text>, pattern: Text) -> (places: Seq<int>)
    ensures
        places.len() == hits(all, pattern).len(),
        forall|k: int|
            0 <= k < places.len() ==> 0 <= #[trigger] places[k] < all.len() && contains_text(
                all[places[k]],
                pattern,
            ) && hits(all, pattern)[k] == decimal((places[k] + 1) as nat) + ":"@ + all[places[k]],
        forall|k: int, m: int|
            0 <= k < m < places.len() ==> #[trigger] places[k] < #[trigger] places[m],
        forall|i: int|
            0 <= i < all.len() && contains_text(#[trigger] all[i], pattern) ==> places.contains(i),
    decreases all.len(),
{
    if all.len() == 0 {
        Seq::empty()
    } else {
        let rest = all.drop_last();
        let n = all.len() - 1;
        let before = lemma_hits(rest, pattern);
        assert(forall|i: int| 0 <= i < rest.len() ==> #[trigger] rest[i] == all[i]);
        let places = if contains_text(all.last(), pattern) {
            before.push(n)
        } else {
            before
        };
        let found = hits(all, pattern);
        let earlier = hits(rest, pattern);
        assert forall|k: int| 0 <= k < places.len() implies 0 <= #[trigger] places[k] < all.len()
            && contains_text(all[places[k]], pattern) && found[k] == decimal(
            (places[k] + 1) as nat,
        ) + ":"@ + all[places[k]] by {
            if k < before.len() {
                assert(places[k] == before[k]);
                assert(rest[before[k]] == all[before[k]]);
                assert(found[k] == earlier[k]);
            } else {
                assert(all.last() == all[n]);
            }
        }
        assert forall|k: int, m: int| 0 <= k < m < places.len() implies #[trigger] places[k]
            < #[trigger] places[m] by {
            if m < before.len() {
                assert(before[k] < before[m]);
            } else {
                assert(before[k] < rest.len());
            }
        }
        assert forall|i: int|
            0 <= i < all.len() && contains_text(#[trigger] all[i], pattern) implies places.contains(
            i,
        ) by {
            if i < n {
                assert(rest[i] == all[i]);
                assert(before.contains(i));
                assert(places[before.index_of(i)] == i);
            } else {
                assert(places[before.len() as int] == i);
            }
        }
        places
    }
}

/// A search gives the lines that hold the pattern, each behind its number, from
/// the top on: all of them, or the first ones if there are more than are asked
/// for, which are at least one and at most a hundred. If no line holds it, the
/// answer says so; an empty pattern is refused.
pub proof fn a_search_gives_the_matching_lines(text: Text, pattern: String, max_matches: usize)
    ensures
        ({
            let all = text_lines(text);
            let given = part(text, ReadMode::Grep { pattern, max_matches });
            let none = forall|i: int|
                0 <= i < all.len() ==> !contains_text(#[trigger] all[i], pattern@);
            &&& given is Err <==> pattern@.len() == 0
            &&& pattern@.len() > 0 && none ==> "(no matches for "@.is_prefix_of(given->Ok_0)
            &&& pattern@.len() > 0 && !none ==> exists|places: Seq<int>, shown: Seq<Text>|
                {
                    &&& #[trigger] hit_places(places, all, pattern@)
                    &&& given == Ok::<Text, Text>(#[trigger] joined(shown, "\n"@))
                    &&& 0 < places.len() <= bounded(max_matches, 100)
                    &&& shown.len() == places.len()
                    &&& forall|k: int|
                        0 <= k < shown.len() ==> #[trigger] shown[k] == decimal(
                            (places[k] + 1) as nat,
                        ) + ":"@ + all[places[k]]
                    &&& places.len() < bounded(max_matches, 100) ==> forall|i: int|
                        0 <= i < all.len() && contains_text(#[trigger] all[i], pattern@)
                            ==> places.contains(i)
                }
        }),
{
    let all = text_lines(text);
    let most = bounded(max_matches, 100);
    let every = lemma_hits(all, pattern@);
    let found = hits(all, pattern@);
    let none = forall|i: int| 0 <= i < all.len() ==> !contains_text(#[trigger] all[i], pattern@);
    if pattern@.len() > 0 {
        if none {
            if every.len() > 0 {
                assert(contains_text(all[every[0]], pattern@));
            }
            let shown = crate::text::debug_form(pattern@);
            let said = "(no matches for "@ + shown + ")"@;
            assert("(no matches for "@ =~= said.subrange(0, "(no matches for "@.len() as int));
        } else {
            let i = choose|i: int| 0 <= i < all.len() && contains_text(#[trigger] all[i], pattern@);
            assert(every.contains(i));
            let count = if most < every.len() {
                most
            } else {
                every.len() as int
            };
            let places = every.take(count);
            let shown = found.take(count);
            assert(crate::read_task_output::first(found, most as nat) =~= shown);
            assert(hit_places(places, all, pattern@)) by {
                assert forall|k: int| 0 <= k < places.len() implies 0 <= #[trigger] places[k]
                    < all.len() && contains_text(all[places[k]], pattern@) by {
                    assert(places[k] == every[k]);
                }
                assert forall|k: int, m: int| 0 <= k < m < places.len() implies #[trigger] places[k]
                    < #[trigger] places[m] by {
                    assert(every[k] < every[m]);
                }
                assert forall|i: int|
                    0 <= i < all.len() && contains_text(#[trigger] all[i], pattern@) && (exists|
                        k: int,
                    |
                        0 <= k < places.len() && i <= #[trigger] places[k]) implies places.contains(
                    i,
                ) by {
                    let k = choose|k: int| 0 <= k < places.len() && i <= #[trigger] places[k];
                    assert(every.contains(i));
                    let m = every.index_of(i);
                    assert(places[k] == every[k]);
                    if m > k {
                        assert(every[k] < every[m]);
                    }
                    assert(places[m] == i);
                }
            }
            assert forall|k: int| 0 <= k < shown.len() implies #[trigger] shown[k] == decimal(
                (places[k] + 1) as nat,
            ) + ":"@ + all[places[k]] by {
                assert(places[k] == every[k]);
                assert(shown[k] == found[k]);
            }
            if places.len() < most {
                assert(places =~= every);
            }
            assert(part(text, ReadMode::Grep { pattern, max_matches }) == Ok::<Text, Text>(
                joined(shown, "\n"@),
            ));
        }
    }
}

/// What fits is returned as it is. Of what does not fit the longest beginning is
/// returned that takes at most 4096 bytes, with a mark behind it.
pub proof fn long_output_is_cut_and_marked(text: Text)
    ensures
        byte_len(text) <= 4096 ==> capped_text(text) == text,
        byte_len(text) > 4096 ==> exists|n: int|
            {
                &&& 0 <= n < text.len()
                &&& #[trigger] text.take(n) + "\n…[truncated]"@ == capped_text(text)
                &&& byte_len(text.take(n)) <= 4096
                &&& byte_len(text.take(n + 1)) > 4096
            },
{
    if byte_len(text) > 4096 {
        crate::read_task_output::lemma_some_fit(text, 4096);
        let n = choose|n: int| fits(text, n, 4096);
        if n == text.len() {
            assert(text.take(n) =~= text);
        }
        assert(fitting(text, 4096) == text.take(n));
    }
}

/// Only the tail is read from the end.
pub proof fn the_tail_is_read_from_the_end(mode: ReadMode)
    ensures
        direction_of(mode) == ReadDirection::FromEnd <==> mode is Tail,
{
}

/// A call for a task that is not known, or that another session owns, is answered
/// with a failure, and nothing is read.
pub proof fn only_own_tasks_are_read(
    tool: ReadTaskOutputTool,
    seen: SeenPaths,
    input: ReadInput,
    task: Option<TaskRecord>,
    step: ReadStep,
)
    requires
        tool.decides(seen, Some(input), task, step),
        task matches Some(known) ==> (known.session_key matches Some(owner) && owner@
            != tool.session_key@),
    ensures
        step matches ReadStep::Answer { result } && !result@.success && contains_text(
            result@.output,
            input.task_handle@,
        ),
{
    let handle = input.task_handle@;
    crate::text_laws::lemma_held("task_handle '"@, handle, "' not found"@);
    crate::text_laws::lemma_held("task_handle '"@, handle, "' belongs to a different session"@);
}

/// The captured output of an own task, or of one that nobody owns, is read in the
/// way that was asked for, under the names of the task.
pub proof fn the_output_of_the_task_is_read(
    tool: ReadTaskOutputTool,
    seen: SeenPaths,
    input: ReadInput,
    task: TaskRecord,
    step: ReadStep,
)
    requires
        tool.decides(seen, Some(input), Some(task), step),
        task.session_key matches Some(owner) ==> owner@ == tool.session_key@,
        !(input.mode is File),
    ensures
        step matches ReadStep::Log { key, direction, mode } && mode == input.mode && (direction
            == ReadDirection::FromEnd <==> input.mode is Tail) && (key is Some
            <==> tool.output_router is Some) && (key matches Some(names) ==> names.task_id@
            == task.id@ && task.tool_call_id@.is_suffix_of(names.session_id@)
            && "agent:"@.is_prefix_of(names.session_id@)),
{
    crate::text::lemma_two_parts("agent:"@, task.tool_call_id@);
}

/// A file is read exactly if it is one that the task recorded, the path that was
/// asked for leads to it, and it lies in the workspace; then it is read in the way
/// that was asked for.
pub proof fn recorded_files_are_read(
    tool: ReadTaskOutputTool,
    seen: SeenPaths,
    input: ReadInput,
    task: TaskRecord,
    step: ReadStep,
    path: String,
    mode: Box<ReadMode>,
)
    requires
        tool.decides(seen, Some(input), Some(task), step),
        task.session_key matches Some(owner) ==> owner@ == tool.session_key@,
        input.mode == (ReadMode::File { path, mode }),
    ensures
        step is File || step is Failed,
        step is File <==> {
            &&& !(*mode is File)
            &&& task.output_files@.len() > 0
            &&& seen.asked matches Ok(asked) && asked.scope == ToolPathScope::Workspace && exists|
                i: int,
            |
                0 <= i < seen.files@.len() && (#[trigger] seen.files@[i] matches Ok(file)
                    && file.scope == ToolPathScope::Workspace && path_parts(file.absolute@)
                    == path_parts(asked.absolute@))
        },
        step matches ReadStep::File { path: found, direction, mode: way } ==> {
            &&& seen.asked matches Ok(asked) && found@ == asked.absolute@
            &&& way == *mode
            &&& direction == ReadDirection::FromEnd <==> *mode is Tail
        },
{
    if let Ok(asked) = seen.asked {
        if asked.scope == ToolPathScope::Workspace {
            let found = asked.absolute@;
            assert(crate::read_task_output::recorded(seen.files@, found) <==> exists|i: int|
                0 <= i < seen.files@.len() && (#[trigger] seen.files@[i] matches Ok(file)
                    && file.scope == ToolPathScope::Workspace && path_parts(file.absolute@)
                    == path_parts(asked.absolute@))) by {
                if crate::read_task_output::recorded(seen.files@, found) {
                    let i = choose|i: int|
                        0 <= i < seen.files@.len() && crate::read_task_output::leads_to(
                            #[trigger] seen.files@[i],
                            found,
                        );
                    assert(seen.files@[i] is Ok);
                }
                if exists|i: int|
                    0 <= i < seen.files@.len() && (#[trigger] seen.files@[i] matches Ok(file)
                        && file.scope == ToolPathScope::Workspace && path_parts(file.absolute@)
                        == path_parts(asked.absolute@)) {
                    let i = choose|i: int|
                        0 <= i < seen.files@.len() && (#[trigger] seen.files@[i] matches Ok(file)
                            && file.scope == ToolPathScope::Workspace && path_parts(file.absolute@)
                            == path_parts(asked.absolute@));
                    assert(crate::read_task_output::leads_to(seen.files@[i], found));
                }
            }
        }
    }
}

/// A read goes through only if no directory on the way is a link, as far as there
/// are directories: it is refused exactly if the first thing on the way that is not
/// a plain directory is a link or cannot be looked at.
pub proof fn reads_follow_no_links(
    path: Text,
    dirs: Seq<Text>,
    seen: Seq<AncestorSeen>,
    k: int,
)
    requires
        dirs.len() == seen.len(),
        0 <= k <= seen.len(),
        forall|j: int| 0 <= j < k ==> (#[trigger] seen[j]) is NoLink,
        k < seen.len() ==> !(seen[k] is NoLink),
    ensures
        ancestors_verdict(path, dirs, seen) is Err <==> k < seen.len() && (seen[k] is Link || seen[k]
            is Failed),
    decreases k,
{
    if k > 0 {
        assert(seen[0] is NoLink);
        let rest = seen.drop_first();
        assert forall|j: int| 0 <= j < k - 1 implies (#[trigger] rest[j]) is NoLink by {
            assert(rest[j] == seen[j + 1]);
        }
        if k < seen.len() {
            assert(rest[k - 1] == seen[k]);
        }
        reads_follow_no_links(path, dirs.drop_first(), rest, k - 1);
    }
}

/// The directories that are looked at are those between the root and the file: one
/// for each part of the way but the last, each with one part more.
pub proof fn every_directory_on_the_way_is_looked_at(root: Text, names: Seq<Text>, k: int)
    requires
        names.len() > 0,
        0 <= k < names.len() - 1,
    ensures
        dirs_between(root, names).len() == names.len() - 1,
        dirs_between(root, names)[k] == crate::paths::path_joined(
            root,
            joined(names.take(k + 1), "/"@),
        ),
{
}

/// The limits of a read: at most 4096 bytes are shown, of at most a mebibyte that is
/// read; at most 500 lines or 100 matches are given, and 50 or 20 where no number is
/// asked for.
pub proof fn limits_are_as_promised()
    ensures
        MAX_OUTPUT_BYTES == 4096,
        MAX_READ_BYTES == 1048576,
        MAX_LINE_LIMIT == 500,
        MAX_GREP_MATCHES == 100,
        DEFAULT_LINE_LIMIT == 50,
        DEFAULT_GREP_MATCHES == 20,
{
}

} // verus!
