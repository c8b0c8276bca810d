//! What holds of every file that is sent.
use vstd::prelude::*;

use crate::access::{io_answer, pdf_head, IoFailure, Resolution};
use crate::json::JsonView;
use crate::paths::{absolute, name_of, path_joined, segments, within};
use crate::send_file::{
    allowed_place, message_details, stale_slides, FileFacts, SendFileTool, SendInput, SendStep,
};
use crate::text::{contains_text, opt_text, texts, Text};
use crate::text_laws::lemma_held;

verus! {

/// The path that a call sends: without a base directory what was given; with one
/// what the resolver gives for an absolute path or a handle, and everything else
/// seen from the base directory.
pub proof fn paths_are_seen_from_the_base(tool: SendFileTool, seen: Resolution, path: Text)
    ensures
        tool.base_dir is None ==> tool.outbound_path(seen, path) == path,
        tool.base_dir matches Some(base) ==> {
            let special = "up/"@.is_prefix_of(path) || "pf/"@.is_prefix_of(path) || (path.len() > 0
                && path[0] == '/');
            &&& !special ==> tool.outbound_path(seen, path) == path_joined(base@, path)
            &&& special ==> (seen matches Ok(found) ==> tool.outbound_path(seen, path)
                == found.absolute@)
            &&& special && seen is Err ==> tool.outbound_path(seen, path) == path
        },
{
}

/// A file lies in a place from which it may be sent.
pub open spec fn may_be_sent_from(path: Text, facts: FileFacts) -> bool {
    ||| within(path, facts.base@)
    ||| within(path, facts.tmp@)
    ||| within(path, facts.uploads@)
    ||| exists|i: int| 0 <= i < facts.extra@.len() && within(path, (#[trigger] facts.extra@[i])@)
}

/// A file is sent exactly if it can be read from an allowed place, is there and is
/// a file, is no old set of slides, and there is a chat to send it to.
pub proof fn files_are_sent_from_allowed_places(
    tool: SendFileTool,
    input: SendInput,
    seen: Resolution,
    facts: FileFacts,
    companion: bool,
    step: SendStep,
)
    requires
        tool.decides(Some(input), seen, facts, companion, step),
    ensures
        step is Send || step is Answer,
        step is Send <==> {
            &&& tool.base_dir is Some ==> (facts.canonical matches Some(place) && may_be_sent_from(
                place@,
                facts,
            ))
            &&& facts.exists
            &&& facts.is_file
            &&& !stale_slides(tool.outbound_path(seen, input.file_path@))
            &&& match input.channel {
                Some(channel) => channel@.len() > 0,
                None => tool.default_channel@.len() > 0,
            }
            &&& match input.chat_id {
                Some(chat) => chat@.len() > 0,
                None => tool.default_chat_id@.len() > 0,
            }
        },
        step matches SendStep::Answer { result } ==> !result@.success
            && result@.files_to_send.len() == 0 && "Error: "@.is_prefix_of(result@.output),
{
    reveal_strlit("Error: ");
    reveal_strlit("Error: Cannot resolve file path: ");
    reveal_strlit("Error: File path is outside the allowed directory: ");
    reveal_strlit("Error: File not found: ");
    reveal_strlit("Error: Not a file: ");
    reveal_strlit("Error: Refusing to send stale slides backup artifact: ");
    reveal_strlit("Error: No target channel/chat specified.");
    if let Some(place) = facts.canonical {
        let dirs = texts(facts.extra@);
        assert(crate::send_file::in_some(place@, dirs) <==> exists|i: int|
            0 <= i < facts.extra@.len() && within(place@, (#[trigger] facts.extra@[i])@)) by {
            if crate::send_file::in_some(place@, dirs) {
                let i = choose|i: int| 0 <= i < dirs.len() && within(place@, #[trigger] dirs[i]);
                assert(dirs[i] == facts.extra@[i]@);
            }
            if exists|i: int|
                0 <= i < facts.extra@.len() && within(place@, (#[trigger] facts.extra@[i])@) {
                let i = choose|i: int|
                    0 <= i < facts.extra@.len() && within(place@, (#[trigger] facts.extra@[i])@);
                assert(dirs[i] == facts.extra@[i]@);
            }
        }
        assert(allowed_place(place@, facts) == may_be_sent_from(place@, facts));
    }
    if let SendStep::Answer { result } = step {
        let said = result@.output;
        assert("Error: "@ =~= said.subrange(0, 7));
    }
}

/// The message carries the one file, with the caption as its text, to the chat that
/// the call names or else to the tool's own.
pub proof fn files_go_to_the_chat_that_was_named(
    tool: SendFileTool,
    input: SendInput,
    seen: Resolution,
    facts: FileFacts,
    companion: bool,
    step: SendStep,
)
    requires
        tool.decides(Some(input), seen, facts, companion, step),
        step is Send,
    ensures
        ({
            let message = step->message@;
            let path = tool.outbound_path(seen, input.file_path@);
            &&& message.media.len() == 1 && message.media[0] == path
            &&& input.channel matches Some(channel) ==> message.channel == channel@
            &&& input.channel is None ==> message.channel == tool.default_channel@
            &&& input.chat_id matches Some(chat) ==> message.chat_id == chat@
            &&& input.chat_id is None ==> message.chat_id == tool.default_chat_id@
            &&& input.caption matches Some(caption) ==> message.content == caption@
            &&& input.caption is None ==> message.content.len() == 0
            &&& message.reply_to is None
            &&& step->Send_result@.success
            &&& contains_text(step->Send_result@.output, message.channel)
            &&& message.chat_id.is_suffix_of(step->Send_result@.output)
            &&& name_of(path) matches Some(name) ==> contains_text(step->Send_result@.output, name)
        }),
{
    let message = step->message@;
    let path = tool.outbound_path(seen, input.file_path@);
    let name = crate::text::or_text(name_of(path), input.file_path@);
    let said = step->Send_result@.output;
    let head = "File '"@ + name + "' sent to "@;
    assert(said =~= head + message.channel + (":"@ + message.chat_id));
    lemma_held(head, message.channel, ":"@ + message.chat_id);
    let tail = "' sent to "@ + message.channel + ":"@ + message.chat_id;
    assert(said =~= "File '"@ + name + tail);
    lemma_held("File '"@, name, tail);
    crate::text::lemma_two_parts(head + message.channel + ":"@, message.chat_id);
}

/// The details of a message hold the call that it answers and its topic, which the
/// call names or the tool has, each exactly if there is one, and the mark of a
/// companion exactly if the caller asks for it. They hold nothing else.
pub proof fn messages_carry_their_details(
    tool: SendFileTool,
    input: SendInput,
    companion: bool,
    path: Text,
)
    ensures
        ({
            let message = tool.message_for(input, path, companion);
            let details = message.metadata->Object_0;
            &&& message.metadata is Object
            &&& details.contains(("spawn_complete_companion"@, JsonView::Bool(true))) <==> companion
            &&& input.tool_call_id matches Some(id) ==> details.contains(
                ("tool_call_id"@, JsonView::Str(id@)),
            )
            &&& input.topic matches Some(topic) ==> details.contains(
                ("topic"@, JsonView::Str(topic@)),
            )
            &&& input.topic is None ==> (tool.default_topic matches Some(topic)
                ==> details.contains(("topic"@, JsonView::Str(topic@))))
            &&& details.len() == (if companion {
                1int
            } else {
                0
            }) + (if input.tool_call_id is Some {
                1int
            } else {
                0
            }) + (if input.topic is Some || tool.default_topic is Some {
                1int
            } else {
                0
            })
        }),
{
    let topic = tool.topic_for(input);
    let call = opt_text(input.tool_call_id);
    let details = message_details(call, topic, companion);
    crate::send_file::the_companion_mark_is_the_callers(call, topic, companion);
    if let Some(id) = call {
        let k = if companion {
            1int
        } else {
            0
        };
        assert(details[k] == ("tool_call_id"@, JsonView::Str(id)));
    }
    if let Some(topic) = topic {
        assert(details[details.len() - 1] == ("topic"@, JsonView::Str(topic)));
    }
}

/// Slides that were put aside are told by their path: somewhere behind a directory
/// of slides there is one of old output.
pub proof fn old_slides_are_told_by_their_path(path: Text, i: int, j: int)
    requires
        0 <= i < j < segments(path).len(),
        segments(path)[i] == "slides"@,
        segments(path)[j] == "output_old"@,
    ensures
        stale_slides(path),
{
    assert(segments(path)[i] == "slides"@ && segments(path)[j] == "output_old"@);
}

/// Paths without either directory are no old slides.
pub proof fn other_files_are_no_old_slides(path: Text)
    requires
        !segments(path).contains("slides"@) || !segments(path).contains("output_old"@),
    ensures
        !stale_slides(path),
{
    if stale_slides(path) {
        let (i, j) = choose|i: int, j: int|
            0 <= i < j < segments(path).len() && #[trigger] segments(path)[i] == "slides"@
                && #[trigger] segments(path)[j] == "output_old"@;
        assert(segments(path).contains(segments(path)[i]));
        assert(segments(path).contains(segments(path)[j]));
    }
}

/// A failed access is always answered with a failure. A link is told as such, a
/// missing file by its path, and anything else by its path and the reason.
pub proof fn failed_accesses_are_told(failure: IoFailure, path: Text, link_code: Option<i32>)
    ensures
        ({
            let answer = io_answer(failure, path, link_code);
            let link = match link_code {
                Some(number) => failure.code == Some(number),
                None => failure.permission_denied,
            };
            &&& !answer.success
            &&& link ==> answer.output == "Symlinks are not allowed"@
            &&& !link ==> contains_text(answer.output, path)
            &&& !link && failure.not_found ==> "File not found: "@.is_prefix_of(answer.output)
            &&& !link && !failure.not_found ==> failure.text@.is_suffix_of(answer.output)
        }),
{
    let none = Seq::<char>::empty();
    let missing = "File not found: "@ + path;
    assert(missing =~= "File not found: "@ + path + none);
    lemma_held("File not found: "@, path, none);
    crate::text::lemma_two_parts("File not found: "@, path);
    let other = "Failed to access "@ + path + ": "@ + failure.text@;
    assert(other =~= "Failed to access "@ + path + (": "@ + failure.text@));
    lemma_held("Failed to access "@, path, ": "@ + failure.text@);
    crate::text::lemma_two_parts("Failed to access "@ + path + ": "@, failure.text@);
}

/// A PDF file is told by its first five bytes, `%PDF-`, and by nothing else.
pub proof fn pdf_files_are_told_by_their_head(bytes: Seq<u8>)
    ensures
        pdf_head(bytes) <==> seq![0x25u8, 0x50u8, 0x44u8, 0x46u8, 0x2du8].is_prefix_of(bytes),
{
    let head = seq![0x25u8, 0x50u8, 0x44u8, 0x46u8, 0x2du8];
    if bytes.len() >= 5 {
        let start = bytes.subrange(0, 5);
        if pdf_head(bytes) {
            assert(head =~= start);
        }
        if head.is_prefix_of(bytes) {
            assert(start[0] == head[0] && start[1] == head[1] && start[2] == head[2] && start[3]
                == head[3] && start[4] == head[4]);
        }
    }
}

} // verus!
