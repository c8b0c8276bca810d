//! The tool that sends a file to a chat.
use vstd::prelude::*;

use crate::access::{target_of, Resolution};
use crate::context::{plain_result, HostHandle, ToolResult};
use crate::json::{members_view, put, str_value, Json, JsonMember, JsonView};
use crate::paths::{
    absolute, file_name, is_absolute, join_path, lies_within, name_of, path_joined, segments,
    segments_of, within,
};
use crate::text::{copy_opt, opt_text, or_text, same, starts_with, texts, Text};

verus! {

/// The tool that sends a file to a chat.
#[derive(Debug)]
pub struct SendFileTool {
    /// Where messages go.
    pub out_tx: HostHandle,
    pub default_channel: String,
    pub default_chat_id: String,
    pub default_topic: Option<String>,
    /// Relative paths are seen from here, and files must lie beneath it or
    /// beneath another allowed directory.
    pub base_dir: Option<String>,
    pub extra_allowed_dirs: Vec<String>,
}

/// The arguments of a call.
#[derive(Debug)]
pub struct SendInput {
    pub file_path: String,
    pub caption: Option<String>,
    pub channel: Option<String>,
    pub chat_id: Option<String>,
    pub tool_call_id: Option<String>,
    pub topic: Option<String>,
}

/// What the file system says about the file to send. The directories are given
/// as the system names them.
#[derive(Debug)]
pub struct FileFacts {
    /// The path as the system names it; none if it cannot be followed.
    pub canonical: Option<String>,
    pub base: String,
    pub tmp: String,
    pub uploads: String,
    pub extra: Vec<String>,
    pub exists: bool,
    pub is_file: bool,
}

/// A message to a chat.
#[derive(Debug)]
pub struct OutboundMessage {
    pub channel: String,
    pub chat_id: String,
    pub content: String,
    pub reply_to: Option<String>,
    pub media: Vec<String>,
    pub metadata: Json,
}

#[verifier::ext_equal]
pub struct OutboundView {
    pub channel: Text,
    pub chat_id: Text,
    pub content: Text,
    pub reply_to: Option<Text>,
    pub media: Seq<Text>,
    pub metadata: JsonView,
}

impl View for OutboundMessage {
    type V = OutboundView;

    open spec fn view(&self) -> OutboundView {
        OutboundView {
            channel: self.channel@,
            chat_id: self.chat_id@,
            content: self.content@,
            reply_to: opt_text(self.reply_to),
            media: texts(self.media@),
            metadata: self.metadata@,
        }
    }
}

/// What a call comes to.
#[derive(Debug)]
pub enum SendStep {
    Failed { reason: String },
    Answer { result: ToolResult },
    /// The message is sent, and if that works `result` is the answer.
    Send { message: OutboundMessage, result: ToolResult },
}

/// A path in the directory of old slides beneath a directory of slides.
pub open spec fn stale_slides(path: Text) -> bool {
    exists|i: int, j: int|
        0 <= i < j < segments(path).len() && #[trigger] segments(path)[i] == "slides"@
            && #[trigger] segments(path)[j] == "output_old"@
}

pub fn is_stale_slides_backup(path: &str) -> (r: bool)
    ensures
        r == stale_slides(path@),
{
    let names = segments_of(path);
    let ghost all = segments(path@);
    let mut saw = false;
    let mut i: usize = 0;
    while i < names.len()
        invariant
            i <= names.len(),
            all == texts(names@),
            all == segments(path@),
            saw <==> exists|a: int| 0 <= a < i && #[trigger] all[a] == "slides"@,
            forall|a: int, b: int|
                0 <= a < b < i ==> !(#[trigger] all[a] == "slides"@ && #[trigger] all[b]
                    == "output_old"@),
        decreases names.len() - i,
    {
        proof {
            assert(all[i as int] == names@[i as int]@);
            lemma_distinct_names();
        }
        if same(names[i].as_str(), "slides") {
            saw = true;
        } else if saw && same(names[i].as_str(), "output_old") {
            proof {
                let a = choose|a: int| 0 <= a < i && #[trigger] all[a] == "slides"@;
                assert(segments(path@)[a] == "slides"@);
                assert(segments(path@)[i as int] == "output_old"@);
            }
            return true;
        }
        i += 1;
    }
    false
}

proof fn lemma_distinct_names()
    ensures
        "slides"@ != "output_old"@,
{
    reveal_strlit("slides");
    reveal_strlit("output_old");
    assert("slides"@.len() != "output_old"@.len());
}

/// A path in the shape of a handle for an upload or a profile file.
pub open spec fn handle_like(path: Text) -> bool {
    "up/"@.is_prefix_of(path) || "pf/"@.is_prefix_of(path)
}

/// The path that is sent for the path that was given. `target` is what the
/// resolver gives: it counts for handles and absolute paths alone.
pub open spec fn outbound(base: Option<Text>, target: Option<Text>, path: Text) -> Text {
    match base {
        None => path,
        Some(base) => if handle_like(path) || absolute(path) {
            match target {
                Some(target) => target,
                None => path,
            }
        } else {
            path_joined(base, path)
        },
    }
}

/// Some directory of a list holds the path.
pub open spec fn in_some(path: Text, dirs: Seq<Text>) -> bool {
    exists|i: int| 0 <= i < dirs.len() && within(path, #[trigger] dirs[i])
}

/// The file may be sent as far as its place is concerned.
pub open spec fn allowed_place(path: Text, facts: FileFacts) -> bool {
    ||| within(path, facts.base@)
    ||| within(path, facts.tmp@)
    ||| within(path, facts.uploads@)
    ||| in_some(path, texts(facts.extra@))
}

fn is_in_some(path: &str, dirs: &[String]) -> (r: bool)
    ensures
        r == in_some(path@, texts(dirs@)),
{
    let ghost all = texts(dirs@);
    let mut i: usize = 0;
    while i < dirs.len()
        invariant
            i <= dirs.len(),
            all == texts(dirs@),
            forall|j: int| 0 <= j < i ==> !within(path@, #[trigger] all[j]),
        decreases dirs.len() - i,
    {
        proof {
            assert(all[i as int] == dirs@[i as int]@);
        }
        if lies_within(path, dirs[i].as_str()) {
            return true;
        }
        i += 1;
    }
    false
}

fn text_or(value: &Option<String>, other: &str) -> (r: String)
    ensures
        r@ == or_text(opt_text(*value), other@),
{
    match value {
        Some(text) => text.clone(),
        None => other.to_owned(),
    }
}

/// The details of a message. The mark of a companion comes from the caller alone.
pub open spec fn message_details(
    tool_call_id: Option<Text>,
    topic: Option<Text>,
    companion: bool,
) -> Seq<(Text, JsonView)> {
    (if companion {
        seq![("spawn_complete_companion"@, JsonView::Bool(true))]
    } else {
        Seq::empty()
    }) + (match tool_call_id {
        Some(id) => seq![("tool_call_id"@, JsonView::Str(id))],
        None => Seq::empty(),
    }) + (match topic {
        Some(topic) => seq![("topic"@, JsonView::Str(topic))],
        None => Seq::empty(),
    })
}

impl SendFileTool {
    /// The path that is sent for a path.
    pub open spec fn outbound_path(&self, seen: Resolution, path: Text) -> Text {
        outbound(opt_text(self.base_dir), target_of(seen), path)
    }

    /// Why a file is not sent, if it is not.
    pub open spec fn refusal(&self, path: Text, facts: FileFacts, given: Text) -> Option<Text> {
        if self.base_dir is Some && facts.canonical is None {
            Some("Error: Cannot resolve file path: "@ + given)
        } else if self.base_dir is Some && !allowed_place(facts.canonical->0@, facts) {
            Some("Error: File path is outside the allowed directory: "@ + given)
        } else if !facts.exists {
            Some("Error: File not found: "@ + given)
        } else if !facts.is_file {
            Some("Error: Not a file: "@ + given)
        } else if stale_slides(path) {
            Some("Error: Refusing to send stale slides backup artifact: "@ + given)
        } else {
            None
        }
    }

    pub open spec fn channel_for(&self, input: SendInput) -> Text {
        or_text(opt_text(input.channel), self.default_channel@)
    }

    pub open spec fn chat_for(&self, input: SendInput) -> Text {
        or_text(opt_text(input.chat_id), self.default_chat_id@)
    }

    pub open spec fn topic_for(&self, input: SendInput) -> Option<Text> {
        match opt_text(input.topic) {
            Some(topic) => Some(topic),
            None => opt_text(self.default_topic),
        }
    }

    /// The message that carries a file.
    pub open spec fn message_for(&self, input: SendInput, path: Text, companion: bool) -> OutboundView {
        OutboundView {
            channel: self.channel_for(input),
            chat_id: self.chat_for(input),
            content: or_text(opt_text(input.caption), Seq::empty()),
            reply_to: None,
            media: seq![path],
            metadata: JsonView::Object(
                message_details(opt_text(input.tool_call_id), self.topic_for(input), companion),
            ),
        }
    }

    /// What a call comes to.
    pub open spec fn decides(
        &self,
        input: Option<SendInput>,
        seen: Resolution,
        facts: FileFacts,
        companion: bool,
        step: SendStep,
    ) -> bool {
        match input {
            None => step matches SendStep::Failed { reason } && reason@
                == "invalid send_file tool input"@,
            Some(input) => {
                let path = self.outbound_path(seen, input.file_path@);
                let refused = self.refusal(path, facts, input.file_path@);
                if refused is Some {
                    step matches SendStep::Answer { result } && result@ == plain_result(
                        false,
                        refused->0,
                    )
                } else if self.channel_for(input).len() == 0 || self.chat_for(input).len() == 0 {
                    step matches SendStep::Answer { result } && result@ == plain_result(
                        false,
                        "Error: No target channel/chat specified."@,
                    )
                } else {
                    &&& step matches SendStep::Send { message, result }
                    &&& message@ == self.message_for(input, path, companion)
                    &&& result@ == plain_result(
                        true,
                        "File '"@ + or_text(name_of(path), input.file_path@) + "' sent to "@
                            + self.channel_for(input) + ":"@ + self.chat_for(input),
                    )
                }
            },
        }
    }

    pub fn new(out_tx: HostHandle) -> (r: SendFileTool)
        ensures
            r.out_tx == out_tx,
            r.default_channel@ == Seq::<char>::empty(),
            r.default_chat_id@ == Seq::<char>::empty(),
            r.default_topic is None,
            r.base_dir is None,
            r.extra_allowed_dirs@.len() == 0,
    {
        SendFileTool::with_context(out_tx, String::new(), String::new())
    }

    /// The tool with a chat to send to.
    pub fn with_context(out_tx: HostHandle, channel: String, chat_id: String) -> (r: SendFileTool)
        ensures
            r.out_tx == out_tx,
            r.default_channel == channel,
            r.default_chat_id == chat_id,
            r.default_topic is None,
            r.base_dir is None,
            r.extra_allowed_dirs@.len() == 0,
    {
        SendFileTool {
            out_tx,
            default_channel: channel,
            default_chat_id: chat_id,
            default_topic: None,
            base_dir: None,
            extra_allowed_dirs: Vec::new(),
        }
    }

    pub fn with_topic(self, topic: Option<String>) -> (r: SendFileTool)
        ensures
            r == (SendFileTool { default_topic: topic, ..self }),
    {
        SendFileTool { default_topic: topic, ..self }
    }

    pub fn with_base_dir(self, dir: String) -> (r: SendFileTool)
        ensures
            r == (SendFileTool { base_dir: Some(dir), ..self }),
    {
        SendFileTool { base_dir: Some(dir), ..self }
    }

    pub fn with_extra_allowed_dir(self, dir: String) -> (r: SendFileTool)
        ensures
            r == (SendFileTool { extra_allowed_dirs: r.extra_allowed_dirs, ..self }),
            r.extra_allowed_dirs@ == self.extra_allowed_dirs@.push(dir),
    {
        let mut r = self;
        r.extra_allowed_dirs.push(dir);
        r
    }

    /// Changes the chat that files are sent to by default.
    pub fn set_context(&mut self, channel: &str, chat_id: &str)
        ensures
            final(self).default_channel@ == channel@,
            final(self).default_chat_id@ == chat_id@,
            *final(self) == (SendFileTool {
                default_channel: final(self).default_channel,
                default_chat_id: final(self).default_chat_id,
                ..*old(self)
            }),
    {
        self.default_channel = channel.to_owned();
        self.default_chat_id = chat_id.to_owned();
    }

    /// The path that is sent for a path, before the file system is asked about
    /// it. `seen` is what the resolver gives for the path.
    pub fn path_to_send(&self, seen: &Resolution, file_path: &str) -> (r: String)
        ensures
            r@ == self.outbound_path(*seen, file_path@),
    {
        match &self.base_dir {
            None => file_path.to_owned(),
            Some(base) => {
                if starts_with(file_path, "up/") || starts_with(file_path, "pf/") || is_absolute(
                    file_path,
                ) {
                    match seen {
                        Ok(found) => found.absolute.clone(),
                        Err(_) => file_path.to_owned(),
                    }
                } else {
                    join_path(base.as_str(), file_path)
                }
            },
        }
    }

    fn refuse(&self, path: &str, facts: &FileFacts, given: &str) -> (r: Option<String>)
        ensures
            opt_text(r) == self.refusal(path@, *facts, given@),
    {
        if self.base_dir.is_some() {
            match &facts.canonical {
                None => {
                    return Some(about("Error: Cannot resolve file path: ", given));
                },
                Some(canonical) => {
                    let c = canonical.as_str();
                    let allowed = lies_within(c, facts.base.as_str()) || lies_within(
                        c,
                        facts.tmp.as_str(),
                    ) || lies_within(c, facts.uploads.as_str()) || is_in_some(
                        c,
                        facts.extra.as_slice(),
                    );
                    if !allowed {
                        return Some(
                            about("Error: File path is outside the allowed directory: ", given),
                        );
                    }
                },
            }
        }
        if !facts.exists {
            return Some(about("Error: File not found: ", given));
        }
        if !facts.is_file {
            return Some(about("Error: Not a file: ", given));
        }
        if is_stale_slides_backup(path) {
            return Some(about("Error: Refusing to send stale slides backup artifact: ", given));
        }
        None
    }

    fn details(&self, input: &SendInput, companion: bool) -> (r: Json)
        ensures
            r@ == JsonView::Object(
                message_details(opt_text(input.tool_call_id), self.topic_for(*input), companion),
            ),
    {
        let mut members: Vec<JsonMember> = Vec::new();
        if companion {
            put(&mut members, "spawn_complete_companion", Json::Bool(true));
        }
        if let Some(id) = &input.tool_call_id {
            put(&mut members, "tool_call_id", str_value(id.as_str()));
        }
        let topic = match &input.topic {
            Some(topic) => Some(topic.clone()),
            None => copy_opt(&self.default_topic),
        };
        if let Some(topic) = &topic {
            put(&mut members, "topic", str_value(topic.as_str()));
        }
        proof {
            assert(members_view(members@) =~= message_details(
                opt_text(input.tool_call_id),
                self.topic_for(*input),
                companion,
            ));
        }
        Json::Object(members)
    }

    /// Decides what a call comes to. `input` is missing if the arguments could
    /// not be read; `seen` is what the resolver gives for the path in it;
    /// `facts` are those of the path that `path_to_send` gives;
    /// `companion` marks a file that goes with a completed background task.
    pub fn execute(
        &self,
        input: Option<SendInput>,
        seen: &Resolution,
        facts: &FileFacts,
        companion: bool,
    ) -> (r: SendStep)
        ensures
            self.decides(input, *seen, *facts, companion, r),
    {
        let input = match input {
            Some(input) => input,
            None => {
                return SendStep::Failed { reason: "invalid send_file tool input".to_owned() };
            },
        };
        let path = self.path_to_send(seen, input.file_path.as_str());
        if let Some(text) = self.refuse(path.as_str(), facts, input.file_path.as_str()) {
            return SendStep::Answer { result: ToolResult::plain(false, text) };
        }
        let channel = text_or(&input.channel, self.default_channel.as_str());
        let chat_id = text_or(&input.chat_id, self.default_chat_id.as_str());
        if channel.as_str().is_empty() || chat_id.as_str().is_empty() {
            return SendStep::Answer {
                result: ToolResult::plain(
                    false,
                    "Error: No target channel/chat specified.".to_owned(),
                ),
            };
        }
        let name = match file_name(path.as_str()) {
            Some(name) => name,
            None => input.file_path.clone(),
        };
        let mut text = "File '".to_owned();
        text.append(name.as_str());
        text.append("' sent to ");
        text.append(channel.as_str());
        text.append(":");
        text.append(chat_id.as_str());
        let metadata = self.details(&input, companion);
        let content = match &input.caption {
            Some(caption) => caption.clone(),
            None => String::new(),
        };
        let mut media: Vec<String> = Vec::new();
        let ghost sent = path@;
        media.push(path);
        let message = OutboundMessage {
            channel,
            chat_id,
            content,
            reply_to: None,
            media,
            metadata,
        };
        proof {
            assert(message@ =~= self.message_for(input, sent, companion));
        }
        SendStep::Send { message, result: ToolResult::plain(true, text) }
    }
}

fn about(what: &str, given: &str) -> (r: String)
    ensures
        r@ == what@ + given@,
{
    let mut r = what.to_owned();
    r.append(given);
    r
}

/// What is said when a message could not be sent.
pub fn send_failure(reason: &str) -> (r: String)
    ensures
        r@ == "failed to send file message: "@ + reason@,
{
    about("failed to send file message: ", reason)
}

/// What is sent lies in an allowed directory, is a file, and is no stale backup.
pub proof fn only_allowed_files_are_sent(
    tool: SendFileTool,
    input: Option<SendInput>,
    seen: Resolution,
    facts: FileFacts,
    companion: bool,
    step: SendStep,
)
    requires
        tool.decides(input, seen, facts, companion, step),
        step is Send,
    ensures
        tool.base_dir is Some ==> facts.canonical is Some && allowed_place(
            facts.canonical->0@,
            facts,
        ),
        facts.exists,
        facts.is_file,
        step->message@.media.len() == 1,
        !stale_slides(step->message@.media[0]),
        step->message@.channel.len() > 0,
        step->message@.chat_id.len() > 0,
{
}

/// A relative path is seen from the base directory and nowhere else: no upload
/// of the same name takes its place, even if the resolver gives one.
pub proof fn relative_paths_are_seen_from_the_base(
    tool: SendFileTool,
    seen: Resolution,
    path: Text,
)
    requires
        tool.base_dir is Some,
        !absolute(path),
        !handle_like(path),
    ensures
        tool.outbound_path(seen, path) == path_joined(tool.base_dir->0@, path),
{
}

/// A message is marked as a companion exactly when the caller says so, whatever
/// the arguments hold.
pub proof fn the_companion_mark_is_the_callers(
    tool_call_id: Option<Text>,
    topic: Option<Text>,
    companion: bool,
)
    ensures
        message_details(tool_call_id, topic, companion).contains(
            ("spawn_complete_companion"@, JsonView::Bool(true)),
        ) <==> companion,
{
    let all = message_details(tool_call_id, topic, companion);
    let mark = ("spawn_complete_companion"@, JsonView::Bool(true));
    if companion {
        assert(all[0] == mark);
    } else if all.contains(mark) {
        let i = all.index_of(mark);
        assert(all[i].1 == JsonView::Bool(true));
    }
}

} // verus!
