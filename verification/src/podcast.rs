//! Podcast scripts that stand inline in a task description.
use vstd::prelude::*;
use vstd::string::*;

use crate::text::{chars_of, join, joined, lemma_texts_push, texts, trim, trimmed, Text};

verus! {

/// Where the matches of a regular expression lie in a text, in characters:
/// what `regex::Regex::find_iter` gives, or nothing if `regex::Regex::new`
/// rejects the pattern.
pub uninterp spec fn regex_spans(pattern: Text, text: Text) -> Option<Seq<(int, int)>>;

/// Spans inside a text of `len` characters, in order and apart.
pub open spec fn spans_fit(spans: Seq<(int, int)>, len: int) -> bool {
    &&& forall|i: int| 0 <= i < spans.len() ==> 0 <= (#[trigger] spans[i]).0 <= spans[i].1 <= len
    &&& forall|i: int, j: int|
        0 <= i < j < spans.len() ==> (#[trigger] spans[i]).1 <= (#[trigger] spans[j]).0
}

pub open spec fn span_views(spans: Seq<(usize, usize)>) -> Seq<(int, int)> {
    spans.map_values(|s: (usize, usize)| (s.0 as int, s.1 as int))
}

/// `regex::Regex::new` and then `find_iter`: the spans of the successive
/// matches, which lie in the text, in order, without overlapping. The byte
/// offsets of the matches are turned into character positions. `None` if the
/// pattern is no regular expression.
#[verifier::external_body]
fn find_spans(pattern: &str, text: &str) -> (r: Option<Vec<(usize, usize)>>)
    ensures
        match r {
            Some(spans) => regex_spans(pattern@, text@) == Some(span_views(spans@)),
            None => regex_spans(pattern@, text@) is None,
        },
        r matches Some(spans) ==> spans_fit(span_views(spans@), text@.len() as int),
{
    let re = regex::Regex::new(pattern).ok()?;
    let at = |byte: usize| text[..byte].chars().count();
    Some(re.find_iter(text).map(|m| (at(m.start()), at(m.end()))).collect())
}

/// The lines of a script begin with a header such as `[Name - voice, style]`.
pub const SCRIPT_HEADER: &'static str = r"\[[^\]\r\n]+?\s+-\s*[^\],\r\n]+,\s*[^\]\r\n]+\]";

/// Line breaks as blanks.
pub open spec fn on_one_line(s: Text) -> Text {
    s.map_values(|c: char| if c == '\n' { ' ' } else { c })
}

/// What is said after a header: up to the next header, without white space around it.
pub open spec fn spoken(text: Text, spans: Seq<(int, int)>, i: int) -> Text {
    let end = if i + 1 < spans.len() {
        spans[i + 1].0
    } else {
        text.len() as int
    };
    trimmed(text.subrange(spans[i].1, end))
}

/// A line of the script: the header, and what is said.
pub open spec fn script_line(text: Text, spans: Seq<(int, int)>, i: int) -> Text {
    trimmed(text.subrange(spans[i].0, spans[i].1)) + " "@ + trimmed(on_one_line(spoken(text, spans, i)))
}

/// The lines of the first `n` headers after which something is said.
pub open spec fn script_lines(text: Text, spans: Seq<(int, int)>, n: int) -> Seq<Text>
    decreases n,
{
    if n <= 0 {
        Seq::empty()
    } else if spoken(text, spans, n - 1).len() == 0 {
        script_lines(text, spans, n - 1)
    } else {
        script_lines(text, spans, n - 1).push(script_line(text, spans, n - 1))
    }
}

/// The script made of at least two lines, if there are so many.
pub open spec fn script_of(text: Text, spans: Seq<(int, int)>) -> Option<Text> {
    let lines = script_lines(text, spans, spans.len() as int);
    if spans.len() < 2 || lines.len() < 2 {
        None
    } else {
        Some(joined(lines, "\n"@))
    }
}

/// The script that a task description holds.
pub open spec fn inline_script(text: Text) -> Option<Text> {
    match regex_spans(SCRIPT_HEADER@, text) {
        Some(spans) => script_of(text, spans),
        None => None,
    }
}

fn one_line(s: &str) -> (out: String)
    ensures
        out@ == on_one_line(s@),
{
    let cs = chars_of(s);
    let mut out = String::new();
    let mut i: usize = 0;
    while i < cs.len()
        invariant
            i <= cs.len(),
            cs@ == s@,
            out@ == on_one_line(s@).take(i as int),
        decreases cs.len() - i,
    {
        let c: char = if cs[i] == '\n' {
            ' '
        } else {
            cs[i]
        };
        out.push(c);
        proof {
            assert(on_one_line(s@).take(i + 1) =~= on_one_line(s@).take(i as int).push(c));
        }
        i += 1;
    }
    proof {
        assert(on_one_line(s@).take(s@.len() as int) =~= on_one_line(s@));
    }
    out
}

/// The script whose headers lie at the given spans of a text.
pub fn script_from_spans(text: &str, spans: &[(usize, usize)]) -> (r: Option<String>)
    requires
        spans_fit(span_views(spans@), text@.len() as int),
    ensures
        crate::text::opt_text(r) == script_of(text@, span_views(spans@)),
{
    if spans.len() < 2 {
        return None;
    }
    let ghost all = span_views(spans@);
    let n = text.unicode_len();
    let mut lines: Vec<String> = Vec::new();
    let mut i: usize = 0;
    proof {
        assert(texts(lines@) =~= Seq::empty());
    }
    while i < spans.len()
        invariant
            i <= spans.len(),
            all == span_views(spans@),
            n == text@.len(),
            spans_fit(all, text@.len() as int),
            texts(lines@) == script_lines(text@, all, i as int),
        decreases spans.len() - i,
    {
        proof {
            assert(all[i as int] == (spans@[i as int].0 as int, spans@[i as int].1 as int));
            if i + 1 < spans@.len() {
                assert(all[i + 1] == (spans@[i + 1].0 as int, spans@[i + 1].1 as int));
            }
        }
        let end: usize = if i + 1 < spans.len() {
            spans[i + 1].0
        } else {
            n
        };
        let dialogue = trim(text.substring_char(spans[i].1, end));
        if !dialogue.as_str().is_empty() {
            let mut line = trim(text.substring_char(spans[i].0, spans[i].1));
            let flat = one_line(dialogue.as_str());
            let said = trim(flat.as_str());
            line.append(" ");
            line.append(said.as_str());
            proof {
                lemma_texts_push(lines@, line);
            }
            lines.push(line);
        }
        i += 1;
    }
    if lines.len() >= 2 {
        Some(join(lines.as_slice(), "\n"))
    } else {
        None
    }
}

/// The script that a task description holds, if it holds one of at least two
/// lines.
pub fn extract_inline_podcast_script(task_desc: &str) -> (r: Option<String>)
    ensures
        crate::text::opt_text(r) == inline_script(task_desc@),
{
    match find_spans(SCRIPT_HEADER, task_desc) {
        Some(spans) => script_from_spans(task_desc, spans.as_slice()),
        None => None,
    }
}

} // verus!
