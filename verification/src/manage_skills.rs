//! The tool that lists, installs, updates, removes and searches skills.
use vstd::prelude::*;

use crate::arguments::{list_member, list_of, text_member, text_of};
use crate::context::{plain_result, ToolResult, ToolResultView};
use crate::json::{quote, quoted, Json};
use crate::paths::{file_name, name_of};
use crate::sorting::{is_less, less_is_irreflexive, less_is_total, less_is_transitive, text_less};
use crate::text::{
    chars_of, contains, contains_text, copy_opt, decimal, in_list, join, joined, lemma_texts_push,
    lowercase, opt_text, render, same, split, split_text, starts_with, texts, to_lowercase, trim,
    trim_class, trimmed, trimmed_both, CharClass, Text,
};
use crate::versions::{newer, skill_version, version_in, version_newer};

verus! {

/// The tool, with the directory that holds the skills.
#[derive(Debug)]
pub struct ManageSkillsTool {
    pub skills_dir: String,
}

impl ManageSkillsTool {
    pub fn new(skills_dir: String) -> (r: ManageSkillsTool)
        ensures
            r.skills_dir == skills_dir,
    {
        ManageSkillsTool { skills_dir }
    }
}

/// The arguments of a call.
#[derive(Debug)]
pub struct SkillRequest {
    pub action: String,
    pub repo: Option<String>,
    pub name: Option<String>,
    pub query: Option<String>,
    pub force: bool,
    pub branch: Option<String>,
}

#[verifier::ext_equal]
pub struct SkillRequestView {
    pub action: Text,
    pub repo: Option<Text>,
    pub name: Option<Text>,
    pub query: Option<Text>,
    pub force: bool,
    pub branch: Option<Text>,
}

impl View for SkillRequest {
    type V = SkillRequestView;

    open spec fn view(&self) -> SkillRequestView {
        SkillRequestView {
            action: self.action@,
            repo: opt_text(self.repo),
            name: opt_text(self.name),
            query: opt_text(self.query),
            force: self.force,
            branch: opt_text(self.branch),
        }
    }
}

/// What a call asks for.
#[derive(Debug, Clone, Copy, PartialEq, Eq, Structural)]
pub enum SkillAction {
    List,
    Install,
    Remove,
    Search,
    Update,
}

/// What an action's name asks for.
pub open spec fn action_named(name: Text) -> Option<SkillAction> {
    if name == "list"@ {
        Some(SkillAction::List)
    } else if name == "install"@ {
        Some(SkillAction::Install)
    } else if name == "remove"@ {
        Some(SkillAction::Remove)
    } else if name == "search"@ {
        Some(SkillAction::Search)
    } else if name == "update"@ {
        Some(SkillAction::Update)
    } else {
        None
    }
}

impl ManageSkillsTool {
    /// What a call asks for, or the answer if that is nothing known.
    pub fn execute(&self, input: &SkillRequest) -> (r: Result<SkillAction, ToolResult>)
        ensures
            match r {
                Ok(action) => action_named(input.action@) == Some(action),
                Err(answer) => action_named(input.action@) is None && answer@ == plain_result(
                    false,
                    "Unknown action: "@ + input.action@
                        + ". Use list, install, update, remove, or search."@,
                ),
            },
    {
        let name = input.action.as_str();
        if same(name, "list") {
            Ok(SkillAction::List)
        } else if same(name, "install") {
            Ok(SkillAction::Install)
        } else if same(name, "remove") {
            Ok(SkillAction::Remove)
        } else if same(name, "search") {
            Ok(SkillAction::Search)
        } else if same(name, "update") {
            Ok(SkillAction::Update)
        } else {
            let mut text = "Unknown action: ".to_owned();
            text.append(name);
            text.append(". Use list, install, update, remove, or search.");
            Err(ToolResult::plain(false, text))
        }
    }
}

// ---------------------------------------------------------------------------
// Reading JSON files

/// The text under a key of a JSON object that is given as text: nothing if the
/// text is no JSON, and else the text under the key if there is one.
pub uninterp spec fn json_field(text: Seq<char>, key: Seq<char>) -> Option<Option<Seq<char>>>;

/// One line of an indented JSON object: a key with a text, or with nothing.
pub open spec fn flat_line(key: Text, value: Option<Text>) -> Text {
    quoted(key) + ": "@ + (match value {
        Some(text) => quoted(text),
        None => "null"@,
    })
}

/// An indented JSON object with a text, or nothing, under each key.
pub open spec fn flat_text(members: Seq<(Text, Option<Text>)>) -> Text {
    "{\n  "@ + joined(members.map_values(|m: (Text, Option<Text>)| flat_line(m.0, m.1)), ",\n  "@)
        + "\n}"@
}

/// There are keys, and none occurs twice.
pub open spec fn flat_keys(members: Seq<(Text, Option<Text>)>) -> bool {
    &&& members.len() > 0
    &&& forall|i: int, j: int|
        0 <= i < j < members.len() ==> (#[trigger] members[i]).0 != (#[trigger] members[j]).0
}

/// What stands under a key, if there is a text.
pub open spec fn text_under(members: Seq<(Text, Option<Text>)>, key: Text) -> Option<Text>
    decreases members.len(),
{
    if members.len() == 0 {
        None
    } else if members.last().0 == key {
        members.last().1
    } else {
        text_under(members.drop_last(), key)
    }
}

/// The text under a key, as `serde_json::from_str` and `Value::get` find it.
/// Reading an indented object of texts gives back what was written. Which other
/// texts are JSON is left unsaid.
#[verifier::external_body]
fn field_in(text: &str, key: &str) -> (r: Option<Option<String>>)
    ensures
        match r {
            Some(value) => json_field(text@, key@) == Some(opt_text(value)),
            None => json_field(text@, key@) is None,
        },
        forall|members: Seq<(Text, Option<Text>)>|
            flat_keys(members) && text@ == #[trigger] flat_text(members) ==> {
                &&& r is Some
                &&& opt_text(r->0) == text_under(members, key@)
            },
{
    let value = serde_json::from_str::<serde_json::Value>(text).ok()?;
    Some(value.get(key).and_then(|v| v.as_str()).map(|s| s.to_string()))
}

/// The length of the array under a key of a JSON object that is given as text,
/// if there is one.
pub uninterp spec fn json_list_len(text: Seq<char>, key: Seq<char>) -> Option<usize>;

/// The length of the array under a key, as `serde_json::from_str` and
/// `Value::as_array` find it. Which texts are JSON is left unsaid.
#[verifier::external_body]
fn list_len_in(text: &str, key: &str) -> (r: Option<usize>)
    ensures
        r == json_list_len(text@, key@),
{
    let value = serde_json::from_str::<serde_json::Value>(text).ok()?;
    value.get(key).and_then(|v| v.as_array()).map(|a| a.len())
}

// ---------------------------------------------------------------------------
// Listing

/// A directory beneath the directory of skills.
#[derive(Debug)]
pub struct SkillDir {
    pub name: String,
    /// There is a description, `SKILL.md`.
    pub described: bool,
    /// The text of the description, if it can be read.
    pub skill_md: Option<String>,
    /// The text of the manifest, if it can be read.
    pub manifest: Option<String>,
}

#[verifier::ext_equal]
pub struct SkillDirView {
    pub name: Text,
    pub described: bool,
    pub skill_md: Option<Text>,
    pub manifest: Option<Text>,
}

impl View for SkillDir {
    type V = SkillDirView;

    open spec fn view(&self) -> SkillDirView {
        SkillDirView {
            name: self.name@,
            described: self.described,
            skill_md: opt_text(self.skill_md),
            manifest: opt_text(self.manifest),
        }
    }
}

pub open spec fn dir_views(dirs: Seq<SkillDir>) -> Seq<SkillDirView> {
    Seq::new(dirs.len(), |i: int| dirs[i]@)
}

/// How many tools a manifest names, if it names any.
pub open spec fn tool_count(manifest: Option<Text>) -> Option<usize> {
    match manifest {
        Some(text) => match json_list_len(text, "tools"@) {
            Some(n) => if n > 0 {
                Some(n)
            } else {
                None
            },
            None => None,
        },
        None => None,
    }
}

/// The line of a skill in the list, given how many tools it has.
pub open spec fn skill_line_with(name: Text, version: Option<Text>, tools: Option<usize>) -> Text {
    name + (match version {
        Some(version) => "  v"@ + version,
        None => Seq::empty(),
    }) + (match tools {
        Some(n) => "  ["@ + decimal(n as nat) + " tool(s)]"@,
        None => Seq::empty(),
    })
}

/// The line of a skill in the list.
pub open spec fn skill_line(dir: SkillDirView) -> Text {
    skill_line_with(dir.name, version_in(dir.skill_md), tool_count(dir.manifest))
}

/// The line of a skill in the list, given how many tools it has.
pub fn line_with(name: &str, version: &Option<String>, tools: Option<usize>) -> (r: String)
    ensures
        r@ == skill_line_with(name@, opt_text(*version), tools),
{
    let mut r = name.to_owned();
    let ghost start = r@;
    if let Some(version) = version {
        let mut part = "  v".to_owned();
        part.append(version.as_str());
        r.append(part.as_str());
    }
    proof {
        assert(start + Seq::<char>::empty() =~= start);
    }
    let ghost middle = r@;
    proof {
        assert(middle + Seq::<char>::empty() =~= middle);
    }
    if let Some(n) = tools {
        let mut part = "  [".to_owned();
        let count = render(n as u64);
        part.append(count.as_str());
        part.append(" tool(s)]");
        r.append(part.as_str());
    }
    r
}

fn line_of(dir: &SkillDir) -> (r: String)
    ensures
        r@ == skill_line(dir@),
{
    let version = skill_version(&dir.skill_md);
    let tools = match &dir.manifest {
        Some(text) => match list_len_in(text.as_str(), "tools") {
            Some(n) => if n > 0 {
                Some(n)
            } else {
                None
            },
            None => None,
        },
        None => None,
    };
    line_with(dir.name.as_str(), &version, tools)
}

/// A directory put into a list that is ordered by name, behind those that do not
/// come after it.
pub open spec fn placed(list: Seq<SkillDirView>, dir: SkillDirView) -> Seq<SkillDirView>
    decreases list.len(),
{
    if list.len() == 0 || !text_less(dir.name, list.last().name) {
        list.push(dir)
    } else {
        placed(list.drop_last(), dir).push(list.last())
    }
}

/// The directories with a description, ordered by name.
pub open spec fn by_name(dirs: Seq<SkillDirView>) -> Seq<SkillDirView>
    decreases dirs.len(),
{
    if dirs.len() == 0 {
        Seq::empty()
    } else if dirs.last().described {
        placed(by_name(dirs.drop_last()), dirs.last())
    } else {
        by_name(dirs.drop_last())
    }
}

/// The lines of the list: those of the described directories, by name.
pub open spec fn listing_lines(dirs: Seq<SkillDirView>) -> Seq<Text> {
    by_name(dirs).map_values(|dir: SkillDirView| skill_line(dir))
}

pub open spec fn listing_text(lines: Seq<Text>) -> Text {
    if lines.len() == 0 {
        "No skills installed."@
    } else {
        "Installed skills ("@ + decimal(lines.len()) + "):\n"@ + joined(lines, "\n"@)
    }
}

proof fn lemma_placed(list: Seq<SkillDirView>, dir: SkillDirView, at: int)
    requires
        0 <= at <= list.len(),
        forall|j: int| at <= j < list.len() ==> text_less(dir.name, (#[trigger] list[j]).name),
        at > 0 ==> !text_less(dir.name, list[at - 1].name),
    ensures
        placed(list, dir) == list.insert(at, dir),
    decreases list.len(),
{
    if at == list.len() {
        assert(list.insert(at, dir) =~= list.push(dir));
    } else {
        assert(text_less(dir.name, list[list.len() - 1].name));
        let rest = list.drop_last();
        assert forall|j: int| at <= j < rest.len() implies text_less(
            dir.name,
            (#[trigger] rest[j]).name,
        ) by {
            assert(rest[j] == list[j]);
        }
        lemma_placed(rest, dir, at);
        assert(rest.insert(at, dir).push(list.last()) =~= list.insert(at, dir));
    }
}

/// The lines of the list.
fn lines_by_name(dirs: &[SkillDir]) -> (out: Vec<String>)
    ensures
        texts(out@) == listing_lines(dir_views(dirs@)),
{
    let ghost views = dir_views(dirs@);
    let ghost told = |dir: SkillDirView| skill_line(dir);
    let ghost named = |dir: SkillDirView| dir.name;
    let ghost mut list: Seq<SkillDirView> = Seq::empty();
    let mut names: Vec<String> = Vec::new();
    let mut out: Vec<String> = Vec::new();
    let mut i: usize = 0;
    proof {
        assert(views.take(0) =~= Seq::empty());
        assert(texts(names@) =~= list.map_values(named));
        assert(texts(out@) =~= list.map_values(told));
    }
    while i < dirs.len()
        invariant
            i <= dirs.len(),
            views == dir_views(dirs@),
            told == (|dir: SkillDirView| skill_line(dir)),
            named == (|dir: SkillDirView| dir.name),
            list == by_name(views.take(i as int)),
            texts(names@) == list.map_values(named),
            texts(out@) == list.map_values(told),
        decreases dirs.len() - i,
    {
        let ghost dir = views[i as int];
        proof {
            assert(views.take(i + 1).drop_last() =~= views.take(i as int));
            assert(texts(names@).len() == list.len());
            assert(texts(out@).len() == list.len());
        }
        if dirs[i].described {
            let mut at: usize = names.len();
            while at > 0 && is_less(dirs[i].name.as_str(), names[at - 1].as_str())
                invariant
                    i < dirs.len(),
                    at <= names.len(),
                    names@.len() == list.len(),
                    dir == dirs@[i as int]@,
                    named == (|dir: SkillDirView| dir.name),
                    texts(names@) == list.map_values(named),
                    forall|j: int| at <= j < list.len() ==> text_less(dir.name, (#[trigger] list[j]).name),
                decreases at,
            {
                proof {
                    assert(texts(names@)[at - 1] == list[at - 1].name);
                }
                at -= 1;
            }
            proof {
                if at > 0 {
                    assert(texts(names@)[at - 1] == list[at - 1].name);
                }
                lemma_placed(list, dir, at as int);
            }
            let name = dirs[i].name.clone();
            let line = line_of(&dirs[i]);
            let ghost names_before = names@;
            let ghost out_before = out@;
            names.insert(at, name);
            out.insert(at, line);
            proof {
                let longer = list.insert(at as int, dir);
                assert(texts(names@) =~= texts(names_before).insert(at as int, dir.name));
                assert(texts(names@) =~= longer.map_values(named));
                assert(texts(out@) =~= texts(out_before).insert(at as int, skill_line(dir)));
                assert(texts(out@) =~= longer.map_values(told));
                list = longer;
            }
        }
        i += 1;
    }
    proof {
        assert(views.take(views.len() as int) =~= views);
    }
    out
}

/// Lists the skills. `dirs` is missing if there is no directory of skills.
pub fn do_list(dirs: Option<Vec<SkillDir>>) -> (r: ToolResult)
    ensures
        r@ == plain_result(
            true,
            listing_text(
                match dirs {
                    Some(list) => listing_lines(dir_views(list@)),
                    None => Seq::empty(),
                },
            ),
        ),
{
    let dirs = match dirs {
        Some(list) => list,
        None => {
            return ToolResult::plain(true, "No skills installed.".to_owned());
        },
    };
    let out = lines_by_name(dirs.as_slice());
    if out.len() == 0 {
        return ToolResult::plain(true, "No skills installed.".to_owned());
    }
    let mut text = "Installed skills (".to_owned();
    let count = render(out.len() as u64);
    text.append(count.as_str());
    text.append("):\n");
    let body = join(out.as_slice(), "\n");
    text.append(body.as_str());
    ToolResult::plain(true, text)
}

proof fn lemma_placed_in_order(list: Seq<SkillDirView>, dir: SkillDirView)
    requires
        never_falls(list),
    ensures
        never_falls(placed(list, dir)),
        placed(list, dir).to_multiset() == list.to_multiset().insert(dir),
        forall|j: int|
            0 <= j < placed(list, dir).len() ==> (#[trigger] placed(list, dir)[j]) == dir
                || list.contains(placed(list, dir)[j]),
    decreases list.len(),
{
    broadcast use vstd::seq_lib::group_to_multiset_ensures;

    let out = placed(list, dir);
    if list.len() == 0 || !text_less(dir.name, list.last().name) {
        assert forall|i: int, j: int| 0 <= i < j < out.len() implies !text_less(
            (#[trigger] out[j]).name,
            (#[trigger] out[i]).name,
        ) by {
            if j == list.len() {
                let last = list[list.len() - 1];
                if text_less(dir.name, list[i].name) {
                    if i < list.len() - 1 {
                        assert(!text_less(last.name, list[i].name));
                    }
                    less_is_total(list[i].name, last.name);
                    if text_less(list[i].name, last.name) {
                        less_is_transitive(dir.name, list[i].name, last.name);
                    }
                }
            }
        }
        assert forall|j: int| 0 <= j < out.len() implies (#[trigger] out[j]) == dir || list.contains(
            out[j],
        ) by {
            if j < list.len() {
                assert(out[j] == list[j]);
            }
        }
    } else {
        let rest = list.drop_last();
        let last = list.last();
        assert(rest.push(last) =~= list);
        assert(never_falls(rest)) by {
            assert forall|i: int, j: int| 0 <= i < j < rest.len() implies !text_less(
                (#[trigger] rest[j]).name,
                (#[trigger] rest[i]).name,
            ) by {
                assert(!text_less(list[j].name, list[i].name));
            }
        }
        lemma_placed_in_order(rest, dir);
        let before = placed(rest, dir);
        assert(out == before.push(last));
        assert(out.to_multiset() =~= list.to_multiset().insert(dir));
        assert forall|i: int, j: int| 0 <= i < j < out.len() implies !text_less(
            (#[trigger] out[j]).name,
            (#[trigger] out[i]).name,
        ) by {
            if j == before.len() {
                assert(before[i] == dir || rest.contains(before[i]));
                if before[i] == dir {
                    if text_less(last.name, dir.name) {
                        less_is_transitive(dir.name, last.name, dir.name);
                        less_is_irreflexive(dir.name);
                    }
                } else {
                    let k = rest.index_of(before[i]);
                    assert(list[k] == before[i]);
                    assert(!text_less(list[list.len() - 1].name, list[k].name));
                }
            } else {
                assert(out[i] == before[i] && out[j] == before[j]);
            }
        }
        assert forall|j: int| 0 <= j < out.len() implies (#[trigger] out[j]) == dir || list.contains(
            out[j],
        ) by {
            if j < before.len() {
                assert(out[j] == before[j]);
                if before[j] != dir {
                    let k = rest.index_of(before[j]);
                    assert(list[k] == before[j]);
                }
            } else {
                assert(list[list.len() - 1] == out[j]);
            }
        }
    }
}

/// No name stands before one that it comes after.
pub open spec fn never_falls(list: Seq<SkillDirView>) -> bool {
    forall|i: int, j: int|
        0 <= i < j < list.len() ==> !text_less((#[trigger] list[j]).name, (#[trigger] list[i]).name)
}

/// The skills that are listed are the described ones, each as often as it is
/// there, in the order of their names.
pub proof fn skills_are_listed_by_name(dirs: Seq<SkillDirView>)
    ensures
        never_falls(by_name(dirs)),
        by_name(dirs).to_multiset() == dirs.filter(|dir: SkillDirView| dir.described).to_multiset(),
    decreases dirs.len(),
{
    broadcast use vstd::seq_lib::group_to_multiset_ensures;

    let pred = |dir: SkillDirView| dir.described;
    if dirs.len() > 0 {
        let rest = dirs.drop_last();
        skills_are_listed_by_name(rest);
        assert(rest.push(dirs.last()) =~= dirs);
        rest.lemma_filter_push(dirs.last(), pred);
        if dirs.last().described {
            lemma_placed_in_order(by_name(rest), dirs.last());
        }
    } else {
        assert(dirs.filter(pred) =~= dirs) by {
            reveal(Seq::filter);
        }
        assert(by_name(dirs) =~= dirs);
    }
}

// ---------------------------------------------------------------------------
// Removing

/// A name that stays in the directory of skills.
pub open spec fn plain_name(name: Text) -> bool {
    &&& !name.contains('/')
    &&& !name.contains('\\')
    &&& !name.contains('\0')
    &&& name != ".."@
    &&& name != "."@
}

fn is_plain_name(name: &str) -> (r: bool)
    ensures
        r == plain_name(name@),
{
    let cs = chars_of(name);
    let mut i: usize = 0;
    while i < cs.len()
        invariant
            i <= cs.len(),
            cs@ == name@,
            forall|j: int|
                0 <= j < i ==> (#[trigger] cs@[j]) != '/' && cs@[j] != '\\' && cs@[j] != '\0',
        decreases cs.len() - i,
    {
        let c: char = cs[i];
        if c == '/' || c == '\\' || c == '\0' {
            proof {
                assert(name@[i as int] == c);
                assert(name@.contains(c));
            }
            return false;
        }
        i += 1;
    }
    !same(name, "..") && !same(name, ".")
}

/// What a request to remove a skill asks for: the skill, or an answer.
pub fn plan_remove(name: &Option<String>) -> (r: Result<String, ToolResult>)
    ensures
        match r {
            Ok(skill) => opt_text(*name) == Some(skill@) && plain_name(skill@),
            Err(answer) => match opt_text(*name) {
                None => answer@ == plain_result(false, "name is required for remove"@),
                Some(name) => !plain_name(name) && answer@ == plain_result(
                    false,
                    "Invalid skill name: "@ + name,
                ),
            },
        },
        // A removal stays in the directory of skills.
        r matches Ok(skill) ==> {
            &&& !skill@.contains('/') && !skill@.contains('\\') && !skill@.contains('\0')
            &&& skill@ != ".."@ && skill@ != "."@
        },
{
    match name {
        None => Err(ToolResult::plain(false, "name is required for remove".to_owned())),
        Some(name) => {
            if !is_plain_name(name.as_str()) {
                let mut text = "Invalid skill name: ".to_owned();
                text.append(name.as_str());
                return Err(ToolResult::plain(false, text));
            }
            Ok(name.clone())
        },
    }
}

/// What is answered to a request to remove a skill, given whether there is one.
pub fn do_remove(name: &str, present: bool) -> (r: ToolResult)
    ensures
        r@ == if present {
            plain_result(true, "Removed skill '"@ + name@ + "'"@)
        } else {
            plain_result(false, "Skill '"@ + name@ + "' not found"@)
        },
{
    if present {
        let mut text = "Removed skill '".to_owned();
        text.append(name);
        text.append("'");
        ToolResult::plain(true, text)
    } else {
        let mut text = "Skill '".to_owned();
        text.append(name);
        text.append("' not found");
        ToolResult::plain(false, text)
    }
}

// ---------------------------------------------------------------------------
// Searching

/// The text under a key, or another.
pub open spec fn entry_text(entry: Json, key: Text, other: Text) -> Text {
    match text_member(entry, key) {
        Some(text) => text,
        None => other,
    }
}

fn text_or(entry: &Json, key: &str, other: &str) -> (r: String)
    ensures
        r@ == entry_text(*entry, key@, other@),
{
    match text_of(entry, key) {
        Some(text) => text,
        None => other.to_owned(),
    }
}

/// A package has to do with a query, which is in lower case.
pub open spec fn package_matches(entry: Json, query: Text) -> bool {
    mentioned(
        lowercase(entry_text(entry, "name"@, ""@)),
        lowercase(entry_text(entry, "description"@, ""@)),
        lowercase(joined(list_member(entry, "tags"@), " "@)),
        query,
    )
}

/// A name, a description or some tags hold a query.
pub open spec fn mentioned(name: Text, description: Text, tags: Text, query: Text) -> bool {
    contains_text(name, query) || contains_text(description, query) || contains_text(tags, query)
}

/// Whether a name, a description or some tags hold a query. All of them are in
/// lower case.
pub fn mentions(name: &str, description: &str, tags: &str, query: &str) -> (r: bool)
    ensures
        r == mentioned(name@, description@, tags@, query@),
{
    contains(name, query) || contains(description, query) || contains(tags, query)
}

fn matches_query(entry: &Json, query: &str) -> (r: bool)
    ensures
        r == package_matches(*entry, query@),
{
    let name = to_lowercase(text_or(entry, "name", "").as_str());
    let description = to_lowercase(text_or(entry, "description", "").as_str());
    let tags = to_lowercase(join(list_of(entry, "tags").as_slice(), " ").as_str());
    mentions(name.as_str(), description.as_str(), tags.as_str(), query)
}

/// The lines that say how to install the skills of a package one by one.
pub open spec fn skill_lines(repo: Text, skills: Seq<Text>) -> Text
    decreases skills.len(),
{
    if skills.len() == 0 {
        Seq::empty()
    } else {
        skill_lines(repo, skills.drop_last()) + "\n    - "@ + skills.last()
            + ": manage_skills(action=\"install\", repo=\""@ + repo + "/"@ + skills.last() + "\")"@
    }
}

/// What is said about a package.
pub open spec fn package_block(entry: Json) -> Text {
    let head = entry_text(entry, "name"@, "?"@) + ": "@ + entry_text(entry, "description"@, ""@);
    let repo = entry_text(entry, "repo"@, ""@);
    let skills = list_member(entry, "skills"@);
    if skills.len() == 0 {
        head + "\n  Install: manage_skills(action=\"install\", repo=\""@ + repo + "\")"@
    } else {
        head + "\n  Skills (install individually):"@ + skill_lines(repo, skills)
    }
}

fn block_of(entry: &Json) -> (r: String)
    ensures
        r@ == package_block(*entry),
{
    let mut r = text_or(entry, "name", "?");
    r.append(": ");
    let description = text_or(entry, "description", "");
    r.append(description.as_str());
    let repo = text_or(entry, "repo", "");
    let skills = list_of(entry, "skills");
    if skills.len() == 0 {
        r.append("\n  Install: manage_skills(action=\"install\", repo=\"");
        r.append(repo.as_str());
        r.append("\")");
    } else {
        r.append("\n  Skills (install individually):");
        let body = lines_of_skills(repo.as_str(), skills.as_slice());
        r.append(body.as_str());
    }
    r
}

fn lines_of_skills(repo: &str, skills: &[String]) -> (r: String)
    ensures
        r@ == skill_lines(repo@, texts(skills@)),
{
    let ghost all = texts(skills@);
    let mut r = String::new();
    let mut i: usize = 0;
    proof {
        assert(all.take(0) =~= Seq::empty());
    }
    while i < skills.len()
        invariant
            i <= skills.len(),
            all == texts(skills@),
            r@ == skill_lines(repo@, all.take(i as int)),
        decreases skills.len() - i,
    {
        proof {
            assert(all.take(i + 1).drop_last() =~= all.take(i as int));
            assert(all.take(i + 1).last() == skills@[i as int]@);
        }
        r.append("\n    - ");
        r.append(skills[i].as_str());
        r.append(": manage_skills(action=\"install\", repo=\"");
        r.append(repo);
        r.append("/");
        r.append(skills[i].as_str());
        r.append("\")");
        i += 1;
    }
    proof {
        assert(all.take(all.len() as int) =~= all);
    }
    r
}

/// The packages that a query finds; all without a query.
pub open spec fn found_packages(entries: Seq<Json>, query: Option<Text>) -> Seq<Json> {
    entries.filter(
        |entry: Json|
            match query {
                Some(q) => package_matches(entry, lowercase(q)),
                None => true,
            },
    )
}

/// What a search answers.
pub open spec fn search_text(entries: Seq<Json>, query: Option<Text>) -> Text {
    let found = found_packages(entries, query);
    if found.len() == 0 {
        match query {
            Some(q) => "No packages matching '"@ + q + "'"@,
            None => "Registry is empty."@,
        }
    } else {
        "Available packages ("@ + decimal(found.len()) + "):\n"@ + joined(
            found.map_values(|entry: Json| package_block(entry)),
            "\n\n"@,
        )
    }
}

/// Searches the packages of the registry.
pub fn do_search(query: &Option<String>, entries: &[Json]) -> (r: ToolResult)
    ensures
        r@ == plain_result(true, search_text(entries@, opt_text(*query))),
{
    let lower = match query {
        Some(q) => Some(to_lowercase(q.as_str())),
        None => None,
    };
    let ghost all = entries@;
    let ghost q = opt_text(*query);
    let ghost pred = |entry: Json|
        match q {
            Some(q) => package_matches(entry, lowercase(q)),
            None => true,
        };
    let ghost told = |entry: Json| package_block(entry);
    let mut blocks: Vec<String> = Vec::new();
    let mut i: usize = 0;
    proof {
        assert(all.take(0) =~= Seq::empty());
        assert(texts(blocks@) =~= all.take(0).filter(pred).map_values(told));
    }
    while i < entries.len()
        invariant
            i <= entries.len(),
            all == entries@,
            match lower {
                Some(text) => q is Some && text@ == lowercase(q->0),
                None => q is None,
            },
            pred == (|entry: Json|
                match q {
                    Some(q) => package_matches(entry, lowercase(q)),
                    None => true,
                }),
            told == (|entry: Json| package_block(entry)),
            texts(blocks@) == all.take(i as int).filter(pred).map_values(told),
        decreases entries.len() - i,
    {
        let ghost head = all.take(i as int);
        proof {
            assert(all.take(i + 1) =~= head.push(all[i as int]));
            head.lemma_filter_push(all[i as int], pred);
        }
        let kept = match &lower {
            Some(text) => matches_query(&entries[i], text.as_str()),
            None => true,
        };
        if kept {
            let block = block_of(&entries[i]);
            proof {
                lemma_texts_push(blocks@, block);
                assert(head.filter(pred).push(all[i as int]).map_values(told) =~= head.filter(
                    pred,
                ).map_values(told).push(block@));
            }
            blocks.push(block);
        }
        i += 1;
    }
    proof {
        assert(all.take(all.len() as int) =~= all);
        assert(found_packages(all, q) == all.filter(pred));
        assert(texts(blocks@).len() == all.filter(pred).len());
    }
    if blocks.len() == 0 {
        return match query {
            Some(q) => {
                let mut text = "No packages matching '".to_owned();
                text.append(q.as_str());
                text.append("'");
                ToolResult::plain(true, text)
            },
            None => ToolResult::plain(true, "Registry is empty.".to_owned()),
        };
    }
    let mut text = "Available packages (".to_owned();
    let count = render(blocks.len() as u64);
    text.append(count.as_str());
    text.append("):\n");
    let body = join(blocks.as_slice(), "\n\n");
    text.append(body.as_str());
    ToolResult::plain(true, text)
}

// ---------------------------------------------------------------------------
// Installing

/// Where skills are fetched from.
#[derive(Debug)]
pub struct InstallPlan {
    pub owner: String,
    pub repo: String,
    pub clone_url: String,
    pub branch: String,
    /// The directory of the one skill that is asked for.
    pub subdir: Option<String>,
}

#[verifier::ext_equal]
pub struct InstallPlanView {
    pub owner: Text,
    pub repo: Text,
    pub clone_url: Text,
    pub branch: Text,
    pub subdir: Option<Text>,
}

impl View for InstallPlan {
    type V = InstallPlanView;

    open spec fn view(&self) -> InstallPlanView {
        InstallPlanView {
            owner: self.owner@,
            repo: self.repo@,
            clone_url: self.clone_url@,
            branch: self.branch@,
            subdir: opt_text(self.subdir),
        }
    }
}

/// The parts of a repository's path: its owner, its name, and what lies in it.
pub open spec fn repo_parts(repo: Text) -> Seq<Text> {
    split_text(trimmed_both(repo, CharClass::Only('/')), '/')
}

/// What is fetched for a repository's path.
pub open spec fn install_plan(repo: Text, branch: Text) -> InstallPlanView {
    let parts = repo_parts(repo);
    InstallPlanView {
        owner: parts[0],
        repo: parts[1],
        clone_url: "https://github.com/"@ + parts[0] + "/"@ + parts[1] + ".git"@,
        branch,
        subdir: if parts.len() > 2 {
            Some(joined(parts.skip(2), "/"@))
        } else {
            None
        },
    }
}

pub open spec fn branch_or_main(branch: Option<Text>) -> Text {
    match branch {
        Some(branch) => branch,
        None => "main"@,
    }
}

/// What a request to install asks for: where to fetch from, or an answer.
pub fn plan_install(input: &SkillRequest) -> (r: Result<InstallPlan, ToolResult>)
    ensures
        match r {
            Ok(plan) => {
                &&& input@.repo is Some
                &&& repo_parts(input@.repo->0).len() >= 2
                &&& plan@ == install_plan(input@.repo->0, branch_or_main(input@.branch))
            },
            Err(answer) => match input@.repo {
                None => answer@ == plain_result(
                    false,
                    "repo is required for install (e.g. user/repo or user/repo/skill-name)"@,
                ),
                Some(repo) => repo_parts(repo).len() < 2 && answer@ == plain_result(
                    false,
                    "Invalid repo path: '"@ + repo
                        + "'. Expected user/repo or user/repo/skill-name"@,
                ),
            },
        },
        // The branch that was asked for is fetched, and `main` only without one.
        r matches Ok(plan) ==> {
            &&& input@.branch matches Some(branch) ==> plan@.branch == branch
            &&& input@.branch is None ==> plan@.branch == "main"@
        },
{
    let repo = match &input.repo {
        Some(repo) => repo.as_str(),
        None => {
            return Err(
                ToolResult::plain(
                    false,
                    "repo is required for install (e.g. user/repo or user/repo/skill-name)".to_owned(),
                ),
            );
        },
    };
    let branch = match &input.branch {
        Some(branch) => branch.clone(),
        None => "main".to_owned(),
    };
    let inner = trim_class(repo, CharClass::Only('/'));
    let parts = split(inner.as_str(), '/');
    let ghost all = repo_parts(repo@);
    if parts.len() < 2 {
        let mut text = "Invalid repo path: '".to_owned();
        text.append(repo);
        text.append("'. Expected user/repo or user/repo/skill-name");
        return Err(ToolResult::plain(false, text));
    }
    let mut clone_url = "https://github.com/".to_owned();
    clone_url.append(parts[0].as_str());
    clone_url.append("/");
    clone_url.append(parts[1].as_str());
    clone_url.append(".git");
    let subdir = if parts.len() > 2 {
        let rest = vstd::slice::slice_subrange(parts.as_slice(), 2, parts.len());
        proof {
            assert(texts(rest@) =~= all.skip(2));
        }
        Some(join(rest, "/"))
    } else {
        None
    };
    proof {
        assert(all[0] == parts@[0]@);
        assert(all[1] == parts@[1]@);
    }
    let plan = InstallPlan {
        owner: parts[0].clone(),
        repo: parts[1].clone(),
        clone_url,
        branch,
        subdir,
    };
    Ok(plan)
}

/// What is answered if the repository cannot be fetched.
pub fn clone_failure(plan: &InstallPlan) -> (r: ToolResult)
    ensures
        r@ == plain_result(
            false,
            "git clone failed for "@ + plan.clone_url@ + " (branch: "@ + plan.branch@ + ")"@,
        ),
{
    let mut text = "git clone failed for ".to_owned();
    text.append(plan.clone_url.as_str());
    text.append(" (branch: ");
    text.append(plan.branch.as_str());
    text.append(")");
    ToolResult::plain(false, text)
}

/// What is answered if the repository has no such directory.
pub open spec fn missing_subdir(plan: InstallPlanView, subdir: Text) -> ToolResultView {
    plain_result(
        false,
        "Subdirectory '"@ + subdir + "' not found in "@ + plan.owner + "/"@ + plan.repo,
    )
}

/// What is answered if the repository has no such directory.
pub fn subdir_missing(plan: &InstallPlan, subdir: &str) -> (r: ToolResult)
    ensures
        r@ == missing_subdir(plan@, subdir@),
{
    let mut text = "Subdirectory '".to_owned();
    text.append(subdir);
    text.append("' not found in ");
    text.append(plan.owner.as_str());
    text.append("/");
    text.append(plan.repo.as_str());
    ToolResult::plain(false, text)
}

/// The name under which the skill in a directory is installed.
pub fn skill_name(subdir: &str) -> (r: String)
    requires
        name_of(subdir@) is Some,
    ensures
        name_of(subdir@) == Some(r@),
{
    match file_name(subdir) {
        Some(name) => name,
        None => String::new(),
    }
}

/// A directory of the repository that could be installed.
#[derive(Debug)]
pub struct SkillCandidate {
    pub name: String,
    pub is_dir: bool,
    /// A skill of that name is installed.
    pub present: bool,
    /// The description of the installed skill.
    pub local_md: Option<String>,
    /// The description in the repository.
    pub remote_md: Option<String>,
    /// There is a description in the repository.
    pub described: bool,
}

#[verifier::ext_equal]
pub struct CandidateView {
    pub name: Text,
    pub is_dir: bool,
    pub present: bool,
    pub local_md: Option<Text>,
    pub remote_md: Option<Text>,
    pub described: bool,
}

impl View for SkillCandidate {
    type V = CandidateView;

    open spec fn view(&self) -> CandidateView {
        CandidateView {
            name: self.name@,
            is_dir: self.is_dir,
            present: self.present,
            local_md: opt_text(self.local_md),
            remote_md: opt_text(self.remote_md),
            described: self.described,
        }
    }
}

pub open spec fn candidate_views(list: Seq<SkillCandidate>) -> Seq<CandidateView> {
    Seq::new(list.len(), |i: int| list[i]@)
}

/// How a repository is laid out.
#[derive(Debug, Clone, Copy, PartialEq, Eq, Structural)]
pub enum RepoShape {
    /// It, or the directory that is asked for, is a skill.
    One,
    /// Its directories are skills.
    Many,
}

/// Where in a repository the skills lie.
#[derive(Debug)]
pub enum InstallSource {
    /// The directory that is asked for is a skill with a name.
    Subdir { name: String, dir: String },
    /// The repository is a skill with a name.
    Root { name: String },
    /// Each directory of the repository may be a skill.
    Each,
}

/// Where in a repository the skills lie: the directory that is asked for, the
/// repository itself if it is described as a skill, or its directories.
pub fn install_source(plan: &InstallPlan, subdir_found: bool, described: bool) -> (r: Result<
    InstallSource,
    ToolResult,
>)
    requires
        plan@.subdir is Some && subdir_found ==> name_of(plan@.subdir->0) is Some,
    ensures
        match (plan@.subdir, r) {
            (Some(sub), Ok(source)) => {
                &&& subdir_found
                &&& source matches InstallSource::Subdir { name, dir } && dir@ == sub && name_of(
                    sub,
                ) == Some(name@)
            },
            (Some(sub), Err(answer)) => !subdir_found && answer@ == missing_subdir(plan@, sub),
            (None, Ok(source)) => if described {
                source matches InstallSource::Root { name } && name@ == plan@.repo
            } else {
                source is Each
            },
            (None, Err(_)) => false,
        },
{
    match &plan.subdir {
        Some(sub) => if subdir_found {
            Ok(InstallSource::Subdir { name: skill_name(sub.as_str()), dir: sub.clone() })
        } else {
            Err(subdir_missing(plan, sub.as_str()))
        },
        None => if described {
            Ok(InstallSource::Root { name: plan.repo.clone() })
        } else {
            Ok(InstallSource::Each)
        },
    }
}

impl InstallSource {
    pub fn shape(&self) -> (r: RepoShape)
        ensures
            r == if self is Each {
                RepoShape::Many
            } else {
                RepoShape::One
            },
    {
        match self {
            InstallSource::Each => RepoShape::Many,
            _ => RepoShape::One,
        }
    }
}

/// A directory that is looked at: in a repository of many skills not a hidden one.
pub open spec fn considered(c: CandidateView, shape: RepoShape) -> bool {
    shape == RepoShape::One || (c.is_dir && !"."@.is_prefix_of(c.name))
}

/// A skill that is left alone because it is installed.
pub open spec fn left_alone(c: CandidateView, force: bool) -> bool {
    c.present && !force
}

/// What is said of a skill that is left alone.
pub open spec fn skip_note(c: CandidateView) -> Text {
    match (version_in(c.local_md), version_in(c.remote_md)) {
        (Some(local), Some(remote)) => if newer(remote, local) {
            c.name + " (update available: "@ + local + " → "@ + remote
                + ", use force=true to update)"@
        } else {
            c.name + " (up to date: "@ + local + ")"@
        },
        _ => c.name,
    }
}

/// The skills that are copied.
pub open spec fn copied(list: Seq<CandidateView>, shape: RepoShape, force: bool) -> Seq<Text>
    decreases list.len(),
{
    if list.len() == 0 {
        Seq::empty()
    } else {
        let c = list.last();
        let before = copied(list.drop_last(), shape, force);
        if considered(c, shape) && !left_alone(c, force) {
            before.push(c.name)
        } else {
            before
        }
    }
}

/// The skills that count as installed: in a repository of many skills those
/// with a description.
pub open spec fn installed(list: Seq<CandidateView>, shape: RepoShape, force: bool) -> Seq<Text>
    decreases list.len(),
{
    if list.len() == 0 {
        Seq::empty()
    } else {
        let c = list.last();
        let before = installed(list.drop_last(), shape, force);
        if considered(c, shape) && !left_alone(c, force) && (shape == RepoShape::One
            || c.described) {
            before.push(c.name)
        } else {
            before
        }
    }
}

/// What is said of the skills that are left alone.
pub open spec fn skipped(list: Seq<CandidateView>, shape: RepoShape, force: bool) -> Seq<Text>
    decreases list.len(),
{
    if list.len() == 0 {
        Seq::empty()
    } else {
        let c = list.last();
        let before = skipped(list.drop_last(), shape, force);
        if considered(c, shape) && left_alone(c, force) {
            before.push(skip_note(c))
        } else {
            before
        }
    }
}

/// What installing comes to.
#[derive(Debug)]
pub struct InstallOutcome {
    /// The skills whose directories are copied, in the place of installed ones.
    pub copied: Vec<String>,
    /// The skills that count as installed afterwards.
    pub installed: Vec<String>,
    /// What is said of the skills that are left alone.
    pub skipped: Vec<String>,
}

fn note_of(c: &SkillCandidate) -> (r: String)
    ensures
        r@ == skip_note(c@),
{
    let local = skill_version(&c.local_md);
    let remote = skill_version(&c.remote_md);
    let mut r = c.name.clone();
    if let Some(a) = &local {
        if let Some(b) = &remote {
            if version_newer(b.as_str(), a.as_str()) {
                r.append(" (update available: ");
                r.append(a.as_str());
                r.append(" → ");
                r.append(b.as_str());
                r.append(", use force=true to update)");
            } else {
                r.append(" (up to date: ");
                r.append(a.as_str());
                r.append(")");
            }
        }
    }
    r
}

/// Decides which skills of a repository are installed.
pub fn do_install(list: &[SkillCandidate], shape: RepoShape, force: bool) -> (r: InstallOutcome)
    ensures
        texts(r.copied@) == copied(candidate_views(list@), shape, force),
        texts(r.installed@) == installed(candidate_views(list@), shape, force),
        texts(r.skipped@) == skipped(candidate_views(list@), shape, force),
{
    let ghost all = candidate_views(list@);
    let mut copies: Vec<String> = Vec::new();
    let mut done: Vec<String> = Vec::new();
    let mut notes: Vec<String> = Vec::new();
    let mut i: usize = 0;
    proof {
        assert(all.take(0) =~= Seq::empty());
        assert(texts(copies@) =~= Seq::empty());
        assert(texts(done@) =~= Seq::empty());
        assert(texts(notes@) =~= Seq::empty());
    }
    while i < list.len()
        invariant
            i <= list.len(),
            all == candidate_views(list@),
            texts(copies@) == copied(all.take(i as int), shape, force),
            texts(done@) == installed(all.take(i as int), shape, force),
            texts(notes@) == skipped(all.take(i as int), shape, force),
        decreases list.len() - i,
    {
        proof {
            assert(all.take(i + 1).drop_last() =~= all.take(i as int));
            assert(all.take(i + 1).last() == list@[i as int]@);
        }
        let c = &list[i];
        let looked_at = shape == RepoShape::One || (c.is_dir && !starts_with(c.name.as_str(), "."));
        if looked_at {
            if c.present && !force {
                let note = note_of(c);
                proof {
                    lemma_texts_push(notes@, note);
                }
                notes.push(note);
            } else {
                let name = c.name.clone();
                proof {
                    lemma_texts_push(copies@, name);
                }
                copies.push(name);
                if shape == RepoShape::One || c.described {
                    let again = c.name.clone();
                    proof {
                        lemma_texts_push(done@, again);
                    }
                    done.push(again);
                }
            }
        }
        i += 1;
    }
    proof {
        assert(all.take(all.len() as int) =~= all);
    }
    InstallOutcome { copied: copies, installed: done, skipped: notes }
}

/// What is answered to a request to install.
pub open spec fn install_text(done: Seq<Text>, notes: Seq<Text>) -> Text {
    trimmed(
        (if done.len() > 0 {
            "Installed: "@ + joined(done, ", "@) + "\n"@
        } else {
            Seq::empty()
        }) + (if notes.len() > 0 {
            "Skipped (already exists, use force=true): "@ + joined(notes, ", "@) + "\n"@
        } else {
            Seq::empty()
        }) + (if done.len() == 0 && notes.len() == 0 {
            "No skills found in repository.\n"@
        } else {
            Seq::empty()
        }),
    )
}

/// What is answered to a request to install.
pub fn install_answer(outcome: &InstallOutcome) -> (r: ToolResult)
    ensures
        r@ == plain_result(
            true,
            install_text(texts(outcome.installed@), texts(outcome.skipped@)),
        ),
{
    let mut out = String::new();
    if outcome.installed.len() > 0 {
        let mut part = "Installed: ".to_owned();
        let names = join(outcome.installed.as_slice(), ", ");
        part.append(names.as_str());
        part.append("\n");
        out.append(part.as_str());
    }
    if outcome.skipped.len() > 0 {
        let mut part = "Skipped (already exists, use force=true): ".to_owned();
        let names = join(outcome.skipped.as_slice(), ", ");
        part.append(names.as_str());
        part.append("\n");
        out.append(part.as_str());
    }
    if outcome.installed.len() == 0 && outcome.skipped.len() == 0 {
        out.append("No skills found in repository.\n");
    }
    ToolResult::plain(true, trim(out.as_str()))
}

// ---------------------------------------------------------------------------
// After the installation

/// A directory entry that is never copied.
pub open spec fn never_copied(name: Text) -> bool {
    name == ".git"@ || name == "node_modules"@ || name == "target"@
}

/// Whether a directory entry is left out when a skill is copied.
pub fn copy_dir_recursive(name: &str) -> (r: bool)
    ensures
        r == never_copied(name@),
{
    same(name, ".git") || same(name, "node_modules") || same(name, "target")
}

/// Whether the packages of a skill must be fetched: it names some, and they are
/// not there.
pub fn maybe_npm_install(has_package_json: bool, has_node_modules: bool) -> (r: bool)
    ensures
        r == (has_package_json && !has_node_modules),
{
    has_package_json && !has_node_modules
}

/// What is noted about where a skill came from.
pub open spec fn source_members(
    repo: Text,
    subdir: Option<Text>,
    branch: Text,
    at: Text,
) -> Seq<(Text, Option<Text>)> {
    seq![
        ("branch"@, Some(branch)),
        ("installed_at"@, Some(at)),
        ("repo"@, Some(repo)),
        ("subdir"@, subdir),
    ]
}

/// The text of the note from where a skill came.
pub open spec fn source_note(repo: Text, subdir: Option<Text>, branch: Text, at: Text) -> Text {
    flat_text(source_members(repo, subdir, branch, at))
}

fn word_line(key: &str, value: Option<&str>) -> (r: String)
    ensures
        r@ == flat_line(key@, match value {
            Some(text) => Some(text@),
            None => None,
        }),
{
    let mut r = quote(key);
    r.append(": ");
    match value {
        Some(text) => {
            let v = quote(text);
            r.append(v.as_str());
        },
        None => {
            r.append("null");
        },
    }
    r
}

/// The text of the note from where a skill came, as an indented JSON object.
pub fn write_source_info(repo: &str, subdir: &Option<String>, branch: &str, installed_at: &str) -> (r:
    String)
    ensures
        r@ == source_note(repo@, opt_text(*subdir), branch@, installed_at@),
{
    let mut lines: Vec<String> = Vec::new();
    lines.push(word_line("branch", Some(branch)));
    lines.push(word_line("installed_at", Some(installed_at)));
    lines.push(word_line("repo", Some(repo)));
    let dir: Option<&str> = match subdir {
        Some(dir) => Some(dir.as_str()),
        None => None,
    };
    lines.push(word_line("subdir", dir));
    proof {
        let members = source_members(repo@, opt_text(*subdir), branch@, installed_at@);
        assert(texts(lines@) =~= members.map_values(
            |m: (Text, Option<Text>)| flat_line(m.0, m.1),
        ));
    }
    let body = join(lines.as_slice(), ",\n  ");
    let mut r = "{\n  ".to_owned();
    r.append(body.as_str());
    r.append("\n}");
    r
}

/// The path of a repository.
pub fn repo_path(plan: &InstallPlan) -> (r: String)
    ensures
        r@ == plan.owner@ + "/"@ + plan.repo@,
{
    let mut r = plan.owner.clone();
    r.append("/");
    r.append(plan.repo.as_str());
    r
}

// ---------------------------------------------------------------------------
// Updating

/// Where the skill of a note came from: the repository that the note names, and
/// the path by which the skill is fetched from it.
pub open spec fn note_source(repo: Option<Text>, subdir: Option<Text>) -> (Text, Text) {
    let base = match repo {
        Some(repo) => repo,
        None => Seq::empty(),
    };
    (
        base,
        match subdir {
            Some(dir) => base + "/"@ + dir,
            None => base,
        },
    )
}

/// What is fetched to update a skill: the repository to look up, and the path.
/// Without a path in the request it comes from the note of the skill.
pub open spec fn update_source(
    repo: Option<Text>,
    name: Option<Text>,
    note: Option<(Option<Text>, Option<Text>)>,
) -> Option<(Text, Text)> {
    match repo {
        Some(repo) => Some((Seq::empty(), repo)),
        None => match (name, note) {
            (Some(_), Some(fields)) => Some(note_source(fields.0, fields.1)),
            _ => None,
        },
    }
}

/// What a note says, if it is a JSON text.
pub open spec fn note_fields(note: Option<Text>) -> Option<(Option<Text>, Option<Text>)> {
    match note {
        Some(text) => match json_field(text, "repo"@) {
            Some(repo) => Some(
                (
                    repo,
                    match json_field(text, "subdir"@) {
                        Some(subdir) => subdir,
                        None => None,
                    },
                ),
            ),
            None => None,
        },
        None => None,
    }
}

/// What a note says, if it is a JSON text.
fn read_note(note: &Option<String>) -> (r: Option<(Option<String>, Option<String>)>)
    ensures
        match r {
            Some(fields) => note_fields(opt_text(*note)) == Some(
                (opt_text(fields.0), opt_text(fields.1)),
            ),
            None => note_fields(opt_text(*note)) is None,
        },
        forall|repo: Text, subdir: Option<Text>, branch: Text, at: Text|
            opt_text(*note) == Some(#[trigger] source_note(repo, subdir, branch, at)) ==> {
                &&& r is Some
                &&& opt_text((r->0).0) == Some(repo)
                &&& opt_text((r->0).1) == subdir
            },
{
    proof {
        lemma_source_members();
    }
    match note {
        Some(text) => match field_in(text.as_str(), "repo") {
            Some(repo) => match field_in(text.as_str(), "subdir") {
                Some(subdir) => Some((repo, subdir)),
                None => Some((repo, None)),
            },
            None => None,
        },
        None => None,
    }
}

/// The keys of a note are different, and what stands under them is what was
/// noted.
proof fn lemma_source_members()
    ensures
        forall|repo: Text, subdir: Option<Text>, branch: Text, at: Text|
            {
                let members = #[trigger] source_members(repo, subdir, branch, at);
                &&& flat_keys(members)
                &&& text_under(members, "repo"@) == Some(repo)
                &&& text_under(members, "subdir"@) == subdir
            },
{
    reveal_strlit("branch");
    reveal_strlit("installed_at");
    reveal_strlit("repo");
    reveal_strlit("subdir");
    reveal_with_fuel(text_under, 4);
    assert("branch"@.len() == 6 && "branch"@[0] == 'b');
    assert("installed_at"@.len() == 12);
    assert("repo"@.len() == 4);
    assert("subdir"@.len() == 6 && "subdir"@[0] == 's');
    assert forall|repo: Text, subdir: Option<Text>, branch: Text, at: Text|
        {
            let members = #[trigger] source_members(repo, subdir, branch, at);
            &&& flat_keys(members)
            &&& text_under(members, "repo"@) == Some(repo)
            &&& text_under(members, "subdir"@) == subdir
        } by {
        let members = source_members(repo, subdir, branch, at);
        assert(members[3] == ("subdir"@, subdir));
        assert(members.drop_last()[2] == ("repo"@, Some(repo)));
    }
}

/// What is fetched to update a skill, from what its note says.
pub fn source_from(
    input: &SkillRequest,
    note: &Option<(Option<String>, Option<String>)>,
) -> (r: Option<(String, String)>)
    ensures
        ({
            let fields = match *note {
                Some(f) => Some((opt_text(f.0), opt_text(f.1))),
                None => None,
            };
            match r {
                Some(found) => update_source(input@.repo, input@.name, fields) == Some(
                    (found.0@, found.1@),
                ),
                None => update_source(input@.repo, input@.name, fields) is None,
            }
        }),
{
    if let Some(repo) = &input.repo {
        return Some((String::new(), repo.clone()));
    }
    if input.name.is_none() {
        return None;
    }
    match note {
        None => None,
        Some(fields) => {
            let base = match &fields.0 {
                Some(repo) => repo.clone(),
                None => String::new(),
            };
            let mut path = base.clone();
            if let Some(dir) = &fields.1 {
                path.append("/");
                path.append(dir.as_str());
            }
            Some((base, path))
        },
    }
}

/// What a request to update fetches: the repository to look up and the path, or
/// an answer. `note` is the text of the note from where the skill came.
pub fn plan_update(input: &SkillRequest, note: &Option<String>) -> (r: Result<
    (String, String),
    ToolResult,
>)
    ensures
        match r {
            Ok(found) => update_source(input@.repo, input@.name, note_fields(opt_text(*note)))
                == Some((found.0@, found.1@)),
            Err(answer) => {
                &&& update_source(input@.repo, input@.name, note_fields(opt_text(*note))) is None
                &&& answer@ == plain_result(
                    false,
                    "repo or name required for update. Use name of an installed skill (reads .source for repo)."@,
                )
            },
        },
        // What was noted at the installation of a skill is found again.
        forall|repo: Text, subdir: Option<Text>, branch: Text, at: Text|
            input@.repo is None && input@.name is Some && opt_text(*note) == Some(
                #[trigger] source_note(repo, subdir, branch, at),
            ) ==> {
                &&& r is Ok
                &&& (r->Ok_0.0@, r->Ok_0.1@) == note_source(Some(repo), subdir)
            },
{
    let fields = read_note(note);
    match source_from(input, &fields) {
        Some(found) => Ok(found),
        None => Err(
            ToolResult::plain(
                false,
                "repo or name required for update. Use name of an installed skill (reads .source for repo).".to_owned(),
            ),
        ),
    }
}

/// What is looked up in the registry before an update: where the skill came
/// from, or else what was asked for.
pub fn looked_up<'a>(source: &'a str, repo: &'a str) -> (r: &'a str)
    ensures
        r@ == if source@.len() == 0 {
            repo@
        } else {
            source@
        },
{
    if same(source, "") {
        proof {
            reveal_strlit("");
        }
        repo
    } else {
        proof {
            reveal_strlit("");
            assert(source@.len() == 0 ==> source@ =~= ""@);
        }
        source
    }
}

/// A package of the registry is the one that is asked for.
pub open spec fn is_package(entry: Json, repo: Text, skill: Option<Text>) -> bool {
    ||| entry_text(entry, "repo"@, ""@) == repo
    ||| entry_text(entry, "name"@, ""@) == repo
    ||| skill is Some && list_member(entry, "skills"@).contains(skill->0)
}

/// The version of the first package that is asked for and has one.
pub open spec fn registry_version(entries: Seq<Json>, repo: Text, skill: Option<Text>) -> Option<Text>
    decreases entries.len(),
{
    if entries.len() == 0 {
        None
    } else if is_package(entries[0], repo, skill) && text_member(entries[0], "version"@) is Some {
        text_member(entries[0], "version"@)
    } else {
        registry_version(entries.drop_first(), repo, skill)
    }
}

/// The version of a repository or skill in the registry.
pub fn registry_version_for(entries: &[Json], repo: &str, skill: &Option<String>) -> (r: Option<
    String,
>)
    ensures
        opt_text(r) == registry_version(entries@, repo@, opt_text(*skill)),
{
    let ghost all = entries@;
    let mut i: usize = 0;
    proof {
        assert(all.skip(0) =~= all);
    }
    while i < entries.len()
        invariant
            i <= entries.len(),
            all == entries@,
            registry_version(all, repo@, opt_text(*skill)) == registry_version(
                all.skip(i as int),
                repo@,
                opt_text(*skill),
            ),
        decreases entries.len() - i,
    {
        let e = &entries[i];
        proof {
            assert(all.skip(i as int)[0] == *e);
            assert(all.skip(i as int).drop_first() =~= all.skip(i + 1));
        }
        let by_repo = same(text_or(e, "repo", "").as_str(), repo);
        let by_name = same(text_or(e, "name", "").as_str(), repo);
        let by_skill = match skill {
            Some(name) => in_list(list_of(e, "skills").as_slice(), name.as_str()),
            None => false,
        };
        if by_repo || by_name || by_skill {
            if let Some(version) = text_of(e, "version") {
                return Some(version);
            }
        }
        i += 1;
    }
    None
}

/// What is answered if a skill is up to date: it is installed with a version,
/// and the registry has no newer one.
pub open spec fn up_to_date(name: Text, local: Option<Text>, registry: Option<Text>) -> Option<Text> {
    match (local, registry) {
        (Some(local), Some(registry)) => if newer(registry, local) {
            None
        } else {
            Some("'"@ + name + "' is up to date (v"@ + local + ")"@)
        },
        _ => None,
    }
}

/// What is answered if a skill is up to date.
pub fn check_up_to_date(name: &str, local: &Option<String>, registry: &Option<String>) -> (r: Option<
    ToolResult,
>)
    ensures
        match r {
            Some(answer) => up_to_date(name@, opt_text(*local), opt_text(*registry)) matches Some(
                text,
            ) && answer@ == plain_result(true, text),
            None => up_to_date(name@, opt_text(*local), opt_text(*registry)) is None,
        },
{
    if let Some(l) = local {
        if let Some(v) = registry {
            if !version_newer(v.as_str(), l.as_str()) {
                let mut text = "'".to_owned();
                text.append(name);
                text.append("' is up to date (v");
                text.append(l.as_str());
                text.append(")");
                return Some(ToolResult::plain(true, text));
            }
        }
    }
    None
}

/// The request that installs anew what a request updates.
pub fn forced(input: &SkillRequest, repo: &str) -> (r: SkillRequest)
    ensures
        r@ == (SkillRequestView { repo: Some(repo@), force: true, ..input@ }),
{
    SkillRequest {
        action: input.action.clone(),
        repo: Some(repo.to_owned()),
        name: copy_opt(&input.name),
        query: copy_opt(&input.query),
        force: true,
        branch: copy_opt(&input.branch),
    }
}

// ---------------------------------------------------------------------------
// Laws

/// An installed skill is replaced only on demand, and every skill that counts
/// as installed was copied.
pub proof fn installed_skills_are_kept(
    list: Seq<CandidateView>,
    shape: RepoShape,
    force: bool,
    name: Text,
)
    ensures
        copied(list, shape, force).contains(name) ==> exists|i: int|
            0 <= i < list.len() && (#[trigger] list[i]).name == name && (force || !list[i].present),
        installed(list, shape, force).contains(name) ==> copied(list, shape, force).contains(name),
        force ==> skipped(list, shape, force).len() == 0,
    decreases list.len(),
{
    if list.len() > 0 {
        let rest = list.drop_last();
        let c = list[list.len() - 1];
        installed_skills_are_kept(rest, shape, force, name);
        let now = copied(list, shape, force);
        let before = copied(rest, shape, force);
        if now.contains(name) {
            if before.contains(name) {
                let i = choose|i: int|
                    0 <= i < rest.len() && (#[trigger] rest[i]).name == name && (force
                        || !rest[i].present);
                assert(list[i].name == name);
            } else {
                let k = now.index_of(name);
                if k < before.len() {
                    assert(before[k] == name);
                }
                assert(c.name == name);
            }
        }
        let done = installed(list, shape, force);
        let earlier = installed(rest, shape, force);
        if done.contains(name) {
            let k = done.index_of(name);
            if k < earlier.len() {
                assert(earlier[k] == name);
                assert(before.contains(name));
                let m = before.index_of(name);
                assert(now[m] == name);
            } else {
                assert(now[now.len() - 1] == name);
            }
        }
    }
}

} // verus!
