//! Tool groups, the entries that name tools, and allow/deny policies.
use vstd::prelude::*;

use crate::text::{copy_list, in_list, same, starts_with, texts, Text};

verus! {

/// A named group of tools.
#[derive(Debug)]
pub struct ToolGroup {
    pub name: String,
    pub description: String,
    pub tools: Vec<String>,
}

#[verifier::ext_equal]
pub struct ToolGroupView {
    pub name: Text,
    pub description: Text,
    pub tools: Seq<Text>,
}

impl View for ToolGroup {
    type V = ToolGroupView;

    open spec fn view(&self) -> ToolGroupView {
        ToolGroupView {
            name: self.name@,
            description: self.description@,
            tools: texts(self.tools@),
        }
    }
}

/// The groups that entries can refer to.
pub open spec fn tool_groups() -> Seq<ToolGroupView> {
    seq![
        ToolGroupView {
            name: "group:fs"@,
            description: "Read, write and edit files"@,
            tools: seq!["read_file"@, "write_file"@, "edit_file"@, "diff_edit"@],
        },
        ToolGroupView {
            name: "group:runtime"@,
            description: "Run shell commands"@,
            tools: seq!["shell"@],
        },
        ToolGroupView {
            name: "group:search"@,
            description: "Find files and text"@,
            tools: seq!["glob"@, "grep"@, "list_dir"@],
        },
        ToolGroupView {
            name: "group:web"@,
            description: "Search and read the web"@,
            tools: seq!["web_search"@, "web_fetch"@, "browser"@],
        },
        ToolGroupView {
            name: "group:memory"@,
            description: "Save and recall memories"@,
            tools: seq!["recall_memory"@, "save_memory"@],
        },
    ]
}

/// The group of the first matching name in a table.
pub open spec fn group_named(table: Seq<ToolGroupView>, name: Text) -> Option<Seq<Text>>
    decreases table.len(),
{
    if table.len() == 0 {
        None
    } else if table[0].name == name {
        Some(table[0].tools)
    } else {
        group_named(table.drop_first(), name)
    }
}

/// The tools of a group, by the group's name.
pub open spec fn group_tools(name: Text) -> Option<Seq<Text>> {
    group_named(tool_groups(), name)
}

/// The name of the first group of a table that holds a tool.
pub open spec fn group_holding(table: Seq<ToolGroupView>, tool: Text) -> Option<Text>
    decreases table.len(),
{
    if table.len() == 0 {
        None
    } else if table[0].tools.contains(tool) {
        Some(table[0].name)
    } else {
        group_holding(table.drop_first(), tool)
    }
}

/// The group through which a tool is loaded.
pub open spec fn group_of(tool: Text) -> Option<Text> {
    group_holding(tool_groups(), tool)
}

fn one(name: &str, description: &str, tools: Vec<String>) -> (r: ToolGroup)
    ensures
        r@ == (ToolGroupView { name: name@, description: description@, tools: texts(tools@) }),
{
    ToolGroup { name: name.to_owned(), description: description.to_owned(), tools }
}

fn list1(a: &str) -> (r: Vec<String>)
    ensures
        texts(r@) == seq![a@],
{
    let mut r: Vec<String> = Vec::new();
    r.push(a.to_owned());
    proof {
        assert(texts(r@) =~= seq![a@]);
    }
    r
}

fn list2(a: &str, b: &str) -> (r: Vec<String>)
    ensures
        texts(r@) == seq![a@, b@],
{
    let mut r: Vec<String> = Vec::new();
    r.push(a.to_owned());
    r.push(b.to_owned());
    proof {
        assert(texts(r@) =~= seq![a@, b@]);
    }
    r
}

fn list3(a: &str, b: &str, c: &str) -> (r: Vec<String>)
    ensures
        texts(r@) == seq![a@, b@, c@],
{
    let mut r: Vec<String> = Vec::new();
    r.push(a.to_owned());
    r.push(b.to_owned());
    r.push(c.to_owned());
    proof {
        assert(texts(r@) =~= seq![a@, b@, c@]);
    }
    r
}

fn list4(a: &str, b: &str, c: &str, d: &str) -> (r: Vec<String>)
    ensures
        texts(r@) == seq![a@, b@, c@, d@],
{
    let mut r: Vec<String> = Vec::new();
    r.push(a.to_owned());
    r.push(b.to_owned());
    r.push(c.to_owned());
    r.push(d.to_owned());
    proof {
        assert(texts(r@) =~= seq![a@, b@, c@, d@]);
    }
    r
}

/// The views of a list of groups.
pub open spec fn group_views(groups: Seq<ToolGroup>) -> Seq<ToolGroupView> {
    Seq::new(groups.len(), |i: int| groups[i]@)
}

/// The groups that entries can refer to.
pub fn all_tool_groups() -> (r: Vec<ToolGroup>)
    ensures
        group_views(r@) == tool_groups(),
{
    let mut r: Vec<ToolGroup> = Vec::new();
    r.push(
        one(
            "group:fs",
            "Read, write and edit files",
            list4("read_file", "write_file", "edit_file", "diff_edit"),
        ),
    );
    r.push(one("group:runtime", "Run shell commands", list1("shell")));
    r.push(one("group:search", "Find files and text", list3("glob", "grep", "list_dir")));
    r.push(
        one("group:web", "Search and read the web", list3("web_search", "web_fetch", "browser")),
    );
    r.push(
        one("group:memory", "Save and recall memories", list2("recall_memory", "save_memory")),
    );
    proof {
        assert(group_views(r@) =~= tool_groups());
    }
    r
}

/// The tools of the group with a given name, if there is such a group.
pub fn tool_group_info(name: &str) -> (r: Option<Vec<String>>)
    ensures
        match r {
            Some(tools) => group_tools(name@) == Some(texts(tools@)),
            None => group_tools(name@) is None,
        },
{
    let groups = all_tool_groups();
    let ghost table = tool_groups();
    let mut i: usize = 0;
    proof {
        assert(table.skip(0) =~= table);
    }
    while i < groups.len()
        invariant
            i <= groups.len(),
            table == group_views(groups@),
            table == tool_groups(),
            group_named(table, name@) == group_named(table.skip(i as int), name@),
        decreases groups.len() - i,
    {
        proof {
            assert(table.skip(i as int)[0] == groups@[i as int]@);
            assert(table.skip(i as int).drop_first() =~= table.skip(i + 1));
        }
        if same(groups[i].name.as_str(), name) {
            return Some(copy_list(groups[i].tools.as_slice()));
        }
        i += 1;
    }
    None
}

/// The name of the group through which a tool is loaded, if there is one.
pub fn group_of_tool(tool: &str) -> (r: Option<String>)
    ensures
        match r {
            Some(name) => group_of(tool@) == Some(name@),
            None => group_of(tool@) is None,
        },
{
    let groups = all_tool_groups();
    let ghost table = tool_groups();
    let mut i: usize = 0;
    proof {
        assert(table.skip(0) =~= table);
    }
    while i < groups.len()
        invariant
            i <= groups.len(),
            table == group_views(groups@),
            table == tool_groups(),
            group_holding(table, tool@) == group_holding(table.skip(i as int), tool@),
        decreases groups.len() - i,
    {
        proof {
            assert(table.skip(i as int)[0] == groups@[i as int]@);
            assert(table.skip(i as int).drop_first() =~= table.skip(i + 1));
        }
        if in_list(groups[i].tools.as_slice(), tool) {
            return Some(groups[i].name.clone());
        }
        i += 1;
    }
    None
}

/// What an entry of an allow or deny list stands for: the members of a group,
/// the names with a prefix (`prefix*`), or one name.
pub open spec fn entry_covers(entry: Text, name: Text) -> bool {
    match group_tools(entry) {
        Some(tools) => tools.contains(name),
        None => if entry.len() > 0 && entry.last() == '*' {
            entry.drop_last().is_prefix_of(name)
        } else {
            entry == name
        },
    }
}

/// Some entry of a list covers the name.
pub open spec fn list_covers(entries: Seq<Text>, name: Text) -> bool {
    exists|i: int| 0 <= i < entries.len() && entry_covers(#[trigger] entries[i], name)
}

pub fn entry_matches(entry: &str, name: &str) -> (r: bool)
    ensures
        r == entry_covers(entry@, name@),
{
    match tool_group_info(entry) {
        Some(tools) => in_list(tools.as_slice(), name),
        None => {
            let n = entry.unicode_len();
            if n > 0 && entry.get_char(n - 1) == '*' {
                proof {
                    assert(entry@.subrange(0, n - 1) =~= entry@.drop_last());
                }
                starts_with(name, entry.substring_char(0, n - 1))
            } else {
                same(entry, name)
            }
        },
    }
}

/// Whether some entry of a list covers the name.
pub fn any_entry_matches(entries: &[String], name: &str) -> (r: bool)
    ensures
        r == list_covers(texts(entries@), name@),
{
    let mut i: usize = 0;
    while i < entries.len()
        invariant
            i <= entries.len(),
            forall|j: int| 0 <= j < i ==> !entry_covers(#[trigger] texts(entries@)[j], name@),
        decreases entries.len() - i,
    {
        if entry_matches(entries[i].as_str(), name) {
            proof {
                assert(entry_covers(texts(entries@)[i as int], name@));
            }
            return true;
        }
        i += 1;
    }
    false
}

/// An allow list, a deny list that wins over it, and required tags.
#[derive(Debug)]
pub struct ToolPolicy {
    pub allow: Vec<String>,
    pub deny: Vec<String>,
    pub require_tags: Vec<String>,
}

#[verifier::ext_equal]
pub struct ToolPolicyView {
    pub allow: Seq<Text>,
    pub deny: Seq<Text>,
    pub require_tags: Seq<Text>,
}

impl View for ToolPolicy {
    type V = ToolPolicyView;

    open spec fn view(&self) -> ToolPolicyView {
        ToolPolicyView {
            allow: texts(self.allow@),
            deny: texts(self.deny@),
            require_tags: texts(self.require_tags@),
        }
    }
}

/// A tag filter passes a tool with no tags, and a tool with one of the wanted tags.
pub open spec fn tags_pass(wanted: Seq<Text>, tags: Seq<Text>) -> bool {
    tags.len() == 0 || exists|i: int| 0 <= i < tags.len() && wanted.contains(#[trigger] tags[i])
}

impl ToolPolicyView {
    pub open spec fn empty() -> ToolPolicyView {
        ToolPolicyView { allow: Seq::empty(), deny: Seq::empty(), require_tags: Seq::empty() }
    }

    pub open spec fn is_empty(self) -> bool {
        self.allow.len() == 0 && self.deny.len() == 0 && self.require_tags.len() == 0
    }

    /// Deny wins; without an allow list everything else is allowed.
    pub open spec fn allows(self, name: Text) -> bool {
        !list_covers(self.deny, name) && (self.allow.len() == 0 || list_covers(self.allow, name))
    }

    pub open spec fn allows_tagged(self, name: Text, tags: Seq<Text>) -> bool {
        self.allows(name) && (self.require_tags.len() == 0 || tags_pass(self.require_tags, tags))
    }
}

/// What a policy says about one tool.
#[derive(Debug)]
pub enum PolicyDecision {
    Allow,
    Deny { reason: String },
}

pub fn tags_match(wanted: &[String], tags: &[String]) -> (r: bool)
    ensures
        r == tags_pass(texts(wanted@), texts(tags@)),
{
    if tags.len() == 0 {
        return true;
    }
    let mut i: usize = 0;
    while i < tags.len()
        invariant
            i <= tags.len(),
            forall|j: int| 0 <= j < i ==> !texts(wanted@).contains(#[trigger] texts(tags@)[j]),
        decreases tags.len() - i,
    {
        if in_list(wanted, tags[i].as_str()) {
            proof {
                assert(texts(wanted@).contains(texts(tags@)[i as int]));
            }
            return true;
        }
        i += 1;
    }
    false
}

impl ToolPolicy {
    pub fn copy(&self) -> (r: ToolPolicy)
        ensures
            r@ == self@,
    {
        ToolPolicy {
            allow: copy_list(self.allow.as_slice()),
            deny: copy_list(self.deny.as_slice()),
            require_tags: copy_list(self.require_tags.as_slice()),
        }
    }

    /// Nothing is allowed, denied or required by name.
    pub fn is_empty(&self) -> (r: bool)
        ensures
            r == self@.is_empty(),
    {
        self.allow.len() == 0 && self.deny.len() == 0 && self.require_tags.len() == 0
    }

    pub fn is_allowed(&self, name: &str) -> (r: bool)
        ensures
            r == self@.allows(name@),
    {
        if any_entry_matches(self.deny.as_slice(), name) {
            return false;
        }
        self.allow.len() == 0 || any_entry_matches(self.allow.as_slice(), name)
    }

    pub fn is_allowed_with_tags(&self, name: &str, tags: &[String]) -> (r: bool)
        ensures
            r == self@.allows_tagged(name@, texts(tags@)),
    {
        self.is_allowed(name) && (self.require_tags.len() == 0 || tags_match(
            self.require_tags.as_slice(),
            tags,
        ))
    }

    /// Allows exactly what `is_allowed` allows, and says which list denied the rest.
    pub fn evaluate(&self, name: &str) -> (r: PolicyDecision)
        ensures
            r is Allow <==> self@.allows(name@),
            r matches PolicyDecision::Deny { reason } ==> reason@ == denial_reason(self@, name@),
    {
        if any_entry_matches(self.deny.as_slice(), name) {
            PolicyDecision::Deny { reason: "listed in deny".to_owned() }
        } else if self.allow.len() == 0 || any_entry_matches(self.allow.as_slice(), name) {
            PolicyDecision::Allow
        } else {
            PolicyDecision::Deny { reason: "not listed in allow".to_owned() }
        }
    }
}

/// The list that denies a tool.
pub open spec fn denial_reason(policy: ToolPolicyView, name: Text) -> Text {
    if list_covers(policy.deny, name) {
        "listed in deny"@
    } else {
        "not listed in allow"@
    }
}

impl Default for ToolPolicy {
    fn default() -> (r: ToolPolicy)
        ensures
            r@ == ToolPolicyView::empty(),
    {
        let r = ToolPolicy { allow: Vec::new(), deny: Vec::new(), require_tags: Vec::new() };
        proof {
            assert(r@ =~= ToolPolicyView::empty());
        }
        r
    }
}

/// A denied tool stays denied whatever the allow list says.
pub proof fn deny_wins(policy: ToolPolicyView, name: Text, tags: Seq<Text>)
    requires
        list_covers(policy.deny, name),
    ensures
        !policy.allows(name),
        !policy.allows_tagged(name, tags),
{
}

} // verus!
