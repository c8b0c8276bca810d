//! Registered tools as data.
use vstd::prelude::*;

use crate::context::{ConcurrencyClass, HostHandle};
use crate::json::{copy_json, Json, JsonView};
use crate::text::{copy_list, copy_opt, opt_text, same, texts, Text};

verus! {

/// A tool as the registry knows it.
#[derive(Debug)]
pub struct ToolEntry {
    pub name: String,
    pub description: String,
    pub input_schema: Json,
    /// Capabilities by which tools are filtered; none passes every filter.
    pub tags: Vec<String>,
    pub concurrency_class: ConcurrencyClass,
    /// The directory that the tool works in, if it is bound to one.
    pub work_dir: Option<String>,
    /// The tool is a program of a plugin.
    pub from_plugin: bool,
    /// The configuration that the tool reads.
    pub config: Option<HostHandle>,
    /// What the tool runs its commands in.
    pub sandbox: Option<HostHandle>,
}

#[verifier::ext_equal]
pub struct ToolView {
    pub name: Text,
    pub description: Text,
    pub input_schema: JsonView,
    pub tags: Seq<Text>,
    pub concurrency_class: ConcurrencyClass,
    pub work_dir: Option<Text>,
    pub from_plugin: bool,
    pub config: Option<HostHandle>,
    pub sandbox: Option<HostHandle>,
}

impl View for ToolEntry {
    type V = ToolView;

    open spec fn view(&self) -> ToolView {
        ToolView {
            name: self.name@,
            description: self.description@,
            input_schema: self.input_schema@,
            tags: texts(self.tags@),
            concurrency_class: self.concurrency_class,
            work_dir: opt_text(self.work_dir),
            from_plugin: self.from_plugin,
            config: self.config,
            sandbox: self.sandbox,
        }
    }
}

/// A tool with a name and nothing special about it.
pub open spec fn plain_tool(name: Text) -> ToolView {
    ToolView {
        name,
        description: Seq::empty(),
        input_schema: JsonView::Null,
        tags: Seq::empty(),
        concurrency_class: ConcurrencyClass::Safe,
        work_dir: None,
        from_plugin: false,
        config: None,
        sandbox: None,
    }
}

impl ToolEntry {
    /// A tool with a name and nothing special about it.
    pub fn named(name: &str) -> (r: ToolEntry)
        ensures
            r@ == plain_tool(name@),
    {
        let r = ToolEntry {
            name: name.to_owned(),
            description: String::new(),
            input_schema: Json::Null,
            tags: Vec::new(),
            concurrency_class: ConcurrencyClass::Safe,
            work_dir: None,
            from_plugin: false,
            config: None,
            sandbox: None,
        };
        proof {
            assert(r@ =~= plain_tool(name@));
        }
        r
    }

    pub fn copy(&self) -> (r: ToolEntry)
        ensures
            r@ == self@,
    {
        ToolEntry {
            name: self.name.clone(),
            description: self.description.clone(),
            input_schema: copy_json(&self.input_schema),
            tags: copy_list(self.tags.as_slice()),
            concurrency_class: self.concurrency_class,
            work_dir: copy_opt(&self.work_dir),
            from_plugin: self.from_plugin,
            config: self.config,
            sandbox: self.sandbox,
        }
    }
}

/// The tool of a list that was made last under a name, or a plain one.
pub open spec fn made_tool(made: Seq<ToolView>, name: Text) -> ToolView
    decreases made.len(),
{
    if made.len() == 0 {
        plain_tool(name)
    } else if made.last().name == name {
        made.last()
    } else {
        made_tool(made.drop_last(), name)
    }
}

/// A tool that was made under a name has that name.
pub proof fn lemma_made_name(made: Seq<ToolView>, name: Text)
    ensures
        made_tool(made, name).name == name,
    decreases made.len(),
{
    if made.len() > 0 && made.last().name != name {
        lemma_made_name(made.drop_last(), name);
    }
}

/// The tool of a list that was made last under a name, or a plain one.
pub fn take_made(made: &[ToolEntry], name: &str) -> (r: ToolEntry)
    ensures
        r@ == made_tool(tool_views(made@), name@),
        r@.name == name@,
{
    let ghost all = tool_views(made@);
    let mut i: usize = made.len();
    proof {
        assert(all.take(i as int) =~= all);
        lemma_made_name(all, name@);
    }
    while i > 0
        invariant
            i <= made@.len(),
            all == tool_views(made@),
            made_tool(all, name@) == made_tool(all.take(i as int), name@),
            made_tool(all, name@).name == name@,
        decreases i,
    {
        let k: usize = i - 1;
        proof {
            assert(all.take(i as int).drop_last() =~= all.take(k as int));
            assert(all.take(i as int).last() == made@[k as int]@);
        }
        if same(made[k].name.as_str(), name) {
            return made[k].copy();
        }
        i = k;
    }
    ToolEntry::named(name)
}

/// The views of a list of tools.
pub open spec fn tool_views(tools: Seq<ToolEntry>) -> Seq<ToolView> {
    Seq::new(tools.len(), |i: int| tools[i]@)
}

pub open spec fn tool_names_of(tools: Seq<ToolView>) -> Seq<Text> {
    tools.map_values(|t: ToolView| t.name)
}

/// Some tool of the list has the name.
pub open spec fn has_tool(tools: Seq<ToolView>, name: Text) -> bool {
    exists|i: int| 0 <= i < tools.len() && (#[trigger] tools[i]).name == name
}

/// No two tools have the same name.
pub open spec fn distinct_names(tools: Seq<ToolView>) -> bool {
    forall|i: int, j: int|
        0 <= i < j < tools.len() ==> (#[trigger] tools[i]).name != (#[trigger] tools[j]).name
}

/// The tool with a name, if there is one.
pub open spec fn tool_named(tools: Seq<ToolView>, name: Text) -> Option<ToolView> {
    if has_tool(tools, name) {
        Some(tools[choose|i: int| 0 <= i < tools.len() && (#[trigger] tools[i]).name == name])
    } else {
        None
    }
}

/// A list with a tool in the place of the one of the same name, or at its end.
pub open spec fn with_tool(tools: Seq<ToolView>, tool: ToolView) -> Seq<ToolView> {
    if has_tool(tools, tool.name) {
        tools.map_values(|t: ToolView| if t.name == tool.name { tool } else { t })
    } else {
        tools.push(tool)
    }
}

/// The tool at a position is the tool with its name.
pub proof fn lemma_tool_at(tools: Seq<ToolView>, i: int)
    requires
        distinct_names(tools),
        0 <= i < tools.len(),
    ensures
        tool_named(tools, tools[i].name) == Some(tools[i]),
{
    let name = tools[i].name;
    assert(has_tool(tools, name));
    let k = choose|k: int| 0 <= k < tools.len() && (#[trigger] tools[k]).name == name;
    if k < i {
        assert(tools[k].name != tools[i].name);
    } else if i < k {
        assert(tools[i].name != tools[k].name);
    }
}

/// Registering keeps names distinct, puts the tool under its name, and leaves
/// the others alone.
pub proof fn lemma_with_tool(tools: Seq<ToolView>, tool: ToolView)
    requires
        distinct_names(tools),
    ensures
        distinct_names(with_tool(tools, tool)),
        tool_named(with_tool(tools, tool), tool.name) == Some(tool),
        forall|name: Text|
            name != tool.name ==> tool_named(with_tool(tools, tool), name) == tool_named(tools, name),
        forall|name: Text|
            has_tool(with_tool(tools, tool), name) <==> (has_tool(tools, name) || name == tool.name),
{
    let after = with_tool(tools, tool);
    if has_tool(tools, tool.name) {
        let k = choose|k: int| 0 <= k < tools.len() && (#[trigger] tools[k]).name == tool.name;
        assert(forall|i: int| 0 <= i < tools.len() ==> (#[trigger] after[i]).name == tools[i].name);
        assert(after[k] == tool);
        lemma_tool_at(after, k);
        assert forall|name: Text| has_tool(after, name) <==> (has_tool(tools, name) || name == tool.name) by {
            if has_tool(after, name) {
                let i = choose|i: int| 0 <= i < after.len() && (#[trigger] after[i]).name == name;
                assert(tools[i].name == name);
            }
            if has_tool(tools, name) {
                let i = choose|i: int| 0 <= i < tools.len() && (#[trigger] tools[i]).name == name;
                assert(after[i].name == name);
            }
        }
        assert forall|name: Text| name != tool.name implies tool_named(after, name) == tool_named(
            tools,
            name,
        ) by {
            if has_tool(tools, name) {
                let i = choose|i: int| 0 <= i < tools.len() && (#[trigger] tools[i]).name == name;
                assert(after[i] == tools[i]);
                lemma_tool_at(after, i);
                lemma_tool_at(tools, i);
            } else {
                assert(!has_tool(after, name));
            }
        }
    } else {
        let n = tools.len() as int;
        assert(after[n] == tool);
        assert(forall|i: int| 0 <= i < n ==> #[trigger] after[i] == tools[i]);
        assert(distinct_names(after));
        lemma_tool_at(after, n);
        assert forall|name: Text| has_tool(after, name) <==> (has_tool(tools, name) || name == tool.name) by {
            if has_tool(tools, name) {
                let i = choose|i: int| 0 <= i < tools.len() && (#[trigger] tools[i]).name == name;
                assert(after[i].name == name);
            }
        }
        assert forall|name: Text| name != tool.name implies tool_named(after, name) == tool_named(
            tools,
            name,
        ) by {
            if has_tool(tools, name) {
                let i = choose|i: int| 0 <= i < tools.len() && (#[trigger] tools[i]).name == name;
                assert(after[i] == tools[i]);
                lemma_tool_at(after, i);
                lemma_tool_at(tools, i);
            } else {
                assert(!has_tool(after, name));
            }
        }
    }
}

/// The position of the tool with a name.
pub fn position_of(tools: &[ToolEntry], name: &str) -> (r: Option<usize>)
    requires
        distinct_names(tool_views(tools@)),
    ensures
        match r {
            Some(i) => {
                &&& i < tools@.len()
                &&& tools@[i as int].name@ == name@
                &&& tool_named(tool_views(tools@), name@) == Some(tools@[i as int]@)
            },
            None => !has_tool(tool_views(tools@), name@),
        },
{
    let ghost all = tool_views(tools@);
    let mut i: usize = 0;
    while i < tools.len()
        invariant
            i <= tools.len(),
            all == tool_views(tools@),
            distinct_names(all),
            forall|j: int| 0 <= j < i ==> (#[trigger] all[j]).name != name@,
        decreases tools.len() - i,
    {
        if same(tools[i].name.as_str(), name) {
            proof {
                assert(all[i as int].name == name@);
                lemma_tool_at(all, i as int);
            }
            return Some(i);
        }
        i += 1;
    }
    None
}

} // verus!
