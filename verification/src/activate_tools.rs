//! The tool that loads deferred tools.
use vstd::prelude::*;

use crate::arguments::{list_member, list_of, text_member, text_of};
use crate::context::{plain_result, HostHandle, ToolResult, ToolResultView};
use crate::json::Json;
use crate::policy::{
    group_holding, group_of, group_of_tool, group_tools, tool_group_info, tool_groups, ToolGroupView,
};
use crate::registry::{
    activation, activation_targets, deferred_count, deferred_group_views, groups_with_deferred,
    DeferredGroupView, RegistryView, ToolRegistry,
};
use crate::registry_laws::lemma_group_by_name;
use crate::sorting::{
    every_list_can_be_sorted, every_set_can_be_sorted, sort_unique, sorted, sorted_set,
};
use crate::text::{
    decimal, join, joined, lemma_filter_holds, lemma_texts_push, render, texts, Text,
};
use crate::tool_entry::{has_tool, tool_named, ToolView};

verus! {

/// The name of the tool.
pub const ACTIVATE_TOOLS_NAME: &'static str = "activate_tools";

/// What a model is told about the tool.
pub const ACTIVATE_TOOLS_TEXT: &'static str = "Load additional tools. Pass one or more tool names to activate them. Load all tools you expect to need in a single call to save round-trips.";

/// The tool that loads deferred tools, once it knows the registry.
#[derive(Debug)]
pub struct ActivateToolsTool {
    pub registry: Option<HostHandle>,
}

/// How far the loading of tools has come.
pub struct Loading {
    pub deferred: Set<Text>,
    /// What was loaded, as it came.
    pub loaded: Seq<Text>,
    /// What was asked for and loaded before.
    pub active: Seq<Text>,
}

/// The registered names of a list.
pub open spec fn registered(tools: Seq<ToolView>, names: Seq<Text>) -> Seq<Text> {
    names.filter(|name: Text| has_tool(tools, name))
}

impl Loading {
    pub open spec fn start(deferred: Set<Text>) -> Loading {
        Loading { deferred, loaded: Seq::empty(), active: Seq::empty() }
    }

    /// Loading by a target. If nothing was deferred there, the registered ones
    /// of the names count as active.
    pub open spec fn load(self, tools: Seq<ToolView>, target: Text, names: Seq<Text>) -> Loading {
        let got = activation(self.deferred, target);
        Loading {
            deferred: self.deferred.difference(got.to_set()),
            loaded: self.loaded + got,
            active: if got.len() == 0 {
                self.active + registered(tools, names)
            } else {
                self.active
            },
        }
    }

    /// Loading one tool, with its group if it has one.
    pub open spec fn load_tool(self, tools: Seq<ToolView>, name: Text) -> Loading {
        let target = match group_of(name) {
            Some(group) => group,
            None => name,
        };
        self.load(tools, target, seq![name])
    }

    /// Loading tools one by one.
    pub open spec fn load_tools(self, tools: Seq<ToolView>, names: Seq<Text>) -> Loading
        decreases names.len(),
    {
        if names.len() == 0 {
            self
        } else {
            self.load_tools(tools, names.drop_last()).load_tool(tools, names.last())
        }
    }

    /// Loading a group by its name, or a tool by its own.
    pub open spec fn load_group(self, tools: Seq<ToolView>, group: Text) -> Loading {
        if group.len() == 0 {
            self
        } else {
            let names = match group_tools(group) {
                Some(list) => list,
                None => seq![group],
            };
            self.load(tools, group, names)
        }
    }
}

/// A tool that can be loaded: it is deferred, and activation would show it.
pub open spec fn on_offer(view: RegistryView, name: Text) -> bool {
    view.deferred.contains(name) && view.loadable(name)
}

/// The tools that a target stands for: those of a group, or one tool.
pub open spec fn target_names(target: Text) -> Seq<Text> {
    match group_tools(target) {
        Some(tools) => tools,
        None => seq![target],
    }
}

/// The tools under a list of targets that can be loaded.
pub open spec fn listed(view: RegistryView, targets: Seq<DeferredGroupView>) -> Seq<Text>
    decreases targets.len(),
{
    if targets.len() == 0 {
        Seq::empty()
    } else {
        let names = target_names(targets.last().name);
        listed(view, targets.drop_last()) + names.filter(|name: Text| on_offer(view, name))
    }
}

/// The names that are reported: in order, each once, without the tools that
/// stay hidden all the same.
pub open spec fn reported(view: RegistryView, names: Seq<Text>) -> Seq<Text> {
    sorted(names).filter(|name: Text| view.loadable(name))
}

pub open spec fn listing_text(tools: Seq<Text>) -> Text {
    if tools.len() == 0 {
        "All tools are already active."@
    } else {
        "Available tools to load: "@ + joined(tools, ", "@)
            + ". Call activate_tools with [\"tool1\", \"tool2\"] to load them."@
    }
}

pub open spec fn loading_text(loaded: Seq<Text>, active: Seq<Text>) -> Text {
    if loaded.len() == 0 && active.len() == 0 {
        "No tools matched. Call activate_tools with no arguments to see available tools."@
    } else if loaded.len() == 0 {
        "Already active: "@ + joined(active, ", "@)
    } else if active.len() == 0 {
        "Loaded "@ + decimal(loaded.len()) + " tool(s): "@ + joined(loaded, ", "@)
    } else {
        "Loaded "@ + decimal(loaded.len()) + " tool(s): "@ + joined(loaded, ", "@)
            + ". Already active: "@ + joined(active, ", "@)
    }
}

/// How a request for tools and a group leaves the loading.
pub open spec fn requested(view: RegistryView, names: Seq<Text>, group: Text) -> Loading {
    Loading::start(view.deferred).load_tools(view.tools, names).load_group(view.tools, group)
}

/// What the tool answers.
pub open spec fn activation_answer(
    view: RegistryView,
    names: Seq<Text>,
    group: Text,
) -> ToolResultView {
    if names.len() == 0 && group.len() == 0 {
        plain_result(true, listing_text(listed(view, activation_targets(view.deferred))))
    } else {
        let end = requested(view, names, group);
        let loaded = reported(view, end.loaded);
        let active = reported(view, end.active);
        plain_result(loaded.len() > 0 || active.len() > 0, loading_text(loaded, active))
    }
}

/// The group that the arguments name; empty if they name none.
pub open spec fn group_argument(args: Json) -> Text {
    match text_member(args, "group"@) {
        Some(group) => group,
        None => Seq::empty(),
    }
}

/// The names of a list that activation would show.
fn loadable_of(registry: &ToolRegistry, names: &[String]) -> (out: Vec<String>)
    requires
        registry.inv(),
    ensures
        texts(out@) == texts(names@).filter(|name: Text| registry@.loadable(name)),
{
    let ghost all = texts(names@);
    let ghost pred = |name: Text| registry@.loadable(name);
    let mut out: Vec<String> = Vec::new();
    let mut i: usize = 0;
    proof {
        assert(all.take(0) =~= Seq::empty());
        assert(texts(out@) =~= all.take(0).filter(pred));
    }
    while i < names.len()
        invariant
            i <= names.len(),
            registry.inv(),
            all == texts(names@),
            pred == (|name: Text| registry@.loadable(name)),
            texts(out@) == all.take(i as int).filter(pred),
        decreases names.len() - i,
    {
        proof {
            assert(all.take(i + 1) =~= all.take(i as int).push(names@[i as int]@));
            all.take(i as int).lemma_filter_push(names@[i as int]@, pred);
        }
        if registry.is_tool_visible_post_activation(names[i].as_str()) {
            let name = names[i].clone();
            proof {
                lemma_texts_push(out@, name);
            }
            out.push(name);
        }
        i += 1;
    }
    proof {
        assert(all.take(all.len() as int) =~= all);
    }
    out
}

/// The names of a list that can be loaded.
fn on_offer_of(registry: &ToolRegistry, names: &[String]) -> (out: Vec<String>)
    requires
        registry.inv(),
    ensures
        texts(out@) == texts(names@).filter(|name: Text| on_offer(registry@, name)),
{
    let ghost all = texts(names@);
    let ghost pred = |name: Text| on_offer(registry@, name);
    let mut out: Vec<String> = Vec::new();
    let mut i: usize = 0;
    proof {
        assert(all.take(0) =~= Seq::empty());
        assert(texts(out@) =~= all.take(0).filter(pred));
    }
    while i < names.len()
        invariant
            i <= names.len(),
            registry.inv(),
            all == texts(names@),
            pred == (|name: Text| on_offer(registry@, name)),
            texts(out@) == all.take(i as int).filter(pred),
        decreases names.len() - i,
    {
        proof {
            assert(all.take(i + 1) =~= all.take(i as int).push(names@[i as int]@));
            all.take(i as int).lemma_filter_push(names@[i as int]@, pred);
        }
        if registry.deferred_tools().contains(names[i].as_str())
            && registry.is_tool_visible_post_activation(names[i].as_str()) {
            let name = names[i].clone();
            proof {
                lemma_texts_push(out@, name);
            }
            out.push(name);
        }
        i += 1;
    }
    proof {
        assert(all.take(all.len() as int) =~= all);
    }
    out
}

/// The registered names of a list.
fn registered_in(registry: &ToolRegistry, names: &[String]) -> (out: Vec<String>)
    requires
        registry.inv(),
    ensures
        texts(out@) == registered(registry@.tools, texts(names@)),
{
    let ghost all = texts(names@);
    let ghost pred = |name: Text| has_tool(registry@.tools, name);
    let mut out: Vec<String> = Vec::new();
    let mut i: usize = 0;
    proof {
        assert(all.take(0) =~= Seq::empty());
        assert(texts(out@) =~= all.take(0).filter(pred));
    }
    while i < names.len()
        invariant
            i <= names.len(),
            registry.inv(),
            all == texts(names@),
            pred == (|name: Text| has_tool(registry@.tools, name)),
            texts(out@) == all.take(i as int).filter(pred),
        decreases names.len() - i,
    {
        proof {
            assert(all.take(i + 1) =~= all.take(i as int).push(names@[i as int]@));
            all.take(i as int).lemma_filter_push(names@[i as int]@, pred);
        }
        if registry.get(names[i].as_str()).is_some() {
            let name = names[i].clone();
            proof {
                lemma_texts_push(out@, name);
            }
            out.push(name);
        }
        i += 1;
    }
    proof {
        assert(all.take(all.len() as int) =~= all);
    }
    out
}

/// Appends one list to another.
fn append_all(list: &mut Vec<String>, more: &[String])
    ensures
        texts(final(list)@) == texts(old(list)@) + texts(more@),
{
    let ghost before = texts(list@);
    let ghost all = texts(more@);
    let mut i: usize = 0;
    proof {
        assert(before =~= before + all.take(0));
    }
    while i < more.len()
        invariant
            i <= more.len(),
            all == texts(more@),
            texts(list@) == before + all.take(i as int),
        decreases more.len() - i,
    {
        let item = more[i].clone();
        proof {
            lemma_texts_push(list@, item);
            assert(before + all.take(i + 1) =~= (before + all.take(i as int)).push(item@));
        }
        list.push(item);
        i += 1;
    }
    proof {
        assert(all.take(all.len() as int) =~= all);
    }
}

fn alone(name: &str) -> (out: Vec<String>)
    ensures
        texts(out@) == seq![name@],
{
    let mut out: Vec<String> = Vec::new();
    out.push(name.to_owned());
    proof {
        assert(texts(out@) =~= seq![name@]);
    }
    out
}

/// Loads by a target and notes what came of it.
fn load(
    registry: &mut ToolRegistry,
    target: &str,
    names: &[String],
    loaded: &mut Vec<String>,
    active: &mut Vec<String>,
)
    requires
        old(registry).inv(),
    ensures
        final(registry).inv(),
        ({
            let end = (Loading {
                deferred: old(registry)@.deferred,
                loaded: texts(old(loaded)@),
                active: texts(old(active)@),
            }).load(old(registry)@.tools, target@, texts(names@));
            &&& final(registry)@ == (RegistryView { deferred: end.deferred, ..old(registry)@ })
            &&& texts(final(loaded)@) == end.loaded
            &&& texts(final(active)@) == end.active
        }),
{
    let got = registry.activate(target);
    if got.len() == 0 {
        let known = registered_in(registry, names);
        append_all(active, known.as_slice());
    }
    append_all(loaded, got.as_slice());
}

fn list_answer(registry: &ToolRegistry) -> (r: ToolResult)
    requires
        registry.inv(),
    ensures
        r@ == plain_result(
            true,
            listing_text(listed(registry@, activation_targets(registry@.deferred))),
        ),
{
    let groups = registry.deferred_groups();
    let ghost targets = deferred_group_views(groups@);
    let mut tools: Vec<String> = Vec::new();
    let mut i: usize = 0;
    proof {
        assert(targets.take(0) =~= Seq::empty());
        assert(texts(tools@) =~= Seq::empty());
    }
    while i < groups.len()
        invariant
            i <= groups.len(),
            registry.inv(),
            targets == deferred_group_views(groups@),
            texts(tools@) == listed(registry@, targets.take(i as int)),
        decreases groups.len() - i,
    {
        proof {
            assert(targets.take(i + 1).drop_last() =~= targets.take(i as int));
        }
        let names = match tool_group_info(groups[i].name.as_str()) {
            Some(list) => list,
            None => alone(groups[i].name.as_str()),
        };
        let shown = on_offer_of(registry, names.as_slice());
        append_all(&mut tools, shown.as_slice());
        i += 1;
    }
    proof {
        assert(targets.take(targets.len() as int) =~= targets);
    }
    if tools.len() == 0 {
        return ToolResult::plain(true, "All tools are already active.".to_owned());
    }
    let mut text = "Available tools to load: ".to_owned();
    let names = join(tools.as_slice(), ", ");
    text.append(names.as_str());
    text.append(". Call activate_tools with [\"tool1\", \"tool2\"] to load them.");
    ToolResult::plain(true, text)
}

fn loading_answer(loaded: &[String], active: &[String]) -> (r: ToolResult)
    ensures
        r@ == plain_result(
            loaded@.len() > 0 || active@.len() > 0,
            loading_text(texts(loaded@), texts(active@)),
        ),
{
    if loaded.len() == 0 && active.len() == 0 {
        return ToolResult::plain(
            false,
            "No tools matched. Call activate_tools with no arguments to see available tools.".to_owned(),
        );
    }
    if loaded.len() == 0 {
        let mut text = "Already active: ".to_owned();
        let names = join(active, ", ");
        text.append(names.as_str());
        return ToolResult::plain(true, text);
    }
    let mut text = "Loaded ".to_owned();
    let count = render(loaded.len() as u64);
    text.append(count.as_str());
    text.append(" tool(s): ");
    let names = join(loaded, ", ");
    text.append(names.as_str());
    if active.len() > 0 {
        text.append(". Already active: ");
        let others = join(active, ", ");
        text.append(others.as_str());
    }
    ToolResult::plain(true, text)
}

impl ActivateToolsTool {
    /// The tool before it knows the registry.
    pub fn new() -> (r: ActivateToolsTool)
        ensures
            r.registry is None,
    {
        ActivateToolsTool { registry: None }
    }

    /// Tells the tool which registry it works on.
    pub fn set_registry(&mut self, registry: HostHandle)
        ensures
            final(self).registry == Some(registry),
    {
        self.registry = Some(registry);
    }

    /// Lists the deferred tools, or loads the ones that the arguments name.
    /// `registry` is the one that the tool was told of.
    pub fn execute(&self, registry: &mut ToolRegistry, args: &Json) -> (r: Result<
        ToolResult,
        String,
    >)
        requires
            old(registry).inv(),
        ensures
            final(registry).inv(),
            match r {
                Err(text) => {
                    &&& self.registry is None
                    &&& text@ == "tool registry not available"@
                    &&& final(registry)@ == old(registry)@
                },
                Ok(answer) => {
                    let names = list_member(*args, "tools"@);
                    let group = group_argument(*args);
                    &&& self.registry is Some
                    &&& answer@ == activation_answer(old(registry)@, names, group)
                    &&& final(registry)@ == (RegistryView {
                        deferred: requested(old(registry)@, names, group).deferred,
                        ..old(registry)@
                    })
                },
            },
    {
        if self.registry.is_none() {
            return Err("tool registry not available".to_owned());
        }
        let names = list_of(args, "tools");
        let group = match text_of(args, "group") {
            Some(group) => group,
            None => String::new(),
        };
        if names.len() == 0 && group.as_str().unicode_len() == 0 {
            return Ok(list_answer(registry));
        }
        let ghost all = texts(names@);
        let ghost view = registry@;
        let ghost start = Loading::start(view.deferred);
        let mut loaded: Vec<String> = Vec::new();
        let mut active: Vec<String> = Vec::new();
        let mut i: usize = 0;
        proof {
            assert(all.take(0) =~= Seq::empty());
            assert(texts(loaded@) =~= Seq::empty());
            assert(texts(active@) =~= Seq::empty());
        }
        while i < names.len()
            invariant
                i <= names.len(),
                registry.inv(),
                all == texts(names@),
                view == old(registry)@,
                start == Loading::start(view.deferred),
                start.load_tools(view.tools, all.take(i as int)) == (Loading {
                    deferred: registry@.deferred,
                    loaded: texts(loaded@),
                    active: texts(active@),
                }),
                registry@ == (RegistryView { deferred: registry@.deferred, ..view }),
            decreases names.len() - i,
        {
            proof {
                assert(all.take(i + 1).drop_last() =~= all.take(i as int));
            }
            let own = alone(names[i].as_str());
            let target = match group_of_tool(names[i].as_str()) {
                Some(group) => group,
                None => names[i].clone(),
            };
            load(registry, target.as_str(), own.as_slice(), &mut loaded, &mut active);
            i += 1;
        }
        proof {
            assert(all.take(all.len() as int) =~= all);
        }
        if group.as_str().unicode_len() > 0 {
            let own = match tool_group_info(group.as_str()) {
                Some(list) => list,
                None => alone(group.as_str()),
            };
            load(registry, group.as_str(), own.as_slice(), &mut loaded, &mut active);
        }
        let loaded = sort_unique(loaded.as_slice());
        let active = sort_unique(active.as_slice());
        proof {
            assert forall|name: Text| registry@.loadable(name) == view.loadable(name) by {}
            assert((|name: Text| registry@.loadable(name)) =~= (|name: Text| view.loadable(name)));
        }
        let loaded = loadable_of(registry, loaded.as_slice());
        let active = loadable_of(registry, active.as_slice());
        Ok(loading_answer(loaded.as_slice(), active.as_slice()))
    }
}

impl Default for ActivateToolsTool {
    fn default() -> (r: ActivateToolsTool)
        ensures
            r.registry is None,
    {
        ActivateToolsTool::new()
    }
}

impl Loading {
    /// Nothing that was loaded or found active is still put aside.
    spec fn settled(self) -> bool {
        forall|name: Text| #[trigger]
            self.deferred.contains(name) ==> !self.loaded.contains(name) && !self.active.contains(
                name,
            )
    }

    proof fn lemma_load(self, tools: Seq<ToolView>, target: Text, names: Seq<Text>)
        requires
            self.settled(),
            forall|name: Text| #[trigger]
                names.contains(name) && has_tool(tools, name) ==> match group_tools(target) {
                    Some(list) => list.contains(name),
                    None => name == target,
                },
        ensures
            self.load(tools, target, names).settled(),
    {
        let got = activation(self.deferred, target);
        let after = self.load(tools, target, names);
        assert forall|name: Text| #[trigger] after.deferred.contains(name) implies !after.loaded.contains(
            name,
        ) && !after.active.contains(name) by {
            assert(self.deferred.contains(name));
            assert(!got.contains(name));
            if after.loaded.contains(name) {
                let k = after.loaded.index_of(name);
                if k < self.loaded.len() {
                    assert(self.loaded.contains(self.loaded[k]));
                } else {
                    assert(got.contains(got[k - self.loaded.len()]));
                }
            }
            if after.active.contains(name) {
                let k = after.active.index_of(name);
                if k < self.active.len() {
                    assert(self.active.contains(self.active[k]));
                } else {
                    let there = registered(tools, names);
                    let one = there[k - self.active.len()];
                    assert(there.contains(one));
                    lemma_filter_holds(names, |n: Text| has_tool(tools, n), one);
                    assert(names.contains(name));
                    match group_tools(target) {
                        Some(list) => {
                            lemma_filter_holds(list, |n: Text| self.deferred.contains(n), name);
                        },
                        None => {
                            assert(got[0] == name);
                        },
                    }
                    assert(got.contains(name));
                }
            }
        }
    }

    proof fn lemma_load_tools(self, tools: Seq<ToolView>, names: Seq<Text>)
        requires
            self.settled(),
            named_unlike_groups(tools),
        ensures
            self.load_tools(tools, names).settled(),
        decreases names.len(),
    {
        if names.len() > 0 {
            let name = names.last();
            self.lemma_load_tools(tools, names.drop_last());
            lemma_group_by_name(name);
            let target = match group_of(name) {
                Some(group) => group,
                None => name,
            };
            self.load_tools(tools, names.drop_last()).lemma_load(tools, target, seq![name]);
        }
    }
}

/// No tool has the name of a group.
pub open spec fn named_unlike_groups(tools: Seq<ToolView>) -> bool {
    forall|name: Text| #[trigger] has_tool(tools, name) ==> group_tools(name) is None
}

/// A list of targets offers a name if one of them does.
proof fn lemma_listed(view: RegistryView, targets: Seq<DeferredGroupView>, name: Text)
    ensures
        listed(view, targets).contains(name) ==> on_offer(view, name),
        on_offer(view, name) && (exists|k: int|
            0 <= k < targets.len() && #[trigger] target_names(targets[k].name).contains(name))
            ==> listed(view, targets).contains(name),
    decreases targets.len(),
{
    if targets.len() > 0 {
        let rest = targets.drop_last();
        lemma_listed(view, rest, name);
        let names = target_names(targets.last().name);
        let rule = |n: Text| on_offer(view, n);
        let before = listed(view, rest);
        let shown = names.filter(rule);
        let all = listed(view, targets);
        assert(all == before + shown);
        lemma_filter_holds(names, rule, name);
        if all.contains(name) {
            let k = all.index_of(name);
            if k < before.len() {
                assert(before.contains(before[k]));
            } else {
                assert(shown.contains(shown[k - before.len()]));
            }
        }
        if on_offer(view, name) && exists|k: int|
            0 <= k < targets.len() && #[trigger] target_names(targets[k].name).contains(name) {
            let k = choose|k: int|
                0 <= k < targets.len() && #[trigger] target_names(targets[k].name).contains(name);
            if k < rest.len() {
                assert(target_names(rest[k].name).contains(name));
                let i = before.index_of(name);
                assert(all[i] == name);
            } else {
                let i = shown.index_of(name);
                assert(all[before.len() + i] == name);
            }
        }
    }
}

/// A deferred tool stands under one of the targets of activation.
proof fn lemma_target_holds(deferred: Set<Text>, name: Text)
    requires
        deferred.finite(),
        deferred.contains(name),
        group_tools(name) is None,
    ensures
        exists|k: int|
            0 <= k < activation_targets(deferred).len() && #[trigger] target_names(
                activation_targets(deferred)[k].name,
            ).contains(name),
{
    let targets = activation_targets(deferred);
    let grouped = groups_with_deferred(deferred, tool_groups());
    match group_of(name) {
        Some(group) => {
            lemma_group_by_name(name);
            let i = lemma_group_at(tool_groups(), name);
            let holder = tool_groups()[i];
            let rule = |g: ToolGroupView| deferred_count(deferred, g.tools) > 0;
            let kept = tool_groups().filter(rule);
            let there = holder.tools.filter(|tool: Text| deferred.contains(tool));
            lemma_filter_holds(holder.tools, |tool: Text| deferred.contains(tool), name);
            assert(there.contains(name));
            assert(tool_groups().contains(holder));
            lemma_filter_holds(tool_groups(), rule, holder);
            let k = kept.index_of(holder);
            assert(grouped[k].name == group);
            assert(targets[k] == grouped[k]);
            assert(target_names(targets[k].name).contains(name));
        },
        None => {
            let alone = deferred.filter(|n: Text| group_of(n) is None);
            assert(alone.contains(name));
            every_set_can_be_sorted(alone);
            let order = sorted_set(alone);
            let k = order.index_of(name);
            assert(targets[grouped.len() + k].name == name);
            assert(seq![name][0] == name);
            assert(target_names(targets[grouped.len() + k].name).contains(name));
        },
    }
}

/// The place of the group that a tool is loaded through.
proof fn lemma_group_at(table: Seq<ToolGroupView>, tool: Text) -> (i: int)
    requires
        group_holding(table, tool) is Some,
    ensures
        0 <= i < table.len(),
        table[i].tools.contains(tool),
        group_holding(table, tool) == Some(table[i].name),
    decreases table.len(),
{
    if table[0].tools.contains(tool) {
        0
    } else {
        let i = lemma_group_at(table.drop_first(), tool);
        i + 1
    }
}

/// The tool without arguments lists the deferred tools that can be loaded, and
/// no others, if no tool has the name of a group.
pub proof fn exactly_the_deferred_tools_are_listed(registry: ToolRegistry, name: Text)
    requires
        registry.inv(),
        named_unlike_groups(registry@.tools),
    ensures
        listed(registry@, activation_targets(registry@.deferred)).contains(name) <==> on_offer(
            registry@,
            name,
        ),
{
    let view = registry@;
    registry.names_are_distinct();
    lemma_listed(view, activation_targets(view.deferred), name);
    if on_offer(view, name) {
        assert(has_tool(view.tools, name));
        lemma_target_holds(view.deferred, name);
    }
}

/// Whatever the tool reports as loaded or active can be seen and called from
/// then on, if no tool has the name of a group.
pub proof fn reported_tools_can_be_called(
    view: RegistryView,
    names: Seq<Text>,
    group: Text,
    name: Text,
)
    requires
        named_unlike_groups(view.tools),
        reported(view, requested(view, names, group).loaded).contains(name) || reported(
            view,
            requested(view, names, group).active,
        ).contains(name),
    ensures
        (RegistryView { deferred: requested(view, names, group).deferred, ..view }).visible(name),
{
    let start = Loading::start(view.deferred);
    let mid = start.load_tools(view.tools, names);
    let end = requested(view, names, group);
    let rule = |n: Text| view.loadable(n);
    assert(start.settled());
    start.lemma_load_tools(view.tools, names);
    if group.len() > 0 {
        let list = match group_tools(group) {
            Some(list) => list,
            None => seq![group],
        };
        mid.lemma_load(view.tools, group, list);
    }
    lemma_filter_holds(sorted(end.loaded), rule, name);
    lemma_filter_holds(sorted(end.active), rule, name);
    every_list_can_be_sorted(end.loaded);
    every_list_can_be_sorted(end.active);
    let after = RegistryView { deferred: end.deferred, ..view };
    match tool_named(view.tools, name) {
        Some(tool) => {
            assert(after.passes(tool) == view.passes(tool));
        },
        None => {},
    }
}

} // verus!
