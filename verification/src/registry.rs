//! The registry of tools: which tools there are, which of them a model sees,
//! and which calls are let through.
use vstd::prelude::*;

use crate::context::{ConcurrencyClass, HostHandle, ToolContext};
use crate::json::{
    capped, copy_json, estimate_json_size, json_size, json_text, opt_json, put, str_array, str_array_view,
    str_value, to_text, Json, JsonMember, JsonView,
};
use crate::lifecycle::{LifecycleView, ToolLifecycle};
use crate::names::{NameSet, TextMap};
use crate::policy::{
    all_tool_groups, any_entry_matches, denial_reason, group_of, group_of_tool, group_tools,
    group_views, list_covers, tags_match, tags_pass, tool_group_info, tool_groups, PolicyDecision,
    ToolGroupView, ToolPolicy, ToolPolicyView,
};
use crate::profile::ProfileTools;
use crate::sorting::{sort_unique, sorted_set, sorts_set_is_sorted};
use crate::supervisor::{active_count, ended, SupervisedTask, TaskSupervisor, TaskView};
use crate::text::{
    copy_list, copy_opt, decimal, ends_with, in_list, join, joined, lemma_filter_holds, lemma_filter_same,
    lemma_texts_push, opt_text, render, same, texts, Text,
};
use crate::tool_entry::{
    distinct_names, has_tool, lemma_with_tool, made_tool, position_of, take_made, tool_named, tool_names_of,
    tool_views, with_tool, ToolEntry, ToolView,
};

verus! {

/// A tool as it is described to a model.
#[derive(Debug)]
pub struct ToolSpec {
    pub name: String,
    pub description: String,
    pub input_schema: Json,
}

#[verifier::ext_equal]
pub struct ToolSpecView {
    pub name: Text,
    pub description: Text,
    pub input_schema: JsonView,
}

impl View for ToolSpec {
    type V = ToolSpecView;

    open spec fn view(&self) -> ToolSpecView {
        ToolSpecView {
            name: self.name@,
            description: self.description@,
            input_schema: self.input_schema@,
        }
    }
}

pub open spec fn spec_views(specs: Seq<ToolSpec>) -> Seq<ToolSpecView> {
    Seq::new(specs.len(), |i: int| specs[i]@)
}

fn copy_specs(specs: &[ToolSpec]) -> (out: Vec<ToolSpec>)
    ensures
        spec_views(out@) == spec_views(specs@),
{
    let mut out: Vec<ToolSpec> = Vec::new();
    let mut i: usize = 0;
    while i < specs.len()
        invariant
            i <= specs.len(),
            out@.len() == i,
            forall|j: int| 0 <= j < i ==> (#[trigger] out@[j])@ == specs@[j]@,
        decreases specs.len() - i,
    {
        out.push(
            ToolSpec {
                name: specs[i].name.clone(),
                description: specs[i].description.clone(),
                input_schema: copy_json(&specs[i].input_schema),
            },
        );
        i += 1;
    }
    proof {
        assert(spec_views(out@) =~= spec_views(specs@));
    }
    out
}

/// What a registry holds.
#[verifier::ext_equal]
pub struct RegistryView {
    /// The tools, in the order in which they were first registered.
    pub tools: Seq<ToolView>,
    pub workspace_root: Option<Text>,
    /// Hides tools and blocks their calls without removing them.
    pub provider_policy: Option<ToolPolicyView>,
    /// Tags of which a tagged tool must have one to be shown.
    pub context_filter: Option<Seq<Text>>,
    /// Registered tools that are hidden until they are activated.
    pub deferred: Set<Text>,
    pub lifecycle: LifecycleView,
    /// Tools that are programs of plugins.
    pub plugin_tools: Set<Text>,
    /// Tools whose calls run in the background.
    pub spawn_only: Set<Text>,
    pub spawn_only_messages: Map<Text, Text>,
    pub background_result_sender: Option<HostHandle>,
    /// The background tasks that were registered.
    pub supervisor: Seq<TaskView>,
    pub spawn_only_invoked: bool,
    pub session_key: Option<Text>,
    pub output_dir_hint: Option<Text>,
}

impl RegistryView {
    /// A registry without tools.
    pub open spec fn empty() -> RegistryView {
        RegistryView {
            tools: Seq::empty(),
            workspace_root: None,
            provider_policy: None,
            context_filter: None,
            deferred: Set::empty(),
            lifecycle: LifecycleView::fresh(15, 5),
            plugin_tools: Set::empty(),
            spawn_only: Set::empty(),
            spawn_only_messages: Map::empty(),
            background_result_sender: None,
            supervisor: Seq::empty(),
            spawn_only_invoked: false,
            session_key: None,
            output_dir_hint: None,
        }
    }

    /// With a background task of the session.
    pub open spec fn with_task(
        self,
        id: Text,
        tool_name: Text,
        tool_call_id: Text,
        tool_input: Option<JsonView>,
        client_message_id: Option<Text>,
    ) -> RegistryView {
        RegistryView {
            supervisor: self.supervisor.push(
                TaskView {
                    id,
                    tool_name,
                    tool_call_id,
                    session_key: self.session_key,
                    tool_input,
                    client_message_id,
                    active: true,
                },
            ),
            ..self
        }
    }

    /// The names of the registered tools.
    pub open spec fn names(self) -> Set<Text> {
        tool_names_of(self.tools).to_set()
    }

    /// Neither the provider policy nor the context filter hides the tool.
    pub open spec fn passes(self, tool: ToolView) -> bool {
        &&& match self.provider_policy {
            Some(policy) => policy.allows_tagged(tool.name, tool.tags),
            None => true,
        }
        &&& match self.context_filter {
            Some(wanted) => tags_pass(wanted, tool.tags),
            None => true,
        }
    }

    /// A registered tool that would be shown if it were not deferred.
    pub open spec fn loadable(self, name: Text) -> bool {
        match tool_named(self.tools, name) {
            Some(tool) => self.passes(tool),
            None => false,
        }
    }

    /// A tool that a model sees.
    pub open spec fn visible(self, name: Text) -> bool {
        !self.deferred.contains(name) && self.loadable(name)
    }

    /// The deferred tools that activation would show, in order.
    pub open spec fn loadable_deferred(self) -> Seq<Text> {
        sorted_set(self.deferred.filter(|name: Text| self.loadable(name)))
    }

    /// The description of a tool. That of `activate_tools` names the tools that
    /// it can load.
    pub open spec fn description_of(self, tool: ToolView) -> Text {
        if tool.name == "activate_tools"@ && self.loadable_deferred().len() > 0 {
            tool.description + "\n\nCurrently deferred tools available to load: "@ + joined(
                self.loadable_deferred(),
                ", "@,
            ) + ". Call this tool with `tools: [\"<name>\"]` to load them."@
        } else {
            tool.description
        }
    }

    pub open spec fn spec_of(self, tool: ToolView) -> ToolSpecView {
        ToolSpecView {
            name: tool.name,
            description: self.description_of(tool),
            input_schema: tool.input_schema,
        }
    }

    /// What a model is told about the tools.
    pub open spec fn specs(self) -> Seq<ToolSpecView> {
        self.tools.filter(
            |tool: ToolView| !self.deferred.contains(tool.name) && self.passes(tool),
        ).map_values(|tool: ToolView| self.spec_of(tool))
    }

    /// With only the tools that a rule keeps, and nothing noted about tools
    /// that are not registered.
    pub open spec fn restricted(self, keep: spec_fn(Text) -> bool) -> RegistryView {
        let tools = self.tools.filter(|tool: ToolView| keep(tool.name));
        let names = tool_names_of(tools).to_set();
        RegistryView {
            tools,
            spawn_only: self.spawn_only.intersect(names),
            spawn_only_messages: self.spawn_only_messages.restrict(names),
            deferred: self.deferred.intersect(names),
            ..self
        }
    }
}

/// The tools that an agent has, and what is known about each of them.
#[derive(Debug)]
pub struct ToolRegistry {
    tools: Vec<ToolEntry>,
    workspace_root: Option<String>,
    provider_policy: Option<ToolPolicy>,
    context_filter: Option<Vec<String>>,
    /// What `specs` returned last, dropped by whatever could change it.
    cached_specs: Option<Vec<ToolSpec>>,
    deferred: NameSet,
    lifecycle: ToolLifecycle,
    plugin_tools: NameSet,
    spawn_only: NameSet,
    spawn_only_messages: TextMap,
    background_result_sender: Option<HostHandle>,
    supervisor: TaskSupervisor,
    spawn_only_invoked: bool,
    session_key: Option<String>,
    output_dir_hint: Option<String>,
}

impl View for ToolRegistry {
    type V = RegistryView;

    closed spec fn view(&self) -> RegistryView {
        RegistryView {
            tools: tool_views(self.tools@),
            workspace_root: opt_text(self.workspace_root),
            provider_policy: match self.provider_policy {
                Some(policy) => Some(policy@),
                None => None,
            },
            context_filter: match self.context_filter {
                Some(tags) => Some(texts(tags@)),
                None => None,
            },
            deferred: self.deferred@,
            lifecycle: self.lifecycle@,
            plugin_tools: self.plugin_tools@,
            spawn_only: self.spawn_only@,
            spawn_only_messages: self.spawn_only_messages@,
            background_result_sender: self.background_result_sender,
            supervisor: self.supervisor@,
            spawn_only_invoked: self.spawn_only_invoked,
            session_key: opt_text(self.session_key),
            output_dir_hint: opt_text(self.output_dir_hint),
        }
    }
}

impl ToolRegistry {
    /// No two tools share a name, and the cache holds what `specs` would compute.
    pub closed spec fn inv(&self) -> bool {
        &&& distinct_names(self@.tools)
        &&& match self.cached_specs {
            Some(specs) => spec_views(specs@) == self@.specs(),
            None => true,
        }
    }

    /// In a registry no two tools share a name, and finitely many are deferred.
    pub proof fn names_are_distinct(&self)
        requires
            self.inv(),
        ensures
            distinct_names(self@.tools),
            self@.deferred.finite(),
    {
        self.deferred.is_finite();
    }

    /// An empty registry.
    pub fn new() -> (r: ToolRegistry)
        ensures
            r.inv(),
            r@ == RegistryView::empty(),
    {
        let r = ToolRegistry {
            tools: Vec::new(),
            workspace_root: None,
            provider_policy: None,
            context_filter: None,
            cached_specs: None,
            deferred: NameSet::new(),
            lifecycle: ToolLifecycle::default(),
            plugin_tools: NameSet::new(),
            spawn_only: NameSet::new(),
            spawn_only_messages: TextMap::new(),
            background_result_sender: None,
            supervisor: TaskSupervisor::new(),
            spawn_only_invoked: false,
            session_key: None,
            output_dir_hint: None,
        };
        proof {
            assert(r@ =~= RegistryView::empty());
        }
        r
    }

    /// Whether the tool would be shown if it were not deferred.
    pub fn is_tool_visible_post_activation(&self, name: &str) -> (r: bool)
        requires
            self.inv(),
        ensures
            r == self@.loadable(name@),
    {
        match position_of(self.tools.as_slice(), name) {
            None => false,
            Some(i) => self.entry_passes(i),
        }
    }

    fn entry_passes(&self, i: usize) -> (r: bool)
        requires
            i < self@.tools.len(),
        ensures
            r == self@.passes(self@.tools[i as int]),
    {
        let tool = &self.tools[i];
        if let Some(policy) = &self.provider_policy {
            if !policy.is_allowed_with_tags(tool.name.as_str(), tool.tags.as_slice()) {
                return false;
            }
        }
        if let Some(tags) = &self.context_filter {
            if !tags_match(tags.as_slice(), tool.tags.as_slice()) {
                return false;
            }
        }
        true
    }

    /// Whether a model sees the tool: it is registered, not deferred, and
    /// neither the provider policy nor the context filter hides it.
    pub fn is_tool_visible(&self, name: &str) -> (r: bool)
        requires
            self.inv(),
        ensures
            r == self@.visible(name@),
    {
        if self.deferred.contains(name) {
            return false;
        }
        self.is_tool_visible_post_activation(name)
    }

    fn loadable_names(&self) -> (out: Vec<String>)
        requires
            self.inv(),
        ensures
            texts(out@) == self@.loadable_deferred(),
    {
        let items = self.deferred.items();
        let mut found: Vec<String> = Vec::new();
        let ghost all = texts(items@);
        let ghost pred = |name: Text| self@.loadable(name);
        let mut i: usize = 0;
        proof {
            assert(all.take(0) =~= Seq::empty());
            assert(texts(found@) =~= all.take(0).filter(pred));
        }
        while i < items.len()
            invariant
                i <= items.len(),
                self.inv(),
                all == texts(items@),
                pred == (|name: Text| self@.loadable(name)),
                texts(found@) == all.take(i as int).filter(pred),
            decreases items.len() - i,
        {
            proof {
                assert(all.take(i + 1) =~= all.take(i as int).push(items@[i as int]@));
                all.take(i as int).lemma_filter_push(items@[i as int]@, pred);
            }
            if self.is_tool_visible_post_activation(items[i].as_str()) {
                let name = items[i].clone();
                proof {
                    lemma_texts_push(found@, name);
                }
                found.push(name);
            }
            i += 1;
        }
        let out = sort_unique(found.as_slice());
        proof {
            assert(all.take(all.len() as int) =~= all);
            let set = self@.deferred.filter(pred);
            assert forall|t: Text| texts(out@).contains(t) <==> set.contains(t) by {
                lemma_filter_holds(all, pred, t);
            }
            sorts_set_is_sorted(texts(out@), set);
        }
        out
    }

    fn describe(&self, i: usize, loadable: &[String]) -> (r: ToolSpec)
        requires
            i < self@.tools.len(),
            texts(loadable@) == self@.loadable_deferred(),
        ensures
            r@ == self@.spec_of(self@.tools[i as int]),
    {
        let tool = &self.tools[i];
        let mut description = tool.description.clone();
        if same(tool.name.as_str(), "activate_tools") && loadable.len() > 0 {
            description.append("\n\nCurrently deferred tools available to load: ");
            let names = join(loadable, ", ");
            description.append(names.as_str());
            description.append(". Call this tool with `tools: [\"<name>\"]` to load them.");
        }
        ToolSpec {
            name: tool.name.clone(),
            description,
            input_schema: copy_json(&tool.input_schema),
        }
    }

    /// The tools that a model sees, as they are described to it.
    pub fn specs(&mut self) -> (out: Vec<ToolSpec>)
        requires
            old(self).inv(),
        ensures
            final(self).inv(),
            final(self)@ == old(self)@,
            spec_views(out@) == old(self)@.specs(),
    {
        if let Some(specs) = &self.cached_specs {
            return copy_specs(specs.as_slice());
        }
        let loadable = self.loadable_names();
        let mut out: Vec<ToolSpec> = Vec::new();
        let ghost all = self@.tools;
        let ghost shown = |tool: ToolView|
            !self@.deferred.contains(tool.name) && self@.passes(tool);
        let ghost told = |tool: ToolView| self@.spec_of(tool);
        let mut i: usize = 0;
        proof {
            assert(all.take(0) =~= Seq::empty());
            assert(spec_views(out@) =~= all.take(0).filter(shown).map_values(told));
        }
        while i < self.tools.len()
            invariant
                i <= self.tools.len(),
                all == self@.tools,
                *self == *old(self),
                self.inv(),
                texts(loadable@) == self@.loadable_deferred(),
                shown == (|tool: ToolView|
                    !self@.deferred.contains(tool.name) && self@.passes(tool)),
                told == (|tool: ToolView| self@.spec_of(tool)),
                spec_views(out@) == all.take(i as int).filter(shown).map_values(told),
            decreases self.tools.len() - i,
        {
            let ghost before = out@;
            let ghost head = all.take(i as int);
            proof {
                assert(all.take(i + 1) =~= head.push(all[i as int]));
                head.lemma_filter_push(all[i as int], shown);
            }
            if !self.deferred.contains(self.tools[i].name.as_str()) && self.entry_passes(i) {
                let spec_i = self.describe(i, loadable.as_slice());
                out.push(spec_i);
                proof {
                    assert(spec_views(out@) =~= spec_views(before).push(told(all[i as int])));
                    assert(head.filter(shown).push(all[i as int]).map_values(told)
                        =~= head.filter(shown).map_values(told).push(told(all[i as int])));
                }
            }
            i += 1;
        }
        proof {
            assert(all.take(all.len() as int) =~= all);
        }
        self.cached_specs = Some(copy_specs(out.as_slice()));
        proof {
            assert(self@ == old(self)@);
        }
        out
    }
}

/// A name is in the set of names exactly when some tool has it.
pub proof fn lemma_names_hold(tools: Seq<ToolView>, name: Text)
    ensures
        tool_names_of(tools).to_set().contains(name) <==> has_tool(tools, name),
{
    let names = tool_names_of(tools);
    if names.contains(name) {
        let i = names.index_of(name);
        assert(tools[i].name == name);
    }
    if has_tool(tools, name) {
        let i = choose|i: int| 0 <= i < tools.len() && (#[trigger] tools[i]).name == name;
        assert(names[i] == name);
    }
}

/// Distinct names stay distinct when a tool is filtered out.
pub(crate) proof fn lemma_kept_distinct(tools: Seq<ToolView>, pred: spec_fn(ToolView) -> bool)
    requires
        distinct_names(tools),
    ensures
        distinct_names(tools.filter(pred)),
    decreases tools.len(),
{
    reveal(Seq::filter);
    if tools.len() > 0 {
        let rest = tools.drop_last();
        assert forall|i: int, j: int| 0 <= i < j < rest.len() implies (#[trigger] rest[i]).name != (
        #[trigger] rest[j]).name by {
            assert(tools[i].name != tools[j].name);
        }
        lemma_kept_distinct(rest, pred);
        let kept = rest.filter(pred);
        if pred(tools.last()) {
            let all = kept.push(tools.last());
            assert forall|i: int, j: int| 0 <= i < j < all.len() implies (#[trigger] all[i]).name
                != (#[trigger] all[j]).name by {
                if j == kept.len() {
                    assert(kept.contains(kept[i]));
                    lemma_filter_holds(rest, pred, kept[i]);
                    let k = rest.index_of(kept[i]);
                    assert(tools[k].name != tools[tools.len() - 1].name);
                } else {
                    assert(kept[i].name != kept[j].name);
                }
            }
        }
    }
}

/// Rules that agree on the registered tools restrict a registry alike.
proof fn lemma_restricted_same(
    view: RegistryView,
    p: spec_fn(Text) -> bool,
    q: spec_fn(Text) -> bool,
)
    requires
        forall|i: int|
            0 <= i < view.tools.len() ==> p((#[trigger] view.tools[i]).name) == q(
                view.tools[i].name,
            ),
    ensures
        view.restricted(p) == view.restricted(q),
{
    lemma_filter_same(
        view.tools,
        |tool: ToolView| p(tool.name),
        |tool: ToolView| q(tool.name),
    );
}

/// A rule answered `answer` for a name.
pub open spec fn answered<F: Fn(&str) -> bool>(f: F, name: Text, answer: bool) -> bool {
    exists|s: &str| s@ == name && #[trigger] call_ensures(f, (s,), answer)
}

impl ToolRegistry {
    /// Adds a tool, in the place of the one with the same name if there is one.
    pub fn register(&mut self, tool: ToolEntry)
        requires
            old(self).inv(),
        ensures
            final(self).inv(),
            final(self)@ == (RegistryView {
                tools: with_tool(old(self)@.tools, tool@),
                ..old(self)@
            }),
    {
        let ghost before = self@.tools;
        proof {
            lemma_with_tool(before, tool@);
        }
        match position_of(self.tools.as_slice(), tool.name.as_str()) {
            Some(i) => {
                let ghost new = tool@;
                proof {
                    assert(has_tool(before, tool@.name)) by {
                        assert(before[i as int].name == tool@.name);
                    }
                }
                self.tools.set(i, tool);
                proof {
                    let replaced = with_tool(before, new);
                    assert forall|j: int| 0 <= j < before.len() implies #[trigger] tool_views(
                        self.tools@,
                    )[j] == replaced[j] by {
                        if j < i {
                            assert(before[j].name != before[i as int].name);
                        } else if i < j {
                            assert(before[i as int].name != before[j].name);
                        }
                    }
                    assert(tool_views(self.tools@) =~= replaced);
                }
            },
            None => {
                let ghost new = tool@;
                self.tools.push(tool);
                proof {
                    assert(tool_views(self.tools@) =~= before.push(new));
                }
            },
        }
        self.cached_specs = None;
    }

    /// Adds a copy of a tool that is held elsewhere too.
    pub fn register_arc(&mut self, tool: &ToolEntry)
        requires
            old(self).inv(),
        ensures
            final(self).inv(),
            final(self)@ == (RegistryView {
                tools: with_tool(old(self)@.tools, tool@),
                ..old(self)@
            }),
    {
        self.register(tool.copy());
    }

    fn keep_only(&mut self, kept: &NameSet)
        requires
            old(self).inv(),
        ensures
            final(self).inv(),
            final(self)@ == old(self)@.restricted(|name: Text| kept@.contains(name)),
    {
        let ghost all = self@.tools;
        let ghost pred = |tool: ToolView| kept@.contains(tool.name);
        let mut tools: Vec<ToolEntry> = Vec::new();
        let mut names: Vec<String> = Vec::new();
        let mut i: usize = 0;
        proof {
            assert(all.take(0) =~= Seq::empty());
            assert(tool_views(tools@) =~= all.take(0).filter(pred));
            assert(texts(names@) =~= tool_names_of(tool_views(tools@)));
        }
        while i < self.tools.len()
            invariant
                i <= self.tools.len(),
                *self == *old(self),
                all == self@.tools,
                pred == (|tool: ToolView| kept@.contains(tool.name)),
                tool_views(tools@) == all.take(i as int).filter(pred),
                texts(names@) == tool_names_of(tool_views(tools@)),
            decreases self.tools.len() - i,
        {
            proof {
                assert(all.take(i + 1) =~= all.take(i as int).push(all[i as int]));
                all.take(i as int).lemma_filter_push(all[i as int], pred);
            }
            if kept.contains(self.tools[i].name.as_str()) {
                let ghost before = tools@;
                let name = self.tools[i].name.clone();
                proof {
                    lemma_texts_push(names@, name);
                }
                names.push(name);
                tools.push(self.tools[i].copy());
                proof {
                    assert(tool_views(tools@) =~= tool_views(before).push(all[i as int]));
                    assert(tool_names_of(tool_views(tools@)) =~= tool_names_of(
                        tool_views(before),
                    ).push(name@));
                }
            }
            i += 1;
        }
        proof {
            assert(all.take(all.len() as int) =~= all);
            lemma_kept_distinct(all, pred);
        }
        let left = NameSet::of(names.as_slice());
        self.tools = tools;
        self.spawn_only.keep(&left);
        self.spawn_only_messages.keep(&left);
        self.deferred.keep(&left);
        self.cached_specs = None;
        proof {
            let rule = |name: Text| kept@.contains(name);
            let q = |tool: ToolView| rule(tool.name);
            lemma_filter_same(all, pred, q);
            assert(self@ =~= old(self)@.restricted(rule));
        }
    }

    /// Keeps the tools whose names a rule accepts, and drops what was noted
    /// about names that are no longer registered: their background markers and
    /// messages, and their deferral.
    pub fn retain<F: Fn(&str) -> bool>(&mut self, f: F)
        requires
            old(self).inv(),
            forall|s: &str| call_requires(f, (s,)),
        ensures
            final(self).inv(),
            exists|keep: spec_fn(Text) -> bool|
                {
                    &&& final(self)@ == #[trigger] old(self)@.restricted(keep)
                    &&& forall|i: int|
                        0 <= i < old(self)@.tools.len() ==> answered(
                            f,
                            (#[trigger] old(self)@.tools[i]).name,
                            keep(old(self)@.tools[i].name),
                        )
                },
    {
        let ghost all = self@.tools;
        let mut kept = NameSet::new();
        let mut i: usize = 0;
        while i < self.tools.len()
            invariant
                i <= self.tools.len(),
                *self == *old(self),
                self.inv(),
                all == self@.tools,
                forall|s: &str| call_requires(f, (s,)),
                forall|j: int|
                    0 <= j < i ==> answered(
                        f,
                        (#[trigger] all[j]).name,
                        kept@.contains(all[j].name),
                    ),
                forall|j: int| i <= j < all.len() ==> !kept@.contains((#[trigger] all[j]).name),
            decreases self.tools.len() - i,
        {
            let ghost before = kept@;
            let name = self.tools[i].name.as_str();
            let keep = f(name);
            proof {
                assert(name@ == all[i as int].name);
                assert(answered(f, all[i as int].name, keep));
            }
            if keep {
                kept.insert(name);
            }
            proof {
                assert forall|j: int| 0 <= j < all.len() && j != i implies kept@.contains(
                    (#[trigger] all[j]).name,
                ) == before.contains(all[j].name) by {
                    if j < i {
                        assert(all[j].name != all[i as int].name);
                    } else {
                        assert(all[i as int].name != all[j].name);
                    }
                }
            }
            i += 1;
        }
        self.keep_only(&kept);
        proof {
            let keep = |name: Text| kept@.contains(name);
            assert(self@ == old(self)@.restricted(keep));
        }
    }

    /// Removes the tools that a policy does not allow.
    pub fn apply_policy(&mut self, policy: &ToolPolicy)
        requires
            old(self).inv(),
        ensures
            final(self).inv(),
            final(self)@ == if policy@.is_empty() {
                old(self)@
            } else {
                old(self)@.restricted(|name: Text| policy@.allows(name))
            },
    {
        if policy.is_empty() {
            return;
        }
        let ghost all = self@.tools;
        let mut kept = NameSet::new();
        let mut i: usize = 0;
        while i < self.tools.len()
            invariant
                i <= self.tools.len(),
                *self == *old(self),
                all == self@.tools,
                forall|name: Text| kept@.contains(name) ==> policy@.allows(name),
                forall|j: int|
                    0 <= j < i && policy@.allows((#[trigger] all[j]).name) ==> kept@.contains(
                        all[j].name,
                    ),
            decreases self.tools.len() - i,
        {
            let name = self.tools[i].name.as_str();
            if policy.is_allowed(name) {
                kept.insert(name);
            }
            i += 1;
        }
        self.keep_only(&kept);
        proof {
            lemma_restricted_same(
                old(self)@,
                |name: Text| kept@.contains(name),
                |name: Text| policy@.allows(name),
            );
        }
    }
}

/// The profile narrows a registry at all: an empty list is no filter.
pub open spec fn profile_filters(tools: ProfileTools) -> bool {
    match tools {
        ProfileTools::Default => false,
        ProfileTools::AllowList { tools: allow } => allow@.len() > 0,
        ProfileTools::DenyList { tools: deny } => deny@.len() > 0,
    }
}

/// A profile keeps a tool. Tools that run in the background are always kept.
pub open spec fn profile_keeps(tools: ProfileTools, spawn_only: Set<Text>, name: Text) -> bool {
    ||| spawn_only.contains(name)
    ||| match tools {
        ProfileTools::Default => true,
        ProfileTools::AllowList { tools: allow } => list_covers(texts(allow@), name),
        ProfileTools::DenyList { tools: deny } => !list_covers(texts(deny@), name),
    }
}

impl ToolRegistry {
    fn profile_keeps_tool(&self, tools: &ProfileTools, name: &str) -> (r: bool)
        ensures
            r == profile_keeps(*tools, self@.spawn_only, name@),
    {
        if self.spawn_only.contains(name) {
            return true;
        }
        match tools {
            ProfileTools::Default => true,
            ProfileTools::AllowList { tools: allow } => any_entry_matches(allow.as_slice(), name),
            ProfileTools::DenyList { tools: deny } => !any_entry_matches(deny.as_slice(), name),
        }
    }

    /// Narrows the registry to the tools that a profile keeps.
    pub fn filter_by_profile(&mut self, tools: &ProfileTools)
        requires
            old(self).inv(),
        ensures
            final(self).inv(),
            final(self)@ == if profile_filters(*tools) {
                old(self)@.restricted(
                    |name: Text| profile_keeps(*tools, old(self)@.spawn_only, name),
                )
            } else {
                old(self)@
            },
    {
        let filters = match tools {
            ProfileTools::Default => false,
            ProfileTools::AllowList { tools: allow } => allow.len() > 0,
            ProfileTools::DenyList { tools: deny } => deny.len() > 0,
        };
        if !filters {
            return;
        }
        let ghost all = self@.tools;
        let mut kept = NameSet::new();
        let mut i: usize = 0;
        while i < self.tools.len()
            invariant
                i <= self.tools.len(),
                *self == *old(self),
                all == self@.tools,
                forall|name: Text|
                    kept@.contains(name) ==> profile_keeps(*tools, self@.spawn_only, name),
                forall|j: int|
                    0 <= j < i && profile_keeps(*tools, self@.spawn_only, (#[trigger] all[j]).name)
                        ==> kept@.contains(all[j].name),
            decreases self.tools.len() - i,
        {
            let name = self.tools[i].name.as_str();
            if self.profile_keeps_tool(tools, name) {
                kept.insert(name);
            }
            i += 1;
        }
        self.keep_only(&kept);
        proof {
            lemma_restricted_same(
                old(self)@,
                |name: Text| kept@.contains(name),
                |name: Text| profile_keeps(*tools, old(self)@.spawn_only, name),
            );
        }
    }

    /// Sets the policy that hides tools and blocks their calls. An empty policy
    /// changes nothing.
    pub fn set_provider_policy(&mut self, policy: ToolPolicy)
        requires
            old(self).inv(),
        ensures
            final(self).inv(),
            final(self)@ == if policy@.is_empty() {
                old(self)@
            } else {
                RegistryView { provider_policy: Some(policy@), ..old(self)@ }
            },
    {
        if policy.is_empty() {
            return;
        }
        self.provider_policy = Some(policy);
        self.cached_specs = None;
    }

    /// The policy that hides tools and blocks their calls.
    pub fn provider_policy(&self) -> (r: Option<&ToolPolicy>)
        ensures
            match r {
                Some(policy) => self@.provider_policy == Some(policy@),
                None => self@.provider_policy is None,
            },
    {
        match &self.provider_policy {
            Some(policy) => Some(policy),
            None => None,
        }
    }

    /// Sets the tags of which a tagged tool must have one to be shown. No tags
    /// change nothing.
    pub fn set_context_filter(&mut self, tags: Vec<String>)
        requires
            old(self).inv(),
        ensures
            final(self).inv(),
            final(self)@ == if tags@.len() == 0 {
                old(self)@
            } else {
                RegistryView { context_filter: Some(texts(tags@)), ..old(self)@ }
            },
    {
        if tags.len() == 0 {
            return;
        }
        self.context_filter = Some(tags);
        self.cached_specs = None;
    }
}

impl RegistryView {
    /// A registry for another session: the same tools but for the excluded
    /// ones, and nothing that belongs to the session.
    pub open spec fn snapshot(self, exclude: Seq<Text>) -> RegistryView {
        RegistryView {
            tools: self.tools.filter(|tool: ToolView| !exclude.contains(tool.name)),
            lifecycle: LifecycleView {
                base: self.lifecycle.base,
                ..LifecycleView::fresh(self.lifecycle.limit, self.lifecycle.threshold)
            },
            background_result_sender: None,
            supervisor: Seq::empty(),
            spawn_only_invoked: false,
            session_key: None,
            ..self
        }
    }
}

impl ToolRegistry {
    /// A registry for another session, without some of the tools.
    pub fn snapshot_excluding(&self, exclude: &[String]) -> (r: ToolRegistry)
        requires
            self.inv(),
        ensures
            r.inv(),
            r@ == self@.snapshot(texts(exclude@)),
    {
        let ghost all = self@.tools;
        let ghost pred = |tool: ToolView| !texts(exclude@).contains(tool.name);
        let mut tools: Vec<ToolEntry> = Vec::new();
        let mut i: usize = 0;
        proof {
            assert(all.take(0) =~= Seq::empty());
            assert(tool_views(tools@) =~= all.take(0).filter(pred));
        }
        while i < self.tools.len()
            invariant
                i <= self.tools.len(),
                all == self@.tools,
                pred == (|tool: ToolView| !texts(exclude@).contains(tool.name)),
                tool_views(tools@) == all.take(i as int).filter(pred),
            decreases self.tools.len() - i,
        {
            proof {
                assert(all.take(i + 1) =~= all.take(i as int).push(all[i as int]));
                all.take(i as int).lemma_filter_push(all[i as int], pred);
            }
            if !in_list(exclude, self.tools[i].name.as_str()) {
                let ghost before = tools@;
                tools.push(self.tools[i].copy());
                proof {
                    assert(tool_views(tools@) =~= tool_views(before).push(all[i as int]));
                }
            }
            i += 1;
        }
        proof {
            assert(all.take(all.len() as int) =~= all);
            lemma_kept_distinct(all, pred);
        }
        ToolRegistry {
            tools,
            workspace_root: copy_opt(&self.workspace_root),
            provider_policy: match &self.provider_policy {
                Some(policy) => Some(policy.copy()),
                None => None,
            },
            context_filter: match &self.context_filter {
                Some(tags) => Some(copy_list(tags.as_slice())),
                None => None,
            },
            cached_specs: None,
            deferred: self.deferred.copy(),
            lifecycle: self.lifecycle.restarted(),
            plugin_tools: self.plugin_tools.copy(),
            spawn_only: self.spawn_only.copy(),
            spawn_only_messages: self.spawn_only_messages.copy(),
            background_result_sender: None,
            supervisor: TaskSupervisor::new(),
            spawn_only_invoked: false,
            session_key: None,
            output_dir_hint: copy_opt(&self.output_dir_hint),
        }
    }
}

// ---------------------------------------------------------------------------
// Deferral and activation

/// The names of a list that are registered.
pub open spec fn registered_of(tools: Seq<ToolView>, names: Seq<Text>) -> Set<Text> {
    names.to_set().filter(|name: Text| has_tool(tools, name))
}

/// What activation by the name of a group or of a tool takes out of deferral.
pub open spec fn activation(deferred: Set<Text>, group_or_name: Text) -> Seq<Text> {
    match group_tools(group_or_name) {
        Some(tools) => tools.filter(|tool: Text| deferred.contains(tool)),
        None => if deferred.contains(group_or_name) {
            seq![group_or_name]
        } else {
            Seq::empty()
        },
    }
}

/// What a call of a tool takes out of deferral: its group, or the tool alone.
pub open spec fn call_activation(deferred: Set<Text>, name: Text) -> Seq<Text> {
    match group_of(name) {
        Some(group) => activation(deferred, group),
        None => seq![name],
    }
}

impl ToolRegistry {
    /// Hides the registered ones of the tools until they are activated.
    pub fn defer(&mut self, names: &[String])
        requires
            old(self).inv(),
        ensures
            final(self).inv(),
            final(self)@ == (RegistryView {
                deferred: old(self)@.deferred.union(
                    registered_of(old(self)@.tools, texts(names@)),
                ),
                ..old(self)@
            }),
    {
        let ghost all = texts(names@);
        let ghost tools = self@.tools;
        let mut deferred = self.deferred.copy();
        let mut i: usize = 0;
        proof {
            assert(deferred@ =~= self@.deferred.union(registered_of(tools, all.take(0))));
        }
        while i < names.len()
            invariant
                i <= names.len(),
                *self == *old(self),
                self.inv(),
                all == texts(names@),
                tools == self@.tools,
                deferred@ == self@.deferred.union(registered_of(tools, all.take(i as int))),
            decreases names.len() - i,
        {
            let known = position_of(self.tools.as_slice(), names[i].as_str()).is_some();
            if known {
                deferred.insert(names[i].as_str());
            }
            proof {
                let name = names@[i as int]@;
                if known {
                    let k = choose|k: int| 0 <= k < tools.len() && tools[k].name == name;
                    assert(has_tool(tools, name));
                }
                assert(all.take(i + 1) =~= all.take(i as int).push(name));
                all.take(i as int).lemma_push_to_set_commute(name);
                assert(deferred@ =~= self@.deferred.union(registered_of(tools, all.take(i + 1))));
            }
            i += 1;
        }
        proof {
            assert(all.take(all.len() as int) =~= all);
        }
        self.deferred = deferred;
        self.cached_specs = None;
    }

    /// Hides the registered tools of a group until they are activated.
    pub fn defer_group(&mut self, group: &str)
        requires
            old(self).inv(),
        ensures
            final(self).inv(),
            final(self)@ == match group_tools(group@) {
                Some(tools) => RegistryView {
                    deferred: old(self)@.deferred.union(registered_of(old(self)@.tools, tools)),
                    ..old(self)@
                },
                None => old(self)@,
            },
    {
        if let Some(tools) = tool_group_info(group) {
            self.defer(tools.as_slice());
        }
    }

    /// Takes a group of tools, or one tool, out of deferral. Returns the tools
    /// that were deferred.
    pub fn activate(&mut self, group_or_name: &str) -> (out: Vec<String>)
        requires
            old(self).inv(),
        ensures
            final(self).inv(),
            texts(out@) == activation(old(self)@.deferred, group_or_name@),
            final(self)@ == (RegistryView {
                deferred: old(self)@.deferred.difference(texts(out@).to_set()),
                ..old(self)@
            }),
    {
        let ghost before = self@.deferred;
        let mut out: Vec<String> = Vec::new();
        match tool_group_info(group_or_name) {
            Some(tools) => {
                let ghost all = texts(tools@);
                let ghost pred = |tool: Text| before.contains(tool);
                let mut i: usize = 0;
                proof {
                    assert(all.take(0) =~= Seq::empty());
                    assert(texts(out@) =~= all.take(0).filter(pred));
                }
                while i < tools.len()
                    invariant
                        i <= tools.len(),
                        *self == *old(self),
                        before == self@.deferred,
                        all == texts(tools@),
                        pred == (|tool: Text| before.contains(tool)),
                        texts(out@) == all.take(i as int).filter(pred),
                    decreases tools.len() - i,
                {
                    proof {
                        assert(all.take(i + 1) =~= all.take(i as int).push(tools@[i as int]@));
                        all.take(i as int).lemma_filter_push(tools@[i as int]@, pred);
                    }
                    if self.deferred.contains(tools[i].as_str()) {
                        let name = tools[i].clone();
                        proof {
                            lemma_texts_push(out@, name);
                        }
                        out.push(name);
                    }
                    i += 1;
                }
                proof {
                    assert(all.take(all.len() as int) =~= all);
                }
            },
            None => {
                if self.deferred.contains(group_or_name) {
                    out.push(group_or_name.to_owned());
                }
                proof {
                    assert(texts(out@) =~= activation(before, group_or_name@));
                }
            },
        }
        self.release(out.as_slice());
        out
    }

    fn release(&mut self, names: &[String])
        requires
            old(self).inv(),
        ensures
            final(self).inv(),
            final(self)@ == (RegistryView {
                deferred: old(self)@.deferred.difference(texts(names@).to_set()),
                ..old(self)@
            }),
    {
        let ghost all = texts(names@);
        let mut i: usize = 0;
        proof {
            assert(self@.deferred =~= self@.deferred.difference(all.take(0).to_set()));
        }
        if names.len() > 0 {
            self.cached_specs = None;
        }
        while i < names.len()
            invariant
                i <= names.len(),
                names.len() > 0 ==> self.cached_specs is None,
                self.inv(),
                all == texts(names@),
                self@ == (RegistryView {
                    deferred: old(self)@.deferred.difference(all.take(i as int).to_set()),
                    ..old(self)@
                }),
            decreases names.len() - i,
        {
            self.deferred.remove(names[i].as_str());
            proof {
                let name = names@[i as int]@;
                assert(all.take(i + 1) =~= all.take(i as int).push(name));
                all.take(i as int).lemma_push_to_set_commute(name);
                assert(self@.deferred =~= old(self)@.deferred.difference(
                    all.take(i + 1).to_set(),
                ));
            }
            i += 1;
        }
        proof {
            assert(all.take(all.len() as int) =~= all);
        }
    }

    /// Whether any tools are deferred.
    pub fn has_deferred(&self) -> (r: bool)
        ensures
            r == (self@.deferred != Set::<Text>::empty()),
    {
        !self.deferred.is_empty()
    }
}

/// Something that can be activated by name.
#[derive(Debug)]
pub struct DeferredGroup {
    /// The name of a group, or of a tool in no group.
    pub name: String,
    pub description: String,
    /// How many deferred tools there are under the name.
    pub count: usize,
}

pub struct DeferredGroupView {
    pub name: Text,
    pub description: Text,
    pub count: nat,
}

impl View for DeferredGroup {
    type V = DeferredGroupView;

    open spec fn view(&self) -> DeferredGroupView {
        DeferredGroupView {
            name: self.name@,
            description: self.description@,
            count: self.count as nat,
        }
    }
}

pub open spec fn deferred_group_views(groups: Seq<DeferredGroup>) -> Seq<DeferredGroupView> {
    Seq::new(groups.len(), |i: int| groups[i]@)
}

/// How many tools of a list are deferred.
pub open spec fn deferred_count(deferred: Set<Text>, tools: Seq<Text>) -> nat {
    tools.filter(|tool: Text| deferred.contains(tool)).len()
}

/// The groups of a table with deferred tools, in the order of the table.
pub open spec fn groups_with_deferred(
    deferred: Set<Text>,
    table: Seq<ToolGroupView>,
) -> Seq<DeferredGroupView> {
    table.filter(|group: ToolGroupView| deferred_count(deferred, group.tools) > 0).map_values(
        |group: ToolGroupView|
            DeferredGroupView {
                name: group.name,
                description: group.description,
                count: deferred_count(deferred, group.tools),
            },
    )
}

/// What can be activated: groups with deferred tools, then deferred tools that
/// are in no group, in order.
pub open spec fn activation_targets(deferred: Set<Text>) -> Seq<DeferredGroupView> {
    groups_with_deferred(deferred, tool_groups()) + sorted_set(
        deferred.filter(|name: Text| group_of(name) is None),
    ).map_values(
        |name: Text| DeferredGroupView { name, description: "Plugin tool"@, count: 1 },
    )
}

impl ToolRegistry {
    fn count_deferred(&self, tools: &[String]) -> (r: usize)
        ensures
            r == deferred_count(self@.deferred, texts(tools@)),
    {
        let ghost all = texts(tools@);
        let ghost pred = |tool: Text| self@.deferred.contains(tool);
        let mut r: usize = 0;
        let mut i: usize = 0;
        proof {
            assert(all.take(0) =~= Seq::empty());
            reveal(Seq::filter);
        }
        while i < tools.len()
            invariant
                i <= tools.len(),
                r <= i,
                all == texts(tools@),
                pred == (|tool: Text| self@.deferred.contains(tool)),
                r == all.take(i as int).filter(pred).len(),
            decreases tools.len() - i,
        {
            proof {
                assert(all.take(i + 1) =~= all.take(i as int).push(tools@[i as int]@));
                all.take(i as int).lemma_filter_push(tools@[i as int]@, pred);
            }
            if self.deferred.contains(tools[i].as_str()) {
                r += 1;
            }
            i += 1;
        }
        proof {
            assert(all.take(all.len() as int) =~= all);
        }
        r
    }

    fn deferred_in_groups(&self) -> (out: Vec<DeferredGroup>)
        ensures
            deferred_group_views(out@) == groups_with_deferred(self@.deferred, tool_groups()),
    {
        let groups = all_tool_groups();
        let ghost table = tool_groups();
        let ghost some = |group: ToolGroupView| deferred_count(self@.deferred, group.tools) > 0;
        let ghost told = |group: ToolGroupView|
            DeferredGroupView {
                name: group.name,
                description: group.description,
                count: deferred_count(self@.deferred, group.tools),
            };
        let mut out: Vec<DeferredGroup> = Vec::new();
        let mut i: usize = 0;
        proof {
            assert(table.take(0) =~= Seq::empty());
            assert(deferred_group_views(out@) =~= table.take(0).filter(some).map_values(told));
        }
        while i < groups.len()
            invariant
                i <= groups.len(),
                table == group_views(groups@),
                some == (|group: ToolGroupView| deferred_count(self@.deferred, group.tools) > 0),
                told == (|group: ToolGroupView|
                    DeferredGroupView {
                        name: group.name,
                        description: group.description,
                        count: deferred_count(self@.deferred, group.tools),
                    }),
                deferred_group_views(out@) == table.take(i as int).filter(some).map_values(told),
            decreases groups.len() - i,
        {
            let ghost before = out@;
            let ghost head = table.take(i as int);
            proof {
                assert(table.take(i + 1) =~= head.push(table[i as int]));
                head.lemma_filter_push(table[i as int], some);
            }
            let count: usize = self.count_deferred(groups[i].tools.as_slice());
            if count > 0 {
                out.push(
                    DeferredGroup {
                        name: groups[i].name.clone(),
                        description: groups[i].description.clone(),
                        count,
                    },
                );
                proof {
                    assert(deferred_group_views(out@) =~= deferred_group_views(before).push(
                        told(table[i as int]),
                    ));
                    assert(head.filter(some).push(table[i as int]).map_values(told)
                        =~= head.filter(some).map_values(told).push(told(table[i as int])));
                }
            }
            i += 1;
        }
        proof {
            assert(table.take(table.len() as int) =~= table);
        }
        out
    }

    fn ungrouped_names(&self) -> (out: Vec<String>)
        ensures
            texts(out@) == sorted_set(
                self@.deferred.filter(|name: Text| group_of(name) is None),
            ),
    {
        let items = self.deferred.items();
        let ghost all = texts(items@);
        let ghost pred = |name: Text| group_of(name) is None;
        let mut found: Vec<String> = Vec::new();
        let mut i: usize = 0;
        proof {
            assert(all.take(0) =~= Seq::empty());
            assert(texts(found@) =~= all.take(0).filter(pred));
        }
        while i < items.len()
            invariant
                i <= items.len(),
                all == texts(items@),
                pred == (|name: Text| group_of(name) is None),
                texts(found@) == all.take(i as int).filter(pred),
            decreases items.len() - i,
        {
            proof {
                assert(all.take(i + 1) =~= all.take(i as int).push(items@[i as int]@));
                all.take(i as int).lemma_filter_push(items@[i as int]@, pred);
            }
            if group_of_tool(items[i].as_str()).is_none() {
                let name = items[i].clone();
                proof {
                    lemma_texts_push(found@, name);
                }
                found.push(name);
            }
            i += 1;
        }
        let out = sort_unique(found.as_slice());
        proof {
            assert(all.take(all.len() as int) =~= all);
            let set = self@.deferred.filter(pred);
            assert forall|t: Text| texts(out@).contains(t) <==> set.contains(t) by {
                lemma_filter_holds(all, pred, t);
            }
            sorts_set_is_sorted(texts(out@), set);
        }
        out
    }

    /// The tools that are put aside.
    pub fn deferred_tools(&self) -> (r: &NameSet)
        ensures
            r@ == self@.deferred,
    {
        &self.deferred
    }

    /// What can be activated: groups with deferred tools, then deferred tools
    /// that are in no group.
    pub fn deferred_groups(&self) -> (out: Vec<DeferredGroup>)
        ensures
            deferred_group_views(out@) == activation_targets(self@.deferred),
    {
        let mut out = self.deferred_in_groups();
        let ghost grouped = deferred_group_views(out@);
        let names = self.ungrouped_names();
        let ghost all = texts(names@);
        let ghost told = |name: Text| DeferredGroupView { name, description: "Plugin tool"@, count: 1 };
        let mut i: usize = 0;
        proof {
            assert(grouped =~= grouped + all.take(0).map_values(told));
        }
        while i < names.len()
            invariant
                i <= names.len(),
                all == texts(names@),
                told == (|name: Text| DeferredGroupView { name, description: "Plugin tool"@, count: 1 }),
                deferred_group_views(out@) == grouped + all.take(i as int).map_values(told),
            decreases names.len() - i,
        {
            let ghost before = out@;
            out.push(
                DeferredGroup {
                    name: names[i].clone(),
                    description: "Plugin tool".to_owned(),
                    count: 1,
                },
            );
            proof {
                assert(deferred_group_views(out@) =~= deferred_group_views(before).push(
                    told(all[i as int]),
                ));
                assert(grouped + all.take(i + 1).map_values(told) =~= (grouped + all.take(
                    i as int,
                ).map_values(told)).push(told(all[i as int])));
            }
            i += 1;
        }
        proof {
            assert(all.take(all.len() as int) =~= all);
        }
        out
    }

    // -----------------------------------------------------------------------
    // Putting idle tools aside

    /// Pins exactly these tools.
    pub fn set_base_tools(&mut self, names: &[String])
        requires
            old(self).inv(),
        ensures
            final(self).inv(),
            final(self)@ == (RegistryView {
                lifecycle: LifecycleView {
                    base: texts(names@).to_set(),
                    ..old(self)@.lifecycle
                },
                ..old(self)@
            }),
    {
        self.lifecycle.set_base_tools(names);
        proof {
            self.lemma_specs_unmoved(*old(self));
        }
    }

    /// Pins these tools beside the ones that are pinned.
    pub fn add_base_tools(&mut self, names: &[String])
        requires
            old(self).inv(),
        ensures
            final(self).inv(),
            final(self)@ == (RegistryView {
                lifecycle: LifecycleView {
                    base: old(self)@.lifecycle.base.union(texts(names@).to_set()),
                    ..old(self)@.lifecycle
                },
                ..old(self)@
            }),
    {
        self.lifecycle.add_base_tools(names);
        proof {
            self.lemma_specs_unmoved(*old(self));
        }
    }

    /// Notes that a tool is used in the current iteration.
    pub fn record_usage(&mut self, name: &str)
        requires
            old(self).inv(),
        ensures
            final(self).inv(),
            final(self)@ == (RegistryView {
                lifecycle: old(self)@.lifecycle.used(name@),
                ..old(self)@
            }),
    {
        self.lifecycle.record_usage(name);
        proof {
            self.lemma_specs_unmoved(*old(self));
        }
    }

    /// Changes how many tools may be active and how long one may be idle.
    pub fn set_limits(&mut self, max_active: usize, idle_threshold: u32)
        requires
            old(self).inv(),
        ensures
            final(self).inv(),
            final(self)@ == (RegistryView {
                lifecycle: LifecycleView {
                    limit: max_active,
                    threshold: idle_threshold,
                    ..old(self)@.lifecycle
                },
                ..old(self)@
            }),
    {
        self.lifecycle.set_limits(max_active, idle_threshold);
        proof {
            self.lemma_specs_unmoved(*old(self));
        }
    }

    /// Goes on to the next iteration.
    pub fn tick(&mut self)
        requires
            old(self).inv(),
            old(self)@.lifecycle.now < u32::MAX,
        ensures
            final(self).inv(),
            final(self)@ == (RegistryView {
                lifecycle: old(self)@.lifecycle.ticked(),
                ..old(self)@
            }),
    {
        self.lifecycle.tick();
        proof {
            self.lemma_specs_unmoved(*old(self));
        }
    }

    /// The current iteration.
    pub fn iteration(&self) -> (r: u32)
        ensures
            r == self@.lifecycle.now,
    {
        self.lifecycle.iteration()
    }

    /// What a model sees does not depend on what the session notes.
    proof fn lemma_specs_unmoved(&self, other: ToolRegistry)
        requires
            self@.tools == other@.tools,
            self@.deferred == other@.deferred,
            self@.provider_policy == other@.provider_policy,
            self@.context_filter == other@.context_filter,
        ensures
            self@.specs() == other@.specs(),
    {
        let a = self@;
        let b = other@;
        assert(a.deferred.filter(|name: Text| a.loadable(name)) =~= b.deferred.filter(
            |name: Text| b.loadable(name),
        ));
        lemma_filter_same(
            a.tools,
            |tool: ToolView| !a.deferred.contains(tool.name) && a.passes(tool),
            |tool: ToolView| !b.deferred.contains(tool.name) && b.passes(tool),
        );
        assert(a.specs() =~= b.specs());
    }

    /// The tools that can be put aside: those that are neither deferred
    /// already nor run in the background.
    fn active_names(&self) -> (out: Vec<String>)
        ensures
            texts(out@) == self@.active(),
    {
        let ghost all = self@.tools;
        let ghost pred = |tool: ToolView|
            !self@.deferred.contains(tool.name) && !self@.spawn_only.contains(tool.name);
        let mut out: Vec<String> = Vec::new();
        let mut i: usize = 0;
        proof {
            assert(all.take(0) =~= Seq::empty());
            assert(texts(out@) =~= tool_names_of(all.take(0).filter(pred)));
        }
        while i < self.tools.len()
            invariant
                i <= self.tools.len(),
                all == self@.tools,
                pred == (|tool: ToolView|
                    !self@.deferred.contains(tool.name) && !self@.spawn_only.contains(tool.name)),
                texts(out@) == tool_names_of(all.take(i as int).filter(pred)),
            decreases self.tools.len() - i,
        {
            let ghost head = all.take(i as int);
            proof {
                assert(all.take(i + 1) =~= head.push(all[i as int]));
                head.lemma_filter_push(all[i as int], pred);
            }
            let name = self.tools[i].name.as_str();
            if !self.deferred.contains(name) && !self.spawn_only.contains(name) {
                let item = name.to_owned();
                proof {
                    lemma_texts_push(out@, item);
                    assert(tool_names_of(head.filter(pred).push(all[i as int])) =~= tool_names_of(
                        head.filter(pred),
                    ).push(item@));
                }
                out.push(item);
            }
            i += 1;
        }
        proof {
            assert(all.take(all.len() as int) =~= all);
        }
        out
    }

    /// Puts idle tools aside when too many are active. Returns their names.
    pub fn auto_evict(&mut self) -> (out: Vec<String>)
        requires
            old(self).inv(),
        ensures
            final(self).inv(),
            old(self)@.lifecycle.evicts(old(self)@.active(), texts(out@)),
            final(self)@ == (RegistryView {
                deferred: old(self)@.deferred.union(texts(out@).to_set()),
                ..old(self)@
            }),
    {
        let active = self.active_names();
        let out = self.lifecycle.find_evictable(active.as_slice());
        if out.len() > 0 {
            self.cached_specs = None;
        }
        self.deferred.extend(out.as_slice());
        proof {
            if out@.len() == 0 {
                assert(texts(out@).to_set() =~= Set::<Text>::empty());
                assert(self@.deferred =~= old(self)@.deferred);
                self.lemma_specs_unmoved(*old(self));
            }
        }
        out
    }
}

impl RegistryView {
    /// The tools that can be put aside.
    pub open spec fn active(self) -> Seq<Text> {
        tool_names_of(
            self.tools.filter(
                |tool: ToolView|
                    !self.deferred.contains(tool.name) && !self.spawn_only.contains(tool.name),
            ),
        )
    }
}

// ---------------------------------------------------------------------------
// Calls

/// The largest size of the arguments of a call.
pub const MAX_ARGS_SIZE: usize = 1048576;

impl RegistryView {
    /// Why the provider policy refuses a call, if it does.
    pub open spec fn policy_refusal(self, name: Text) -> Option<Text> {
        match self.provider_policy {
            Some(policy) => if policy.allows(name) {
                None
            } else {
                Some(
                    "tool '"@ + name + "' denied by provider policy ("@ + denial_reason(
                        policy,
                        name,
                    ) + ")"@,
                )
            },
            None => None,
        }
    }

    /// Why a call is refused, if it is.
    pub open spec fn refusal(self, name: Text, size: nat) -> Option<Text> {
        if self.policy_refusal(name) is Some {
            self.policy_refusal(name)
        } else if size > MAX_ARGS_SIZE {
            Some(
                "tool '"@ + name + "' arguments too large: ~"@ + decimal(size)
                    + " bytes (max 1048576)"@,
            )
        } else if !has_tool(self.tools, name) {
            Some("unknown tool: "@ + name)
        } else {
            None
        }
    }

    /// What is deferred once a tool has been called.
    pub open spec fn deferred_after_call(self, name: Text) -> Set<Text> {
        if self.deferred.contains(name) {
            self.deferred.difference(call_activation(self.deferred, name).to_set())
        } else {
            self.deferred
        }
    }

    /// The registry once a tool has been called. A call that the policy refuses
    /// leaves no trace. Any other loads a deferred tool, and counts as a use if
    /// the tool is executed.
    pub open spec fn after_call(self, name: Text, size: nat) -> RegistryView {
        if self.policy_refusal(name) is Some {
            self
        } else {
            RegistryView {
                deferred: self.deferred_after_call(name),
                lifecycle: if self.refusal(name, size) is None {
                    self.lifecycle.used(name)
                } else {
                    self.lifecycle
                },
                ..self
            }
        }
    }
}

fn denied_text(name: &str, reason: &str) -> (r: String)
    ensures
        r@ == "tool '"@ + name@ + "' denied by provider policy ("@ + reason@ + ")"@,
{
    let mut r = "tool '".to_owned();
    r.append(name);
    r.append("' denied by provider policy (");
    r.append(reason);
    r.append(")");
    r
}

fn oversized_text(name: &str, size: usize) -> (r: String)
    ensures
        r@ == "tool '"@ + name@ + "' arguments too large: ~"@ + decimal(size as nat)
            + " bytes (max 1048576)"@,
{
    let mut r = "tool '".to_owned();
    r.append(name);
    r.append("' arguments too large: ~");
    let n = render(size as u64);
    r.append(n.as_str());
    r.append(" bytes (max 1048576)");
    r
}

impl ToolRegistry {
    fn load_for_call(&mut self, name: &str)
        requires
            old(self).inv(),
        ensures
            final(self).inv(),
            final(self)@ == (RegistryView {
                deferred: old(self)@.deferred_after_call(name@),
                ..old(self)@
            }),
    {
        if !self.deferred.contains(name) {
            return;
        }
        match group_of_tool(name) {
            Some(group) => {
                self.activate(group.as_str());
            },
            None => {
                let mut alone: Vec<String> = Vec::new();
                alone.push(name.to_owned());
                proof {
                    assert(texts(alone@) =~= seq![name@]);
                }
                self.release(alone.as_slice());
            },
        }
    }

    /// Decides on a call with empty context. See `execute_with_context`.
    pub fn execute(&mut self, name: &str, args: &Json) -> (r: Result<(), String>)
        requires
            old(self).inv(),
        ensures
            final(self).inv(),
            final(self)@ == old(self)@.after_call(name@, capped(json_size(*args))),
            match r {
                Ok(_) => old(self)@.refusal(name@, capped(json_size(*args))) is None,
                Err(text) => old(self)@.refusal(name@, capped(json_size(*args))) == Some(text@),
            },
    {
        let context = ToolContext::zero();
        self.execute_with_context(&context, name, args)
    }

    /// Decides whether a call is executed, and loads the tool if it is
    /// deferred. The context is for the tool alone and decides nothing.
    pub fn execute_with_context(
        &mut self,
        _context: &ToolContext,
        name: &str,
        args: &Json,
    ) -> (r: Result<(), String>)
        requires
            old(self).inv(),
        ensures
            final(self).inv(),
            final(self)@ == old(self)@.after_call(name@, capped(json_size(*args))),
            match r {
                Ok(_) => old(self)@.refusal(name@, capped(json_size(*args))) is None,
                Err(text) => old(self)@.refusal(name@, capped(json_size(*args))) == Some(text@),
            },
    {
        if let Some(policy) = &self.provider_policy {
            if let PolicyDecision::Deny { reason } = policy.evaluate(name) {
                return Err(denied_text(name, reason.as_str()));
            }
        }
        self.load_for_call(name);
        let size: usize = estimate_json_size(args);
        if size > MAX_ARGS_SIZE {
            return Err(oversized_text(name, size));
        }
        if position_of(self.tools.as_slice(), name).is_none() {
            let mut text = "unknown tool: ".to_owned();
            text.append(name);
            return Err(text);
        }
        self.record_usage(name);
        Ok(())
    }
}

// ---------------------------------------------------------------------------
// Tools that run in the background

/// What is said of a tool that runs in the background, if nothing else is set.
pub open spec fn background_notice() -> Text {
    "SUCCESS: Task is now running in background. The result will be delivered to the user automatically. No further action needed."@
}

/// A directory with a slash at its end.
pub open spec fn slashed(dir: Text) -> Text {
    if "/"@.is_suffix_of(dir) {
        dir
    } else {
        dir + "/"@
    }
}

impl RegistryView {
    /// Where tools that run in the background write.
    pub open spec fn output_dir(self) -> Text {
        match self.output_dir_hint {
            Some(dir) => dir,
            None => "skill-output/"@,
        }
    }

    pub open spec fn spawn_only_message(self, name: Text) -> Text {
        (if self.spawn_only_messages.dom().contains(name) {
            self.spawn_only_messages[name]
        } else {
            background_notice()
        }) + "\nOutput directory: "@ + self.output_dir()
    }

    /// The summary that a handle for background work carries.
    pub open spec fn handle_summary(self, name: Text) -> Text {
        if self.spawn_only_messages.dom().contains(name) {
            self.spawn_only_messages[name]
        } else {
            "Background work started for `"@ + name
                + "`. The final result will be delivered automatically when ready. Use read_task_output(task_handle, mode={…}) to inspect intermediate output without bloating context."@
        }
    }

    /// The handle that stands for background work.
    pub open spec fn handle(self, name: Text, task_id: Text, files: Seq<Text>) -> JsonView {
        JsonView::Object(
            seq![
                ("expected_files"@, str_array_view(files)),
                ("ok"@, JsonView::Bool(true)),
                ("output_dir"@, JsonView::Str(self.output_dir())),
                (
                    "read_modes"@,
                    str_array_view(seq!["head"@, "tail"@, "grep"@, "line_range"@, "file"@]),
                ),
                ("read_with"@, JsonView::Str("read_task_output"@)),
                ("summary"@, JsonView::Str(self.handle_summary(name))),
                ("task_handle"@, JsonView::Str(task_id)),
            ],
        )
    }
}

/// The texts of a list of literals.
fn owned(list: &[&str]) -> (out: Vec<String>)
    ensures
        texts(out@) == list@.map_values(|s: &str| s@),
{
    let mut out: Vec<String> = Vec::new();
    let mut i: usize = 0;
    while i < list.len()
        invariant
            i <= list.len(),
            out@.len() == i,
            forall|j: int| 0 <= j < i ==> (#[trigger] out@[j])@ == list@[j]@,
        decreases list.len() - i,
    {
        out.push(list[i].to_owned());
        i += 1;
    }
    proof {
        assert(texts(out@) =~= list@.map_values(|s: &str| s@));
    }
    out
}

impl ToolRegistry {
    /// Notes that a tool is a program of a plugin.
    pub fn mark_as_plugin(&mut self, name: &str)
        requires
            old(self).inv(),
        ensures
            final(self).inv(),
            final(self)@ == (RegistryView {
                plugin_tools: old(self)@.plugin_tools.insert(name@),
                ..old(self)@
            }),
    {
        self.plugin_tools.insert(name);
        proof {
            self.lemma_specs_unmoved(*old(self));
        }
    }

    /// Whether a tool is a program of a plugin.
    pub fn is_plugin(&self, name: &str) -> (r: bool)
        ensures
            r == self@.plugin_tools.contains(name@),
    {
        self.plugin_tools.contains(name)
    }

    /// The number of background tasks that have not ended.
    pub fn bg_task_count(&self) -> (r: u32)
        ensures
            r == active_count(self@.supervisor) as u32,
    {
        self.supervisor.task_count() as u32
    }

    /// Sets the session that background tasks belong to.
    pub fn set_session_key(&mut self, key: String)
        requires
            old(self).inv(),
        ensures
            final(self).inv(),
            final(self)@ == (RegistryView { session_key: Some(key@), ..old(self)@ }),
    {
        self.session_key = Some(key);
        proof {
            self.lemma_specs_unmoved(*old(self));
        }
    }

    /// Marks a tool to run in the background, with a message of its own if one
    /// is given.
    pub fn mark_spawn_only(&mut self, name: &str, message: Option<String>)
        requires
            old(self).inv(),
        ensures
            final(self).inv(),
            final(self)@ == (RegistryView {
                spawn_only: old(self)@.spawn_only.insert(name@),
                spawn_only_messages: match message {
                    Some(text) => old(self)@.spawn_only_messages.insert(name@, text@),
                    None => old(self)@.spawn_only_messages,
                },
                ..old(self)@
            }),
    {
        self.spawn_only.insert(name);
        if let Some(text) = message {
            self.spawn_only_messages.insert(name, text);
        }
        proof {
            self.lemma_specs_unmoved(*old(self));
        }
    }

    /// Whether a tool is marked to run in the background.
    pub fn is_spawn_only(&self, name: &str) -> (r: bool)
        ensures
            r == self@.spawn_only.contains(name@),
    {
        self.spawn_only.contains(name)
    }

    /// Takes all background markers and messages away.
    pub fn clear_spawn_only(&mut self)
        requires
            old(self).inv(),
        ensures
            final(self).inv(),
            final(self)@ == (RegistryView {
                spawn_only: Set::empty(),
                spawn_only_messages: Map::empty(),
                ..old(self)@
            }),
    {
        self.spawn_only = NameSet::new();
        self.spawn_only_messages = TextMap::new();
        self.cached_specs = None;
    }

    /// The tools that are marked to run in the background.
    pub fn spawn_only_tools(&self) -> (r: &NameSet)
        ensures
            r@ == self@.spawn_only,
    {
        &self.spawn_only
    }

    fn output_dir(&self) -> (r: String)
        ensures
            r@ == self@.output_dir(),
    {
        match &self.output_dir_hint {
            Some(dir) => dir.clone(),
            None => "skill-output/".to_owned(),
        }
    }

    /// What is answered to a call that runs in the background, in words.
    pub fn spawn_only_message(&self, name: &str) -> (r: String)
        ensures
            r@ == self@.spawn_only_message(name@),
    {
        let mut r = match self.spawn_only_messages.get(name) {
            Some(text) => text,
            None => "SUCCESS: Task is now running in background. The result will be delivered to the user automatically. No further action needed.".to_owned(),
        };
        r.append("\nOutput directory: ");
        let dir = self.output_dir();
        r.append(dir.as_str());
        r
    }

    /// What is answered to a call that runs in the background: a handle by
    /// which its output can be read.
    pub fn spawn_only_handle_message(
        &self,
        name: &str,
        task_id: &str,
        expected_files: &[String],
    ) -> (r: String)
        ensures
            r@ == json_text(self@.handle(name@, task_id@, texts(expected_files@))),
    {
        let summary = match self.spawn_only_messages.get(name) {
            Some(text) => text,
            None => {
                let mut text = "Background work started for `".to_owned();
                text.append(name);
                text.append("`. The final result will be delivered automatically when ready. Use read_task_output(task_handle, mode={…}) to inspect intermediate output without bloating context.");
                text
            },
        };
        let dir = self.output_dir();
        let list: [&str; 5] = ["head", "tail", "grep", "line_range", "file"];
        let modes = owned(list.as_slice());
        proof {
            assert(texts(modes@) =~= seq!["head"@, "tail"@, "grep"@, "line_range"@, "file"@]);
        }
        let mut members: Vec<JsonMember> = Vec::new();
        put(&mut members, "expected_files", str_array(expected_files));
        put(&mut members, "ok", Json::Bool(true));
        put(&mut members, "output_dir", str_value(dir.as_str()));
        put(&mut members, "read_modes", str_array(modes.as_slice()));
        put(&mut members, "read_with", str_value("read_task_output"));
        put(&mut members, "summary", str_value(summary.as_str()));
        put(&mut members, "task_handle", str_value(task_id));
        let payload = Json::Object(members);
        proof {
            let wanted = self@.handle(name@, task_id@, texts(expected_files@));
            assert(payload@->Object_0 =~= wanted->Object_0);
        }
        to_text(&payload)
    }

    /// Sets where tools that run in the background write.
    pub fn set_output_dir_hint(&mut self, output_dir: &str)
        requires
            old(self).inv(),
        ensures
            final(self).inv(),
            final(self)@ == (RegistryView {
                output_dir_hint: Some(slashed(output_dir@)),
                ..old(self)@
            }),
    {
        let mut dir = output_dir.to_owned();
        if !ends_with(output_dir, "/") {
            dir.append("/");
        }
        self.output_dir_hint = Some(dir);
        proof {
            self.lemma_specs_unmoved(*old(self));
        }
    }

    /// Sets who is told about the results of background work.
    pub fn set_background_result_sender(&mut self, sender: HostHandle)
        requires
            old(self).inv(),
        ensures
            final(self).inv(),
            final(self)@ == (RegistryView {
                background_result_sender: Some(sender),
                ..old(self)@
            }),
    {
        self.background_result_sender = Some(sender);
        proof {
            self.lemma_specs_unmoved(*old(self));
        }
    }

    /// Who is told about the results of background work.
    pub fn background_result_sender(&self) -> (r: Option<HostHandle>)
        ensures
            r == self@.background_result_sender,
    {
        self.background_result_sender
    }

    /// The supervisor of background tasks.
    pub fn supervisor(&self) -> (r: &TaskSupervisor)
        ensures
            r@ == self@.supervisor,
    {
        &self.supervisor
    }

    /// The root of the workspace.
    pub fn workspace_root(&self) -> (r: Option<&str>)
        ensures
            match r {
                Some(root) => self@.workspace_root == Some(root@),
                None => self@.workspace_root is None,
            },
    {
        match &self.workspace_root {
            Some(root) => Some(root.as_str()),
            None => None,
        }
    }

    /// Sets the root of the workspace without touching the tools.
    pub fn set_workspace_root(&mut self, cwd: String)
        requires
            old(self).inv(),
        ensures
            final(self).inv(),
            final(self)@ == (RegistryView { workspace_root: Some(cwd@), ..old(self)@ }),
    {
        self.workspace_root = Some(cwd);
        proof {
            self.lemma_specs_unmoved(*old(self));
        }
    }

    /// Registers a background task under an id that the host made for it.
    pub fn register_task(&mut self, id: String, tool_name: &str, tool_call_id: &str) -> (r: String)
        requires
            old(self).inv(),
        ensures
            final(self).inv(),
            r@ == id@,
            final(self)@ == old(self)@.with_task(id@, tool_name@, tool_call_id@, None, None),
    {
        self.register_task_with_input(id, tool_name, tool_call_id, None)
    }

    /// Registers a background task with what its tool was called with.
    pub fn register_task_with_input(
        &mut self,
        id: String,
        tool_name: &str,
        tool_call_id: &str,
        tool_input: Option<Json>,
    ) -> (r: String)
        requires
            old(self).inv(),
        ensures
            final(self).inv(),
            r@ == id@,
            final(self)@ == old(self)@.with_task(
                id@,
                tool_name@,
                tool_call_id@,
                opt_json(tool_input),
                None,
            ),
    {
        self.register_task_with_input_and_cmid(id, tool_name, tool_call_id, tool_input, None)
    }

    /// Registers a background task with what its tool was called with and the
    /// message that led to it.
    pub fn register_task_with_input_and_cmid(
        &mut self,
        id: String,
        tool_name: &str,
        tool_call_id: &str,
        tool_input: Option<Json>,
        originating_client_message_id: Option<String>,
    ) -> (r: String)
        requires
            old(self).inv(),
        ensures
            final(self).inv(),
            r@ == id@,
            final(self)@ == old(self)@.with_task(
                id@,
                tool_name@,
                tool_call_id@,
                opt_json(tool_input),
                opt_text(originating_client_message_id),
            ),
    {
        let task = SupervisedTask {
            id: id.clone(),
            tool_name: tool_name.to_owned(),
            tool_call_id: tool_call_id.to_owned(),
            session_key: copy_opt(&self.session_key),
            tool_input,
            client_message_id: originating_client_message_id,
            active: true,
        };
        self.supervisor.register(task);
        proof {
            self.lemma_specs_unmoved(*old(self));
        }
        id
    }

    /// Takes note of the end of a background task.
    pub fn finish_task(&mut self, id: &str)
        requires
            old(self).inv(),
        ensures
            final(self).inv(),
            final(self)@ == (RegistryView {
                supervisor: old(self)@.supervisor.map_values(
                    |task: TaskView| ended(task, id@),
                ),
                ..old(self)@
            }),
    {
        self.supervisor.finish(id);
        proof {
            self.lemma_specs_unmoved(*old(self));
        }
    }

    /// Notes that a tool ran in the background in this run of the agent.
    pub fn mark_spawn_only_invoked(&mut self)
        requires
            old(self).inv(),
        ensures
            final(self).inv(),
            final(self)@ == (RegistryView { spawn_only_invoked: true, ..old(self)@ }),
    {
        self.spawn_only_invoked = true;
        proof {
            self.lemma_specs_unmoved(*old(self));
        }
    }

    /// Whether a tool ran in the background in this run of the agent.
    pub fn spawn_only_was_invoked(&self) -> (r: bool)
        ensures
            r == self@.spawn_only_invoked,
    {
        self.spawn_only_invoked
    }

    /// Begins a new run of the agent.
    pub fn reset_spawn_only_invoked(&mut self)
        requires
            old(self).inv(),
        ensures
            final(self).inv(),
            final(self)@ == (RegistryView { spawn_only_invoked: false, ..old(self)@ }),
    {
        self.spawn_only_invoked = false;
        proof {
            self.lemma_specs_unmoved(*old(self));
        }
    }

    /// The names of the registered tools.
    pub fn tool_names(&self) -> (out: Vec<String>)
        ensures
            texts(out@) == tool_names_of(self@.tools),
    {
        let mut out: Vec<String> = Vec::new();
        let mut i: usize = 0;
        while i < self.tools.len()
            invariant
                i <= self.tools.len(),
                out@.len() == i,
                forall|j: int| 0 <= j < i ==> (#[trigger] out@[j])@ == self@.tools[j].name,
            decreases self.tools.len() - i,
        {
            out.push(self.tools[i].name.clone());
            i += 1;
        }
        proof {
            assert(texts(out@) =~= tool_names_of(self@.tools));
        }
        out
    }

    /// The tool with a name.
    pub fn get(&self, name: &str) -> (r: Option<&ToolEntry>)
        requires
            self.inv(),
        ensures
            match r {
                Some(tool) => tool_named(self@.tools, name@) == Some(tool@),
                None => tool_named(self@.tools, name@) is None,
            },
    {
        match position_of(self.tools.as_slice(), name) {
            Some(i) => Some(&self.tools[i]),
            None => None,
        }
    }

    /// A copy of the tool with a name.
    pub fn get_tool(&self, name: &str) -> (r: Option<ToolEntry>)
        requires
            self.inv(),
        ensures
            match r {
                Some(tool) => tool_named(self@.tools, name@) == Some(tool@),
                None => tool_named(self@.tools, name@) is None,
            },
    {
        match self.get(name) {
            Some(tool) => Some(tool.copy()),
            None => None,
        }
    }

    /// How a tool may run beside others. A tool that is not registered counts
    /// as safe: its call is refused later.
    pub fn concurrency_class(&self, name: &str) -> (r: ConcurrencyClass)
        requires
            self.inv(),
        ensures
            r == match tool_named(self@.tools, name@) {
                Some(tool) => tool.concurrency_class,
                None => ConcurrencyClass::Safe,
            },
    {
        match self.get(name) {
            Some(tool) => tool.concurrency_class,
            None => ConcurrencyClass::Safe,
        }
    }

    /// How many tools are registered.
    pub fn len(&self) -> (r: usize)
        ensures
            r == self@.tools.len(),
    {
        self.tools.len()
    }

    /// Whether no tool is registered.
    pub fn is_empty(&self) -> (r: bool)
        ensures
            r == (self@.tools.len() == 0),
    {
        self.tools.len() == 0
    }
}

impl Default for ToolRegistry {
    fn default() -> (r: ToolRegistry)
        ensures
            r.inv(),
            r@ == RegistryView::empty(),
    {
        ToolRegistry::new()
    }
}

// ---------------------------------------------------------------------------
// The tools that come with the library

/// The tools that work in the directory of the workspace, in the order in
/// which they are registered.
pub open spec fn cwd_bound_names() -> Seq<Text> {
    seq![
        "shell"@,
        "read_file"@,
        "diff_edit"@,
        "edit_file"@,
        "write_file"@,
        "glob"@,
        "grep"@,
        "list_dir"@,
        "check_workspace_contract"@,
        "workspace_log"@,
        "workspace_show"@,
        "workspace_diff"@,
    ]
}

/// The tools that read from the web.
pub open spec fn web_names() -> Seq<Text> {
    seq!["web_search"@, "web_fetch"@, "browser"@]
}

/// The tool changes files or runs commands.
pub open spec fn mutates(name: Text) -> bool {
    name == "shell"@ || name == "write_file"@ || name == "edit_file"@ || name == "diff_edit"@
}

/// A tool that works in a directory. One that changes files or runs commands
/// runs alone, and the shell has a sandbox.
pub open spec fn bound_tool(
    made: Seq<ToolView>,
    name: Text,
    cwd: Text,
    sandbox: Option<HostHandle>,
) -> ToolView {
    let tool = made_tool(made, name);
    ToolView {
        name,
        concurrency_class: if mutates(name) {
            ConcurrencyClass::Exclusive
        } else {
            tool.concurrency_class
        },
        work_dir: Some(cwd),
        sandbox: if name == "shell"@ {
            sandbox
        } else {
            tool.sandbox
        },
        ..tool
    }
}

/// Tools that are bound to a directory.
pub open spec fn bound_tools(
    made: Seq<ToolView>,
    names: Seq<Text>,
    cwd: Text,
    sandbox: Option<HostHandle>,
) -> Seq<ToolView> {
    names.map_values(|name: Text| bound_tool(made, name, cwd, sandbox))
}

/// The tools that come with the library, in a directory.
pub open spec fn builtin_tools(
    made: Seq<ToolView>,
    cwd: Text,
    sandbox: Option<HostHandle>,
) -> Seq<ToolView> {
    bound_tools(made, cwd_bound_names().take(8), cwd, sandbox) + web_names().map_values(
        |name: Text| made_tool(made, name),
    ) + bound_tools(made, cwd_bound_names().skip(8), cwd, sandbox)
}

impl RegistryView {
    /// A copy for another directory: the tools that are bound to one are
    /// registered anew, the others are kept, and nothing of the session is.
    pub open spec fn moved_to(
        self,
        made: Seq<ToolView>,
        cwd: Text,
        sandbox: Option<HostHandle>,
    ) -> RegistryView {
        RegistryView {
            tools: with_tools(
                self.snapshot(cwd_bound_names()).tools,
                bound_tools(made, cwd_bound_names(), cwd, sandbox),
            ),
            workspace_root: Some(cwd),
            ..self.snapshot(cwd_bound_names())
        }
    }
}

/// A list of tools after the registration of others, one by one.
pub open spec fn with_tools(tools: Seq<ToolView>, added: Seq<ToolView>) -> Seq<ToolView>
    decreases added.len(),
{
    if added.len() == 0 {
        tools
    } else {
        with_tool(with_tools(tools, added.drop_last()), added.last())
    }
}

/// Registering two lists in turn is registering them as one.
proof fn lemma_with_tools_joined(tools: Seq<ToolView>, a: Seq<ToolView>, b: Seq<ToolView>)
    ensures
        with_tools(tools, a + b) == with_tools(with_tools(tools, a), b),
    decreases b.len(),
{
    if b.len() == 0 {
        assert(a + b =~= a);
    } else {
        assert((a + b).drop_last() =~= a + b.drop_last());
        lemma_with_tools_joined(tools, a, b.drop_last());
    }
}

fn cwd_bound() -> (out: Vec<String>)
    ensures
        texts(out@) == cwd_bound_names(),
{
    let list: [&str; 12] = [
        "shell",
        "read_file",
        "diff_edit",
        "edit_file",
        "write_file",
        "glob",
        "grep",
        "list_dir",
        "check_workspace_contract",
        "workspace_log",
        "workspace_show",
        "workspace_diff",
    ];
    let out = owned(list.as_slice());
    proof {
        assert(texts(out@) =~= cwd_bound_names());
    }
    out
}

impl ToolRegistry {
    fn register_bound(
        &mut self,
        made: &[ToolEntry],
        names: &[String],
        from: usize,
        to: usize,
        cwd: &str,
        sandbox: Option<HostHandle>,
    )
        requires
            old(self).inv(),
            from <= to <= names@.len(),
        ensures
            final(self).inv(),
            final(self)@ == (RegistryView {
                tools: with_tools(
                    old(self)@.tools,
                    bound_tools(
                        tool_views(made@),
                        texts(names@).subrange(from as int, to as int),
                        cwd@,
                        sandbox,
                    ),
                ),
                ..old(self)@
            }),
    {
        let ghost all = bound_tools(
            tool_views(made@),
            texts(names@).subrange(from as int, to as int),
            cwd@,
            sandbox,
        );
        let mut i: usize = from;
        proof {
            assert(all.take(0) =~= Seq::empty());
        }
        while i < to
            invariant
                from <= i <= to <= names@.len(),
                self.inv(),
                all == bound_tools(
                    tool_views(made@),
                    texts(names@).subrange(from as int, to as int),
                    cwd@,
                    sandbox,
                ),
                self@ == (RegistryView {
                    tools: with_tools(old(self)@.tools, all.take(i - from)),
                    ..old(self)@
                }),
            decreases to - i,
        {
            let mut tool = take_made(made, names[i].as_str());
            tool.work_dir = Some(cwd.to_owned());
            let name = names[i].as_str();
            if same(name, "shell") {
                tool.sandbox = sandbox;
            }
            if same(name, "shell") || same(name, "write_file") || same(name, "edit_file") || same(
                name,
                "diff_edit",
            ) {
                tool.concurrency_class = ConcurrencyClass::Exclusive;
            }
            proof {
                let n = i - from;
                assert(all.take(n + 1).drop_last() =~= all.take(n));
                assert(tool@ =~= all[n]);
            }
            self.register(tool);
            i += 1;
        }
        proof {
            assert(all.take(all.len() as int) =~= all);
        }
    }

    /// A registry with the tools that come with the library, working in a
    /// directory. Each is described as the host made it.
    pub fn with_builtins(cwd: &str, made: &[ToolEntry]) -> (r: ToolRegistry)
        ensures
            r.inv(),
            r@ == (RegistryView {
                tools: with_tools(Seq::empty(), builtin_tools(tool_views(made@), cwd@, None)),
                workspace_root: Some(cwd@),
                ..RegistryView::empty()
            }),
    {
        ToolRegistry::with_builtins_and_sandbox(cwd, None, made)
    }

    /// A registry with the tools that come with the library, working in a
    /// directory, the shell in a sandbox. Each is described as the host made it.
    pub fn with_builtins_and_sandbox(
        cwd: &str,
        sandbox: Option<HostHandle>,
        made: &[ToolEntry],
    ) -> (r: ToolRegistry)
        ensures
            r.inv(),
            r@ == (RegistryView {
                tools: with_tools(Seq::empty(), builtin_tools(tool_views(made@), cwd@, sandbox)),
                workspace_root: Some(cwd@),
                ..RegistryView::empty()
            }),
    {
        let mut r = ToolRegistry::new();
        r.set_workspace_root(cwd.to_owned());
        let names = cwd_bound();
        r.register_bound(made, names.as_slice(), 0, 8, cwd, sandbox);
        let ghost before = r@.tools;
        r.register(take_made(made, "web_search"));
        r.register(take_made(made, "web_fetch"));
        r.register(take_made(made, "browser"));
        let ghost web = web_names().map_values(|name: Text| made_tool(tool_views(made@), name));
        proof {
            reveal_with_fuel(with_tools, 4);
            assert(web.drop_last().drop_last().drop_last() =~= Seq::empty());
            assert(r@.tools == with_tools(before, web));
        }
        r.register_bound(made, names.as_slice(), 8, 12, cwd, sandbox);
        proof {
            let first = bound_tools(tool_views(made@), cwd_bound_names().take(8), cwd@, sandbox);
            let last = bound_tools(tool_views(made@), cwd_bound_names().skip(8), cwd@, sandbox);
            assert(cwd_bound_names().subrange(0, 8) =~= cwd_bound_names().take(8));
            assert(cwd_bound_names().subrange(8, 12) =~= cwd_bound_names().skip(8));
            lemma_with_tools_joined(Seq::empty(), first, web);
            lemma_with_tools_joined(Seq::empty(), first + web, last);
        }
        r
    }

    /// A copy for another directory: the tools that are bound to one are
    /// registered anew as the host made them, the others are kept.
    pub fn rebind_cwd(
        &self,
        cwd: &str,
        sandbox: Option<HostHandle>,
        made: &[ToolEntry],
    ) -> (r: ToolRegistry)
        requires
            self.inv(),
        ensures
            r.inv(),
            r@ == self@.moved_to(tool_views(made@), cwd@, sandbox),
    {
        let names = cwd_bound();
        let mut r = self.snapshot_excluding(names.as_slice());
        r.set_workspace_root(cwd.to_owned());
        r.register_bound(made, names.as_slice(), 0, 12, cwd, sandbox);
        proof {
            assert(cwd_bound_names().subrange(0, 12) =~= cwd_bound_names());
        }
        r
    }

    /// Lets the tools of plugins work in a directory.
    pub fn rebind_plugin_work_dirs(&mut self, work_dir: &str)
        requires
            old(self).inv(),
        ensures
            final(self).inv(),
            final(self)@ == (RegistryView {
                tools: old(self)@.tools.map_values(
                    |tool: ToolView| rebound(tool, work_dir@),
                ),
                ..old(self)@
            }),
    {
        let ghost all = self@.tools;
        let mut tools: Vec<ToolEntry> = Vec::new();
        let mut i: usize = 0;
        while i < self.tools.len()
            invariant
                i <= self.tools.len(),
                *self == *old(self),
                all == self@.tools,
                tools@.len() == i,
                forall|j: int| 0 <= j < i ==> (#[trigger] tools@[j])@ == rebound(all[j], work_dir@),
            decreases self.tools.len() - i,
        {
            let mut tool = self.tools[i].copy();
            if tool.from_plugin {
                tool.work_dir = Some(work_dir.to_owned());
            }
            proof {
                assert(tool@ =~= rebound(all[i as int], work_dir@));
            }
            tools.push(tool);
            i += 1;
        }
        proof {
            assert(tool_views(tools@) =~= all.map_values(
                |tool: ToolView| rebound(tool, work_dir@),
            ));
        }
        self.tools = tools;
        self.cached_specs = None;
        proof {
            let now = self@.tools;
            assert forall|i: int, j: int| 0 <= i < j < now.len() implies (#[trigger] now[i]).name
                != (#[trigger] now[j]).name by {
                assert(all[i].name != all[j].name);
            }
        }
    }

    fn configure(&mut self, made: &[ToolEntry], name: &str, config: HostHandle)
        requires
            old(self).inv(),
        ensures
            final(self).inv(),
            final(self)@ == (RegistryView {
                tools: configured(tool_views(made@), old(self)@.tools, name@, config),
                ..old(self)@
            }),
    {
        if position_of(self.tools.as_slice(), name).is_some() {
            let mut tool = take_made(made, name);
            tool.config = Some(config);
            proof {
                assert(tool@ =~= configured_tool(tool_views(made@), name@, config));
            }
            self.register(tool);
        }
    }

    /// Lets the configurable tools that are registered read a configuration,
    /// and registers the tool that changes it, each as the host made it.
    pub fn inject_tool_config(&mut self, config: HostHandle, made: &[ToolEntry])
        requires
            old(self).inv(),
        ensures
            final(self).inv(),
            final(self)@ == (RegistryView {
                tools: with_tool(
                    configured(
                        tool_views(made@),
                        configured(
                            tool_views(made@),
                            configured(
                                tool_views(made@),
                                old(self)@.tools,
                                "web_search"@,
                                config,
                            ),
                            "web_fetch"@,
                            config,
                        ),
                        "browser"@,
                        config,
                    ),
                    configured_tool(tool_views(made@), "configure_tool"@, config),
                ),
                ..old(self)@
            }),
    {
        self.configure(made, "web_search", config);
        self.configure(made, "web_fetch", config);
        self.configure(made, "browser", config);
        let mut tool = take_made(made, "configure_tool");
        tool.config = Some(config);
        proof {
            assert(tool@ =~= configured_tool(tool_views(made@), "configure_tool"@, config));
        }
        self.register(tool);
    }
}

/// A tool of a plugin in a directory.
pub open spec fn rebound(tool: ToolView, work_dir: Text) -> ToolView {
    if tool.from_plugin {
        ToolView { work_dir: Some(work_dir), ..tool }
    } else {
        tool
    }
}

/// A tool that reads a configuration.
pub open spec fn configured_tool(
    made: Seq<ToolView>,
    name: Text,
    config: HostHandle,
) -> ToolView {
    ToolView { config: Some(config), ..made_tool(made, name) }
}

/// A list of tools in which the one with a name reads a configuration.
pub open spec fn configured(
    made: Seq<ToolView>,
    tools: Seq<ToolView>,
    name: Text,
    config: HostHandle,
) -> Seq<ToolView> {
    if has_tool(tools, name) {
        with_tool(tools, configured_tool(made, name, config))
    } else {
        tools
    }
}

// ---------------------------------------------------------------------------
// The tools of a subagent

/// What stays deferred once tools have been activated one by one.
pub open spec fn deferred_without(deferred: Set<Text>, names: Seq<Text>) -> Set<Text>
    decreases names.len(),
{
    if names.len() == 0 {
        deferred
    } else {
        let rest = deferred_without(deferred, names.drop_last());
        rest.difference(activation(rest, names.last()).to_set())
    }
}

/// The names of a list that no tool has.
pub open spec fn missing_tools(tools: Seq<ToolView>, names: Seq<Text>) -> Seq<Text> {
    names.filter(|name: Text| !has_tool(tools, name))
}

/// Activates the tools that a subagent may use, and fails if one of them is
/// not registered.
pub fn ensure_subagent_tools_available(
    tools: &mut ToolRegistry,
    allowed_tools: &[String],
) -> (r: Result<(), String>)
    requires
        old(tools).inv(),
    ensures
        final(tools).inv(),
        final(tools)@ == (RegistryView {
            deferred: deferred_without(old(tools)@.deferred, texts(allowed_tools@)),
            ..old(tools)@
        }),
        match r {
            Ok(_) => missing_tools(old(tools)@.tools, texts(allowed_tools@)).len() == 0,
            Err(text) => {
                let missing = missing_tools(old(tools)@.tools, texts(allowed_tools@));
                &&& missing.len() > 0
                &&& text@ == "required tool(s) not available on this host: "@ + joined(
                    missing,
                    ", "@,
                )
            },
        },
{
    let ghost all = texts(allowed_tools@);
    let ghost known = tools@.tools;
    let ghost pred = |name: Text| !has_tool(known, name);
    let mut missing: Vec<String> = Vec::new();
    let mut i: usize = 0;
    proof {
        assert(all.take(0) =~= Seq::empty());
        assert(texts(missing@) =~= all.take(0).filter(pred));
    }
    while i < allowed_tools.len()
        invariant
            i <= allowed_tools.len(),
            tools.inv(),
            all == texts(allowed_tools@),
            known == old(tools)@.tools,
            pred == (|name: Text| !has_tool(known, name)),
            tools@ == (RegistryView {
                deferred: deferred_without(old(tools)@.deferred, all.take(i as int)),
                ..old(tools)@
            }),
            texts(missing@) == all.take(i as int).filter(pred),
        decreases allowed_tools.len() - i,
    {
        proof {
            let name = allowed_tools@[i as int]@;
            assert(all.take(i + 1) =~= all.take(i as int).push(name));
            assert(all.take(i + 1).drop_last() =~= all.take(i as int));
            all.take(i as int).lemma_filter_push(name, pred);
        }
        tools.activate(allowed_tools[i].as_str());
        if tools.get(allowed_tools[i].as_str()).is_none() {
            let name = allowed_tools[i].clone();
            proof {
                lemma_texts_push(missing@, name);
            }
            missing.push(name);
        }
        i += 1;
    }
    proof {
        assert(all.take(all.len() as int) =~= all);
    }
    if missing.len() == 0 {
        return Ok(());
    }
    let mut text = "required tool(s) not available on this host: ".to_owned();
    let names = join(missing.as_slice(), ", ");
    text.append(names.as_str());
    Err(text)
}

} // verus!
