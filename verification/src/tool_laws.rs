//! What holds of the tools that every registry offers, loads and calls.
use vstd::prelude::*;

use crate::activate_tools::{
    activation_answer, listing_text, loading_text, reported, requested, Loading,
};
use crate::child_tools::{child_registry, under_policy};
use crate::context::{ConcurrencyClass, HostHandle};
use crate::json::JsonView;
use crate::lifecycle::{first_of, LifecycleView};
use crate::policy::{group_of, group_tools, ToolPolicyView};
use crate::policy_laws::{groups_have_their_members, tools_are_loaded_with_their_group};
use crate::registry::{
    activation, bound_tool, call_activation, configured, deferred_without, missing_tools, mutates,
    rebound, registered_of, slashed, with_tools, RegistryView,
};
use crate::sorting::{every_list_can_be_sorted, sorted};
use crate::supervisor::{active_count, ended, TaskView};
use crate::text::{contains_text, decimal, joined, lemma_filter_holds, Text};
use crate::text_laws::{joined_texts_hold_their_parts, lemma_held, lemma_held_within};
use crate::tool_entry::{
    distinct_names, has_tool, lemma_tool_at, lemma_with_tool, made_tool, tool_named, ToolView,
};

verus! {

// ---------------------------------------------------------------------------
// What is shown

/// A registered tool is shown exactly if it is not deferred, the provider policy
/// allows it with its tags, and the context filter lets its tags pass.
pub proof fn tools_are_shown_unless_hidden(view: RegistryView, i: int)
    requires
        distinct_names(view.tools),
        0 <= i < view.tools.len(),
    ensures
        view.visible(view.tools[i].name) <==> {
            let tool = view.tools[i];
            &&& !view.deferred.contains(tool.name)
            &&& view.provider_policy matches Some(policy) ==> policy.allows_tagged(
                tool.name,
                tool.tags,
            )
            &&& view.context_filter matches Some(wanted) ==> crate::policy::tags_pass(
                wanted,
                tool.tags,
            )
        },
{
    lemma_tool_at(view.tools, i);
}

/// A tool that is not registered is never shown.
pub proof fn unknown_tools_are_not_shown(view: RegistryView, name: Text)
    requires
        forall|i: int| 0 <= i < view.tools.len() ==> (#[trigger] view.tools[i]).name != name,
    ensures
        !view.visible(name),
        view.refusal(name, 0) is Some,
{
}

/// What a model is told of a tool: its name, its schema, and its description, which
/// is as the tool gives it but for the tool that loads others. That one names every
/// deferred tool that it could show.
pub proof fn tools_are_described_as_they_are(view: RegistryView, tool: ToolView, name: Text)
    ensures
        ({
            let said = view.spec_of(tool);
            let offered = view.loadable_deferred();
            &&& said.name == tool.name
            &&& said.input_schema == tool.input_schema
            &&& tool.description.is_prefix_of(said.description)
            &&& tool.name != "activate_tools"@ || offered.len() == 0 ==> said.description
                == tool.description
            &&& tool.name == "activate_tools"@ && offered.contains(name) ==> contains_text(
                said.description,
                name,
            )
        }),
{
    let said = view.spec_of(tool).description;
    let offered = view.loadable_deferred();
    assert(said.subrange(0, tool.description.len() as int) =~= tool.description);
    if tool.name == "activate_tools"@ && offered.contains(name) {
        let k = offered.index_of(name);
        joined_texts_hold_their_parts(offered, ", "@, k);
        let head = tool.description + "\n\nCurrently deferred tools available to load: "@;
        let body = joined(offered, ", "@);
        let tail = ". Call this tool with `tools: [\"<name>\"]` to load them."@;
        assert(said =~= head + body + tail);
        lemma_held(head, body, tail);
        lemma_held_within(said, body, name);
    }
}

/// The deferred tools that could be shown are named in order, each once, and no
/// others.
pub proof fn deferred_tools_are_offered(view: RegistryView, name: Text)
    requires
        view.deferred.finite(),
    ensures
        view.loadable_deferred().contains(name) <==> view.deferred.contains(name) && view.loadable(
            name,
        ),
        crate::sorting::increasing(view.loadable_deferred()),
{
    let set = view.deferred.filter(|n: Text| view.loadable(n));
    crate::sorting::every_set_can_be_sorted(set);
}

/// Descriptions come in the order in which the tools were registered.
pub proof fn descriptions_keep_the_order(view: RegistryView, tool: ToolView)
    requires
        view.tools.len() > 0,
        view.tools.last() == tool,
        !view.deferred.contains(tool.name),
        view.passes(tool),
    ensures
        view.specs().len() > 0,
        view.specs().last() == view.spec_of(tool),
{
    let shown = |t: ToolView| !view.deferred.contains(t.name) && view.passes(t);
    let rest = view.tools.drop_last();
    assert(view.tools =~= rest.push(tool));
    rest.lemma_filter_push(tool, shown);
    let kept = view.tools.filter(shown);
    assert(kept == rest.filter(shown).push(tool));
    assert(view.specs() =~= kept.map_values(|t: ToolView| view.spec_of(t)));
}

// ---------------------------------------------------------------------------
// Calls

/// A call is let through exactly if the provider policy allows the tool, the
/// arguments are not larger than a mebibyte, and the tool is registered. A refusal
/// names the tool.
pub proof fn calls_are_refused_for_a_reason(view: RegistryView, name: Text, size: nat)
    ensures
        view.refusal(name, size) is None <==> {
            &&& view.provider_policy matches Some(policy) ==> policy.allows(name)
            &&& size <= 1048576
            &&& has_tool(view.tools, name)
        },
        view.refusal(name, size) matches Some(said) ==> contains_text(said, name),
        view.refusal(name, size) matches Some(said) ==> (view.policy_refusal(name) is None && size
            > 1048576 ==> contains_text(said, decimal(size))),
        view.policy_refusal(name) is Some <==> (view.provider_policy matches Some(policy)
            && !policy.allows(name)),
        view.policy_refusal(name) matches Some(said) ==> contains_text(
            said,
            crate::policy::denial_reason(view.provider_policy->0, name),
        ),
{
    if let Some(said) = view.refusal(name, size) {
        let open = "tool '"@;
        if view.policy_refusal(name) is Some {
            let reason = crate::policy::denial_reason(view.provider_policy->0, name);
            let tail = "' denied by provider policy ("@ + reason + ")"@;
            assert(said =~= open + name + tail);
            lemma_held(open, name, tail);
            let head = open + name + "' denied by provider policy ("@;
            assert(said =~= head + reason + ")"@);
            lemma_held(head, reason, ")"@);
        } else if size > 1048576 {
            let tail = "' arguments too large: ~"@ + decimal(size) + " bytes (max 1048576)"@;
            assert(said =~= open + name + tail);
            lemma_held(open, name, tail);
            let head = open + name + "' arguments too large: ~"@;
            assert(said =~= head + decimal(size) + " bytes (max 1048576)"@);
            lemma_held(head, decimal(size), " bytes (max 1048576)"@);
        } else {
            let none = Seq::<char>::empty();
            assert(said =~= "unknown tool: "@ + name + none);
            lemma_held("unknown tool: "@, name, none);
        }
    }
}

/// A call of a deferred tool loads it together with its group, and nothing else. It
/// changes nothing but what is deferred and what was used.
pub proof fn calls_load_the_tool_and_its_group(
    view: RegistryView,
    name: Text,
    size: nat,
    other: Text,
)
    requires
        view.policy_refusal(name) is None,
    ensures
        ({
            let after = view.after_call(name, size);
            let together = other == name || (group_of(name) matches Some(group) && group_tools(
                group,
            )->0.contains(other));
            &&& after.deferred.contains(other) <==> view.deferred.contains(other) && !(
            view.deferred.contains(name) && together)
            &&& after.tools == view.tools
            &&& after.provider_policy == view.provider_policy
            &&& after.context_filter == view.context_filter
            &&& after.spawn_only == view.spawn_only
            &&& after.supervisor == view.supervisor
        }),
{
    tools_are_loaded_with_their_group(name, name);
    if view.deferred.contains(name) {
        let released = call_activation(view.deferred, name);
        match group_of(name) {
            Some(group) => {
                groups_have_their_members(group);
                activation_takes_what_is_named(view.deferred, group, other);
                activation_takes_what_is_named(view.deferred, group, name);
            },
            None => {
                assert(released[0] == name);
                assert(released.contains(other) <==> other == name);
            },
        }
    }
}

/// Activation takes out of deferral exactly the deferred members of a group, or the
/// tool of that name.
pub proof fn activation_takes_what_is_named(deferred: Set<Text>, target: Text, name: Text)
    ensures
        activation(deferred, target).contains(name) <==> deferred.contains(name) && match group_tools(
            target,
        ) {
            Some(tools) => tools.contains(name),
            None => target == name,
        },
{
    match group_tools(target) {
        Some(tools) => {
            lemma_filter_holds(tools, |tool: Text| deferred.contains(tool), name);
        },
        None => {
            if deferred.contains(target) {
                assert(activation(deferred, target)[0] == target);
            }
        },
    }
}

/// Only registered tools are deferred by a list of names.
pub proof fn only_registered_tools_are_deferred(
    tools: Seq<ToolView>,
    names: Seq<Text>,
    name: Text,
)
    ensures
        registered_of(tools, names).contains(name) <==> names.contains(name) && has_tool(
            tools,
            name,
        ),
{
}

/// A tool stays deferred exactly if no name of a list, taken as a group or a tool,
/// takes it out.
pub proof fn loading_takes_what_is_named(deferred: Set<Text>, names: Seq<Text>, name: Text)
    ensures
        deferred_without(deferred, names).contains(name) <==> deferred.contains(name) && forall|
            i: int,
        |
            0 <= i < names.len() ==> !(match group_tools(#[trigger] names[i]) {
                Some(tools) => tools.contains(name),
                None => names[i] == name,
            }),
    decreases names.len(),
{
    if names.len() > 0 {
        let rest = names.drop_last();
        let n = names.len() - 1;
        loading_takes_what_is_named(deferred, rest, name);
        let before = deferred_without(deferred, rest);
        activation_takes_what_is_named(before, names[n], name);
        assert(forall|i: int| 0 <= i < n ==> #[trigger] rest[i] == names[i]);
        if deferred_without(deferred, names).contains(name) {
            assert forall|i: int| 0 <= i < names.len() implies !(match group_tools(
                #[trigger] names[i],
            ) {
                Some(tools) => tools.contains(name),
                None => names[i] == name,
            }) by {
                if i < n {
                    assert(rest[i] == names[i]);
                }
            }
        } else if deferred.contains(name) && (forall|i: int|
            0 <= i < names.len() ==> !(match group_tools(#[trigger] names[i]) {
                Some(tools) => tools.contains(name),
                None => names[i] == name,
            })) {
            assert forall|i: int| 0 <= i < rest.len() implies !(match group_tools(
                #[trigger] rest[i],
            ) {
                Some(tools) => tools.contains(name),
                None => rest[i] == name,
            }) by {
                assert(rest[i] == names[i]);
            }
            assert(group_tools(names[n]) is Some || names[n] != name);
        }
    }
}

/// The tools of a list that are missing are those that are not registered.
pub proof fn missing_tools_are_not_registered(
    tools: Seq<ToolView>,
    names: Seq<Text>,
    name: Text,
)
    ensures
        missing_tools(tools, names).contains(name) <==> names.contains(name) && !has_tool(
            tools,
            name,
        ),
{
    lemma_filter_holds(names, |n: Text| !has_tool(tools, n), name);
}

// ---------------------------------------------------------------------------
// What is kept

/// A rule keeps exactly the tools that it admits, as they are. What was noted of a
/// tool is kept with it and dropped with it, and nothing else changes.
pub proof fn rules_keep_what_they_admit(
    view: RegistryView,
    keep: spec_fn(Text) -> bool,
    tool: ToolView,
    name: Text,
)
    ensures
        ({
            let kept = view.restricted(keep);
            &&& kept.tools.contains(tool) <==> view.tools.contains(tool) && keep(tool.name)
            &&& kept.deferred.contains(name) <==> view.deferred.contains(name) && has_tool(
                kept.tools,
                name,
            )
            &&& kept.spawn_only.contains(name) <==> view.spawn_only.contains(name) && has_tool(
                kept.tools,
                name,
            )
            &&& has_tool(kept.tools, name) <==> has_tool(view.tools, name) && keep(name)
            &&& kept.lifecycle == view.lifecycle
            &&& kept.provider_policy == view.provider_policy
            &&& kept.context_filter == view.context_filter
            &&& kept.supervisor == view.supervisor
            &&& kept.workspace_root == view.workspace_root
        }),
{
    let pred = |t: ToolView| keep(t.name);
    let kept = view.tools.filter(pred);
    lemma_filter_holds(view.tools, pred, tool);
    crate::registry::lemma_names_hold(kept, name);
    if has_tool(kept, name) {
        let i = choose|i: int| 0 <= i < kept.len() && (#[trigger] kept[i]).name == name;
        assert(kept.contains(kept[i]));
        lemma_filter_holds(view.tools, pred, kept[i]);
        assert(view.tools[view.tools.index_of(kept[i])].name == name);
    }
    if has_tool(view.tools, name) && keep(name) {
        let i = choose|i: int| 0 <= i < view.tools.len() && (#[trigger] view.tools[i]).name == name;
        assert(view.tools.contains(view.tools[i]));
        lemma_filter_holds(view.tools, pred, view.tools[i]);
        assert(kept[kept.index_of(view.tools[i])].name == name);
    }
}

/// A policy without entries changes no registry; any other keeps exactly the tools
/// that it allows.
pub proof fn policies_keep_what_they_allow(view: RegistryView, policy: ToolPolicyView, name: Text)
    ensures
        policy.is_empty() ==> under_policy(view, policy) == view,
        has_tool(under_policy(view, policy).tools, name) <==> has_tool(view.tools, name) && (
        policy.is_empty() || policy.allows(name)),
{
    let keep = |n: Text| policy.allows(n);
    if !policy.is_empty() {
        rules_keep_what_they_admit(view, keep, arbitrary(), name);
    }
}

/// A child has the tools that it was given or that were made for it and that its
/// policy allows. None of them runs in the background, what it is allowed is
/// loaded, and the policy of the provider, if it says anything, is in force.
pub proof fn children_have_their_tools(
    base: RegistryView,
    made: Seq<ToolView>,
    allowed: Seq<Text>,
    policy: ToolPolicyView,
    provider: Option<ToolPolicyView>,
    name: Text,
)
    requires
        distinct_names(base.tools),
    ensures
        ({
            let child = child_registry(base, made, allowed, policy, provider);
            &&& has_tool(child.tools, name) <==> (has_tool(base.tools, name) || has_tool(
                made,
                name,
            )) && (policy.is_empty() || policy.allows(name))
            &&& !child.spawn_only.contains(name)
            &&& child.deferred.contains(name) ==> base.deferred.contains(name)
            &&& allowed.contains(name) && group_tools(name) is None ==> !child.deferred.contains(
                name,
            )
            &&& provider matches Some(other) ==> (!other.is_empty() ==> child.provider_policy
                == Some(other))
            &&& provider matches Some(other) ==> (other.is_empty() ==> child.provider_policy
                == base.provider_policy)
            &&& provider is None ==> child.provider_policy == base.provider_policy
        }),
{
    let before = RegistryView {
        tools: with_tools(base.tools, made),
        spawn_only: Set::empty(),
        spawn_only_messages: Map::empty(),
        deferred: deferred_without(base.deferred, allowed),
        ..base
    };
    lemma_registered_names(base.tools, made, name);
    policies_keep_what_they_allow(before, policy, name);
    loading_takes_what_is_named(base.deferred, allowed, name);
    let keep = |n: Text| policy.allows(n);
    rules_keep_what_they_admit(before, keep, arbitrary(), name);
    if allowed.contains(name) {
        let i = allowed.index_of(name);
        assert(allowed[i] == name);
    }
}

proof fn lemma_registered_names(tools: Seq<ToolView>, added: Seq<ToolView>, name: Text)
    requires
        distinct_names(tools),
    ensures
        distinct_names(with_tools(tools, added)),
        has_tool(with_tools(tools, added), name) <==> has_tool(tools, name) || has_tool(added, name),
    decreases added.len(),
{
    if added.len() > 0 {
        let rest = added.drop_last();
        let n = added.len() - 1;
        lemma_registered_names(tools, rest, name);
        lemma_with_tool(with_tools(tools, rest), added[n]);
        if has_tool(added, name) {
            let i = choose|i: int| 0 <= i < added.len() && (#[trigger] added[i]).name == name;
            if i < n {
                assert(rest[i].name == name);
            }
        }
        if has_tool(rest, name) {
            let i = choose|i: int| 0 <= i < rest.len() && (#[trigger] rest[i]).name == name;
            assert(added[i].name == name);
        }
        assert(added[n].name == added.last().name);
    }
}

/// A copy for another session keeps the tools that are not excluded as they are, and
/// everything that does not belong to the session: what is deferred, pinned, hidden
/// or run in the background. So does a copy for another directory.
pub proof fn copies_keep_what_belongs_to_no_session(
    view: RegistryView,
    exclude: Seq<Text>,
    tool: ToolView,
    made: Seq<ToolView>,
    cwd: Text,
    sandbox: Option<HostHandle>,
)
    ensures
        view.snapshot(exclude).tools.contains(tool) <==> view.tools.contains(tool)
            && !exclude.contains(tool.name),
        forall|copy: RegistryView| #![trigger copy.deferred]
            copy == view.snapshot(exclude) || copy == view.moved_to(made, cwd, sandbox) ==> {
                &&& copy.deferred == view.deferred
                &&& copy.provider_policy == view.provider_policy
                &&& copy.context_filter == view.context_filter
                &&& copy.plugin_tools == view.plugin_tools
                &&& copy.spawn_only == view.spawn_only
                &&& copy.spawn_only_messages == view.spawn_only_messages
                &&& copy.output_dir_hint == view.output_dir_hint
                &&& copy.lifecycle.base == view.lifecycle.base
                &&& copy.lifecycle.limit == view.lifecycle.limit
                &&& copy.lifecycle.threshold == view.lifecycle.threshold
            },
        view.snapshot(exclude).workspace_root == view.workspace_root,
        view.moved_to(made, cwd, sandbox).workspace_root == Some(cwd),
{
    lemma_filter_holds(view.tools, |t: ToolView| !exclude.contains(t.name), tool);
}

// ---------------------------------------------------------------------------
// What is put aside

/// The tools that can be put aside are the registered ones that are neither deferred
/// nor run in the background.
pub proof fn loaded_tools_can_be_put_aside(view: RegistryView, name: Text)
    ensures
        view.active().contains(name) <==> has_tool(view.tools, name) && !view.deferred.contains(
            name,
        ) && !view.spawn_only.contains(name),
{
    let pred = |tool: ToolView|
        !view.deferred.contains(tool.name) && !view.spawn_only.contains(tool.name);
    let kept = view.tools.filter(pred);
    if view.active().contains(name) {
        let k = view.active().index_of(name);
        assert(kept[k].name == name);
        assert(kept.contains(kept[k]));
        lemma_filter_holds(view.tools, pred, kept[k]);
        assert(view.tools[view.tools.index_of(kept[k])].name == name);
    }
    if has_tool(view.tools, name) && !view.deferred.contains(name) && !view.spawn_only.contains(
        name,
    ) {
        let i = choose|i: int| 0 <= i < view.tools.len() && (#[trigger] view.tools[i]).name == name;
        assert(view.tools.contains(view.tools[i]));
        lemma_filter_holds(view.tools, pred, view.tools[i]);
        let k = kept.index_of(view.tools[i]);
        assert(view.active()[k] == name);
    }
}

/// A tool is idle exactly if it is not pinned and was not used for as many iterations
/// as make a tool idle.
pub proof fn unused_tools_are_idle(life: LifecycleView, name: Text)
    requires
        (life.last_use)(name) <= life.now,
    ensures
        life.idle(name) <==> !life.base.contains(name) && (life.last_use)(name) + life.threshold
            <= life.now,
{
}

/// Nothing is put aside while no more tools are loaded than may be. Otherwise idle
/// tools are, as long as there are too many.
pub proof fn idle_tools_make_room(
    life: LifecycleView,
    active: Seq<Text>,
    out: Seq<Text>,
    name: Text,
)
    requires
        life.evicts(active, out),
    ensures
        active.len() <= life.limit ==> out.len() == 0,
        out.len() <= active.len(),
        active.len() > life.limit ==> out.len() <= active.len() - life.limit,
        active.len() > life.limit && out.len() < active.len() - life.limit && active.contains(name)
            && life.idle(name) ==> out.contains(name),
        out.contains(name) ==> active.contains(name) && life.idle(name),
{
    if active.len() > life.limit {
        let order = choose|order: Seq<int>|
            {
                &&& #[trigger] life.staleness_order(active, order)
                &&& out == first_of(order, active, active.len() - life.limit)
            };
        if active.contains(name) && life.idle(name) && out.len() < active.len() - life.limit {
            let i = active.index_of(name);
            assert(order.contains(i));
            let k = order.index_of(i);
            assert(out[k] == name);
        }
        if out.contains(name) {
            let k = out.index_of(name);
            assert(order.contains(order[k]));
            assert(active[order[k]] == name);
        }
    }
}

/// A use is noted for the tool that was used, in the current iteration; iterations
/// are counted one by one; and at the beginning nothing is used or pinned.
pub proof fn uses_are_noted(life: LifecycleView, name: Text, other: Text, limit: usize, idle: u32)
    ensures
        (life.used(name).last_use)(name) == life.now,
        other != name ==> (life.used(name).last_use)(other) == (life.last_use)(other),
        life.used(name).now == life.now,
        life.used(name).base == life.base,
        life.used(name).limit == life.limit,
        life.used(name).threshold == life.threshold,
        life.now < u32::MAX ==> life.ticked().now == life.now + 1,
        life.ticked().last_use == life.last_use,
        LifecycleView::fresh(limit, idle).limit == limit,
        LifecycleView::fresh(limit, idle).threshold == idle,
        LifecycleView::fresh(limit, idle).now == 0,
        LifecycleView::fresh(limit, idle).base == Set::<Text>::empty(),
        RegistryView::empty().lifecycle.limit == 15,
        RegistryView::empty().lifecycle.threshold == 5,
{
}

// ---------------------------------------------------------------------------
// Loading on request

/// A request for tools and a group loads each of them, a tool with its group, and
/// nothing else.
pub proof fn requests_load_what_they_name(
    view: RegistryView,
    names: Seq<Text>,
    group: Text,
    name: Text,
)
    ensures
        requested(view, names, group).deferred.contains(name) <==> {
            &&& view.deferred.contains(name)
            &&& forall|i: int|
                0 <= i < names.len() ==> !loads(
                    match group_of(#[trigger] names[i]) {
                        Some(whole) => whole,
                        None => names[i],
                    },
                    name,
                )
            &&& group.len() > 0 ==> !loads(group, name)
        },
{
    let start = Loading::start(view.deferred);
    lemma_loaded(start, view.tools, names, name);
    let mid = start.load_tools(view.tools, names);
    activation_takes_what_is_named(mid.deferred, group, name);
}

/// Activation by a target takes a tool out: a member of the group, or the tool of
/// that name.
pub open spec fn loads(target: Text, name: Text) -> bool {
    match group_tools(target) {
        Some(tools) => tools.contains(name),
        None => target == name,
    }
}

proof fn lemma_loaded(start: Loading, tools: Seq<ToolView>, names: Seq<Text>, name: Text)
    ensures
        start.load_tools(tools, names).deferred.contains(name) <==> start.deferred.contains(name)
            && forall|i: int|
            0 <= i < names.len() ==> !loads(
                match group_of(#[trigger] names[i]) {
                    Some(whole) => whole,
                    None => names[i],
                },
                name,
            ),
    decreases names.len(),
{
    if names.len() > 0 {
        let rest = names.drop_last();
        let n = names.len() - 1;
        lemma_loaded(start, tools, rest, name);
        let before = start.load_tools(tools, rest);
        let target = match group_of(names[n]) {
            Some(whole) => whole,
            None => names[n],
        };
        activation_takes_what_is_named(before.deferred, target, name);
        assert(forall|i: int| 0 <= i < n ==> #[trigger] rest[i] == names[i]);
        let all = start.load_tools(tools, names).deferred;
        if all.contains(name) {
            assert forall|i: int| 0 <= i < names.len() implies !loads(
                match group_of(#[trigger] names[i]) {
                    Some(whole) => whole,
                    None => names[i],
                },
                name,
            ) by {
                if i < n {
                    assert(rest[i] == names[i]);
                }
            }
        } else if start.deferred.contains(name) && (forall|i: int|
            0 <= i < names.len() ==> !loads(
                match group_of(#[trigger] names[i]) {
                    Some(whole) => whole,
                    None => names[i],
                },
                name,
            )) {
            assert forall|i: int| 0 <= i < rest.len() implies !loads(
                match group_of(#[trigger] rest[i]) {
                    Some(whole) => whole,
                    None => rest[i],
                },
                name,
            ) by {
                assert(rest[i] == names[i]);
            }
            assert(!loads(target, name)) by {
                assert(group_of(names[n]) is Some || group_of(names[n]) is None);
            }
        }
    }
}

/// The answer to a request names every tool that it reports, loaded or active before,
/// and counts as a success exactly if there is one; the answer to no request names
/// every tool that can be loaded.
pub proof fn answers_name_the_tools(
    offered: Seq<Text>,
    loaded: Seq<Text>,
    active: Seq<Text>,
    name: Text,
)
    ensures
        offered.contains(name) ==> contains_text(listing_text(offered), name),
        loaded.contains(name) ==> contains_text(loading_text(loaded, active), name),
        active.contains(name) ==> contains_text(loading_text(loaded, active), name),
        loaded.len() > 0 ==> contains_text(
            loading_text(loaded, active),
            "Loaded "@ + decimal(loaded.len()),
        ),
{
    if offered.contains(name) {
        joined_texts_hold_their_parts(offered, ", "@, offered.index_of(name));
        let head = "Available tools to load: "@;
        let body = joined(offered, ", "@);
        let tail = ". Call activate_tools with [\"tool1\", \"tool2\"] to load them."@;
        lemma_held(head, body, tail);
        assert(listing_text(offered) =~= head + body + tail);
        lemma_held_within(listing_text(offered), body, name);
    }
    let said = loading_text(loaded, active);
    let none = Seq::<char>::empty();
    let first = joined(loaded, ", "@);
    let second = joined(active, ", "@);
    if loaded.len() > 0 {
        let count = "Loaded "@ + decimal(loaded.len());
        let head = count + " tool(s): "@;
        let tail = if active.len() == 0 {
            none
        } else {
            ". Already active: "@ + second
        };
        assert(said =~= head + first + tail);
        lemma_held(head, first, tail);
        let rest = " tool(s): "@ + first + tail;
        assert(said =~= none + count + rest);
        lemma_held(none, count, rest);
        if loaded.contains(name) {
            joined_texts_hold_their_parts(loaded, ", "@, loaded.index_of(name));
            lemma_held_within(said, first, name);
        }
        if active.contains(name) {
            let open = head + first + ". Already active: "@;
            assert(said =~= open + second + none);
            lemma_held(open, second, none);
            joined_texts_hold_their_parts(active, ", "@, active.index_of(name));
            lemma_held_within(said, second, name);
        }
    } else if active.contains(name) {
        assert(said =~= "Already active: "@ + second + none);
        lemma_held("Already active: "@, second, none);
        joined_texts_hold_their_parts(active, ", "@, active.index_of(name));
        lemma_held_within(said, second, name);
    }
}

/// A request succeeds exactly if a tool that it loaded, or that was asked for and
/// loaded before, is shown; asking for nothing succeeds.
pub proof fn requests_succeed_with_a_tool(view: RegistryView, names: Seq<Text>, group: Text)
    ensures
        names.len() == 0 && group.len() == 0 ==> activation_answer(view, names, group).success,
        names.len() > 0 || group.len() > 0 ==> (activation_answer(view, names, group).success
            <==> exists|name: Text|
            (requested(view, names, group).loaded.contains(name) || requested(
                view,
                names,
                group,
            ).active.contains(name)) && #[trigger] view.loadable(name)),
{
    let end = requested(view, names, group);
    let loaded = reported(view, end.loaded);
    let active = reported(view, end.active);
    let rule = |n: Text| view.loadable(n);
    every_list_can_be_sorted(end.loaded);
    every_list_can_be_sorted(end.active);
    if loaded.len() > 0 {
        assert(loaded.contains(loaded[0]));
        lemma_filter_holds(sorted(end.loaded), rule, loaded[0]);
        assert(view.loadable(loaded[0]));
    }
    if active.len() > 0 {
        assert(active.contains(active[0]));
        lemma_filter_holds(sorted(end.active), rule, active[0]);
        assert(view.loadable(active[0]));
    }
    if exists|name: Text|
        (end.loaded.contains(name) || end.active.contains(name)) && #[trigger] view.loadable(name) {
        let name = choose|name: Text|
            (end.loaded.contains(name) || end.active.contains(name)) && #[trigger] view.loadable(
                name,
            );
        lemma_filter_holds(sorted(end.loaded), rule, name);
        lemma_filter_holds(sorted(end.active), rule, name);
        if end.loaded.contains(name) {
            assert(loaded.contains(name));
        } else {
            assert(active.contains(name));
        }
    }
}

// ---------------------------------------------------------------------------
// Background work

/// What is said of background work ends with the directory that it writes to, and
/// begins with the message of the tool, or with a notice that it runs.
pub proof fn background_work_is_announced(view: RegistryView, name: Text)
    ensures
        ({
            let said = view.spawn_only_message(name);
            let known = view.spawn_only_messages.dom().contains(name);
            &&& view.output_dir_hint matches Some(dir) ==> dir.is_suffix_of(said)
            &&& view.output_dir_hint is None ==> "skill-output/"@.is_suffix_of(said)
            &&& known ==> view.spawn_only_messages[name].is_prefix_of(said)
            &&& !known ==> "SUCCESS: Task is now running in background. "@.is_prefix_of(said)
            &&& known ==> view.handle_summary(name) == view.spawn_only_messages[name]
            &&& !known ==> contains_text(view.handle_summary(name), name)
        }),
{
    let said = view.spawn_only_message(name);
    let dir = view.output_dir();
    assert(said.subrange(said.len() - dir.len(), said.len() as int) =~= dir);
    if view.spawn_only_messages.dom().contains(name) {
        let message = view.spawn_only_messages[name];
        assert(said.subrange(0, message.len() as int) =~= message);
    } else {
        reveal_strlit("SUCCESS: Task is now running in background. ");
        reveal_strlit(
            "SUCCESS: Task is now running in background. The result will be delivered to the user automatically. No further action needed.",
        );
        let notice = "SUCCESS: Task is now running in background. "@;
        assert(said.subrange(0, notice.len() as int) =~= notice);
        let open = "Background work started for `"@;
        let tail =
            "`. The final result will be delivered automatically when ready. Use read_task_output(task_handle, mode={…}) to inspect intermediate output without bloating context."@;
        assert(view.handle_summary(name) =~= open + name + tail);
        lemma_held(open, name, tail);
    }
}

/// The handle of background work carries the task, the directory, the summary and the
/// files, and how they can be read.
pub proof fn handles_stand_for_the_task(
    view: RegistryView,
    name: Text,
    task_id: Text,
    files: Seq<Text>,
)
    ensures
        view.handle(name, task_id, files) matches JsonView::Object(members) && {
            &&& members.contains(("task_handle"@, JsonView::Str(task_id)))
            &&& members.contains(("output_dir"@, JsonView::Str(view.output_dir())))
            &&& members.contains(("summary"@, JsonView::Str(view.handle_summary(name))))
            &&& members.contains(("ok"@, JsonView::Bool(true)))
            &&& members.contains(("read_with"@, JsonView::Str("read_task_output"@)))
            &&& members.contains(("expected_files"@, crate::json::str_array_view(files)))
        },
{
    let members = view.handle(name, task_id, files)->Object_0;
    assert(members[0] == ("expected_files"@, crate::json::str_array_view(files)));
    assert(members[1] == ("ok"@, JsonView::Bool(true)));
    assert(members[2] == ("output_dir"@, JsonView::Str(view.output_dir())));
    assert(members[4] == ("read_with"@, JsonView::Str("read_task_output"@)));
    assert(members[5] == ("summary"@, JsonView::Str(view.handle_summary(name))));
    assert(members[6] == ("task_handle"@, JsonView::Str(task_id)));
}

/// A directory that is written with a slash at its end ends with exactly what it
/// was, and one slash more if it had none.
pub proof fn directories_end_with_a_slash(dir: Text)
    ensures
        slashed(dir).len() > 0,
        slashed(dir).last() == '/',
        dir.is_prefix_of(slashed(dir)),
        dir.len() > 0 && dir.last() == '/' ==> slashed(dir) == dir,
        slashed(dir).len() <= dir.len() + 1,
{
    reveal_strlit("/");
    assert("/"@ =~= seq!['/']);
    assert(slashed(dir).subrange(0, dir.len() as int) =~= dir);
    if dir.len() > 0 && dir.last() == '/' {
        assert(dir.subrange(dir.len() - 1, dir.len() as int) =~= "/"@);
    } else if "/"@.is_suffix_of(dir) {
        assert(dir.subrange(dir.len() - 1, dir.len() as int)[0] == dir.last());
    }
}

/// A background task is registered last, active, for the session, with what its tool
/// was called with; the earlier ones stay.
pub proof fn background_tasks_are_registered(
    view: RegistryView,
    id: Text,
    tool_name: Text,
    tool_call_id: Text,
    tool_input: Option<JsonView>,
    message: Option<Text>,
)
    ensures
        ({
            let after = view.with_task(id, tool_name, tool_call_id, tool_input, message);
            let task = after.supervisor.last();
            &&& after.supervisor.len() == view.supervisor.len() + 1
            &&& after.supervisor.drop_last() == view.supervisor
            &&& task.id == id
            &&& task.tool_name == tool_name
            &&& task.tool_call_id == tool_call_id
            &&& task.session_key == view.session_key
            &&& task.tool_input == tool_input
            &&& task.client_message_id == message
            &&& task.active
            &&& after.tools == view.tools
            &&& after.deferred == view.deferred
        }),
{
    let after = view.with_task(id, tool_name, tool_call_id, tool_input, message);
    assert(after.supervisor.drop_last() =~= view.supervisor);
}

/// The number of tasks that have not ended is no larger than the number of tasks, and
/// there is none exactly if all have ended. The end of a task changes nothing of it
/// but that it is no longer active.
pub proof fn ended_tasks_are_not_counted(tasks: Seq<TaskView>, task: TaskView, id: Text)
    ensures
        active_count(tasks) <= tasks.len(),
        active_count(tasks) == 0 <==> forall|i: int|
            0 <= i < tasks.len() ==> !(#[trigger] tasks[i]).active,
        (forall|i: int| 0 <= i < tasks.len() ==> (#[trigger] tasks[i]).active) ==> active_count(
            tasks,
        ) == tasks.len(),
        task.id == id ==> !ended(task, id).active,
        task.id != id ==> ended(task, id) == task,
        ended(task, id).id == task.id,
        ended(task, id).tool_name == task.tool_name,
        ended(task, id).tool_call_id == task.tool_call_id,
    decreases tasks.len(),
{
    if tasks.len() > 0 {
        let rest = tasks.drop_last();
        let n = tasks.len() - 1;
        ended_tasks_are_not_counted(rest, task, id);
        assert(forall|i: int| 0 <= i < n ==> #[trigger] rest[i] == tasks[i]);
        if active_count(tasks) == 0 {
            assert forall|i: int| 0 <= i < tasks.len() implies !(#[trigger] tasks[i]).active by {
                if i < n {
                    assert(!rest[i].active);
                }
            }
        }
        if forall|i: int| 0 <= i < tasks.len() ==> !(#[trigger] tasks[i]).active {
            assert(!tasks[n].active);
            assert forall|i: int| 0 <= i < rest.len() implies !(#[trigger] rest[i]).active by {
                assert(!tasks[i].active);
            }
        }
        if forall|i: int| 0 <= i < tasks.len() ==> (#[trigger] tasks[i]).active {
            assert(tasks[n].active);
            assert forall|i: int| 0 <= i < rest.len() implies (#[trigger] rest[i]).active by {
                assert(tasks[i].active);
            }
        }
    }
}

// ---------------------------------------------------------------------------
// Tools that are bound to something

/// A tool that is bound to a directory works there under its own name. It runs alone
/// if it changes files or runs commands, and the shell runs in the sandbox.
pub proof fn bound_tools_work_in_their_directory(
    made: Seq<ToolView>,
    name: Text,
    cwd: Text,
    sandbox: Option<HostHandle>,
)
    ensures
        ({
            let tool = bound_tool(made, name, cwd, sandbox);
            let alone = name == "shell"@ || name == "write_file"@ || name == "edit_file"@ || name
                == "diff_edit"@;
            &&& tool.name == name
            &&& tool.work_dir == Some(cwd)
            &&& alone ==> tool.concurrency_class == ConcurrencyClass::Exclusive
            &&& !alone ==> tool.concurrency_class == made_tool(made, name).concurrency_class
            &&& name == "shell"@ ==> tool.sandbox == sandbox
            &&& tool.description == made_tool(made, name).description
            &&& tool.input_schema == made_tool(made, name).input_schema
            &&& tool.tags == made_tool(made, name).tags
            &&& mutates(name) == alone
        }),
{
}

/// What the host made last under a name is taken; without one the tool is plain.
pub proof fn made_tools_are_taken(made: Seq<ToolView>, i: int, name: Text)
    ensures
        0 <= i < made.len() && made[i].name == name && (forall|j: int|
            i < j < made.len() ==> (#[trigger] made[j]).name != name) ==> made_tool(made, name)
            == made[i],
        !has_tool(made, name) ==> made_tool(made, name) == crate::tool_entry::plain_tool(name),
    decreases made.len(),
{
    if made.len() > 0 {
        let rest = made.drop_last();
        let n = made.len() - 1;
        made_tools_are_taken(rest, i, name);
        assert(forall|j: int| 0 <= j < n ==> #[trigger] rest[j] == made[j]);
        if !has_tool(made, name) {
            assert(made[n].name != name);
            if has_tool(rest, name) {
                let k = choose|k: int| 0 <= k < rest.len() && (#[trigger] rest[k]).name == name;
                assert(made[k].name == name);
            }
        }
        if 0 <= i < made.len() && made[i].name == name && (forall|j: int|
            i < j < made.len() ==> (#[trigger] made[j]).name != name) {
            if i < n {
                assert(made[n].name != name);
                assert(rest[i] == made[i]);
                assert forall|j: int| i < j < rest.len() implies (#[trigger] rest[j]).name
                    != name by {
                    assert(made[j].name != name);
                }
            }
        }
    }
}

/// Only the tools of plugins move to another directory, and only their directory
/// changes; only a registered tool gets a configuration.
pub proof fn only_plugins_move(
    tool: ToolView,
    dir: Text,
    made: Seq<ToolView>,
    tools: Seq<ToolView>,
    name: Text,
    config: HostHandle,
)
    requires
        distinct_names(tools),
    ensures
        tool.from_plugin ==> rebound(tool, dir).work_dir == Some(dir),
        !tool.from_plugin ==> rebound(tool, dir) == tool,
        rebound(tool, dir).name == tool.name,
        rebound(tool, dir).description == tool.description,
        !has_tool(tools, name) ==> configured(made, tools, name, config) == tools,
        has_tool(tools, name) ==> (tool_named(
            configured(made, tools, name, config),
            name,
        ) matches Some(found) && found.config == Some(config)),
{
    if has_tool(tools, name) {
        crate::tool_entry::lemma_made_name(made, name);
        let one = crate::registry::configured_tool(made, name, config);
        lemma_with_tool(tools, one);
    }
}

} // verus!
