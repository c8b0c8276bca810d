//! What holds of a registry whatever is done with it.
use vstd::prelude::*;

use crate::context::HostHandle;
use crate::lifecycle::first_of;
use crate::permissions::{entry_expansion, expansion, profile_permissions};
use crate::policy::{
    entry_covers, group_holding, group_named, group_of, group_tools, list_covers, tool_groups,
};
use crate::profile::{ProfileDefinition, ProfileTools};
use crate::registry::{
    activation, bound_tool, bound_tools, builtin_tools, call_activation, cwd_bound_names,
    lemma_kept_distinct, lemma_names_hold, profile_filters, profile_keeps, registered_of,
    web_names, with_tools, RegistryView, ToolRegistry, ToolSpecView,
};
use crate::supervisor::TaskView;
use crate::text::{lemma_filter_holds, texts, Text};
use crate::tool_entry::{
    distinct_names, has_tool, lemma_made_name, lemma_tool_at, lemma_with_tool, made_tool,
    tool_named, ToolView,
};

verus! {

/// Some description of a list is that of the tool.
pub open spec fn described(specs: Seq<ToolSpecView>, name: Text) -> bool {
    exists|i: int| 0 <= i < specs.len() && (#[trigger] specs[i]).name == name
}

/// A model is told about a tool exactly when the tool is visible.
pub proof fn visible_tools_are_described(view: RegistryView, name: Text)
    requires
        distinct_names(view.tools),
    ensures
        described(view.specs(), name) <==> view.visible(name),
{
    let shown = |tool: ToolView| !view.deferred.contains(tool.name) && view.passes(tool);
    let kept = view.tools.filter(shown);
    assert(view.specs() =~= kept.map_values(|tool: ToolView| view.spec_of(tool)));
    if described(view.specs(), name) {
        let i = choose|i: int| 0 <= i < view.specs().len() && (#[trigger] view.specs()[i]).name == name;
        assert(kept.contains(kept[i]));
        lemma_filter_holds(view.tools, shown, kept[i]);
        lemma_tool_at(view.tools, view.tools.index_of(kept[i]));
    }
    if view.visible(name) {
        let tool = tool_named(view.tools, name)->0;
        let k = choose|k: int| 0 <= k < view.tools.len() && (#[trigger] view.tools[k]).name == name;
        assert(tool == view.tools[k]);
        assert(view.tools.contains(tool));
        lemma_filter_holds(view.tools, shown, tool);
        let i = kept.index_of(tool);
        assert(view.specs()[i].name == name);
    }
}

/// No two descriptions of a list are of the same tool.
pub open spec fn described_once(specs: Seq<ToolSpecView>) -> bool {
    forall|i: int, j: int|
        0 <= i < j < specs.len() ==> (#[trigger] specs[i]).name != (#[trigger] specs[j]).name
}

/// Of a registry a model is told exactly about the visible tools, and about each
/// of them once.
pub proof fn each_visible_tool_is_described_once(registry: ToolRegistry, name: Text)
    requires
        registry.inv(),
    ensures
        described(registry@.specs(), name) <==> registry@.visible(name),
        described_once(registry@.specs()),
{
    let view = registry@;
    registry.names_are_distinct();
    visible_tools_are_described(view, name);
    let shown = |tool: ToolView| !view.deferred.contains(tool.name) && view.passes(tool);
    let kept = view.tools.filter(shown);
    lemma_kept_distinct(view.tools, shown);
    assert(view.specs() =~= kept.map_values(|tool: ToolView| view.spec_of(tool)));
    assert forall|i: int, j: int| 0 <= i < j < view.specs().len() implies (
    #[trigger] view.specs()[i]).name != (#[trigger] view.specs()[j]).name by {
        assert(kept[i].name != kept[j].name);
    }
}

/// What the provider policy denies is neither shown nor executed.
pub proof fn denied_tools_are_neither_seen_nor_called(view: RegistryView, name: Text, size: nat)
    requires
        view.provider_policy is Some,
        !view.provider_policy->0.allows(name),
    ensures
        !view.loadable(name),
        !view.visible(name),
        view.refusal(name, size) is Some,
        view.after_call(name, size) == view,
{
    if has_tool(view.tools, name) {
        let k = choose|k: int| 0 <= k < view.tools.len() && (#[trigger] view.tools[k]).name == name;
    }
}

/// What is put aside was in use, idle, not pinned, and does not run in the
/// background; and no more is put aside than there is too much.
pub proof fn only_idle_unpinned_tools_are_put_aside(view: RegistryView, out: Seq<Text>, name: Text)
    requires
        view.lifecycle.evicts(view.active(), out),
        out.contains(name),
    ensures
        has_tool(view.tools, name),
        view.lifecycle.idle(name),
        !view.lifecycle.base.contains(name),
        !view.spawn_only.contains(name),
        !view.deferred.contains(name),
        out.len() <= view.active().len() - view.lifecycle.limit,
{
    let active = view.active();
    let life = view.lifecycle;
    let order = choose|order: Seq<int>|
        {
            &&& #[trigger] life.staleness_order(active, order)
            &&& out == first_of(order, active, active.len() - life.limit)
        };
    let k = out.index_of(name);
    assert(order.contains(order[k]));
    assert(active[order[k]] == name);
    let pred = |tool: ToolView|
        !view.deferred.contains(tool.name) && !view.spawn_only.contains(tool.name);
    let kept = view.tools.filter(pred);
    let tool = kept[order[k]];
    assert(kept.contains(tool));
    lemma_filter_holds(view.tools, pred, tool);
    assert(view.tools[view.tools.index_of(tool)].name == name);
}

/// A tool that is deferred and then activated by its name is where it was.
pub proof fn activation_undoes_deferral(view: RegistryView, name: Text)
    requires
        group_tools(name) is None,
        has_tool(view.tools, name),
        !view.deferred.contains(name),
    ensures
        ({
            let hidden = view.deferred.union(registered_of(view.tools, seq![name]));
            &&& hidden.contains(name)
            &&& activation(hidden, name) == seq![name]
            &&& hidden.difference(activation(hidden, name).to_set()) == view.deferred
        }),
{
    assert(seq![name][0] == name);
    assert(seq![name].contains(name));
    let hidden = view.deferred.union(registered_of(view.tools, seq![name]));
    assert(hidden.difference(seq![name].to_set()) =~= view.deferred);
}

/// A group of which nothing is deferred, deferred and then activated by its name,
/// is where it was.
pub proof fn activation_undoes_deferral_of_a_group(view: RegistryView, group: Text)
    requires
        group_tools(group) is Some,
        forall|tool: Text| #[trigger]
            group_tools(group)->0.contains(tool) ==> !view.deferred.contains(tool),
    ensures
        ({
            let tools = group_tools(group)->0;
            let hidden = view.deferred.union(registered_of(view.tools, tools));
            &&& activation(hidden, group).to_set() == registered_of(view.tools, tools)
            &&& hidden.difference(activation(hidden, group).to_set()) == view.deferred
        }),
{
    let tools = group_tools(group)->0;
    let hidden = view.deferred.union(registered_of(view.tools, tools));
    let got = activation(hidden, group);
    assert forall|tool: Text| got.to_set().contains(tool) <==> registered_of(
        view.tools,
        tools,
    ).contains(tool) by {
        lemma_filter_holds(tools, |t: Text| hidden.contains(t), tool);
    }
    assert(got.to_set() =~= registered_of(view.tools, tools));
    assert(hidden.difference(got.to_set()) =~= view.deferred);
}

/// After tools have been removed, one that is not registered is neither put aside
/// nor run in the background.
pub proof fn removed_tools_cannot_be_activated(
    view: RegistryView,
    keep: spec_fn(Text) -> bool,
    name: Text,
)
    requires
        !has_tool(view.tools, name) || !keep(name),
    ensures
        !has_tool(view.restricted(keep).tools, name),
        !view.restricted(keep).spawn_only.contains(name),
        !view.restricted(keep).spawn_only_messages.dom().contains(name),
        !view.restricted(keep).deferred.contains(name),
{
    let pred = |tool: ToolView| keep(tool.name);
    let kept = view.tools.filter(pred);
    if has_tool(kept, name) {
        let i = choose|i: int| 0 <= i < kept.len() && (#[trigger] kept[i]).name == name;
        assert(kept.contains(kept[i]));
        lemma_filter_holds(view.tools, pred, kept[i]);
        assert(view.tools[view.tools.index_of(kept[i])].name == name);
    }
    lemma_names_hold(kept, name);
}

/// Removing tools by a rule twice is removing them once.
pub proof fn removal_is_idempotent(view: RegistryView, keep: spec_fn(Text) -> bool)
    ensures
        view.restricted(keep).restricted(keep) == view.restricted(keep),
{
    let pred = |tool: ToolView| keep(tool.name);
    let once = view.restricted(keep);
    assert forall|i: int| 0 <= i < once.tools.len() implies pred(#[trigger] once.tools[i]) by {
        view.tools.lemma_filter_pred(pred, i);
    }
    lemma_all_kept(once.tools, pred);
    assert(once.restricted(keep) =~= once);
}

proof fn lemma_all_kept(tools: Seq<ToolView>, pred: spec_fn(ToolView) -> bool)
    requires
        forall|i: int| 0 <= i < tools.len() ==> pred(#[trigger] tools[i]),
    ensures
        tools.filter(pred) == tools,
    decreases tools.len(),
{
    reveal(Seq::filter);
    if tools.len() > 0 {
        let rest = tools.drop_last();
        assert forall|i: int| 0 <= i < rest.len() implies pred(#[trigger] rest[i]) by {
            assert(rest[i] == tools[i]);
        }
        lemma_all_kept(rest, pred);
        assert(pred(tools[tools.len() - 1]));
        assert(rest.push(tools.last()) =~= tools);
    }
}

/// Whatever a profile filters, the tools that run in the background stay.
pub proof fn profiles_keep_background_tools(view: RegistryView, tools: ProfileTools, name: Text)
    requires
        has_tool(view.tools, name),
        view.spawn_only.contains(name),
    ensures
        ({
            let kept = view.restricted(|n: Text| profile_keeps(tools, view.spawn_only, n));
            &&& has_tool(kept.tools, name)
            &&& kept.spawn_only.contains(name)
        }),
{
    let keep = |n: Text| profile_keeps(tools, view.spawn_only, n);
    let pred = |tool: ToolView| keep(tool.name);
    let kept = view.tools.filter(pred);
    let i = choose|i: int| 0 <= i < view.tools.len() && (#[trigger] view.tools[i]).name == name;
    assert(view.tools.contains(view.tools[i]));
    lemma_filter_holds(view.tools, pred, view.tools[i]);
    let j = kept.index_of(view.tools[i]);
    assert(kept[j].name == name);
    lemma_names_hold(kept, name);
}

/// The first group that holds a tool is the one that its name leads to.
pub(crate) proof fn lemma_group_by_name(tool: Text)
    ensures
        match group_of(tool) {
            Some(group) => group_tools(group) is Some && group_tools(group)->0.contains(tool),
            None => true,
        },
{
    reveal_strlit("group:fs");
    reveal_strlit("group:runtime");
    reveal_strlit("group:search");
    reveal_strlit("group:web");
    reveal_strlit("group:memory");
    reveal_with_fuel(group_holding, 6);
    reveal_with_fuel(group_named, 6);
    let t0 = tool_groups();
    let t1 = t0.drop_first();
    let t2 = t1.drop_first();
    let t3 = t2.drop_first();
    let t4 = t3.drop_first();
    assert("group:fs"@.len() == 8);
    assert("group:runtime"@.len() == 13);
    assert("group:search"@.len() == 12);
    assert("group:web"@.len() == 9);
    assert("group:memory"@.len() == 12);
    assert("group:memory"@[6] == 'm' && "group:search"@[6] == 's');
    assert(t1[0] == t0[1]);
    assert(t2[0] == t0[2]);
    assert(t3[0] == t0[3]);
    assert(t4[0] == t0[4]);
    assert(t4.drop_first().len() == 0);
}

/// A tool that was called is loaded afterwards, unless the policy refused it;
/// and a call is counted as a use exactly when it was let through.
pub proof fn called_tools_are_loaded(view: RegistryView, name: Text, size: nat)
    ensures
        view.policy_refusal(name) is None ==> !view.after_call(name, size).deferred.contains(name),
        view.refusal(name, size) is Some ==> view.after_call(name, size).lifecycle
            == view.lifecycle,
        view.refusal(name, size) is None ==> view.after_call(name, size).lifecycle
            == view.lifecycle.used(name),
{
    lemma_group_by_name(name);
    if view.deferred.contains(name) {
        let released = call_activation(view.deferred, name);
        match group_of(name) {
            Some(group) => {
                let tools = group_tools(group)->0;
                lemma_filter_holds(tools, |tool: Text| view.deferred.contains(tool), name);
            },
            None => {
                assert(released[0] == name);
            },
        }
        assert(released.contains(name));
    }
}

/// A registry for another session knows nothing of this session.
pub proof fn snapshots_carry_nothing_of_a_session(view: RegistryView, exclude: Seq<Text>)
    ensures
        ({
            let copy = view.snapshot(exclude);
            &&& copy.background_result_sender is None
            &&& copy.supervisor == Seq::<TaskView>::empty()
            &&& copy.session_key is None
            &&& !copy.spawn_only_invoked
            &&& copy.lifecycle.now == 0
            &&& forall|name: Text| #[trigger] (copy.lifecycle.last_use)(name) == 0
            &&& forall|name: Text| #[trigger]
                has_tool(copy.tools, name) <==> has_tool(view.tools, name) && !exclude.contains(name)
        }),
{
    let pred = |tool: ToolView| !exclude.contains(tool.name);
    let kept = view.tools.filter(pred);
    assert forall|name: Text| #[trigger] has_tool(kept, name) <==> has_tool(view.tools, name)
        && !exclude.contains(name) by {
        if has_tool(kept, name) {
            let i = choose|i: int| 0 <= i < kept.len() && (#[trigger] kept[i]).name == name;
            assert(kept.contains(kept[i]));
            lemma_filter_holds(view.tools, pred, kept[i]);
            assert(view.tools[view.tools.index_of(kept[i])].name == name);
        }
        if has_tool(view.tools, name) && !exclude.contains(name) {
            let i = choose|i: int|
                0 <= i < view.tools.len() && (#[trigger] view.tools[i]).name == name;
            assert(view.tools.contains(view.tools[i]));
            lemma_filter_holds(view.tools, pred, view.tools[i]);
            assert(kept[kept.index_of(view.tools[i])].name == name);
        }
    }
}

/// A context filter hides no tool that has no tags.
pub proof fn untagged_tools_pass_context_filters(view: RegistryView, tool: ToolView)
    requires
        tool.tags.len() == 0,
    ensures
        view.passes(tool) == (RegistryView { context_filter: None, ..view }).passes(tool),
{
}

/// Of the idle tools those are put aside first that were used longest ago.
pub proof fn the_stalest_go_first(
    view: RegistryView,
    out: Seq<Text>,
    gone: Text,
    stays: Text,
)
    requires
        view.lifecycle.evicts(view.active(), out),
        out.contains(gone),
        view.active().contains(stays),
        view.lifecycle.idle(stays),
        !out.contains(stays),
    ensures
        (view.lifecycle.last_use)(gone) <= (view.lifecycle.last_use)(stays),
{
    let active = view.active();
    let life = view.lifecycle;
    let order = choose|order: Seq<int>|
        {
            &&& #[trigger] life.staleness_order(active, order)
            &&& out == first_of(order, active, active.len() - life.limit)
        };
    let k = out.index_of(gone);
    let j = active.index_of(stays);
    assert(order.contains(j));
    let m = order.index_of(j);
    if m < out.len() {
        assert(out[m] == stays);
    }
    assert(life.staler(active, order[k], order[m]));
}

/// No entry of a list stands for all names with a prefix.
pub open spec fn no_prefixes(entries: Seq<Text>) -> bool {
    forall|i: int|
        0 <= i < entries.len() ==> !((#[trigger] entries[i]).len() > 0 && entries[i].last() == '*')
}

/// What a profile lists.
pub open spec fn profile_entries(tools: ProfileTools) -> Seq<Text> {
    match tools {
        ProfileTools::Default => Seq::empty(),
        ProfileTools::AllowList { tools: allow } => texts(allow@),
        ProfileTools::DenyList { tools: deny } => texts(deny@),
    }
}

/// The filter of a registry and the permissions of a session agree on a profile
/// that names its tools and groups in full.
pub proof fn filters_and_permissions_agree(profile: ProfileDefinition, name: Text)
    requires
        profile_filters(profile.tools),
        no_prefixes(profile_entries(profile.tools)),
    ensures
        profile_keeps(profile.tools, Set::empty(), name) == profile_permissions(profile).permits(
            name,
        ),
{
    let entries = profile_entries(profile.tools);
    assert forall|i: int| 0 <= i < entries.len() implies entry_covers(#[trigger] entries[i], name)
        == entry_expansion(entries[i]).contains(name) by {
        match group_tools(entries[i]) {
            Some(tools) => {},
            None => {},
        }
    }
    if list_covers(entries, name) {
        let i = choose|i: int| 0 <= i < entries.len() && entry_covers(#[trigger] entries[i], name);
        assert(entry_expansion(entries[i]).contains(name));
    }
    if expansion(entries).contains(name) {
        let i = choose|i: int|
            0 <= i < entries.len() && entry_expansion(#[trigger] entries[i]).contains(name);
        assert(entry_covers(entries[i], name));
    }
}

proof fn lemma_with_tools(tools: Seq<ToolView>, added: Seq<ToolView>)
    requires
        distinct_names(tools),
        distinct_names(added),
    ensures
        distinct_names(with_tools(tools, added)),
        forall|i: int|
            0 <= i < added.len() ==> tool_named(
                with_tools(tools, added),
                (#[trigger] added[i]).name,
            ) == Some(added[i]),
        forall|name: Text|
            !has_tool(added, name) ==> #[trigger] tool_named(with_tools(tools, added), name)
                == tool_named(tools, name),
    decreases added.len(),
{
    if added.len() > 0 {
        let head = added.drop_last();
        let last = added.last();
        assert forall|i: int, j: int| 0 <= i < j < head.len() implies (#[trigger] head[i]).name != (
        #[trigger] head[j]).name by {
            assert(head[i] == added[i] && head[j] == added[j]);
        }
        lemma_with_tools(tools, head);
        lemma_with_tool(with_tools(tools, head), last);
        assert forall|i: int| 0 <= i < added.len() implies tool_named(
            with_tools(tools, added),
            (#[trigger] added[i]).name,
        ) == Some(added[i]) by {
            if i < head.len() {
                assert(head[i] == added[i]);
                assert(added[i].name != added[added.len() - 1].name);
            }
        }
        assert forall|name: Text| !has_tool(added, name) implies #[trigger] tool_named(
            with_tools(tools, added),
            name,
        ) == tool_named(tools, name) by {
            if has_tool(head, name) {
                let i = choose|i: int| 0 <= i < head.len() && (#[trigger] head[i]).name == name;
                assert(added[i].name == name);
            }
            assert(added[added.len() - 1].name == last.name);
            assert(!has_tool(head, name));
            assert(tool_named(with_tools(tools, head), name) == tool_named(tools, name));
            assert(name != last.name);
        }
    }
}

/// The names of the tools that come with the library are all different.
proof fn lemma_builtin_names()
    ensures
        forall|i: int, j: int|
            0 <= i < j < 15 ==> #[trigger] (cwd_bound_names() + web_names())[i] != #[trigger] (
            cwd_bound_names() + web_names())[j],
{
    reveal_strlit("shell");
    reveal_strlit("read_file");
    reveal_strlit("diff_edit");
    reveal_strlit("edit_file");
    reveal_strlit("write_file");
    reveal_strlit("glob");
    reveal_strlit("grep");
    reveal_strlit("list_dir");
    reveal_strlit("check_workspace_contract");
    reveal_strlit("workspace_log");
    reveal_strlit("workspace_show");
    reveal_strlit("workspace_diff");
    reveal_strlit("web_search");
    reveal_strlit("web_fetch");
    reveal_strlit("browser");
    assert("shell"@.len() == 5);
    assert("read_file"@.len() == 9 && "read_file"@[0] == 'r');
    assert("diff_edit"@.len() == 9 && "diff_edit"@[0] == 'd');
    assert("edit_file"@.len() == 9 && "edit_file"@[0] == 'e');
    assert("write_file"@.len() == 10 && "write_file"@[1] == 'r');
    assert("glob"@.len() == 4 && "glob"@[1] == 'l');
    assert("grep"@.len() == 4 && "grep"@[1] == 'r');
    assert("list_dir"@.len() == 8);
    assert("check_workspace_contract"@.len() == 24);
    assert("workspace_log"@.len() == 13);
    assert("workspace_show"@.len() == 14 && "workspace_show"@[10] == 's');
    assert("workspace_diff"@.len() == 14 && "workspace_diff"@[10] == 'd');
    assert("web_search"@.len() == 10 && "web_search"@[1] == 'e');
    assert("web_fetch"@.len() == 9 && "web_fetch"@[0] == 'w');
    assert("browser"@.len() == 7);
}

/// The names of the tools that are bound to a directory are all different.
proof fn lemma_bound_names(made: Seq<ToolView>, cwd: Text, sandbox: Option<HostHandle>)
    ensures
        distinct_names(bound_tools(made, cwd_bound_names(), cwd, sandbox)),
{
    lemma_builtin_names();
    let names = cwd_bound_names();
    let known = names + web_names();
    let all = bound_tools(made, names, cwd, sandbox);
    assert forall|i: int, j: int| 0 <= i < j < all.len() implies (#[trigger] all[i]).name != (
    #[trigger] all[j]).name by {
        assert(all[i].name == known[i]);
        assert(all[j].name == known[j]);
    }
}

/// Each tool that comes with the library is registered as the host made it:
/// those that are bound to a directory work in the one that was given, and the
/// others are left alone.
pub proof fn builtin_tools_are_described_as_made(
    made: Seq<ToolView>,
    cwd: Text,
    sandbox: Option<HostHandle>,
    name: Text,
)
    ensures
        ({
            let tools = with_tools(Seq::empty(), builtin_tools(made, cwd, sandbox));
            &&& distinct_names(tools)
            &&& cwd_bound_names().contains(name) ==> tool_named(tools, name) == Some(
                bound_tool(made, name, cwd, sandbox),
            )
            &&& web_names().contains(name) ==> tool_named(tools, name) == Some(
                made_tool(made, name),
            )
            &&& !cwd_bound_names().contains(name) && !web_names().contains(name) ==> tool_named(
                tools,
                name,
            ) is None
        }),
{
    lemma_builtin_names();
    let bound = cwd_bound_names();
    let web = web_names();
    let known = bound + web;
    let added = builtin_tools(made, cwd, sandbox);
    let place = |i: int| if i < 8 { i } else if i < 11 { i + 4 } else { i - 3 };
    assert forall|i: int| 0 <= i < added.len() implies (#[trigger] added[i]).name == known[place(
        i,
    )] by {
        if 8 <= i < 11 {
            lemma_made_name(made, web[i - 8]);
        }
    }
    assert forall|i: int, j: int| 0 <= i < j < added.len() implies (#[trigger] added[i]).name != (
    #[trigger] added[j]).name by {
        let a = place(i);
        let b = place(j);
        assert(a < b ==> known[a] != known[b]);
        assert(b < a ==> known[b] != known[a]);
    }
    lemma_with_tools(Seq::empty(), added);
    if bound.contains(name) {
        let k = bound.index_of(name);
        let i = if k < 8 { k } else { k + 3 };
        assert(added[i] == bound_tool(made, name, cwd, sandbox));
        assert(added[i].name == name);
    }
    if web.contains(name) {
        let k = web.index_of(name);
        lemma_made_name(made, name);
        assert(added[k + 8] == made_tool(made, name));
        assert(added[k + 8].name == name);
    }
    if has_tool(added, name) {
        let i = choose|i: int| 0 <= i < added.len() && (#[trigger] added[i]).name == name;
        let k = place(i);
        assert(known[k] == name);
        assert(k < 12 ==> bound[k] == name);
        assert(k >= 12 ==> web[k - 12] == name);
    }
}

/// A registry that was moved to a directory knows nothing of the session, its
/// tools that are bound to a directory work in the new one, and the others are
/// as they were.
pub proof fn moving_leaves_the_session_behind(
    view: RegistryView,
    made: Seq<ToolView>,
    cwd: Text,
    sandbox: Option<HostHandle>,
    name: Text,
)
    requires
        distinct_names(view.tools),
    ensures
        ({
            let moved = view.moved_to(made, cwd, sandbox);
            &&& moved.workspace_root == Some(cwd)
            &&& moved.session_key is None
            &&& moved.supervisor == Seq::<TaskView>::empty()
            &&& moved.background_result_sender is None
            &&& !moved.spawn_only_invoked
            &&& cwd_bound_names().contains(name) ==> tool_named(moved.tools, name) == Some(
                bound_tool(made, name, cwd, sandbox),
            )
            &&& !cwd_bound_names().contains(name) ==> tool_named(moved.tools, name) == tool_named(
                view.tools,
                name,
            )
        }),
{
    let names = cwd_bound_names();
    let pred = |tool: ToolView| !names.contains(tool.name);
    let kept = view.tools.filter(pred);
    assert(kept == view.snapshot(names).tools);
    let added = bound_tools(made, names, cwd, sandbox);
    lemma_bound_names(made, cwd, sandbox);
    lemma_filtered_names(view.tools, pred, name);
    lemma_with_tools(kept, added);
    if names.contains(name) {
        let i = names.index_of(name);
        assert(added[i] == bound_tool(made, name, cwd, sandbox));
        assert(added[i].name == name);
    } else {
        if has_tool(added, name) {
            let i = choose|i: int| 0 <= i < added.len() && (#[trigger] added[i]).name == name;
            assert(names[i] == name);
        }
    }
}

/// Filtering by name keeps names distinct, and what it keeps of a name is what
/// there was.
proof fn lemma_filtered_names(tools: Seq<ToolView>, pred: spec_fn(ToolView) -> bool, name: Text)
    requires
        distinct_names(tools),
    ensures
        distinct_names(tools.filter(pred)),
        tool_named(tools, name) is Some && pred(tool_named(tools, name)->0) ==> tool_named(
            tools.filter(pred),
            name,
        ) == tool_named(tools, name),
        tool_named(tools, name) is None ==> tool_named(tools.filter(pred), name) is None,
{
    lemma_kept_distinct(tools, pred);
    let kept = tools.filter(pred);
    if tool_named(tools, name) is Some {
        let tool = tool_named(tools, name)->0;
        if pred(tool) {
            assert(tools.contains(tool));
            lemma_filter_holds(tools, pred, tool);
            lemma_tool_at(kept, kept.index_of(tool));
        }
    } else if has_tool(kept, name) {
        let i = choose|i: int| 0 <= i < kept.len() && (#[trigger] kept[i]).name == name;
        assert(kept.contains(kept[i]));
        lemma_filter_holds(tools, pred, kept[i]);
        assert(tools[tools.index_of(kept[i])].name == name);
    }
}

} // verus!
