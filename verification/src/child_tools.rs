//! The tools that a child agent gets.
use vstd::prelude::*;

use crate::policy::{entry_covers, group_named, tool_groups, ToolPolicy, ToolPolicyView};
use crate::registry::{
    deferred_without, ensure_subagent_tools_available, missing_tools, with_tools, RegistryView,
    ToolRegistry,
};
use crate::spawn::HookContext;
use crate::spawn_input::child_policy;
use crate::text::{copy_opt, joined, opt_text, texts, Text};
use crate::tool_entry::{has_tool, tool_views, ToolEntry, ToolView};
use crate::workflow::{contract_owned, WorkflowView};

verus! {

/// A policy applied to a registry. An empty one changes nothing.
pub open spec fn under_policy(view: RegistryView, policy: ToolPolicyView) -> RegistryView {
    if policy.is_empty() {
        view
    } else {
        view.restricted(|name: Text| policy.allows(name))
    }
}

/// The registry of a child: the given tools and those that are made for it,
/// none of them in the background, the allowed ones loaded, under the child's
/// policy and that of the provider.
pub open spec fn child_registry(
    base: RegistryView,
    made: Seq<ToolView>,
    allowed: Seq<Text>,
    policy: ToolPolicyView,
    provider: Option<ToolPolicyView>,
) -> RegistryView {
    let own = under_policy(
        RegistryView {
            tools: with_tools(base.tools, made),
            spawn_only: Set::empty(),
            spawn_only_messages: Map::empty(),
            deferred: deferred_without(base.deferred, allowed),
            ..base
        },
        policy,
    );
    match provider {
        Some(other) => if other.is_empty() {
            own
        } else {
            RegistryView { provider_policy: Some(other), ..own }
        },
        None => own,
    }
}

/// Prepares the registry of a child, and says whether the tools that it is
/// allowed are there.
pub fn prepare_child_tools(
    tools: &mut ToolRegistry,
    made: &[ToolEntry],
    allowed_tools: &[String],
    policy: &ToolPolicy,
    provider_policy: &Option<ToolPolicy>,
) -> (r: Result<(), String>)
    requires
        old(tools).inv(),
    ensures
        final(tools).inv(),
        final(tools)@ == child_registry(
            old(tools)@,
            tool_views(made@),
            texts(allowed_tools@),
            policy@,
            match *provider_policy {
                Some(p) => Some(p@),
                None => None,
            },
        ),
        match r {
            Ok(_) => missing_tools(
                with_tools(old(tools)@.tools, tool_views(made@)),
                texts(allowed_tools@),
            ).len() == 0,
            Err(text) => {
                let missing = missing_tools(
                    with_tools(old(tools)@.tools, tool_views(made@)),
                    texts(allowed_tools@),
                );
                &&& missing.len() > 0
                &&& text@ == "required tool(s) not available on this host: "@ + joined(
                    missing,
                    ", "@,
                )
            },
        },
{
    let ghost all = tool_views(made@);
    let mut i: usize = 0;
    proof {
        assert(all.take(0) =~= Seq::empty());
    }
    while i < made.len()
        invariant
            i <= made.len(),
            tools.inv(),
            all == tool_views(made@),
            tools@ == (RegistryView {
                tools: with_tools(old(tools)@.tools, all.take(i as int)),
                ..old(tools)@
            }),
        decreases made.len() - i,
    {
        proof {
            assert(all.take(i + 1).drop_last() =~= all.take(i as int));
            assert(all.take(i + 1).last() == made@[i as int]@);
        }
        tools.register_arc(&made[i]);
        i += 1;
    }
    proof {
        assert(all.take(all.len() as int) =~= all);
    }
    tools.clear_spawn_only();
    let available = ensure_subagent_tools_available(tools, allowed_tools);
    tools.apply_policy(policy);
    if let Some(p) = provider_policy {
        tools.set_provider_policy(p.copy());
    }
    available
}

/// No group of tools is named like a tool.
proof fn lemma_no_such_group()
    ensures
        group_named(tool_groups(), "spawn"@) is None,
        group_named(tool_groups(), "send_file"@) is None,
{
    reveal_strlit("spawn");
    reveal_strlit("send_file");
    reveal_strlit("group:fs");
    reveal_strlit("group:runtime");
    reveal_strlit("group:search");
    reveal_strlit("group:web");
    reveal_strlit("group:memory");
    reveal_with_fuel(group_named, 6);
    let t0 = tool_groups();
    let t1 = t0.drop_first();
    let t2 = t1.drop_first();
    let t3 = t2.drop_first();
    let t4 = t3.drop_first();
    assert("spawn"@[0] == 's');
    assert("send_file"@[0] == 's');
    assert("group:fs"@[0] == 'g');
    assert("group:runtime"@[0] == 'g');
    assert("group:search"@[0] == 'g');
    assert("group:web"@[0] == 'g');
    assert("group:memory"@[0] == 'g');
    assert(t1[0] == t0[1]);
    assert(t2[0] == t0[2]);
    assert(t3[0] == t0[3]);
    assert(t4[0] == t0[4]);
    assert(t4.drop_first().len() == 0);
}

/// A child never has the tool that starts children, and where a contract owns
/// the delivery it does not have the tool that sends files either, whatever
/// tools it was given or allowed.
pub proof fn children_never_spawn(
    base: RegistryView,
    made: Seq<ToolView>,
    allowed: Seq<Text>,
    workflow: Option<WorkflowView>,
    provider: Option<ToolPolicyView>,
)
    ensures
        ({
            let child = child_registry(
                base,
                made,
                allowed,
                child_policy(allowed, workflow),
                provider,
            );
            &&& !has_tool(child.tools, "spawn"@)
            &&& workflow is Some && contract_owned(workflow->0) ==> !has_tool(
                child.tools,
                "send_file"@,
            )
        }),
{
    let policy = child_policy(allowed, workflow);
    lemma_no_such_group();
    reveal_strlit("spawn");
    reveal_strlit("send_file");
    assert(policy.deny[0] == "spawn"@);
    assert(entry_covers(policy.deny[0], "spawn"@));
    assert(!policy.allows("spawn"@));
    let before = RegistryView {
        tools: with_tools(base.tools, made),
        spawn_only: Set::empty(),
        spawn_only_messages: Map::empty(),
        deferred: deferred_without(base.deferred, allowed),
        ..base
    };
    let keep = |name: Text| policy.allows(name);
    crate::registry_laws::removed_tools_cannot_be_activated(before, keep, "spawn"@);
    if workflow is Some && contract_owned(workflow->0) {
        assert(policy.deny[1] == "send_file"@);
        assert(entry_covers(policy.deny[1], "send_file"@));
        assert(!policy.allows("send_file"@));
        crate::registry_laws::removed_tools_cannot_be_activated(before, keep, "send_file"@);
    }
}

/// Whom the hooks of a child are told about: the child's own session if it has
/// one.
pub fn child_hook_context(template: &HookContext, child_session_key: &Option<String>) -> (r: HookContext)
    ensures
        opt_text(r.session_id) == match opt_text(*child_session_key) {
            Some(key) => Some(key),
            None => opt_text(template.session_id),
        },
        opt_text(r.profile_id) == opt_text(template.profile_id),
{
    HookContext {
        session_id: match child_session_key {
            Some(key) => Some(key.clone()),
            None => copy_opt(&template.session_id),
        },
        profile_id: copy_opt(&template.profile_id),
    }
}

} // verus!
