//! What holds of every policy and every profile.
use vstd::prelude::*;

use crate::permissions::{entry_expansion, expansion, profile_permissions, ToolPermissionsView};
use crate::policy::{
    denial_reason, entry_covers, group_named, group_of, group_tools, list_covers, tags_pass,
    tool_groups, ToolPolicyView,
};
use crate::profile::{ProfileDefinition, ProfileTools};
use crate::registry::{profile_filters, profile_keeps};
use crate::text::{texts, Text};

verus! {

/// The names of the groups.
pub open spec fn group_names() -> Seq<Text> {
    seq!["group:fs"@, "group:runtime"@, "group:search"@, "group:web"@, "group:memory"@]
}

/// The groups and their members; nothing else is a group.
pub proof fn groups_have_their_members(name: Text)
    ensures
        group_tools("group:fs"@) == Some(
            seq!["read_file"@, "write_file"@, "edit_file"@, "diff_edit"@],
        ),
        group_tools("group:runtime"@) == Some(seq!["shell"@]),
        group_tools("group:search"@) == Some(seq!["glob"@, "grep"@, "list_dir"@]),
        group_tools("group:web"@) == Some(seq!["web_search"@, "web_fetch"@, "browser"@]),
        group_tools("group:memory"@) == Some(seq!["recall_memory"@, "save_memory"@]),
        group_tools(name) is Some <==> group_names().contains(name),
{
    reveal_strlit("group:fs");
    reveal_strlit("group:runtime");
    reveal_strlit("group:search");
    reveal_strlit("group:web");
    reveal_strlit("group:memory");
    reveal_with_fuel(group_named, 6);
    let t0 = tool_groups();
    let t1 = t0.drop_first();
    let t2 = t1.drop_first();
    let t3 = t2.drop_first();
    let t4 = t3.drop_first();
    assert(t1[0] == t0[1]);
    assert(t2[0] == t0[2]);
    assert(t3[0] == t0[3]);
    assert(t4[0] == t0[4]);
    assert(t4.drop_first().len() == 0);
    assert("group:fs"@.len() == 8 && "group:runtime"@.len() == 13 && "group:search"@.len() == 12
        && "group:web"@.len() == 9 && "group:memory"@.len() == 12);
    assert("group:search"@[6] == 's' && "group:memory"@[6] == 'm');
    let names = group_names();
    assert(names[0] == "group:fs"@ && names[1] == "group:runtime"@ && names[2] == "group:search"@
        && names[3] == "group:web"@ && names[4] == "group:memory"@);
}

/// An entry that ends with a star stands for all names that begin with what is before
/// the star, and for no others.
pub proof fn stars_stand_for_prefixes(prefix: Text, name: Text)
    ensures
        entry_covers(prefix.push('*'), name) <==> prefix.is_prefix_of(name),
{
    let entry = prefix.push('*');
    groups_have_their_members(entry);
    reveal_strlit("group:fs");
    reveal_strlit("group:runtime");
    reveal_strlit("group:search");
    reveal_strlit("group:web");
    reveal_strlit("group:memory");
    if group_names().contains(entry) {
        let i = group_names().index_of(entry);
        assert(group_names()[i] == entry);
        assert("group:fs"@.last() == 's' && "group:runtime"@.last() == 'e' && "group:search"@.last()
            == 'h' && "group:web"@.last() == 'b' && "group:memory"@.last() == 'y');
        assert(entry.last() == '*');
    }
    assert(entry.drop_last() =~= prefix);
}

/// An entry that is neither a group nor ends with a star stands for its own name.
pub proof fn plain_entries_stand_for_themselves(entry: Text, name: Text)
    requires
        !group_names().contains(entry),
        entry.len() == 0 || entry.last() != '*',
    ensures
        entry_covers(entry, name) <==> entry == name,
        entry_expansion(entry).contains(name) <==> entry == name,
{
    groups_have_their_members(entry);
}

/// The name of a group stands for its members.
pub proof fn groups_stand_for_their_members(entry: Text, name: Text)
    requires
        group_names().contains(entry),
    ensures
        entry_covers(entry, name) <==> group_tools(entry)->0.contains(name),
        entry_expansion(entry).contains(name) <==> group_tools(entry)->0.contains(name),
{
    groups_have_their_members(entry);
}

/// A policy allows a tool exactly if no entry of its deny list covers it and, where
/// there is an allow list, some entry of that does. Where tags are required, a
/// tool with tags must have one of them. What is denied is said to be denied.
pub proof fn policies_allow_what_they_say(policy: ToolPolicyView, name: Text, tags: Seq<Text>)
    ensures
        policy.allows(name) <==> {
            &&& forall|i: int|
                0 <= i < policy.deny.len() ==> !entry_covers(#[trigger] policy.deny[i], name)
            &&& policy.allow.len() == 0 || exists|i: int|
                0 <= i < policy.allow.len() && entry_covers(#[trigger] policy.allow[i], name)
        },
        policy.allows_tagged(name, tags) <==> policy.allows(name) && (policy.require_tags.len() == 0
            || tags.len() == 0 || exists|i: int, j: int|
            0 <= i < tags.len() && 0 <= j < policy.require_tags.len() && #[trigger] tags[i]
                == #[trigger] policy.require_tags[j]),
        policy.is_empty() ==> policy.allows_tagged(name, tags),
        policy.is_empty() <==> policy.allow.len() == 0 && policy.deny.len() == 0
            && policy.require_tags.len() == 0,
        denial_reason(policy, name) == "listed in deny"@ <==> exists|i: int|
            0 <= i < policy.deny.len() && entry_covers(#[trigger] policy.deny[i], name),
        denial_reason(policy, name) == "listed in deny"@ || denial_reason(policy, name)
            == "not listed in allow"@,
{
    reveal_strlit("listed in deny");
    reveal_strlit("not listed in allow");
    assert("listed in deny"@[0] == 'l' && "not listed in allow"@[0] == 'n');
    tagged_tools_need_a_wanted_tag(policy.require_tags, tags);
}

/// A filter by tags hides exactly the tools that have tags, none of them wanted.
pub proof fn tagged_tools_need_a_wanted_tag(wanted: Seq<Text>, tags: Seq<Text>)
    ensures
        tags_pass(wanted, tags) <==> tags.len() == 0 || exists|i: int, j: int|
            0 <= i < tags.len() && 0 <= j < wanted.len() && #[trigger] tags[i]
                == #[trigger] wanted[j],
{
    if tags.len() > 0 && tags_pass(wanted, tags) {
        let i = choose|i: int| 0 <= i < tags.len() && wanted.contains(#[trigger] tags[i]);
        let j = wanted.index_of(tags[i]);
        assert(tags[i] == wanted[j]);
    }
    if exists|i: int, j: int|
        0 <= i < tags.len() && 0 <= j < wanted.len() && #[trigger] tags[i] == #[trigger] wanted[j] {
        let (i, j) = choose|i: int, j: int|
            0 <= i < tags.len() && 0 <= j < wanted.len() && #[trigger] tags[i]
                == #[trigger] wanted[j];
        assert(wanted.contains(tags[i]));
    }
}

/// A profile keeps its tier. It permits a tool unless a deny list names it or a
/// non-empty allow list does not.
pub proof fn profiles_permit_what_they_say(profile: ProfileDefinition, name: Text)
    ensures
        ({
            let permissions = profile_permissions(profile);
            &&& permissions.mode == profile.permissions
            &&& permissions.permits(name) <==> match profile.tools {
                ProfileTools::Default => true,
                ProfileTools::AllowList { tools } => tools@.len() == 0 || exists|i: int|
                    0 <= i < tools@.len() && entry_expansion((#[trigger] tools@[i])@).contains(name),
                ProfileTools::DenyList { tools } => forall|i: int|
                    0 <= i < tools@.len() ==> !entry_expansion(
                        (#[trigger] tools@[i])@,
                    ).contains(name),
            }
        }),
{
    match profile.tools {
        ProfileTools::Default => {},
        ProfileTools::AllowList { tools } => {
            lemma_expansion(tools@, name);
        },
        ProfileTools::DenyList { tools } => {
            lemma_expansion(tools@, name);
        },
    }
}

proof fn lemma_expansion(entries: Seq<String>, name: Text)
    ensures
        expansion(texts(entries)).contains(name) <==> exists|i: int|
            0 <= i < entries.len() && entry_expansion((#[trigger] entries[i])@).contains(name),
{
    let all = texts(entries);
    assert(forall|i: int| 0 <= i < entries.len() ==> #[trigger] all[i] == entries[i]@);
    if expansion(all).contains(name) {
        let i = choose|i: int|
            0 <= i < all.len() && entry_expansion(#[trigger] all[i]).contains(name);
        assert(entry_expansion(entries[i]@).contains(name));
    }
    if exists|i: int|
        0 <= i < entries.len() && entry_expansion((#[trigger] entries[i])@).contains(name) {
        let i = choose|i: int|
            0 <= i < entries.len() && entry_expansion((#[trigger] entries[i])@).contains(name);
        assert(entry_expansion(all[i]).contains(name));
    }
}

/// Permissions that allow all permit every tool in the ordinary tier, and a denied
/// tool is never permitted, nor one that is not among the only allowed ones.
pub proof fn permissions_deny_first(permissions: ToolPermissionsView, name: Text)
    ensures
        ToolPermissionsView::allow_all().permits(name),
        permissions.denied.contains(name) ==> !permissions.permits(name),
        permissions.allowed matches Some(only) ==> (!only.contains(name) ==> !permissions.permits(
            name,
        )),
        !permissions.denied.contains(name) && permissions.allowed is None ==> permissions.permits(
            name,
        ),
        !permissions.denied.contains(name) ==> (permissions.allowed matches Some(only) ==> (
        only.contains(name) ==> permissions.permits(name))),
{
}

/// The filter of a profile keeps what runs in the background, and of the rest what an
/// allow list covers or a deny list does not. A profile without entries filters
/// nothing.
pub proof fn profiles_keep_what_they_say(tools: ProfileTools, background: Set<Text>, name: Text)
    ensures
        background.contains(name) ==> profile_keeps(tools, background, name),
        !background.contains(name) ==> (profile_keeps(tools, background, name) <==> match tools {
            ProfileTools::Default => true,
            ProfileTools::AllowList { tools: allow } => exists|i: int|
                0 <= i < allow@.len() && entry_covers((#[trigger] allow@[i])@, name),
            ProfileTools::DenyList { tools: deny } => forall|i: int|
                0 <= i < deny@.len() ==> !entry_covers((#[trigger] deny@[i])@, name),
        }),
        profile_filters(tools) <==> match tools {
            ProfileTools::Default => false,
            ProfileTools::AllowList { tools: allow } => allow@.len() > 0,
            ProfileTools::DenyList { tools: deny } => deny@.len() > 0,
        },
{
    match tools {
        ProfileTools::Default => {},
        ProfileTools::AllowList { tools: allow } => {
            lemma_covered(allow@, name);
        },
        ProfileTools::DenyList { tools: deny } => {
            lemma_covered(deny@, name);
        },
    }
}

proof fn lemma_covered(entries: Seq<String>, name: Text)
    ensures
        list_covers(texts(entries), name) <==> exists|i: int|
            0 <= i < entries.len() && entry_covers((#[trigger] entries[i])@, name),
{
    let all = texts(entries);
    assert(forall|i: int| 0 <= i < entries.len() ==> #[trigger] all[i] == entries[i]@);
    if list_covers(all, name) {
        let i = choose|i: int| 0 <= i < all.len() && entry_covers(#[trigger] all[i], name);
        assert(entry_covers(entries[i]@, name));
    }
    if exists|i: int| 0 <= i < entries.len() && entry_covers((#[trigger] entries[i])@, name) {
        let i = choose|i: int| 0 <= i < entries.len() && entry_covers((#[trigger] entries[i])@, name);
        assert(entry_covers(all[i], name));
    }
}

/// The group through which a tool is loaded is a group, and the tool is one of its
/// members; a tool that no group has as a member is loaded alone.
pub proof fn tools_are_loaded_with_their_group(tool: Text, group: Text)
    ensures
        group_of(tool) matches Some(found) ==> group_names().contains(found) && group_tools(
            found,
        )->0.contains(tool),
        group_names().contains(group) && group_tools(group)->0.contains(tool) ==> group_of(
            tool,
        ) is Some,
{
    crate::registry_laws::lemma_group_by_name(tool);
    if let Some(found) = group_of(tool) {
        groups_have_their_members(found);
    }
    groups_have_their_members(group);
    reveal_with_fuel(crate::policy::group_holding, 6);
    let t0 = tool_groups();
    let t1 = t0.drop_first();
    let t2 = t1.drop_first();
    let t3 = t2.drop_first();
    let t4 = t3.drop_first();
    assert(t1[0] == t0[1]);
    assert(t2[0] == t0[2]);
    assert(t3[0] == t0[3]);
    assert(t4[0] == t0[4]);
    if group_names().contains(group) && group_tools(group)->0.contains(tool) {
        let i = group_names().index_of(group);
        assert(group_names()[i] == group);
        assert(t0[i].tools.contains(tool));
    }
}

} // verus!
