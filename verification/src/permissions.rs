//! The permissions that a profile gives at the tool boundary.
use vstd::prelude::*;

use crate::names::NameSet;
use crate::policy::{group_tools, tool_group_info};
use crate::profile::{PermissionMode, ProfileDefinition, ProfileTools};
use crate::text::{texts, Text};

verus! {

/// The resolved permissions: a tier, the denied tools, and perhaps the only
/// allowed ones.
#[derive(Debug)]
pub struct ToolPermissions {
    mode: PermissionMode,
    denied_tools: NameSet,
    allowed_tools: Option<NameSet>,
}

#[verifier::ext_equal]
pub struct ToolPermissionsView {
    pub mode: PermissionMode,
    pub denied: Set<Text>,
    pub allowed: Option<Set<Text>>,
}

impl ToolPermissionsView {
    pub open spec fn allow_all() -> ToolPermissionsView {
        ToolPermissionsView { mode: PermissionMode::Default, denied: Set::empty(), allowed: None }
    }

    /// Deny wins; an allow list admits only its members.
    pub open spec fn permits(self, tool: Text) -> bool {
        &&& !self.denied.contains(tool)
        &&& self.allowed matches Some(only) ==> only.contains(tool)
    }
}

impl View for ToolPermissions {
    type V = ToolPermissionsView;

    closed spec fn view(&self) -> ToolPermissionsView {
        ToolPermissionsView {
            mode: self.mode,
            denied: self.denied_tools@,
            allowed: match self.allowed_tools {
                Some(only) => Some(only@),
                None => None,
            },
        }
    }
}

/// What one entry of a profile list names: the members of a group, or itself.
pub open spec fn entry_expansion(entry: Text) -> Set<Text> {
    match group_tools(entry) {
        Some(tools) => tools.to_set(),
        None => set![entry],
    }
}

/// The tools that a list of entries names.
pub open spec fn expansion(entries: Seq<Text>) -> Set<Text> {
    Set::new(|t: Text| exists|i: int| 0 <= i < entries.len() && entry_expansion(#[trigger] entries[i]).contains(t))
}

/// What a profile permits.
pub open spec fn profile_permissions(profile: ProfileDefinition) -> ToolPermissionsView {
    ToolPermissionsView {
        mode: profile.permissions,
        denied: match profile.tools {
            ProfileTools::DenyList { tools } => expansion(texts(tools@)),
            _ => Set::empty(),
        },
        allowed: match profile.tools {
            ProfileTools::AllowList { tools } => if tools@.len() > 0 {
                Some(expansion(texts(tools@)))
            } else {
                None
            },
            _ => None,
        },
    }
}

/// Replaces the group references of a list by the members of the groups.
pub fn expand_profile_tool_entries(entries: &[String]) -> (out: NameSet)
    ensures
        out@ == expansion(texts(entries@)),
{
    let mut out = NameSet::new();
    let mut i: usize = 0;
    let ghost all = texts(entries@);
    proof {
        assert(out@ =~= expansion(all.take(0)));
    }
    while i < entries.len()
        invariant
            i <= entries.len(),
            all == texts(entries@),
            out@ == expansion(all.take(i as int)),
        decreases entries.len() - i,
    {
        match tool_group_info(entries[i].as_str()) {
            Some(tools) => {
                out.extend(tools.as_slice());
            },
            None => {
                out.insert(entries[i].as_str());
            },
        }
        proof {
            lemma_expansion_step(all, i as int);
            assert(out@ =~= expansion(all.take(i + 1)));
        }
        i += 1;
    }
    proof {
        assert(all.take(all.len() as int) =~= all);
    }
    out
}

proof fn lemma_expansion_step(all: Seq<Text>, i: int)
    requires
        0 <= i < all.len(),
    ensures
        expansion(all.take(i + 1)) =~= expansion(all.take(i)).union(entry_expansion(all[i])),
{
    let before = all.take(i);
    let after = all.take(i + 1);
    assert forall|t: Text| expansion(after).contains(t) <==> expansion(before).union(
        entry_expansion(all[i]),
    ).contains(t) by {
        if expansion(after).contains(t) {
            let k = choose|k: int| 0 <= k < after.len() && entry_expansion(#[trigger] after[k]).contains(t);
            if k < i {
                assert(before[k] == after[k]);
            }
        }
        if expansion(before).contains(t) {
            let k = choose|k: int| 0 <= k < before.len() && entry_expansion(#[trigger] before[k]).contains(t);
            assert(after[k] == before[k]);
        }
        if entry_expansion(all[i]).contains(t) {
            assert(after[i] == all[i]);
        }
    }
}

impl ToolPermissions {
    /// No restriction at all.
    pub fn allow_all() -> (r: ToolPermissions)
        ensures
            r@ == ToolPermissionsView::allow_all(),
    {
        ToolPermissions {
            mode: PermissionMode::Default,
            denied_tools: NameSet::new(),
            allowed_tools: None,
        }
    }

    /// The permissions of a profile. An empty allow list restricts nothing.
    pub fn from_profile(profile: &ProfileDefinition) -> (r: ToolPermissions)
        ensures
            r@ == profile_permissions(*profile),
    {
        let mut denied = NameSet::new();
        let mut allowed: Option<NameSet> = None;
        match &profile.tools {
            ProfileTools::Default => {},
            ProfileTools::AllowList { tools } => {
                if tools.len() > 0 {
                    allowed = Some(expand_profile_tool_entries(tools.as_slice()));
                }
            },
            ProfileTools::DenyList { tools } => {
                denied = expand_profile_tool_entries(tools.as_slice());
            },
        }
        ToolPermissions { mode: profile.permissions, denied_tools: denied, allowed_tools: allowed }
    }

    /// The permission tier.
    pub fn mode(&self) -> (r: PermissionMode)
        ensures
            r == self@.mode,
    {
        self.mode
    }

    /// Whether a tool may be called.
    pub fn is_tool_allowed(&self, tool: &str) -> (r: bool)
        ensures
            r == self@.permits(tool@),
    {
        if self.denied_tools.contains(tool) {
            return false;
        }
        match &self.allowed_tools {
            Some(only) => only.contains(tool),
            None => true,
        }
    }

    pub fn copy(&self) -> (r: ToolPermissions)
        ensures
            r@ == self@,
    {
        ToolPermissions {
            mode: self.mode,
            denied_tools: self.denied_tools.copy(),
            allowed_tools: match &self.allowed_tools {
                Some(only) => Some(only.copy()),
                None => None,
            },
        }
    }
}

impl Default for ToolPermissions {
    fn default() -> (r: ToolPermissions)
        ensures
            r@ == ToolPermissionsView::allow_all(),
    {
        ToolPermissions::allow_all()
    }
}

/// A profile without a filter, or with an empty list, permits every tool.
pub proof fn unfiltered_profile_permits_all(profile: ProfileDefinition, tool: Text)
    requires
        match profile.tools {
            ProfileTools::Default => true,
            ProfileTools::AllowList { tools } => tools@.len() == 0,
            ProfileTools::DenyList { tools } => tools@.len() == 0,
        },
    ensures
        profile_permissions(profile).permits(tool),
{
}

/// A deny list forbids what its entries name and nothing else.
pub proof fn deny_list_forbids_exactly(profile: ProfileDefinition, tool: Text)
    requires
        profile.tools is DenyList,
    ensures
        profile_permissions(profile).permits(tool) <==> !expansion(
            texts(profile.tools->DenyList_tools@),
        ).contains(tool),
{
}

/// A non-empty allow list permits what its entries name and nothing else.
pub proof fn allow_list_permits_exactly(profile: ProfileDefinition, tool: Text)
    requires
        profile.tools is AllowList,
        profile.tools->AllowList_tools@.len() > 0,
    ensures
        profile_permissions(profile).permits(tool) <==> expansion(
            texts(profile.tools->AllowList_tools@),
        ).contains(tool),
{
}

} // verus!
