//! Profiles: a tool filter and a permission tier under a name.
use vstd::prelude::*;

verus! {

/// The version of the profile format.
pub const PROFILE_SCHEMA_VERSION: u32 = 1;

/// Coarse permission tier of a profile.
#[derive(Clone, Copy, Debug, PartialEq, Eq, Structural)]
pub enum PermissionMode {
    Default,
    Restricted,
    Elevated,
}

/// Which tools a profile keeps.
#[derive(Debug)]
pub enum ProfileTools {
    /// No filter.
    Default,
    /// Only the listed tools.
    AllowList { tools: Vec<String> },
    /// All but the listed tools.
    DenyList { tools: Vec<String> },
}

#[derive(Debug)]
pub struct ProfileDefinition {
    pub name: String,
    pub version: u32,
    pub tools: ProfileTools,
    pub permissions: PermissionMode,
}

impl Default for ProfileDefinition {
    fn default() -> (r: ProfileDefinition)
        ensures
            r.name@ == Seq::<char>::empty(),
            r.version == PROFILE_SCHEMA_VERSION,
            r.tools is Default,
            r.permissions == PermissionMode::Default,
    {
        ProfileDefinition {
            name: String::new(),
            version: PROFILE_SCHEMA_VERSION,
            tools: ProfileTools::Default,
            permissions: PermissionMode::Default,
        }
    }
}

} // verus!
