//! Options of source-based skill loading, and the tools that skills may
//! not shadow.
use vstd::prelude::*;

use crate::text::str_eq;

verus! {

/// How skill sources are loaded.
#[derive(Debug, Clone)]
pub struct SkillsLoadOptions {
    /// Record invalid source directories and go on.
    pub skip_invalid_sources: bool,
    /// Unknown frontmatter and schema fields are errors.
    pub strict: bool,
    /// Packages without a version get `0.0.0-dev`.
    pub allow_versionless_compat: bool,
}

impl Default for SkillsLoadOptions {
    fn default() -> (r: Self)
        ensures
            !r.skip_invalid_sources,
            r.strict,
            r.allow_versionless_compat,
    {
        SkillsLoadOptions { skip_invalid_sources: false, strict: true, allow_versionless_compat: true }
    }
}

/// The tools of the agent itself.
pub open spec fn core_tools() -> Set<Seq<char>> {
    set![
        "ls"@,
        "read_file"@,
        "write_file"@,
        "edit_file"@,
        "delete_file"@,
        "glob"@,
        "grep"@,
        "execute"@,
        "task"@,
        "compact_conversation"@,
    ]
}

/// Whether `name` is a tool of the agent itself, which a skill tool may not
/// take the name of.
pub fn is_core_tool(name: &str) -> (r: bool)
    ensures
        r == core_tools().contains(name@),
{
    str_eq(name, "ls") || str_eq(name, "read_file") || str_eq(name, "write_file") || str_eq(name, "edit_file")
        || str_eq(name, "delete_file") || str_eq(name, "glob") || str_eq(name, "grep") || str_eq(name, "execute")
        || str_eq(name, "task") || str_eq(name, "compact_conversation")
}

} // verus!
