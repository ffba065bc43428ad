//! The rules a skill package must meet: its name, its description and the
//! tools its steps may call.
use vstd::prelude::*;

use crate::text::{is_ascii_alnum, is_blank, lemma_trim_blank, owned, push_str, str_eq, str_is_blank, str_trim, to_chars, trim};

verus! {

/// How strictly package frontmatter is checked.
#[derive(Debug, Clone)]
pub struct SkillValidationOptions {
    pub strict: bool,
    pub allow_versionless_compat: bool,
}

impl Default for SkillValidationOptions {
    fn default() -> (r: Self)
        ensures
            r.strict,
            r.allow_versionless_compat,
    {
        SkillValidationOptions { strict: true, allow_versionless_compat: true }
    }
}

/// The policy that guards a step's tool.
#[derive(Debug, Clone, Copy, PartialEq, Eq, Structural)]
pub enum PackageSkillStepKind {
    /// A tool of the agent's own registry.
    AgentOwned,
    /// A filesystem tool: needs `allow_filesystem`.
    Filesystem,
    /// `execute`: needs `allow_execute`.
    Execute,
}

/// The filesystem tools.
pub open spec fn filesystem_tools() -> Set<Seq<char>> {
    set!["ls"@, "read_file"@, "write_file"@, "edit_file"@, "delete_file"@, "glob"@, "grep"@]
}

/// Tools only the runtime may call.
pub open spec fn runtime_only_tools() -> Set<Seq<char>> {
    set!["task"@, "compact_conversation"@, "write_todos"@]
}

/// Whether `name` is a filesystem tool.
pub fn is_filesystem_tool(name: &str) -> (r: bool)
    ensures
        r == filesystem_tools().contains(name@),
{
    str_eq(name, "ls") || str_eq(name, "read_file") || str_eq(name, "write_file") || str_eq(name, "edit_file")
        || str_eq(name, "delete_file") || str_eq(name, "glob") || str_eq(name, "grep")
}

/// The policy bucket of a step's tool, or why a package may not use it.
pub open spec fn step_tool_class(name: Seq<char>) -> Result<PackageSkillStepKind, Seq<char>> {
    let n = trim(name);
    if n.len() == 0 {
        Err("step tool_name required"@)
    } else if runtime_only_tools().contains(n) {
        Err("skill_step_not_supported: runtime-only tool "@ + n + " cannot be used in package skills"@)
    } else if n == "execute"@ {
        Ok(PackageSkillStepKind::Execute)
    } else if filesystem_tools().contains(n) {
        Ok(PackageSkillStepKind::Filesystem)
    } else {
        Ok(PackageSkillStepKind::AgentOwned)
    }
}

/// Classifies the tool of a package step, refusing tools only the runtime
/// may call.
pub fn classify_package_skill_step_tool(name: &str) -> (r: Result<PackageSkillStepKind, String>)
    ensures
        match (r, step_tool_class(name@)) {
            (Ok(a), Ok(b)) => a == b,
            (Err(a), Err(b)) => a@ == b,
            _ => false,
        },
{
    let n = str_trim(name);
    if n.as_str().is_empty() {
        return Err(owned("step tool_name required"));
    }
    let s = n.as_str();
    if str_eq(s, "task") || str_eq(s, "compact_conversation") || str_eq(s, "write_todos") {
        let mut e = owned("skill_step_not_supported: runtime-only tool ");
        push_str(&mut e, s);
        push_str(&mut e, " cannot be used in package skills");
        return Err(e);
    }
    if str_eq(s, "execute") {
        return Ok(PackageSkillStepKind::Execute);
    }
    if is_filesystem_tool(s) {
        return Ok(PackageSkillStepKind::Filesystem);
    }
    Ok(PackageSkillStepKind::AgentOwned)
}

/// Characters a skill name may use.
pub open spec fn skill_name_char(c: char) -> bool {
    ('a' <= c && c <= 'z') || ('0' <= c && c <= '9') || c == '-'
}

/// Why a skill name is refused, if it is.
pub open spec fn skill_name_error(name: Seq<char>) -> Option<Seq<char>> {
    if name.len() == 0 {
        Some("name required"@)
    } else if exists|i: int| 0 <= i < name.len() && !skill_name_char(#[trigger] name[i]) {
        Some("name must use lowercase ASCII letters, digits, and '-'"@)
    } else {
        None
    }
}

/// A skill name is lowercase ASCII letters, digits and `-`, and not empty.
pub fn validate_skill_name(name: &str) -> (r: Result<(), String>)
    ensures
        match (r, skill_name_error(name@)) {
            (Ok(()), None) => true,
            (Err(a), Some(b)) => a@ == b,
            _ => false,
        },
{
    if name.is_empty() {
        return Err(owned("name required"));
    }
    let cs = to_chars(name);
    let mut i: usize = 0;
    while i < cs.len()
        invariant
            i <= cs.len(),
            cs@ == name@,
            forall|k: int| 0 <= k < i ==> skill_name_char(#[trigger] name@[k]),
        decreases cs.len() - i,
    {
        let c = cs[i];
        if !(('a' <= c && c <= 'z') || ('0' <= c && c <= '9') || c == '-') {
            return Err(owned("name must use lowercase ASCII letters, digits, and '-'"));
        }
        i = i + 1;
    }
    Ok(())
}

/// A description must say something besides white space.
pub fn validate_description(description: &str) -> (r: Result<(), String>)
    ensures
        r is Ok <==> !is_blank(description@),
        r matches Err(e) ==> e@ == "description required"@,
{
    if str_is_blank(description) {
        return Err(owned("description required"));
    }
    Ok(())
}

} // verus!
