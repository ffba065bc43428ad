//! The skill system: package identities and manifests, governance review
//! outcomes, registry entries, selection reports and the rules around them.
pub mod input_schema;
pub mod loader;
pub mod protocol;
pub mod registry;
pub mod resolve;
pub mod selection;
pub mod validator;

use vstd::prelude::*;

use crate::string_set::StringSet;

use crate::str_map::StrMap;
use crate::text::{lex_lt, lemma_lex_irreflexive, lemma_lex_total, lemma_lex_transitive, lower, owned, push_str, str_eq, str_lt, str_trim, to_lower, trim};

verus! {

/// The version given to packages that declare none.
pub open spec fn compat_skill_version() -> Seq<char> {
    "0.0.0-dev"@
}

/// The version given to packages that declare none.
pub fn default_compat_skill_version() -> (r: String)
    ensures
        r@ == compat_skill_version(),
{
    owned("0.0.0-dev")
}

/// Newly installed skills are enabled unless they say otherwise.
pub fn default_skill_enabled() -> (r: bool)
    ensures
        r,
{
    true
}

/// The identity of one version of a skill package.
#[derive(Debug, PartialEq, Eq, PartialOrd, Ord, Default)]
pub struct SkillIdentity {
    /// Lowercase skill name.
    pub name: String,
    /// Semantic version.
    pub version: String,
}

/// `name@version`.
pub open spec fn identity_key(name: Seq<char>, version: Seq<char>) -> Seq<char> {
    name + "@"@ + version
}

impl Clone for SkillIdentity {
    fn clone(&self) -> (r: Self)
        ensures
            r == *self,
    {
        SkillIdentity { name: self.name.clone(), version: self.version.clone() }
    }
}

impl SkillIdentity {
    /// The identity as `name@version`; `parse_identity_token` reads it back
    /// (`crate::skills::registry::law_identity_key_round_trip`).
    pub fn as_key(&self) -> (r: String)
        ensures
            r@ == identity_key(self.name@, self.version@),
    {
        let mut s = self.name.clone();
        push_str(&mut s, "@");
        push_str(&mut s, self.version.as_str());
        s
    }
}

/// How risky a skill is to run inline.
#[derive(Debug, Clone, Copy, PartialEq, Eq, PartialOrd, Ord, Default, Structural)]
pub enum SkillRiskLevel {
    #[default]
    Low,
    Medium,
    High,
    Critical,
}

/// The risk level a word names, trimmed and in any ASCII case.
pub open spec fn risk_level_of(input: Seq<char>) -> Option<SkillRiskLevel> {
    let w = lower(trim(input));
    if w == "low"@ {
        Some(SkillRiskLevel::Low)
    } else if w == "medium"@ {
        Some(SkillRiskLevel::Medium)
    } else if w == "high"@ {
        Some(SkillRiskLevel::High)
    } else if w == "critical"@ {
        Some(SkillRiskLevel::Critical)
    } else {
        None
    }
}

impl SkillRiskLevel {
    /// Reads a risk level from frontmatter.
    pub fn parse(input: &str) -> (r: Option<Self>)
        ensures
            r == risk_level_of(input@),
    {
        let t = str_trim(input);
        let w = to_lower(t.as_str());
        if str_eq(w.as_str(), "low") {
            Some(SkillRiskLevel::Low)
        } else if str_eq(w.as_str(), "medium") {
            Some(SkillRiskLevel::Medium)
        } else if str_eq(w.as_str(), "high") {
            Some(SkillRiskLevel::High)
        } else if str_eq(w.as_str(), "critical") {
            Some(SkillRiskLevel::Critical)
        } else {
            None
        }
    }
}

/// Keywords that make the selector prefer a skill.
#[derive(Debug, Default)]
pub struct SkillTriggerHints {
    pub keywords: Vec<String>,
}

/// Asset files of a package, loaded only on demand.
#[derive(Debug, Clone, Default)]
pub struct SkillAssetPaths {
    pub references: Vec<String>,
    pub examples: Vec<String>,
    pub templates: Vec<String>,
}

/// The sections of a `SKILL.md`.
#[derive(Debug, Clone, Default)]
pub struct SkillFragmentSet {
    pub role: Option<String>,
    pub when_to_use: Option<String>,
    pub inputs: Option<String>,
    pub constraints: Option<String>,
    pub workflow: Option<String>,
    pub output: Option<String>,
    pub examples: Option<String>,
    pub references: Option<String>,
    pub assets: SkillAssetPaths,
}

/// The names of the sections, in the order they are listed.
pub open spec fn fragment_names() -> Seq<Seq<char>> {
    seq!["role"@, "when_to_use"@, "inputs"@, "constraints"@, "workflow"@, "output"@, "examples"@, "references"@]
}

impl SkillFragmentSet {
    /// The section a name stands for.
    pub open spec fn fragment(&self, name: Seq<char>) -> Option<String> {
        if name == "role"@ {
            self.role
        } else if name == "when_to_use"@ {
            self.when_to_use
        } else if name == "inputs"@ {
            self.inputs
        } else if name == "constraints"@ {
            self.constraints
        } else if name == "workflow"@ {
            self.workflow
        } else if name == "output"@ {
            self.output
        } else if name == "examples"@ {
            self.examples
        } else if name == "references"@ {
            self.references
        } else {
            None
        }
    }

    /// The names of the sections that are present, in the listed order.
    pub open spec fn available(&self) -> Seq<Seq<char>> {
        let a = if self.role is Some { seq!["role"@] } else { Seq::<Seq<char>>::empty() };
        let a = if self.when_to_use is Some { a.push("when_to_use"@) } else { a };
        let a = if self.inputs is Some { a.push("inputs"@) } else { a };
        let a = if self.constraints is Some { a.push("constraints"@) } else { a };
        let a = if self.workflow is Some { a.push("workflow"@) } else { a };
        let a = if self.output is Some { a.push("output"@) } else { a };
        let a = if self.examples is Some { a.push("examples"@) } else { a };
        if self.references is Some { a.push("references"@) } else { a }
    }

    /// The names of the sections that are present, in the fixed order of
    /// the section names (see [`law_available_sections`]).
    pub fn available_names(&self) -> (r: Vec<String>)
        ensures
            r@.map_values(|s: String| s@) == self.available(),
    {
        let mut out: Vec<String> = Vec::new();
        if self.role.is_some() {
            out.push(owned("role"));
        }
        if self.when_to_use.is_some() {
            out.push(owned("when_to_use"));
        }
        if self.inputs.is_some() {
            out.push(owned("inputs"));
        }
        if self.constraints.is_some() {
            out.push(owned("constraints"));
        }
        if self.workflow.is_some() {
            out.push(owned("workflow"));
        }
        if self.output.is_some() {
            out.push(owned("output"));
        }
        if self.examples.is_some() {
            out.push(owned("examples"));
        }
        if self.references.is_some() {
            out.push(owned("references"));
        }
        assert(out@.map_values(|s: String| s@) =~= self.available());
        out
    }

    /// The text of the section a name stands for.
    pub fn get(&self, name: &str) -> (r: Option<&str>)
        ensures
            match (r, self.fragment(name@)) {
                (Some(a), Some(b)) => a@ == b@,
                (None, None) => true,
                _ => false,
            },
    {
        let f = if str_eq(name, "role") {
            &self.role
        } else if str_eq(name, "when_to_use") {
            &self.when_to_use
        } else if str_eq(name, "inputs") {
            &self.inputs
        } else if str_eq(name, "constraints") {
            &self.constraints
        } else if str_eq(name, "workflow") {
            &self.workflow
        } else if str_eq(name, "output") {
            &self.output
        } else if str_eq(name, "examples") {
            &self.examples
        } else if str_eq(name, "references") {
            &self.references
        } else {
            return None;
        };
        match f {
            Some(s) => Some(s.as_str()),
            None => None,
        }
    }
}

/// The manifest of one version of a skill package.
#[derive(Debug)]
pub struct SkillManifest {
    pub identity: SkillIdentity,
    pub description: String,
    /// Package path on disk.
    pub path: String,
    /// Where the package was found.
    pub source: String,
    pub license: Option<String>,
    pub compatibility: Option<String>,
    pub metadata: StrMap<String>,
    /// Tools the model is told the skill uses.
    pub allowed_tools: Vec<String>,
    pub triggers: SkillTriggerHints,
    pub risk_level: SkillRiskLevel,
    pub output_contract: Option<String>,
    pub default_enabled: bool,
    pub requires_isolation: bool,
}

/// The present sections are the listed section names whose section is
/// there, in the listed order; a name outside the list has no section.
pub proof fn law_available_sections(f: SkillFragmentSet, x: Seq<char>)
    ensures
        f.available() == fragment_names().filter(|n: Seq<char>| f.fragment(n) is Some),
        !fragment_names().contains(x) ==> f.fragment(x) is None,
{
    reveal_strlit("role");
    reveal_strlit("when_to_use");
    reveal_strlit("inputs");
    reveal_strlit("constraints");
    reveal_strlit("workflow");
    reveal_strlit("output");
    reveal_strlit("examples");
    reveal_strlit("references");
    reveal_with_fuel(Seq::<Seq<char>>::filter, 2);
    assert(("constraints"@)[0] != ("when_to_use"@)[0]);
    assert(("output"@)[0] != ("inputs"@)[0]);
    assert(("examples"@)[0] != ("workflow"@)[0]);
    let names = fragment_names();
    let p = |n: Seq<char>| f.fragment(n) is Some;
    assert(names.take(0) =~= Seq::<Seq<char>>::empty());
    assert(names.take(0).filter(p) =~= Seq::<Seq<char>>::empty());
    assert(names.take(1).drop_last() =~= names.take(0));
    assert(names.take(2).drop_last() =~= names.take(1));
    assert(names.take(3).drop_last() =~= names.take(2));
    assert(names.take(4).drop_last() =~= names.take(3));
    assert(names.take(5).drop_last() =~= names.take(4));
    assert(names.take(6).drop_last() =~= names.take(5));
    assert(names.take(7).drop_last() =~= names.take(6));
    assert(names.take(8).drop_last() =~= names.take(7));
    assert(names.take(8) =~= names);
    let a0 = Seq::<Seq<char>>::empty();
    let a1 = if f.role is Some { seq!["role"@] } else { a0 };
    assert(names.take(1).last() == "role"@);
    assert(p("role"@) == (f.role is Some));
    assert(names.take(1).filter(p) =~= a1);
    let a2 = if f.when_to_use is Some { a1.push("when_to_use"@) } else { a1 };
    assert(names.take(2).last() == "when_to_use"@);
    assert(p("when_to_use"@) == (f.when_to_use is Some));
    assert(names.take(2).filter(p) =~= a2);
    let a3 = if f.inputs is Some { a2.push("inputs"@) } else { a2 };
    assert(names.take(3).last() == "inputs"@);
    assert(p("inputs"@) == (f.inputs is Some));
    assert(names.take(3).filter(p) =~= a3);
    let a4 = if f.constraints is Some { a3.push("constraints"@) } else { a3 };
    assert(names.take(4).last() == "constraints"@);
    assert(p("constraints"@) == (f.constraints is Some));
    assert(names.take(4).filter(p) =~= a4);
    let a5 = if f.workflow is Some { a4.push("workflow"@) } else { a4 };
    assert(names.take(5).last() == "workflow"@);
    assert(p("workflow"@) == (f.workflow is Some));
    assert(names.take(5).filter(p) =~= a5);
    let a6 = if f.output is Some { a5.push("output"@) } else { a5 };
    assert(names.take(6).last() == "output"@);
    assert(p("output"@) == (f.output is Some));
    assert(names.take(6).filter(p) =~= a6);
    let a7 = if f.examples is Some { a6.push("examples"@) } else { a6 };
    assert(names.take(7).last() == "examples"@);
    assert(p("examples"@) == (f.examples is Some));
    assert(names.take(7).filter(p) =~= a7);
    let a8 = if f.references is Some { a7.push("references"@) } else { a7 };
    assert(names.take(8).last() == "references"@);
    assert(p("references"@) == (f.references is Some));
    assert(names.take(8).filter(p) =~= a8);
    assert(f.available() =~= a8);
    if !names.contains(x) {
        assert(names[0] == "role"@ && names[1] == "when_to_use"@ && names[2] == "inputs"@ && names[3] == "constraints"@);
        assert(names[4] == "workflow"@ && names[5] == "output"@ && names[6] == "examples"@ && names[7] == "references"@);
    }
}

/// A copy of a list of strings.
pub fn copy_string_list(v: &Vec<String>) -> (r: Vec<String>)
    ensures
        r@ == v@,
{
    let mut out: Vec<String> = Vec::new();
    let mut i: usize = 0;
    while i < v.len()
        invariant
            i <= v.len(),
            out@ == v@.take(i as int),
        decreases v.len() - i,
    {
        out.push(v[i].clone());
        assert(v@.take(i as int + 1) =~= v@.take(i as int).push(v@[i as int]));
        i = i + 1;
    }
    assert(v@.take(i as int) =~= v@);
    out
}

fn copy_opt_string(o: &Option<String>) -> (r: Option<String>)
    ensures
        r == *o,
{
    match o {
        Some(s) => Some(s.clone()),
        None => None,
    }
}

impl Clone for SkillTriggerHints {
    fn clone(&self) -> (r: Self)
        ensures
            r.keywords@ == self.keywords@,
    {
        SkillTriggerHints { keywords: copy_string_list(&self.keywords) }
    }
}

/// Two manifests hold the same values (lists and maps compared by their
/// contents).
pub open spec fn manifest_same(a: SkillManifest, b: SkillManifest) -> bool {
    &&& a.identity == b.identity
    &&& a.description == b.description
    &&& a.path == b.path
    &&& a.source == b.source
    &&& a.license == b.license
    &&& a.compatibility == b.compatibility
    &&& a.metadata.map() == b.metadata.map()
    &&& a.allowed_tools@ == b.allowed_tools@
    &&& a.triggers.keywords@ == b.triggers.keywords@
    &&& a.risk_level == b.risk_level
    &&& a.output_contract == b.output_contract
    &&& a.default_enabled == b.default_enabled
    &&& a.requires_isolation == b.requires_isolation
}

impl Clone for SkillManifest {
    fn clone(&self) -> (r: Self)
        ensures
            manifest_same(r, *self),
    {
        let metadata = self.metadata.clone();
        assert(metadata.values() =~= self.metadata.values());
        assert(metadata.map() =~= self.metadata.map());
        SkillManifest {
            identity: self.identity.clone(),
            description: self.description.clone(),
            path: self.path.clone(),
            source: self.source.clone(),
            license: copy_opt_string(&self.license),
            compatibility: copy_opt_string(&self.compatibility),
            metadata,
            allowed_tools: copy_string_list(&self.allowed_tools),
            triggers: self.triggers.clone(),
            risk_level: self.risk_level,
            output_contract: copy_opt_string(&self.output_contract),
            default_enabled: self.default_enabled,
            requires_isolation: self.requires_isolation,
        }
    }
}

/// The skill fields older parts of the runtime read.
#[derive(Debug, Clone)]
pub struct SkillMetadata {
    pub name: String,
    pub version: String,
    pub description: String,
    pub path: String,
    pub source: String,
    pub license: Option<String>,
    pub compatibility: Option<String>,
    pub metadata: StrMap<String>,
    pub allowed_tools: Vec<String>,
}

/// What the tools of a skill may do.
#[derive(Debug, Clone)]
pub struct SkillToolPolicy {
    pub allow_filesystem: bool,
    pub allow_execute: bool,
    pub allow_network: bool,
    pub max_steps: usize,
    pub timeout_ms: u64,
    pub max_output_chars: usize,
}

impl Default for SkillToolPolicy {
    /// Nothing allowed; 8 steps, one second, 12000 characters.
    fn default() -> (r: Self)
        ensures
            !r.allow_filesystem && !r.allow_execute && !r.allow_network,
            r.max_steps == 8 && r.timeout_ms == 1000 && r.max_output_chars == 12000,
    {
        SkillToolPolicy {
            allow_filesystem: false,
            allow_execute: false,
            allow_network: false,
            max_steps: 8,
            timeout_ms: 1000,
            max_output_chars: 12000,
        }
    }
}

/// One step of a skill tool: the runtime tool it calls and the argument
/// template.
#[derive(Debug)]
pub struct SkillToolStep {
    pub tool_name: String,
    pub arguments: serde_json::Value,
}

/// A tool a skill offers to the provider.
#[derive(Debug)]
pub struct SkillToolSpec {
    pub name: String,
    pub description: String,
    pub input_schema: serde_json::Value,
    pub steps: Vec<SkillToolStep>,
    pub policy: SkillToolPolicy,
    pub skill_name: String,
    pub skill_version: String,
    pub source: String,
    pub requires_isolation: bool,
}

/// How grave a governance finding is.
#[derive(Debug, Clone, Copy, PartialEq, Eq, PartialOrd, Ord, Structural)]
pub enum SkillGovernanceSeverity {
    Warn,
    Fail,
}

/// One finding of a governance review.
#[derive(Debug)]
pub struct SkillGovernanceFinding {
    pub code: String,
    pub message: String,
    pub severity: SkillGovernanceSeverity,
}

impl Clone for SkillGovernanceFinding {
    fn clone(&self) -> (r: Self)
        ensures
            r == *self,
    {
        SkillGovernanceFinding { code: self.code.clone(), message: self.message.clone(), severity: self.severity }
    }
}

/// The overall result of a governance review.
#[derive(Debug, Clone, Copy, PartialEq, Eq, Default, Structural)]
pub enum SkillGovernanceStatus {
    #[default]
    Pass,
    Warn,
    Fail,
}

/// A governance review: its status and its findings.
#[derive(Debug, Clone, Default)]
pub struct SkillGovernanceOutcome {
    pub status: SkillGovernanceStatus,
    pub findings: Vec<SkillGovernanceFinding>,
}

pub open spec fn severity_rank(s: SkillGovernanceSeverity) -> int {
    match s {
        SkillGovernanceSeverity::Warn => 0,
        SkillGovernanceSeverity::Fail => 1,
    }
}

/// Findings are ordered by severity, then code, then message.
pub open spec fn finding_lt(a: SkillGovernanceFinding, b: SkillGovernanceFinding) -> bool {
    ||| severity_rank(a.severity) < severity_rank(b.severity)
    ||| severity_rank(a.severity) == severity_rank(b.severity) && lex_lt(a.code@, b.code@)
    ||| severity_rank(a.severity) == severity_rank(b.severity) && a.code@ == b.code@ && lex_lt(a.message@, b.message@)
}

/// No finding comes after a lesser one.
pub open spec fn findings_sorted(s: Seq<SkillGovernanceFinding>) -> bool {
    forall|i: int, j: int| 0 <= i < j < s.len() ==> !finding_lt(#[trigger] s[j], #[trigger] s[i])
}

/// The status findings add up to: failed if one fails, passed if there are
/// none, warned otherwise.
pub open spec fn status_of(findings: Seq<SkillGovernanceFinding>) -> SkillGovernanceStatus {
    if exists|i: int| 0 <= i < findings.len() && #[trigger] findings[i].severity == SkillGovernanceSeverity::Fail {
        SkillGovernanceStatus::Fail
    } else if findings.len() == 0 {
        SkillGovernanceStatus::Pass
    } else {
        SkillGovernanceStatus::Warn
    }
}

proof fn lemma_finding_order(a: SkillGovernanceFinding, b: SkillGovernanceFinding, c: SkillGovernanceFinding)
    ensures
        !finding_lt(a, a),
        finding_lt(a, b) ==> !finding_lt(b, a),
        finding_lt(a, b) && finding_lt(b, c) ==> finding_lt(a, c),
        finding_lt(a, b) || finding_lt(b, a) || (a.severity == b.severity && a.code@ == b.code@ && a.message@ == b.message@),
{
    lemma_lex_irreflexive(a.code@);
    lemma_lex_irreflexive(a.message@);
    lemma_lex_total(a.code@, b.code@);
    lemma_lex_total(a.message@, b.message@);
    if lex_lt(a.code@, b.code@) && lex_lt(b.code@, c.code@) {
        lemma_lex_transitive(a.code@, b.code@, c.code@);
    }
    if lex_lt(a.message@, b.message@) && lex_lt(b.message@, c.message@) {
        lemma_lex_transitive(a.message@, b.message@, c.message@);
    }
    if lex_lt(a.code@, b.code@) && lex_lt(b.code@, a.code@) {
        lemma_lex_transitive(a.code@, b.code@, a.code@);
    }
    if lex_lt(a.message@, b.message@) && lex_lt(b.message@, a.message@) {
        lemma_lex_transitive(a.message@, b.message@, a.message@);
    }
}

fn finding_less(a: &SkillGovernanceFinding, b: &SkillGovernanceFinding) -> (r: bool)
    ensures
        r == finding_lt(*a, *b),
{
    let ra: u8 = match a.severity {
        SkillGovernanceSeverity::Warn => 0,
        SkillGovernanceSeverity::Fail => 1,
    };
    let rb: u8 = match b.severity {
        SkillGovernanceSeverity::Warn => 0,
        SkillGovernanceSeverity::Fail => 1,
    };
    if ra != rb {
        return ra < rb;
    }
    if str_lt(a.code.as_str(), b.code.as_str()) {
        return true;
    }
    if !str_eq(a.code.as_str(), b.code.as_str()) {
        return false;
    }
    str_lt(a.message.as_str(), b.message.as_str())
}

/// Sorts findings by severity, code and message, keeping every finding.
pub fn sort_findings(findings: &mut Vec<SkillGovernanceFinding>)
    ensures
        final(findings)@.to_multiset() == old(findings)@.to_multiset(),
        findings_sorted(final(findings)@),
{
    broadcast use vstd::seq_lib::group_to_multiset_ensures, vstd::multiset::group_multiset_axioms;

    let mut input: Vec<SkillGovernanceFinding> = Vec::new();
    std::mem::swap(&mut input, findings);
    let ghost orig = input@;
    let mut out: Vec<SkillGovernanceFinding> = Vec::new();
    proof {
        vstd::multiset::lemma_multiset_empty_len(out@.to_multiset());
        assert(out@.to_multiset().add(input@.to_multiset()) =~= orig.to_multiset());
    }
    while input.len() > 0
        invariant
            out@.to_multiset().add(input@.to_multiset()) =~= orig.to_multiset(),
            findings_sorted(out@),
        decreases input.len(),
    {
        let ghost before_in = input@;
        let x = input.pop().unwrap();
        proof {
            assert(before_in =~= input@.push(x));
            vstd::seq_lib::to_multiset_build(input@, x);
        }
        let mut k: usize = 0;
        while k < out.len() && !finding_less(&x, &out[k])
            invariant
                k <= out.len(),
                forall|i: int| 0 <= i < k ==> !finding_lt(x, #[trigger] out@[i]),
            decreases out.len() - k,
        {
            k = k + 1;
        }
        let ghost s = out@;
        proof {
            assert forall|i: int| k <= i < s.len() implies finding_lt(x, #[trigger] s[i]) by {
                lemma_finding_order(x, s[k as int], s[i]);
                if i > k {
                    assert(!finding_lt(s[i], s[k as int]));
                    lemma_finding_order(s[k as int], s[i], s[i]);
                    if !finding_lt(s[k as int], s[i]) {
                        assert(s[k as int].severity == s[i].severity && s[k as int].code@ == s[i].code@
                            && s[k as int].message@ == s[i].message@);
                    }
                }
            }
        }
        out.insert(k, x);
        proof {
            vstd::seq_lib::to_multiset_insert(s, k as int, x);
            assert(out@.to_multiset().add(input@.to_multiset()) =~= orig.to_multiset());
            let t = out@;
            assert(t == s.insert(k as int, x));
            assert forall|a: int, b: int| 0 <= a < b < t.len() implies !finding_lt(#[trigger] t[b], #[trigger] t[a]) by {
                if a < k && b < k {
                    assert(t[a] == s[a] && t[b] == s[b]);
                } else if a < k && b == k {
                    assert(t[a] == s[a]);
                } else if a < k && b > k {
                    assert(t[a] == s[a] && t[b] == s[b - 1]);
                } else if a == k {
                    assert(t[b] == s[b - 1]);
                    lemma_finding_order(x, s[b - 1], x);
                } else {
                    assert(t[a] == s[a - 1] && t[b] == s[b - 1]);
                }
            }
        }
    }
    proof {
        vstd::multiset::lemma_multiset_empty_len(input@.to_multiset());
        assert(out@.to_multiset() =~= orig.to_multiset());
    }
    *findings = out;
}

fn has_failure(findings: &Vec<SkillGovernanceFinding>) -> (r: bool)
    ensures
        r == exists|i: int| 0 <= i < findings@.len() && #[trigger] findings@[i].severity == SkillGovernanceSeverity::Fail,
{
    let mut i: usize = 0;
    while i < findings.len()
        invariant
            i <= findings.len(),
            forall|k: int| 0 <= k < i ==> #[trigger] findings@[k].severity != SkillGovernanceSeverity::Fail,
        decreases findings.len() - i,
    {
        if findings[i].severity == SkillGovernanceSeverity::Fail {
            return true;
        }
        i = i + 1;
    }
    false
}

impl SkillGovernanceOutcome {
    /// Puts the findings in order and recomputes the status from them; a
    /// second call changes nothing ([`law_canonicalize_idempotent`]).
    pub fn canonicalize(&mut self)
        ensures
            final(self).findings@.to_multiset() == old(self).findings@.to_multiset(),
            findings_sorted(final(self).findings@),
            final(self).status == status_of(old(self).findings@),
    {
        let ghost before = self.findings@;
        sort_findings(&mut self.findings);
        proof {
            lemma_status_by_multiset(before, self.findings@);
        }
        self.status = if has_failure(&self.findings) {
            SkillGovernanceStatus::Fail
        } else if self.findings.len() == 0 {
            SkillGovernanceStatus::Pass
        } else {
            SkillGovernanceStatus::Warn
        };
    }
}

proof fn lemma_status_by_multiset(a: Seq<SkillGovernanceFinding>, b: Seq<SkillGovernanceFinding>)
    requires
        a.to_multiset() == b.to_multiset(),
    ensures
        status_of(a) == status_of(b),
{
    broadcast use vstd::seq_lib::group_to_multiset_ensures;

    if exists|i: int| 0 <= i < a.len() && #[trigger] a[i].severity == SkillGovernanceSeverity::Fail {
        let i = choose|i: int| 0 <= i < a.len() && #[trigger] a[i].severity == SkillGovernanceSeverity::Fail;
        assert(a.contains(a[i]));
        assert(b.to_multiset().count(a[i]) > 0);
        assert(b.contains(a[i]));
        let j = choose|j: int| 0 <= j < b.len() && b[j] == a[i];
        assert(b[j].severity == SkillGovernanceSeverity::Fail);
    }
    if exists|i: int| 0 <= i < b.len() && #[trigger] b[i].severity == SkillGovernanceSeverity::Fail {
        let i = choose|i: int| 0 <= i < b.len() && #[trigger] b[i].severity == SkillGovernanceSeverity::Fail;
        assert(b.contains(b[i]));
        assert(a.to_multiset().count(b[i]) > 0);
        assert(a.contains(b[i]));
        let j = choose|j: int| 0 <= j < a.len() && a[j] == b[i];
        assert(a[j].severity == SkillGovernanceSeverity::Fail);
    }
    assert(a.len() == a.to_multiset().len());
    assert(b.len() == b.to_multiset().len());
}

/// A finding by its views: the rank of its severity, its code, its message.
pub open spec fn finding_key(f: SkillGovernanceFinding) -> (int, Seq<char>, Seq<char>) {
    (severity_rank(f.severity), f.code@, f.message@)
}

pub open spec fn finding_keys(s: Seq<SkillGovernanceFinding>) -> Seq<(int, Seq<char>, Seq<char>)> {
    s.map_values(|f: SkillGovernanceFinding| finding_key(f))
}

/// The order of finding keys: by severity, code, then message.
pub open spec fn key_lt(a: (int, Seq<char>, Seq<char>), b: (int, Seq<char>, Seq<char>)) -> bool {
    ||| a.0 < b.0
    ||| a.0 == b.0 && lex_lt(a.1, b.1)
    ||| a.0 == b.0 && a.1 == b.1 && lex_lt(a.2, b.2)
}

pub open spec fn key_leq() -> spec_fn((int, Seq<char>, Seq<char>), (int, Seq<char>, Seq<char>)) -> bool {
    |a: (int, Seq<char>, Seq<char>), b: (int, Seq<char>, Seq<char>)| !key_lt(b, a)
}

proof fn lemma_key_facts(a: (int, Seq<char>, Seq<char>), b: (int, Seq<char>, Seq<char>), c: (int, Seq<char>, Seq<char>))
    ensures
        !key_lt(a, a),
        key_lt(a, b) ==> !key_lt(b, a),
        key_lt(a, b) && key_lt(b, c) ==> key_lt(a, c),
        key_lt(a, b) || key_lt(b, a) || a == b,
{
    lemma_lex_irreflexive(a.1);
    lemma_lex_irreflexive(a.2);
    lemma_lex_total(a.1, b.1);
    lemma_lex_total(a.2, b.2);
    if lex_lt(a.1, b.1) && lex_lt(b.1, c.1) {
        lemma_lex_transitive(a.1, b.1, c.1);
    }
    if lex_lt(a.2, b.2) && lex_lt(b.2, c.2) {
        lemma_lex_transitive(a.2, b.2, c.2);
    }
    if lex_lt(a.1, b.1) && lex_lt(b.1, a.1) {
        lemma_lex_transitive(a.1, b.1, a.1);
    }
    if lex_lt(a.2, b.2) && lex_lt(b.2, a.2) {
        lemma_lex_transitive(a.2, b.2, a.2);
    }
}

proof fn lemma_key_total_ordering()
    ensures
        vstd::relations::total_ordering(key_leq()),
{
    let r = key_leq();
    assert forall|x: (int, Seq<char>, Seq<char>)| #[trigger] r(x, x) by {
        lemma_key_facts(x, x, x);
    }
    assert forall|x: (int, Seq<char>, Seq<char>), y: (int, Seq<char>, Seq<char>)| #[trigger] r(x, y) && #[trigger] r(y, x) implies x == y by {
        lemma_key_facts(x, y, x);
    }
    assert forall|x: (int, Seq<char>, Seq<char>), y: (int, Seq<char>, Seq<char>), z: (int, Seq<char>, Seq<char>)| #[trigger] r(x, y) && #[trigger] r(y, z) implies r(x, z) by {
        lemma_key_facts(x, y, z);
        lemma_key_facts(z, x, y);
        lemma_key_facts(y, z, x);
        lemma_key_facts(z, y, x);
    }
    assert forall|x: (int, Seq<char>, Seq<char>), y: (int, Seq<char>, Seq<char>)| #[trigger] r(x, y) || #[trigger] r(y, x) by {
        lemma_key_facts(x, y, x);
    }
}

proof fn lemma_keys_multiset(a: Seq<SkillGovernanceFinding>, b: Seq<SkillGovernanceFinding>)
    requires
        a.to_multiset() == b.to_multiset(),
    ensures
        finding_keys(a).to_multiset() == finding_keys(b).to_multiset(),
    decreases a.len(),
{
    broadcast use vstd::seq_lib::group_to_multiset_ensures, vstd::multiset::group_multiset_axioms;

    if a.len() == 0 {
        assert(b.len() == b.to_multiset().len());
        assert(finding_keys(a) =~= finding_keys(b));
    } else {
        let x = a.last();
        let a1 = a.drop_last();
        assert(a =~= a1.push(x));
        assert(a.to_multiset() =~= a1.to_multiset().insert(x));
        assert(b.to_multiset().count(x) > 0);
        assert(b.contains(x));
        let j = choose|j: int| 0 <= j < b.len() && b[j] == x;
        let b1 = b.remove(j);
        assert(b1.to_multiset() == b.to_multiset().remove(x));
        assert(a1.to_multiset() =~= b1.to_multiset());
        lemma_keys_multiset(a1, b1);
        assert(finding_keys(a) =~= finding_keys(a1).push(finding_key(x)));
        assert(finding_keys(b) =~= finding_keys(b1).insert(j, finding_key(x)));
        assert(finding_keys(a).to_multiset() =~= finding_keys(a1).to_multiset().insert(finding_key(x)));
        assert(finding_keys(b).to_multiset() == finding_keys(b1).to_multiset().insert(finding_key(x)));
    }
}

/// Canonicalizing findings twice changes nothing: when `second` is what
/// canonicalizing `first` gives and `third` what canonicalizing `second`
/// gives, `third` has the findings of `second` in the same order (by their
/// views) and the same status.
pub proof fn law_canonicalize_idempotent(
    first: SkillGovernanceOutcome,
    second: SkillGovernanceOutcome,
    third: SkillGovernanceOutcome,
)
    requires
        second.findings@.to_multiset() == first.findings@.to_multiset(),
        findings_sorted(second.findings@),
        second.status == status_of(first.findings@),
        third.findings@.to_multiset() == second.findings@.to_multiset(),
        findings_sorted(third.findings@),
        third.status == status_of(second.findings@),
    ensures
        finding_keys(third.findings@) == finding_keys(second.findings@),
        third.status == second.status,
{
    let b = second.findings@;
    let c = third.findings@;
    lemma_status_by_multiset(first.findings@, b);
    lemma_keys_multiset(c, b);
    lemma_key_total_ordering();
    assert(vstd::relations::sorted_by(finding_keys(b), key_leq())) by {
        assert forall|i: int, j: int| 0 <= i < j < finding_keys(b).len() implies #[trigger] key_leq()(
            finding_keys(b)[i],
            finding_keys(b)[j],
        ) by {
            assert(!finding_lt(b[j], b[i]));
        }
    }
    assert(vstd::relations::sorted_by(finding_keys(c), key_leq())) by {
        assert forall|i: int, j: int| 0 <= i < j < finding_keys(c).len() implies #[trigger] key_leq()(
            finding_keys(c)[i],
            finding_keys(c)[j],
        ) by {
            assert(!finding_lt(c[j], c[i]));
        }
    }
    vstd::seq_lib::lemma_sorted_unique(finding_keys(c), finding_keys(b), key_leq());
}

/// Where an installed skill stands.
#[derive(Debug, Clone, Copy, PartialEq, Eq, PartialOrd, Ord, Structural)]
pub enum SkillLifecycleState {
    Enabled,
    Disabled,
    Quarantined,
}

impl Default for SkillLifecycleState {
    fn default() -> (r: Self)
        ensures
            r == SkillLifecycleState::Enabled,
    {
        SkillLifecycleState::Enabled
    }
}

/// One installed package version of the registry.
#[derive(Debug)]
pub struct SkillRegistryEntry {
    pub identity: SkillIdentity,
    pub manifest: SkillManifest,
    pub package_path: String,
    pub content_hash: String,
    pub installed_from: Vec<String>,
    pub installed_at_ms: i64,
    pub lifecycle: SkillLifecycleState,
    pub lifecycle_reason: Option<String>,
    pub governance: SkillGovernanceOutcome,
}

/// Two registry entries hold the same values (lists and maps compared by
/// their contents).
pub open spec fn entry_same(a: SkillRegistryEntry, b: SkillRegistryEntry) -> bool {
    &&& a.identity == b.identity
    &&& manifest_same(a.manifest, b.manifest)
    &&& a.package_path == b.package_path
    &&& a.content_hash == b.content_hash
    &&& a.installed_from@ == b.installed_from@
    &&& a.installed_at_ms == b.installed_at_ms
    &&& a.lifecycle == b.lifecycle
    &&& a.lifecycle_reason == b.lifecycle_reason
    &&& a.governance.status == b.governance.status
    &&& a.governance.findings@ == b.governance.findings@
}

/// A copy of a list of findings.
pub fn copy_findings(v: &Vec<SkillGovernanceFinding>) -> (r: Vec<SkillGovernanceFinding>)
    ensures
        r@ == v@,
{
    let mut out: Vec<SkillGovernanceFinding> = Vec::new();
    let mut i: usize = 0;
    while i < v.len()
        invariant
            i <= v.len(),
            out@ == v@.take(i as int),
        decreases v.len() - i,
    {
        out.push(v[i].clone());
        assert(v@.take(i as int + 1) =~= v@.take(i as int).push(v@[i as int]));
        i = i + 1;
    }
    assert(v@.take(i as int) =~= v@);
    out
}

impl Clone for SkillRegistryEntry {
    /// A copy holding the same values.
    fn clone(&self) -> (r: Self)
        ensures
            entry_same(r, *self),
    {
        SkillRegistryEntry {
            identity: self.identity.clone(),
            manifest: self.manifest.clone(),
            package_path: self.package_path.clone(),
            content_hash: self.content_hash.clone(),
            installed_from: copy_string_list(&self.installed_from),
            installed_at_ms: self.installed_at_ms,
            lifecycle: self.lifecycle,
            lifecycle_reason: copy_opt_string(&self.lifecycle_reason),
            governance: SkillGovernanceOutcome { status: self.governance.status, findings: copy_findings(&self.governance.findings) },
        }
    }
}

/// The registry index.
#[derive(Debug, Clone)]
pub struct SkillRegistry {
    pub version: u32,
    pub entries: Vec<SkillRegistryEntry>,
}

impl SkillRegistry {
    /// An empty registry of the current schema.
    pub fn new() -> (r: Self)
        ensures
            r.version == 1,
            r.entries@ == Seq::<SkillRegistryEntry>::empty(),
    {
        SkillRegistry { version: 1, entries: Vec::new() }
    }
}

/// One diagnostic of loading, validation or governance.
#[derive(Debug, Clone, PartialEq, Eq)]
pub struct SkillDiagnosticRecord {
    pub name: String,
    pub version: String,
    pub source: String,
    pub severity: String,
    pub code: String,
    pub message: String,
}

/// What loading one source gave.
#[derive(Debug, Clone)]
pub struct SkillSourceDiagnostics {
    pub source: String,
    pub loaded: usize,
    pub skipped: usize,
    pub errors: Vec<String>,
}

/// A later source replaced a package or tool of an earlier one.
#[derive(Debug, Clone, PartialEq, Eq)]
pub struct SkillOverrideRecord {
    pub name: String,
    pub version: String,
    pub overridden_source: String,
    pub source: String,
}

/// All diagnostics of loading, selection and governance.
#[derive(Debug, Clone, Default)]
pub struct SkillsDiagnostics {
    pub sources: Vec<SkillSourceDiagnostics>,
    pub overrides: Vec<SkillOverrideRecord>,
    pub records: Vec<SkillDiagnosticRecord>,
}

/// A candidate the selector scored.
#[derive(Debug, Clone, Default)]
pub struct SkillCandidateRecord {
    pub identity: SkillIdentity,
    pub description: String,
    pub source: String,
    pub score: i64,
    pub reasons: Vec<String>,
    pub governance: SkillGovernanceOutcome,
}

/// How a selected skill runs.
#[derive(Debug, Clone, Copy, PartialEq, Eq, PartialOrd, Ord, Default, Structural)]
pub enum SkillExecutionMode {
    #[default]
    Inline,
    Subagent,
}

/// A selected skill.
#[derive(Debug, Clone, Default)]
pub struct SkillSelectedRecord {
    pub identity: SkillIdentity,
    pub description: String,
    pub source: String,
    pub reasons: Vec<String>,
    pub fragments: Vec<String>,
    pub tool_names: Vec<String>,
    pub execution_mode: SkillExecutionMode,
    pub governance: SkillGovernanceOutcome,
    pub content_hash: Option<String>,
}

/// A skill left out, and why.
#[derive(Debug, Clone, Default)]
pub struct SkillSkippedRecord {
    pub identity: SkillIdentity,
    pub source: String,
    pub reason: String,
    pub governance: SkillGovernanceOutcome,
}

/// The selector's report for one run.
#[derive(Debug, Clone, Default)]
pub struct SkillSelectionReport {
    pub candidates: Vec<SkillCandidateRecord>,
    pub selected: Vec<SkillSelectedRecord>,
    pub skipped: Vec<SkillSkippedRecord>,
}

/// A parsed skill package.
#[derive(Debug)]
pub struct SkillPackage {
    pub manifest: SkillManifest,
    pub metadata: SkillMetadata,
    pub fragments: SkillFragmentSet,
    pub tools: Vec<SkillToolSpec>,
    pub governance: SkillGovernanceOutcome,
}

/// The skills selected for a run and everything the provider is shown of
/// them.
#[derive(Debug)]
pub struct ResolvedSkillSnapshot {
    pub snapshot_id: String,
    pub metadata: Vec<SkillMetadata>,
    pub tools: Vec<SkillToolSpec>,
    pub packages: Vec<SkillPackage>,
    pub selection: SkillSelectionReport,
    pub injection_block: String,
}

impl ResolvedSkillSnapshot {
    /// The names of the selected skills, in selection order.
    pub fn selected_skill_names(&self) -> (r: Vec<String>)
        ensures
            r@.map_values(|s: String| s@) == self.selection.selected@.map_values(|x: SkillSelectedRecord| x.identity.name@),
    {
        let mut out: Vec<String> = Vec::new();
        let mut i: usize = 0;
        while i < self.selection.selected.len()
            invariant
                i <= self.selection.selected.len(),
                out@.map_values(|s: String| s@) == self.selection.selected@.take(i as int).map_values(
                    |x: SkillSelectedRecord| x.identity.name@,
                ),
            decreases self.selection.selected.len() - i,
        {
            let ghost before = out@.map_values(|s: String| s@);
            out.push(self.selection.selected[i].identity.name.clone());
            assert(self.selection.selected@.take(i as int + 1) =~= self.selection.selected@.take(i as int).push(
                self.selection.selected@[i as int],
            ));
            assert(out@.map_values(|s: String| s@) =~= before.push(self.selection.selected@[i as int].identity.name@));
            i = i + 1;
        }
        assert(self.selection.selected@.take(i as int) =~= self.selection.selected@);
        out
    }

    /// The names of the selected tools, as a set.
    pub fn selected_tool_names(&self) -> (r: StringSet)
        ensures
            forall|x: Seq<char>| r.view_set().contains(x) <==> self.tools@.map_values(|t: SkillToolSpec| t.name@).contains(x),
    {
        let mut out = StringSet::new();
        let ghost names = self.tools@.map_values(|t: SkillToolSpec| t.name@);
        let mut i: usize = 0;
        while i < self.tools.len()
            invariant
                i <= self.tools.len(),
                names == self.tools@.map_values(|t: SkillToolSpec| t.name@),
                forall|x: Seq<char>| out.view_set().contains(x) <==> names.take(i as int).contains(x),
            decreases self.tools.len() - i,
        {
            let nm = self.tools[i].name.clone();
            assert(nm@ == names[i as int]);
            let ghost before = out.view_set();
            out.insert(nm);
            assert(out.view_set() == before.insert(names[i as int]));
            proof {
                let a = names[i as int];
                let pre = names.take(i as int);
                assert(names.take(i as int + 1) =~= pre.push(a));
                assert forall|x: Seq<char>| pre.push(a).contains(x) <==> (pre.contains(x) || x == a) by {
                    if pre.contains(x) {
                        let j = choose|j: int| 0 <= j < pre.len() && pre[j] == x;
                        assert(pre.push(a)[j] == x);
                    }
                    if x == a {
                        assert(pre.push(a)[pre.len() as int] == x);
                    }
                    if pre.push(a).contains(x) {
                        let j = choose|j: int| 0 <= j < pre.push(a).len() && pre.push(a)[j] == x;
                        if j < pre.len() {
                            assert(pre[j] == x);
                        }
                    }
                }
                assert forall|x: Seq<char>| out.view_set().contains(x) <==> names.take(i as int + 1).contains(x) by {
                    assert(before.contains(x) <==> pre.contains(x));
                    assert(pre.push(a).contains(x) <==> (pre.contains(x) || x == a));
                }
            }
            i = i + 1;
        }
        assert(names.take(i as int) =~= names);
        out
    }
}

} // verus!
