use deepagents::skills::registry::{
    compare_versions, parse_identity_token, registry_package_dir, registry_status, registry_versions, set_registry_lifecycle,
    VersionOrder,
};
use deepagents::skills::selection::{choose_fragments, dedup_reasons, matches_pin, user_request_text};
use deepagents::skills::validator::{
    classify_package_skill_step_tool, is_filesystem_tool, validate_description, validate_skill_name, PackageSkillStepKind,
};
use deepagents::skills::{
    sort_findings, SkillFragmentSet, SkillGovernanceFinding, SkillGovernanceOutcome, SkillGovernanceSeverity,
    SkillGovernanceStatus, SkillIdentity, SkillLifecycleState, SkillManifest, SkillRegistry, SkillRegistryEntry,
    SkillRiskLevel, SkillTriggerHints,
};
use deepagents::str_map::StrMap;
use deepagents::types::Message;

fn identity(name: &str, version: &str) -> SkillIdentity {
    SkillIdentity { name: name.to_string(), version: version.to_string() }
}

fn manifest(name: &str, version: &str) -> SkillManifest {
    SkillManifest {
        identity: identity(name, version),
        description: "d".to_string(),
        path: String::new(),
        source: String::new(),
        license: None,
        compatibility: None,
        metadata: StrMap::new(),
        allowed_tools: Vec::new(),
        triggers: SkillTriggerHints::default(),
        risk_level: SkillRiskLevel::Low,
        output_contract: None,
        default_enabled: true,
        requires_isolation: false,
    }
}

fn entry(name: &str, version: &str, status: SkillGovernanceStatus) -> SkillRegistryEntry {
    SkillRegistryEntry {
        identity: identity(name, version),
        manifest: manifest(name, version),
        package_path: String::new(),
        content_hash: String::new(),
        installed_from: Vec::new(),
        installed_at_ms: 0,
        lifecycle: SkillLifecycleState::Enabled,
        lifecycle_reason: None,
        governance: SkillGovernanceOutcome { status, findings: Vec::new() },
    }
}

#[test]
fn identity_keys_and_tokens() {
    assert_eq!(identity("web", "1.2.0").as_key(), "web@1.2.0");
    assert_eq!(parse_identity_token(" web@1.0 ").unwrap(), ("web".to_string(), Some("1.0".to_string())));
    assert_eq!(parse_identity_token("web").unwrap(), ("web".to_string(), None));
    assert_eq!(parse_identity_token("   ").unwrap_err(), "invalid_identity: empty");
    assert_eq!(parse_identity_token("web@").unwrap_err(), "invalid_identity: web@");
    assert_eq!(parse_identity_token("@1").unwrap_err(), "invalid_identity: @1");
}

#[test]
fn risk_levels_parse_in_any_case() {
    assert_eq!(SkillRiskLevel::parse(" HIGH "), Some(SkillRiskLevel::High));
    assert_eq!(SkillRiskLevel::parse("critical"), Some(SkillRiskLevel::Critical));
    assert_eq!(SkillRiskLevel::parse("severe"), None);
}

#[test]
fn names_descriptions_and_step_tools_are_checked() {
    assert!(validate_skill_name("web-search2").is_ok());
    assert_eq!(validate_skill_name("").unwrap_err(), "name required");
    assert_eq!(validate_skill_name("Web").unwrap_err(), "name must use lowercase ASCII letters, digits, and '-'");
    assert_eq!(validate_description(" \n").unwrap_err(), "description required");
    assert!(validate_description("does things").is_ok());
    assert!(is_filesystem_tool("grep"));
    assert!(!is_filesystem_tool("execute"));
    assert_eq!(classify_package_skill_step_tool(" execute ").unwrap(), PackageSkillStepKind::Execute);
    assert_eq!(classify_package_skill_step_tool("read_file").unwrap(), PackageSkillStepKind::Filesystem);
    assert_eq!(classify_package_skill_step_tool("web_fetch").unwrap(), PackageSkillStepKind::AgentOwned);
    assert_eq!(classify_package_skill_step_tool(" ").unwrap_err(), "step tool_name required");
    assert_eq!(
        classify_package_skill_step_tool("task").unwrap_err(),
        "skill_step_not_supported: runtime-only tool task cannot be used in package skills"
    );
}

#[test]
fn package_dirs_are_nested_under_the_registry() {
    assert_eq!(registry_package_dir("/reg", "web", "1.0.0"), "/reg/packages/web/1.0.0");
}

#[test]
fn lifecycle_changes_target_entries() {
    let mut reg = SkillRegistry::new();
    reg.entries.push(entry("web", "1.0.0", SkillGovernanceStatus::Pass));
    reg.entries.push(entry("web", "2.0.0", SkillGovernanceStatus::Pass));
    reg.entries.push(entry("db", "1.0.0", SkillGovernanceStatus::Fail));
    let changed = set_registry_lifecycle(&mut reg, "web", None, SkillLifecycleState::Disabled, Some("off".to_string())).unwrap();
    assert_eq!(changed.len(), 2);
    assert_eq!(reg.entries[0].lifecycle, SkillLifecycleState::Disabled);
    assert_eq!(reg.entries[1].lifecycle_reason.as_deref(), Some("off"));
    assert_eq!(reg.entries[2].lifecycle, SkillLifecycleState::Enabled);
    let changed = set_registry_lifecycle(&mut reg, "web", Some("2.0.0"), SkillLifecycleState::Enabled, None).unwrap();
    assert_eq!(changed.len(), 1);
    assert_eq!(reg.entries[1].lifecycle, SkillLifecycleState::Enabled);
    assert_eq!(reg.entries[0].lifecycle, SkillLifecycleState::Disabled);
}

#[test]
fn refused_lifecycle_changes_leave_the_registry() {
    let mut reg = SkillRegistry::new();
    reg.entries.push(entry("db", "1.0.0", SkillGovernanceStatus::Fail));
    reg.entries[0].lifecycle = SkillLifecycleState::Quarantined;
    assert_eq!(
        set_registry_lifecycle(&mut reg, "db", None, SkillLifecycleState::Enabled, None).unwrap_err(),
        "governance_blocked: db@1.0.0 cannot be enabled because semantic review failed"
    );
    assert_eq!(reg.entries[0].lifecycle, SkillLifecycleState::Quarantined);
    assert_eq!(
        set_registry_lifecycle(&mut reg, "nope", Some("3"), SkillLifecycleState::Disabled, None).unwrap_err(),
        "registry_entry_not_found: nope@3"
    );
    assert!(set_registry_lifecycle(&mut reg, "db", None, SkillLifecycleState::Disabled, None).is_ok());
}

#[test]
fn findings_are_sorted_by_severity_code_message() {
    let f = |s, c: &str, m: &str| SkillGovernanceFinding { code: c.to_string(), message: m.to_string(), severity: s };
    let mut v = vec![
        f(SkillGovernanceSeverity::Fail, "a", "x"),
        f(SkillGovernanceSeverity::Warn, "b", "y"),
        f(SkillGovernanceSeverity::Warn, "b", "a"),
        f(SkillGovernanceSeverity::Warn, "a", "z"),
    ];
    sort_findings(&mut v);
    let got: Vec<(&str, &str)> = v.iter().map(|x| (x.code.as_str(), x.message.as_str())).collect();
    assert_eq!(got, vec![("a", "z"), ("b", "a"), ("b", "y"), ("a", "x")]);
    assert_eq!(v[3].severity, SkillGovernanceSeverity::Fail);
}

#[test]
fn selection_helpers() {
    assert_eq!(
        dedup_reasons(vec!["a".to_string(), "b".to_string(), "a".to_string()]),
        vec!["a".to_string(), "b".to_string()]
    );
    let messages = vec![Message::text("user", "one"), Message::text("assistant", "x"), Message::text("user", "two")];
    assert_eq!(user_request_text(&messages), "one\ntwo");
    let id = identity("web", "1.0");
    assert!(matches_pin(&id, &[("web".to_string(), None)]));
    assert!(matches_pin(&id, &[("web".to_string(), Some("1.0".to_string()))]));
    assert!(!matches_pin(&id, &[("web".to_string(), Some("2.0".to_string()))]));
}

#[test]
fn fragments_follow_the_request() {
    let mut f = SkillFragmentSet::default();
    f.role = Some("r".to_string());
    f.examples = Some("e".to_string());
    assert_eq!(choose_fragments(&f, "show an example"), vec!["role".to_string(), "examples".to_string()]);
    let mut g = SkillFragmentSet::default();
    g.when_to_use = Some("w".to_string());
    g.inputs = Some("i".to_string());
    g.examples = Some("e".to_string());
    g.references = Some("x".to_string());
    assert_eq!(
        choose_fragments(&g, "nothing"),
        vec!["when_to_use".to_string(), "inputs".to_string(), "examples".to_string()]
    );
    assert_eq!(choose_fragments(&g, "a template"), vec!["references".to_string()]);
    assert_eq!(g.available_names().len(), 4);
    assert_eq!(f.get("role"), Some("r"));
}

#[test]
fn versions_compare_by_semver_then_text() {
    assert_eq!(compare_versions("1.2.0", "1.10.0"), VersionOrder::Less);
    assert_eq!(compare_versions("1.10.0", "1.2.0"), VersionOrder::Greater);
    assert_eq!(compare_versions("1.0.0-alpha", "1.0.0"), VersionOrder::Less);
    assert_eq!(compare_versions("2.0.0", "2.0.0"), VersionOrder::Equal);
    assert_eq!(compare_versions("1.10", "1.2"), VersionOrder::Less);
    assert_eq!(compare_versions("beta", "1.0.0"), VersionOrder::Greater);
}

fn listing(entries: &[SkillRegistryEntry]) -> Vec<String> {
    entries.iter().map(|e| e.identity.as_key()).collect()
}

#[test]
fn registry_status_lists_by_name_then_version() {
    let registry = SkillRegistry {
        version: 1,
        entries: vec![
            entry("zeta", "1.0.0", SkillGovernanceStatus::Pass),
            entry("alpha", "1.10.0", SkillGovernanceStatus::Pass),
            entry("alpha", "1.2.0", SkillGovernanceStatus::Warn),
            entry("beta", "0.1.0", SkillGovernanceStatus::Pass),
        ],
    };
    let listed = registry_status(registry);
    assert_eq!(listing(&listed), vec!["alpha@1.2.0", "alpha@1.10.0", "beta@0.1.0", "zeta@1.0.0"]);
}

#[test]
fn registry_versions_keep_one_name_in_version_order() {
    let registry = SkillRegistry {
        version: 1,
        entries: vec![
            entry("alpha", "2.0.0", SkillGovernanceStatus::Pass),
            entry("beta", "1.0.0", SkillGovernanceStatus::Pass),
            entry("alpha", "1.0.0-rc.1", SkillGovernanceStatus::Pass),
            entry("alpha", "1.0.0", SkillGovernanceStatus::Pass),
        ],
    };
    let versions = registry_versions(registry, "alpha");
    assert_eq!(listing(&versions), vec!["alpha@1.0.0-rc.1", "alpha@1.0.0", "alpha@2.0.0"]);
    let none = registry_versions(SkillRegistry { version: 1, entries: Vec::new() }, "alpha");
    assert!(none.is_empty());
}
