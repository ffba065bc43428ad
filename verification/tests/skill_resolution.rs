use deepagents::skills::resolve::{
    build_injection_block, parse_patterns, resolve_selection, select_skills, source_compat, CatalogEntry, SelectionInputs,
};
use deepagents::skills::selection::SkillSelectionMode;
use deepagents::skills::{
    SkillExecutionMode, SkillFragmentSet, SkillGovernanceOutcome, SkillGovernanceStatus, SkillIdentity,
    SkillLifecycleState, SkillManifest, SkillMetadata, SkillPackage, SkillRiskLevel, SkillToolPolicy, SkillToolSpec,
    SkillTriggerHints,
};
use deepagents::str_map::StrMap;

fn package(name: &str, version: &str, keywords: &[&str], risk: SkillRiskLevel) -> SkillPackage {
    let manifest = SkillManifest {
        identity: SkillIdentity { name: name.to_string(), version: version.to_string() },
        description: format!("{name} helper"),
        path: String::new(),
        source: "src".to_string(),
        license: None,
        compatibility: None,
        metadata: StrMap::new(),
        allowed_tools: Vec::new(),
        triggers: SkillTriggerHints { keywords: keywords.iter().map(|k| k.to_string()).collect() },
        risk_level: risk,
        output_contract: None,
        default_enabled: true,
        requires_isolation: false,
    };
    let metadata = SkillMetadata {
        name: name.to_string(),
        version: version.to_string(),
        description: format!("{name} helper"),
        path: String::new(),
        source: "src".to_string(),
        license: None,
        compatibility: None,
        metadata: StrMap::new(),
        allowed_tools: Vec::new(),
    };
    let mut fragments = SkillFragmentSet::default();
    fragments.role = Some(format!("  You are {name}.  "));
    let tool = SkillToolSpec {
        name: format!("{name}_run"),
        description: "run".to_string(),
        input_schema: serde_json::from_str("{}").unwrap(),
        steps: Vec::new(),
        policy: SkillToolPolicy::default(),
        skill_name: name.to_string(),
        skill_version: version.to_string(),
        source: "src".to_string(),
        requires_isolation: false,
    };
    SkillPackage {
        manifest,
        metadata,
        fragments,
        tools: vec![tool],
        governance: SkillGovernanceOutcome { status: SkillGovernanceStatus::Pass, findings: Vec::new() },
    }
}

fn entry(name: &str, keywords: &[&str], lifecycle: SkillLifecycleState) -> CatalogEntry {
    CatalogEntry { package: package(name, "1.0.0", keywords, SkillRiskLevel::Low), lifecycle, content_hash: None }
}

fn inputs(input: &str, mode: SkillSelectionMode, pins: &[&str], disables: &[&str], max_active: usize) -> SelectionInputs {
    let pins_owned: Vec<String> = pins.iter().map(|p| p.to_string()).collect();
    let disables_owned: Vec<String> = disables.iter().map(|p| p.to_string()).collect();
    SelectionInputs {
        pins: parse_patterns(&pins_owned).unwrap(),
        disables: parse_patterns(&disables_owned).unwrap(),
        sticky_names: Vec::new(),
        input_lower: input.to_string(),
        mode,
        source_compat: false,
        max_active,
    }
}

#[test]
fn selection_skips_and_scores_in_catalog_order() {
    let catalog = vec![
        entry("alpha", &["deploy"], SkillLifecycleState::Enabled),
        entry("beta", &["nothing"], SkillLifecycleState::Enabled),
        entry("gamma", &["deploy"], SkillLifecycleState::Quarantined),
        entry("delta", &["deploy"], SkillLifecycleState::Disabled),
        entry("eps", &["deploy"], SkillLifecycleState::Enabled),
    ];
    let inp = inputs("please deploy it", SkillSelectionMode::Auto, &[], &["eps"], 3);
    let choice = select_skills(&catalog, &inp);
    let skipped: Vec<(String, String)> =
        choice.skipped.iter().map(|r| (r.identity.name.clone(), r.reason.clone())).collect();
    assert_eq!(
        skipped,
        vec![
            ("beta".to_string(), "score_below_threshold".to_string()),
            ("gamma".to_string(), "quarantined".to_string()),
            ("delta".to_string(), "disabled".to_string()),
            ("eps".to_string(), "disabled_by_request".to_string()),
        ]
    );
    let candidates: Vec<(String, i64)> = choice.candidates.iter().map(|c| (c.identity.name.clone(), c.score)).collect();
    assert_eq!(candidates, vec![("alpha".to_string(), 100), ("beta".to_string(), 0)]);
    assert_eq!(choice.chosen.len(), 1);
    assert_eq!(choice.chosen[0].index, 0);
    assert_eq!(choice.chosen[0].reasons, vec!["keyword:deploy".to_string()]);
}

#[test]
fn pins_rank_first_and_max_active_limits() {
    let catalog = vec![
        entry("alpha", &["deploy", "it"], SkillLifecycleState::Enabled),
        entry("beta", &["deploy"], SkillLifecycleState::Disabled),
        entry("gamma", &["deploy"], SkillLifecycleState::Enabled),
    ];
    let inp = inputs("please deploy it", SkillSelectionMode::Auto, &["beta"], &[], 2);
    let choice = select_skills(&catalog, &inp);
    let order: Vec<usize> = choice.chosen.iter().map(|c| c.index).collect();
    assert_eq!(order, vec![1, 0]);

    let inp = inputs("please deploy it", SkillSelectionMode::Auto, &[], &[], 0);
    let choice = select_skills(&catalog, &inp);
    assert_eq!(choice.chosen.len(), 1);
    assert_eq!(choice.chosen[0].index, 0);
}

#[test]
fn manual_mode_takes_only_pins() {
    let catalog = vec![
        entry("alpha", &["deploy"], SkillLifecycleState::Enabled),
        entry("beta", &[], SkillLifecycleState::Enabled),
    ];
    let inp = inputs("deploy", SkillSelectionMode::Manual, &["beta@1.0.0"], &[], 3);
    let choice = select_skills(&catalog, &inp);
    assert_eq!(choice.chosen.len(), 1);
    assert_eq!(choice.chosen[0].index, 1);
    assert_eq!(choice.skipped[0].reason, "manual_not_pinned");
    assert!(source_compat(false, true, &Vec::new()));
    assert!(!source_compat(true, true, &Vec::new()));
}

#[test]
fn source_compat_selects_everything() {
    let catalog = vec![entry("alpha", &[], SkillLifecycleState::Enabled), entry("beta", &[], SkillLifecycleState::Enabled)];
    let mut inp = inputs("anything", SkillSelectionMode::Auto, &[], &[], 5);
    inp.source_compat = true;
    let choice = select_skills(&catalog, &inp);
    assert_eq!(choice.chosen.len(), 2);
    assert_eq!(choice.chosen[1].reasons, vec!["source_compat_default".to_string()]);
}

#[test]
fn snapshot_carries_records_tools_and_block() {
    let mut risky = entry("beta", &["deploy"], SkillLifecycleState::Enabled);
    risky.package.manifest.risk_level = SkillRiskLevel::High;
    risky.content_hash = Some("h1".to_string());
    let catalog = vec![entry("alpha", &["deploy"], SkillLifecycleState::Enabled), risky];
    let inp = inputs("deploy now", SkillSelectionMode::Auto, &[], &[], 3);
    let snap = resolve_selection(catalog, &inp).unwrap();
    let names: Vec<&str> = snap.selection.selected.iter().map(|r| r.identity.name.as_str()).collect();
    assert_eq!(names, vec!["alpha", "beta"]);
    assert_eq!(snap.selection.selected[0].execution_mode, SkillExecutionMode::Inline);
    assert_eq!(snap.selection.selected[1].execution_mode, SkillExecutionMode::Subagent);
    assert_eq!(snap.selection.selected[1].content_hash.as_deref(), Some("h1"));
    assert_eq!(snap.selection.selected[0].fragments, vec!["role".to_string()]);
    assert_eq!(snap.selection.selected[0].tool_names, vec!["alpha_run".to_string()]);
    assert!(!snap.tools[0].requires_isolation);
    assert!(snap.tools[1].requires_isolation);
    assert_eq!(snap.packages.len(), 2);
    assert_eq!(snap.metadata[1].name, "beta");
    assert!(snap.snapshot_id.is_empty());
    assert_eq!(
        snap.injection_block,
        "DEEPAGENTS_SKILLS_INJECTED_V2\n## Skills\n\
         - alpha@1.0.0: alpha helper (source: src)\n  Selected fragments: role\n\
         - beta@1.0.0: beta helper (source: src)\n  Selected fragments: role\n\
         ### alpha@1.0.0\n#### role\nYou are alpha.\n\
         ### beta@1.0.0\n#### role\nYou are beta.\n"
    );
    assert_eq!(build_injection_block(&[], &[]), "DEEPAGENTS_SKILLS_INJECTED_V2\n## Skills\n");
    assert!(resolve_selection(Vec::new(), &inp).is_none());
}

#[test]
fn bad_pattern_tokens_are_errors() {
    let tokens = vec!["ok".to_string(), "@1.0".to_string(), "x@".to_string()];
    assert_eq!(parse_patterns(&tokens).unwrap_err(), "invalid_identity: @1.0");
    let good = parse_patterns(&vec!["a@1".to_string(), " b ".to_string()]).unwrap();
    assert_eq!(good, vec![("a".to_string(), Some("1".to_string())), ("b".to_string(), None)]);
}
