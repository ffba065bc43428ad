use deepagents::skills::{SkillGovernanceFinding, SkillGovernanceOutcome, SkillGovernanceSeverity, SkillGovernanceStatus};

fn finding(code: &str, message: &str, severity: SkillGovernanceSeverity) -> SkillGovernanceFinding {
    SkillGovernanceFinding { code: code.to_string(), message: message.to_string(), severity }
}

fn keys(o: &SkillGovernanceOutcome) -> Vec<(String, String, SkillGovernanceSeverity)> {
    o.findings.iter().map(|f| (f.code.clone(), f.message.clone(), f.severity)).collect()
}

#[test]
fn canonicalize_twice_changes_nothing() {
    let mut o = SkillGovernanceOutcome {
        status: SkillGovernanceStatus::Pass,
        findings: vec![
            finding("b", "x", SkillGovernanceSeverity::Fail),
            finding("a", "z", SkillGovernanceSeverity::Warn),
            finding("a", "y", SkillGovernanceSeverity::Warn),
            finding("a", "y", SkillGovernanceSeverity::Warn),
        ],
    };
    o.canonicalize();
    let once = keys(&o);
    assert_eq!(o.status, SkillGovernanceStatus::Fail);
    assert_eq!(once[0], ("a".to_string(), "y".to_string(), SkillGovernanceSeverity::Warn));
    assert_eq!(once[2], ("a".to_string(), "z".to_string(), SkillGovernanceSeverity::Warn));
    assert_eq!(once[3], ("b".to_string(), "x".to_string(), SkillGovernanceSeverity::Fail));
    o.canonicalize();
    assert_eq!(keys(&o), once);
    assert_eq!(o.status, SkillGovernanceStatus::Fail);
}
