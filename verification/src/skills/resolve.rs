//! Resolution of the skills of a run from a catalog: which entries are left
//! out and why, which are scored candidates, which are selected and in what
//! order, and the block that presents the selection to the provider.
use vstd::prelude::*;

use crate::skills::selection::{
    any_pattern_matches, candidate_score, candidate_score_of, matches_disable, matches_pin, SkillSelectionMode,
};
use crate::skills::registry::{identity_token, parse_identity_token};
use crate::skills::selection::{choose_fragments, chosen_fragments};
use crate::types::opt_str_view;
use crate::skills::{
    identity_key, ResolvedSkillSnapshot, SkillMetadata, SkillSelectionReport, SkillToolPolicy, SkillToolSpec, SkillToolStep,
    SkillCandidateRecord, SkillExecutionMode, SkillFragmentSet, SkillGovernanceOutcome,
    SkillGovernanceStatus, SkillIdentity, SkillLifecycleState, SkillManifest, SkillPackage, SkillRiskLevel,
    SkillSelectedRecord, SkillSkippedRecord,
};
use crate::text::{
    join, joined, lemma_lex_irreflexive, lemma_lex_total, lemma_lex_transitive, lex_lt, owned, push_str, str_eq, str_lt,
    str_trim, trim,
};

verus! {

/// A package the selector may choose, with its registry state.
#[derive(Debug)]
pub struct CatalogEntry {
    pub package: SkillPackage,
    pub lifecycle: SkillLifecycleState,
    pub content_hash: Option<String>,
}

/// What the selector goes by besides the catalog.
#[derive(Debug)]
pub struct SelectionInputs {
    /// `name` / `name@version` patterns the caller pinned.
    pub pins: Vec<(String, Option<String>)>,
    /// Patterns the caller disabled.
    pub disables: Vec<(String, Option<String>)>,
    /// `name@version` keys selected earlier in the thread.
    pub sticky_names: Vec<String>,
    /// The user's request, in lowercase.
    pub input_lower: String,
    pub mode: SkillSelectionMode,
    /// Select every candidate, as packages given only as sources (no
    /// registry, no pins) are.
    pub source_compat: bool,
    pub max_active: usize,
}

/// Limits on sizes that keep scores within `i64`.
pub open spec fn inputs_bounded(catalog: Seq<CatalogEntry>, inp: SelectionInputs) -> bool {
    &&& inp.input_lower@.len() <= 1_000_000_000_000
    &&& forall|i: int|
        0 <= i < catalog.len() ==> (#[trigger] catalog[i]).package.manifest.triggers.keywords@.len() <= 1_000_000_000_000
            && catalog[i].package.manifest.allowed_tools@.len() <= 1_000_000_000_000
}

pub open spec fn entry_id(e: CatalogEntry) -> SkillIdentity {
    e.package.manifest.identity
}

/// Why an entry is left out before it is scored: disabled by the request,
/// quarantined, or disabled in the registry and not pinned.
pub open spec fn early_skip(e: CatalogEntry, inp: SelectionInputs) -> Option<Seq<char>> {
    if any_pattern_matches(inp.disables@, entry_id(e)) {
        Some("disabled_by_request"@)
    } else if e.lifecycle == SkillLifecycleState::Quarantined {
        Some("quarantined"@)
    } else if e.lifecycle == SkillLifecycleState::Disabled && !any_pattern_matches(inp.pins@, entry_id(e)) {
        Some("disabled"@)
    } else {
        None
    }
}

pub open spec fn score_of(e: CatalogEntry, inp: SelectionInputs) -> (int, Seq<Seq<char>>) {
    candidate_score_of(e.package.manifest, inp.pins@, inp.sticky_names@, inp.input_lower@)
}

/// What becomes of a scored candidate: selected with its reasons, skipped
/// with a reason, or neither when selection is off. Manual selection takes
/// the pinned; automatic selection takes everything in source
/// compatibility, else what scored above zero.
pub open spec fn mode_decision(e: CatalogEntry, inp: SelectionInputs) -> Option<Result<Seq<Seq<char>>, Seq<char>>> {
    let (score, reasons) = score_of(e, inp);
    match inp.mode {
        SkillSelectionMode::Manual => if any_pattern_matches(inp.pins@, entry_id(e)) {
            Some(Ok(reasons))
        } else {
            Some(Err("manual_not_pinned"@))
        },
        SkillSelectionMode::Auto => if inp.source_compat {
            Some(Ok(seq!["source_compat_default"@]))
        } else if score > 0 {
            Some(Ok(reasons))
        } else {
            Some(Err("score_below_threshold"@))
        },
        SkillSelectionMode::Off => None,
    }
}

/// A skipped record as plain values: identity, source, reason, review status.
pub type SkipView = (SkillIdentity, Seq<char>, Seq<char>, SkillGovernanceStatus);

/// A candidate record as plain values: identity, description, source,
/// score, reasons, review status.
pub type CandidateView = (SkillIdentity, Seq<char>, Seq<char>, int, Seq<Seq<char>>, SkillGovernanceStatus);

/// A choice as plain values: the catalog position and the reasons.
pub type ChoiceView = (int, Seq<Seq<char>>);

/// The entries left out, in catalog order.
pub open spec fn skip_log(es: Seq<CatalogEntry>, inp: SelectionInputs) -> Seq<SkipView>
    decreases es.len(),
{
    if es.len() == 0 {
        Seq::empty()
    } else {
        let prev = skip_log(es.drop_last(), inp);
        let e = es.last();
        let v = |reason: Seq<char>| (entry_id(e), e.package.manifest.source@, reason, e.package.governance.status);
        match early_skip(e, inp) {
            Some(reason) => prev.push(v(reason)),
            None => match mode_decision(e, inp) {
                Some(Err(reason)) => prev.push(v(reason)),
                _ => prev,
            },
        }
    }
}

/// The scored candidates, in catalog order.
pub open spec fn candidate_log(es: Seq<CatalogEntry>, inp: SelectionInputs) -> Seq<CandidateView>
    decreases es.len(),
{
    if es.len() == 0 {
        Seq::empty()
    } else {
        let prev = candidate_log(es.drop_last(), inp);
        let e = es.last();
        if early_skip(e, inp) is None {
            prev.push(
                (
                    entry_id(e),
                    e.package.manifest.description@,
                    e.package.manifest.source@,
                    score_of(e, inp).0,
                    score_of(e, inp).1,
                    e.package.governance.status,
                ),
            )
        } else {
            prev
        }
    }
}

/// The chosen entries, in catalog order.
pub open spec fn choice_log(es: Seq<CatalogEntry>, inp: SelectionInputs) -> Seq<ChoiceView>
    decreases es.len(),
{
    if es.len() == 0 {
        Seq::empty()
    } else {
        let prev = choice_log(es.drop_last(), inp);
        let e = es.last();
        if early_skip(e, inp) is None {
            match mode_decision(e, inp) {
                Some(Ok(reasons)) => prev.push((es.len() - 1, reasons)),
                _ => prev,
            }
        } else {
            prev
        }
    }
}

/// A chosen catalog entry with its reasons.
#[derive(Debug)]
pub struct ChosenSkill {
    pub index: usize,
    pub reasons: Vec<String>,
}

pub open spec fn strs(v: Seq<String>) -> Seq<Seq<char>> {
    v.map_values(|s: String| s@)
}

pub open spec fn choice_views(v: Seq<ChosenSkill>) -> Seq<ChoiceView> {
    v.map_values(|c: ChosenSkill| (c.index as int, strs(c.reasons@)))
}

pub open spec fn skip_views(v: Seq<SkillSkippedRecord>) -> Seq<SkipView> {
    v.map_values(|r: SkillSkippedRecord| (r.identity, r.source@, r.reason@, r.governance.status))
}

pub open spec fn candidate_views(v: Seq<SkillCandidateRecord>) -> Seq<CandidateView> {
    v.map_values(
        |r: SkillCandidateRecord| (r.identity, r.description@, r.source@, r.score as int, strs(r.reasons@), r.governance.status),
    )
}

fn copy_governance(g: &SkillGovernanceOutcome) -> (r: SkillGovernanceOutcome)
    ensures
        r.status == g.status,
{
    SkillGovernanceOutcome { status: g.status, findings: g.findings.clone() }
}

fn copy_strings(v: &Vec<String>) -> (r: Vec<String>)
    ensures
        strs(r@) == strs(v@),
{
    let mut out: Vec<String> = Vec::new();
    let mut i: usize = 0;
    while i < v.len()
        invariant
            i <= v.len(),
            strs(out@) == strs(v@.take(i as int)),
        decreases v.len() - i,
    {
        let ghost before = strs(out@);
        out.push(v[i].clone());
        assert(v@.take(i as int + 1) =~= v@.take(i as int).push(v@[i as int]));
        assert(strs(out@) =~= before.push(v@[i as int]@));
        assert(strs(v@.take(i as int + 1)) =~= strs(v@.take(i as int)).push(v@[i as int]@));
        i = i + 1;
    }
    assert(v@.take(i as int) =~= v@);
    out
}

fn skipped_record(e: &CatalogEntry, reason: &str) -> (r: SkillSkippedRecord)
    ensures
        r.identity == entry_id(*e),
        r.source@ == e.package.manifest.source@,
        r.reason@ == reason@,
        r.governance.status == e.package.governance.status,
{
    SkillSkippedRecord {
        identity: e.package.manifest.identity.clone(),
        source: e.package.manifest.source.clone(),
        reason: owned(reason),
        governance: copy_governance(&e.package.governance),
    }
}

/// The skipped records, the scored candidates and the chosen entries (in
/// catalog order) of a catalog.
pub struct SelectionPass {
    pub skipped: Vec<SkillSkippedRecord>,
    pub candidates: Vec<SkillCandidateRecord>,
    pub chosen: Vec<ChosenSkill>,
}

/// Goes through the catalog in order: each entry is skipped early, or
/// scored and then selected or skipped by the selection mode.
pub fn selection_pass(catalog: &[CatalogEntry], inp: &SelectionInputs) -> (r: SelectionPass)
    requires
        inputs_bounded(catalog@, *inp),
    ensures
        skip_views(r.skipped@) == skip_log(catalog@, *inp),
        candidate_views(r.candidates@) == candidate_log(catalog@, *inp),
        choice_views(r.chosen@) == choice_log(catalog@, *inp),
{
    let mut skipped: Vec<SkillSkippedRecord> = Vec::new();
    let mut candidates: Vec<SkillCandidateRecord> = Vec::new();
    let mut chosen: Vec<ChosenSkill> = Vec::new();
    let mut i: usize = 0;
    while i < catalog.len()
        invariant
            i <= catalog.len(),
            inputs_bounded(catalog@, *inp),
            skip_views(skipped@) == skip_log(catalog@.take(i as int), *inp),
            candidate_views(candidates@) == candidate_log(catalog@.take(i as int), *inp),
            choice_views(chosen@) == choice_log(catalog@.take(i as int), *inp),
        decreases catalog.len() - i,
    {
        let e = &catalog[i];
        let ghost es = catalog@.take(i as int + 1);
        proof {
            assert(es.drop_last() =~= catalog@.take(i as int));
            assert(es.last() == catalog@[i as int]);
            assert(es.len() - 1 == i);
        }
        let ghost sv = skip_views(skipped@);
        let ghost cv = candidate_views(candidates@);
        let ghost ov = choice_views(chosen@);
        let id = &e.package.manifest.identity;
        let early: Option<&str> = if matches_disable(id, inp.disables.as_slice()) {
            Some("disabled_by_request")
        } else if e.lifecycle == SkillLifecycleState::Quarantined {
            Some("quarantined")
        } else if e.lifecycle == SkillLifecycleState::Disabled && !matches_pin(id, inp.pins.as_slice()) {
            Some("disabled")
        } else {
            None
        };
        match early {
            Some(reason) => {
                skipped.push(skipped_record(e, reason));
                assert(skip_views(skipped@) =~= sv.push(
                    (entry_id(*e), e.package.manifest.source@, reason@, e.package.governance.status),
                ));
                assert(candidate_views(candidates@) =~= cv);
                assert(choice_views(chosen@) =~= ov);
            },
            None => {
                let (score, reasons) = candidate_score(
                    &e.package.manifest,
                    inp.pins.as_slice(),
                    inp.sticky_names.as_slice(),
                    inp.input_lower.as_str(),
                );
                let cand = SkillCandidateRecord {
                    identity: id.clone(),
                    description: e.package.manifest.description.clone(),
                    source: e.package.manifest.source.clone(),
                    score,
                    reasons: copy_strings(&reasons),
                    governance: copy_governance(&e.package.governance),
                };
                candidates.push(cand);
                assert(candidate_views(candidates@) =~= cv.push(
                    (
                        entry_id(*e),
                        e.package.manifest.description@,
                        e.package.manifest.source@,
                        score_of(*e, *inp).0,
                        score_of(*e, *inp).1,
                        e.package.governance.status,
                    ),
                ));
                let decision: Option<Result<Vec<String>, &str>> = match inp.mode {
                    SkillSelectionMode::Manual => if matches_pin(id, inp.pins.as_slice()) {
                        Some(Ok(reasons))
                    } else {
                        Some(Err("manual_not_pinned"))
                    },
                    SkillSelectionMode::Auto => if inp.source_compat {
                        let mut rs: Vec<String> = Vec::new();
                        rs.push(owned("source_compat_default"));
                        assert(strs(rs@) =~= seq!["source_compat_default"@]);
                        Some(Ok(rs))
                    } else if score > 0 {
                        Some(Ok(reasons))
                    } else {
                        Some(Err("score_below_threshold"))
                    },
                    SkillSelectionMode::Off => None,
                };
                match decision {
                    Some(Ok(rs)) => {
                        chosen.push(ChosenSkill { index: i, reasons: rs });
                        assert(choice_views(chosen@) =~= ov.push((i as int, strs(rs@))));
                        assert(skip_views(skipped@) =~= sv);
                    },
                    Some(Err(reason)) => {
                        skipped.push(skipped_record(e, reason));
                        assert(skip_views(skipped@) =~= sv.push(
                            (entry_id(*e), e.package.manifest.source@, reason@, e.package.governance.status),
                        ));
                        assert(choice_views(chosen@) =~= ov);
                    },
                    None => {
                        assert(skip_views(skipped@) =~= sv);
                        assert(choice_views(chosen@) =~= ov);
                    },
                }
            },
        }
        i = i + 1;
    }
    assert(catalog@.take(catalog.len() as int) =~= catalog@);
    SelectionPass { skipped, candidates, chosen }
}

// ----- ranking of the chosen -----

pub open spec fn risk_rank(r: SkillRiskLevel) -> int {
    match r {
        SkillRiskLevel::Low => 0,
        SkillRiskLevel::Medium => 1,
        SkillRiskLevel::High => 2,
        SkillRiskLevel::Critical => 3,
    }
}

/// The entry at `a` ranks before the one at `b`: pinned first, then higher
/// score, lower risk, then name and version in text order.
pub open spec fn ranked_before(es: Seq<CatalogEntry>, inp: SelectionInputs, a: int, b: int) -> bool {
    let ea = es[a];
    let eb = es[b];
    let pa = any_pattern_matches(inp.pins@, entry_id(ea));
    let pb = any_pattern_matches(inp.pins@, entry_id(eb));
    let sa = score_of(ea, inp).0;
    let sb = score_of(eb, inp).0;
    let ra = risk_rank(ea.package.manifest.risk_level);
    let rb = risk_rank(eb.package.manifest.risk_level);
    let na = entry_id(ea).name@;
    let nb = entry_id(eb).name@;
    let va = entry_id(ea).version@;
    let vb = entry_id(eb).version@;
    ||| pa && !pb
    ||| pa == pb && sa > sb
    ||| pa == pb && sa == sb && ra < rb
    ||| pa == pb && sa == sb && ra == rb && lex_lt(na, nb)
    ||| pa == pb && sa == sb && ra == rb && na == nb && lex_lt(va, vb)
}

/// Two entries of equal rank: same pin, score, risk, name and version.
pub open spec fn same_rank(es: Seq<CatalogEntry>, inp: SelectionInputs, a: int, b: int) -> bool {
    &&& any_pattern_matches(inp.pins@, entry_id(es[a])) == any_pattern_matches(inp.pins@, entry_id(es[b]))
    &&& score_of(es[a], inp).0 == score_of(es[b], inp).0
    &&& risk_rank(es[a].package.manifest.risk_level) == risk_rank(es[b].package.manifest.risk_level)
    &&& entry_id(es[a]).name@ == entry_id(es[b]).name@
    &&& entry_id(es[a]).version@ == entry_id(es[b]).version@
}

/// No choice comes after one that ranks after it.
pub open spec fn in_rank_order(es: Seq<CatalogEntry>, inp: SelectionInputs, s: Seq<ChoiceView>) -> bool {
    forall|i: int, j: int| 0 <= i < j < s.len() ==> !ranked_before(es, inp, #[trigger] s[j].0, #[trigger] s[i].0)
}

proof fn lemma_rank_order(es: Seq<CatalogEntry>, inp: SelectionInputs, a: int, b: int, c: int)
    ensures
        !ranked_before(es, inp, a, a),
        ranked_before(es, inp, a, b) ==> !ranked_before(es, inp, b, a),
        ranked_before(es, inp, a, b) && ranked_before(es, inp, b, c) ==> ranked_before(es, inp, a, c),
        ranked_before(es, inp, a, b) || ranked_before(es, inp, b, a) || same_rank(es, inp, a, b),
        same_rank(es, inp, a, b) && ranked_before(es, inp, b, c) ==> ranked_before(es, inp, a, c),
        same_rank(es, inp, a, b) && ranked_before(es, inp, c, b) ==> ranked_before(es, inp, c, a),
{
    let na = entry_id(es[a]).name@;
    let nb = entry_id(es[b]).name@;
    let nc = entry_id(es[c]).name@;
    let va = entry_id(es[a]).version@;
    let vb = entry_id(es[b]).version@;
    let vc = entry_id(es[c]).version@;
    lemma_lex_irreflexive(na);
    lemma_lex_irreflexive(va);
    lemma_lex_total(na, nb);
    lemma_lex_total(va, vb);
    if lex_lt(na, nb) && lex_lt(nb, nc) {
        lemma_lex_transitive(na, nb, nc);
    }
    if lex_lt(va, vb) && lex_lt(vb, vc) {
        lemma_lex_transitive(va, vb, vc);
    }
    if lex_lt(na, nb) && lex_lt(nb, na) {
        lemma_lex_transitive(na, nb, na);
    }
    if lex_lt(va, vb) && lex_lt(vb, va) {
        lemma_lex_transitive(va, vb, va);
    }
}

fn risk_value(r: SkillRiskLevel) -> (v: u8)
    ensures
        v == risk_rank(r),
{
    match r {
        SkillRiskLevel::Low => 0,
        SkillRiskLevel::Medium => 1,
        SkillRiskLevel::High => 2,
        SkillRiskLevel::Critical => 3,
    }
}

/// A choice with its rank fields computed once.
struct RankedChoice {
    choice: ChosenSkill,
    pinned: bool,
    score: i64,
}

spec fn ranked_ok(es: Seq<CatalogEntry>, inp: SelectionInputs, r: RankedChoice) -> bool {
    &&& 0 <= r.choice.index < es.len()
    &&& r.pinned == any_pattern_matches(inp.pins@, entry_id(es[r.choice.index as int]))
    &&& r.score == score_of(es[r.choice.index as int], inp).0
}

spec fn ranked_views(v: Seq<RankedChoice>) -> Seq<ChoiceView> {
    v.map_values(|r: RankedChoice| (r.choice.index as int, strs(r.choice.reasons@)))
}

fn before(catalog: &[CatalogEntry], inp: &SelectionInputs, a: &RankedChoice, b: &RankedChoice) -> (r: bool)
    requires
        ranked_ok(catalog@, *inp, *a),
        ranked_ok(catalog@, *inp, *b),
    ensures
        r == ranked_before(catalog@, *inp, a.choice.index as int, b.choice.index as int),
{
    let ea = &catalog[a.choice.index].package.manifest;
    let eb = &catalog[b.choice.index].package.manifest;
    if a.pinned != b.pinned {
        return a.pinned;
    }
    if a.score != b.score {
        return a.score > b.score;
    }
    let ra = risk_value(ea.risk_level);
    let rb = risk_value(eb.risk_level);
    if ra != rb {
        return ra < rb;
    }
    if str_lt(ea.identity.name.as_str(), eb.identity.name.as_str()) {
        return true;
    }
    if !str_eq(ea.identity.name.as_str(), eb.identity.name.as_str()) {
        return false;
    }
    str_lt(ea.identity.version.as_str(), eb.identity.version.as_str())
}

fn rank_fields(catalog: &[CatalogEntry], inp: &SelectionInputs, c: ChosenSkill) -> (r: RankedChoice)
    requires
        inputs_bounded(catalog@, *inp),
        c.index < catalog@.len(),
    ensures
        ranked_ok(catalog@, *inp, r),
        r.choice == c,
{
    let m = &catalog[c.index].package.manifest;
    let pinned = matches_pin(&m.identity, inp.pins.as_slice());
    let (score, _) = candidate_score(m, inp.pins.as_slice(), inp.sticky_names.as_slice(), inp.input_lower.as_str());
    RankedChoice { choice: c, pinned, score }
}

proof fn lemma_choice_indices(es: Seq<CatalogEntry>, inp: SelectionInputs)
    ensures
        forall|k: int| 0 <= k < choice_log(es, inp).len() ==> 0 <= (#[trigger] choice_log(es, inp)[k]).0 < es.len(),
    decreases es.len(),
{
    if es.len() > 0 {
        lemma_choice_indices(es.drop_last(), inp);
        let prev = choice_log(es.drop_last(), inp);
        let cur = choice_log(es, inp);
        assert forall|k: int| 0 <= k < cur.len() implies 0 <= (#[trigger] cur[k]).0 < es.len() by {
            if k < prev.len() {
                assert(cur[k] == prev[k]);
            }
        }
    }
}

/// No two choices name the same catalog position.
pub open spec fn distinct_choices(s: Seq<ChoiceView>) -> bool {
    forall|i: int, j: int| 0 <= i < j < s.len() ==> (#[trigger] s[i]).0 != (#[trigger] s[j]).0
}

proof fn lemma_choice_increasing(es: Seq<CatalogEntry>, inp: SelectionInputs)
    ensures
        forall|i: int, j: int|
            0 <= i < j < choice_log(es, inp).len() ==> (#[trigger] choice_log(es, inp)[i]).0 < (#[trigger] choice_log(
                es,
                inp,
            )[j]).0,
    decreases es.len(),
{
    if es.len() > 0 {
        lemma_choice_increasing(es.drop_last(), inp);
        lemma_choice_indices(es.drop_last(), inp);
        let prev = choice_log(es.drop_last(), inp);
        let cur = choice_log(es, inp);
        assert forall|i: int, j: int| 0 <= i < j < cur.len() implies (#[trigger] cur[i]).0 < (#[trigger] cur[j]).0 by {
            if j < prev.len() {
                assert(cur[i] == prev[i] && cur[j] == prev[j]);
            } else {
                assert(cur[i] == prev[i]);
                assert(prev[i].0 < es.drop_last().len());
            }
        }
    }
}

/// Orders the choices by rank, keeping every choice.
#[verifier::rlimit(80)]
pub fn rank_choices(catalog: &[CatalogEntry], inp: &SelectionInputs, chosen: Vec<ChosenSkill>) -> (r: Vec<ChosenSkill>)
    requires
        inputs_bounded(catalog@, *inp),
        forall|k: int| 0 <= k < chosen@.len() ==> (#[trigger] chosen@[k]).index < catalog@.len(),
        distinct_choices(choice_views(chosen@)),
    ensures
        choice_views(r@).to_multiset() == choice_views(chosen@).to_multiset(),
        in_rank_order(catalog@, *inp, choice_views(r@)),
        distinct_choices(choice_views(r@)),
        forall|k: int| 0 <= k < r@.len() ==> (#[trigger] r@[k]).index < catalog@.len(),
{
    broadcast use vstd::seq_lib::group_to_multiset_ensures, vstd::multiset::group_multiset_axioms;

    let ghost es = catalog@;
    let ghost orig = choice_views(chosen@);
    let mut input = chosen;
    let mut out: Vec<RankedChoice> = Vec::new();
    proof {
        vstd::multiset::lemma_multiset_empty_len(ranked_views(out@).to_multiset());
        assert(ranked_views(out@) =~= Seq::<ChoiceView>::empty());
        assert(ranked_views(out@).to_multiset().add(choice_views(input@).to_multiset()) =~= orig.to_multiset());
    }
    while input.len() > 0
        invariant
            es == catalog@,
            inputs_bounded(catalog@, *inp),
            forall|k: int| 0 <= k < input@.len() ==> (#[trigger] input@[k]).index < catalog@.len(),
            forall|k: int| 0 <= k < out@.len() ==> ranked_ok(es, *inp, #[trigger] out@[k]),
            ranked_views(out@).to_multiset().add(choice_views(input@).to_multiset()) =~= orig.to_multiset(),
            in_rank_order(es, *inp, ranked_views(out@)),
            distinct_choices(ranked_views(out@)),
            distinct_choices(choice_views(input@)),
            forall|a: int, b: int|
                0 <= a < out@.len() && 0 <= b < input@.len() ==> (#[trigger] out@[a]).choice.index != (#[trigger] input@[b]).index,
        decreases input.len(),
    {
        let ghost before_in = input@;
        let c = input.pop().unwrap();
        proof {
            assert(before_in =~= input@.push(c));
            assert(choice_views(before_in) =~= choice_views(input@).push((c.index as int, strs(c.reasons@))));
            vstd::seq_lib::to_multiset_build(choice_views(input@), (c.index as int, strs(c.reasons@)));
            assert(c.index < catalog@.len());
            assert forall|a: int| 0 <= a < out@.len() implies (#[trigger] out@[a]).choice.index != c.index by {
                assert(before_in[input@.len() as int] == c);
            }
            assert forall|b: int| 0 <= b < input@.len() implies (#[trigger] input@[b]).index != c.index by {
                assert(before_in[b] == input@[b]);
                assert(choice_views(before_in)[b].0 != choice_views(before_in)[input@.len() as int].0);
            }
            assert(distinct_choices(choice_views(input@))) by {
                assert forall|i: int, j: int| 0 <= i < j < choice_views(input@).len() implies (#[trigger] choice_views(input@)[i]).0
                    != (#[trigger] choice_views(input@)[j]).0 by {
                    assert(choice_views(input@)[i] == choice_views(before_in)[i]);
                    assert(choice_views(input@)[j] == choice_views(before_in)[j]);
                }
            }
            assert forall|a: int, b: int|
                0 <= a < out@.len() && 0 <= b < input@.len() implies (#[trigger] out@[a]).choice.index != (#[trigger] input@[b]).index by {
                assert(before_in[b] == input@[b]);
            }
        }
        let x = rank_fields(catalog, inp, c);
        let mut k: usize = 0;
        while k < out.len() && before(catalog, inp, &out[k], &x)
            invariant
                k <= out.len(),
                forall|q: int| 0 <= q < out@.len() ==> ranked_ok(es, *inp, #[trigger] out@[q]),
                ranked_ok(es, *inp, x),
                es == catalog@,
                forall|q: int| 0 <= q < k ==> ranked_before(es, *inp, (#[trigger] out@[q]).choice.index as int, x.choice.index as int),
            decreases out.len() - k,
        {
            k = k + 1;
        }
        let ghost s = out@;
        let ghost sv = ranked_views(s);
        let ghost xv = (x.choice.index as int, strs(x.choice.reasons@));
        proof {
            if k < s.len() {
                assert(!ranked_before(es, *inp, s[k as int].choice.index as int, x.choice.index as int));
            }
            assert forall|q: int| k <= q < s.len() implies !ranked_before(es, *inp, (#[trigger] sv[q]).0, xv.0) by {
                assert(sv[q].0 == s[q].choice.index as int);
                assert(sv[k as int].0 == s[k as int].choice.index as int);
                lemma_rank_order(es, *inp, sv[k as int].0, sv[q].0, xv.0);
                lemma_rank_order(es, *inp, sv[q].0, sv[k as int].0, xv.0);
                if q > k {
                    assert(!ranked_before(es, *inp, sv[q].0, sv[k as int].0));
                }
            }
            assert forall|q: int| 0 <= q < k implies ranked_before(es, *inp, (#[trigger] sv[q]).0, xv.0) by {
                assert(sv[q].0 == s[q].choice.index as int);
            }
        }
        out.insert(k, x);
        proof {
            assert(ranked_views(out@) =~= sv.insert(k as int, xv));
            vstd::seq_lib::to_multiset_insert(sv, k as int, xv);
            assert(ranked_views(out@).to_multiset().add(choice_views(input@).to_multiset()) =~= orig.to_multiset());
            let t = sv.insert(k as int, xv);
            assert forall|a: int, b: int| 0 <= a < b < t.len() implies !ranked_before(es, *inp, #[trigger] t[b].0, #[trigger] t[a].0) by {
                if a < k && b < k {
                    assert(t[a] == sv[a] && t[b] == sv[b]);
                } else if a < k && b == k {
                    assert(t[a] == sv[a]);
                    lemma_rank_order(es, *inp, sv[a].0, xv.0, xv.0);
                } else if a < k && b > k {
                    assert(t[a] == sv[a] && t[b] == sv[b - 1]);
                } else if a == k {
                    assert(t[b] == sv[b - 1]);
                } else {
                    assert(t[a] == sv[a - 1] && t[b] == sv[b - 1]);
                }
            }
            assert forall|q: int| 0 <= q < out@.len() implies ranked_ok(es, *inp, #[trigger] out@[q]) by {
                if q < k {
                    assert(out@[q] == s[q]);
                } else if q > k {
                    assert(out@[q] == s[q - 1]);
                }
            }
            assert forall|a: int, b: int| 0 <= a < b < t.len() implies (#[trigger] t[a]).0 != (#[trigger] t[b]).0 by {
                if a < k && b < k {
                    assert(t[a] == sv[a] && t[b] == sv[b]);
                } else if a < k && b == k {
                    assert(t[a] == sv[a] && sv[a].0 == s[a].choice.index as int);
                } else if a < k && b > k {
                    assert(t[a] == sv[a] && t[b] == sv[b - 1]);
                } else if a == k {
                    assert(t[b] == sv[b - 1] && sv[b - 1].0 == s[b - 1].choice.index as int);
                } else {
                    assert(t[a] == sv[a - 1] && t[b] == sv[b - 1]);
                }
            }
            assert forall|a: int, b: int|
                0 <= a < out@.len() && 0 <= b < input@.len() implies (#[trigger] out@[a]).choice.index != (#[trigger] input@[b]).index by {
                if a < k {
                    assert(out@[a] == s[a]);
                } else if a > k {
                    assert(out@[a] == s[a - 1]);
                }
            }
        }
    }
    proof {
        vstd::multiset::lemma_multiset_empty_len(choice_views(input@).to_multiset());
        assert(ranked_views(out@).to_multiset() =~= orig.to_multiset());
    }
    let mut r: Vec<ChosenSkill> = Vec::new();
    let ghost final_views = ranked_views(out@);
    let mut i: usize = 0;
    while i < out.len()
        invariant
            i <= out.len(),
            final_views == ranked_views(out@),
            choice_views(r@) == final_views.take(i as int),
            forall|q: int| 0 <= q < out@.len() ==> ranked_ok(es, *inp, #[trigger] out@[q]),
            forall|q: int| 0 <= q < r@.len() ==> (#[trigger] r@[q]).index < es.len(),
            es == catalog@,
        decreases out.len() - i,
    {
        let ghost before_r = choice_views(r@);
        let c = &out[i];
        r.push(ChosenSkill { index: c.choice.index, reasons: copy_strings(&c.choice.reasons) });
        assert(final_views.take(i as int + 1) =~= final_views.take(i as int).push(final_views[i as int]));
        assert(choice_views(r@) =~= before_r.push(final_views[i as int]));
        i = i + 1;
    }
    assert(final_views.take(i as int) =~= final_views);
    assert(choice_views(r@) == final_views);
    r
}

/// How many skills a run may keep: the configured maximum, at least one.
pub open spec fn keep_count(max_active: usize) -> int {
    if max_active < 1 { 1 } else { max_active as int }
}

/// The choices of a catalog, best ranked first, at most `keep_count`.
pub open spec fn kept_choices(sorted: Seq<ChoiceView>, max_active: usize) -> Seq<ChoiceView> {
    if sorted.len() <= keep_count(max_active) {
        sorted
    } else {
        sorted.take(keep_count(max_active))
    }
}

/// The outcome of selection: the skipped and candidate records, and the
/// kept choices, best ranked first.
pub struct SkillChoice {
    pub skipped: Vec<SkillSkippedRecord>,
    pub candidates: Vec<SkillCandidateRecord>,
    pub chosen: Vec<ChosenSkill>,
}

/// Selects the skills of a run from a catalog: records what was left out
/// and what was scored, orders the choices by rank and keeps at most
/// `max_active` (at least one) of them.
pub fn select_skills(catalog: &[CatalogEntry], inp: &SelectionInputs) -> (r: SkillChoice)
    requires
        inputs_bounded(catalog@, *inp),
    ensures
        skip_views(r.skipped@) == skip_log(catalog@, *inp),
        candidate_views(r.candidates@) == candidate_log(catalog@, *inp),
        exists|sorted: Seq<ChoiceView>|
            #![trigger kept_choices(sorted, inp.max_active)]
            sorted.to_multiset() == choice_log(catalog@, *inp).to_multiset() && in_rank_order(catalog@, *inp, sorted)
                && choice_views(r.chosen@) == kept_choices(sorted, inp.max_active),
        distinct_choices(choice_views(r.chosen@)),
        forall|k: int| 0 <= k < r.chosen@.len() ==> (#[trigger] r.chosen@[k]).index < catalog@.len(),
{
    let pass = selection_pass(catalog, inp);
    proof {
        lemma_choice_indices(catalog@, *inp);
        lemma_choice_increasing(catalog@, *inp);
        assert forall|k: int| 0 <= k < pass.chosen@.len() implies (#[trigger] pass.chosen@[k]).index < catalog@.len() by {
            assert(choice_views(pass.chosen@)[k].0 == pass.chosen@[k].index as int);
        }
    }
    let mut chosen = rank_choices(catalog, inp, pass.chosen);
    let ghost sorted = choice_views(chosen@);
    let keep: usize = if inp.max_active < 1 { 1 } else { inp.max_active };
    let ghost full = chosen@;
    chosen.truncate(keep);
    proof {
        assert forall|k: int| 0 <= k < chosen@.len() implies (#[trigger] chosen@[k]).index < catalog@.len() by {
            assert(chosen@[k] == full[k]);
        }
        assert forall|i: int, j: int| 0 <= i < j < choice_views(chosen@).len() implies (#[trigger] choice_views(chosen@)[i]).0
            != (#[trigger] choice_views(chosen@)[j]).0 by {
            assert(choice_views(chosen@)[i] == choice_views(full)[i]);
            assert(choice_views(chosen@)[j] == choice_views(full)[j]);
        }
        if sorted.len() > keep_count(inp.max_active) {
            assert(choice_views(chosen@) =~= sorted.take(keep_count(inp.max_active)));
        } else {
            assert(choice_views(chosen@) =~= sorted);
        }
        assert(choice_views(chosen@) == kept_choices(sorted, inp.max_active));
    }
    SkillChoice { skipped: pass.skipped, candidates: pass.candidates, chosen }
}

// ----- presenting the selection -----

/// Isolated and high-risk skills run as subagents; the rest inline.
pub open spec fn execution_mode_of(m: SkillManifest) -> SkillExecutionMode {
    if m.requires_isolation || risk_rank(m.risk_level) >= risk_rank(SkillRiskLevel::High) {
        SkillExecutionMode::Subagent
    } else {
        SkillExecutionMode::Inline
    }
}

/// How a selected skill runs.
pub fn execution_mode_for(m: &SkillManifest) -> (r: SkillExecutionMode)
    ensures
        r == execution_mode_of(*m),
{
    if m.requires_isolation || risk_value(m.risk_level) >= 2 {
        SkillExecutionMode::Subagent
    } else {
        SkillExecutionMode::Inline
    }
}

/// The names of a package's tools.
pub fn tool_names(p: &SkillPackage) -> (r: Vec<String>)
    ensures
        strs(r@) == p.tools@.map_values(|t: crate::skills::SkillToolSpec| t.name@),
{
    let ghost names = p.tools@.map_values(|t: crate::skills::SkillToolSpec| t.name@);
    let mut out: Vec<String> = Vec::new();
    let mut i: usize = 0;
    while i < p.tools.len()
        invariant
            i <= p.tools.len(),
            names == p.tools@.map_values(|t: crate::skills::SkillToolSpec| t.name@),
            strs(out@) == names.take(i as int),
        decreases p.tools.len() - i,
    {
        let ghost before = strs(out@);
        out.push(p.tools[i].name.clone());
        assert(names.take(i as int + 1) =~= names.take(i as int).push(names[i as int]));
        assert(strs(out@) =~= before.push(names[i as int]));
        i = i + 1;
    }
    assert(names.take(i as int) =~= names);
    out
}

/// The record of a selected entry: its identity, description and source,
/// the reasons it was chosen, the fragments the request calls for, its tool
/// names, how it runs, its review status and content hash.
pub fn selected_record(e: &CatalogEntry, reasons: Vec<String>, input_lower: &str) -> (r: SkillSelectedRecord)
    ensures
        r.identity == entry_id(*e),
        r.description@ == e.package.manifest.description@,
        r.source@ == e.package.manifest.source@,
        r.reasons == reasons,
        strs(r.fragments@) == chosen_fragments(e.package.fragments, input_lower@),
        strs(r.tool_names@) == e.package.tools@.map_values(|t: crate::skills::SkillToolSpec| t.name@),
        r.execution_mode == execution_mode_of(e.package.manifest),
        r.governance.status == e.package.governance.status,
        match e.content_hash {
            Some(h) => r.content_hash matches Some(x) && x@ == h@,
            None => r.content_hash is None,
        },
{
    SkillSelectedRecord {
        identity: e.package.manifest.identity.clone(),
        description: e.package.manifest.description.clone(),
        source: e.package.manifest.source.clone(),
        reasons,
        fragments: choose_fragments(&e.package.fragments, input_lower),
        tool_names: tool_names(&e.package),
        execution_mode: execution_mode_for(&e.package.manifest),
        governance: copy_governance(&e.package.governance),
        content_hash: match &e.content_hash {
            Some(h) => Some(h.clone()),
            None => None,
        },
    }
}

/// The summary line of a selected skill, with its fragments when it has any.
pub open spec fn summary_line(s: SkillSelectedRecord) -> Seq<char> {
    "- "@ + identity_key(s.identity.name@, s.identity.version@) + ": "@ + s.description@ + " (source: "@ + s.source@
        + ")\n"@ + if s.fragments@.len() > 0 {
        "  Selected fragments: "@ + joined(strs(s.fragments@), ", "@) + "\n"@
    } else {
        Seq::empty()
    }
}

pub open spec fn summary_lines(sel: Seq<SkillSelectedRecord>) -> Seq<char>
    decreases sel.len(),
{
    if sel.len() == 0 {
        Seq::empty()
    } else {
        summary_lines(sel.drop_last()) + summary_line(sel.last())
    }
}

/// Two identities name the same skill version.
pub open spec fn same_identity(a: SkillIdentity, b: SkillIdentity) -> bool {
    a.name@ == b.name@ && a.version@ == b.version@
}

/// The first package with the given identity.
pub open spec fn package_index(ps: Seq<SkillPackage>, id: SkillIdentity) -> Option<int> {
    if exists|i: int| 0 <= i < ps.len() && #[trigger] same_identity(ps[i].manifest.identity, id) {
        Some(choose|i: int| 0 <= i < ps.len() && same_identity(ps[i].manifest.identity, id) && forall|j: int|
            0 <= j < i ==> !#[trigger] same_identity(ps[j].manifest.identity, id))
    } else {
        None
    }
}

/// The named fragments of a set that are present, each under its heading.
pub open spec fn fragment_sections(f: SkillFragmentSet, names: Seq<Seq<char>>) -> Seq<char>
    decreases names.len(),
{
    if names.len() == 0 {
        Seq::empty()
    } else {
        fragment_sections(f, names.drop_last()) + match f.fragment(names.last()) {
            Some(c) => "#### "@ + names.last() + "\n"@ + trim(c@) + "\n"@,
            None => Seq::empty(),
        }
    }
}

/// The detail section of a selected skill: its fragments, when it has any
/// and its package is among the packages.
#[verifier::opaque]
pub open spec fn detail_section(s: SkillSelectedRecord, ps: Seq<SkillPackage>) -> Seq<char> {
    if s.fragments@.len() > 0 && package_index(ps, s.identity) is Some {
        "### "@ + identity_key(s.identity.name@, s.identity.version@) + "\n"@ + fragment_sections(
            ps[package_index(ps, s.identity)->0].fragments,
            strs(s.fragments@),
        )
    } else {
        Seq::empty()
    }
}

pub open spec fn detail_sections(sel: Seq<SkillSelectedRecord>, ps: Seq<SkillPackage>) -> Seq<char>
    decreases sel.len(),
{
    if sel.len() == 0 {
        Seq::empty()
    } else {
        detail_sections(sel.drop_last(), ps) + detail_section(sel.last(), ps)
    }
}

/// The skills block shown to the provider: a marker and heading, a summary
/// line per selected skill, then the chosen fragments of each.
pub open spec fn injection_text(sel: Seq<SkillSelectedRecord>, ps: Seq<SkillPackage>) -> Seq<char> {
    "DEEPAGENTS_SKILLS_INJECTED_V2\n## Skills\n"@ + summary_lines(sel) + detail_sections(sel, ps)
}

fn find_package(ps: &[SkillPackage], id: &SkillIdentity) -> (r: Option<usize>)
    ensures
        match r {
            Some(i) => i < ps@.len() && package_index(ps@, *id) == Some(i as int),
            None => package_index(ps@, *id) is None,
        },
{
    let mut i: usize = 0;
    while i < ps.len()
        invariant
            i <= ps.len(),
            forall|j: int| 0 <= j < i ==> !#[trigger] same_identity(ps@[j].manifest.identity, *id),
        decreases ps.len() - i,
    {
        let pid = &ps[i].manifest.identity;
        if str_eq(pid.name.as_str(), id.name.as_str()) && str_eq(pid.version.as_str(), id.version.as_str()) {
            assert(same_identity(ps@[i as int].manifest.identity, *id));
            let ghost c = choose|c: int| 0 <= c < ps@.len() && same_identity(ps@[c].manifest.identity, *id) && forall|j: int|
                0 <= j < c ==> !#[trigger] same_identity(ps@[j].manifest.identity, *id);
            assert(c == i as int) by {
                if c < i {
                    assert(!same_identity(ps@[c].manifest.identity, *id));
                }
                if c > i {
                    assert(!same_identity(ps@[i as int].manifest.identity, *id));
                }
            }
            return Some(i);
        }
        i = i + 1;
    }
    None
}

fn push_fragment_sections(out: &mut String, f: &SkillFragmentSet, names: &Vec<String>)
    ensures
        final(out)@ == old(out)@ + fragment_sections(*f, strs(names@)),
{
    let ghost nv = strs(names@);
    let mut i: usize = 0;
    while i < names.len()
        invariant
            i <= names.len(),
            nv == strs(names@),
            out@ == old(out)@ + fragment_sections(*f, nv.take(i as int)),
        decreases names.len() - i,
    {
        assert(nv.take(i as int + 1).drop_last() =~= nv.take(i as int));
        assert(nv.take(i as int + 1).last() == names@[i as int]@);
        match f.get(names[i].as_str()) {
            Some(content) => {
                push_str(out, "#### ");
                push_str(out, names[i].as_str());
                push_str(out, "\n");
                let t = str_trim(content);
                push_str(out, t.as_str());
                push_str(out, "\n");
            },
            None => {},
        }
        i = i + 1;
    }
    assert(nv.take(i as int) =~= nv);
}

fn push_summary_line(out: &mut String, s: &SkillSelectedRecord)
    ensures
        final(out)@ == old(out)@ + summary_line(*s),
{
    let ghost start = out@;
    let key = s.identity.as_key();
    let mut line = owned("- ");
    push_str(&mut line, key.as_str());
    push_str(&mut line, ": ");
    push_str(&mut line, s.description.as_str());
    push_str(&mut line, " (source: ");
    push_str(&mut line, s.source.as_str());
    push_str(&mut line, ")\n");
    let ghost first = line@;
    if s.fragments.len() > 0 {
        let j = join(s.fragments.as_slice(), ", ");
        push_str(&mut line, "  Selected fragments: ");
        push_str(&mut line, j.as_str());
        push_str(&mut line, "\n");
        assert(line@ =~= first + ("  Selected fragments: "@ + joined(strs(s.fragments@), ", "@) + "\n"@));
    } else {
        assert(line@ =~= first + Seq::<char>::empty());
    }
    assert(line@ =~= summary_line(*s));
    push_str(out, line.as_str());
}

fn push_detail_section(out: &mut String, s: &SkillSelectedRecord, packages: &[SkillPackage])
    ensures
        final(out)@ == old(out)@ + detail_section(*s, packages@),
{
    reveal(detail_section);
    if s.fragments.len() > 0 {
        match find_package(packages, &s.identity) {
            Some(p) => {
                let mut sec = owned("### ");
                let key = s.identity.as_key();
                push_str(&mut sec, key.as_str());
                push_str(&mut sec, "\n");
                let ghost head = sec@;
                push_fragment_sections(&mut sec, &packages[p].fragments, &s.fragments);
                assert(sec@ =~= detail_section(*s, packages@));
                push_str(out, sec.as_str());
            },
            None => {
                assert(detail_section(*s, packages@) =~= Seq::<char>::empty());
                assert(out@ =~= old(out)@ + Seq::<char>::empty());
            },
        }
    } else {
        assert(out@ =~= old(out)@ + Seq::<char>::empty());
    }
}

/// The skills block for the selected records and the selected packages.
pub fn build_injection_block(selected: &[SkillSelectedRecord], packages: &[SkillPackage]) -> (r: String)
    ensures
        r@ == injection_text(selected@, packages@),
{
    let mut out = owned("DEEPAGENTS_SKILLS_INJECTED_V2\n## Skills\n");
    let ghost head = out@;
    let mut i: usize = 0;
    while i < selected.len()
        invariant
            i <= selected.len(),
            out@ == head + summary_lines(selected@.take(i as int)),
        decreases selected.len() - i,
    {
        let ghost before = out@;
        push_summary_line(&mut out, &selected[i]);
        proof {
            let t = selected@.take(i as int + 1);
            assert(t.drop_last() =~= selected@.take(i as int));
            assert(t.last() == selected@[i as int]);
            assert(summary_lines(t) == summary_lines(selected@.take(i as int)) + summary_line(selected@[i as int]));
            assert(out@ =~= head + summary_lines(t));
        }
        i = i + 1;
    }
    assert(selected@.take(i as int) =~= selected@);
    let ghost mid = out@;
    let mut i: usize = 0;
    while i < selected.len()
        invariant
            i <= selected.len(),
            out@ == mid + detail_sections(selected@.take(i as int), packages@),
        decreases selected.len() - i,
    {
        push_detail_section(&mut out, &selected[i], packages);
        proof {
            let t = selected@.take(i as int + 1);
            assert(t.drop_last() =~= selected@.take(i as int));
            assert(t.last() == selected@[i as int]);
            assert(detail_sections(t, packages@) == detail_sections(selected@.take(i as int), packages@) + detail_section(
                selected@[i as int],
                packages@,
            ));
            assert(out@ =~= mid + detail_sections(t, packages@));
        }
        i = i + 1;
    }
    assert(selected@.take(i as int) =~= selected@);
    assert(out@ =~= injection_text(selected@, packages@));
    out
}

// ----- the snapshot -----

fn copy_opt(o: &Option<String>) -> (r: Option<String>)
    ensures
        match *o {
            Some(a) => r matches Some(b) && b@ == a@,
            None => r is None,
        },
{
    match o {
        Some(a) => Some(a.clone()),
        None => None,
    }
}

/// A copy of the metadata of a package.
pub fn copy_metadata(m: &SkillMetadata) -> (r: SkillMetadata)
    ensures
        r.name@ == m.name@,
        r.version@ == m.version@,
        r.description@ == m.description@,
        r.path@ == m.path@,
        r.source@ == m.source@,
        strs(r.allowed_tools@) == strs(m.allowed_tools@),
{
    SkillMetadata {
        name: m.name.clone(),
        version: m.version.clone(),
        description: m.description.clone(),
        path: m.path.clone(),
        source: m.source.clone(),
        license: copy_opt(&m.license),
        compatibility: copy_opt(&m.compatibility),
        metadata: m.metadata.clone(),
        allowed_tools: copy_strings(&m.allowed_tools),
    }
}

fn copy_policy(p: &SkillToolPolicy) -> (r: SkillToolPolicy)
    ensures
        r.allow_filesystem == p.allow_filesystem,
        r.allow_execute == p.allow_execute,
        r.allow_network == p.allow_network,
        r.max_steps == p.max_steps,
        r.timeout_ms == p.timeout_ms,
        r.max_output_chars == p.max_output_chars,
{
    SkillToolPolicy {
        allow_filesystem: p.allow_filesystem,
        allow_execute: p.allow_execute,
        allow_network: p.allow_network,
        max_steps: p.max_steps,
        timeout_ms: p.timeout_ms,
        max_output_chars: p.max_output_chars,
    }
}

/// A step as plain values.
pub open spec fn step_view(s: SkillToolStep) -> (Seq<char>, serde_json::Value) {
    (s.tool_name@, s.arguments)
}

/// The plain values of a tool that the selection shows: name, description,
/// input schema, steps, owning skill and version, source, isolation.
pub type ToolView = (Seq<char>, Seq<char>, serde_json::Value, Seq<(Seq<char>, serde_json::Value)>, Seq<char>, Seq<char>, Seq<char>, bool);

pub open spec fn tool_view(t: SkillToolSpec) -> ToolView {
    (
        t.name@,
        t.description@,
        t.input_schema,
        t.steps@.map_values(|s: SkillToolStep| step_view(s)),
        t.skill_name@,
        t.skill_version@,
        t.source@,
        t.requires_isolation,
    )
}

pub open spec fn tool_views(ts: Seq<SkillToolSpec>) -> Seq<ToolView> {
    ts.map_values(|t: SkillToolSpec| tool_view(t))
}

/// The tool view with the isolation flag replaced.
pub open spec fn isolated(v: ToolView, isolation: bool) -> ToolView {
    (v.0, v.1, v.2, v.3, v.4, v.5, v.6, isolation)
}

pub open spec fn isolated_all(vs: Seq<ToolView>, isolation: bool) -> Seq<ToolView> {
    vs.map_values(|v: ToolView| isolated(v, isolation))
}

/// A copy of a tool, isolated or not as given.
pub fn copy_tool(t: &SkillToolSpec, requires_isolation: bool) -> (r: SkillToolSpec)
    ensures
        tool_view(r) == isolated(tool_view(*t), requires_isolation),
        r.policy.allow_filesystem == t.policy.allow_filesystem,
        r.policy.allow_execute == t.policy.allow_execute,
{
    let mut steps: Vec<SkillToolStep> = Vec::new();
    let mut i: usize = 0;
    while i < t.steps.len()
        invariant
            i <= t.steps.len(),
            steps@.map_values(|s: SkillToolStep| step_view(s)) == t.steps@.take(i as int).map_values(
                |s: SkillToolStep| step_view(s),
            ),
        decreases t.steps.len() - i,
    {
        let st = &t.steps[i];
        let ghost before = steps@;
        steps.push(SkillToolStep { tool_name: st.tool_name.clone(), arguments: st.arguments.clone() });
        assert(t.steps@.take(i as int + 1) =~= t.steps@.take(i as int).push(t.steps@[i as int]));
        assert(steps@.map_values(|s: SkillToolStep| step_view(s)) =~= before.map_values(|s: SkillToolStep| step_view(s)).push(
            step_view(t.steps@[i as int]),
        ));
        i = i + 1;
    }
    assert(t.steps@.take(i as int) =~= t.steps@);
    SkillToolSpec {
        name: t.name.clone(),
        description: t.description.clone(),
        input_schema: t.input_schema.clone(),
        steps,
        policy: copy_policy(&t.policy),
        skill_name: t.skill_name.clone(),
        skill_version: t.skill_version.clone(),
        source: t.source.clone(),
        requires_isolation,
    }
}

/// The tools a snapshot shows for the chosen entries, in choice order, each
/// isolated exactly when its skill runs as a subagent.
pub open spec fn snapshot_tools(es: Seq<CatalogEntry>, cs: Seq<ChoiceView>) -> Seq<ToolView>
    decreases cs.len(),
{
    if cs.len() == 0 {
        Seq::empty()
    } else {
        let e = es[cs.last().0];
        snapshot_tools(es, cs.drop_last()) + isolated_all(
            tool_views(e.package.tools@),
            execution_mode_of(e.package.manifest) == SkillExecutionMode::Subagent,
        )
    }
}

/// The selected record made for a choice (see [`selected_record`]).
pub open spec fn record_for(r: SkillSelectedRecord, e: CatalogEntry, reasons: Seq<Seq<char>>, input_lower: Seq<char>) -> bool {
    &&& r.identity == entry_id(e)
    &&& r.description@ == e.package.manifest.description@
    &&& r.source@ == e.package.manifest.source@
    &&& strs(r.reasons@) == reasons
    &&& strs(r.fragments@) == chosen_fragments(e.package.fragments, input_lower)
    &&& strs(r.tool_names@) == e.package.tools@.map_values(|t: SkillToolSpec| t.name@)
    &&& r.execution_mode == execution_mode_of(e.package.manifest)
    &&& r.governance.status == e.package.governance.status
    &&& match e.content_hash {
        Some(h) => r.content_hash matches Some(x) && x@ == h@,
        None => r.content_hash is None,
    }
}

/// Builds the snapshot of a selection: per choice, in order, its selected
/// record, metadata, tools (isolated for subagent skills) and package; the
/// report of what was skipped and scored; and the skills block. The
/// snapshot id is left empty.
#[verifier::rlimit(60)]
pub fn assemble_snapshot(catalog: Vec<CatalogEntry>, choice: SkillChoice, input_lower: &str) -> (r: ResolvedSkillSnapshot)
    requires
        distinct_choices(choice_views(choice.chosen@)),
        forall|k: int| 0 <= k < choice.chosen@.len() ==> (#[trigger] choice.chosen@[k]).index < catalog@.len(),
    ensures
        r.snapshot_id@ == Seq::<char>::empty(),
        r.selection.skipped == choice.skipped,
        r.selection.candidates == choice.candidates,
        r.selection.selected@.len() == choice.chosen@.len(),
        r.packages@.len() == choice.chosen@.len(),
        r.metadata@.len() == choice.chosen@.len(),
        forall|k: int|
            0 <= k < choice.chosen@.len() ==> {
                let e = catalog@[choice.chosen@[k].index as int];
                &&& record_for(#[trigger] r.selection.selected@[k], e, strs(choice.chosen@[k].reasons@), input_lower@)
                &&& r.packages@[k] == e.package
                &&& r.metadata@[k].name@ == e.package.metadata.name@
                &&& r.metadata@[k].version@ == e.package.metadata.version@
                &&& r.metadata@[k].source@ == e.package.metadata.source@
            },
        tool_views(r.tools@) == snapshot_tools(catalog@, choice_views(choice.chosen@)),
        r.injection_block@ == injection_text(r.selection.selected@, r.packages@),
{
    let ghost es = catalog@;
    let ghost cs = choice_views(choice.chosen@);
    let mut rest = catalog;
    let mut slots: Vec<Option<CatalogEntry>> = Vec::new();
    while rest.len() > 0
        invariant
            slots@.len() + rest@.len() == es.len(),
            rest@ == es.skip(slots@.len() as int),
            forall|q: int| 0 <= q < slots@.len() ==> #[trigger] slots@[q] == Some(es[q]),
        decreases rest.len(),
    {
        let e = rest.remove(0);
        proof {
            assert(e == es[slots@.len() as int]);
        }
        slots.push(Some(e));
        assert(rest@ =~= es.skip(slots@.len() as int));
    }
    let SkillChoice { skipped, candidates, chosen } = choice;
    let mut selected: Vec<SkillSelectedRecord> = Vec::new();
    let mut metadata: Vec<SkillMetadata> = Vec::new();
    let mut tools: Vec<SkillToolSpec> = Vec::new();
    let mut packages: Vec<crate::skills::SkillPackage> = Vec::new();
    let mut i: usize = 0;
    proof {
        assert(tool_views(tools@) =~= snapshot_tools(es, cs.take(0)));
    }
    while i < chosen.len()
        invariant
            i <= chosen.len(),
            cs == choice_views(chosen@),
            slots@.len() == es.len(),
            distinct_choices(cs),
            forall|k: int| 0 <= k < chosen@.len() ==> (#[trigger] chosen@[k]).index < es.len(),
            forall|k: int| i <= k < chosen@.len() ==> slots@[(#[trigger] chosen@[k]).index as int] == Some(es[chosen@[k].index as int]),
            selected@.len() == i,
            packages@.len() == i,
            metadata@.len() == i,
            forall|k: int|
                0 <= k < i ==> {
                    let e = es[chosen@[k].index as int];
                    &&& record_for(#[trigger] selected@[k], e, strs(chosen@[k].reasons@), input_lower@)
                    &&& packages@[k] == e.package
                    &&& metadata@[k].name@ == e.package.metadata.name@
                    &&& metadata@[k].version@ == e.package.metadata.version@
                    &&& metadata@[k].source@ == e.package.metadata.source@
                },
            tool_views(tools@) == snapshot_tools(es, cs.take(i as int)),
        decreases chosen.len() - i,
    {
        let idx = chosen[i].index;
        let ghost before_slots = slots@;
        let slot = slots.remove(idx);
        slots.insert(idx, None);
        proof {
            assert(slot == Some(es[idx as int]));
            assert forall|k: int| i < k < chosen@.len() implies slots@[(#[trigger] chosen@[k]).index as int] == Some(
                es[chosen@[k].index as int],
            ) by {
                assert(cs[i as int].0 != cs[k].0);
                assert(cs[i as int].0 == idx as int);
                assert(cs[k].0 == chosen@[k].index as int);
                assert(slots@[chosen@[k].index as int] == before_slots[chosen@[k].index as int]);
            }
        }
        match slot {
            Some(e) => {
                let reasons = copy_strings(&chosen[i].reasons);
                let rec = selected_record(&e, reasons, input_lower);
                let subagent = rec.execution_mode == SkillExecutionMode::Subagent;
                let ghost tools_before = tools@;
                let mut t: usize = 0;
                while t < e.package.tools.len()
                    invariant
                        t <= e.package.tools.len(),
                        tool_views(tools@) == tool_views(tools_before) + isolated_all(
                            tool_views(e.package.tools@.take(t as int)),
                            subagent,
                        ),
                    decreases e.package.tools.len() - t,
                {
                    let ghost tb = tools@;
                    tools.push(copy_tool(&e.package.tools[t], subagent));
                    assert(e.package.tools@.take(t as int + 1) =~= e.package.tools@.take(t as int).push(
                        e.package.tools@[t as int],
                    ));
                    assert(tool_views(tools@) =~= tool_views(tb).push(isolated(tool_view(e.package.tools@[t as int]), subagent)));
                    assert(isolated_all(tool_views(e.package.tools@.take(t as int + 1)), subagent) =~= isolated_all(
                        tool_views(e.package.tools@.take(t as int)),
                        subagent,
                    ).push(isolated(tool_view(e.package.tools@[t as int]), subagent)));
                    t = t + 1;
                }
                assert(e.package.tools@.take(t as int) =~= e.package.tools@);
                metadata.push(copy_metadata(&e.package.metadata));
                selected.push(rec);
                packages.push(e.package);
                proof {
                    let ct = cs.take(i as int + 1);
                    assert(ct.drop_last() =~= cs.take(i as int));
                    assert(ct.last() == cs[i as int]);
                    assert(cs[i as int].0 == idx as int);
                    assert(tool_views(tools@) =~= snapshot_tools(es, ct));
                }
            },
            None => {
                assert(false);
            },
        }
        i = i + 1;
    }
    assert(cs.take(i as int) =~= cs);
    let block = build_injection_block(selected.as_slice(), packages.as_slice());
    ResolvedSkillSnapshot {
        snapshot_id: String::new(),
        metadata,
        tools,
        packages,
        selection: SkillSelectionReport { candidates, selected, skipped },
        injection_block: block,
    }
}

// ----- resolution -----

/// A pattern as plain values.
pub open spec fn pattern_view(p: (String, Option<String>)) -> (Seq<char>, Option<Seq<char>>) {
    (p.0@, opt_str_view(p.1))
}

/// What a list of `name` / `name@version` tokens reads as: every pattern,
/// or the error of the first token that is not one.
pub open spec fn patterns_of(tokens: Seq<Seq<char>>) -> Result<Seq<(Seq<char>, Option<Seq<char>>)>, Seq<char>>
    decreases tokens.len(),
{
    if tokens.len() == 0 {
        Ok(Seq::empty())
    } else {
        match patterns_of(tokens.drop_last()) {
            Err(e) => Err(e),
            Ok(ps) => match identity_token(tokens.last()) {
                Ok(p) => Ok(ps.push(p)),
                Err(e) => Err(e),
            },
        }
    }
}

/// Reads pin or disable tokens; the first bad token is the error.
pub fn parse_patterns(tokens: &[String]) -> (r: Result<Vec<(String, Option<String>)>, String>)
    ensures
        match (r, patterns_of(strs(tokens@))) {
            (Ok(ps), Ok(sp)) => ps@.map_values(|p: (String, Option<String>)| pattern_view(p)) == sp,
            (Err(e), Err(se)) => e@ == se,
            _ => false,
        },
{
    let ghost tv = strs(tokens@);
    let mut out: Vec<(String, Option<String>)> = Vec::new();
    let mut i: usize = 0;
    assert(tv.take(0) =~= Seq::<Seq<char>>::empty());
    assert(out@.map_values(|p: (String, Option<String>)| pattern_view(p)) =~= Seq::<(Seq<char>, Option<Seq<char>>)>::empty());
    while i < tokens.len()
        invariant
            i <= tokens.len(),
            tv == strs(tokens@),
            patterns_of(tv.take(i as int)) == Ok::<Seq<(Seq<char>, Option<Seq<char>>)>, Seq<char>>(
                out@.map_values(|p: (String, Option<String>)| pattern_view(p)),
            ),
        decreases tokens.len() - i,
    {
        let ghost t = tv.take(i as int + 1);
        assert(t.drop_last() =~= tv.take(i as int));
        assert(t.last() == tokens@[i as int]@);
        match parse_identity_token(tokens[i].as_str()) {
            Ok(p) => {
                let ghost before = out@.map_values(|p: (String, Option<String>)| pattern_view(p));
                out.push(p);
                assert(out@.map_values(|p: (String, Option<String>)| pattern_view(p)) =~= before.push(pattern_view(p)));
            },
            Err(e) => {
                proof {
                    lemma_patterns_err_stays(tv, i as int + 1, e@);
                }
                return Err(e);
            },
        }
        i = i + 1;
    }
    assert(tv.take(i as int) =~= tv);
    Ok(out)
}

proof fn lemma_patterns_err_stays(tv: Seq<Seq<char>>, n: int, e: Seq<char>)
    requires
        0 <= n <= tv.len(),
        patterns_of(tv.take(n)) == Err::<Seq<(Seq<char>, Option<Seq<char>>)>, Seq<char>>(e),
    ensures
        patterns_of(tv) == Err::<Seq<(Seq<char>, Option<Seq<char>>)>, Seq<char>>(e),
    decreases tv.len() - n,
{
    if n < tv.len() {
        assert(tv.take(n + 1).drop_last() =~= tv.take(n));
        lemma_patterns_err_stays(tv, n + 1, e);
    } else {
        assert(tv.take(n) =~= tv);
    }
}

/// Selection runs unless it is off.
pub fn selection_enabled(mode: SkillSelectionMode) -> (r: bool)
    ensures
        r == (mode != SkillSelectionMode::Off),
{
    !matches!(mode, SkillSelectionMode::Off)
}

/// Source compatibility: skills given only as sources (no registry) and no
/// pins are all selected.
pub fn source_compat(has_registry: bool, has_sources: bool, pins: &Vec<(String, Option<String>)>) -> (r: bool)
    ensures
        r == (!has_registry && has_sources && pins@.len() == 0),
{
    !has_registry && has_sources && pins.len() == 0
}

/// The snapshot of a catalog: none for an empty catalog, otherwise the
/// assembled selection.
pub fn resolve_selection(catalog: Vec<CatalogEntry>, inp: &SelectionInputs) -> (r: Option<ResolvedSkillSnapshot>)
    requires
        inputs_bounded(catalog@, *inp),
    ensures
        catalog@.len() == 0 <==> r is None,
        r matches Some(s) ==> skip_views(s.selection.skipped@) == skip_log(catalog@, *inp) && candidate_views(
            s.selection.candidates@,
        ) == candidate_log(catalog@, *inp) && s.injection_block@ == injection_text(s.selection.selected@, s.packages@),
        r matches Some(s) ==> exists|sorted: Seq<ChoiceView>|
            #![trigger kept_choices(sorted, inp.max_active)]
            sorted.to_multiset() == choice_log(catalog@, *inp).to_multiset() && in_rank_order(catalog@, *inp, sorted)
                && s.selection.selected@.len() == kept_choices(sorted, inp.max_active).len() && forall|k: int|
                0 <= k < s.selection.selected@.len() ==> record_for(
                    #[trigger] s.selection.selected@[k],
                    catalog@[kept_choices(sorted, inp.max_active)[k].0],
                    kept_choices(sorted, inp.max_active)[k].1,
                    inp.input_lower@,
                ),
{
    if catalog.len() == 0 {
        return None;
    }
    let choice = select_skills(catalog.as_slice(), inp);
    let ghost es = catalog@;
    let ghost cv = choice_views(choice.chosen@);
    let snap = assemble_snapshot(catalog, choice, inp.input_lower.as_str());
    proof {
        assert forall|k: int| 0 <= k < snap.selection.selected@.len() implies record_for(
            #[trigger] snap.selection.selected@[k],
            es[cv[k].0],
            cv[k].1,
            inp.input_lower@,
        ) by {
        }
    }
    Some(snap)
}

} // verus!
