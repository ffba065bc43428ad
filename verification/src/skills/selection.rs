//! Deterministic skill selection: pins, scores, reasons and fragments.
use vstd::prelude::*;

use crate::skills::loader::SkillsLoadOptions;
use crate::skills::{identity_key, SkillFragmentSet, SkillIdentity, SkillManifest};
use crate::text::{byte_len, str_bytes_at_least, contains, joined, lower, owned, push_str, split_whitespace, str_byte_len, str_contains, str_eq, to_lower, ws_split, join};
use crate::types::{Message, opt_str_view};

verus! {

/// How skills are selected for a run.
#[derive(Debug, Clone, Copy, PartialEq, Eq, Default, Structural)]
pub enum SkillSelectionMode {
    /// No skill at all.
    Off,
    /// Only pinned skills.
    Manual,
    /// Deterministic routing.
    #[default]
    Auto,
}

/// Options of snapshot resolution and selection.
#[derive(Debug, Clone)]
pub struct SkillResolverOptions {
    pub registry_dir: Option<String>,
    pub sources: Vec<String>,
    pub source_options: SkillsLoadOptions,
    pub explicit_skills: Vec<String>,
    pub disabled_skills: Vec<String>,
    pub selection_mode: SkillSelectionMode,
    pub max_active: usize,
    pub refresh_snapshot: bool,
}

impl Default for SkillResolverOptions {
    fn default() -> (r: Self)
        ensures
            r.registry_dir is None,
            r.sources@.len() == 0,
            r.explicit_skills@.len() == 0,
            r.disabled_skills@.len() == 0,
            r.selection_mode == SkillSelectionMode::Auto,
            r.max_active == 3,
            !r.refresh_snapshot,
    {
        SkillResolverOptions {
            registry_dir: None,
            sources: Vec::new(),
            source_options: SkillsLoadOptions::default(),
            explicit_skills: Vec::new(),
            disabled_skills: Vec::new(),
            selection_mode: SkillSelectionMode::Auto,
            max_active: 3,
            refresh_snapshot: false,
        }
    }
}

/// A `name` or `name@version` pattern matches the identity.
pub open spec fn pattern_matches(p: (String, Option<String>), id: SkillIdentity) -> bool {
    id.name@ == p.0@ && match p.1 {
        Some(v) => v@ == id.version@,
        None => true,
    }
}

/// Some pattern of the list matches the identity.
pub open spec fn any_pattern_matches(ps: Seq<(String, Option<String>)>, id: SkillIdentity) -> bool {
    exists|k: int| 0 <= k < ps.len() && #[trigger] pattern_matches(ps[k], id)
}

fn any_matches(identity: &SkillIdentity, patterns: &[(String, Option<String>)]) -> (r: bool)
    ensures
        r == any_pattern_matches(patterns@, *identity),
{
    let mut k: usize = 0;
    while k < patterns.len()
        invariant
            k <= patterns.len(),
            forall|j: int| 0 <= j < k ==> !#[trigger] pattern_matches(patterns@[j], *identity),
        decreases patterns.len() - k,
    {
        let (name, version) = &patterns[k];
        let m = str_eq(identity.name.as_str(), name.as_str()) && match version {
            Some(v) => str_eq(v.as_str(), identity.version.as_str()),
            None => true,
        };
        if m {
            assert(pattern_matches(patterns@[k as int], *identity));
            return true;
        }
        k = k + 1;
    }
    false
}

/// The identity is pinned by one of the patterns.
pub fn matches_pin(identity: &SkillIdentity, pins: &[(String, Option<String>)]) -> (r: bool)
    ensures
        r == any_pattern_matches(pins@, *identity),
{
    any_matches(identity, pins)
}

/// The identity is disabled by one of the patterns.
pub fn matches_disable(identity: &SkillIdentity, disables: &[(String, Option<String>)]) -> (r: bool)
    ensures
        r == any_pattern_matches(disables@, *identity),
{
    any_matches(identity, disables)
}

/// The strings with every repeat of an earlier one removed.
pub open spec fn first_occurrences(s: Seq<Seq<char>>) -> Seq<Seq<char>>
    decreases s.len(),
{
    if s.len() == 0 {
        Seq::empty()
    } else {
        let init = s.drop_last();
        if init.contains(s.last()) {
            first_occurrences(init)
        } else {
            first_occurrences(init).push(s.last())
        }
    }
}

proof fn lemma_push_contains(s: Seq<Seq<char>>, a: Seq<char>, x: Seq<char>)
    ensures
        s.push(a).contains(x) <==> (s.contains(x) || x == a),
{
    if s.contains(x) {
        let j = choose|j: int| 0 <= j < s.len() && s[j] == x;
        assert(s.push(a)[j] == x);
    }
    if x == a {
        assert(s.push(a)[s.len() as int] == x);
    }
    if s.push(a).contains(x) {
        let j = choose|j: int| 0 <= j < s.push(a).len() && s.push(a)[j] == x;
        if j < s.len() {
            assert(s[j] == x);
        }
    }
}

proof fn lemma_first_occurrences_elems(s: Seq<Seq<char>>)
    ensures
        forall|x: Seq<char>| first_occurrences(s).contains(x) <==> s.contains(x),
    decreases s.len(),
{
    if s.len() > 0 {
        let init = s.drop_last();
        lemma_first_occurrences_elems(init);
        assert(s =~= init.push(s.last()));
        assert forall|x: Seq<char>| first_occurrences(s).contains(x) <==> s.contains(x) by {
            lemma_push_contains(init, s.last(), x);
            lemma_push_contains(first_occurrences(init), s.last(), x);
        }
    }
}

fn contains_string(v: &Vec<String>, x: &str) -> (r: bool)
    ensures
        r == v@.map_values(|s: String| s@).contains(x@),
{
    let ghost vv = v@.map_values(|s: String| s@);
    let mut k: usize = 0;
    while k < v.len()
        invariant
            k <= v.len(),
            vv == v@.map_values(|s: String| s@),
            forall|j: int| 0 <= j < k ==> vv[j] != x@,
        decreases v.len() - k,
    {
        if str_eq(v[k].as_str(), x) {
            assert(vv[k as int] == x@);
            return true;
        }
        k = k + 1;
    }
    false
}

/// Drops repeated reasons, keeping the first of each.
pub fn dedup_reasons(reasons: Vec<String>) -> (r: Vec<String>)
    ensures
        r@.map_values(|s: String| s@) == first_occurrences(reasons@.map_values(|s: String| s@)),
{
    let ghost rv = reasons@.map_values(|s: String| s@);
    let mut out: Vec<String> = Vec::new();
    let mut i: usize = 0;
    while i < reasons.len()
        invariant
            i <= reasons.len(),
            rv == reasons@.map_values(|s: String| s@),
            out@.map_values(|s: String| s@) == first_occurrences(rv.take(i as int)),
        decreases reasons.len() - i,
    {
        let ghost pre = rv.take(i as int + 1);
        assert(pre.drop_last() =~= rv.take(i as int));
        proof {
            lemma_first_occurrences_elems(rv.take(i as int));
        }
        let seen = contains_string(&out, reasons[i].as_str());
        let ghost ov = out@.map_values(|s: String| s@);
        if !seen {
            out.push(reasons[i].clone());
            assert(out@.map_values(|s: String| s@) =~= ov.push(rv[i as int]));
        }
        i = i + 1;
    }
    assert(rv.take(reasons.len() as int) =~= rv);
    out
}

/// The texts of the user messages, in order.
pub open spec fn user_texts(ms: Seq<Message>) -> Seq<Seq<char>>
    decreases ms.len(),
{
    if ms.len() == 0 {
        Seq::empty()
    } else if ms.last().role@ == "user"@ {
        user_texts(ms.drop_last()).push(ms.last().content@)
    } else {
        user_texts(ms.drop_last())
    }
}

/// The user's messages joined by newlines.
pub fn user_request_text(messages: &[Message]) -> (r: String)
    ensures
        r@ == joined(user_texts(messages@), "\n"@),
{
    let mut parts: Vec<String> = Vec::new();
    let mut i: usize = 0;
    while i < messages.len()
        invariant
            i <= messages.len(),
            parts@.map_values(|s: String| s@) == user_texts(messages@.take(i as int)),
        decreases messages.len() - i,
    {
        assert(messages@.take(i as int + 1).drop_last() =~= messages@.take(i as int));
        if str_eq(messages[i].role.as_str(), "user") {
            let ghost pv = parts@.map_values(|s: String| s@);
            parts.push(messages[i].content.clone());
            assert(parts@.map_values(|s: String| s@) =~= pv.push(messages@[i as int].content@));
        }
        i = i + 1;
    }
    assert(messages@.take(messages.len() as int) =~= messages@);
    join(parts.as_slice(), "\n")
}

/// `out` with `name` added when `cond` holds and `name` is not there yet.
pub open spec fn add_fragment(out: Seq<Seq<char>>, cond: bool, name: Seq<char>) -> Seq<Seq<char>> {
    if cond && !out.contains(name) {
        out.push(name)
    } else {
        out
    }
}

/// The fragments injected for a package: its role, constraints, workflow
/// and output; the sections the request asks about by keyword; and, when
/// none of these exist, its first three sections.
pub open spec fn chosen_fragments(f: SkillFragmentSet, input: Seq<char>) -> Seq<Seq<char>> {
    let a = Seq::<Seq<char>>::empty();
    let a = add_fragment(a, f.role is Some, "role"@);
    let a = add_fragment(a, f.constraints is Some, "constraints"@);
    let a = add_fragment(a, f.workflow is Some, "workflow"@);
    let a = add_fragment(a, f.output is Some, "output"@);
    let a = add_fragment(a, contains(input, "when"@) && f.when_to_use is Some, "when_to_use"@);
    let a = add_fragment(a, contains(input, "input"@) && f.inputs is Some, "inputs"@);
    let a = add_fragment(a, contains(input, "example"@) && f.examples is Some, "examples"@);
    let a = add_fragment(a, contains(input, "reference"@) && f.references is Some, "references"@);
    let a = add_fragment(a, contains(input, "template"@) && f.references is Some, "references"@);
    if a.len() == 0 {
        f.available().take(if f.available().len() < 3 { f.available().len() as int } else { 3 })
    } else {
        a
    }
}

fn add_fragment_exec(out: &mut Vec<String>, cond: bool, name: &str)
    ensures
        final(out)@.map_values(|s: String| s@) == add_fragment(old(out)@.map_values(|s: String| s@), cond, name@),
{
    if !cond || contains_string(out, name) {
        return;
    }
    let ghost ov = out@.map_values(|s: String| s@);
    out.push(owned(name));
    assert(out@.map_values(|s: String| s@) =~= ov.push(name@));
}

/// Chooses the fragments of a package to inject for a request, given in
/// lowercase.
pub fn choose_fragments(fragments: &SkillFragmentSet, input_lower: &str) -> (r: Vec<String>)
    ensures
        r@.map_values(|s: String| s@) == chosen_fragments(*fragments, input_lower@),
{
    let mut out: Vec<String> = Vec::new();
    assert(out@.map_values(|s: String| s@) =~= Seq::<Seq<char>>::empty());
    add_fragment_exec(&mut out, fragments.role.is_some(), "role");
    add_fragment_exec(&mut out, fragments.constraints.is_some(), "constraints");
    add_fragment_exec(&mut out, fragments.workflow.is_some(), "workflow");
    add_fragment_exec(&mut out, fragments.output.is_some(), "output");
    add_fragment_exec(&mut out, str_contains(input_lower, "when") && fragments.when_to_use.is_some(), "when_to_use");
    add_fragment_exec(&mut out, str_contains(input_lower, "input") && fragments.inputs.is_some(), "inputs");
    add_fragment_exec(&mut out, str_contains(input_lower, "example") && fragments.examples.is_some(), "examples");
    add_fragment_exec(&mut out, str_contains(input_lower, "reference") && fragments.references.is_some(), "references");
    add_fragment_exec(&mut out, str_contains(input_lower, "template") && fragments.references.is_some(), "references");
    if out.len() == 0 {
        let names = fragments.available_names();
        let ghost nv = names@.map_values(|s: String| s@);
        let m = if names.len() < 3 { names.len() } else { 3 };
        let mut k: usize = 0;
        while k < m
            invariant
                k <= m <= names.len(),
                nv == names@.map_values(|s: String| s@),
                out@.map_values(|s: String| s@) == nv.take(k as int),
            decreases m - k,
        {
            let ghost ov = out@.map_values(|s: String| s@);
            out.push(names[k].clone());
            assert(out@.map_values(|s: String| s@) =~= ov.push(nv[k as int]));
            assert(nv.take(k as int).push(nv[k as int]) =~= nv.take(k as int + 1));
            k = k + 1;
        }
    }
    out
}

/// Points and reasons for the keywords found in the request.
pub open spec fn listed_score(words: Seq<String>, input: Seq<char>, points: int, label: Seq<char>) -> (int, Seq<Seq<char>>)
    decreases words.len(),
{
    if words.len() == 0 {
        (0, Seq::empty())
    } else {
        let (sc, rs) = listed_score(words.drop_last(), input, points, label);
        let w = lower(words.last()@);
        if w.len() > 0 && contains(input, w) {
            (sc + points, rs.push(label + w))
        } else {
            (sc, rs)
        }
    }
}

/// Points and reasons for the request's words of four bytes or more that
/// the description holds.
pub open spec fn description_score(tokens: Seq<Seq<char>>, desc: Seq<char>) -> (int, Seq<Seq<char>>)
    decreases tokens.len(),
{
    if tokens.len() == 0 {
        (0, Seq::empty())
    } else {
        let (sc, rs) = description_score(tokens.drop_last(), desc);
        let t = tokens.last();
        if byte_len(t) >= 4 && contains(desc, t) {
            (sc + 5, rs.push("description:"@ + t))
        } else {
            (sc, rs)
        }
    }
}

/// A sticky name is the identity's key.
pub open spec fn is_sticky(sticky: Seq<String>, id: SkillIdentity) -> bool {
    exists|k: int| 0 <= k < sticky.len() && #[trigger] sticky[k]@ == identity_key(id.name@, id.version@)
}

/// The score of a candidate for a request (given in lowercase), and the
/// reasons in the order they were found, each once: 10000 for a pin, 500
/// for the run's previous choice, 100 per trigger keyword, 50 for the
/// output contract, 10 per allowed tool and 5 per long request word that
/// the description holds.
pub open spec fn candidate_score_of(
    m: SkillManifest,
    pins: Seq<(String, Option<String>)>,
    sticky: Seq<String>,
    input: Seq<char>,
) -> (int, Seq<Seq<char>>) {
    let pin = pin_part(pins, m.identity);
    let st = sticky_part(sticky, m.identity);
    let kw = listed_score(m.triggers.keywords@, input, 100, "keyword:"@);
    let oc = contract_part(m.output_contract, input);
    let tl = listed_score(m.allowed_tools@, input, 10, "tool_scope:"@);
    let ds = description_score(ws_split(input), lower(m.description@));
    (
        pin.0 + st.0 + kw.0 + oc.0 + tl.0 + ds.0,
        first_occurrences(pin.1 + st.1 + kw.1 + oc.1 + tl.1 + ds.1),
    )
}

/// Points and reason for a pin.
pub open spec fn pin_part(pins: Seq<(String, Option<String>)>, id: SkillIdentity) -> (int, Seq<Seq<char>>) {
    if any_pattern_matches(pins, id) {
        (10000, seq!["explicit_pin"@])
    } else {
        (0, Seq::empty())
    }
}

/// Points and reason for the run's previous choice.
pub open spec fn sticky_part(sticky: Seq<String>, id: SkillIdentity) -> (int, Seq<Seq<char>>) {
    if is_sticky(sticky, id) {
        (500, seq!["snapshot_affinity"@])
    } else {
        (0, Seq::empty())
    }
}

/// Points and reason for the output contract.
pub open spec fn contract_part(contract: Option<String>, input: Seq<char>) -> (int, Seq<Seq<char>>) {
    match contract {
        Some(c) => if contains(input, lower(c@)) {
            (50, seq!["output_contract:"@ + lower(c@)])
        } else {
            (0, Seq::empty())
        },
        None => (0, Seq::empty()),
    }
}

proof fn lemma_ws_split_len(s: Seq<char>)
    ensures
        ws_split(s).len() <= s.len(),
    decreases s.len(),
{
    if s.len() > 0 {
        lemma_ws_split_len(s.drop_last());
    }
}

proof fn lemma_listed_bound(words: Seq<String>, input: Seq<char>, points: int, label: Seq<char>)
    requires
        points >= 0,
    ensures
        0 <= listed_score(words, input, points, label).0 <= points * words.len(),
    decreases words.len(),
{
    if words.len() > 0 {
        lemma_listed_bound(words.drop_last(), input, points, label);
        assert(points * (words.len() - 1) + points == points * words.len()) by (nonlinear_arith);
    }
}

proof fn lemma_description_bound(tokens: Seq<Seq<char>>, desc: Seq<char>)
    ensures
        0 <= description_score(tokens, desc).0 <= 5 * tokens.len(),
    decreases tokens.len(),
{
    if tokens.len() > 0 {
        lemma_description_bound(tokens.drop_last(), desc);
    }
}

fn listed_score_exec(words: &Vec<String>, input: &str, points: i64, label: &str, reasons: &mut Vec<String>) -> (r: i64)
    requires
        0 <= points <= 100,
        words@.len() <= 1_000_000_000_000,
    ensures
        r == listed_score(words@, input@, points as int, label@).0,
        final(reasons)@.map_values(|s: String| s@) == old(reasons)@.map_values(|s: String| s@) + listed_score(words@, input@, points as int, label@).1,
{
    let ghost start = reasons@.map_values(|s: String| s@);
    let mut score: i64 = 0;
    let mut i: usize = 0;
    while i < words.len()
        invariant
            i <= words.len(),
            0 <= points <= 100,
            words@.len() <= 1_000_000_000_000,
            score == listed_score(words@.take(i as int), input@, points as int, label@).0,
            reasons@.map_values(|s: String| s@) == start + listed_score(words@.take(i as int), input@, points as int, label@).1,
        decreases words.len() - i,
    {
        assert(words@.take(i as int + 1).drop_last() =~= words@.take(i as int));
        proof {
            lemma_listed_bound(words@.take(i as int), input@, points as int, label@);
            assert(points * i <= 100 * 1_000_000_000_000) by (nonlinear_arith)
                requires 0 <= points <= 100, i <= 1_000_000_000_000;
        }
        let w = to_lower(words[i].as_str());
        if !w.as_str().is_empty() && str_contains(input, w.as_str()) {
            score = score + points;
            let mut reason = owned(label);
            push_str(&mut reason, w.as_str());
            let ghost rv = reasons@.map_values(|s: String| s@);
            reasons.push(reason);
            assert(reasons@.map_values(|s: String| s@) =~= rv.push(label@ + lower(words@[i as int]@)));
        }
        i = i + 1;
    }
    assert(words@.take(words.len() as int) =~= words@);
    score
}

/// Scores a candidate manifest for a request given in lowercase; see
/// [`candidate_score_of`].
pub fn candidate_score(
    manifest: &SkillManifest,
    pins: &[(String, Option<String>)],
    sticky_names: &[String],
    input_lower: &str,
) -> (r: (i64, Vec<String>))
    requires
        manifest.triggers.keywords@.len() <= 1_000_000_000_000,
        manifest.allowed_tools@.len() <= 1_000_000_000_000,
        input_lower@.len() <= 1_000_000_000_000,
    ensures
        r.0 == candidate_score_of(*manifest, pins@, sticky_names@, input_lower@).0,
        r.1@.map_values(|s: String| s@) == candidate_score_of(*manifest, pins@, sticky_names@, input_lower@).1,
{
    let mut reasons: Vec<String> = Vec::new();
    let mut score: i64 = 0;
    if matches_pin(&manifest.identity, pins) {
        score = score + 10000;
        reasons.push(owned("explicit_pin"));
    }
    let ghost pin = pin_part(pins@, manifest.identity);
    assert(reasons@.map_values(|s: String| s@) =~= pin.1);
    let key = manifest.identity.as_key();
    let mut sticky = false;
    let mut k: usize = 0;
    while k < sticky_names.len()
        invariant
            k <= sticky_names.len(),
            key@ == identity_key(manifest.identity.name@, manifest.identity.version@),
            !sticky ==> forall|j: int| 0 <= j < k ==> #[trigger] sticky_names@[j]@ != key@,
            sticky ==> is_sticky(sticky_names@, manifest.identity),
        decreases sticky_names.len() - k,
    {
        if str_eq(sticky_names[k].as_str(), key.as_str()) {
            sticky = true;
        }
        k = k + 1;
    }
    let ghost st = sticky_part(sticky_names@, manifest.identity);
    if sticky {
        score = score + 500;
        let ghost rv = reasons@.map_values(|s: String| s@);
        reasons.push(owned("snapshot_affinity"));
        assert(reasons@.map_values(|s: String| s@) =~= rv + st.1);
    } else {
        assert(pin.1 + st.1 =~= pin.1);
    }
    assert(score == pin.0 + st.0);
    let ghost r0 = reasons@.map_values(|s: String| s@);
    assert(r0 == pin.1 + st.1);
    proof {
        lemma_listed_bound(manifest.triggers.keywords@, input_lower@, 100, "keyword:"@);
        lemma_listed_bound(manifest.allowed_tools@, input_lower@, 10, "tool_scope:"@);
        lemma_ws_split_len(input_lower@);
        lemma_description_bound(ws_split(input_lower@), lower(manifest.description@));
    }
    let kw = listed_score_exec(&manifest.triggers.keywords, input_lower, 100, "keyword:", &mut reasons);
    score = score + kw;
    let ghost r1 = reasons@.map_values(|s: String| s@);
    let ghost oc = contract_part(manifest.output_contract, input_lower@);
    if let Some(contract) = &manifest.output_contract {
        let c = to_lower(contract.as_str());
        if str_contains(input_lower, c.as_str()) {
            score = score + 50;
            let mut reason = owned("output_contract:");
            push_str(&mut reason, c.as_str());
            reasons.push(reason);
            assert(reasons@.map_values(|s: String| s@) =~= r1 + oc.1);
        } else {
            assert(r1 + oc.1 =~= r1);
        }
    } else {
        assert(r1 + oc.1 =~= r1);
    }
    let ghost r2 = reasons@.map_values(|s: String| s@);
    assert(r2 == r1 + oc.1);
    let tl = listed_score_exec(&manifest.allowed_tools, input_lower, 10, "tool_scope:", &mut reasons);
    score = score + tl;
    let ghost r3 = reasons@.map_values(|s: String| s@);
    let desc = to_lower(manifest.description.as_str());
    let tokens = split_whitespace(input_lower);
    let ghost tv = tokens@.map_values(|s: String| s@);
    let mut ds: i64 = 0;
    let mut i: usize = 0;
    while i < tokens.len()
        invariant
            i <= tokens.len(),
            tv == tokens@.map_values(|s: String| s@),
            tv.len() <= 1_000_000_000_000,
            desc@ == lower(manifest.description@),
            ds == description_score(tv.take(i as int), desc@).0,
            reasons@.map_values(|s: String| s@) == r3 + description_score(tv.take(i as int), desc@).1,
        decreases tokens.len() - i,
    {
        assert(tv.take(i as int + 1).drop_last() =~= tv.take(i as int));
        proof {
            lemma_description_bound(tv.take(i as int), desc@);
        }
        let t = tokens[i].as_str();
        if str_bytes_at_least(t, 4) && str_contains(desc.as_str(), t) {
            ds = ds + 5;
            let mut reason = owned("description:");
            push_str(&mut reason, t);
            let ghost rv = reasons@.map_values(|s: String| s@);
            reasons.push(reason);
            assert(reasons@.map_values(|s: String| s@) =~= rv.push("description:"@ + tv[i as int]));
        }
        i = i + 1;
    }
    assert(tv.take(tokens.len() as int) =~= tv);
    score = score + ds;
    let ghost all = reasons@.map_values(|s: String| s@);
    let ghost kw1 = listed_score(manifest.triggers.keywords@, input_lower@, 100, "keyword:"@).1;
    let ghost tl1 = listed_score(manifest.allowed_tools@, input_lower@, 10, "tool_scope:"@).1;
    let ghost ds1 = description_score(ws_split(input_lower@), lower(manifest.description@)).1;
    assert(all =~= pin.1 + st.1 + kw1 + oc.1 + tl1 + ds1);
    (score, dedup_reasons(reasons))
}


proof fn lemma_short_tokens_score_nothing(tokens: Seq<Seq<char>>, desc: Seq<char>)
    requires
        forall|k: int| 0 <= k < tokens.len() ==> byte_len(#[trigger] tokens[k]) < 4,
    ensures
        description_score(tokens, desc) == (0int, Seq::<Seq<char>>::empty()),
    decreases tokens.len(),
{
    if tokens.len() > 0 {
        assert(byte_len(tokens[tokens.len() - 1]) < 4);
        lemma_short_tokens_score_nothing(tokens.drop_last(), desc);
    }
}

/// Only request words of four bytes or more earn description points: a
/// request whose words are all shorter gets no description points and no
/// `description:` reason, so two skills that differ only in their
/// description score the same, with the same reasons.
pub proof fn law_short_words_ignore_description(
    m1: SkillManifest,
    m2: SkillManifest,
    pins: Seq<(String, Option<String>)>,
    sticky: Seq<String>,
    input: Seq<char>,
)
    requires
        forall|k: int| 0 <= k < ws_split(input).len() ==> byte_len(#[trigger] ws_split(input)[k]) < 4,
        m2 == (SkillManifest { description: m2.description, ..m1 }),
    ensures
        description_score(ws_split(input), lower(m1.description@)) == (0int, Seq::<Seq<char>>::empty()),
        candidate_score_of(m1, pins, sticky, input) == candidate_score_of(m2, pins, sticky, input),
{
    lemma_short_tokens_score_nothing(ws_split(input), lower(m1.description@));
    lemma_short_tokens_score_nothing(ws_split(input), lower(m2.description@));
}


proof fn lemma_listed_score_hits(words: Seq<String>, input: Seq<char>, points: int, label: Seq<char>, k: int)
    requires
        points >= 0,
    ensures
        listed_score(words, input, points, label).0 >= 0,
        0 <= k < words.len() && lower(words[k]@).len() > 0 && contains(input, lower(words[k]@)) ==> listed_score(
            words,
            input,
            points,
            label,
        ).0 >= points,
    decreases words.len(),
{
    if words.len() > 0 {
        let d = words.drop_last();
        if 0 <= k < words.len() - 1 {
            assert(d[k] == words[k]);
            lemma_listed_score_hits(d, input, points, label, k);
        } else {
            lemma_listed_score_hits(d, input, points, label, -1);
        }
    }
}

proof fn lemma_description_score_hits(tokens: Seq<Seq<char>>, desc: Seq<char>, k: int)
    ensures
        description_score(tokens, desc).0 >= 0,
        0 <= k < tokens.len() && byte_len(tokens[k]) >= 4 && contains(desc, tokens[k]) ==> description_score(tokens, desc).0
            >= 5,
    decreases tokens.len(),
{
    if tokens.len() > 0 {
        let d = tokens.drop_last();
        if 0 <= k < tokens.len() - 1 {
            assert(d[k] == tokens[k]);
            lemma_description_score_hits(d, desc, k);
        } else {
            lemma_description_score_hits(d, desc, -1);
        }
    }
}

proof fn lemma_parts_nonnegative(m: SkillManifest, pins: Seq<(String, Option<String>)>, sticky: Seq<String>, input: Seq<char>)
    ensures
        pin_part(pins, m.identity).0 >= 0,
        sticky_part(sticky, m.identity).0 >= 0,
        contract_part(m.output_contract, input).0 >= 0,
        listed_score(m.triggers.keywords@, input, 100, "keyword:"@).0 >= 0,
        listed_score(m.allowed_tools@, input, 10, "tool_scope:"@).0 >= 0,
        description_score(ws_split(input), lower(m.description@)).0 >= 0,
{
    lemma_listed_score_hits(m.triggers.keywords@, input, 100, "keyword:"@, -1);
    lemma_listed_score_hits(m.allowed_tools@, input, 10, "tool_scope:"@, -1);
    lemma_description_score_hits(ws_split(input), lower(m.description@), -1);
}

/// A pin is worth 10000 points: the same skill scores exactly that much
/// more under pins that match it than under pins that do not.
pub proof fn law_pin_adds_ten_thousand(
    m: SkillManifest,
    pinned: Seq<(String, Option<String>)>,
    unpinned: Seq<(String, Option<String>)>,
    sticky: Seq<String>,
    input: Seq<char>,
)
    requires
        any_pattern_matches(pinned, m.identity),
        !any_pattern_matches(unpinned, m.identity),
    ensures
        candidate_score_of(m, pinned, sticky, input).0 == candidate_score_of(m, unpinned, sticky, input).0 + 10000,
{
}

/// A trigger keyword that the request holds earns at least 100 points,
/// and a request word of four bytes or more that the description holds at
/// least 5; no part of the score is negative.
pub proof fn law_hits_score_points(
    m: SkillManifest,
    pins: Seq<(String, Option<String>)>,
    sticky: Seq<String>,
    input: Seq<char>,
    k: int,
    t: int,
)
    ensures
        candidate_score_of(m, pins, sticky, input).0 >= 0,
        0 <= k < m.triggers.keywords@.len() && lower(m.triggers.keywords@[k]@).len() > 0 && contains(
            input,
            lower(m.triggers.keywords@[k]@),
        ) ==> candidate_score_of(m, pins, sticky, input).0 >= 100,
        0 <= t < ws_split(input).len() && byte_len(ws_split(input)[t]) >= 4 && contains(lower(m.description@), ws_split(input)[t])
            ==> candidate_score_of(m, pins, sticky, input).0 >= 5,
{
    lemma_parts_nonnegative(m, pins, sticky, input);
    lemma_listed_score_hits(m.triggers.keywords@, input, 100, "keyword:"@, k);
    lemma_description_score_hits(ws_split(input), lower(m.description@), t);
}

} // verus!
