//! The skill registry: identities named on the command line, package
//! directories, lifecycle changes and the order entries are listed in.
use vstd::prelude::*;

use crate::memory::store::{path_join, spec_path_join};
use crate::skills::{entry_same, identity_key, SkillGovernanceOutcome, SkillGovernanceStatus, SkillIdentity, SkillLifecycleState, SkillRegistry, SkillRegistryEntry};
use crate::text::{is_blank, is_ws, trim_end, trim_start, lemma_lex_asymmetric, lemma_lex_irreflexive, lemma_lex_total, lex_lt, owned, push_str, slice_range, str_eq, str_lt, str_trim, to_chars, trim, from_chars};
use crate::types::opt_str_view;

verus! {

/// Entries newly installed and entries found unchanged.
#[derive(Debug, Clone, Default)]
pub struct SkillInstallReport {
    pub installed: Vec<SkillRegistryEntry>,
    pub unchanged: Vec<SkillRegistryEntry>,
}

/// The first position of `c`, if it occurs.
pub open spec fn first_index_of(s: Seq<char>, c: char) -> Option<int> {
    if exists|i: int| 0 <= i < s.len() && s[i] == c {
        Some(choose|i: int| 0 <= i < s.len() && s[i] == c && forall|k: int| 0 <= k < i ==> s[k] != c)
    } else {
        None
    }
}

/// The first position of `c`, if any.
pub fn find_char(cs: &Vec<char>, c: char) -> (r: Option<usize>)
    ensures
        r matches Some(i) ==> i < cs@.len() && cs@[i as int] == c && forall|k: int| 0 <= k < i ==> cs@[k] != c,
        r is None ==> forall|k: int| 0 <= k < cs@.len() ==> cs@[k] != c,
{
    let mut i: usize = 0;
    while i < cs.len()
        invariant
            i <= cs.len(),
            forall|k: int| 0 <= k < i ==> cs@[k] != c,
        decreases cs.len() - i,
    {
        if cs[i] == c {
            return Some(i);
        }
        i = i + 1;
    }
    None
}

/// What a `name` or `name@version` token names: split at the first `@`
/// of the trimmed token, both sides required.
pub open spec fn identity_token(token: Seq<char>) -> Result<(Seq<char>, Option<Seq<char>>), Seq<char>> {
    let t = trim(token);
    if t.len() == 0 {
        Err("invalid_identity: empty"@)
    } else if exists|i: int| 0 <= i < t.len() && t[i] == '@' {
        let i = choose|i: int| 0 <= i < t.len() && t[i] == '@' && forall|k: int| 0 <= k < i ==> t[k] != '@';
        let name = t.subrange(0, i);
        let version = t.subrange(i + 1, t.len() as int);
        if name.len() > 0 && version.len() > 0 {
            Ok((name, Some(version)))
        } else {
            Err("invalid_identity: "@ + token)
        }
    } else {
        Ok((t, None))
    }
}

/// Reads `name` or `name@version`.
pub fn parse_identity_token(token: &str) -> (r: Result<(String, Option<String>), String>)
    ensures
        match (r, identity_token(token@)) {
            (Ok((n, v)), Ok((sn, sv))) => n@ == sn && opt_str_view(v) == sv,
            (Err(e), Err(se)) => e@ == se,
            _ => false,
        },
{
    let trimmed = str_trim(token);
    if trimmed.as_str().is_empty() {
        return Err(owned("invalid_identity: empty"));
    }
    let cs = to_chars(trimmed.as_str());
    match find_char(&cs, '@') {
        Some(i) => {
            let ghost t = trimmed@;
            assert(exists|j: int| 0 <= j < t.len() && t[j] == '@');
            let ghost c = choose|j: int| 0 <= j < t.len() && t[j] == '@' && forall|k: int| 0 <= k < j ==> t[k] != '@';
            assert(c == i as int) by {
                if c < i {
                    assert(t[c] != '@');
                } else if c > i {
                    assert(t[i as int] != '@');
                }
            }
            let name = from_chars(&slice_range(&cs, 0, i));
            assert(i < cs.len());
            let version = from_chars(&slice_range(&cs, i + 1, cs.len()));
            if !name.as_str().is_empty() && !version.as_str().is_empty() {
                Ok((name, Some(version)))
            } else {
                let mut e = owned("invalid_identity: ");
                push_str(&mut e, token);
                Err(e)
            }
        },
        None => Ok((trimmed, None)),
    }
}

/// `<registry>/packages/<name>/<version>`.
pub open spec fn package_dir(registry_dir: Seq<char>, name: Seq<char>, version: Seq<char>) -> Seq<char> {
    spec_path_join(spec_path_join(spec_path_join(registry_dir, "packages"@), name), version)
}

/// The directory a package version is installed in.
pub fn registry_package_dir(registry_dir: &str, name: &str, version: &str) -> (r: String)
    ensures
        r@ == package_dir(registry_dir@, name@, version@),
{
    let a = path_join(registry_dir, "packages");
    let b = path_join(a.as_str(), name);
    path_join(b.as_str(), version)
}

/// The entry is one a lifecycle change aims at.
pub open spec fn targeted(e: SkillRegistryEntry, name: Seq<char>, version: Option<Seq<char>>) -> bool {
    e.identity.name@ == name && match version {
        Some(v) => e.identity.version@ == v,
        None => true,
    }
}

/// A targeted entry that review failed.
pub open spec fn review_failed(e: SkillRegistryEntry, name: Seq<char>, version: Option<Seq<char>>) -> bool {
    targeted(e, name, version) && e.governance.status == SkillGovernanceStatus::Fail
}

/// The first targeted entry that review failed, when the change would
/// enable it.
pub open spec fn blocked_entry(entries: Seq<SkillRegistryEntry>, name: Seq<char>, version: Option<Seq<char>>, lifecycle: SkillLifecycleState) -> Option<int> {
    if lifecycle == SkillLifecycleState::Enabled && exists|i: int| 0 <= i < entries.len() && #[trigger] review_failed(entries[i], name, version) {
        Some(choose|i: int|
            0 <= i < entries.len() && #[trigger] review_failed(entries[i], name, version) && forall|k: int|
                0 <= k < i ==> !review_failed(#[trigger] entries[k], name, version))
    } else {
        None
    }
}

/// The entry after the change, against the entry before it.
pub open spec fn entry_after(
    before: SkillRegistryEntry,
    after: SkillRegistryEntry,
    name: Seq<char>,
    version: Option<Seq<char>>,
    lifecycle: SkillLifecycleState,
    reason: Option<String>,
) -> bool {
    if targeted(before, name, version) {
        after == updated_entry(before, lifecycle, reason)
    } else {
        after == before
    }
}

/// The entry with the new lifecycle and reason, every other field kept.
pub open spec fn updated_entry(e: SkillRegistryEntry, lifecycle: SkillLifecycleState, reason: Option<String>) -> SkillRegistryEntry {
    SkillRegistryEntry { lifecycle, lifecycle_reason: reason, ..e }
}

/// The targeted entries, in registry order.
pub open spec fn targeted_entries(entries: Seq<SkillRegistryEntry>, name: Seq<char>, version: Option<Seq<char>>) -> Seq<SkillRegistryEntry>
    decreases entries.len(),
{
    if entries.len() == 0 {
        Seq::empty()
    } else {
        let rest = targeted_entries(entries.drop_last(), name, version);
        if targeted(entries.last(), name, version) {
            rest.push(entries.last())
        } else {
            rest
        }
    }
}

fn find_blocked(entries: &Vec<SkillRegistryEntry>, name: &str, version: Option<&str>) -> (r: Option<usize>)
    ensures
        ({
            let v = match version {
                Some(v) => Some(v@),
                None => None::<Seq<char>>,
            };
            &&& r matches Some(i) ==> i < entries@.len() && review_failed(entries@[i as int], name@, v) && forall|k: int|
                0 <= k < i ==> !review_failed(#[trigger] entries@[k], name@, v)
            &&& r is None ==> forall|k: int| 0 <= k < entries@.len() ==> !review_failed(#[trigger] entries@[k], name@, v)
        }),
{
    let ghost v = match version {
        Some(v) => Some(v@),
        None => None::<Seq<char>>,
    };
    let mut i: usize = 0;
    while i < entries.len()
        invariant
            i <= entries.len(),
            v == match version {
                Some(v) => Some(v@),
                None => None::<Seq<char>>,
            },
            forall|k: int| 0 <= k < i ==> !review_failed(#[trigger] entries@[k], name@, v),
        decreases entries.len() - i,
    {
        if is_targeted(&entries[i], name, version) && entries[i].governance.status == SkillGovernanceStatus::Fail {
            return Some(i);
        }
        i = i + 1;
    }
    None
}

/// `@version`, or nothing.
pub open spec fn version_suffix(version: Option<Seq<char>>) -> Seq<char> {
    match version {
        Some(v) => "@"@ + v,
        None => Seq::empty(),
    }
}

fn is_targeted(e: &SkillRegistryEntry, name: &str, version: Option<&str>) -> (r: bool)
    ensures
        r == targeted(*e, name@, match version {
            Some(v) => Some(v@),
            None => None,
        }),
{
    str_eq(e.identity.name.as_str(), name) && match version {
        Some(v) => str_eq(e.identity.version.as_str(), v),
        None => true,
    }
}

proof fn lemma_targeted_entries_empty(entries: Seq<SkillRegistryEntry>, name: Seq<char>, version: Option<Seq<char>>)
    ensures
        (targeted_entries(entries, name, version).len() == 0) == !exists|i: int| 0 <= i < entries.len() && #[trigger] targeted(entries[i], name, version),
    decreases entries.len(),
{
    if entries.len() > 0 {
        let init = entries.drop_last();
        lemma_targeted_entries_empty(init, name, version);
        if exists|i: int| 0 <= i < init.len() && #[trigger] targeted(init[i], name, version) {
            let i = choose|i: int| 0 <= i < init.len() && #[trigger] targeted(init[i], name, version);
            assert(targeted(entries[i], name, version));
        }
        if exists|i: int| 0 <= i < entries.len() && #[trigger] targeted(entries[i], name, version) {
            let i = choose|i: int| 0 <= i < entries.len() && #[trigger] targeted(entries[i], name, version);
            if i < entries.len() - 1 {
                assert(targeted(init[i], name, version));
            }
        }
    }
}

/// The version a change names, as text.
pub open spec fn opt_version(version: Option<&str>) -> Option<Seq<char>> {
    match version {
        Some(v) => Some(v@),
        None => None,
    }
}

/// What a lifecycle change does: the registry before and after it, and the
/// result.
pub open spec fn lifecycle_change(
    before: Seq<SkillRegistryEntry>,
    after: Seq<SkillRegistryEntry>,
    name: Seq<char>,
    v: Option<Seq<char>>,
    lifecycle: SkillLifecycleState,
    reason: Option<String>,
    r: Result<Vec<SkillRegistryEntry>, String>,
) -> bool {
    match blocked_entry(before, name, v, lifecycle) {
        Some(i) => {
            &&& r matches Err(e) && e@ == "governance_blocked: "@ + identity_key(before[i].identity.name@, before[i].identity.version@)
                + " cannot be enabled because semantic review failed"@
            &&& after == before
        },
        None => if exists|i: int| 0 <= i < before.len() && #[trigger] targeted(before[i], name, v) {
            &&& after.len() == before.len()
            &&& forall|i: int| 0 <= i < before.len() ==> entry_after(before[i], #[trigger] after[i], name, v, lifecycle, reason)
            &&& r matches Ok(changed) && {
                &&& changed@.len() == targeted_entries(before, name, v).len()
                &&& forall|j: int| 0 <= j < changed@.len() ==> entry_same(
                    #[trigger] changed@[j],
                    updated_entry(targeted_entries(before, name, v)[j], lifecycle, reason),
                )
            }
        } else {
            &&& r matches Err(e) && e@ == "registry_entry_not_found: "@ + name + version_suffix(v)
            &&& after == before
        },
    }
}

/// Sets the lifecycle of the entries named `name` (of one version, when it
/// is given) and returns them as changed. Enabling an entry that review
/// failed is refused, and so is a change that names no entry; a refused
/// change leaves the registry as it was.
pub fn set_registry_lifecycle(
    registry: &mut SkillRegistry,
    name: &str,
    version: Option<&str>,
    lifecycle: SkillLifecycleState,
    reason: Option<String>,
) -> (r: Result<Vec<SkillRegistryEntry>, String>)
    ensures
        final(registry).version == old(registry).version,
        lifecycle_change(old(registry).entries@, final(registry).entries@, name@, opt_version(version), lifecycle, reason, r),
{
    let ghost v = opt_version(version);
    let ghost before = registry.entries@;
    let n = registry.entries.len();
    if lifecycle == SkillLifecycleState::Enabled {
        if let Some(i) = find_blocked(&registry.entries, name, version) {
            proof {
                let c = choose|c: int|
                    0 <= c < before.len() && #[trigger] review_failed(before[c], name@, v) && forall|k: int|
                        0 <= k < c ==> !review_failed(#[trigger] before[k], name@, v);
                assert(c == i as int) by {
                    if c > i {
                        assert(!review_failed(before[i as int], name@, v));
                    }
                    if c < i {
                        assert(!review_failed(before[c], name@, v));
                    }
                }
            }
            let mut msg = owned("governance_blocked: ");
            let key = registry.entries[i].identity.as_key();
            push_str(&mut msg, key.as_str());
            push_str(&mut msg, " cannot be enabled because semantic review failed");
            assert(msg@ =~= "governance_blocked: "@ + identity_key(before[i as int].identity.name@, before[i as int].identity.version@)
                + " cannot be enabled because semantic review failed"@);
            let r = Err(msg);
            assert(lifecycle_change(before, registry.entries@, name@, v, lifecycle, reason, r));
            return r;
        }
    }
    assert(blocked_entry(before, name@, v, lifecycle) is None);
    let mut changed: Vec<SkillRegistryEntry> = Vec::new();
    let mut i: usize = 0;
    while i < n
        invariant
            i <= n,
            n == before.len(),
            registry.version == old(registry).version,
            before == old(registry).entries@,
            v == opt_version(version),
            registry.entries@.len() == n,
            forall|k: int| i <= k < n ==> #[trigger] registry.entries@[k] == before[k],
            forall|k: int| 0 <= k < i ==> entry_after(before[k], #[trigger] registry.entries@[k], name@, v, lifecycle, reason),
            changed@.len() == targeted_entries(before.take(i as int), name@, v).len(),
            forall|j: int| 0 <= j < changed@.len() ==> entry_same(
                #[trigger] changed@[j],
                updated_entry(targeted_entries(before.take(i as int), name@, v)[j], lifecycle, reason),
            ),
        decreases n - i,
    {
        assert(before.take(i as int + 1).drop_last() =~= before.take(i as int));
        if is_targeted(&registry.entries[i], name, version) {
            let mut entries: Vec<SkillRegistryEntry> = Vec::new();
            std::mem::swap(&mut entries, &mut registry.entries);
            let mut e = entries.remove(i);
            e.lifecycle = lifecycle;
            e.lifecycle_reason = match &reason {
                Some(s) => Some(s.clone()),
                None => None,
            };
            assert(e == updated_entry(before[i as int], lifecycle, reason));
            let c = e.clone();
            let ghost old_changed = changed@;
            changed.push(c);
            proof {
                let tp = targeted_entries(before.take(i as int), name@, v);
                assert(targeted_entries(before.take(i as int + 1), name@, v) == tp.push(before[i as int]));
                assert forall|j: int| 0 <= j < changed@.len() implies entry_same(
                    #[trigger] changed@[j],
                    updated_entry(tp.push(before[i as int])[j], lifecycle, reason),
                ) by {
                    if j < old_changed.len() {
                        assert(changed@[j] == old_changed[j]);
                    }
                }
            }
            let ghost prev = entries@;
            entries.insert(i, e);
            assert(entries@ =~= prev.insert(i as int, e));
            registry.entries = entries;
            assert(entry_after(before[i as int], registry.entries@[i as int], name@, v, lifecycle, reason));
        } else {
            assert(entry_after(before[i as int], registry.entries@[i as int], name@, v, lifecycle, reason));
        }
        i = i + 1;
    }
    assert(before.take(n as int) =~= before);
    proof {
        lemma_targeted_entries_empty(before, name@, v);
    }
    if changed.len() == 0 {
        assert(registry.entries@ =~= before);
        let mut msg = owned("registry_entry_not_found: ");
        push_str(&mut msg, name);
        if let Some(ver) = version {
            push_str(&mut msg, "@");
            push_str(&mut msg, ver);
        }
        assert(msg@ =~= "registry_entry_not_found: "@ + name@ + version_suffix(v));
        let r = Err(msg);
        assert(lifecycle_change(before, registry.entries@, name@, v, lifecycle, reason, r));
        return r;
    }
    let r = Ok(changed);
    assert(lifecycle_change(before, registry.entries@, name@, v, lifecycle, reason, r));
    r
}

// ----- listing order -----

/// The outcome of comparing two versions.
#[derive(Debug, Clone, Copy, PartialEq, Eq, Structural)]
pub enum VersionOrder {
    Less,
    Equal,
    Greater,
}

pub open spec fn reversed(o: VersionOrder) -> VersionOrder {
    match o {
        VersionOrder::Less => VersionOrder::Greater,
        VersionOrder::Equal => VersionOrder::Equal,
        VersionOrder::Greater => VersionOrder::Less,
    }
}

pub open spec fn reversed_opt(o: Option<VersionOrder>) -> Option<VersionOrder> {
    match o {
        Some(x) => Some(reversed(x)),
        None => None,
    }
}

/// The SemVer order of two version texts (`semver::Version::parse` of
/// both, then `Ord::cmp`), or nothing when either does not parse.
pub uninterp spec fn semver_order_of(a: Seq<char>, b: Seq<char>) -> Option<VersionOrder>;

/// `semver::Version::parse` of both texts and, when both parse, `cmp` of
/// the two versions. Since `Version` is totally ordered, comparing the other
/// way round gives the reverse outcome (and fails alike).
#[verifier::external_body]
fn semver_order(a: &str, b: &str) -> (r: Option<VersionOrder>)
    ensures
        r == semver_order_of(a@, b@),
        semver_order_of(b@, a@) == reversed_opt(r),
{
    match (semver::Version::parse(a), semver::Version::parse(b)) {
        (Ok(x), Ok(y)) => Some(match x.cmp(&y) {
            std::cmp::Ordering::Less => VersionOrder::Less,
            std::cmp::Ordering::Equal => VersionOrder::Equal,
            std::cmp::Ordering::Greater => VersionOrder::Greater,
        }),
        _ => None,
    }
}

/// The lexicographic order of two texts.
pub open spec fn text_order(a: Seq<char>, b: Seq<char>) -> VersionOrder {
    if lex_lt(a, b) {
        VersionOrder::Less
    } else if a == b {
        VersionOrder::Equal
    } else {
        VersionOrder::Greater
    }
}

/// Versions compare by SemVer when both parse, else as texts.
pub open spec fn version_order(a: Seq<char>, b: Seq<char>) -> VersionOrder {
    match semver_order_of(a, b) {
        Some(o) => o,
        None => text_order(a, b),
    }
}

/// Registry entries are listed by name, then by version.
pub open spec fn entry_order(a: SkillRegistryEntry, b: SkillRegistryEntry) -> VersionOrder {
    if a.identity.name@ == b.identity.name@ {
        version_order(a.identity.version@, b.identity.version@)
    } else {
        text_order(a.identity.name@, b.identity.name@)
    }
}

/// Each entry is listed no later than the one after it.
pub open spec fn listed_in_order(s: Seq<SkillRegistryEntry>) -> bool {
    forall|i: int, j: int|
        0 <= i && j == i + 1 && j < s.len() ==> entry_order(#[trigger] s[i], #[trigger] s[j]) != VersionOrder::Greater
}

proof fn lemma_text_order_reversed(a: Seq<char>, b: Seq<char>)
    ensures
        text_order(b, a) == reversed(text_order(a, b)),
{
    lemma_lex_asymmetric(a, b);
    lemma_lex_asymmetric(b, a);
    lemma_lex_total(a, b);
    lemma_lex_irreflexive(a);
}

fn text_compare(a: &str, b: &str) -> (r: VersionOrder)
    ensures
        r == text_order(a@, b@),
{
    if str_lt(a, b) {
        VersionOrder::Less
    } else if str_eq(a, b) {
        VersionOrder::Equal
    } else {
        VersionOrder::Greater
    }
}

/// Compares two versions: by SemVer when both parse, else as texts.
pub fn compare_versions(a: &str, b: &str) -> (r: VersionOrder)
    ensures
        r == version_order(a@, b@),
        version_order(b@, a@) == reversed(r),
{
    proof {
        lemma_text_order_reversed(a@, b@);
    }
    match semver_order(a, b) {
        Some(o) => o,
        None => text_compare(a, b),
    }
}

fn compare_entries(a: &SkillRegistryEntry, b: &SkillRegistryEntry) -> (r: VersionOrder)
    ensures
        r == entry_order(*a, *b),
        entry_order(*b, *a) == reversed(r),
{
    proof {
        lemma_text_order_reversed(a.identity.name@, b.identity.name@);
    }
    if str_eq(a.identity.name.as_str(), b.identity.name.as_str()) {
        compare_versions(a.identity.version.as_str(), b.identity.version.as_str())
    } else {
        text_compare(a.identity.name.as_str(), b.identity.name.as_str())
    }
}

/// Puts entries in listing order, keeping every entry.
pub fn sort_registry_entries(entries: Vec<SkillRegistryEntry>) -> (r: Vec<SkillRegistryEntry>)
    ensures
        r@.to_multiset() == entries@.to_multiset(),
        listed_in_order(r@),
{
    broadcast use vstd::seq_lib::group_to_multiset_ensures, vstd::multiset::group_multiset_axioms;

    let mut input = entries;
    let ghost orig = input@;
    let mut out: Vec<SkillRegistryEntry> = Vec::new();
    proof {
        vstd::multiset::lemma_multiset_empty_len(out@.to_multiset());
        assert(out@.to_multiset().add(input@.to_multiset()) =~= orig.to_multiset());
    }
    while input.len() > 0
        invariant
            out@.to_multiset().add(input@.to_multiset()) =~= orig.to_multiset(),
            listed_in_order(out@),
        decreases input.len(),
    {
        let ghost before_in = input@;
        let x = input.pop().unwrap();
        proof {
            assert(before_in =~= input@.push(x));
            vstd::seq_lib::to_multiset_build(input@, x);
        }
        let mut k: usize = 0;
        while k < out.len()
            invariant
                k <= out.len(),
                k > 0 ==> entry_order(out@[k - 1], x) == VersionOrder::Less,
            ensures
                k <= out.len(),
                k > 0 ==> entry_order(out@[k - 1], x) == VersionOrder::Less,
                k < out.len() ==> entry_order(x, out@[k as int]) != VersionOrder::Greater,
            decreases out.len() - k,
        {
            let c = compare_entries(&out[k], &x);
            if c != VersionOrder::Less {
                break;
            }
            k = k + 1;
        }
        let ghost s = out@;
        out.insert(k, x);
        proof {
            vstd::seq_lib::to_multiset_insert(s, k as int, x);
            assert(out@.to_multiset().add(input@.to_multiset()) =~= orig.to_multiset());
            lemma_insert_in_order(s, k as int, x);
        }
    }
    proof {
        vstd::multiset::lemma_multiset_empty_len(input@.to_multiset());
        assert(out@.to_multiset() =~= orig.to_multiset());
    }
    out
}

proof fn lemma_insert_in_order(s: Seq<SkillRegistryEntry>, k: int, x: SkillRegistryEntry)
    requires
        listed_in_order(s),
        0 <= k <= s.len(),
        k > 0 ==> entry_order(s[k - 1], x) == VersionOrder::Less,
        k < s.len() ==> entry_order(x, s[k]) != VersionOrder::Greater,
    ensures
        listed_in_order(s.insert(k, x)),
{
    let t = s.insert(k, x);
    assert forall|i: int, j: int| 0 <= i && j == i + 1 && j < t.len() implies entry_order(
        #[trigger] t[i],
        #[trigger] t[j],
    ) != VersionOrder::Greater by {
        if i < k - 1 {
            assert(t[i] == s[i] && t[i + 1] == s[i + 1]);
        } else if i == k - 1 {
            assert(t[i] == s[i] && t[i + 1] == x);
        } else if i == k {
            assert(t[i] == x && t[i + 1] == s[i]);
        } else {
            assert(t[i] == s[i - 1] && t[i + 1] == s[i]);
        }
    }
}

/// Every entry of a loaded registry, in listing order.
pub fn registry_status(registry: SkillRegistry) -> (r: Vec<SkillRegistryEntry>)
    ensures
        r@.to_multiset() == registry.entries@.to_multiset(),
        listed_in_order(r@),
{
    sort_registry_entries(registry.entries)
}

/// The entries of `s` with the given name, in order.
pub open spec fn named(s: Seq<SkillRegistryEntry>, name: Seq<char>) -> Seq<SkillRegistryEntry>
    decreases s.len(),
{
    if s.len() == 0 {
        Seq::empty()
    } else if s.last().identity.name@ == name {
        named(s.drop_last(), name).push(s.last())
    } else {
        named(s.drop_last(), name)
    }
}

/// The installed versions of one skill in a loaded registry, in version
/// order.
pub fn registry_versions(registry: SkillRegistry, name: &str) -> (r: Vec<SkillRegistryEntry>)
    ensures
        r@.to_multiset() == named(registry.entries@, name@).to_multiset(),
        listed_in_order(r@),
        forall|i: int| 0 <= i < r@.len() ==> (#[trigger] r@[i]).identity.name@ == name@,
{
    broadcast use vstd::seq_lib::group_to_multiset_ensures, vstd::multiset::group_multiset_axioms;

    let mut rest = registry.entries;
    let ghost orig = rest@;
    let mut kept: Vec<SkillRegistryEntry> = Vec::new();
    let mut done: usize = 0;
    assert(orig.len() == rest.len());
    proof {
        assert(orig.take(0) =~= Seq::<SkillRegistryEntry>::empty());
        assert(orig.skip(0) =~= orig);
    }
    while rest.len() > 0
        invariant
            done <= orig.len(),
            orig.len() <= usize::MAX,
            done + rest@.len() == orig.len(),
            rest@ == orig.skip(done as int),
            kept@ == named(orig.take(done as int), name@),
        decreases rest.len(),
    {
        let e = rest.remove(0);
        proof {
            assert(orig.take(done as int + 1).drop_last() =~= orig.take(done as int));
            assert(orig.take(done as int + 1).last() == orig[done as int]);
            assert(rest@ =~= orig.skip(done as int + 1));
        }
        if str_eq(e.identity.name.as_str(), name) {
            kept.push(e);
        }
        done = done + 1;
    }
    proof {
        assert(orig.take(done as int) =~= orig);
        lemma_named_has_name(orig, name@);
    }
    let r = sort_registry_entries(kept);
    proof {
        let nm = named(orig, name@);
        assert forall|i: int| 0 <= i < r@.len() implies (#[trigger] r@[i]).identity.name@ == name@ by {
            assert(r@.to_multiset().count(r@[i]) > 0);
            assert(nm.to_multiset().count(r@[i]) > 0);
            assert(nm.contains(r@[i]));
        }
    }
    r
}

proof fn lemma_named_has_name(s: Seq<SkillRegistryEntry>, name: Seq<char>)
    ensures
        forall|i: int| 0 <= i < named(s, name).len() ==> (#[trigger] named(s, name)[i]).identity.name@ == name,
    decreases s.len(),
{
    if s.len() > 0 {
        lemma_named_has_name(s.drop_last(), name);
    }
}

/// An identity written as `name@version` reads back as that name and
/// version, when the name is not empty, holds no `@` and does not start
/// with white space, and the version is not empty and does not end with
/// white space.
pub proof fn law_identity_key_round_trip(name: Seq<char>, version: Seq<char>)
    requires
        name.len() > 0,
        !name.contains('@'),
        !is_ws(name[0]),
        version.len() > 0,
        !is_ws(version.last()),
    ensures
        identity_token(identity_key(name, version)) == Ok::<(Seq<char>, Option<Seq<char>>), Seq<char>>((name, Some(version))),
{
    reveal_strlit("@");
    let t = identity_key(name, version);
    let n = name.len() as int;
    assert(("@"@).len() == 1 && ("@"@)[0] == '@');
    assert(t[0] == name[0]);
    assert(t.last() == version.last());
    assert(trim_start(t) == t);
    assert(trim_end(t) == t);
    assert(trim(t) == t);
    assert(t[n] == '@');
    let i = choose|i: int| 0 <= i < t.len() && t[i] == '@' && forall|k: int| 0 <= k < i ==> t[k] != '@';
    assert(i == n) by {
        if i < n {
            assert(t[i] == name[i]);
            assert(name.contains('@'));
        } else if i > n {
            assert(t[n] != '@');
        }
    }
    assert(t.subrange(0, i) =~= name);
    assert(t.subrange(i + 1, t.len() as int) =~= version);
}

} // verus!
