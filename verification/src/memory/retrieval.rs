//! Retrieval helpers: request intent classification, keyword signals,
//! section assignment and the text rendering of selected memory.
use vstd::prelude::*;

use crate::memory::protocol::{MemoryEntry, MemoryEntryView, MemoryScope, MemoryType, entries_view, strs_view};
use crate::memory::access::entry_scope_id;
use crate::memory::identity::ResolvedMemoryActor;
use crate::text::{
    byte_len, contains, ends_with, is_blank, is_ws, join, joined, lemma_trim_blank, lower, owned, push_char, push_str,
    split_whitespace, str_contains, str_ends_with, str_eq, str_len, str_trim, take_chars, to_chars, to_lower, trim, ws_split,
    u64_to_decimal, decimal,
};
use crate::types::Message;

verus! {

/// What a request is about, as far as memory selection is concerned.
#[derive(Debug, Clone, Copy, PartialEq, Eq, Structural)]
pub enum MemoryIntent {
    Personal,
    Workspace,
    Mixed,
    MemorizeCommand,
    FactualRecall,
    PlanningTask,
    PreferenceSensitive,
    General,
}

impl Default for MemoryIntent {
    fn default() -> (r: Self)
        ensures
            r == MemoryIntent::General,
    {
        MemoryIntent::General
    }
}

/// The actor as reported in retrieval diagnostics.
#[derive(Debug, Clone, Default)]
pub struct MemoryRetrievalActorView {
    pub user_id: String,
    pub thread_id: String,
    pub workspace_ids: Vec<String>,
}

/// One entry as rendered into the memory pack.
#[derive(Debug, Clone)]
pub struct MemoryPackItem {
    pub key: String,
    pub title: String,
    pub value: String,
    pub scope: MemoryScope,
    pub scope_id: String,
    pub memory_type: MemoryType,
    pub pinned: bool,
}

/// A titled section of the memory pack.
#[derive(Debug, Clone)]
pub struct MemoryPackSection {
    pub name: String,
    pub title: String,
    pub entries: Vec<MemoryPackItem>,
}

/// The memory selected for one request.
#[derive(Debug, Clone, Default)]
pub struct MemoryPack {
    pub intent: MemoryIntent,
    pub sections: Vec<MemoryPackSection>,
    pub warnings: Vec<String>,
}

// ----- intent -----

/// Some needle occurs in the text.
pub open spec fn contains_some(text: Seq<char>, needles: Seq<Seq<char>>) -> bool {
    exists|i: int| 0 <= i < needles.len() && contains(text, #[trigger] needles[i])
}

pub open spec fn strs_of(v: Seq<&str>) -> Seq<Seq<char>> {
    v.map_values(|s: &str| s@)
}

/// Whether some needle occurs in `input`.
pub fn contains_any(input: &str, needles: &[&str]) -> (r: bool)
    ensures
        r == contains_some(input@, strs_of(needles@)),
{
    let mut i: usize = 0;
    while i < needles.len()
        invariant
            i <= needles.len(),
            forall|k: int| 0 <= k < i ==> !contains(input@, #[trigger] strs_of(needles@)[k]),
        decreases needles.len() - i,
    {
        if str_contains(input, needles[i]) {
            assert(strs_of(needles@)[i as int] == needles@[i as int]@);
            return true;
        }
        assert(strs_of(needles@)[i as int] == needles@[i as int]@);
        i = i + 1;
    }
    false
}

pub open spec fn preference_words() -> Seq<Seq<char>> {
    seq!["prefer"@, "preference"@, "style"@, "tone"@, "language"@, "concise"@]
}

pub open spec fn planning_words() -> Seq<Seq<char>> {
    seq!["plan"@, "todo"@, "task"@, "deadline"@, "next step"@, "roadmap"@]
}

pub open spec fn personal_words() -> Seq<Seq<char>> {
    seq!["i "@, "my "@, "me "@, "myself"@, "personal"@, "prefer"@]
}

pub open spec fn workspace_words() -> Seq<Seq<char>> {
    seq!["team"@, "workspace"@, "project"@, "release"@, "repo"@, "sprint"@, "our "@]
}

pub open spec fn goal_words() -> Seq<Seq<char>> {
    seq!["goal"@, "task"@, "deadline"@, "plan"@, "roadmap"@, "release"@]
}

/// The intent of a request text, decided on its ASCII-lower-cased form:
/// an explicit "remember" is a memorize command; then preference words,
/// then planning words; then personal and workspace words decide between
/// personal, workspace and mixed; a question with neither is factual recall.
pub open spec fn intent_of(message: Seq<char>) -> MemoryIntent {
    let n = lower(message);
    if contains(n, "remember "@) || contains(n, "remember that"@) {
        MemoryIntent::MemorizeCommand
    } else if contains_some(n, preference_words()) {
        MemoryIntent::PreferenceSensitive
    } else if contains_some(n, planning_words()) {
        MemoryIntent::PlanningTask
    } else {
        let personal = contains_some(n, personal_words());
        let workspace = contains_some(n, workspace_words());
        if personal && workspace {
            MemoryIntent::Mixed
        } else if personal {
            MemoryIntent::Personal
        } else if workspace {
            MemoryIntent::Workspace
        } else if ends_with(n, "?"@) {
            MemoryIntent::FactualRecall
        } else {
            MemoryIntent::General
        }
    }
}

/// An explicit "remember " or "remember that" makes a request a memorize
/// command, whatever else it says.
pub proof fn law_remember_is_memorize(message: Seq<char>)
    ensures
        contains(lower(message), "remember "@) || contains(lower(message), "remember that"@)
            ==> intent_of(message) == MemoryIntent::MemorizeCommand,
{
}

/// The classes in their order: without "remember", a preference word makes
/// a request preference-sensitive; without either, a planning word makes
/// it a planning task; with none of these and neither a personal nor a
/// workspace word, a question is factual recall and anything else general.
pub proof fn law_intent_order(message: Seq<char>, i: int)
    ensures
        ({
            let n = lower(message);
            let remember = contains(n, "remember "@) || contains(n, "remember that"@);
            &&& !remember && 0 <= i < preference_words().len() && contains(n, preference_words()[i])
                ==> intent_of(message) == MemoryIntent::PreferenceSensitive
            &&& !remember && !contains_some(n, preference_words()) && 0 <= i < planning_words().len() && contains(
                n,
                planning_words()[i],
            ) ==> intent_of(message) == MemoryIntent::PlanningTask
            &&& !remember && !contains_some(n, preference_words()) && !contains_some(n, planning_words())
                && !contains_some(n, personal_words()) && !contains_some(n, workspace_words()) ==> (
            intent_of(message) == if ends_with(n, "?"@) {
                MemoryIntent::FactualRecall
            } else {
                MemoryIntent::General
            })
        }),
{
    let n = lower(message);
    if 0 <= i < preference_words().len() && contains(n, preference_words()[i]) {
        assert(contains_some(n, preference_words()));
    }
    if 0 <= i < planning_words().len() && contains(n, planning_words()[i]) {
        assert(contains_some(n, planning_words()));
    }
}

/// No explicit "remember", preference or planning word occurs in `n`.
pub open spec fn no_earlier_class(n: Seq<char>) -> bool {
    &&& !contains(n, "remember "@)
    &&& !contains(n, "remember that"@)
    &&& forall|i: int| 0 <= i < preference_words().len() ==> !contains(n, #[trigger] preference_words()[i])
    &&& forall|i: int| 0 <= i < planning_words().len() ==> !contains(n, #[trigger] planning_words()[i])
}

/// A request with a personal word and a workspace word (and no explicit
/// "remember", preference or planning word) is mixed; with a personal
/// word and no workspace word it is personal; with a workspace word and no
/// personal word it is workspace.
pub proof fn law_personal_and_workspace_words(message: Seq<char>, p: int, w: int)
    requires
        no_earlier_class(lower(message)),
        0 <= p < personal_words().len(),
        0 <= w < workspace_words().len(),
    ensures
        contains(lower(message), personal_words()[p]) && contains(lower(message), workspace_words()[w])
            ==> intent_of(message) == MemoryIntent::Mixed,
        contains(lower(message), personal_words()[p]) && (forall|k: int|
            0 <= k < workspace_words().len() ==> !contains(lower(message), #[trigger] workspace_words()[k]))
            ==> intent_of(message) == MemoryIntent::Personal,
        contains(lower(message), workspace_words()[w]) && (forall|k: int|
            0 <= k < personal_words().len() ==> !contains(lower(message), #[trigger] personal_words()[k]))
            ==> intent_of(message) == MemoryIntent::Workspace,
{
    let n = lower(message);
    assert(!contains_some(n, preference_words()));
    assert(!contains_some(n, planning_words()));
    if contains(n, personal_words()[p]) {
        assert(contains_some(n, personal_words()));
    }
    if contains(n, workspace_words()[w]) {
        assert(contains_some(n, workspace_words()));
    }
}

/// Classifies the intent of a request.
pub fn classify_intent(message: &str) -> (r: MemoryIntent)
    ensures
        r == intent_of(message@),
{
    let normalized = to_lower(message);
    let n = normalized.as_str();
    if str_contains(n, "remember ") || str_contains(n, "remember that") {
        return MemoryIntent::MemorizeCommand;
    }
    let pref: [&str; 6] = ["prefer", "preference", "style", "tone", "language", "concise"];
    assert(strs_of(pref@) =~= preference_words());
    if contains_any(n, &pref) {
        return MemoryIntent::PreferenceSensitive;
    }
    let plan: [&str; 6] = ["plan", "todo", "task", "deadline", "next step", "roadmap"];
    assert(strs_of(plan@) =~= planning_words());
    if contains_any(n, &plan) {
        return MemoryIntent::PlanningTask;
    }
    let pers: [&str; 6] = ["i ", "my ", "me ", "myself", "personal", "prefer"];
    assert(strs_of(pers@) =~= personal_words());
    let personal = contains_any(n, &pers);
    let ws: [&str; 7] = ["team", "workspace", "project", "release", "repo", "sprint", "our "];
    assert(strs_of(ws@) =~= workspace_words());
    let workspace = contains_any(n, &ws);
    if personal && workspace {
        MemoryIntent::Mixed
    } else if personal {
        MemoryIntent::Personal
    } else if workspace {
        MemoryIntent::Workspace
    } else if str_ends_with(n, "?") {
        MemoryIntent::FactualRecall
    } else {
        MemoryIntent::General
    }
}

/// The content of the last message with role `user`, or the empty text.
pub open spec fn latest_user_text(messages: Seq<Message>) -> Seq<char>
    decreases messages.len(),
{
    if messages.len() == 0 {
        Seq::empty()
    } else if messages.last().role@ == "user"@ {
        messages.last().content@
    } else {
        latest_user_text(messages.drop_last())
    }
}

/// The content of the latest user message.
pub fn latest_user_message(messages: &[Message]) -> (r: &str)
    ensures
        r@ == latest_user_text(messages@),
{
    let mut i = messages.len();
    assert(messages@.take(i as int) =~= messages@);
    while i > 0
        invariant
            i <= messages.len(),
            latest_user_text(messages@) == latest_user_text(messages@.take(i as int)),
        decreases i,
    {
        proof {
            assert(messages@.take(i as int).drop_last() =~= messages@.take(i - 1));
            assert(messages@.take(i as int).last() == messages@[i - 1]);
        }
        if str_eq(messages[i - 1].role.as_str(), "user") {
            return messages[i - 1].content.as_str();
        }
        i = i - 1;
    }
    proof {
        reveal_strlit("");
        assert(messages@.take(0) =~= Seq::<Message>::empty());
    }
    ""
}

// ----- signals and sections -----

/// The title of an entry, or the empty text.
pub open spec fn title_text(e: MemoryEntryView) -> Seq<char> {
    match e.title {
        Some(t) => t,
        None => Seq::empty(),
    }
}

/// A keyword occurs in the lower-cased title, value or key, or equals a tag
/// up to ASCII case.
pub open spec fn keyword_in(e: MemoryEntryView, keywords: Seq<Seq<char>>) -> bool {
    ||| contains_some(lower(title_text(e)), keywords)
    ||| contains_some(lower(e.value), keywords)
    ||| contains_some(lower(e.key), keywords)
    ||| exists|t: int, k: int|
        0 <= t < e.tags.len() && 0 <= k < keywords.len() && lower(#[trigger] e.tags[t]) == lower(
            #[trigger] keywords[k],
        )
}

fn eq_ignore_ascii_case(a: &str, b: &str) -> (r: bool)
    ensures
        r == (lower(a@) == lower(b@)),
{
    let x = to_lower(a);
    let y = to_lower(b);
    str_eq(x.as_str(), y.as_str())
}

/// Whether a keyword occurs in the entry's text or tags.
pub fn has_keyword(entry: &MemoryEntry, keywords: &[&str]) -> (r: bool)
    ensures
        r == keyword_in(entry@, strs_of(keywords@)),
{
    let title = match &entry.title {
        Some(t) => to_lower(t.as_str()),
        None => {
            proof {
                reveal_strlit("");
                assert(lower(Seq::<char>::empty()) =~= Seq::<char>::empty());
            }
            to_lower("")
        },
    };
    proof {
        reveal_strlit("");
        assert(""@ =~= Seq::<char>::empty());
    }
    if contains_any(title.as_str(), keywords) {
        return true;
    }
    let value = to_lower(entry.value.as_str());
    if contains_any(value.as_str(), keywords) {
        return true;
    }
    let key = to_lower(entry.key.as_str());
    if contains_any(key.as_str(), keywords) {
        return true;
    }
    let ghost kw = strs_of(keywords@);
    let ghost tags = entry@.tags;
    let mut t: usize = 0;
    while t < entry.tags.len()
        invariant
            t <= entry.tags.len(),
            kw == strs_of(keywords@),
            tags == entry@.tags,
            forall|a: int, k: int| 0 <= a < t && 0 <= k < kw.len() ==> lower(#[trigger] tags[a]) != lower(#[trigger] kw[k]),
        decreases entry.tags.len() - t,
    {
        let mut k: usize = 0;
        while k < keywords.len()
            invariant
                k <= keywords.len(),
                t < entry.tags.len(),
                kw == strs_of(keywords@),
                tags == entry@.tags,
                forall|a: int, b: int| 0 <= a < t && 0 <= b < kw.len() ==> lower(#[trigger] tags[a]) != lower(#[trigger] kw[b]),
                forall|b: int| 0 <= b < k ==> lower(tags[t as int]) != lower(#[trigger] kw[b]),
            decreases keywords.len() - k,
        {
            assert(tags[t as int] == entry.tags@[t as int]@);
            assert(kw[k as int] == keywords@[k as int]@);
            if eq_ignore_ascii_case(entry.tags[t].as_str(), keywords[k]) {
                return true;
            }
            k = k + 1;
        }
        t = t + 1;
    }
    false
}

/// The entry mentions a goal.
pub fn has_goal_signal(entry: &MemoryEntry) -> (r: bool)
    ensures
        r == keyword_in(entry@, goal_words()),
{
    let kw: [&str; 6] = ["goal", "task", "deadline", "plan", "roadmap", "release"];
    assert(strs_of(kw@) =~= goal_words());
    has_keyword(entry, &kw)
}

/// The entry states a preference, or is procedural.
pub fn has_preference_signal(entry: &MemoryEntry) -> (r: bool)
    ensures
        r == (keyword_in(entry@, preference_words()) || entry.memory_type == MemoryType::Procedural),
{
    let kw: [&str; 6] = ["prefer", "preference", "style", "tone", "language", "concise"];
    assert(strs_of(kw@) =~= preference_words());
    has_keyword(entry, &kw) || entry.memory_type == MemoryType::Procedural
}

/// The pack section an entry belongs to, in order of precedence: thread
/// scope, pinned, workspace scope, goals, episodic, preferences, profile.
pub open spec fn section_of(e: MemoryEntryView) -> Seq<char> {
    if e.scope == MemoryScope::Thread {
        "thread_memory"@
    } else if e.pinned || e.memory_type == MemoryType::Pinned {
        "pinned_memory"@
    } else if e.scope == MemoryScope::Workspace {
        "workspace_context"@
    } else if keyword_in(e, goal_words()) {
        "active_goals"@
    } else if e.memory_type == MemoryType::Episodic {
        "relevant_episodic"@
    } else if keyword_in(e, preference_words()) || e.memory_type == MemoryType::Procedural {
        "user_preferences"@
    } else {
        "user_profile"@
    }
}

/// The pack section of an entry.
pub fn section_name(entry: &MemoryEntry) -> (r: &'static str)
    ensures
        r@ == section_of(entry@),
{
    if entry.scope == MemoryScope::Thread {
        return "thread_memory";
    }
    if entry.pinned || entry.memory_type == MemoryType::Pinned {
        return "pinned_memory";
    }
    if entry.scope == MemoryScope::Workspace {
        return "workspace_context";
    }
    if has_goal_signal(entry) {
        return "active_goals";
    }
    if entry.memory_type == MemoryType::Episodic {
        return "relevant_episodic";
    }
    if has_preference_signal(entry) {
        return "user_preferences";
    }
    "user_profile"
}

/// The title shown for an entry: its title, or its key when the title is
/// missing or blank.
pub open spec fn display_title_of(e: MemoryEntryView) -> Seq<char> {
    if is_blank(title_text(e)) {
        e.key
    } else {
        title_text(e)
    }
}

/// The title shown for an entry.
pub fn display_title(entry: &MemoryEntry) -> (r: String)
    ensures
        r@ == display_title_of(entry@),
{
    match &entry.title {
        Some(t) => {
            let trimmed = str_trim(t.as_str());
            proof {
                lemma_trim_blank(t@);
            }
            if trimmed.as_str().is_empty() {
                entry.key.clone()
            } else {
                t.clone()
            }
        },
        None => entry.key.clone(),
    }
}

// ----- labels -----

pub open spec fn intent_text(intent: MemoryIntent) -> Seq<char> {
    match intent {
        MemoryIntent::Personal => "personal"@,
        MemoryIntent::Workspace => "workspace"@,
        MemoryIntent::Mixed => "mixed"@,
        MemoryIntent::MemorizeCommand => "memorize_command"@,
        MemoryIntent::FactualRecall => "factual_recall"@,
        MemoryIntent::PlanningTask => "planning_task"@,
        MemoryIntent::PreferenceSensitive => "preference_sensitive"@,
        MemoryIntent::General => "general"@,
    }
}

/// The label of an intent.
pub fn intent_label(intent: MemoryIntent) -> (r: &'static str)
    ensures
        r@ == intent_text(intent),
{
    match intent {
        MemoryIntent::Personal => "personal",
        MemoryIntent::Workspace => "workspace",
        MemoryIntent::Mixed => "mixed",
        MemoryIntent::MemorizeCommand => "memorize_command",
        MemoryIntent::FactualRecall => "factual_recall",
        MemoryIntent::PlanningTask => "planning_task",
        MemoryIntent::PreferenceSensitive => "preference_sensitive",
        MemoryIntent::General => "general",
    }
}

pub open spec fn scope_text(scope: MemoryScope) -> Seq<char> {
    match scope {
        MemoryScope::Thread => "thread"@,
        MemoryScope::User => "user"@,
        MemoryScope::Workspace => "workspace"@,
        MemoryScope::System => "system"@,
    }
}

/// The label of a scope.
pub fn scope_label(scope: MemoryScope) -> (r: &'static str)
    ensures
        r@ == scope_text(scope),
{
    match scope {
        MemoryScope::Thread => "thread",
        MemoryScope::User => "user",
        MemoryScope::Workspace => "workspace",
        MemoryScope::System => "system",
    }
}

pub open spec fn memory_type_text(t: MemoryType) -> Seq<char> {
    match t {
        MemoryType::Profile => "profile"@,
        MemoryType::Episodic => "episodic"@,
        MemoryType::Semantic => "semantic"@,
        MemoryType::Procedural => "procedural"@,
        MemoryType::Pinned => "pinned"@,
    }
}

/// The label of a memory type.
pub fn memory_type_label(memory_type: MemoryType) -> (r: &'static str)
    ensures
        r@ == memory_type_text(memory_type),
{
    match memory_type {
        MemoryType::Profile => "profile",
        MemoryType::Episodic => "episodic",
        MemoryType::Semantic => "semantic",
        MemoryType::Procedural => "procedural",
        MemoryType::Pinned => "pinned",
    }
}

/// One rendered item line: `- [scope/type( pinned)] title: value`.
pub open spec fn item_line(item: MemoryPackItem) -> Seq<char> {
    let meta = if item.pinned {
        "["@ + scope_text(item.scope) + "/"@ + memory_type_text(item.memory_type) + " pinned]"@
    } else {
        "["@ + scope_text(item.scope) + "/"@ + memory_type_text(item.memory_type) + "]"@
    };
    "- "@ + meta + " "@ + item.title@ + ": "@ + item.value@ + "\n"@
}

/// Renders one pack item as a line.
pub fn render_item_line(item: &MemoryPackItem) -> (r: String)
    ensures
        r@ == item_line(*item),
{
    let mut s = owned("- ");
    push_str(&mut s, "[");
    push_str(&mut s, scope_label(item.scope));
    push_str(&mut s, "/");
    push_str(&mut s, memory_type_label(item.memory_type));
    if item.pinned {
        push_str(&mut s, " pinned]");
    } else {
        push_str(&mut s, "]");
    }
    push_str(&mut s, " ");
    push_str(&mut s, item.title.as_str());
    push_str(&mut s, ": ");
    push_str(&mut s, item.value.as_str());
    push_str(&mut s, "\n");
    assert(s@ =~= item_line(*item));
    s
}

/// A value on one line, words separated by one space, cut to 220
/// characters with `...` after a cut.
pub open spec fn condensed(value: Seq<char>) -> Seq<char> {
    let line = joined(ws_split(value), " "@);
    if line.len() > 220 {
        line.take(220) + "..."@
    } else {
        line
    }
}

/// Puts a value on one line and cuts it to 220 characters.
pub fn condensed_value(value: &str) -> (r: String)
    ensures
        r@ == condensed(value@),
{
    let words = split_whitespace(value);
    let line = join(words.as_slice(), " ");
    let cs = to_chars(line.as_str());
    if cs.len() > 220 {
        let mut out = take_chars(line.as_str(), 220);
        push_str(&mut out, "...");
        out
    } else {
        line
    }
}

/// The line an entry is rendered as.
pub open spec fn entry_line(e: MemoryEntryView) -> Seq<char> {
    let meta = if e.pinned {
        "["@ + scope_text(e.scope) + "/"@ + memory_type_text(e.memory_type) + " pinned]"@
    } else {
        "["@ + scope_text(e.scope) + "/"@ + memory_type_text(e.memory_type) + "]"@
    };
    "- "@ + meta + " "@ + display_title_of(e) + ": "@ + condensed(e.value) + "\n"@
}

/// The pack item rendered for an entry.
pub open spec fn item_for(item: MemoryPackItem, e: MemoryEntryView) -> bool {
    &&& item.key@ == e.key
    &&& item.title@ == display_title_of(e)
    &&& item.value@ == condensed(e.value)
    &&& item.scope == e.scope
    &&& item.scope_id@ == entry_scope_id(e)
    &&& item.memory_type == e.memory_type
    &&& item.pinned == e.pinned
}

/// The pack item of an entry.
pub fn pack_item(entry: &MemoryEntry) -> (r: MemoryPackItem)
    ensures
        item_for(r, entry@),
        item_line(r) == entry_line(entry@),
{
    MemoryPackItem {
        key: entry.key.clone(),
        title: display_title(entry),
        value: condensed_value(entry.value.as_str()),
        scope: entry.scope,
        scope_id: match &entry.scope_id {
            Some(s) => s.clone(),
            None => String::new(),
        },
        memory_type: entry.memory_type,
        pinned: entry.pinned,
    }
}

/// The sections of the pack, in the order they are filled and rendered.
pub open spec fn section_keys() -> Seq<Seq<char>> {
    seq![
        "thread_memory"@,
        "pinned_memory"@,
        "user_preferences"@,
        "user_profile"@,
        "active_goals"@,
        "workspace_context"@,
        "relevant_episodic"@,
    ]
}

/// The titles of the sections.
pub open spec fn section_titles() -> Seq<Seq<char>> {
    seq![
        "Thread Memory"@,
        "Pinned Memory"@,
        "User Preferences"@,
        "User Profile"@,
        "Active Goals"@,
        "Workspace Context"@,
        "Relevant Episodic"@,
    ]
}

/// Positions of the first `n` entries that belong to section `key`.
pub open spec fn in_section(es: Seq<MemoryEntryView>, key: Seq<char>, n: int) -> Seq<int>
    decreases n,
{
    if n <= 0 {
        Seq::empty()
    } else if section_of(es[n - 1]) == key {
        in_section(es, key, n - 1).push(n - 1)
    } else {
        in_section(es, key, n - 1)
    }
}

/// The order entries are considered in: section by section, and in the
/// given order within a section.
pub open spec fn visit_order(es: Seq<MemoryEntryView>, sections: int) -> Seq<(int, int)>
    decreases sections,
{
    if sections <= 0 {
        Seq::empty()
    } else {
        visit_order(es, sections - 1) + in_section(es, section_keys()[sections - 1], es.len() as int).map_values(
            |i: int| (sections - 1, i),
        )
    }
}

/// Entries taken while the budget allows, each with its section: an entry
/// whose line, with its section's title and 8 more characters, would take
/// the count past `max` is left out and marks the pack truncated.
pub open spec fn fill(es: Seq<MemoryEntryView>, order: Seq<(int, int)>, max: int) -> (Seq<(int, int)>, bool, int)
    decreases order.len(),
{
    if order.len() == 0 {
        (Seq::empty(), false, 0)
    } else {
        let (acc, truncated, used) = fill(es, order.drop_last(), max);
        let (si, i) = order.last();
        let line = byte_len(entry_line(es[i]));
        if used + byte_len(section_titles()[si]) + line + 8 > max {
            (acc, true, used)
        } else {
            (acc.push((si, i)), truncated, used + line)
        }
    }
}

/// The positions of the taken entries of section `si`, in order.
pub open spec fn section_entries(acc: Seq<(int, int)>, si: int) -> Seq<int>
    decreases acc.len(),
{
    if acc.len() == 0 {
        Seq::empty()
    } else if acc.last().0 == si {
        section_entries(acc.drop_last(), si).push(acc.last().1)
    } else {
        section_entries(acc.drop_last(), si)
    }
}

/// The first `k` sections that hold a taken entry.
pub open spec fn present_sections(acc: Seq<(int, int)>, k: int) -> Seq<int>
    decreases k,
{
    if k <= 0 {
        Seq::empty()
    } else if section_entries(acc, k - 1).len() > 0 {
        present_sections(acc, k - 1).push(k - 1)
    } else {
        present_sections(acc, k - 1)
    }
}

/// Characters the warnings take: each with four more.
pub open spec fn warning_chars(ws: Seq<Seq<char>>) -> int
    decreases ws.len(),
{
    if ws.len() == 0 {
        0
    } else {
        warning_chars(ws.drop_last()) + byte_len(ws.last()) + 4
    }
}

/// The warning given when nothing was selected.
pub open spec fn no_match_warning() -> Seq<char> {
    "No scoped memory matched this request."@
}

/// A memory pack and what went into it.
pub struct AssembledPack {
    pub pack: MemoryPack,
    /// (section, position) of every entry taken, in the order taken.
    pub selected: Vec<(usize, usize)>,
    pub truncated: bool,
    pub injected_chars: usize,
}

pub open spec fn pairs_int(v: Seq<(usize, usize)>) -> Seq<(int, int)> {
    v.map_values(|p: (usize, usize)| (p.0 as int, p.1 as int))
}

/// The pack's sections are the sections that took an entry, in order, each
/// with its taken entries in order.
pub open spec fn sections_match(sections: Seq<MemoryPackSection>, es: Seq<MemoryEntryView>, acc: Seq<(int, int)>, k: int) -> bool {
    let present = present_sections(acc, k);
    &&& sections.len() == present.len()
    &&& forall|j: int| 0 <= j < sections.len() ==> {
        let si = present[j];
        let idx = section_entries(acc, si);
        &&& (#[trigger] sections[j]).name@ == section_keys()[si]
        &&& sections[j].title@ == section_titles()[si]
        &&& sections[j].entries@.len() == idx.len()
        &&& forall|t: int| 0 <= t < idx.len() ==> item_for(#[trigger] sections[j].entries@[t], es[idx[t]])
    }
}

proof fn lemma_section_entries_other(acc: Seq<(int, int)>, x: (int, int), si: int)
    requires
        x.0 != si,
    ensures
        section_entries(acc.push(x), si) == section_entries(acc, si),
{
    assert(acc.push(x).drop_last() =~= acc);
}

proof fn lemma_section_entries_same(acc: Seq<(int, int)>, x: (int, int))
    ensures
        section_entries(acc.push(x), x.0) == section_entries(acc, x.0).push(x.1),
{
    assert(acc.push(x).drop_last() =~= acc);
}

proof fn lemma_section_entries_absent(acc: Seq<(int, int)>, si: int)
    requires
        forall|k: int| 0 <= k < acc.len() ==> (#[trigger] acc[k]).0 < si,
    ensures
        section_entries(acc, si) == Seq::<int>::empty(),
    decreases acc.len(),
{
    if acc.len() > 0 {
        lemma_section_entries_absent(acc.drop_last(), si);
        assert(acc[acc.len() - 1].0 < si);
    }
}

proof fn lemma_present_stable(a: Seq<(int, int)>, b: Seq<(int, int)>, k: int)
    requires
        forall|j: int| 0 <= j < k ==> #[trigger] section_entries(a, j) == section_entries(b, j),
    ensures
        present_sections(a, k) == present_sections(b, k),
    decreases k,
{
    if k > 0 {
        lemma_present_stable(a, b, k - 1);
        assert(section_entries(a, k - 1) == section_entries(b, k - 1));
    }
}

proof fn lemma_present_bound(acc: Seq<(int, int)>, k: int)
    ensures
        forall|j: int| 0 <= j < present_sections(acc, k).len() ==> 0 <= #[trigger] present_sections(acc, k)[j] < k,
        k >= 0 ==> present_sections(acc, k).len() <= k,
    decreases k,
{
    if k > 0 {
        lemma_present_bound(acc, k - 1);
    }
}

fn section_key(si: usize) -> (r: (&'static str, &'static str))
    requires
        si < 7,
    ensures
        r.0@ == section_keys()[si as int],
        r.1@ == section_titles()[si as int],
{
    if si == 0 {
        ("thread_memory", "Thread Memory")
    } else if si == 1 {
        ("pinned_memory", "Pinned Memory")
    } else if si == 2 {
        ("user_preferences", "User Preferences")
    } else if si == 3 {
        ("user_profile", "User Profile")
    } else if si == 4 {
        ("active_goals", "Active Goals")
    } else if si == 5 {
        ("workspace_context", "Workspace Context")
    } else {
        ("relevant_episodic", "Relevant Episodic")
    }
}

proof fn lemma_warning_chars_prefix(ws: Seq<Seq<char>>, k: int)
    requires
        0 <= k <= ws.len(),
    ensures
        warning_chars(ws.take(k)) <= warning_chars(ws),
    decreases ws.len() - k,
{
    if k < ws.len() {
        lemma_warning_chars_prefix(ws, k + 1);
        assert(ws.take(k + 1).drop_last() =~= ws.take(k));
    } else {
        assert(ws.take(k) =~= ws);
    }
}

/// Fills the pack from entries already ranked best first: section by
/// section, each entry while the character budget allows, then the
/// warnings, of which only the first is kept when they do not fit.
#[verifier::rlimit(50)]
pub fn assemble_pack(ordered: &[MemoryEntry], intent: MemoryIntent, warnings: Vec<String>, max_chars: usize) -> (r: AssembledPack)
    ensures
        ({
            let es = entries_view(ordered@);
            let (acc, truncated, used) = fill(es, visit_order(es, 7), max_chars as int);
            let w0 = if present_sections(acc, 7).len() == 0 && warnings@.len() == 0 {
                seq![no_match_warning()]
            } else {
                strs_view(warnings@)
            };
            &&& r.pack.intent == intent
            &&& pairs_int(r.selected@) == acc
            &&& sections_match(r.pack.sections@, es, acc, 7)
            &&& if used + warning_chars(w0) > max_chars && w0.len() > 0 {
                &&& strs_view(r.pack.warnings@) == w0.take(1)
                &&& r.truncated
                &&& r.injected_chars == used
            } else {
                &&& strs_view(r.pack.warnings@) == w0
                &&& r.truncated == truncated
                &&& r.injected_chars == used + warning_chars(w0)
            }
        }),
{
    let ghost es = entries_view(ordered@);
    let mut sections: Vec<MemoryPackSection> = Vec::new();
    let mut selected: Vec<(usize, usize)> = Vec::new();
    let mut truncated = false;
    let mut used: usize = 0;
    let mut si: usize = 0;
    assert(pairs_int(selected@) =~= Seq::<(int, int)>::empty());
    while si < 7
        invariant
            si <= 7,
            es == entries_view(ordered@),
            used <= max_chars,
            (pairs_int(selected@), truncated, used as int) == fill(es, visit_order(es, si as int), max_chars as int),
            forall|k: int| 0 <= k < selected@.len() ==> (#[trigger] selected@[k]).0 < si,
            sections_match(sections@, es, pairs_int(selected@), si as int),
        decreases 7 - si,
    {
        let (key, title) = section_key(si);
        let title_len = str_len(title);
        let mut rendered: Vec<MemoryPackItem> = Vec::new();
        let ghost acc0 = pairs_int(selected@);
        let ghost base = visit_order(es, si as int);
        proof {
            lemma_section_entries_absent(acc0, si as int);
            assert(in_section(es, key@, 0).map_values(|j: int| (si as int, j)) =~= Seq::<(int, int)>::empty());
            assert(base + in_section(es, key@, 0).map_values(|j: int| (si as int, j)) =~= base);
        }
        let mut i: usize = 0;
        while i < ordered.len()
            invariant
                si < 7,
                i <= ordered.len(),
                es == entries_view(ordered@),
                used <= max_chars,
                key@ == section_keys()[si as int],
                title_len == byte_len(section_titles()[si as int]),
                base == visit_order(es, si as int),
                (pairs_int(selected@), truncated, used as int) == fill(
                    es,
                    base + in_section(es, key@, i as int).map_values(|j: int| (si as int, j)),
                    max_chars as int,
                ),
                acc0.len() <= selected@.len(),
                forall|k: int| 0 <= k < acc0.len() ==> #[trigger] pairs_int(selected@)[k] == acc0[k],
                forall|k: int| 0 <= k < acc0.len() ==> (#[trigger] acc0[k]).0 < si,
                forall|k: int| acc0.len() <= k < selected@.len() ==> (#[trigger] selected@[k]).0 == si,
                forall|k: int| 0 <= k < selected@.len() ==> (#[trigger] selected@[k]).0 <= si,
                rendered@.len() == section_entries(pairs_int(selected@), si as int).len(),
                forall|t: int| 0 <= t < rendered@.len() ==> item_for(#[trigger] rendered@[t], es[section_entries(pairs_int(selected@), si as int)[t]]),
                forall|j: int| 0 <= j < si ==> #[trigger] section_entries(pairs_int(selected@), j) == section_entries(acc0, j),
            decreases ordered.len() - i,
        {
            let e = &ordered[i];
            let ghost order = base + in_section(es, key@, i as int).map_values(|j: int| (si as int, j));
            let in_this = str_eq(section_name(e), key);
            if in_this {
                let ghost order2 = base + in_section(es, key@, i as int + 1).map_values(|j: int| (si as int, j));
                assert(order2 =~= order.push((si as int, i as int)));
                assert(order2.drop_last() =~= order);
                let item = pack_item(e);
                let line = render_item_line(&item);
                let line_len = str_len(line.as_str());
                let need: u128 = used as u128 + title_len as u128 + line_len as u128 + 8;
                if need > max_chars as u128 {
                    truncated = true;
                } else {
                    let ghost prev = pairs_int(selected@);
                    used = used + line_len;
                    selected.push((si, i));
                    assert(pairs_int(selected@) =~= prev.push((si as int, i as int)));
                    proof {
                        lemma_section_entries_same(prev, (si as int, i as int));
                        assert forall|j: int| 0 <= j < si implies #[trigger] section_entries(pairs_int(selected@), j) == section_entries(acc0, j) by {
                            lemma_section_entries_other(prev, (si as int, i as int), j);
                        }
                    }
                    rendered.push(item);
                }
            } else {
                assert(base + in_section(es, key@, i as int + 1).map_values(|j: int| (si as int, j)) =~= order);
            }
            i = i + 1;
        }
        let ghost acc1 = pairs_int(selected@);
        proof {
            assert(visit_order(es, si as int + 1) == base + in_section(es, section_keys()[si as int], es.len() as int).map_values(
                |j: int| (si as int, j),
            ));
            lemma_present_stable(acc1, acc0, si as int);
            lemma_present_bound(acc0, si as int);
        }
        if rendered.len() > 0 {
            let ghost old_sections = sections@;
            sections.push(MemoryPackSection { name: owned(key), title: owned(title), entries: rendered });
            proof {
                assert(present_sections(acc1, si as int + 1) == present_sections(acc1, si as int).push(si as int));
                assert forall|j: int| 0 <= j < sections@.len() implies {
                    let sj = present_sections(acc1, si as int + 1)[j];
                    let idx = section_entries(acc1, sj);
                    &&& (#[trigger] sections@[j]).name@ == section_keys()[sj]
                    &&& sections@[j].title@ == section_titles()[sj]
                    &&& sections@[j].entries@.len() == idx.len()
                    &&& forall|t: int| 0 <= t < idx.len() ==> item_for(#[trigger] sections@[j].entries@[t], es[idx[t]])
                } by {
                    if j < old_sections.len() {
                        let sj = present_sections(acc0, si as int)[j];
                        assert(section_entries(acc1, sj) == section_entries(acc0, sj));
                    }
                }
            }
        } else {
            proof {
                assert(present_sections(acc1, si as int + 1) == present_sections(acc1, si as int));
                assert forall|j: int| 0 <= j < sections@.len() implies {
                    let sj = present_sections(acc1, si as int + 1)[j];
                    let idx = section_entries(acc1, sj);
                    &&& (#[trigger] sections@[j]).name@ == section_keys()[sj]
                    &&& sections@[j].title@ == section_titles()[sj]
                    &&& sections@[j].entries@.len() == idx.len()
                    &&& forall|t: int| 0 <= t < idx.len() ==> item_for(#[trigger] sections@[j].entries@[t], es[idx[t]])
                } by {
                    let sj = present_sections(acc0, si as int)[j];
                    assert(section_entries(acc1, sj) == section_entries(acc0, sj));
                }
            }
        }
        si = si + 1;
    }
    let ghost acc = pairs_int(selected@);
    let mut warnings = warnings;
    let ghost w_in = strs_view(warnings@);
    if sections.len() == 0 && warnings.len() == 0 {
        warnings.push(owned("No scoped memory matched this request."));
        assert(strs_view(warnings@) =~= seq![no_match_warning()]);
    }
    let ghost w0 = strs_view(warnings@);
    let mut wc: u128 = 0;
    let mut over = false;
    let mut k: usize = 0;
    while k < warnings.len() && !over
        invariant
            k <= warnings.len(),
            w0 == strs_view(warnings@),
            !over ==> wc == warning_chars(w0.take(k as int)) && wc <= max_chars,
            over ==> warning_chars(w0) > max_chars,
        decreases warnings.len() - k,
    {
        assert(w0.take(k as int + 1).drop_last() =~= w0.take(k as int));
        let l = str_len(warnings[k].as_str());
        wc = wc + l as u128 + 4;
        k = k + 1;
        if wc > max_chars as u128 {
            proof {
                lemma_warning_chars_prefix(w0, k as int);
            }
            over = true;
        }
    }
    if !over {
        assert(w0.take(warnings.len() as int) =~= w0);
    }
    let mut injected_chars = used;
    if (over || used as u128 + wc > max_chars as u128) && warnings.len() > 0 {
        truncated = true;
        warnings.truncate(1);
        assert(strs_view(warnings@) =~= w0.take(1));
    } else {
        injected_chars = used + wc as usize;
    }
    AssembledPack { pack: MemoryPack { intent, sections, warnings }, selected, truncated, injected_chars }
}

/// The lines of a section's items.
pub open spec fn items_text(items: Seq<MemoryPackItem>) -> Seq<char>
    decreases items.len(),
{
    if items.len() == 0 {
        Seq::empty()
    } else {
        items_text(items.drop_last()) + item_line(items.last())
    }
}

/// A section in its tags.
pub open spec fn section_text(sec: MemoryPackSection) -> Seq<char> {
    "<"@ + sec.name@ + ">\n"@ + items_text(sec.entries@) + "</"@ + sec.name@ + ">\n\n"@
}

/// The sections, one after the other.
pub open spec fn sections_text(secs: Seq<MemoryPackSection>) -> Seq<char>
    decreases secs.len(),
{
    if secs.len() == 0 {
        Seq::empty()
    } else {
        sections_text(secs.drop_last()) + section_text(secs.last())
    }
}

/// The warnings as a list.
pub open spec fn warning_lines(ws: Seq<String>) -> Seq<char>
    decreases ws.len(),
{
    if ws.len() == 0 {
        Seq::empty()
    } else {
        warning_lines(ws.drop_last()) + "- "@ + ws.last()@ + "\n"@
    }
}

pub open spec fn bool_text(b: bool) -> Seq<char> {
    if b {
        "true"@
    } else {
        "false"@
    }
}

/// The opening of the pack, with its intent.
pub open spec fn pack_head(intent: MemoryIntent) -> Seq<char> {
    "DEEPAGENTS_MEMORY_INJECTED_V2\n<memory_pack>\n<intent>"@ + intent_text(intent) + "</intent>\n"@
}

/// The warnings block, when there are warnings.
pub open spec fn warnings_block(ws: Seq<String>) -> Seq<char> {
    if ws.len() > 0 {
        "<memory_warnings>\n"@ + warning_lines(ws) + "</memory_warnings>\n\n"@
    } else {
        Seq::empty()
    }
}

/// The close of the pack and the guidelines for using it.
pub open spec fn guidelines_text() -> Seq<char> {
    "</memory_pack>\n\n"@ + "<memory_guidelines>\n"@
        + "The above <memory_pack> is scoped and ranked memory selected for this request.\n"@
        + "Prefer pinned and higher-confidence memories, but always let explicit user corrections override stored memory.\n"@
        + "Never rely on memory from another user, thread, or workspace.\n"@
        + "If the user explicitly asks you to remember something durable, use the structured memory command path when available.\n"@
        + "</memory_guidelines>\n\n"@
}

/// The diagnostics block.
pub open spec fn diagnostics_text(pack: MemoryPack, selected: nat, truncated: bool, injected_chars: nat) -> Seq<char> {
    "<memory_diagnostics>\n"@ + "mode=scoped; intent="@ + intent_text(pack.intent) + "; selected="@ + decimal(selected)
        + "; truncated="@ + bool_text(truncated) + "; injected_chars="@ + decimal(injected_chars) + "; sections="@
        + joined(pack.sections@.map_values(|sec: MemoryPackSection| sec.name@), ","@) + "\n"@
        + "</memory_diagnostics>\n"@
}

/// The text injected for a pack: the pack, the guidelines for using it,
/// and a line of diagnostics.
pub open spec fn memory_pack_text(pack: MemoryPack, selected: nat, truncated: bool, injected_chars: nat) -> Seq<char> {
    pack_head(pack.intent) + sections_text(pack.sections@) + warnings_block(pack.warnings@) + guidelines_text()
        + diagnostics_text(pack, selected, truncated, injected_chars)
}

fn push_sections(buf: &mut String, sections: &Vec<MemoryPackSection>)
    ensures
        final(buf)@ == old(buf)@ + sections_text(sections@),
{
    let ghost head = buf@;
    let mut i: usize = 0;
    while i < sections.len()
        invariant
            i <= sections.len(),
            buf@ == head + sections_text(sections@.take(i as int)),
        decreases sections.len() - i,
    {
        assert(sections@.take(i as int + 1).drop_last() =~= sections@.take(i as int));
        let section = &sections[i];
        let ghost before = buf@;
        let mut part = owned("<");
        push_str(&mut part, section.name.as_str());
        push_str(&mut part, ">\n");
        let ghost open_tag = part@;
        let mut j: usize = 0;
        while j < section.entries.len()
            invariant
                j <= section.entries.len(),
                part@ == open_tag + items_text(section.entries@.take(j as int)),
            decreases section.entries.len() - j,
        {
            assert(section.entries@.take(j as int + 1).drop_last() =~= section.entries@.take(j as int));
            let line = render_item_line(&section.entries[j]);
            push_str(&mut part, line.as_str());
            j = j + 1;
        }
        assert(section.entries@.take(section.entries.len() as int) =~= section.entries@);
        push_str(&mut part, "</");
        push_str(&mut part, section.name.as_str());
        push_str(&mut part, ">\n\n");
        assert(part@ =~= section_text(*section));
        push_str(buf, part.as_str());
        assert(buf@ =~= head + sections_text(sections@.take(i as int + 1)));
        i = i + 1;
    }
    assert(sections@.take(sections.len() as int) =~= sections@);
}

fn push_warnings(buf: &mut String, warnings: &Vec<String>)
    ensures
        final(buf)@ == old(buf)@ + warnings_block(warnings@),
{
    if warnings.len() == 0 {
        assert(buf@ =~= buf@ + warnings_block(warnings@));
        return;
    }
    let mut part = owned("<memory_warnings>\n");
    let ghost wstart = part@;
    let mut k: usize = 0;
    while k < warnings.len()
        invariant
            k <= warnings.len(),
            part@ == wstart + warning_lines(warnings@.take(k as int)),
        decreases warnings.len() - k,
    {
        assert(warnings@.take(k as int + 1).drop_last() =~= warnings@.take(k as int));
        push_str(&mut part, "- ");
        push_str(&mut part, warnings[k].as_str());
        push_str(&mut part, "\n");
        k = k + 1;
    }
    assert(warnings@.take(warnings.len() as int) =~= warnings@);
    push_str(&mut part, "</memory_warnings>\n\n");
    push_str(buf, part.as_str());
}

fn guidelines() -> (r: String)
    ensures
        r@ == guidelines_text(),
{
    let mut buf = owned("</memory_pack>\n\n");
    push_str(&mut buf, "<memory_guidelines>\n");
    push_str(&mut buf, "The above <memory_pack> is scoped and ranked memory selected for this request.\n");
    push_str(&mut buf, "Prefer pinned and higher-confidence memories, but always let explicit user corrections override stored memory.\n");
    push_str(&mut buf, "Never rely on memory from another user, thread, or workspace.\n");
    push_str(&mut buf, "If the user explicitly asks you to remember something durable, use the structured memory command path when available.\n");
    push_str(&mut buf, "</memory_guidelines>\n\n");
    buf
}

fn diagnostics_block(pack: &MemoryPack, selected: usize, truncated: bool, injected_chars: usize) -> (r: String)
    ensures
        r@ == diagnostics_text(*pack, selected as nat, truncated, injected_chars as nat),
{
    let mut buf = owned("<memory_diagnostics>\n");
    push_str(&mut buf, "mode=scoped; intent=");
    push_str(&mut buf, intent_label(pack.intent));
    push_str(&mut buf, "; selected=");
    let n = u64_to_decimal(selected as u64);
    push_str(&mut buf, n.as_str());
    push_str(&mut buf, "; truncated=");
    push_str(&mut buf, if truncated { "true" } else { "false" });
    push_str(&mut buf, "; injected_chars=");
    let n = u64_to_decimal(injected_chars as u64);
    push_str(&mut buf, n.as_str());
    push_str(&mut buf, "; sections=");
    let mut names: Vec<String> = Vec::new();
    let mut i: usize = 0;
    while i < pack.sections.len()
        invariant
            i <= pack.sections.len(),
            names.len() == i,
            forall|t: int| 0 <= t < i ==> #[trigger] names@[t]@ == pack.sections@[t].name@,
        decreases pack.sections.len() - i,
    {
        names.push(pack.sections[i].name.clone());
        i = i + 1;
    }
    assert(names@.map_values(|t: String| t@) =~= pack.sections@.map_values(|sec: MemoryPackSection| sec.name@));
    let joined_names = join(names.as_slice(), ",");
    push_str(&mut buf, joined_names.as_str());
    push_str(&mut buf, "\n");
    push_str(&mut buf, "</memory_diagnostics>\n");
    buf
}

/// Renders a memory pack for injection, with the count of selected entries,
/// whether the pack was truncated and the characters it took.
pub fn render_memory_pack(pack: &MemoryPack, selected: usize, truncated: bool, injected_chars: usize) -> (r: String)
    ensures
        r@ == memory_pack_text(*pack, selected as nat, truncated, injected_chars as nat),
{
    let mut buf = owned("DEEPAGENTS_MEMORY_INJECTED_V2\n<memory_pack>\n<intent>");
    push_str(&mut buf, intent_label(pack.intent));
    push_str(&mut buf, "</intent>\n");
    push_sections(&mut buf, &pack.sections);
    push_warnings(&mut buf, &pack.warnings);
    let g = guidelines();
    push_str(&mut buf, g.as_str());
    let d = diagnostics_block(pack, selected, truncated, injected_chars);
    push_str(&mut buf, d.as_str());
    buf
}

/// The phases of gathering candidates.
#[derive(Debug, Clone, Copy, PartialEq, Eq, Structural)]
pub enum RetrievalPhase {
    RecentThread,
    PinnedExplicit,
    UserScope,
    WorkspaceScope,
}

/// One store query of the gathering: the scope, whether only pinned
/// entries, and how many at most.
#[derive(Debug, Clone)]
pub struct RetrievalQuery {
    pub phase: RetrievalPhase,
    pub scope: MemoryScope,
    pub scope_id: String,
    pub pinned: Option<bool>,
    pub limit: usize,
}

/// A query as values.
pub open spec fn query_view(q: RetrievalQuery) -> (RetrievalPhase, MemoryScope, Seq<char>, Option<bool>, usize) {
    (q.phase, q.scope, q.scope_id@, q.pinned, q.limit)
}

/// One query per workspace.
pub open spec fn per_workspace(ws: Seq<Seq<char>>, phase: RetrievalPhase, pinned: Option<bool>, limit: usize) -> Seq<(RetrievalPhase, MemoryScope, Seq<char>, Option<bool>, usize)> {
    ws.map_values(|w: Seq<char>| (phase, MemoryScope::Workspace, w, pinned, limit))
}

/// The queries that gather candidates for an actor, in order: the thread's
/// 12 latest; the pinned entries (8 at most per query) of the thread, the
/// user and each workspace; the user's 20 latest; each workspace's 20 latest.
pub open spec fn retrieval_plan_of(user: Seq<char>, thread: Seq<char>, ws: Seq<Seq<char>>) -> Seq<(RetrievalPhase, MemoryScope, Seq<char>, Option<bool>, usize)> {
    seq![(RetrievalPhase::RecentThread, MemoryScope::Thread, thread, None, 12usize)]
        + seq![
            (RetrievalPhase::PinnedExplicit, MemoryScope::Thread, thread, Some(true), 8usize),
            (RetrievalPhase::PinnedExplicit, MemoryScope::User, user, Some(true), 8usize),
        ]
        + per_workspace(ws, RetrievalPhase::PinnedExplicit, Some(true), 8)
        + seq![(RetrievalPhase::UserScope, MemoryScope::User, user, None, 20usize)]
        + per_workspace(ws, RetrievalPhase::WorkspaceScope, None, 20)
}

fn push_workspace_queries(out: &mut Vec<RetrievalQuery>, ws: &[String], phase: RetrievalPhase, pinned: Option<bool>, limit: usize)
    ensures
        final(out)@.map_values(|q: RetrievalQuery| query_view(q)) == old(out)@.map_values(|q: RetrievalQuery| query_view(q))
            + per_workspace(ws@.map_values(|s: String| s@), phase, pinned, limit),
{
    let ghost start = out@.map_values(|q: RetrievalQuery| query_view(q));
    let ghost wv = ws@.map_values(|s: String| s@);
    let mut i: usize = 0;
    while i < ws.len()
        invariant
            i <= ws.len(),
            wv == ws@.map_values(|s: String| s@),
            out@.map_values(|q: RetrievalQuery| query_view(q)) == start + per_workspace(wv.take(i as int), phase, pinned, limit),
        decreases ws.len() - i,
    {
        let ghost before = out@.map_values(|q: RetrievalQuery| query_view(q));
        out.push(RetrievalQuery { phase, scope: MemoryScope::Workspace, scope_id: ws[i].clone(), pinned, limit });
        assert(out@.map_values(|q: RetrievalQuery| query_view(q)) =~= before.push((phase, MemoryScope::Workspace, wv[i as int], pinned, limit)));
        assert(per_workspace(wv.take(i as int + 1), phase, pinned, limit) =~= per_workspace(wv.take(i as int), phase, pinned, limit).push(
            (phase, MemoryScope::Workspace, wv[i as int], pinned, limit),
        ));
        i = i + 1;
    }
    assert(wv.take(ws.len() as int) =~= wv);
}

/// The store queries that gather memory candidates for an actor.
pub fn retrieval_plan(actor: &ResolvedMemoryActor) -> (r: Vec<RetrievalQuery>)
    ensures
        r@.map_values(|q: RetrievalQuery| query_view(q)) == retrieval_plan_of(
            actor.user_id@,
            actor.thread_id@,
            actor.workspace_ids.elems(),
        ),
{
    let ws = actor.workspace_ids.as_slice();
    let mut out: Vec<RetrievalQuery> = Vec::new();
    out.push(
        RetrievalQuery {
            phase: RetrievalPhase::RecentThread,
            scope: MemoryScope::Thread,
            scope_id: actor.thread_id.clone(),
            pinned: None,
            limit: 12,
        },
    );
    out.push(
        RetrievalQuery {
            phase: RetrievalPhase::PinnedExplicit,
            scope: MemoryScope::Thread,
            scope_id: actor.thread_id.clone(),
            pinned: Some(true),
            limit: 8,
        },
    );
    out.push(
        RetrievalQuery {
            phase: RetrievalPhase::PinnedExplicit,
            scope: MemoryScope::User,
            scope_id: actor.user_id.clone(),
            pinned: Some(true),
            limit: 8,
        },
    );
    assert(out@.map_values(|q: RetrievalQuery| query_view(q)) =~= seq![
        (RetrievalPhase::RecentThread, MemoryScope::Thread, actor.thread_id@, None, 12usize),
    ] + seq![
        (RetrievalPhase::PinnedExplicit, MemoryScope::Thread, actor.thread_id@, Some(true), 8usize),
        (RetrievalPhase::PinnedExplicit, MemoryScope::User, actor.user_id@, Some(true), 8usize),
    ]);
    push_workspace_queries(&mut out, ws, RetrievalPhase::PinnedExplicit, Some(true), 8);
    let ghost mid = out@.map_values(|q: RetrievalQuery| query_view(q));
    out.push(
        RetrievalQuery {
            phase: RetrievalPhase::UserScope,
            scope: MemoryScope::User,
            scope_id: actor.user_id.clone(),
            pinned: None,
            limit: 20,
        },
    );
    assert(out@.map_values(|q: RetrievalQuery| query_view(q)) =~= mid + seq![
        (RetrievalPhase::UserScope, MemoryScope::User, actor.user_id@, None, 20usize),
    ]);
    push_workspace_queries(&mut out, ws, RetrievalPhase::WorkspaceScope, None, 20);
    out
}

/// The warnings of a pack before assembly: a workspace request from an
/// actor of no workspace, and a request that nothing matched.
pub open spec fn pack_warnings_of(intent: MemoryIntent, has_workspace: bool, nothing_matched: bool) -> Seq<Seq<char>> {
    let a = if (intent == MemoryIntent::Workspace || intent == MemoryIntent::Mixed) && !has_workspace {
        seq!["Workspace-oriented request detected, but no workspace membership was resolved."@]
    } else {
        Seq::empty()
    };
    if nothing_matched {
        a.push(no_match_warning())
    } else {
        a
    }
}

/// The warnings of a pack before assembly.
pub fn pack_warnings(intent: MemoryIntent, has_workspace: bool, nothing_matched: bool) -> (r: Vec<String>)
    ensures
        r@.map_values(|s: String| s@) == pack_warnings_of(intent, has_workspace, nothing_matched),
{
    let mut out: Vec<String> = Vec::new();
    if (intent == MemoryIntent::Workspace || intent == MemoryIntent::Mixed) && !has_workspace {
        out.push(owned("Workspace-oriented request detected, but no workspace membership was resolved."));
    }
    let ghost a = out@.map_values(|s: String| s@);
    if nothing_matched {
        out.push(owned("No scoped memory matched this request."));
        assert(out@.map_values(|s: String| s@) =~= a.push(no_match_warning()));
    }
    assert(out@.map_values(|s: String| s@) =~= pack_warnings_of(intent, has_workspace, nothing_matched));
    out
}

} // verus!
