//! Resolution of the memory actor (user, thread, workspaces) of a request.
use vstd::prelude::*;

use crate::string_set::StringSet;
use crate::text::owned;

verus! {

/// Identity hints supplied by the caller; any of them may be missing.
#[derive(Debug, Clone, Default, PartialEq, Eq)]
pub struct MemoryActorInput {
    pub user_id: Option<String>,
    pub thread_id: Option<String>,
    pub workspace_ids: Vec<String>,
}

/// The fully resolved actor that memory access decisions are made for.
#[derive(Debug, Clone, PartialEq, Eq)]
pub struct ResolvedMemoryActor {
    pub user_id: String,
    pub thread_id: String,
    pub workspace_ids: StringSet,
}

/// Resolves the memory actor of a request.
pub trait MemoryIdentityResolver {
    fn resolve_actor(&self, input: &MemoryActorInput) -> ResolvedMemoryActor;
}

/// A single-user local resolver that fills missing ids with fixed
/// compatibility ids.
#[derive(Debug, Clone)]
pub struct LocalIdentityResolver;

pub open spec fn compat_user_id() -> Seq<char> {
    "__user__"@
}

pub open spec fn compat_thread_id() -> Seq<char> {
    "__thread__"@
}

pub open spec fn compat_workspace_id() -> Seq<char> {
    "__compat_workspace__"@
}

/// The views of a list of strings.
pub open spec fn views(v: Seq<String>) -> Seq<Seq<char>> {
    v.map_values(|s: String| s@)
}

/// The actor that the local resolver resolves `input` to: the given ids,
/// or the compatibility ids where none is given.
pub open spec fn resolved_by_local(input: MemoryActorInput, actor: ResolvedMemoryActor) -> bool {
    &&& actor.user_id@ == match input.user_id {
        Some(u) => u@,
        None => compat_user_id(),
    }
    &&& actor.thread_id@ == match input.thread_id {
        Some(t) => t@,
        None => compat_thread_id(),
    }
    &&& if input.workspace_ids@.len() == 0 {
        actor.workspace_ids.elems() == seq![compat_workspace_id()]
    } else {
        actor.workspace_ids.view_set() == views(input.workspace_ids@).to_set()
    }
}

/// The root never influences the resolved actor: resolvers made from any
/// two roots are the same value, and any two actors resolved from one
/// input agree on the user, the thread and the set of workspaces.
pub proof fn law_local_resolution_ignores_root(
    input: MemoryActorInput,
    a1: ResolvedMemoryActor,
    a2: ResolvedMemoryActor,
)
    requires
        resolved_by_local(input, a1),
        resolved_by_local(input, a2),
    ensures
        a1.user_id@ == a2.user_id@,
        a1.thread_id@ == a2.thread_id@,
        a1.workspace_ids.view_set() == a2.workspace_ids.view_set(),
{
}

impl LocalIdentityResolver {
    /// Creates the resolver; the project root is accepted and not used.
    pub fn new(root: &str) -> (r: Self)
        ensures
            r == LocalIdentityResolver,
    {
        let _ = root;
        LocalIdentityResolver
    }

    /// The compatibility user id.
    pub fn default_user_id(&self) -> (r: String)
        ensures
            r@ == compat_user_id(),
    {
        owned("__user__")
    }

    /// The compatibility thread id; the same for every user.
    pub fn default_thread_id(&self, user_id: &str) -> (r: String)
        ensures
            r@ == compat_thread_id(),
    {
        let _ = user_id;
        owned("__thread__")
    }

    /// The compatibility workspace id.
    pub fn default_workspace_id(&self) -> (r: String)
        ensures
            r@ == compat_workspace_id(),
    {
        owned("__compat_workspace__")
    }
}

impl MemoryIdentityResolver for LocalIdentityResolver {
    fn resolve_actor(&self, input: &MemoryActorInput) -> (r: ResolvedMemoryActor)
        ensures
            resolved_by_local(*input, r),
    {
        let user_id = match &input.user_id {
            Some(u) => u.clone(),
            None => self.default_user_id(),
        };
        let thread_id = match &input.thread_id {
            Some(t) => t.clone(),
            None => self.default_thread_id(user_id.as_str()),
        };
        let mut workspace_ids = StringSet::new();
        let mut i: usize = 0;
        while i < input.workspace_ids.len()
            invariant
                i <= input.workspace_ids.len(),
                workspace_ids.view_set() == views(input.workspace_ids@.take(i as int)).to_set(),
            decreases input.workspace_ids.len() - i,
        {
            workspace_ids.insert(input.workspace_ids[i].clone());
            proof {
                assert(views(input.workspace_ids@.take(i + 1)) =~= views(
                    input.workspace_ids@.take(i as int),
                ).push(input.workspace_ids@[i as int]@));
                broadcast use vstd::seq_lib::group_seq_properties;
                assert(views(input.workspace_ids@.take(i as int)).push(input.workspace_ids@[i as int]@).to_set()
                    =~= views(input.workspace_ids@.take(i as int)).to_set().insert(input.workspace_ids@[i as int]@));
            }
            i = i + 1;
        }
        assert(input.workspace_ids@.take(i as int) =~= input.workspace_ids@);
        if workspace_ids.is_empty() {
            proof {
                if input.workspace_ids@.len() > 0 {
                    assert(views(input.workspace_ids@).to_set().contains(views(input.workspace_ids@)[0]));
                    assert(!workspace_ids.elems().to_set().contains(views(input.workspace_ids@)[0]));
                }
            }
            workspace_ids.insert(self.default_workspace_id());
        } else {
            proof {
                if input.workspace_ids@.len() == 0 {
                    assert(workspace_ids.elems().to_set().contains(workspace_ids.elems()[0]));
                    assert(views(input.workspace_ids@) =~= Seq::<Seq<char>>::empty());
                }
            }
        }
        ResolvedMemoryActor { user_id, thread_id, workspace_ids }
    }
}

} // verus!
