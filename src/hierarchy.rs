//! The tenant hierarchy: each tenant's parent, and the walk from a tenant up
//! to its root, guarded against cycles and runaway depth.
use vstd::prelude::*;
use vstd::string::*;
use std::collections::HashMap;
use crate::external::uuid_to_text;

verus! {

broadcast use vstd::std_specs::hash::group_hash_axioms;

/// The deepest path the walk to the root may produce.
pub const MAX_DEPTH: usize = 100;

/// What can go wrong when asking about the hierarchy.
#[derive(Debug)]
pub enum HierarchyError {
    /// The tenant is unknown.
    TenantNotFound(u128),
    /// The service that knows the hierarchy could not be reached.
    ServiceUnavailable(String),
    /// A cycle, or a parent chain deeper than allowed.
    InvalidHierarchy(String),
}

/// The parent of `t` in the parent map, when `t` is known and not a root.
pub open spec fn parent_in(m: Map<u128, Option<u128>>, t: u128) -> Option<u128> {
    if m.contains_key(t) {
        m[t]
    } else {
        None
    }
}

/// `w` starts at `t` and each element after the first is the parent of the one before.
pub open spec fn walk_prefix(m: Map<u128, Option<u128>>, t: u128, w: Seq<u128>) -> bool {
    &&& w.len() >= 1
    &&& w[0] == t
    &&& forall|i: int| 0 <= i < w.len() - 1 ==> parent_in(m, #[trigger] w[i]) == Some(w[i + 1])
}

/// `p` is the path from `t` to its root: a walk up the parents that ends at a
/// tenant without parent, repeats no tenant, and is no deeper than allowed.
pub open spec fn is_root_path(m: Map<u128, Option<u128>>, t: u128, p: Seq<u128>) -> bool {
    &&& walk_prefix(m, t, p)
    &&& parent_in(m, p.last()) is None
    &&& p.no_duplicates()
    &&& p.len() <= MAX_DEPTH
}

/// A walk extended by the parent of its last tenant is still a walk.
proof fn lemma_walk_extend(m: Map<u128, Option<u128>>, t: u128, w: Seq<u128>, p: u128)
    requires
        walk_prefix(m, t, w),
        parent_in(m, w.last()) == Some(p),
    ensures
        walk_prefix(m, t, w.push(p)),
{
    let v = w.push(p);
    assert forall|i: int| 0 <= i < v.len() - 1 implies parent_in(m, #[trigger] v[i]) == Some(
        v[i + 1],
    ) by {
        if i < w.len() - 1 {
            assert(v[i] == w[i] && v[i + 1] == w[i + 1]);
        } else {
            assert(v[i] == w.last() && v[i + 1] == p);
        }
    }
}

/// Appending a new element keeps a sequence free of repeats.
proof fn lemma_push_distinct(w: Seq<u128>, p: u128)
    requires
        w.no_duplicates(),
        !w.contains(p),
    ensures
        w.push(p).no_duplicates(),
{
    let v = w.push(p);
    assert forall|i: int, j: int| 0 <= i < v.len() && 0 <= j < v.len() && i != j implies v[i]
        != v[j] by {
        if i < w.len() && j < w.len() {
            assert(v[i] == w[i] && v[j] == w[j]);
        } else if i < w.len() {
            assert(v[i] == w[i] && v[j] == p);
        } else if j < w.len() {
            assert(v[j] == w[j] && v[i] == p);
        }
    }
}

/// The tenant has a path to its root.
pub open spec fn has_root_path(m: Map<u128, Option<u128>>, t: u128) -> bool {
    exists|p: Seq<u128>| is_root_path(m, t, p)
}

/// Two walks up from the same tenant agree wherever both are defined.
pub proof fn lemma_walks_agree(m: Map<u128, Option<u128>>, t: u128, p: Seq<u128>, q: Seq<u128>, i: int)
    requires
        walk_prefix(m, t, p),
        walk_prefix(m, t, q),
        0 <= i < p.len(),
        i < q.len(),
    ensures
        p[i] == q[i],
    decreases i,
{
    if i > 0 {
        lemma_walks_agree(m, t, p, q, i - 1);
        assert(parent_in(m, p[i - 1]) == Some(p[i]));
        assert(parent_in(m, q[i - 1]) == Some(q[i]));
    }
}

/// A tenant has at most one path to its root.
pub proof fn lemma_root_path_unique(m: Map<u128, Option<u128>>, t: u128, p: Seq<u128>, q: Seq<u128>)
    requires
        is_root_path(m, t, p),
        is_root_path(m, t, q),
    ensures
        p == q,
{
    if p.len() < q.len() {
        lemma_walks_agree(m, t, p, q, p.len() - 1);
        assert(parent_in(m, q[p.len() - 1]) == Some(q[p.len() as int]));
    } else if q.len() < p.len() {
        lemma_walks_agree(m, t, p, q, q.len() - 1);
        assert(parent_in(m, p[q.len() - 1]) == Some(p[q.len() as int]));
    } else {
        assert forall|i: int| 0 <= i < p.len() implies p[i] == q[i] by {
            lemma_walks_agree(m, t, p, q, i);
        }
        assert(p =~= q);
    }
}

/// A walk up that repeats a tenant or runs deeper than allowed rules out a
/// path to the root.
pub proof fn lemma_walk_rules_out_root_path(m: Map<u128, Option<u128>>, t: u128, w: Seq<u128>)
    requires
        walk_prefix(m, t, w),
        w.len() > MAX_DEPTH || !w.no_duplicates(),
    ensures
        !has_root_path(m, t),
{
    if has_root_path(m, t) {
        let p = choose|p: Seq<u128>| is_root_path(m, t, p);
        if w.len() <= p.len() {
            assert forall|i: int, j: int|
                0 <= i < w.len() && 0 <= j < w.len() && i != j implies w[i] != w[j] by {
                lemma_walks_agree(m, t, w, p, i);
                lemma_walks_agree(m, t, w, p, j);
            }
        } else {
            lemma_walks_agree(m, t, w, p, p.len() - 1);
            assert(parent_in(m, w[p.len() - 1]) == Some(w[p.len() as int]));
        }
    }
}

/// An in-memory tenant hierarchy: each known tenant maps to its parent, or to
/// nothing for a root.
pub struct MockTenantHierarchyClient {
    hierarchy: HashMap<u128, Option<u128>>,
}

impl View for MockTenantHierarchyClient {
    type V = Map<u128, Option<u128>>;

    closed spec fn view(&self) -> Map<u128, Option<u128>> {
        self.hierarchy@
    }
}

impl Default for MockTenantHierarchyClient {
    fn default() -> (r: Self)
        ensures
            r@ == Map::<u128, Option<u128>>::empty(),
    {
        MockTenantHierarchyClient::new()
    }
}

fn path_contains(path: &Vec<u128>, x: u128) -> (r: bool)
    ensures
        r == path@.contains(x),
{
    let mut i: usize = 0;
    while i < path.len()
        invariant
            i <= path.len(),
            forall|j: int| 0 <= j < i ==> path@[j] != x,
        decreases path.len() - i,
    {
        if path[i] == x {
            return true;
        }
        i = i + 1;
    }
    false
}

impl MockTenantHierarchyClient {
    /// An empty hierarchy.
    pub fn new() -> (r: Self)
        ensures
            r@ == Map::<u128, Option<u128>>::empty(),
    {
        MockTenantHierarchyClient { hierarchy: HashMap::new() }
    }

    /// Adds a tenant, or replaces its parent; `None` makes it a root.
    pub fn add_tenant(&mut self, tenant_id: u128, parent_id: Option<u128>)
        ensures
            final(self)@ == old(self)@.insert(tenant_id, parent_id),
    {
        self.hierarchy.insert(tenant_id, parent_id);
    }

    /// Removes a tenant.
    pub fn remove_tenant(&mut self, tenant_id: u128)
        ensures
            final(self)@ == old(self)@.remove(tenant_id),
    {
        self.hierarchy.remove(&tenant_id);
    }

    /// Removes every tenant.
    pub fn clear(&mut self)
        ensures
            final(self)@ == Map::<u128, Option<u128>>::empty(),
    {
        self.hierarchy.clear();
    }

    /// How many tenants are known.
    pub fn tenant_count(&self) -> (r: usize)
        ensures
            r == self@.len(),
    {
        self.hierarchy.len()
    }

    /// The parent of a known tenant, `None` for a root.
    pub fn get_parent_tenant(&self, tenant_id: u128) -> (r: Result<Option<u128>, HierarchyError>)
        ensures
            self@.contains_key(tenant_id) ==> r == Ok::<Option<u128>, HierarchyError>(
                self@[tenant_id],
            ),
            !self@.contains_key(tenant_id) ==> (r matches Err(HierarchyError::TenantNotFound(t))
                && t == tenant_id),
    {
        match self.hierarchy.get(&tenant_id) {
            Some(p) => Ok(*p),
            None => Err(HierarchyError::TenantNotFound(tenant_id)),
        }
    }

    /// Whether the tenant is known.
    pub fn validate_tenant_exists(&self, tenant_id: u128) -> (r: Result<bool, HierarchyError>)
        ensures
            r == Ok::<bool, HierarchyError>(self@.contains_key(tenant_id)),
    {
        Ok(self.hierarchy.contains_key(&tenant_id))
    }

    /// The path from a tenant to its root, the tenant first and the root last.
    /// Fails on an unknown tenant, and on a cycle or a chain deeper than
    /// `MAX_DEPTH` found while walking up.
    pub fn get_tenant_path(&self, tenant_id: u128) -> (r: Result<Vec<u128>, HierarchyError>)
        ensures
            !self@.contains_key(tenant_id) ==> (r matches Err(HierarchyError::TenantNotFound(t))
                && t == tenant_id),
            r is Ok ==> is_root_path(self@, tenant_id, r->Ok_0@),
            self@.contains_key(tenant_id) && r is Err ==> (r->Err_0 is InvalidHierarchy
                && !has_root_path(self@, tenant_id)),
    {
        if !self.hierarchy.contains_key(&tenant_id) {
            return Err(HierarchyError::TenantNotFound(tenant_id));
        }
        let mut path: Vec<u128> = Vec::new();
        path.push(tenant_id);
        let mut current = tenant_id;
        loop
            invariant
                self@.contains_key(tenant_id),
                walk_prefix(self@, tenant_id, path@),
                current == path@.last(),
                path@.no_duplicates(),
                1 <= path.len() <= MAX_DEPTH,
            decreases MAX_DEPTH - path.len(),
        {
            match self.hierarchy.get(&current) {
                Some(Some(parent)) => {
                    let parent = *parent;
                    let seen = path_contains(&path, parent);
                    let ghost before = path@;
                    proof {
                        lemma_walk_extend(self@, tenant_id, before, parent);
                    }
                    path.push(parent);
                    if seen {
                        proof {
                            let j = choose|j: int| 0 <= j < before.len() && before[j] == parent;
                            assert(path@[j] == path@[path@.len() - 1]);
                            assert(!path@.no_duplicates());
                            lemma_walk_rules_out_root_path(self@, tenant_id, path@);
                        }
                        let mut message = String::from_str("Circular reference detected at tenant ");
                        let text = uuid_to_text(parent);
                        message.append(text.as_str());
                        return Err(HierarchyError::InvalidHierarchy(message));
                    }
                    proof {
                        lemma_push_distinct(before, parent);
                    }
                    current = parent;
                    if path.len() > MAX_DEPTH {
                        proof {
                            lemma_walk_rules_out_root_path(self@, tenant_id, path@);
                        }
                        return Err(
                            HierarchyError::InvalidHierarchy(
                                String::from_str("Hierarchy depth exceeds maximum (100 levels)"),
                            ),
                        );
                    }
                },
                _ => {
                    return Ok(path);
                },
            }
        }
    }
}

/// A hierarchy in which every tenant exists and is its own root.
#[derive(Debug, Clone, Copy, Default)]
pub struct NoOpTenantHierarchyClient;

impl NoOpTenantHierarchyClient {
    /// Every tenant is a root.
    pub fn get_parent_tenant(&self, tenant_id: u128) -> (r: Result<Option<u128>, HierarchyError>)
        ensures
            r == Ok::<Option<u128>, HierarchyError>(None),
    {
        Ok(None)
    }

    /// Every tenant exists.
    pub fn validate_tenant_exists(&self, tenant_id: u128) -> (r: Result<bool, HierarchyError>)
        ensures
            r == Ok::<bool, HierarchyError>(true),
    {
        Ok(true)
    }

    /// The path holds the tenant alone.
    pub fn get_tenant_path(&self, tenant_id: u128) -> (r: Result<Vec<u128>, HierarchyError>)
        ensures
            r is Ok && r->Ok_0@ == seq![tenant_id],
    {
        let mut path: Vec<u128> = Vec::new();
        path.push(tenant_id);
        Ok(path)
    }
}

} // verus!
