//! The accessibility service's decisions: normalizing a backend snapshot,
//! assigning runtime ids, projecting the tree a request asked for, answering a
//! search, and turning a backend invocation outcome into the request's answer.
//! The backend calls themselves (and their time bound) are made by the caller.

use vstd::prelude::*;

use crate::a11y_error::A11yError;
use crate::fmt::{decimal, push_decimal};
use crate::find::{all_matches, collect_matches, matches_view, path_view, take_at_most, NodeQuery, Visit};
use crate::model::{accessibles_view, AccessibleId, AccessibleMatch, AccessibleNode, AccessibleNodeView, AccessibleTree, AppId};
use crate::registry::{assign_spec, handle_of_spec, position_of, registry_wf, tracks, Registry, RegistryView};
use crate::role::{normalize_role, normalized_role};
use crate::source::{
    lemma_sources_view, opt_str_view, source_view, sources_view, strs_view, ElementHandle,
    InvokeOutcome, SourceNode, SourceNodeView, SourceSnapshot, WindowTarget,
};

verus! {

/// The bound on one backend snapshot, in milliseconds: a wedged toolkit is
/// answered with a timeout instead of blocking the runtime.
pub const SNAPSHOT_TIMEOUT_MS: u64 = 5000;

/// Walk depth used by `find_accessible` when it snapshots.
pub const FIND_MAX_DEPTH: u32 = 16;

/// Walk node bound used by `find_accessible` when it snapshots.
pub const FIND_MAX_NODES: u32 = 5000;

/// Options for an accessibility tree request.
#[derive(Debug, Clone, Copy, PartialEq, Eq, Structural)]
pub struct TreeOptions {
    /// Maximum recursion depth below the window root (`0` = the root alone).
    pub max_depth: u32,
    /// Maximum total number of nodes, the root included.
    pub max_nodes: u32,
    /// Keep the state flags of every node.
    pub include_states: bool,
    /// Keep the window-relative bounds of every node.
    pub include_bounds: bool,
    /// Keep the action names of every node.
    pub include_actions: bool,
}

impl Default for TreeOptions {
    fn default() -> (o: TreeOptions)
        ensures
            o.max_depth == 12,
            o.max_nodes == 2000,
            o.include_states,
            o.include_bounds,
            o.include_actions,
    {
        TreeOptions {
            max_depth: 12,
            max_nodes: 2000,
            include_states: true,
            include_bounds: true,
            include_actions: true,
        }
    }
}

/// The filters of a `find_accessible` request.
#[derive(Debug, Clone, PartialEq, Eq)]
pub struct FindQuery {
    /// Exact lowercase role name to match, when given.
    pub role: Option<String>,
    /// Exact accessible name to match, when given.
    pub name: Option<String>,
    /// Case-insensitive substring of the accessible name, when given.
    pub name_contains: Option<String>,
    /// Case-insensitive substring of the node's value, when given.
    pub value_contains: Option<String>,
    /// Maximum number of matches to return; must be at least `1`.
    pub max_results: u32,
}

impl Default for FindQuery {
    fn default() -> (q: FindQuery)
        ensures
            q.role is None,
            q.name is None,
            q.name_contains is None,
            q.value_contains is None,
            q.max_results == 50,
    {
        FindQuery { role: None, name: None, name_contains: None, value_contains: None, max_results: 50 }
    }
}

/// The result of a search.
#[derive(Debug)]
pub struct FindOutcome {
    /// Matches in tree (pre-order) order, at most the requested maximum.
    pub matches: Vec<AccessibleMatch>,
    /// Whether more matches may exist.
    pub truncated: bool,
}

/// The node with its role, and every role below it, normalized.
pub open spec fn normalize_view(v: SourceNodeView) -> SourceNodeView
    decreases v, 1nat,
{
    SourceNodeView {
        role: normalized_role(v.role),
        children: normalize_all(v.children),
        ..v
    }
}

/// [`normalize_view`] over a list of nodes.
pub open spec fn normalize_all(vs: Seq<SourceNodeView>) -> Seq<SourceNodeView>
    decreases vs, 0nat,
{
    if vs.len() == 0 {
        Seq::empty()
    } else {
        normalize_all(vs.drop_last()).push(normalize_view(vs.last()))
    }
}

/// Number of nodes of a tree, the root included.
pub open spec fn tree_size(v: SourceNodeView) -> nat
    decreases v, 1nat,
{
    1 + forest_size(v.children)
}

/// Number of nodes of a list of trees.
pub open spec fn forest_size(vs: Seq<SourceNodeView>) -> nat
    decreases vs, 0nat,
{
    if vs.len() == 0 {
        0
    } else {
        forest_size(vs.drop_last()) + tree_size(vs.last())
    }
}

/// The wire node for a backend node: its id assigned through the registry, the
/// projection flags applied, and its children projected in order; with the
/// registry afterwards.
pub open spec fn project(v: SourceNodeView, opts: TreeOptions, r: RegistryView) -> (
    AccessibleNodeView,
    RegistryView,
)
    decreases v, 1nat,
{
    let (id, r1) = assign_spec(r, v.handle);
    let (kids, r2) = project_all(v.children, opts, r1);
    (
        AccessibleNodeView {
            id,
            role: v.role,
            name: v.name,
            description: v.description,
            value: v.value,
            states: if opts.include_states { v.states } else { Seq::empty() },
            bounds: if opts.include_bounds { v.bounds } else { None },
            actions: if opts.include_actions { v.actions } else { Seq::empty() },
            children: kids,
        },
        r2,
    )
}

/// [`project`] over a list of nodes, threading the registry in order.
pub open spec fn project_all(vs: Seq<SourceNodeView>, opts: TreeOptions, r: RegistryView) -> (
    Seq<AccessibleNodeView>,
    RegistryView,
)
    decreases vs, 0nat,
{
    if vs.len() == 0 {
        (Seq::empty(), r)
    } else {
        let (prev, r1) = project_all(vs.drop_last(), opts, r);
        let (last, r2) = project(vs.last(), opts, r1);
        (prev.push(last), r2)
    }
}

/// `assign` keeps the registry well formed, never lowers `next`, raises it by
/// at most one, and keeps the capacity.
pub proof fn lemma_assign_wf(r: RegistryView, h: Seq<char>)
    requires
        registry_wf(r),
        r.next < u64::MAX,
    ensures
        registry_wf(assign_spec(r, h).1),
        r.next <= assign_spec(r, h).1.next <= r.next + 1,
        assign_spec(r, h).1.cap == r.cap,
{
    let r2 = assign_spec(r, h).1;
    if !crate::registry::tracks(r, h) {
        if r.handles.len() < r.cap {
            assert forall|i: int, j: int|
                0 <= i < r2.handles.len() && 0 <= j < r2.handles.len() && i != j implies r2.handles[i]
                != r2.handles[j] by {
                if i == r.handles.len() as int {
                    assert(r2.handles[j] == r.handles[j]);
                } else if j == r.handles.len() as int {
                    assert(r2.handles[i] == r.handles[i]);
                }
            }
            assert forall|i: int, j: int| 0 <= i < j < r2.ids.len() implies r2.ids[i] < r2.ids[j] by {
                if j == r.ids.len() as int {
                    assert(r2.ids[i] == r.ids[i]);
                }
            }
            assert forall|i: int| 0 <= i < r2.ids.len() implies r2.ids[i] < r2.next by {
                if i < r.ids.len() {
                    assert(r2.ids[i] == r.ids[i]);
                }
            }
        }
    }
}

/// `s` keeps everything `r` tracks, at the same positions with the same ids,
/// under the same capacity.
pub open spec fn registry_extends(r: RegistryView, s: RegistryView) -> bool {
    &&& r.handles.len() <= s.handles.len()
    &&& r.ids.len() <= s.ids.len()
    &&& s.cap == r.cap
    &&& forall|i: int| 0 <= i < r.handles.len() ==> s.handles[i] == r.handles[i]
    &&& forall|i: int| 0 <= i < r.ids.len() ==> s.ids[i] == r.ids[i]
}

/// A handle `r` tracks keeps its id in a registry that extends `r`: assigning
/// it there hands out that id and changes nothing.
proof fn lemma_assign_in_extension(r: RegistryView, s: RegistryView, h: Seq<char>)
    requires
        registry_wf(r),
        registry_wf(s),
        registry_extends(r, s),
        tracks(r, h),
    ensures
        assign_spec(s, h) == (assign_spec(r, h).0, s),
{
    let p = position_of(r, h);
    assert(s.handles[p] == h);
    assert(tracks(s, h));
    let q = position_of(s, h);
    if q != p {
        assert(s.handles[q] == s.handles[p]);
    }
}

/// With room for every element, projecting `v` never empties the registry:
/// the registry afterwards extends the one before and holds at most
/// `tree_size(v)` more handles, and it tracks `v`'s handle.
proof fn lemma_project_extends(v: SourceNodeView, opts: TreeOptions, r: RegistryView)
    requires
        registry_wf(r),
        r.handles.len() + tree_size(v) <= r.cap,
        r.next + tree_size(v) <= u64::MAX,
    ensures
        registry_extends(r, project(v, opts, r).1),
        project(v, opts, r).1.handles.len() <= r.handles.len() + tree_size(v),
    decreases v, 1nat,
{
    lemma_assign_wf(r, v.handle);
    let ra = assign_spec(r, v.handle).1;
    assert(registry_extends(r, ra));
    lemma_project_all_extends(v.children, opts, ra);
}

/// [`lemma_project_extends`] over a list of nodes.
proof fn lemma_project_all_extends(vs: Seq<SourceNodeView>, opts: TreeOptions, r: RegistryView)
    requires
        registry_wf(r),
        r.handles.len() + forest_size(vs) <= r.cap,
        r.next + forest_size(vs) <= u64::MAX,
    ensures
        registry_extends(r, project_all(vs, opts, r).1),
        project_all(vs, opts, r).1.handles.len() <= r.handles.len() + forest_size(vs),
    decreases vs, 0nat,
{
    if vs.len() > 0 {
        lemma_project_all_extends(vs.drop_last(), opts, r);
        lemma_project_all(vs.drop_last(), opts, r);
        let rm = project_all(vs.drop_last(), opts, r).1;
        lemma_project_extends(vs.last(), opts, rm);
    }
}

/// Projecting `v` again through a registry `s` that extends the registry the
/// first projection left gives the same tree and leaves `s` as it was.
proof fn lemma_reproject(v: SourceNodeView, opts: TreeOptions, r: RegistryView, s: RegistryView)
    requires
        registry_wf(r),
        registry_wf(s),
        r.handles.len() + tree_size(v) <= r.cap,
        r.next + tree_size(v) <= u64::MAX,
        registry_extends(project(v, opts, r).1, s),
    ensures
        project(v, opts, s) == (project(v, opts, r).0, s),
    decreases v, 1nat,
{
    lemma_assign_wf(r, v.handle);
    let (id, ra) = assign_spec(r, v.handle);
    assert(registry_extends(r, ra));
    lemma_project_all_extends(v.children, opts, ra);
    lemma_project_all(v.children, opts, ra);
    assert(registry_extends(ra, s));
    assert(tracks(ra, v.handle)) by {
        if !tracks(r, v.handle) {
            assert(ra.handles[ra.handles.len() - 1] == v.handle);
        }
    }
    lemma_assign_in_extension(ra, s, v.handle);
    lemma_reproject_all(v.children, opts, ra, s);
}

/// [`lemma_reproject`] over a list of nodes.
proof fn lemma_reproject_all(vs: Seq<SourceNodeView>, opts: TreeOptions, r: RegistryView, s: RegistryView)
    requires
        registry_wf(r),
        registry_wf(s),
        r.handles.len() + forest_size(vs) <= r.cap,
        r.next + forest_size(vs) <= u64::MAX,
        registry_extends(project_all(vs, opts, r).1, s),
    ensures
        project_all(vs, opts, s) == (project_all(vs, opts, r).0, s),
    decreases vs, 0nat,
{
    if vs.len() > 0 {
        lemma_project_all_extends(vs.drop_last(), opts, r);
        lemma_project_all(vs.drop_last(), opts, r);
        let rm = project_all(vs.drop_last(), opts, r).1;
        lemma_project_extends(vs.last(), opts, rm);
        assert(registry_extends(rm, s));
        lemma_reproject_all(vs.drop_last(), opts, r, s);
        lemma_reproject(vs.last(), opts, rm, s);
    }
}

/// Projecting the same elements a second time, through the registry the first
/// projection left, gives the same tree (the same ids) and leaves the registry
/// as it was, when the registry has room for every element (so the first
/// projection never empties it).
pub proof fn lemma_second_projection_is_stable(v: SourceNodeView, opts: TreeOptions, r: RegistryView)
    requires
        registry_wf(r),
        r.handles.len() + tree_size(v) <= r.cap,
        r.next + tree_size(v) <= u64::MAX,
    ensures
        project(v, opts, project(v, opts, r).1) == project(v, opts, r),
{
    lemma_project(v, opts, r);
    let r1 = project(v, opts, r).1;
    lemma_reproject(v, opts, r, r1);
}

/// The forest size of a prefix never exceeds the whole forest's.
pub proof fn lemma_forest_size_prefix(vs: Seq<SourceNodeView>, k: int)
    requires
        0 <= k <= vs.len(),
    ensures
        forest_size(vs.take(k)) <= forest_size(vs),
    decreases vs.len(),
{
    if k < vs.len() {
        assert(vs.drop_last().take(k) =~= vs.take(k));
        lemma_forest_size_prefix(vs.drop_last(), k);
    } else {
        assert(vs.take(k) =~= vs);
    }
}

/// Projection keeps the registry well formed and raises `next` by at most the
/// number of nodes projected.
pub proof fn lemma_project(v: SourceNodeView, opts: TreeOptions, r: RegistryView)
    requires
        registry_wf(r),
        r.next + tree_size(v) <= u64::MAX,
    ensures
        registry_wf(project(v, opts, r).1),
        r.next <= project(v, opts, r).1.next <= r.next + tree_size(v),
        project(v, opts, r).1.cap == r.cap,
    decreases v, 1nat,
{
    lemma_assign_wf(r, v.handle);
    lemma_project_all(v.children, opts, assign_spec(r, v.handle).1);
}

/// [`lemma_project`] over a list of nodes.
pub proof fn lemma_project_all(vs: Seq<SourceNodeView>, opts: TreeOptions, r: RegistryView)
    requires
        registry_wf(r),
        r.next + forest_size(vs) <= u64::MAX,
    ensures
        registry_wf(project_all(vs, opts, r).1),
        r.next <= project_all(vs, opts, r).1.next <= r.next + forest_size(vs),
        project_all(vs, opts, r).1.cap == r.cap,
    decreases vs, 0nat,
{
    if vs.len() > 0 {
        lemma_project_all(vs.drop_last(), opts, r);
        lemma_project(vs.last(), opts, project_all(vs.drop_last(), opts, r).1);
    }
}

/// A copy of `node`'s subtree with every role name normalized to the wire
/// vocabulary.
pub fn normalize_tree(node: &SourceNode) -> (out: SourceNode)
    ensures
        out@ == normalize_view(node@),
    decreases node,
{
    let mut kids: Vec<SourceNode> = Vec::new();
    let mut i: usize = 0;
    proof {
        lemma_sources_view(node.children@);
    }
    while i < node.children.len()
        invariant
            i <= node.children.len(),
            sources_view(node.children@).len() == node.children@.len(),
            forall|j: int|
                0 <= j < node.children@.len() ==> sources_view(node.children@)[j] == source_view(
                    #[trigger] node.children@[j],
                ),
            sources_view(kids@) == normalize_all(node@.children.take(i as int)),
        decreases node.children.len() - i,
    {
        let child = normalize_tree(&node.children[i]);
        let ghost before = kids@;
        kids.push(child);
        proof {
            assert(kids@.drop_last() =~= before);
            let t = node@.children.take(i + 1);
            assert(t.drop_last() =~= node@.children.take(i as int));
            assert(t.last() == node@.children[i as int]);
        }
        i += 1;
    }
    proof {
        assert(node@.children.take(node.children.len() as int) =~= node@.children);
    }
    let out = SourceNode {
        role: normalize_role(node.role.as_str()),
        name: node.name.clone(),
        description: crate::source::clone_opt_string(&node.description),
        value: crate::source::clone_opt_string(&node.value),
        states: crate::source::clone_states(&node.states),
        bounds: node.bounds,
        actions: crate::source::clone_strings(&node.actions),
        handle: ElementHandle(node.handle.0.clone()),
        children: kids,
    };
    assert(out@ =~= normalize_view(node@));
    out
}


/// Normalizing roles keeps the shape of a tree, so its size.
pub proof fn lemma_normalize_size(v: SourceNodeView)
    ensures
        tree_size(normalize_view(v)) == tree_size(v),
    decreases v, 1nat,
{
    lemma_normalize_size_all(v.children);
}

/// [`lemma_normalize_size`] over a list of nodes.
pub proof fn lemma_normalize_size_all(vs: Seq<SourceNodeView>)
    ensures
        normalize_all(vs).len() == vs.len(),
        forest_size(normalize_all(vs)) == forest_size(vs),
    decreases vs, 0nat,
{
    if vs.len() > 0 {
        lemma_normalize_size_all(vs.drop_last());
        lemma_normalize_size(vs.last());
        let n = normalize_all(vs);
        assert(n.drop_last() =~= normalize_all(vs.drop_last()));
    }
}

/// Copy a backend node into the wire node, assigning ids through `registry` in
/// pre-order and applying the projection flags; `count` accumulates the number
/// of nodes copied.
pub fn project_node(
    node: &SourceNode,
    opts: TreeOptions,
    registry: &mut Registry,
    count: &mut u32,
) -> (out: AccessibleNode)
    requires
        old(registry).wf(),
        old(registry)@.next + tree_size(node@) <= u64::MAX,
        *old(count) + tree_size(node@) <= u32::MAX,
    ensures
        final(registry).wf(),
        (out@, final(registry)@) == project(node@, opts, old(registry)@),
        *final(count) == *old(count) + tree_size(node@),
    decreases node,
{
    proof {
        registry.lemma_wf();
        lemma_project(node@, opts, registry@);
        lemma_assign_wf(registry@, node@.handle);
        lemma_sources_view(node.children@);
    }
    *count = *count + 1;
    let id = registry.assign(&node.handle);
    let ghost r1 = registry@;
    let ghost c1: int = *count as int;
    let ghost kids_v = node@.children;
    let mut kids: Vec<AccessibleNode> = Vec::new();
    let mut i: usize = 0;
    proof {
        assert(kids_v.take(0) =~= Seq::<SourceNodeView>::empty());
        assert(accessibles_view(kids@) =~= Seq::<AccessibleNodeView>::empty());
    }
    while i < node.children.len()
        invariant
            i <= node.children.len(),
            kids_v == node@.children,
            kids_v.len() == node.children@.len(),
            forall|j: int|
                0 <= j < node.children@.len() ==> kids_v[j] == source_view(
                    #[trigger] node.children@[j],
                ),
            registry_wf(r1),
            r1.next + forest_size(kids_v) <= u64::MAX,
            c1 + forest_size(kids_v) <= u32::MAX,
            registry.wf(),
            accessibles_view(kids@) == project_all(kids_v.take(i as int), opts, r1).0,
            registry@ == project_all(kids_v.take(i as int), opts, r1).1,
            *count as int == c1 + forest_size(kids_v.take(i as int)),
        decreases node.children.len() - i,
    {
        let ghost t = kids_v.take(i as int);
        let ghost t1 = kids_v.take(i + 1);
        proof {
            assert(t1.drop_last() =~= t);
            assert(t1.last() == kids_v[i as int]);
            lemma_forest_size_prefix(kids_v, i + 1);
            lemma_project_all(t, opts, r1);
            lemma_forest_size_prefix(kids_v, i as int);
        }
        let child = project_node(&node.children[i], opts, registry, count);
        let ghost before = kids@;
        kids.push(child);
        proof {
            assert(kids@.drop_last() =~= before);
        }
        i += 1;
    }
    proof {
        assert(kids_v.take(node.children.len() as int) =~= kids_v);
    }
    let out = AccessibleNode {
        id,
        role: node.role.clone(),
        name: node.name.clone(),
        description: crate::source::clone_opt_string(&node.description),
        value: crate::source::clone_opt_string(&node.value),
        states: if opts.include_states {
            crate::source::clone_states(&node.states)
        } else {
            Vec::new()
        },
        bounds: if opts.include_bounds {
            node.bounds
        } else {
            None
        },
        actions: if opts.include_actions {
            crate::source::clone_strings(&node.actions)
        } else {
            Vec::new()
        },
        children: kids,
    };
    proof {
        assert(out@.states =~= project(node@, opts, old(registry)@).0.states);
        assert(out@.actions =~= project(node@, opts, old(registry)@).0.actions);
        assert(out@ =~= project(node@, opts, old(registry)@).0);
    }
    out
}


/// The size of a subtree, saturated at `u64::MAX`.
pub open spec fn saturated_size(n: nat) -> u64 {
    if n <= u64::MAX { n as u64 } else { u64::MAX }
}

/// The number of nodes of `node`'s subtree (the node included), saturated at
/// `u64::MAX`.
pub fn subtree_size(node: &SourceNode) -> (n: u64)
    ensures
        n == saturated_size(tree_size(node@)),
    decreases node,
{
    proof {
        lemma_sources_view(node.children@);
    }
    let ghost kids_v = node@.children;
    let mut total: u64 = 1;
    let mut i: usize = 0;
    while i < node.children.len()
        invariant
            i <= node.children.len(),
            kids_v == node@.children,
            kids_v.len() == node.children@.len(),
            forall|j: int|
                0 <= j < node.children@.len() ==> kids_v[j] == source_view(
                    #[trigger] node.children@[j],
                ),
            total == saturated_size(1 + forest_size(kids_v.take(i as int))),
        decreases node.children.len() - i,
    {
        let ghost t1 = kids_v.take(i + 1);
        proof {
            assert(t1.drop_last() =~= kids_v.take(i as int));
            assert(t1.last() == kids_v[i as int]);
        }
        let k = subtree_size(&node.children[i]);
        total = total.saturating_add(k);
        i += 1;
    }
    proof {
        assert(kids_v.take(node.children.len() as int) =~= kids_v);
    }
    total
}

/// Whether projecting `node` through `registry` stays within the id space and
/// a `u32` node count.
pub open spec fn projection_fits(r: RegistryView, node: SourceNodeView) -> bool {
    &&& r.next + tree_size(node) <= u64::MAX
    &&& tree_size(node) <= u32::MAX
}

/// The answer to a tree request, built from the backend's snapshot: roles
/// normalized, ids assigned in pre-order, projection flags applied.
pub fn tree_from_snapshot(
    target: &WindowTarget,
    opts: TreeOptions,
    snapshot: SourceSnapshot,
    registry: &mut Registry,
) -> (tree: AccessibleTree)
    requires
        old(registry).wf(),
        projection_fits(old(registry)@, snapshot.root@),
    ensures
        final(registry).wf(),
        (tree.root@, final(registry)@) == project(
            normalize_view(snapshot.root@),
            opts,
            old(registry)@,
        ),
        tree.node_count == tree_size(snapshot.root@),
        tree.window_id == target.window_id,
        tree.app_id == target.app_id,
        tree.app_name == snapshot.app_name,
        tree.truncated == snapshot.truncated,
{
    let root = normalize_tree(&snapshot.root);
    proof {
        lemma_normalize_size(snapshot.root@);
    }
    let mut node_count: u32 = 0;
    let projected = project_node(&root, opts, registry, &mut node_count);
    let app_id = match &target.app_id {
        Some(a) => Some(AppId(a.0.clone())),
        None => None,
    };
    AccessibleTree {
        window_id: target.window_id,
        app_id,
        app_name: snapshot.app_name,
        root: projected,
        node_count,
        truncated: snapshot.truncated,
    }
}

/// Whether a registry has room to project `node`; a caller checks this before
/// [`tree_from_snapshot`].
pub fn projection_fits_exec(registry: &Registry, node: &SourceNode) -> (b: bool)
    requires
        registry.wf(),
    ensures
        b == projection_fits(registry@, node@),
{
    let n = subtree_size(node);
    let next = registry.next_id();
    n <= 4_294_967_295u64 && n <= u64::MAX - next
}


/// The matcher a `find_accessible` query runs.
pub open spec fn node_query_of(q: FindQuery) -> NodeQuery {
    NodeQuery {
        role: q.role,
        name: q.name,
        name_contains: q.name_contains,
        value_contains: q.value_contains,
        max_results: q.max_results,
    }
}

/// The ids assigned, in order, to the nodes of `visits`, and the registry
/// afterwards.
pub open spec fn assign_ids(visits: Seq<Visit>, r: RegistryView) -> (Seq<u64>, RegistryView)
    decreases visits.len(),
{
    if visits.len() == 0 {
        (Seq::empty(), r)
    } else {
        let (prev, r1) = assign_ids(visits.drop_last(), r);
        let (id, r2) = assign_spec(r1, visits.last().0.handle);
        (prev.push(id), r2)
    }
}

/// Whether a wire match reports the visited node `v` under the id `id`.
pub open spec fn match_agrees(m: AccessibleMatch, v: Visit, id: u64) -> bool {
    &&& m.id.0 == id
    &&& m.role@ == v.0.role
    &&& m.name@ == v.0.name
    &&& opt_str_view(m.value) == v.0.value
    &&& m.states@ == v.0.states
    &&& m.bounds == v.0.bounds
    &&& strs_view(m.actions@) == v.0.actions
    &&& path_view(m.path@) == v.1
}

/// The matches a search reports: the first `max_results` matches of the
/// normalized snapshot, in pre-order.
pub open spec fn find_hits(q: FindQuery, root: SourceNodeView) -> Seq<Visit> {
    take_at_most(all_matches(normalize_view(root), node_query_of(q)), q.max_results as int)
}

/// Assigning ids keeps the registry well formed and raises `next` by at most
/// the number of visits.
pub proof fn lemma_assign_ids(visits: Seq<Visit>, r: RegistryView)
    requires
        registry_wf(r),
        r.next + visits.len() <= u64::MAX,
    ensures
        registry_wf(assign_ids(visits, r).1),
        r.next <= assign_ids(visits, r).1.next <= r.next + visits.len(),
        assign_ids(visits, r).0.len() == visits.len(),
    decreases visits.len(),
{
    if visits.len() > 0 {
        lemma_assign_ids(visits.drop_last(), r);
        lemma_assign_wf(assign_ids(visits.drop_last(), r).1, visits.last().0.handle);
    }
}

/// Rejects a search that asks for no result at all.
pub fn check_find_query(query: &FindQuery) -> (r: Result<(), A11yError>)
    ensures
        r is Ok <==> query.max_results >= 1,
        r matches Err(e) ==> (e matches A11yError::InvalidRequest(m) && m@
            == "max_results must be at least 1"@),
{
    if query.max_results == 0 {
        Err(A11yError::InvalidRequest(String::from_str("max_results must be at least 1")))
    } else {
        Ok(())
    }
}

/// The answer to a search on a backend snapshot: roles normalized, the first
/// `max_results` matches in pre-order, ids assigned in that order; truncated
/// when more nodes matched or the snapshot itself was cut short.
pub fn find_from_snapshot(query: &FindQuery, snapshot: SourceSnapshot, registry: &mut Registry) -> (out: FindOutcome)
    requires
        query.max_results >= 1,
        old(registry).wf(),
        old(registry)@.next + query.max_results <= u64::MAX,
    ensures
        final(registry).wf(),
        out.matches@.len() == find_hits(*query, snapshot.root@).len(),
        forall|k: int|
            0 <= k < out.matches@.len() ==> match_agrees(
                #[trigger] out.matches@[k],
                find_hits(*query, snapshot.root@)[k],
                assign_ids(find_hits(*query, snapshot.root@), old(registry)@).0[k],
            ),
        final(registry)@ == assign_ids(find_hits(*query, snapshot.root@), old(registry)@).1,
        out.truncated == (all_matches(normalize_view(snapshot.root@), node_query_of(*query)).len()
            > query.max_results || snapshot.truncated),
{
    let root = normalize_tree(&snapshot.root);
    let matcher = NodeQuery {
        role: crate::source::clone_opt_string(&query.role),
        name: crate::source::clone_opt_string(&query.name),
        name_contains: crate::source::clone_opt_string(&query.name_contains),
        value_contains: crate::source::clone_opt_string(&query.value_contains),
        max_results: query.max_results,
    };
    assert(matcher == node_query_of(*query));
    let (hits, cut_by_limit) = collect_matches(&root, &matcher, query.max_results);
    let ghost hv = matches_view(hits@);
    let ghost r0 = registry@;
    proof {
        registry.lemma_wf();
        assert(hv == find_hits(*query, snapshot.root@));
        assert(hv.len() <= query.max_results);
        lemma_assign_ids(hv, r0);
    }
    let mut matches: Vec<AccessibleMatch> = Vec::new();
    let mut i: usize = 0;
    while i < hits.len()
        invariant
            i <= hits.len(),
            hv == matches_view(hits@),
            hv.len() == hits@.len(),
            registry_wf(r0),
            r0.next + hv.len() <= u64::MAX,
            registry.wf(),
            registry@ == assign_ids(hv.take(i as int), r0).1,
            matches@.len() == i,
            forall|k: int|
                0 <= k < i ==> match_agrees(
                    #[trigger] matches@[k],
                    hv[k],
                    assign_ids(hv.take(i as int), r0).0[k],
                ),
        decreases hits.len() - i,
    {
        let ghost t = hv.take(i as int);
        let ghost t1 = hv.take(i + 1);
        proof {
            assert(t1.drop_last() =~= t);
            assert(t1.last() == hv[i as int]);
            lemma_assign_ids(t, r0);
        }
        let hit = &hits[i];
        let id = registry.assign(&hit.node.handle);
        let m = AccessibleMatch {
            id,
            role: hit.node.role.clone(),
            name: hit.node.name.clone(),
            value: crate::source::clone_opt_string(&hit.node.value),
            states: crate::source::clone_states(&hit.node.states),
            bounds: hit.node.bounds,
            actions: crate::source::clone_strings(&hit.node.actions),
            path: crate::source::clone_strings(&hit.path),
        };
        matches.push(m);
        proof {
            assert(hv[i as int] == crate::find::match_view(hits@[i as int]));
            assert forall|k: int| 0 <= k < i + 1 implies match_agrees(
                #[trigger] matches@[k],
                hv[k],
                assign_ids(t1, r0).0[k],
            ) by {
                if k < i {
                    assert(assign_ids(t1, r0).0[k] == assign_ids(t, r0).0[k]);
                }
            }
        }
        i += 1;
    }
    proof {
        assert(hv.take(hits.len() as int) =~= hv);
    }
    FindOutcome { matches, truncated: cut_by_limit || snapshot.truncated }
}


/// The message of a refused invocation: the element does not expose the
/// requested action, or (with no action named) exposes none.
pub open spec fn no_action_message(id: u64, action: Option<Seq<char>>) -> Seq<char> {
    match action {
        Some(a) => "accessible node "@ + decimal(id as nat) + " does not expose action "@ + a,
        None => "accessible node "@ + decimal(id as nat) + " exposes no action to invoke"@,
    }
}

/// The message of an unavailable backend.
pub open spec fn unavailable_message(backend: Seq<char>) -> Seq<char> {
    "backend "@ + backend + " is not available"@
}

/// Resolve the element an invocation addresses. Availability is checked
/// first, so an unavailable backend refuses any id; on an available backend an
/// id the registry does not track is unknown.
pub fn resolve_invocation(available: bool, backend: &str, registry: &Registry, id: AccessibleId) -> (r:
    Result<ElementHandle, A11yError>)
    requires
        registry.wf(),
    ensures
        !available ==> (r matches Err(A11yError::Unavailable(m)) && m@ == unavailable_message(
            backend@,
        )),
        available ==> match r {
            Ok(h) => handle_of_spec(registry@, id.0) == Some(h.0@),
            Err(e) => handle_of_spec(registry@, id.0) is None && e == A11yError::UnknownNode(id),
        },
{
    if !available {
        let mut m = String::from_str("backend ");
        m.append(backend);
        m.append(" is not available");
        return Err(A11yError::Unavailable(m));
    }
    match registry.handle_of(id) {
        Some(h) => Ok(h),
        None => Err(A11yError::UnknownNode(id)),
    }
}

/// The answer to an invocation, from the backend's outcome.
pub fn invocation_answer(id: AccessibleId, action: Option<&str>, outcome: InvokeOutcome) -> (r: Result<
    String,
    A11yError,
>)
    ensures
        match outcome {
            InvokeOutcome::Invoked(name) => r matches Ok(n) && n@ == name@,
            InvokeOutcome::NoSuchAction => r matches Err(A11yError::InvalidRequest(m)) && m@
                == no_action_message(
                id.0,
                match action {
                    Some(a) => Some(a@),
                    None => None,
                },
            ),
            InvokeOutcome::Gone => r matches Err(e) && e == A11yError::UnknownNode(id),
        },
{
    match outcome {
        InvokeOutcome::Invoked(name) => Ok(name),
        InvokeOutcome::NoSuchAction => {
            let mut m = String::from_str("accessible node ");
            push_decimal(&mut m, id.0);
            match action {
                Some(a) => {
                    m.append(" does not expose action ");
                    m.append(a);
                },
                None => {
                    m.append(" exposes no action to invoke");
                },
            }
            Err(A11yError::InvalidRequest(m))
        },
        InvokeOutcome::Gone => Err(A11yError::UnknownNode(id)),
    }
}

} // verus!
