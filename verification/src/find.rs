//! The `find_accessible` matcher: a pre-order walk over a backend tree that
//! collects the nodes satisfying every given filter, with their ancestor path.

use vstd::prelude::*;

use crate::source::{lemma_sources_view, lemma_sources_view_take, source_view, SourceNode, SourceNodeView};
use crate::text_search::{contains_ignore_case, contains_ignore_case_spec};

verus! {

/// The filters of a `find_accessible` request. Filters are AND-ed; an omitted
/// filter matches everything.
#[derive(Debug, Clone)]
pub struct NodeQuery {
    /// Exact (already normalized) role name to match, when given.
    pub role: Option<String>,
    /// Exact accessible name to match, when given.
    pub name: Option<String>,
    /// Case-insensitive substring of the accessible name, when given.
    pub name_contains: Option<String>,
    /// Case-insensitive substring of the node's value, when given.
    pub value_contains: Option<String>,
    /// Maximum number of matches the request asked for.
    pub max_results: u32,
}

impl Default for NodeQuery {
    /// No filter, and no room for a match.
    fn default() -> (q: NodeQuery)
        ensures
            q.role is None,
            q.name is None,
            q.name_contains is None,
            q.value_contains is None,
            q.max_results == 0,
    {
        NodeQuery { role: None, name: None, name_contains: None, value_contains: None, max_results: 0 }
    }
}

/// One pre-order match: the node plus the ancestor names from the root down to
/// (excluding) it.
#[derive(Debug)]
pub struct NodeMatch<'a> {
    /// The matched node.
    pub node: &'a SourceNode,
    /// Ancestor names from the window root down to, but excluding, the match.
    pub path: Vec<String>,
}

/// The names in a path, as character sequences.
pub open spec fn path_view(path: Seq<String>) -> Seq<Seq<char>> {
    path.map_values(|s: String| s@)
}

/// A visited node together with its ancestor names.
pub type Visit = (SourceNodeView, Seq<Seq<char>>);

/// The spec view of a match.
pub open spec fn match_view(m: NodeMatch) -> Visit {
    (source_view(*m.node), path_view(m.path@))
}

/// The spec view of a list of matches.
pub open spec fn matches_view(ms: Seq<NodeMatch>) -> Seq<Visit> {
    ms.map_values(|m: NodeMatch| match_view(m))
}

/// Every node of the subtree rooted at `node`, in pre-order (the node, then each
/// child's subtree in order), each with its ancestor names; `path` holds the
/// names above `node`.
pub open spec fn preorder(node: SourceNodeView, path: Seq<Seq<char>>) -> Seq<Visit>
    decreases node, 1nat,
{
    seq![(node, path)] + preorder_all(node.children, path.push(node.name))
}

/// The pre-order visits of a list of sibling subtrees, in order.
pub open spec fn preorder_all(nodes: Seq<SourceNodeView>, path: Seq<Seq<char>>) -> Seq<Visit>
    decreases nodes, 0nat,
{
    if nodes.len() == 0 {
        Seq::empty()
    } else {
        preorder_all(nodes.drop_last(), path) + preorder(nodes.last(), path)
    }
}

/// Whether an optional filter admits a value (an omitted filter admits all).
pub open spec fn exact_filter(filter: Option<String>, value: Seq<char>) -> bool {
    match filter {
        Some(f) => f@ == value,
        None => true,
    }
}

/// Whether `node` satisfies every filter of `query`.
pub open spec fn node_matches(node: SourceNodeView, query: NodeQuery) -> bool {
    &&& exact_filter(query.role, node.role)
    &&& exact_filter(query.name, node.name)
    &&& match query.name_contains {
        Some(needle) => contains_ignore_case_spec(node.name, needle@),
        None => true,
    }
    &&& match query.value_contains {
        Some(needle) => match node.value {
            Some(value) => contains_ignore_case_spec(value, needle@),
            None => false,
        },
        None => true,
    }
}

/// The visits that satisfy `query`, in order.
pub open spec fn matching(visits: Seq<Visit>, query: NodeQuery) -> Seq<Visit> {
    visits.filter(|v: Visit| node_matches(v.0, query))
}

/// Every match of `query` in the tree rooted at `root`, in pre-order.
pub open spec fn all_matches(root: SourceNodeView, query: NodeQuery) -> Seq<Visit> {
    matching(preorder(root, Seq::empty()), query)
}

/// The first `max` elements of `s` (all of them when there are fewer).
pub open spec fn take_at_most<A>(s: Seq<A>, max: int) -> Seq<A> {
    if s.len() <= max { s } else { s.take(max) }
}

/// Whether `node` satisfies every filter of `query`.
pub fn matches_node(node: &SourceNode, query: &NodeQuery) -> (r: bool)
    ensures
        r == node_matches(node@, *query),
{
    if let Some(role) = &query.role {
        if node.role != *role {
            return false;
        }
    }
    if let Some(name) = &query.name {
        if node.name != *name {
            return false;
        }
    }
    if let Some(needle) = &query.name_contains {
        if !contains_ignore_case(node.name.as_str(), needle.as_str()) {
            return false;
        }
    }
    if let Some(needle) = &query.value_contains {
        match &node.value {
            Some(value) => {
                if !contains_ignore_case(value.as_str(), needle.as_str()) {
                    return false;
                }
            },
            None => {
                return false;
            },
        }
    }
    true
}

proof fn lemma_filter_append(a: Seq<Visit>, b: Seq<Visit>, query: NodeQuery)
    ensures
        matching(a + b, query) == matching(a, query) + matching(b, query),
{
    Seq::filter_distributes_over_add(a, b, |v: Visit| node_matches(v.0, query));
}

/// Copy a path of names.
fn copy_path(path: &Vec<String>) -> (out: Vec<String>)
    ensures
        out@ == path@,
{
    let mut out: Vec<String> = Vec::new();
    let mut i: usize = 0;
    while i < path.len()
        invariant
            i <= path.len(),
            out@ == path@.take(i as int),
        decreases path.len() - i,
    {
        let s = path[i].clone();
        out.push(s);
        assert(path@.take(i + 1) =~= path@.take(i as int).push(path@[i as int]));
        i += 1;
    }
    assert(path@.take(path.len() as int) =~= path@);
    out
}

/// Pre-order visit of `node`: the node itself, then its children in order.
/// Stops as soon as a node that would have matched cannot be collected.
fn walk<'a>(
    node: &'a SourceNode,
    query: &NodeQuery,
    max_results: u32,
    path: &mut Vec<String>,
    matches: &mut Vec<NodeMatch<'a>>,
    truncated: &mut bool,
)
    requires
        !*old(truncated),
        old(matches)@.len() <= max_results,
    ensures
        final(path)@ == old(path)@,
        ({
            let all = matches_view(old(matches)@) + matching(
                preorder(node@, path_view(old(path)@)),
                *query,
            );
            &&& matches_view(final(matches)@) == take_at_most(all, max_results as int)
            &&& *final(truncated) == (all.len() > max_results)
        }),
    decreases node, 1nat,
{
    let ghost p0 = path_view(path@);
    let ghost m0 = matches_view(matches@);
    proof {
        lemma_filter_append(seq![(node@, p0)], preorder_all(node@.children, p0.push(node@.name)), *query);
        reveal_with_fuel(Seq::filter, 2);
    }
    if matches_node(node, query) {
        if (matches.len() as u64) < (max_results as u64) {
            let copied = copy_path(path);
            matches.push(NodeMatch { node, path: copied });
            assert(matches_view(matches@) =~= m0.push((node@, p0)));
        } else {
            *truncated = true;
            return;
        }
    }
    assert(matches_view(matches@) == m0 + matching(seq![(node@, p0)], *query)) by {
        assert(seq![(node@, p0)].drop_last() =~= Seq::<Visit>::empty());
    }
    let ghost path0 = path@;
    path.push(node.name.clone());
    assert(path_view(path@) =~= p0.push(node.name@));
    walk_children(node, query, max_results, path, matches, truncated);
    path.pop();
    assert(path@ =~= path0);
}

/// Visit the children of `node` in order, stopping once truncated.
fn walk_children<'a>(
    node: &'a SourceNode,
    query: &NodeQuery,
    max_results: u32,
    path: &mut Vec<String>,
    matches: &mut Vec<NodeMatch<'a>>,
    truncated: &mut bool,
)
    requires
        !*old(truncated),
        old(matches)@.len() <= max_results,
    ensures
        final(path)@ == old(path)@,
        ({
            let all = matches_view(old(matches)@) + matching(
                preorder_all(node@.children, path_view(old(path)@)),
                *query,
            );
            &&& matches_view(final(matches)@) == take_at_most(all, max_results as int)
            &&& *final(truncated) == (all.len() > max_results)
        }),
    decreases node, 0nat,
{
    let ghost p = path_view(path@);
    let ghost path0 = path@;
    let ghost m0 = matches_view(matches@);
    let mut i: usize = 0;
    while i < node.children.len()
        invariant
            i <= node.children.len(),
            path@ == path0,
            path0 == old(path)@,
            p == path_view(old(path)@),
            m0 == matches_view(old(matches)@),
            path_view(path@) == p,
            !*truncated,
            matches@.len() <= max_results,
            matches_view(matches@) == m0 + matching(
                preorder_all(node@.children.take(i as int), p),
                *query,
            ),
        decreases node.children.len() - i,
    {
        let ghost before = matches_view(matches@);
        let child = &node.children[i];
        walk(child, query, max_results, path, matches, truncated);
        proof {
            lemma_sources_view(node.children@);
            lemma_sources_view_take(node.children@, i as int);
            lemma_sources_view_take(node.children@, i + 1);
            let kids = node@.children;
            let taken = kids.take(i + 1);
            assert(taken.drop_last() =~= kids.take(i as int));
            assert(taken.last() == kids[i as int]);
            lemma_filter_append(
                preorder_all(kids.take(i as int), p),
                preorder(kids[i as int], p),
                *query,
            );
            let all_i = before + matching(preorder(kids[i as int], p), *query);
            assert(all_i =~= m0 + matching(preorder_all(kids.take(i + 1), p), *query));
        }
        assert(path@ == path0);
        if *truncated {
            proof {
                // Everything after the child only adds matches, so the answer is
                // already fixed.
                lemma_rest_irrelevant(node@.children, i as int, p, *query, m0, max_results as int);
            }
            return;
        }
        i += 1;
    }
    proof {
        lemma_sources_view(node.children@);
        assert(node@.children.take(node.children.len() as int) =~= node@.children);
    }
}

/// Pre-order visits distribute over concatenated sibling lists.
proof fn lemma_preorder_all_append(a: Seq<SourceNodeView>, b: Seq<SourceNodeView>, p: Seq<Seq<char>>)
    ensures
        preorder_all(a + b, p) == preorder_all(a, p) + preorder_all(b, p),
    decreases b.len(),
{
    if b.len() == 0 {
        assert(a + b =~= a);
    } else {
        assert((a + b).drop_last() =~= a + b.drop_last());
        assert((a + b).last() == b.last());
        lemma_preorder_all_append(a, b.drop_last(), p);
    }
}

/// Once the collected prefix already overflows the bound, the siblings that
/// follow neither change the kept matches nor the truncation.
proof fn lemma_rest_irrelevant(
    children: Seq<SourceNodeView>,
    i: int,
    p: Seq<Seq<char>>,
    query: NodeQuery,
    m0: Seq<Visit>,
    max: int,
)
    requires
        0 <= i < children.len(),
        0 <= max,
        (m0 + matching(preorder_all(children.take(i + 1), p), query)).len() > max,
    ensures
        ({
            let head = m0 + matching(preorder_all(children.take(i + 1), p), query);
            let all = m0 + matching(preorder_all(children, p), query);
            &&& take_at_most(all, max) == take_at_most(head, max)
            &&& all.len() > max
        }),
{
    let head_nodes = children.take(i + 1);
    let rest_nodes = children.skip(i + 1);
    assert(children =~= head_nodes + rest_nodes);
    lemma_preorder_all_append(head_nodes, rest_nodes, p);
    lemma_filter_append(preorder_all(head_nodes, p), preorder_all(rest_nodes, p), query);
    let head = m0 + matching(preorder_all(head_nodes, p), query);
    let all = m0 + matching(preorder_all(children, p), query);
    assert(all =~= head + matching(preorder_all(rest_nodes, p), query));
    assert(all.take(max) =~= head.take(max));
}

/// Collect matches in pre-order, at most `max_results`; the returned flag reports
/// that more nodes would have matched. A `max_results` of zero collects nothing
/// and reports truncation as soon as some node matches.
pub fn collect_matches<'a>(root: &'a SourceNode, query: &NodeQuery, max_results: u32) -> (res: (
    Vec<NodeMatch<'a>>,
    bool,
))
    ensures
        matches_view(res.0@) == take_at_most(all_matches(root@, *query), max_results as int),
        res.1 == (all_matches(root@, *query).len() > max_results),
{
    let mut matches: Vec<NodeMatch<'a>> = Vec::new();
    let mut truncated = false;
    let mut path: Vec<String> = Vec::new();
    proof {
        assert(path_view(path@) =~= Seq::<Seq<char>>::empty());
        assert(matches_view(matches@) =~= Seq::<Visit>::empty());
    }
    walk(root, query, max_results, &mut path, &mut matches, &mut truncated);
    assert(Seq::<Visit>::empty() + all_matches(root@, *query) =~= all_matches(root@, *query));
    (matches, truncated)
}

} // verus!
