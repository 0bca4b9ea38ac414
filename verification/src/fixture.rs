//! A deterministic in-memory accessibility backend.
//!
//! The fixture answers a snapshot from a tree built in memory. Every element
//! gets a handle derived from its path in the assembled tree (root `fixture`,
//! child *i* `{parent}/{i}`) unless the builder was given one explicitly, and
//! every invocation and the last snapshot target are recorded.

use vstd::prelude::*;

use crate::a11y_error::A11yError;
use crate::chars::chars_of;
use crate::fmt::{decimal, push_decimal};
use crate::model::{AccessibleState, AppId, Rect};
use crate::service::{forest_size, tree_size};
use crate::source::{
    clone_opt_string, clone_states, clone_strings, lemma_sources_view, opt_str_view, source_view,
    sources_view, strs_view, ElementHandle, InvokeOutcome, SourceNode, SourceNodeView,
    SourceOptions, SourceSnapshot, WindowTarget,
};

verus! {

/// `v` with its children replaced.
pub open spec fn with_children(v: SourceNodeView, kids: Seq<SourceNodeView>) -> SourceNodeView {
    SourceNodeView { children: kids, ..v }
}

/// The budget left after spending one node of `rem`.
pub open spec fn spend(rem: nat) -> nat {
    if rem > 0 {
        (rem - 1) as nat
    } else {
        0
    }
}

/// Bounded pre-order copy of `v`, the node at `depth` with `rem` nodes still
/// allowed (the node itself included): the kept subtree, the budget left, and
/// whether anything was cut. A node at `max_depth` keeps no children; siblings
/// stop being kept once the budget is spent.
pub open spec fn trim_view(v: SourceNodeView, depth: nat, max_depth: nat, rem: nat) -> (
    SourceNodeView,
    nat,
    bool,
)
    decreases v, 0nat,
{
    if depth >= max_depth {
        (with_children(v, Seq::empty()), spend(rem), v.children.len() > 0)
    } else {
        let (kids, rem2, cut) = trim_kids(v.children, 0, depth + 1, max_depth, spend(rem));
        (with_children(v, kids), rem2, cut)
    }
}

/// [`trim_view`] over the siblings `vs[i..]`.
pub open spec fn trim_kids(
    vs: Seq<SourceNodeView>,
    i: nat,
    depth: nat,
    max_depth: nat,
    rem: nat,
) -> (Seq<SourceNodeView>, nat, bool)
    decreases vs, vs.len() - i,
{
    if i >= vs.len() {
        (Seq::empty(), rem, false)
    } else if rem == 0 {
        (Seq::empty(), 0, true)
    } else {
        let (k, rem1, c1) = trim_view(vs[i as int], depth, max_depth, rem);
        let (rest, rem2, c2) = trim_kids(vs, i + 1, depth, max_depth, rem1);
        (seq![k] + rest, rem2, c1 || c2)
    }
}

/// What a fixture snapshot keeps of `root` under `opts`: the kept tree and
/// whether anything was cut. The root is always kept, so a `max_nodes` of zero
/// still yields the root alone.
pub open spec fn trim_spec(root: SourceNodeView, opts: SourceOptions) -> (SourceNodeView, bool) {
    let budget: nat = if opts.max_nodes == 0 { 1 } else { opts.max_nodes as nat };
    let (kept, _rem, cut) = trim_view(root, 0, opts.max_depth as nat, budget);
    (kept, cut)
}

/// The size of a concatenation of forests.
pub proof fn lemma_forest_size_concat(a: Seq<SourceNodeView>, b: Seq<SourceNodeView>)
    ensures
        forest_size(a + b) == forest_size(a) + forest_size(b),
    decreases b.len(),
{
    if b.len() > 0 {
        lemma_forest_size_concat(a, b.drop_last());
        assert((a + b).drop_last() =~= a + b.drop_last());
        assert((a + b).last() == b.last());
    } else {
        assert(a + b =~= a);
    }
}

/// A forest of one tree has that tree's size.
pub proof fn lemma_forest_size_single(v: SourceNodeView)
    ensures
        forest_size(seq![v]) == tree_size(v),
        tree_size(v) >= 1,
{
    assert(seq![v].drop_last() =~= Seq::<SourceNodeView>::empty());
    assert(seq![v].last() == v);
    assert(forest_size(Seq::<SourceNodeView>::empty()) == 0);
    assert(forest_size(seq![v]) == forest_size(seq![v].drop_last()) + tree_size(seq![v].last()));
}

/// Trimming spends exactly one unit of budget per kept node, never grows the
/// tree, keeps it whole when nothing is reported cut, and loses at least one
/// node when something is.
pub proof fn lemma_trim_view(v: SourceNodeView, depth: nat, max_depth: nat, rem: nat)
    requires
        rem >= 1,
    ensures
        ({
            let t = trim_view(v, depth, max_depth, rem);
            &&& t.1 + tree_size(t.0) == rem
            &&& tree_size(t.0) <= tree_size(v)
            &&& !t.2 ==> t.0 == v
            &&& t.2 ==> tree_size(t.0) < tree_size(v)
        }),
    decreases v, 0nat,
{
    let t = trim_view(v, depth, max_depth, rem);
    if depth >= max_depth {
        assert(t.0.children =~= Seq::<SourceNodeView>::empty());
        if v.children.len() == 0 {
            assert(v.children =~= Seq::<SourceNodeView>::empty());
            assert(t.0 == v);
        } else {
            assert(forest_size(v.children) >= tree_size(v.children.last()));
        }
    } else {
        lemma_trim_kids(v.children, 0, depth + 1, max_depth, spend(rem));
        assert(v.children.skip(0) =~= v.children);
        if !t.2 {
            assert(t.0 =~= v);
        }
    }
}

/// [`lemma_trim_view`] over the siblings `vs[i..]`.
pub proof fn lemma_trim_kids(vs: Seq<SourceNodeView>, i: nat, depth: nat, max_depth: nat, rem: nat)
    requires
        i <= vs.len(),
    ensures
        ({
            let t = trim_kids(vs, i, depth, max_depth, rem);
            &&& t.1 + forest_size(t.0) == rem
            &&& forest_size(t.0) <= forest_size(vs.skip(i as int))
            &&& !t.2 ==> t.0 == vs.skip(i as int)
            &&& t.2 ==> forest_size(t.0) < forest_size(vs.skip(i as int))
        }),
    decreases vs, vs.len() - i,
{
    let t = trim_kids(vs, i, depth, max_depth, rem);
    if i >= vs.len() {
        assert(vs.skip(i as int) =~= Seq::<SourceNodeView>::empty());
    } else if rem == 0 {
        let sk = vs.skip(i as int);
        assert(sk =~= seq![vs[i as int]] + vs.skip((i + 1) as int));
        lemma_forest_size_concat(seq![vs[i as int]], vs.skip((i + 1) as int));
        lemma_forest_size_single(vs[i as int]);
        assert(forest_size(Seq::<SourceNodeView>::empty()) == 0);
    } else {
        let (k, rem1, c1) = trim_view(vs[i as int], depth, max_depth, rem);
        lemma_trim_view(vs[i as int], depth, max_depth, rem);
        lemma_trim_kids(vs, i + 1, depth, max_depth, rem1);
        let rest = trim_kids(vs, i + 1, depth, max_depth, rem1);
        lemma_forest_size_concat(seq![k], rest.0);
        lemma_forest_size_single(k);
        let sk = vs.skip(i as int);
        assert(sk =~= seq![vs[i as int]] + vs.skip((i + 1) as int));
        lemma_forest_size_concat(seq![vs[i as int]], vs.skip((i + 1) as int));
        lemma_forest_size_single(vs[i as int]);
        if !t.2 {
            assert(t.0 =~= sk);
        }
    }
}

/// A fixture snapshot never holds more nodes than `max_nodes` (the root is
/// always kept), is reported cut exactly when it lost nodes, and is the whole
/// tree when nothing was cut.
pub proof fn lemma_trim_spec(root: SourceNodeView, opts: SourceOptions)
    ensures
        tree_size(trim_spec(root, opts).0) <= if opts.max_nodes == 0 { 1 } else { opts.max_nodes as nat },
        trim_spec(root, opts).1 <==> tree_size(trim_spec(root, opts).0) < tree_size(root),
        !trim_spec(root, opts).1 ==> trim_spec(root, opts).0 == root,
{
    let budget: nat = if opts.max_nodes == 0 { 1 } else { opts.max_nodes as nat };
    lemma_trim_view(root, 0, opts.max_depth as nat, budget);
}

/// A copy of `node` without its children.
fn shallow_copy(node: &SourceNode) -> (out: SourceNode)
    ensures
        out@ == with_children(node@, Seq::empty()),
{
    let out = SourceNode {
        role: node.role.clone(),
        name: node.name.clone(),
        description: clone_opt_string(&node.description),
        value: clone_opt_string(&node.value),
        states: clone_states(&node.states),
        bounds: node.bounds,
        actions: clone_strings(&node.actions),
        handle: ElementHandle(node.handle.0.clone()),
        children: Vec::new(),
    };
    assert(out@.children =~= Seq::<SourceNodeView>::empty());
    assert(out@ =~= with_children(node@, Seq::empty()));
    out
}

/// Keep `node` and, while the bounds allow, its children; `remaining` counts
/// the nodes still allowed and `truncated` is raised when anything is cut.
fn trim_node(
    node: &SourceNode,
    depth: u32,
    opts: SourceOptions,
    remaining: &mut u32,
    truncated: &mut bool,
) -> (kept: SourceNode)
    requires
        *old(remaining) >= 1,
    ensures
        (kept@, *final(remaining) as nat, *final(truncated)) == ({
            let t = trim_view(node@, depth as nat, opts.max_depth as nat, *old(remaining) as nat);
            (t.0, t.1, *old(truncated) || t.2)
        }),
    decreases node,
{
    *remaining = *remaining - 1;
    let mut kept = shallow_copy(node);
    if depth >= opts.max_depth {
        if node.children.len() > 0 {
            *truncated = true;
        }
        return kept;
    }
    proof {
        lemma_sources_view(node.children@);
    }
    let ghost vs = node@.children;
    let ghost d1 = (depth + 1) as nat;
    let ghost md = opts.max_depth as nat;
    let ghost rem0 = *remaining as nat;
    let ghost t0 = *truncated;
    let ghost full = trim_kids(vs, 0, d1, md, rem0);
    let ghost mut cut_so_far = false;
    let mut kids: Vec<SourceNode> = Vec::new();
    let mut i: usize = 0;
    assert(sources_view(kids@) =~= Seq::<SourceNodeView>::empty());
    while i < node.children.len()
        invariant_except_break
            i <= node.children.len(),
            vs == node@.children,
            vs.len() == node.children@.len(),
            forall|j: int|
                0 <= j < node.children@.len() ==> vs[j] == source_view(#[trigger] node.children@[j]),
            depth < opts.max_depth,
            d1 == depth + 1,
            md == opts.max_depth,
            full == trim_kids(vs, 0, d1, md, rem0),
            full.0 == sources_view(kids@) + trim_kids(vs, i as nat, d1, md, *remaining as nat).0,
            full.1 == trim_kids(vs, i as nat, d1, md, *remaining as nat).1,
            full.2 == (cut_so_far || trim_kids(vs, i as nat, d1, md, *remaining as nat).2),
            *truncated == (t0 || cut_so_far),
        ensures
            full.0 == sources_view(kids@),
            full.1 == *remaining as nat,
            *truncated == (t0 || full.2),
        decreases node.children.len() - i,
    {
        if *remaining == 0 {
            *truncated = true;
            proof {
                assert(sources_view(kids@) + Seq::<SourceNodeView>::empty() =~= sources_view(kids@));
            }
            break;
        }
        let ghost r_before = *remaining as nat;
        let ghost step = trim_view(vs[i as int], d1, md, r_before);
        let child = trim_node(&node.children[i], depth + 1, opts, remaining, truncated);
        let ghost before = kids@;
        kids.push(child);
        proof {
            assert(kids@.drop_last() =~= before);
            let rest = trim_kids(vs, (i + 1) as nat, d1, md, step.1);
            assert(trim_kids(vs, i as nat, d1, md, r_before).0 =~= seq![step.0] + rest.0);
            assert(sources_view(kids@) =~= sources_view(before).push(step.0));
            assert(full.0 =~= sources_view(kids@) + rest.0);
            cut_so_far = cut_so_far || step.2;
        }
        i += 1;
    }
    proof {
        if i == node.children.len() {
            assert(sources_view(kids@) + Seq::<SourceNodeView>::empty() =~= sources_view(kids@));
        }
    }
    kept.children = kids;
    assert(kept@ =~= with_children(node@, full.0));
    kept
}

/// Apply `opts` to `root`: the kept subtree and whether anything was cut.
pub fn trim(root: &SourceNode, opts: SourceOptions) -> (res: (SourceNode, bool))
    ensures
        (res.0@, res.1) == trim_spec(root@, opts),
{
    let mut truncated = false;
    let mut remaining: u32 = if opts.max_nodes == 0 { 1 } else { opts.max_nodes };
    let kept = trim_node(root, 0, opts, &mut remaining, &mut truncated);
    (kept, truncated)
}

/// The handle the fixture gives the root of a tree it assembles.
pub open spec fn root_handle() -> Seq<char> {
    "fixture"@
}

/// Whether a handle is one the builder derived rather than one the caller
/// chose: empty, the root handle, or anything below it.
pub open spec fn is_derived(h: Seq<char>) -> bool {
    let p = root_handle();
    h.len() == 0 || (h.len() >= p.len() && h.take(p.len() as int) == p && (h.len() == p.len()
        || h[p.len() as int] == '/'))
}

/// The handle of child `i` under `base`.
pub open spec fn child_handle(base: Seq<char>, i: nat) -> Seq<char> {
    base + "/"@ + decimal(i)
}

/// `v` with its path-derived handles: a derived handle becomes `derived`, a
/// chosen one is kept, and children are numbered under the handle the node
/// ended up with.
pub open spec fn resolved(v: SourceNodeView, derived: Seq<char>) -> SourceNodeView
    decreases v, 1nat,
{
    let h = if is_derived(v.handle) { derived } else { v.handle };
    SourceNodeView { handle: h, children: resolved_all(v.children, h), ..v }
}

/// [`resolved`] over a list of siblings under `base`.
pub open spec fn resolved_all(vs: Seq<SourceNodeView>, base: Seq<char>) -> Seq<SourceNodeView>
    decreases vs, 0nat,
{
    if vs.len() == 0 {
        Seq::empty()
    } else {
        resolved_all(vs.drop_last(), base).push(
            resolved(vs.last(), child_handle(base, (vs.len() - 1) as nat)),
        )
    }
}

/// Whether `handle` is one the builder derived rather than one the caller chose.
pub fn is_derived_handle(handle: &ElementHandle) -> (b: bool)
    ensures
        b == is_derived(handle.0@),
{
    let cs = chars_of(handle.as_str());
    if cs.len() == 0 {
        return true;
    }
    let root = chars_of("fixture");
    if cs.len() < root.len() {
        return false;
    }
    let mut k: usize = 0;
    while k < root.len()
        invariant
            root@ == root_handle(),
            cs@ == handle.0@,
            root.len() <= cs.len(),
            k <= root.len(),
            forall|j: int| 0 <= j < k ==> cs@[j] == root@[j],
        decreases root.len() - k,
    {
        if cs[k] != root[k] {
            assert(handle.0@.take(root.len() as int)[k as int] != root_handle()[k as int]);
            return false;
        }
        k += 1;
    }
    assert(handle.0@.take(root.len() as int) =~= root_handle());
    cs.len() == root.len() || cs[root.len()] == '/'
}

/// A copy of `node` with its path-derived handles resolved under `derived`.
pub fn resolve_handles(node: &SourceNode, derived: String) -> (out: SourceNode)
    ensures
        out@ == resolved(node@, derived@),
    decreases node,
{
    let handle = if is_derived_handle(&node.handle) {
        derived
    } else {
        node.handle.0.clone()
    };
    proof {
        lemma_sources_view(node.children@);
    }
    let ghost vs = node@.children;
    let mut kids: Vec<SourceNode> = Vec::new();
    let mut i: usize = 0;
    assert(sources_view(kids@) =~= resolved_all(vs.take(0), handle@));
    while i < node.children.len()
        invariant
            i <= node.children.len(),
            vs == node@.children,
            vs.len() == node.children@.len(),
            forall|j: int|
                0 <= j < node.children@.len() ==> vs[j] == source_view(#[trigger] node.children@[j]),
            sources_view(kids@) == resolved_all(vs.take(i as int), handle@),
        decreases node.children.len() - i,
    {
        let mut child_name = handle.clone();
        child_name.push('/');
        push_decimal(&mut child_name, i as u64);
        proof {
            reveal_strlit("/");
            assert(child_name@ =~= child_handle(handle@, i as nat));
        }
        let child = resolve_handles(&node.children[i], child_name);
        let ghost before = kids@;
        kids.push(child);
        proof {
            assert(kids@.drop_last() =~= before);
            let t1 = vs.take(i + 1);
            assert(t1.drop_last() =~= vs.take(i as int));
            assert(t1.last() == vs[i as int]);
        }
        i += 1;
    }
    assert(vs.take(node.children.len() as int) =~= vs);
    let out = SourceNode {
        role: node.role.clone(),
        name: node.name.clone(),
        description: clone_opt_string(&node.description),
        value: clone_opt_string(&node.value),
        states: clone_states(&node.states),
        bounds: node.bounds,
        actions: clone_strings(&node.actions),
        handle: ElementHandle(handle),
        children: kids,
    };
    assert(out@ =~= resolved(node@, derived@));
    out
}

/// The first node in pre-order whose handle is `h`.
pub open spec fn find_view(v: SourceNodeView, h: Seq<char>) -> Option<SourceNodeView>
    decreases v, 1nat,
{
    if v.handle == h {
        Some(v)
    } else {
        find_all(v.children, h)
    }
}

/// [`find_view`] over a list of siblings, in order.
pub open spec fn find_all(vs: Seq<SourceNodeView>, h: Seq<char>) -> Option<SourceNodeView>
    decreases vs, 0nat,
{
    if vs.len() == 0 {
        None
    } else {
        match find_all(vs.drop_last(), h) {
            Some(x) => Some(x),
            None => find_view(vs.last(), h),
        }
    }
}

/// Find the element a handle addresses, if the tree has it.
pub fn find_node<'a>(node: &'a SourceNode, handle: &ElementHandle) -> (r: Option<&'a SourceNode>)
    ensures
        match r {
            Some(n) => find_view(node@, handle.0@) == Some(n@),
            None => find_view(node@, handle.0@) is None,
        },
    decreases node,
{
    if node.handle.0 == handle.0 {
        return Some(node);
    }
    proof {
        lemma_sources_view(node.children@);
    }
    let ghost vs = node@.children;
    let mut i: usize = 0;
    while i < node.children.len()
        invariant
            i <= node.children.len(),
            vs == node@.children,
            vs.len() == node.children@.len(),
            forall|j: int|
                0 <= j < node.children@.len() ==> vs[j] == source_view(#[trigger] node.children@[j]),
            find_all(vs.take(i as int), handle.0@) is None,
            node@.handle != handle.0@,
        decreases node.children.len() - i,
    {
        proof {
            let t1 = vs.take(i + 1);
            assert(t1.drop_last() =~= vs.take(i as int));
            assert(t1.last() == vs[i as int]);
        }
        match find_node(&node.children[i], handle) {
            Some(found) => {
                proof {
                    let t1 = vs.take(i + 1);
                    assert(find_all(t1, handle.0@) == Some(found@));
                    lemma_find_all_prefix(vs, (i + 1) as nat, handle.0@);
                    assert(node@.handle != handle.0@);
                }
                return Some(found);
            },
            None => {},
        }
        i += 1;
    }
    assert(vs.take(node.children.len() as int) =~= vs);
    None
}

/// A match in a prefix of the siblings is the match of all of them.
pub proof fn lemma_find_all_prefix(vs: Seq<SourceNodeView>, k: nat, h: Seq<char>)
    requires
        k <= vs.len(),
        find_all(vs.take(k as int), h) is Some,
    ensures
        find_all(vs, h) == find_all(vs.take(k as int), h),
    decreases vs.len(),
{
    if k < vs.len() {
        assert(vs.drop_last().take(k as int) =~= vs.take(k as int));
        lemma_find_all_prefix(vs.drop_last(), k, h);
    } else {
        assert(vs.take(k as int) =~= vs);
    }
}

/// Whether `a` is among `names`.
pub open spec fn names_contain(names: Seq<Seq<char>>, a: Seq<char>) -> bool {
    exists|k: int| 0 <= k < names.len() && names[k] == a
}

/// What a fixture answers to an invocation: `None` when no element has the
/// handle (gone), `Some(None)` when the element does not expose the requested
/// action (or, with none requested, exposes none), and `Some(Some(name))` with
/// the action invoked otherwise (the first one when none was requested).
pub open spec fn invoke_spec(root: SourceNodeView, h: Seq<char>, action: Option<Seq<char>>) -> Option<
    Option<Seq<char>>,
> {
    match find_view(root, h) {
        None => None,
        Some(el) => match action {
            Some(a) => if names_contain(el.actions, a) {
                Some(Some(a))
            } else {
                Some(None)
            },
            None => if el.actions.len() > 0 {
                Some(Some(el.actions[0]))
            } else {
                Some(None)
            },
        },
    }
}

/// Whether an invocation outcome is the one `r` describes.
pub open spec fn outcome_is(o: InvokeOutcome, r: Option<Option<Seq<char>>>) -> bool {
    match r {
        None => o is Gone,
        Some(None) => o is NoSuchAction,
        Some(Some(name)) => o matches InvokeOutcome::Invoked(n) && n@ == name,
    }
}

/// The outcome of invoking `action` on `element`.
fn invoke_on(element: &SourceNode, action: Option<&str>) -> (o: InvokeOutcome)
    ensures
        outcome_is(
            o,
            Some(
                match action {
                    Some(a) => if names_contain(element@.actions, a@) {
                        Some(a@)
                    } else {
                        None
                    },
                    None => if element@.actions.len() > 0 {
                        Some(element@.actions[0])
                    } else {
                        None
                    },
                },
            ),
        ),
{
    match action {
        Some(requested) => {
            let wanted = String::from_str(requested);
            let mut k: usize = 0;
            while k < element.actions.len()
                invariant
                    k <= element.actions.len(),
                    element@.actions == strs_view(element.actions@),
                    forall|j: int| 0 <= j < k ==> element@.actions[j] != requested@,
                    wanted@ == requested@,
                    action == Some(requested),
                decreases element.actions.len() - k,
            {
                if element.actions[k] == wanted {
                    assert(element@.actions[k as int] == requested@);
                    return InvokeOutcome::Invoked(wanted);
                }
                k += 1;
            }
            InvokeOutcome::NoSuchAction
        },
        None => {
            if element.actions.len() > 0 {
                InvokeOutcome::Invoked(element.actions[0].clone())
            } else {
                InvokeOutcome::NoSuchAction
            }
        },
    }
}

/// A node under construction; [`NodeBuilder::build`] resolves its handles.
#[derive(Debug)]
pub struct NodeBuilder {
    role: String,
    name: String,
    description: Option<String>,
    value: Option<String>,
    states: Vec<AccessibleState>,
    bounds: Option<Rect>,
    actions: Vec<String>,
    handle: Option<ElementHandle>,
    children: Vec<SourceNode>,
}

impl View for NodeBuilder {
    type V = SourceNodeView;

    /// The node the builder describes, with an empty handle where none was
    /// given.
    closed spec fn view(&self) -> SourceNodeView {
        SourceNodeView {
            role: self.role@,
            name: self.name@,
            description: opt_str_view(self.description),
            value: opt_str_view(self.value),
            states: self.states@,
            bounds: self.bounds,
            actions: strs_view(self.actions@),
            handle: match self.handle {
                Some(h) => h.0@,
                None => Seq::empty(),
            },
            children: sources_view(self.children@),
        }
    }
}

/// The views of a slice of string slices.
pub open spec fn str_slices_view(v: Seq<&str>) -> Seq<Seq<char>> {
    v.map_values(|s: &str| s@)
}

/// Start building a node with the given role and name.
pub fn node(role: &str, name: &str) -> (b: NodeBuilder)
    ensures
        b@ == (SourceNodeView {
            role: role@,
            name: name@,
            description: None,
            value: None,
            states: Seq::empty(),
            bounds: None,
            actions: Seq::empty(),
            handle: Seq::empty(),
            children: Seq::empty(),
        }),
{
    let b = NodeBuilder {
        role: String::from_str(role),
        name: String::from_str(name),
        description: None,
        value: None,
        states: Vec::new(),
        bounds: None,
        actions: Vec::new(),
        handle: None,
        children: Vec::new(),
    };
    assert(b@.actions =~= Seq::<Seq<char>>::empty());
    assert(b@.children =~= Seq::<SourceNodeView>::empty());
    b
}

impl NodeBuilder {
    /// Sets the node's value.
    pub fn value(self, value: &str) -> (b: NodeBuilder)
        ensures
            b@ == (SourceNodeView { value: Some(value@), ..self@ }),
    {
        NodeBuilder { value: Some(String::from_str(value)), ..self }
    }

    /// Sets the node's extended help text.
    pub fn description(self, description: &str) -> (b: NodeBuilder)
        ensures
            b@ == (SourceNodeView { description: Some(description@), ..self@ }),
    {
        NodeBuilder { description: Some(String::from_str(description)), ..self }
    }

    /// Adds one state flag.
    pub fn state(self, state: AccessibleState) -> (b: NodeBuilder)
        ensures
            b@ == (SourceNodeView { states: self@.states.push(state), ..self@ }),
    {
        let mut b = self;
        b.states.push(state);
        b
    }

    /// Adds state flags, in the given order.
    pub fn states(self, states: &[AccessibleState]) -> (b: NodeBuilder)
        ensures
            b@ == (SourceNodeView { states: self@.states + states@, ..self@ }),
    {
        let mut b = self;
        let ghost start = b.states@;
        let mut i: usize = 0;
        while i < states.len()
            invariant
                i <= states.len(),
                b.states@ == start + states@.take(i as int),
                b.role == self.role,
                b.name == self.name,
                b.description == self.description,
                b.value == self.value,
                b.bounds == self.bounds,
                b.actions == self.actions,
                b.handle == self.handle,
                b.children == self.children,
            decreases states.len() - i,
        {
            b.states.push(states[i]);
            assert(states@.take(i + 1) =~= states@.take(i as int).push(states@[i as int]));
            i += 1;
        }
        assert(states@.take(states.len() as int) =~= states@);
        b
    }

    /// Sets the node's window-relative bounds.
    pub fn bounds(self, bounds: Rect) -> (b: NodeBuilder)
        ensures
            b@ == (SourceNodeView { bounds: Some(bounds), ..self@ }),
    {
        NodeBuilder { bounds: Some(bounds), ..self }
    }

    /// Adds one action name.
    pub fn action(self, action: &str) -> (b: NodeBuilder)
        ensures
            b@ == (SourceNodeView { actions: self@.actions.push(action@), ..self@ }),
    {
        let mut b = self;
        b.actions.push(String::from_str(action));
        assert(strs_view(b.actions@) =~= strs_view(self.actions@).push(action@));
        b
    }

    /// Adds action names, in the given order.
    pub fn actions(self, actions: &[&str]) -> (b: NodeBuilder)
        ensures
            b@ == (SourceNodeView {
                actions: self@.actions + str_slices_view(actions@),
                ..self@
            }),
    {
        let mut b = self;
        let mut i: usize = 0;
        while i < actions.len()
            invariant
                i <= actions.len(),
                strs_view(b.actions@) == strs_view(self.actions@) + str_slices_view(
                    actions@.take(i as int),
                ),
                b.role == self.role,
                b.name == self.name,
                b.description == self.description,
                b.value == self.value,
                b.states == self.states,
                b.bounds == self.bounds,
                b.handle == self.handle,
                b.children == self.children,
            decreases actions.len() - i,
        {
            let ghost before = b.actions@;
            b.actions.push(String::from_str(actions[i]));
            assert(strs_view(b.actions@) =~= strs_view(before).push(actions@[i as int]@));
            assert(str_slices_view(actions@.take(i + 1)) =~= str_slices_view(
                actions@.take(i as int),
            ).push(actions@[i as int]@));
            i += 1;
        }
        assert(actions@.take(actions.len() as int) =~= actions@);
        b
    }

    /// Sets the node's backend handle explicitly, overriding the derived
    /// default.
    pub fn handle(self, handle: &str) -> (b: NodeBuilder)
        ensures
            b@ == (SourceNodeView { handle: handle@, ..self@ }),
    {
        NodeBuilder { handle: Some(ElementHandle(String::from_str(handle))), ..self }
    }

    /// Appends one child.
    pub fn child(self, child: SourceNode) -> (b: NodeBuilder)
        ensures
            b@ == (SourceNodeView { children: self@.children.push(child@), ..self@ }),
    {
        let mut b = self;
        let ghost before = b.children@;
        b.children.push(child);
        assert(b.children@.drop_last() =~= before);
        b
    }

    /// Appends children, in the given order.
    pub fn children(self, children: Vec<SourceNode>) -> (b: NodeBuilder)
        ensures
            b@ == (SourceNodeView {
                children: self@.children + crate::source::sources_view(children@),
                ..self@
            }),
    {
        let mut b = self;
        let mut rest = children;
        let ghost all = children@;
        let mut reversed: Vec<SourceNode> = Vec::new();
        while rest.len() > 0
            invariant
                rest@ == all.take(rest@.len() as int),
                rest@.len() <= all.len(),
                reversed@.len() == all.len() - rest@.len(),
                forall|j: int| 0 <= j < reversed@.len() ==> #[trigger] reversed@[j] == all[all.len() - 1 - j],
            decreases rest.len(),
        {
            let c = rest.pop().unwrap();
            reversed.push(c);
            assert(rest@ =~= all.take(rest@.len() as int));
        }
        let ghost base = b.children@;
        while reversed.len() > 0
            invariant
                reversed@.len() <= all.len(),
                forall|j: int| 0 <= j < reversed@.len() ==> #[trigger] reversed@[j] == all[all.len() - 1 - j],
                b.children@ == base + all.take(all.len() - reversed@.len()),
                b.role == self.role,
                b.name == self.name,
                b.description == self.description,
                b.value == self.value,
                b.states == self.states,
                b.bounds == self.bounds,
                b.actions == self.actions,
                b.handle == self.handle,
            decreases reversed.len(),
        {
            let c = reversed.pop().unwrap();
            let ghost k = all.len() - 1 - reversed@.len();
            b.children.push(c);
            assert(all.take(k + 1) =~= all.take(k).push(all[k]));
        }
        assert(all.take(all.len() as int) =~= all);
        proof {
            lemma_sources_view_concat(base, all);
        }
        b
    }

    /// Finishes the node, resolving the handles of the subtree it roots: a
    /// derived handle follows the node's path under `fixture`, a chosen one is
    /// kept and seeds its children's paths.
    pub fn build(self) -> (n: SourceNode)
        ensures
            n@ == resolved(self@, root_handle()),
    {
        let raw = SourceNode {
            role: self.role,
            name: self.name,
            description: self.description,
            value: self.value,
            states: self.states,
            bounds: self.bounds,
            actions: self.actions,
            handle: match self.handle {
                Some(h) => h,
                None => ElementHandle(String::new()),
            },
            children: self.children,
        };
        resolve_handles(&raw, String::from_str("fixture"))
    }
}

/// `sources_view` distributes over concatenation.
pub proof fn lemma_sources_view_concat(a: Seq<SourceNode>, b: Seq<SourceNode>)
    ensures
        sources_view(a + b) == sources_view(a) + sources_view(b),
    decreases b.len(),
{
    if b.len() > 0 {
        lemma_sources_view_concat(a, b.drop_last());
        assert((a + b).drop_last() =~= a + b.drop_last());
        assert((a + b).last() == b.last());
        assert(sources_view(a) + sources_view(b) =~= (sources_view(a) + sources_view(
            b.drop_last(),
        )).push(source_view(b.last())));
    } else {
        assert(a + b =~= a);
        assert(sources_view(a) + sources_view(b) =~= sources_view(a));
    }
}

/// A copy of a window target.
pub fn clone_target(t: &WindowTarget) -> (r: WindowTarget)
    ensures
        r == *t,
{
    WindowTarget {
        window_id: t.window_id,
        title: clone_opt_string(&t.title),
        app_id: match &t.app_id {
            Some(a) => Some(AppId(a.0.clone())),
            None => None,
        },
        pid: t.pid,
    }
}

/// One recorded invocation: the handle and the requested action.
pub type InvocationView = (Seq<char>, Option<Seq<char>>);

/// The abstract state of a fixture.
pub struct FixtureView {
    /// The tree served, handles resolved.
    pub root: SourceNodeView,
    /// The application name snapshots report.
    pub app_name: Option<Seq<char>>,
    /// Whether the fixture simulates an available bus.
    pub available: bool,
    /// Whether snapshots are forced to report truncation.
    pub truncated: bool,
    /// The invocations recorded, in call order.
    pub invocations: Seq<InvocationView>,
    /// The target of the last snapshot.
    pub last_target: Option<WindowTarget>,
}

/// A deterministic in-memory accessibility backend serving one tree.
#[derive(Debug)]
pub struct FixtureSource {
    root: SourceNode,
    app_name: Option<String>,
    available: bool,
    truncated: bool,
    invocations: Vec<(ElementHandle, Option<String>)>,
    last_target: Option<WindowTarget>,
}

/// The view of a recorded invocation.
pub open spec fn invocation_view(i: (ElementHandle, Option<String>)) -> InvocationView {
    (i.0.0@, opt_str_view(i.1))
}

/// The view of an optional string slice.
pub open spec fn opt_slice_view(o: Option<&str>) -> Option<Seq<char>> {
    match o {
        Some(s) => Some(s@),
        None => None,
    }
}

impl View for FixtureSource {
    type V = FixtureView;

    closed spec fn view(&self) -> FixtureView {
        FixtureView {
            root: self.root@,
            app_name: opt_str_view(self.app_name),
            available: self.available,
            truncated: self.truncated,
            invocations: self.invocations@.map_values(
                |i: (ElementHandle, Option<String>)| invocation_view(i),
            ),
            last_target: self.last_target,
        }
    }
}

impl FixtureSource {
    /// A fixture serving `root` (its handles resolved) for every target.
    pub fn new(root: SourceNode) -> (f: FixtureSource)
        ensures
            f@.root == resolved(root@, root_handle()),
            f@.app_name is None,
            f@.available,
            !f@.truncated,
            f@.invocations.len() == 0,
            f@.last_target is None,
    {
        let root = resolve_handles(&root, String::from_str("fixture"));
        FixtureSource {
            root,
            app_name: None,
            available: true,
            truncated: false,
            invocations: Vec::new(),
            last_target: None,
        }
    }

    /// Sets the application name the snapshot reports.
    pub fn with_app_name(self, name: &str) -> (f: FixtureSource)
        ensures
            f@ == (FixtureView { app_name: Some(name@), ..self@ }),
    {
        FixtureSource { app_name: Some(String::from_str(name)), ..self }
    }

    /// Simulate an environment with (or without) an accessibility bus.
    pub fn with_availability(self, available: bool) -> (f: FixtureSource)
        ensures
            f@ == (FixtureView { available, ..self@ }),
    {
        FixtureSource { available, ..self }
    }

    /// Force snapshots to report truncation.
    pub fn with_truncated(self, truncated: bool) -> (f: FixtureSource)
        ensures
            f@ == (FixtureView { truncated, ..self@ }),
    {
        FixtureSource { truncated, ..self }
    }

    /// The backend's short name.
    pub fn name(&self) -> (n: &'static str)
        ensures
            n@ == "fixture"@,
    {
        "fixture"
    }

    /// Whether the fixture simulates an available accessibility bus.
    pub fn is_available(&self) -> (b: bool)
        ensures
            b == self@.available,
    {
        self.available
    }

    /// The recorded `(handle, requested action)` pairs, in call order.
    pub fn invocations(&self) -> (v: Vec<(ElementHandle, Option<String>)>)
        ensures
            v@.map_values(|i: (ElementHandle, Option<String>)| invocation_view(i))
                == self@.invocations,
    {
        let mut v: Vec<(ElementHandle, Option<String>)> = Vec::new();
        let mut k: usize = 0;
        while k < self.invocations.len()
            invariant
                k <= self.invocations.len(),
                v@.map_values(|i: (ElementHandle, Option<String>)| invocation_view(i))
                    == self@.invocations.take(k as int),
            decreases self.invocations.len() - k,
        {
            let entry = &self.invocations[k];
            let copy = (ElementHandle(entry.0.0.clone()), clone_opt_string(&entry.1));
            let ghost before = v@;
            v.push(copy);
            proof {
                assert(v@.map_values(|i: (ElementHandle, Option<String>)| invocation_view(i))
                    =~= before.map_values(|i: (ElementHandle, Option<String>)| invocation_view(i)).push(
                    invocation_view(copy),
                ));
                assert(self@.invocations.take(k + 1) =~= self@.invocations.take(k as int).push(
                    self@.invocations[k as int],
                ));
            }
            k += 1;
        }
        assert(self@.invocations.take(self.invocations.len() as int) =~= self@.invocations);
        v
    }

    /// The target of the last snapshot.
    pub fn last_target(&self) -> (t: Option<WindowTarget>)
        ensures
            t == self@.last_target,
    {
        match &self.last_target {
            Some(t) => Some(clone_target(t)),
            None => None,
        }
    }

    /// Whether an invocation with exactly this handle and action was recorded.
    pub fn has_invocation(&self, handle: &str, action: Option<&str>) -> (b: bool)
        ensures
            b == self@.invocations.contains((handle@, opt_slice_view(action))),
    {
        let wanted_handle = String::from_str(handle);
        let wanted_action: Option<String> = match action {
            Some(a) => Some(String::from_str(a)),
            None => None,
        };
        let ghost target = (handle@, opt_slice_view(action));
        let mut k: usize = 0;
        while k < self.invocations.len()
            invariant
                k <= self.invocations.len(),
                wanted_handle@ == handle@,
                opt_str_view(wanted_action) == opt_slice_view(action),
                target == (handle@, opt_slice_view(action)),
                forall|j: int| 0 <= j < k ==> self@.invocations[j] != target,
            decreases self.invocations.len() - k,
        {
            let entry = &self.invocations[k];
            let same_action = match (&entry.1, &wanted_action) {
                (Some(x), Some(y)) => *x == *y,
                (None, None) => true,
                _ => false,
            };
            if entry.0.0 == wanted_handle && same_action {
                assert(self@.invocations[k as int] == target);
                return true;
            }
            k += 1;
        }
        false
    }

    /// Answer a snapshot: the served tree trimmed to `opts`, reporting
    /// truncation when the trim cut something or the fixture forces it; the
    /// target is recorded. An unavailable fixture answers `Unavailable` and
    /// records nothing.
    pub fn snapshot(&mut self, target: &WindowTarget, opts: SourceOptions) -> (r: Result<
        SourceSnapshot,
        A11yError,
    >)
        ensures
            !old(self)@.available ==> (r matches Err(A11yError::Unavailable(m)) && m@
                == "fixture backend unavailable"@ && final(self)@ == old(self)@),
            old(self)@.available ==> (r matches Ok(s) && s.root@ == trim_spec(
                old(self)@.root,
                opts,
            ).0 && s.truncated == (old(self)@.truncated || trim_spec(old(self)@.root, opts).1)
                && opt_str_view(s.app_name) == old(self)@.app_name && final(self)@ == (FixtureView {
                last_target: Some(*target),
                ..old(self)@
            })),
    {
        if !self.available {
            return Err(A11yError::Unavailable(String::from_str("fixture backend unavailable")));
        }
        self.last_target = Some(clone_target(target));
        let (root, trimmed) = trim(&self.root, opts);
        Ok(SourceSnapshot {
            app_name: clone_opt_string(&self.app_name),
            root,
            truncated: self.truncated || trimmed,
        })
    }

    /// Answer an invocation: the outcome [`invoke_spec`] describes for the
    /// served tree, with the call recorded. An unavailable fixture answers
    /// `Unavailable` and records nothing.
    pub fn invoke(&mut self, handle: &ElementHandle, action: Option<&str>) -> (r: Result<
        InvokeOutcome,
        A11yError,
    >)
        ensures
            !old(self)@.available ==> (r matches Err(A11yError::Unavailable(m)) && m@
                == "fixture backend unavailable"@ && final(self)@ == old(self)@),
            old(self)@.available ==> (r matches Ok(o) && outcome_is(
                o,
                invoke_spec(old(self)@.root, handle.0@, opt_slice_view(action)),
            ) && final(self)@ == (FixtureView {
                invocations: old(self)@.invocations.push((handle.0@, opt_slice_view(action))),
                ..old(self)@
            })),
    {
        if !self.available {
            return Err(A11yError::Unavailable(String::from_str("fixture backend unavailable")));
        }
        let recorded_action: Option<String> = match action {
            Some(a) => Some(String::from_str(a)),
            None => None,
        };
        let entry = (ElementHandle(handle.0.clone()), recorded_action);
        let ghost before = self.invocations@;
        self.invocations.push(entry);
        proof {
            assert(self.invocations@.map_values(
                |i: (ElementHandle, Option<String>)| invocation_view(i),
            ) =~= before.map_values(|i: (ElementHandle, Option<String>)| invocation_view(i)).push(
                (handle.0@, opt_slice_view(action)),
            ));
        }
        match find_node(&self.root, handle) {
            None => Ok(InvokeOutcome::Gone),
            Some(element) => Ok(invoke_on(element, action)),
        }
    }
}

} // verus!
