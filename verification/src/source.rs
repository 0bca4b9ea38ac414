//! The accessibility backend's data types: what a backend walk produces, before
//! runtime ids are assigned.

use vstd::prelude::*;

use crate::model::{AccessibleState, AppId, Rect, WindowId};

verus! {

/// The runtime window whose accessibility subtree is wanted.
#[derive(Debug, Clone, PartialEq, Eq)]
pub struct WindowTarget {
    /// The window model's id for the window.
    pub window_id: WindowId,
    /// Title of the window, when it has one.
    pub title: Option<String>,
    /// Desktop-file id of the window's application.
    pub app_id: Option<AppId>,
    /// Process id of the window's application, when known.
    pub pid: Option<i32>,
}

impl WindowTarget {
    /// A target identified by the window id alone.
    pub fn new(window_id: WindowId) -> (t: WindowTarget)
        ensures
            t.window_id == window_id,
            t.title is None,
            t.app_id is None,
            t.pid is None,
    {
        WindowTarget { window_id, title: None, app_id: None, pid: None }
    }
}

/// Bounds applied to a backend tree walk.
#[derive(Debug, Clone, Copy, PartialEq, Eq, Structural)]
pub struct SourceOptions {
    /// Maximum recursion depth below the window root (`0` = the root alone).
    pub max_depth: u32,
    /// Maximum total number of nodes to return, the root included.
    pub max_nodes: u32,
}

impl SourceOptions {
    /// Options with explicit bounds.
    pub fn new(max_depth: u32, max_nodes: u32) -> (o: SourceOptions)
        ensures
            o.max_depth == max_depth,
            o.max_nodes == max_nodes,
    {
        SourceOptions { max_depth, max_nodes }
    }
}

/// Backend-private address of one accessible element, opaque to callers.
#[derive(Debug, Clone, Eq, Hash)]
pub struct ElementHandle(pub String);

impl PartialEq for ElementHandle {
    fn eq(&self, other: &ElementHandle) -> (r: bool) {
        self.0 == other.0
    }
}

impl vstd::std_specs::cmp::PartialEqSpecImpl for ElementHandle {
    open spec fn obeys_eq_spec() -> bool {
        true
    }

    open spec fn eq_spec(&self, other: &ElementHandle) -> bool {
        self.0@ == other.0@
    }
}

impl ElementHandle {
    /// A handle spelled `value`.
    pub fn from(value: &str) -> (h: ElementHandle)
        ensures
            h.0@ == value@,
    {
        ElementHandle(String::from_str(value))
    }

    /// Borrows the handle as a string slice.
    pub fn as_str(&self) -> (s: &str)
        ensures
            s@ == self.0@,
    {
        self.0.as_str()
    }
}

/// One node as produced by a backend, before runtime ids are assigned.
#[derive(Debug, PartialEq, Eq)]
pub struct SourceNode {
    /// Raw toolkit role name.
    pub role: String,
    /// Accessible name (may be empty).
    pub name: String,
    /// Extended help text.
    pub description: Option<String>,
    /// Text/value content.
    pub value: Option<String>,
    /// State flags that are set, sorted and de-duplicated.
    pub states: Vec<AccessibleState>,
    /// Window-relative element extents.
    pub bounds: Option<Rect>,
    /// Names of the actions the element exposes.
    pub actions: Vec<String>,
    /// Backend-private address of this element.
    pub handle: ElementHandle,
    /// Child elements, in the toolkit's reported order.
    pub children: Vec<SourceNode>,
}

/// The abstract value of a [`SourceNode`]: every field as plain sequences.
pub struct SourceNodeView {
    /// Raw toolkit role name.
    pub role: Seq<char>,
    /// Accessible name.
    pub name: Seq<char>,
    /// Extended help text.
    pub description: Option<Seq<char>>,
    /// Text/value content.
    pub value: Option<Seq<char>>,
    /// State flags.
    pub states: Seq<AccessibleState>,
    /// Window-relative extents.
    pub bounds: Option<Rect>,
    /// Action names.
    pub actions: Seq<Seq<char>>,
    /// Backend-private address.
    pub handle: Seq<char>,
    /// Children, in order.
    pub children: Seq<SourceNodeView>,
}

/// The view of an optional string.
pub open spec fn opt_str_view(o: Option<String>) -> Option<Seq<char>> {
    match o {
        Some(s) => Some(s@),
        None => None,
    }
}

/// The views of a list of strings.
pub open spec fn strs_view(v: Seq<String>) -> Seq<Seq<char>> {
    v.map_values(|s: String| s@)
}

/// The abstract value of a backend node.
pub open spec fn source_view(n: SourceNode) -> SourceNodeView
    decreases n, 1nat,
{
    SourceNodeView {
        role: n.role@,
        name: n.name@,
        description: opt_str_view(n.description),
        value: opt_str_view(n.value),
        states: n.states@,
        bounds: n.bounds,
        actions: strs_view(n.actions@),
        handle: n.handle.0@,
        children: sources_view(n.children@),
    }
}

/// The abstract values of a list of backend nodes.
pub open spec fn sources_view(ns: Seq<SourceNode>) -> Seq<SourceNodeView>
    decreases ns, 0nat,
{
    if ns.len() == 0 {
        Seq::empty()
    } else {
        sources_view(ns.drop_last()).push(source_view(ns.last()))
    }
}

/// `sources_view` is pointwise.
pub proof fn lemma_sources_view(ns: Seq<SourceNode>)
    ensures
        sources_view(ns).len() == ns.len(),
        forall|i: int| 0 <= i < ns.len() ==> sources_view(ns)[i] == source_view(#[trigger] ns[i]),
    decreases ns.len(),
{
    if ns.len() > 0 {
        lemma_sources_view(ns.drop_last());
        assert forall|i: int| 0 <= i < ns.len() implies sources_view(ns)[i] == source_view(
            #[trigger] ns[i],
        ) by {
            if i < ns.len() - 1 {
                assert(ns.drop_last()[i] == ns[i]);
            }
        }
    }
}

/// `sources_view` commutes with taking a prefix.
pub proof fn lemma_sources_view_take(ns: Seq<SourceNode>, i: int)
    requires
        0 <= i <= ns.len(),
    ensures
        sources_view(ns.take(i)) == sources_view(ns).take(i),
{
    lemma_sources_view(ns);
    lemma_sources_view(ns.take(i));
    assert forall|j: int| 0 <= j < i implies sources_view(ns.take(i))[j] == sources_view(ns).take(
        i,
    )[j] by {
        assert(ns.take(i)[j] == ns[j]);
    }
    assert(sources_view(ns.take(i)) =~= sources_view(ns).take(i));
}

/// A copy of an optional string.
pub fn clone_opt_string(o: &Option<String>) -> (r: Option<String>)
    ensures
        r == *o,
{
    match o {
        Some(s) => Some(s.clone()),
        None => None,
    }
}

/// A copy of a list of strings.
pub fn clone_strings(v: &Vec<String>) -> (r: Vec<String>)
    ensures
        r@ == v@,
{
    let mut r: Vec<String> = Vec::new();
    let mut i: usize = 0;
    while i < v.len()
        invariant
            i <= v.len(),
            r@ == v@.take(i as int),
        decreases v.len() - i,
    {
        r.push(v[i].clone());
        assert(v@.take(i + 1) =~= v@.take(i as int).push(v@[i as int]));
        i += 1;
    }
    assert(v@.take(v.len() as int) =~= v@);
    r
}

/// A copy of a list of state flags.
pub fn clone_states(v: &Vec<AccessibleState>) -> (r: Vec<AccessibleState>)
    ensures
        r@ == v@,
{
    let mut r: Vec<AccessibleState> = Vec::new();
    let mut i: usize = 0;
    while i < v.len()
        invariant
            i <= v.len(),
            r@ == v@.take(i as int),
        decreases v.len() - i,
    {
        r.push(v[i]);
        assert(v@.take(i + 1) =~= v@.take(i as int).push(v@[i as int]));
        i += 1;
    }
    assert(v@.take(v.len() as int) =~= v@);
    r
}

impl View for SourceNode {
    type V = SourceNodeView;

    open spec fn view(&self) -> SourceNodeView {
        source_view(*self)
    }
}

/// A backend snapshot: the window subtree that was correlated, already bounded.
#[derive(Debug, PartialEq, Eq)]
pub struct SourceSnapshot {
    /// Application name as reported by the toolkit, when known.
    pub app_name: Option<String>,
    /// Root element of the correlated window subtree.
    pub root: SourceNode,
    /// Whether `max_depth` or `max_nodes` stopped the walk early.
    pub truncated: bool,
}

/// The outcome of invoking an element action on a backend.
#[derive(Debug, Clone, PartialEq, Eq)]
pub enum InvokeOutcome {
    /// The action was invoked; carries the name actually invoked.
    Invoked(String),
    /// The element does not expose the requested action.
    NoSuchAction,
    /// The element no longer exists on the backend.
    Gone,
}

} // verus!
