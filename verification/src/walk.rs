//! Walking a window's accessible subtree, and invoking an element's action.
//!
//! The walk is depth-first and pre-order, bounded by the snapshot's
//! `max_depth` and `max_nodes`. A bound is never an error: the partial tree is
//! returned and the walk reports that it was cut. Reading one element is a D-Bus
//! round trip, so the walk is a state machine: [`Walk::next_read`] says which
//! element to read next, the caller reads it, and [`Walk::on_read`] hands the
//! element and its children back. Elements are named by the caller's own keys.

use vstd::prelude::*;

use crate::a11y_error::A11yError;
use crate::dbus::{is_absent_interface, is_absent_interface_failure, is_missing_element,
    is_missing_element_failure, BusFailure};
use crate::service::{forest_size, tree_size};
use crate::fixture::{lemma_forest_size_concat, lemma_forest_size_single, lemma_trim_kids,
    lemma_trim_view, trim_kids, trim_spec, trim_view, with_children};
use crate::source::{lemma_sources_view, sources_view, source_view, InvokeOutcome, SourceNode, SourceNodeView, SourceOptions};

verus! {

/// One step of the walk: read an element, or close the element it is inside.
#[derive(Debug, Clone, Copy, PartialEq, Eq, Structural)]
pub enum WalkStep {
    /// Read the element the caller knows by `reference`, `depth` levels below
    /// the root.
    Read {
        /// The caller's key for the element.
        reference: usize,
        /// Its depth below the walk root.
        depth: u32,
    },
    /// Fold the innermost open element into its parent.
    Close,
}

/// The node budget of a walk: `max_nodes`, and at least the root.
pub open spec fn node_budget(opts: SourceOptions) -> u32 {
    if opts.max_nodes >= 1 {
        opts.max_nodes
    } else {
        1
    }
}

/// The abstract state of a walk: what is left to do, the elements being
/// built (as views), and the counters.
pub struct WalkModel {
    /// What is left to do, the next step last.
    pub steps: Seq<WalkStep>,
    /// The elements being built, outermost first.
    pub open: Seq<SourceNodeView>,
    /// Elements read so far.
    pub read: nat,
    /// The most elements the walk reads.
    pub budget: nat,
    /// The deepest level whose children are still walked.
    pub max_depth: nat,
    /// Whether a bound cut the walk so far.
    pub truncated: bool,
}

/// Fold the innermost open element into its parent; the walk root, alone at
/// the bottom, stays.
pub open spec fn close_view(open: Seq<SourceNodeView>) -> Seq<SourceNodeView> {
    if open.len() < 2 {
        open
    } else {
        let parent = open[open.len() - 2];
        open.drop_last().drop_last().push(with_children(parent, parent.children.push(open.last())))
    }
}

/// Fold every open element into its parent.
pub open spec fn fold_open(open: Seq<SourceNodeView>) -> Seq<SourceNodeView>
    decreases open.len(),
{
    if open.len() < 2 {
        open
    } else {
        fold_open(close_view(open))
    }
}

/// What asking for the next element does: pending closes are performed, and
/// the next read is handed out, unless the budget is spent, which cuts the
/// walk and ends it.
pub open spec fn next_model(m: WalkModel) -> (WalkModel, Option<(usize, u32)>)
    decreases m.steps.len(),
{
    if m.steps.len() == 0 {
        (m, None)
    } else {
        match m.steps.last() {
            WalkStep::Close => next_model(
                WalkModel { steps: m.steps.drop_last(), open: close_view(m.open), ..m },
            ),
            WalkStep::Read { reference, depth } => if m.read >= m.budget {
                (WalkModel { steps: Seq::empty(), truncated: true, ..m }, None)
            } else {
                (WalkModel { steps: m.steps.drop_last(), ..m }, Some((reference, depth)))
            },
        }
    }
}

/// The reads of `children` at `depth`, pushed so that the first child is on
/// top.
pub open spec fn pushed_reads(children: Seq<usize>, depth: u32) -> Seq<WalkStep> {
    Seq::new(
        children.len(),
        |i: int| WalkStep::Read { reference: children[children.len() - 1 - i], depth },
    )
}

/// What handing back an element read at `depth` does: it is opened; a leaf,
/// or an element at the depth bound (which cuts the walk when it has
/// children), is closed at once; otherwise its children are scheduled.
pub open spec fn on_read_model(m: WalkModel, depth: nat, node: SourceNodeView, children: Seq<usize>) -> WalkModel {
    let opened = m.open.push(node);
    if children.len() == 0 {
        WalkModel { open: close_view(opened), read: m.read + 1, ..m }
    } else if depth >= m.max_depth {
        WalkModel { open: close_view(opened), read: m.read + 1, truncated: true, ..m }
    } else {
        WalkModel {
            open: opened,
            read: m.read + 1,
            steps: m.steps.push(WalkStep::Close) + pushed_reads(children, (depth + 1) as u32),
            ..m
        }
    }
}

/// The state of a walk of the subtree of the element the caller knows by
/// `root`, before anything is read.
pub open spec fn walk_start(root: usize, opts: SourceOptions) -> WalkModel {
    WalkModel {
        steps: seq![WalkStep::Read { reference: root, depth: 0 }],
        open: Seq::empty(),
        read: 0,
        budget: node_budget(opts) as nat,
        max_depth: opts.max_depth as nat,
        truncated: false,
    }
}

/// A bounded pre-order walk in progress.
pub struct Walk {
    /// What is left to do, the next step last.
    steps: Vec<WalkStep>,
    /// The elements being built, outermost first; a child is folded into its
    /// parent as soon as it is complete.
    open: Vec<SourceNode>,
    /// Elements read so far.
    read: u32,
    /// The most elements the walk reads.
    budget: u32,
    /// The deepest level whose children are still walked.
    max_depth: u32,
    /// Whether a bound cut the walk.
    truncated: bool,
    /// The depth of the element handed out and not read back yet.
    pending: Option<u32>,
}

impl Walk {
    /// The walk's invariant.
    pub closed spec fn wf(&self) -> bool {
        &&& self.budget >= 1
        &&& self.read <= self.budget
        &&& forest_size(sources_view(self.open@)) == self.read
        &&& forall|i: int|
            0 <= i < self.steps@.len() ==> (#[trigger] self.steps@[i] matches WalkStep::Read {
                depth,
                ..
            } ==> depth <= self.max_depth)
        &&& (self.pending matches Some(d) ==> self.read < self.budget && d <= self.max_depth)
    }

    /// The abstract state of the walk.
    pub closed spec fn model(&self) -> WalkModel {
        WalkModel {
            steps: self.steps@,
            open: sources_view(self.open@),
            read: self.read as nat,
            budget: self.budget as nat,
            max_depth: self.max_depth as nat,
            truncated: self.truncated,
        }
    }

    /// Elements read so far.
    pub closed spec fn read_count(&self) -> nat {
        self.read as nat
    }

    /// The most elements the walk reads.
    pub closed spec fn budget(&self) -> nat {
        self.budget as nat
    }

    /// The deepest level whose children are still walked.
    pub closed spec fn max_depth(&self) -> nat {
        self.max_depth as nat
    }

    /// Whether a bound cut the walk so far.
    pub closed spec fn is_truncated(&self) -> bool {
        self.truncated
    }

    /// The depth of the element handed out and not read back yet.
    pub closed spec fn pending(&self) -> Option<nat> {
        match self.pending {
            Some(d) => Some(d as nat),
            None => None,
        }
    }

    /// A walk of the subtree of the element the caller knows by `root`.
    pub fn new(root: usize, opts: SourceOptions) -> (w: Walk)
        ensures
            w.wf(),
            w.read_count() == 0,
            w.budget() == node_budget(opts),
            w.max_depth() == opts.max_depth,
            !w.is_truncated(),
            w.pending() is None,
            w.model() == walk_start(root, opts),
    {
        let budget = if opts.max_nodes >= 1 {
            opts.max_nodes
        } else {
            1
        };
        let steps = vec![WalkStep::Read { reference: root, depth: 0 }];
        assert(sources_view(Seq::<SourceNode>::empty()) =~= Seq::<SourceNodeView>::empty());
        assert(steps@ =~= seq![WalkStep::Read { reference: root, depth: 0 }]);
        Walk {
            steps,
            open: Vec::new(),
            read: 0,
            budget,
            max_depth: opts.max_depth,
            truncated: false,
            pending: None,
        }
    }

    /// The next element to read, with its depth; `None` once the walk is over,
    /// either because every element was read or because the node budget is
    /// spent (which cuts the walk).
    pub fn next_read(&mut self) -> (r: Option<(usize, u32)>)
        requires
            old(self).wf(),
            old(self).pending() is None,
        ensures
            final(self).wf(),
            final(self).read_count() == old(self).read_count(),
            final(self).budget() == old(self).budget(),
            final(self).max_depth() == old(self).max_depth(),
            match r {
                Some((_, depth)) => final(self).pending() == Some(depth as nat) && depth
                    <= final(self).max_depth() && final(self).read_count() < final(self).budget()
                    && final(self).is_truncated() == old(self).is_truncated(),
                None => final(self).pending() is None && (final(self).is_truncated() ==> (old(
                    self,
                ).is_truncated() || final(self).read_count() == final(self).budget())),
            },
            old(self).is_truncated() ==> final(self).is_truncated(),
            (final(self).model(), r) == next_model(old(self).model()),
    {
        loop
            invariant
                next_model(self.model()) == next_model(old(self).model()),
                self.wf(),
                self.pending is None,
                self.read == old(self).read,
                self.budget == old(self).budget,
                self.max_depth == old(self).max_depth,
                self.truncated == old(self).truncated,
            decreases self.steps.len(),
        {
            match self.steps.pop() {
                None => {
                    return None;
                },
                Some(WalkStep::Close) => {
                    close(&mut self.open);
                },
                Some(WalkStep::Read { reference, depth }) => {
                    if self.read >= self.budget {
                        self.truncated = true;
                        self.steps = Vec::new();
                        return None;
                    }
                    assert(self.steps@.push(WalkStep::Read { reference, depth })[self.steps@.len() as int]
                        == WalkStep::Read { reference, depth });
                    self.pending = Some(depth);
                    return Some((reference, depth));
                },
            }
        }
    }

    /// Hand back the element [`Walk::next_read`] asked for: its node, without
    /// children, and the caller's keys of its children in the toolkit's order.
    ///
    /// An element at the depth bound keeps no children; if it had some, the
    /// walk is cut.
    pub fn on_read(&mut self, node: SourceNode, children: Vec<usize>)
        requires
            old(self).wf(),
            old(self).pending() is Some,
            node.children@.len() == 0,
        ensures
            final(self).wf(),
            final(self).read_count() == old(self).read_count() + 1,
            final(self).budget() == old(self).budget(),
            final(self).max_depth() == old(self).max_depth(),
            final(self).pending() is None,
            final(self).is_truncated() == (old(self).is_truncated() || (children@.len() > 0
                && old(self).pending()->0 >= old(self).max_depth())),
            final(self).model() == on_read_model(old(self).model(), old(self).pending()->0, node@, children@),
    {
        let depth = match self.pending {
            Some(d) => d,
            None => 0,
        };
        let ghost m0 = self.model();
        self.pending = None;
        proof {
            lemma_forest_push(self.open@, node);
            lemma_leaf_size(node);
        }
        self.open.push(node);
        self.read = self.read + 1;
        assert(sources_view(self.open@) == m0.open.push(node@));
        if children.len() == 0 {
            close(&mut self.open);
        } else if depth >= self.max_depth {
            self.truncated = true;
            close(&mut self.open);
        } else {
            self.steps.push(WalkStep::Close);
            let ghost base = self.steps@;
            let mut k: usize = children.len();
            assert(pushed_reads(children@.subrange(k as int, children@.len() as int), (depth + 1) as u32)
                =~= Seq::<WalkStep>::empty());
            while k > 0
                invariant
                    self.wf(),
                    self.pending is None,
                    depth < self.max_depth,
                    k <= children.len(),
                    self.read == old(self).read + 1,
                    self.budget == old(self).budget,
                    self.max_depth == old(self).max_depth,
                    self.truncated == old(self).truncated,
                    sources_view(self.open@) == m0.open.push(node@),
                    self.steps@ == base + pushed_reads(
                        children@.subrange(k as int, children@.len() as int),
                        (depth + 1) as u32,
                    ),
                decreases k,
            {
                k -= 1;
                let ghost before = self.steps@;
                self.steps.push(WalkStep::Read { reference: children[k], depth: depth + 1 });
                assert(pushed_reads(children@.subrange(k as int, children@.len() as int), (depth + 1) as u32)
                    =~= pushed_reads(children@.subrange(k + 1, children@.len() as int), (depth + 1) as u32).push(
                    WalkStep::Read { reference: children@[k as int], depth: (depth + 1) as u32 },
                ));
                assert(self.steps@ =~= base + pushed_reads(
                    children@.subrange(k as int, children@.len() as int),
                    (depth + 1) as u32,
                ));
            }
            assert(children@.subrange(0, children@.len() as int) =~= children@);
        }
    }

    /// The tree the walk built, and whether a bound cut it.
    ///
    /// Elements still open when the budget ran out are folded into their
    /// ancestors. A walk that read nothing has no root, which is a backend
    /// error.
    pub fn finish(self) -> (r: Result<(SourceNode, bool), A11yError>)
        requires
            self.wf(),
        ensures
            match r {
                Ok((root, truncated)) => self.read_count() >= 1 && tree_size(source_view(root))
                    == self.read_count() && truncated == self.is_truncated(),
                Err(e) => self.read_count() == 0 && (e matches A11yError::Backend(m) && m@
                    == "the accessibility walk produced no window root"@),
            },
            match r {
                Ok((root, _)) => fold_open(self.model().open) == seq![source_view(root)],
                Err(_) => fold_open(self.model().open).len() == 0,
            },
    {
        let mut open = self.open;
        while open.len() > 1
            invariant
                forest_size(sources_view(open@)) == self.read,
                fold_open(sources_view(open@)) == fold_open(sources_view(self.open@)),
            decreases open.len(),
        {
            proof {
                lemma_sources_view(open@);
            }
            close(&mut open);
        }
        proof {
            lemma_sources_view(open@);
        }
        proof {
            if open@.len() == 0 {
                assert(sources_view(open@) =~= Seq::<crate::source::SourceNodeView>::empty());
            }
        }
        match open.pop() {
            Some(root) => {
                proof {
                    assert(open@.len() == 0);
                    lemma_forest_push(open@, root);
                    assert(sources_view(open@) =~= Seq::<crate::source::SourceNodeView>::empty());
                }
                Ok((root, self.truncated))
            },
            None => Err(A11yError::Backend("the accessibility walk produced no window root".to_string())),
        }
    }
}

/// A walk never reads more elements than its budget, and its budget admits at
/// least the root.
pub proof fn lemma_walk_bounded(w: Walk)
    requires
        w.wf(),
    ensures
        w.read_count() <= w.budget(),
        w.budget() >= 1,
{
}

/// A reader of the elements of a tree: for each key, `tree(key)` is the
/// element's subtree and `kids(key)` the keys of its children, in order.
pub open spec fn coherent_reader(
    tree: spec_fn(usize) -> SourceNodeView,
    kids: spec_fn(usize) -> Seq<usize>,
) -> bool {
    &&& forall|k: usize| #[trigger] kids(k).len() == tree(k).children.len()
    &&& forall|k: usize, j: int|
        0 <= j < kids(k).len() ==> tree(#[trigger] kids(k)[j]) == tree(k).children[j]
}

/// A walk driven by such a reader for at most `fuel` reads: each element
/// handed out is read as its subtree's root without children, with the keys
/// of its children.
pub open spec fn drive(
    m: WalkModel,
    tree: spec_fn(usize) -> SourceNodeView,
    kids: spec_fn(usize) -> Seq<usize>,
    fuel: nat,
) -> WalkModel
    decreases fuel,
{
    let (m1, r) = next_model(m);
    match r {
        Some((k, d)) => if fuel > 0 {
            drive(
                on_read_model(m1, d as nat, with_children(tree(k), Seq::empty()), kids(k)),
                tree,
                kids,
                (fuel - 1) as nat,
            )
        } else {
            m1
        },
        None => m1,
    }
}

/// What a walk amounts to: the tree folded from its open elements, whether
/// it was cut, and whether it is over.
pub open spec fn walk_outcome(m: WalkModel) -> (Seq<SourceNodeView>, bool, bool) {
    (fold_open(m.open), m.truncated, m.steps.len() == 0)
}

/// Closing an element does not change what the open elements fold to.
proof fn lemma_fold_close(o: Seq<SourceNodeView>)
    ensures
        fold_open(close_view(o)) == fold_open(o),
{
}

/// Asking for the next element keeps the folded tree and the counters, never
/// clears the cut flag, ends the walk when it hands nothing out, and hands
/// nothing out once the budget is spent.
proof fn lemma_next_model(m: WalkModel)
    ensures
        ({
            let (m1, r) = next_model(m);
            &&& fold_open(m1.open) == fold_open(m.open)
            &&& m1.read == m.read
            &&& m1.budget == m.budget
            &&& m1.max_depth == m.max_depth
            &&& m.truncated ==> m1.truncated
            &&& r is None ==> m1.steps.len() == 0
            &&& m.read >= m.budget ==> r is None
        }),
    decreases m.steps.len(),
{
    if m.steps.len() > 0 {
        match m.steps.last() {
            WalkStep::Close => {
                lemma_next_model(
                    WalkModel { steps: m.steps.drop_last(), open: close_view(m.open), ..m },
                );
                lemma_fold_close(m.open);
            },
            _ => {},
        }
    }
}

/// Reading the element `k` on top of the steps `s` comes to the same as
/// folding its trimmed subtree into its parent at once and spending one unit
/// of budget (and of fuel) per kept element.
proof fn lemma_walk_subtree(
    m: WalkModel,
    s: Seq<WalkStep>,
    k: usize,
    d: u32,
    tree: spec_fn(usize) -> SourceNodeView,
    kids: spec_fn(usize) -> Seq<usize>,
    fuel: nat,
)
    requires
        coherent_reader(tree, kids),
        m.steps == s.push(WalkStep::Read { reference: k, depth: d }),
        m.read < m.budget,
        m.max_depth <= u32::MAX,
        fuel >= tree_size(tree(k)),
    ensures
        ({
            let t = trim_view(tree(k), d as nat, m.max_depth, (m.budget - m.read) as nat);
            let m2 = WalkModel {
                steps: s,
                open: close_view(m.open.push(t.0)),
                read: (m.budget - t.1) as nat,
                truncated: m.truncated || t.2,
                ..m
            };
            &&& t.1 + tree_size(t.0) == m.budget - m.read
            &&& tree_size(t.0) <= tree_size(tree(k))
            &&& walk_outcome(drive(m, tree, kids, fuel)) == walk_outcome(
                drive(m2, tree, kids, (fuel - tree_size(t.0)) as nat),
            )
        }),
    decreases tree(k), 0nat,
{
    let rem = (m.budget - m.read) as nat;
    lemma_trim_view(tree(k), d as nat, m.max_depth, rem);
    let t = trim_view(tree(k), d as nat, m.max_depth, rem);
    assert(m.steps.drop_last() =~= s);
    let m1 = WalkModel { steps: s, ..m };
    assert(next_model(m) == (m1, Some((k, d))));
    let node = with_children(tree(k), Seq::empty());
    let mr = on_read_model(m1, d as nat, node, kids(k));
    assert(drive(m, tree, kids, fuel) == drive(mr, tree, kids, (fuel - 1) as nat));
    let m2 = WalkModel {
        steps: s,
        open: close_view(m.open.push(t.0)),
        read: (m.budget - t.1) as nat,
        truncated: m.truncated || t.2,
        ..m
    };
    let cs = tree(k).children;
    if kids(k).len() == 0 {
        assert(cs.len() == 0);
        assert(cs =~= Seq::<SourceNodeView>::empty());
        if (d as nat) < m.max_depth {
            assert(trim_kids(cs, 0, (d + 1) as nat, m.max_depth, (rem - 1) as nat) == (
                Seq::<SourceNodeView>::empty(),
                (rem - 1) as nat,
                false,
            ));
        }
        assert(t.0 == node);
        assert(tree_size(t.0) == 1);
        assert(mr == m2);
    } else if (d as nat) >= m.max_depth {
        assert(t.0 == node);
        assert(forest_size(node.children) == 0);
        assert(mr == m2);
    } else {
        let dd = (d + 1) as u32;
        assert(kids(k).skip(0) =~= kids(k));
        assert(cs.skip(0) =~= cs);
        assert(mr.steps == s.push(WalkStep::Close) + pushed_reads(kids(k).skip(0), dd));
        assert(mr.open == m.open.push(with_children(tree(k), Seq::empty())));
        lemma_walk_children(mr, s, m.open, k, d, 0, Seq::empty(), tree, kids, (fuel - 1) as nat);
        let tk = trim_kids(cs, 0, (d + 1) as nat, m.max_depth, (rem - 1) as nat);
        assert(Seq::<SourceNodeView>::empty() + tk.0 =~= tk.0);
        assert(t == (with_children(tree(k), tk.0), tk.1, tk.2));
        assert(tree_size(t.0) == 1 + forest_size(tk.0));
    }
}

/// Reading the children of `k` from the `i`-th on comes to the same as
/// folding their trimmed subtrees into `k` and `k` into its parent at once.
proof fn lemma_walk_children(
    m: WalkModel,
    s: Seq<WalkStep>,
    o: Seq<SourceNodeView>,
    k: usize,
    d: u32,
    i: nat,
    pre: Seq<SourceNodeView>,
    tree: spec_fn(usize) -> SourceNodeView,
    kids: spec_fn(usize) -> Seq<usize>,
    fuel: nat,
)
    requires
        coherent_reader(tree, kids),
        i <= kids(k).len(),
        (d as nat) < m.max_depth,
        m.max_depth <= u32::MAX,
        m.steps == s.push(WalkStep::Close) + pushed_reads(kids(k).skip(i as int), (d + 1) as u32),
        m.open == o.push(with_children(tree(k), pre)),
        m.read <= m.budget,
        fuel >= forest_size(tree(k).children.skip(i as int)),
    ensures
        ({
            let t = trim_kids(tree(k).children, i, (d + 1) as nat, m.max_depth, (m.budget - m.read) as nat);
            let m2 = WalkModel {
                steps: s,
                open: close_view(o.push(with_children(tree(k), pre + t.0))),
                read: (m.budget - t.1) as nat,
                truncated: m.truncated || t.2,
                ..m
            };
            &&& t.1 + forest_size(t.0) == m.budget - m.read
            &&& forest_size(t.0) <= forest_size(tree(k).children.skip(i as int))
            &&& walk_outcome(drive(m, tree, kids, fuel)) == walk_outcome(
                drive(m2, tree, kids, (fuel - forest_size(t.0)) as nat),
            )
        }),
    decreases tree(k).children, tree(k).children.len() - i,
{
    let cs = tree(k).children;
    let dd = (d + 1) as u32;
    let rem = (m.budget - m.read) as nat;
    lemma_trim_kids(cs, i, (d + 1) as nat, m.max_depth, rem);
    let t = trim_kids(cs, i, (d + 1) as nat, m.max_depth, rem);
    let m2 = WalkModel {
        steps: s,
        open: close_view(o.push(with_children(tree(k), pre + t.0))),
        read: (m.budget - t.1) as nat,
        truncated: m.truncated || t.2,
        ..m
    };
    if i >= cs.len() {
        assert(kids(k).skip(i as int) =~= Seq::<usize>::empty());
        assert(pushed_reads(Seq::<usize>::empty(), dd) =~= Seq::<WalkStep>::empty());
        assert(m.steps =~= s.push(WalkStep::Close));
        assert(pre + t.0 =~= pre);
        assert(m.steps.drop_last() =~= s);
        assert(next_model(m) == next_model(m2));
        assert(drive(m, tree, kids, fuel) == drive(m2, tree, kids, fuel));
    } else {
        let c = kids(k)[i as int];
        assert(tree(c) == cs[i as int]);
        let s1 = s.push(WalkStep::Close) + pushed_reads(kids(k).skip((i + 1) as int), dd);
        assert(pushed_reads(kids(k).skip(i as int), dd) =~= pushed_reads(
            kids(k).skip((i + 1) as int),
            dd,
        ).push(WalkStep::Read { reference: c, depth: dd }));
        assert(m.steps =~= s1.push(WalkStep::Read { reference: c, depth: dd }));
        let sk = cs.skip(i as int);
        assert(sk =~= seq![cs[i as int]] + cs.skip((i + 1) as int));
        lemma_forest_size_concat(seq![cs[i as int]], cs.skip((i + 1) as int));
        lemma_forest_size_single(cs[i as int]);
        if rem == 0 {
            assert(pre + t.0 =~= pre);
            let ma = WalkModel { steps: Seq::empty(), truncated: true, ..m };
            assert(next_model(m) == (ma, None::<(usize, u32)>));
            assert(drive(m, tree, kids, fuel) == ma);
            lemma_next_model(m2);
            lemma_fold_close(o.push(with_children(tree(k), pre)));
        } else {
            lemma_walk_subtree(m, s1, c, dd, tree, kids, fuel);
            let tv = trim_view(cs[i as int], (d + 1) as nat, m.max_depth, rem);
            let m1 = WalkModel {
                steps: s1,
                open: close_view(m.open.push(tv.0)),
                read: (m.budget - tv.1) as nat,
                truncated: m.truncated || tv.2,
                ..m
            };
            assert(m.open.push(tv.0).drop_last().drop_last() =~= o);
            assert(m1.open =~= o.push(with_children(tree(k), pre.push(tv.0))));
            lemma_walk_children(
                m1,
                s,
                o,
                k,
                d,
                i + 1,
                pre.push(tv.0),
                tree,
                kids,
                (fuel - tree_size(tv.0)) as nat,
            );
            let t2 = trim_kids(cs, i + 1, (d + 1) as nat, m.max_depth, tv.1);
            assert(t == (seq![tv.0] + t2.0, t2.1, tv.2 || t2.2));
            assert(pre.push(tv.0) + t2.0 =~= pre + t.0);
            lemma_forest_size_concat(seq![tv.0], t2.0);
            lemma_forest_size_single(tv.0);
        }
    }
}

/// A walk driven by a reader of a tree keeps exactly what a fixture snapshot
/// of that tree keeps under the same options, reports itself cut exactly when
/// the snapshot is, and is over after at most as many reads as the tree has
/// elements.
pub proof fn lemma_walk_matches_trim(
    root: usize,
    opts: SourceOptions,
    tree: spec_fn(usize) -> SourceNodeView,
    kids: spec_fn(usize) -> Seq<usize>,
)
    requires
        coherent_reader(tree, kids),
    ensures
        ({
            let m = drive(walk_start(root, opts), tree, kids, tree_size(tree(root)));
            &&& m.steps.len() == 0
            &&& fold_open(m.open) == seq![trim_spec(tree(root), opts).0]
            &&& m.truncated == trim_spec(tree(root), opts).1
        }),
{
    let m0 = walk_start(root, opts);
    let e = Seq::<WalkStep>::empty();
    assert(m0.steps =~= e.push(WalkStep::Read { reference: root, depth: 0 }));
    let fuel = tree_size(tree(root));
    lemma_walk_subtree(m0, e, root, 0, tree, kids, fuel);
    let t = trim_view(tree(root), 0, m0.max_depth, m0.budget);
    let m2 = WalkModel {
        steps: e,
        open: close_view(m0.open.push(t.0)),
        read: (m0.budget - t.1) as nat,
        truncated: m0.truncated || t.2,
        ..m0
    };
    assert(m0.open.push(t.0) =~= seq![t.0]);
    assert(next_model(m2) == (m2, None::<(usize, u32)>));
    assert(drive(m2, tree, kids, (fuel - tree_size(t.0)) as nat) == m2);
    assert(fold_open(seq![t.0]) == seq![t.0]);
}

/// Pushing a node onto a list of nodes adds its tree to the forest.
proof fn lemma_forest_push(ns: Seq<SourceNode>, n: SourceNode)
    ensures
        sources_view(ns.push(n)) == sources_view(ns).push(source_view(n)),
        forest_size(sources_view(ns.push(n))) == forest_size(sources_view(ns)) + tree_size(
            source_view(n),
        ),
{
    assert(ns.push(n).drop_last() =~= ns);
    assert(sources_view(ns).push(source_view(n)).drop_last() =~= sources_view(ns));
}

/// A node without children is a tree of one.
proof fn lemma_leaf_size(n: SourceNode)
    requires
        n.children@.len() == 0,
    ensures
        tree_size(source_view(n)) == 1,
{
    assert(sources_view(n.children@) =~= Seq::<crate::source::SourceNodeView>::empty());
}

/// Fold the innermost open node into its parent; the walk root, alone at the
/// bottom, has no parent and stays.
fn close(open: &mut Vec<SourceNode>)
    ensures
        forest_size(sources_view(final(open)@)) == forest_size(sources_view(old(open)@)),
        old(open)@.len() >= 2 ==> final(open)@.len() == old(open)@.len() - 1,
        old(open)@.len() < 2 ==> final(open)@ == old(open)@,
        sources_view(final(open)@) == close_view(sources_view(old(open)@)),
{
    if open.len() < 2 {
        proof {
            lemma_sources_view(open@);
        }
        return;
    }
    let ghost o = open@;
    let done = open.pop().unwrap();
    let mut parent = open.pop().unwrap();
    let ghost base = open@;
    proof {
        assert(o =~= base.push(parent).push(done));
        lemma_forest_push(base.push(parent), done);
        lemma_forest_push(base, parent);
        lemma_forest_push(parent.children@, done);
    }
    let ghost before = parent;
    parent.children.push(done);
    proof {
        lemma_forest_push(base, parent);
        assert(source_view(parent).children == sources_view(before.children@).push(source_view(done)));
        assert(source_view(parent) == with_children(source_view(before), source_view(before).children.push(source_view(done))));
        lemma_forest_push(base.push(before), done);
        lemma_forest_push(base, before);
        assert(sources_view(o).drop_last().drop_last() =~= sources_view(base));
    }
    open.push(parent);
}

/// The index of the action to perform: the first one named `requested`, or,
/// with no action named, the element's first (its default action by the
/// toolkit's convention). `None` when the element exposes no such action.
pub fn choose_action(actions: &Vec<String>, requested: Option<&str>) -> (r: Option<usize>)
    ensures
        match r {
            Some(i) => i < actions@.len() && match requested {
                Some(name) => actions@[i as int]@ == name@ && forall|j: int|
                    0 <= j < i ==> actions@[j]@ != name@,
                None => i == 0,
            },
            None => match requested {
                Some(name) => forall|j: int| 0 <= j < actions@.len() ==> actions@[j]@ != name@,
                None => actions@.len() == 0,
            },
        },
{
    match requested {
        Some(name) => {
            let mut i: usize = 0;
            while i < actions.len()
                invariant
                    i <= actions.len(),
                    requested == Some(name),
                    forall|j: int| 0 <= j < i ==> actions@[j]@ != name@,
                decreases actions.len() - i,
            {
                if crate::chars::str_equals(actions[i].as_str(), name) {
                    return Some(i);
                }
                i += 1;
            }
            None
        },
        None => if actions.len() > 0 {
            Some(0)
        } else {
            None
        },
    }
}

/// The outcome of a failed action call: an element without the `Action`
/// interface exposes no action, one that left the bus is gone, and any other
/// failure is a backend error naming the call.
pub fn action_failure(failure: &BusFailure, what: &str, detail: &str) -> (r: Result<
    InvokeOutcome,
    A11yError,
>)
    ensures
        is_absent_interface_failure(*failure) ==> r matches Ok(InvokeOutcome::NoSuchAction),
        !is_absent_interface_failure(*failure) && is_missing_element_failure(*failure) ==> r matches Ok(
            InvokeOutcome::Gone,
        ),
        !is_absent_interface_failure(*failure) && !is_missing_element_failure(*failure) ==> (r matches Err(
            A11yError::Backend(m),
        ) && m@ == what@ + ": "@ + detail@),
{
    if is_absent_interface(failure) {
        Ok(InvokeOutcome::NoSuchAction)
    } else if is_missing_element(failure) {
        Ok(InvokeOutcome::Gone)
    } else {
        Err(crate::dbus::backend_error(what, detail))
    }
}

} // verus!
