//! Metrics: the measurable cost and quality of one agent task.
//!
//! `steps` counts loop iterations, `decisions` provider decisions (including
//! `Finish`), `actions` executed decisions excluding `Finish`, split into
//! runtime-native operations and seat input; `gpu_readbacks` counts calls that
//! returned an image, `images_sent` images embedded in provider contexts and
//! `visual_tokens` their estimated cost; `failures`/`recoveries` count failed
//! steps and failed steps immediately followed by a successful one. The
//! counters saturate at their type's maximum.

use vstd::prelude::*;
use vstd::relations::{sorted_by, total_ordering};

use crate::agent_error::{error_kind_key, Error};
use crate::chars::{lemma_lex_lt_irreflexive, lemma_lex_lt_total, lemma_lex_lt_transitive, lex_lt, str_lt};
use crate::decision::{
    action_kind_index, is_input_kind, is_runtime_kind, ActionKind, ACTION_KIND_COUNT,
};
use crate::runtime::ImagePayload;

verus! {

/// Why the loop stopped.
#[derive(Debug, Clone, Copy, PartialEq, Eq, Structural)]
pub enum StopReason {
    /// The provider emitted `Finish`.
    Finished,
    /// The step budget was exhausted first.
    StepBudgetExhausted,
    /// The consecutive-failure budget was exhausted first.
    FailureBudgetExhausted,
    /// A fatal error ended the run.
    FatalError,
}

/// `ceil(n / 512)`.
pub open spec fn tiles_along(n: nat) -> nat {
    ((n + 511) / 512) as nat
}

/// The estimated visual tokens of a `width` × `height` image:
/// `85 + 170 * ceil(width/512) * ceil(height/512)`.
pub open spec fn visual_tokens_of(width: nat, height: nat) -> nat {
    85 + 170 * (tiles_along(width) * tiles_along(height))
}

/// Estimate visual tokens for an image of the given pixel size
/// (`85 + 170 * tiles`, `tiles = ceil(w/512) * ceil(h/512)`).
pub fn estimate_visual_tokens(width: u32, height: u32) -> (t: u64)
    ensures
        t == visual_tokens_of(width as nat, height as nat),
{
    let tw: u64 = (width as u64 + 511) / 512;
    let th: u64 = (height as u64 + 511) / 512;
    assert(tw <= 8388608 && th <= 8388608);
    assert(tw * th <= 8388608 * 8388608) by (nonlinear_arith)
        requires
            tw <= 8388608,
            th <= 8388608,
    ;
    85 + 170 * (tw * th)
}

/// The ordering latencies are sorted by.
pub open spec fn u64_leq() -> spec_fn(u64, u64) -> bool {
    |a: u64, b: u64| a <= b
}

/// The samples in ascending order.
pub open spec fn sorted_samples(s: Seq<u64>) -> Seq<u64> {
    s.sort_by(u64_leq())
}

/// The sum of the samples.
pub open spec fn sum_samples(s: Seq<u64>) -> nat
    decreases s.len(),
{
    if s.len() == 0 {
        0
    } else {
        sum_samples(s.drop_last()) + s.last() as nat
    }
}

/// The 1-based nearest rank of the 95th percentile among `n` samples:
/// `ceil(0.95 * n)`.
pub open spec fn p95_rank(n: nat) -> nat {
    ((95 * n + 99) / 100) as nat
}

/// Integer latency summary: sample count, minimum, sum and 95th percentile
/// (nearest rank); all zero when there are no samples.
#[derive(Debug, Clone, Copy, PartialEq, Eq, Structural)]
pub struct LatencySummary {
    /// Number of samples.
    pub count: u64,
    /// Minimum observed latency.
    pub min_ms: u64,
    /// Sum of the samples (the mean is `sum_ms / count`).
    pub sum_ms: u128,
    /// 95th percentile (nearest rank).
    pub p95_ms: u64,
}

proof fn lemma_u64_leq_total()
    ensures
        total_ordering(u64_leq()),
{
    assert(vstd::relations::reflexive(u64_leq()));
    assert(vstd::relations::antisymmetric(u64_leq()));
    assert(vstd::relations::transitive(u64_leq()));
    assert(vstd::relations::strongly_connected(u64_leq()));
}

/// The samples in ascending order.
pub fn sort_latencies(samples: &Vec<u64>) -> (sorted: Vec<u64>)
    ensures
        sorted@ == sorted_samples(samples@),
{
    let mut out: Vec<u64> = Vec::new();
    let mut i: usize = 0;
    assert(samples@.take(0) =~= Seq::<u64>::empty());
    assert(out@.to_multiset() =~= samples@.take(0).to_multiset());
    while i < samples.len()
        invariant
            i <= samples.len(),
            out@.len() == i,
            sorted_by(out@, u64_leq()),
            out@.to_multiset() == samples@.take(i as int).to_multiset(),
        decreases samples.len() - i,
    {
        let x = samples[i];
        let mut pos: usize = 0;
        while pos < out.len() && out[pos] <= x
            invariant
                pos <= out.len(),
                out@.len() == i,
                forall|k: int| 0 <= k < pos ==> out@[k] <= x,
            decreases out.len() - pos,
        {
            pos += 1;
        }
        let ghost before = out@;
        out.insert(pos, x);
        proof {
            assert(out@ == before.insert(pos as int, x));
            assert forall|a: int, b: int| 0 <= a < b < out@.len() implies (u64_leq())(
                out@[a],
                out@[b],
            ) by {
                if b < pos {
                } else if a < pos && b == pos {
                } else if a < pos && b > pos {
                    assert(out@[b] == before[b - 1]);
                    assert((u64_leq())(before[a], before[b - 1]));
                } else if a == pos {
                    assert(out@[b] == before[b - 1]);
                    assert(pos < before.len());
                    assert(!(before[pos as int] <= x));
                    if pos as int != b - 1 {
                        assert((u64_leq())(before[pos as int], before[b - 1]));
                    }
                } else {
                    assert(out@[a] == before[a - 1]);
                    assert(out@[b] == before[b - 1]);
                    assert((u64_leq())(before[a - 1], before[b - 1]));
                }
            }
            vstd::seq_lib::to_multiset_insert(before, pos as int, x);
            vstd::seq_lib::to_multiset_build(samples@.take(i as int), x);
            assert(samples@.take(i + 1) =~= samples@.take(i as int).push(x));
        }
        i += 1;
    }
    proof {
        assert(samples@.take(samples.len() as int) =~= samples@);
        lemma_u64_leq_total();
        samples@.lemma_sort_by_ensures(u64_leq());
        vstd::seq_lib::lemma_sorted_unique(out@, sorted_samples(samples@), u64_leq());
    }
    out
}

/// The latency summary the report carries.
pub open spec fn latency_summary_spec(s: Seq<u64>) -> LatencySummary {
    if s.len() == 0 {
        LatencySummary { count: 0, min_ms: 0, sum_ms: 0, p95_ms: 0 }
    } else {
        LatencySummary {
            count: s.len() as u64,
            min_ms: sorted_samples(s)[0],
            sum_ms: sum_samples(s) as u128,
            p95_ms: sorted_samples(s)[p95_rank(s.len()) - 1],
        }
    }
}

/// Count, minimum, sum and 95th percentile (nearest rank) of the samples.
pub fn latency_summary(samples: &Vec<u64>) -> (r: LatencySummary)
    ensures
        r == latency_summary_spec(samples@),
{
    if samples.len() == 0 {
        return LatencySummary { count: 0, min_ms: 0, sum_ms: 0, p95_ms: 0 };
    }
    let sorted = sort_latencies(samples);
    proof {
        lemma_u64_leq_total();
        samples@.lemma_sort_by_ensures(u64_leq());
    }
    assert(sorted@.len() == samples@.len()) by {
        broadcast use vstd::seq_lib::group_to_multiset_ensures;
        assert(sorted@.to_multiset().len() == samples@.to_multiset().len());
    }
    let mut sum: u128 = 0;
    let mut i: usize = 0;
    while i < samples.len()
        invariant
            i <= samples.len(),
            sum == sum_samples(samples@.take(i as int)),
            sum <= i * 18446744073709551615u128,
        decreases samples.len() - i,
    {
        assert(samples@.take(i + 1).drop_last() =~= samples@.take(i as int));
        assert(sum + samples[i as int] <= (i + 1) * 18446744073709551615u128) by (nonlinear_arith)
            requires
                sum <= i * 18446744073709551615u128,
                samples[i as int] <= 18446744073709551615u64,
        ;
        assert((i + 1) * 18446744073709551615u128 <= 18446744073709551616u128 * 18446744073709551615u128) by (nonlinear_arith)
            requires
                i < 18446744073709551616u128,
        ;
        sum = sum + samples[i] as u128;
        i += 1;
    }
    assert(samples@.take(samples.len() as int) =~= samples@);
    let n: usize = samples.len();
    let rank: u128 = (95 * (n as u128) + 99) / 100;
    assert(1 <= rank <= n);
    let idx: usize = (rank - 1) as usize;
    LatencySummary { count: n as u64, min_ms: sorted[0], sum_ms: sum, p95_ms: sorted[idx] }
}

/// `n + 1`, saturated at `u32::MAX`.
pub open spec fn bump32(n: u32) -> u32 {
    if n < u32::MAX { (n + 1) as u32 } else { n }
}

/// `n + k`, saturated at `u64::MAX`.
pub open spec fn add64(n: u64, k: nat) -> u64 {
    if n + k <= u64::MAX { (n + k) as u64 } else { u64::MAX }
}

/// Where `key` goes among the sorted keys of `v` from position `i` on: before
/// the first key it sorts before, or at the end.
pub open spec fn key_slot(v: Seq<(Seq<char>, u32)>, key: Seq<char>, i: nat) -> nat
    decreases v.len() - i,
{
    if i >= v.len() {
        v.len()
    } else if lex_lt(key, v[i as int].0) {
        i
    } else {
        key_slot(v, key, i + 1)
    }
}

/// Per-key failure counts, one entry per key in key order: `key`'s count
/// raised by one (a new key starts at one, in its place in the order).
pub open spec fn bump_key(v: Seq<(Seq<char>, u32)>, key: Seq<char>) -> Seq<(Seq<char>, u32)> {
    if exists|k: int| 0 <= k < v.len() && v[k].0 == key {
        let k = choose|k: int| 0 <= k < v.len() && v[k].0 == key;
        v.update(k, (key, bump32(v[k].1)))
    } else {
        v.insert(key_slot(v, key, 0) as int, (key, 1u32))
    }
}

/// Whether no key occurs twice.
pub open spec fn keys_distinct(v: Seq<(Seq<char>, u32)>) -> bool {
    forall|i: int, j: int| 0 <= i < j < v.len() ==> v[i].0 != v[j].0
}

/// Whether the keys are in strictly increasing order (so none occurs twice).
pub open spec fn keys_sorted(v: Seq<(Seq<char>, u32)>) -> bool {
    forall|i: int, j: int| 0 <= i < j < v.len() ==> lex_lt(#[trigger] v[i].0, #[trigger] v[j].0)
}

/// Sorted keys are distinct.
pub proof fn lemma_sorted_keys_distinct(v: Seq<(Seq<char>, u32)>)
    requires
        keys_sorted(v),
    ensures
        keys_distinct(v),
{
    assert forall|i: int, j: int| 0 <= i < j < v.len() implies v[i].0 != v[j].0 by {
        assert(lex_lt(v[i].0, v[j].0));
        lemma_lex_lt_irreflexive(v[i].0, 0);
    }
}

/// The abstract state of a metrics recorder.
pub struct MetricsView {
    /// Loop iterations executed.
    pub steps: u32,
    /// Provider decisions received (including `Finish`).
    pub decisions: u32,
    /// Executed decisions excluding `Finish`.
    pub actions: u32,
    /// Per-kind action counts, indexed by the kind's dense index.
    pub actions_by_kind: Seq<u32>,
    /// Runtime-native operations among `actions`.
    pub runtime_ops: u32,
    /// Seat input actions among `actions`.
    pub input_actions: u32,
    /// Calls that returned an image.
    pub gpu_readbacks: u32,
    /// Images embedded in provider contexts.
    pub images_sent: u32,
    /// Estimated visual tokens across all images sent.
    pub visual_tokens: u64,
    /// Decision latencies, in arrival order.
    pub latencies_ms: Seq<u64>,
    /// Failed steps.
    pub failures: u32,
    /// Failures per error key.
    pub failures_by_kind: Seq<(Seq<char>, u32)>,
    /// Failed steps immediately followed by a successful step.
    pub recoveries: u32,
    /// Failures since the last success.
    pub consecutive_failures: u32,
    /// Whether the last recorded step failed.
    pub last_step_failed: bool,
}

/// The recorder the loop owns.
#[derive(Debug)]
pub struct Metrics {
    steps: u32,
    decisions: u32,
    actions: u32,
    actions_by_kind: Vec<u32>,
    runtime_ops: u32,
    input_actions: u32,
    gpu_readbacks: u32,
    images_sent: u32,
    visual_tokens: u64,
    latencies_ms: Vec<u64>,
    failures: u32,
    failures_by_kind: Vec<(String, u32)>,
    recoveries: u32,
    consecutive_failures: u32,
    last_step_failed: bool,
}

/// The views of the per-key failure counts.
pub open spec fn counts_view(v: Seq<(String, u32)>) -> Seq<(Seq<char>, u32)> {
    v.map_values(|e: (String, u32)| (e.0@, e.1))
}

impl View for Metrics {
    type V = MetricsView;

    closed spec fn view(&self) -> MetricsView {
        MetricsView {
            steps: self.steps,
            decisions: self.decisions,
            actions: self.actions,
            actions_by_kind: self.actions_by_kind@,
            runtime_ops: self.runtime_ops,
            input_actions: self.input_actions,
            gpu_readbacks: self.gpu_readbacks,
            images_sent: self.images_sent,
            visual_tokens: self.visual_tokens,
            latencies_ms: self.latencies_ms@,
            failures: self.failures,
            failures_by_kind: counts_view(self.failures_by_kind@),
            recoveries: self.recoveries,
            consecutive_failures: self.consecutive_failures,
            last_step_failed: self.last_step_failed,
        }
    }
}

/// A recorder's invariant: one counter per action kind, one entry per failure
/// key.
pub open spec fn metrics_wf(m: MetricsView) -> bool {
    m.actions_by_kind.len() == ACTION_KIND_COUNT && keys_sorted(m.failures_by_kind)
}

fn sat_inc(n: u32) -> (r: u32)
    ensures
        r == bump32(n),
{
    if n < u32::MAX { n + 1 } else { n }
}

impl Metrics {
    /// A recorder with every counter at zero.
    pub fn new() -> (m: Metrics)
        ensures
            metrics_wf(m@),
            m@.steps == 0,
            m@.decisions == 0,
            m@.actions == 0,
            m@.actions_by_kind == Seq::new(ACTION_KIND_COUNT as nat, |i: int| 0u32),
            m@.runtime_ops == 0,
            m@.input_actions == 0,
            m@.gpu_readbacks == 0,
            m@.images_sent == 0,
            m@.visual_tokens == 0,
            m@.latencies_ms.len() == 0,
            m@.failures == 0,
            m@.failures_by_kind.len() == 0,
            m@.recoveries == 0,
            m@.consecutive_failures == 0,
            !m@.last_step_failed,
    {
        let mut by_kind: Vec<u32> = Vec::new();
        let mut i: usize = 0;
        while i < ACTION_KIND_COUNT
            invariant
                i <= ACTION_KIND_COUNT,
                by_kind@ == Seq::new(i as nat, |k: int| 0u32),
            decreases ACTION_KIND_COUNT - i,
        {
            by_kind.push(0);
            assert(by_kind@ =~= Seq::new((i + 1) as nat, |k: int| 0u32));
            i += 1;
        }
        let m = Metrics {
            steps: 0,
            decisions: 0,
            actions: 0,
            actions_by_kind: by_kind,
            runtime_ops: 0,
            input_actions: 0,
            gpu_readbacks: 0,
            images_sent: 0,
            visual_tokens: 0,
            latencies_ms: Vec::new(),
            failures: 0,
            failures_by_kind: Vec::new(),
            recoveries: 0,
            consecutive_failures: 0,
            last_step_failed: false,
        };
        assert(m@.failures_by_kind =~= Seq::<(Seq<char>, u32)>::empty());
        m
    }

    /// Record the start of a loop step.
    pub fn record_step(&mut self)
        ensures
            final(self)@ == (MetricsView { steps: bump32(old(self)@.steps), ..old(self)@ }),
    {
        self.steps = sat_inc(self.steps);
    }

    /// Record a provider decision and its latency.
    pub fn record_decision(&mut self, kind: ActionKind, latency_ms: u64)
        ensures
            final(self)@ == (MetricsView {
                decisions: bump32(old(self)@.decisions),
                latencies_ms: old(self)@.latencies_ms.push(latency_ms),
                ..old(self)@
            }),
    {
        self.decisions = sat_inc(self.decisions);
        self.latencies_ms.push(latency_ms);
    }

    /// Record that `image` was embedded in a provider context.
    pub fn record_image_sent(&mut self, image: &ImagePayload)
        ensures
            final(self)@ == (MetricsView {
                images_sent: bump32(old(self)@.images_sent),
                visual_tokens: add64(
                    old(self)@.visual_tokens,
                    visual_tokens_of(image.width as nat, image.height as nat),
                ),
                ..old(self)@
            }),
    {
        self.images_sent = sat_inc(self.images_sent);
        let t = estimate_visual_tokens(image.width, image.height);
        self.visual_tokens = self.visual_tokens.saturating_add(t);
    }

    /// Record one executed action: its kind, whether it read pixels back, and
    /// the image the loop embedded in a context, if any. `Finish` is not an
    /// action and leaves the recorder unchanged.
    pub fn record_action(&mut self, kind: ActionKind, readback: bool, image: Option<&ImagePayload>)
        requires
            metrics_wf(old(self)@),
        ensures
            metrics_wf(final(self)@),
            kind == ActionKind::Finish ==> final(self)@ == old(self)@,
            kind != ActionKind::Finish ==> ({
                let o = old(self)@;
                let i = action_kind_index(kind) as int;
                let after_image = match image {
                    Some(img) => MetricsView {
                        images_sent: bump32(o.images_sent),
                        visual_tokens: add64(
                            o.visual_tokens,
                            visual_tokens_of(img.width as nat, img.height as nat),
                        ),
                        ..o
                    },
                    None => o,
                };
                final(self)@ == MetricsView {
                    actions: bump32(o.actions),
                    actions_by_kind: o.actions_by_kind.update(i, bump32(o.actions_by_kind[i])),
                    runtime_ops: if is_runtime_kind(kind) { bump32(o.runtime_ops) } else { o.runtime_ops },
                    input_actions: if is_input_kind(kind) { bump32(o.input_actions) } else { o.input_actions },
                    gpu_readbacks: if readback { bump32(o.gpu_readbacks) } else { o.gpu_readbacks },
                    ..after_image
                }
            }),
    {
        if let ActionKind::Finish = kind {
            return;
        }
        self.actions = sat_inc(self.actions);
        let i = kind.index();
        let c = self.actions_by_kind[i];
        self.actions_by_kind.set(i, sat_inc(c));
        match kind {
            ActionKind::Click | ActionKind::TypeText | ActionKind::Keypress | ActionKind::Scroll => {
                self.input_actions = sat_inc(self.input_actions);
            },
            _ => {
                self.runtime_ops = sat_inc(self.runtime_ops);
            },
        }
        if readback {
            self.gpu_readbacks = sat_inc(self.gpu_readbacks);
        }
        if let Some(img) = image {
            self.record_image_sent(img);
        }
    }

    /// Record a failed step and its error.
    pub fn record_failure(&mut self, kind: ActionKind, error: &Error)
        requires
            metrics_wf(old(self)@),
        ensures
            metrics_wf(final(self)@),
            final(self)@ == (MetricsView {
                failures: bump32(old(self)@.failures),
                failures_by_kind: bump_key(old(self)@.failures_by_kind, error_kind_key(*error)),
                consecutive_failures: bump32(old(self)@.consecutive_failures),
                last_step_failed: true,
                ..old(self)@
            }),
    {
        self.failures = sat_inc(self.failures);
        self.consecutive_failures = sat_inc(self.consecutive_failures);
        self.last_step_failed = true;
        let key = error.kind_key();
        let ghost v0 = counts_view(self.failures_by_kind@);
        let ghost mid = self@;
        let mut k: usize = 0;
        while k < self.failures_by_kind.len()
            invariant
                k <= self.failures_by_kind.len(),
                self@ == mid,
                mid == (MetricsView {
                    failures: bump32(old(self)@.failures),
                    consecutive_failures: bump32(old(self)@.consecutive_failures),
                    last_step_failed: true,
                    ..old(self)@
                }),
                metrics_wf(old(self)@),
                v0 == counts_view(self.failures_by_kind@),
                v0 == old(self)@.failures_by_kind,
                keys_sorted(v0),
                key@ == error_kind_key(*error),
                forall|j: int| 0 <= j < k ==> lex_lt(#[trigger] v0[j].0, key@),
                key_slot(v0, key@, 0) == key_slot(v0, key@, k as nat),
            decreases self.failures_by_kind.len() - k,
        {
            if self.failures_by_kind[k].0 == key {
                let c = self.failures_by_kind[k].1;
                self.failures_by_kind.set(k, (key, sat_inc(c)));
                proof {
                    lemma_sorted_keys_distinct(v0);
                    let ch = choose|j: int| 0 <= j < v0.len() && v0[j].0 == error_kind_key(*error);
                    assert(v0[k as int].0 == error_kind_key(*error));
                    assert(ch == k as int);
                    assert(counts_view(self.failures_by_kind@) =~= v0.update(
                        k as int,
                        (error_kind_key(*error), bump32(v0[k as int].1)),
                    ));
                    let w = counts_view(self.failures_by_kind@);
                    assert forall|a: int, b: int| 0 <= a < b < w.len() implies lex_lt(#[trigger] w[a].0, #[trigger] w[b].0) by {
                        assert(w[a].0 == v0[a].0);
                        assert(w[b].0 == v0[b].0);
                    }
                }
                return;
            }
            if str_lt(key.as_str(), self.failures_by_kind[k].0.as_str()) {
                self.failures_by_kind.insert(k, (key, 1));
                proof {
                    let kk = key@;
                    assert(lex_lt(kk, v0[k as int].0));
                    assert forall|j: int| 0 <= j < v0.len() implies v0[j].0 != kk by {
                        if j < k {
                            assert(lex_lt(v0[j].0, kk));
                            lemma_lex_lt_irreflexive(kk, 0);
                        } else {
                            if j > k {
                                assert(lex_lt(v0[k as int].0, v0[j].0));
                                lemma_lex_lt_transitive(kk, v0[k as int].0, v0[j].0, 0);
                            }
                            lemma_lex_lt_irreflexive(kk, 0);
                        }
                    }
                    assert(key_slot(v0, kk, k as nat) == k);
                    let w = counts_view(self.failures_by_kind@);
                    assert(w =~= v0.insert(k as int, (kk, 1u32)));
                    assert forall|a: int, b: int| 0 <= a < b < w.len() implies lex_lt(#[trigger] w[a].0, #[trigger] w[b].0) by {
                        if a < k && b < k {
                            assert(w[a].0 == v0[a].0 && w[b].0 == v0[b].0);
                        } else if a < k && b == k {
                            assert(w[a].0 == v0[a].0);
                        } else if a < k {
                            assert(w[a].0 == v0[a].0 && w[b].0 == v0[b - 1].0);
                            assert(lex_lt(v0[a].0, kk));
                            if b - 1 > k {
                                assert(lex_lt(v0[k as int].0, v0[b - 1].0));
                                lemma_lex_lt_transitive(kk, v0[k as int].0, v0[b - 1].0, 0);
                            }
                            lemma_lex_lt_transitive(v0[a].0, kk, v0[b - 1].0, 0);
                        } else if a == k {
                            assert(w[b].0 == v0[b - 1].0);
                            if b - 1 > k {
                                assert(lex_lt(v0[k as int].0, v0[b - 1].0));
                                lemma_lex_lt_transitive(kk, v0[k as int].0, v0[b - 1].0, 0);
                            }
                        } else {
                            assert(w[a].0 == v0[a - 1].0 && w[b].0 == v0[b - 1].0);
                        }
                    }
                }
                return;
            }
            proof {
                let kk = key@;
                let e = v0[k as int].0;
                if e != kk {
                    assert(e.take(0) =~= kk.take(0));
                    lemma_lex_lt_total(e, kk, 0);
                }
                assert(key_slot(v0, kk, k as nat) == key_slot(v0, kk, (k + 1) as nat));
            }
            k += 1;
        }
        self.failures_by_kind.push((key, 1));
        proof {
            let kk = key@;
            assert forall|j: int| 0 <= j < v0.len() implies v0[j].0 != kk by {
                assert(lex_lt(v0[j].0, kk));
                lemma_lex_lt_irreflexive(kk, 0);
            }
            assert(key_slot(v0, kk, k as nat) == v0.len());
            let w = counts_view(self.failures_by_kind@);
            assert(w =~= v0.insert(v0.len() as int, (kk, 1u32)));
            assert forall|a: int, b: int| 0 <= a < b < w.len() implies lex_lt(#[trigger] w[a].0, #[trigger] w[b].0) by {
                if b < v0.len() {
                    assert(w[a].0 == v0[a].0 && w[b].0 == v0[b].0);
                } else {
                    assert(w[a].0 == v0[a].0);
                }
            }
        }
    }

    /// Record a successful step: a success right after a failure is a
    /// recovery, and the consecutive-failure count starts over.
    pub fn record_success(&mut self)
        ensures
            final(self)@ == (MetricsView {
                recoveries: if old(self)@.last_step_failed {
                    bump32(old(self)@.recoveries)
                } else {
                    old(self)@.recoveries
                },
                consecutive_failures: 0,
                last_step_failed: false,
                ..old(self)@
            }),
    {
        if self.last_step_failed {
            self.recoveries = sat_inc(self.recoveries);
        }
        self.consecutive_failures = 0;
        self.last_step_failed = false;
    }

    /// Consecutive failures recorded so far.
    pub fn consecutive_failures(&self) -> (n: u32)
        ensures
            n == self@.consecutive_failures,
    {
        self.consecutive_failures
    }
}

/// Recoveries never outnumber failures: every recovery follows a failure, and
/// a pending failure (the last step failed) is not yet recovered.
pub open spec fn recoveries_consistent(m: MetricsView) -> bool {
    m.recoveries + (if m.last_step_failed { 1int } else { 0int }) <= m.failures
}

/// A fresh recorder is consistent; recording a failure (below the counter's
/// saturation) or a success keeps it consistent.
pub proof fn lemma_recoveries_consistent(m: MetricsView, key: Seq<char>)
    ensures
        recoveries_consistent(m) && m.failures < u32::MAX ==> recoveries_consistent(
            MetricsView {
                failures: bump32(m.failures),
                failures_by_kind: bump_key(m.failures_by_kind, key),
                consecutive_failures: bump32(m.consecutive_failures),
                last_step_failed: true,
                ..m
            },
        ),
        recoveries_consistent(m) ==> recoveries_consistent(
            MetricsView {
                recoveries: if m.last_step_failed { bump32(m.recoveries) } else { m.recoveries },
                consecutive_failures: 0,
                last_step_failed: false,
                ..m
            },
        ),
{
}

/// A snapshot of one task run (the integer part of the run report; the mean
/// latency and the failure and recovery rates are derived from it).
#[derive(Debug)]
pub struct MetricsSnapshot {
    /// Task goal.
    pub task: String,
    /// Whether the task finished successfully.
    pub success: bool,
    /// Why the loop stopped.
    pub stop_reason: StopReason,
    /// Loop iterations executed.
    pub steps: u32,
    /// Provider decisions received.
    pub decisions: u32,
    /// Executed decisions excluding `Finish`.
    pub actions: u32,
    /// Per-kind action counts, indexed by the kind's dense index.
    pub actions_by_kind: Vec<u32>,
    /// Runtime-native operations among `actions`.
    pub runtime_ops: u32,
    /// Seat input actions among `actions`.
    pub input_actions: u32,
    /// Calls that returned an image.
    pub gpu_readbacks: u32,
    /// Images embedded in provider contexts.
    pub images_sent: u32,
    /// Estimated visual tokens across all images sent.
    pub visual_tokens: u64,
    /// Decision latency summary.
    pub decision_latency: LatencySummary,
    /// Failed steps.
    pub failures: u32,
    /// Failures per error key.
    pub failures_by_kind: Vec<(String, u32)>,
    /// Failed steps recovered by a later successful step.
    pub recoveries: u32,
    /// Wall-clock duration of the run.
    pub elapsed_ms: u64,
}

/// Whether `r` is the snapshot of the recorder `m` for the run of `task` that
/// ended with `success` for `stop_reason` after `elapsed_ms`.
pub open spec fn is_report_of(
    r: MetricsSnapshot,
    m: MetricsView,
    task: Seq<char>,
    success: bool,
    stop_reason: StopReason,
    elapsed_ms: u64,
) -> bool {
    &&& r.task@ == task
    &&& r.success == success
    &&& r.stop_reason == stop_reason
    &&& r.steps == m.steps
    &&& r.decisions == m.decisions
    &&& r.actions == m.actions
    &&& r.actions_by_kind@ == m.actions_by_kind
    &&& r.runtime_ops == m.runtime_ops
    &&& r.input_actions == m.input_actions
    &&& r.gpu_readbacks == m.gpu_readbacks
    &&& r.images_sent == m.images_sent
    &&& r.visual_tokens == m.visual_tokens
    &&& r.decision_latency == latency_summary_spec(m.latencies_ms)
    &&& r.failures == m.failures
    &&& counts_view(r.failures_by_kind@) == m.failures_by_kind
    &&& r.recoveries == m.recoveries
    &&& r.elapsed_ms == elapsed_ms
}

impl Metrics {
    /// Snapshot the run.
    pub fn report(&self, task: &str, success: bool, stop_reason: StopReason, elapsed_ms: u64) -> (r:
        MetricsSnapshot)
        ensures
            is_report_of(r, self@, task@, success, stop_reason, elapsed_ms),
    {
        let mut by_kind: Vec<u32> = Vec::new();
        let mut i: usize = 0;
        while i < self.actions_by_kind.len()
            invariant
                i <= self.actions_by_kind.len(),
                by_kind@ == self.actions_by_kind@.take(i as int),
            decreases self.actions_by_kind.len() - i,
        {
            by_kind.push(self.actions_by_kind[i]);
            assert(self.actions_by_kind@.take(i + 1) =~= self.actions_by_kind@.take(i as int).push(
                self.actions_by_kind@[i as int],
            ));
            i += 1;
        }
        assert(self.actions_by_kind@.take(self.actions_by_kind.len() as int) =~= self.actions_by_kind@);
        let mut counts: Vec<(String, u32)> = Vec::new();
        let mut k: usize = 0;
        while k < self.failures_by_kind.len()
            invariant
                k <= self.failures_by_kind.len(),
                counts_view(counts@) == counts_view(self.failures_by_kind@).take(k as int),
            decreases self.failures_by_kind.len() - k,
        {
            let entry = (self.failures_by_kind[k].0.clone(), self.failures_by_kind[k].1);
            let ghost before = counts@;
            counts.push(entry);
            assert(counts_view(counts@) =~= counts_view(before).push((entry.0@, entry.1)));
            assert(counts_view(self.failures_by_kind@).take(k + 1) =~= counts_view(
                self.failures_by_kind@,
            ).take(k as int).push(counts_view(self.failures_by_kind@)[k as int]));
            k += 1;
        }
        assert(counts_view(self.failures_by_kind@).take(self.failures_by_kind.len() as int)
            =~= counts_view(self.failures_by_kind@));
        MetricsSnapshot {
            task: String::from_str(task),
            success,
            stop_reason,
            steps: self.steps,
            decisions: self.decisions,
            actions: self.actions,
            actions_by_kind: by_kind,
            runtime_ops: self.runtime_ops,
            input_actions: self.input_actions,
            gpu_readbacks: self.gpu_readbacks,
            images_sent: self.images_sent,
            visual_tokens: self.visual_tokens,
            decision_latency: latency_summary(&self.latencies_ms),
            failures: self.failures,
            failures_by_kind: counts,
            recoveries: self.recoveries,
            elapsed_ms,
        }
    }
}

} // verus!
