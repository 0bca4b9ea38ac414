//! The providers' decision logic: which provider a name selects, the
//! deterministic dummy provider's script and random modes, the mock
//! provider's script replay, and the configuration values they resolve.

use vstd::prelude::*;

use crate::agent_error::ProviderError;
use crate::chars::{chars_of, string_of_range, trim, trimmed};
use crate::text_search::occurs_at;
use crate::decision::{AgentDecision, ObserveCondition};
use crate::fmt::{decimal, push_decimal};
use crate::model::{AppId, WindowId};
use crate::runtime::{Button, Position};

verus! {

/// How much image detail to request from an OpenAI-compatible endpoint.
#[derive(Debug, Clone, Copy, PartialEq, Eq, Structural)]
pub enum ImageDetail {
    /// Let the provider choose.
    Auto,
    /// Cheap 512px-budget processing.
    Low,
    /// Tiled high-detail processing (more visual tokens).
    High,
}

impl Default for ImageDetail {
    fn default() -> (d: ImageDetail)
        ensures
            d == ImageDetail::Auto,
    {
        ImageDetail::Auto
    }
}

/// Which provider implementation to build.
#[derive(Debug, Clone, Copy, PartialEq, Eq, Structural)]
pub enum ProviderKind {
    /// The scripted mock provider.
    Mock,
    /// An OpenAI-compatible HTTP endpoint.
    OpenAi,
    /// The synthetic dummy provider.
    Dummy,
}

/// The command-line name of a provider kind.
pub open spec fn provider_kind_name(k: ProviderKind) -> Seq<char> {
    match k {
        ProviderKind::Mock => "mock"@,
        ProviderKind::OpenAi => "openai"@,
        ProviderKind::Dummy => "dummy"@,
    }
}

impl ProviderKind {
    /// The command-line name.
    pub fn as_str(&self) -> (s: &'static str)
        ensures
            s@ == provider_kind_name(*self),
    {
        match self {
            ProviderKind::Mock => "mock",
            ProviderKind::OpenAi => "openai",
            ProviderKind::Dummy => "dummy",
        }
    }
}

/// `value` with surrounding white space removed, when anything is left.
pub open spec fn non_empty_spec(value: Option<Seq<char>>) -> Option<Seq<char>> {
    match value {
        Some(v) => if trimmed(v).len() > 0 { Some(trimmed(v)) } else { None },
        None => None,
    }
}

/// `value` trimmed, or `None` when it is absent or blank.
pub fn non_empty(value: Option<&str>) -> (r: Option<String>)
    ensures
        match r {
            Some(s) => non_empty_spec(match value {
                Some(v) => Some(v@),
                None => None,
            }) == Some(s@),
            None => non_empty_spec(match value {
                Some(v) => Some(v@),
                None => None,
            }) is None,
        },
{
    match value {
        Some(v) => {
            let t = trim(v);
            if t.as_str().unicode_len() > 0 {
                Some(t)
            } else {
                None
            }
        },
        None => None,
    }
}

/// The API key an OpenAI-compatible provider uses: the configured one, else
/// the primary environment variable, else the fallback one, each trimmed and
/// only when non-blank; a missing key is an error.
pub fn resolve_api_key(configured: Option<&str>, env_key: Option<&str>, env_fallback: Option<&str>) -> (r:
    Result<String, ProviderError>)
    ensures
        ({
            let c = non_empty_spec(match configured { Some(v) => Some(v@), None => None });
            let e = non_empty_spec(match env_key { Some(v) => Some(v@), None => None });
            let f = non_empty_spec(match env_fallback { Some(v) => Some(v@), None => None });
            match r {
                Ok(k) => Some(k@) == (if c is Some { c } else if e is Some { e } else { f }),
                Err(err) => c is None && e is None && f is None && err is MissingApiKey,
            }
        }),
{
    if let Some(k) = non_empty(configured) {
        return Ok(k);
    }
    if let Some(k) = non_empty(env_key) {
        return Ok(k);
    }
    if let Some(k) = non_empty(env_fallback) {
        return Ok(k);
    }
    Err(ProviderError::MissingApiKey)
}

/// `value` trimmed when non-blank, else `default`.
pub fn or_default(value: Option<&str>, default: &str) -> (r: String)
    ensures
        r@ == (match non_empty_spec(match value { Some(v) => Some(v@), None => None }) {
            Some(v) => v,
            None => default@,
        }),
{
    match non_empty(value) {
        Some(v) => v,
        None => String::from_str(default),
    }
}

/// The dummy provider's mode.
#[derive(Debug, Clone, Copy, PartialEq, Eq, Structural)]
pub enum DummyMode {
    /// Replay a fixed script in order.
    Fixed,
    /// Pick seeded random decisions from a pool (the default).
    Random,
}

impl Default for DummyMode {
    fn default() -> (m: DummyMode)
        ensures
            m == DummyMode::Random,
    {
        DummyMode::Random
    }
}

/// The dummy provider's default seed.
pub const DEFAULT_SEED: u64 = 0x5EED_5EED;

/// The dummy provider's default step budget in random mode.
pub const DEFAULT_STEP_BUDGET: u32 = 10;

/// The bit pattern of the `f64` value `0.5`.
pub const HALF_BITS: u64 = 0x3FE0_0000_0000_0000;

/// The bit pattern of the `f64` value `-3.0`.
pub const MINUS_THREE_BITS: u64 = 0xC008_0000_0000_0000;

/// Whether `p` is the dummy provider's default pool: one decision per
/// runtime and input operation except `close_window` and `finish`, aimed at
/// window 1 and its centre.
pub open spec fn is_default_action_pool(p: Seq<AgentDecision>) -> bool {
    &&& p.len() == 12
    &&& p[0] == (AgentDecision::ListApps { query: None })
    &&& p[1] == AgentDecision::ListWindows
    &&& p[2] == (AgentDecision::GetWindow { window_id: WindowId(1) })
    &&& (p[3] matches AgentDecision::LaunchApp { app_id, args } && app_id.0@ == "org.example.demo"@ && args@.len() == 0)
    &&& p[4] == (AgentDecision::ActivateWindow { window_id: WindowId(1) })
    &&& p[5] == (AgentDecision::Capture { window_id: WindowId(1), region: None, max_dimension: None })
    &&& p[6] == (AgentDecision::Observe {
            window_id: Some(WindowId(1)),
            after_action: None,
            until: ObserveCondition::Quiet { quiet_ms: 100 },
            timeout_ms: None,
            include_image: Some(false),
            max_dimension: None,
            region: None,
        })
    &&& p[7] == (AgentDecision::Wait { window_id: Some(WindowId(1)), until: ObserveCondition::Change, timeout_ms: None })
    &&& p[8] == (AgentDecision::Click {
            window_id: WindowId(1),
            position: Position::Normalized { x_bits: HALF_BITS, y_bits: HALF_BITS },
            button: Button::Left,
            count: 1,
        })
    &&& (p[9] matches AgentDecision::Type { window_id, text } && window_id == Some(WindowId(1)) && text@ == "hello"@)
    &&& (p[10] matches AgentDecision::Keypress { window_id, keys } && window_id == Some(WindowId(1))
            && keys@.len() == 1 && keys@[0]@ == "RETURN"@)
    &&& p[11] == (AgentDecision::Scroll {
            window_id: WindowId(1),
            position: Position::Normalized { x_bits: HALF_BITS, y_bits: HALF_BITS },
            dx_bits: 0,
            dy_bits: MINUS_THREE_BITS,
        })
}

/// The dummy provider's default pool: one decision per runtime and input
/// operation except `close_window` and `finish`, aimed at window 1 and its
/// centre.
pub fn default_action_pool() -> (pool: Vec<AgentDecision>)
    ensures
        is_default_action_pool(pool@),
{
    let window = WindowId(1);
    let center = Position::Normalized { x_bits: HALF_BITS, y_bits: HALF_BITS };
    let mut keys: Vec<String> = Vec::new();
    keys.push(String::from_str("RETURN"));
    let mut pool: Vec<AgentDecision> = Vec::new();
    pool.push(AgentDecision::ListApps { query: None });
    pool.push(AgentDecision::ListWindows);
    pool.push(AgentDecision::GetWindow { window_id: window });
    pool.push(AgentDecision::LaunchApp { app_id: AppId(String::from_str("org.example.demo")), args: Vec::new() });
    pool.push(AgentDecision::ActivateWindow { window_id: window });
    pool.push(AgentDecision::Capture { window_id: window, region: None, max_dimension: None });
    pool.push(
        AgentDecision::Observe {
            window_id: Some(window),
            after_action: None,
            until: ObserveCondition::Quiet { quiet_ms: 100 },
            timeout_ms: None,
            include_image: Some(false),
            max_dimension: None,
            region: None,
        },
    );
    pool.push(AgentDecision::Wait { window_id: Some(window), until: ObserveCondition::Change, timeout_ms: None });
    pool.push(AgentDecision::Click { window_id: window, position: center, button: Button::Left, count: 1 });
    pool.push(AgentDecision::Type { window_id: Some(window), text: String::from_str("hello") });
    pool.push(AgentDecision::Keypress { window_id: Some(window), keys });
    pool.push(AgentDecision::Scroll { window_id: window, position: center, dx_bits: 0, dy_bits: MINUS_THREE_BITS });
    pool
}

/// The SplitMix64 increment.
pub const GAMMA: u64 = 0x9E37_79B9_7F4A_7C15;

/// The first SplitMix64 multiplier.
pub const MIX1: u64 = 0xBF58_476D_1CE4_E5B9;

/// The second SplitMix64 multiplier.
pub const MIX2: u64 = 0x94D0_49BB_1331_11EB;

/// The SplitMix64 output function applied to a state.
pub open spec fn splitmix_output(state: u64) -> u64 {
    let z1 = vstd::wrapping::u64_specs::wrapping_mul(state ^ (state >> 30u64), MIX1);
    let z2 = vstd::wrapping::u64_specs::wrapping_mul(z1 ^ (z1 >> 27u64), MIX2);
    z2 ^ (z2 >> 31u64)
}

/// The next SplitMix64 state.
pub open spec fn splitmix_step(state: u64) -> u64 {
    vstd::wrapping::u64_specs::wrapping_add(state, GAMMA)
}

/// A SplitMix64 pseudo-random generator (deterministic for a seed).
#[derive(Debug, Clone, Copy, PartialEq, Eq, Structural)]
pub struct SplitMix64 {
    /// The generator state.
    pub state: u64,
}

impl SplitMix64 {
    /// A generator seeded with `seed`.
    pub fn new(seed: u64) -> (g: SplitMix64)
        ensures
            g.state == seed,
    {
        SplitMix64 { state: seed }
    }

    /// The next 64-bit output.
    pub fn next_u64(&mut self) -> (v: u64)
        ensures
            final(self).state == splitmix_step(old(self).state),
            v == splitmix_output(final(self).state),
    {
        self.state = self.state.wrapping_add(GAMMA);
        let mut z = self.state;
        z = (z ^ (z >> 30)).wrapping_mul(MIX1);
        z = (z ^ (z >> 27)).wrapping_mul(MIX2);
        z ^ (z >> 31)
    }

    /// The next output reduced below `bound`.
    pub fn next_bounded(&mut self, bound: usize) -> (v: usize)
        requires
            bound > 0,
        ensures
            final(self).state == splitmix_step(old(self).state),
            v == splitmix_output(final(self).state) % (bound as u64),
            v < bound,
    {
        let x = self.next_u64();
        (x % (bound as u64)) as usize
    }

    /// The next 53 random bits: the numerator of the next uniform draw in
    /// `[0, 1)` (the draw is this value divided by `2^53`).
    pub fn next_unit_bits(&mut self) -> (v: u64)
        ensures
            final(self).state == splitmix_step(old(self).state),
            v == splitmix_output(final(self).state) >> 11u64,
    {
        let x = self.next_u64();
        x >> 11
    }
}

/// The pool a random dummy draws from: `pool`, or the default pool when
/// `pool` is empty.
pub fn dummy_pool(pool: Vec<AgentDecision>) -> (r: Vec<AgentDecision>)
    ensures
        pool@.len() > 0 ==> r@ == pool@,
        pool@.len() == 0 ==> is_default_action_pool(r@),
{
    if pool.len() == 0 {
        default_action_pool()
    } else {
        pool
    }
}

/// What the dummy provider answers next.
#[derive(Debug, Clone, PartialEq, Eq, Structural)]
pub enum DummyChoice {
    /// The script entry at this index.
    Script(usize),
    /// The pool entry at this index.
    Pool(usize),
    /// Finish, because the fixed script is exhausted.
    ScriptExhausted,
    /// Finish, because the random step budget was reached.
    BudgetReached,
    /// Finish, by the random draw.
    RandomFinish,
    /// Finish, because the pool is empty.
    EmptyPool,
}

/// The dummy provider's replay state.
#[derive(Debug, Clone, Copy, PartialEq, Eq, Structural)]
pub struct DummyState {
    /// Next script index (fixed mode).
    pub cursor: usize,
    /// Decisions drawn (random mode).
    pub steps: u64,
    /// The generator.
    pub rng: SplitMix64,
}

/// The dummy provider's next answer and state: a fixed script is replayed in
/// order and then finishes; the random mode finishes once `step_budget`
/// decisions were drawn, or when the uniform draw falls below the finish
/// probability (`finish_threshold / 2^53`), and otherwise draws a pool entry.
pub open spec fn dummy_next_spec(
    mode: DummyMode,
    script_len: nat,
    pool_len: nat,
    step_budget: u32,
    finish_threshold: u64,
    s: DummyState,
) -> (DummyState, DummyChoice) {
    match mode {
        DummyMode::Fixed => if s.cursor < script_len {
            (DummyState { cursor: (s.cursor + 1) as usize, ..s }, DummyChoice::Script(s.cursor))
        } else {
            (s, DummyChoice::ScriptExhausted)
        },
        DummyMode::Random => if s.steps >= step_budget {
            (s, DummyChoice::BudgetReached)
        } else {
            let r1 = SplitMix64 { state: splitmix_step(s.rng.state) };
            let draw = splitmix_output(r1.state) >> 11u64;
            if draw < finish_threshold {
                (DummyState { rng: r1, ..s }, DummyChoice::RandomFinish)
            } else if pool_len == 0 {
                (DummyState { rng: r1, ..s }, DummyChoice::EmptyPool)
            } else {
                let r2 = SplitMix64 { state: splitmix_step(r1.state) };
                let index = (splitmix_output(r2.state) % (pool_len as u64)) as usize;
                (DummyState { rng: r2, steps: (s.steps + 1) as u64, ..s }, DummyChoice::Pool(index))
            }
        },
    }
}

impl DummyState {
    /// The state before the first answer.
    pub fn new(seed: u64) -> (s: DummyState)
        ensures
            s == (DummyState { cursor: 0, steps: 0, rng: SplitMix64 { state: seed } }),
    {
        DummyState { cursor: 0, steps: 0, rng: SplitMix64::new(seed) }
    }

    /// Advance to the next answer.
    pub fn next(
        &mut self,
        mode: DummyMode,
        script_len: usize,
        pool_len: usize,
        step_budget: u32,
        finish_threshold: u64,
    ) -> (c: DummyChoice)
        ensures
            (*final(self), c) == dummy_next_spec(
                mode,
                script_len as nat,
                pool_len as nat,
                step_budget,
                finish_threshold,
                *old(self),
            ),
    {
        match mode {
            DummyMode::Fixed => {
                if self.cursor < script_len {
                    let i = self.cursor;
                    self.cursor = self.cursor + 1;
                    DummyChoice::Script(i)
                } else {
                    DummyChoice::ScriptExhausted
                }
            },
            DummyMode::Random => {
                if self.steps >= step_budget as u64 {
                    return DummyChoice::BudgetReached;
                }
                let draw = self.rng.next_unit_bits();
                if draw < finish_threshold {
                    return DummyChoice::RandomFinish;
                }
                if pool_len == 0 {
                    return DummyChoice::EmptyPool;
                }
                let index = self.rng.next_bounded(pool_len);
                self.steps = self.steps + 1;
                DummyChoice::Pool(index)
            },
        }
    }

    /// Decisions left: script entries not yet replayed (fixed mode), or draws
    /// left in the step budget (random mode).
    pub fn remaining(&self, mode: DummyMode, script_len: usize, step_budget: u32) -> (n: u64)
        ensures
            n == (match mode {
                DummyMode::Fixed => if script_len > self.cursor { (script_len - self.cursor) as u64 } else { 0 },
                DummyMode::Random => if step_budget > self.steps { (step_budget - self.steps) as u64 } else { 0 },
            }),
    {
        match mode {
            DummyMode::Fixed => if script_len > self.cursor { (script_len - self.cursor) as u64 } else { 0 },
            DummyMode::Random => if step_budget as u64 > self.steps { step_budget as u64 - self.steps } else { 0 },
        }
    }
}

/// The random dummy mode never draws more than its step budget: in a
/// consistent state a draw only happens below the budget.
pub proof fn lemma_dummy_budget(pool_len: nat, step_budget: u32, finish_threshold: u64, s: DummyState)
    requires
        s.steps <= step_budget,
    ensures
        dummy_next_spec(DummyMode::Random, 0, pool_len, step_budget, finish_threshold, s).0.steps
            <= step_budget,
        dummy_next_spec(DummyMode::Random, 0, pool_len, step_budget, finish_threshold, s).1 matches DummyChoice::Pool(i)
            ==> pool_len > 0 && i < pool_len,
{
}

/// The answers of `n` successive calls from state `s`.
pub open spec fn dummy_run(
    mode: DummyMode,
    script_len: nat,
    pool_len: nat,
    step_budget: u32,
    finish_threshold: u64,
    s: DummyState,
    n: nat,
) -> Seq<DummyChoice>
    decreases n,
{
    if n == 0 {
        Seq::empty()
    } else {
        let (s1, c) = dummy_next_spec(mode, script_len, pool_len, step_budget, finish_threshold, s);
        seq![c] + dummy_run(mode, script_len, pool_len, step_budget, finish_threshold, s1, (n - 1) as nat)
    }
}

/// How many of `cs` are pool draws.
pub open spec fn pool_draws(cs: Seq<DummyChoice>) -> nat
    decreases cs.len(),
{
    if cs.len() == 0 {
        0
    } else {
        (if cs[0] is Pool { 1nat } else { 0nat }) + pool_draws(cs.drop_first())
    }
}

/// The random dummy, run for any number of calls from a state within its
/// budget (a fresh one included): every answer is a pool entry or a finish;
/// a pool answer names an entry of the pool; it draws at most the budget left,
/// and once the budget is spent every answer is the budget finish. With a zero
/// finish threshold (probability 0) and a non-empty pool the calls within the
/// budget all draw from the pool; with the threshold at `2^53` or above
/// (probability 1) the first answer is a finish. The run is a function of the
/// state, so two providers built with the same seed answer alike.
pub proof fn lemma_random_dummy_run(pool_len: nat, step_budget: u32, finish_threshold: u64, s: DummyState, n: nat)
    requires
        s.steps <= step_budget,
    ensures
        ({
            let run = dummy_run(DummyMode::Random, 0, pool_len, step_budget, finish_threshold, s, n);
            &&& run.len() == n
            &&& pool_draws(run) + s.steps <= step_budget
            &&& forall|k: int| 0 <= k < n ==> (#[trigger] run[k]) is Pool || run[k] == DummyChoice::BudgetReached
                || run[k] == DummyChoice::RandomFinish || run[k] == DummyChoice::EmptyPool
            &&& forall|k: int| 0 <= k < n ==> ((#[trigger] run[k]) matches DummyChoice::Pool(i) ==> i < pool_len)
            &&& forall|k: int| 0 <= k < n && pool_draws(run.take(k)) + s.steps >= step_budget
                ==> #[trigger] run[k] == DummyChoice::BudgetReached
            &&& (finish_threshold == 0 && pool_len > 0) ==> forall|k: int|
                0 <= k < n && k + s.steps < step_budget ==> (#[trigger] run[k]) is Pool
            &&& (finish_threshold >= 0x20_0000_0000_0000u64 && n > 0) ==> (run[0] == DummyChoice::RandomFinish
                || run[0] == DummyChoice::BudgetReached)
        }),
    decreases n,
{
    let run = dummy_run(DummyMode::Random, 0, pool_len, step_budget, finish_threshold, s, n);
    if n > 0 {
        let (s1, c) = dummy_next_spec(DummyMode::Random, 0, pool_len, step_budget, finish_threshold, s);
        lemma_dummy_budget(pool_len, step_budget, finish_threshold, s);
        lemma_random_dummy_run(pool_len, step_budget, finish_threshold, s1, (n - 1) as nat);
        let rest = dummy_run(DummyMode::Random, 0, pool_len, step_budget, finish_threshold, s1, (n - 1) as nat);
        assert(run == seq![c] + rest);
        assert(run.drop_first() =~= rest);
        assert(run[0] == c);
        assert(s1.steps == s.steps + (if c is Pool { 1int } else { 0int }));
        assert forall|k: int| 0 <= k < n implies (#[trigger] run[k]) is Pool || run[k] == DummyChoice::BudgetReached
            || run[k] == DummyChoice::RandomFinish || run[k] == DummyChoice::EmptyPool by {
            if k > 0 {
                assert(run[k] == rest[k - 1]);
            }
        }
        assert forall|k: int| 0 <= k < n implies ((#[trigger] run[k]) matches DummyChoice::Pool(i) ==> i < pool_len) by {
            if k > 0 {
                assert(run[k] == rest[k - 1]);
            }
        }
        assert forall|k: int| 0 <= k < n && pool_draws(run.take(k)) + s.steps >= step_budget
            implies #[trigger] run[k] == DummyChoice::BudgetReached by {
            if k > 0 {
                assert(run[k] == rest[k - 1]);
                assert(run.take(k).drop_first() =~= rest.take(k - 1));
                assert(run.take(k)[0] == c);
            } else {
                assert(run.take(0) =~= Seq::<DummyChoice>::empty());
            }
        }
        if finish_threshold == 0 && pool_len > 0 {
            assert forall|k: int| 0 <= k < n && k + s.steps < step_budget implies (#[trigger] run[k]) is Pool by {
                if k > 0 {
                    assert(run[k] == rest[k - 1]);
                }
            }
        }
        if finish_threshold >= 0x20_0000_0000_0000u64 && s.steps < step_budget {
            let x: u64 = splitmix_output(splitmix_step(s.rng.state));
            assert(x >> 11u64 < 0x20_0000_0000_0000u64) by (bit_vector);
        }
    }
}

/// The summary a dummy finish carries.
pub open spec fn dummy_finish_text(c: DummyChoice, script_len: nat, step_budget: u32) -> Seq<char> {
    match c {
        DummyChoice::ScriptExhausted => "dummy VLM: fixed script exhausted ("@ + decimal(script_len)
            + " decisions); finishing"@,
        DummyChoice::BudgetReached => "dummy VLM: step budget ("@ + decimal(step_budget as nat)
            + ") reached; finishing"@,
        DummyChoice::RandomFinish => "dummy VLM: random finish"@,
        _ => "dummy VLM: empty action pool; finishing"@,
    }
}

/// The summary a dummy finish carries.
pub fn dummy_finish_summary(c: &DummyChoice, script_len: usize, step_budget: u32) -> (s: String)
    ensures
        s@ == dummy_finish_text(*c, script_len as nat, step_budget),
{
    match c {
        DummyChoice::ScriptExhausted => {
            let mut s = String::from_str("dummy VLM: fixed script exhausted (");
            push_decimal(&mut s, script_len as u64);
            s.append(" decisions); finishing");
            s
        },
        DummyChoice::BudgetReached => {
            let mut s = String::from_str("dummy VLM: step budget (");
            push_decimal(&mut s, step_budget as u64);
            s.append(") reached; finishing");
            s
        },
        DummyChoice::RandomFinish => String::from_str("dummy VLM: random finish"),
        _ => String::from_str("dummy VLM: empty action pool; finishing"),
    }
}

/// One scripted mock-provider response.
#[derive(Debug, Clone)]
pub struct ScriptEntry {
    /// Decision to return.
    pub decision: AgentDecision,
    /// When set, the call fails with this error instead.
    pub error: Option<ProviderError>,
    /// Simulated decision latency.
    pub latency_ms: u64,
}

impl ScriptEntry {
    /// A scripted successful decision.
    pub fn decision(decision: AgentDecision) -> (e: ScriptEntry)
        ensures
            e.decision == decision,
            e.error is None,
            e.latency_ms == 0,
    {
        ScriptEntry { decision, error: None, latency_ms: 0 }
    }

    /// A scripted provider failure.
    pub fn error(error: ProviderError) -> (e: ScriptEntry)
        ensures
            e.decision matches AgentDecision::Finish { success, summary } && !success && summary@ == "provider error"@,
            e.error == Some(error),
            e.latency_ms == 0,
    {
        ScriptEntry {
            decision: AgentDecision::Finish { success: false, summary: String::from_str("provider error") },
            error: Some(error),
            latency_ms: 0,
        }
    }

    /// Attach a simulated latency.
    pub fn with_latency(self, latency_ms: u64) -> (e: ScriptEntry)
        ensures
            e.decision == self.decision,
            e.error == self.error,
            e.latency_ms == latency_ms,
    {
        ScriptEntry { latency_ms, ..self }
    }
}

/// Whether `s` is the built-in dry run: `list_windows`, then a successful
/// `finish`, neither failing nor delayed.
pub open spec fn is_dry_run_script(s: Seq<ScriptEntry>) -> bool {
    &&& s.len() == 2
    &&& s[0].decision == AgentDecision::ListWindows
    &&& s[0].error is None
    &&& s[0].latency_ms == 0
    &&& s[1].decision matches AgentDecision::Finish { success, summary } && success
        && summary@ == "dry run: mock provider has no script"@
    &&& s[1].error is None
    &&& s[1].latency_ms == 0
}

/// The built-in dry-run script used when no script is configured:
/// `list_windows`, then `finish`.
pub fn dry_run_script() -> (s: Vec<ScriptEntry>)
    ensures
        is_dry_run_script(s@),
{
    let mut s: Vec<ScriptEntry> = Vec::new();
    s.push(ScriptEntry::decision(AgentDecision::ListWindows));
    s.push(
        ScriptEntry::decision(
            AgentDecision::Finish {
                success: true,
                summary: String::from_str("dry run: mock provider has no script"),
            },
        ),
    );
    s
}

/// The script a mock provider replays: `script`, or the built-in dry run
/// when `script` is empty.
pub fn mock_script(script: Vec<ScriptEntry>) -> (s: Vec<ScriptEntry>)
    ensures
        script@.len() > 0 ==> s@ == script@,
        script@.len() == 0 ==> is_dry_run_script(s@),
{
    if script.len() == 0 {
        dry_run_script()
    } else {
        script
    }
}

/// The message of an exhausted mock script.
pub open spec fn exhausted_text(n: nat) -> Seq<char> {
    "mock provider script exhausted after "@ + decimal(n)
        + " entries; add more ScriptEntry values or call reset()"@
}

/// The mock provider's replay cursor: the next entry to answer with, or the
/// error an exhausted script answers (it never repeats an entry).
pub fn mock_next(cursor: &mut usize, script_len: usize) -> (r: Result<usize, ProviderError>)
    ensures
        *old(cursor) < script_len ==> r == Ok::<usize, ProviderError>(*old(cursor)) && *final(cursor) == *old(cursor) + 1,
        *old(cursor) >= script_len ==> *final(cursor) == *old(cursor) && (r matches Err(ProviderError::InvalidResponse(m))
            && m@ == exhausted_text(script_len as nat)),
{
    if *cursor < script_len {
        let i = *cursor;
        *cursor = *cursor + 1;
        Ok(i)
    } else {
        let mut m = String::from_str("mock provider script exhausted after ");
        push_decimal(&mut m, script_len as u64);
        m.append(" entries; add more ScriptEntry values or call reset()");
        Err(ProviderError::InvalidResponse(m))
    }
}

/// The opening of a fenced JSON block.
pub open spec fn json_fence() -> Seq<char> {
    seq!['`', '`', '`', 'j', 's', 'o', 'n']
}

/// A bare fence.
pub open spec fn fence() -> Seq<char> {
    seq!['`', '`', '`']
}

/// Where the body of a fenced block `t` starts: after a ```` ```json ````
/// opening, else after a bare fence; `-1` when `t` opens no fence.
pub open spec fn fence_body_start(t: Seq<char>) -> int {
    if occurs_at(t, json_fence(), 0) {
        7
    } else if occurs_at(t, fence(), 0) {
        3
    } else {
        -1
    }
}

/// The JSON a model answer carries: the answer without surrounding white
/// space, or, when that opens a fence (```` ```json ```` or a bare one) and
/// closes it, what stands between the two, without surrounding white space.
pub open spec fn decision_body_spec(content: Seq<char>) -> Seq<char> {
    let t = trimmed(content);
    let start = fence_body_start(t);
    if start >= 0 && t.len() - start >= 3 && occurs_at(t, fence(), t.len() - 3) {
        trimmed(t.subrange(start, t.len() - 3))
    } else {
        t
    }
}

/// Whether `p` occurs in `cs` at position `at`.
fn occurs_at_exec(cs: &Vec<char>, at: usize, p: &Vec<char>) -> (r: bool)
    ensures
        r == occurs_at(cs@, p@, at as int),
{
    if at > cs.len() || p.len() > cs.len() - at {
        return false;
    }
    let mut i: usize = 0;
    while i < p.len()
        invariant
            at + p.len() <= cs.len(),
            i <= p.len(),
            forall|j: int| 0 <= j < i ==> cs@[at + j] == p@[j],
        decreases p.len() - i,
    {
        if cs[at + i] != p[i] {
            assert(cs@.subrange(at as int, at + p.len())[i as int] != p@[i as int]);
            return false;
        }
        i += 1;
    }
    assert(cs@.subrange(at as int, at + p.len()) =~= p@);
    true
}

/// The JSON a model answer carries, with an optional ```` ```json ```` (or
/// bare) fence around it taken off.
pub fn decision_body(content: &str) -> (body: String)
    ensures
        body@ == decision_body_spec(content@),
{
    let t = trim(content);
    let cs = chars_of(t.as_str());
    let json_open = vec!['`', '`', '`', 'j', 's', 'o', 'n'];
    let bare = vec!['`', '`', '`'];
    assert(json_open@ =~= json_fence());
    assert(bare@ =~= fence());
    let start: usize = if occurs_at_exec(&cs, 0, &json_open) {
        7
    } else if occurs_at_exec(&cs, 0, &bare) {
        3
    } else {
        return t;
    };
    let n = cs.len();
    if n - start >= 3 && occurs_at_exec(&cs, n - 3, &bare) {
        let inner = string_of_range(&cs, start, n - 3);
        trim(inner.as_str())
    } else {
        t
    }
}

} // verus!
