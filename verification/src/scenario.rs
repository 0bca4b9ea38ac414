//! Task scenarios: an id, a replay script, a step budget and the expectations
//! a finished run is checked against.

use vstd::prelude::*;

use crate::agent_loop::{LoopConfig, LoopOutcome, StepStatus};
use crate::context::TaskDescription;
use crate::decision::{action_kind_index, ActionKind};
use crate::fmt::push_decimal;
use crate::metrics::StopReason;
use crate::provider::ScriptEntry;

verus! {

/// Identifier of a built-in scenario.
#[derive(Debug, Clone, Copy, PartialEq, Eq, Hash, Structural)]
pub enum ScenarioId {
    /// Launch an application and wait for its window.
    Launch,
    /// Activate a window among several.
    Activate,
    /// Click at a normalized position and observe quiet.
    Click,
    /// Type into the focused window.
    Type,
    /// Scroll with the pointer axis.
    Scroll,
    /// Handle a popup dialog.
    Dialog,
    /// Navigate across pages.
    Navigation,
    /// Recover from an injected unknown window.
    ErrorRecovery,
}

/// The command-line name of a scenario.
pub open spec fn scenario_name(id: ScenarioId) -> Seq<char> {
    match id {
        ScenarioId::Launch => "launch"@,
        ScenarioId::Activate => "activate"@,
        ScenarioId::Click => "click"@,
        ScenarioId::Type => "type"@,
        ScenarioId::Scroll => "scroll"@,
        ScenarioId::Dialog => "dialog"@,
        ScenarioId::Navigation => "navigation"@,
        ScenarioId::ErrorRecovery => "error-recovery"@,
    }
}

impl ScenarioId {
    /// The command-line name.
    pub fn as_str(&self) -> (s: &'static str)
        ensures
            s@ == scenario_name(*self),
    {
        match self {
            ScenarioId::Launch => "launch",
            ScenarioId::Activate => "activate",
            ScenarioId::Click => "click",
            ScenarioId::Type => "type",
            ScenarioId::Scroll => "scroll",
            ScenarioId::Dialog => "dialog",
            ScenarioId::Navigation => "navigation",
            ScenarioId::ErrorRecovery => "error-recovery",
        }
    }

    /// Every built-in scenario, in documentation order.
    pub fn all() -> (v: Vec<ScenarioId>)
        ensures
            v@ == seq![
                ScenarioId::Launch,
                ScenarioId::Activate,
                ScenarioId::Click,
                ScenarioId::Type,
                ScenarioId::Scroll,
                ScenarioId::Dialog,
                ScenarioId::Navigation,
                ScenarioId::ErrorRecovery,
            ],
    {
        let mut v: Vec<ScenarioId> = Vec::new();
        v.push(ScenarioId::Launch);
        v.push(ScenarioId::Activate);
        v.push(ScenarioId::Click);
        v.push(ScenarioId::Type);
        v.push(ScenarioId::Scroll);
        v.push(ScenarioId::Dialog);
        v.push(ScenarioId::Navigation);
        v.push(ScenarioId::ErrorRecovery);
        v
    }
}

/// One post-run expectation.
#[derive(Debug, Clone, Copy, PartialEq, Eq, Structural)]
pub enum Expectation {
    /// The loop stopped with `Finished` and the given success flag.
    Finished {
        /// Expected success flag.
        success: bool,
    },
    /// The run used at most this many steps.
    MaxSteps(u32),
    /// The run performed at most this many GPU readbacks.
    MaxReadbacks(u32),
    /// The run sent at most this many estimated visual tokens.
    MaxVisualTokens(u64),
    /// No step ended failed.
    NoFailedSteps,
    /// At least one action of this kind was executed.
    ActionSeen(ActionKind),
    /// At least `count` actions of `kind` were executed.
    MinActions {
        /// Action kind.
        kind: ActionKind,
        /// Minimum count.
        count: u32,
    },
}

/// Result of checking one expectation.
#[derive(Debug, Clone)]
pub struct ExpectationResult {
    /// The expectation that was checked.
    pub expectation: Expectation,
    /// Whether it held.
    pub passed: bool,
    /// Observed value.
    pub detail: String,
}

/// A task scenario.
#[derive(Debug)]
pub struct Scenario {
    /// Identifier.
    pub id: ScenarioId,
    /// Display name.
    pub name: String,
    /// What the scenario exercises.
    pub description: String,
    /// The task handed to the agent.
    pub task: TaskDescription,
    /// Replay script for the mock provider.
    pub script: Vec<ScriptEntry>,
    /// Expectations checked after the run.
    pub expectations: Vec<Expectation>,
    /// The scenario's own step budget.
    pub max_steps: u32,
}

/// Runs scenarios with a fixed loop configuration.
#[derive(Debug, Clone, Copy, PartialEq, Eq, Structural)]
pub struct ScenarioRunner {
    config: LoopConfig,
}

impl ScenarioRunner {
    /// A runner with the given loop configuration.
    pub fn new(config: LoopConfig) -> (r: ScenarioRunner)
        ensures
            r.spec_config() == config,
    {
        ScenarioRunner { config }
    }

    /// The loop configuration used for every run.
    pub fn config(&self) -> (c: &LoopConfig)
        ensures
            *c == self.spec_config(),
    {
        &self.config
    }

    /// The runner's configuration.
    pub closed spec fn spec_config(&self) -> LoopConfig {
        self.config
    }
}

/// The step budget a runner applies to a scenario: the smaller of the two.
pub fn effective_max_steps(runner: &ScenarioRunner, scenario: &Scenario) -> (n: u32)
    ensures
        n == (if runner.spec_config().max_steps <= scenario.max_steps {
            runner.spec_config().max_steps
        } else {
            scenario.max_steps
        }),
{
    if runner.config.max_steps <= scenario.max_steps {
        runner.config.max_steps
    } else {
        scenario.max_steps
    }
}

/// Whether any recorded step failed.
pub open spec fn any_failed(statuses: Seq<StepStatus>) -> bool {
    exists|k: int| 0 <= k < statuses.len() && statuses[k] == StepStatus::Failed
}

/// The count recorded for `kind` (zero when the counts are short).
pub open spec fn kind_count(by_kind: Seq<u32>, kind: ActionKind) -> u32 {
    if action_kind_index(kind) < by_kind.len() { by_kind[action_kind_index(kind) as int] } else { 0 }
}

/// Whether an expectation holds of a run.
pub open spec fn expectation_holds(e: Expectation, o: LoopOutcome) -> bool {
    match e {
        Expectation::Finished { success } => o.stop_reason == StopReason::Finished && o.success == success,
        Expectation::MaxSteps(n) => o.steps <= n,
        Expectation::MaxReadbacks(n) => o.metrics.gpu_readbacks <= n,
        Expectation::MaxVisualTokens(t) => o.metrics.visual_tokens <= t,
        Expectation::NoFailedSteps => !any_failed(o.history@.map_values(|s: crate::agent_loop::StepRecord| s.status)),
        Expectation::ActionSeen(kind) => kind_count(o.metrics.actions_by_kind@, kind) >= 1,
        Expectation::MinActions { kind, count } => kind_count(o.metrics.actions_by_kind@, kind) >= count,
    }
}

/// The count recorded for `kind`.
fn count_of(by_kind: &Vec<u32>, kind: ActionKind) -> (n: u32)
    ensures
        n == kind_count(by_kind@, kind),
{
    let i = kind.index();
    if i < by_kind.len() { by_kind[i] } else { 0 }
}

/// Check one expectation against a finished run; the detail names the
/// observed value.
pub fn check(e: Expectation, outcome: &LoopOutcome) -> (r: ExpectationResult)
    ensures
        r.expectation == e,
        r.passed == expectation_holds(e, *outcome),
{
    let mut detail = String::from_str("observed ");
    let passed = match e {
        Expectation::Finished { success } => {
            detail.append(if outcome.success { "success=true" } else { "success=false" });
            matches!(outcome.stop_reason, StopReason::Finished) && outcome.success == success
        },
        Expectation::MaxSteps(n) => {
            push_decimal(&mut detail, outcome.steps as u64);
            detail.append(" steps");
            outcome.steps <= n
        },
        Expectation::MaxReadbacks(n) => {
            push_decimal(&mut detail, outcome.metrics.gpu_readbacks as u64);
            detail.append(" readbacks");
            outcome.metrics.gpu_readbacks <= n
        },
        Expectation::MaxVisualTokens(t) => {
            push_decimal(&mut detail, outcome.metrics.visual_tokens);
            detail.append(" visual tokens");
            outcome.metrics.visual_tokens <= t
        },
        Expectation::NoFailedSteps => {
            let ghost statuses = outcome.history@.map_values(|s: crate::agent_loop::StepRecord| s.status);
            let mut failed: u64 = 0;
            let mut k: usize = 0;
            while k < outcome.history.len()
                invariant
                    k <= outcome.history.len(),
                    statuses == outcome.history@.map_values(|s: crate::agent_loop::StepRecord| s.status),
                    (failed > 0) == (exists|j: int| 0 <= j < k && statuses[j] == StepStatus::Failed),
                    failed <= k,
                decreases outcome.history.len() - k,
            {
                if let StepStatus::Failed = outcome.history[k].status {
                    assert(statuses[k as int] == StepStatus::Failed);
                    failed = failed + 1;
                }
                k += 1;
            }
            push_decimal(&mut detail, failed);
            detail.append(" failed steps");
            failed == 0
        },
        Expectation::ActionSeen(kind) => {
            let n = count_of(&outcome.metrics.actions_by_kind, kind);
            push_decimal(&mut detail, n as u64);
            detail.append(" actions of that kind");
            n >= 1
        },
        Expectation::MinActions { kind, count } => {
            let n = count_of(&outcome.metrics.actions_by_kind, kind);
            push_decimal(&mut detail, n as u64);
            detail.append(" actions of that kind");
            n >= count
        },
    };
    ExpectationResult { expectation: e, passed, detail }
}

/// Check every expectation of `scenario` against a finished run, in order.
pub fn evaluate(scenario: &Scenario, outcome: &LoopOutcome) -> (r: Vec<ExpectationResult>)
    ensures
        r@.len() == scenario.expectations@.len(),
        forall|k: int|
            0 <= k < r@.len() ==> (#[trigger] r@[k]).expectation == scenario.expectations@[k]
                && r@[k].passed == expectation_holds(scenario.expectations@[k], *outcome),
{
    let mut r: Vec<ExpectationResult> = Vec::new();
    let mut k: usize = 0;
    while k < scenario.expectations.len()
        invariant
            k <= scenario.expectations.len(),
            r@.len() == k,
            forall|j: int|
                0 <= j < k ==> (#[trigger] r@[j]).expectation == scenario.expectations@[j]
                    && r@[j].passed == expectation_holds(scenario.expectations@[j], *outcome),
        decreases scenario.expectations.len() - k,
    {
        r.push(check(scenario.expectations[k], outcome));
        k += 1;
    }
    r
}

} // verus!
