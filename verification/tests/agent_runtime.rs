use adesk::agent_error::{Error, ProviderError};
use adesk::agent_loop::{
    accessibility_follow_up, check_protocol, follow_up_outline, Execution, LoopConfig, LoopState, RunBudget,
    StepVerdict,
};
use adesk::decision::{describe_condition, ActionKind, AgentDecision, ObserveCondition};
use adesk::metrics::{estimate_visual_tokens, latency_summary, sort_latencies, Metrics, StopReason};
use adesk::model::{CoreError, ErrorCode, WindowId};
use adesk::provider::{
    dry_run_script, dummy_finish_summary, mock_next, mock_script, DummyChoice, DummyMode, DummyState, ScriptEntry,
    DEFAULT_SEED, DEFAULT_STEP_BUDGET,
};
use adesk::runtime::{EventKind, ImagePayload};
use adesk::scenario::ScenarioId;
use adesk::watch::{WaitVerdict, WatchConfig, WatchState, WatchStopReason};

#[test]
fn visual_tokens_follow_the_tile_formula() {
    assert_eq!(estimate_visual_tokens(0, 0), 85);
    assert_eq!(estimate_visual_tokens(512, 512), 85 + 170);
    assert_eq!(estimate_visual_tokens(513, 512), 85 + 170 * 2);
    assert_eq!(estimate_visual_tokens(1024, 768), 85 + 170 * 4);
    assert_eq!(estimate_visual_tokens(1280, 800), 85 + 170 * 6);
}

#[test]
fn latency_summaries_use_the_nearest_rank_p95() {
    let samples: Vec<u64> = (1..=20).rev().collect();
    assert_eq!(sort_latencies(&samples), (1..=20).collect::<Vec<u64>>());
    let summary = latency_summary(&samples);
    assert_eq!(summary.count, 20);
    assert_eq!(summary.min_ms, 1);
    assert_eq!(summary.sum_ms, 210);
    assert_eq!(summary.p95_ms, 19);

    let empty = latency_summary(&Vec::new());
    assert_eq!(empty.count, 0);
    assert_eq!(empty.sum_ms, 0);

    let one = latency_summary(&vec![42]);
    assert_eq!((one.count, one.min_ms, one.p95_ms), (1, 42, 42));
}

fn client(code: ErrorCode) -> Error {
    Error::Client(CoreError { code, message: "boom".into() })
}

#[test]
fn metrics_count_steps_actions_failures_and_recoveries() {
    let mut metrics = Metrics::new();
    metrics.record_step();
    metrics.record_decision(ActionKind::Click, 40);
    let image = ImagePayload { width: 1024, height: 768, data: "AAAA".into() };
    metrics.record_action(ActionKind::Click, true, Some(&image));
    metrics.record_step();
    metrics.record_decision(ActionKind::ListWindows, 10);
    metrics.record_failure(ActionKind::ListWindows, &client(ErrorCode::UnknownWindow));
    assert_eq!(metrics.consecutive_failures(), 1);
    metrics.record_success();
    assert_eq!(metrics.consecutive_failures(), 0);

    let report = metrics.report("explore", true, StopReason::Finished, 99);
    assert_eq!(report.task, "explore");
    assert!(report.success);
    assert_eq!(report.stop_reason, StopReason::Finished);
    assert_eq!(report.steps, 2);
    assert_eq!(report.decisions, 2);
    assert_eq!(report.actions, 1);
    assert_eq!(report.input_actions, 1);
    assert_eq!(report.runtime_ops, 0);
    assert_eq!(report.gpu_readbacks, 1);
    assert_eq!(report.failures, 1);
    assert_eq!(report.failures_by_kind, vec![("unknown_window".to_string(), 1)]);
    assert_eq!(report.recoveries, 1);
    assert_eq!(report.decision_latency.count, 2);
    assert_eq!(report.actions_by_kind[ActionKind::Click.index()], 1);
    assert_eq!(report.elapsed_ms, 99);
}

#[test]
fn the_run_budget_classifies_every_step() {
    let config = LoopConfig { max_steps: 5, max_consecutive_failures: 2, ..LoopConfig::default() };
    let mut budget = RunBudget::new(&config);
    assert_eq!(budget.next_step(), Some(0));

    assert_eq!(budget.after_step(None), (StepVerdict::Continue, false));
    assert_eq!(budget.steps, 1);

    let recoverable = client(ErrorCode::UnknownWindow);
    assert_eq!(budget.after_step(Some(&recoverable)), (StepVerdict::Continue, true));
    assert_eq!(budget.consecutive_failures, 1);

    let retryable = Error::Transport("socket closed".into());
    assert_eq!(budget.after_step(Some(&retryable)), (StepVerdict::FailureBudget, false));
    assert_eq!(budget.consecutive_failures, 2);
    assert_eq!(budget.failure_budget_summary(), "failure budget exhausted after 2 consecutive failures");

    let mut budget = RunBudget::new(&config);
    let fatal = Error::InvalidDecision("missing window_id".into());
    assert_eq!(budget.after_step(Some(&fatal)), (StepVerdict::Fatal, false));
    assert_eq!(budget.steps, 0, "a fatal step is not counted");

    let mut budget = RunBudget::new(&config);
    for _ in 0..5 {
        assert!(budget.next_step().is_some());
        budget.after_step(None);
    }
    assert_eq!(budget.next_step(), None);
    assert_eq!(budget.step_budget_summary(), "step budget exhausted after 5 steps");
}

#[test]
fn the_loop_defaults_are_documented() {
    let config = LoopConfig::default();
    assert_eq!(config.max_steps, 20);
    assert_eq!(config.step_timeout_ms, 30_000);
    assert_eq!(config.quiet_ms, 250);
    assert_eq!(config.max_consecutive_failures, 3);
    assert_eq!(config.retries_per_step, 2);
    assert!(!config.include_accessibility);
}

#[test]
fn watch_mode_stays_idle_wakes_and_stops_on_its_budgets() {
    let config = WatchConfig { max_wakeups: Some(2), max_idle_waits: Some(2), ..WatchConfig::default() };
    let mut state = WatchState::new(&config);
    let request = state.request(&config);
    assert_eq!(request.timeout_ms, 30_000);
    assert_eq!(request.kinds, Some(vec![EventKind::Notification, EventKind::NotificationAction]));
    assert_eq!(request.since_seq, None);

    assert_eq!(state.on_wait(true, 4, &config), WaitVerdict::StayIdle);
    assert_eq!(state.request(&config).since_seq, Some(4), "the filter point is threaded");
    assert_eq!(state.on_wait(false, 9, &config), WaitVerdict::Wake);
    assert_eq!(state.idle_waits, 0, "a wakeup resets the idle count");
    assert_eq!(state.after_wakeup(&config), None);
    assert_eq!(state.on_wait(false, 12, &config), WaitVerdict::Wake);
    assert_eq!(state.after_wakeup(&config), Some(WatchStopReason::WakeupBudget));

    let mut idle = WatchState::new(&config);
    assert_eq!(idle.on_wait(true, 1, &config), WaitVerdict::StayIdle);
    assert_eq!(idle.on_wait(true, 1, &config), WaitVerdict::IdleBudgetSpent);
}

#[test]
fn the_total_of_idle_waits_survives_a_wake() {
    let config = WatchConfig { max_wakeups: Some(1), max_idle_waits: None, ..WatchConfig::default() };
    let mut state = WatchState::new(&config);
    assert_eq!(state.on_wait(true, 12, &config), WaitVerdict::StayIdle);
    assert_eq!(state.on_wait(false, 13, &config), WaitVerdict::Wake);
    assert_eq!(state.idle_waits, 0);
    assert_eq!(state.total_idle_waits, 1);
    assert_eq!(state.after_wakeup(&config), Some(WatchStopReason::WakeupBudget));
    assert_eq!(state.total_idle_waits, 1);
}

#[test]
fn the_fixed_dummy_replays_its_script_then_finishes() {
    let mut state = DummyState::new(DEFAULT_SEED);
    assert_eq!(state.next(DummyMode::Fixed, 2, 12, DEFAULT_STEP_BUDGET, 0), DummyChoice::Script(0));
    assert_eq!(state.remaining(DummyMode::Fixed, 2, DEFAULT_STEP_BUDGET), 1);
    assert_eq!(state.next(DummyMode::Fixed, 2, 12, DEFAULT_STEP_BUDGET, 0), DummyChoice::Script(1));
    assert_eq!(state.next(DummyMode::Fixed, 2, 12, DEFAULT_STEP_BUDGET, 0), DummyChoice::ScriptExhausted);
    assert_eq!(
        dummy_finish_summary(&DummyChoice::ScriptExhausted, 2, DEFAULT_STEP_BUDGET),
        "dummy VLM: fixed script exhausted (2 decisions); finishing"
    );
}

#[test]
fn the_random_dummy_is_reproducible_and_bounded_by_its_budget() {
    let draw = |seed: u64| {
        let mut state = DummyState::new(seed);
        (0..12).map(|_| state.next(DummyMode::Random, 0, 12, 12, 0)).collect::<Vec<_>>()
    };
    assert_eq!(draw(42), draw(42));
    assert_ne!(draw(1), draw(2));

    let mut state = DummyState::new(7);
    let mut pooled = 0;
    loop {
        match state.next(DummyMode::Random, 0, 12, 3, 0) {
            DummyChoice::Pool(i) => {
                assert!(i < 12);
                pooled += 1;
            }
            DummyChoice::BudgetReached => break,
            other => panic!("unexpected {other:?}"),
        }
    }
    assert_eq!(pooled, 3);
    assert_eq!(
        dummy_finish_summary(&DummyChoice::BudgetReached, 0, 3),
        "dummy VLM: step budget (3) reached; finishing"
    );

    // A threshold above every draw finishes at once.
    let mut state = DummyState::new(7);
    assert_eq!(state.next(DummyMode::Random, 0, 12, 3, u64::MAX), DummyChoice::RandomFinish);
    let mut state = DummyState::new(7);
    assert_eq!(state.next(DummyMode::Random, 0, 0, 3, 0), DummyChoice::EmptyPool);
}

#[test]
fn the_mock_script_is_consumed_once_and_fails_loudly_when_exhausted() {
    let mut cursor = 0;
    assert_eq!(mock_next(&mut cursor, 2).unwrap(), 0);
    assert_eq!(mock_next(&mut cursor, 2).unwrap(), 1);
    match mock_next(&mut cursor, 2) {
        Err(ProviderError::InvalidResponse(m)) => assert_eq!(
            m,
            "mock provider script exhausted after 2 entries; add more ScriptEntry values or call reset()"
        ),
        other => panic!("expected an exhausted script, got {other:?}"),
    }
    assert_eq!(cursor, 2);

    let dry = dry_run_script();
    assert_eq!(dry.len(), 2);
    let failing = ScriptEntry::error(ProviderError::Timeout(5)).with_latency(3);
    assert_eq!(failing.latency_ms, 3);
    assert!(failing.error.is_some());
}

#[test]
fn scenario_ids_are_the_cli_names() {
    let names: Vec<&str> = ScenarioId::all().iter().map(ScenarioId::as_str).collect();
    assert_eq!(
        names,
        ["launch", "activate", "click", "type", "scroll", "dialog", "navigation", "error-recovery"]
    );
}

#[test]
fn conditions_are_described_compactly() {
    assert_eq!(describe_condition(ObserveCondition::Quiet { quiet_ms: 250 }), "quiet(250)");
    assert_eq!(describe_condition(ObserveCondition::Change), "change");
    assert_eq!(describe_condition(ObserveCondition::Timeout), "timeout");
}

#[test]
fn an_empty_mock_script_is_the_dry_run_and_any_other_is_kept() {
    let dry = mock_script(Vec::new());
    assert_eq!(dry.len(), 2);
    assert!(matches!(dry[0].decision, AgentDecision::ListWindows));
    match &dry[1].decision {
        AgentDecision::Finish { success, summary } => {
            assert!(*success);
            assert_eq!(summary, "dry run: mock provider has no script");
        }
        other => panic!("expected finish, got {other:?}"),
    }
    let kept = mock_script(vec![ScriptEntry::error(ProviderError::Timeout(5))]);
    assert_eq!(kept.len(), 1);
    assert!(matches!(kept[0].error, Some(ProviderError::Timeout(5))));
}

fn captured() -> (AgentDecision, Execution) {
    let decision = AgentDecision::Capture { window_id: WindowId(3), region: None, max_dimension: None };
    let mut execution = Execution::new();
    execution.image = Some(ImagePayload { width: 28, height: 28, data: "AAAA".to_string() });
    (decision, execution)
}

#[test]
fn a_text_only_provider_never_gets_the_pixels_a_capture_read_back() {
    let mut state = LoopState::new(LoopConfig::default());
    let (decision, execution) = captured();
    state.record_step(1, decision, execution, None, "capture".to_string(), 5, 9, false);
    assert_eq!(state.context.image_count(), 0);
    assert!(state.history[0].readback);
    let report = state.metrics.report("t", true, StopReason::Finished, 1);
    assert_eq!(report.gpu_readbacks, 1);
    assert_eq!(report.images_sent, 0);
    assert_eq!(report.visual_tokens, 0);

    let mut state = LoopState::new(LoopConfig::default());
    let (decision, execution) = captured();
    state.record_step(1, decision, execution, None, "capture".to_string(), 5, 9, true);
    assert_eq!(state.context.image_count(), 1);
    let report = state.metrics.report("t", true, StopReason::Finished, 1);
    assert_eq!(report.gpu_readbacks, 1);
    assert_eq!(report.images_sent, 1);
    assert_eq!(report.visual_tokens, estimate_visual_tokens(28, 28));
}

#[test]
fn a_runtime_speaking_another_protocol_version_is_refused() {
    assert!(check_protocol(1, 1).is_ok());
    match check_protocol(1, 2) {
        Err(Error::ProtocolVersion { expected, got }) => assert_eq!((expected, got), (1, 2)),
        other => panic!("expected a version mismatch, got {other:?}"),
    }
}

#[test]
fn an_observation_is_followed_by_an_outline_only_when_accessibility_is_included() {
    let off = LoopConfig::default();
    assert!(accessibility_follow_up(&off, Some(WindowId(1)), None).is_none());
    let on = LoopConfig { include_accessibility: true, ..LoopConfig::default() };
    let asked = accessibility_follow_up(&on, Some(WindowId(1)), Some(WindowId(2))).expect("an outline request");
    assert_eq!(asked.window_id, Some(WindowId(1)));
    assert_eq!(asked.max_nodes, None);
    let reported = accessibility_follow_up(&on, None, Some(WindowId(2))).expect("an outline request");
    assert_eq!(reported.window_id, Some(WindowId(2)));
    assert_eq!(follow_up_outline(Ok("frame \"A\"".to_string())), Some("frame \"A\"".to_string()));
    assert_eq!(follow_up_outline(Err(Error::Transport("gone".to_string()))), None);
}

#[test]
fn failure_kinds_are_reported_in_key_order() {
    let mut metrics = Metrics::new();
    metrics.record_failure(ActionKind::ListWindows, &Error::Transport("down".into()));
    metrics.record_failure(ActionKind::ListWindows, &client(ErrorCode::UnknownWindow));
    metrics.record_failure(ActionKind::ListWindows, &Error::StepTimeout { step: 1, timeout_ms: 5 });
    metrics.record_failure(ActionKind::ListWindows, &Error::Transport("down".into()));
    let report = metrics.report("t", false, StopReason::Finished, 1);
    assert_eq!(
        report.failures_by_kind,
        vec![("step_timeout".to_string(), 1), ("transport".to_string(), 2), ("unknown_window".to_string(), 1)]
    );
}

#[test]
fn two_random_dummies_with_one_seed_answer_alike_and_stay_within_their_budget() {
    let mut p = DummyState::new(99);
    let mut q = DummyState::new(99);
    let mut pooled = 0;
    for _ in 0..20 {
        let a = p.next(DummyMode::Random, 0, 12, 5, 0);
        let b = q.next(DummyMode::Random, 0, 12, 5, 0);
        assert_eq!(a, b);
        match a {
            DummyChoice::Pool(i) => {
                assert!(i < 12);
                pooled += 1;
                assert!(pooled <= 5);
            }
            other => {
                assert_eq!(pooled, 5, "with a zero threshold only the budget ends the run");
                assert_eq!(other, DummyChoice::BudgetReached);
            }
        }
    }
    let mut sure = DummyState::new(7);
    assert_eq!(sure.next(DummyMode::Random, 0, 12, 5, 1u64 << 53), DummyChoice::RandomFinish);
}
