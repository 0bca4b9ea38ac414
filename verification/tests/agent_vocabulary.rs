use std::collections::HashSet;

use adesk::agent_error::{Error, ErrorClass, ProviderError};
use adesk::decision::{ActionKind, AgentDecision, ObserveCondition};
use adesk::elide::truncate;
use adesk::model::{AccessibleId, ActionId, AppId, CoreError, ErrorCode, Rect, WindowId};
use adesk::provider::{
    decision_body,
    default_action_pool, non_empty, or_default, resolve_api_key, ImageDetail, ProviderKind, SplitMix64,
};
use adesk::runtime::{Button, Position};

#[test]
fn exact_fit_is_returned_unchanged() {
    assert_eq!(truncate("abc", 3, "..."), "abc");
    assert_eq!(truncate("abc", 5, "…"), "abc");
    assert_eq!(truncate("", 0, "…"), "");
    assert_eq!(truncate("日本語", 3, "..."), "日本語");
}

#[test]
fn multibyte_text_is_cut_on_char_boundaries() {
    assert_eq!(truncate("日本語です", 2, "…"), "日本…");
    assert_eq!(truncate("日本語です", 2, "..."), "日本...");
    assert_eq!(truncate("é😀", 1, ""), "é");
    assert_eq!(truncate("abc", 0, "..."), "...");
}

#[test]
fn max_zero_yields_exactly_the_marker() {
    assert_eq!(truncate("abc", 0, "…"), "…");
    assert_eq!(truncate("日本語", 0, ""), "");
    assert_eq!(truncate("", 0, "..."), "", "nothing was cut");
}

#[test]
fn marker_is_a_parameter() {
    for marker in ["", "...", "…", " [cut]"] {
        assert_eq!(truncate("abcdef", 3, marker), format!("abc{marker}"));
    }
}

#[test]
fn provider_kind_names_match_the_cli() {
    assert_eq!(ProviderKind::Mock.as_str(), "mock");
    assert_eq!(ProviderKind::OpenAi.as_str(), "openai");
    assert_eq!(ProviderKind::Dummy.as_str(), "dummy");
}

#[test]
fn the_image_detail_defaults_to_auto() {
    assert_eq!(ImageDetail::default(), ImageDetail::Auto);
}

#[test]
fn blank_values_are_absent_and_keys_resolve_in_order() {
    assert_eq!(non_empty(Some("  local-model  ")), Some("local-model".to_string()));
    assert_eq!(non_empty(Some("   ")), None);
    assert_eq!(non_empty(None), None);

    assert_eq!(resolve_api_key(Some(" sk-test "), Some("env"), None).unwrap(), "sk-test");
    assert_eq!(resolve_api_key(Some(" "), Some(" env "), Some("fallback")).unwrap(), "env");
    assert_eq!(resolve_api_key(None, None, Some("fallback")).unwrap(), "fallback");
    assert!(matches!(resolve_api_key(None, Some(""), Some("\t")), Err(ProviderError::MissingApiKey)));

    assert_eq!(or_default(Some("\t"), "gpt-4o-mini"), "gpt-4o-mini");
    assert_eq!(or_default(Some(" x "), "gpt-4o-mini"), "x");
    assert_eq!(or_default(None, "d"), "d");
}

fn window() -> WindowId {
    WindowId(7)
}

fn half() -> u64 {
    0.5f64.to_bits()
}

fn vocabulary() -> Vec<(AgentDecision, ActionKind)> {
    vec![
        (AgentDecision::ListApps { query: Some("fire".into()) }, ActionKind::ListApps),
        (AgentDecision::ListWindows, ActionKind::ListWindows),
        (AgentDecision::GetWindow { window_id: window() }, ActionKind::GetWindow),
        (
            AgentDecision::LaunchApp { app_id: AppId("org.example.app".into()), args: vec!["--flag".into()] },
            ActionKind::LaunchApp,
        ),
        (AgentDecision::ActivateWindow { window_id: window() }, ActionKind::ActivateWindow),
        (AgentDecision::CloseWindow { window_id: window() }, ActionKind::CloseWindow),
        (
            AgentDecision::Capture {
                window_id: window(),
                region: Some(Rect::new(0, 0, 10, 10)),
                max_dimension: Some(512),
            },
            ActionKind::Capture,
        ),
        (
            AgentDecision::Observe {
                window_id: Some(window()),
                after_action: Some(ActionId(3)),
                until: ObserveCondition::Quiet { quiet_ms: 250 },
                timeout_ms: Some(1_000),
                include_image: Some(false),
                max_dimension: None,
                region: None,
            },
            ActionKind::Observe,
        ),
        (AgentDecision::Wait { window_id: None, until: ObserveCondition::Change, timeout_ms: None }, ActionKind::Wait),
        (AgentDecision::AccessibilityTree { window_id: Some(window()), max_nodes: Some(2000) }, ActionKind::AccessibilityTree),
        (
            AgentDecision::FindAccessible {
                window_id: Some(window()),
                role: Some("push_button".into()),
                name: Some("Save".into()),
                name_contains: None,
                value_contains: None,
                max_results: Some(5),
            },
            ActionKind::FindAccessible,
        ),
        (
            AgentDecision::InvokeAccessibleAction { node_id: AccessibleId(3), action: Some("click".into()) },
            ActionKind::InvokeAccessibleAction,
        ),
        (
            AgentDecision::Click {
                window_id: window(),
                position: Position::Normalized { x_bits: half(), y_bits: half() },
                button: Button::Left,
                count: 1,
            },
            ActionKind::Click,
        ),
        (AgentDecision::Type { window_id: None, text: "hello".into() }, ActionKind::TypeText),
        (AgentDecision::Keypress { window_id: None, keys: vec!["CTRL".into(), "L".into()] }, ActionKind::Keypress),
        (
            AgentDecision::Scroll {
                window_id: window(),
                position: Position::pixels(10, 20),
                dx_bits: 0.0f64.to_bits(),
                dy_bits: (-3.0f64).to_bits(),
            },
            ActionKind::Scroll,
        ),
        (AgentDecision::Finish { success: true, summary: "done".into() }, ActionKind::Finish),
    ]
}

#[test]
fn kind_maps_every_variant() {
    let vocabulary = vocabulary();
    assert_eq!(vocabulary.len(), 17);
    for (decision, expected) in &vocabulary {
        assert_eq!(decision.kind(), *expected, "kind of {decision:?}");
    }
}

#[test]
fn input_and_runtime_are_disjoint_and_leave_finish_out() {
    for (decision, kind) in vocabulary() {
        let input = decision.is_input();
        let runtime = decision.is_runtime();
        assert!(!(input && runtime), "{decision:?} is both input and runtime");
        match kind {
            ActionKind::Click | ActionKind::TypeText | ActionKind::Keypress | ActionKind::Scroll => {
                assert!(input, "{decision:?} should be input")
            }
            ActionKind::Finish => assert!(!input && !runtime, "Finish is neither input nor runtime"),
            _ => assert!(runtime, "{decision:?} should be runtime-native"),
        }
    }
}

#[test]
fn action_kind_names_are_stable() {
    let mut names: Vec<&str> = vocabulary().into_iter().map(|(_, kind)| kind.as_str()).collect();
    names.sort_unstable();
    let unique = names.len();
    names.dedup();
    assert_eq!(names.len(), unique, "duplicate ActionKind::as_str names");

    assert_eq!(ActionKind::ListApps.as_str(), "list_apps");
    assert_eq!(ActionKind::Capture.as_str(), "capture_window");
    assert_eq!(ActionKind::AccessibilityTree.as_str(), "accessibility_tree");
    assert_eq!(ActionKind::FindAccessible.as_str(), "find_accessible");
    assert_eq!(ActionKind::InvokeAccessibleAction.as_str(), "invoke_accessible_action");
    assert_eq!(ActionKind::TypeText.as_str(), "type_text");
    assert_eq!(ActionKind::Finish.as_str(), "finish");
    for name in names {
        assert!(name.chars().all(|c| c.is_ascii_lowercase() || c == '_'), "{name} is not snake_case");
    }
}

#[test]
fn all_kinds_are_listed_in_index_order() {
    let all = ActionKind::all();
    assert_eq!(all.len(), 17);
    for (i, kind) in all.iter().enumerate() {
        assert_eq!(kind.index(), i);
    }
    assert_eq!(all[0].as_str(), "list_apps");
    assert_eq!(all[16].as_str(), "finish");
}

#[test]
fn every_kind_has_its_own_index() {
    let mut seen = HashSet::new();
    for (_, kind) in vocabulary() {
        assert!(kind.index() < 17);
        assert!(seen.insert(kind.index()));
    }
}

fn client(code: ErrorCode) -> Error {
    Error::Client(CoreError { code, message: "boom".into() })
}

#[test]
fn class_follows_the_documented_table() {
    let retryable = [
        client(ErrorCode::Timeout),
        client(ErrorCode::Busy),
        Error::Transport("socket closed".into()),
        Error::Io("disk".into()),
        Error::Provider(ProviderError::Transport("tls".into())),
        Error::Provider(ProviderError::Timeout(30_000)),
    ];
    for err in retryable {
        assert_eq!(err.class(), ErrorClass::Retryable, "{}", err.message());
    }

    let recoverable = [
        client(ErrorCode::UnknownWindow),
        client(ErrorCode::UnknownApp),
        client(ErrorCode::CaptureFailed),
        client(ErrorCode::RenderFailed),
    ];
    for err in recoverable {
        assert_eq!(err.class(), ErrorClass::Recoverable, "{}", err.message());
    }

    let fatal = [
        client(ErrorCode::InvalidRequest),
        client(ErrorCode::UnknownMethod),
        client(ErrorCode::LaunchFailed),
        client(ErrorCode::NotSupported),
        client(ErrorCode::Internal),
        client(ErrorCode::ShuttingDown),
        client(ErrorCode::ProtocolVersionMismatch),
        Error::Provider(ProviderError::MissingApiKey),
        Error::Provider(ProviderError::Status { status: 500, body: "oops".into() }),
        Error::Provider(ProviderError::InvalidResponse("not json".into())),
        Error::ProtocolVersion { expected: 1, got: 999 },
        Error::StepBudgetExhausted(20),
        Error::FailureBudgetExhausted(3),
        Error::StepTimeout { step: 2, timeout_ms: 30_000 },
        Error::InvalidDecision("missing window_id".into()),
        Error::Json("expected value at line 1 column 1".into()),
    ];
    for err in fatal {
        assert_eq!(err.class(), ErrorClass::Fatal, "{}", err.message());
    }
}

#[test]
fn kind_key_is_stable_per_error() {
    assert_eq!(client(ErrorCode::UnknownWindow).kind_key(), "unknown_window");
    assert_eq!(client(ErrorCode::Timeout).kind_key(), "timeout");
    assert_eq!(Error::Transport("x".into()).kind_key(), "transport");
    assert_eq!(Error::Provider(ProviderError::Timeout(1)).kind_key(), "provider_timeout");
    assert_eq!(Error::Provider(ProviderError::MissingApiKey).kind_key(), "provider_missing_api_key");
    assert_eq!(Error::ProtocolVersion { expected: 1, got: 2 }.kind_key(), "protocol_version_mismatch");
    for code in [
        ErrorCode::InvalidRequest,
        ErrorCode::UnknownMethod,
        ErrorCode::UnknownWindow,
        ErrorCode::UnknownApp,
        ErrorCode::LaunchFailed,
        ErrorCode::CaptureFailed,
        ErrorCode::RenderFailed,
        ErrorCode::Timeout,
        ErrorCode::NotSupported,
        ErrorCode::Busy,
        ErrorCode::Internal,
        ErrorCode::ShuttingDown,
        ErrorCode::ProtocolVersionMismatch,
    ] {
        assert_eq!(client(code).kind_key(), code.as_str());
    }
}

#[test]
fn default_pool_covers_the_decision_vocabulary() {
    let kinds: Vec<ActionKind> = default_action_pool().iter().map(AgentDecision::kind).collect();
    for expected in [
        ActionKind::ListApps,
        ActionKind::ListWindows,
        ActionKind::GetWindow,
        ActionKind::LaunchApp,
        ActionKind::ActivateWindow,
        ActionKind::Capture,
        ActionKind::Observe,
        ActionKind::Wait,
        ActionKind::Click,
        ActionKind::TypeText,
        ActionKind::Keypress,
        ActionKind::Scroll,
    ] {
        assert!(kinds.contains(&expected), "default pool is missing {expected:?}");
    }
    assert!(!kinds.contains(&ActionKind::Finish));
    assert!(!kinds.contains(&ActionKind::CloseWindow));
}

#[test]
fn prng_is_deterministic_and_bounded() {
    let mut first = SplitMix64::new(0);
    let mut second = SplitMix64::new(0);
    let mut seen = HashSet::new();
    for _ in 0..64 {
        let value = first.next_u64();
        assert_eq!(value, second.next_u64(), "same seed must match");
        seen.insert(value);
    }
    assert_eq!(seen.len(), 64, "the 64-bit stream must not repeat over 64 draws");

    let mut rng = SplitMix64::new(123);
    for _ in 0..1000 {
        assert!(rng.next_bounded(7) < 7);
        let unit = rng.next_unit_bits() as f64 / (1u64 << 53) as f64;
        assert!((0.0..1.0).contains(&unit), "unit interval, got {unit}");
    }
}

#[test]
fn splitmix_matches_its_reference_output() {
    // The first outputs of SplitMix64 seeded with 0.
    let mut rng = SplitMix64::new(0);
    assert_eq!(rng.next_u64(), 0xE220_A839_7B1D_CDAF);
    assert_eq!(rng.next_u64(), 0x6E78_9E6A_A1B9_65F4);
}

#[test]
fn a_model_answer_is_taken_out_of_its_json_fence() {
    assert_eq!(decision_body("```json\n{\"kind\":\"finish\"}\n```"), "{\"kind\":\"finish\"}");
    assert_eq!(decision_body("  ```\n{\"a\":1}\n```  "), "{\"a\":1}");
    assert_eq!(decision_body("\n{\"a\":1}\n"), "{\"a\":1}");
}

#[test]
fn an_unclosed_fence_is_left_as_it_is() {
    assert_eq!(decision_body("```json {\"a\":1}"), "```json {\"a\":1}");
    assert_eq!(decision_body("```"), "```");
    assert_eq!(decision_body("``````"), "");
    assert_eq!(decision_body("   "), "");
}
