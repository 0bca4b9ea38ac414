//! The agent loop's decisions: which AGP call a decision makes, how a step is
//! recorded, when a failed call is retried, when a run stops, and how an idle
//! watch wakes. The calls themselves are made by the loop's driver.

use vstd::prelude::*;

use crate::agent_error::{error_class, error_message, Error, ErrorClass};
use crate::context::{within_budget, ActionRecord, ContextBudget, ContextBuilder};
use crate::decision::{
    condition_text, decision_kind, decision_window_spec, describe_condition, ActionKind,
    AgentDecision, ObserveCondition,
};
use crate::elide::{truncate, truncated};
use crate::fmt::{decimal, push_decimal, push_signed_decimal, signed_decimal};
use crate::metrics::{metrics_wf, Metrics, MetricsView, StopReason};
use crate::model::{ActionId, AppId, Rect, WindowId};
use crate::requests::{
    AccessibilityTreeRequest, CaptureRequest, ClickRequest, FindAccessibleRequest,
    InvokeAccessibleActionRequest, ObserveRequest, ScrollRequest,
};
use crate::runtime::{Button, ImagePayload, Observation, Point, Position, WindowInfo};

verus! {

/// Loop tuning knobs.
#[derive(Debug, Clone, Copy, PartialEq, Eq, Structural)]
pub struct LoopConfig {
    /// Maximum loop iterations before giving up.
    pub max_steps: u32,
    /// Deadline for a single provider call or client call.
    pub step_timeout_ms: u64,
    /// Whether to observe `quiet` automatically after seat input.
    pub observe_after_input: bool,
    /// Quiet period used by the automatic observation.
    pub quiet_ms: u64,
    /// Deadline for observations.
    pub observe_timeout_ms: u64,
    /// Default image policy: attach one image per context.
    pub include_image: bool,
    /// Default downscale target for attached images.
    pub capture_max_dimension: Option<u32>,
    /// Consecutive failed steps tolerated before stopping.
    pub max_consecutive_failures: u32,
    /// Retries of the same step for retryable errors.
    pub retries_per_step: u32,
    /// Backoff between retries.
    pub retry_backoff_ms: u64,
    /// Validate the runtime's AGP version via `ping` before the first step.
    pub validate_protocol_version: bool,
    /// Whether the accessibility operations reach the runtime.
    pub include_accessibility: bool,
    /// Context caps.
    pub context_budget: ContextBudget,
}

impl Default for LoopConfig {
    fn default() -> (c: LoopConfig)
        ensures
            c.max_steps == 20,
            c.step_timeout_ms == 30_000,
            c.observe_after_input,
            c.quiet_ms == 250,
            c.observe_timeout_ms == 5_000,
            c.include_image,
            c.capture_max_dimension == Some(1024u32),
            c.max_consecutive_failures == 3,
            c.retries_per_step == 2,
            c.retry_backoff_ms == 200,
            c.validate_protocol_version,
            !c.include_accessibility,
            c.context_budget == (ContextBudget {
                max_actions: 8,
                max_events: 16,
                max_windows: 8,
                max_apps: 12,
                max_changed_regions: 4,
                max_images: 2,
                max_detail_chars: 160,
                max_dimension: Some(1024),
            }),
    {
        LoopConfig {
            max_steps: 20,
            step_timeout_ms: 30_000,
            observe_after_input: true,
            quiet_ms: 250,
            observe_timeout_ms: 5_000,
            include_image: true,
            capture_max_dimension: Some(1024),
            max_consecutive_failures: 3,
            retries_per_step: 2,
            retry_backoff_ms: 200,
            validate_protocol_version: true,
            include_accessibility: false,
            context_budget: ContextBudget::default(),
        }
    }
}

/// Outcome of one loop iteration.
#[derive(Debug, Clone, Copy, PartialEq, Eq, Structural)]
pub enum StepStatus {
    /// Decision executed and observed without error (`ok` on the wire).
    Succeeded,
    /// The step failed at least once but ultimately succeeded.
    Recovered,
    /// The step failed; the loop applied its recovery policy.
    Failed,
    /// The decision was `Finish`.
    Finished,
}

/// One AGP call a decision makes.
#[derive(Debug)]
pub enum AgpCall {
    /// `list_apps`.
    ListApps {
        /// Optional substring filter.
        query: Option<String>,
    },
    /// `list_windows`.
    ListWindows,
    /// `get_window`.
    GetWindow(WindowId),
    /// `launch_app`.
    LaunchApp {
        /// Desktop-file id.
        app_id: AppId,
        /// Extra argv entries.
        args: Vec<String>,
    },
    /// `activate_window`.
    ActivateWindow(WindowId),
    /// `close_window`.
    CloseWindow(WindowId),
    /// `capture_window`.
    Capture(CaptureRequest),
    /// `observe`.
    Observe(ObserveRequest),
    /// `accessibility_tree`.
    AccessibilityTree(AccessibilityTreeRequest),
    /// `find_accessible`.
    FindAccessible(FindAccessibleRequest),
    /// `invoke_accessible_action`.
    InvokeAccessibleAction(InvokeAccessibleActionRequest),
    /// `click`.
    Click(ClickRequest),
    /// `type_text`.
    TypeText {
        /// Text to type.
        text: String,
        /// Window to focus first.
        window_id: Option<WindowId>,
    },
    /// `keypress`.
    Keypress {
        /// Keysym-style names.
        keys: Vec<String>,
        /// Window to focus first.
        window_id: Option<WindowId>,
    },
    /// `scroll`.
    Scroll(ScrollRequest),
}

/// Whether pixels may cross to the provider: the requested policy (the loop's
/// default when the decision names none) and the provider's capability.
pub open spec fn image_policy_spec(config: LoopConfig, requested: Option<bool>, supports_images: bool) -> bool {
    (match requested {
        Some(b) => b,
        None => config.include_image,
    }) && supports_images
}

/// Whether pixels may cross to the provider.
pub fn image_policy(config: &LoopConfig, requested: Option<bool>, supports_images: bool) -> (b: bool)
    ensures
        b == image_policy_spec(*config, requested, supports_images),
{
    let wanted = match requested {
        Some(b) => b,
        None => config.include_image,
    };
    wanted && supports_images
}

/// `o`, or `d` when `o` is `None`.
pub open spec fn or_else<T>(o: Option<T>, d: Option<T>) -> Option<T> {
    match o {
        Some(x) => Some(x),
        None => d,
    }
}

/// The AGP call a decision makes (`None` when it makes none: an
/// accessibility operation with the accessibility gate off). `Finish` is not
/// executed and is rejected by the planner.
pub open spec fn plan_spec(
    d: AgentDecision,
    config: LoopConfig,
    last_action_id: Option<ActionId>,
    supports_images: bool,
) -> Option<AgpCall> {
    match d {
        AgentDecision::ListApps { query } => Some(AgpCall::ListApps { query }),
        AgentDecision::ListWindows => Some(AgpCall::ListWindows),
        AgentDecision::GetWindow { window_id } => Some(AgpCall::GetWindow(window_id)),
        AgentDecision::LaunchApp { app_id, args } => Some(AgpCall::LaunchApp { app_id, args }),
        AgentDecision::ActivateWindow { window_id } => Some(AgpCall::ActivateWindow(window_id)),
        AgentDecision::CloseWindow { window_id } => Some(AgpCall::CloseWindow(window_id)),
        AgentDecision::Capture { window_id, region, max_dimension } => Some(
            AgpCall::Capture(
                CaptureRequest {
                    window_id,
                    region,
                    max_dimension: or_else(max_dimension, config.capture_max_dimension),
                },
            ),
        ),
        AgentDecision::Observe {
            window_id,
            after_action,
            until,
            timeout_ms,
            include_image,
            max_dimension,
            region,
        } => Some(
            AgpCall::Observe(
                ObserveRequest {
                    window_id,
                    after_action: or_else(after_action, last_action_id),
                    until,
                    timeout_ms: match timeout_ms {
                        Some(t) => t,
                        None => config.observe_timeout_ms,
                    },
                    include_image: image_policy_spec(config, include_image, supports_images),
                    max_dimension: or_else(max_dimension, config.capture_max_dimension),
                    region,
                },
            ),
        ),
        AgentDecision::Wait { window_id, until, timeout_ms } => Some(
            AgpCall::Observe(
                ObserveRequest {
                    window_id,
                    after_action: last_action_id,
                    until,
                    timeout_ms: match timeout_ms {
                        Some(t) => t,
                        None => config.observe_timeout_ms,
                    },
                    include_image: false,
                    max_dimension: None,
                    region: None,
                },
            ),
        ),
        AgentDecision::AccessibilityTree { window_id, max_nodes } => if config.include_accessibility {
            Some(AgpCall::AccessibilityTree(AccessibilityTreeRequest { window_id, max_nodes }))
        } else {
            None
        },
        AgentDecision::FindAccessible {
            window_id,
            role,
            name,
            name_contains,
            value_contains,
            max_results,
        } => if config.include_accessibility {
            Some(
                AgpCall::FindAccessible(
                    FindAccessibleRequest {
                        window_id,
                        role,
                        name,
                        name_contains,
                        value_contains,
                        max_results,
                    },
                ),
            )
        } else {
            None
        },
        AgentDecision::InvokeAccessibleAction { node_id, action } => if config.include_accessibility {
            Some(AgpCall::InvokeAccessibleAction(InvokeAccessibleActionRequest { node_id, action }))
        } else {
            None
        },
        AgentDecision::Click { window_id, position, button, count } => Some(
            AgpCall::Click(ClickRequest { window_id, position, button, count }),
        ),
        AgentDecision::Type { window_id, text } => Some(AgpCall::TypeText { text, window_id }),
        AgentDecision::Keypress { window_id, keys } => Some(AgpCall::Keypress { keys, window_id }),
        AgentDecision::Scroll { window_id, position, dx_bits, dy_bits } => Some(
            AgpCall::Scroll(ScrollRequest { window_id, position, dx_bits, dy_bits }),
        ),
        AgentDecision::Finish { .. } => None,
    }
}

/// The AGP call executing `decision` makes; `Finish` is handled by the loop
/// and never executed, so it is an invalid decision here.
pub fn plan_call(
    decision: AgentDecision,
    config: &LoopConfig,
    last_action_id: Option<ActionId>,
    supports_images: bool,
) -> (r: Result<Option<AgpCall>, Error>)
    ensures
        decision is Finish ==> (r matches Err(Error::InvalidDecision(m)) && m@
            == "finish is handled by the loop, never executed"@),
        !(decision is Finish) ==> r == Ok::<Option<AgpCall>, Error>(
            plan_spec(decision, *config, last_action_id, supports_images),
        ),
{
    let call = match decision {
        AgentDecision::ListApps { query } => AgpCall::ListApps { query },
        AgentDecision::ListWindows => AgpCall::ListWindows,
        AgentDecision::GetWindow { window_id } => AgpCall::GetWindow(window_id),
        AgentDecision::LaunchApp { app_id, args } => AgpCall::LaunchApp { app_id, args },
        AgentDecision::ActivateWindow { window_id } => AgpCall::ActivateWindow(window_id),
        AgentDecision::CloseWindow { window_id } => AgpCall::CloseWindow(window_id),
        AgentDecision::Capture { window_id, region, max_dimension } => AgpCall::Capture(
            CaptureRequest {
                window_id,
                region,
                max_dimension: match max_dimension {
                    Some(m) => Some(m),
                    None => config.capture_max_dimension,
                },
            },
        ),
        AgentDecision::Observe {
            window_id,
            after_action,
            until,
            timeout_ms,
            include_image,
            max_dimension,
            region,
        } => AgpCall::Observe(
            ObserveRequest {
                window_id,
                after_action: match after_action {
                    Some(a) => Some(a),
                    None => last_action_id,
                },
                until,
                timeout_ms: match timeout_ms {
                    Some(t) => t,
                    None => config.observe_timeout_ms,
                },
                include_image: image_policy(config, include_image, supports_images),
                max_dimension: match max_dimension {
                    Some(m) => Some(m),
                    None => config.capture_max_dimension,
                },
                region,
            },
        ),
        AgentDecision::Wait { window_id, until, timeout_ms } => AgpCall::Observe(
            ObserveRequest {
                window_id,
                after_action: last_action_id,
                until,
                timeout_ms: match timeout_ms {
                    Some(t) => t,
                    None => config.observe_timeout_ms,
                },
                include_image: false,
                max_dimension: None,
                region: None,
            },
        ),
        AgentDecision::AccessibilityTree { window_id, max_nodes } => {
            if !config.include_accessibility {
                return Ok(None);
            }
            AgpCall::AccessibilityTree(AccessibilityTreeRequest { window_id, max_nodes })
        },
        AgentDecision::FindAccessible {
            window_id,
            role,
            name,
            name_contains,
            value_contains,
            max_results,
        } => {
            if !config.include_accessibility {
                return Ok(None);
            }
            AgpCall::FindAccessible(
                FindAccessibleRequest {
                    window_id,
                    role,
                    name,
                    name_contains,
                    value_contains,
                    max_results,
                },
            )
        },
        AgentDecision::InvokeAccessibleAction { node_id, action } => {
            if !config.include_accessibility {
                return Ok(None);
            }
            AgpCall::InvokeAccessibleAction(InvokeAccessibleActionRequest { node_id, action })
        },
        AgentDecision::Click { window_id, position, button, count } => AgpCall::Click(
            ClickRequest { window_id, position, button, count },
        ),
        AgentDecision::Type { window_id, text } => AgpCall::TypeText { text, window_id },
        AgentDecision::Keypress { window_id, keys } => AgpCall::Keypress { keys, window_id },
        AgentDecision::Scroll { window_id, position, dx_bits, dy_bits } => AgpCall::Scroll(
            ScrollRequest { window_id, position, dx_bits, dy_bits },
        ),
        AgentDecision::Finish { .. } => {
            return Err(
                Error::InvalidDecision(
                    String::from_str("finish is handled by the loop, never executed"),
                ),
            );
        },
    };
    Ok(Some(call))
}

/// The automatic observation after seat input: `quiet` for `quiet_ms`,
/// causally after the input's action id, under the loop's image policy; `None`
/// when automatic observation is off.
pub open spec fn post_input_observe_spec(
    config: LoopConfig,
    window_id: Option<WindowId>,
    action_id: Option<ActionId>,
    supports_images: bool,
) -> Option<ObserveRequest> {
    if !config.observe_after_input {
        None
    } else {
        Some(
            ObserveRequest {
                window_id,
                after_action: action_id,
                until: ObserveCondition::Quiet { quiet_ms: config.quiet_ms },
                timeout_ms: config.observe_timeout_ms,
                include_image: image_policy_spec(config, None, supports_images),
                max_dimension: config.capture_max_dimension,
                region: None,
            },
        )
    }
}

/// The automatic observation after seat input, if the loop makes one.
pub fn post_input_observe(
    config: &LoopConfig,
    window_id: Option<WindowId>,
    action_id: Option<ActionId>,
    supports_images: bool,
) -> (r: Option<ObserveRequest>)
    ensures
        r == post_input_observe_spec(*config, window_id, action_id, supports_images),
{
    if !config.observe_after_input {
        return None;
    }
    Some(
        ObserveRequest {
            window_id,
            after_action: action_id,
            until: ObserveCondition::Quiet { quiet_ms: config.quiet_ms },
            timeout_ms: config.observe_timeout_ms,
            include_image: image_policy(config, None, supports_images),
            max_dimension: config.capture_max_dimension,
            region: None,
        },
    )
}

/// The follow-up of a resolved observation: when the loop includes
/// accessibility, one outline request for the observed window (the one the
/// observation asked for, else the one it reports), uncapped; otherwise none.
pub fn accessibility_follow_up(
    config: &LoopConfig,
    requested: Option<WindowId>,
    observed: Option<WindowId>,
) -> (r: Option<AccessibilityTreeRequest>)
    ensures
        r is Some <==> config.include_accessibility,
        r matches Some(q) ==> q.max_nodes is None && q.window_id == (match requested {
            Some(w) => Some(w),
            None => observed,
        }),
{
    if !config.include_accessibility {
        return None;
    }
    let window_id = match requested {
        Some(w) => Some(w),
        None => observed,
    };
    Some(AccessibilityTreeRequest { window_id, max_nodes: None })
}

/// What the context shows of the follow-up's answer: the outline text, or no
/// outline when the call failed (a missing outline never fails the step).
pub fn follow_up_outline(answer: Result<String, Error>) -> (r: Option<String>)
    ensures
        r == (match answer {
            Ok(text) => Some(text),
            Err(_) => None::<String>,
        }),
{
    match answer {
        Ok(text) => Some(text),
        Err(_) => None,
    }
}

/// Whether a failed attempt is retried: only a retryable error, and only
/// while retries remain.
pub open spec fn should_retry_spec(class: ErrorClass, retry: u32, retries_per_step: u32) -> bool {
    class == ErrorClass::Retryable && retry < retries_per_step
}

/// Whether a failed attempt is retried.
pub fn should_retry(error: &Error, retry: u32, retries_per_step: u32) -> (b: bool)
    ensures
        b == should_retry_spec(error_class(*error), retry, retries_per_step),
{
    let class = error.class();
    class == ErrorClass::Retryable && retry < retries_per_step
}

/// A failed call is retried only when its error is retryable and retries
/// remain: a recoverable or fatal error is never retried, nor any error once
/// `retries_per_step` retries were made; a retryable one with retries left
/// always is.
pub proof fn lemma_retry_only_retryable(e: Error, retry: u32, retries_per_step: u32)
    ensures
        error_class(e) != ErrorClass::Retryable ==> !should_retry_spec(error_class(e), retry, retries_per_step),
        retry >= retries_per_step ==> !should_retry_spec(error_class(e), retry, retries_per_step),
        error_class(e) == ErrorClass::Retryable && retry < retries_per_step ==> should_retry_spec(
            error_class(e),
            retry,
            retries_per_step,
        ),
{
}

/// An observation or a wait asks the runtime for what the decision says: its
/// window and condition, its own timeout when it gives one (the configured
/// observe timeout only when it gives none), and, for an observation, its own
/// causal anchor, crop and size bound when it gives them (else the last action
/// id and the configured size bound) and pixels only when asked for (or by
/// default) and the provider takes images; a wait never reads pixels back.
pub proof fn lemma_observe_plans_the_decisions_own_bounds(
    d: AgentDecision,
    config: LoopConfig,
    last_action_id: Option<ActionId>,
    supports_images: bool,
)
    ensures
        d matches AgentDecision::Observe {
            window_id,
            after_action,
            until,
            timeout_ms,
            include_image,
            max_dimension,
            region,
        } ==> {
            &&& plan_spec(d, config, last_action_id, supports_images) matches Some(AgpCall::Observe(req))
            &&& req.window_id == window_id
            &&& req.until == until
            &&& req.region == region
            &&& (timeout_ms matches Some(t) ==> req.timeout_ms == t)
            &&& (timeout_ms is None ==> req.timeout_ms == config.observe_timeout_ms)
            &&& (after_action is Some ==> req.after_action == after_action)
            &&& (after_action is None ==> req.after_action == last_action_id)
            &&& (max_dimension is Some ==> req.max_dimension == max_dimension)
            &&& (max_dimension is None ==> req.max_dimension == config.capture_max_dimension)
            &&& (req.include_image ==> supports_images)
            &&& (supports_images && include_image == Some(true) ==> req.include_image)
            &&& (include_image == Some(false) ==> !req.include_image)
            &&& (include_image is None ==> req.include_image == (config.include_image && supports_images))
        },
        d matches AgentDecision::Wait { window_id, until, timeout_ms } ==> {
            &&& plan_spec(d, config, last_action_id, supports_images) matches Some(AgpCall::Observe(req))
            &&& req.window_id == window_id
            &&& req.until == until
            &&& (timeout_ms matches Some(t) ==> req.timeout_ms == t)
            &&& (timeout_ms is None ==> req.timeout_ms == config.observe_timeout_ms)
            &&& !req.include_image
        },
{
}

/// The cached window list with `window` inserted, or replacing the first
/// window with its id.
pub open spec fn upsert_spec(ws: Seq<WindowInfo>, w: WindowInfo) -> Seq<WindowInfo> {
    if exists|k: int| 0 <= k < ws.len() && ws[k].id == w.id {
        let k = choose|k: int| 0 <= k < ws.len() && ws[k].id == w.id && forall|j: int| 0 <= j < k ==> ws[j].id != w.id;
        ws.update(k, w)
    } else {
        ws.push(w)
    }
}

/// Insert or replace one window in the cached list.
pub fn upsert_window(windows: &mut Vec<WindowInfo>, window: WindowInfo)
    ensures
        final(windows)@ == upsert_spec(old(windows)@, window),
{
    let mut k: usize = 0;
    while k < windows.len()
        invariant
            k <= windows.len(),
            windows@ == old(windows)@,
            forall|j: int| 0 <= j < k ==> windows@[j].id != window.id,
        decreases windows.len() - k,
    {
        if windows[k].id == window.id {
            proof {
                let ws = old(windows)@;
                let c = choose|c: int| 0 <= c < ws.len() && ws[c].id == window.id && forall|j: int| 0 <= j < c ==> ws[j].id != window.id;
                assert(0 <= k < ws.len() && ws[k as int].id == window.id && forall|j: int| 0 <= j < k ==> ws[j].id != window.id);
                if c < k as int {
                } else if c > k as int {
                    assert(ws[k as int].id != window.id);
                }
            }
            windows.set(k, window);
            return;
        }
        k += 1;
    }
    windows.push(window);
}

/// What `<str as Debug>::fmt` writes for a string: the text quoted, with
/// quotes, backslashes and non-printable characters escaped.
pub uninterp spec fn str_debug(s: Seq<char>) -> Seq<char>;

/// The `Debug` rendering of a string.
///
/// Calls `format!("{:?}", s)`, std's `Debug` for `str`; its result depends on
/// the text alone and is named [`str_debug`] rather than spelled out.
#[verifier::external_body]
fn debug_str(s: &str) -> (r: String)
    ensures
        r@ == str_debug(s@),
{
    format!("{:?}", s)
}

/// The `Debug` rendering of a list of strings: `["a", "b"]`.
pub open spec fn list_debug(items: Seq<Seq<char>>) -> Seq<char>
    decreases items.len(),
{
    if items.len() == 0 {
        "[]"@
    } else {
        list_debug_inner(items) + "]"@
    }
}

/// `[` and the debug renderings of `items`, comma separated.
pub open spec fn list_debug_inner(items: Seq<Seq<char>>) -> Seq<char>
    decreases items.len(),
{
    if items.len() == 0 {
        "["@
    } else if items.len() == 1 {
        "["@ + str_debug(items[0])
    } else {
        list_debug_inner(items.drop_last()) + ", "@ + str_debug(items.last())
    }
}

fn push_list_debug(out: &mut String, items: &Vec<String>)
    ensures
        final(out)@ == old(out)@ + list_debug(items@.map_values(|s: String| s@)),
{
    let ghost v = items@.map_values(|s: String| s@);
    if items.len() == 0 {
        out.append("[]");
        return;
    }
    let ghost start = out@;
    out.append("[");
    let mut i: usize = 0;
    assert(start + "["@ =~= start + list_debug_inner(v.take(0)));
    while i < items.len()
        invariant
            i <= items.len(),
            items.len() > 0,
            v == items@.map_values(|s: String| s@),
            out@ == start + list_debug_inner(v.take(i as int)),
        decreases items.len() - i,
    {
        let ghost before = out@;
        if i > 0 {
            out.append(", ");
        }
        let d = debug_str(items[i].as_str());
        out.append(d.as_str());
        proof {
            let t1 = v.take(i + 1);
            assert(t1.drop_last() =~= v.take(i as int));
            assert(t1.last() == items@[i as int]@);
            if i == 0 {
                assert(t1 =~= seq![items@[0]@]);
                assert(out@ =~= start + list_debug_inner(t1));
            } else {
                assert(out@ =~= start + list_debug_inner(t1));
            }
        }
        i += 1;
    }
    assert(v.take(items.len() as int) =~= v);
    out.append("]");
}

/// The `Debug` rendering of an optional window id.
pub open spec fn opt_window_debug(w: Option<WindowId>) -> Seq<char> {
    match w {
        Some(id) => "Some(WindowId("@ + decimal(id.0 as nat) + "))"@,
        None => "None"@,
    }
}

fn push_opt_window_debug(out: &mut String, w: Option<WindowId>)
    ensures
        final(out)@ == old(out)@ + opt_window_debug(w),
{
    match w {
        Some(id) => {
            out.append("Some(WindowId(");
            push_decimal(out, id.0);
            out.append("))");
        },
        None => out.append("None"),
    }
}

/// The `Debug` rendering of an optional `u32`.
pub open spec fn opt_u32_debug(n: Option<u32>) -> Seq<char> {
    match n {
        Some(v) => "Some("@ + decimal(v as nat) + ")"@,
        None => "None"@,
    }
}

fn push_opt_u32_debug(out: &mut String, n: Option<u32>)
    ensures
        final(out)@ == old(out)@ + opt_u32_debug(n),
{
    match n {
        Some(v) => {
            out.append("Some(");
            push_decimal(out, v as u64);
            out.append(")");
        },
        None => out.append("None"),
    }
}

/// The `Debug` rendering of an optional rectangle.
pub open spec fn opt_rect_debug(r: Option<Rect>) -> Seq<char> {
    match r {
        Some(b) => "Some(Rect { x: "@ + signed_decimal(b.x as int) + ", y: "@ + signed_decimal(
            b.y as int,
        ) + ", w: "@ + decimal(b.w as nat) + ", h: "@ + decimal(b.h as nat) + " })"@,
        None => "None"@,
    }
}

fn push_opt_rect_debug(out: &mut String, r: Option<Rect>)
    ensures
        final(out)@ == old(out)@ + opt_rect_debug(r),
{
    match r {
        Some(b) => {
            out.append("Some(Rect { x: ");
            push_signed_decimal(out, b.x as i64);
            out.append(", y: ");
            push_signed_decimal(out, b.y as i64);
            out.append(", w: ");
            push_decimal(out, b.w as u64);
            out.append(", h: ");
            push_decimal(out, b.h as u64);
            out.append(" })");
        },
        None => out.append("None"),
    }
}

/// The `Debug` rendering of a mouse button.
pub open spec fn button_debug(b: Button) -> Seq<char> {
    match b {
        Button::Left => "Left"@,
        Button::Right => "Right"@,
        Button::Middle => "Middle"@,
    }
}

fn button_str(b: Button) -> (s: &'static str)
    ensures
        s@ == button_debug(b),
{
    match b {
        Button::Left => "Left",
        Button::Right => "Right",
        Button::Middle => "Middle",
    }
}

/// The one-line, payload-free description of a decision for the context;
/// `None` for the decisions whose description renders a floating-point value
/// (a scroll, and a click at a normalized position).
pub open spec fn decision_text(d: AgentDecision) -> Option<Seq<char>> {
    match d {
        AgentDecision::ListApps { query } => Some(
            match query {
                Some(q) => "query="@ + q@,
                None => "all apps"@,
            },
        ),
        AgentDecision::ListWindows => Some("windows + active"@),
        AgentDecision::GetWindow { window_id } => Some("window "@ + decimal(window_id.0 as nat)),
        AgentDecision::LaunchApp { app_id, args } => Some(
            "app="@ + app_id.0@ + " args="@ + list_debug(args@.map_values(|s: String| s@)),
        ),
        AgentDecision::ActivateWindow { window_id } => Some(
            "activate window "@ + decimal(window_id.0 as nat),
        ),
        AgentDecision::CloseWindow { window_id } => Some(
            "close window "@ + decimal(window_id.0 as nat),
        ),
        AgentDecision::Capture { window_id, region, max_dimension } => Some(
            "capture window "@ + decimal(window_id.0 as nat) + " region="@ + opt_rect_debug(region)
                + " max_dimension="@ + opt_u32_debug(max_dimension),
        ),
        AgentDecision::Observe { window_id, until, .. } => Some(
            "observe window_id="@ + opt_window_debug(window_id) + " until="@ + condition_text(until),
        ),
        AgentDecision::Wait { window_id, until, .. } => Some(
            "wait window_id="@ + opt_window_debug(window_id) + " until="@ + condition_text(until),
        ),
        AgentDecision::AccessibilityTree { window_id, max_nodes } => Some(
            "accessibility tree window_id="@ + opt_window_debug(window_id) + " max_nodes="@
                + opt_u32_debug(max_nodes),
        ),
        AgentDecision::FindAccessible { window_id, max_results, .. } => Some(
            "find accessible window_id="@ + opt_window_debug(window_id) + " max_results="@
                + opt_u32_debug(max_results),
        ),
        AgentDecision::InvokeAccessibleAction { node_id, action } => Some(
            "invoke accessible node "@ + decimal(node_id.0 as nat) + match action {
                Some(a) => " action="@ + a@,
                None => " default action"@,
            },
        ),
        AgentDecision::Click { position, button, count, .. } => match position {
            Position::Pixels(p) => Some(
                "click at Pixels(Point { x: "@ + signed_decimal(p.x as int) + ", y: "@
                    + signed_decimal(p.y as int) + " }) button="@ + button_debug(button)
                    + " count="@ + decimal(count as nat),
            ),
            Position::Normalized { .. } => None,
        },
        AgentDecision::Type { text, .. } => Some(
            "type "@ + str_debug(truncated(text@, 40, "..."@)),
        ),
        AgentDecision::Keypress { keys, .. } => Some(
            "keypress "@ + list_debug(keys@.map_values(|s: String| s@)),
        ),
        AgentDecision::Scroll { .. } => None,
        AgentDecision::Finish { success, .. } => Some(
            "finish success="@ + if success { "true"@ } else { "false"@ },
        ),
    }
}

/// One-line, payload-free description of a decision for the context, or
/// `None` when it renders a floating-point value.
pub fn describe_decision(decision: &AgentDecision) -> (r: Option<String>)
    ensures
        match r {
            Some(s) => decision_text(*decision) == Some(s@),
            None => decision_text(*decision) is None,
        },
{
    let mut s = String::new();
    match decision {
        AgentDecision::ListApps { query } => match query {
            Some(q) => {
                s.append("query=");
                s.append(q.as_str());
            },
            None => s.append("all apps"),
        },
        AgentDecision::ListWindows => s.append("windows + active"),
        AgentDecision::GetWindow { window_id } => {
            s.append("window ");
            push_decimal(&mut s, window_id.0);
        },
        AgentDecision::LaunchApp { app_id, args } => {
            s.append("app=");
            s.append(app_id.0.as_str());
            s.append(" args=");
            push_list_debug(&mut s, args);
        },
        AgentDecision::ActivateWindow { window_id } => {
            s.append("activate window ");
            push_decimal(&mut s, window_id.0);
        },
        AgentDecision::CloseWindow { window_id } => {
            s.append("close window ");
            push_decimal(&mut s, window_id.0);
        },
        AgentDecision::Capture { window_id, region, max_dimension } => {
            s.append("capture window ");
            push_decimal(&mut s, window_id.0);
            s.append(" region=");
            push_opt_rect_debug(&mut s, *region);
            s.append(" max_dimension=");
            push_opt_u32_debug(&mut s, *max_dimension);
        },
        AgentDecision::Observe { window_id, until, .. } => {
            s.append("observe window_id=");
            push_opt_window_debug(&mut s, *window_id);
            s.append(" until=");
            let c = describe_condition(*until);
            s.append(c.as_str());
        },
        AgentDecision::Wait { window_id, until, .. } => {
            s.append("wait window_id=");
            push_opt_window_debug(&mut s, *window_id);
            s.append(" until=");
            let c = describe_condition(*until);
            s.append(c.as_str());
        },
        AgentDecision::AccessibilityTree { window_id, max_nodes } => {
            s.append("accessibility tree window_id=");
            push_opt_window_debug(&mut s, *window_id);
            s.append(" max_nodes=");
            push_opt_u32_debug(&mut s, *max_nodes);
        },
        AgentDecision::FindAccessible { window_id, max_results, .. } => {
            s.append("find accessible window_id=");
            push_opt_window_debug(&mut s, *window_id);
            s.append(" max_results=");
            push_opt_u32_debug(&mut s, *max_results);
        },
        AgentDecision::InvokeAccessibleAction { node_id, action } => {
            s.append("invoke accessible node ");
            push_decimal(&mut s, node_id.0);
            match action {
                Some(a) => {
                    s.append(" action=");
                    s.append(a.as_str());
                },
                None => s.append(" default action"),
            }
        },
        AgentDecision::Click { position, button, count, .. } => match position {
            Position::Pixels(p) => {
                s.append("click at Pixels(Point { x: ");
                push_signed_decimal(&mut s, p.x as i64);
                s.append(", y: ");
                push_signed_decimal(&mut s, p.y as i64);
                s.append(" }) button=");
                s.append(button_str(*button));
                s.append(" count=");
                push_decimal(&mut s, *count as u64);
            },
            Position::Normalized { .. } => {
                return None;
            },
        },
        AgentDecision::Type { text, .. } => {
            s.append("type ");
            let cut = truncate(text.as_str(), 40, "...");
            let d = debug_str(cut.as_str());
            s.append(d.as_str());
        },
        AgentDecision::Keypress { keys, .. } => {
            s.append("keypress ");
            push_list_debug(&mut s, keys);
        },
        AgentDecision::Scroll { .. } => {
            return None;
        },
        AgentDecision::Finish { success, .. } => {
            s.append("finish success=");
            s.append(if *success { "true" } else { "false" });
        },
    }
    proof {
        assert(Some(s@) == decision_text(*decision)) by {
            assert(s@ =~= decision_text(*decision)->0);
        }
    }
    Some(s)
}

/// Full record of one loop iteration.
#[derive(Debug)]
pub struct StepRecord {
    /// 0-based step index.
    pub step: u32,
    /// Decision the provider produced.
    pub decision: AgentDecision,
    /// Action id returned by the runtime, when the decision produced one.
    pub action_id: Option<ActionId>,
    /// Observation produced by the step, when any.
    pub observation: Option<Observation>,
    /// Step outcome.
    pub status: StepStatus,
    /// Error message, when the step failed.
    pub error: Option<String>,
    /// Provider decision latency.
    pub decision_latency_ms: u64,
    /// Total step wall time.
    pub elapsed_ms: u64,
    /// Whether the step read pixels back from the runtime.
    pub readback: bool,
}

/// What one executed decision produced.
#[derive(Debug)]
pub struct Execution {
    /// Action id returned by an input or state-mutating call.
    pub action_id: Option<ActionId>,
    /// Observation returned by the step, when any.
    pub observation: Option<Observation>,
    /// Image returned by the step, when any (a readback).
    pub image: Option<ImagePayload>,
    /// Failed attempts before the step succeeded (or the total, on failure).
    pub attempts: u32,
}

impl Execution {
    /// Nothing produced yet.
    pub fn new() -> (e: Execution)
        ensures
            e.action_id is None,
            e.observation is None,
            e.image is None,
            e.attempts == 0,
    {
        Execution { action_id: None, observation: None, image: None, attempts: 0 }
    }
}

/// The position a decision acts at, when it names one.
pub open spec fn decision_position(d: AgentDecision) -> Option<Position> {
    match d {
        AgentDecision::Click { position, .. } => Some(position),
        AgentDecision::Scroll { position, .. } => Some(position),
        _ => None,
    }
}

/// The status of a recorded step.
pub open spec fn step_status_spec(failed: bool, attempts: u32) -> StepStatus {
    if failed {
        StepStatus::Failed
    } else if attempts > 0 {
        StepStatus::Recovered
    } else {
        StepStatus::Succeeded
    }
}

/// The loop's state besides its client and provider: configuration, context
/// builder, metrics, step history, the last action id and the last error.
#[derive(Debug)]
pub struct LoopState {
    /// The configuration.
    pub config: LoopConfig,
    /// The bounded context builder.
    pub context: ContextBuilder,
    /// The metrics recorder.
    pub metrics: Metrics,
    /// Steps recorded so far.
    pub history: Vec<StepRecord>,
    /// Id of the most recently executed action.
    pub last_action_id: Option<ActionId>,
    /// Last error message shown to the agent.
    pub last_error: Option<String>,
}

/// The state's invariant: the builder within its budget and the recorder well
/// formed.
pub open spec fn loop_state_wf(s: LoopState) -> bool {
    within_budget(s.context@) && metrics_wf(s.metrics@) && s.context@.budget == s.config.context_budget
}

impl LoopState {
    /// A fresh state for `config`.
    pub fn new(config: LoopConfig) -> (s: LoopState)
        ensures
            loop_state_wf(s),
            s.config == config,
            s.history@.len() == 0,
            s.last_action_id is None,
            s.last_error is None,
            s.context@.actions.len() == 0,
            s.metrics@.steps == 0,
    {
        LoopState {
            config,
            context: ContextBuilder::new(config.context_budget),
            metrics: Metrics::new(),
            history: Vec::new(),
            last_action_id: None,
            last_error: None,
        }
    }

    /// Record a `Finish` decision as the last step.
    pub fn record_finish(&mut self, step: u32, decision: AgentDecision, decision_latency_ms: u64, elapsed_ms: u64)
        ensures
            final(self).history@ == old(self).history@.push(
                StepRecord {
                    step,
                    decision,
                    action_id: None,
                    observation: None,
                    status: StepStatus::Finished,
                    error: None,
                    decision_latency_ms,
                    elapsed_ms,
                    readback: false,
                },
            ),
            final(self).config == old(self).config,
            final(self).context == old(self).context,
            final(self).metrics == old(self).metrics,
            final(self).last_action_id == old(self).last_action_id,
            final(self).last_error == old(self).last_error,
    {
        self.history.push(
            StepRecord {
                step,
                decision,
                action_id: None,
                observation: None,
                status: StepStatus::Finished,
                error: None,
                decision_latency_ms,
                elapsed_ms,
                readback: false,
            },
        );
    }

    /// Record one executed step: the action and its readback in the metrics,
    /// the action record in the context, the last error, and the step in the
    /// history. An image the step read back reaches the context (and counts as
    /// sent) only when the provider `supports_images`; a text-only provider
    /// never gets pixels. A failed step still counts an action that landed (an
    /// action id, an observation or an image) before it failed.
    pub fn record_step(
        &mut self,
        step: u32,
        decision: AgentDecision,
        execution: Execution,
        error: Option<&Error>,
        detail: String,
        decision_latency_ms: u64,
        step_elapsed_ms: u64,
        supports_images: bool,
    )
        requires
            loop_state_wf(*old(self)),
        ensures
            loop_state_wf(*final(self)),
            final(self).config == old(self).config,
            ({
                let kind = decision_kind(decision);
                let readback = execution.image is Some;
                let sent = if supports_images { execution.image } else { None::<ImagePayload> };
                let counted = error is None || execution.action_id is Some
                    || execution.observation is Some || execution.image is Some;
                &&& counted ==> final(self).metrics@ == ({
                    let m = old(self).metrics@;
                    let i = crate::decision::action_kind_index(kind) as int;
                    let after_image = match sent {
                        Some(img) => MetricsView {
                            images_sent: crate::metrics::bump32(m.images_sent),
                            visual_tokens: crate::metrics::add64(
                                m.visual_tokens,
                                crate::metrics::visual_tokens_of(img.width as nat, img.height as nat),
                            ),
                            ..m
                        },
                        None => m,
                    };
                    let acted = if kind == ActionKind::Finish {
                        m
                    } else {
                        MetricsView {
                            actions: crate::metrics::bump32(m.actions),
                            actions_by_kind: m.actions_by_kind.update(
                                i,
                                crate::metrics::bump32(m.actions_by_kind[i]),
                            ),
                            runtime_ops: if crate::decision::is_runtime_kind(kind) {
                                crate::metrics::bump32(m.runtime_ops)
                            } else {
                                m.runtime_ops
                            },
                            input_actions: if crate::decision::is_input_kind(kind) {
                                crate::metrics::bump32(m.input_actions)
                            } else {
                                m.input_actions
                            },
                            gpu_readbacks: if readback {
                                crate::metrics::bump32(m.gpu_readbacks)
                            } else {
                                m.gpu_readbacks
                            },
                            ..after_image
                        }
                    };
                    if error is None {
                        MetricsView {
                            recoveries: if acted.last_step_failed {
                                crate::metrics::bump32(acted.recoveries)
                            } else {
                                acted.recoveries
                            },
                            consecutive_failures: 0,
                            last_step_failed: false,
                            ..acted
                        }
                    } else {
                        acted
                    }
                })
                &&& !counted ==> final(self).metrics@ == old(self).metrics@
                &&& final(self).context@ == crate::context::record_action_spec(
                    match sent {
                        Some(img) => crate::context::set_image_spec(old(self).context@, Some(img)),
                        None => old(self).context@,
                    },
                    ActionRecord {
                        step,
                        action_id: execution.action_id,
                        kind,
                        window_id: decision_window_spec(decision),
                        position: decision_position(decision),
                        detail,
                        ok: error is None,
                    },
                )
                &&& final(self).history@.len() == old(self).history@.len() + 1
                &&& final(self).history@.drop_last() == old(self).history@
                &&& final(self).history@.last().step == step
                &&& final(self).history@.last().decision == decision
                &&& final(self).history@.last().action_id == execution.action_id
                &&& final(self).history@.last().observation == execution.observation
                &&& final(self).history@.last().status == step_status_spec(error is Some, execution.attempts)
                &&& (final(self).history@.last().error is Some <==> error is Some)
                &&& (error matches Some(e) ==> final(self).history@.last().error->0@ == error_message(*e))
                &&& final(self).history@.last().decision_latency_ms == decision_latency_ms
                &&& final(self).history@.last().elapsed_ms == step_elapsed_ms
                &&& final(self).history@.last().readback == readback
                &&& (error is None ==> final(self).last_error is None)
                &&& (error matches Some(e) ==> final(self).last_error matches Some(m) && m@ == error_message(*e))
                &&& final(self).last_action_id == old(self).last_action_id
            }),
    {
        let kind = decision.kind();
        let readback = execution.image.is_some();
        let shown: Option<&ImagePayload> = if supports_images {
            execution.image.as_ref()
        } else {
            None
        };
        match error {
            None => {
                self.metrics.record_action(kind, readback, shown);
                self.metrics.record_success();
                self.last_error = None;
            },
            Some(e) => {
                if execution.action_id.is_some() || execution.observation.is_some()
                    || execution.image.is_some() {
                    self.metrics.record_action(kind, readback, shown);
                }
                self.last_error = Some(e.message());
            },
        }
        let record = ActionRecord {
            step,
            action_id: execution.action_id,
            kind,
            window_id: decision.window(),
            position: match &decision {
                AgentDecision::Click { position, .. } => Some(*position),
                AgentDecision::Scroll { position, .. } => Some(*position),
                _ => None,
            },
            detail,
            ok: error.is_none(),
        };
        let Execution { action_id, observation, image, attempts } = execution;
        if let Some(img) = image {
            if supports_images {
                self.context.set_image(Some(img));
            }
        }
        self.context.record_action(record);
        let status = match error {
            Some(_) => StepStatus::Failed,
            None => if attempts > 0 { StepStatus::Recovered } else { StepStatus::Succeeded },
        };
        let message = match error {
            Some(e) => Some(e.message()),
            None => None,
        };
        let ghost before = self.history@;
        self.history.push(
            StepRecord {
                step,
                decision,
                action_id,
                observation,
                status,
                error: message,
                decision_latency_ms,
                elapsed_ms: step_elapsed_ms,
                readback,
            },
        );
        assert(self.history@.drop_last() =~= before);
    }
}

/// Result of a whole task run.
#[derive(Debug)]
pub struct LoopOutcome {
    /// Whether the task finished successfully.
    pub success: bool,
    /// Summary from `Finish`, or the stop reason when a budget won.
    pub summary: String,
    /// Steps executed.
    pub steps: u32,
    /// Why the loop stopped.
    pub stop_reason: StopReason,
    /// Aggregated metrics.
    pub metrics: crate::metrics::MetricsSnapshot,
    /// Per-step history.
    pub history: Vec<StepRecord>,
}

impl LoopState {
    /// Snapshot the run into an outcome carrying `history`.
    pub fn outcome(
        &self,
        goal: &str,
        success: bool,
        summary: String,
        steps: u32,
        stop_reason: StopReason,
        elapsed_ms: u64,
        history: Vec<StepRecord>,
    ) -> (o: LoopOutcome)
        ensures
            o.success == success,
            o.summary == summary,
            o.steps == steps,
            o.stop_reason == stop_reason,
            crate::metrics::is_report_of(o.metrics, self.metrics@, goal@, success, stop_reason, elapsed_ms),
            o.history == history,
    {
        LoopOutcome {
            success,
            summary,
            steps,
            stop_reason,
            metrics: self.metrics.report(goal, success, stop_reason, elapsed_ms),
            history,
        }
    }
}

/// The protocol check of a run: the runtime must speak the version the agent
/// implements; otherwise the run fails with both versions named.
pub fn check_protocol(expected: u32, got: u32) -> (r: Result<(), Error>)
    ensures
        r is Ok <==> expected == got,
        r matches Err(e) ==> e == (Error::ProtocolVersion { expected, got }),
{
    if expected == got {
        Ok(())
    } else {
        Err(Error::ProtocolVersion { expected, got })
    }
}

/// What the loop does after a step was recorded.
#[derive(Debug, PartialEq, Eq, Structural)]
pub enum StepVerdict {
    /// Run the next step (if the step budget allows).
    Continue,
    /// Stop: the error is fatal and is returned to the caller.
    Fatal,
    /// Stop: the consecutive-failure budget is spent.
    FailureBudget,
}

/// The step budget and failure budget of one run.
#[derive(Debug, Clone, Copy, PartialEq, Eq, Structural)]
pub struct RunBudget {
    /// Steps taken so far.
    pub steps: u32,
    /// Failed steps since the last successful one.
    pub consecutive_failures: u32,
    /// The step budget.
    pub max_steps: u32,
    /// The consecutive-failure budget.
    pub max_failures: u32,
}

/// A run's budgets are consistent: the steps within the step budget, and the
/// consecutive failures below the failure budget (the run stops on reaching
/// it).
pub open spec fn run_budget_wf(b: RunBudget) -> bool {
    b.steps <= b.max_steps && (b.consecutive_failures == 0 || b.consecutive_failures < b.max_failures)
}

/// The budgets after a recorded step (`None` = it succeeded), the verdict,
/// and whether the window list is refreshed first (after a recoverable
/// failure).
pub open spec fn after_step_spec(b: RunBudget, class: Option<ErrorClass>) -> (RunBudget, StepVerdict, bool) {
    match class {
        None => (RunBudget { steps: (b.steps + 1) as u32, consecutive_failures: 0, ..b }, StepVerdict::Continue, false),
        Some(c) => {
            let failures = (b.consecutive_failures + 1) as u32;
            if c == ErrorClass::Fatal {
                (RunBudget { consecutive_failures: failures, ..b }, StepVerdict::Fatal, false)
            } else {
                let refresh = c == ErrorClass::Recoverable;
                let next = RunBudget { steps: (b.steps + 1) as u32, consecutive_failures: failures, ..b };
                if failures >= b.max_failures {
                    (next, StepVerdict::FailureBudget, refresh)
                } else {
                    (next, StepVerdict::Continue, refresh)
                }
            }
        },
    }
}

impl RunBudget {
    /// Fresh budgets for `config`.
    pub fn new(config: &LoopConfig) -> (b: RunBudget)
        ensures
            b == (RunBudget {
                steps: 0,
                consecutive_failures: 0,
                max_steps: config.max_steps,
                max_failures: config.max_consecutive_failures,
            }),
            run_budget_wf(b),
    {
        RunBudget {
            steps: 0,
            consecutive_failures: 0,
            max_steps: config.max_steps,
            max_failures: config.max_consecutive_failures,
        }
    }

    /// The index of the next step, or `None` once the step budget is spent.
    pub fn next_step(&self) -> (s: Option<u32>)
        ensures
            s == (if self.steps < self.max_steps { Some(self.steps) } else { None::<u32> }),
    {
        if self.steps < self.max_steps { Some(self.steps) } else { None }
    }

    /// Count the step that finished the task; returns the steps taken.
    pub fn finish(&mut self) -> (n: u32)
        requires
            old(self).steps < old(self).max_steps,
        ensures
            *final(self) == (RunBudget { steps: (old(self).steps + 1) as u32, ..*old(self) }),
            n == final(self).steps,
    {
        self.steps = self.steps + 1;
        self.steps
    }

    /// Account for a recorded step: a success resets the failure count; a
    /// fatal error stops the run; any other failure counts against the
    /// failure budget, and a recoverable one refreshes the window list first.
    /// Returns the verdict and whether to refresh.
    pub fn after_step(&mut self, error: Option<&Error>) -> (r: (StepVerdict, bool))
        requires
            run_budget_wf(*old(self)),
            old(self).steps < old(self).max_steps,
        ensures
            ({
                let class = match error {
                    Some(e) => Some(error_class(*e)),
                    None => None,
                };
                let (b, v, refresh) = after_step_spec(*old(self), class);
                *final(self) == b && r.0 == v && r.1 == refresh
            }),
            r.0 == StepVerdict::Continue ==> run_budget_wf(*final(self)),
    {
        match error {
            None => {
                self.consecutive_failures = 0;
                self.steps = self.steps + 1;
                (StepVerdict::Continue, false)
            },
            Some(e) => {
                let class = e.class();
                self.consecutive_failures = self.consecutive_failures + 1;
                if let ErrorClass::Fatal = class {
                    return (StepVerdict::Fatal, false);
                }
                let refresh = class == ErrorClass::Recoverable;
                self.steps = self.steps + 1;
                if self.consecutive_failures >= self.max_failures {
                    (StepVerdict::FailureBudget, refresh)
                } else {
                    (StepVerdict::Continue, refresh)
                }
            },
        }
    }

    /// The summary of a run stopped by the step budget.
    pub fn step_budget_summary(&self) -> (s: String)
        ensures
            s@ == error_message(Error::StepBudgetExhausted(self.steps)),
    {
        Error::StepBudgetExhausted(self.steps).message()
    }

    /// The summary of a run stopped by the failure budget.
    pub fn failure_budget_summary(&self) -> (s: String)
        ensures
            s@ == error_message(Error::FailureBudgetExhausted(self.consecutive_failures)),
    {
        Error::FailureBudgetExhausted(self.consecutive_failures).message()
    }
}

/// A run ends within its step budget: every step the loop continues past
/// raises the step count by one, never beyond the budget, and a verdict to
/// stop is only given for a failure.
pub proof fn lemma_run_terminates(b: RunBudget, class: Option<ErrorClass>)
    requires
        run_budget_wf(b),
        b.steps < b.max_steps,
    ensures
        ({
            let (n, v, _) = after_step_spec(b, class);
            &&& v != StepVerdict::Fatal ==> n.steps == b.steps + 1 && n.steps <= b.max_steps
            &&& v == StepVerdict::Continue ==> run_budget_wf(n)
            &&& class is None ==> v == StepVerdict::Continue && n.consecutive_failures == 0
        }),
{
}

} // verus!
