//! The decision vocabulary: what the agent asked the runtime to do.
//!
//! Runtime-native operations (list/launch/activate/capture/observe/wait and the
//! accessibility operations) are kept apart from application input
//! (click/type/keypress/scroll, delivered through the Wayland seat); `Finish`
//! is neither.

use vstd::prelude::*;

use crate::fmt::{decimal, push_decimal};
use crate::model::{AccessibleId, ActionId, AppId, Rect, WindowId};
use crate::runtime::{Button, Position};

verus! {

/// The `until` condition of an observation.
#[derive(Debug, Clone, Copy, PartialEq, Eq, Structural)]
pub enum ObserveCondition {
    /// Wait until the window has been quiet for `quiet_ms`.
    Quiet {
        /// Required quiet period in milliseconds.
        quiet_ms: u64,
    },
    /// Return on the first surface commit or window lifecycle event (default).
    Change,
    /// Wait the full timeout and report what accumulated.
    Timeout,
}

impl Default for ObserveCondition {
    fn default() -> (c: ObserveCondition)
        ensures
            c == ObserveCondition::Change,
    {
        ObserveCondition::Change
    }
}

/// Stable classifier for decisions, used in metrics and scenario expectations.
#[derive(Debug, Clone, Copy, PartialEq, Eq, Hash, PartialOrd, Ord, Structural)]
pub enum ActionKind {
    /// `list_apps`.
    ListApps,
    /// `list_windows`.
    ListWindows,
    /// `get_window`.
    GetWindow,
    /// `launch_app`.
    LaunchApp,
    /// `activate_window`.
    ActivateWindow,
    /// `close_window`.
    CloseWindow,
    /// `capture_window` (GPU readback).
    Capture,
    /// `observe` (may include a GPU readback).
    Observe,
    /// `wait` (observation without image).
    Wait,
    /// `accessibility_tree`.
    AccessibilityTree,
    /// `find_accessible`.
    FindAccessible,
    /// `invoke_accessible_action`.
    InvokeAccessibleAction,
    /// `click` / `double_click`.
    Click,
    /// `type_text`.
    TypeText,
    /// `keypress`.
    Keypress,
    /// `scroll`.
    Scroll,
    /// Task completion marker; not counted as an action in metrics.
    Finish,
}

/// The stable snake-case name of an action kind (the AGP method it maps to).
pub open spec fn action_kind_name(k: ActionKind) -> Seq<char> {
    match k {
        ActionKind::ListApps => "list_apps"@,
        ActionKind::ListWindows => "list_windows"@,
        ActionKind::GetWindow => "get_window"@,
        ActionKind::LaunchApp => "launch_app"@,
        ActionKind::ActivateWindow => "activate_window"@,
        ActionKind::CloseWindow => "close_window"@,
        ActionKind::Capture => "capture_window"@,
        ActionKind::Observe => "observe"@,
        ActionKind::Wait => "wait"@,
        ActionKind::AccessibilityTree => "accessibility_tree"@,
        ActionKind::FindAccessible => "find_accessible"@,
        ActionKind::InvokeAccessibleAction => "invoke_accessible_action"@,
        ActionKind::Click => "click"@,
        ActionKind::TypeText => "type_text"@,
        ActionKind::Keypress => "keypress"@,
        ActionKind::Scroll => "scroll"@,
        ActionKind::Finish => "finish"@,
    }
}

/// Whether `c` may stand in an action kind's name: a lowercase ASCII letter
/// or `_`.
pub open spec fn is_kind_name_char(c: char) -> bool {
    ('a' <= c && c <= 'z') || c == '_'
}

/// Action kind names are stable identifiers: no two kinds share a name, and
/// every name is lowercase ASCII letters and `_`.
pub proof fn lemma_action_kind_names_distinct(a: ActionKind, b: ActionKind)
    ensures
        action_kind_name(a) == action_kind_name(b) ==> a == b,
        action_kind_name(a).len() > 0,
        forall|i: int| 0 <= i < action_kind_name(a).len() ==> is_kind_name_char(#[trigger] action_kind_name(a)[i]),
{
    reveal_strlit("list_apps");
    reveal_strlit("list_windows");
    reveal_strlit("get_window");
    reveal_strlit("launch_app");
    reveal_strlit("activate_window");
    reveal_strlit("close_window");
    reveal_strlit("capture_window");
    reveal_strlit("observe");
    reveal_strlit("wait");
    reveal_strlit("accessibility_tree");
    reveal_strlit("find_accessible");
    reveal_strlit("invoke_accessible_action");
    reveal_strlit("click");
    reveal_strlit("type_text");
    reveal_strlit("keypress");
    reveal_strlit("scroll");
    reveal_strlit("finish");
    if action_kind_name(a) == action_kind_name(b) {
        assert(action_kind_name(a).len() == action_kind_name(b).len());
        assert(action_kind_name(a)[0] == action_kind_name(b)[0]);
    }
}

/// The dense index of an action kind (its declaration position).
pub open spec fn action_kind_index(k: ActionKind) -> nat {
    match k {
        ActionKind::ListApps => 0,
        ActionKind::ListWindows => 1,
        ActionKind::GetWindow => 2,
        ActionKind::LaunchApp => 3,
        ActionKind::ActivateWindow => 4,
        ActionKind::CloseWindow => 5,
        ActionKind::Capture => 6,
        ActionKind::Observe => 7,
        ActionKind::Wait => 8,
        ActionKind::AccessibilityTree => 9,
        ActionKind::FindAccessible => 10,
        ActionKind::InvokeAccessibleAction => 11,
        ActionKind::Click => 12,
        ActionKind::TypeText => 13,
        ActionKind::Keypress => 14,
        ActionKind::Scroll => 15,
        ActionKind::Finish => 16,
    }
}

/// Number of action kinds.
pub const ACTION_KIND_COUNT: usize = 17;

impl ActionKind {
    /// Snake-case name, stable for reports and logs.
    pub fn as_str(&self) -> (s: &'static str)
        ensures
            s@ == action_kind_name(*self),
    {
        match self {
            ActionKind::ListApps => "list_apps",
            ActionKind::ListWindows => "list_windows",
            ActionKind::GetWindow => "get_window",
            ActionKind::LaunchApp => "launch_app",
            ActionKind::ActivateWindow => "activate_window",
            ActionKind::CloseWindow => "close_window",
            ActionKind::Capture => "capture_window",
            ActionKind::Observe => "observe",
            ActionKind::Wait => "wait",
            ActionKind::AccessibilityTree => "accessibility_tree",
            ActionKind::FindAccessible => "find_accessible",
            ActionKind::InvokeAccessibleAction => "invoke_accessible_action",
            ActionKind::Click => "click",
            ActionKind::TypeText => "type_text",
            ActionKind::Keypress => "keypress",
            ActionKind::Scroll => "scroll",
            ActionKind::Finish => "finish",
        }
    }

    /// Every kind, in index order: the kind at `i` has index `i`.
    pub fn all() -> (v: Vec<ActionKind>)
        ensures
            v@.len() == ACTION_KIND_COUNT,
            forall|i: int| 0 <= i < v@.len() ==> action_kind_index(#[trigger] v@[i]) == i,
    {
        let v = vec![
            ActionKind::ListApps,
            ActionKind::ListWindows,
            ActionKind::GetWindow,
            ActionKind::LaunchApp,
            ActionKind::ActivateWindow,
            ActionKind::CloseWindow,
            ActionKind::Capture,
            ActionKind::Observe,
            ActionKind::Wait,
            ActionKind::AccessibilityTree,
            ActionKind::FindAccessible,
            ActionKind::InvokeAccessibleAction,
            ActionKind::Click,
            ActionKind::TypeText,
            ActionKind::Keypress,
            ActionKind::Scroll,
            ActionKind::Finish,
        ];
        v
    }

    /// The dense index of this kind.
    pub fn index(&self) -> (i: usize)
        ensures
            i == action_kind_index(*self),
            i < ACTION_KIND_COUNT,
    {
        match self {
            ActionKind::ListApps => 0,
            ActionKind::ListWindows => 1,
            ActionKind::GetWindow => 2,
            ActionKind::LaunchApp => 3,
            ActionKind::ActivateWindow => 4,
            ActionKind::CloseWindow => 5,
            ActionKind::Capture => 6,
            ActionKind::Observe => 7,
            ActionKind::Wait => 8,
            ActionKind::AccessibilityTree => 9,
            ActionKind::FindAccessible => 10,
            ActionKind::InvokeAccessibleAction => 11,
            ActionKind::Click => 12,
            ActionKind::TypeText => 13,
            ActionKind::Keypress => 14,
            ActionKind::Scroll => 15,
            ActionKind::Finish => 16,
        }
    }
}

/// One decision produced by a provider and executed by the loop.
#[derive(Debug, Clone)]
pub enum AgentDecision {
    /// Runtime-native: enumerate applications known to the registry.
    ListApps {
        /// Optional substring filter (case-insensitive).
        query: Option<String>,
    },
    /// Runtime-native: enumerate windows and the active window.
    ListWindows,
    /// Runtime-native: fetch one window's metadata.
    GetWindow {
        /// Target window.
        window_id: WindowId,
    },
    /// Runtime-native: launch an application through the registry.
    LaunchApp {
        /// Desktop-file id.
        app_id: AppId,
        /// Extra argv entries.
        args: Vec<String>,
    },
    /// Runtime-native: make a window active.
    ActivateWindow {
        /// Target window.
        window_id: WindowId,
    },
    /// Runtime-native: close a window.
    CloseWindow {
        /// Target window.
        window_id: WindowId,
    },
    /// Runtime-native: request pixels (a GPU readback).
    Capture {
        /// Target window.
        window_id: WindowId,
        /// Optional window-relative crop.
        region: Option<Rect>,
        /// Optional downscale target (longest edge).
        max_dimension: Option<u32>,
    },
    /// Runtime-native: wait for a condition and return a temporal observation.
    Observe {
        /// Window to filter on; `None` = all windows.
        window_id: Option<WindowId>,
        /// Causal filter; `None` = the loop's last action id.
        after_action: Option<ActionId>,
        /// Condition to wait for.
        until: ObserveCondition,
        /// Overrides the loop's observation deadline.
        timeout_ms: Option<u64>,
        /// Overrides the loop's default image policy.
        include_image: Option<bool>,
        /// Optional downscale target.
        max_dimension: Option<u32>,
        /// Optional window-relative crop.
        region: Option<Rect>,
    },
    /// Runtime-native: observation without an image.
    Wait {
        /// Window to filter on; `None` = all windows.
        window_id: Option<WindowId>,
        /// Condition to wait for.
        until: ObserveCondition,
        /// Overrides the loop's observation deadline.
        timeout_ms: Option<u64>,
    },
    /// Runtime-native: read a window's UI as text.
    AccessibilityTree {
        /// Target window; `None` = the active window.
        window_id: Option<WindowId>,
        /// Maximum total node count.
        max_nodes: Option<u32>,
    },
    /// Runtime-native: find accessible elements matching the AND-ed filters.
    FindAccessible {
        /// Target window; `None` = the active window.
        window_id: Option<WindowId>,
        /// Exact lowercase role name.
        role: Option<String>,
        /// Exact accessible name.
        name: Option<String>,
        /// Case-insensitive substring of the name.
        name_contains: Option<String>,
        /// Case-insensitive substring of the value.
        value_contains: Option<String>,
        /// Maximum number of matches.
        max_results: Option<u32>,
    },
    /// Runtime-native: invoke an accessible element's action.
    InvokeAccessibleAction {
        /// Element whose action is invoked.
        node_id: AccessibleId,
        /// Action to invoke; `None` = the default action.
        action: Option<String>,
    },
    /// Application input: click through the Wayland seat.
    Click {
        /// Target window.
        window_id: WindowId,
        /// Window-relative position.
        position: Position,
        /// Mouse button.
        button: Button,
        /// Click count (1 = single, 2 = double).
        count: u32,
    },
    /// Application input: type UTF-8 text.
    Type {
        /// Window to focus first; `None` = current focus.
        window_id: Option<WindowId>,
        /// Text to type.
        text: String,
    },
    /// Application input: press a key or chord.
    Keypress {
        /// Window to focus first; `None` = current focus.
        window_id: Option<WindowId>,
        /// Keysym-style names, modifiers first.
        keys: Vec<String>,
    },
    /// Application input: scroll (deltas carried as `f64` bit patterns).
    Scroll {
        /// Target window.
        window_id: WindowId,
        /// Window-relative position.
        position: Position,
        /// Bit pattern of the horizontal delta.
        dx_bits: u64,
        /// Bit pattern of the vertical delta.
        dy_bits: u64,
    },
    /// Finish the task.
    Finish {
        /// Whether the agent believes the task succeeded.
        success: bool,
        /// One-paragraph summary.
        summary: String,
    },
}

/// The kind of a decision.
pub open spec fn decision_kind(d: AgentDecision) -> ActionKind {
    match d {
        AgentDecision::ListApps { .. } => ActionKind::ListApps,
        AgentDecision::ListWindows => ActionKind::ListWindows,
        AgentDecision::GetWindow { .. } => ActionKind::GetWindow,
        AgentDecision::LaunchApp { .. } => ActionKind::LaunchApp,
        AgentDecision::ActivateWindow { .. } => ActionKind::ActivateWindow,
        AgentDecision::CloseWindow { .. } => ActionKind::CloseWindow,
        AgentDecision::Capture { .. } => ActionKind::Capture,
        AgentDecision::Observe { .. } => ActionKind::Observe,
        AgentDecision::Wait { .. } => ActionKind::Wait,
        AgentDecision::AccessibilityTree { .. } => ActionKind::AccessibilityTree,
        AgentDecision::FindAccessible { .. } => ActionKind::FindAccessible,
        AgentDecision::InvokeAccessibleAction { .. } => ActionKind::InvokeAccessibleAction,
        AgentDecision::Click { .. } => ActionKind::Click,
        AgentDecision::Type { .. } => ActionKind::TypeText,
        AgentDecision::Keypress { .. } => ActionKind::Keypress,
        AgentDecision::Scroll { .. } => ActionKind::Scroll,
        AgentDecision::Finish { .. } => ActionKind::Finish,
    }
}

/// Whether a kind is application input delivered through the seat.
pub open spec fn is_input_kind(k: ActionKind) -> bool {
    k == ActionKind::Click || k == ActionKind::TypeText || k == ActionKind::Keypress || k
        == ActionKind::Scroll
}

/// Whether a kind reads or mutates runtime state directly.
pub open spec fn is_runtime_kind(k: ActionKind) -> bool {
    !is_input_kind(k) && k != ActionKind::Finish
}

/// The target window of a decision, when it names one.
pub open spec fn decision_window_spec(d: AgentDecision) -> Option<WindowId> {
    match d {
        AgentDecision::GetWindow { window_id } => Some(window_id),
        AgentDecision::ActivateWindow { window_id } => Some(window_id),
        AgentDecision::CloseWindow { window_id } => Some(window_id),
        AgentDecision::Capture { window_id, .. } => Some(window_id),
        AgentDecision::Click { window_id, .. } => Some(window_id),
        AgentDecision::Scroll { window_id, .. } => Some(window_id),
        AgentDecision::Observe { window_id, .. } => window_id,
        AgentDecision::Wait { window_id, .. } => window_id,
        AgentDecision::Type { window_id, .. } => window_id,
        AgentDecision::Keypress { window_id, .. } => window_id,
        AgentDecision::AccessibilityTree { window_id, .. } => window_id,
        AgentDecision::FindAccessible { window_id, .. } => window_id,
        _ => None,
    }
}

impl AgentDecision {
    /// The kind of action this decision represents.
    pub fn kind(&self) -> (k: ActionKind)
        ensures
            k == decision_kind(*self),
    {
        match self {
            AgentDecision::ListApps { .. } => ActionKind::ListApps,
            AgentDecision::ListWindows => ActionKind::ListWindows,
            AgentDecision::GetWindow { .. } => ActionKind::GetWindow,
            AgentDecision::LaunchApp { .. } => ActionKind::LaunchApp,
            AgentDecision::ActivateWindow { .. } => ActionKind::ActivateWindow,
            AgentDecision::CloseWindow { .. } => ActionKind::CloseWindow,
            AgentDecision::Capture { .. } => ActionKind::Capture,
            AgentDecision::Observe { .. } => ActionKind::Observe,
            AgentDecision::Wait { .. } => ActionKind::Wait,
            AgentDecision::AccessibilityTree { .. } => ActionKind::AccessibilityTree,
            AgentDecision::FindAccessible { .. } => ActionKind::FindAccessible,
            AgentDecision::InvokeAccessibleAction { .. } => ActionKind::InvokeAccessibleAction,
            AgentDecision::Click { .. } => ActionKind::Click,
            AgentDecision::Type { .. } => ActionKind::TypeText,
            AgentDecision::Keypress { .. } => ActionKind::Keypress,
            AgentDecision::Scroll { .. } => ActionKind::Scroll,
            AgentDecision::Finish { .. } => ActionKind::Finish,
        }
    }

    /// True for decisions delivered through the Wayland seat.
    pub fn is_input(&self) -> (b: bool)
        ensures
            b == is_input_kind(decision_kind(*self)),
    {
        match self {
            AgentDecision::Click { .. } | AgentDecision::Type { .. } | AgentDecision::Keypress {
                ..
            } | AgentDecision::Scroll { .. } => true,
            _ => false,
        }
    }

    /// True for decisions that read or mutate runtime state directly.
    pub fn is_runtime(&self) -> (b: bool)
        ensures
            b == is_runtime_kind(decision_kind(*self)),
    {
        match self {
            AgentDecision::Click { .. } | AgentDecision::Type { .. } | AgentDecision::Keypress {
                ..
            } | AgentDecision::Scroll { .. } | AgentDecision::Finish { .. } => false,
            _ => true,
        }
    }

    /// The target window of this decision, when it names one.
    pub fn window(&self) -> (w: Option<WindowId>)
        ensures
            w == decision_window_spec(*self),
    {
        match self {
            AgentDecision::GetWindow { window_id } => Some(*window_id),
            AgentDecision::ActivateWindow { window_id } => Some(*window_id),
            AgentDecision::CloseWindow { window_id } => Some(*window_id),
            AgentDecision::Capture { window_id, .. } => Some(*window_id),
            AgentDecision::Click { window_id, .. } => Some(*window_id),
            AgentDecision::Scroll { window_id, .. } => Some(*window_id),
            AgentDecision::Observe { window_id, .. } => *window_id,
            AgentDecision::Wait { window_id, .. } => *window_id,
            AgentDecision::Type { window_id, .. } => *window_id,
            AgentDecision::Keypress { window_id, .. } => *window_id,
            AgentDecision::AccessibilityTree { window_id, .. } => *window_id,
            AgentDecision::FindAccessible { window_id, .. } => *window_id,
            _ => None,
        }
    }
}

/// Runtime-native and seat-input decisions are disjoint and together cover
/// every kind but `Finish`, which is neither.
pub proof fn lemma_input_runtime_partition(k: ActionKind)
    ensures
        !(is_input_kind(k) && is_runtime_kind(k)),
        k == ActionKind::Finish <==> (!is_input_kind(k) && !is_runtime_kind(k)),
{
}

/// The compact description of an observation condition.
pub open spec fn condition_text(c: ObserveCondition) -> Seq<char> {
    match c {
        ObserveCondition::Quiet { quiet_ms } => "quiet("@ + decimal(quiet_ms as nat) + ")"@,
        ObserveCondition::Change => "change"@,
        ObserveCondition::Timeout => "timeout"@,
    }
}

/// Compact description of an observation condition.
pub fn describe_condition(condition: ObserveCondition) -> (s: String)
    ensures
        s@ == condition_text(condition),
{
    match condition {
        ObserveCondition::Quiet { quiet_ms } => {
            let mut s = String::from_str("quiet(");
            push_decimal(&mut s, quiet_ms);
            s.append(")");
            s
        },
        ObserveCondition::Change => String::from_str("change"),
        ObserveCondition::Timeout => String::from_str("timeout"),
    }
}

} // verus!
