//! The AGP requests the agent issues, as plain values.

use vstd::prelude::*;

use crate::decision::ObserveCondition;
use crate::model::{AccessibleId, ActionId, Rect, WindowId};
use crate::runtime::{Button, EventKind, Position};

verus! {

/// The AGP protocol version this agent implements.
pub const PROTOCOL_VERSION: u32 = 1;

/// Parameters of `capture_window`.
#[derive(Debug, Clone, Copy, PartialEq, Eq, Structural)]
pub struct CaptureRequest {
    /// Target window.
    pub window_id: WindowId,
    /// Optional window-relative crop.
    pub region: Option<Rect>,
    /// Optional downscale target (longest edge).
    pub max_dimension: Option<u32>,
}

/// Parameters of `observe`.
#[derive(Debug, Clone, Copy, PartialEq, Eq, Structural)]
pub struct ObserveRequest {
    /// Window to filter on; `None` = all windows.
    pub window_id: Option<WindowId>,
    /// Causal filter.
    pub after_action: Option<ActionId>,
    /// Condition to wait for.
    pub until: ObserveCondition,
    /// Deadline in milliseconds.
    pub timeout_ms: u64,
    /// Whether to read an image back.
    pub include_image: bool,
    /// Optional downscale target.
    pub max_dimension: Option<u32>,
    /// Optional window-relative crop.
    pub region: Option<Rect>,
}

/// Parameters of `click`.
#[derive(Debug, Clone, Copy, PartialEq, Eq, Structural)]
pub struct ClickRequest {
    /// Target window.
    pub window_id: WindowId,
    /// Window-relative position.
    pub position: Position,
    /// Mouse button.
    pub button: Button,
    /// Click count.
    pub count: u32,
}

/// Parameters of `scroll` (deltas as `f64` bit patterns).
#[derive(Debug, Clone, Copy, PartialEq, Eq, Structural)]
pub struct ScrollRequest {
    /// Target window.
    pub window_id: WindowId,
    /// Window-relative position.
    pub position: Position,
    /// Bit pattern of the horizontal delta.
    pub dx_bits: u64,
    /// Bit pattern of the vertical delta.
    pub dy_bits: u64,
}

/// Parameters of `wait_for_events`.
#[derive(Debug, Clone)]
pub struct WaitForEventsRequest {
    /// Event kinds that wake the wait; `None` = every kind.
    pub kinds: Option<Vec<EventKind>>,
    /// Window to filter on.
    pub window_id: Option<WindowId>,
    /// Deadline in milliseconds.
    pub timeout_ms: u64,
    /// Most events one answer carries.
    pub max_events: u32,
    /// Only events with a larger sequence number.
    pub since_seq: Option<u64>,
}

/// The protocol's default cap on the events one wait answers with.
pub const DEFAULT_WAIT_MAX_EVENTS: u32 = 32;

impl WaitForEventsRequest {
    /// A wait over `timeout_ms` for every kind and every window, capped at the
    /// protocol default of 32 events.
    pub fn new(timeout_ms: u64) -> (r: WaitForEventsRequest)
        ensures
            r.kinds is None,
            r.window_id is None,
            r.timeout_ms == timeout_ms,
            r.max_events == DEFAULT_WAIT_MAX_EVENTS,
            r.since_seq is None,
    {
        WaitForEventsRequest {
            kinds: None,
            window_id: None,
            timeout_ms,
            max_events: DEFAULT_WAIT_MAX_EVENTS,
            since_seq: None,
        }
    }

    /// The idle wake filter: only `notification` and `notification_action`
    /// events count as a wakeup.
    pub fn wake(timeout_ms: u64) -> (r: WaitForEventsRequest)
        ensures
            r.kinds matches Some(k) && k@ == seq![EventKind::Notification, EventKind::NotificationAction],
            r.window_id is None,
            r.timeout_ms == timeout_ms,
            r.max_events == DEFAULT_WAIT_MAX_EVENTS,
            r.since_seq is None,
    {
        WaitForEventsRequest::new(timeout_ms).kinds(vec![EventKind::Notification, EventKind::NotificationAction])
    }

    /// Collect only `kinds`.
    pub fn kinds(self, kinds: Vec<EventKind>) -> (r: WaitForEventsRequest)
        ensures
            r == (WaitForEventsRequest { kinds: Some(kinds), ..self }),
    {
        WaitForEventsRequest { kinds: Some(kinds), ..self }
    }

    /// Restrict to events carrying `window_id`.
    pub fn window(self, window_id: WindowId) -> (r: WaitForEventsRequest)
        ensures
            r == (WaitForEventsRequest { window_id: Some(window_id), ..self }),
    {
        WaitForEventsRequest { window_id: Some(window_id), ..self }
    }

    /// Cap the number of collected events.
    pub fn max_events(self, max_events: u32) -> (r: WaitForEventsRequest)
        ensures
            r == (WaitForEventsRequest { max_events, ..self }),
    {
        WaitForEventsRequest { max_events, ..self }
    }

    /// Count only events with `seq` greater than `since_seq`.
    pub fn since_seq(self, since_seq: u64) -> (r: WaitForEventsRequest)
        ensures
            r == (WaitForEventsRequest { since_seq: Some(since_seq), ..self }),
    {
        WaitForEventsRequest { since_seq: Some(since_seq), ..self }
    }
}

/// Parameters of `accessibility_tree`.
#[derive(Debug, Clone, Copy, PartialEq, Eq, Structural)]
pub struct AccessibilityTreeRequest {
    /// Target window; `None` = the active window.
    pub window_id: Option<WindowId>,
    /// Maximum total node count.
    pub max_nodes: Option<u32>,
}

/// Parameters of `find_accessible`.
#[derive(Debug, Clone)]
pub struct FindAccessibleRequest {
    /// Target window; `None` = the active window.
    pub window_id: Option<WindowId>,
    /// Exact lowercase role name.
    pub role: Option<String>,
    /// Exact accessible name.
    pub name: Option<String>,
    /// Case-insensitive substring of the name.
    pub name_contains: Option<String>,
    /// Case-insensitive substring of the value.
    pub value_contains: Option<String>,
    /// Maximum number of matches.
    pub max_results: Option<u32>,
}

/// Parameters of `invoke_accessible_action`.
#[derive(Debug, Clone)]
pub struct InvokeAccessibleActionRequest {
    /// Element whose action is invoked.
    pub node_id: AccessibleId,
    /// Action to invoke; `None` = the default action.
    pub action: Option<String>,
}

} // verus!
