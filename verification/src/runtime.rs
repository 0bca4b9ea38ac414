//! The runtime's value vocabulary the agent reasons over: positions, windows,
//! applications, images, observations and runtime events.

use vstd::prelude::*;

use crate::model::{ActionId, AppId, Rect, WindowId};

verus! {

/// A point in window-relative pixels.
#[derive(Debug, Clone, Copy, PartialEq, Eq, Structural)]
pub struct Point {
    /// Horizontal coordinate.
    pub x: i32,
    /// Vertical coordinate.
    pub y: i32,
}

/// A window-relative position: absolute pixels, or a fraction of the window's
/// size (each fraction carried as the bit pattern of an `f64`).
#[derive(Debug, Clone, Copy, PartialEq, Eq, Structural)]
pub enum Position {
    /// Absolute window-relative pixels.
    Pixels(Point),
    /// Fractions of the window's width and height (`f64` bit patterns).
    Normalized {
        /// Bit pattern of the horizontal fraction.
        x_bits: u64,
        /// Bit pattern of the vertical fraction.
        y_bits: u64,
    },
}

impl Position {
    /// A position in absolute pixels.
    pub fn pixels(x: i32, y: i32) -> (p: Position)
        ensures
            p == Position::Pixels(Point { x, y }),
    {
        Position::Pixels(Point { x, y })
    }
}

/// A mouse button.
#[derive(Debug, Clone, Copy, PartialEq, Eq, Structural)]
pub enum Button {
    /// The primary button.
    Left,
    /// The secondary button.
    Right,
    /// The middle button.
    Middle,
}

/// A size in pixels.
#[derive(Debug, Clone, Copy, PartialEq, Eq, Structural)]
pub struct Size {
    /// Width.
    pub w: u32,
    /// Height.
    pub h: u32,
}

/// A window's lifecycle state.
#[derive(Debug, Clone, Copy, PartialEq, Eq, Structural)]
pub enum WindowState {
    /// The active (focused, visible) window.
    Active,
    /// A mapped window that is not active.
    Inactive,
    /// A window that is not mapped.
    Hidden,
}

/// A window as the runtime reports it.
#[derive(Debug, Clone)]
pub struct WindowInfo {
    /// Window id.
    pub id: WindowId,
    /// Resolved application id, when known.
    pub app_id: Option<AppId>,
    /// Title, when known.
    pub title: Option<String>,
    /// Lifecycle state.
    pub state: WindowState,
    /// Window geometry.
    pub geometry: Rect,
    /// Number of mapped popups.
    pub popup_count: u32,
    /// Last surface commit sequence.
    pub last_commit_seq: u64,
}

/// An application the runtime's registry knows.
#[derive(Debug, Clone)]
pub struct AppInfo {
    /// Desktop-file id.
    pub id: AppId,
    /// Human-readable name.
    pub name: String,
    /// Freedesktop categories.
    pub categories: Vec<String>,
    /// Whether the app needs a terminal.
    pub terminal: bool,
}

/// An image read back from the runtime.
#[derive(Debug, Clone)]
pub struct ImagePayload {
    /// Width in pixels.
    pub width: u32,
    /// Height in pixels.
    pub height: u32,
    /// Encoded (base64) image bytes.
    pub data: String,
}

/// A temporal observation: what changed in a window after an action.
#[derive(Debug, Clone)]
pub struct Observation {
    /// Window the observation filtered on.
    pub window_id: Option<WindowId>,
    /// Action the observation is causally after.
    pub after_action: Option<ActionId>,
    /// Surface commits observed.
    pub commits: u32,
    /// Damaged regions.
    pub changed_regions: Vec<Rect>,
    /// New focused window, when focus changed.
    pub focus_changed: Option<WindowId>,
    /// Whether the title changed.
    pub title_changed: bool,
    /// Windows created.
    pub new_windows: Vec<WindowId>,
    /// Windows destroyed.
    pub destroyed_windows: Vec<WindowId>,
    /// Popups that appeared.
    pub popups_appeared: Vec<u64>,
    /// Popups that disappeared.
    pub popups_disappeared: Vec<u64>,
    /// Observation wall time.
    pub elapsed_ms: u64,
    /// Whether the window was quiet at the end.
    pub quiet: bool,
    /// Whether the observation timed out.
    pub timed_out: bool,
    /// Last commit sequence seen.
    pub last_commit_seq: u64,
    /// Event watermark at resolution.
    pub seq: u64,
}

/// Kinds of runtime events.
#[derive(Debug, Clone, Copy, PartialEq, Eq, Structural)]
pub enum EventKind {
    /// `window_created`
    WindowCreated,
    /// `window_destroyed`
    WindowDestroyed,
    /// `window_activated`
    WindowActivated,
    /// `title_changed`
    TitleChanged,
    /// `surface_commit`
    SurfaceCommit,
    /// `focus_changed`
    FocusChanged,
    /// `popup_appeared`
    PopupAppeared,
    /// `popup_disappeared`
    PopupDisappeared,
    /// `app_launched`
    AppLaunched,
    /// `notification`
    Notification,
    /// `notification_closed`
    NotificationClosed,
    /// `notification_action`
    NotificationAction,
}

/// Why a notification closed.
#[derive(Debug, Clone, Copy, PartialEq, Eq, Structural)]
pub enum CloseReason {
    /// It expired.
    Expired,
    /// The user dismissed it.
    Dismissed,
    /// Its sender closed it.
    Closed,
    /// No reason was given.
    Undefined,
}

/// The wire-visible name of a close reason (its `Debug` spelling).
pub open spec fn close_reason_name(r: CloseReason) -> Seq<char> {
    match r {
        CloseReason::Expired => "Expired"@,
        CloseReason::Dismissed => "Dismissed"@,
        CloseReason::Closed => "Closed"@,
        CloseReason::Undefined => "Undefined"@,
    }
}

/// Executable form of [`close_reason_name`].
pub fn close_reason_str(r: CloseReason) -> (s: &'static str)
    ensures
        s@ == close_reason_name(r),
{
    match r {
        CloseReason::Expired => "Expired",
        CloseReason::Dismissed => "Dismissed",
        CloseReason::Closed => "Closed",
        CloseReason::Undefined => "Undefined",
    }
}

/// A posted desktop notification.
#[derive(Debug, Clone)]
pub struct NotificationInfo {
    /// Notification id.
    pub id: u64,
    /// Sending application, when known.
    pub source: Option<String>,
    /// Title (never empty).
    pub title: String,
}

/// What happened, per event kind.
#[derive(Debug, Clone)]
pub enum EventPayload {
    /// A window was created.
    WindowCreated {
        /// The window.
        window_id: WindowId,
        /// Its application id, when known.
        app_id: Option<AppId>,
        /// Its title, when known.
        title: Option<String>,
        /// Its process id, when known.
        pid: Option<u32>,
    },
    /// A window was destroyed.
    WindowDestroyed {
        /// The window.
        window_id: WindowId,
    },
    /// A window became active.
    WindowActivated {
        /// The window.
        window_id: WindowId,
        /// The previously active window.
        previous: Option<WindowId>,
    },
    /// A window's title changed.
    TitleChanged {
        /// The window.
        window_id: WindowId,
        /// The new title, or `None` when cleared.
        title: Option<String>,
    },
    /// A surface committed a new buffer.
    SurfaceCommit {
        /// The window.
        window_id: WindowId,
        /// The commit sequence number.
        commit_seq: u64,
        /// Damaged rectangles.
        damage: Vec<Rect>,
    },
    /// Keyboard focus moved.
    FocusChanged {
        /// The newly focused window, or `None` when cleared.
        window_id: Option<WindowId>,
    },
    /// A popup appeared.
    PopupAppeared {
        /// The parent window.
        window_id: WindowId,
        /// The popup.
        popup_id: u64,
    },
    /// A popup disappeared.
    PopupDisappeared {
        /// The parent window.
        window_id: WindowId,
        /// The popup.
        popup_id: u64,
    },
    /// An application was launched.
    AppLaunched {
        /// Its application id.
        app_id: AppId,
        /// Its process id, when known.
        pid: Option<u32>,
    },
    /// A notification was posted.
    Notification {
        /// The notification.
        notification: NotificationInfo,
    },
    /// A notification closed.
    NotificationClosed {
        /// The notification.
        notification_id: u64,
        /// Why it closed.
        reason: CloseReason,
    },
    /// A notification action was invoked.
    NotificationAction {
        /// The notification.
        notification_id: u64,
        /// The action's key.
        action_key: String,
    },
}

/// One runtime event.
#[derive(Debug, Clone)]
pub struct RuntimeEvent {
    /// Global event sequence number.
    pub seq: u64,
    /// Monotonic milliseconds since runtime start.
    pub ts_ms: u64,
    /// What happened.
    pub payload: EventPayload,
}

/// The kind of an event payload.
pub open spec fn payload_kind(p: EventPayload) -> EventKind {
    match p {
        EventPayload::WindowCreated { .. } => EventKind::WindowCreated,
        EventPayload::WindowDestroyed { .. } => EventKind::WindowDestroyed,
        EventPayload::WindowActivated { .. } => EventKind::WindowActivated,
        EventPayload::TitleChanged { .. } => EventKind::TitleChanged,
        EventPayload::SurfaceCommit { .. } => EventKind::SurfaceCommit,
        EventPayload::FocusChanged { .. } => EventKind::FocusChanged,
        EventPayload::PopupAppeared { .. } => EventKind::PopupAppeared,
        EventPayload::PopupDisappeared { .. } => EventKind::PopupDisappeared,
        EventPayload::AppLaunched { .. } => EventKind::AppLaunched,
        EventPayload::Notification { .. } => EventKind::Notification,
        EventPayload::NotificationClosed { .. } => EventKind::NotificationClosed,
        EventPayload::NotificationAction { .. } => EventKind::NotificationAction,
    }
}

/// The window an event payload belongs to, when it names one.
pub open spec fn payload_window(p: EventPayload) -> Option<WindowId> {
    match p {
        EventPayload::WindowCreated { window_id, .. } => Some(window_id),
        EventPayload::WindowDestroyed { window_id } => Some(window_id),
        EventPayload::WindowActivated { window_id, .. } => Some(window_id),
        EventPayload::TitleChanged { window_id, .. } => Some(window_id),
        EventPayload::SurfaceCommit { window_id, .. } => Some(window_id),
        EventPayload::FocusChanged { window_id } => window_id,
        EventPayload::PopupAppeared { window_id, .. } => Some(window_id),
        EventPayload::PopupDisappeared { window_id, .. } => Some(window_id),
        _ => None,
    }
}

impl RuntimeEvent {
    /// The event's kind.
    pub fn kind(&self) -> (k: EventKind)
        ensures
            k == payload_kind(self.payload),
    {
        match &self.payload {
            EventPayload::WindowCreated { .. } => EventKind::WindowCreated,
            EventPayload::WindowDestroyed { .. } => EventKind::WindowDestroyed,
            EventPayload::WindowActivated { .. } => EventKind::WindowActivated,
            EventPayload::TitleChanged { .. } => EventKind::TitleChanged,
            EventPayload::SurfaceCommit { .. } => EventKind::SurfaceCommit,
            EventPayload::FocusChanged { .. } => EventKind::FocusChanged,
            EventPayload::PopupAppeared { .. } => EventKind::PopupAppeared,
            EventPayload::PopupDisappeared { .. } => EventKind::PopupDisappeared,
            EventPayload::AppLaunched { .. } => EventKind::AppLaunched,
            EventPayload::Notification { .. } => EventKind::Notification,
            EventPayload::NotificationClosed { .. } => EventKind::NotificationClosed,
            EventPayload::NotificationAction { .. } => EventKind::NotificationAction,
        }
    }

    /// The window the event belongs to, when it names one.
    pub fn window_id(&self) -> (w: Option<WindowId>)
        ensures
            w == payload_window(self.payload),
    {
        match &self.payload {
            EventPayload::WindowCreated { window_id, .. } => Some(*window_id),
            EventPayload::WindowDestroyed { window_id } => Some(*window_id),
            EventPayload::WindowActivated { window_id, .. } => Some(*window_id),
            EventPayload::TitleChanged { window_id, .. } => Some(*window_id),
            EventPayload::SurfaceCommit { window_id, .. } => Some(*window_id),
            EventPayload::FocusChanged { window_id } => *window_id,
            EventPayload::PopupAppeared { window_id, .. } => Some(*window_id),
            EventPayload::PopupDisappeared { window_id, .. } => Some(*window_id),
            _ => None,
        }
    }
}

/// Runtime capabilities reported by `ping`.
#[derive(Debug, Clone)]
pub struct RuntimeInfo {
    /// AGP protocol version.
    pub protocol_version: u32,
    /// Runtime build version.
    pub runtime_version: String,
    /// Milliseconds since runtime start.
    pub uptime_ms: u64,
    /// Chosen renderer (`"gl"` / `"pixman"`).
    pub renderer: String,
    /// Virtual output size.
    pub output: Size,
}

} // verus!
