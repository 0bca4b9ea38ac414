//! The value vocabulary shared by the accessibility view and the agent: ids,
//! rectangles, accessibility state flags, the accessible tree and the runtime's
//! error codes.

use vstd::prelude::*;

verus! {

/// Window identifier assigned by the runtime's window model.
#[derive(Debug, Clone, Copy, PartialEq, Eq, Hash, PartialOrd, Ord, Structural)]
pub struct WindowId(pub u64);

/// Runtime-assigned identifier of an accessible element.
#[derive(Debug, Clone, Copy, PartialEq, Eq, Hash, PartialOrd, Ord, Structural)]
pub struct AccessibleId(pub u64);

/// Runtime-assigned identifier of an executed action.
#[derive(Debug, Clone, Copy, PartialEq, Eq, Hash, PartialOrd, Ord, Structural)]
pub struct ActionId(pub u64);

/// Desktop-file id of an application (`org.gnome.Calculator`).
#[derive(Debug, Clone, PartialEq, Eq, Hash)]
pub struct AppId(pub String);

/// Window-relative rectangle in pixels.
#[derive(Debug, Clone, Copy, PartialEq, Eq, Hash, Structural)]
pub struct Rect {
    /// Left edge.
    pub x: i32,
    /// Top edge.
    pub y: i32,
    /// Width.
    pub w: u32,
    /// Height.
    pub h: u32,
}

/// Whether a rectangle has no area.
pub open spec fn rect_is_empty(r: Rect) -> bool {
    r.w == 0 || r.h == 0
}

/// A rectangle's area in pixels.
pub open spec fn rect_area(r: Rect) -> nat {
    (r.w as nat) * (r.h as nat)
}

/// The smaller of two integers.
pub open spec fn min_int(a: int, b: int) -> int {
    if a <= b { a } else { b }
}

/// The larger of two integers.
pub open spec fn max_int(a: int, b: int) -> int {
    if a >= b { a } else { b }
}

/// A length clamped into `u32`.
pub open spec fn clamp_u32(n: int) -> u32 {
    if n <= 0 { 0 } else if n <= u32::MAX { n as u32 } else { u32::MAX }
}

/// The bounding box of two rectangles; an empty rectangle contributes nothing
/// (a size beyond `u32::MAX` is clamped).
pub open spec fn rect_union(a: Rect, b: Rect) -> Rect {
    if rect_is_empty(a) {
        b
    } else if rect_is_empty(b) {
        a
    } else {
        let x = min_int(a.x as int, b.x as int);
        let y = min_int(a.y as int, b.y as int);
        let right = max_int(a.x + a.w, b.x + b.w);
        let bottom = max_int(a.y + a.h, b.y + b.h);
        Rect { x: x as i32, y: y as i32, w: clamp_u32(right - x), h: clamp_u32(bottom - y) }
    }
}

impl Rect {
    /// The empty rectangle.
    pub fn empty() -> (r: Rect)
        ensures
            r == (Rect { x: 0, y: 0, w: 0, h: 0 }),
    {
        Rect { x: 0, y: 0, w: 0, h: 0 }
    }

    /// A rectangle from its origin and size.
    pub fn new(x: i32, y: i32, w: u32, h: u32) -> (r: Rect)
        ensures
            r == (Rect { x, y, w, h }),
    {
        Rect { x, y, w, h }
    }

    /// Whether the rectangle has no area.
    pub fn is_empty(&self) -> (b: bool)
        ensures
            b == rect_is_empty(*self),
    {
        self.w == 0 || self.h == 0
    }

    /// The rectangle's area in pixels.
    pub fn area(&self) -> (a: u64)
        ensures
            a == rect_area(*self),
    {
        assert((self.w as nat) * (self.h as nat) <= 0xffff_ffffu64 * 0xffff_ffffu64) by (nonlinear_arith)
            requires
                self.w <= 0xffff_ffffu32,
                self.h <= 0xffff_ffffu32,
        ;
        (self.w as u64) * (self.h as u64)
    }

    /// The bounding box of this rectangle and `other`.
    pub fn union(&self, other: &Rect) -> (r: Rect)
        ensures
            r == rect_union(*self, *other),
    {
        if self.is_empty() {
            return *other;
        }
        if other.is_empty() {
            return *self;
        }
        let x: i64 = if (self.x as i64) <= (other.x as i64) { self.x as i64 } else { other.x as i64 };
        let y: i64 = if (self.y as i64) <= (other.y as i64) { self.y as i64 } else { other.y as i64 };
        let ra: i64 = self.x as i64 + self.w as i64;
        let rb: i64 = other.x as i64 + other.w as i64;
        let right: i64 = if ra >= rb { ra } else { rb };
        let ba: i64 = self.y as i64 + self.h as i64;
        let bb: i64 = other.y as i64 + other.h as i64;
        let bottom: i64 = if ba >= bb { ba } else { bb };
        let w: u32 = if right - x <= 0 { 0 } else if right - x <= 0xffff_ffffi64 { (right - x) as u32 } else { 0xffff_ffffu32 };
        let h: u32 = if bottom - y <= 0 { 0 } else if bottom - y <= 0xffff_ffffi64 { (bottom - y) as u32 } else { 0xffff_ffffu32 };
        Rect { x: x as i32, y: y as i32, w, h }
    }
}

/// A state flag of an accessible element (the closed wire vocabulary).
#[derive(Debug, Clone, Copy, PartialEq, Eq, Hash, Structural)]
pub enum AccessibleState {
    /// `enabled`
    Enabled,
    /// `sensitive`
    Sensitive,
    /// `showing`
    Showing,
    /// `visible`
    Visible,
    /// `focusable`
    Focusable,
    /// `focused`
    Focused,
    /// `checkable`
    Checkable,
    /// `checked`
    Checked,
    /// `selected`
    Selected,
    /// `selectable`
    Selectable,
    /// `expandable`
    Expandable,
    /// `expanded`
    Expanded,
    /// `collapsed`
    Collapsed,
    /// `editable`
    Editable,
    /// `multiline`
    Multiline,
    /// `read_only`
    ReadOnly,
    /// `pressed`
    Pressed,
    /// `active`
    Active,
    /// `busy`
    Busy,
    /// `modal`
    Modal,
    /// `defunct`
    Defunct,
    /// `invalid`
    Invalid,
}

/// The wire name of a state flag.
pub open spec fn state_wire_name(state: AccessibleState) -> Seq<char> {
    match state {
        AccessibleState::Enabled => "enabled"@,
        AccessibleState::Sensitive => "sensitive"@,
        AccessibleState::Showing => "showing"@,
        AccessibleState::Visible => "visible"@,
        AccessibleState::Focusable => "focusable"@,
        AccessibleState::Focused => "focused"@,
        AccessibleState::Checkable => "checkable"@,
        AccessibleState::Checked => "checked"@,
        AccessibleState::Selected => "selected"@,
        AccessibleState::Selectable => "selectable"@,
        AccessibleState::Expandable => "expandable"@,
        AccessibleState::Expanded => "expanded"@,
        AccessibleState::Collapsed => "collapsed"@,
        AccessibleState::Editable => "editable"@,
        AccessibleState::Multiline => "multiline"@,
        AccessibleState::ReadOnly => "read_only"@,
        AccessibleState::Pressed => "pressed"@,
        AccessibleState::Active => "active"@,
        AccessibleState::Busy => "busy"@,
        AccessibleState::Modal => "modal"@,
        AccessibleState::Defunct => "defunct"@,
        AccessibleState::Invalid => "invalid"@,
    }
}

/// The wire name of a state flag, as the outline and the wire spell it.
pub fn state_name(state: AccessibleState) -> (name: &'static str)
    ensures
        name@ == state_wire_name(state),
{
    match state {
        AccessibleState::Enabled => "enabled",
        AccessibleState::Sensitive => "sensitive",
        AccessibleState::Showing => "showing",
        AccessibleState::Visible => "visible",
        AccessibleState::Focusable => "focusable",
        AccessibleState::Focused => "focused",
        AccessibleState::Checkable => "checkable",
        AccessibleState::Checked => "checked",
        AccessibleState::Selected => "selected",
        AccessibleState::Selectable => "selectable",
        AccessibleState::Expandable => "expandable",
        AccessibleState::Expanded => "expanded",
        AccessibleState::Collapsed => "collapsed",
        AccessibleState::Editable => "editable",
        AccessibleState::Multiline => "multiline",
        AccessibleState::ReadOnly => "read_only",
        AccessibleState::Pressed => "pressed",
        AccessibleState::Active => "active",
        AccessibleState::Busy => "busy",
        AccessibleState::Modal => "modal",
        AccessibleState::Defunct => "defunct",
        AccessibleState::Invalid => "invalid",
    }
}

/// One node of a window's accessibility tree as the agent sees it.
#[derive(Debug, PartialEq, Eq)]
pub struct AccessibleNode {
    /// Runtime id of the element.
    pub id: AccessibleId,
    /// Normalized role name.
    pub role: String,
    /// Accessible name (may be empty).
    pub name: String,
    /// Extended help text.
    pub description: Option<String>,
    /// Text/value content.
    pub value: Option<String>,
    /// State flags that are set.
    pub states: Vec<AccessibleState>,
    /// Window-relative bounds.
    pub bounds: Option<Rect>,
    /// Names of the exposed actions.
    pub actions: Vec<String>,
    /// Child elements, in the toolkit's order.
    pub children: Vec<AccessibleNode>,
}

/// The abstract value of an [`AccessibleNode`].
pub struct AccessibleNodeView {
    /// Runtime id.
    pub id: u64,
    /// Role name.
    pub role: Seq<char>,
    /// Accessible name.
    pub name: Seq<char>,
    /// Extended help text.
    pub description: Option<Seq<char>>,
    /// Text/value content.
    pub value: Option<Seq<char>>,
    /// State flags.
    pub states: Seq<AccessibleState>,
    /// Window-relative bounds.
    pub bounds: Option<Rect>,
    /// Action names.
    pub actions: Seq<Seq<char>>,
    /// Children, in order.
    pub children: Seq<AccessibleNodeView>,
}

/// The abstract value of an accessible node.
pub open spec fn accessible_view(n: AccessibleNode) -> AccessibleNodeView
    decreases n, 1nat,
{
    AccessibleNodeView {
        id: n.id.0,
        role: n.role@,
        name: n.name@,
        description: match n.description {
            Some(d) => Some(d@),
            None => None,
        },
        value: match n.value {
            Some(v) => Some(v@),
            None => None,
        },
        states: n.states@,
        bounds: n.bounds,
        actions: n.actions@.map_values(|a: String| a@),
        children: accessibles_view(n.children@),
    }
}

/// The abstract values of a list of accessible nodes.
pub open spec fn accessibles_view(ns: Seq<AccessibleNode>) -> Seq<AccessibleNodeView>
    decreases ns, 0nat,
{
    if ns.len() == 0 {
        Seq::empty()
    } else {
        accessibles_view(ns.drop_last()).push(accessible_view(ns.last()))
    }
}

impl View for AccessibleNode {
    type V = AccessibleNodeView;

    open spec fn view(&self) -> AccessibleNodeView {
        accessible_view(*self)
    }
}

/// A window's accessibility tree.
#[derive(Debug, PartialEq, Eq)]
pub struct AccessibleTree {
    /// The window the tree belongs to.
    pub window_id: WindowId,
    /// Desktop-file id of the window's application, when known.
    pub app_id: Option<AppId>,
    /// Application name as reported by the toolkit.
    pub app_name: Option<String>,
    /// The window's root element.
    pub root: AccessibleNode,
    /// Number of nodes in the tree, the root included.
    pub node_count: u32,
    /// Whether a walk bound cut the tree short.
    pub truncated: bool,
}

/// One element matched by a search.
#[derive(Debug, Clone, PartialEq, Eq)]
pub struct AccessibleMatch {
    /// Runtime id of the element.
    pub id: AccessibleId,
    /// Normalized role name.
    pub role: String,
    /// Accessible name.
    pub name: String,
    /// Text/value content.
    pub value: Option<String>,
    /// State flags that are set.
    pub states: Vec<AccessibleState>,
    /// Window-relative bounds.
    pub bounds: Option<Rect>,
    /// Names of the exposed actions.
    pub actions: Vec<String>,
    /// Ancestor names from the window root down to, but excluding, the match.
    pub path: Vec<String>,
}

/// The runtime's error codes, as crossed with the wire.
#[derive(Debug, Clone, Copy, PartialEq, Eq, Hash, Structural)]
pub enum ErrorCode {
    /// `invalid_request`
    InvalidRequest,
    /// `unknown_method`
    UnknownMethod,
    /// `unknown_window`
    UnknownWindow,
    /// `unknown_app`
    UnknownApp,
    /// `launch_failed`
    LaunchFailed,
    /// `capture_failed`
    CaptureFailed,
    /// `render_failed`
    RenderFailed,
    /// `timeout`
    Timeout,
    /// `not_supported`
    NotSupported,
    /// `busy`
    Busy,
    /// `internal`
    Internal,
    /// `shutting_down`
    ShuttingDown,
    /// `protocol_version_mismatch`
    ProtocolVersionMismatch,
    /// `unknown_accessible`
    UnknownAccessible,
}

/// The wire name of an error code.
pub open spec fn error_code_wire_name(code: ErrorCode) -> Seq<char> {
    match code {
        ErrorCode::InvalidRequest => "invalid_request"@,
        ErrorCode::UnknownMethod => "unknown_method"@,
        ErrorCode::UnknownWindow => "unknown_window"@,
        ErrorCode::UnknownApp => "unknown_app"@,
        ErrorCode::LaunchFailed => "launch_failed"@,
        ErrorCode::CaptureFailed => "capture_failed"@,
        ErrorCode::RenderFailed => "render_failed"@,
        ErrorCode::Timeout => "timeout"@,
        ErrorCode::NotSupported => "not_supported"@,
        ErrorCode::Busy => "busy"@,
        ErrorCode::Internal => "internal"@,
        ErrorCode::ShuttingDown => "shutting_down"@,
        ErrorCode::ProtocolVersionMismatch => "protocol_version_mismatch"@,
        ErrorCode::UnknownAccessible => "unknown_accessible"@,
    }
}

impl ErrorCode {
    /// The wire name of this code.
    pub fn as_str(&self) -> (name: &'static str)
        ensures
            name@ == error_code_wire_name(*self),
    {
        match self {
            ErrorCode::InvalidRequest => "invalid_request",
            ErrorCode::UnknownMethod => "unknown_method",
            ErrorCode::UnknownWindow => "unknown_window",
            ErrorCode::UnknownApp => "unknown_app",
            ErrorCode::LaunchFailed => "launch_failed",
            ErrorCode::CaptureFailed => "capture_failed",
            ErrorCode::RenderFailed => "render_failed",
            ErrorCode::Timeout => "timeout",
            ErrorCode::NotSupported => "not_supported",
            ErrorCode::Busy => "busy",
            ErrorCode::Internal => "internal",
            ErrorCode::ShuttingDown => "shutting_down",
            ErrorCode::ProtocolVersionMismatch => "protocol_version_mismatch",
            ErrorCode::UnknownAccessible => "unknown_accessible",
        }
    }
}

/// An error as the runtime reports it: a code plus a human-readable message.
#[derive(Debug, Clone)]
pub struct CoreError {
    /// The error code.
    pub code: ErrorCode,
    /// The message.
    pub message: String,
}

} // verus!
